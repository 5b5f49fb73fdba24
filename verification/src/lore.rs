//! The LORE domain: archive texts, clinical records and module stories.
use vstd::prelude::*;
use crate::md::{extend, flat, push_line, push_str_line};
use crate::modules::{
    first_value, lookup_str, module_name, module_name_exec, module_title, module_title_exec,
    pair_views, type_suffix, type_suffix_exec,
};
use crate::ordered::{
    dv, get_sorted, insert_sorted, lemma_dv_get, lemma_dv_insert, lemma_map_insert, lemma_map_insert_binds, map_get, map_insert,
    sorted_keys,
};
use crate::patterns::{captures, grp, regex_first_captures};
use crate::strops::{lines, lines_str, split_seq, split_str, trim, trim_exec};
use crate::text::{
    append, append_str, chars_of, chars_of_all, contains, contains_str, eq_str, find, find_exec,
    opt_view, skip, slice_of, starts_with, starts_with_str, to_strings, views,
};
use crate::materials::{parse_u32_or, parse_u32_or_exec};
use crate::wikitext::{br_to, br_to_exec, clean_chars, cleaned};

verus! {

/// A `|key=value` line (the value running to the end of the line).
pub const PAT_LORE_PARAM: &'static str = "^\\|(.*?)=(.*)$";

/// An archive title key `档案N`.
pub const PAT_ARCHIVE_KEY: &'static str = "^档案(\\d+)$";

/// An archive text key `档案N文本`.
pub const PAT_ARCHIVE_TEXT: &'static str = "^档案(\\d+)文本$";

/// The module section up to the next top-level header.
pub const PAT_MOD_SECTION: &'static str = "(?s)==模组==(.+?)(?:==[^=]|$)";

/// Cleaned text with `<br>` as line breaks.
pub open spec fn lore_text(v: Seq<char>) -> Seq<char> {
    br_to(cleaned(v), "\n"@)
}

fn lore_text_exec(v: &Vec<char>) -> (r: Vec<char>)
    ensures
        r@ == lore_text(v@),
{
    let c = clean_chars(v);
    br_to_exec(&c, "\n")
}

/// A fenced text block.
pub open spec fn fenced(text: Seq<char>) -> Seq<char> {
    "\n```text\n"@ + text + "\n```"@
}

/// Reading state: output lines, pending title, archive entries by number (title, text),
/// and the archive whose text continues on the next lines.
pub type LoreState = (Seq<Seq<char>>, Seq<char>, Seq<(u64, (Seq<char>, Seq<char>))>, Option<u64>);

/// The archive entry for `k`, or an empty one.
pub open spec fn entry_or_empty(m: Seq<(u64, (Seq<char>, Seq<char>))>, k: u64) -> (
    Seq<char>,
    Seq<char>,
) {
    match map_get(m, k) {
        Some(e) => e,
        None => (Seq::empty(), Seq::empty()),
    }
}

/// One archive line read.
pub open spec fn lore_step(st: LoreState, line: Seq<char>) -> LoreState {
    let (out, title, m, cur) = st;
    if contains(line, "{{人员档案"@) || contains(line, "{{干员/临床诊断"@) {
        (out, Seq::empty(), m, None)
    } else {
        match regex_first_captures(PAT_LORE_PARAM@, line) {
            Some(c) => {
                let k = trim(grp(c, 1));
                let v = trim(grp(c, 2));
                if k == "标题"@ {
                    (out, cleaned(v), m, None)
                } else if k == "文本"@ {
                    let text = lore_text(v);
                    if title.len() == 0 {
                        (out.push(fenced(text)), title, m, None)
                    } else {
                        (out.push("\n### "@ + title + fenced(text)), Seq::empty(), m, None)
                    }
                } else {
                    match regex_first_captures(PAT_ARCHIVE_KEY@, k) {
                        Some(a) => {
                            let idx = parse_u32_or(grp(a, 1), 0) as u64;
                            let e = entry_or_empty(m, idx);
                            (out, title, map_insert(m, idx, (cleaned(v), e.1)), None)
                        },
                        None => match regex_first_captures(PAT_ARCHIVE_TEXT@, k) {
                            Some(a) => {
                                let idx = parse_u32_or(grp(a, 1), 0) as u64;
                                let e = entry_or_empty(m, idx);
                                (out, title, map_insert(m, idx, (e.0, lore_text(v))), Some(idx))
                            },
                            None => (out, title, m, None),
                        },
                    }
                }
            },
            None => {
                if starts_with(trim(line), "###"@) {
                    let h = trim(line);
                    (
                        if h != "### 干员档案"@ {
                            out.push("\n"@ + h + "\n"@)
                        } else {
                            out
                        },
                        title,
                        m,
                        None,
                    )
                } else {
                    match cur {
                        Some(idx) => {
                            if contains(line, "}}"@) {
                                st
                            } else {
                                match map_get(m, idx) {
                                    Some(e) => (
                                        out,
                                        title,
                                        map_insert(
                                            m,
                                            idx,
                                            (e.0, e.1 + "\n"@ + lore_text(line)),
                                        ),
                                        cur,
                                    ),
                                    None => st,
                                }
                            }
                        },
                        None => {
                            let t = trim(line);
                            if t.len() > 0 && !contains(t, "{{"@) && !contains(t, "}}"@)
                                && !contains(t, "|"@) {
                                let c = lore_text(t);
                                if c.len() > 0 {
                                    (out.push(c), title, m, cur)
                                } else {
                                    st
                                }
                            } else {
                                st
                            }
                        },
                    }
                }
            },
        }
    }
}

pub open spec fn lore_lines(ls: Seq<Seq<char>>) -> LoreState
    decreases ls.len(),
{
    if ls.len() == 0 {
        (Seq::empty(), Seq::empty(), Seq::empty(), None)
    } else {
        lore_step(lore_lines(ls.drop_last()), ls.last())
    }
}

/// The block of one archive entry (nothing if its title or text is empty).
pub open spec fn entry_block(e: (u64, (Seq<char>, Seq<char>))) -> Seq<Seq<char>> {
    if e.1.0.len() > 0 && e.1.1.len() > 0 {
        seq!["\n### "@ + e.1.0 + fenced(e.1.1) + "\n"@]
    } else {
        Seq::empty()
    }
}

pub open spec fn entry_blocks(m: Seq<(u64, (Seq<char>, Seq<char>))>) -> Seq<Seq<Seq<char>>> {
    m.map_values(|e: (u64, (Seq<char>, Seq<char>))| entry_block(e))
}

/// The archive reading state.
pub struct LoreAcc {
    pub out: Vec<Vec<char>>,
    pub title: Vec<char>,
    pub entries: Vec<(u64, (Vec<char>, Vec<char>))>,
    pub cur: Option<u64>,
}

impl LoreAcc {
    pub open spec fn state(&self) -> LoreState {
        (views(self.out@), self.title@, dv(self.entries@), self.cur)
    }
}

fn entry_or_empty_exec(m: &Vec<(u64, (Vec<char>, Vec<char>))>, k: u64) -> (r: (Vec<char>, Vec<char>))
    ensures
        (r.0@, r.1@) == entry_or_empty(dv(m@), k),
{
    broadcast use crate::text::lemma_chars_deep_view;

    proof {
        lemma_dv_get(m@, k);
    }
    match get_sorted(m, k) {
        Some(e) => (e.0.clone(), e.1.clone()),
        None => (Vec::new(), Vec::new()),
    }
}

fn fenced_exec(text: &Vec<char>) -> (r: Vec<char>)
    ensures
        r@ == fenced(text@),
{
    let mut r = chars_of("\n```text\n");
    append(&mut r, text);
    append_str(&mut r, "\n```");
    r
}

fn set_entry(acc: &mut LoreAcc, idx: u64, e: (Vec<char>, Vec<char>))
    ensures
        final(acc).entries@.len() >= 0,
        dv(final(acc).entries@) == map_insert(dv(old(acc).entries@), idx, (e.0@, e.1@)),
        final(acc).out == old(acc).out,
        final(acc).title == old(acc).title,
        final(acc).cur == old(acc).cur,
{
    broadcast use crate::text::lemma_chars_deep_view;

    proof {
        lemma_dv_insert(acc.entries@, idx, e);
    }
    insert_sorted(&mut acc.entries, idx, e);
}

fn lore_step_exec(acc: &mut LoreAcc, line: &Vec<char>)
    ensures
        final(acc).state() == lore_step(old(acc).state(), line@),
{
    broadcast use crate::text::lemma_chars_deep_view;

    if contains_str(line, "{{人员档案") || contains_str(line, "{{干员/临床诊断") {
        acc.title = Vec::new();
        acc.cur = None;
        return;
    }
    match captures(PAT_LORE_PARAM, line) {
        Some(c) => {
            let k0 = c.get(1);
            let k = trim_exec(&k0);
            let v0 = c.get(2);
            let v = trim_exec(&v0);
            acc.cur = None;
            if eq_str(&k, "标题") {
                acc.title = clean_chars(&v);
            } else if eq_str(&k, "文本") {
                let text = lore_text_exec(&v);
                let f = fenced_exec(&text);
                if acc.title.len() == 0 {
                    push_line(&mut acc.out, f);
                } else {
                    let mut l = chars_of("\n### ");
                    append(&mut l, &acc.title);
                    append(&mut l, &f);
                    push_line(&mut acc.out, l);
                    acc.title = Vec::new();
                }
            } else {
                match captures(PAT_ARCHIVE_KEY, &k) {
                    Some(a) => {
                        let n = a.get(1);
                        let idx = parse_u32_or_exec(&n, 0) as u64;
                        let e = entry_or_empty_exec(&acc.entries, idx);
                        let t = clean_chars(&v);
                        set_entry(acc, idx, (t, e.1));
                    },
                    None => match captures(PAT_ARCHIVE_TEXT, &k) {
                        Some(a) => {
                            let n = a.get(1);
                            let idx = parse_u32_or_exec(&n, 0) as u64;
                            let e = entry_or_empty_exec(&acc.entries, idx);
                            let t = lore_text_exec(&v);
                            set_entry(acc, idx, (e.0, t));
                            acc.cur = Some(idx);
                        },
                        None => {},
                    },
                }
            }
        },
        None => {
            let h = trim_exec(line);
            if starts_with_str(&h, "###") {
                if !eq_str(&h, "### 干员档案") {
                    let mut l = chars_of("\n");
                    append(&mut l, &h);
                    append_str(&mut l, "\n");
                    push_line(&mut acc.out, l);
                }
                acc.cur = None;
            } else {
                match acc.cur {
                    Some(idx) => {
                        if !contains_str(line, "}}") {
                            proof {
                                lemma_dv_get(acc.entries@, idx);
                            }
                            match get_sorted(&acc.entries, idx) {
                                Some(e) => {
                                    let t0 = e.0.clone();
                                    let mut t1 = e.1.clone();
                                    append_str(&mut t1, "\n");
                                    let more = lore_text_exec(line);
                                    append(&mut t1, &more);
                                    set_entry(acc, idx, (t0, t1));
                                },
                                None => {},
                            }
                        }
                    },
                    None => {
                        if h.len() > 0 && !contains_str(&h, "{{") && !contains_str(&h, "}}")
                            && !contains_str(&h, "|") {
                            let c = lore_text_exec(&h);
                            if c.len() > 0 {
                                push_line(&mut acc.out, c);
                            }
                        }
                    },
                }
            }
        },
    }
}

fn entry_block_exec(idx: u64, e: &(Vec<char>, Vec<char>)) -> (r: Vec<Vec<char>>)
    ensures
        views(r@) == entry_block((idx, (e.0@, e.1@))),
{
    let mut r: Vec<Vec<char>> = Vec::new();
    if e.0.len() > 0 && e.1.len() > 0 {
        let mut l = chars_of("\n### ");
        append(&mut l, &e.0);
        let f = fenced_exec(&e.1);
        append(&mut l, &f);
        append_str(&mut l, "\n");
        push_line(&mut r, l);
    }
    assert(views(r@) =~= entry_block((idx, (e.0@, e.1@))));
    r
}

// ---------------------------------------------------------------- module stories
/// Reading state of a story block: fields, field being read, its value, finished.
pub type StoryKv = (Seq<(Seq<char>, Seq<char>)>, Option<Seq<char>>, Seq<char>, bool);

pub open spec fn story_flush(st: StoryKv) -> StoryKv {
    match st.1 {
        Some(k) => (st.0.push((k, trim(st.2))), None, Seq::empty(), st.3),
        None => st,
    }
}

pub open spec fn story_kv_step(st: StoryKv, line: Seq<char>) -> StoryKv {
    if st.3 {
        st
    } else if trim(line) == "}}"@ {
        let f = story_flush(st);
        (f.0, f.1, f.2, true)
    } else if starts_with(line, "|"@) {
        let rest = line.drop_first();
        match find(rest, "="@) {
            Some(e) => {
                let f = story_flush(st);
                let k = trim(rest.take(e));
                if k.len() > 0 {
                    (f.0, Some(k), trim(rest.skip(e + 1)), f.3)
                } else {
                    f
                }
            },
            None => st,
        }
    } else if st.1 is Some {
        (
            st.0,
            st.1,
            if st.2.len() > 0 {
                st.2 + "\n"@ + trim(line)
            } else {
                st.2 + trim(line)
            },
            st.3,
        )
    } else {
        st
    }
}

pub open spec fn story_kv_lines(ls: Seq<Seq<char>>) -> StoryKv
    decreases ls.len(),
{
    if ls.len() == 0 {
        (Seq::empty(), None, Seq::empty(), false)
    } else {
        story_kv_step(story_kv_lines(ls.drop_last()), ls.last())
    }
}

/// The `|key=value` fields of a story block, read up to its first `}}` line.
pub open spec fn story_fields(text: Seq<char>) -> Seq<(Seq<char>, Seq<char>)> {
    story_flush(story_kv_lines(lines(text))).0
}

/// The heading of a story: `<type suffix>模：<name>`, or the name alone.
pub open spec fn story_title(fields: Seq<(Seq<char>, Seq<char>)>, title: Seq<char>) -> Seq<char> {
    let name = module_name(fields, title);
    let t = match first_value(fields, "类型"@) {
        Some(x) => x,
        None => Seq::empty(),
    };
    if t.len() == 0 {
        name
    } else {
        type_suffix(t) + "模："@ + name
    }
}

/// The story block of one module part.
pub open spec fn story_block(chunk: Seq<char>) -> Seq<Seq<char>> {
    if trim(chunk).len() == 0 {
        Seq::empty()
    } else {
        let full = "{{模组"@ + chunk;
        let fields = story_fields(full);
        if first_value(fields, "基础信息"@) is None || first_value(fields, "基础证章"@) is Some {
            Seq::empty()
        } else {
            seq![
                "\n#### "@ + story_title(fields, module_title(full)) + fenced(
                    lore_text(first_value(fields, "基础信息"@)->0),
                ) + "\n"@,
            ]
        }
    }
}

pub open spec fn story_blocks(parts: Seq<Seq<char>>) -> Seq<Seq<Seq<char>>> {
    parts.map_values(|c: Seq<char>| story_block(c))
}

/// The module section of the page: from `==模组==` to the next top-level header.
pub open spec fn story_section(main: Seq<char>) -> Option<Seq<char>> {
    match find(main, "==模组=="@) {
        Some(i) => {
            let from = main.skip(i);
            Some(
                match regex_first_captures(PAT_MOD_SECTION@, from) {
                    Some(c) => grp(c, 1),
                    None => from,
                },
            )
        },
        None => None,
    }
}

/// The module stories of a page.
pub open spec fn module_stories(main: Seq<char>) -> Seq<Seq<char>> {
    match story_section(main) {
        Some(sec) => flat(story_blocks(split_seq(sec, "{{模组"@))),
        None => Seq::empty(),
    }
}

/// The Markdown of the LORE domain.
pub open spec fn lore_output(ls: Seq<Seq<char>>, main: Seq<char>) -> Seq<Seq<char>> {
    let st = lore_lines(ls);
    let stories = module_stories(main);
    st.0 + flat(entry_blocks(st.2)) + if stories.len() > 0 {
        seq!["\n### 模组故事"@] + stories
    } else {
        Seq::empty()
    }
}

fn story_flush_exec(
    pairs: &mut Vec<(Vec<char>, Vec<char>)>,
    key: &mut Option<Vec<char>>,
    val: &mut Vec<char>,
)
    ensures
        ({
            let f = story_flush((pair_views(old(pairs)@), opt_view(*old(key)), old(val)@, false));
            (pair_views(final(pairs)@), opt_view(*final(key)), final(val)@) == (f.0, f.1, f.2)
        }),
{
    match key.take() {
        Some(k) => {
            let tv = trim_exec(val);
            let ghost old_p = pair_views(pairs@);
            pairs.push((k, tv));
            assert(pair_views(pairs@) =~= old_p.push((k@, tv@)));
            *val = Vec::new();
        },
        None => {},
    }
}

/// Reads the `|key=value` fields of a story block up to its first `}}` line.
pub fn parse_kv_block(text: &Vec<char>) -> (r: Vec<(Vec<char>, Vec<char>)>)
    ensures
        pair_views(r@) == story_fields(text@),
{
    let ls = crate::strops::lines_exec(text);
    let mut pairs: Vec<(Vec<char>, Vec<char>)> = Vec::new();
    let mut key: Option<Vec<char>> = None;
    let mut val: Vec<char> = Vec::new();
    let mut done = false;
    let mut i: usize = 0;
    assert(pair_views(pairs@) =~= Seq::<(Seq<char>, Seq<char>)>::empty());
    while i < ls.len()
        invariant
            i <= ls@.len(),
            (pair_views(pairs@), opt_view(key), val@, done) == story_kv_lines(
                views(ls@).take(i as int),
            ),
        decreases ls.len() - i,
    {
        let line = &ls[i];
        assert(views(ls@).take(i + 1).drop_last() =~= views(ls@).take(i as int));
        assert(views(ls@).take(i + 1).last() == line@);
        if !done {
            let t = trim_exec(line);
            if eq_str(&t, "}}") {
                story_flush_exec(&mut pairs, &mut key, &mut val);
                done = true;
            } else if starts_with_str(line, "|") {
                proof {
                    reveal_strlit("|");
                }
                let rest = skip(line, 1);
                assert(rest@ =~= line@.drop_first());
                let eqs = chars_of("=");
                match find_exec(&rest, &eqs) {
                    Some(e) => {
                        proof {
                            crate::text::lemma_find(rest@, eqs@);
                            reveal_strlit("=");
                        }
                        story_flush_exec(&mut pairs, &mut key, &mut val);
                        let kraw = slice_of(&rest, 0, e);
                        assert(kraw@ =~= rest@.take(e as int));
                        let k = trim_exec(&kraw);
                        assert(eqs@.len() == 1);
                        assert(e + 1 <= rest.len());
                        let v0 = skip(&rest, e + 1);
                        let v = trim_exec(&v0);
                        if k.len() > 0 {
                            key = Some(k);
                            val = v;
                        }
                    },
                    None => {},
                }
            } else if key.is_some() {
                if val.len() > 0 {
                    append_str(&mut val, "\n");
                }
                append(&mut val, &t);
            }
        }
        i = i + 1;
    }
    assert(views(ls@).take(ls@.len() as int) =~= views(ls@));
    story_flush_exec(&mut pairs, &mut key, &mut val);
    pairs
}

fn story_title_exec(fields: &Vec<(Vec<char>, Vec<char>)>, title: &Vec<char>) -> (r: Vec<char>)
    ensures
        r@ == story_title(pair_views(fields@), title@),
{
    let name = module_name_exec(fields, title);
    let t = match lookup_str(fields, "类型") {
        Some(x) => x,
        None => Vec::new(),
    };
    if t.len() == 0 {
        name
    } else {
        let mut r = type_suffix_exec(&t);
        append_str(&mut r, "模：");
        append(&mut r, &name);
        r
    }
}

fn story_block_exec(chunk: &Vec<char>) -> (r: Vec<Vec<char>>)
    ensures
        views(r@) == story_block(chunk@),
{
    let mut r: Vec<Vec<char>> = Vec::new();
    let tc = trim_exec(chunk);
    if tc.len() == 0 {
        return r;
    }
    let mut full = chars_of("{{模组");
    append(&mut full, chunk);
    let fields = parse_kv_block(&full);
    let story = lookup_str(&fields, "基础信息");
    if story.is_none() || lookup_str(&fields, "基础证章").is_some() {
        return r;
    }
    let st = story.unwrap();
    let title = module_title_exec(&full);
    let disp = story_title_exec(&fields, &title);
    let mut l = chars_of("\n#### ");
    append(&mut l, &disp);
    let txt = lore_text_exec(&st);
    let f = fenced_exec(&txt);
    append(&mut l, &f);
    append_str(&mut l, "\n");
    push_line(&mut r, l);
    assert(views(r@) =~= story_block(chunk@));
    r
}

fn story_section_exec(main: &Vec<char>) -> (r: Option<Vec<char>>)
    ensures
        opt_view(r) == story_section(main@),
{
    let marker = chars_of("==模组==");
    match find_exec(main, &marker) {
        Some(i) => {
            proof {
                crate::text::lemma_find(main@, marker@);
            }
            let from = skip(main, i);
            match captures(PAT_MOD_SECTION, &from) {
                Some(c) => Some(c.get(1)),
                None => Some(from),
            }
        },
        None => None,
    }
}

/// The module stories of a page, one Markdown block per module that has one.
pub fn parse_module_stories(main: &Vec<char>) -> (r: Vec<Vec<char>>)
    ensures
        views(r@) == module_stories(main@),
{
    match story_section_exec(main) {
        Some(sec) => {
            proof {
                reveal_strlit("{{模组");
            }
            let parts = split_str(&sec, "{{模组");
            let ghost sb = story_blocks(split_seq(sec@, "{{模组"@));
            let mut out: Vec<Vec<char>> = Vec::new();
            let mut j: usize = 0;
            while j < parts.len()
                invariant
                    j <= parts@.len(),
                    views(parts@) == split_seq(sec@, "{{模组"@),
                    sb == story_blocks(split_seq(sec@, "{{模组"@)),
                    views(out@) == flat(sb.take(j as int)),
                decreases parts.len() - j,
            {
                let b = story_block_exec(&parts[j]);
                assert(sb.take(j + 1).drop_last() =~= sb.take(j as int));
                assert(sb[j as int] == story_block(parts@[j as int]@));
                extend(&mut out, b);
                j = j + 1;
            }
            assert(sb.take(parts@.len() as int) =~= sb);
            out
        },
        None => Vec::new(),
    }
}

/// The LORE domain: archive blocks in page order, then the numbered archive entries
/// in ascending number, then the module stories.
pub fn parse_lore_chars(ls: &Vec<Vec<char>>, main: &Vec<char>) -> (r: Vec<Vec<char>>)
    ensures
        views(r@) == lore_output(views(ls@), main@),
{
    broadcast use crate::text::lemma_chars_deep_view;

    let mut acc = LoreAcc { out: Vec::new(), title: Vec::new(), entries: Vec::new(), cur: None };
    assert(acc.state() =~= (
        Seq::<Seq<char>>::empty(),
        Seq::<char>::empty(),
        Seq::<(u64, (Seq<char>, Seq<char>))>::empty(),
        None::<u64>,
    ));
    let mut i: usize = 0;
    while i < ls.len()
        invariant
            i <= ls@.len(),
            acc.state() == lore_lines(views(ls@).take(i as int)),
        decreases ls.len() - i,
    {
        assert(views(ls@).take(i + 1).drop_last() =~= views(ls@).take(i as int));
        assert(views(ls@).take(i + 1).last() == ls@[i as int]@);
        lore_step_exec(&mut acc, &ls[i]);
        i = i + 1;
    }
    assert(views(ls@).take(ls@.len() as int) =~= views(ls@));
    let ghost eb = entry_blocks(dv(acc.entries@));
    let mut result = acc.out;
    let ghost base = views(result@);
    let mut j: usize = 0;
    while j < acc.entries.len()
        invariant
            j <= acc.entries@.len(),
            eb == entry_blocks(dv(acc.entries@)),
            views(result@) == base + flat(eb.take(j as int)),
        decreases acc.entries.len() - j,
    {
        let b = entry_block_exec(acc.entries[j].0, &acc.entries[j].1);
        assert(dv(acc.entries@)[j as int] == (
            acc.entries@[j as int].0,
            (acc.entries@[j as int].1.0@, acc.entries@[j as int].1.1@),
        ));
        assert(eb.take(j + 1).drop_last() =~= eb.take(j as int));
        let ghost before = views(result@);
        extend(&mut result, b);
        assert(base + flat(eb.take(j + 1)) =~= before + eb[j as int]);
        j = j + 1;
    }
    assert(eb.take(acc.entries@.len() as int) =~= eb);
    let stories = parse_module_stories(main);
    if stories.len() > 0 {
        push_str_line(&mut result, "\n### 模组故事");
        extend(&mut result, stories);
    }
    assert(views(result@) =~= lore_output(views(ls@), main@));
    result
}

/// The LORE domain of a page: `lines` is the lore bucket, `main_text` the whole page.
pub fn parse_lore(lines: &Vec<String>, main_text: &str) -> (r: Vec<String>)
    ensures
        r.deep_view() == lore_output(lines.deep_view(), main_text@),
{
    let ls = chars_of_all(lines);
    let m = chars_of(main_text);
    let out = parse_lore_chars(&ls, &m);
    to_strings(&out)
}

/// The numbered archive entries come out in ascending number, each number once,
/// whatever the order of the page's lines.
pub proof fn law_archives_ascending(ls: Seq<Seq<char>>)
    ensures
        sorted_keys(lore_lines(ls).2),
    decreases ls.len(),
{
    if ls.len() > 0 {
        law_archives_ascending(ls.drop_last());
        let st = lore_lines(ls.drop_last());
        let line = ls.last();
        let m = st.2;
        if !(contains(line, "{{人员档案"@) || contains(line, "{{干员/临床诊断"@)) {
            match regex_first_captures(PAT_LORE_PARAM@, line) {
                Some(c) => {
                    let k = trim(grp(c, 1));
                    let v = trim(grp(c, 2));
                    match regex_first_captures(PAT_ARCHIVE_KEY@, k) {
                        Some(a) => {
                            let idx = parse_u32_or(grp(a, 1), 0) as u64;
                            let e = entry_or_empty(m, idx);
                            lemma_map_insert(m, idx, (cleaned(v), e.1));
                        },
                        None => match regex_first_captures(PAT_ARCHIVE_TEXT@, k) {
                            Some(a) => {
                                let idx = parse_u32_or(grp(a, 1), 0) as u64;
                                let e = entry_or_empty(m, idx);
                                lemma_map_insert(m, idx, (e.0, lore_text(v)));
                            },
                            None => {},
                        },
                    }
                },
                None => {
                    match st.3 {
                        Some(idx) => {
                            match map_get(m, idx) {
                                Some(e) => {
                                    lemma_map_insert(m, idx, (e.0, e.1 + "\n"@ + lore_text(line)));
                                },
                                None => {},
                            }
                        },
                        None => {},
                    }
                },
            }
        }
    }
}

/// Whether `line` is an archive field `|档案<N>=<v>` (a title, `text` false) or
/// `|档案<N>文本=<v>` (a text, `text` true), as read by the patterns.
pub open spec fn archive_field(line: Seq<char>, text: bool, n: u64, v: Seq<char>) -> bool {
    &&& !contains(line, "{{人员档案"@)
    &&& !contains(line, "{{干员/临床诊断"@)
    &&& match regex_first_captures(PAT_LORE_PARAM@, line) {
        Some(c) => {
            let k = trim(grp(c, 1));
            &&& trim(grp(c, 2)) == v
            &&& k != "标题"@
            &&& k != "文本"@
            &&& if text {
                regex_first_captures(PAT_ARCHIVE_KEY@, k) is None && match regex_first_captures(
                    PAT_ARCHIVE_TEXT@,
                    k,
                ) {
                    Some(a) => parse_u32_or(grp(a, 1), 0) == n,
                    None => false,
                }
            } else {
                match regex_first_captures(PAT_ARCHIVE_KEY@, k) {
                    Some(a) => parse_u32_or(grp(a, 1), 0) == n,
                    None => false,
                }
            }
        },
        None => false,
    }
}

/// An archive title field sets the title of archive `N` (cleaned) and an archive text
/// field its text (cleaned, `<br>` as line breaks), each keeping the other; an archive
/// with both is shown as its title as a heading followed by its text in a fence.
pub proof fn law_archive_fields(ls: Seq<Seq<char>>, line: Seq<char>, n: u64, v: Seq<char>, e: (u64, (Seq<char>, Seq<char>)))
    ensures
        archive_field(line, false, n, v) ==> map_get(lore_lines(ls.push(line)).2, n) == Some(
            (cleaned(v), entry_or_empty(lore_lines(ls).2, n).1),
        ),
        archive_field(line, true, n, v) ==> map_get(lore_lines(ls.push(line)).2, n) == Some(
            (entry_or_empty(lore_lines(ls).2, n).0, lore_text(v)),
        ),
        e.1.0.len() > 0 && e.1.1.len() > 0 ==> entry_block(e) == seq![
            "\n### "@ + e.1.0 + "\n```text\n"@ + e.1.1 + "\n```"@ + "\n"@,
        ],
        e.1.0.len() == 0 || e.1.1.len() == 0 ==> entry_block(e).len() == 0,
{
    assert(ls.push(line).drop_last() =~= ls);
    let m = lore_lines(ls).2;
    let ent = entry_or_empty(m, n);
    lemma_map_insert_binds(m, n, (cleaned(v), ent.1));
    lemma_map_insert_binds(m, n, (ent.0, lore_text(v)));
    if e.1.0.len() > 0 && e.1.1.len() > 0 {
        assert("\n### "@ + e.1.0 + fenced(e.1.1) + "\n"@ =~= "\n### "@ + e.1.0 + "\n```text\n"@ + e.1.1 + "\n```"@
            + "\n"@);
    }
}

} // verus!
