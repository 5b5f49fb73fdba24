//! The BUILD domain: promotion, skill and module material costs.
use vstd::prelude::*;
use crate::md::{extend, flat, push_line, push_str_line, row, row_exec};
use crate::modules::{
    first_value, lookup_str, module_chunks, module_fields, module_name, module_name_exec,
    module_title, module_title_exec, pair_views, parse_mod_kv_block, split_module_chunks,
};
use crate::ordered::{
    dv, get_sorted, insert_sorted, lemma_dv_get, lemma_dv_insert, lemma_map_insert, lemma_map_insert_binds, map_get,
    map_insert, sorted_keys,
};
use crate::patterns::{captures, grp, regex_first_captures};
use crate::strops::{
    decimal, decimal_exec, join, join_str, parse_uint, parse_uint_exec, trim, trim_exec, words,
    words_exec,
};
use crate::text::{
    append, append_str, chars_of, eq_str, find, find_exec, skip, to_strings, views,
    chars_of_all,
};
use crate::wikitext::{br_to, br_to_exec, clean_chars, cleaned};

verus! {

/// A `|key=value` line.
pub const PAT_PARAM: &'static str = "^\\|(.*?)=(.*?)$";

/// An elite promotion key.
pub const PAT_ELITE: &'static str = "^精[12]$";

/// A skill level key.
pub const PAT_GEN_LVL: &'static str = "^(\\d+)$";

/// A mastery key: skill ordinal then level.
pub const PAT_SPEC_LVL: &'static str = "^([一二三四])(\\d+)$";

/// `str::parse::<u32>()`, or `default` where it fails.
pub open spec fn parse_u32_or(s: Seq<char>, default: nat) -> nat {
    match parse_uint(s, u32::MAX as nat) {
        Some(n) => n,
        None => default,
    }
}

/// A `u32` read from the text, or `default` (see `parse_u32_or`).
pub fn parse_u32_or_exec(s: &Vec<char>, default: u32) -> (r: u32)
    ensures
        r == parse_u32_or(s@, default as nat),
{
    match parse_uint_exec(s, u32::MAX as u64) {
        Some(n) => n as u32,
        None => default,
    }
}

/// A material list: cleaned, `<br>` as space, the words joined by `, `.
pub open spec fn clean_material(raw: Seq<char>) -> Seq<char> {
    join(words(br_to(cleaned(raw), " "@)), ", "@)
}

/// A cleaned material list (see `clean_material`).
pub fn clean_material_exec(raw: &Vec<char>) -> (r: Vec<char>)
    ensures
        r@ == clean_material(raw@),
{
    let c = clean_chars(raw);
    let b = br_to_exec(&c, " ");
    let w = words_exec(&b);
    join_str(&w, ", ")
}

/// `一`..`四` as 1..4, anything else as 0.
pub open spec fn chinese_index(s: Seq<char>) -> u64 {
    if s == "一"@ {
        1
    } else if s == "二"@ {
        2
    } else if s == "三"@ {
        3
    } else if s == "四"@ {
        4
    } else {
        0
    }
}

fn chinese_index_exec(s: &Vec<char>) -> (r: u64)
    ensures
        r == chinese_index(s@),
{
    if eq_str(s, "一") {
        1
    } else if eq_str(s, "二") {
        2
    } else if eq_str(s, "三") {
        3
    } else if eq_str(s, "四") {
        4
    } else {
        0
    }
}

/// 1..4 as `一`..`四`, anything else as `?`.
pub open spec fn idx_to_chinese(n: nat) -> Seq<char> {
    if n == 1 {
        "一"@
    } else if n == 2 {
        "二"@
    } else if n == 3 {
        "三"@
    } else if n == 4 {
        "四"@
    } else {
        "?"@
    }
}

/// The Chinese numeral of a skill number (see `idx_to_chinese`).
pub fn idx_to_chinese_exec(n: u64) -> (r: Vec<char>)
    ensures
        r@ == idx_to_chinese(n as nat),
{
    if n == 1 {
        chars_of("一")
    } else if n == 2 {
        chars_of("二")
    } else if n == 3 {
        chars_of("三")
    } else if n == 4 {
        chars_of("四")
    } else {
        chars_of("?")
    }
}

/// Elite lines, skill level materials by level, and mastery materials by mastery level
/// then skill ordinal.
pub type BuildState = (Seq<Seq<char>>, Seq<(u64, Seq<char>)>, Seq<(u64, Seq<(u64, Seq<char>)>)>);

/// The inner map for `k`, or an empty one.
pub open spec fn inner_or_empty(m: Seq<(u64, Seq<(u64, Seq<char>)>)>, k: u64) -> Seq<
    (u64, Seq<char>),
> {
    match map_get(m, k) {
        Some(x) => x,
        None => Seq::empty(),
    }
}

/// One line of the page read for materials.
pub open spec fn build_step(st: BuildState, line: Seq<char>) -> BuildState {
    match regex_first_captures(PAT_PARAM@, line) {
        None => st,
        Some(c) => {
            let k = trim(grp(c, 1));
            let v = clean_material(trim(grp(c, 2)));
            if v.len() == 0 {
                st
            } else if regex_first_captures(PAT_ELITE@, k) is Some {
                (st.0.push("- **"@ + k + "**: "@ + v), st.1, st.2)
            } else {
                match regex_first_captures(PAT_GEN_LVL@, k) {
                    Some(g) => (st.0, map_insert(st.1, parse_u32_or(grp(g, 1), 0) as u64, v), st.2),
                    None => match regex_first_captures(PAT_SPEC_LVL@, k) {
                        Some(s) => {
                            let raw = parse_u32_or(grp(s, 2), 7);
                            let lvl = if raw >= 7 {
                                (raw - 7) as u64
                            } else {
                                0u64
                            };
                            let idx = chinese_index(grp(s, 1));
                            if idx == 0 {
                                st
                            } else {
                                (
                                    st.0,
                                    st.1,
                                    map_insert(
                                        st.2,
                                        lvl,
                                        map_insert(inner_or_empty(st.2, lvl), idx, v),
                                    ),
                                )
                            }
                        },
                        None => st,
                    },
                }
            }
        },
    }
}

pub open spec fn build_lines(ls: Seq<Seq<char>>) -> BuildState
    decreases ls.len(),
{
    if ls.len() == 0 {
        (Seq::empty(), Seq::empty(), Seq::empty())
    } else {
        build_step(build_lines(ls.drop_last()), ls.last())
    }
}

/// The cost lines of a module, for its levels 1 to 3.
pub open spec fn module_costs(fields: Seq<(Seq<char>, Seq<char>)>) -> Seq<Seq<char>> {
    let c1 = match first_value(fields, "材料消耗"@) {
        Some(r) => seq!["- **1级**: "@ + clean_material(r)],
        None => Seq::empty(),
    };
    let c2 = match first_value(fields, "材料消耗2"@) {
        Some(r) => seq!["- **2级**: "@ + clean_material(r)],
        None => Seq::empty(),
    };
    let c3 = match first_value(fields, "材料消耗3"@) {
        Some(r) => seq!["- **3级**: "@ + clean_material(r)],
        None => Seq::empty(),
    };
    c1 + c2 + c3
}

/// The material lines of one module block (none for the base badge or a module
/// without costs).
pub open spec fn module_cost_block(chunk: Seq<char>) -> Seq<Seq<char>> {
    let fields = module_fields(chunk);
    if first_value(fields, "基础证章"@) is Some {
        Seq::empty()
    } else {
        let costs = module_costs(fields);
        if costs.len() == 0 {
            Seq::empty()
        } else {
            seq!["\n#### "@ + module_name(fields, module_title(chunk))] + costs
        }
    }
}

/// The text from the module section header on, if there is one.
pub open spec fn module_section(full: Seq<char>) -> Option<Seq<char>> {
    match find(full, "==模组=="@) {
        Some(i) => Some(full.skip(i)),
        None => None,
    }
}

/// The material lines of each module block.
pub open spec fn cost_blocks(chunks: Seq<Seq<char>>) -> Seq<Seq<Seq<char>>> {
    chunks.map_values(|c: Seq<char>| module_cost_block(c))
}

/// The module material lines of the page.
pub open spec fn module_cost_lines(full: Seq<char>) -> Seq<Seq<char>> {
    match module_section(full) {
        Some(sec) => flat(cost_blocks(module_chunks(sec))),
        None => Seq::empty(),
    }
}

/// A skill level row: `| n-1 → n | materials |`.
pub open spec fn gen_row(e: (u64, Seq<char>)) -> Seq<char> {
    let from = if e.0 >= 1 {
        (e.0 - 1) as nat
    } else {
        0
    };
    "| "@ + decimal(from) + " → "@ + decimal(e.0 as nat) + " | "@ + e.1 + " |"@
}

/// The largest key of a map (0 for an empty one).
pub open spec fn max_key(m: Seq<(u64, Seq<char>)>) -> nat
    decreases m.len(),
{
    if m.len() == 0 {
        0
    } else {
        let rest = max_key(m.drop_last());
        if m.last().0 > rest {
            m.last().0 as nat
        } else {
            rest
        }
    }
}

/// The largest key of all inner maps.
pub open spec fn max_inner_key(m: Seq<(u64, Seq<(u64, Seq<char>)>)>) -> nat
    decreases m.len(),
{
    if m.len() == 0 {
        0
    } else {
        let rest = max_inner_key(m.drop_last());
        let here = max_key(m.last().1);
        if here > rest {
            here
        } else {
            rest
        }
    }
}

/// The highest skill ordinal of the mastery table (1 where it has none).
pub open spec fn max_skill(m: Seq<(u64, Seq<(u64, Seq<char>)>)>) -> nat {
    if max_inner_key(m) == 0 {
        1
    } else {
        max_inner_key(m)
    }
}

/// The header cells of the mastery table.
pub open spec fn spec_header_cells(n: nat) -> Seq<Seq<char>> {
    seq!["专精等级"@] + Seq::new(n, |i: int| "第"@ + idx_to_chinese((i + 1) as nat) + "技能"@)
}

/// The divider cells of the mastery table.
pub open spec fn spec_divider_cells(n: nat) -> Seq<Seq<char>> {
    seq![":---:"@] + Seq::new(n, |i: int| ":---"@)
}

/// One row of the mastery table.
pub open spec fn spec_row_cells(e: (u64, Seq<(u64, Seq<char>)>), n: nat) -> Seq<Seq<char>> {
    seq!["等级"@ + decimal(e.0 as nat)] + Seq::new(
        n,
        |i: int|
            match map_get(e.1, (i + 1) as u64) {
                Some(m) => m,
                None => "-"@,
            },
    )
}

pub open spec fn gen_rows(m: Seq<(u64, Seq<char>)>) -> Seq<Seq<char>> {
    m.map_values(|e: (u64, Seq<char>)| gen_row(e))
}

pub open spec fn spec_rows(m: Seq<(u64, Seq<(u64, Seq<char>)>)>, n: nat) -> Seq<Seq<char>> {
    m.map_values(|e: (u64, Seq<(u64, Seq<char>)>)| row(spec_row_cells(e, n)))
}

/// The skill level table (nothing when there are no skill level materials).
pub open spec fn gen_section(m: Seq<(u64, Seq<char>)>) -> Seq<Seq<char>> {
    if m.len() > 0 {
        seq!["#### 技能升级"@, "| 等级提升 | 消耗材料 |"@, "| :---: | :--- |"@] + gen_rows(m)
            + seq![Seq::empty()]
    } else {
        Seq::empty()
    }
}

/// The mastery table (nothing when there are no mastery materials).
pub open spec fn spec_section(m: Seq<(u64, Seq<(u64, Seq<char>)>)>) -> Seq<Seq<char>> {
    let n = max_skill(m);
    if m.len() > 0 {
        seq!["#### 专精训练"@, row(spec_header_cells(n)), row(spec_divider_cells(n))] + spec_rows(
            m,
            n,
        ) + seq![Seq::empty()]
    } else {
        Seq::empty()
    }
}

/// The Markdown of the BUILD domain for the given page lines.
pub open spec fn build_output(ls: Seq<Seq<char>>) -> Seq<Seq<char>> {
    let st = build_lines(ls);
    let mods = module_cost_lines(join(ls, "\n"@));
    let elite = if st.0.len() > 0 {
        seq!["### 精英化材料"@] + st.0 + seq![Seq::empty()]
    } else {
        Seq::empty()
    };
    let gen = gen_section(st.1);
    let spec = spec_section(st.2);
    let skills = if st.1.len() > 0 || st.2.len() > 0 {
        seq!["### 技能升级材料"@] + gen + spec
    } else {
        Seq::empty()
    };
    let modules = if mods.len() > 0 {
        seq!["### 模组材料"@] + mods + seq![Seq::empty()]
    } else {
        Seq::empty()
    };
    elite + skills + modules
}

/// The skill level table and the mastery table come out ordered by level, each level
/// in one row, whatever the order of the page's lines.
pub proof fn law_material_levels_ascending(ls: Seq<Seq<char>>)
    ensures
        sorted_keys(build_lines(ls).1),
        sorted_keys(build_lines(ls).2),
    decreases ls.len(),
{
    if ls.len() > 0 {
        law_material_levels_ascending(ls.drop_last());
        let st = build_lines(ls.drop_last());
        let line = ls.last();
        if let Some(c) = regex_first_captures(PAT_PARAM@, line) {
            let k = trim(grp(c, 1));
            let v = clean_material(trim(grp(c, 2)));
            if let Some(g) = regex_first_captures(PAT_GEN_LVL@, k) {
                lemma_map_insert(st.1, parse_u32_or(grp(g, 1), 0) as u64, v);
            }
            if let Some(sc) = regex_first_captures(PAT_SPEC_LVL@, k) {
                let raw = parse_u32_or(grp(sc, 2), 7);
                let lvl = if raw >= 7 {
                    (raw - 7) as u64
                } else {
                    0u64
                };
                let idx = chinese_index(grp(sc, 1));
                lemma_map_insert(st.2, lvl, map_insert(inner_or_empty(st.2, lvl), idx, v));
            }
        }
    }
}

/// The materials found so far.
pub struct MaterialState {
    pub elite: Vec<Vec<char>>,
    pub gen: Vec<(u64, Vec<char>)>,
    pub spec: Vec<(u64, Vec<(u64, Vec<char>)>)>,
}

impl MaterialState {
    pub open spec fn state(&self) -> BuildState {
        (views(self.elite@), dv(self.gen@), dv(self.spec@))
    }
}

proof fn lemma_pairs_deep(v: Vec<(u64, Vec<char>)>)
    ensures
        v.deep_view() == dv(v@),
{
    broadcast use crate::text::lemma_chars_deep_view;

    assert(v.deep_view() =~= dv(v@));
}

/// A copy of a map of material lists.
fn copy_pairs(v: &Vec<(u64, Vec<char>)>) -> (r: Vec<(u64, Vec<char>)>)
    ensures
        dv(r@) == dv(v@),
{
    broadcast use crate::text::lemma_chars_deep_view;

    let mut r: Vec<(u64, Vec<char>)> = Vec::new();
    let mut i: usize = 0;
    while i < v.len()
        invariant
            i <= v@.len(),
            dv(r@) =~= dv(v@).take(i as int),
        decreases v.len() - i,
    {
        let e = (v[i].0, v[i].1.clone());
        let ghost old_r = r@;
        r.push(e);
        assert(r@ =~= old_r.push(e));
        assert(dv(r@) =~= dv(old_r).push((e.0, e.1.deep_view())));
        assert(dv(v@).take(i + 1) =~= dv(v@).take(i as int).push(dv(v@)[i as int]));
        i = i + 1;
    }
    r
}

fn build_step_exec(st: &mut MaterialState, line: &Vec<char>)
    ensures
        final(st).state() == build_step(old(st).state(), line@),
{
    broadcast use crate::text::lemma_chars_deep_view;

    let c = match captures(PAT_PARAM, line) {
        Some(c) => c,
        None => return,
    };
    let k0 = c.get(1);
    let k = trim_exec(&k0);
    let v0 = c.get(2);
    let v1 = trim_exec(&v0);
    let v = clean_material_exec(&v1);
    if v.len() == 0 {
        return;
    }
    if captures(PAT_ELITE, &k).is_some() {
        let mut l = chars_of("- **");
        append(&mut l, &k);
        append_str(&mut l, "**: ");
        append(&mut l, &v);
        push_line(&mut st.elite, l);
        return;
    }
    match captures(PAT_GEN_LVL, &k) {
        Some(g) => {
            let n = g.get(1);
            let lvl = parse_u32_or_exec(&n, 0);
            proof {
                lemma_dv_insert(st.gen@, lvl as u64, v);
            }
            insert_sorted(&mut st.gen, lvl as u64, v);
            return;
        },
        None => {},
    }
    match captures(PAT_SPEC_LVL, &k) {
        Some(sc) => {
            let n = sc.get(2);
            let raw = parse_u32_or_exec(&n, 7);
            let lvl: u64 = if raw >= 7 {
                (raw - 7) as u64
            } else {
                0
            };
            let ch = sc.get(1);
            let idx = chinese_index_exec(&ch);
            if idx == 0 {
                return;
            }
            let mut inner: Vec<(u64, Vec<char>)> = match get_sorted(&st.spec, lvl) {
                Some(x) => copy_pairs(x),
                None => Vec::new(),
            };
            proof {
                lemma_dv_get(st.spec@, lvl);
                if let Some(x) = map_get(st.spec@, lvl) {
                    lemma_pairs_deep(x);
                }
                lemma_dv_insert(inner@, idx, v);
            }
            assert(dv(inner@) == inner_or_empty(dv(st.spec@), lvl));
            insert_sorted(&mut inner, idx, v);
            proof {
                lemma_pairs_deep(inner);
                lemma_dv_insert(st.spec@, lvl, inner);
            }
            insert_sorted(&mut st.spec, lvl, inner);
        },
        None => {},
    }
}

fn module_costs_exec(fields: &Vec<(Vec<char>, Vec<char>)>) -> (r: Vec<Vec<char>>)
    ensures
        views(r@) == module_costs(pair_views(fields@)),
{
    let mut r: Vec<Vec<char>> = Vec::new();
    let ghost f = pair_views(fields@);
    match lookup_str(fields, "材料消耗") {
        Some(raw) => {
            let mut l = chars_of("- **1级**: ");
            let m = clean_material_exec(&raw);
            append(&mut l, &m);
            push_line(&mut r, l);
        },
        None => {},
    }
    let ghost r1 = views(r@);
    match lookup_str(fields, "材料消耗2") {
        Some(raw) => {
            let mut l = chars_of("- **2级**: ");
            let m = clean_material_exec(&raw);
            append(&mut l, &m);
            push_line(&mut r, l);
        },
        None => {},
    }
    let ghost r2 = views(r@);
    match lookup_str(fields, "材料消耗3") {
        Some(raw) => {
            let mut l = chars_of("- **3级**: ");
            let m = clean_material_exec(&raw);
            append(&mut l, &m);
            push_line(&mut r, l);
        },
        None => {},
    }
    assert(views(r@) =~= module_costs(f));
    r
}

fn module_cost_block_exec(chunk: &Vec<char>) -> (r: Vec<Vec<char>>)
    ensures
        views(r@) == module_cost_block(chunk@),
{
    let fields = parse_mod_kv_block(chunk);
    if lookup_str(&fields, "基础证章").is_some() {
        return Vec::new();
    }
    let costs = module_costs_exec(&fields);
    if costs.len() == 0 {
        return Vec::new();
    }
    let title = module_title_exec(chunk);
    let name = module_name_exec(&fields, &title);
    let mut head = chars_of("\n#### ");
    append(&mut head, &name);
    let mut r: Vec<Vec<char>> = Vec::new();
    push_line(&mut r, head);
    extend(&mut r, costs);
    r
}

fn module_cost_lines_exec(full: &Vec<char>) -> (r: Vec<Vec<char>>)
    ensures
        views(r@) == module_cost_lines(full@),
{
    let marker = chars_of("==模组==");
    match find_exec(full, &marker) {
        Some(i) => {
            proof {
                crate::text::lemma_find(full@, marker@);
            }
            let sec = skip(full, i);
            let chunks = split_module_chunks(&sec);
            let ghost cb = cost_blocks(module_chunks(sec@));
            let mut out: Vec<Vec<char>> = Vec::new();
            let mut j: usize = 0;
            while j < chunks.len()
                invariant
                    j <= chunks@.len(),
                    views(chunks@) == module_chunks(sec@),
                    cb == cost_blocks(module_chunks(sec@)),
                    views(out@) == flat(cb.take(j as int)),
                decreases chunks.len() - j,
            {
                let b = module_cost_block_exec(&chunks[j]);
                assert(cb.take(j + 1).drop_last() =~= cb.take(j as int));
                assert(cb[j as int] == module_cost_block(chunks@[j as int]@));
                extend(&mut out, b);
                j = j + 1;
            }
            assert(cb.take(chunks@.len() as int) =~= cb);
            out
        },
        None => Vec::new(),
    }
}

fn max_key_exec(m: &Vec<(u64, Vec<char>)>) -> (r: u64)
    ensures
        r == max_key(dv(m@)),
{
    let mut acc: u64 = 0;
    let mut i: usize = 0;
    while i < m.len()
        invariant
            i <= m@.len(),
            acc == max_key(dv(m@).take(i as int)),
        decreases m.len() - i,
    {
        assert(dv(m@).take(i + 1).drop_last() =~= dv(m@).take(i as int));
        if m[i].0 > acc {
            acc = m[i].0;
        }
        i = i + 1;
    }
    assert(dv(m@).take(m@.len() as int) =~= dv(m@));
    acc
}

fn max_skill_exec(m: &Vec<(u64, Vec<(u64, Vec<char>)>)>) -> (r: u64)
    ensures
        r == max_skill(dv(m@)),
{
    let mut acc: u64 = 0;
    let mut i: usize = 0;
    while i < m.len()
        invariant
            i <= m@.len(),
            acc == max_inner_key(dv(m@).take(i as int)),
        decreases m.len() - i,
    {
        assert(dv(m@).take(i + 1).drop_last() =~= dv(m@).take(i as int));
        proof {
            lemma_pairs_deep(m@[i as int].1);
        }
        let here = max_key_exec(&m[i].1);
        if here > acc {
            acc = here;
        }
        i = i + 1;
    }
    assert(dv(m@).take(m@.len() as int) =~= dv(m@));
    if acc == 0 {
        1
    } else {
        acc
    }
}

fn gen_row_exec(lvl: u64, mat: &Vec<char>) -> (r: Vec<char>)
    ensures
        r@ == gen_row((lvl, mat@)),
{
    let from = if lvl >= 1 {
        lvl - 1
    } else {
        0
    };
    let mut r = chars_of("| ");
    let a = decimal_exec(from);
    append(&mut r, &a);
    append_str(&mut r, " → ");
    let b = decimal_exec(lvl);
    append(&mut r, &b);
    append_str(&mut r, " | ");
    append(&mut r, mat);
    append_str(&mut r, " |");
    r
}

fn spec_header_exec(n: u64) -> (r: Vec<Vec<char>>)
    ensures
        views(r@) == spec_header_cells(n as nat),
{
    let mut r: Vec<Vec<char>> = Vec::new();
    r.push(chars_of("专精等级"));
    let mut i: u64 = 0;
    while i < n
        invariant
            i <= n,
            r@.len() == i + 1,
            r@[0]@ == "专精等级"@,
            forall|j: int|
                0 <= j < i ==> (#[trigger] r@[j + 1])@ == "第"@ + idx_to_chinese((j + 1) as nat)
                    + "技能"@,
        decreases n - i,
    {
        let mut c = chars_of("第");
        let d = idx_to_chinese_exec(i + 1);
        append(&mut c, &d);
        append_str(&mut c, "技能");
        r.push(c);
        i = i + 1;
    }
    assert(views(r@) =~= spec_header_cells(n as nat));
    r
}

fn spec_divider_exec(n: u64) -> (r: Vec<Vec<char>>)
    ensures
        views(r@) == spec_divider_cells(n as nat),
{
    let mut r: Vec<Vec<char>> = Vec::new();
    r.push(chars_of(":---:"));
    let mut i: u64 = 0;
    while i < n
        invariant
            i <= n,
            r@.len() == i + 1,
            r@[0]@ == ":---:"@,
            forall|j: int| 0 <= j < i ==> (#[trigger] r@[j + 1])@ == ":---"@,
        decreases n - i,
    {
        r.push(chars_of(":---"));
        i = i + 1;
    }
    assert forall|k: int| 0 <= k < r@.len() implies views(r@)[k] == spec_divider_cells(
        n as nat,
    )[k] by {
        if k > 0 {
            assert(r@[(k - 1) + 1]@ == ":---"@);
        }
    }
    assert(views(r@) =~= spec_divider_cells(n as nat));
    r
}

fn spec_row_exec(lvl: u64, inner: &Vec<(u64, Vec<char>)>, n: u64) -> (r: Vec<Vec<char>>)
    ensures
        views(r@) == spec_row_cells((lvl, dv(inner@)), n as nat),
{
    broadcast use crate::text::lemma_chars_deep_view;

    let mut r: Vec<Vec<char>> = Vec::new();
    let mut first = chars_of("等级");
    let d = decimal_exec(lvl);
    append(&mut first, &d);
    r.push(first);
    let mut i: u64 = 0;
    while i < n
        invariant
            i <= n,
            r@.len() == i + 1,
            r@[0]@ == "等级"@ + decimal(lvl as nat),
            forall|j: int|
                0 <= j < i ==> (#[trigger] r@[j + 1])@ == match map_get(
                    dv(inner@),
                    (j + 1) as u64,
                ) {
                    Some(m) => m,
                    None => "-"@,
                },
        decreases n - i,
    {
        proof {
            lemma_dv_get(inner@, (i + 1) as u64);
        }
        let cell = match get_sorted(inner, i + 1) {
            Some(m) => m.clone(),
            None => chars_of("-"),
        };
        r.push(cell);
        i = i + 1;
    }
    assert(views(r@) =~= spec_row_cells((lvl, dv(inner@)), n as nat));
    r
}

fn gen_section_exec(gen: &Vec<(u64, Vec<char>)>) -> (r: Vec<Vec<char>>)
    ensures
        views(r@) == gen_section(dv(gen@)),
{
    broadcast use crate::text::lemma_chars_deep_view;

    let mut result: Vec<Vec<char>> = Vec::new();
    if gen.len() == 0 {
        return result;
    }
    push_str_line(&mut result, "#### 技能升级");
    push_str_line(&mut result, "| 等级提升 | 消耗材料 |");
    push_str_line(&mut result, "| :---: | :--- |");
    let ghost before = views(result@);
    let mut j: usize = 0;
    while j < gen.len()
        invariant
            j <= gen@.len(),
            views(result@) == before + gen_rows(dv(gen@)).take(j as int),
        decreases gen.len() - j,
    {
        let rw = gen_row_exec(gen[j].0, &gen[j].1);
        assert(dv(gen@)[j as int] == (gen@[j as int].0, gen@[j as int].1@));
        assert(gen_rows(dv(gen@)).take(j + 1) =~= gen_rows(dv(gen@)).take(j as int).push(rw@));
        push_line(&mut result, rw);
        j = j + 1;
    }
    assert(gen_rows(dv(gen@)).take(gen@.len() as int) =~= gen_rows(dv(gen@)));
    push_line(&mut result, Vec::new());
    assert(views(result@) =~= gen_section(dv(gen@)));
    result
}

fn spec_section_exec(spec: &Vec<(u64, Vec<(u64, Vec<char>)>)>) -> (r: Vec<Vec<char>>)
    ensures
        views(r@) == spec_section(dv(spec@)),
{
    let mut result: Vec<Vec<char>> = Vec::new();
    if spec.len() == 0 {
        return result;
    }
    push_str_line(&mut result, "#### 专精训练");
    let n = max_skill_exec(spec);
    let hc = spec_header_exec(n);
    let hr = row_exec(&hc);
    push_line(&mut result, hr);
    let dc = spec_divider_exec(n);
    let dr = row_exec(&dc);
    push_line(&mut result, dr);
    let ghost before = views(result@);
    let mut j: usize = 0;
    while j < spec.len()
        invariant
            j <= spec@.len(),
            n == max_skill(dv(spec@)),
            views(result@) == before + spec_rows(dv(spec@), n as nat).take(j as int),
        decreases spec.len() - j,
    {
        proof {
            lemma_pairs_deep(spec@[j as int].1);
        }
        let cells = spec_row_exec(spec[j].0, &spec[j].1, n);
        let rw = row_exec(&cells);
        assert(dv(spec@)[j as int] == (spec@[j as int].0, dv(spec@[j as int].1@)));
        assert(spec_rows(dv(spec@), n as nat).take(j + 1) =~= spec_rows(dv(spec@), n as nat).take(
            j as int,
        ).push(rw@));
        push_line(&mut result, rw);
        j = j + 1;
    }
    assert(spec_rows(dv(spec@), n as nat).take(spec@.len() as int) =~= spec_rows(
        dv(spec@),
        n as nat,
    ));
    push_line(&mut result, Vec::new());
    assert(views(result@) =~= spec_section(dv(spec@)));
    result
}

/// Reads the material costs of a page (all its lines): elite promotion materials, skill
/// level materials by level, the mastery table by level and skill, and module material
/// costs, as Markdown lines.
pub fn parse_build_chars(ls: &Vec<Vec<char>>) -> (r: Vec<Vec<char>>)
    ensures
        views(r@) == build_output(views(ls@)),
{
    broadcast use crate::text::lemma_chars_deep_view;

    let full = join_str(ls, "\n");
    let mut st = MaterialState { elite: Vec::new(), gen: Vec::new(), spec: Vec::new() };
    let mut i: usize = 0;
    assert(st.state() =~= (
        Seq::<Seq<char>>::empty(),
        Seq::<(u64, Seq<char>)>::empty(),
        Seq::<(u64, Seq<(u64, Seq<char>)>)>::empty(),
    ));
    while i < ls.len()
        invariant
            i <= ls@.len(),
            st.state() == build_lines(views(ls@).take(i as int)),
        decreases ls.len() - i,
    {
        assert(views(ls@).take(i + 1).drop_last() =~= views(ls@).take(i as int));
        assert(views(ls@).take(i + 1).last() == ls@[i as int]@);
        build_step_exec(&mut st, &ls[i]);
        i = i + 1;
    }
    assert(views(ls@).take(ls@.len() as int) =~= views(ls@));
    let mods = module_cost_lines_exec(&full);
    let ghost sst = build_lines(views(ls@));
    let mut result: Vec<Vec<char>> = Vec::new();
    if st.elite.len() > 0 {
        push_str_line(&mut result, "### 精英化材料");
        extend(&mut result, st.elite);
        push_line(&mut result, Vec::new());
    }
    let ghost after_elite = views(result@);
    let has_gen = st.gen.len() > 0;
    let has_spec = st.spec.len() > 0;
    if has_gen || has_spec {
        push_str_line(&mut result, "### 技能升级材料");
        let g = gen_section_exec(&st.gen);
        extend(&mut result, g);
        let sp = spec_section_exec(&st.spec);
        extend(&mut result, sp);
    }
    if mods.len() > 0 {
        push_str_line(&mut result, "### 模组材料");
        extend(&mut result, mods);
        push_line(&mut result, Vec::new());
    }
    assert(views(result@) =~= build_output(views(ls@)));
    result
}

/// The BUILD domain of a page: material costs as Markdown lines.
pub fn parse_build(lines: &Vec<String>) -> (r: Vec<String>)
    ensures
        r.deep_view() == build_output(lines.deep_view()),
{
    let ls = chars_of_all(lines);
    let out = parse_build_chars(&ls);
    to_strings(&out)
}

/// Whether `line` is a `|<ordinal><N>=<value>` mastery field of a skill: its key is read
/// as the skill ordinal `ordinal` and the number `N` = `level + 7`, and its cleaned value
/// is the non-empty `v`.
pub open spec fn mastery_field(line: Seq<char>, ordinal: Seq<char>, level: u64, v: Seq<char>) -> bool {
    match regex_first_captures(PAT_PARAM@, line) {
        Some(c) => {
            let k = trim(grp(c, 1));
            &&& clean_material(trim(grp(c, 2))) == v
            &&& v.len() > 0
            &&& regex_first_captures(PAT_ELITE@, k) is None
            &&& regex_first_captures(PAT_GEN_LVL@, k) is None
            &&& match regex_first_captures(PAT_SPEC_LVL@, k) {
                Some(s) => grp(s, 1) == ordinal && parse_u32_or(grp(s, 2), 7) == level + 7,
                None => false,
            }
        },
        None => false,
    }
}

/// The material of skill `skill` at mastery level `level`, as read so far.
pub open spec fn mastery_material(st: BuildState, level: u64, skill: u64) -> Option<Seq<char>> {
    map_get(inner_or_empty(st.2, level), skill)
}

/// A mastery field of the first, second, third or fourth skill (`一`, `二`, `三`, `四`)
/// puts its material at its mastery level under skill 1, 2, 3 or 4 respectively.
pub proof fn law_mastery_field_lands_under_its_skill(ls: Seq<Seq<char>>, line: Seq<char>, level: u64, v: Seq<char>)
    ensures
        mastery_field(line, "一"@, level, v) ==> mastery_material(build_lines(ls.push(line)), level, 1) == Some(v),
        mastery_field(line, "二"@, level, v) ==> mastery_material(build_lines(ls.push(line)), level, 2) == Some(v),
        mastery_field(line, "三"@, level, v) ==> mastery_material(build_lines(ls.push(line)), level, 3) == Some(v),
        mastery_field(line, "四"@, level, v) ==> mastery_material(build_lines(ls.push(line)), level, 4) == Some(v),
{
    reveal_strlit("一");
    reveal_strlit("二");
    reveal_strlit("三");
    reveal_strlit("四");
    assert("一"@[0] != "二"@[0] && "一"@[0] != "三"@[0] && "一"@[0] != "四"@[0]);
    assert("二"@[0] != "三"@[0] && "二"@[0] != "四"@[0] && "三"@[0] != "四"@[0]);
    assert(ls.push(line).drop_last() =~= ls);
    let st = build_lines(ls);
    assert(chinese_index("一"@) == 1);
    assert(chinese_index("二"@) == 2);
    assert(chinese_index("三"@) == 3);
    assert(chinese_index("四"@) == 4);
    if let Some(c) = regex_first_captures(PAT_PARAM@, line) {
        let k = trim(grp(c, 1));
        if let Some(sc) = regex_first_captures(PAT_SPEC_LVL@, k) {
            let idx = chinese_index(grp(sc, 1));
            lemma_map_insert_binds(inner_or_empty(st.2, level), idx, v);
            lemma_map_insert_binds(st.2, level, map_insert(inner_or_empty(st.2, level), idx, v));
        }
    }
}

/// Whether `line` is a `|<N>=<value>` skill level field: its key is read as the number
/// `level`, and its cleaned value is the non-empty `v`.
pub open spec fn level_field(line: Seq<char>, level: u64, v: Seq<char>) -> bool {
    match regex_first_captures(PAT_PARAM@, line) {
        Some(c) => {
            let k = trim(grp(c, 1));
            &&& clean_material(trim(grp(c, 2))) == v
            &&& v.len() > 0
            &&& regex_first_captures(PAT_ELITE@, k) is None
            &&& match regex_first_captures(PAT_GEN_LVL@, k) {
                Some(g) => parse_u32_or(grp(g, 1), 0) == level,
                None => false,
            }
        },
        None => false,
    }
}

/// Whether `line` is a `|精1=<value>` or `|精2=<value>` promotion field with key `k` and
/// non-empty cleaned value `v`.
pub open spec fn elite_field(line: Seq<char>, k: Seq<char>, v: Seq<char>) -> bool {
    match regex_first_captures(PAT_PARAM@, line) {
        Some(c) => {
            &&& trim(grp(c, 1)) == k
            &&& clean_material(trim(grp(c, 2))) == v
            &&& v.len() > 0
            &&& regex_first_captures(PAT_ELITE@, k) is Some
        },
        None => false,
    }
}

/// A skill level field puts its material at its level, a promotion field adds the line
/// `- **<key>**: <materials>` after the promotion lines read so far, and neither touches
/// the other tables.
pub proof fn law_level_and_promotion_fields(ls: Seq<Seq<char>>, line: Seq<char>, level: u64, k: Seq<char>, v: Seq<char>)
    ensures
        level_field(line, level, v) ==> {
            let (a, b) = (build_lines(ls), build_lines(ls.push(line)));
            &&& map_get(b.1, level) == Some(v)
            &&& b.0 == a.0
            &&& b.2 == a.2
        },
        elite_field(line, k, v) ==> {
            let (a, b) = (build_lines(ls), build_lines(ls.push(line)));
            &&& b.0 == a.0.push("- **"@ + k + "**: "@ + v)
            &&& b.1 == a.1
            &&& b.2 == a.2
        },
{
    assert(ls.push(line).drop_last() =~= ls);
    let st = build_lines(ls);
    if level_field(line, level, v) {
        lemma_map_insert_binds(st.1, level, v);
    }
}

} // verus!
