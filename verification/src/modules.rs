//! The `{{...}}` template blocks of the module section and their `|key=value` fields.
use vstd::prelude::*;
use crate::patterns::{captures, grp, regex_first_captures};
use crate::strops::{lemma_split_nonempty, lines, lines_exec, split_seq, split_str, trim, trim_exec};
use crate::text::{
    append, append_str, chars_of, contains, contains_str, eq, opt_view, eq_str, find, find_exec, skip, slice_of, starts_with,
    starts_with_str, views,
};

verus! {

/// A `===title===` line of a module block.
pub const PAT_MOD_TITLE: &'static str = "===(.*?)=== *\n";

/// The outermost `{{ ... }}` blocks, found by scanning from `i` at nesting `depth`, the
/// open block (if `depth > 0`) having started at `start`.
pub open spec fn chunks_scan(s: Seq<char>, i: int, depth: nat, start: int) -> Seq<Seq<char>>
    decreases s.len() - i,
{
    if i < 0 || i + 1 >= s.len() {
        Seq::empty()
    } else if s[i] == '{' && s[i + 1] == '{' {
        chunks_scan(
            s,
            i + 2,
            depth + 1,
            if depth == 0 {
                i
            } else {
                start
            },
        )
    } else if s[i] == '}' && s[i + 1] == '}' && depth > 0 {
        if depth == 1 {
            seq![s.subrange(start, i + 2)] + chunks_scan(s, i + 2, 0, start)
        } else {
            chunks_scan(s, i + 2, (depth - 1) as nat, start)
        }
    } else {
        chunks_scan(s, i + 1, depth, start)
    }
}

/// The outermost balanced `{{ ... }}` blocks of `s`, in order.
pub open spec fn module_chunks(s: Seq<char>) -> Seq<Seq<char>> {
    chunks_scan(s, 0, 0, 0)
}

/// Splits text into its outermost `{{ ... }}` blocks.
pub fn split_module_chunks(s: &Vec<char>) -> (r: Vec<Vec<char>>)
    ensures
        views(r@) == module_chunks(s@),
{
    let mut out: Vec<Vec<char>> = Vec::new();
    let mut depth: usize = 0;
    let mut start: usize = 0;
    let mut i: usize = 0;
    while s.len() > 1 && i < s.len() - 1
        invariant
            i <= s@.len(),
            depth <= i,
            depth > 0 ==> start < i,
            views(out@) + chunks_scan(s@, i as int, depth as nat, start as int) == module_chunks(
                s@,
            ),
        decreases s@.len() - i,
    {
        let ghost old_out = views(out@);
        if s[i] == '{' && s[i + 1] == '{' {
            if depth == 0 {
                start = i;
            }
            depth = depth + 1;
            i = i + 2;
            continue;
        }
        if s[i] == '}' && s[i + 1] == '}' && depth > 0 {
            depth = depth - 1;
            if depth == 0 {
                let c = slice_of(s, start, i + 2);
                out.push(c);
                assert(views(out@) =~= old_out.push(c@));
                assert(views(out@) + chunks_scan(s@, i + 2, 0, start as int) =~= old_out + (
                seq![c@] + chunks_scan(s@, i + 2, 0, start as int)));
            }
            i = i + 2;
            continue;
        }
        i = i + 1;
    }
    assert(views(out@) + Seq::<Seq<char>>::empty() =~= views(out@));
    out
}

/// Reading state: the fields found so far, the field being read, and its value so far.
pub type KvState = (Seq<(Seq<char>, Seq<char>)>, Option<Seq<char>>, Seq<char>);

/// The field being read, finished (its value trimmed).
pub open spec fn kv_flush(st: KvState) -> KvState {
    match st.1 {
        Some(k) => (st.0.push((k, trim(st.2))), None, Seq::empty()),
        None => st,
    }
}

/// One line of a module block read.
pub open spec fn kv_step(st: KvState, line: Seq<char>) -> KvState {
    let t = trim(line);
    if t == "{{"@ || t == "}}"@ {
        kv_flush(st)
    } else if starts_with(line, "|"@) {
        let rest = line.drop_first();
        match find(rest, "="@) {
            Some(e) => {
                let f = kv_flush(st);
                let k = trim(rest.take(e));
                if k.len() > 0 {
                    (f.0, Some(k), rest.skip(e + 1))
                } else {
                    f
                }
            },
            None => st,
        }
    } else if st.1 is Some {
        (
            st.0,
            st.1,
            if st.2.len() > 0 {
                st.2 + "\n"@ + t
            } else {
                st.2 + t
            },
        )
    } else {
        st
    }
}

pub open spec fn kv_lines(ls: Seq<Seq<char>>) -> KvState
    decreases ls.len(),
{
    if ls.len() == 0 {
        (Seq::empty(), None, Seq::empty())
    } else {
        kv_step(kv_lines(ls.drop_last()), ls.last())
    }
}

/// The `|key=value` fields of a block, in order; a value runs on over the following
/// lines (trimmed, joined by line breaks) until the next field or a `{{` / `}}` line.
pub open spec fn module_fields(text: Seq<char>) -> Seq<(Seq<char>, Seq<char>)> {
    kv_flush(kv_lines(lines(text))).0
}

pub open spec fn pair_views(v: Seq<(Vec<char>, Vec<char>)>) -> Seq<(Seq<char>, Seq<char>)> {
    v.map_values(|p: (Vec<char>, Vec<char>)| (p.0@, p.1@))
}

fn kv_flush_exec(
    pairs: &mut Vec<(Vec<char>, Vec<char>)>,
    key: &mut Option<Vec<char>>,
    val: &mut Vec<char>,
)
    ensures
        (pair_views(final(pairs)@), opt_view(*final(key)), final(val)@) == kv_flush(
            (pair_views(old(pairs)@), opt_view(*old(key)), old(val)@),
        ),
{
    match key.take() {
        Some(k) => {
            let tv = trim_exec(val);
            let ghost old_p = pair_views(pairs@);
            pairs.push((k, tv));
            assert(pair_views(pairs@) =~= old_p.push((k@, tv@)));
            *val = Vec::new();
        },
        None => {},
    }
}

/// Reads the `|key=value` fields of a module block.
pub fn parse_mod_kv_block(text: &Vec<char>) -> (r: Vec<(Vec<char>, Vec<char>)>)
    ensures
        pair_views(r@) == module_fields(text@),
{
    let ls = lines_exec(text);
    let mut pairs: Vec<(Vec<char>, Vec<char>)> = Vec::new();
    let mut key: Option<Vec<char>> = None;
    let mut val: Vec<char> = Vec::new();
    let mut i: usize = 0;
    assert(pair_views(pairs@) =~= Seq::<(Seq<char>, Seq<char>)>::empty());
    while i < ls.len()
        invariant
            i <= ls@.len(),
            (pair_views(pairs@), opt_view(key), val@) == kv_lines(
                views(ls@).take(i as int),
            ),
        decreases ls.len() - i,
    {
        let line = &ls[i];
        assert(views(ls@).take(i + 1).drop_last() =~= views(ls@).take(i as int));
        assert(views(ls@).take(i + 1).last() == line@);
        let t = trim_exec(line);
        if eq_str(&t, "{{") || eq_str(&t, "}}") {
            kv_flush_exec(&mut pairs, &mut key, &mut val);
        } else if starts_with_str(line, "|") {
            proof {
                reveal_strlit("|");
            }
            let rest = skip(line, 1);
            assert(rest@ =~= line@.drop_first());
            let eqs = chars_of("=");
            match find_exec(&rest, &eqs) {
                Some(e) => {
                    proof {
                        crate::text::lemma_find(rest@, eqs@);
                        reveal_strlit("=");
                    }
                    kv_flush_exec(&mut pairs, &mut key, &mut val);
                    let kraw = slice_of(&rest, 0, e);
                    assert(kraw@ =~= rest@.take(e as int));
                    let k = trim_exec(&kraw);
                    assert(eqs@.len() == 1);
                    assert(e + 1 <= rest.len());
                    let v = skip(&rest, e + 1);
                    if k.len() > 0 {
                        key = Some(k);
                        val = v;
                    }
                },
                None => {},
            }
        } else if key.is_some() {
            if val.len() > 0 {
                append_str(&mut val, "\n");
            }
            append(&mut val, &t);
        }
        i = i + 1;
    }
    assert(views(ls@).take(ls@.len() as int) =~= views(ls@));
    kv_flush_exec(&mut pairs, &mut key, &mut val);
    pairs
}

/// The value of the first field named `k` (the first binding of a key wins).
pub open spec fn first_value(pairs: Seq<(Seq<char>, Seq<char>)>, k: Seq<char>) -> Option<
    Seq<char>,
>
    decreases pairs.len(),
{
    if pairs.len() == 0 {
        None
    } else if pairs[0].0 == k {
        Some(pairs[0].1)
    } else {
        first_value(pairs.drop_first(), k)
    }
}

/// Looks up the first field named `k`.
pub fn lookup(pairs: &Vec<(Vec<char>, Vec<char>)>, k: &Vec<char>) -> (r: Option<Vec<char>>)
    ensures
        r matches Some(v) ==> first_value(pair_views(pairs@), k@) == Some(v@),
        r is None ==> first_value(pair_views(pairs@), k@) is None,
{
    let mut i: usize = 0;
    assert(pair_views(pairs@).skip(0) =~= pair_views(pairs@));
    while i < pairs.len()
        invariant
            i <= pairs@.len(),
            first_value(pair_views(pairs@), k@) == first_value(
                pair_views(pairs@).skip(i as int),
                k@,
            ),
        decreases pairs.len() - i,
    {
        if eq(&pairs[i].0, k) {
            return Some(pairs[i].1.clone());
        }
        assert(pair_views(pairs@).skip(i as int).drop_first() =~= pair_views(pairs@).skip(
            i + 1,
        ));
        i = i + 1;
    }
    None
}

/// The first value of the field `k` (see `first_value`).
pub fn lookup_str(pairs: &Vec<(Vec<char>, Vec<char>)>, k: &str) -> (r: Option<Vec<char>>)
    ensures
        r matches Some(v) ==> first_value(pair_views(pairs@), k@) == Some(v@),
        r is None ==> first_value(pair_views(pairs@), k@) is None,
{
    let kk = chars_of(k);
    lookup(pairs, &kk)
}

/// The trimmed `===title===` of a module block, or nothing.
pub open spec fn module_title(chunk: Seq<char>) -> Seq<char> {
    match regex_first_captures(PAT_MOD_TITLE@, chunk) {
        Some(c) => trim(grp(c, 1)),
        None => Seq::empty(),
    }
}

/// The `===title===` of a module block (see `module_title`).
pub fn module_title_exec(chunk: &Vec<char>) -> (r: Vec<char>)
    ensures
        r@ == module_title(chunk@),
{
    match captures(PAT_MOD_TITLE, chunk) {
        Some(c) => {
            let g = c.get(1);
            trim_exec(&g)
        },
        None => Vec::new(),
    }
}

/// A module's display name: its `名称` field, else its title, else `未命名模组`.
pub open spec fn module_name(fields: Seq<(Seq<char>, Seq<char>)>, title: Seq<char>) -> Seq<char> {
    match first_value(fields, "名称"@) {
        Some(n) if n.len() > 0 => n,
        _ => if title.len() > 0 {
            title
        } else {
            "未命名模组"@
        },
    }
}

/// The name shown for a module (see `module_name`).
pub fn module_name_exec(fields: &Vec<(Vec<char>, Vec<char>)>, title: &Vec<char>) -> (r: Vec<char>)
    ensures
        r@ == module_name(pair_views(fields@), title@),
{
    match lookup_str(fields, "名称") {
        Some(n) => {
            if n.len() > 0 {
                return n;
            }
        },
        None => {},
    }
    if title.len() > 0 {
        title.clone()
    } else {
        chars_of("未命名模组")
    }
}

/// The last `-`-separated part of a module type (`X-Y` gives `Y`).
pub open spec fn type_suffix(t: Seq<char>) -> Seq<char> {
    if contains(t, "-"@) {
        split_seq(t, "-"@).last()
    } else {
        t
    }
}

/// The part of a module type after its last `-` (see `type_suffix`).
pub fn type_suffix_exec(t: &Vec<char>) -> (r: Vec<char>)
    ensures
        r@ == type_suffix(t@),
{
    if contains_str(t, "-") {
        proof {
            reveal_strlit("-");
        }
        let parts = split_str(t, "-");
        proof {
            lemma_split_nonempty(t@, "-"@);
        }
        parts[parts.len() - 1].clone()
    } else {
        t.clone()
    }
}

/// The first value of a key is the value of the earliest pair with that key, and there
/// is none where no pair has the key.
pub proof fn law_first_value_is_earliest(pairs: Seq<(Seq<char>, Seq<char>)>, k: Seq<char>)
    ensures
        forall|i: int|
            0 <= i < pairs.len() && pairs[i].0 == k && (forall|j: int| 0 <= j < i ==> pairs[j].0 != k)
                ==> first_value(pairs, k) == Some(#[trigger] pairs[i].1),
        (forall|i: int| 0 <= i < pairs.len() ==> (#[trigger] pairs[i]).0 != k) ==> first_value(pairs, k)
            is None,
    decreases pairs.len(),
{
    if pairs.len() > 0 {
        law_first_value_is_earliest(pairs.drop_first(), k);
        assert forall|i: int|
            0 <= i < pairs.len() && pairs[i].0 == k && (forall|j: int| 0 <= j < i ==> pairs[j].0 != k)
                implies first_value(pairs, k) == Some(#[trigger] pairs[i].1) by {
            if i > 0 {
                assert(pairs[0].0 != k);
                assert(pairs.drop_first()[i - 1] == pairs[i]);
                assert forall|j: int| 0 <= j < i - 1 implies pairs.drop_first()[j].0 != k by {
                    assert(pairs.drop_first()[j] == pairs[j + 1]);
                }
            }
        }
        if forall|i: int| 0 <= i < pairs.len() ==> (#[trigger] pairs[i]).0 != k {
            assert(pairs[0].0 != k);
            assert forall|i: int| 0 <= i < pairs.drop_first().len() implies (#[trigger] pairs.drop_first()[i]).0 != k by {
                assert(pairs.drop_first()[i] == pairs[i + 1]);
            }
        }
    }
}

} // verus!
