//! Single-line `|key=value` fields of a whole page.
use vstd::prelude::*;
use crate::strops::{lines, lines_exec, trim, trim_exec};
use crate::text::{
    append, append_str, chars_of, eq, find, find_exec, skip, slice_of, starts_with,
    starts_with_exec, starts_with_str, views,
};

verus! {

/// The value of `line` as a `|key = value` field named `key` (both sides trimmed).
pub open spec fn field_of(line: Seq<char>, key: Seq<char>) -> Option<Seq<char>> {
    let t = trim(line);
    if !starts_with(t, "|"@) {
        None
    } else {
        let inner = t.drop_first();
        match find(inner, "="@) {
            Some(e) => if trim(inner.take(e)) == key {
                Some(trim(inner.skip(e + 1)))
            } else {
                None
            },
            None => None,
        }
    }
}

/// The first line of `ls` that is the field `key`, read.
pub open spec fn first_field(ls: Seq<Seq<char>>, key: Seq<char>) -> Option<Seq<char>>
    decreases ls.len(),
{
    if ls.len() == 0 {
        None
    } else {
        match field_of(ls[0], key) {
            Some(v) => Some(v),
            None => first_field(ls.drop_first(), key),
        }
    }
}

/// The value of the first single-line field `key` of a page.
pub open spec fn line_field(text: Seq<char>, key: Seq<char>) -> Option<Seq<char>> {
    first_field(lines(text), key)
}

fn field_of_exec(line: &Vec<char>, key: &Vec<char>) -> (r: Option<Vec<char>>)
    ensures
        crate::text::opt_view(r) == field_of(line@, key@),
{
    let t = trim_exec(line);
    if !starts_with_str(&t, "|") {
        return None;
    }
    proof {
        reveal_strlit("|");
        reveal_strlit("=");
    }
    let inner = skip(&t, 1);
    assert(inner@ =~= t@.drop_first());
    let eqs = chars_of("=");
    match find_exec(&inner, &eqs) {
        Some(e) => {
            proof {
                crate::text::lemma_find(inner@, eqs@);
            }
            assert(e + 1 <= inner.len());
            let k0 = slice_of(&inner, 0, e);
            assert(k0@ =~= inner@.take(e as int));
            let k = trim_exec(&k0);
            if eq(&k, key) {
                let v0 = skip(&inner, e + 1);
                Some(trim_exec(&v0))
            } else {
                None
            }
        },
        None => None,
    }
}

/// Extracts the first single-line `|key=value` field named `key` (trimmed value).
pub fn extract_line_field(text: &Vec<char>, key: &str) -> (r: Option<Vec<char>>)
    ensures
        crate::text::opt_view(r) == line_field(text@, key@),
{
    let k = chars_of(key);
    let ls = lines_exec(text);
    let mut i: usize = 0;
    assert(views(ls@).skip(0) =~= views(ls@));
    while i < ls.len()
        invariant
            i <= ls@.len(),
            k@ == key@,
            views(ls@) == lines(text@),
            first_field(views(ls@), key@) == first_field(views(ls@).skip(i as int), key@),
        decreases ls.len() - i,
    {
        assert(views(ls@).skip(i as int)[0] == ls@[i as int]@);
        match field_of_exec(&ls[i], &k) {
            Some(v) => return Some(v),
            None => {},
        }
        assert(views(ls@).skip(i as int).drop_first() =~= views(ls@).skip(i + 1));
        i = i + 1;
    }
    None
}

/// The value after `|key=` on the first line that starts with it (trimmed).
pub open spec fn first_prefixed(ls: Seq<Seq<char>>, needle: Seq<char>) -> Option<Seq<char>>
    decreases ls.len(),
{
    if ls.len() == 0 {
        None
    } else if starts_with(trim(ls[0]), needle) {
        Some(trim(trim(ls[0]).skip(needle.len() as int)))
    } else {
        first_prefixed(ls.drop_first(), needle)
    }
}

/// The value of the first line that reads exactly `|key=...`.
pub open spec fn exact_field(text: Seq<char>, key: Seq<char>) -> Option<Seq<char>> {
    first_prefixed(lines(text), "|"@ + key + "="@)
}

/// Reads the first line of `text` that starts (after trimming) with `|key=`.
pub fn field(text: &Vec<char>, key: &Vec<char>) -> (r: Option<Vec<char>>)
    ensures
        crate::text::opt_view(r) == exact_field(text@, key@),
{
    let mut needle = chars_of("|");
    append(&mut needle, key);
    append_str(&mut needle, "=");
    let ls = lines_exec(text);
    let mut i: usize = 0;
    assert(views(ls@).skip(0) =~= views(ls@));
    while i < ls.len()
        invariant
            i <= ls@.len(),
            needle@ == "|"@ + key@ + "="@,
            views(ls@) == lines(text@),
            first_prefixed(views(ls@), needle@) == first_prefixed(
                views(ls@).skip(i as int),
                needle@,
            ),
        decreases ls.len() - i,
    {
        assert(views(ls@).skip(i as int)[0] == ls@[i as int]@);
        let t = trim_exec(&ls[i]);
        assert(views(ls@).skip(i as int).len() > 0);
        if starts_with_exec(&t, &needle) {
            let v0 = skip(&t, needle.len());
            return Some(trim_exec(&v0));
        }
        assert(views(ls@).skip(i as int).drop_first() =~= views(ls@).skip(i + 1));
        i = i + 1;
    }
    None
}

} // verus!
