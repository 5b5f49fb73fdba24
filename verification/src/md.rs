//! Markdown building blocks.
use vstd::prelude::*;
use crate::strops::{decimal, decimal_exec, join, join_str};
use crate::text::{append, append_str, chars_of, views};

verus! {

/// A Markdown table row: `| a | b | c |`.
pub open spec fn row(cells: Seq<Seq<char>>) -> Seq<char> {
    "| "@ + join(cells, " | "@) + " |"@
}

/// A Markdown table row of the cells (see `row`).
pub fn row_exec(cells: &Vec<Vec<char>>) -> (r: Vec<char>)
    ensures
        r@ == row(views(cells@)),
{
    let mut r = chars_of("| ");
    let j = join_str(cells, " | ");
    append(&mut r, &j);
    append_str(&mut r, " |");
    r
}

/// The line lists written one after another.
pub open spec fn flat(ss: Seq<Seq<Seq<char>>>) -> Seq<Seq<char>>
    decreases ss.len(),
{
    if ss.len() == 0 {
        Seq::empty()
    } else {
        flat(ss.drop_last()) + ss.last()
    }
}

/// Appends the lines of `src` to `dst`.
pub fn extend(dst: &mut Vec<Vec<char>>, src: Vec<Vec<char>>)
    ensures
        views(final(dst)@) == views(old(dst)@) + views(src@),
{
    let ghost s0 = views(src@);
    let mut i: usize = 0;
    let n = src.len();
    while i < n
        invariant
            i <= n,
            n == s0.len(),
            views(dst@) == views(old(dst)@) + s0.take(i as int),
            views(src@) == s0,
        decreases n - i,
    {
        let x = src[i].clone();
        let ghost before = views(dst@);
        dst.push(x);
        assert(views(dst@) =~= before.push(s0[i as int]));
        assert(s0.take(i + 1) =~= s0.take(i as int).push(s0[i as int]));
        i = i + 1;
    }
    assert(s0.take(n as int) =~= s0);
}

/// Appends one line.
pub fn push_line(dst: &mut Vec<Vec<char>>, line: Vec<char>)
    ensures
        views(final(dst)@) == views(old(dst)@).push(line@),
{
    let ghost before = views(dst@);
    dst.push(line);
    assert(views(dst@) =~= before.push(line@));
}

/// Appends the characters of `s` as one line.
pub fn push_str_line(dst: &mut Vec<Vec<char>>, s: &str)
    ensures
        views(final(dst)@) == views(old(dst)@).push(s@),
{
    push_line(dst, chars_of(s));
}

/// `n` copies of the cell `d`.
pub open spec fn repeat_cell(d: Seq<char>, n: nat) -> Seq<Seq<char>>
    decreases n,
{
    if n == 0 {
        Seq::empty()
    } else {
        repeat_cell(d, (n - 1) as nat).push(d)
    }
}

/// `n` copies of the cell `d` (see `repeat_cell`).
pub fn repeat_cell_exec(d: &str, n: usize) -> (r: Vec<Vec<char>>)
    ensures
        views(r@) == repeat_cell(d@, n as nat),
{
    let mut r: Vec<Vec<char>> = Vec::new();
    let mut i: usize = 0;
    while i < n
        invariant
            i <= n,
            views(r@) == repeat_cell(d@, i as nat),
        decreases n - i,
    {
        push_str_line(&mut r, d);
        i = i + 1;
    }
    r
}

/// The column names `var1`, ..., `varN`.
pub open spec fn var_names(n: nat) -> Seq<Seq<char>>
    decreases n,
{
    if n == 0 {
        Seq::empty()
    } else {
        var_names((n - 1) as nat).push("var"@ + decimal(n))
    }
}

/// The column names `var1` to `varN` (see `var_names`).
pub fn var_names_exec(n: usize) -> (r: Vec<Vec<char>>)
    ensures
        views(r@) == var_names(n as nat),
{
    let mut r: Vec<Vec<char>> = Vec::new();
    let mut i: usize = 0;
    while i < n
        invariant
            i <= n,
            views(r@) == var_names(i as nat),
        decreases n - i,
    {
        let mut c = chars_of("var");
        let d = decimal_exec((i + 1) as u64);
        append(&mut c, &d);
        push_line(&mut r, c);
        i = i + 1;
    }
    r
}

/// Whether two line lists are equal.
pub fn lines_eq(a: &Vec<Vec<char>>, b: &Vec<Vec<char>>) -> (r: bool)
    ensures
        r == (views(a@) == views(b@)),
{
    if a.len() != b.len() {
        assert(views(a@).len() != views(b@).len());
        return false;
    }
    let mut i: usize = 0;
    while i < a.len()
        invariant
            i <= a@.len(),
            a@.len() == b@.len(),
            forall|k: int| 0 <= k < i ==> a@[k]@ == b@[k]@,
        decreases a.len() - i,
    {
        if !crate::text::eq(&a[i], &b[i]) {
            assert(views(a@)[i as int] != views(b@)[i as int]);
            return false;
        }
        i = i + 1;
    }
    assert(views(a@) =~= views(b@));
    true
}

/// A copy of a line list.
pub fn clone_lines(a: &Vec<Vec<char>>) -> (r: Vec<Vec<char>>)
    ensures
        views(r@) == views(a@),
{
    let mut r: Vec<Vec<char>> = Vec::new();
    let mut i: usize = 0;
    while i < a.len()
        invariant
            i <= a@.len(),
            views(r@) == views(a@).take(i as int),
        decreases a.len() - i,
    {
        push_line(&mut r, a[i].clone());
        assert(views(a@).take(i + 1) =~= views(a@).take(i as int).push(a@[i as int]@));
        i = i + 1;
    }
    assert(views(a@).take(a@.len() as int) =~= views(a@));
    r
}

/// The column names of a table with `n` variables are `var1` to `varN`, in order, and
/// the placeholder `{varK}` of the `K`-th variable in a description names column `K`.
pub proof fn law_placeholders_name_the_columns(n: nat)
    ensures
        var_names(n).len() == n,
        forall|k: int| 0 <= k < n ==> #[trigger] var_names(n)[k] == "var"@ + decimal((k + 1) as nat),
        forall|k: int|
            0 <= k < n ==> crate::wikitext::placeholder((k + 1) as nat) == "{"@ + #[trigger] var_names(n)[k] + "}"@,
    decreases n,
{
    if n > 0 {
        law_placeholders_name_the_columns((n - 1) as nat);
        reveal_strlit("{var");
        reveal_strlit("var");
        reveal_strlit("{");
        assert forall|k: int| 0 <= k < n implies crate::wikitext::placeholder((k + 1) as nat) == "{"@
            + #[trigger] var_names(n)[k] + "}"@ by {
            assert(var_names(n)[k] == "var"@ + decimal((k + 1) as nat));
            assert("{var"@ =~= "{"@ + "var"@);
            assert(crate::wikitext::placeholder((k + 1) as nat) =~= "{"@ + ("var"@ + decimal((k + 1) as nat))
                + "}"@);
        }
    }
}

} // verus!
