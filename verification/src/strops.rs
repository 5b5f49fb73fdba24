//! Trimming, splitting, joining and number formatting over character sequences.
use vstd::prelude::*;
use crate::text::{
    append, chars_of, find, occurs_at, find_from, is_whitespace, is_ws, lemma_find, skip, slice_of, starts_with,
    starts_with_exec, views,
};

verus! {

pub open spec fn trim_start(s: Seq<char>) -> Seq<char>
    decreases s.len(),
{
    if s.len() > 0 && is_ws(s[0]) {
        trim_start(s.drop_first())
    } else {
        s
    }
}

pub open spec fn trim_end(s: Seq<char>) -> Seq<char>
    decreases s.len(),
{
    if s.len() > 0 && is_ws(s.last()) {
        trim_end(s.drop_last())
    } else {
        s
    }
}

/// `str::trim`: leading and trailing whitespace removed.
pub open spec fn trim(s: Seq<char>) -> Seq<char> {
    trim_end(trim_start(s))
}

/// Leading whitespace removed (see `trim_start`).
pub fn trim_start_exec(v: &Vec<char>) -> (r: Vec<char>)
    ensures
        r@ == trim_start(v@),
{
    let mut i: usize = 0;
    assert(v@.skip(0) =~= v@);
    while i < v.len() && is_whitespace(v[i])
        invariant
            i <= v@.len(),
            trim_start(v@) == trim_start(v@.skip(i as int)),
        decreases v.len() - i,
    {
        assert(v@.skip(i as int).drop_first() =~= v@.skip(i + 1));
        i = i + 1;
    }
    skip(v, i)
}

/// Trailing whitespace removed (see `trim_end`).
pub fn trim_end_exec(v: &Vec<char>) -> (r: Vec<char>)
    ensures
        r@ == trim_end(v@),
{
    let mut j: usize = v.len();
    assert(v@.take(v@.len() as int) =~= v@);
    while j > 0 && is_whitespace(v[j - 1])
        invariant
            j <= v@.len(),
            trim_end(v@) == trim_end(v@.take(j as int)),
        decreases j,
    {
        assert(v@.take(j as int).drop_last() =~= v@.take(j - 1));
        j = j - 1;
    }
    let r = slice_of(v, 0, j);
    assert(v@.subrange(0, j as int) =~= v@.take(j as int));
    r
}

/// Leading and trailing whitespace removed (see `trim`).
pub fn trim_exec(v: &Vec<char>) -> (r: Vec<char>)
    ensures
        r@ == trim(v@),
{
    let a = trim_start_exec(v);
    trim_end_exec(&a)
}

/// `trim_start_matches(c)`.
pub open spec fn trim_char_start(s: Seq<char>, c: char) -> Seq<char>
    decreases s.len(),
{
    if s.len() > 0 && s[0] == c {
        trim_char_start(s.drop_first(), c)
    } else {
        s
    }
}

/// `trim_end_matches(c)`.
pub open spec fn trim_char_end(s: Seq<char>, c: char) -> Seq<char>
    decreases s.len(),
{
    if s.len() > 0 && s.last() == c {
        trim_char_end(s.drop_last(), c)
    } else {
        s
    }
}

/// `trim_matches(c)`.
pub open spec fn trim_char(s: Seq<char>, c: char) -> Seq<char> {
    trim_char_end(trim_char_start(s, c), c)
}

/// Leading and trailing `c` removed (see `trim_char`).
pub fn trim_char_exec(v: &Vec<char>, c: char) -> (r: Vec<char>)
    ensures
        r@ == trim_char(v@, c),
{
    let mut i: usize = 0;
    assert(v@.skip(0) =~= v@);
    while i < v.len() && v[i] == c
        invariant
            i <= v@.len(),
            trim_char_start(v@, c) == trim_char_start(v@.skip(i as int), c),
        decreases v.len() - i,
    {
        assert(v@.skip(i as int).drop_first() =~= v@.skip(i + 1));
        i = i + 1;
    }
    let a = skip(v, i);
    let mut j: usize = a.len();
    assert(a@.take(a@.len() as int) =~= a@);
    while j > 0 && a[j - 1] == c
        invariant
            j <= a@.len(),
            trim_char_end(a@, c) == trim_char_end(a@.take(j as int), c),
        decreases j,
    {
        assert(a@.take(j as int).drop_last() =~= a@.take(j - 1));
        j = j - 1;
    }
    let r = slice_of(&a, 0, j);
    assert(a@.subrange(0, j as int) =~= a@.take(j as int));
    r
}

/// `trim_start_matches(p)` for a non-empty string pattern: every leading copy of `p` removed.
pub open spec fn strip_all_prefix(s: Seq<char>, p: Seq<char>) -> Seq<char>
    decreases s.len(),
{
    if p.len() > 0 && starts_with(s, p) {
        strip_all_prefix(s.skip(p.len() as int), p)
    } else {
        s
    }
}

/// With every leading copy of a non-empty `p` removed, what is left does not start with
/// `p` and is the end of the text; a text that does not start with `p` is left as it is,
/// and `p` followed by a text that does not start with `p` gives that text.
pub proof fn law_strip_all_prefix(s: Seq<char>, p: Seq<char>, rest: Seq<char>)
    requires
        p.len() > 0,
    ensures
        !starts_with(strip_all_prefix(s, p), p),
        strip_all_prefix(s, p).len() <= s.len(),
        s.skip(s.len() - strip_all_prefix(s, p).len()) == strip_all_prefix(s, p),
        !starts_with(s, p) ==> strip_all_prefix(s, p) == s,
        !starts_with(rest, p) ==> strip_all_prefix(p + rest, p) == rest,
    decreases s.len(),
{
    let r = strip_all_prefix(s, p);
    if starts_with(s, p) {
        let t = s.skip(p.len() as int);
        law_strip_all_prefix(t, p, rest);
        assert(t.skip(t.len() - r.len()) =~= s.skip(s.len() - r.len()));
    } else {
        assert(s.skip(0) =~= s);
    }
    let q = p + rest;
    assert(q.take(p.len() as int) =~= p);
    assert(q.skip(p.len() as int) =~= rest);
    if !starts_with(rest, p) {
        assert(strip_all_prefix(rest, p) == rest);
    }
}

/// Every leading copy of `p` removed (see `strip_all_prefix`).
pub fn strip_all_prefix_exec(v: &Vec<char>, p: &Vec<char>) -> (r: Vec<char>)
    ensures
        r@ == strip_all_prefix(v@, p@),
{
    let mut cur = v.clone();
    assert(cur@ =~= v@);
    loop
        invariant
            strip_all_prefix(v@, p@) == strip_all_prefix(cur@, p@),
        decreases cur@.len(),
    {
        if p.len() > 0 && starts_with_exec(&cur, p) {
            cur = skip(&cur, p.len());
        } else {
            return cur;
        }
    }
}

/// The pieces of `s` between the non-overlapping occurrences of `p`, left to right.
pub open spec fn split_seq(s: Seq<char>, p: Seq<char>) -> Seq<Seq<char>>
    decreases s.len(),
{
    if p.len() == 0 {
        seq![s]
    } else {
        match find(s, p) {
            Some(j) => if 0 <= j && j + p.len() <= s.len() {
                seq![s.take(j)] + split_seq(s.skip(j + p.len()), p)
            } else {
                seq![s]
            },
            None => seq![s],
        }
    }
}

pub proof fn lemma_split_nonempty(s: Seq<char>, p: Seq<char>)
    ensures
        split_seq(s, p).len() >= 1,
    decreases s.len(),
{
    if p.len() > 0 {
        if let Some(j) = find(s, p) {
            if 0 <= j && j + p.len() <= s.len() {
                lemma_split_nonempty(s.skip(j + p.len()), p);
            }
        }
    }
}

/// `split(p)` for a non-empty pattern.
pub fn split_exec(v: &Vec<char>, p: &Vec<char>) -> (r: Vec<Vec<char>>)
    requires
        p@.len() > 0,
    ensures
        views(r@) == split_seq(v@, p@),
{
    let mut pieces: Vec<Vec<char>> = Vec::new();
    let mut start: usize = 0;
    assert(v@.skip(0) =~= v@);
    assert(views(pieces@) + split_seq(v@.skip(0), p@) =~= split_seq(v@, p@));
    loop
        invariant
            start <= v@.len(),
            p@.len() > 0,
            views(pieces@) + split_seq(v@.skip(start as int), p@) == split_seq(v@, p@),
        decreases v@.len() - start,
    {
        let ghost rest = v@.skip(start as int);
        match find_from(v, p, start) {
            Some(j) => {
                proof {
                    lemma_find(rest, p@);
                }
                assert(occurs_at(rest, p@, j - start));
                assert(j + p@.len() <= v@.len());
                let piece = slice_of(v, start, j);
                assert(rest.take(j - start) =~= piece@);
                assert(rest.skip(j - start + p@.len()) =~= v@.skip(j + p@.len()));
                let ghost old_pieces = pieces@;
                pieces.push(piece);
                assert(views(pieces@) =~= views(old_pieces).push(piece@));
                assert(views(pieces@) + split_seq(v@.skip(j + p@.len()), p@) =~= views(
                    old_pieces,
                ) + split_seq(rest, p@));
                assert(j + p.len() <= v.len());
                start = j + p.len();
            },
            None => {
                let piece = skip(v, start);
                let ghost old_pieces = pieces@;
                pieces.push(piece);
                assert(views(pieces@) =~= views(old_pieces).push(piece@));
                assert(views(pieces@) =~= views(old_pieces) + split_seq(rest, p@));
                return pieces;
            },
        }
    }
}

/// The pieces of `v` between the occurrences of `s` (see `split_seq`).
pub fn split_str(v: &Vec<char>, s: &str) -> (r: Vec<Vec<char>>)
    requires
        s@.len() > 0,
    ensures
        views(r@) == split_seq(v@, s@),
{
    let p = chars_of(s);
    split_exec(v, &p)
}

/// Removes one `'\r'` at the end.
pub open spec fn strip_cr(x: Seq<char>) -> Seq<char> {
    if x.len() > 0 && x.last() == '\r' {
        x.drop_last()
    } else {
        x
    }
}

/// `str::lines`: the text split at `'\n'` (with a `'\r'` before it dropped), with no
/// empty line after a final `'\n'`.
pub open spec fn lines(s: Seq<char>) -> Seq<Seq<char>> {
    let pcs = split_seq(s, seq!['\n']);
    if s.len() == 0 || s.last() == '\n' {
        pcs.drop_last().map_values(|x: Seq<char>| strip_cr(x))
    } else {
        pcs.drop_last().map_values(|x: Seq<char>| strip_cr(x)).push(pcs.last())
    }
}

/// The lines of a text (see `lines`).
pub fn lines_exec(v: &Vec<char>) -> (r: Vec<Vec<char>>)
    ensures
        views(r@) == lines(v@),
{
    let nl = vec!['\n'];
    assert(nl@ =~= seq!['\n']);
    let pcs = split_exec(v, &nl);
    proof {
        lemma_split_nonempty(v@, nl@);
    }
    let ghost spcs = views(pcs@);
    let mut r: Vec<Vec<char>> = Vec::new();
    let n = pcs.len() - 1;
    let mut i: usize = 0;
    while i < n
        invariant
            i <= n,
            n == pcs@.len() - 1,
            spcs == views(pcs@),
            views(r@) =~= spcs.drop_last().map_values(|x: Seq<char>| strip_cr(x)).take(
                i as int,
            ),
        decreases n - i,
    {
        let x = &pcs[i];
        let piece = if x.len() > 0 && x[x.len() - 1] == '\r' {
            slice_of(x, 0, x.len() - 1)
        } else {
            x.clone()
        };
        assert(piece@ =~= strip_cr(x@));
        let ghost old_r = r@;
        r.push(piece);
        assert(views(r@) =~= views(old_r).push(piece@));
        i = i + 1;
    }
    assert(spcs.drop_last().map_values(|x: Seq<char>| strip_cr(x)).take(n as int)
        =~= spcs.drop_last().map_values(|x: Seq<char>| strip_cr(x)));
    if v.len() == 0 || v[v.len() - 1] == '\n' {
        r
    } else {
        let last = pcs[n].clone();
        let ghost old_r = r@;
        r.push(last);
        assert(views(r@) =~= views(old_r).push(spcs.last()));
        r
    }
}

/// The lines of a text (see `lines`).
pub fn lines_str(s: &str) -> (r: Vec<Vec<char>>)
    ensures
        views(r@) == lines(s@),
{
    let v = chars_of(s);
    lines_exec(&v)
}

/// The parts written one after another with `sep` between each two.
pub open spec fn join(parts: Seq<Seq<char>>, sep: Seq<char>) -> Seq<char>
    decreases parts.len(),
{
    if parts.len() == 0 {
        Seq::empty()
    } else if parts.len() == 1 {
        parts[0]
    } else {
        join(parts.drop_last(), sep) + sep + parts.last()
    }
}

/// The parts with `sep` between each two (see `join`).
pub fn join_exec(parts: &Vec<Vec<char>>, sep: &Vec<char>) -> (r: Vec<char>)
    ensures
        r@ == join(views(parts@), sep@),
{
    let mut r: Vec<char> = Vec::new();
    let mut i: usize = 0;
    while i < parts.len()
        invariant
            i <= parts@.len(),
            r@ == join(views(parts@).take(i as int), sep@),
        decreases parts.len() - i,
    {
        assert(views(parts@).take(i + 1).drop_last() =~= views(parts@).take(i as int));
        if i > 0 {
            append(&mut r, sep);
        }
        append(&mut r, &parts[i]);
        i = i + 1;
    }
    assert(views(parts@).take(parts@.len() as int) =~= views(parts@));
    r
}

/// The parts with `sep` between each two (see `join`).
pub fn join_str(parts: &Vec<Vec<char>>, sep: &str) -> (r: Vec<char>)
    ensures
        r@ == join(views(parts@), sep@),
{
    let s = chars_of(sep);
    join_exec(parts, &s)
}

/// `str::replace(from, to)` for a non-empty `from`.
pub open spec fn replace(s: Seq<char>, from: Seq<char>, to: Seq<char>) -> Seq<char> {
    join(split_seq(s, from), to)
}

/// Every occurrence of `from` replaced by `to` (see `replace`).
pub fn replace_exec(v: &Vec<char>, from: &Vec<char>, to: &Vec<char>) -> (r: Vec<char>)
    requires
        from@.len() > 0,
    ensures
        r@ == replace(v@, from@, to@),
{
    let pcs = split_exec(v, from);
    join_exec(&pcs, to)
}

/// Every occurrence of `from` replaced by `to` (see `replace`).
pub fn replace_str(v: &Vec<char>, from: &str, to: &Vec<char>) -> (r: Vec<char>)
    requires
        from@.len() > 0,
    ensures
        r@ == replace(v@, from@, to@),
{
    let f = chars_of(from);
    replace_exec(v, &f, to)
}

/// Length of the run of non-whitespace characters that starts `s`.
pub open spec fn word_len(s: Seq<char>) -> nat
    decreases s.len(),
{
    if s.len() == 0 || is_ws(s[0]) {
        0
    } else {
        1 + word_len(s.drop_first())
    }
}

/// `split_whitespace`: the maximal runs of non-whitespace characters.
pub open spec fn words(s: Seq<char>) -> Seq<Seq<char>>
    decreases s.len(),
{
    if s.len() == 0 {
        Seq::empty()
    } else if is_ws(s[0]) {
        words(s.drop_first())
    } else {
        let n = word_len(s);
        if 0 < n <= s.len() {
            seq![s.take(n as int)] + words(s.skip(n as int))
        } else {
            Seq::empty()
        }
    }
}

pub proof fn lemma_word_len(s: Seq<char>)
    ensures
        word_len(s) <= s.len(),
        forall|k: int| 0 <= k < word_len(s) ==> !is_ws(s[k]),
        word_len(s) < s.len() ==> is_ws(s[word_len(s) as int]),
    decreases s.len(),
{
    if s.len() > 0 && !is_ws(s[0]) {
        lemma_word_len(s.drop_first());
        assert forall|k: int| 0 <= k < word_len(s) implies !is_ws(s[k]) by {
            if k > 0 {
                assert(s[k] == s.drop_first()[k - 1]);
            }
        }
    }
}

/// The whitespace-separated words (see `words`).
pub fn words_exec(v: &Vec<char>) -> (r: Vec<Vec<char>>)
    ensures
        views(r@) == words(v@),
{
    let mut r: Vec<Vec<char>> = Vec::new();
    let mut i: usize = 0;
    assert(v@.skip(0) =~= v@);
    while i < v.len()
        invariant
            i <= v@.len(),
            views(r@) + words(v@.skip(i as int)) == words(v@),
        decreases v.len() - i,
    {
        let ghost rest = v@.skip(i as int);
        if is_whitespace(v[i]) {
            assert(rest.drop_first() =~= v@.skip(i + 1));
            i = i + 1;
        } else {
            let mut j: usize = i;
            proof {
                lemma_word_len(rest);
            }
            while j < v.len() && !is_whitespace(v[j])
                invariant
                    i <= j <= v@.len(),
                    j - i <= word_len(rest),
                    forall|k: int| i <= k < j ==> !is_ws(v@[k]),
                    rest == v@.skip(i as int),
                    word_len(rest) <= rest.len(),
                    forall|k: int| 0 <= k < word_len(rest) ==> !is_ws(rest[k]),
                    word_len(rest) < rest.len() ==> is_ws(rest[word_len(rest) as int]),
                decreases v.len() - j,
            {
                assert(rest[j - i] == v@[j as int]);
                j = j + 1;
            }
            assert(j - i == word_len(rest)) by {
                if j < v.len() {
                    assert(rest[j - i] == v@[j as int]);
                }
            }
            let w = slice_of(v, i, j);
            assert(w@ =~= rest.take((j - i) as int));
            assert(rest.skip((j - i) as int) =~= v@.skip(j as int));
            let ghost old_r = r@;
            r.push(w);
            assert(views(r@) =~= views(old_r).push(w@));
            assert(views(r@) + words(v@.skip(j as int)) =~= views(old_r) + words(rest));
            i = j;
        }
    }
    assert(v@.skip(i as int) =~= Seq::<char>::empty());
    assert(views(r@) + Seq::empty() =~= views(r@));
    r
}

/// The decimal digit for `d < 10`.
pub open spec fn digit_char(d: nat) -> char {
    (('0' as u32) + d) as char
}

/// The decimal form of `n`, without leading zeros.
pub open spec fn decimal(n: nat) -> Seq<char>
    decreases n,
{
    if n < 10 {
        seq![digit_char(n)]
    } else {
        decimal(n / 10).push(digit_char(n % 10))
    }
}

fn digit_exec(d: u64) -> (c: char)
    requires
        d < 10,
    ensures
        c == digit_char(d as nat),
{
    match d {
        0 => '0',
        1 => '1',
        2 => '2',
        3 => '3',
        4 => '4',
        5 => '5',
        6 => '6',
        7 => '7',
        8 => '8',
        _ => '9',
    }
}

/// The decimal digits of `n` (see `decimal`).
pub fn decimal_exec(n: u64) -> (r: Vec<char>)
    ensures
        r@ == decimal(n as nat),
    decreases n,
{
    let c = digit_exec(n % 10);
    if n < 10 {
        vec![c]
    } else {
        let mut r = decimal_exec(n / 10);
        r.push(c);
        r
    }
}

pub open spec fn is_digit(c: char) -> bool {
    '0' <= c <= '9'
}

/// The value of a string of ASCII digits.
pub open spec fn digits_value(s: Seq<char>) -> nat
    decreases s.len(),
{
    if s.len() == 0 {
        0
    } else {
        digits_value(s.drop_last()) * 10 + ((s.last() as u32) - ('0' as u32)) as nat
    }
}

/// What `str::parse` gives for an unsigned type whose largest value is `max`.
pub open spec fn uint_body(s: Seq<char>) -> Seq<char> {
    if s.len() > 0 && s[0] == '+' {
        s.drop_first()
    } else {
        s
    }
}

pub open spec fn all_digits(s: Seq<char>) -> bool {
    forall|k: int| 0 <= k < s.len() ==> is_digit(#[trigger] s[k])
}

pub open spec fn parse_uint(s: Seq<char>, max: nat) -> Option<nat> {
    let body = uint_body(s);
    if body.len() > 0 && all_digits(body) && digits_value(body) <= max {
        Some(digits_value(body))
    } else {
        None
    }
}

proof fn lemma_digits_value_grows(s: Seq<char>, i: int)
    requires
        0 <= i <= s.len(),
        forall|k: int| 0 <= k < s.len() ==> is_digit(s[k]),
    ensures
        digits_value(s.take(i)) <= digits_value(s),
    decreases s.len() - i,
{
    if i < s.len() {
        lemma_digits_value_grows(s, i + 1);
        assert(s.take(i + 1).drop_last() =~= s.take(i));
    } else {
        assert(s.take(i) =~= s);
    }
}

proof fn lemma_overflow_test(val: u64, d: u64, max: u64)
    requires
        d <= 9,
    ensures
        (d > max || val > (max - d) / 10) <==> val * 10 + d > max,
{
    if d <= max {
        let q = (max - d) / 10;
        assert((max - d) == q * 10 + (max - d) % 10) by (nonlinear_arith)
            requires
                q == (max - d) / 10,
                max >= d,
        ;
        assert(val > q <==> val * 10 + d > max) by (nonlinear_arith)
            requires
                (max - d) == q * 10 + (max - d) % 10,
                0 <= (max - d) % 10 < 10,
                max >= d,
        ;
    }
}

/// An unsigned number no larger than `max`, as `str::parse` reads it (see `parse_uint`).
pub fn parse_uint_exec(v: &Vec<char>, max: u64) -> (r: Option<u64>)
    ensures
        r matches Some(n) ==> parse_uint(v@, max as nat) == Some(n as nat),
        r is None ==> parse_uint(v@, max as nat) is None,
{
    let start: usize = if v.len() > 0 && v[0] == '+' {
        1
    } else {
        0
    };
    let ghost body = uint_body(v@);
    assert(body =~= v@.skip(start as int));
    if start >= v.len() {
        return None;
    }
    let mut val: u64 = 0;
    let mut i: usize = start;
    while i < v.len()
        invariant
            start <= i <= v@.len(),
            body == uint_body(v@),
            body =~= v@.skip(start as int),
            val <= max,
            val == digits_value(body.take(i - start)),
            forall|k: int| 0 <= k < i - start ==> is_digit(body[k]),
        decreases v.len() - i,
    {
        let c = v[i];
        if !('0' <= c && c <= '9') {
            assert(!is_digit(body[i - start]));
            assert(!all_digits(body));
            assert(!all_digits(uint_body(v@)));
            assert(parse_uint(v@, max as nat) is None);
            return None;
        }
        let d = (c as u32 - 48) as u64;
        assert(body.take(i + 1 - start).drop_last() =~= body.take(i - start));
        assert(body.take(i + 1 - start).last() == c);
        proof {
            lemma_overflow_test(val, d, max);
        }
        if d > max || val > (max - d) / 10 {
            assert(val * 10 + d == digits_value(body.take(i + 1 - start)));
            proof {
                if all_digits(body) {
                    lemma_digits_value_grows(body, i + 1 - start);
                }
            }
            assert(parse_uint(v@, max as nat) is None);
            return None;
        }
        let nv = val * 10 + d;
        assert(nv == digits_value(body.take(i + 1 - start)));
        val = nv;
        i = i + 1;
    }
    assert(body.take(i - start) =~= body);
    Some(val)
}

proof fn lemma_trim_start_front(s: Seq<char>)
    ensures
        trim_start(s).len() > 0 ==> !is_ws(trim_start(s)[0]),
        trim_start(s).len() <= s.len(),
        trim_start(s) == s.skip(s.len() - trim_start(s).len()),
    decreases s.len(),
{
    if s.len() > 0 && is_ws(s[0]) {
        lemma_trim_start_front(s.drop_first());
        assert(s.drop_first().skip(s.drop_first().len() - trim_start(s).len()) =~= s.skip(
            s.len() - trim_start(s).len(),
        ));
    } else {
        assert(s.skip(0) =~= s);
    }
}

proof fn lemma_trim_end_back(s: Seq<char>)
    ensures
        trim_end(s).len() > 0 ==> !is_ws(trim_end(s).last()),
        trim_end(s).len() <= s.len(),
        trim_end(s) == s.take(trim_end(s).len() as int),
    decreases s.len(),
{
    if s.len() > 0 && is_ws(s.last()) {
        lemma_trim_end_back(s.drop_last());
        assert(s.drop_last().take(trim_end(s).len() as int) =~= s.take(trim_end(s).len() as int));
    } else {
        assert(s.take(s.len() as int) =~= s);
    }
}

/// A trimmed text neither starts nor ends with whitespace.
pub proof fn law_trimmed_ends(s: Seq<char>)
    ensures
        trim(s).len() > 0 ==> !is_ws(trim(s)[0]) && !is_ws(trim(s).last()),
{
    let a = trim_start(s);
    lemma_trim_start_front(s);
    lemma_trim_end_back(a);
    let t = trim_end(a);
    assert(trim(s) == t);
    if t.len() > 0 {
        assert(t == a.take(t.len() as int));
        assert(t[0] == a.take(t.len() as int)[0]);
        assert(t[0] == a[0]);
    }
}

} // verus!
