//! Regular-expression searches, made by the `regex` crate.
//!
//! The outcome of each search is named by an uninterpreted spec function of the
//! pattern and the text: the library's contracts speak of these names. A pattern
//! that does not compile behaves as one that matches nothing.
use vstd::prelude::*;
use crate::text::{chars_of, to_string, views};

verus! {

/// The capture groups (group 0 first) of the leftmost match of `pattern` in `text`,
/// or `None` where there is no match or the pattern does not compile.
pub uninterp spec fn regex_first_captures(pattern: Seq<char>, text: Seq<char>) -> Option<
    Seq<Option<Seq<char>>>,
>;

/// The capture groups of every successive non-overlapping match of `pattern` in `text`,
/// left to right (empty where the pattern does not compile).
pub uninterp spec fn regex_all_captures(pattern: Seq<char>, text: Seq<char>) -> Seq<
    Seq<Option<Seq<char>>>,
>;

/// `text` with every non-overlapping match of `pattern` replaced by the expansion of
/// `template` (`$n` stands for group `n`); `text` itself where the pattern does not compile.
pub uninterp spec fn regex_replaced(
    pattern: Seq<char>,
    text: Seq<char>,
    template: Seq<char>,
) -> Seq<char>;

/// The pieces of `text` between the successive matches of `pattern`
/// (`[text]` where the pattern does not compile).
pub uninterp spec fn regex_pieces(pattern: Seq<char>, text: Seq<char>) -> Seq<Seq<char>>;

/// The texts of group 0 of each match: the matched texts themselves.
pub open spec fn match_texts(all: Seq<Seq<Option<Seq<char>>>>) -> Seq<Seq<char>> {
    all.map_values(|c: Seq<Option<Seq<char>>>| grp(c, 0))
}

/// The parts one after another.
pub open spec fn concat_pieces(parts: Seq<Seq<char>>) -> Seq<char>
    decreases parts.len(),
{
    if parts.len() == 0 {
        Seq::empty()
    } else {
        concat_pieces(parts.drop_last()) + parts.last()
    }
}

/// `a[0], b[0], a[1], b[1], ...`, then what is left of the longer of the two.
pub open spec fn interleave(a: Seq<Seq<char>>, b: Seq<Seq<char>>) -> Seq<Seq<char>>
    decreases a.len(),
{
    if a.len() == 0 {
        b
    } else if b.len() == 0 {
        a
    } else {
        seq![a[0], b[0]] + interleave(a.drop_first(), b.drop_first())
    }
}

/// Interleaving two lists of one length, each with one more item at its end.
pub proof fn lemma_interleave_push_both(a: Seq<Seq<char>>, b: Seq<Seq<char>>, x: Seq<char>, y: Seq<char>)
    requires
        a.len() == b.len(),
    ensures
        interleave(a.push(x), b.push(y)) == interleave(a, b) + seq![x, y],
    decreases a.len(),
{
    if a.len() == 0 {
        assert(a.push(x).drop_first() =~= Seq::<Seq<char>>::empty());
        assert(b.push(y).drop_first() =~= Seq::<Seq<char>>::empty());
        assert(a.push(x)[0] == x && b.push(y)[0] == y);
        assert(interleave(Seq::<Seq<char>>::empty(), Seq::<Seq<char>>::empty()) =~= Seq::<Seq<char>>::empty());
        assert(interleave(a.push(x), b.push(y)) == seq![x, y] + interleave(
            Seq::<Seq<char>>::empty(),
            Seq::<Seq<char>>::empty(),
        ));
        assert(interleave(a.push(x), b.push(y)) =~= seq![x, y]);
        assert(interleave(a, b) =~= Seq::<Seq<char>>::empty());
        assert(interleave(a, b) + seq![x, y] =~= seq![x, y]);
    } else {
        lemma_interleave_push_both(a.drop_first(), b.drop_first(), x, y);
        assert(a.push(x).drop_first() =~= a.drop_first().push(x));
        assert(b.push(y).drop_first() =~= b.drop_first().push(y));
        assert(interleave(a.push(x), b.push(y)) =~= seq![a[0], b[0]] + (interleave(
            a.drop_first(),
            b.drop_first(),
        ) + seq![x, y]));
    }
}

/// Interleaving two lists of one length, the first with one more item at its end.
pub proof fn lemma_interleave_push_first(a: Seq<Seq<char>>, b: Seq<Seq<char>>, x: Seq<char>)
    requires
        a.len() == b.len(),
    ensures
        interleave(a.push(x), b) == interleave(a, b).push(x),
    decreases a.len(),
{
    if a.len() == 0 {
        assert(interleave(a, b) =~= Seq::<Seq<char>>::empty());
        assert(interleave(a.push(x), b) =~= seq![x]);
        assert(interleave(a, b).push(x) =~= seq![x]);
    } else {
        lemma_interleave_push_first(a.drop_first(), b.drop_first(), x);
        assert(a.push(x).drop_first() =~= a.drop_first().push(x));
        assert(interleave(a.push(x), b) =~= seq![a[0], b[0]] + interleave(
            a.drop_first(),
            b.drop_first(),
        ).push(x));
    }
}

/// `regex::Regex::new` then `Regex::captures`: the groups of the leftmost match, each
/// group that took part as its text. The contract claims only that the result is the
/// named outcome for these two arguments.
#[verifier::external_body]
fn captures_raw(pattern: &str, text: &str) -> (r: Option<Vec<Option<String>>>)
    ensures
        r.deep_view() == regex_first_captures(pattern@, text@),
{
    let re = match regex::Regex::new(pattern) {
        Ok(re) => re,
        Err(_) => return None,
    };
    re.captures(text).map(
        |c| c.iter().map(|g| g.map(|m| m.as_str().to_string())).collect(),
    )
}

/// `regex::Regex::new` then `Regex::captures_iter`: the groups of every match, in order.
/// The contract claims only that the result is the named outcome for these arguments.
#[verifier::external_body]
fn captures_all_raw(pattern: &str, text: &str) -> (r: Vec<Vec<Option<String>>>)
    ensures
        r.deep_view() == regex_all_captures(pattern@, text@),
{
    let re = match regex::Regex::new(pattern) {
        Ok(re) => re,
        Err(_) => return Vec::new(),
    };
    re.captures_iter(text).map(
        |c| c.iter().map(|g| g.map(|m| m.as_str().to_string())).collect(),
    ).collect()
}

/// `regex::Regex::new` then `Regex::replace_all` with a template replacement.
/// The contract claims only that the result is the named outcome for these arguments.
#[verifier::external_body]
fn replace_all_raw(pattern: &str, text: &str, template: &str) -> (r: String)
    ensures
        r@ == regex_replaced(pattern@, text@, template@),
{
    match regex::Regex::new(pattern) {
        Ok(re) => re.replace_all(text, template).into_owned(),
        Err(_) => text.to_string(),
    }
}

/// `regex::Regex::new` then `Regex::split`: the pieces between matches. The contract
/// claims that the result is the named outcome for these arguments, and, as `split`
/// yields the text before each match of `captures_iter` and then the rest, that there
/// is one piece more than there are matches and that the pieces, with each match's
/// text between two of them, make up the text again.
#[verifier::external_body]
fn split_raw(pattern: &str, text: &str) -> (r: Vec<String>)
    ensures
        r.deep_view() == regex_pieces(pattern@, text@),
        r.deep_view().len() == regex_all_captures(pattern@, text@).len() + 1,
        concat_pieces(interleave(r.deep_view(), match_texts(regex_all_captures(pattern@, text@))))
            == text@,
{
    match regex::Regex::new(pattern) {
        Ok(re) => re.split(text).map(|s| s.to_string()).collect(),
        Err(_) => vec![text.to_string()],
    }
}

/// Group `i` of a match, or the empty text where that group did not take part.
pub open spec fn grp(caps: Seq<Option<Seq<char>>>, i: int) -> Seq<char> {
    if 0 <= i < caps.len() {
        match caps[i] {
            Some(g) => g,
            None => Seq::empty(),
        }
    } else {
        Seq::empty()
    }
}

/// Whether group `i` of a match took part in it.
pub open spec fn has_grp(caps: Seq<Option<Seq<char>>>, i: int) -> bool {
    0 <= i < caps.len() && caps[i] is Some
}

/// The groups of one match, as character vectors, with the empty text for a group
/// that did not take part, and whether each took part.
pub struct Groups {
    pub texts: Vec<Vec<char>>,
    pub present: Vec<bool>,
}

impl Groups {
    pub open spec fn matches_caps(&self, caps: Seq<Option<Seq<char>>>) -> bool {
        &&& self.texts@.len() == caps.len()
        &&& self.present@.len() == caps.len()
        &&& forall|i: int| 0 <= i < caps.len() ==> (#[trigger] self.texts@[i])@ == grp(caps, i)
        &&& forall|i: int| 0 <= i < caps.len() ==> #[trigger] self.present@[i] == has_grp(caps, i)
    }

    /// Group `i`, empty where it is absent.
    pub fn get(&self, i: usize) -> (r: Vec<char>)
        requires
            self.texts@.len() == self.present@.len(),
        ensures
            i < self.texts@.len() ==> r@ == self.texts@[i as int]@,
            i >= self.texts@.len() ==> r@ == Seq::<char>::empty(),
    {
        if i < self.texts.len() {
            self.texts[i].clone()
        } else {
            Vec::new()
        }
    }

    /// Whether group `i` took part in the match.
    pub fn has(&self, i: usize) -> (r: bool)
        requires
            self.texts@.len() == self.present@.len(),
        ensures
            r == (i < self.present@.len() && self.present@[i as int]),
    {
        i < self.present.len() && self.present[i]
    }
}

fn to_groups(c: &Vec<Option<String>>) -> (g: Groups)
    ensures
        g.matches_caps(c.deep_view()),
{
    let mut texts: Vec<Vec<char>> = Vec::new();
    let mut present: Vec<bool> = Vec::new();
    let mut i: usize = 0;
    while i < c.len()
        invariant
            i <= c@.len(),
            texts@.len() == i,
            present@.len() == i,
            forall|k: int| 0 <= k < i ==> (#[trigger] texts@[k])@ == grp(c.deep_view(), k),
            forall|k: int| 0 <= k < i ==> #[trigger] present@[k] == has_grp(c.deep_view(), k),
        decreases c.len() - i,
    {
        assert(c.deep_view()[i as int] == c@[i as int].deep_view());
        match &c[i] {
            Some(s) => {
                texts.push(chars_of(s.as_str()));
                present.push(true);
            },
            None => {
                texts.push(Vec::new());
                present.push(false);
            },
        }
        i = i + 1;
    }
    Groups { texts, present }
}

/// The groups of the leftmost match of `pattern` in `text`.
pub fn captures(pattern: &str, text: &Vec<char>) -> (r: Option<Groups>)
    ensures
        r is Some <==> regex_first_captures(pattern@, text@) is Some,
        r matches Some(g) ==> g.matches_caps(regex_first_captures(pattern@, text@)->0),
{
    let t = to_string(text);
    match captures_raw(pattern, t.as_str()) {
        Some(c) => Some(to_groups(&c)),
        None => None,
    }
}

/// Whether `pattern` matches somewhere in `text`.
pub fn is_match(pattern: &str, text: &Vec<char>) -> (r: bool)
    ensures
        r == regex_first_captures(pattern@, text@) is Some,
{
    captures(pattern, text).is_some()
}

/// The groups of every match of `pattern` in `text`.
pub fn captures_all(pattern: &str, text: &Vec<char>) -> (r: Vec<Groups>)
    ensures
        r@.len() == regex_all_captures(pattern@, text@).len(),
        forall|i: int|
            0 <= i < r@.len() ==> (#[trigger] r@[i]).matches_caps(
                regex_all_captures(pattern@, text@)[i],
            ),
{
    let t = to_string(text);
    let all = captures_all_raw(pattern, t.as_str());
    let mut r: Vec<Groups> = Vec::new();
    let mut i: usize = 0;
    while i < all.len()
        invariant
            i <= all@.len(),
            all.deep_view() == regex_all_captures(pattern@, text@),
            r@.len() == i,
            forall|k: int|
                0 <= k < i ==> (#[trigger] r@[k]).matches_caps(
                    regex_all_captures(pattern@, text@)[k],
                ),
        decreases all.len() - i,
    {
        assert(all.deep_view()[i as int] == all@[i as int].deep_view());
        r.push(to_groups(&all[i]));
        i = i + 1;
    }
    r
}

/// `text` with each match of `pattern` replaced by `template`.
pub fn replace_all(pattern: &str, text: &Vec<char>, template: &str) -> (r: Vec<char>)
    ensures
        r@ == regex_replaced(pattern@, text@, template@),
{
    let t = to_string(text);
    let s = replace_all_raw(pattern, t.as_str(), template);
    chars_of(s.as_str())
}

/// The pieces of `text` between the matches of `pattern`.
pub fn split(pattern: &str, text: &Vec<char>) -> (r: Vec<Vec<char>>)
    ensures
        views(r@) == regex_pieces(pattern@, text@),
        views(r@).len() == regex_all_captures(pattern@, text@).len() + 1,
        concat_pieces(interleave(views(r@), match_texts(regex_all_captures(pattern@, text@))))
            == text@,
{
    let t = to_string(text);
    let v = split_raw(pattern, t.as_str());
    let mut r: Vec<Vec<char>> = Vec::new();
    let mut i: usize = 0;
    while i < v.len()
        invariant
            i <= v@.len(),
            v.deep_view() == regex_pieces(pattern@, text@),
            views(r@) =~= v.deep_view().take(i as int),
        decreases v.len() - i,
    {
        let c = chars_of(v[i].as_str());
        let ghost old_r = r@;
        r.push(c);
        assert(views(r@) =~= views(old_r).push(v@[i as int]@));
        assert(v.deep_view().take(i + 1) =~= v.deep_view().take(i as int).push(v@[i as int]@));
        i = i + 1;
    }
    assert(views(r@) =~= v.deep_view());
    r
}

} // verus!
