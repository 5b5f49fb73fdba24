//! Cleaning of wikitext markup into plain text, and extraction of the variable
//! values of a skill description.
use vstd::prelude::*;
use crate::patterns::{
    captures, captures_all, grp, regex_all_captures, regex_first_captures, regex_pieces,
    regex_replaced, replace_all, split,
};
use crate::strops::{decimal, decimal_exec, join, trim, trim_exec};
use crate::text::{append, append_str, chars_of, eq, to_string, views};

verus! {

/// HTML comments.
pub const PAT_CMT: &'static str = "(?s)<!--.*?-->";

/// `{{color|#xxx|text}}`.
pub const PAT_COLOR: &'static str = "\\{\\{color\\|#?[a-zA-Z0-9]*\\|(.*?)\\}\\}";

/// `{{*|p1|p2}}` or `{{*|p1}}`.
pub const PAT_STAR: &'static str = "\\{\\{\\*\\|(.*?)(?:\\|(.*?))?\\}\\}";

/// `{{变动数值lite|..|..|value}}`.
pub const PAT_VAR_LITE: &'static str = "(?i)\\{\\{变动数值lite\\|.*?\\|.*?\\|(.*?)\\}\\}";

/// `[[link|display]]` or `[[link]]`.
pub const PAT_LINK: &'static str = "\\[\\[(?:[^\\]|]*\\|)?([^\\]]+)\\]\\]";

/// `{{DrName...}}`.
pub const PAT_DRNAME: &'static str = "\\{\\{DrName([^}]*)\\}\\}";

/// The `前缀=` attribute of a `DrName` template.
pub const PAT_DRNAME_PREFIX: &'static str = "前缀=([^|}]+)";

/// `{{术语|..|text}}`.
pub const PAT_TERM: &'static str = "\\{\\{术语\\|.*?\\|(.*?)\\}\\}";

/// `{{异常效果|text}}`.
pub const PAT_ABNORMAL: &'static str = "\\{\\{异常效果\\|(.*?)\\}\\}";

/// `{{popup|内容=text}}`.
pub const PAT_POPUP: &'static str = "(?i)\\{\\{popup\\|内容=(.*?)\\}\\}";

/// `{{材料消耗|material|count}}`.
pub const PAT_MAT: &'static str = "\\{\\{材料消耗\\|(.*?)\\|(.*?)\\}\\}";

/// `<br>`, `<br/>`, `<br />` in any case.
pub const PAT_BR: &'static str = "(?i)<br\\s*/?>";

/// A colour-marked value inside a skill description.
pub const PAT_VAR_COLOR: &'static str = "\\{\\{color\\|#?[a-zA-Z0-9]*\\|([^{}]+)\\}\\}";

/// A `变动数值lite` value inside a skill description.
pub const PAT_VAR_LITE2: &'static str = "(?i)\\{\\{变动数值lite\\|.*?\\|.*?\\|([^{}]+)\\}\\}";

/// The text obtained by writing `reps[i]` after `pieces[i]`, for each piece in order
/// (nothing after a piece that has no replacement).
pub open spec fn spliced(pieces: Seq<Seq<char>>, reps: Seq<Seq<char>>) -> Seq<char> {
    join(
        Seq::new(
            pieces.len(),
            |i: int|
                pieces[i] + if i < reps.len() {
                    reps[i]
                } else {
                    Seq::empty()
                },
        ),
        Seq::empty(),
    )
}

/// The pieces with the replacements written after them (see `spliced`).
pub fn splice(pieces: &Vec<Vec<char>>, reps: &Vec<Vec<char>>) -> (r: Vec<char>)
    ensures
        r@ == spliced(views(pieces@), views(reps@)),
{
    let ghost parts = Seq::new(
        views(pieces@).len(),
        |i: int|
            views(pieces@)[i] + if i < views(reps@).len() {
                views(reps@)[i]
            } else {
                Seq::empty()
            },
    );
    let mut r: Vec<char> = Vec::new();
    let mut i: usize = 0;
    while i < pieces.len()
        invariant
            i <= pieces@.len(),
            parts.len() == pieces@.len(),
            forall|k: int|
                0 <= k < parts.len() ==> #[trigger] parts[k] == pieces@[k]@ + if k
                    < reps@.len() {
                    reps@[k]@
                } else {
                    Seq::empty()
                },
            r@ == join(parts.take(i as int), Seq::empty()),
        decreases pieces.len() - i,
    {
        assert(parts.take(i + 1).drop_last() =~= parts.take(i as int));
        let ghost before = r@;
        append(&mut r, &pieces[i]);
        if i < reps.len() {
            append(&mut r, &reps[i]);
        }
        assert(r@ =~= before + parts[i as int]);
        proof {
            if i > 0 {
                assert(join(parts.take(i + 1), Seq::empty()) == join(
                    parts.take(i as int),
                    Seq::empty(),
                ) + Seq::<char>::empty() + parts[i as int]);
                assert(before + Seq::<char>::empty() =~= before);
            } else {
                assert(before =~= Seq::<char>::empty());
            }
        }
        i = i + 1;
    }
    assert(parts.take(pieces@.len() as int) =~= parts);
    r
}

/// What a `{{*|p1|p2}}` template becomes: `p2` where it reads `+p1`, else `p1`.
pub open spec fn star_choice(caps: Seq<Option<Seq<char>>>) -> Seq<char> {
    if grp(caps, 2) == seq!['+'] + grp(caps, 1) {
        grp(caps, 2)
    } else {
        grp(caps, 1)
    }
}

/// What a `{{DrName...}}` template becomes: its prefix (if any) before `{@Doctor}`.
pub open spec fn drname_choice(caps: Seq<Option<Seq<char>>>) -> Seq<char> {
    match regex_first_captures(PAT_DRNAME_PREFIX@, grp(caps, 1)) {
        Some(pc) => grp(pc, 1) + "{@Doctor}"@,
        None => "{@Doctor}"@,
    }
}

pub open spec fn star_reps(all: Seq<Seq<Option<Seq<char>>>>) -> Seq<Seq<char>> {
    all.map_values(|c: Seq<Option<Seq<char>>>| star_choice(c))
}

pub open spec fn drname_reps(all: Seq<Seq<Option<Seq<char>>>>) -> Seq<Seq<char>> {
    all.map_values(|c: Seq<Option<Seq<char>>>| drname_choice(c))
}

/// `text` with each `{{*|..}}` template resolved.
pub open spec fn star_replaced(text: Seq<char>) -> Seq<char> {
    spliced(regex_pieces(PAT_STAR@, text), star_reps(regex_all_captures(PAT_STAR@, text)))
}

/// `text` with each `{{DrName..}}` template resolved.
pub open spec fn drname_replaced(text: Seq<char>) -> Seq<char> {
    spliced(regex_pieces(PAT_DRNAME@, text), drname_reps(regex_all_captures(PAT_DRNAME@, text)))
}

/// The cleaning pipeline, step by step.
pub open spec fn clean_steps(t: Seq<char>) -> Seq<char> {
    let s1 = regex_replaced(PAT_CMT@, t, Seq::empty());
    let s2 = regex_replaced(PAT_COLOR@, s1, "$1"@);
    let s3 = star_replaced(s2);
    let s4 = regex_replaced(PAT_VAR_LITE@, s3, "$1"@);
    let s5 = regex_replaced(PAT_LINK@, s4, "$1"@);
    let s6 = drname_replaced(s5);
    let s7 = regex_replaced(PAT_TERM@, s6, "$1"@);
    let s8 = regex_replaced(PAT_ABNORMAL@, s7, "[$1]"@);
    let s9 = regex_replaced(PAT_POPUP@, s8, "（$1）"@);
    let s10 = regex_replaced(PAT_MAT@, s9, "$1*$2"@);
    let s11 = regex_replaced(PAT_BR@, s10, "\n"@);
    trim(s11)
}

/// The plain text of a piece of wikitext.
pub open spec fn cleaned(t: Seq<char>) -> Seq<char> {
    if t.len() == 0 {
        Seq::empty()
    } else {
        clean_steps(t)
    }
}

fn star_choice_exec(g: &crate::patterns::Groups) -> (r: Vec<char>)
    requires
        g.texts@.len() == g.present@.len(),
    ensures
        forall|caps: Seq<Option<Seq<char>>>| g.matches_caps(caps) ==> r@ == star_choice(caps),
{
    let p1 = g.get(1);
    let p2 = g.get(2);
    let mut plus = vec!['+'];
    append(&mut plus, &p1);
    assert(plus@ =~= seq!['+'] + p1@);
    if eq(&p2, &plus) {
        p2
    } else {
        p1
    }
}

fn drname_choice_exec(g: &crate::patterns::Groups) -> (r: Vec<char>)
    requires
        g.texts@.len() == g.present@.len(),
    ensures
        forall|caps: Seq<Option<Seq<char>>>| g.matches_caps(caps) ==> r@ == drname_choice(caps),
{
    let attrs = g.get(1);
    match captures(PAT_DRNAME_PREFIX, &attrs) {
        Some(pc) => {
            let mut r = pc.get(1);
            append_str(&mut r, "{@Doctor}");
            r
        },
        None => chars_of("{@Doctor}"),
    }
}

fn replace_star(s: &Vec<char>) -> (r: Vec<char>)
    ensures
        r@ == star_replaced(s@),
{
    let pieces = split(PAT_STAR, s);
    let all = captures_all(PAT_STAR, s);
    let ghost caps = regex_all_captures(PAT_STAR@, s@);
    let mut reps: Vec<Vec<char>> = Vec::new();
    let mut i: usize = 0;
    while i < all.len()
        invariant
            i <= all@.len(),
            all@.len() == caps.len(),
            caps == regex_all_captures(PAT_STAR@, s@),
            forall|k: int| 0 <= k < all@.len() ==> (#[trigger] all@[k]).matches_caps(caps[k]),
            views(reps@) =~= star_reps(caps).take(i as int),
        decreases all.len() - i,
    {
        let x = star_choice_exec(&all[i]);
        let ghost old = reps@;
        reps.push(x);
        assert(views(reps@) =~= views(old).push(x@));
        i = i + 1;
    }
    assert(star_reps(caps).take(all@.len() as int) =~= star_reps(caps));
    splice(&pieces, &reps)
}

fn replace_drname(s: &Vec<char>) -> (r: Vec<char>)
    ensures
        r@ == drname_replaced(s@),
{
    let pieces = split(PAT_DRNAME, s);
    let all = captures_all(PAT_DRNAME, s);
    let ghost caps = regex_all_captures(PAT_DRNAME@, s@);
    let mut reps: Vec<Vec<char>> = Vec::new();
    let mut i: usize = 0;
    while i < all.len()
        invariant
            i <= all@.len(),
            all@.len() == caps.len(),
            caps == regex_all_captures(PAT_DRNAME@, s@),
            forall|k: int| 0 <= k < all@.len() ==> (#[trigger] all@[k]).matches_caps(caps[k]),
            views(reps@) =~= drname_reps(caps).take(i as int),
        decreases all.len() - i,
    {
        let x = drname_choice_exec(&all[i]);
        let ghost old = reps@;
        reps.push(x);
        assert(views(reps@) =~= views(old).push(x@));
        i = i + 1;
    }
    assert(drname_reps(caps).take(all@.len() as int) =~= drname_reps(caps));
    splice(&pieces, &reps)
}

/// Cleans wikitext: drops comments, unwraps colour, link, term, effect, popup and
/// material templates, resolves `{{*|..}}` and `{{DrName}}`, turns `<br>` into a line
/// break and trims the result.
pub fn clean_chars(t: &Vec<char>) -> (r: Vec<char>)
    ensures
        r@ == cleaned(t@),
{
    if t.len() == 0 {
        return Vec::new();
    }
    let s1 = replace_all(PAT_CMT, t, "");
    let s2 = replace_all(PAT_COLOR, &s1, "$1");
    let s3 = replace_star(&s2);
    let s4 = replace_all(PAT_VAR_LITE, &s3, "$1");
    let s5 = replace_all(PAT_LINK, &s4, "$1");
    let s6 = replace_drname(&s5);
    let s7 = replace_all(PAT_TERM, &s6, "$1");
    let s8 = replace_all(PAT_ABNORMAL, &s7, "[$1]");
    let s9 = replace_all(PAT_POPUP, &s8, "（$1）");
    let s10 = replace_all(PAT_MAT, &s9, "$1*$2");
    let s11 = replace_all(PAT_BR, &s10, "\n");
    proof {
        assert(""@ =~= Seq::<char>::empty()) by {
            reveal_strlit("");
        }
    }
    trim_exec(&s11)
}

/// Cleans wikitext into plain text (see `clean_chars`).
pub fn clean_wikitext(text: &str) -> (r: String)
    ensures
        r@ == cleaned(text@),
{
    let t = chars_of(text);
    let c = clean_chars(&t);
    to_string(&c)
}

/// `<br>` tags replaced by `rep`.
pub open spec fn br_to(t: Seq<char>, rep: Seq<char>) -> Seq<char> {
    regex_replaced(PAT_BR@, t, rep)
}

/// `<br>` tags replaced by `rep` (see `br_to`).
pub fn br_to_exec(t: &Vec<char>, rep: &str) -> (r: Vec<char>)
    ensures
        r@ == br_to(t@, rep@),
{
    replace_all(PAT_BR, t, rep)
}

/// A skill description with its variable values replaced by `{var1}`, `{var2}`, ...
/// and cleaned, with the values in order.
pub struct ExtractedVars {
    pub clean: String,
    pub vars: Vec<String>,
}

/// The placeholder `{varN}`.
pub open spec fn placeholder(n: nat) -> Seq<char> {
    "{var"@ + decimal(n) + "}"@
}

/// The placeholder `{varN}` (see `placeholder`).
pub fn placeholder_exec(n: u64) -> (r: Vec<char>)
    ensures
        r@ == placeholder(n as nat),
{
    let mut r = chars_of("{var");
    let d = decimal_exec(n);
    append(&mut r, &d);
    append_str(&mut r, "}");
    r
}

/// The placeholders for values `first + 1 ..= first + n`.
pub open spec fn placeholders(first: nat, n: nat) -> Seq<Seq<char>> {
    Seq::new(n, |i: int| placeholder((first + i + 1) as nat))
}

/// Group 1 of each match.
pub open spec fn first_groups(all: Seq<Seq<Option<Seq<char>>>>) -> Seq<Seq<char>> {
    all.map_values(|c: Seq<Option<Seq<char>>>| grp(c, 1))
}

/// The text with colour-marked values replaced by placeholders.
pub open spec fn vars_stage1(t: Seq<char>) -> Seq<char> {
    spliced(
        regex_pieces(PAT_VAR_COLOR@, t),
        placeholders(0, regex_all_captures(PAT_VAR_COLOR@, t).len()),
    )
}

/// The text with both kinds of values replaced by placeholders.
pub open spec fn vars_stage2(t: Seq<char>) -> Seq<char> {
    let s1 = vars_stage1(t);
    spliced(
        regex_pieces(PAT_VAR_LITE2@, s1),
        placeholders(
            regex_all_captures(PAT_VAR_COLOR@, t).len(),
            regex_all_captures(PAT_VAR_LITE2@, s1).len(),
        ),
    )
}

/// The extracted values, in placeholder order.
pub open spec fn vars_values(t: Seq<char>) -> Seq<Seq<char>> {
    first_groups(regex_all_captures(PAT_VAR_COLOR@, t)) + first_groups(
        regex_all_captures(PAT_VAR_LITE2@, vars_stage1(t)),
    )
}

/// Replaces each match of `pattern` by the next placeholder, counting on from `first`,
/// and collects the values.
fn placeholders_for(pattern: &str, s: &Vec<char>, first: usize, vars: &mut Vec<Vec<char>>) -> (r:
    Vec<char>)
    requires
        first == old(vars)@.len(),
    ensures
        r@ == spliced(
            regex_pieces(pattern@, s@),
            placeholders(first as nat, regex_all_captures(pattern@, s@).len()),
        ),
        views(final(vars)@) == views(old(vars)@) + first_groups(
            regex_all_captures(pattern@, s@),
        ),
{
    let pieces = split(pattern, s);
    let all = captures_all(pattern, s);
    let ghost caps = regex_all_captures(pattern@, s@);
    let ghost vars0 = views(vars@);
    assert(all@.len() == caps.len());
    let mut reps: Vec<Vec<char>> = Vec::new();
    let mut i: usize = 0;
    while i < all.len()
        invariant
            i <= all@.len(),
            all@.len() == caps.len(),
            forall|k: int| 0 <= k < all@.len() ==> (#[trigger] all@[k]).matches_caps(caps[k]),
            views(reps@) =~= placeholders(first as nat, caps.len()).take(i as int),
            views(vars@) =~= vars0 + first_groups(caps).take(i as int),
            vars@.len() == first + i,
        decreases all.len() - i,
    {
        let v = all[i].get(1);
        let ghost oldv = vars@;
        vars.push(v);
        assert(views(vars@) =~= views(oldv).push(v@));
        let x = placeholder_exec(vars.len() as u64);
        let ghost old = reps@;
        reps.push(x);
        assert(views(reps@) =~= views(old).push(x@));
        i = i + 1;
    }
    assert(placeholders(first as nat, caps.len()).take(all@.len() as int) =~= placeholders(
        first as nat,
        caps.len(),
    ));
    assert(first_groups(caps).take(all@.len() as int) =~= first_groups(caps));
    splice(&pieces, &reps)
}

/// The placeholder text (cleaned) and the values of a skill description.
pub fn extract_vars_chars(t: &Vec<char>) -> (r: (Vec<char>, Vec<Vec<char>>))
    ensures
        r.0@ == cleaned(vars_stage2(t@)),
        views(r.1@) == vars_values(t@),
{
    let mut vars: Vec<Vec<char>> = Vec::new();
    assert(views(vars@) =~= Seq::<Seq<char>>::empty());
    let s1 = placeholders_for(PAT_VAR_COLOR, t, 0, &mut vars);
    let n1 = vars.len();
    let s2 = placeholders_for(PAT_VAR_LITE2, &s1, n1, &mut vars);
    assert(Seq::<Seq<char>>::empty() + first_groups(regex_all_captures(PAT_VAR_COLOR@, t@))
        =~= first_groups(regex_all_captures(PAT_VAR_COLOR@, t@)));
    let c = clean_chars(&s2);
    (c, vars)
}

/// Replaces the variable values of a skill description by `{var1}`, `{var2}`, ...
/// (colour-marked values first, then `变动数值lite` values), cleans the result and
/// returns it with the values in order.
pub fn extract_vars(text: &str) -> (r: ExtractedVars)
    ensures
        r.clean@ == cleaned(vars_stage2(text@)),
        r.vars.deep_view() == vars_values(text@),
{
    let t = chars_of(text);
    let (c, vars) = extract_vars_chars(&t);
    let clean = to_string(&c);
    let vs = crate::text::to_strings(&vars);
    ExtractedVars { clean, vars: vs }
}

/// Cleaned text neither starts nor ends with whitespace.
pub proof fn law_cleaned_is_trimmed(t: Seq<char>)
    ensures
        cleaned(t).len() > 0 ==> !crate::text::is_ws(cleaned(t)[0]) && !crate::text::is_ws(
            cleaned(t).last(),
        ),
{
    if t.len() > 0 {
        let s1 = regex_replaced(PAT_CMT@, t, Seq::empty());
        let s2 = regex_replaced(PAT_COLOR@, s1, "$1"@);
        let s3 = star_replaced(s2);
        let s4 = regex_replaced(PAT_VAR_LITE@, s3, "$1"@);
        let s5 = regex_replaced(PAT_LINK@, s4, "$1"@);
        let s6 = drname_replaced(s5);
        let s7 = regex_replaced(PAT_TERM@, s6, "$1"@);
        let s8 = regex_replaced(PAT_ABNORMAL@, s7, "[$1]"@);
        let s9 = regex_replaced(PAT_POPUP@, s8, "（$1）"@);
        let s10 = regex_replaced(PAT_MAT@, s9, "$1*$2"@);
        let s11 = regex_replaced(PAT_BR@, s10, "\n"@);
        crate::strops::law_trimmed_ends(s11);
    }
}

} // verus!
