//! The BASIC domain: introduction, operator information and how the operator is obtained.
use vstd::prelude::*;
use crate::fields::{extract_line_field, line_field};
use crate::modules::pair_views;
use crate::materials::{parse_u32_or, parse_u32_or_exec, PAT_PARAM};
use crate::md::{extend, push_line, push_str_line};
use crate::patterns::{captures, grp, regex_first_captures};
use crate::strops::{
    decimal, decimal_exec, join, join_str, parse_uint, parse_uint_exec, trim, trim_exec, words,
    words_exec,
};
use crate::text::{
    append, append_str, chars_of, chars_of_all, contains, contains_str, eq, starts_with,
    starts_with_str, to_strings, views,
};
use crate::wikitext::{clean_chars, cleaned};

verus! {

/// A date `YYYY-MM-DD` with an optional time after it.
pub const PAT_DATE: &'static str = "(\\d{4})-(\\d{2})-(\\d{2})\\s*(.*)";

/// `count` stars.
pub open spec fn stars(count: nat) -> Seq<char> {
    Seq::new(count, |i: int| '★')
}

/// The rarity stars for a rarity text: the number of stars it names (0 if it names none).
pub open spec fn stars_for(n: Seq<char>) -> Seq<char> {
    stars(
        match parse_uint(trim(n), usize::MAX as nat) {
            Some(c) => c,
            None => 0,
        },
    )
}

/// Turns a rarity number into stars.
pub fn to_stars(n: &Vec<char>) -> (r: Vec<char>)
    ensures
        r@ == stars_for(n@),
{
    let t = trim_exec(n);
    let count = match parse_uint_exec(&t, usize::MAX as u64) {
        Some(c) => c,
        None => 0,
    };
    let mut r: Vec<char> = Vec::new();
    let mut i: u64 = 0;
    while i < count
        invariant
            i <= count,
            r@ =~= stars(i as nat),
        decreases count - i,
    {
        r.push('★');
        i = i + 1;
    }
    r
}

/// A date written `YYYY年M月D日` (with the time after a space), or the text unchanged when
/// it holds no date.
pub open spec fn formatted_date(s: Seq<char>) -> Seq<char> {
    match regex_first_captures(PAT_DATE@, s) {
        Some(c) => {
            let base = grp(c, 1) + "年"@ + decimal(parse_u32_or(grp(c, 2), 0)) + "月"@ + decimal(
                parse_u32_or(grp(c, 3), 0),
            ) + "日"@;
            let rest = trim(grp(c, 4));
            if rest.len() == 0 {
                base
            } else {
                base + " "@ + rest
            }
        },
        None => s,
    }
}

/// Rewrites `2025-04-07 16:00` as `2025年4月7日 16:00`.
pub fn format_date(s: &Vec<char>) -> (r: Vec<char>)
    ensures
        r@ == formatted_date(s@),
{
    match captures(PAT_DATE, s) {
        Some(c) => {
            let mut base = c.get(1);
            append_str(&mut base, "年");
            let m = c.get(2);
            let mv = parse_u32_or_exec(&m, 0);
            let md = decimal_exec(mv as u64);
            append(&mut base, &md);
            append_str(&mut base, "月");
            let d = c.get(3);
            let dv = parse_u32_or_exec(&d, 0);
            let dd = decimal_exec(dv as u64);
            append(&mut base, &dd);
            append_str(&mut base, "日");
            let r0 = c.get(4);
            let rest = trim_exec(&r0);
            if rest.len() == 0 {
                base
            } else {
                append_str(&mut base, " ");
                append(&mut base, &rest);
                base
            }
        },
        None => s.clone(),
    }
}

/// The value last stored under `k`.
pub open spec fn last_value(p: Seq<(Seq<char>, Seq<char>)>, k: Seq<char>) -> Option<Seq<char>>
    decreases p.len(),
{
    if p.len() == 0 {
        None
    } else if p.last().0 == k {
        Some(p.last().1)
    } else {
        last_value(p.drop_last(), k)
    }
}

/// The value last stored under `k`, or the empty text.
pub open spec fn value_or_empty(p: Seq<(Seq<char>, Seq<char>)>, k: Seq<char>) -> Seq<char> {
    match last_value(p, k) {
        Some(v) => v,
        None => Seq::empty(),
    }
}

/// Parameters reading state: stored parameters (later ones win) and whether the
/// exclusive-module section is open.
pub type ParamState = (Seq<(Seq<char>, Seq<char>)>, bool);

/// Whether a parameter name is one the BASIC view leaves out.
pub open spec fn ignored_key(k: Seq<char>) -> bool {
    starts_with(k, "干员名j"@) || contains(k, "坐标"@) || contains(k, "缩放"@) || contains(
        k,
        "触发类型"@,
    )
}

pub open spec fn param_step(st: ParamState, line: Seq<char>) -> ParamState {
    if contains(line, "<section begin=专属模组"@) {
        (st.0, true)
    } else if contains(line, "<section end=专属模组"@) {
        (st.0, false)
    } else if st.1 {
        st
    } else {
        match regex_first_captures(PAT_PARAM@, line) {
            Some(c) => {
                let k = trim(grp(c, 1));
                let v = cleaned(trim(grp(c, 2)));
                if v.len() > 0 && !ignored_key(k) {
                    (st.0.push((k, v)), st.1)
                } else {
                    st
                }
            },
            None => st,
        }
    }
}

pub open spec fn param_lines(ls: Seq<Seq<char>>) -> ParamState
    decreases ls.len(),
{
    if ls.len() == 0 {
        (Seq::empty(), false)
    } else {
        param_step(param_lines(ls.drop_last()), ls.last())
    }
}

/// A line list when `c` holds, else nothing.
pub open spec fn when(c: bool, l: Seq<Seq<char>>) -> Seq<Seq<char>> {
    if c {
        l
    } else {
        Seq::empty()
    }
}

/// The introduction lines.
pub open spec fn basic_intro(p: Seq<(Seq<char>, Seq<char>)>) -> Seq<Seq<char>> {
    let brief = value_or_empty(p, "干员简介"@);
    let extra = value_or_empty(p, "干员简介补充"@);
    when(brief.len() > 0, seq![brief]) + when(extra.len() > 0, seq!["> "@ + extra]) + when(
        brief.len() > 0 || extra.len() > 0,
        seq![Seq::empty()],
    )
}

/// The voice actors, each with its language.
pub open spec fn cv_parts(p: Seq<(Seq<char>, Seq<char>)>) -> Seq<Seq<char>> {
    let cn = value_or_empty(p, "中文配音"@);
    let jp = value_or_empty(p, "日文配音"@);
    let en = value_or_empty(p, "英文配音"@);
    let kr = value_or_empty(p, "韩文配音"@);
    when(cn.len() > 0, seq![cn + " **(中)**"@]) + when(jp.len() > 0, seq![jp + " **(日)**"@])
        + when(en.len() > 0, seq![en + " **(英)**"@]) + when(kr.len() > 0, seq![kr + " **(韩)**"@])
}

/// Illustrator and voice actors.
pub open spec fn basic_credits(p: Seq<(Seq<char>, Seq<char>)>) -> Seq<Seq<char>> {
    let ill = value_or_empty(p, "画师"@);
    let cv = cv_parts(p);
    seq!["### 干员信息"@, Seq::empty()] + when(ill.len() > 0, seq!["> ***画师**: "@ + ill + "*"@])
        + when(cv.len() > 0, seq!["> \n> ***配音**: "@ + join(cv, " | "@) + "*"@]) + seq![
        Seq::empty(),
    ]
}

/// The faction: the country if given, else the affiliation.
pub open spec fn faction(p: Seq<(Seq<char>, Seq<char>)>) -> Seq<char> {
    match last_value(p, "所属国家"@) {
        Some(v) => v,
        None => value_or_empty(p, "所属"@),
    }
}

/// Code, rarity and faction.
pub open spec fn basic_ranks(p: Seq<(Seq<char>, Seq<char>)>) -> Seq<Seq<char>> {
    let code = value_or_empty(p, "情报编号"@);
    let st = stars_for(
        match last_value(p, "稀有度"@) {
            Some(v) => v,
            None => "0"@,
        },
    );
    let f = faction(p);
    when(code.len() > 0, seq!["编号："@ + code]) + seq![Seq::empty()] + when(
        st.len() > 0,
        seq!["星级: "@ + st],
    ) + seq![Seq::empty()] + when(f.len() > 0, seq!["势力: "@ + f]) + seq![Seq::empty()]
}

/// Position and tags.
pub open spec fn basic_tags(p: Seq<(Seq<char>, Seq<char>)>) -> Seq<Seq<char>> {
    (match last_value(p, "位置"@) {
        Some(pos) => seq!["位置: "@ + pos],
        None => Seq::empty(),
    }) + seq![Seq::empty()] + match last_value(p, "标签"@) {
        Some(tags) => seq!["词缀: "@ + join(words(tags), ","@)],
        None => Seq::empty(),
    } + seq![Seq::empty()]
}

/// Code, rarity, faction, position and tags.
pub open spec fn basic_facts(p: Seq<(Seq<char>, Seq<char>)>) -> Seq<Seq<char>> {
    basic_ranks(p) + basic_tags(p)
}

/// Class and branch, and the trait.
pub open spec fn basic_class(p: Seq<(Seq<char>, Seq<char>)>, trait_text: Seq<char>) -> Seq<
    Seq<char>,
> {
    let job = value_or_empty(p, "职业"@);
    let branch = value_or_empty(p, "分支"@);
    let jl = if branch.len() == 0 {
        job
    } else {
        job + "-"@ + branch
    };
    when(jl.len() > 0, seq!["职业: "@ + jl]) + when(
        trait_text.len() > 0,
        seq!["> "@ + trait_text],
    ) + seq![Seq::empty()]
}

/// How the operator is obtained and since when.
pub open spec fn basic_obtain(p: Seq<(Seq<char>, Seq<char>)>) -> Seq<Seq<char>> {
    seq!["### 获得方式"@, Seq::empty()] + match last_value(p, "获得方式"@) {
        Some(w) => seq!["获得方式："@ + w],
        None => Seq::empty(),
    } + seq![Seq::empty()] + match last_value(p, "上线时间"@) {
        Some(d) => seq!["上线时间："@ + formatted_date(d)],
        None => Seq::empty(),
    } + seq![Seq::empty()]
}

/// The trait text of the page, cleaned.
pub open spec fn trait_of(main: Seq<char>) -> Seq<char> {
    match line_field(main, "特性"@) {
        Some(t) => cleaned(t),
        None => Seq::empty(),
    }
}

/// The Markdown of the BASIC domain.
pub open spec fn basic_output(ls: Seq<Seq<char>>, main: Seq<char>) -> Seq<Seq<char>> {
    let p = param_lines(ls).0;
    basic_intro(p) + basic_credits(p) + basic_facts(p) + basic_class(p, trait_of(main))
        + basic_obtain(p)
}

fn last_value_exec(p: &Vec<(Vec<char>, Vec<char>)>, k: &str) -> (r: Option<Vec<char>>)
    ensures
        crate::text::opt_view(r) == last_value(pair_views(p@), k@),
{
    let kk = chars_of(k);
    let mut i: usize = p.len();
    assert(pair_views(p@).take(p@.len() as int) =~= pair_views(p@));
    while i > 0
        invariant
            i <= p@.len(),
            kk@ == k@,
            last_value(pair_views(p@), k@) == last_value(pair_views(p@).take(i as int), k@),
        decreases i,
    {
        assert(pair_views(p@).take(i as int).last() == (p@[i - 1].0@, p@[i - 1].1@));
        if eq(&p[i - 1].0, &kk) {
            return Some(p[i - 1].1.clone());
        }
        assert(pair_views(p@).take(i as int).drop_last() =~= pair_views(p@).take(i - 1));
        i = i - 1;
    }
    None
}

fn value_or_empty_exec(p: &Vec<(Vec<char>, Vec<char>)>, k: &str) -> (r: Vec<char>)
    ensures
        r@ == value_or_empty(pair_views(p@), k@),
{
    match last_value_exec(p, k) {
        Some(v) => v,
        None => Vec::new(),
    }
}

fn param_step_exec(params: &mut Vec<(Vec<char>, Vec<char>)>, in_module: &mut bool, line: &Vec<char>)
    ensures
        (pair_views(final(params)@), *final(in_module)) == param_step(
            (pair_views(old(params)@), *old(in_module)),
            line@,
        ),
{
    if contains_str(line, "<section begin=专属模组") {
        *in_module = true;
        return;
    }
    if contains_str(line, "<section end=专属模组") {
        *in_module = false;
        return;
    }
    if *in_module {
        return;
    }
    match captures(PAT_PARAM, line) {
        Some(c) => {
            let k0 = c.get(1);
            let k = trim_exec(&k0);
            let v0 = c.get(2);
            let v1 = trim_exec(&v0);
            let v = clean_chars(&v1);
            if v.len() > 0 && !(starts_with_str(&k, "干员名j") || contains_str(&k, "坐标")
                || contains_str(&k, "缩放") || contains_str(&k, "触发类型")) {
                let ghost before = pair_views(params@);
                params.push((k, v));
                assert(pair_views(params@) =~= before.push((k@, v@)));
            }
        },
        None => {},
    }
}

fn opt_line(cond: bool, line: Vec<char>) -> (r: Vec<Vec<char>>)
    ensures
        views(r@) == when(cond, seq![line@]),
{
    let mut r: Vec<Vec<char>> = Vec::new();
    if cond {
        push_line(&mut r, line);
    }
    assert(views(r@) =~= when(cond, seq![line@]));
    r
}

fn prefixed(prefix: &str, v: &Vec<char>) -> (r: Vec<char>)
    ensures
        r@ == prefix@ + v@,
{
    let mut r = chars_of(prefix);
    append(&mut r, v);
    r
}

fn basic_intro_exec(p: &Vec<(Vec<char>, Vec<char>)>) -> (r: Vec<Vec<char>>)
    ensures
        views(r@) == basic_intro(pair_views(p@)),
{
    let brief = value_or_empty_exec(p, "干员简介");
    let extra = value_or_empty_exec(p, "干员简介补充");
    let has = brief.len() > 0 || extra.len() > 0;
    let b = brief.len() > 0;
    let e = extra.len() > 0;
    let l2 = prefixed("> ", &extra);
    let mut r = opt_line(b, brief);
    extend(&mut r, opt_line(e, l2));
    extend(&mut r, opt_line(has, Vec::new()));
    r
}

fn cv_parts_exec(p: &Vec<(Vec<char>, Vec<char>)>) -> (r: Vec<Vec<char>>)
    ensures
        views(r@) == cv_parts(pair_views(p@)),
{
    let cn = value_or_empty_exec(p, "中文配音");
    let jp = value_or_empty_exec(p, "日文配音");
    let en = value_or_empty_exec(p, "英文配音");
    let kr = value_or_empty_exec(p, "韩文配音");
    let (a, b, c, d) = (cn.len() > 0, jp.len() > 0, en.len() > 0, kr.len() > 0);
    let mut l1 = cn;
    append_str(&mut l1, " **(中)**");
    let mut l2 = jp;
    append_str(&mut l2, " **(日)**");
    let mut l3 = en;
    append_str(&mut l3, " **(英)**");
    let mut l4 = kr;
    append_str(&mut l4, " **(韩)**");
    let mut r = opt_line(a, l1);
    extend(&mut r, opt_line(b, l2));
    extend(&mut r, opt_line(c, l3));
    extend(&mut r, opt_line(d, l4));
    r
}

fn basic_credits_exec(p: &Vec<(Vec<char>, Vec<char>)>) -> (r: Vec<Vec<char>>)
    ensures
        views(r@) == basic_credits(pair_views(p@)),
{
    let ill = value_or_empty_exec(p, "画师");
    let cv = cv_parts_exec(p);
    let mut r: Vec<Vec<char>> = Vec::new();
    push_str_line(&mut r, "### 干员信息");
    push_line(&mut r, Vec::new());
    let hi = ill.len() > 0;
    let mut l1 = prefixed("> ***画师**: ", &ill);
    append_str(&mut l1, "*");
    extend(&mut r, opt_line(hi, l1));
    let j = join_str(&cv, " | ");
    let mut l2 = prefixed("> \n> ***配音**: ", &j);
    append_str(&mut l2, "*");
    extend(&mut r, opt_line(cv.len() > 0, l2));
    push_line(&mut r, Vec::new());
    r
}

fn basic_ranks_exec(p: &Vec<(Vec<char>, Vec<char>)>) -> (r: Vec<Vec<char>>)
    ensures
        views(r@) == basic_ranks(pair_views(p@)),
{
    let code = value_or_empty_exec(p, "情报编号");
    let rar = match last_value_exec(p, "稀有度") {
        Some(v) => v,
        None => chars_of("0"),
    };
    let st = to_stars(&rar);
    let f = match last_value_exec(p, "所属国家") {
        Some(v) => v,
        None => value_or_empty_exec(p, "所属"),
    };
    assert(f@ == faction(pair_views(p@)));
    let mut r = opt_line(code.len() > 0, prefixed("编号：", &code));
    push_line(&mut r, Vec::new());
    extend(&mut r, opt_line(st.len() > 0, prefixed("星级: ", &st)));
    push_line(&mut r, Vec::new());
    extend(&mut r, opt_line(f.len() > 0, prefixed("势力: ", &f)));
    push_line(&mut r, Vec::new());
    assert(views(r@) =~= basic_ranks(pair_views(p@)));
    r
}

fn basic_tags_exec(p: &Vec<(Vec<char>, Vec<char>)>) -> (r: Vec<Vec<char>>)
    ensures
        views(r@) == basic_tags(pair_views(p@)),
{
    let mut r: Vec<Vec<char>> = Vec::new();
    match last_value_exec(p, "位置") {
        Some(pos) => push_line(&mut r, prefixed("位置: ", &pos)),
        None => {},
    }
    push_line(&mut r, Vec::new());
    match last_value_exec(p, "标签") {
        Some(tags) => {
            let w = words_exec(&tags);
            let j = join_str(&w, ",");
            push_line(&mut r, prefixed("词缀: ", &j));
        },
        None => {},
    }
    push_line(&mut r, Vec::new());
    assert(views(r@) =~= basic_tags(pair_views(p@)));
    r
}

fn basic_facts_exec(p: &Vec<(Vec<char>, Vec<char>)>) -> (r: Vec<Vec<char>>)
    ensures
        views(r@) == basic_facts(pair_views(p@)),
{
    let mut r = basic_ranks_exec(p);
    extend(&mut r, basic_tags_exec(p));
    r
}

fn basic_class_exec(p: &Vec<(Vec<char>, Vec<char>)>, trait_text: &Vec<char>) -> (r: Vec<Vec<char>>)
    ensures
        views(r@) == basic_class(pair_views(p@), trait_text@),
{
    let job = value_or_empty_exec(p, "职业");
    let branch = value_or_empty_exec(p, "分支");
    let jl = if branch.len() == 0 {
        job
    } else {
        let mut x = job;
        append_str(&mut x, "-");
        append(&mut x, &branch);
        x
    };
    let mut r = opt_line(jl.len() > 0, prefixed("职业: ", &jl));
    extend(&mut r, opt_line(trait_text.len() > 0, prefixed("> ", trait_text)));
    push_line(&mut r, Vec::new());
    r
}

fn basic_obtain_exec(p: &Vec<(Vec<char>, Vec<char>)>) -> (r: Vec<Vec<char>>)
    ensures
        views(r@) == basic_obtain(pair_views(p@)),
{
    let mut r: Vec<Vec<char>> = Vec::new();
    push_str_line(&mut r, "### 获得方式");
    push_line(&mut r, Vec::new());
    match last_value_exec(p, "获得方式") {
        Some(w) => push_line(&mut r, prefixed("获得方式：", &w)),
        None => {},
    }
    push_line(&mut r, Vec::new());
    match last_value_exec(p, "上线时间") {
        Some(d) => {
            let fd = format_date(&d);
            push_line(&mut r, prefixed("上线时间：", &fd));
        },
        None => {},
    }
    push_line(&mut r, Vec::new());
    assert(views(r@) =~= basic_obtain(pair_views(p@)));
    r
}

/// Reads the single-line field `key` of a page (see `extract_line_field`).
fn extract_field(text: &Vec<char>, key: &str) -> (r: Option<Vec<char>>)
    ensures
        crate::text::opt_view(r) == line_field(text@, key@),
{
    extract_line_field(text, key)
}

/// The BASIC domain from the basic bucket lines and the whole page.
pub fn parse_basic_chars(ls: &Vec<Vec<char>>, main: &Vec<char>) -> (r: Vec<Vec<char>>)
    ensures
        views(r@) == basic_output(views(ls@), main@),
{
    let trait_text = match extract_field(main, "特性") {
        Some(t) => clean_chars(&t),
        None => Vec::new(),
    };
    let mut params: Vec<(Vec<char>, Vec<char>)> = Vec::new();
    let mut in_module = false;
    let mut i: usize = 0;
    assert(pair_views(params@) =~= Seq::<(Seq<char>, Seq<char>)>::empty());
    while i < ls.len()
        invariant
            i <= ls@.len(),
            (pair_views(params@), in_module) == param_lines(views(ls@).take(i as int)),
        decreases ls.len() - i,
    {
        assert(views(ls@).take(i + 1).drop_last() =~= views(ls@).take(i as int));
        assert(views(ls@).take(i + 1).last() == ls@[i as int]@);
        param_step_exec(&mut params, &mut in_module, &ls[i]);
        i = i + 1;
    }
    assert(views(ls@).take(ls@.len() as int) =~= views(ls@));
    let mut r = basic_intro_exec(&params);
    extend(&mut r, basic_credits_exec(&params));
    extend(&mut r, basic_facts_exec(&params));
    extend(&mut r, basic_class_exec(&params, &trait_text));
    extend(&mut r, basic_obtain_exec(&params));
    r
}

/// The BASIC domain of a page: `lines` is the basic bucket, `main_text` the whole page
/// (read for the trait).
pub fn parse_basic(lines: &Vec<String>, main_text: &str) -> (r: Vec<String>)
    ensures
        r.deep_view() == basic_output(lines.deep_view(), main_text@),
{
    let ls = chars_of_all(lines);
    let m = chars_of(main_text);
    let out = parse_basic_chars(&ls, &m);
    to_strings(&out)
}

/// Whether a line opens the module section.
pub open spec fn opens_module_section(line: Seq<char>) -> bool {
    contains(line, "<section begin=专属模组"@)
}

/// Whether a line closes the module section.
pub open spec fn closes_module_section(line: Seq<char>) -> bool {
    contains(line, "<section end=专属模组"@)
}

proof fn lemma_params_outside_section(ls: Seq<Seq<char>>)
    requires
        forall|i: int| 0 <= i < ls.len() ==> !opens_module_section(#[trigger] ls[i]),
    ensures
        !param_lines(ls).1,
    decreases ls.len(),
{
    if ls.len() > 0 {
        lemma_params_outside_section(ls.drop_last());
        assert(!opens_module_section(ls[ls.len() - 1]));
    }
}

proof fn lemma_params_inside_section(x: Seq<Seq<char>>, inner: Seq<Seq<char>>)
    requires
        param_lines(x).1,
        forall|i: int|
            0 <= i < inner.len() ==> !opens_module_section(#[trigger] inner[i]) && !closes_module_section(
                inner[i],
            ),
    ensures
        param_lines(x + inner) == param_lines(x),
    decreases inner.len(),
{
    if inner.len() == 0 {
        assert(x + inner =~= x);
    } else {
        lemma_params_inside_section(x, inner.drop_last());
        assert((x + inner).drop_last() =~= x + inner.drop_last());
        assert(!opens_module_section(inner[inner.len() - 1]));
    }
}

proof fn lemma_params_same_suffix(x1: Seq<Seq<char>>, x2: Seq<Seq<char>>, y: Seq<Seq<char>>)
    requires
        param_lines(x1) == param_lines(x2),
    ensures
        param_lines(x1 + y) == param_lines(x2 + y),
    decreases y.len(),
{
    if y.len() == 0 {
        assert(x1 + y =~= x1);
        assert(x2 + y =~= x2);
    } else {
        lemma_params_same_suffix(x1, x2, y.drop_last());
        assert((x1 + y).drop_last() =~= x1 + y.drop_last());
        assert((x2 + y).drop_last() =~= x2 + y.drop_last());
    }
}

/// The fields inside a module section (from a line that opens it to one that closes it)
/// are left out of the BASIC domain: inserting such a section after lines that open
/// none leaves the output as it is.
pub proof fn law_module_section_changes_nothing(
    before: Seq<Seq<char>>,
    open_line: Seq<char>,
    inner: Seq<Seq<char>>,
    close_line: Seq<char>,
    after: Seq<Seq<char>>,
    main: Seq<char>,
)
    requires
        forall|i: int| 0 <= i < before.len() ==> !opens_module_section(#[trigger] before[i]),
        opens_module_section(open_line),
        forall|i: int|
            0 <= i < inner.len() ==> !opens_module_section(#[trigger] inner[i]) && !closes_module_section(
                inner[i],
            ),
        closes_module_section(close_line),
        !opens_module_section(close_line),
    ensures
        basic_output(before.push(open_line) + inner + seq![close_line] + after, main) == basic_output(
            before + after,
            main,
        ),
{
    lemma_params_outside_section(before);
    let x = before.push(open_line);
    assert(x.drop_last() =~= before);
    lemma_params_inside_section(x, inner);
    let xi = (x + inner).push(close_line);
    assert(xi.drop_last() =~= x + inner);
    assert(param_lines(xi) == param_lines(before));
    assert(before.push(open_line) + inner + seq![close_line] =~= xi);
    lemma_params_same_suffix(xi, before, after);
}

proof fn lemma_in_concat(a: Seq<Seq<char>>, b: Seq<Seq<char>>, x: Seq<char>)
    ensures
        a.contains(x) ==> (a + b).contains(x),
        b.contains(x) ==> (a + b).contains(x),
{
    if a.contains(x) {
        let i = choose|i: int| 0 <= i < a.len() && a[i] == x;
        assert((a + b)[i] == x);
    }
    if b.contains(x) {
        let i = choose|i: int| 0 <= i < b.len() && b[i] == x;
        assert((a + b)[a.len() + i] == x);
    }
}

/// The BASIC output shows what the page last gives for each field under its own label:
/// the brief first, then the illustrator (`画师`), the code (`编号：`), the position
/// (`位置: `), the class with its branch (`职业: `) and the way of obtaining
/// (`获得方式：`), each where the page gives it.
pub proof fn law_basic_fields_under_their_labels(ls: Seq<Seq<char>>, main: Seq<char>)
    ensures
        ({
            let p = param_lines(ls).0;
            let out = basic_output(ls, main);
            &&& value_or_empty(p, "干员简介"@).len() > 0 ==> out[0] == value_or_empty(p, "干员简介"@)
            &&& value_or_empty(p, "画师"@).len() > 0 ==> out.contains(
                "> ***画师**: "@ + value_or_empty(p, "画师"@) + "*"@,
            )
            &&& value_or_empty(p, "情报编号"@).len() > 0 ==> out.contains("编号："@ + value_or_empty(p, "情报编号"@))
            &&& last_value(p, "位置"@) matches Some(pos) ==> out.contains("位置: "@ + pos)
            &&& value_or_empty(p, "职业"@).len() > 0 && value_or_empty(p, "分支"@).len() > 0 ==> out.contains(
                "职业: "@ + value_or_empty(p, "职业"@) + "-"@ + value_or_empty(p, "分支"@),
            )
            &&& last_value(p, "获得方式"@) matches Some(w) ==> out.contains("获得方式："@ + w)
        }),
{
    let p = param_lines(ls).0;
    let a = basic_intro(p);
    let b = basic_credits(p);
    let c = basic_facts(p);
    let d = basic_class(p, trait_of(main));
    let e = basic_obtain(p);
    let out = basic_output(ls, main);
    assert(out == a + b + c + d + e);
    let ill = value_or_empty(p, "画师"@);
    if ill.len() > 0 {
        let x = "> ***画师**: "@ + ill + "*"@;
        assert(b[2] == x);
        lemma_in_concat(a, b, x);
        lemma_in_concat(a + b, c, x);
        lemma_in_concat(a + b + c, d, x);
        lemma_in_concat(a + b + c + d, e, x);
    }
    let code = value_or_empty(p, "情报编号"@);
    if code.len() > 0 {
        let x = "编号："@ + code;
        assert(basic_ranks(p)[0] == x);
        assert(c[0] == x);
        lemma_in_concat(a + b, c, x);
        lemma_in_concat(a + b + c, d, x);
        lemma_in_concat(a + b + c + d, e, x);
    }
    if let Some(pos) = last_value(p, "位置"@) {
        let x = "位置: "@ + pos;
        let r = basic_ranks(p);
        assert(basic_tags(p)[0] == x);
        assert(c[r.len() as int] == x);
        lemma_in_concat(a + b, c, x);
        lemma_in_concat(a + b + c, d, x);
        lemma_in_concat(a + b + c + d, e, x);
    }
    let job = value_or_empty(p, "职业"@);
    let branch = value_or_empty(p, "分支"@);
    if job.len() > 0 && branch.len() > 0 {
        let x = "职业: "@ + job + "-"@ + branch;
        assert(("职业: "@ + (job + "-"@ + branch)) =~= x);
        assert(d[0] == x);
        lemma_in_concat(a + b + c, d, x);
        lemma_in_concat(a + b + c + d, e, x);
    }
    if let Some(w) = last_value(p, "获得方式"@) {
        let x = "获得方式："@ + w;
        assert(e[2] == x);
        lemma_in_concat(a + b + c + d, e, x);
    }
}

} // verus!
