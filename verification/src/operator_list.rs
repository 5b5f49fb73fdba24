//! The operator list page: per operator its name, class, rarity, position, ways of
//! obtaining and tags, read from the `data-*` attributes of its `div[data-zh]` element;
//! and the Markdown table of all operators.
use vstd::prelude::*;
use crate::md::push_line;
use crate::strops::{parse_uint, parse_uint_exec, split_seq, split_str, trim, trim_exec, words, words_exec};
use crate::text::{append, append_str, chars_of, to_string, to_strings, views};

verus! {

/// The elements that describe an operator.
pub const OPERATOR_SELECTOR: &'static str = "div[data-zh]";

/// The Markdown table head of the operator list.
pub const OPERATOR_TABLE_HEAD: &'static str = "| 编号 | 中文名 | 外文名 | 职业 | 职业分支 | 稀有度 |\n|---|---|---|---|---|---|\n";

/// For each element of the HTML document `html` that the CSS selector `selector`
/// matches, in the order in which `Html::select` yields them (the order of the parsed
/// tree's nodes), the values of its attributes `names` (each `None` where the element
/// lacks it); `None` where the selector does not parse.
pub uninterp spec fn html_select_attrs(html: Seq<char>, selector: Seq<char>, names: Seq<Seq<char>>) -> Option<
    Seq<Seq<Option<Seq<char>>>>,
>;

/// `scraper::Selector::parse`, `scraper::Html::parse_document` and `Html::select`, then
/// `Element::attr` for each name. The contract claims only that the result is the named
/// outcome for these arguments.
#[verifier::external_body]
fn select_attrs_raw(html: &str, selector: &str, names: &Vec<String>) -> (r: Option<Vec<Vec<Option<String>>>>)
    ensures
        r.deep_view() == html_select_attrs(html@, selector@, names.deep_view()),
{
    let sel = match scraper::Selector::parse(selector) {
        Ok(s) => s,
        Err(_) => return None,
    };
    let doc = scraper::Html::parse_document(html);
    Some(doc.select(&sel).map(|e| names.iter().map(|n| e.value().attr(n).map(|v| v.to_string())).collect()).collect())
}

/// The attributes read from each operator element, in this order.
pub open spec fn attr_names() -> Seq<Seq<char>> {
    seq![
        "data-zh"@,
        "data-profession"@,
        "data-rarity"@,
        "data-position"@,
        "data-obtain_method"@,
        "data-tag"@,
        "data-subprofession"@,
        "data-id"@,
        "data-en"@,
        "data-ja"@,
    ]
}

/// Attribute `i` of an element, or the empty text where it is absent.
pub open spec fn attr_at(e: Seq<Option<Seq<char>>>, i: int) -> Seq<char> {
    if 0 <= i < e.len() {
        match e[i] {
            Some(v) => v,
            None => Seq::empty(),
        }
    } else {
        Seq::empty()
    }
}

/// An operator's attributes as the search filters read them.
#[verifier::ext_equal]
pub struct MetaView {
    pub zh_name: Seq<char>,
    pub class: Seq<char>,
    pub rarity: u8,
    pub position: Seq<char>,
    pub obtain: Seq<Seq<char>>,
    pub tags: Seq<Seq<char>>,
    pub subprofession: Seq<char>,
}

/// The non-empty trimmed pieces of a comma-separated list.
pub open spec fn comma_list(s: Seq<char>) -> Seq<Seq<char>> {
    split_seq(s, ","@).map_values(|p: Seq<char>| trim(p)).filter(|p: Seq<char>| p.len() > 0)
}

/// The rarity of an operator: the attribute (0 to 5) plus one, the attribute read as
/// 0 where it is not a `u8`, the sum held at 255.
pub open spec fn meta_rarity(attr: Seq<char>) -> u8 {
    let base: nat = match parse_uint(attr, 255) {
        Some(n) => n,
        None => 0,
    };
    if base >= 255 {
        255
    } else {
        (base + 1) as u8
    }
}

/// The attributes of one element, if it names an operator.
pub open spec fn meta_of(e: Seq<Option<Seq<char>>>) -> Option<MetaView> {
    if attr_at(e, 0).len() == 0 {
        None
    } else {
        Some(
            MetaView {
                zh_name: attr_at(e, 0),
                class: attr_at(e, 1),
                rarity: meta_rarity(attr_at(e, 2)),
                position: attr_at(e, 3),
                obtain: comma_list(attr_at(e, 4)),
                tags: words(attr_at(e, 5)),
                subprofession: attr_at(e, 6),
            },
        )
    }
}

pub open spec fn metas_of(es: Seq<Seq<Option<Seq<char>>>>) -> Seq<MetaView>
    decreases es.len(),
{
    if es.len() == 0 {
        Seq::empty()
    } else {
        let r = metas_of(es.drop_last());
        match meta_of(es.last()) {
            Some(m) => r.push(m),
            None => r,
        }
    }
}

/// The operators of the list page's HTML (`None` where the selector does not parse).
pub open spec fn operator_metas(html: Seq<char>) -> Option<Seq<MetaView>> {
    match html_select_attrs(html, OPERATOR_SELECTOR@, attr_names()) {
        Some(es) => Some(metas_of(es)),
        None => None,
    }
}

/// `n` stars.
pub open spec fn stars(n: nat) -> Seq<char> {
    Seq::new(n, |i: int| '★')
}

/// The star count of a list row: the attribute (a `u32`, 0 where it is not one) plus
/// one, wrapping past the largest `u32`.
pub open spec fn row_rarity(attr: Seq<char>) -> nat {
    let base: nat = match parse_uint(attr, u32::MAX as nat) {
        Some(n) => n,
        None => 0,
    };
    if base == u32::MAX {
        0
    } else {
        base + 1
    }
}

/// The table row of one element: id, name, foreign name (English, else Japanese),
/// class, branch, and rarity as stars.
pub open spec fn operator_row(e: Seq<Option<Seq<char>>>) -> Seq<char> {
    let en = attr_at(e, 8);
    let foreign = if en.len() == 0 {
        attr_at(e, 9)
    } else {
        en
    };
    "| "@ + attr_at(e, 7) + " | "@ + attr_at(e, 0) + " | "@ + foreign + " | "@ + attr_at(e, 1)
        + " | "@ + attr_at(e, 6) + " | "@ + stars(row_rarity(attr_at(e, 2))) + " |\n"@
}

pub open spec fn operator_rows(es: Seq<Seq<Option<Seq<char>>>>) -> Seq<char>
    decreases es.len(),
{
    if es.len() == 0 {
        Seq::empty()
    } else {
        operator_rows(es.drop_last()) + operator_row(es.last())
    }
}

/// The Markdown table of the list page's HTML (`None` where the selector does not parse).
pub open spec fn operator_table(html: Seq<char>) -> Option<Seq<char>> {
    match html_select_attrs(html, OPERATOR_SELECTOR@, attr_names()) {
        Some(es) => Some(OPERATOR_TABLE_HEAD@ + operator_rows(es)),
        None => None,
    }
}

// ─── executable ───────────────────────────────────────────────

/// An operator's attributes on the operator list page.
pub struct OperatorMeta {
    /// Chinese name (`data-zh`).
    pub zh_name: String,
    /// Class (`data-profession`).
    pub class: String,
    /// Rarity, 1 to 6 (`data-rarity` plus one).
    pub rarity: u8,
    /// Position (`data-position`): melee or ranged.
    pub position: String,
    /// Ways of obtaining (`data-obtain_method`, comma-separated).
    pub obtain: Vec<String>,
    /// Recruitment tags (`data-tag`, whitespace-separated).
    pub tags: Vec<String>,
    /// Branch (`data-subprofession`).
    pub subprofession: String,
}

impl OperatorMeta {
    pub open spec fn view_meta(&self) -> MetaView {
        MetaView {
            zh_name: self.zh_name@,
            class: self.class@,
            rarity: self.rarity,
            position: self.position@,
            obtain: self.obtain.deep_view(),
            tags: self.tags.deep_view(),
            subprofession: self.subprofession@,
        }
    }
}

pub open spec fn meta_views(ms: Seq<OperatorMeta>) -> Seq<MetaView> {
    ms.map_values(|m: OperatorMeta| m.view_meta())
}

fn attr_names_exec() -> (r: Vec<String>)
    ensures
        r.deep_view() == attr_names(),
{
    let mut r: Vec<Vec<char>> = Vec::new();
    crate::md::push_str_line(&mut r, "data-zh");
    crate::md::push_str_line(&mut r, "data-profession");
    crate::md::push_str_line(&mut r, "data-rarity");
    crate::md::push_str_line(&mut r, "data-position");
    crate::md::push_str_line(&mut r, "data-obtain_method");
    crate::md::push_str_line(&mut r, "data-tag");
    crate::md::push_str_line(&mut r, "data-subprofession");
    crate::md::push_str_line(&mut r, "data-id");
    crate::md::push_str_line(&mut r, "data-en");
    crate::md::push_str_line(&mut r, "data-ja");
    assert(views(r@) =~= attr_names());
    to_strings(&r)
}

fn attr_at_exec(e: &Vec<Option<String>>, i: usize) -> (r: Vec<char>)
    ensures
        r@ == attr_at(e.deep_view(), i as int),
{
    if i < e.len() {
        assert(e.deep_view()[i as int] == e@[i as int].deep_view());
        match &e[i] {
            Some(v) => chars_of(v.as_str()),
            None => Vec::new(),
        }
    } else {
        Vec::new()
    }
}

fn comma_list_exec(s: &Vec<char>) -> (r: Vec<String>)
    ensures
        r.deep_view() == comma_list(s@),
{
    proof {
        reveal_strlit(",");
    }
    let pieces = split_str(s, ",");
    let ghost pv = views(pieces@);
    let ghost tr = pv.map_values(|p: Seq<char>| trim(p));
    let mut r: Vec<Vec<char>> = Vec::new();
    let mut i: usize = 0;
    while i < pieces.len()
        invariant
            i <= pieces@.len(),
            pv == views(pieces@),
            tr == pv.map_values(|p: Seq<char>| trim(p)),
            views(r@) == tr.take(i as int).filter(|p: Seq<char>| p.len() > 0),
        decreases pieces.len() - i,
    {
        assert(tr.take(i + 1).drop_last() =~= tr.take(i as int));
        assert(tr.take(i + 1).last() == trim(pieces@[i as int]@));
        reveal_with_fuel(Seq::filter, 1);
        let t = trim_exec(&pieces[i]);
        if t.len() > 0 {
            push_line(&mut r, t);
        }
        i = i + 1;
    }
    assert(tr.take(pieces@.len() as int) =~= tr);
    to_strings(&r)
}

fn meta_rarity_exec(attr: &Vec<char>) -> (r: u8)
    ensures
        r == meta_rarity(attr@),
{
    let base: u64 = match parse_uint_exec(attr, 255) {
        Some(n) => n,
        None => 0,
    };
    if base >= 255 {
        255
    } else {
        (base + 1) as u8
    }
}

fn meta_of_exec(e: &Vec<Option<String>>) -> (r: Option<OperatorMeta>)
    ensures
        match meta_of(e.deep_view()) {
            Some(m) => r matches Some(x) && x.view_meta() == m,
            None => r is None,
        },
{
    let zh = attr_at_exec(e, 0);
    if zh.len() == 0 {
        return None;
    }
    let m = OperatorMeta {
        zh_name: to_string(&zh),
        class: to_string(&attr_at_exec(e, 1)),
        rarity: meta_rarity_exec(&attr_at_exec(e, 2)),
        position: to_string(&attr_at_exec(e, 3)),
        obtain: comma_list_exec(&attr_at_exec(e, 4)),
        tags: to_strings(&words_exec(&attr_at_exec(e, 5))),
        subprofession: to_string(&attr_at_exec(e, 6)),
    };
    assert(m.view_meta() =~= meta_of(e.deep_view())->0);
    Some(m)
}

/// The operators described by the HTML of the operator list page: one per
/// `div[data-zh]` element with a non-empty name, in document order.
pub fn operator_metas_from_html(html: &str) -> (r: Option<Vec<OperatorMeta>>)
    ensures
        match operator_metas(html@) {
            Some(ms) => r matches Some(v) && meta_views(v@) == ms,
            None => r is None,
        },
{
    let names = attr_names_exec();
    let sel = OPERATOR_SELECTOR;
    match select_attrs_raw(html, sel, &names) {
        Some(es) => {
            let ghost ev = es.deep_view();
            let mut r: Vec<OperatorMeta> = Vec::new();
            let mut i: usize = 0;
            while i < es.len()
                invariant
                    i <= es@.len(),
                    ev == es.deep_view(),
                    meta_views(r@) == metas_of(ev.take(i as int)),
                decreases es.len() - i,
            {
                assert(ev.take(i + 1).drop_last() =~= ev.take(i as int));
                assert(ev.take(i + 1).last() == es@[i as int].deep_view());
                match meta_of_exec(&es[i]) {
                    Some(m) => {
                        let ghost before = meta_views(r@);
                        let ghost mv = m.view_meta();
                        r.push(m);
                        assert(meta_views(r@) =~= before.push(mv));
                    },
                    None => {},
                }
                i = i + 1;
            }
            assert(ev.take(es@.len() as int) =~= ev);
            Some(r)
        },
        None => None,
    }
}

fn row_rarity_exec(attr: &Vec<char>) -> (r: u64)
    ensures
        r as nat == row_rarity(attr@),
{
    let base: u64 = match parse_uint_exec(attr, 4294967295) {
        Some(n) => n,
        None => 0,
    };
    if base == 4294967295 {
        0
    } else {
        base + 1
    }
}

fn operator_row_exec(e: &Vec<Option<String>>) -> (r: Vec<char>)
    ensures
        r@ == operator_row(e.deep_view()),
{
    let en = attr_at_exec(e, 8);
    let foreign = if en.len() == 0 {
        attr_at_exec(e, 9)
    } else {
        en
    };
    let mut l = chars_of("| ");
    append(&mut l, &attr_at_exec(e, 7));
    append_str(&mut l, " | ");
    append(&mut l, &attr_at_exec(e, 0));
    append_str(&mut l, " | ");
    append(&mut l, &foreign);
    append_str(&mut l, " | ");
    append(&mut l, &attr_at_exec(e, 1));
    append_str(&mut l, " | ");
    append(&mut l, &attr_at_exec(e, 6));
    append_str(&mut l, " | ");
    let n = row_rarity_exec(&attr_at_exec(e, 2));
    let ghost before = l@;
    let mut k: u64 = 0;
    while k < n
        invariant
            k <= n,
            l@ == before + stars(k as nat),
        decreases n - k,
    {
        l.push('★');
        assert(stars((k + 1) as nat) =~= stars(k as nat).push('★'));
        k = k + 1;
    }
    append_str(&mut l, " |\n");
    l
}

/// The Markdown table of the operators on the operator list page: a head, then one
/// row per `div[data-zh]` element in document order.
pub fn operator_list_markdown(html: &str) -> (r: Option<String>)
    ensures
        match operator_table(html@) {
            Some(t) => r matches Some(s) && s@ == t,
            None => r is None,
        },
{
    let names = attr_names_exec();
    match select_attrs_raw(html, OPERATOR_SELECTOR, &names) {
        Some(es) => {
            let ghost ev = es.deep_view();
            let mut t = chars_of(OPERATOR_TABLE_HEAD);
            let mut i: usize = 0;
            while i < es.len()
                invariant
                    i <= es@.len(),
                    ev == es.deep_view(),
                    t@ == OPERATOR_TABLE_HEAD@ + operator_rows(ev.take(i as int)),
                decreases es.len() - i,
            {
                assert(ev.take(i + 1).drop_last() =~= ev.take(i as int));
                assert(ev.take(i + 1).last() == es@[i as int].deep_view());
                let row = operator_row_exec(&es[i]);
                append(&mut t, &row);
                i = i + 1;
            }
            assert(ev.take(es@.len() as int) =~= ev);
            Some(to_string(&t))
        },
        None => None,
    }
}

// ─── laws ─────────────────────────────────────────────────────

/// Every operator read from the list has a name and a rarity of at least 1.
pub proof fn law_operators_named_and_rated(es: Seq<Seq<Option<Seq<char>>>>)
    ensures
        forall|i: int|
            0 <= i < metas_of(es).len() ==> (#[trigger] metas_of(es)[i]).zh_name.len() > 0
                && metas_of(es)[i].rarity >= 1,
    decreases es.len(),
{
    if es.len() > 0 {
        law_operators_named_and_rated(es.drop_last());
        let r = metas_of(es.drop_last());
        let all = metas_of(es);
        assert forall|i: int| 0 <= i < all.len() implies (#[trigger] all[i]).zh_name.len() > 0
            && all[i].rarity >= 1 by {
            if i < r.len() {
                assert(all[i] == r[i]);
            } else {
                let m = meta_of(es.last())->0;
                assert(all[i] == m);
                assert(meta_rarity(attr_at(es.last(), 2)) >= 1);
            }
        }
    }
}

} // verus!
