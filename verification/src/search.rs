//! The `search_operators` tool: the search requests, the merging of their hits, the
//! check of which hits are operator pages, the filters on operator attributes, and the
//! Markdown reply.
use vstd::prelude::*;
use vstd::utf8::encode_utf8;
use crate::get_operator::ToolReply;
use crate::md::push_line;
use crate::operator_list::{meta_views, MetaView, OperatorMeta};
use crate::strops::{decimal, decimal_exec, join, join_str, replace, replace_str, trim, trim_exec};
use crate::text::{
    append, append_str, chars_of, contains, contains_exec, contains_str, eq, lemma_text_lt_irreflexive,
    lemma_text_lt_total, lemma_text_lt_transitive, text_lt, text_lt_exec, texts_sorted, to_string,
    to_strings, views,
};
use crate::urlenc::{url_encode, url_encoded};

verus! {

/// Title search (prefix completion, following redirects from foreign names).
pub const OPENSEARCH_API: &'static str = "https://prts.wiki/api.php?action=opensearch&format=json&redirects=resolve";

/// Full-text search.
pub const FULLTEXT_SEARCH_API: &'static str = "https://prts.wiki/api.php?action=query&list=search&format=json&srnamespace=0&srwhat=text";

/// Check of which pages are in the operator category.
pub const CATEGORY_CHECK_API: &'static str = "https://prts.wiki/api.php?action=query&format=json&prop=categories&clcategories=%E5%88%86%E7%B1%BB:%E5%B9%B2%E5%91%98";

/// The operator category.
pub const OPERATOR_CATEGORY: &'static str = "分类:干员";

/// The start of a wiki page's address.
pub const PRTS_PAGE_BASE: &'static str = "https://prts.wiki/w/";

/// The start of the address of a page's wikitext.
pub const WIKITEXT_API: &'static str = "https://prts.wiki/api.php?action=parse&page=";

pub const ERR_QUERY_EMPTY: &'static str = "❌ 搜索关键词不能为空。";

pub const ERR_SEARCH_NO_MATCH: &'static str = "未找到与「{query}」相关的干员。\n\n建议检查关键词拼写，或尝试更短的关键词。";

pub const ERR_CATEGORY_NO_MATCH: &'static str = "搜索「{query}」未找到符合条件的干员页面。\n\n建议：尝试更精确的干员名称，或使用中文关键词。";

pub const WARN_FILTER_NO_MATCH: &'static str = "⚠️ 搜索「{query}」找到 {count} 名干员，但无人满足筛选条件（{filter}）。\n\n建议放宽或移除筛选参数后重试。";

pub const FMT_TITLE_FILTERED: &'static str = "## 搜索「{query}」并筛选后，共找到 {count} 名干员\n";

pub const FMT_TITLE_SEARCH: &'static str = "## 搜索「{query}」共找到 {count} 名干员\n";

pub const FMT_LIMIT_HINT: &'static str = "> 结果已达上限 {limit} 条，可能存在更多匹配干员。建议使用更精确的关键词缩小范围。";

pub const FMT_GET_OPERATOR_HINT: &'static str = "> 提示：使用 `get_operator` 工具并传入干员中文名，可获取详细的技能、属性、档案等数据。";

pub const FILTER_HINT_NONE: &'static str = "无";

pub const FMT_FILTER_ITEM: &'static str = "{k}={v}";

pub const FMT_FILTER_OBTAIN: &'static str = "获取途径含「{v}」";

// ─── requests ─────────────────────────────────────────────────

/// The address of the wikitext of a page.
pub open spec fn wikitext_url(page: Seq<char>) -> Seq<char> {
    WIKITEXT_API@ + url_encoded(encode_utf8(page)) + "&format=json&prop=wikitext"@
}

/// The address of a title search.
pub open spec fn opensearch_url(query: Seq<char>, limit: nat) -> Seq<char> {
    OPENSEARCH_API@ + "&search="@ + url_encoded(encode_utf8(query)) + "&limit="@ + decimal(limit)
}

/// The address of a full-text search.
pub open spec fn fulltext_url(query: Seq<char>, limit: nat) -> Seq<char> {
    FULLTEXT_SEARCH_API@ + "&srsearch="@ + url_encoded(encode_utf8(query)) + "&srlimit="@ + decimal(
        limit,
    )
}

pub open spec fn encoded_titles(titles: Seq<Seq<char>>) -> Seq<Seq<char>> {
    titles.map_values(|t: Seq<char>| url_encoded(encode_utf8(t)))
}

/// The address of the category check of the titles (joined by an encoded `|`).
pub open spec fn category_check_url(titles: Seq<Seq<char>>) -> Seq<char> {
    CATEGORY_CHECK_API@ + "&titles="@ + join(encoded_titles(titles), "%7C"@)
}

// ─── hits ─────────────────────────────────────────────────────

/// The hits in order, each title once, sub-pages (titles with `/`) left out.
pub open spec fn fresh_titles(ts: Seq<Seq<char>>) -> Seq<Seq<char>>
    decreases ts.len(),
{
    if ts.len() == 0 {
        Seq::empty()
    } else {
        let r = fresh_titles(ts.drop_last());
        let t = ts.last();
        if contains(t, "/"@) || r.contains(t) {
            r
        } else {
            r.push(t)
        }
    }
}

/// Whether a page is in the operator category.
pub open spec fn in_operator_category(cats: Seq<Seq<char>>) -> bool {
    cats.contains(OPERATOR_CATEGORY@)
}

/// The titles of the pages in the operator category, in the order given.
pub open spec fn category_titles(pages: Seq<(Seq<char>, Seq<Seq<char>>)>) -> Seq<Seq<char>>
    decreases pages.len(),
{
    if pages.len() == 0 {
        Seq::empty()
    } else {
        let r = category_titles(pages.drop_last());
        if in_operator_category(pages.last().1) {
            r.push(pages.last().0)
        } else {
            r
        }
    }
}

/// `x` put into the ascending list `l` before the first element not below it.
pub open spec fn sorted_insert(l: Seq<Seq<char>>, x: Seq<char>) -> Seq<Seq<char>>
    decreases l.len(),
{
    if l.len() == 0 {
        seq![x]
    } else if !text_lt(l[0], x) {
        seq![x] + l
    } else {
        seq![l[0]] + sorted_insert(l.drop_first(), x)
    }
}

/// The texts in ascending code-point order.
pub open spec fn sorted_texts(ts: Seq<Seq<char>>) -> Seq<Seq<char>>
    decreases ts.len(),
{
    if ts.len() == 0 {
        Seq::empty()
    } else {
        sorted_insert(sorted_texts(ts.drop_last()), ts.last())
    }
}

/// The operator pages among the checked pages, in ascending order.
pub open spec fn operator_titles(pages: Seq<(Seq<char>, Seq<Seq<char>>)>) -> Seq<Seq<char>> {
    sorted_texts(category_titles(pages))
}

// ─── filters ──────────────────────────────────────────────────

/// The tool's arguments.
#[verifier::ext_equal]
pub struct SearchView {
    pub query: Seq<char>,
    pub class: Option<Seq<char>>,
    pub rarity: Option<u8>,
    pub position: Option<Seq<char>>,
    pub obtain: Option<Seq<char>>,
    pub tag: Option<Seq<char>>,
    pub limit: Option<u8>,
}

pub open spec fn has_filters(t: SearchView) -> bool {
    t.class is Some || t.rarity is Some || t.position is Some || t.obtain is Some || t.tag is Some
}

/// Whether an operator meets every filter: class, rarity, position and tag exactly,
/// and some way of obtaining contains the text asked for.
pub open spec fn meta_matches(t: SearchView, m: MetaView) -> bool {
    &&& (t.class matches Some(c) ==> m.class == c)
    &&& (t.rarity matches Some(r) ==> m.rarity == r)
    &&& (t.position matches Some(p) ==> m.position == p)
    &&& (t.obtain matches Some(o) ==> exists|i: int|
        0 <= i < m.obtain.len() && contains(#[trigger] m.obtain[i], o))
    &&& (t.tag matches Some(g) ==> m.tags.contains(g))
}

/// A filter as `key=value`.
pub open spec fn filter_item(k: Seq<char>, v: Seq<char>) -> Seq<char> {
    replace(replace(FMT_FILTER_ITEM@, "{k}"@, k), "{v}"@, v)
}

/// The filters given, in order.
pub open spec fn filter_parts(t: SearchView) -> Seq<Seq<char>> {
    (match t.class {
        Some(c) => seq![filter_item("职业"@, c)],
        None => Seq::empty(),
    }) + (match t.rarity {
        Some(r) => seq!["稀有度="@ + decimal(r as nat) + "星"@],
        None => Seq::empty(),
    }) + (match t.position {
        Some(p) => seq![filter_item("位置"@, p)],
        None => Seq::empty(),
    }) + (match t.obtain {
        Some(o) => seq![replace(FMT_FILTER_OBTAIN@, "{v}"@, o)],
        None => Seq::empty(),
    }) + match t.tag {
        Some(g) => seq![filter_item("词缀"@, g)],
        None => Seq::empty(),
    }
}

/// The filters given, described (`无` where there are none).
pub open spec fn filter_hint(t: SearchView) -> Seq<char> {
    if filter_parts(t).len() == 0 {
        FILTER_HINT_NONE@
    } else {
        join(filter_parts(t), "，"@)
    }
}

/// The number of results asked for: 10 by default, at most 50.
pub open spec fn limit_of(t: SearchView) -> nat {
    let l: nat = match t.limit {
        Some(l) => l as nat,
        None => 10,
    };
    if l > 50 {
        50
    } else {
        l
    }
}

/// Whether some operator meeting the filters has the name `n`.
pub open spec fn name_kept(t: SearchView, ms: Seq<MetaView>, n: Seq<char>) -> bool {
    exists|i: int| 0 <= i < ms.len() && meta_matches(t, ms[i]) && (#[trigger] ms[i]).zh_name == n
}

/// The names of `a` that some operator meeting the filters has, in order.
pub open spec fn kept_names(t: SearchView, ms: Seq<MetaView>, a: Seq<Seq<char>>) -> Seq<Seq<char>> {
    a.filter(|n: Seq<char>| name_kept(t, ms, n))
}

// ─── reply ────────────────────────────────────────────────────

/// The line of one result.
pub open spec fn result_line(n: Seq<char>) -> Seq<char> {
    "- **"@ + n + "** — [PRTS Wiki 页面]("@ + PRTS_PAGE_BASE@ + url_encoded(encode_utf8(n)) + ")"@
}

pub open spec fn result_list(names: Seq<Seq<char>>) -> Seq<Seq<char>> {
    names.map_values(|n: Seq<char>| result_line(n))
}

/// The names that are listed: the first `limit` of them.
pub open spec fn shown_names(names: Seq<Seq<char>>, limit: nat) -> Seq<Seq<char>> {
    if names.len() > limit {
        names.take(limit as int)
    } else {
        names
    }
}

/// The lines of the result: a title with the number of names found, a line per name
/// for at most `limit` names, a note where the limit is reached, and a hint.
pub open spec fn result_lines(q: Seq<char>, names: Seq<Seq<char>>, limit: nat, filtered: bool) -> Seq<Seq<char>> {
    let shown = shown_names(names, limit);
    let count = names.len();
    let fmt = if filtered {
        FMT_TITLE_FILTERED@
    } else {
        FMT_TITLE_SEARCH@
    };
    seq![replace(replace(fmt, "{query}"@, q), "{count}"@, decimal(count))] + result_list(shown) + (
    if count >= limit {
        seq![Seq::empty(), replace(FMT_LIMIT_HINT@, "{limit}"@, decimal(limit))]
    } else {
        Seq::empty()
    }) + seq![Seq::empty(), FMT_GET_OPERATOR_HINT@]
}

/// The Markdown of a result.
pub open spec fn result_text(q: Seq<char>, names: Seq<Seq<char>>, limit: nat, filtered: bool) -> Seq<char> {
    join(result_lines(q, names, limit, filtered), "\n"@)
}

/// The reply where no operator meets the filters.
pub open spec fn filter_warning(q: Seq<char>, count: nat, hint: Seq<char>) -> Seq<char> {
    replace(replace(replace(WARN_FILTER_NO_MATCH@, "{query}"@, q), "{count}"@, decimal(count)), "{filter}"@, hint)
}

/// The tool's reply given the title-search hits `open`, the full-text hits `full`, the
/// category check of the merged hits `pages` (title and categories of each page), and
/// the operator list, if it was read: an empty query is refused; otherwise the reply
/// says that nothing was found, that no hit is an operator, that no operator meets the
/// filters, or lists the operators found.
pub open spec fn search_reply(
    t: SearchView,
    open: Seq<Seq<char>>,
    full: Seq<Seq<char>>,
    pages: Seq<(Seq<char>, Seq<Seq<char>>)>,
    metas: Option<Seq<MetaView>>,
) -> Result<Seq<char>, Seq<char>> {
    let q = trim(t.query);
    if q.len() == 0 {
        Err(ERR_QUERY_EMPTY@)
    } else if fresh_titles(open + full).len() == 0 {
        Ok(replace(ERR_SEARCH_NO_MATCH@, "{query}"@, q))
    } else {
        let a = operator_titles(pages);
        if a.len() == 0 {
            Ok(replace(ERR_CATEGORY_NO_MATCH@, "{query}"@, q))
        } else {
            let fin = match metas {
                Some(ms) => kept_names(t, ms, a),
                None => a,
            };
            if fin.len() == 0 {
                Ok(filter_warning(q, a.len(), filter_hint(t)))
            } else {
                Ok(result_text(q, fin, limit_of(t), has_filters(t)))
            }
        }
    }
}

// ─── the order of the operator titles ─────────────────────────

/// Not-before is transitive.
proof fn lemma_text_le_transitive(a: Seq<char>, b: Seq<char>, c: Seq<char>)
    requires
        !text_lt(b, a),
        !text_lt(c, b),
    ensures
        !text_lt(c, a),
{
    if text_lt(c, a) {
        if a == b {
            assert(text_lt(c, b));
        } else {
            lemma_text_lt_total(a, b);
            lemma_text_lt_transitive(c, a, b);
        }
    }
}

proof fn lemma_sorted_insert(l: Seq<Seq<char>>, x: Seq<char>)
    requires
        texts_sorted(l),
    ensures
        texts_sorted(sorted_insert(l, x)),
        sorted_insert(l, x).to_multiset() == l.to_multiset().insert(x),
    decreases l.len(),
{
    broadcast use vstd::seq_lib::to_multiset_insert, vstd::seq_lib::to_multiset_contains,
        vstd::multiset::group_multiset_axioms;

    let r = sorted_insert(l, x);
    if l.len() == 0 {
        assert(r =~= l.insert(0, x));
    } else if !text_lt(l[0], x) {
        assert(r =~= l.insert(0, x));
        assert forall|i: int, j: int| 0 <= i < j < r.len() implies !text_lt(
            #[trigger] r[j],
            #[trigger] r[i],
        ) by {
            if i == 0 {
                if j - 1 > 0 {
                    assert(!text_lt(l[j - 1], l[0]));
                } else {
                    lemma_text_lt_irreflexive(l[0]);
                }
                lemma_text_le_transitive(x, l[0], l[j - 1]);
            } else {
                assert(r[i] == l[i - 1] && r[j] == l[j - 1]);
            }
        }
    } else {
        let rest = l.drop_first();
        assert(texts_sorted(rest)) by {
            assert forall|i: int, j: int| 0 <= i < j < rest.len() implies !text_lt(
                #[trigger] rest[j],
                #[trigger] rest[i],
            ) by {
                assert(rest[i] == l[i + 1] && rest[j] == l[j + 1]);
            }
        }
        lemma_sorted_insert(rest, x);
        let s2 = sorted_insert(rest, x);
        assert(r =~= s2.insert(0, l[0]));
        assert(l =~= rest.insert(0, l[0]));
        assert(r.to_multiset() =~= l.to_multiset().insert(x));
        assert forall|i: int, j: int| 0 <= i < j < r.len() implies !text_lt(
            #[trigger] r[j],
            #[trigger] r[i],
        ) by {
            if i == 0 {
                let y = s2[j - 1];
                assert(s2.to_multiset().contains(y));
                assert(rest.to_multiset().insert(x).contains(y));
                if y == x {
                    lemma_text_lt_irreflexive(x);
                    if text_lt(x, l[0]) {
                        lemma_text_lt_transitive(x, l[0], x);
                    }
                } else {
                    assert(rest.to_multiset().contains(y));
                    assert(rest.contains(y));
                    let k = choose|k: int| 0 <= k < rest.len() && rest[k] == y;
                    assert(l[k + 1] == y);
                    assert(!text_lt(l[k + 1], l[0]));
                }
            } else {
                assert(r[i] == s2[i - 1] && r[j] == s2[j - 1]);
            }
        }
    }
}

/// The operator titles come out in ascending code-point order, each title of the
/// category's pages exactly as often as it was given.
pub proof fn law_sorted_texts_sorted_permutation(ts: Seq<Seq<char>>)
    ensures
        texts_sorted(sorted_texts(ts)),
        sorted_texts(ts).to_multiset() == ts.to_multiset(),
    decreases ts.len(),
{
    broadcast use vstd::seq_lib::to_multiset_build;

    if ts.len() == 0 {
        assert(sorted_texts(ts).to_multiset() =~= ts.to_multiset()) by {
            broadcast use vstd::multiset::group_multiset_axioms;
            assert(ts =~= Seq::<Seq<char>>::empty());
        }
    } else {
        law_sorted_texts_sorted_permutation(ts.drop_last());
        lemma_sorted_insert(sorted_texts(ts.drop_last()), ts.last());
        assert(ts =~= ts.drop_last().push(ts.last()));
    }
}

// ─── executable ───────────────────────────────────────────────

/// The address of the wikitext of a page.
pub fn wikitext_request(page: &str) -> (r: String)
    ensures
        r@ == wikitext_url(page@),
{
    let mut u = chars_of(WIKITEXT_API);
    let e = url_encode(&chars_of(page));
    append(&mut u, &e);
    append_str(&mut u, "&format=json&prop=wikitext");
    to_string(&u)
}

/// The address of a title search for at most `limit` hits.
pub fn opensearch_request(query: &str, limit: usize) -> (r: String)
    ensures
        r@ == opensearch_url(query@, limit as nat),
{
    let mut u = chars_of(OPENSEARCH_API);
    append_str(&mut u, "&search=");
    let e = url_encode(&chars_of(query));
    append(&mut u, &e);
    append_str(&mut u, "&limit=");
    let d = decimal_exec(limit as u64);
    append(&mut u, &d);
    to_string(&u)
}

/// The address of a full-text search for at most `limit` hits.
pub fn fulltext_request(query: &str, limit: usize) -> (r: String)
    ensures
        r@ == fulltext_url(query@, limit as nat),
{
    let mut u = chars_of(FULLTEXT_SEARCH_API);
    append_str(&mut u, "&srsearch=");
    let e = url_encode(&chars_of(query));
    append(&mut u, &e);
    append_str(&mut u, "&srlimit=");
    let d = decimal_exec(limit as u64);
    append(&mut u, &d);
    to_string(&u)
}

/// The address of the category check of some titles.
pub fn category_check_request(titles: &Vec<String>) -> (r: String)
    ensures
        r@ == category_check_url(titles.deep_view()),
{
    let ghost tv = titles.deep_view();
    let mut enc: Vec<Vec<char>> = Vec::new();
    let mut i: usize = 0;
    while i < titles.len()
        invariant
            i <= titles@.len(),
            tv == titles.deep_view(),
            views(enc@) == encoded_titles(tv).take(i as int),
        decreases titles.len() - i,
    {
        let e = url_encode(&chars_of(titles[i].as_str()));
        push_line(&mut enc, e);
        assert(encoded_titles(tv).take(i + 1) =~= encoded_titles(tv).take(i as int).push(
            url_encoded(encode_utf8(tv[i as int])),
        ));
        i = i + 1;
    }
    assert(encoded_titles(tv).take(titles@.len() as int) =~= encoded_titles(tv));
    let mut u = chars_of(CATEGORY_CHECK_API);
    append_str(&mut u, "&titles=");
    let j = join_str(&enc, "%7C");
    append(&mut u, &j);
    to_string(&u)
}

fn contains_line(v: &Vec<Vec<char>>, x: &Vec<char>) -> (r: bool)
    ensures
        r == views(v@).contains(x@),
{
    let mut i: usize = 0;
    while i < v.len()
        invariant
            i <= v@.len(),
            forall|k: int| 0 <= k < i ==> v@[k]@ != x@,
        decreases v.len() - i,
    {
        if eq(&v[i], x) {
            assert(views(v@)[i as int] == x@);
            return true;
        }
        i = i + 1;
    }
    assert(!views(v@).contains(x@)) by {
        if views(v@).contains(x@) {
            let k = choose|k: int| 0 <= k < views(v@).len() && views(v@)[k] == x@;
            assert(v@[k]@ == x@);
        }
    }
    false
}

/// The hits of both searches in order, each title once, sub-pages left out.
pub fn merge_candidates(open: &Vec<String>, full: &Vec<String>) -> (r: Vec<String>)
    ensures
        r.deep_view() == fresh_titles(open.deep_view() + full.deep_view()),
{
    let mut all = crate::text::chars_of_all(open);
    let f = crate::text::chars_of_all(full);
    crate::md::extend(&mut all, f);
    let ghost av = views(all@);
    let mut r: Vec<Vec<char>> = Vec::new();
    let mut i: usize = 0;
    while i < all.len()
        invariant
            i <= all@.len(),
            av == views(all@),
            views(r@) == fresh_titles(av.take(i as int)),
        decreases all.len() - i,
    {
        assert(av.take(i + 1).drop_last() =~= av.take(i as int));
        assert(av.take(i + 1).last() == all@[i as int]@);
        let t = &all[i];
        if !contains_str(t, "/") && !contains_line(&r, t) {
            push_line(&mut r, t.clone());
        }
        i = i + 1;
    }
    assert(av.take(all@.len() as int) =~= av);
    to_strings(&r)
}

fn in_operator_category_exec(cats: &Vec<String>) -> (r: bool)
    ensures
        r == in_operator_category(cats.deep_view()),
{
    let c = crate::text::chars_of_all(cats);
    let k = chars_of(OPERATOR_CATEGORY);
    contains_line(&c, &k)
}

proof fn lemma_sorted_insert_skip(l: Seq<Seq<char>>, x: Seq<char>, p: int)
    requires
        0 <= p <= l.len(),
        forall|k: int| 0 <= k < p ==> text_lt(#[trigger] l[k], x),
    ensures
        sorted_insert(l, x) == l.take(p) + sorted_insert(l.skip(p), x),
    decreases p,
{
    if p > 0 {
        lemma_sorted_insert_skip(l.drop_first(), x, p - 1);
        assert(l.drop_first().take(p - 1) =~= l.take(p).drop_first());
        assert(l.drop_first().skip(p - 1) =~= l.skip(p));
        assert(l.take(p) + sorted_insert(l.skip(p), x) =~= seq![l[0]] + (l.drop_first().take(p - 1)
            + sorted_insert(l.drop_first().skip(p - 1), x)));
    } else {
        assert(l.skip(0) =~= l);
        assert(l.take(0) + sorted_insert(l, x) =~= sorted_insert(l, x));
    }
}

fn sorted_insert_exec(l: &mut Vec<Vec<char>>, x: Vec<char>)
    ensures
        views(final(l)@) == sorted_insert(views(old(l)@), x@),
{
    let ghost l0 = views(l@);
    let mut i: usize = 0;
    while i < l.len() && text_lt_exec(&l[i], &x)
        invariant
            i <= l@.len(),
            l0 == views(l@),
            forall|k: int| 0 <= k < i ==> text_lt(#[trigger] l0[k], x@),
        decreases l.len() - i,
    {
        i = i + 1;
    }
    proof {
        lemma_sorted_insert_skip(l0, x@, i as int);
    }
    let ghost sk = l0.skip(i as int);
    let ghost xv = x@;
    let at_end = i >= l.len();
    l.insert(i, x);
    proof {
        if !at_end {
            assert(sk[0] == l0[i as int]);
            assert(sorted_insert(sk, xv) =~= seq![xv] + sk);
        } else {
            assert(sk =~= Seq::<Seq<char>>::empty());
        }
    }
    assert(views(l@) =~= l0.take(i as int) + sorted_insert(sk, xv));
}

/// The operator pages among the checked pages (title and categories of each), in
/// ascending code-point order.
pub fn operator_titles_of(pages: &Vec<(String, Vec<String>)>) -> (r: Vec<String>)
    ensures
        r.deep_view() == operator_titles(pages.deep_view()),
{
    let ghost pv = pages.deep_view();
    let mut ct: Vec<Vec<char>> = Vec::new();
    let mut i: usize = 0;
    while i < pages.len()
        invariant
            i <= pages@.len(),
            pv == pages.deep_view(),
            views(ct@) == category_titles(pv.take(i as int)),
        decreases pages.len() - i,
    {
        assert(pv.take(i + 1).drop_last() =~= pv.take(i as int));
        assert(pv.take(i + 1).last() == pv[i as int]);
        assert(pv[i as int] == (pages@[i as int].0@, pages@[i as int].1.deep_view()));
        if in_operator_category_exec(&pages[i].1) {
            push_line(&mut ct, chars_of(pages[i].0.as_str()));
        }
        i = i + 1;
    }
    assert(pv.take(pages@.len() as int) =~= pv);
    let ghost cv = views(ct@);
    let mut sorted: Vec<Vec<char>> = Vec::new();
    let mut j: usize = 0;
    while j < ct.len()
        invariant
            j <= ct@.len(),
            cv == views(ct@),
            views(sorted@) == sorted_texts(cv.take(j as int)),
        decreases ct.len() - j,
    {
        assert(cv.take(j + 1).drop_last() =~= cv.take(j as int));
        assert(cv.take(j + 1).last() == ct@[j as int]@);
        sorted_insert_exec(&mut sorted, ct[j].clone());
        j = j + 1;
    }
    assert(cv.take(ct@.len() as int) =~= cv);
    to_strings(&sorted)
}

/// The `search_operators` tool's arguments: a query, optional filters on class,
/// rarity, position, way of obtaining and tag, and a result limit.
pub struct SearchOperatorsTool {
    pub query: String,
    pub class: Option<String>,
    pub rarity: Option<u8>,
    pub position: Option<String>,
    pub obtain: Option<String>,
    pub tag: Option<String>,
    pub limit: Option<u8>,
}

pub open spec fn opt_text(o: Option<String>) -> Option<Seq<char>> {
    match o {
        Some(s) => Some(s@),
        None => None,
    }
}

fn filter_item_exec(k: &str, v: &Vec<char>) -> (r: Vec<char>)
    ensures
        r@ == filter_item(k@, v@),
{
    let t = chars_of(FMT_FILTER_ITEM);
    let kc = chars_of(k);
    proof {
        reveal_strlit("{k}");
        reveal_strlit("{v}");
    }
    let a = replace_str(&t, "{k}", &kc);
    replace_str(&a, "{v}", v)
}

/// The result lines (see `result_lines`).
fn result_lines_exec(q: &Vec<char>, names: &Vec<Vec<char>>, limit: usize, filtered: bool) -> (r: Vec<Vec<char>>)
    ensures
        views(r@) == result_lines(q@, views(names@), limit as nat, filtered),
{
    let fmt = if filtered {
        chars_of(FMT_TITLE_FILTERED)
    } else {
        chars_of(FMT_TITLE_SEARCH)
    };
    proof {
        reveal_strlit("{query}");
        reveal_strlit("{count}");
        reveal_strlit("{limit}");
    }
    let n: usize = if names.len() > limit {
        limit
    } else {
        names.len()
    };
    let ghost nv = views(names@);
    let ghost sv = shown_names(nv, limit as nat);
    assert(sv =~= nv.take(n as int));
    let a = replace_str(&fmt, "{query}", q);
    let cnt = decimal_exec(names.len() as u64);
    let title = replace_str(&a, "{count}", &cnt);
    let mut out: Vec<Vec<char>> = Vec::new();
    push_line(&mut out, title);
    let ghost head = views(out@);
    let mut i: usize = 0;
    while i < n
        invariant
            i <= n,
            n <= names@.len(),
            nv == views(names@),
            sv == nv.take(n as int),
            views(out@) == head + result_list(sv).take(i as int),
        decreases n - i,
    {
        let mut l = chars_of("- **");
        append(&mut l, &names[i]);
        append_str(&mut l, "** — [PRTS Wiki 页面](");
        append_str(&mut l, PRTS_PAGE_BASE);
        let e = url_encode(&names[i]);
        append(&mut l, &e);
        append_str(&mut l, ")");
        push_line(&mut out, l);
        assert(result_list(sv).take(i + 1) =~= result_list(sv).take(i as int).push(result_line(sv[i as int])));
        i = i + 1;
    }
    assert(result_list(sv).take(n as int) =~= result_list(sv));
    if names.len() >= limit {
        push_line(&mut out, Vec::new());
        let lt = chars_of(FMT_LIMIT_HINT);
        let ld = decimal_exec(limit as u64);
        push_line(&mut out, replace_str(&lt, "{limit}", &ld));
    }
    push_line(&mut out, Vec::new());
    crate::md::push_str_line(&mut out, FMT_GET_OPERATOR_HINT);
    assert(views(out@) =~= result_lines(q@, nv, limit as nat, filtered));
    out
}

/// The Markdown listing of the operators found (see `result_text`).
pub fn format_result(query: &str, operators: &Vec<String>, limit: usize, filtered: bool) -> (r: String)
    ensures
        r@ == result_text(query@, operators.deep_view(), limit as nat, filtered),
{
    let q = chars_of(query);
    let ns = crate::text::chars_of_all(operators);
    let ls = result_lines_exec(&q, &ns, limit, filtered);
    let j = join_str(&ls, "\n");
    to_string(&j)
}

impl SearchOperatorsTool {
    pub open spec fn view_args(&self) -> SearchView {
        SearchView {
            query: self.query@,
            class: opt_text(self.class),
            rarity: self.rarity,
            position: opt_text(self.position),
            obtain: opt_text(self.obtain),
            tag: opt_text(self.tag),
            limit: self.limit,
        }
    }

    /// Whether any filter is given.
    pub fn has_filter_params(&self) -> (r: bool)
        ensures
            r == has_filters(self.view_args()),
    {
        self.class.is_some() || self.rarity.is_some() || self.position.is_some() || self.obtain.is_some()
            || self.tag.is_some()
    }

    /// Whether an operator meets every filter given.
    pub fn matches_filters(&self, meta: &OperatorMeta) -> (r: bool)
        ensures
            r == meta_matches(self.view_args(), meta.view_meta()),
    {
        let ghost t = self.view_args();
        let ghost m = meta.view_meta();
        match &self.class {
            Some(c) => {
                if !eq(&chars_of(meta.class.as_str()), &chars_of(c.as_str())) {
                    return false;
                }
            },
            None => {},
        }
        match self.rarity {
            Some(r) => {
                if meta.rarity != r {
                    return false;
                }
            },
            None => {},
        }
        match &self.position {
            Some(p) => {
                if !eq(&chars_of(meta.position.as_str()), &chars_of(p.as_str())) {
                    return false;
                }
            },
            None => {},
        }
        match &self.obtain {
            Some(o) => {
                let oc = chars_of(o.as_str());
                let ov = crate::text::chars_of_all(&meta.obtain);
                let mut found = false;
                let mut i: usize = 0;
                while i < ov.len()
                    invariant
                        i <= ov@.len(),
                        views(ov@) == m.obtain,
                        oc@ == o@,
                        found == exists|k: int| 0 <= k < i && contains(#[trigger] m.obtain[k], o@),
                    decreases ov.len() - i,
                {
                    if contains_exec(&ov[i], &oc) {
                        found = true;
                    }
                    assert(m.obtain[i as int] == ov@[i as int]@);
                    i = i + 1;
                }
                if !found {
                    return false;
                }
            },
            None => {},
        }
        match &self.tag {
            Some(g) => {
                let tv = crate::text::chars_of_all(&meta.tags);
                if !contains_line(&tv, &chars_of(g.as_str())) {
                    return false;
                }
            },
            None => {},
        }
        true
    }

    /// The filters given, described for a reply.
    pub fn filter_hint(&self) -> (r: String)
        ensures
            r@ == filter_hint(self.view_args()),
    {
        let ghost t = self.view_args();
        let mut parts: Vec<Vec<char>> = Vec::new();
        match &self.class {
            Some(c) => push_line(&mut parts, filter_item_exec("职业", &chars_of(c.as_str()))),
            None => {},
        }
        match self.rarity {
            Some(r) => {
                let mut l = chars_of("稀有度=");
                let d = decimal_exec(r as u64);
                append(&mut l, &d);
                append_str(&mut l, "星");
                push_line(&mut parts, l);
            },
            None => {},
        }
        match &self.position {
            Some(p) => push_line(&mut parts, filter_item_exec("位置", &chars_of(p.as_str()))),
            None => {},
        }
        match &self.obtain {
            Some(o) => {
                let t0 = chars_of(FMT_FILTER_OBTAIN);
                proof {
                    reveal_strlit("{v}");
                }
                push_line(&mut parts, replace_str(&t0, "{v}", &chars_of(o.as_str())));
            },
            None => {},
        }
        match &self.tag {
            Some(g) => push_line(&mut parts, filter_item_exec("词缀", &chars_of(g.as_str()))),
            None => {},
        }
        assert(views(parts@) =~= filter_parts(t));
        if parts.len() == 0 {
            FILTER_HINT_NONE.to_string()
        } else {
            let j = join_str(&parts, "，");
            to_string(&j)
        }
    }

    /// The number of results asked for: 10 by default, at most 50.
    pub fn result_limit(&self) -> (r: usize)
        ensures
            r as nat == limit_of(self.view_args()),
    {
        let l: u8 = match self.limit {
            Some(l) => l,
            None => 10,
        };
        if l > 50 {
            50
        } else {
            l as usize
        }
    }

    /// The query, trimmed.
    pub fn query_text(&self) -> (r: String)
        ensures
            r@ == trim(self.query@),
    {
        let q = trim_exec(&chars_of(self.query.as_str()));
        to_string(&q)
    }

    /// The names of `a` that some operator meeting the filters has, in order.
    pub fn kept(&self, metas: &Vec<OperatorMeta>, a: &Vec<String>) -> (r: Vec<String>)
        ensures
            r.deep_view() == kept_names(self.view_args(), meta_views(metas@), a.deep_view()),
    {
        let ghost t = self.view_args();
        let ghost mv = meta_views(metas@);
        let ghost av = a.deep_view();
        let mut r: Vec<String> = Vec::new();
        let mut i: usize = 0;
        while i < a.len()
            invariant
                i <= a@.len(),
                t == self.view_args(),
                mv == meta_views(metas@),
                av == a.deep_view(),
                r.deep_view() == av.take(i as int).filter(|n: Seq<char>| name_kept(t, mv, n)),
            decreases a.len() - i,
        {
            let n = chars_of(a[i].as_str());
            let mut found = false;
            let mut j: usize = 0;
            while j < metas.len()
                invariant
                    j <= metas@.len(),
                    t == self.view_args(),
                    mv == meta_views(metas@),
                    found == exists|k: int| 0 <= k < j && meta_matches(t, mv[k]) && (#[trigger] mv[k]).zh_name == n@,
                decreases metas.len() - j,
            {
                assert(mv[j as int] == metas@[j as int].view_meta());
                if self.matches_filters(&metas[j]) && eq(&chars_of(metas[j].zh_name.as_str()), &n) {
                    found = true;
                }
                j = j + 1;
            }
            assert(found == name_kept(t, mv, av[i as int]));
            assert(av.take(i + 1).drop_last() =~= av.take(i as int));
            assert(av.take(i + 1).last() == av[i as int]);
            reveal_with_fuel(Seq::filter, 1);
            if found {
                let ghost before = r.deep_view();
                r.push(a[i].clone());
                assert(r.deep_view() =~= before.push(av[i as int]));
            }
            i = i + 1;
        }
        assert(av.take(a@.len() as int) =~= av);
        r
    }

    /// The tool's reply, given the hits of the title search (`open`) and of the
    /// full-text search (`full`), the category check of the merged hits (`pages`), and
    /// the operator list where it was read (see `search_reply`).
    pub fn reply(
        &self,
        open: &Vec<String>,
        full: &Vec<String>,
        pages: &Vec<(String, Vec<String>)>,
        metas: Option<&Vec<OperatorMeta>>,
    ) -> (r: ToolReply)
        ensures
            crate::get_operator::reply_view(r) == search_reply(
                self.view_args(),
                open.deep_view(),
                full.deep_view(),
                pages.deep_view(),
                match metas {
                    Some(m) => Some(meta_views(m@)),
                    None => None,
                },
            ),
    {
        let q = self.query_text();
        if q.unicode_len() == 0 {
            return ToolReply::Error(ERR_QUERY_EMPTY.to_string());
        }
        let qc = chars_of(q.as_str());
        let cands = merge_candidates(open, full);
        if cands.len() == 0 {
            let t = chars_of(ERR_SEARCH_NO_MATCH);
            proof {
                reveal_strlit("{query}");
            }
            return ToolReply::Text(to_string(&replace_str(&t, "{query}", &qc)));
        }
        let a = operator_titles_of(pages);
        if a.len() == 0 {
            let t = chars_of(ERR_CATEGORY_NO_MATCH);
            proof {
                reveal_strlit("{query}");
            }
            return ToolReply::Text(to_string(&replace_str(&t, "{query}", &qc)));
        }
        let fin = match metas {
            Some(ms) => self.kept(ms, &a),
            None => a.clone(),
        };
        if fin.len() == 0 {
            let t = chars_of(WARN_FILTER_NO_MATCH);
            proof {
                reveal_strlit("{query}");
                reveal_strlit("{count}");
                reveal_strlit("{filter}");
            }
            let s1 = replace_str(&t, "{query}", &qc);
            let s2 = replace_str(&s1, "{count}", &decimal_exec(a.len() as u64));
            let h = self.filter_hint();
            let s3 = replace_str(&s2, "{filter}", &chars_of(h.as_str()));
            return ToolReply::Text(to_string(&s3));
        }
        let filtered = self.has_filter_params();
        ToolReply::Text(format_result(q.as_str(), &fin, self.result_limit(), filtered))
    }
}

// ─── laws ─────────────────────────────────────────────────────

/// With filters, the operators listed are the intersection of the search hits that are
/// operator pages (`a`) and the operators meeting the filters: a name is kept exactly
/// when it is among `a` and some operator meeting the filters has it.
pub proof fn law_kept_is_intersection(t: SearchView, ms: Seq<MetaView>, a: Seq<Seq<char>>, n: Seq<char>)
    ensures
        kept_names(t, ms, a).contains(n) <==> (a.contains(n) && name_kept(t, ms, n)),
{
    let pred = |x: Seq<char>| name_kept(t, ms, x);
    assert(kept_names(t, ms, a) == a.filter(pred));
    if kept_names(t, ms, a).contains(n) {
        a.lemma_filter_contains_rev(pred, n);
        let i = choose|i: int| 0 <= i < a.filter(pred).len() && a.filter(pred)[i] == n;
        a.lemma_filter_pred(pred, i);
    }
    if a.contains(n) && name_kept(t, ms, n) {
        let i = choose|i: int| 0 <= i < a.len() && a[i] == n;
        a.lemma_filter_contains(pred, i);
    }
}

/// Without filters every operator meets them: the names kept are the search hits that
/// some operator on the list has.
pub proof fn law_no_filter_keeps_every_listed_operator(t: SearchView, m: MetaView)
    requires
        !has_filters(t),
    ensures
        meta_matches(t, m),
{
}

/// A result lists exactly the first `limit` names, or all of them where there are fewer:
/// after the title, one line per listed name, then the notes.
pub proof fn law_results_listed_up_to_limit(q: Seq<char>, names: Seq<Seq<char>>, limit: nat, filtered: bool)
    ensures
        ({
            let ls = result_lines(q, names, limit, filtered);
            let k = if names.len() < limit { names.len() } else { limit };
            &&& ls.subrange(1, 1 + k as int) == result_list(names.take(k as int))
            &&& ls.len() == 1 + k + if names.len() >= limit { 4int } else { 2int }
        }),
{
    let ls = result_lines(q, names, limit, filtered);
    let k = if names.len() < limit { names.len() } else { limit };
    assert(shown_names(names, limit) =~= names.take(k as int));
    assert(ls.subrange(1, 1 + k as int) =~= result_list(names.take(k as int)));
}

/// Each filter given must hold of an operator for it to be kept: an operator whose class,
/// rarity, position or tags differ from what is asked, or none of whose ways of being
/// obtained contains the text asked for, does not meet the filters; and one that meets
/// every filter given does.
pub proof fn law_each_filter_is_required(t: SearchView, m: MetaView)
    ensures
        t.class matches Some(c) && m.class != c ==> !meta_matches(t, m),
        t.rarity matches Some(r) && m.rarity != r ==> !meta_matches(t, m),
        t.position matches Some(p) && m.position != p ==> !meta_matches(t, m),
        t.obtain matches Some(o) && (forall|i: int| 0 <= i < m.obtain.len() ==> !contains(#[trigger] m.obtain[i], o))
            ==> !meta_matches(t, m),
        t.tag matches Some(g) && !m.tags.contains(g) ==> !meta_matches(t, m),
        (t.class matches Some(c) ==> m.class == c) && (t.rarity matches Some(r) ==> m.rarity == r) && (
        t.position matches Some(p) ==> m.position == p) && (t.obtain matches Some(o) ==> exists|i: int|
            0 <= i < m.obtain.len() && contains(#[trigger] m.obtain[i], o)) && (t.tag matches Some(g)
            ==> m.tags.contains(g)) ==> meta_matches(t, m),
{
}

/// The result limit is 10 where none is given, and never more than 50.
pub proof fn law_result_limit(t: SearchView)
    ensures
        limit_of(t) <= 50,
        t.limit is None ==> limit_of(t) == 10,
{
}

/// An empty or blank query is refused, whatever the searches gave.
pub proof fn law_blank_query_refused(
    t: SearchView,
    open: Seq<Seq<char>>,
    full: Seq<Seq<char>>,
    pages: Seq<(Seq<char>, Seq<Seq<char>>)>,
    metas: Option<Seq<MetaView>>,
)
    requires
        trim(t.query).len() == 0,
    ensures
        search_reply(t, open, full, pages, metas) == Err::<Seq<char>, Seq<char>>(ERR_QUERY_EMPTY@),
{
}

/// The merged hits of the two searches hold each title once and no sub-page.
pub proof fn law_hits_distinct_without_subpages(ts: Seq<Seq<char>>)
    ensures
        fresh_titles(ts).no_duplicates(),
        forall|i: int| 0 <= i < fresh_titles(ts).len() ==> !contains(#[trigger] fresh_titles(ts)[i], "/"@),
    decreases ts.len(),
{
    if ts.len() > 0 {
        law_hits_distinct_without_subpages(ts.drop_last());
        let r = fresh_titles(ts.drop_last());
        let t = ts.last();
        let f = fresh_titles(ts);
        if !(contains(t, "/"@) || r.contains(t)) {
            assert(f == r.push(t));
            assert forall|i: int, j: int| 0 <= i < f.len() && 0 <= j < f.len() && i != j implies f[i] != f[j] by {
                if i < r.len() && j < r.len() {
                } else if i == r.len() {
                    assert(f[j] == r[j]);
                } else {
                    assert(f[i] == r[i]);
                }
            }
            assert forall|i: int| 0 <= i < f.len() implies !contains(#[trigger] f[i], "/"@) by {
                if i < r.len() {
                    assert(f[i] == r[i]);
                }
            }
        }
    }
}

} // verus!
