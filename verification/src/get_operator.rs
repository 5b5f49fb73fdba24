//! The `get_operator` tool: which data domain is asked for, what must be fetched for
//! it, and the Markdown document made of a fetched page.
use vstd::prelude::*;
use crate::basic::{basic_output, parse_basic_chars};
use crate::categorizer::{categorize_lines, categorized};
use crate::combat::{combat_output, parse_combat_chars, range_ids, range_requests};
use crate::fields::{extract_line_field, line_field};
use crate::gallery::{gallery_output, parse_gallery_chars};
use crate::lore::{lore_output, parse_lore_chars};
use crate::materials::{build_output, parse_build_chars};
use crate::md::{extend, push_line, push_str_line};
use crate::modules::pair_views;
use crate::strops::{join, join_str, lines, lines_str, replace, replace_str};
use crate::text::{append, append_str, chars_of, chars_of_all, eq_str, to_string, views};
use crate::voice::{parse_voice_chars, voice_output};

verus! {

/// The suffix of the voice page of an operator.
pub const VOICE_PAGE_SUFFIX: &'static str = "/语音记录";

/// The reply to an unknown data domain (`{category}` stands for the value given).
pub const ERR_INVALID_CATEGORY: &'static str = "❌ 错误：无效的 `category` 参数「{category}」。\n请使用以下任一标准值（大小写不敏感）：\nBASIC / COMBAT / BUILD / LORE / GALLERY / VOICE / ALL";

/// The reply where the operator has no page (`{name}` stands for the name given).
pub const ERR_OPERATOR_NOT_FOUND: &'static str = "🔍 未找到干员「{name}」的 Wiki 页面，请检查名称是否正确。\n示例正确名称：「能天使」、「陈」、「Mon3tr」。";

/// The field holding the operator's name.
pub const FIELD_CHAR_NAME: &'static str = "干员名";

/// The field holding the operator's foreign name.
pub const FIELD_FOREIGN_NAME: &'static str = "干员外文名";

/// The uppercase form of a text, by the Unicode uppercase mapping of `str::to_uppercase`.
pub uninterp spec fn str_uppercase(s: Seq<char>) -> Seq<char>;

/// `str::to_uppercase`. The contract claims only that the result is the named
/// uppercase form of the argument.
#[verifier::external_body]
fn to_uppercase_raw(s: &str) -> (r: String)
    ensures
        r@ == str_uppercase(s@),
{
    s.to_uppercase()
}

/// The data domains of an operator page.
#[derive(Clone, Copy, PartialEq, Eq, Structural, Debug)]
pub enum Category {
    Basic,
    Combat,
    Build,
    Lore,
    Gallery,
    Voice,
    All,
}

/// The domain named by an uppercase text.
pub open spec fn category_named(upper: Seq<char>) -> Option<Category> {
    if upper == "BASIC"@ {
        Some(Category::Basic)
    } else if upper == "COMBAT"@ {
        Some(Category::Combat)
    } else if upper == "BUILD"@ {
        Some(Category::Build)
    } else if upper == "LORE"@ {
        Some(Category::Lore)
    } else if upper == "GALLERY"@ {
        Some(Category::Gallery)
    } else if upper == "VOICE"@ {
        Some(Category::Voice)
    } else if upper == "ALL"@ {
        Some(Category::All)
    } else {
        None
    }
}

/// The domain a `category` argument asks for, in any case.
pub open spec fn category_of(category: Seq<char>) -> Option<Category> {
    category_named(str_uppercase(category))
}

/// The reply to an unknown domain.
pub open spec fn invalid_category_message(category: Seq<char>) -> Seq<char> {
    replace(ERR_INVALID_CATEGORY@, "{category}"@, category)
}

/// The reply where the operator has no page.
pub open spec fn not_found_message(name: Seq<char>) -> Seq<char> {
    replace(ERR_OPERATOR_NOT_FOUND@, "{name}"@, name)
}

/// The field line `|key=value` of a page field, where the page has the field.
pub open spec fn injected(main: Seq<char>, key: Seq<char>) -> Seq<Seq<char>> {
    match line_field(main, key) {
        Some(v) => seq!["|"@ + key + "="@ + v],
        None => Seq::empty(),
    }
}

/// The combat lines of a page, preceded by its trait, branch and class fields (in
/// that order) where the page has them.
pub open spec fn combat_input(main: Seq<char>) -> Seq<Seq<char>> {
    injected(main, "特性"@) + injected(main, "分支"@) + injected(main, "职业"@) + categorized(
        main,
    ).combat
}

/// The separator between domains.
pub open spec fn domain_separator() -> Seq<Seq<char>> {
    seq![Seq::empty(), "---"@, Seq::empty()]
}

/// The lines of one domain of a page (`voice` is the voice page, `grids` the range grids).
pub open spec fn domain_lines(
    cat: Category,
    name: Seq<char>,
    main: Seq<char>,
    voice: Seq<char>,
    grids: Seq<(Seq<char>, Seq<char>)>,
) -> Seq<Seq<char>> {
    let b = categorized(main);
    let basic = basic_output(b.basic, main);
    let combat = combat_output(combat_input(main), Some(main), grids);
    let build = build_output(lines(main));
    let lore = lore_output(b.lore, main);
    let gallery = gallery_output(main, name);
    let vo = voice_output(voice);
    match cat {
        Category::Basic => basic,
        Category::Combat => combat,
        Category::Build => build,
        Category::Lore => lore,
        Category::Gallery => gallery,
        Category::Voice => vo,
        Category::All => basic + domain_separator() + combat + domain_separator() + build
            + domain_separator() + lore + domain_separator() + gallery + domain_separator() + vo,
    }
}

/// The title line of the document: the page's name (or the name asked for), and its
/// foreign name in backticks where it has one.
pub open spec fn document_title(main: Seq<char>, name: Seq<char>) -> Seq<char> {
    let char_name = match line_field(main, FIELD_CHAR_NAME@) {
        Some(v) => v,
        None => name,
    };
    let foreign = match line_field(main, FIELD_FOREIGN_NAME@) {
        Some(v) => v,
        None => Seq::empty(),
    };
    "# "@ + char_name + if foreign.len() > 0 {
        " `"@ + foreign + "`"@
    } else {
        Seq::empty()
    }
}

/// The Markdown document of a domain of a page.
pub open spec fn operator_document(
    cat: Category,
    name: Seq<char>,
    main: Seq<char>,
    voice: Seq<char>,
    grids: Seq<(Seq<char>, Seq<char>)>,
) -> Seq<char> {
    document_title(main, name) + "\n\n"@ + join(domain_lines(cat, name, main, voice, grids), "\n"@)
}

/// Whether a domain needs the voice page.
pub open spec fn needs_voice(cat: Category) -> bool {
    cat == Category::Voice || cat == Category::All
}

/// Whether a domain shows the combat data.
pub open spec fn needs_grids(cat: Category) -> bool {
    cat == Category::Combat || cat == Category::All
}

/// The reply of the tool: an error text, or the document.
#[derive(Debug)]
pub enum ToolReply {
    Error(String),
    Text(String),
}

/// The view of a reply: `Err` for an error text, `Ok` for a document.
pub open spec fn reply_view(r: ToolReply) -> Result<Seq<char>, Seq<char>> {
    match r {
        ToolReply::Error(m) => Err(m@),
        ToolReply::Text(t) => Ok(t@),
    }
}

/// What the tool replies, given the pages it fetched: an unknown domain is refused
/// whatever the page, a missing (empty) page is reported, and otherwise the document
/// of the domain is given.
pub open spec fn tool_reply(
    name: Seq<char>,
    category: Seq<char>,
    main: Seq<char>,
    voice: Seq<char>,
    grids: Seq<(Seq<char>, Seq<char>)>,
) -> Result<Seq<char>, Seq<char>> {
    match category_of(category) {
        None => Err(invalid_category_message(category)),
        Some(cat) => if main.len() == 0 {
            Err(not_found_message(name))
        } else {
            Ok(operator_document(cat, name, main, voice, grids))
        },
    }
}

/// The `get_operator` tool's arguments: an operator's page name and a data domain
/// (`BASIC`, `COMBAT`, `BUILD`, `LORE`, `GALLERY`, `VOICE` or `ALL`, in any case).
pub struct GetOperatorTool {
    pub name: String,
    pub category: String,
}

/// The domain named by an uppercase text (see `category_named`).
pub fn category_from_upper(upper: &str) -> (r: Option<Category>)
    ensures
        r == category_named(upper@),
{
    let u = chars_of(upper);
    if eq_str(&u, "BASIC") {
        Some(Category::Basic)
    } else if eq_str(&u, "COMBAT") {
        Some(Category::Combat)
    } else if eq_str(&u, "BUILD") {
        Some(Category::Build)
    } else if eq_str(&u, "LORE") {
        Some(Category::Lore)
    } else if eq_str(&u, "GALLERY") {
        Some(Category::Gallery)
    } else if eq_str(&u, "VOICE") {
        Some(Category::Voice)
    } else if eq_str(&u, "ALL") {
        Some(Category::All)
    } else {
        None
    }
}

/// Whether a domain needs the voice page.
pub fn category_needs_voice(cat: Category) -> (r: bool)
    ensures
        r == needs_voice(cat),
{
    cat == Category::Voice || cat == Category::All
}

fn injected_exec(main: &Vec<char>, key: &str) -> (r: Vec<Vec<char>>)
    ensures
        views(r@) == injected(main@, key@),
{
    let mut r: Vec<Vec<char>> = Vec::new();
    match extract_line_field(main, key) {
        Some(v) => {
            let mut l = chars_of("|");
            append_str(&mut l, key);
            append_str(&mut l, "=");
            append(&mut l, &v);
            push_line(&mut r, l);
        },
        None => {},
    }
    assert(views(r@) =~= injected(main@, key@));
    r
}

fn combat_input_exec(main: &Vec<char>, combat: &Vec<String>) -> (r: Vec<Vec<char>>)
    requires
        combat.deep_view() == categorized(main@).combat,
    ensures
        views(r@) == combat_input(main@),
{
    let mut r = injected_exec(main, "特性");
    let b = injected_exec(main, "分支");
    extend(&mut r, b);
    let c = injected_exec(main, "职业");
    extend(&mut r, c);
    let cl = chars_of_all(combat);
    extend(&mut r, cl);
    r
}

fn document_title_exec(main: &Vec<char>, name: &Vec<char>) -> (r: Vec<char>)
    ensures
        r@ == document_title(main@, name@),
{
    let char_name = match extract_line_field(main, FIELD_CHAR_NAME) {
        Some(v) => v,
        None => name.clone(),
    };
    let foreign = match extract_line_field(main, FIELD_FOREIGN_NAME) {
        Some(v) => v,
        None => Vec::new(),
    };
    let mut t = chars_of("# ");
    append(&mut t, &char_name);
    if foreign.len() > 0 {
        append_str(&mut t, " `");
        append(&mut t, &foreign);
        append_str(&mut t, "`");
    }
    t
}

fn push_separator(out: &mut Vec<Vec<char>>)
    ensures
        views(final(out)@) == views(old(out)@) + domain_separator(),
{
    let ghost o = views(out@);
    push_line(out, Vec::new());
    push_str_line(out, "---");
    push_line(out, Vec::new());
    assert(views(out@) =~= o + domain_separator());
}

impl GetOperatorTool {
    /// The domain asked for, or the reply refusing an unknown one.
    pub fn category(&self) -> (r: Result<Category, String>)
        ensures
            r matches Ok(c) ==> category_of(self.category@) == Some(c),
            r matches Err(m) ==> category_of(self.category@) is None && m@ == invalid_category_message(
                self.category@,
            ),
    {
        let upper = to_uppercase_raw(self.category.as_str());
        match category_from_upper(upper.as_str()) {
            Some(c) => Ok(c),
            None => {
                let c = chars_of(self.category.as_str());
                let t = chars_of(ERR_INVALID_CATEGORY);
                proof {
                    reveal_strlit("{category}");
                }
                let m = replace_str(&t, "{category}", &c);
                Err(to_string(&m))
            },
        }
    }

    /// The reply where the operator has no page.
    pub fn not_found(&self) -> (r: String)
        ensures
            r@ == not_found_message(self.name@),
    {
        let n = chars_of(self.name.as_str());
        let t = chars_of(ERR_OPERATOR_NOT_FOUND);
        proof {
            reveal_strlit("{name}");
        }
        let m = replace_str(&t, "{name}", &n);
        to_string(&m)
    }

    /// The title of the operator's voice page.
    pub fn voice_page(&self) -> (r: String)
        ensures
            r@ == self.name@ + VOICE_PAGE_SUFFIX@,
    {
        let mut p = chars_of(self.name.as_str());
        append_str(&mut p, VOICE_PAGE_SUFFIX);
        to_string(&p)
    }

    /// The range ids whose grids the document of `cat` may show, for the page `main_text`.
    pub fn grid_requests(&self, cat: Category, main_text: &str) -> (r: Vec<String>)
        ensures
            needs_grids(cat) ==> r.deep_view() == range_ids(combat_input(main_text@)),
            !needs_grids(cat) ==> r@.len() == 0,
    {
        if cat == Category::Combat || cat == Category::All {
            let main = chars_of(main_text);
            let blocks = categorize_lines(main_text);
            let ci = combat_input_exec(&main, &blocks.combat);
            let cs = crate::text::to_strings(&ci);
            range_requests(&cs)
        } else {
            Vec::new()
        }
    }

    /// The Markdown document of the domain `cat` of the page `main_text`; `voice_text`
    /// is the voice page (read for `VOICE` and `ALL` only), `grids` the range grids.
    pub fn render(&self, cat: Category, main_text: &str, voice_text: &str, grids: &Vec<(String, String)>) -> (r: String)
        ensures
            r@ == operator_document(cat, self.name@, main_text@, voice_text@, grids.deep_view()),
    {
        let main = chars_of(main_text);
        let name = chars_of(self.name.as_str());
        let blocks = categorize_lines(main_text);
        let ghost b = categorized(main_text@);
        let mut out: Vec<Vec<char>> = Vec::new();
        if cat == Category::Basic || cat == Category::All {
            let bl = chars_of_all(&blocks.basic);
            let x = parse_basic_chars(&bl, &main);
            extend(&mut out, x);
        }
        if cat == Category::All {
            push_separator(&mut out);
        }
        if cat == Category::Combat || cat == Category::All {
            let ci = combat_input_exec(&main, &blocks.combat);
            let g = crate::combat::grid_table_of(grids);
            let x = parse_combat_chars(&ci, Some(&main), &g);
            extend(&mut out, x);
        }
        if cat == Category::All {
            push_separator(&mut out);
        }
        if cat == Category::Build || cat == Category::All {
            let ls = lines_str(main_text);
            let x = parse_build_chars(&ls);
            extend(&mut out, x);
        }
        if cat == Category::All {
            push_separator(&mut out);
        }
        if cat == Category::Lore || cat == Category::All {
            let ll = chars_of_all(&blocks.lore);
            let x = parse_lore_chars(&ll, &main);
            extend(&mut out, x);
        }
        if cat == Category::All {
            push_separator(&mut out);
        }
        if cat == Category::Gallery || cat == Category::All {
            let x = parse_gallery_chars(&main, &name);
            extend(&mut out, x);
        }
        if cat == Category::All {
            push_separator(&mut out);
        }
        if cat == Category::Voice || cat == Category::All {
            let v = chars_of(voice_text);
            let x = parse_voice_chars(&v);
            extend(&mut out, x);
        }
        assert(views(out@) =~= domain_lines(cat, self.name@, main_text@, voice_text@, grids.deep_view()));
        let mut doc = document_title_exec(&main, &name);
        append_str(&mut doc, "\n\n");
        let body = join_str(&out, "\n");
        append(&mut doc, &body);
        to_string(&doc)
    }

    /// The tool's reply, given the main page, the voice page and the range grids
    /// fetched (see `tool_reply`).
    pub fn reply(&self, main_text: &str, voice_text: &str, grids: &Vec<(String, String)>) -> (r: ToolReply)
        ensures
            reply_view(r) == tool_reply(self.name@, self.category@, main_text@, voice_text@, grids.deep_view()),
    {
        match self.category() {
            Err(m) => ToolReply::Error(m),
            Ok(cat) => {
                if main_text.unicode_len() == 0 {
                    ToolReply::Error(self.not_found())
                } else {
                    ToolReply::Text(self.render(cat, main_text, voice_text, grids))
                }
            },
        }
    }
}

// ─── laws ─────────────────────────────────────────────────────

/// The domain is read in any case: two spellings with the same uppercase form ask for
/// the same domain.
pub proof fn law_category_case_insensitive(a: Seq<char>, b: Seq<char>)
    requires
        str_uppercase(a) == str_uppercase(b),
    ensures
        category_of(a) == category_of(b),
{
}

/// The tool answers two spellings of a known domain with the same uppercase form alike:
/// same pages fetched, same reply.
pub proof fn law_reply_case_insensitive(
    name: Seq<char>,
    a: Seq<char>,
    b: Seq<char>,
    main: Seq<char>,
    voice: Seq<char>,
    grids: Seq<(Seq<char>, Seq<char>)>,
)
    requires
        str_uppercase(a) == str_uppercase(b),
        category_of(a) is Some,
    ensures
        category_of(b) == category_of(a),
        tool_reply(name, a, main, voice, grids) == tool_reply(name, b, main, voice, grids),
{
}

/// The domains are named `BASIC`, `COMBAT`, `BUILD`, `LORE`, `GALLERY`, `VOICE` and
/// `ALL`; the voice page is fetched for `VOICE` and `ALL` only, the range drawings for
/// `COMBAT` and `ALL` only.
pub proof fn law_domain_names()
    ensures
        category_named("BASIC"@) == Some(Category::Basic),
        category_named("COMBAT"@) == Some(Category::Combat),
        category_named("BUILD"@) == Some(Category::Build),
        category_named("LORE"@) == Some(Category::Lore),
        category_named("GALLERY"@) == Some(Category::Gallery),
        category_named("VOICE"@) == Some(Category::Voice),
        category_named("ALL"@) == Some(Category::All),
        forall|c: Category| #[trigger] needs_voice(c) <==> (c == Category::Voice || c == Category::All),
        forall|c: Category| #[trigger] needs_grids(c) <==> (c == Category::Combat || c == Category::All),
{
    reveal_strlit("BASIC");
    reveal_strlit("COMBAT");
    reveal_strlit("BUILD");
    reveal_strlit("LORE");
    reveal_strlit("GALLERY");
    reveal_strlit("VOICE");
    reveal_strlit("ALL");
    assert("BASIC"@[0] != "COMBAT"@[0] && "BASIC"@[0] != "LORE"@[0] && "BASIC"@[0] != "GALLERY"@[0]);
    assert("BASIC"@[0] != "VOICE"@[0] && "BASIC"@[0] != "ALL"@[0] && "BASIC"@[1] != "BUILD"@[1]);
    assert("COMBAT"@[0] != "BUILD"@[0] && "COMBAT"@[0] != "LORE"@[0] && "COMBAT"@[0] != "GALLERY"@[0]);
    assert("COMBAT"@[0] != "VOICE"@[0] && "COMBAT"@[0] != "ALL"@[0]);
    assert("BUILD"@[0] != "LORE"@[0] && "BUILD"@[0] != "GALLERY"@[0] && "BUILD"@[0] != "VOICE"@[0]);
    assert("BUILD"@[0] != "ALL"@[0] && "LORE"@[0] != "GALLERY"@[0] && "LORE"@[0] != "VOICE"@[0]);
    assert("LORE"@[0] != "ALL"@[0] && "GALLERY"@[0] != "VOICE"@[0] && "GALLERY"@[0] != "ALL"@[0]);
    assert("VOICE"@[0] != "ALL"@[0]);
}

/// An unknown domain is refused, whatever the page holds.
pub proof fn law_unknown_category_refused(
    name: Seq<char>,
    category: Seq<char>,
    main: Seq<char>,
    voice: Seq<char>,
    grids: Seq<(Seq<char>, Seq<char>)>,
)
    requires
        category_of(category) is None,
    ensures
        tool_reply(name, category, main, voice, grids) == Err::<Seq<char>, Seq<char>>(
            invalid_category_message(category),
        ),
{
}

/// A known domain of a missing (empty) page is answered by the not-found message.
pub proof fn law_missing_page_reported(
    name: Seq<char>,
    category: Seq<char>,
    voice: Seq<char>,
    grids: Seq<(Seq<char>, Seq<char>)>,
)
    requires
        category_of(category) is Some,
    ensures
        tool_reply(name, category, Seq::empty(), voice, grids) == Err::<Seq<char>, Seq<char>>(
            not_found_message(name),
        ),
{
}

/// `ALL` gives every domain in the order BASIC, COMBAT, BUILD, LORE, GALLERY, VOICE,
/// each as that domain alone would give it, separated by `---` between blank lines.
pub proof fn law_all_is_every_domain_in_order(
    name: Seq<char>,
    main: Seq<char>,
    voice: Seq<char>,
    grids: Seq<(Seq<char>, Seq<char>)>,
)
    ensures
        domain_lines(Category::All, name, main, voice, grids) == domain_lines(Category::Basic, name, main, voice, grids)
            + domain_separator() + domain_lines(Category::Combat, name, main, voice, grids)
            + domain_separator() + domain_lines(Category::Build, name, main, voice, grids)
            + domain_separator() + domain_lines(Category::Lore, name, main, voice, grids)
            + domain_separator() + domain_lines(Category::Gallery, name, main, voice, grids)
            + domain_separator() + domain_lines(Category::Voice, name, main, voice, grids),
{
}

/// Every document starts with its title line and a blank line, whatever the domain.
pub proof fn law_document_starts_with_title(
    cat: Category,
    name: Seq<char>,
    main: Seq<char>,
    voice: Seq<char>,
    grids: Seq<(Seq<char>, Seq<char>)>,
)
    ensures
        operator_document(cat, name, main, voice, grids).take(document_title(main, name).len() + 2int)
            == document_title(main, name) + "\n\n"@,
{
    let t = document_title(main, name) + "\n\n"@;
    reveal_strlit("\n\n");
    assert(operator_document(cat, name, main, voice, grids).take(t.len() as int) =~= t);
}

} // verus!
