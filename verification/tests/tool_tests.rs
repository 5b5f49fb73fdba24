use prts_mcp::get_operator::{category_from_upper, Category, GetOperatorTool, ToolReply};
use prts_mcp::operator_list::{operator_list_markdown, operator_metas_from_html, OperatorMeta};
use prts_mcp::search::{
    category_check_request, format_result, fulltext_request, merge_candidates, operator_titles_of,
    opensearch_request, wikitext_request, SearchOperatorsTool,
};
use prts_mcp::server::{HelloWorldTool, MyServerHandler};
use prts_mcp::urlenc::url_encode;

fn s(v: &[&str]) -> Vec<String> {
    v.iter().map(|x| x.to_string()).collect()
}

fn tool(name: &str, category: &str) -> GetOperatorTool {
    GetOperatorTool { name: name.to_string(), category: category.to_string() }
}

fn search(query: &str) -> SearchOperatorsTool {
    SearchOperatorsTool {
        query: query.to_string(),
        class: None,
        rarity: None,
        position: None,
        obtain: None,
        tag: None,
        limit: None,
    }
}

fn meta(name: &str, class: &str, rarity: u8) -> OperatorMeta {
    OperatorMeta {
        zh_name: name.to_string(),
        class: class.to_string(),
        rarity,
        position: "近战位".to_string(),
        obtain: s(&["标准寻访", "中坚寻访"]),
        tags: s(&["输出", "爆发"]),
        subprofession: "剑豪".to_string(),
    }
}

fn text_of(r: ToolReply) -> Result<String, String> {
    match r {
        ToolReply::Text(t) => Ok(t),
        ToolReply::Error(e) => Err(e),
    }
}

#[test]
fn category_in_any_case() {
    assert_eq!(tool("陈", "combat").category().ok(), Some(Category::Combat));
    assert_eq!(tool("陈", "All").category().ok(), Some(Category::All));
    assert_eq!(category_from_upper("VOICE"), Some(Category::Voice));
    assert_eq!(category_from_upper("voice"), None);
}

#[test]
fn unknown_category_refused() {
    let e = tool("陈", "xyz").category().err().unwrap();
    assert_eq!(
        e,
        "❌ 错误：无效的 `category` 参数「xyz」。\n请使用以下任一标准值（大小写不敏感）：\nBASIC / COMBAT / BUILD / LORE / GALLERY / VOICE / ALL"
    );
    let r = text_of(tool("陈", "xyz").reply("|干员名=陈", "", &Vec::new()));
    assert_eq!(r, Err(e));
}

#[test]
fn missing_page_reported() {
    let r = text_of(tool("某人", "BASIC").reply("", "", &Vec::new()));
    assert_eq!(
        r,
        Err("🔍 未找到干员「某人」的 Wiki 页面，请检查名称是否正确。\n示例正确名称：「能天使」、「陈」、「Mon3tr」。".to_string())
    );
}

#[test]
fn voice_page_title() {
    assert_eq!(tool("陈", "VOICE").voice_page(), "陈/语音记录");
}

#[test]
fn build_document_with_title_and_foreign_name() {
    let page = "|干员名=陈\n|干员外文名=Ch'en\n|精1=固源岩*5";
    let r = text_of(tool("陈", "build").reply(page, "", &Vec::new()));
    assert_eq!(r, Ok("# 陈 `Ch'en`\n\n### 精英化材料\n- **精1**: 固源岩*5\n".to_string()));
}

#[test]
fn combat_document_takes_the_page_fields() {
    let page = "|职业=近卫\n|特性=描述";
    let t = tool("陈", "COMBAT");
    assert!(t.grid_requests(Category::Combat, page).is_empty());
    let r = text_of(t.reply(page, "", &Vec::new()));
    let body = [
        "### 属性",
        "- **职业**: 近卫",
        "- **分支描述**: 描述",
        "",
        "| 再部署时间 | - | 初始部署费用 | - |",
        "| :---: | :---: | :---: | :---: |",
        "| 阻挡数 | - | 攻击间隔 | - |",
        "",
        "- **所属势力**: 无",
        "- **隐藏势力**: 无",
        "",
    ]
    .join("\n");
    assert_eq!(r, Ok(format!("# 陈\n\n{body}")));
}

#[test]
fn grid_requests_only_for_combat_data() {
    let page = "{{属性\n|攻击范围=2-1\n}}";
    assert_eq!(tool("陈", "COMBAT").grid_requests(Category::Combat, page), s(&["2-1"]));
    assert_eq!(tool("陈", "ALL").grid_requests(Category::All, page), s(&["2-1"]));
    assert!(tool("陈", "LORE").grid_requests(Category::Lore, page).is_empty());
}

#[test]
fn all_document_separates_the_domains() {
    let page = "|干员名=陈";
    let r = text_of(tool("陈", "ALL").reply(page, "", &Vec::new())).unwrap();
    // basic, combat, build, lore, gallery, voice, with five separators between them
    assert_eq!(r.matches("\n---\n").count(), 5);
    assert!(r.starts_with("# 陈\n\n"));
    assert!(r.ends_with("\n\n---\n\n该干员暂无特殊服装描述与立绘信息。\n\n---\n"));
}

#[test]
fn urls_are_percent_encoded() {
    assert_eq!(url_encode(&"陈".chars().collect()), "%E9%99%88".chars().collect::<Vec<char>>());
    assert_eq!(
        wikitext_request("陈/语音记录"),
        "https://prts.wiki/api.php?action=parse&page=%E9%99%88%2F%E8%AF%AD%E9%9F%B3%E8%AE%B0%E5%BD%95&format=json&prop=wikitext"
    );
    assert_eq!(
        opensearch_request("陈", 10),
        "https://prts.wiki/api.php?action=opensearch&format=json&redirects=resolve&search=%E9%99%88&limit=10"
    );
    assert_eq!(
        fulltext_request("a b", 5),
        "https://prts.wiki/api.php?action=query&list=search&format=json&srnamespace=0&srwhat=text&srsearch=a%20b&srlimit=5"
    );
    assert_eq!(
        category_check_request(&s(&["陈", "W"])),
        "https://prts.wiki/api.php?action=query&format=json&prop=categories&clcategories=%E5%88%86%E7%B1%BB:%E5%B9%B2%E5%91%98&titles=%E9%99%88%7CW"
    );
}

#[test]
fn candidates_merged_once_without_subpages() {
    let m = merge_candidates(&s(&["陈", "陈/语音记录", "阿米娅"]), &s(&["阿米娅", "能天使"]));
    assert_eq!(m, s(&["陈", "阿米娅", "能天使"]));
}

#[test]
fn operator_pages_in_code_point_order() {
    let pages = vec![
        ("能天使".to_string(), s(&["分类:干员"])),
        ("陈".to_string(), s(&["分类:干员"])),
        ("陈/语音记录".to_string(), Vec::new()),
        ("阿米娅".to_string(), s(&["分类:其他", "分类:干员"])),
    ];
    assert_eq!(operator_titles_of(&pages), s(&["能天使", "阿米娅", "陈"]));
}

#[test]
fn search_limits_and_filters() {
    let mut t = search("陈");
    assert_eq!(t.result_limit(), 10);
    t.limit = Some(80);
    assert_eq!(t.result_limit(), 50);
    t.limit = Some(5);
    assert_eq!(t.result_limit(), 5);
    assert!(!t.has_filter_params());
    assert_eq!(t.filter_hint(), "无");
    t.class = Some("近卫".to_string());
    t.rarity = Some(6);
    t.position = Some("近战位".to_string());
    t.obtain = Some("寻访".to_string());
    t.tag = Some("输出".to_string());
    assert!(t.has_filter_params());
    assert_eq!(t.filter_hint(), "职业=近卫，稀有度=6星，位置=近战位，获取途径含「寻访」，词缀=输出");
    assert!(t.matches_filters(&meta("陈", "近卫", 6)));
    assert!(!t.matches_filters(&meta("陈", "近卫", 5)));
    assert!(!t.matches_filters(&meta("陈", "狙击", 6)));
    t.tag = Some("治疗".to_string());
    assert!(!t.matches_filters(&meta("陈", "近卫", 6)));
}

#[test]
fn search_blank_query_refused() {
    let r = text_of(search("  ").reply(&s(&["陈"]), &Vec::new(), &Vec::new(), None));
    assert_eq!(r, Err("❌ 搜索关键词不能为空。".to_string()));
}

#[test]
fn search_without_hits() {
    let r = text_of(search("无").reply(&s(&["x/y"]), &Vec::new(), &Vec::new(), None));
    assert_eq!(r, Ok("未找到与「无」相关的干员。\n\n建议检查关键词拼写，或尝试更短的关键词。".to_string()));
}

#[test]
fn search_without_operator_pages() {
    let pages = vec![("某页".to_string(), s(&["分类:其他"]))];
    let r = text_of(search("某").reply(&s(&["某页"]), &Vec::new(), &pages, None));
    assert_eq!(r, Ok("搜索「某」未找到符合条件的干员页面。\n\n建议：尝试更精确的干员名称，或使用中文关键词。".to_string()));
}

#[test]
fn search_lists_the_operators() {
    let pages = vec![("陈".to_string(), s(&["分类:干员"]))];
    let r = text_of(search(" 陈 ").reply(&s(&["陈"]), &Vec::new(), &pages, None));
    assert_eq!(
        r,
        Ok("## 搜索「陈」共找到 1 名干员\n\n- **陈** — [PRTS Wiki 页面](https://prts.wiki/w/%E9%99%88)\n\n> 提示：使用 `get_operator` 工具并传入干员中文名，可获取详细的技能、属性、档案等数据。".to_string())
    );
}

#[test]
fn search_filters_keep_the_intersection() {
    let pages = vec![("陈".to_string(), s(&["分类:干员"])), ("能天使".to_string(), s(&["分类:干员"]))];
    let mut t = search("天");
    t.class = Some("近卫".to_string());
    let metas = vec![meta("陈", "近卫", 6), meta("能天使", "狙击", 6), meta("别人", "近卫", 6)];
    let r = text_of(t.reply(&s(&["陈", "能天使"]), &Vec::new(), &pages, Some(&metas)));
    assert_eq!(
        r,
        Ok("## 搜索「天」并筛选后，共找到 1 名干员\n\n- **陈** — [PRTS Wiki 页面](https://prts.wiki/w/%E9%99%88)\n\n> 提示：使用 `get_operator` 工具并传入干员中文名，可获取详细的技能、属性、档案等数据。".to_string())
    );
}

#[test]
fn search_filters_excluding_everyone() {
    let pages = vec![("陈".to_string(), s(&["分类:干员"]))];
    let mut t = search("陈");
    t.rarity = Some(3);
    let metas = vec![meta("陈", "近卫", 6)];
    let r = text_of(t.reply(&s(&["陈"]), &Vec::new(), &pages, Some(&metas)));
    assert_eq!(
        r,
        Ok("⚠️ 搜索「陈」找到 1 名干员，但无人满足筛选条件（稀有度=3星）。\n\n建议放宽或移除筛选参数后重试。".to_string())
    );
}

#[test]
fn result_notes_the_limit() {
    let r = format_result("a", &s(&["x"]), 1, true);
    assert_eq!(
        r,
        "## 搜索「a」并筛选后，共找到 1 名干员\n\n- **x** — [PRTS Wiki 页面](https://prts.wiki/w/x)\n\n> 结果已达上限 1 条，可能存在更多匹配干员。建议使用更精确的关键词缩小范围。\n\n> 提示：使用 `get_operator` 工具并传入干员中文名，可获取详细的技能、属性、档案等数据。"
    );
}

const LIST_HTML: &str = r#"<html><body><div data-zh="陈" data-profession="近卫" data-rarity="5" data-position="近战位" data-obtain_method="标准寻访, 中坚寻访," data-tag="输出 爆发" data-subprofession="剑豪" data-id="R001" data-en="Ch'en"></div><div data-zh="" data-id="X"></div><div data-zh="Lancet-2" data-rarity="x" data-ja="ランセット"></div></body></html>"#;

#[test]
fn operator_metas_read_from_the_list() {
    let ms = operator_metas_from_html(LIST_HTML).unwrap();
    assert_eq!(ms.len(), 2);
    assert_eq!(ms[0].zh_name, "陈");
    assert_eq!(ms[0].class, "近卫");
    assert_eq!(ms[0].rarity, 6);
    assert_eq!(ms[0].position, "近战位");
    assert_eq!(ms[0].obtain, s(&["标准寻访", "中坚寻访"]));
    assert_eq!(ms[0].tags, s(&["输出", "爆发"]));
    assert_eq!(ms[0].subprofession, "剑豪");
    assert_eq!(ms[1].zh_name, "Lancet-2");
    assert_eq!(ms[1].rarity, 1);
    assert!(ms[1].obtain.is_empty());
}

#[test]
fn operator_list_table() {
    let t = operator_list_markdown(LIST_HTML).unwrap();
    assert_eq!(
        t,
        "| 编号 | 中文名 | 外文名 | 职业 | 职业分支 | 稀有度 |\n|---|---|---|---|---|---|\n| R001 | 陈 | Ch'en | 近卫 | 剑豪 | ★★★★★★ |\n| X |  |  |  |  | ★ |\n|  | Lancet-2 | ランセット |  |  | ★ |\n"
    );
}

#[test]
fn hello_world_tool() {
    assert_eq!(HelloWorldTool { arg: "x".to_string() }.call_tool(), "hello,world");
}

#[test]
fn only_the_operator_list_resource() {
    assert!(MyServerHandler.resource_target("prts://operators").is_ok());
    assert_eq!(MyServerHandler.resource_target("prts://x").err(), Some("Unknown resource URI: prts://x".to_string()));
}

#[test]
fn result_lists_at_most_the_limit() {
    let r = format_result("a", &s(&["x", "y", "z"]), 2, false);
    assert_eq!(
        r,
        "## 搜索「a」共找到 3 名干员\n\n- **x** — [PRTS Wiki 页面](https://prts.wiki/w/x)\n- **y** — [PRTS Wiki 页面](https://prts.wiki/w/y)\n\n> 结果已达上限 2 条，可能存在更多匹配干员。建议使用更精确的关键词缩小范围。\n\n> 提示：使用 `get_operator` 工具并传入干员中文名，可获取详细的技能、属性、档案等数据。"
    );
}

#[test]
fn reply_same_for_any_case_of_the_domain() {
    let main = "|职业=近卫\n|干员简介=简介";
    let none: Vec<(String, String)> = Vec::new();
    let a = text_of(tool("陈", "basic").reply(main, "", &none));
    let b = text_of(tool("陈", "BaSiC").reply(main, "", &none));
    assert!(a.is_ok());
    assert_eq!(a, b);
}
