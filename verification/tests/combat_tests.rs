use prts_mcp::combat::{parse_combat, range_requests};
use prts_mcp::range_grid::{coord_exec, range_grid_or_id, svg_to_grid};
use prts_mcp::talents::render_talent_description;

fn s(v: &[&str]) -> Vec<String> {
    v.iter().map(|x| x.to_string()).collect()
}

fn page_lines() -> Vec<String> {
    s(&[
        "|职业=近卫",
        "|分支=领主",
        "|精英0_生命上限=1000",
        "|精英0_攻击=300",
        "|精英1_生命上限=1500",
        "|再部署=70s",
        "|所属势力=罗德岛",
        "|攻击范围=0-1",
        "|天赋=第一天赋",
        "|天赋1=锋刃",
        "|天赋1条件=——",
        "|天赋1效果=攻击力+10%",
        "|天赋2条件=精英2",
        "|天赋2效果=攻击力+15%",
        "|潜能2=部署费用-1",
        "|技能名=强力击",
        "|技能类型1=自动回复",
        "|技能范围=1-1",
        "|技能描述=攻击力提升至{{color|#0098DC|+100%}}",
        "|技能初始=10",
        "|技能消耗=30",
        "|技能持续=20",
        "|技能专精3描述=攻击力提升至{{color|#0098DC|+200%}}",
        "|技能专精3初始=15",
        "|技能专精3消耗=25",
        "|技能专精3持续=20",
        "### 召唤物",
        "召唤物说明文本",
    ])
}

fn grids() -> Vec<(String, String)> {
    vec![("0-1".to_string(), "■ □".to_string()), ("1-1".to_string(), "■".to_string())]
}

#[test]
fn combat_page_renders_every_part() {
    let out = parse_combat(&page_lines(), None, &grids());
    let expected = s(&[
        "### 属性",
        "- **职业**: 近卫 - 领主",
        "",
        "| 再部署时间 | 70s | 初始部署费用 | - |",
        "| :---: | :---: | :---: | :---: |",
        "| 阻挡数 | - | 攻击间隔 | - |",
        "",
        "| 状态 \\ 属性 | 精英0 | 精英1 |",
        "| :---: | :---: | :---: |",
        "| 生命上限 | 1000 | 1500 |",
        "| 攻击 | 300 | - |",
        "",
        "- **所属势力**: 罗德岛",
        "- **隐藏势力**: 无",
        "",
        "### 攻击范围",
        "- **攻击范围**: \n```text\n■ □\n```",
        "",
        "### 天赋",
        "#### 锋刃",
        "- **天赋序号**: 1",
        "- **天赋描述**: 攻击力{var1}",
        "",
        "| 条件 | var1 |",
        "| :--- | :--- |",
        "| 基础 | +10% |",
        "| 精英2 | +15% |",
        "",
        "",
        "### 潜能",
        "| 潜能级别 | 属性跃升 |",
        "| :---: | :--- |",
        "| 2 | 部署费用-1 |",
        "",
        "### 技能",
        "\n#### 强力击",
        "- **技能序号**: 1",
        "- **技能类型**: 自动回复",
        "- **技能范围**:\n```text\n■\n```",
        "- **技能描述**: 攻击力提升至{var1}",
        "\n| 等级 | var1 | 初始 | 消耗 | 持续 |",
        "| :--- | :--- | :--- | :--- | :--- |",
        "| 1 | +100% | 10 | 30 | 20 |",
        "| RANK III | +200% | 15 | 25 | 20 |",
        "",
        "### 召唤物",
        "召唤物说明文本",
        "",
    ]);
    assert_eq!(out, expected);
}

#[test]
fn combat_range_without_grid_shows_the_id() {
    let out = parse_combat(&s(&["|攻击范围=0-1"]), None, &Vec::new());
    assert_eq!(out, s(&["### 攻击范围", "- **攻击范围**: 0-1", ""]));
}

#[test]
fn combat_range_requests_are_the_range_ids() {
    assert_eq!(range_requests(&page_lines()), s(&["0-1", "1-1"]));
}

#[test]
fn combat_talent_stages_come_out_in_key_order() {
    let lines = s(&[
        "|天赋=第二天赋",
        "|天赋1=名称",
        "|天赋2条件=精英2",
        "|天赋2效果=效果乙",
        "|天赋1条件=——",
        "|天赋1效果=效果甲",
    ]);
    let out = parse_combat(&lines, None, &Vec::new());
    assert_eq!(
        out,
        s(&[
            "### 天赋",
            "#### 名称",
            "- **天赋序号**: 2",
            "| 条件 | 效果 |",
            "| :--- | :--- |",
            "| 基础 | 效果甲 |",
            "| 精英2 | 效果乙 |",
            "",
            "",
        ])
    );
}

#[test]
fn combat_talent_same_effect_collapses() {
    let lines = s(&["|天赋=第三天赋", "|天赋1=名称", "|天赋1条件=——", "|天赋1效果=同一效果", "|天赋2条件=精英1", "|天赋2效果=同一效果"]);
    let out = parse_combat(&lines, None, &Vec::new());
    assert_eq!(
        out,
        s(&["### 天赋", "#### 名称", "- **天赋序号**: 3", "- **天赋描述**: 同一效果", "", ""])
    );
}

#[test]
fn combat_modules_follow_the_summons() {
    let raw = "==模组==\n{{模组\n|名称=证章X\n|类型=EXE-X\n|攻击=20\n|特性=增强\n}}\n";
    let out = parse_combat(&Vec::new(), Some(raw), &Vec::new());
    assert_eq!(
        out,
        s(&[
            "### 模组",
            "#### 证章X",
            "- **模组类型**: X模",
            "",
            "| 模组等级 | 攻击 | 战斗效果更新 |",
            "| :---: | :---: | :--- |",
            "| 1 | +20 | **特性更新**: 增强 |",
            "| 2 | - | - |",
            "| 3 | - | - |",
            "",
            "",
        ])
    );
}

#[test]
fn grid_of_one_row() {
    let svg = r##"<use xlink:href="#1" x="0" y="0"/><use xlink:href="#0" x="26" y="0"/>"##;
    assert_eq!(svg_to_grid(svg), "■ □");
}

#[test]
fn grid_of_two_rows() {
    let svg = r##"<use xlink:href="#1" x="0" y="0"/><use xlink:href="#0" x="0" y="26"/>"##;
    assert_eq!(svg_to_grid(svg), "■\n□");
}

#[test]
fn grid_with_a_gap() {
    let svg = r##"<use href="#1" x="0" y="0"></use><use href="#0" x="52" y="0"></use>"##;
    assert_eq!(svg_to_grid(svg), "■ 　 □");
}

#[test]
fn grid_of_drawing_without_cells_is_empty() {
    assert_eq!(svg_to_grid("<svg></svg>"), "");
    assert_eq!(svg_to_grid(r##"<use x="0" y="0"/>"##), "");
}

#[test]
fn coordinates_round_half_away_from_zero() {
    let c = |t: &str| coord_exec(&t.chars().collect());
    assert_eq!(c("13"), 1);
    assert_eq!(c("-13"), -1);
    assert_eq!(c("12.9"), 0);
    assert_eq!(c("52.0"), 2);
    assert_eq!(c("-"), 0);
    assert_eq!(c("1.2.3"), 0);
    assert_eq!(c(".5"), 0);
    assert_eq!(c("99999999999999999999"), 2147483647);
    assert_eq!(c("-99999999999999999999"), -2147483648);
}

#[test]
fn range_shown_as_grid_or_id() {
    let svg = r##"<use xlink:href="#1" x="0" y="0"/>"##;
    assert_eq!(range_grid_or_id("1-1", Some(svg)), "■");
    assert_eq!(range_grid_or_id("1-1", Some("<svg></svg>")), "1-1");
    assert_eq!(range_grid_or_id("1-1", None), "1-1");
}

fn cv(t: &str) -> Vec<char> {
    t.chars().collect()
}

fn lines_of(v: Vec<Vec<char>>) -> Vec<String> {
    v.into_iter().map(|l| l.into_iter().collect()).collect()
}

#[test]
fn talent_template_keeps_pieces_and_numbers_in_place() {
    let rows = vec![
        (cv("攻击+10%，持续5秒"), cv("基础")),
        (cv("攻击+15%，持续5秒"), cv("精英2")),
    ];
    let out = lines_of(render_talent_description(&rows));
    assert_eq!(
        out,
        s(&[
            "- **天赋描述**: 攻击{var1}，持续5秒",
            "",
            "| 条件 | var1 |",
            "| :--- | :--- |",
            "| 基础 | +10% |",
            "| 精英2 | +15% |",
            "",
        ])
    );
}

#[test]
fn talent_template_filled_gives_each_effect_back() {
    let rows = vec![
        (cv("攻击+10%，持续5秒，费用-1"), cv("基础")),
        (cv("攻击+15%，持续8秒，费用-1"), cv("精英2")),
    ];
    let out = lines_of(render_talent_description(&rows));
    assert_eq!(out[0], "- **天赋描述**: 攻击{var1}，持续{var2}秒，费用-1");
    assert_eq!(out[4], "| 基础 | +10% | 5 |");
    assert_eq!(out[5], "| 精英2 | +15% | 8 |");
    let filled = out[0].replace("{var1}", "+15%").replace("{var2}", "8");
    assert_eq!(filled, "- **天赋描述**: 攻击+15%，持续8秒，费用-1");
}

#[test]
fn ignored_parameter_line_changes_nothing() {
    let base = page_lines();
    let mut with = base.clone();
    with.insert(3, "|干员名jp=チェン".to_string());
    with.insert(8, "|攻击范围坐标=12".to_string());
    assert_eq!(parse_combat(&with, None, &grids()), parse_combat(&base, None, &grids()));
}

#[test]
fn grid_moved_by_whole_cells_is_unchanged() {
    let svg = r##"<use xlink:href="#1" x="0" y="0"/><use xlink:href="#0" x="52" y="26"/>"##;
    let moved = r##"<use xlink:href="#1" x="-78" y="130"/><use xlink:href="#0" x="-26" y="156"/>"##;
    assert_eq!(svg_to_grid(moved), svg_to_grid(svg));
    assert_eq!(svg_to_grid(svg), "■\n　 　 □");
}
