use prts_mcp::basic::parse_basic;
use prts_mcp::gallery::parse_gallery;
use prts_mcp::lore::parse_lore;
use prts_mcp::materials::parse_build;
use prts_mcp::module_table::parse_modules_raw;
use prts_mcp::voice::parse_voice;

fn s(v: &[&str]) -> Vec<String> {
    v.iter().map(|x| x.to_string()).collect()
}

#[test]
fn basic_sections_in_order() {
    let lines = s(&[
        "|干员简介=简介文本",
        "|画师=画师A",
        "|中文配音=配音B",
        "|稀有度=5",
        "|职业=近卫",
        "|分支=领主",
        "|上线时间=2019-05-01 10:00",
    ]);
    let out = parse_basic(&lines, "|特性=可以攻击远程敌人\n");
    let expected = s(&[
        "简介文本",
        "",
        "### 干员信息",
        "",
        "> ***画师**: 画师A*",
        "> \n> ***配音**: 配音B **(中)***",
        "",
        "",
        "星级: ★★★★★",
        "",
        "",
        "",
        "",
        "职业: 近卫-领主",
        "> 可以攻击远程敌人",
        "",
        "### 获得方式",
        "",
        "",
        "上线时间：2019年5月1日 10:00",
        "",
    ]);
    assert_eq!(out, expected);
}

#[test]
fn lore_archives_in_ascending_number() {
    let lines = s(&[
        "{{人员档案",
        "|档案2=第二档案",
        "|档案2文本=内容二",
        "|档案1=第一档案",
        "|档案1文本=内容一<br/>续",
        "}}",
    ]);
    let out = parse_lore(&lines, "");
    assert_eq!(
        out,
        s(&[
            "\n### 第一档案\n```text\n内容一\n续\n```\n",
            "\n### 第二档案\n```text\n内容二\n```\n",
        ])
    );
}

#[test]
fn voice_lines_with_audio_links() {
    let page = "|语音key=char_002_amiya\n|标题1=任命助理\n|台词1={{VoiceData/word|中文|博士，你好。}}{{VoiceData/word|日文|こんにちは。}}\n|语音1=CN_001\n";
    let out = parse_voice(page);
    assert_eq!(
        out,
        s(&[
            "\n### 任命助理",
            "> [中] 博士，你好。",
            "> [中](https://torappu.prts.wiki/assets/audio/voice_cn/char_002_amiya/cn_001)\n>",
            "> [日] こんにちは。",
            "> [日](https://torappu.prts.wiki/assets/audio/voice/char_002_amiya/cn_001)",
        ])
    );
}

#[test]
fn voice_of_empty_page_is_empty() {
    assert!(parse_voice("").is_empty());
}

#[test]
fn build_elite_and_skill_materials() {
    let lines = s(&[
        "|干员名=陈",
        "|精1=固源岩*5 装置*3",
        "|2=技巧概要·卷1*4",
        "|一8=材料A",
        "|二9=材料B",
    ]);
    let out = parse_build(&lines);
    assert_eq!(
        out,
        s(&[
            "### 精英化材料",
            "- **精1**: 固源岩*5, 装置*3",
            "",
            "### 技能升级材料",
            "#### 技能升级",
            "| 等级提升 | 消耗材料 |",
            "| :---: | :--- |",
            "| 1 → 2 | 技巧概要·卷1*4 |",
            "",
            "#### 专精训练",
            "| 专精等级 | 第一技能 | 第二技能 |",
            "| :---: | :--- | :--- |",
            "| 等级1 | 材料A | - |",
            "| 等级2 | - | 材料B |",
            "",
        ])
    );
}

#[test]
fn gallery_default_outfit() {
    let out = parse_gallery(&Vec::new(), "|画师=某画师\n|精英0介绍=介绍文本", "Mon3tr");
    assert_eq!(
        out,
        s(&["### 默认服装 - 精英0\n- **原画**: 某画师\n- **原图**: [下载](https://prts.wiki/w/Special:FilePath/%E7%AB%8B%E7%BB%98_Mon3tr_1.png)\n\n```text\n介绍文本\n```"])
    );
}

#[test]
fn gallery_without_outfits() {
    assert_eq!(parse_gallery(&Vec::new(), "|画师=某画师", "Mon3tr"), s(&["该干员暂无特殊服装描述与立绘信息。"]));
    assert!(parse_gallery(&Vec::new(), "", "Mon3tr").is_empty());
}

#[test]
fn module_table_of_one_module() {
    let raw = "==模组==\n{{模组\n|名称=证章X\n|类型=EXE-X\n|攻击=20\n|特性=增强\n}}\n";
    let out = parse_modules_raw(raw);
    assert_eq!(
        out,
        s(&[
            "#### 证章X",
            "- **模组类型**: X模",
            "",
            "| 模组等级 | 攻击 | 战斗效果更新 |",
            "| :---: | :---: | :--- |",
            "| 1 | +20 | **特性更新**: 增强 |",
            "| 2 | - | - |",
            "| 3 | - | - |",
            "",
        ])
    );
}

#[test]
fn module_table_skips_base_badge_and_pages_without_modules() {
    let raw = "==模组==\n{{模组\n|基础证章=是\n}}\n";
    assert!(parse_modules_raw(raw).is_empty());
    assert!(parse_modules_raw("没有模组").is_empty());
}

#[test]
fn voice_outfit_lines_left_out() {
    let page = "|语音key=k\n|标题1=交谈1\n|台词1={{VoiceData/word|中文|（时装）换了新衣服}}{{VoiceData/word|中文|正常台词}}\n";
    let out = parse_voice(page);
    assert_eq!(out, s(&["\n### 交谈1", "> [中] 正常台词"]));
}

#[test]
fn build_skill_levels_in_ascending_order() {
    let lines = s(&["|3=材料丙", "|2=材料乙", "|3=材料丁"]);
    let out = parse_build(&lines);
    assert_eq!(
        out,
        s(&[
            "### 技能升级材料",
            "#### 技能升级",
            "| 等级提升 | 消耗材料 |",
            "| :---: | :--- |",
            "| 1 → 2 | 材料乙 |",
            "| 2 → 3 | 材料丁 |",
            "",
        ])
    );
}

#[test]
fn basic_ignores_the_module_section() {
    let lines = s(&["|干员简介=简介文本", "|画师=画师A", "|稀有度=5"]);
    let mut with = lines.clone();
    with.splice(
        1..1,
        s(&["<section begin=专属模组 />", "|画师=别人", "|稀有度=2", "<section end=专属模组 />"]),
    );
    let main = "|特性=可以攻击远程敌人\n";
    assert_eq!(parse_basic(&with, main), parse_basic(&lines, main));
}
