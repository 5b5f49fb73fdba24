use prts_mcp::categorizer::categorize_lines;
use prts_mcp::wikitext::{clean_wikitext, extract_vars};

fn s(v: &[&str]) -> Vec<String> {
    v.iter().map(|x| x.to_string()).collect()
}

#[test]
fn clean_empty_text() {
    assert_eq!(clean_wikitext(""), "");
}

#[test]
fn clean_comment_and_color() {
    assert_eq!(clean_wikitext("<!-- 注释 -->{{color|#ff0000|红色}}文字"), "红色文字");
}

#[test]
fn clean_star_takes_signed_second_parameter() {
    assert_eq!(clean_wikitext("{{*|12|+12}}"), "+12");
    assert_eq!(clean_wikitext("{{*|5|9}}"), "5");
    assert_eq!(clean_wikitext("{{*|7}}"), "7");
}

#[test]
fn clean_links_and_doctor_name() {
    assert_eq!(clean_wikitext("[[能天使|小天使]]和[[陈]]"), "小天使和陈");
    assert_eq!(clean_wikitext("{{DrName|前缀=亲爱的}}"), "亲爱的{@Doctor}");
    assert_eq!(clean_wikitext("{{DrName}}你好"), "{@Doctor}你好");
}

#[test]
fn clean_terms_effects_popups_materials_breaks() {
    assert_eq!(clean_wikitext("{{术语|ba.cam|迷彩}}"), "迷彩");
    assert_eq!(clean_wikitext("{{异常效果|晕眩}}"), "[晕眩]");
    assert_eq!(clean_wikitext("{{popup|内容=说明}}"), "（说明）");
    assert_eq!(clean_wikitext("{{材料消耗|固源岩|5}}"), "固源岩*5");
    assert_eq!(clean_wikitext("  a<br/>b<BR>c  "), "a\nb\nc");
}

#[test]
fn extract_vars_numbers_placeholders_in_order() {
    let e = extract_vars("攻击力提升至{{color|#00B0FF|+50%}}，持续{{变动数值lite|x|y|10}}秒");
    assert_eq!(e.clean, "攻击力提升至{var1}，持续{var2}秒");
    assert_eq!(e.vars, s(&["+50%", "10"]));
}

#[test]
fn extract_vars_without_values() {
    let e = extract_vars("无变量");
    assert_eq!(e.clean, "无变量");
    assert!(e.vars.is_empty());
}

#[test]
fn categorize_routes_by_headers_and_templates() {
    let page = "{{CharinfoV2\n|干员名=陈\n}}\n==天赋==\n|天赋1=x\n==干员档案==\n{{人员档案\n{{干员导航}}\n";
    let b = categorize_lines(page);
    assert_eq!(b.basic, s(&["{{CharinfoV2", "|干员名=陈", "}}"]));
    assert_eq!(b.combat, s(&["\n### 天赋", "|天赋1=x"]));
    assert_eq!(b.lore, s(&["\n### 干员档案", "{{人员档案"]));
    assert!(b.build.is_empty());
    assert!(b.gallery.is_empty());
}

#[test]
fn categorize_keeps_every_kept_line_once() {
    let page = "a\n==材料==\nb\n{{ads/x}}\n<references/>\n==时装==\nc\n{{属性\nd";
    let b = categorize_lines(page);
    let total = b.basic.len() + b.combat.len() + b.build.len() + b.lore.len() + b.gallery.len();
    // seven lines are kept: the two dropped ones are the advertising and reference lines
    assert_eq!(total, 7);
    assert_eq!(b.basic, s(&["a"]));
    assert_eq!(b.build, s(&["\n### 材料", "b"]));
    assert_eq!(b.gallery, s(&["\n### 时装", "c"]));
    assert_eq!(b.combat, s(&["{{属性", "d"]));
}
