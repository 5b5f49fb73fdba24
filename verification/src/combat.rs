//! The COMBAT domain: the combat lines of a page are routed into attributes, range,
//! talents, potentials, skills and summons, and each part is rendered as Markdown,
//! followed by the module tables.
//!
//! Attack ranges are drawn from a table of grids by range id, which the caller fills in
//! beforehand (see `range_requests`); a range without a grid is shown as its id.
use vstd::prelude::*;
use crate::attributes::{attributes_output, render_attributes_chars, render_potentials_chars, potentials_output};
use crate::md::{clone_lines, extend, push_line, push_str_line};
use crate::module_table::{modules_output, parse_modules_raw_chars};
use crate::modules::{first_value, lookup, pair_views};
use crate::patterns::{captures, grp, is_match, regex_first_captures};
use crate::skills::{render_skills_chars, skill_models, skills_output, SkillData, SkillModel};
use crate::strops::{parse_uint, parse_uint_exec, replace, replace_str, trim, trim_exec};
use crate::talents::{render_talents_chars, talents_output};
use crate::text::{
    append, append_str, chars_of, chars_of_all, contains, contains_str, ends_with, ends_with_str, eq,
    eq_str, starts_with, starts_with_str, to_strings, views,
};
use crate::wikitext::{br_to, br_to_exec, clean_chars, cleaned};

verus! {

/// A section header line `### title`.
pub const PAT_HEADER: &'static str = "^### (.*?)$";

/// A `|key=value` line.
pub const PAT_PARAM: &'static str = "^\\|(.*?)=(.*?)$";

/// A skill level field: `技能<level><描述|初始|消耗|持续>`.
pub const PAT_SKILL_LEVEL: &'static str = "^技能(.*?)(描述|初始|消耗|持续)$";

/// A skill type field.
pub const PAT_SKILL_TYPE: &'static str = "^技能类型";

/// A foreign skill name field.
pub const PAT_SKILL_NAME_FOREIGN: &'static str = "^技能名(jp|en)$";

/// The part of the combat data a line belongs to.
#[derive(Clone, Copy, PartialEq, Eq, Structural, Debug)]
pub enum Sub {
    Attributes,
    Range,
    Talents,
    Potentials,
    Modules,
    Summons,
    Skills,
}

/// Reading state: the lines of each part, the skills, and the current part.
#[verifier::ext_equal]
pub struct CombatRead {
    pub attrs: Seq<Seq<char>>,
    pub range: Seq<Seq<char>>,
    pub talents: Seq<Seq<char>>,
    pub pots: Seq<Seq<char>>,
    pub summons: Seq<Seq<char>>,
    pub skills: Seq<SkillModel>,
    pub cur: Sub,
}

/// The part a section header switches to (the current one if it names none).
pub open spec fn header_sub(h: Seq<char>, cur: Sub) -> Sub {
    if contains(h, "属性"@) || contains(h, "面板"@) {
        Sub::Attributes
    } else if contains(h, "范围"@) {
        Sub::Range
    } else if contains(h, "天赋"@) || contains(h, "特性"@) {
        Sub::Talents
    } else if contains(h, "潜能"@) {
        Sub::Potentials
    } else if contains(h, "模块"@) || contains(h, "模组"@) {
        Sub::Modules
    } else if contains(h, "召唤物"@) {
        Sub::Summons
    } else if contains(h, "技能"@) {
        Sub::Skills
    } else {
        cur
    }
}

/// Whether the part keeps lines of its own (skills and modules do not).
pub open spec fn has_bucket(s: Sub) -> bool {
    !(s is Skills || s is Modules)
}

/// The state with `line` added to the lines of part `s` (nothing for a part without lines).
pub open spec fn bucket_push(st: CombatRead, s: Sub, line: Seq<char>) -> CombatRead {
    match s {
        Sub::Attributes => CombatRead { attrs: st.attrs.push(line), ..st },
        Sub::Range => CombatRead { range: st.range.push(line), ..st },
        Sub::Talents => CombatRead { talents: st.talents.push(line), ..st },
        Sub::Potentials => CombatRead { pots: st.pots.push(line), ..st },
        Sub::Summons => CombatRead { summons: st.summons.push(line), ..st },
        _ => st,
    }
}

/// The state with its last skill replaced.
pub open spec fn with_last_skill(st: CombatRead, sk: SkillModel) -> CombatRead {
    CombatRead { skills: st.skills.update(st.skills.len() - 1, sk), ..st }
}

/// A value on one line: its line breaks read as spaces.
pub open spec fn one_line(v: Seq<char>) -> Seq<char> {
    replace(v, "\n"@, " "@)
}

/// A property line `- **key**: value`.
pub open spec fn prop_line(k: Seq<char>, v: Seq<char>) -> Seq<char> {
    "- **"@ + k + "**: "@ + one_line(v)
}

/// The grid of a range id in the table, or the id itself.
pub open spec fn grid_of(grids: Seq<(Seq<char>, Seq<char>)>, v: Seq<char>) -> Seq<char> {
    match first_value(grids, v) {
        Some(g) => g,
        None => v,
    }
}

/// A range property with its grid, `head` coming between the key and the grid.
pub open spec fn range_line(k: Seq<char>, v: Seq<char>, grids: Seq<(Seq<char>, Seq<char>)>, head: Seq<char>) -> Seq<char> {
    let g = grid_of(grids, v);
    if g != v {
        "- **"@ + k + head + "\n```text\n"@ + g + "\n```"@
    } else {
        prop_line(k, v)
    }
}

/// Whether a level text names a level of the table: a number or a mastery level.
pub open spec fn is_level_key(key: Seq<char>) -> bool {
    parse_uint(key, u32::MAX as nat) is Some || starts_with(key, "专精"@)
}

/// A skill field read into the last skill.
pub open spec fn skill_field(sk: SkillModel, k: Seq<char>, v_raw: Seq<char>, v: Seq<char>, grids: Seq<(Seq<char>, Seq<char>)>) -> SkillModel {
    match regex_first_captures(PAT_SKILL_LEVEL@, k) {
        Some(c) => {
            let key = if grp(c, 1).len() == 0 {
                "1"@
            } else {
                grp(c, 1)
            };
            if is_level_key(key) {
                SkillModel { levels: sk.levels.push((key, grp(c, 2), v_raw)), ..sk }
            } else {
                SkillModel { base_props: sk.base_props.push(prop_line(k, v)), ..sk }
            }
        },
        None => if regex_first_captures(PAT_SKILL_TYPE@, k) is Some {
            SkillModel { types: sk.types.push(one_line(v)), ..sk }
        } else if regex_first_captures(PAT_SKILL_NAME_FOREIGN@, k) is Some {
            sk
        } else if ends_with(k, "范围"@) {
            SkillModel { base_props: sk.base_props.push(range_line(k, v, grids, "**:"@)), ..sk }
        } else {
            SkillModel { base_props: sk.base_props.push(prop_line(k, v)), ..sk }
        },
    }
}

/// Whether a field belongs to the current skill.
pub open spec fn is_skill_field(k: Seq<char>) -> bool {
    regex_first_captures(PAT_SKILL_LEVEL@, k) is Some || regex_first_captures(PAT_SKILL_TYPE@, k) is Some
        || regex_first_captures(PAT_SKILL_NAME_FOREIGN@, k) is Some || starts_with(k, "技能"@)
}

/// Whether a key routes to the attributes.
pub open spec fn is_attr_key(k: Seq<char>) -> bool {
    contains(k, "属性"@) || contains(k, "模组"@) || contains(k, "攻击"@) || contains(k, "生命"@)
        || contains(k, "阻挡"@) || contains(k, "费用"@) || contains(k, "再部署"@) || contains(
        k,
        "职业"@,
    ) || contains(k, "分支"@) || contains(k, "特性"@)
}

/// Whether a key is skipped: coordinates, scales, trigger types, foreign names.
pub open spec fn is_ignored_key(k: Seq<char>) -> bool {
    contains(k, "坐标"@) || contains(k, "缩放"@) || contains(k, "触发类型"@) || starts_with(k, "干员名j"@)
}

/// A field outside the skills, routed by its key.
pub open spec fn route_field(st: CombatRead, k: Seq<char>, v: Seq<char>, grids: Seq<(Seq<char>, Seq<char>)>) -> CombatRead {
    if is_ignored_key(k) {
        st
    } else {
        let out = if ends_with(k, "范围"@) {
            range_line(k, v, grids, "**: "@)
        } else {
            prop_line(k, v)
        };
        if contains(k, "天赋"@) {
            CombatRead { cur: Sub::Talents, ..bucket_push(st, Sub::Talents, out) }
        } else if contains(k, "范围"@) {
            CombatRead { cur: Sub::Range, ..bucket_push(st, Sub::Range, out) }
        } else if contains(k, "潜能"@) {
            CombatRead { cur: Sub::Potentials, ..bucket_push(st, Sub::Potentials, out) }
        } else if k == "特性"@ && st.cur == Sub::Skills {
            st
        } else if is_attr_key(k) {
            CombatRead { cur: Sub::Attributes, ..bucket_push(st, Sub::Attributes, out) }
        } else if has_bucket(st.cur) {
            bucket_push(st, st.cur, out)
        } else {
            CombatRead { cur: Sub::Attributes, ..bucket_push(st, Sub::Attributes, out) }
        }
    }
}

/// A new skill named `name`.
pub open spec fn new_skill(name: Seq<char>) -> SkillModel {
    SkillModel {
        name,
        types: Seq::empty(),
        base_props: Seq::empty(),
        notes: Seq::empty(),
        levels: Seq::empty(),
    }
}

/// A `|key=value` line read (`v_raw` the trimmed value, `v` its cleaned text).
pub open spec fn field_step(st: CombatRead, k: Seq<char>, v_raw: Seq<char>, v: Seq<char>, grids: Seq<(Seq<char>, Seq<char>)>) -> CombatRead {
    if v_raw.len() == 0 && v.len() == 0 {
        st
    } else if k == "备注"@ {
        let note = "> "@ + replace(v, "\n"@, "\n> "@);
        if st.cur == Sub::Skills {
            if st.skills.len() > 0 {
                let sk = st.skills.last();
                with_last_skill(st, SkillModel { notes: sk.notes.push(note), ..sk })
            } else {
                st
            }
        } else if has_bucket(st.cur) {
            bucket_push(st, st.cur, note)
        } else {
            bucket_push(st, Sub::Attributes, note)
        }
    } else if k == "技能名"@ {
        CombatRead { skills: st.skills.push(new_skill(v)), cur: Sub::Skills, ..st }
    } else if st.cur == Sub::Skills && st.skills.len() > 0 && is_skill_field(k) {
        with_last_skill(st, skill_field(st.skills.last(), k, v_raw, v, grids))
    } else {
        route_field(st, k, v, grids)
    }
}

/// A plain text line read: cleaned, it joins the current part, or the last skill as a
/// note property.
pub open spec fn text_step(st: CombatRead, line: Seq<char>) -> CombatRead {
    let t = trim(line);
    if t.len() == 0 || contains(t, "{{"@) || contains(t, "}}"@) || contains(t, "|"@) || contains(
        t,
        "###"@,
    ) {
        st
    } else {
        let ln = br_to(cleaned(t), " "@);
        if ln.len() == 0 {
            st
        } else if st.cur != Sub::Skills {
            bucket_push(st, st.cur, ln)
        } else if st.skills.len() > 0 {
            let sk = st.skills.last();
            with_last_skill(st, SkillModel { base_props: sk.base_props.push("- **备注**: "@ + ln), ..sk })
        } else {
            st
        }
    }
}

/// One combat line read.
pub open spec fn combat_step(st: CombatRead, line: Seq<char>, grids: Seq<(Seq<char>, Seq<char>)>) -> CombatRead {
    match regex_first_captures(PAT_HEADER@, line) {
        Some(c) => CombatRead { cur: header_sub(grp(c, 1), st.cur), ..st },
        None => match regex_first_captures(PAT_PARAM@, line) {
            Some(c) => {
                let v_raw = trim(grp(c, 2));
                field_step(st, trim(grp(c, 1)), v_raw, cleaned(v_raw), grids)
            },
            None => text_step(st, line),
        },
    }
}

pub open spec fn empty_read() -> CombatRead {
    CombatRead {
        attrs: Seq::empty(),
        range: Seq::empty(),
        talents: Seq::empty(),
        pots: Seq::empty(),
        summons: Seq::empty(),
        skills: Seq::empty(),
        cur: Sub::Attributes,
    }
}

pub open spec fn combat_lines(ls: Seq<Seq<char>>, grids: Seq<(Seq<char>, Seq<char>)>) -> CombatRead
    decreases ls.len(),
{
    if ls.len() == 0 {
        empty_read()
    } else {
        combat_step(combat_lines(ls.drop_last(), grids), ls.last(), grids)
    }
}

/// A titled block of lines, or nothing where there are none.
pub open spec fn titled(title: Seq<char>, ls: Seq<Seq<char>>) -> Seq<Seq<char>> {
    if ls.len() > 0 {
        seq![title] + ls + seq![Seq::empty()]
    } else {
        Seq::empty()
    }
}

/// The Markdown of the COMBAT domain.
pub open spec fn combat_output(ls: Seq<Seq<char>>, modules_raw: Option<Seq<char>>, grids: Seq<(Seq<char>, Seq<char>)>) -> Seq<Seq<char>> {
    let st = combat_lines(ls, grids);
    (if st.attrs.len() > 0 {
        attributes_output(st.attrs)
    } else {
        Seq::empty()
    }) + titled("### 攻击范围"@, st.range) + (if st.talents.len() > 0 {
        talents_output(st.talents)
    } else {
        Seq::empty()
    }) + (if st.pots.len() > 0 {
        potentials_output(st.pots)
    } else {
        Seq::empty()
    }) + (if st.skills.len() > 0 {
        skills_output(st.skills)
    } else {
        Seq::empty()
    }) + titled("### 召唤物"@, st.summons) + match modules_raw {
        Some(raw) => titled("### 模组"@, modules_output(raw)),
        None => Seq::empty(),
    }
}

/// The range ids whose grids the combat lines may show: the cleaned value of every
/// `|key=value` line whose key ends in `范围`.
pub open spec fn range_ids(ls: Seq<Seq<char>>) -> Seq<Seq<char>>
    decreases ls.len(),
{
    if ls.len() == 0 {
        Seq::empty()
    } else {
        let r = range_ids(ls.drop_last());
        match regex_first_captures(PAT_PARAM@, ls.last()) {
            Some(c) => if ends_with(trim(grp(c, 1)), "范围"@) {
                r.push(cleaned(trim(grp(c, 2))))
            } else {
                r
            },
            None => r,
        }
    }
}

// ─── executable ───────────────────────────────────────────────

/// The combat reading state.
pub struct CombatAcc {
    pub attrs: Vec<Vec<char>>,
    pub range: Vec<Vec<char>>,
    pub talents: Vec<Vec<char>>,
    pub pots: Vec<Vec<char>>,
    pub summons: Vec<Vec<char>>,
    pub skills: Vec<SkillData>,
    pub cur: Sub,
}

impl CombatAcc {
    pub open spec fn state(&self) -> CombatRead {
        CombatRead {
            attrs: views(self.attrs@),
            range: views(self.range@),
            talents: views(self.talents@),
            pots: views(self.pots@),
            summons: views(self.summons@),
            skills: skill_models(self.skills@),
            cur: self.cur,
        }
    }
}

fn header_sub_exec(h: &Vec<char>, cur: Sub) -> (r: Sub)
    ensures
        r == header_sub(h@, cur),
{
    if contains_str(h, "属性") || contains_str(h, "面板") {
        Sub::Attributes
    } else if contains_str(h, "范围") {
        Sub::Range
    } else if contains_str(h, "天赋") || contains_str(h, "特性") {
        Sub::Talents
    } else if contains_str(h, "潜能") {
        Sub::Potentials
    } else if contains_str(h, "模块") || contains_str(h, "模组") {
        Sub::Modules
    } else if contains_str(h, "召唤物") {
        Sub::Summons
    } else if contains_str(h, "技能") {
        Sub::Skills
    } else {
        cur
    }
}

fn bucket_push_exec(acc: &mut CombatAcc, s: Sub, line: Vec<char>)
    ensures
        final(acc).state() == bucket_push(old(acc).state(), s, line@),
{
    let ghost st = acc.state();
    match s {
        Sub::Attributes => push_line(&mut acc.attrs, line),
        Sub::Range => push_line(&mut acc.range, line),
        Sub::Talents => push_line(&mut acc.talents, line),
        Sub::Potentials => push_line(&mut acc.pots, line),
        Sub::Summons => push_line(&mut acc.summons, line),
        _ => {},
    }
    assert(acc.state() =~= bucket_push(st, s, line@));
}

fn one_line_exec(v: &Vec<char>) -> (r: Vec<char>)
    ensures
        r@ == one_line(v@),
{
    let sp = chars_of(" ");
    proof {
        reveal_strlit("\n");
    }
    replace_str(v, "\n", &sp)
}

fn prop_line_exec(k: &Vec<char>, v: &Vec<char>) -> (r: Vec<char>)
    ensures
        r@ == prop_line(k@, v@),
{
    let mut l = chars_of("- **");
    append(&mut l, k);
    append_str(&mut l, "**: ");
    let o = one_line_exec(v);
    append(&mut l, &o);
    l
}

fn grid_of_exec(grids: &Vec<(Vec<char>, Vec<char>)>, v: &Vec<char>) -> (r: Vec<char>)
    ensures
        r@ == grid_of(pair_views(grids@), v@),
{
    match lookup(grids, v) {
        Some(g) => g,
        None => v.clone(),
    }
}

fn range_line_exec(k: &Vec<char>, v: &Vec<char>, grids: &Vec<(Vec<char>, Vec<char>)>, head: &str) -> (r: Vec<char>)
    ensures
        r@ == range_line(k@, v@, pair_views(grids@), head@),
{
    let g = grid_of_exec(grids, v);
    if !eq(&g, v) {
        let mut l = chars_of("- **");
        append(&mut l, k);
        append_str(&mut l, head);
        append_str(&mut l, "\n```text\n");
        append(&mut l, &g);
        append_str(&mut l, "\n```");
        l
    } else {
        prop_line_exec(k, v)
    }
}

fn skill_field_exec(
    sk: &mut SkillData,
    k: &Vec<char>,
    v_raw: &Vec<char>,
    v: &Vec<char>,
    grids: &Vec<(Vec<char>, Vec<char>)>,
)
    ensures
        final(sk).model() == skill_field(old(sk).model(), k@, v_raw@, v@, pair_views(grids@)),
{
    let ghost m = sk.model();
    match captures(PAT_SKILL_LEVEL, k) {
        Some(c) => {
            let g1 = c.get(1);
            let key = if g1.len() == 0 {
                chars_of("1")
            } else {
                g1
            };
            if parse_uint_exec(&key, 4294967295u64).is_some() || starts_with_str(&key, "专精") {
                let e = (key, c.get(2), v_raw.clone());
                let ghost ev = (e.0@, e.1@, e.2@);
                sk.levels.push(e);
                assert(crate::attributes::entry_views(sk.levels@) =~= m.levels.push(ev));
            } else {
                push_line(&mut sk.base_props, prop_line_exec(k, v));
            }
        },
        None => {
            if is_match(PAT_SKILL_TYPE, k) {
                push_line(&mut sk.types, one_line_exec(v));
            } else if is_match(PAT_SKILL_NAME_FOREIGN, k) {
            } else if ends_with_str(k, "范围") {
                push_line(&mut sk.base_props, range_line_exec(k, v, grids, "**:"));
            } else {
                push_line(&mut sk.base_props, prop_line_exec(k, v));
            }
        },
    }
    assert(sk.model() =~= skill_field(m, k@, v_raw@, v@, pair_views(grids@)));
}

fn is_skill_field_exec(k: &Vec<char>) -> (r: bool)
    ensures
        r == is_skill_field(k@),
{
    is_match(PAT_SKILL_LEVEL, k) || is_match(PAT_SKILL_TYPE, k) || is_match(PAT_SKILL_NAME_FOREIGN, k)
        || starts_with_str(k, "技能")
}

fn is_attr_key_exec(k: &Vec<char>) -> (r: bool)
    ensures
        r == is_attr_key(k@),
{
    contains_str(k, "属性") || contains_str(k, "模组") || contains_str(k, "攻击") || contains_str(k, "生命")
        || contains_str(k, "阻挡") || contains_str(k, "费用") || contains_str(k, "再部署")
        || contains_str(k, "职业") || contains_str(k, "分支") || contains_str(k, "特性")
}

fn route_field_exec(acc: &mut CombatAcc, k: &Vec<char>, v: &Vec<char>, grids: &Vec<(Vec<char>, Vec<char>)>)
    ensures
        final(acc).state() == route_field(old(acc).state(), k@, v@, pair_views(grids@)),
{
    if contains_str(k, "坐标") || contains_str(k, "缩放") || contains_str(k, "触发类型") || starts_with_str(
        k,
        "干员名j",
    ) {
        return;
    }
    let out = if ends_with_str(k, "范围") {
        range_line_exec(k, v, grids, "**: ")
    } else {
        prop_line_exec(k, v)
    };
    if contains_str(k, "天赋") {
        bucket_push_exec(acc, Sub::Talents, out);
        acc.cur = Sub::Talents;
    } else if contains_str(k, "范围") {
        bucket_push_exec(acc, Sub::Range, out);
        acc.cur = Sub::Range;
    } else if contains_str(k, "潜能") {
        bucket_push_exec(acc, Sub::Potentials, out);
        acc.cur = Sub::Potentials;
    } else if eq_str(k, "特性") && acc.cur == Sub::Skills {
    } else if is_attr_key_exec(k) {
        bucket_push_exec(acc, Sub::Attributes, out);
        acc.cur = Sub::Attributes;
    } else if acc.cur != Sub::Skills && acc.cur != Sub::Modules {
        let c = acc.cur;
        bucket_push_exec(acc, c, out);
    } else {
        bucket_push_exec(acc, Sub::Attributes, out);
        acc.cur = Sub::Attributes;
    }
}

fn new_skill_exec(name: Vec<char>) -> (r: SkillData)
    ensures
        r.model() == new_skill(name@),
{
    let r = SkillData {
        name,
        types: Vec::new(),
        base_props: Vec::new(),
        notes: Vec::new(),
        levels: Vec::new(),
    };
    assert(r.model() =~= new_skill(name@));
    r
}

fn field_step_exec(
    acc: &mut CombatAcc,
    k: &Vec<char>,
    v_raw: &Vec<char>,
    v: &Vec<char>,
    grids: &Vec<(Vec<char>, Vec<char>)>,
)
    ensures
        final(acc).state() == field_step(old(acc).state(), k@, v_raw@, v@, pair_views(grids@)),
{
    let ghost st = acc.state();
    if v_raw.len() == 0 && v.len() == 0 {
        return;
    }
    if eq_str(k, "备注") {
        let mut note = chars_of("> ");
        let rep = chars_of("\n> ");
        proof {
            reveal_strlit("\n");
        }
        let body = replace_str(v, "\n", &rep);
        append(&mut note, &body);
        if acc.cur == Sub::Skills {
            if acc.skills.len() > 0 {
                let mut sk = acc.skills.pop().unwrap();
                push_line(&mut sk.notes, note);
                let ghost m = sk.model();
                acc.skills.push(sk);
                assert(skill_models(acc.skills@) =~= st.skills.update(st.skills.len() - 1, m));
                assert(acc.state() =~= field_step(st, k@, v_raw@, v@, pair_views(grids@)));
            }
        } else if acc.cur != Sub::Modules {
            let c = acc.cur;
            bucket_push_exec(acc, c, note);
        } else {
            bucket_push_exec(acc, Sub::Attributes, note);
        }
        return;
    }
    if eq_str(k, "技能名") {
        let sk = new_skill_exec(v.clone());
        let ghost m = sk.model();
        acc.skills.push(sk);
        acc.cur = Sub::Skills;
        assert(skill_models(acc.skills@) =~= st.skills.push(m));
        assert(acc.state() =~= field_step(st, k@, v_raw@, v@, pair_views(grids@)));
        return;
    }
    if acc.cur == Sub::Skills && acc.skills.len() > 0 && is_skill_field_exec(k) {
        let mut sk = acc.skills.pop().unwrap();
        skill_field_exec(&mut sk, k, v_raw, v, grids);
        let ghost m = sk.model();
        acc.skills.push(sk);
        assert(skill_models(acc.skills@) =~= st.skills.update(st.skills.len() - 1, m));
        assert(acc.state() =~= field_step(st, k@, v_raw@, v@, pair_views(grids@)));
        return;
    }
    route_field_exec(acc, k, v, grids);
}

fn text_step_exec(acc: &mut CombatAcc, line: &Vec<char>)
    ensures
        final(acc).state() == text_step(old(acc).state(), line@),
{
    let ghost st = acc.state();
    let t = trim_exec(line);
    if t.len() == 0 || contains_str(&t, "{{") || contains_str(&t, "}}") || contains_str(&t, "|")
        || contains_str(&t, "###") {
        return;
    }
    let c = clean_chars(&t);
    let ln = br_to_exec(&c, " ");
    if ln.len() == 0 {
        return;
    }
    if acc.cur != Sub::Skills {
        let s = acc.cur;
        bucket_push_exec(acc, s, ln);
    } else if acc.skills.len() > 0 {
        let mut sk = acc.skills.pop().unwrap();
        let mut l = chars_of("- **备注**: ");
        append(&mut l, &ln);
        push_line(&mut sk.base_props, l);
        let ghost m = sk.model();
        acc.skills.push(sk);
        assert(skill_models(acc.skills@) =~= st.skills.update(st.skills.len() - 1, m));
        assert(acc.state() =~= text_step(st, line@));
    }
}

fn combat_step_exec(acc: &mut CombatAcc, line: &Vec<char>, grids: &Vec<(Vec<char>, Vec<char>)>)
    ensures
        final(acc).state() == combat_step(old(acc).state(), line@, pair_views(grids@)),
{
    let ghost st = acc.state();
    match captures(PAT_HEADER, line) {
        Some(c) => {
            let h = c.get(1);
            acc.cur = header_sub_exec(&h, acc.cur);
            assert(acc.state() =~= combat_step(st, line@, pair_views(grids@)));
        },
        None => match captures(PAT_PARAM, line) {
            Some(c) => {
                let k = trim_exec(&c.get(1));
                let v_raw = trim_exec(&c.get(2));
                let v = clean_chars(&v_raw);
                field_step_exec(acc, &k, &v_raw, &v, grids);
            },
            None => text_step_exec(acc, line),
        },
    }
}

fn combat_lines_exec(ls: &Vec<Vec<char>>, grids: &Vec<(Vec<char>, Vec<char>)>) -> (r: CombatAcc)
    ensures
        r.state() == combat_lines(views(ls@), pair_views(grids@)),
{
    let mut acc = CombatAcc {
        attrs: Vec::new(),
        range: Vec::new(),
        talents: Vec::new(),
        pots: Vec::new(),
        summons: Vec::new(),
        skills: Vec::new(),
        cur: Sub::Attributes,
    };
    assert(acc.state() =~= empty_read());
    let mut i: usize = 0;
    while i < ls.len()
        invariant
            i <= ls@.len(),
            acc.state() == combat_lines(views(ls@).take(i as int), pair_views(grids@)),
        decreases ls.len() - i,
    {
        assert(views(ls@).take(i + 1).drop_last() =~= views(ls@).take(i as int));
        assert(views(ls@).take(i + 1).last() == ls@[i as int]@);
        combat_step_exec(&mut acc, &ls[i], grids);
        i = i + 1;
    }
    assert(views(ls@).take(ls@.len() as int) =~= views(ls@));
    acc
}

fn titled_exec(out: &mut Vec<Vec<char>>, title: &str, ls: &Vec<Vec<char>>)
    ensures
        views(final(out)@) == views(old(out)@) + titled(title@, views(ls@)),
{
    let ghost o = views(out@);
    if ls.len() > 0 {
        push_str_line(out, title);
        let c = clone_lines(ls);
        extend(out, c);
        push_line(out, Vec::new());
        assert(views(out@) =~= o + titled(title@, views(ls@)));
    } else {
        assert(views(out@) =~= o + titled(title@, views(ls@)));
    }
}

/// The COMBAT domain: attributes, attack range, talents, potentials, skills, summons,
/// then the module tables of `modules_raw`; `grids` gives the grid of each range id.
pub fn parse_combat_chars(
    ls: &Vec<Vec<char>>,
    modules_raw: Option<&Vec<char>>,
    grids: &Vec<(Vec<char>, Vec<char>)>,
) -> (r: Vec<Vec<char>>)
    ensures
        views(r@) == combat_output(
            views(ls@),
            match modules_raw {
                Some(m) => Some(m@),
                None => None,
            },
            pair_views(grids@),
        ),
{
    let acc = combat_lines_exec(ls, grids);
    let ghost st = acc.state();
    let mut out: Vec<Vec<char>> = Vec::new();
    if acc.attrs.len() > 0 {
        let a = render_attributes_chars(&acc.attrs);
        extend(&mut out, a);
    }
    let ghost p1 = views(out@);
    titled_exec(&mut out, "### 攻击范围", &acc.range);
    if acc.talents.len() > 0 {
        let t = render_talents_chars(&acc.talents);
        extend(&mut out, t);
    }
    let ghost p2 = views(out@);
    if acc.pots.len() > 0 {
        let p = render_potentials_chars(&acc.pots);
        extend(&mut out, p);
    }
    if acc.skills.len() > 0 {
        let k = render_skills_chars(&acc.skills);
        extend(&mut out, k);
    }
    let ghost p3 = views(out@);
    titled_exec(&mut out, "### 召唤物", &acc.summons);
    let ghost p4 = views(out@);
    match modules_raw {
        Some(raw) => {
            let mb = parse_modules_raw_chars(raw);
            titled_exec(&mut out, "### 模组", &mb);
        },
        None => {},
    }
    assert(views(out@) =~= combat_output(
        views(ls@),
        match modules_raw {
            Some(m) => Some(m@),
            None => None,
        },
        pair_views(grids@),
    ));
    out
}

/// A grid table as character vectors.
pub fn grid_table_of(grids: &Vec<(String, String)>) -> (r: Vec<(Vec<char>, Vec<char>)>)
    ensures
        pair_views(r@) == grids.deep_view(),
{
    let mut r: Vec<(Vec<char>, Vec<char>)> = Vec::new();
    let mut i: usize = 0;
    while i < grids.len()
        invariant
            i <= grids@.len(),
            pair_views(r@) == grids.deep_view().take(i as int),
        decreases grids.len() - i,
    {
        let a = chars_of(grids[i].0.as_str());
        let b = chars_of(grids[i].1.as_str());
        let ghost before = pair_views(r@);
        r.push((a, b));
        assert(grids.deep_view()[i as int] == (grids@[i as int].0@, grids@[i as int].1@));
        assert(pair_views(r@) =~= before.push((a@, b@)));
        assert(grids.deep_view().take(i + 1) =~= grids.deep_view().take(i as int).push(
            grids.deep_view()[i as int],
        ));
        i = i + 1;
    }
    assert(grids.deep_view().take(grids@.len() as int) =~= grids.deep_view());
    r
}

/// The COMBAT domain of a page (see `parse_combat_chars`): `lines` is the combat bucket,
/// `modules_raw` the whole page if its modules are wanted, and `grids` pairs each range
/// id (see `range_requests`) with its grid.
pub fn parse_combat(lines: &Vec<String>, modules_raw: Option<&str>, grids: &Vec<(String, String)>) -> (r: Vec<String>)
    ensures
        r.deep_view() == combat_output(
            lines.deep_view(),
            match modules_raw {
                Some(m) => Some(m@),
                None => None,
            },
            grids.deep_view(),
        ),
{
    let ls = chars_of_all(lines);
    let g = grid_table_of(grids);
    let out = match modules_raw {
        Some(m) => {
            let mc = chars_of(m);
            parse_combat_chars(&ls, Some(&mc), &g)
        },
        None => parse_combat_chars(&ls, None, &g),
    };
    to_strings(&out)
}

/// The range ids of the combat lines, whose grids `parse_combat` may show.
pub fn range_requests(lines: &Vec<String>) -> (r: Vec<String>)
    ensures
        r.deep_view() == range_ids(lines.deep_view()),
{
    let ls = chars_of_all(lines);
    let mut out: Vec<Vec<char>> = Vec::new();
    let mut i: usize = 0;
    while i < ls.len()
        invariant
            i <= ls@.len(),
            views(ls@) == lines.deep_view(),
            views(out@) == range_ids(views(ls@).take(i as int)),
        decreases ls.len() - i,
    {
        assert(views(ls@).take(i + 1).drop_last() =~= views(ls@).take(i as int));
        assert(views(ls@).take(i + 1).last() == ls@[i as int]@);
        match captures(PAT_PARAM, &ls[i]) {
            Some(c) => {
                let k = trim_exec(&c.get(1));
                if ends_with_str(&k, "范围") {
                    let v = trim_exec(&c.get(2));
                    push_line(&mut out, clean_chars(&v));
                }
            },
            None => {},
        }
        i = i + 1;
    }
    assert(views(ls@).take(ls@.len() as int) =~= views(ls@));
    to_strings(&out)
}

/// A `|key=value` line whose key is skipped: not a header, its key one of the skipped
/// kinds (see `is_ignored_key`), neither a note nor a skill's name or field.
pub open spec fn ignored_param_line(line: Seq<char>) -> bool {
    &&& regex_first_captures(PAT_HEADER@, line) is None
    &&& match regex_first_captures(PAT_PARAM@, line) {
        Some(c) => {
            let k = trim(grp(c, 1));
            is_ignored_key(k) && k != "备注"@ && k != "技能名"@ && !is_skill_field(k)
        },
        None => false,
    }
}

proof fn lemma_combat_same_suffix(
    x1: Seq<Seq<char>>,
    x2: Seq<Seq<char>>,
    y: Seq<Seq<char>>,
    grids: Seq<(Seq<char>, Seq<char>)>,
)
    requires
        combat_lines(x1, grids) == combat_lines(x2, grids),
    ensures
        combat_lines(x1 + y, grids) == combat_lines(x2 + y, grids),
    decreases y.len(),
{
    if y.len() == 0 {
        assert(x1 + y =~= x1);
        assert(x2 + y =~= x2);
    } else {
        lemma_combat_same_suffix(x1, x2, y.drop_last(), grids);
        assert((x1 + y).drop_last() =~= x1 + y.drop_last());
        assert((x2 + y).drop_last() =~= x2 + y.drop_last());
    }
}

/// A line with a skipped key leaves the combat output as it is, wherever it stands.
pub proof fn law_ignored_param_line_changes_nothing(
    before: Seq<Seq<char>>,
    after: Seq<Seq<char>>,
    line: Seq<char>,
    modules_raw: Option<Seq<char>>,
    grids: Seq<(Seq<char>, Seq<char>)>,
)
    ensures
        ignored_param_line(line) ==> forall|st: CombatRead| #[trigger] combat_step(st, line, grids) == st,
        ignored_param_line(line) ==> combat_output(before.push(line) + after, modules_raw, grids)
            == combat_output(before + after, modules_raw, grids),
{
    if ignored_param_line(line) {
        let st = combat_lines(before, grids);
        assert(before.push(line).drop_last() =~= before);
        assert(combat_step(st, line, grids) == st);
        lemma_combat_same_suffix(before.push(line), before, after, grids);
    }
}

/// The headers of the parts of the combat output, in the order in which they come.
pub open spec fn combat_headers() -> Seq<Seq<char>> {
    seq!["### 属性"@, "### 攻击范围"@, "### 天赋"@, "### 潜能"@, "### 技能"@, "### 召唤物"@, "### 模组"@]
}

/// The parts of the combat output: attributes, range, talents, potentials, skills,
/// summons and modules, each empty where there is nothing to show.
pub open spec fn combat_parts(
    ls: Seq<Seq<char>>,
    modules_raw: Option<Seq<char>>,
    grids: Seq<(Seq<char>, Seq<char>)>,
) -> Seq<Seq<Seq<char>>> {
    let st = combat_lines(ls, grids);
    seq![
        if st.attrs.len() > 0 {
            attributes_output(st.attrs)
        } else {
            Seq::empty()
        },
        titled("### 攻击范围"@, st.range),
        if st.talents.len() > 0 {
            talents_output(st.talents)
        } else {
            Seq::empty()
        },
        if st.pots.len() > 0 {
            potentials_output(st.pots)
        } else {
            Seq::empty()
        },
        if st.skills.len() > 0 {
            skills_output(st.skills)
        } else {
            Seq::empty()
        },
        titled("### 召唤物"@, st.summons),
        match modules_raw {
            Some(raw) => titled("### 模组"@, modules_output(raw)),
            None => Seq::empty(),
        },
    ]
}

/// The combat output is its seven parts one after another, in a fixed order (attributes,
/// range, talents, potentials, skills, summons, modules); each part is either left out
/// or begins with its own header, so each header stands at most once, in that order.
pub proof fn law_combat_parts_in_order(
    ls: Seq<Seq<char>>,
    modules_raw: Option<Seq<char>>,
    grids: Seq<(Seq<char>, Seq<char>)>,
)
    ensures
        ({
            let p = combat_parts(ls, modules_raw, grids);
            &&& p.len() == 7
            &&& combat_output(ls, modules_raw, grids) == p[0] + p[1] + p[2] + p[3] + p[4] + p[5] + p[6]
            &&& forall|i: int| 0 <= i < 7 ==> p[i].len() == 0 || (#[trigger] p[i])[0] == combat_headers()[i]
            &&& forall|i: int, j: int| 0 <= i < j < 7 ==> #[trigger] combat_headers()[i] != #[trigger] combat_headers()[j]
        }),
{
    reveal_strlit("### 属性");
    reveal_strlit("### 攻击范围");
    reveal_strlit("### 天赋");
    reveal_strlit("### 潜能");
    reveal_strlit("### 技能");
    reveal_strlit("### 召唤物");
    reveal_strlit("### 模组");
    let hs = combat_headers();
    let marks = seq!['属', '攻', '天', '潜', '技', '召', '模'];
    assert forall|i: int| 0 <= i < 7 implies (#[trigger] hs[i]).len() > 4 && hs[i][4] == marks[i] by {}
    assert forall|i: int, j: int| 0 <= i < j < 7 implies #[trigger] hs[i] != #[trigger] hs[j] by {
        assert(hs[i][4] != hs[j][4]);
    }
    let p = combat_parts(ls, modules_raw, grids);
    assert(combat_output(ls, modules_raw, grids) =~= p[0] + p[1] + p[2] + p[3] + p[4] + p[5] + p[6]);
    let st = combat_lines(ls, grids);
    if st.attrs.len() > 0 {
        assert(attributes_output(st.attrs)[0] == "### 属性"@);
    }
    if st.talents.len() > 0 {
        assert(talents_output(st.talents)[0] == "### 天赋"@);
    }
    if st.pots.len() > 0 {
        assert(potentials_output(st.pots)[0] == "### 潜能"@);
    }
    if st.skills.len() > 0 {
        assert(skills_output(st.skills)[0] == "### 技能"@);
    }
}

/// A field outside the skills lands by its key: one naming a talent (`天赋`) in the
/// talents, else one naming a range (`范围`) in the range part, else one naming a
/// potential (`潜能`) in the potentials, the reading switching to that part; a key that
/// is neither of these nor an attribute key goes to the part in force. A key other than
/// a range is shown as `- **key**: value`; a range whose grid is known shows the grid.
pub proof fn law_field_routing(st: CombatRead, k: Seq<char>, v: Seq<char>, grids: Seq<(Seq<char>, Seq<char>)>)
    ensures
        !is_ignored_key(k) && contains(k, "天赋"@) && !ends_with(k, "范围"@) ==> route_field(st, k, v, grids) == (
        CombatRead { talents: st.talents.push("- **"@ + k + "**: "@ + one_line(v)), cur: Sub::Talents, ..st }),
        !is_ignored_key(k) && !contains(k, "天赋"@) && contains(k, "范围"@) ==> route_field(st, k, v, grids).range
            == st.range.push(
            if ends_with(k, "范围"@) {
                range_line(k, v, grids, "**: "@)
            } else {
                prop_line(k, v)
            },
        ) && route_field(st, k, v, grids).cur == Sub::Range && route_field(st, k, v, grids).attrs == st.attrs,
        !is_ignored_key(k) && !contains(k, "天赋"@) && !contains(k, "范围"@) && contains(k, "潜能"@) && !ends_with(
            k,
            "范围"@,
        ) ==> route_field(st, k, v, grids) == (CombatRead {
            pots: st.pots.push("- **"@ + k + "**: "@ + one_line(v)),
            cur: Sub::Potentials,
            ..st
        }),
        is_ignored_key(k) ==> route_field(st, k, v, grids) == st,
        match first_value(grids, v) {
            Some(g) => g != v ==> range_line(k, v, grids, "**: "@) == "- **"@ + k + "**: "@ + "\n```text\n"@ + g
                + "\n```"@,
            None => range_line(k, v, grids, "**: "@) == "- **"@ + k + "**: "@ + one_line(v),
        },
{
    let r = route_field(st, k, v, grids);
    if !is_ignored_key(k) && contains(k, "天赋"@) && !ends_with(k, "范围"@) {
        assert(r =~= CombatRead { talents: st.talents.push("- **"@ + k + "**: "@ + one_line(v)), cur: Sub::Talents, ..st });
    }
    if !is_ignored_key(k) && !contains(k, "天赋"@) && !contains(k, "范围"@) && contains(k, "潜能"@) && !ends_with(k, "范围"@) {
        assert(r =~= CombatRead { pots: st.pots.push("- **"@ + k + "**: "@ + one_line(v)), cur: Sub::Potentials, ..st });
    }
}

/// A `### title` line switches the reading to the part its title names: attributes or
/// the panel (`属性`, `面板`), else the range (`范围`), else talents or the trait (`天赋`,
/// `特性`), else potentials (`潜能`), else modules (`模块`, `模组`), else summons
/// (`召唤物`), else skills (`技能`); a title naming none keeps the part in force.
pub proof fn law_header_switching(h: Seq<char>, cur: Sub)
    ensures
        contains(h, "属性"@) || contains(h, "面板"@) ==> header_sub(h, cur) == Sub::Attributes,
        !(contains(h, "属性"@) || contains(h, "面板"@)) && contains(h, "范围"@) ==> header_sub(h, cur) == Sub::Range,
        !(contains(h, "属性"@) || contains(h, "面板"@) || contains(h, "范围"@)) && (contains(h, "天赋"@) || contains(
            h,
            "特性"@,
        )) ==> header_sub(h, cur) == Sub::Talents,
        !(contains(h, "属性"@) || contains(h, "面板"@) || contains(h, "范围"@) || contains(h, "天赋"@) || contains(
            h,
            "特性"@,
        )) && contains(h, "潜能"@) ==> header_sub(h, cur) == Sub::Potentials,
        !(contains(h, "属性"@) || contains(h, "面板"@) || contains(h, "范围"@) || contains(h, "天赋"@) || contains(
            h,
            "特性"@,
        ) || contains(h, "潜能"@)) && (contains(h, "模块"@) || contains(h, "模组"@)) ==> header_sub(h, cur)
            == Sub::Modules,
        !(contains(h, "属性"@) || contains(h, "面板"@) || contains(h, "范围"@) || contains(h, "天赋"@) || contains(
            h,
            "特性"@,
        ) || contains(h, "潜能"@) || contains(h, "模块"@) || contains(h, "模组"@)) && contains(h, "召唤物"@)
            ==> header_sub(h, cur) == Sub::Summons,
        !(contains(h, "属性"@) || contains(h, "面板"@) || contains(h, "范围"@) || contains(h, "天赋"@) || contains(
            h,
            "特性"@,
        ) || contains(h, "潜能"@) || contains(h, "模块"@) || contains(h, "模组"@) || contains(h, "召唤物"@))
            && contains(h, "技能"@) ==> header_sub(h, cur) == Sub::Skills,
        !(contains(h, "属性"@) || contains(h, "面板"@) || contains(h, "范围"@) || contains(h, "天赋"@) || contains(
            h,
            "特性"@,
        ) || contains(h, "潜能"@) || contains(h, "模块"@) || contains(h, "模组"@) || contains(h, "召唤物"@)
            || contains(h, "技能"@)) ==> header_sub(h, cur) == cur,
{
}

} // verus!
