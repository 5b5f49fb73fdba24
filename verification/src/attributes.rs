//! The attributes and potentials blocks of the combat data.
use vstd::prelude::*;
use crate::md::{clone_lines, extend, push_line, push_str_line, repeat_cell, repeat_cell_exec, row, row_exec};
use crate::modules::{first_value, lookup_str, pair_views};
use crate::patterns::{captures, grp, regex_first_captures};
use crate::strops::{join, join_str, replace, replace_str};
use crate::text::{append, chars_of, contains, contains_str, eq, eq_str, views};

verus! {

/// A stat line: `- **<phase>_<stat>**: value`.
pub const PAT_STAT: &'static str = "^- \\*\\*(.*?)_(生命上限|攻击|防御|法术抗性)\\*\\*: (.*)$";

/// A base property line.
pub const PAT_BASE_PROP: &'static str = "^- \\*\\*(再部署|部署费用|阻挡数|攻击速度|所属势力|隐藏势力|势力|职业|分支|特性)\\*\\*: (.*)$";

/// A potential line: `- **潜能N**: value`.
pub const PAT_POT: &'static str = "^- \\*\\*潜能(\\d+)\\*\\*: (.*)$";

/// A stat value recorded for a phase: (stat, phase, value).
pub type StatEntry = (Seq<char>, Seq<char>, Seq<char>);

/// First pass over the attribute lines: the phases in order of first appearance,
/// the stat values recorded, and the other lines.
#[verifier::ext_equal]
pub struct StatRead {
    pub phases: Seq<Seq<char>>,
    pub stats: Seq<StatEntry>,
    pub others: Seq<Seq<char>>,
}

pub open spec fn stat_step(st: StatRead, line: Seq<char>) -> StatRead {
    match regex_first_captures(PAT_STAT@, line) {
        Some(c) => {
            let phase = grp(c, 1);
            if phase == "信赖加成"@ {
                StatRead { others: st.others.push(line), ..st }
            } else {
                StatRead {
                    phases: if st.phases.contains(phase) {
                        st.phases
                    } else {
                        st.phases.push(phase)
                    },
                    stats: st.stats.push((grp(c, 2), phase, grp(c, 3))),
                    others: st.others,
                }
            }
        },
        None => StatRead { others: st.others.push(line), ..st },
    }
}

pub open spec fn stat_lines(ls: Seq<Seq<char>>) -> StatRead
    decreases ls.len(),
{
    if ls.len() == 0 {
        StatRead { phases: Seq::empty(), stats: Seq::empty(), others: Seq::empty() }
    } else {
        stat_step(stat_lines(ls.drop_last()), ls.last())
    }
}

/// Whether some entry of the log has the key `stat`.
pub open spec fn logged_key(log: Seq<StatEntry>, stat: Seq<char>) -> bool {
    exists|i: int| 0 <= i < log.len() && (#[trigger] log[i]).0 == stat
}

/// The value of the last entry of the log under the keys `stat` and `phase`.
pub open spec fn logged_value(log: Seq<StatEntry>, stat: Seq<char>, phase: Seq<char>) -> Option<Seq<char>>
    decreases log.len(),
{
    if log.len() == 0 {
        None
    } else if log.last().0 == stat && log.last().1 == phase {
        Some(log.last().2)
    } else {
        logged_value(log.drop_last(), stat, phase)
    }
}

/// A value, or `-` where there is none.
pub open spec fn or_dash(v: Option<Seq<char>>) -> Seq<char> {
    match v {
        Some(x) => x,
        None => "-"@,
    }
}

/// The cells of `stat` across the phases.
pub open spec fn stat_cells(log: Seq<StatEntry>, stat: Seq<char>, phases: Seq<Seq<char>>) -> Seq<Seq<char>> {
    phases.map_values(|p: Seq<char>| or_dash(logged_value(log, stat, p)))
}

/// The table row of `stat`, if any value was recorded for it.
pub open spec fn stat_row(log: Seq<StatEntry>, stat: Seq<char>, phases: Seq<Seq<char>>) -> Seq<Seq<char>> {
    if logged_key(log, stat) {
        seq![row(seq![stat] + stat_cells(log, stat, phases))]
    } else {
        Seq::empty()
    }
}

/// Second pass: the base properties (first value of each key kept on lookup), the main
/// and the hidden factions.
#[verifier::ext_equal]
pub struct PropRead {
    pub base: Seq<(Seq<char>, Seq<char>)>,
    pub main: Seq<Seq<char>>,
    pub hidden: Seq<Seq<char>>,
}

pub open spec fn prop_step(st: PropRead, line: Seq<char>) -> PropRead {
    match regex_first_captures(PAT_BASE_PROP@, line) {
        Some(c) => {
            let key = grp(c, 1);
            let val = grp(c, 2);
            if contains(key, "势力"@) {
                if val.len() > 0 && val != "无"@ && val != "——"@ {
                    if key == "隐藏势力"@ {
                        PropRead { hidden: st.hidden.push(val), ..st }
                    } else {
                        PropRead { main: st.main.push(val), ..st }
                    }
                } else {
                    st
                }
            } else {
                PropRead { base: st.base.push((key, val)), ..st }
            }
        },
        None => st,
    }
}

pub open spec fn prop_lines(ls: Seq<Seq<char>>) -> PropRead
    decreases ls.len(),
{
    if ls.len() == 0 {
        PropRead { base: Seq::empty(), main: Seq::empty(), hidden: Seq::empty() }
    } else {
        prop_step(prop_lines(ls.drop_last()), ls.last())
    }
}

/// The class line: the class, then the branch after ` - ` if there is one.
pub open spec fn job_line(base: Seq<(Seq<char>, Seq<char>)>) -> Seq<Seq<char>> {
    match first_value(base, "职业"@) {
        Some(job) => {
            let branch = match first_value(base, "分支"@) {
                Some(b) => " - "@ + b,
                None => Seq::empty(),
            };
            seq!["- **职业**: "@ + job + branch]
        },
        None => Seq::empty(),
    }
}

/// The class line and the branch description line.
pub open spec fn class_lines(base: Seq<(Seq<char>, Seq<char>)>) -> Seq<Seq<char>> {
    job_line(base) + match first_value(base, "特性"@) {
        Some(t) => seq!["- **分支描述**: "@ + t],
        None => Seq::empty(),
    }
}

/// The deployment table.
pub open spec fn deploy_lines(base: Seq<(Seq<char>, Seq<char>)>) -> Seq<Seq<char>> {
    if base.len() == 0 {
        Seq::empty()
    } else {
        seq![
            row(
                seq![
                    "再部署时间"@,
                    or_dash(first_value(base, "再部署"@)),
                    "初始部署费用"@,
                    or_dash(first_value(base, "部署费用"@)),
                ],
            ),
            "| :---: | :---: | :---: | :---: |"@,
            row(
                seq![
                    "阻挡数"@,
                    or_dash(first_value(base, "阻挡数"@)),
                    "攻击间隔"@,
                    or_dash(first_value(base, "攻击速度"@)),
                ],
            ),
            Seq::empty(),
        ]
    }
}

/// The phase names as column titles (`_` read as a space).
pub open spec fn phase_titles(phases: Seq<Seq<char>>) -> Seq<Seq<char>> {
    phases.map_values(|p: Seq<char>| replace(p, "_"@, " "@))
}

/// The stats table.
pub open spec fn stats_table(s: StatRead) -> Seq<Seq<char>> {
    if s.phases.len() == 0 {
        Seq::empty()
    } else {
        let header = seq!["状态 \\ 属性"@] + phase_titles(s.phases);
        seq![row(header), row(repeat_cell(":---:"@, header.len()))] + stat_row(
            s.stats,
            "生命上限"@,
            s.phases,
        ) + stat_row(s.stats, "攻击"@, s.phases) + stat_row(s.stats, "防御"@, s.phases) + stat_row(
            s.stats,
            "法术抗性"@,
            s.phases,
        ) + seq![Seq::empty()]
    }
}

/// A faction list, or `无` where it is empty.
pub open spec fn faction_text(fs: Seq<Seq<char>>) -> Seq<char> {
    if fs.len() == 0 {
        "无"@
    } else {
        join(fs, ", "@)
    }
}

/// The attributes block.
pub open spec fn attributes_output(ls: Seq<Seq<char>>) -> Seq<Seq<char>> {
    let s = stat_lines(ls);
    let p = prop_lines(s.others);
    seq!["### 属性"@] + class_lines(p.base) + seq![Seq::empty()] + deploy_lines(p.base)
        + stats_table(s) + seq![
        "- **所属势力**: "@ + faction_text(p.main),
        "- **隐藏势力**: "@ + faction_text(p.hidden),
        Seq::empty(),
    ]
}

/// Reading of the potentials lines: the table rows and the other lines.
pub open spec fn pot_step(st: (Seq<Seq<char>>, Seq<Seq<char>>), line: Seq<char>) -> (
    Seq<Seq<char>>,
    Seq<Seq<char>>,
) {
    match regex_first_captures(PAT_POT@, line) {
        Some(c) => (st.0.push("| "@ + grp(c, 1) + " | "@ + grp(c, 2) + " |"@), st.1),
        None => if contains(line, "潜能"@) {
            st
        } else {
            (st.0, st.1.push(line))
        },
    }
}

pub open spec fn pot_lines(ls: Seq<Seq<char>>) -> (Seq<Seq<char>>, Seq<Seq<char>>)
    decreases ls.len(),
{
    if ls.len() == 0 {
        (Seq::empty(), Seq::empty())
    } else {
        pot_step(pot_lines(ls.drop_last()), ls.last())
    }
}

/// The potentials block: other lines first, then the table of potential levels.
pub open spec fn potentials_output(ls: Seq<Seq<char>>) -> Seq<Seq<char>> {
    let (table, others) = pot_lines(ls);
    seq!["### 潜能"@] + (if others.len() > 0 {
        others.push(Seq::empty())
    } else {
        Seq::empty()
    }) + (if table.len() > 0 {
        seq!["| 潜能级别 | 属性跃升 |"@, "| :---: | :--- |"@] + table
    } else {
        Seq::empty()
    }) + seq![Seq::empty()]
}

// ─── executable ───────────────────────────────────────────────

/// The view of a list of stat entries.
pub open spec fn entry_views(v: Seq<(Vec<char>, Vec<char>, Vec<char>)>) -> Seq<StatEntry> {
    v.map_values(|e: (Vec<char>, Vec<char>, Vec<char>)| (e.0@, e.1@, e.2@))
}

struct StatAcc {
    phases: Vec<Vec<char>>,
    stats: Vec<(Vec<char>, Vec<char>, Vec<char>)>,
    others: Vec<Vec<char>>,
}

impl StatAcc {
    spec fn state(&self) -> StatRead {
        StatRead { phases: views(self.phases@), stats: entry_views(self.stats@), others: views(self.others@) }
    }
}

fn lines_contain(v: &Vec<Vec<char>>, x: &Vec<char>) -> (r: bool)
    ensures
        r == views(v@).contains(x@),
{
    let mut i: usize = 0;
    while i < v.len()
        invariant
            i <= v@.len(),
            forall|k: int| 0 <= k < i ==> v@[k]@ != x@,
        decreases v.len() - i,
    {
        if eq(&v[i], x) {
            assert(views(v@)[i as int] == x@);
            return true;
        }
        i = i + 1;
    }
    assert(!views(v@).contains(x@)) by {
        if views(v@).contains(x@) {
            let k = choose|k: int| 0 <= k < views(v@).len() && views(v@)[k] == x@;
            assert(v@[k]@ == x@);
        }
    }
    false
}

fn stat_step_exec(acc: &mut StatAcc, line: &Vec<char>)
    ensures
        final(acc).state() == stat_step(old(acc).state(), line@),
{
    let ghost st = acc.state();
    match captures(PAT_STAT, line) {
        Some(c) => {
            let phase = c.get(1);
            if eq_str(&phase, "信赖加成") {
                push_line(&mut acc.others, line.clone());
            } else {
                if !lines_contain(&acc.phases, &phase) {
                    push_line(&mut acc.phases, phase.clone());
                }
                let e = (c.get(2), phase, c.get(3));
                let ghost ev = (e.0@, e.1@, e.2@);
                acc.stats.push(e);
                assert(entry_views(acc.stats@) =~= st.stats.push(ev));
            }
        },
        None => {
            push_line(&mut acc.others, line.clone());
        },
    }
    assert(acc.state() =~= stat_step(st, line@));
}

fn stat_lines_exec(ls: &Vec<Vec<char>>) -> (r: StatAcc)
    ensures
        r.state() == stat_lines(views(ls@)),
{
    let mut acc = StatAcc { phases: Vec::new(), stats: Vec::new(), others: Vec::new() };
    assert(acc.state() =~= stat_lines(Seq::empty()));
    let mut i: usize = 0;
    while i < ls.len()
        invariant
            i <= ls@.len(),
            acc.state() == stat_lines(views(ls@).take(i as int)),
        decreases ls.len() - i,
    {
        assert(views(ls@).take(i + 1).drop_last() =~= views(ls@).take(i as int));
        assert(views(ls@).take(i + 1).last() == ls@[i as int]@);
        stat_step_exec(&mut acc, &ls[i]);
        i = i + 1;
    }
    assert(views(ls@).take(ls@.len() as int) =~= views(ls@));
    acc
}

/// Whether some entry of the log has the key `stat` (see `logged_key`).
pub fn logged_key_exec(log: &Vec<(Vec<char>, Vec<char>, Vec<char>)>, stat: &Vec<char>) -> (r: bool)
    ensures
        r == logged_key(entry_views(log@), stat@),
{
    let ghost lv = entry_views(log@);
    let mut i: usize = 0;
    while i < log.len()
        invariant
            i <= log@.len(),
            lv == entry_views(log@),
            forall|k: int| 0 <= k < i ==> (#[trigger] lv[k]).0 != stat@,
        decreases log.len() - i,
    {
        if eq(&log[i].0, stat) {
            assert(lv[i as int].0 == stat@);
            return true;
        }
        i = i + 1;
    }
    false
}

/// The value of the last entry under `stat` and `phase` (see `logged_value`).
pub fn logged_value_exec(log: &Vec<(Vec<char>, Vec<char>, Vec<char>)>, stat: &Vec<char>, phase: &Vec<char>) -> (r: Option<Vec<char>>)
    ensures
        crate::text::opt_view(r) == logged_value(entry_views(log@), stat@, phase@),
{
    let ghost lv = entry_views(log@);
    let mut i: usize = log.len();
    assert(lv.take(lv.len() as int) =~= lv);
    while i > 0
        invariant
            i <= log@.len(),
            lv == entry_views(log@),
            logged_value(lv, stat@, phase@) == logged_value(lv.take(i as int), stat@, phase@),
        decreases i,
    {
        let ghost t = lv.take(i as int);
        assert(t.drop_last() =~= lv.take(i - 1));
        assert(t.last() == lv[i - 1]);
        if eq(&log[i - 1].0, stat) && eq(&log[i - 1].1, phase) {
            return Some(log[i - 1].2.clone());
        }
        i = i - 1;
    }
    None
}

fn stat_row_exec(log: &Vec<(Vec<char>, Vec<char>, Vec<char>)>, stat: &str, phases: &Vec<Vec<char>>) -> (r: Vec<Vec<char>>)
    ensures
        views(r@) == stat_row(entry_views(log@), stat@, views(phases@)),
{
    let sv = chars_of(stat);
    let mut out: Vec<Vec<char>> = Vec::new();
    if !logged_key_exec(log, &sv) {
        return out;
    }
    let ghost cells = stat_cells(entry_views(log@), stat@, views(phases@));
    let mut r: Vec<Vec<char>> = Vec::new();
    push_line(&mut r, sv.clone());
    let mut i: usize = 0;
    while i < phases.len()
        invariant
            i <= phases@.len(),
            sv@ == stat@,
            cells == stat_cells(entry_views(log@), stat@, views(phases@)),
            views(r@) == seq![stat@] + cells.take(i as int),
        decreases phases.len() - i,
    {
        let v = match logged_value_exec(log, &sv, &phases[i]) {
            Some(x) => x,
            None => chars_of("-"),
        };
        push_line(&mut r, v);
        assert(cells.take(i + 1) =~= cells.take(i as int).push(cells[i as int]));
        i = i + 1;
    }
    assert(cells.take(phases@.len() as int) =~= cells);
    push_line(&mut out, row_exec(&r));
    assert(views(out@) =~= stat_row(entry_views(log@), stat@, views(phases@)));
    out
}

struct PropAcc {
    base: Vec<(Vec<char>, Vec<char>)>,
    main: Vec<Vec<char>>,
    hidden: Vec<Vec<char>>,
}

impl PropAcc {
    spec fn state(&self) -> PropRead {
        PropRead { base: pair_views(self.base@), main: views(self.main@), hidden: views(self.hidden@) }
    }
}

fn prop_step_exec(acc: &mut PropAcc, line: &Vec<char>)
    ensures
        final(acc).state() == prop_step(old(acc).state(), line@),
{
    let ghost st = acc.state();
    match captures(PAT_BASE_PROP, line) {
        Some(c) => {
            let key = c.get(1);
            let val = c.get(2);
            if contains_str(&key, "势力") {
                if val.len() > 0 && !eq_str(&val, "无") && !eq_str(&val, "——") {
                    if eq_str(&key, "隐藏势力") {
                        push_line(&mut acc.hidden, val);
                    } else {
                        push_line(&mut acc.main, val);
                    }
                }
            } else {
                let ghost kv = (key@, val@);
                acc.base.push((key, val));
                assert(pair_views(acc.base@) =~= st.base.push(kv));
            }
        },
        None => {},
    }
    assert(acc.state() =~= prop_step(st, line@));
}

fn prop_lines_exec(ls: &Vec<Vec<char>>) -> (r: PropAcc)
    ensures
        r.state() == prop_lines(views(ls@)),
{
    let mut acc = PropAcc { base: Vec::new(), main: Vec::new(), hidden: Vec::new() };
    assert(acc.state() =~= prop_lines(Seq::empty()));
    let mut i: usize = 0;
    while i < ls.len()
        invariant
            i <= ls@.len(),
            acc.state() == prop_lines(views(ls@).take(i as int)),
        decreases ls.len() - i,
    {
        assert(views(ls@).take(i + 1).drop_last() =~= views(ls@).take(i as int));
        assert(views(ls@).take(i + 1).last() == ls@[i as int]@);
        prop_step_exec(&mut acc, &ls[i]);
        i = i + 1;
    }
    assert(views(ls@).take(ls@.len() as int) =~= views(ls@));
    acc
}

fn lookup_or_dash(base: &Vec<(Vec<char>, Vec<char>)>, k: &str) -> (r: Vec<char>)
    ensures
        r@ == or_dash(first_value(pair_views(base@), k@)),
{
    match lookup_str(base, k) {
        Some(x) => x,
        None => chars_of("-"),
    }
}

fn class_lines_exec(base: &Vec<(Vec<char>, Vec<char>)>) -> (r: Vec<Vec<char>>)
    ensures
        views(r@) == class_lines(pair_views(base@)),
{
    let ghost bv = pair_views(base@);
    let mut out: Vec<Vec<char>> = Vec::new();
    match lookup_str(base, "职业") {
        Some(job) => {
            let mut l = chars_of("- **职业**: ");
            append(&mut l, &job);
            match lookup_str(base, "分支") {
                Some(b) => {
                    crate::text::append_str(&mut l, " - ");
                    append(&mut l, &b);
                    assert(l@ =~= "- **职业**: "@ + job@ + (" - "@ + b@));
                },
                None => {
                    assert(l@ =~= "- **职业**: "@ + job@ + Seq::<char>::empty());
                },
            }
            push_line(&mut out, l);
        },
        None => {},
    }
    let ghost first_part = views(out@);
    assert(first_part =~= job_line(bv));
    match lookup_str(base, "特性") {
        Some(t) => {
            let mut l = chars_of("- **分支描述**: ");
            append(&mut l, &t);
            push_line(&mut out, l);
        },
        None => {},
    }
    assert(views(out@) =~= class_lines(bv));
    out
}

fn deploy_lines_exec(base: &Vec<(Vec<char>, Vec<char>)>) -> (r: Vec<Vec<char>>)
    ensures
        views(r@) == deploy_lines(pair_views(base@)),
{
    let mut out: Vec<Vec<char>> = Vec::new();
    if base.len() == 0 {
        return out;
    }
    let mut a: Vec<Vec<char>> = Vec::new();
    push_str_line(&mut a, "再部署时间");
    push_line(&mut a, lookup_or_dash(base, "再部署"));
    push_str_line(&mut a, "初始部署费用");
    push_line(&mut a, lookup_or_dash(base, "部署费用"));
    let ghost bv = pair_views(base@);
    assert(views(a@) =~= seq![
        "再部署时间"@,
        or_dash(first_value(bv, "再部署"@)),
        "初始部署费用"@,
        or_dash(first_value(bv, "部署费用"@)),
    ]);
    push_line(&mut out, row_exec(&a));
    push_str_line(&mut out, "| :---: | :---: | :---: | :---: |");
    let mut b: Vec<Vec<char>> = Vec::new();
    push_str_line(&mut b, "阻挡数");
    push_line(&mut b, lookup_or_dash(base, "阻挡数"));
    push_str_line(&mut b, "攻击间隔");
    push_line(&mut b, lookup_or_dash(base, "攻击速度"));
    assert(views(b@) =~= seq![
        "阻挡数"@,
        or_dash(first_value(bv, "阻挡数"@)),
        "攻击间隔"@,
        or_dash(first_value(bv, "攻击速度"@)),
    ]);
    push_line(&mut out, row_exec(&b));
    push_line(&mut out, Vec::new());
    assert(views(out@) =~= deploy_lines(pair_views(base@)));
    out
}

fn stats_table_exec(s: &StatAcc) -> (r: Vec<Vec<char>>)
    ensures
        views(r@) == stats_table(s.state()),
{
    let mut out: Vec<Vec<char>> = Vec::new();
    if s.phases.len() == 0 {
        return out;
    }
    let ghost pv = views(s.phases@);
    let mut header: Vec<Vec<char>> = Vec::new();
    push_str_line(&mut header, "状态 \\ 属性");
    let mut i: usize = 0;
    while i < s.phases.len()
        invariant
            i <= s.phases@.len(),
            pv == views(s.phases@),
            views(header@) == seq!["状态 \\ 属性"@] + phase_titles(pv).take(i as int),
        decreases s.phases.len() - i,
    {
        let sp = chars_of(" ");
        proof {
            reveal_strlit("_");
        }
        let t = replace_str(&s.phases[i], "_", &sp);
        push_line(&mut header, t);
        assert(phase_titles(pv).take(i + 1) =~= phase_titles(pv).take(i as int).push(
            replace(pv[i as int], "_"@, " "@),
        ));
        i = i + 1;
    }
    assert(phase_titles(pv).take(s.phases@.len() as int) =~= phase_titles(pv));
    push_line(&mut out, row_exec(&header));
    let divs = repeat_cell_exec(":---:", header.len());
    push_line(&mut out, row_exec(&divs));
    let r1 = stat_row_exec(&s.stats, "生命上限", &s.phases);
    extend(&mut out, r1);
    let r2 = stat_row_exec(&s.stats, "攻击", &s.phases);
    extend(&mut out, r2);
    let r3 = stat_row_exec(&s.stats, "防御", &s.phases);
    extend(&mut out, r3);
    let r4 = stat_row_exec(&s.stats, "法术抗性", &s.phases);
    extend(&mut out, r4);
    push_line(&mut out, Vec::new());
    assert(views(out@) =~= stats_table(s.state()));
    out
}

fn faction_text_exec(fs: &Vec<Vec<char>>) -> (r: Vec<char>)
    ensures
        r@ == faction_text(views(fs@)),
{
    if fs.len() == 0 {
        chars_of("无")
    } else {
        join_str(fs, ", ")
    }
}

/// The attributes block of the combat data: class and branch, deployment table, stats
/// by phase, and factions.
pub fn render_attributes_chars(ls: &Vec<Vec<char>>) -> (r: Vec<Vec<char>>)
    ensures
        views(r@) == attributes_output(views(ls@)),
{
    let s = stat_lines_exec(ls);
    let p = prop_lines_exec(&s.others);
    let mut out: Vec<Vec<char>> = Vec::new();
    push_str_line(&mut out, "### 属性");
    let cl = class_lines_exec(&p.base);
    extend(&mut out, cl);
    push_line(&mut out, Vec::new());
    let dl = deploy_lines_exec(&p.base);
    extend(&mut out, dl);
    let st = stats_table_exec(&s);
    extend(&mut out, st);
    let mut m = chars_of("- **所属势力**: ");
    let mt = faction_text_exec(&p.main);
    append(&mut m, &mt);
    push_line(&mut out, m);
    let mut h = chars_of("- **隐藏势力**: ");
    let ht = faction_text_exec(&p.hidden);
    append(&mut h, &ht);
    push_line(&mut out, h);
    push_line(&mut out, Vec::new());
    assert(views(out@) =~= attributes_output(views(ls@)));
    out
}

fn pot_step_exec(table: &mut Vec<Vec<char>>, others: &mut Vec<Vec<char>>, line: &Vec<char>)
    ensures
        (views(final(table)@), views(final(others)@)) == pot_step(
            (views(old(table)@), views(old(others)@)),
            line@,
        ),
{
    match captures(PAT_POT, line) {
        Some(c) => {
            let mut l = chars_of("| ");
            let g1 = c.get(1);
            append(&mut l, &g1);
            crate::text::append_str(&mut l, " | ");
            let g2 = c.get(2);
            append(&mut l, &g2);
            crate::text::append_str(&mut l, " |");
            push_line(table, l);
        },
        None => {
            if !contains_str(line, "潜能") {
                push_line(others, line.clone());
            }
        },
    }
}

/// The potentials block of the combat data.
pub fn render_potentials_chars(ls: &Vec<Vec<char>>) -> (r: Vec<Vec<char>>)
    ensures
        views(r@) == potentials_output(views(ls@)),
{
    let mut table: Vec<Vec<char>> = Vec::new();
    let mut others: Vec<Vec<char>> = Vec::new();
    assert((views(table@), views(others@)) =~= pot_lines(Seq::empty()));
    let mut i: usize = 0;
    while i < ls.len()
        invariant
            i <= ls@.len(),
            (views(table@), views(others@)) == pot_lines(views(ls@).take(i as int)),
        decreases ls.len() - i,
    {
        assert(views(ls@).take(i + 1).drop_last() =~= views(ls@).take(i as int));
        assert(views(ls@).take(i + 1).last() == ls@[i as int]@);
        pot_step_exec(&mut table, &mut others, &ls[i]);
        i = i + 1;
    }
    assert(views(ls@).take(ls@.len() as int) =~= views(ls@));
    let mut out: Vec<Vec<char>> = Vec::new();
    push_str_line(&mut out, "### 潜能");
    if others.len() > 0 {
        extend(&mut out, others);
        push_line(&mut out, Vec::new());
    }
    if table.len() > 0 {
        push_str_line(&mut out, "| 潜能级别 | 属性跃升 |");
        push_str_line(&mut out, "| :---: | :--- |");
        extend(&mut out, table);
    }
    push_line(&mut out, Vec::new());
    assert(views(out@) =~= potentials_output(views(ls@)));
    out
}

/// Every stat row of the attributes table has as many cells as its head: the stat,
/// then one cell per phase.
pub proof fn law_stat_rows_fit_the_head(log: Seq<StatEntry>, stat: Seq<char>, phases: Seq<Seq<char>>)
    ensures
        (seq![stat] + stat_cells(log, stat, phases)).len() == (seq!["状态 \\ 属性"@] + phase_titles(
            phases,
        )).len(),
{
}

/// In the attributes block, the deployment table (where the page gives any basic field)
/// follows the class lines and a blank line: its first row gives the redeployment time
/// and the initial cost, its third row the block count and the attack interval, each
/// the first value the page gives for `再部署`, `部署费用`, `阻挡数` and `攻击速度`
/// respectively, or `-` where it gives none.
pub proof fn law_deployment_table_cells(ls: Seq<Seq<char>>)
    ensures
        ({
            let base = prop_lines(stat_lines(ls).others).base;
            let out = attributes_output(ls);
            let at = class_lines(base).len() as int + 2;
            base.len() > 0 ==> {
                &&& out[at] == row(
                    seq![
                        "再部署时间"@,
                        or_dash(first_value(base, "再部署"@)),
                        "初始部署费用"@,
                        or_dash(first_value(base, "部署费用"@)),
                    ],
                )
                &&& out[at + 2] == row(
                    seq![
                        "阻挡数"@,
                        or_dash(first_value(base, "阻挡数"@)),
                        "攻击间隔"@,
                        or_dash(first_value(base, "攻击速度"@)),
                    ],
                )
            }
        }),
{
    let s = stat_lines(ls);
    let p = prop_lines(s.others);
    let base = p.base;
    if base.len() > 0 {
        let head = seq!["### 属性"@] + class_lines(base) + seq![Seq::<char>::empty()];
        let out = attributes_output(ls);
        let at = class_lines(base).len() as int + 2;
        assert(head.len() == at);
        assert(out == head + deploy_lines(base) + (stats_table(s) + seq![
            "- **所属势力**: "@ + faction_text(p.main),
            "- **隐藏势力**: "@ + faction_text(p.hidden),
            Seq::<char>::empty(),
        ]));
        assert(out[at] == deploy_lines(base)[0]);
        assert(out[at + 2] == deploy_lines(base)[2]);
    }
}

/// The value logged for a stat in a phase is the value of the last entry with that stat
/// and phase, and there is none where no entry has them.
pub proof fn law_logged_value_is_latest(log: Seq<StatEntry>, stat: Seq<char>, phase: Seq<char>)
    ensures
        forall|i: int|
            0 <= i < log.len() && (#[trigger] log[i]).0 == stat && log[i].1 == phase && (forall|j: int|
                i < j < log.len() ==> !(log[j].0 == stat && log[j].1 == phase)) ==> logged_value(log, stat, phase)
                == Some(log[i].2),
        (forall|i: int| 0 <= i < log.len() ==> !((#[trigger] log[i]).0 == stat && log[i].1 == phase))
            ==> logged_value(log, stat, phase) is None,
    decreases log.len(),
{
    if log.len() > 0 {
        let d = log.drop_last();
        law_logged_value_is_latest(d, stat, phase);
        assert forall|i: int|
            0 <= i < log.len() && (#[trigger] log[i]).0 == stat && log[i].1 == phase && (forall|j: int|
                i < j < log.len() ==> !(log[j].0 == stat && log[j].1 == phase)) implies logged_value(log, stat, phase)
                == Some(log[i].2) by {
            if i < log.len() - 1 {
                assert(!(log[log.len() - 1].0 == stat && log[log.len() - 1].1 == phase));
                assert(d[i] == log[i]);
                assert forall|j: int| i < j < d.len() implies !(d[j].0 == stat && d[j].1 == phase) by {
                    assert(d[j] == log[j]);
                }
            }
        }
        if forall|i: int| 0 <= i < log.len() ==> !((#[trigger] log[i]).0 == stat && log[i].1 == phase) {
            assert(!(log[log.len() - 1].0 == stat && log[log.len() - 1].1 == phase));
            assert forall|i: int| 0 <= i < d.len() implies !((#[trigger] d[i]).0 == stat && d[i].1 == phase) by {
                assert(d[i] == log[i]);
            }
        }
    }
}

/// In the stats table, the column of a phase is headed by the phase's name (`_` read as
/// a space), and a stat's cell in it is the value logged for the stat in that phase, or
/// `-`; a stat's row starts with its name.
pub proof fn law_stat_columns_by_phase(log: Seq<StatEntry>, stat: Seq<char>, phases: Seq<Seq<char>>)
    ensures
        ({
            let head = seq!["状态 \\ 属性"@] + phase_titles(phases);
            let cells = seq![stat] + stat_cells(log, stat, phases);
            &&& cells[0] == stat
            &&& forall|j: int|
                0 <= j < phases.len() ==> head[j + 1] == replace(#[trigger] phases[j], "_"@, " "@) && cells[j + 1]
                    == or_dash(logged_value(log, stat, phases[j]))
        }),
{
    let head = seq!["状态 \\ 属性"@] + phase_titles(phases);
    let cells = seq![stat] + stat_cells(log, stat, phases);
    assert forall|j: int| 0 <= j < phases.len() implies head[j + 1] == replace(#[trigger] phases[j], "_"@, " "@)
        && cells[j + 1] == or_dash(logged_value(log, stat, phases[j])) by {
        assert(head[j + 1] == phase_titles(phases)[j]);
        assert(cells[j + 1] == stat_cells(log, stat, phases)[j]);
    }
}

/// The class line reads `- **职业**: <class>`, followed by ` - <branch>` where the page
/// gives a branch, each the first value the page gives.
pub proof fn law_class_line(base: Seq<(Seq<char>, Seq<char>)>)
    ensures
        first_value(base, "职业"@) matches Some(job) ==> class_lines(base)[0] == "- **职业**: "@ + job + match first_value(
            base,
            "分支"@,
        ) {
            Some(b) => " - "@ + b,
            None => Seq::empty(),
        },
        first_value(base, "职业"@) is None ==> class_lines(base) == match first_value(base, "特性"@) {
            Some(t) => seq!["- **分支描述**: "@ + t],
            None => Seq::<Seq<char>>::empty(),
        },
{
}

} // verus!
