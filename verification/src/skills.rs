//! The skills block of the combat data: per skill its type, properties, description
//! and a table of its values by level.
use vstd::prelude::*;
use crate::attributes::{entry_views, logged_key, logged_key_exec, logged_value, logged_value_exec, StatEntry};
use crate::md::{
    clone_lines, extend, flat, push_line, push_str_line, repeat_cell, repeat_cell_exec, row,
    row_exec, var_names, var_names_exec,
};
use crate::strops::{decimal, decimal_exec, join, join_str};
use crate::text::{append, chars_of, eq_str, opt_view, views};
use crate::wikitext::{br_to, br_to_exec, clean_chars, cleaned, extract_vars_chars, vars_stage2, vars_values};

verus! {

/// A skill: name, type texts, property lines, notes, and its level values as a log of
/// (level, field, value) entries, the last entry for a level and field being the one kept.
#[verifier::ext_equal]
pub struct SkillModel {
    pub name: Seq<char>,
    pub types: Seq<Seq<char>>,
    pub base_props: Seq<Seq<char>>,
    pub notes: Seq<Seq<char>>,
    pub levels: Seq<StatEntry>,
}

/// The levels a table may show, in order.
pub open spec fn level_order() -> Seq<Seq<char>> {
    seq!["1"@, "2"@, "3"@, "4"@, "5"@, "6"@, "7"@, "专精1"@, "专精2"@, "专精3"@]
}

/// The levels of `order` that the skill has values for.
pub open spec fn levels_used_of(levels: Seq<StatEntry>, order: Seq<Seq<char>>) -> Seq<Seq<char>> {
    order.filter(|l: Seq<char>| logged_key(levels, l))
}

pub open spec fn levels_used(levels: Seq<StatEntry>) -> Seq<Seq<char>> {
    levels_used_of(levels, level_order())
}

/// How a level is shown: the mastery levels as `RANK I` to `RANK III`.
pub open spec fn level_title(k: Seq<char>) -> Seq<char> {
    if k == "专精1"@ {
        "RANK I"@
    } else if k == "专精2"@ {
        "RANK II"@
    } else if k == "专精3"@ {
        "RANK III"@
    } else {
        k
    }
}

/// The description of a level, `-` where there is none.
pub open spec fn level_desc(levels: Seq<StatEntry>, k: Seq<char>) -> Seq<char> {
    match logged_value(levels, k, "描述"@) {
        Some(d) => d,
        None => "-"@,
    }
}

/// A field of a level, cleaned, or `-` where there is none.
pub open spec fn level_cell(levels: Seq<StatEntry>, k: Seq<char>, field: Seq<char>) -> Seq<char> {
    match logged_value(levels, k, field) {
        Some(v) => cleaned(v),
        None => "-"@,
    }
}

/// The first `n` variable cells of a level: each value cleaned, `-` past the last.
pub open spec fn var_cells(vars: Seq<Seq<char>>, n: nat) -> Seq<Seq<char>>
    decreases n,
{
    if n == 0 {
        Seq::empty()
    } else {
        var_cells(vars, (n - 1) as nat).push(
            if n - 1 < vars.len() {
                cleaned(vars[n - 1])
            } else {
                "-"@
            },
        )
    }
}

/// The cells of one level's row.
pub open spec fn level_cells(levels: Seq<StatEntry>, k: Seq<char>, n: nat) -> Seq<Seq<char>> {
    seq![level_title(k)] + var_cells(vars_values(level_desc(levels, k)), n) + seq![
        level_cell(levels, k, "初始"@),
        level_cell(levels, k, "消耗"@),
        level_cell(levels, k, "持续"@),
    ]
}

/// The table row of one level.
pub open spec fn level_row(levels: Seq<StatEntry>, k: Seq<char>, n: nat) -> Seq<char> {
    row(level_cells(levels, k, n))
}

/// The head cells of a level table with `n` variables.
pub open spec fn level_head(n: nat) -> Seq<Seq<char>> {
    seq!["等级"@] + var_names(n) + seq!["初始"@, "消耗"@, "持续"@]
}

pub open spec fn level_rows(levels: Seq<StatEntry>, used: Seq<Seq<char>>, n: nat) -> Seq<Seq<char>> {
    used.map_values(|k: Seq<char>| level_row(levels, k, n))
}

/// The description and level table of a skill (nothing if it has no level values).
pub open spec fn level_table(levels: Seq<StatEntry>) -> Seq<Seq<char>> {
    let used = levels_used(levels);
    if used.len() == 0 {
        Seq::empty()
    } else {
        let d = level_desc(levels, used[0]);
        let n = vars_values(d).len();
        seq![
            "- **技能描述**: "@ + br_to(cleaned(vars_stage2(d)), " "@),
            "\n"@ + row(level_head(n)),
            row(repeat_cell(":---"@, n + 4)),
        ] + level_rows(levels, used, n)
    }
}

/// The lines of the skill numbered `i + 1`.
pub open spec fn skill_block(i: nat, sk: SkillModel) -> Seq<Seq<char>> {
    seq!["\n#### "@ + sk.name, "- **技能序号**: "@ + decimal(i + 1)] + (if sk.types.len() > 0 {
        seq!["- **技能类型**: "@ + join(sk.types, " / "@)]
    } else {
        Seq::empty()
    }) + sk.base_props + level_table(sk.levels) + if sk.notes.len() > 0 {
        seq![Seq::empty()] + sk.notes
    } else {
        Seq::empty()
    }
}

pub open spec fn skill_blocks(sks: Seq<SkillModel>) -> Seq<Seq<Seq<char>>> {
    Seq::new(sks.len(), |i: int| skill_block(i as nat, sks[i]))
}

/// The skills block.
pub open spec fn skills_output(sks: Seq<SkillModel>) -> Seq<Seq<char>> {
    seq!["### 技能"@] + flat(skill_blocks(sks)) + seq![Seq::empty()]
}

// ─── executable ───────────────────────────────────────────────

/// A skill as read.
pub struct SkillData {
    pub name: Vec<char>,
    pub types: Vec<Vec<char>>,
    pub base_props: Vec<Vec<char>>,
    pub notes: Vec<Vec<char>>,
    pub levels: Vec<(Vec<char>, Vec<char>, Vec<char>)>,
}

impl SkillData {
    pub open spec fn model(&self) -> SkillModel {
        SkillModel {
            name: self.name@,
            types: views(self.types@),
            base_props: views(self.base_props@),
            notes: views(self.notes@),
            levels: entry_views(self.levels@),
        }
    }
}

pub open spec fn skill_models(sks: Seq<SkillData>) -> Seq<SkillModel> {
    sks.map_values(|s: SkillData| s.model())
}

fn level_order_exec() -> (r: Vec<Vec<char>>)
    ensures
        views(r@) == level_order(),
{
    let mut r: Vec<Vec<char>> = Vec::new();
    push_str_line(&mut r, "1");
    push_str_line(&mut r, "2");
    push_str_line(&mut r, "3");
    push_str_line(&mut r, "4");
    push_str_line(&mut r, "5");
    push_str_line(&mut r, "6");
    push_str_line(&mut r, "7");
    push_str_line(&mut r, "专精1");
    push_str_line(&mut r, "专精2");
    push_str_line(&mut r, "专精3");
    assert(views(r@) =~= level_order());
    r
}

fn levels_used_exec(levels: &Vec<(Vec<char>, Vec<char>, Vec<char>)>) -> (r: Vec<Vec<char>>)
    ensures
        views(r@) == levels_used(entry_views(levels@)),
{
    let order = level_order_exec();
    let ghost lo = level_order();
    let ghost lv = entry_views(levels@);
    let mut r: Vec<Vec<char>> = Vec::new();
    let mut i: usize = 0;
    while i < order.len()
        invariant
            i <= order@.len(),
            views(order@) == lo,
            lv == entry_views(levels@),
            views(r@) == levels_used_of(lv, lo.take(i as int)),
        decreases order.len() - i,
    {
        assert(lo.take(i + 1).drop_last() =~= lo.take(i as int));
        assert(lo.take(i + 1).last() == order@[i as int]@);
        reveal_with_fuel(Seq::filter, 1);
        if logged_key_exec(levels, &order[i]) {
            push_line(&mut r, order[i].clone());
        }
        i = i + 1;
    }
    assert(lo.take(order@.len() as int) =~= lo);
    r
}

fn level_title_exec(k: &Vec<char>) -> (r: Vec<char>)
    ensures
        r@ == level_title(k@),
{
    if eq_str(k, "专精1") {
        chars_of("RANK I")
    } else if eq_str(k, "专精2") {
        chars_of("RANK II")
    } else if eq_str(k, "专精3") {
        chars_of("RANK III")
    } else {
        k.clone()
    }
}

fn level_desc_exec(levels: &Vec<(Vec<char>, Vec<char>, Vec<char>)>, k: &Vec<char>) -> (r: Vec<char>)
    ensures
        r@ == level_desc(entry_views(levels@), k@),
{
    let f = chars_of("描述");
    match logged_value_exec(levels, k, &f) {
        Some(d) => d,
        None => chars_of("-"),
    }
}

fn level_cell_exec(levels: &Vec<(Vec<char>, Vec<char>, Vec<char>)>, k: &Vec<char>, field: &str) -> (r: Vec<char>)
    ensures
        r@ == level_cell(entry_views(levels@), k@, field@),
{
    let f = chars_of(field);
    match logged_value_exec(levels, k, &f) {
        Some(v) => clean_chars(&v),
        None => chars_of("-"),
    }
}

fn level_row_exec(levels: &Vec<(Vec<char>, Vec<char>, Vec<char>)>, k: &Vec<char>, n: usize) -> (r: Vec<char>)
    ensures
        r@ == level_row(entry_views(levels@), k@, n as nat),
{
    let d = level_desc_exec(levels, k);
    let (_, vars) = extract_vars_chars(&d);
    let ghost vv = views(vars@);
    let mut cells: Vec<Vec<char>> = Vec::new();
    push_line(&mut cells, level_title_exec(k));
    let mut i: usize = 0;
    while i < n
        invariant
            i <= n,
            vv == views(vars@),
            views(cells@) == seq![level_title(k@)] + var_cells(vv, i as nat),
        decreases n - i,
    {
        let c = if i < vars.len() {
            clean_chars(&vars[i])
        } else {
            chars_of("-")
        };
        push_line(&mut cells, c);
        assert(seq![level_title(k@)] + var_cells(vv, (i + 1) as nat) =~= (seq![level_title(k@)]
            + var_cells(vv, i as nat)).push(c@));
        i = i + 1;
    }
    let ghost before = views(cells@);
    push_line(&mut cells, level_cell_exec(levels, k, "初始"));
    push_line(&mut cells, level_cell_exec(levels, k, "消耗"));
    push_line(&mut cells, level_cell_exec(levels, k, "持续"));
    let ghost lv = entry_views(levels@);
    assert(views(cells@) =~= level_cells(lv, k@, n as nat));
    row_exec(&cells)
}

fn level_table_exec(levels: &Vec<(Vec<char>, Vec<char>, Vec<char>)>) -> (r: Vec<Vec<char>>)
    ensures
        views(r@) == level_table(entry_views(levels@)),
{
    let ghost lv = entry_views(levels@);
    let used = levels_used_exec(levels);
    let mut out: Vec<Vec<char>> = Vec::new();
    if used.len() == 0 {
        return out;
    }
    let d = level_desc_exec(levels, &used[0]);
    let (tpl, vars) = extract_vars_chars(&d);
    let n = vars.len();
    let mut first = chars_of("- **技能描述**: ");
    let b = br_to_exec(&tpl, " ");
    append(&mut first, &b);
    push_line(&mut out, first);
    let mut header: Vec<Vec<char>> = Vec::new();
    push_str_line(&mut header, "等级");
    let names = var_names_exec(n);
    extend(&mut header, names);
    push_str_line(&mut header, "初始");
    push_str_line(&mut header, "消耗");
    push_str_line(&mut header, "持续");
    assert(views(header@) =~= level_head(n as nat));
    let mut h = chars_of("\n");
    let hr = row_exec(&header);
    append(&mut h, &hr);
    push_line(&mut out, h);
    let mut divs = repeat_cell_exec(":---", n);
    push_str_line(&mut divs, ":---");
    push_str_line(&mut divs, ":---");
    push_str_line(&mut divs, ":---");
    push_str_line(&mut divs, ":---");
    assert(views(divs@) =~= repeat_cell(":---"@, n as nat + 4)) by {
        let d = ":---"@;
        assert(repeat_cell(d, n as nat + 1) == repeat_cell(d, n as nat).push(d));
        assert(repeat_cell(d, n as nat + 2) == repeat_cell(d, n as nat + 1).push(d));
        assert(repeat_cell(d, n as nat + 3) == repeat_cell(d, n as nat + 2).push(d));
        assert(repeat_cell(d, n as nat + 4) == repeat_cell(d, n as nat + 3).push(d));
    }
    push_line(&mut out, row_exec(&divs));
    let ghost head = views(out@);
    let ghost lr = level_rows(lv, views(used@), n as nat);
    let mut j: usize = 0;
    while j < used.len()
        invariant
            j <= used@.len(),
            lv == entry_views(levels@),
            lr == level_rows(lv, views(used@), n as nat),
            views(out@) == head + lr.take(j as int),
        decreases used.len() - j,
    {
        let l = level_row_exec(levels, &used[j], n);
        push_line(&mut out, l);
        assert(lr.take(j + 1) =~= lr.take(j as int).push(lr[j as int]));
        j = j + 1;
    }
    assert(lr.take(used@.len() as int) =~= lr);
    assert(views(out@) =~= level_table(lv));
    out
}

fn skill_block_exec(i: usize, sk: &SkillData) -> (r: Vec<Vec<char>>)
    requires
        i < usize::MAX,
    ensures
        views(r@) == skill_block(i as nat, sk.model()),
{
    let mut out: Vec<Vec<char>> = Vec::new();
    let mut h = chars_of("\n#### ");
    append(&mut h, &sk.name);
    push_line(&mut out, h);
    let mut n = chars_of("- **技能序号**: ");
    let d = decimal_exec((i + 1) as u64);
    append(&mut n, &d);
    push_line(&mut out, n);
    if sk.types.len() > 0 {
        let mut t = chars_of("- **技能类型**: ");
        let j = join_str(&sk.types, " / ");
        append(&mut t, &j);
        push_line(&mut out, t);
    }
    let bp = clone_lines(&sk.base_props);
    extend(&mut out, bp);
    let lt = level_table_exec(&sk.levels);
    extend(&mut out, lt);
    if sk.notes.len() > 0 {
        push_line(&mut out, Vec::new());
        let ns = clone_lines(&sk.notes);
        extend(&mut out, ns);
    }
    assert(views(out@) =~= skill_block(i as nat, sk.model()));
    out
}

/// The skills block of the combat data, the skills numbered from 1 in order.
pub fn render_skills_chars(sks: &Vec<SkillData>) -> (r: Vec<Vec<char>>)
    ensures
        views(r@) == skills_output(skill_models(sks@)),
{
    let ghost sb = skill_blocks(skill_models(sks@));
    let mut out: Vec<Vec<char>> = Vec::new();
    push_str_line(&mut out, "### 技能");
    let ghost base = views(out@);
    let mut j: usize = 0;
    while j < sks.len()
        invariant
            j <= sks@.len(),
            sb == skill_blocks(skill_models(sks@)),
            views(out@) == base + flat(sb.take(j as int)),
        decreases sks.len() - j,
    {
        let b = skill_block_exec(j, &sks[j]);
        assert(sb[j as int] == skill_block(j as nat, sks@[j as int].model()));
        assert(sb.take(j + 1).drop_last() =~= sb.take(j as int));
        let ghost before = views(out@);
        extend(&mut out, b);
        assert(base + flat(sb.take(j + 1)) =~= before + sb[j as int]);
        j = j + 1;
    }
    assert(sb.take(sks@.len() as int) =~= sb);
    push_line(&mut out, Vec::new());
    assert(views(out@) =~= skills_output(skill_models(sks@)));
    out
}

proof fn lemma_var_cells_len(vars: Seq<Seq<char>>, n: nat)
    ensures
        var_cells(vars, n).len() == n,
    decreases n,
{
    if n > 0 {
        lemma_var_cells_len(vars, (n - 1) as nat);
    }
}

proof fn lemma_var_names_len(n: nat)
    ensures
        var_names(n).len() == n,
    decreases n,
{
    if n > 0 {
        lemma_var_names_len((n - 1) as nat);
    }
}

/// Every row of a skill's level table has as many cells as the table's head, whatever
/// the level's description holds: the variables past those of the first level's
/// description are cut off, and missing ones shown as `-`.
pub proof fn law_level_rows_fit_the_head(levels: Seq<StatEntry>, k: Seq<char>, n: nat)
    ensures
        level_cells(levels, k, n).len() == level_head(n).len(),
        level_head(n).len() == n + 4,
{
    lemma_var_cells_len(vars_values(level_desc(levels, k)), n);
    lemma_var_names_len(n);
}

/// In a skill's level table each column holds what its head names: the first the level
/// (the mastery levels shown as `RANK I` to `RANK III`), then the `var` columns, then
/// the level's initial SP (`初始`), SP cost (`消耗`) and duration (`持续`), cleaned, or
/// `-` where the page gives none.
pub proof fn law_level_columns_match_the_head(levels: Seq<StatEntry>, k: Seq<char>, n: nat)
    ensures
        ({
            let head = level_head(n);
            let cells = level_cells(levels, k, n);
            &&& head[0] == "等级"@
            &&& head[n as int + 1] == "初始"@ && cells[n as int + 1] == level_cell(levels, k, "初始"@)
            &&& head[n as int + 2] == "消耗"@ && cells[n as int + 2] == level_cell(levels, k, "消耗"@)
            &&& head[n as int + 3] == "持续"@ && cells[n as int + 3] == level_cell(levels, k, "持续"@)
            &&& (k == "专精1"@ ==> cells[0] == "RANK I"@)
            &&& (k == "专精2"@ ==> cells[0] == "RANK II"@)
            &&& (k == "专精3"@ ==> cells[0] == "RANK III"@)
        }),
        forall|field: Seq<char>|
            #[trigger] level_cell(levels, k, field) == match logged_value(levels, k, field) {
                Some(v) => cleaned(v),
                None => "-"@,
            },
{
    lemma_var_cells_len(vars_values(level_desc(levels, k)), n);
    lemma_var_names_len(n);
    reveal_strlit("专精1");
    reveal_strlit("专精2");
    reveal_strlit("专精3");
    assert("专精1"@[2] != "专精2"@[2] && "专精1"@[2] != "专精3"@[2] && "专精2"@[2] != "专精3"@[2]);
}

} // verus!
