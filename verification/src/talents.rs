//! The talents block of the combat data: talents with their stages, and the
//! description of each talent, its changing numbers set out as a table.
use vstd::prelude::*;
use crate::grouping::{group_views, grouped, grouped_exec, Group};
use crate::md::{
    clone_lines, extend, flat, push_line, push_str_line, repeat_cell, repeat_cell_exec, row,
    row_exec, var_names, var_names_exec,
};
use crate::patterns::{
    captures, captures_all, concat_pieces, grp, has_grp, interleave, lemma_interleave_push_both,
    lemma_interleave_push_first, match_texts, regex_all_captures, regex_first_captures,
    regex_pieces, split,
};
use crate::strops::{join, join_str};
use crate::text::{
    append, chars_of, contains, contains_str, eq, eq_str, starts_with, starts_with_str, text_lt,
    text_lt_exec, views,
};
use crate::wikitext::placeholder;

verus! {

/// A talent's main line.
pub const PAT_TALENT_MAIN: &'static str = "^- \\*\\*天赋\\*\\*: (.*)$";

/// A talent's detail line: `- **[潜能增强_]天赋<stage><field>**: value`.
pub const PAT_TALENT_SUB: &'static str = "^- \\*\\*(潜能增强_)?天赋(\\d+)(.*)\\*\\*: (.*)$";

/// Any bold `- **key**: value` line.
pub const PAT_BOLD_KV: &'static str = "^- \\*\\*([^*]+)\\*\\*: (.*)$";

/// A number in a description, with an optional sign, decimals, `%`, and a bracketed bonus.
pub const PAT_NUM: &'static str = "((?:[+\\-])?\\d+(?:\\.\\d+)?%?(?:（[+\\-]?\\d+(?:\\.\\d+)?%?）)?)";

/// The ordinal `第N天赋` of a talent.
pub const PAT_CHINESE_NUM: &'static str = "第(.)天赋";

/// A stage: its condition and its effect.
pub type Stage = (Seq<char>, Seq<char>);

/// The stage `s` with field `which` (1: condition, 2: effect, other: none) set to `val`.
pub open spec fn stage_set(s: Stage, which: int, val: Seq<char>) -> Stage {
    if which == 1 {
        (val, s.1)
    } else if which == 2 {
        (s.0, val)
    } else {
        s
    }
}

/// The stages `l`, ordered by key, with the stage `k` (created empty if absent) updated.
pub open spec fn stage_upsert(l: Seq<(Seq<char>, Stage)>, k: Seq<char>, which: int, val: Seq<char>) -> Seq<
    (Seq<char>, Stage),
>
    decreases l.len(),
{
    if l.len() == 0 {
        seq![(k, stage_set((Seq::empty(), Seq::empty()), which, val))]
    } else if l[0].0 == k {
        seq![(k, stage_set(l[0].1, which, val))] + l.drop_first()
    } else if text_lt(k, l[0].0) {
        seq![(k, stage_set((Seq::empty(), Seq::empty()), which, val))] + l
    } else {
        seq![l[0]] + stage_upsert(l.drop_first(), k, which, val)
    }
}

// ─── reading the talent lines ─────────────────────────────────

/// A talent: its ordinal text, name, stages by key, and notes.
#[verifier::ext_equal]
pub struct TalentModel {
    pub index: Seq<char>,
    pub name: Seq<char>,
    pub stages: Seq<(Seq<char>, Stage)>,
    pub notes: Seq<Seq<char>>,
}

/// Reading state: the lines outside any talent, the talents, and whether the last
/// talent takes the following detail lines.
#[verifier::ext_equal]
pub struct TalentRead {
    pub misc: Seq<Seq<char>>,
    pub blocks: Seq<TalentModel>,
    pub active: bool,
}

/// A talent updated by a detail line.
pub open spec fn talent_detail(td: TalentModel, c: Seq<Option<Seq<char>>>) -> TalentModel {
    let sid = grp(c, 2);
    let subk = grp(c, 3);
    let val = grp(c, 4);
    if subk.len() == 0 {
        TalentModel { name: val, ..td }
    } else {
        let field = if has_grp(c, 1) {
            "潜能增强"@ + subk
        } else {
            subk
        };
        let which: int = if field == "条件"@ {
            1
        } else if field == "效果"@ {
            2
        } else {
            0
        };
        TalentModel { stages: stage_upsert(td.stages, sid, which, val), ..td }
    }
}

/// The reading state with the last talent replaced.
pub open spec fn with_last(st: TalentRead, td: TalentModel) -> TalentRead {
    TalentRead { blocks: st.blocks.update(st.blocks.len() - 1, td), ..st }
}

/// One line of the talents block read.
pub open spec fn talent_step(st: TalentRead, line: Seq<char>) -> TalentRead {
    let has_cur = st.active && st.blocks.len() > 0;
    if starts_with(line, ">"@) {
        if has_cur {
            let td = st.blocks.last();
            with_last(st, TalentModel { notes: td.notes.push(line), ..td })
        } else {
            TalentRead { misc: st.misc.push(line), ..st }
        }
    } else {
        match regex_first_captures(PAT_TALENT_MAIN@, line) {
            Some(c) => TalentRead {
                blocks: st.blocks.push(
                    TalentModel {
                        index: grp(c, 1),
                        name: Seq::empty(),
                        stages: Seq::empty(),
                        notes: Seq::empty(),
                    },
                ),
                active: true,
                ..st
            },
            None => match regex_first_captures(PAT_TALENT_SUB@, line) {
                Some(c) => if has_cur {
                    with_last(st, talent_detail(st.blocks.last(), c))
                } else {
                    st
                },
                None => match regex_first_captures(PAT_BOLD_KV@, line) {
                    Some(_) => TalentRead { misc: st.misc.push(line), active: false, ..st },
                    None => TalentRead { misc: st.misc.push(line), ..st },
                },
            },
        }
    }
}

pub open spec fn talent_lines(ls: Seq<Seq<char>>) -> TalentRead
    decreases ls.len(),
{
    if ls.len() == 0 {
        TalentRead { misc: Seq::empty(), blocks: Seq::empty(), active: false }
    } else {
        talent_step(talent_lines(ls.drop_last()), ls.last())
    }
}

// ─── rendering ────────────────────────────────────────────────

/// The ordinal of a talent as a digit: `第二天赋` gives 2, and so on up to 6; 1 otherwise.
pub open spec fn talent_ordinal(index: Seq<char>) -> Seq<char> {
    match regex_first_captures(PAT_CHINESE_NUM@, index) {
        Some(c) => {
            let g = grp(c, 1);
            if g == "二"@ {
                "2"@
            } else if g == "三"@ {
                "3"@
            } else if g == "四"@ {
                "4"@
            } else if g == "五"@ {
                "5"@
            } else if g == "六"@ {
                "6"@
            } else {
                "1"@
            }
        },
        None => "1"@,
    }
}

/// The described stages in key order, as (effect, condition) rows: stages with an effect
/// and a condition that does not name a module; the condition `——` reads `基础`.
pub open spec fn stage_rows(stages: Seq<(Seq<char>, Stage)>) -> Seq<(Seq<char>, Seq<char>)>
    decreases stages.len(),
{
    if stages.len() == 0 {
        Seq::empty()
    } else {
        let r = stage_rows(stages.drop_last());
        let s = stages.last().1;
        if s.1.len() > 0 && !contains(s.0, "模组"@) {
            r.push(
                (
                    s.1,
                    if s.0 == "——"@ {
                        "基础"@
                    } else {
                        s.0
                    },
                ),
            )
        } else {
            r
        }
    }
}

/// The tokens of a description: the pieces between numbers and the numbers, in the
/// order in which they stand in it.
pub open spec fn tokens(s: Seq<char>) -> Seq<Seq<char>> {
    interleave(regex_pieces(PAT_NUM@, s), match_texts(regex_all_captures(PAT_NUM@, s)))
}

/// The token lists of the rows' effects.
pub open spec fn token_table(rows: Seq<(Seq<char>, Seq<char>)>) -> Seq<Seq<Seq<char>>> {
    rows.map_values(|r: (Seq<char>, Seq<char>)| tokens(r.0))
}

/// The labels of the rows.
pub open spec fn row_labels(rows: Seq<(Seq<char>, Seq<char>)>) -> Seq<Seq<char>> {
    rows.map_values(|r: (Seq<char>, Seq<char>)| r.1)
}

/// All token lists have the length of the first.
pub open spec fn same_lengths(tk: Seq<Seq<Seq<char>>>) -> bool {
    forall|j: int| 0 <= j < tk.len() ==> (#[trigger] tk[j]).len() == tk[0].len()
}

/// Token `i` differs between the first list and some other.
pub open spec fn is_var_pos(tk: Seq<Seq<Seq<char>>>, i: int) -> bool {
    exists|j: int| 1 <= j < tk.len() && (#[trigger] tk[j])[i] != tk[0][i]
}

/// The varying tokens of list `j` among the first `i` positions.
pub open spec fn var_row(tk: Seq<Seq<Seq<char>>>, j: int, i: nat) -> Seq<Seq<char>>
    decreases i,
{
    if i == 0 {
        Seq::empty()
    } else {
        let r = var_row(tk, j, (i - 1) as nat);
        if is_var_pos(tk, i - 1) {
            r.push(tk[j][i - 1])
        } else {
            r
        }
    }
}

/// The template of the first `i` positions: fixed tokens as they are, varying ones as
/// `{varN}`.
pub open spec fn template_upto(tk: Seq<Seq<Seq<char>>>, i: nat) -> Seq<char>
    decreases i,
{
    if i == 0 {
        Seq::empty()
    } else {
        template_upto(tk, (i - 1) as nat) + if is_var_pos(tk, i - 1) {
            placeholder(var_row(tk, 0, (i - 1) as nat).len() + 1)
        } else {
            tk[0][i - 1]
        }
    }
}

/// The template of the first `i` positions filled in with `vals`: fixed tokens as they
/// are, the varying token that `{varN}` stands for as `vals[N - 1]`.
pub open spec fn filled_upto(tk: Seq<Seq<Seq<char>>>, vals: Seq<Seq<char>>, i: nat) -> Seq<char>
    decreases i,
{
    if i == 0 {
        Seq::empty()
    } else {
        filled_upto(tk, vals, (i - 1) as nat) + if is_var_pos(tk, i - 1) {
            vals[var_row(tk, 0, (i - 1) as nat).len() as int]
        } else {
            tk[0][i - 1]
        }
    }
}

/// The whole template filled in with `vals`.
pub open spec fn template_filled(tk: Seq<Seq<Seq<char>>>, vals: Seq<Seq<char>>) -> Seq<char> {
    filled_upto(tk, vals, tk[0].len())
}

/// The varying tokens of every list, row by row.
pub open spec fn var_table(tk: Seq<Seq<Seq<char>>>) -> Seq<Seq<Seq<char>>> {
    Seq::new(tk.len(), |j: int| var_row(tk, j, tk[0].len()))
}

/// Whether the descriptions differ only in their numbers, in a way a table can show.
pub open spec fn extractable(tk: Seq<Seq<Seq<char>>>) -> bool {
    &&& tk.len() > 0
    &&& same_lengths(tk)
    &&& tk[0].len() > 1
    &&& exists|i: int| 0 <= i < tk[0].len() && is_var_pos(tk, i)
}

/// One table row per group: its labels joined by ` / `, then its cells.
pub open spec fn group_rows(gs: Seq<Group>) -> Seq<Seq<char>> {
    gs.map_values(|g: Group| row(seq![join(g.1, " / "@)] + g.0))
}

/// The description lines with the numbers set out as `var` columns.
pub open spec fn var_description(rows: Seq<(Seq<char>, Seq<char>)>) -> Seq<Seq<char>> {
    let tk = token_table(rows);
    let n = var_row(tk, 0, tk[0].len()).len();
    seq![
        "- **天赋描述**: "@ + template_upto(tk, tk[0].len()),
        Seq::empty(),
        row(seq!["条件"@] + var_names(n)),
        row(repeat_cell(":---"@, n + 1)),
    ] + group_rows(grouped(var_table(tk), row_labels(rows))) + seq![Seq::empty()]
}

/// The rows' effects, each as a one-cell key.
pub open spec fn effect_keys(rows: Seq<(Seq<char>, Seq<char>)>) -> Seq<Seq<Seq<char>>> {
    rows.map_values(|r: (Seq<char>, Seq<char>)| seq![r.0])
}

/// The description lines where the effects are shown as they are.
pub open spec fn plain_description(rows: Seq<(Seq<char>, Seq<char>)>) -> Seq<Seq<char>> {
    let gs = grouped(effect_keys(rows), row_labels(rows));
    if gs.len() == 1 {
        seq!["- **天赋描述**: "@ + gs[0].0[0], Seq::empty()]
    } else {
        seq![row(seq!["条件"@, "效果"@]), row(seq![":---"@, ":---"@])] + group_rows(gs) + seq![
            Seq::empty(),
        ]
    }
}

/// The description lines of a talent.
pub open spec fn talent_description(rows: Seq<(Seq<char>, Seq<char>)>) -> Seq<Seq<char>> {
    if rows.len() == 0 {
        Seq::empty()
    } else if extractable(token_table(rows)) {
        var_description(rows)
    } else {
        plain_description(rows)
    }
}

/// The lines of one talent.
pub open spec fn talent_block(td: TalentModel) -> Seq<Seq<char>> {
    seq!["#### "@ + td.name, "- **天赋序号**: "@ + talent_ordinal(td.index)] + talent_description(
        stage_rows(td.stages),
    ) + if td.notes.len() > 0 {
        td.notes.push(Seq::empty())
    } else {
        Seq::empty()
    }
}

pub open spec fn talent_blocks(bs: Seq<TalentModel>) -> Seq<Seq<Seq<char>>> {
    bs.map_values(|td: TalentModel| talent_block(td))
}

/// The talents block: the lines outside any talent, then each talent.
pub open spec fn talents_output(ls: Seq<Seq<char>>) -> Seq<Seq<char>> {
    let st = talent_lines(ls);
    seq!["### 天赋"@] + st.misc + flat(talent_blocks(st.blocks)) + seq![Seq::empty()]
}

// ─── executable ───────────────────────────────────────────────

/// The view of a list of stages.
pub open spec fn stage_views(l: Seq<(Vec<char>, (Vec<char>, Vec<char>))>) -> Seq<(Seq<char>, Stage)> {
    l.map_values(|e: (Vec<char>, (Vec<char>, Vec<char>))| (e.0@, (e.1.0@, e.1.1@)))
}

proof fn lemma_upsert_skip(l: Seq<(Seq<char>, Stage)>, k: Seq<char>, which: int, val: Seq<char>, p: int)
    requires
        0 <= p <= l.len(),
        forall|j: int| 0 <= j < p ==> l[j].0 != k && !text_lt(k, #[trigger] l[j].0),
    ensures
        stage_upsert(l, k, which, val) == l.take(p) + stage_upsert(l.skip(p), k, which, val),
    decreases p,
{
    if p > 0 {
        lemma_upsert_skip(l.drop_first(), k, which, val, p - 1);
        assert(l.drop_first().take(p - 1) =~= l.take(p).drop_first());
        assert(l.drop_first().skip(p - 1) =~= l.skip(p));
        assert(l.take(p) + stage_upsert(l.skip(p), k, which, val) =~= seq![l[0]] + (
        l.drop_first().take(p - 1) + stage_upsert(l.drop_first().skip(p - 1), k, which, val)));
    } else {
        assert(l.skip(0) =~= l);
        assert(l.take(0) + stage_upsert(l, k, which, val) =~= stage_upsert(l, k, which, val));
    }
}

fn stage_set_exec(s: (Vec<char>, Vec<char>), which: u8, val: Vec<char>) -> (r: (Vec<char>, Vec<char>))
    ensures
        (r.0@, r.1@) == stage_set((s.0@, s.1@), which as int, val@),
{
    if which == 1 {
        (val, s.1)
    } else if which == 2 {
        (s.0, val)
    } else {
        s
    }
}

/// Sets field `which` of the stage `k`, creating it in key order if absent.
fn stage_upsert_exec(
    l: &mut Vec<(Vec<char>, (Vec<char>, Vec<char>))>,
    k: Vec<char>,
    which: u8,
    val: Vec<char>,
)
    ensures
        stage_views(final(l)@) == stage_upsert(stage_views(old(l)@), k@, which as int, val@),
{
    let ghost l0 = stage_views(l@);
    let mut i: usize = 0;
    while i < l.len()
        invariant
            i <= l@.len(),
            l0 == stage_views(l@),
            l0 == stage_views(old(l)@),
            forall|j: int| 0 <= j < i ==> l0[j].0 != k@ && !text_lt(k@, #[trigger] l0[j].0),
        decreases l.len() - i,
    {
        let ghost sk = l0.skip(i as int);
        if eq(&l[i].0, &k) {
            proof {
                lemma_upsert_skip(l0, k@, which as int, val@, i as int);
            }
            let old_stage = (l[i].1.0.clone(), l[i].1.1.clone());
            let ns = stage_set_exec(old_stage, which, val);
            let ghost nv = (k@, (ns.0@, ns.1@));
            l.set(i, (k, ns));
            assert(sk[0] == l0[i as int]);
            assert(stage_upsert(sk, k@, which as int, val@) =~= seq![nv] + sk.drop_first());
            assert(stage_views(l@) =~= l0.take(i as int) + (seq![nv] + sk.drop_first()));
            return;
        }
        if text_lt_exec(&k, &l[i].0) {
            proof {
                lemma_upsert_skip(l0, k@, which as int, val@, i as int);
            }
            let e1: Vec<char> = Vec::new();
            let e2: Vec<char> = Vec::new();
            assert(e1@ =~= Seq::<char>::empty());
            assert(e2@ =~= Seq::<char>::empty());
            let ns = stage_set_exec((e1, e2), which, val);
            let ghost nv = (k@, (ns.0@, ns.1@));
            l.insert(i, (k, ns));
            assert(sk[0] == l0[i as int]);
            assert(stage_upsert(sk, k@, which as int, val@) =~= seq![nv] + sk);
            assert(stage_views(l@) =~= l0.take(i as int) + (seq![nv] + sk));
            return;
        }
        i = i + 1;
    }
    proof {
        lemma_upsert_skip(l0, k@, which as int, val@, l@.len() as int);
    }
    let e1: Vec<char> = Vec::new();
    let e2: Vec<char> = Vec::new();
    assert(e1@ =~= Seq::<char>::empty());
    assert(e2@ =~= Seq::<char>::empty());
    let ns = stage_set_exec((e1, e2), which, val);
    let ghost nv = (k@, (ns.0@, ns.1@));
    l.push((k, ns));
    assert(l0.skip(l0.len() as int) =~= Seq::<(Seq<char>, Stage)>::empty());
    assert(stage_views(l@) =~= l0.take(l0.len() as int) + seq![nv]);
}

/// A talent as read.
pub struct TalentData {
    pub index: Vec<char>,
    pub name: Vec<char>,
    pub stages: Vec<(Vec<char>, (Vec<char>, Vec<char>))>,
    pub notes: Vec<Vec<char>>,
}

impl TalentData {
    pub open spec fn model(&self) -> TalentModel {
        TalentModel {
            index: self.index@,
            name: self.name@,
            stages: stage_views(self.stages@),
            notes: views(self.notes@),
        }
    }
}

pub open spec fn talent_models(bs: Seq<TalentData>) -> Seq<TalentModel> {
    bs.map_values(|t: TalentData| t.model())
}

/// The talent reading state.
pub struct TalentAcc {
    pub misc: Vec<Vec<char>>,
    pub blocks: Vec<TalentData>,
    pub active: bool,
}

impl TalentAcc {
    pub open spec fn state(&self) -> TalentRead {
        TalentRead { misc: views(self.misc@), blocks: talent_models(self.blocks@), active: self.active }
    }
}

fn talent_detail_exec(td: &mut TalentData, c: &crate::patterns::Groups)
    requires
        c.texts@.len() == c.present@.len(),
        exists|caps: Seq<Option<Seq<char>>>| c.matches_caps(caps),
    ensures
        forall|caps: Seq<Option<Seq<char>>>|
            c.matches_caps(caps) ==> final(td).model() == talent_detail(old(td).model(), caps),
{
    let ghost caps = choose|caps: Seq<Option<Seq<char>>>| c.matches_caps(caps);
    let sid = c.get(2);
    let subk = c.get(3);
    let val = c.get(4);
    assert(forall|x: Seq<Option<Seq<char>>>| c.matches_caps(x) ==> x == caps) by {
        assert forall|x: Seq<Option<Seq<char>>>| c.matches_caps(x) implies x == caps by {
            assert forall|i: int| 0 <= i < x.len() implies x[i] == caps[i] by {
                assert(c.texts@[i]@ == grp(x, i));
                assert(c.present@[i] == has_grp(x, i));
            }
            assert(x =~= caps);
        }
    }
    assert(sid@ == grp(caps, 2));
    assert(subk@ == grp(caps, 3));
    assert(val@ == grp(caps, 4));
    if subk.len() == 0 {
        td.name = val;
    } else {
        let field = if c.has(1) {
            let mut f = chars_of("潜能增强");
            append(&mut f, &subk);
            f
        } else {
            subk
        };
        let which: u8 = if eq_str(&field, "条件") {
            1
        } else if eq_str(&field, "效果") {
            2
        } else {
            0
        };
        stage_upsert_exec(&mut td.stages, sid, which, val);
    }
    assert(td.model() =~= talent_detail(old(td).model(), caps));
}

fn talent_step_exec(acc: &mut TalentAcc, line: &Vec<char>)
    ensures
        final(acc).state() == talent_step(old(acc).state(), line@),
{
    let ghost st = acc.state();
    let has_cur = acc.active && acc.blocks.len() > 0;
    if starts_with_str(line, ">") {
        if has_cur {
            let mut td = acc.blocks.pop().unwrap();
            push_line(&mut td.notes, line.clone());
            let ghost m = td.model();
            acc.blocks.push(td);
            assert(talent_models(acc.blocks@) =~= st.blocks.update(st.blocks.len() - 1, m));
        } else {
            push_line(&mut acc.misc, line.clone());
        }
        assert(acc.state() =~= talent_step(st, line@));
        return;
    }
    match captures(PAT_TALENT_MAIN, line) {
        Some(c) => {
            let td = TalentData {
                index: c.get(1),
                name: Vec::new(),
                stages: Vec::new(),
                notes: Vec::new(),
            };
            let ghost m = td.model();
            assert(m =~= TalentModel {
                index: grp(regex_first_captures(PAT_TALENT_MAIN@, line@)->0, 1),
                name: Seq::empty(),
                stages: Seq::empty(),
                notes: Seq::empty(),
            });
            acc.blocks.push(td);
            acc.active = true;
            assert(talent_models(acc.blocks@) =~= st.blocks.push(m));
            assert(acc.state() =~= talent_step(st, line@));
            return;
        },
        None => {},
    }
    match captures(PAT_TALENT_SUB, line) {
        Some(c) => {
            if has_cur {
                let mut td = acc.blocks.pop().unwrap();
                talent_detail_exec(&mut td, &c);
                let ghost m = td.model();
                acc.blocks.push(td);
                assert(talent_models(acc.blocks@) =~= st.blocks.update(st.blocks.len() - 1, m));
            }
            assert(acc.state() =~= talent_step(st, line@));
            return;
        },
        None => {},
    }
    if crate::patterns::is_match(PAT_BOLD_KV, line) {
        acc.active = false;
    }
    push_line(&mut acc.misc, line.clone());
    assert(acc.state() =~= talent_step(st, line@));
}

/// Reads the lines of the talents block.
fn talent_lines_exec(ls: &Vec<Vec<char>>) -> (r: TalentAcc)
    ensures
        r.state() == talent_lines(views(ls@)),
{
    let mut acc = TalentAcc { misc: Vec::new(), blocks: Vec::new(), active: false };
    assert(acc.state() =~= talent_lines(Seq::empty()));
    let mut i: usize = 0;
    while i < ls.len()
        invariant
            i <= ls@.len(),
            acc.state() == talent_lines(views(ls@).take(i as int)),
        decreases ls.len() - i,
    {
        assert(views(ls@).take(i + 1).drop_last() =~= views(ls@).take(i as int));
        assert(views(ls@).take(i + 1).last() == ls@[i as int]@);
        talent_step_exec(&mut acc, &ls[i]);
        i = i + 1;
    }
    assert(views(ls@).take(ls@.len() as int) =~= views(ls@));
    acc
}

fn talent_ordinal_exec(index: &Vec<char>) -> (r: Vec<char>)
    ensures
        r@ == talent_ordinal(index@),
{
    match captures(PAT_CHINESE_NUM, index) {
        Some(c) => {
            let g = c.get(1);
            if eq_str(&g, "二") {
                chars_of("2")
            } else if eq_str(&g, "三") {
                chars_of("3")
            } else if eq_str(&g, "四") {
                chars_of("4")
            } else if eq_str(&g, "五") {
                chars_of("5")
            } else if eq_str(&g, "六") {
                chars_of("6")
            } else {
                chars_of("1")
            }
        },
        None => chars_of("1"),
    }
}

/// The view of a list of text pairs.
pub open spec fn pairs_view(v: Seq<(Vec<char>, Vec<char>)>) -> Seq<(Seq<char>, Seq<char>)> {
    v.map_values(|p: (Vec<char>, Vec<char>)| (p.0@, p.1@))
}

fn stage_rows_exec(stages: &Vec<(Vec<char>, (Vec<char>, Vec<char>))>) -> (r: Vec<(Vec<char>, Vec<char>)>)
    ensures
        pairs_view(r@) == stage_rows(stage_views(stages@)),
{
    let ghost sv = stage_views(stages@);
    let mut r: Vec<(Vec<char>, Vec<char>)> = Vec::new();
    let mut i: usize = 0;
    assert(pairs_view(r@) =~= stage_rows(sv.take(0)));
    while i < stages.len()
        invariant
            i <= stages@.len(),
            sv == stage_views(stages@),
            pairs_view(r@) == stage_rows(sv.take(i as int)),
        decreases stages.len() - i,
    {
        assert(sv.take(i + 1).drop_last() =~= sv.take(i as int));
        assert(sv.take(i + 1).last() == sv[i as int]);
        let cond = &stages[i].1.0;
        let eff = &stages[i].1.1;
        if eff.len() > 0 && !contains_str(cond, "模组") {
            let label = if eq_str(cond, "——") {
                chars_of("基础")
            } else {
                cond.clone()
            };
            let ghost before = pairs_view(r@);
            r.push((eff.clone(), label));
            assert(pairs_view(r@) =~= before.push((eff@, label@)));
        }
        i = i + 1;
    }
    assert(sv.take(stages@.len() as int) =~= sv);
    r
}

/// The view of a token table.
pub open spec fn table_view(t: Seq<Vec<Vec<char>>>) -> Seq<Seq<Seq<char>>> {
    t.map_values(|x: Vec<Vec<char>>| views(x@))
}

fn tokens_exec(s: &Vec<char>) -> (r: Vec<Vec<char>>)
    ensures
        views(r@) == tokens(s@),
        concat_pieces(views(r@)) == s@,
{
    let p = split(PAT_NUM, s);
    let ms = captures_all(PAT_NUM, s);
    let ghost all = regex_all_captures(PAT_NUM@, s@);
    let ghost pv = views(p@);
    let ghost mv = match_texts(all);
    let mut r: Vec<Vec<char>> = Vec::new();
    let mut i: usize = 0;
    while i < ms.len()
        invariant
            i <= ms@.len(),
            ms@.len() == all.len(),
            p@.len() == all.len() + 1,
            pv == views(p@),
            mv == match_texts(all),
            all == regex_all_captures(PAT_NUM@, s@),
            forall|k: int| 0 <= k < ms@.len() ==> (#[trigger] ms@[k]).matches_caps(all[k]),
            views(r@) == interleave(pv.take(i as int), mv.take(i as int)),
        decreases ms.len() - i,
    {
        assert(ms@[i as int].matches_caps(all[i as int]));
        let g = ms[i].get(0);
        assert(g@ == mv[i as int]);
        let piece = p[i].clone();
        let ghost before = views(r@);
        r.push(piece);
        r.push(g);
        proof {
            lemma_interleave_push_both(pv.take(i as int), mv.take(i as int), pv[i as int], mv[i as int]);
            assert(pv.take(i + 1) =~= pv.take(i as int).push(pv[i as int]));
            assert(mv.take(i + 1) =~= mv.take(i as int).push(mv[i as int]));
            assert(views(r@) =~= before + seq![pv[i as int], mv[i as int]]);
        }
        i = i + 1;
    }
    let last = p[i].clone();
    let ghost before = views(r@);
    r.push(last);
    proof {
        lemma_interleave_push_first(pv.take(i as int), mv.take(i as int), pv[i as int]);
        assert(pv.take(i as int).push(pv[i as int]) =~= pv);
        assert(mv.take(i as int) =~= mv);
        assert(views(r@) =~= before.push(pv[i as int]));
    }
    r
}

fn token_table_exec(rows: &Vec<(Vec<char>, Vec<char>)>) -> (r: Vec<Vec<Vec<char>>>)
    ensures
        table_view(r@) == token_table(pairs_view(rows@)),
        forall|j: int| 0 <= j < rows@.len() ==> concat_pieces(#[trigger] table_view(r@)[j]) == rows@[j].0@,
{
    let mut r: Vec<Vec<Vec<char>>> = Vec::new();
    let mut i: usize = 0;
    while i < rows.len()
        invariant
            i <= rows@.len(),
            table_view(r@) == token_table(pairs_view(rows@)).take(i as int),
            forall|j: int| 0 <= j < i ==> concat_pieces(#[trigger] table_view(r@)[j]) == rows@[j].0@,
        decreases rows.len() - i,
    {
        let t = tokens_exec(&rows[i].0);
        let ghost before = table_view(r@);
        r.push(t);
        assert(table_view(r@) =~= before.push(tokens(rows@[i as int].0@)));
        assert(token_table(pairs_view(rows@)).take(i + 1) =~= token_table(pairs_view(rows@)).take(
            i as int,
        ).push(tokens(rows@[i as int].0@)));
        i = i + 1;
    }
    assert(token_table(pairs_view(rows@)).take(rows@.len() as int) =~= token_table(
        pairs_view(rows@),
    ));
    r
}

fn same_lengths_exec(tk: &Vec<Vec<Vec<char>>>) -> (r: bool)
    requires
        tk@.len() > 0,
    ensures
        r == same_lengths(table_view(tk@)),
{
    let ghost tv = table_view(tk@);
    let n = tk[0].len();
    let mut j: usize = 0;
    while j < tk.len()
        invariant
            j <= tk@.len(),
            tk@.len() > 0,
            tv == table_view(tk@),
            n == tv[0].len(),
            forall|k: int| 0 <= k < j ==> (#[trigger] tv[k]).len() == n,
        decreases tk.len() - j,
    {
        if tk[j].len() != n {
            assert(tv[j as int].len() != tv[0].len());
            return false;
        }
        j = j + 1;
    }
    true
}

fn is_var_pos_exec(tk: &Vec<Vec<Vec<char>>>, i: usize) -> (r: bool)
    requires
        tk@.len() > 0,
        same_lengths(table_view(tk@)),
        i < table_view(tk@)[0].len(),
    ensures
        r == is_var_pos(table_view(tk@), i as int),
{
    let ghost tv = table_view(tk@);
    let mut j: usize = 1;
    while j < tk.len()
        invariant
            1 <= j <= tk@.len() || (j == 1 && tk@.len() == 1),
            tv == table_view(tk@),
            same_lengths(tv),
            tk@.len() > 0,
            i < tv[0].len(),
            forall|k: int| 1 <= k < j ==> (#[trigger] tv[k])[i as int] == tv[0][i as int],
        decreases tk.len() - j,
    {
        assert(tv[j as int].len() == tv[0].len());
        if !eq(&tk[j][i], &tk[0][i]) {
            assert(tv[j as int][i as int] != tv[0][i as int]);
            return true;
        }
        j = j + 1;
    }
    false
}

/// The varying positions, one flag per token of the first list.
fn var_flags_exec(tk: &Vec<Vec<Vec<char>>>) -> (r: Vec<bool>)
    requires
        tk@.len() > 0,
        same_lengths(table_view(tk@)),
    ensures
        r@.len() == table_view(tk@)[0].len(),
        forall|i: int| 0 <= i < r@.len() ==> r@[i] == is_var_pos(table_view(tk@), i),
{
    let mut r: Vec<bool> = Vec::new();
    let n = tk[0].len();
    let mut i: usize = 0;
    while i < n
        invariant
            i <= n,
            tk@.len() > 0,
            same_lengths(table_view(tk@)),
            n == table_view(tk@)[0].len(),
            r@.len() == i,
            forall|k: int| 0 <= k < i ==> r@[k] == is_var_pos(table_view(tk@), k),
        decreases n - i,
    {
        let b = is_var_pos_exec(tk, i);
        r.push(b);
        i = i + 1;
    }
    r
}

fn var_row_exec(tk: &Vec<Vec<Vec<char>>>, j: usize, flags: &Vec<bool>) -> (r: Vec<Vec<char>>)
    requires
        j < tk@.len(),
        same_lengths(table_view(tk@)),
        flags@.len() == table_view(tk@)[0].len(),
        forall|i: int| 0 <= i < flags@.len() ==> flags@[i] == is_var_pos(table_view(tk@), i),
    ensures
        views(r@) == var_row(table_view(tk@), j as int, flags@.len()),
{
    let ghost tv = table_view(tk@);
    assert(tv[j as int].len() == tv[0].len());
    let mut r: Vec<Vec<char>> = Vec::new();
    let mut i: usize = 0;
    while i < flags.len()
        invariant
            i <= flags@.len(),
            j < tk@.len(),
            tv == table_view(tk@),
            tv[j as int].len() == flags@.len(),
            forall|k: int| 0 <= k < flags@.len() ==> flags@[k] == is_var_pos(tv, k),
            views(r@) == var_row(tv, j as int, i as nat),
        decreases flags.len() - i,
    {
        if flags[i] {
            push_line(&mut r, tk[j][i].clone());
        }
        i = i + 1;
    }
    r
}

fn template_exec(tk: &Vec<Vec<Vec<char>>>, flags: &Vec<bool>) -> (r: (Vec<char>, usize))
    requires
        tk@.len() > 0,
        same_lengths(table_view(tk@)),
        flags@.len() == table_view(tk@)[0].len(),
        forall|i: int| 0 <= i < flags@.len() ==> flags@[i] == is_var_pos(table_view(tk@), i),
    ensures
        r.0@ == template_upto(table_view(tk@), flags@.len()),
        r.1 == var_row(table_view(tk@), 0, flags@.len()).len(),
{
    let ghost tv = table_view(tk@);
    let mut t: Vec<char> = Vec::new();
    let mut c: usize = 0;
    let mut i: usize = 0;
    while i < flags.len()
        invariant
            i <= flags@.len(),
            tk@.len() > 0,
            tv == table_view(tk@),
            tv[0].len() == flags@.len(),
            forall|k: int| 0 <= k < flags@.len() ==> flags@[k] == is_var_pos(tv, k),
            t@ == template_upto(tv, i as nat),
            c == var_row(tv, 0, i as nat).len(),
            c <= i,
        decreases flags.len() - i,
    {
        if flags[i] {
            let p = crate::wikitext::placeholder_exec((c + 1) as u64);
            append(&mut t, &p);
            c = c + 1;
        } else {
            append(&mut t, &tk[0][i]);
        }
        i = i + 1;
    }
    (t, c)
}

fn group_rows_exec(gs: &Vec<(Vec<Vec<char>>, Vec<Vec<char>>)>) -> (r: Vec<Vec<char>>)
    ensures
        views(r@) == group_rows(group_views(gs@)),
{
    let mut r: Vec<Vec<char>> = Vec::new();
    let mut i: usize = 0;
    while i < gs.len()
        invariant
            i <= gs@.len(),
            views(r@) == group_rows(group_views(gs@)).take(i as int),
        decreases gs.len() - i,
    {
        let mut cells: Vec<Vec<char>> = Vec::new();
        let j = join_str(&gs[i].1, " / ");
        push_line(&mut cells, j);
        let ghost c0 = views(cells@);
        let g0 = clone_lines(&gs[i].0);
        extend(&mut cells, g0);
        let ghost gv = group_views(gs@)[i as int];
        assert(views(cells@) =~= seq![join(gv.1, " / "@)] + gv.0);
        let rw = row_exec(&cells);
        push_line(&mut r, rw);
        assert(group_rows(group_views(gs@)).take(i + 1) =~= group_rows(group_views(gs@)).take(
            i as int,
        ).push(row(seq![join(gv.1, " / "@)] + gv.0)));
        i = i + 1;
    }
    assert(group_rows(group_views(gs@)).take(gs@.len() as int) =~= group_rows(group_views(gs@)));
    r
}

fn row_labels_exec(rows: &Vec<(Vec<char>, Vec<char>)>) -> (r: Vec<Vec<char>>)
    ensures
        views(r@) == row_labels(pairs_view(rows@)),
{
    let mut r: Vec<Vec<char>> = Vec::new();
    let mut i: usize = 0;
    while i < rows.len()
        invariant
            i <= rows@.len(),
            views(r@) == row_labels(pairs_view(rows@)).take(i as int),
        decreases rows.len() - i,
    {
        push_line(&mut r, rows[i].1.clone());
        assert(row_labels(pairs_view(rows@)).take(i + 1) =~= row_labels(pairs_view(rows@)).take(
            i as int,
        ).push(rows@[i as int].1@));
        i = i + 1;
    }
    assert(row_labels(pairs_view(rows@)).take(rows@.len() as int) =~= row_labels(
        pairs_view(rows@),
    ));
    r
}

fn var_description_exec(
    rows: &Vec<(Vec<char>, Vec<char>)>,
    tk: &Vec<Vec<Vec<char>>>,
    flags: &Vec<bool>,
) -> (r: Vec<Vec<char>>)
    requires
        tk@.len() > 0,
        table_view(tk@) == token_table(pairs_view(rows@)),
        same_lengths(table_view(tk@)),
        flags@.len() == table_view(tk@)[0].len(),
        forall|i: int| 0 <= i < flags@.len() ==> flags@[i] == is_var_pos(table_view(tk@), i),
    ensures
        views(r@) == var_description(pairs_view(rows@)),
{
    let ghost tv = table_view(tk@);
    let (tpl, n) = template_exec(tk, flags);
    let mut out: Vec<Vec<char>> = Vec::new();
    let mut first = chars_of("- **天赋描述**: ");
    append(&mut first, &tpl);
    push_line(&mut out, first);
    push_line(&mut out, Vec::new());
    let mut header: Vec<Vec<char>> = Vec::new();
    push_str_line(&mut header, "条件");
    let names = var_names_exec(n);
    extend(&mut header, names);
    assert(views(header@) =~= seq!["条件"@] + var_names(n as nat));
    push_line(&mut out, row_exec(&header));
    let mut divs = repeat_cell_exec(":---", n);
    push_str_line(&mut divs, ":---");
    assert(views(divs@) =~= repeat_cell(":---"@, n as nat + 1));
    push_line(&mut out, row_exec(&divs));
    let ghost head = views(out@);
    assert(head =~= seq![
        "- **天赋描述**: "@ + template_upto(tv, tv[0].len()),
        Seq::empty(),
        row(seq!["条件"@] + var_names(n as nat)),
        row(repeat_cell(":---"@, n as nat + 1)),
    ]);
    let mut vt: Vec<Vec<Vec<char>>> = Vec::new();
    let mut j: usize = 0;
    while j < tk.len()
        invariant
            j <= tk@.len(),
            tk@.len() > 0,
            tv == table_view(tk@),
            same_lengths(tv),
            flags@.len() == tv[0].len(),
            forall|i: int| 0 <= i < flags@.len() ==> flags@[i] == is_var_pos(tv, i),
            vt@.map_values(|k: Vec<Vec<char>>| views(k@)) == var_table(tv).take(j as int),
        decreases tk.len() - j,
    {
        let vr = var_row_exec(tk, j, flags);
        let ghost before = vt@.map_values(|k: Vec<Vec<char>>| views(k@));
        vt.push(vr);
        assert(vt@.map_values(|k: Vec<Vec<char>>| views(k@)) =~= before.push(views(vr@)));
        assert(var_table(tv).take(j + 1) =~= var_table(tv).take(j as int).push(
            var_row(tv, j as int, tv[0].len()),
        ));
        j = j + 1;
    }
    assert(var_table(tv).take(tk@.len() as int) =~= var_table(tv));
    let labels = row_labels_exec(rows);
    assert(vt@.len() == tk@.len());
    assert(views(labels@).len() == rows@.len());
    assert(tv.len() == rows@.len());
    let gs = grouped_exec(&vt, &labels);
    let gr = group_rows_exec(&gs);
    assert(group_views(gs@) == grouped(var_table(tv), row_labels(pairs_view(rows@))));
    extend(&mut out, gr);
    push_line(&mut out, Vec::new());
    assert(views(out@) =~= head + group_rows(grouped(var_table(tv), row_labels(pairs_view(rows@))))
        + seq![Seq::<char>::empty()]);
    assert(views(out@) =~= var_description(pairs_view(rows@)));
    out
}

fn plain_description_exec(rows: &Vec<(Vec<char>, Vec<char>)>) -> (r: Vec<Vec<char>>)
    ensures
        views(r@) == plain_description(pairs_view(rows@)),
{
    let ghost rv = pairs_view(rows@);
    let mut keys: Vec<Vec<Vec<char>>> = Vec::new();
    let mut i: usize = 0;
    while i < rows.len()
        invariant
            i <= rows@.len(),
            rv == pairs_view(rows@),
            keys@.map_values(|k: Vec<Vec<char>>| views(k@)) == effect_keys(rv).take(i as int),
        decreases rows.len() - i,
    {
        let mut k: Vec<Vec<char>> = Vec::new();
        push_line(&mut k, rows[i].0.clone());
        assert(views(k@) =~= seq![rows@[i as int].0@]);
        let ghost before = keys@.map_values(|k: Vec<Vec<char>>| views(k@));
        keys.push(k);
        assert(keys@.map_values(|k: Vec<Vec<char>>| views(k@)) =~= before.push(
            seq![rows@[i as int].0@],
        ));
        assert(effect_keys(rv).take(i + 1) =~= effect_keys(rv).take(i as int).push(
            seq![rv[i as int].0],
        ));
        i = i + 1;
    }
    assert(effect_keys(rv).take(rows@.len() as int) =~= effect_keys(rv));
    let labels = row_labels_exec(rows);
    assert(keys@.len() == rows@.len());
    assert(views(labels@).len() == rows@.len());
    let gs = grouped_exec(&keys, &labels);
    let mut out: Vec<Vec<char>> = Vec::new();
    if gs.len() == 1 {
        let mut l = chars_of("- **天赋描述**: ");
        proof {
            crate::grouping::lemma_grouped_keys(effect_keys(rv), views(labels@));
            let g = grouped(effect_keys(rv), views(labels@));
            assert(g[0].0 == views(gs@[0].0@));
            let j = choose|j: int| 0 <= j < effect_keys(rv).len() && effect_keys(rv)[j] == #[trigger] g[0].0;
            assert(g[0].0 == seq![rv[j].0]);
            assert(views(gs@[0].0@).len() == 1);
        }
        append(&mut l, &gs[0].0[0]);
        push_line(&mut out, l);
        push_line(&mut out, Vec::new());
        assert(views(out@) =~= seq![
            "- **天赋描述**: "@ + grouped(effect_keys(rv), row_labels(rv))[0].0[0],
            Seq::<char>::empty(),
        ]);
    } else {
        let mut h: Vec<Vec<char>> = Vec::new();
        push_str_line(&mut h, "条件");
        push_str_line(&mut h, "效果");
        push_line(&mut out, row_exec(&h));
        let mut d: Vec<Vec<char>> = Vec::new();
        push_str_line(&mut d, ":---");
        push_str_line(&mut d, ":---");
        push_line(&mut out, row_exec(&d));
        assert(views(h@) =~= seq!["条件"@, "效果"@]);
        assert(views(d@) =~= seq![":---"@, ":---"@]);
        let gr = group_rows_exec(&gs);
        extend(&mut out, gr);
        push_line(&mut out, Vec::new());
        assert(views(out@) =~= seq![row(seq!["条件"@, "效果"@]), row(seq![":---"@, ":---"@])]
            + group_rows(grouped(effect_keys(rv), row_labels(rv))) + seq![Seq::<char>::empty()]);
    }
    assert(views(out@) =~= plain_description(rv));
    out
}

/// The description lines of a talent from its (effect, condition) rows. Where the
/// effects differ only in their numbers, the template filled in with the numbers of a
/// row gives back that row's effect.
pub fn render_talent_description(rows: &Vec<(Vec<char>, Vec<char>)>) -> (r: Vec<Vec<char>>)
    ensures
        views(r@) == talent_description(pairs_view(rows@)),
        ({
            let tk = token_table(pairs_view(rows@));
            extractable(tk) ==> forall|j: int|
                0 <= j < rows@.len() ==> template_filled(tk, #[trigger] var_table(tk)[j]) == rows@[j].0@
        }),
{
    if rows.len() == 0 {
        return Vec::new();
    }
    let tk = token_table_exec(rows);
    let ghost tv = table_view(tk@);
    assert(tv.len() == rows@.len());
    proof {
        if extractable(tv) {
            assert forall|j: int| 0 <= j < rows@.len() implies template_filled(
                tv,
                #[trigger] var_table(tv)[j],
            ) == rows@[j].0@ by {
                law_template_fills_back(pairs_view(rows@), j);
                assert(concat_pieces(tv[j]) == rows@[j].0@);
            }
        }
    }
    if same_lengths_exec(&tk) && tk[0].len() > 1 {
        let flags = var_flags_exec(&tk);
        let mut any = false;
        let mut i: usize = 0;
        while i < flags.len()
            invariant
                i <= flags@.len(),
                any == exists|k: int| 0 <= k < i && flags@[k],
            decreases flags.len() - i,
        {
            if flags[i] {
                any = true;
            }
            i = i + 1;
        }
        assert(any == exists|k: int| 0 <= k < tv[0].len() && is_var_pos(tv, k)) by {
            if any {
                let k = choose|k: int| 0 <= k < flags@.len() && flags@[k];
                assert(is_var_pos(tv, k));
            }
            if exists|k: int| 0 <= k < tv[0].len() && is_var_pos(tv, k) {
                let k = choose|k: int| 0 <= k < tv[0].len() && is_var_pos(tv, k);
                assert(flags@[k]);
            }
        }
        if any {
            return var_description_exec(rows, &tk, &flags);
        }
    }
    plain_description_exec(rows)
}

fn talent_block_exec(td: &TalentData) -> (r: Vec<Vec<char>>)
    ensures
        views(r@) == talent_block(td.model()),
{
    let mut out: Vec<Vec<char>> = Vec::new();
    let mut h = chars_of("#### ");
    append(&mut h, &td.name);
    push_line(&mut out, h);
    let mut o = chars_of("- **天赋序号**: ");
    let ord = talent_ordinal_exec(&td.index);
    append(&mut o, &ord);
    push_line(&mut out, o);
    let rows = stage_rows_exec(&td.stages);
    let d = render_talent_description(&rows);
    extend(&mut out, d);
    if td.notes.len() > 0 {
        let ns = clone_lines(&td.notes);
        extend(&mut out, ns);
        push_line(&mut out, Vec::new());
    }
    assert(views(out@) =~= talent_block(td.model()));
    out
}

/// The talents block of the combat data: the lines outside any talent, then per talent
/// its name, ordinal, description (a table where the stages differ) and notes.
pub fn render_talents_chars(ls: &Vec<Vec<char>>) -> (r: Vec<Vec<char>>)
    ensures
        views(r@) == talents_output(views(ls@)),
{
    let acc = talent_lines_exec(ls);
    let ghost st = acc.state();
    let ghost tb = talent_blocks(st.blocks);
    let mut out: Vec<Vec<char>> = Vec::new();
    push_str_line(&mut out, "### 天赋");
    let m = clone_lines(&acc.misc);
    extend(&mut out, m);
    let ghost base = views(out@);
    let mut j: usize = 0;
    while j < acc.blocks.len()
        invariant
            j <= acc.blocks@.len(),
            st == acc.state(),
            tb == talent_blocks(st.blocks),
            views(out@) == base + flat(tb.take(j as int)),
        decreases acc.blocks.len() - j,
    {
        let b = talent_block_exec(&acc.blocks[j]);
        assert(tb[j as int] == talent_block(acc.blocks@[j as int].model()));
        assert(tb.take(j + 1).drop_last() =~= tb.take(j as int));
        let ghost before = views(out@);
        extend(&mut out, b);
        assert(base + flat(tb.take(j + 1)) =~= before + tb[j as int]);
        j = j + 1;
    }
    assert(tb.take(acc.blocks@.len() as int) =~= tb);
    push_line(&mut out, Vec::new());
    assert(views(out@) =~= talents_output(views(ls@)));
    out
}

// ─── laws ─────────────────────────────────────────────────────

/// Stage keys strictly ascending (so each key once).
pub open spec fn stages_ascending(l: Seq<(Seq<char>, Stage)>) -> bool {
    forall|i: int, j: int| 0 <= i < j < l.len() ==> text_lt(#[trigger] l[i].0, #[trigger] l[j].0)
}

proof fn lemma_upsert_ascending(l: Seq<(Seq<char>, Stage)>, k: Seq<char>, which: int, val: Seq<char>)
    requires
        stages_ascending(l),
    ensures
        stages_ascending(stage_upsert(l, k, which, val)),
        forall|i: int|
            0 <= i < stage_upsert(l, k, which, val).len() ==> (#[trigger] stage_upsert(l, k, which, val)[i].0
                == k || exists|j: int| 0 <= j < l.len() && l[j].0 == stage_upsert(l, k, which, val)[i].0),
    decreases l.len(),
{
    let r = stage_upsert(l, k, which, val);
    if l.len() == 0 {
    } else if l[0].0 == k {
        assert forall|i: int| 0 <= i < r.len() implies (#[trigger] r[i].0 == k || exists|j: int|
            0 <= j < l.len() && l[j].0 == r[i].0) by {
            if i > 0 {
                assert(l[i].0 == r[i].0);
            }
        }
        assert forall|i: int, j: int| 0 <= i < j < r.len() implies text_lt(#[trigger] r[i].0, #[trigger] r[j].0) by {
            assert(r[j].0 == l[j].0);
            if i > 0 {
                assert(r[i].0 == l[i].0);
            }
        }
    } else if text_lt(k, l[0].0) {
        assert forall|i: int| 0 <= i < r.len() implies (#[trigger] r[i].0 == k || exists|j: int|
            0 <= j < l.len() && l[j].0 == r[i].0) by {
            if i > 0 {
                assert(l[i - 1].0 == r[i].0);
            }
        }
        assert forall|i: int, j: int| 0 <= i < j < r.len() implies text_lt(#[trigger] r[i].0, #[trigger] r[j].0) by {
            assert(r[j].0 == l[j - 1].0);
            if i > 0 {
                assert(r[i].0 == l[i - 1].0);
            } else if j - 1 > 0 {
                crate::text::lemma_text_lt_transitive(k, l[0].0, l[j - 1].0);
            }
        }
    } else {
        let rest = l.drop_first();
        assert(stages_ascending(rest)) by {
            assert forall|i: int, j: int| 0 <= i < j < rest.len() implies text_lt(
                #[trigger] rest[i].0,
                #[trigger] rest[j].0,
            ) by {
                assert(rest[i] == l[i + 1] && rest[j] == l[j + 1]);
            }
        }
        lemma_upsert_ascending(rest, k, which, val);
        let r2 = stage_upsert(rest, k, which, val);
        assert(r =~= seq![l[0]] + r2);
        crate::text::lemma_text_lt_total(k, l[0].0);
        assert forall|i: int| 0 <= i < r.len() implies (#[trigger] r[i].0 == k || exists|j: int|
            0 <= j < l.len() && l[j].0 == r[i].0) by {
            if i == 0 {
                assert(l[0].0 == r[0].0);
            } else if r2[i - 1].0 != k {
                let j = choose|j: int| 0 <= j < rest.len() && rest[j].0 == r2[i - 1].0;
                assert(l[j + 1].0 == r[i].0);
            }
        }
        assert forall|i: int, j: int| 0 <= i < j < r.len() implies text_lt(#[trigger] r[i].0, #[trigger] r[j].0) by {
            if i == 0 {
                let y = r2[j - 1].0;
                if y != k {
                    let m = choose|m: int| 0 <= m < rest.len() && rest[m].0 == y;
                    assert(l[m + 1].0 == y);
                }
            } else {
                assert(r[i] == r2[i - 1] && r[j] == r2[j - 1]);
            }
        }
    }
}

/// Every talent's stages are strictly ascending by key.
pub open spec fn all_stages_ascending(st: TalentRead) -> bool {
    forall|b: int| 0 <= b < st.blocks.len() ==> stages_ascending(#[trigger] st.blocks[b].stages)
}

proof fn lemma_step_ascending(st: TalentRead, line: Seq<char>)
    requires
        all_stages_ascending(st),
    ensures
        all_stages_ascending(talent_step(st, line)),
{
    let n = talent_step(st, line);
    assert forall|b: int| 0 <= b < n.blocks.len() implies stages_ascending(#[trigger] n.blocks[b].stages) by {
        if b < st.blocks.len() && b != st.blocks.len() - 1 {
            assert(n.blocks[b] == st.blocks[b]);
        } else if b == st.blocks.len() - 1 && st.blocks.len() > 0 {
            let td = st.blocks.last();
            assert(stages_ascending(td.stages));
            match regex_first_captures(PAT_TALENT_SUB@, line) {
                Some(c) => {
                    let sid = grp(c, 2);
                    let subk = grp(c, 3);
                    let val = grp(c, 4);
                    if subk.len() > 0 {
                        let field = if has_grp(c, 1) {
                            "潜能增强"@ + subk
                        } else {
                            subk
                        };
                        let which: int = if field == "条件"@ {
                            1
                        } else if field == "效果"@ {
                            2
                        } else {
                            0
                        };
                        lemma_upsert_ascending(td.stages, sid, which, val);
                    }
                },
                None => {},
            }
        }
    }
}

/// The stages of every talent are read into an ordered map: whatever the lines,
/// each talent's stages come out in strictly ascending order of their keys (in
/// code-point order), so that no key occurs twice.
pub proof fn law_talent_stages_ascending(ls: Seq<Seq<char>>)
    ensures
        all_stages_ascending(talent_lines(ls)),
    decreases ls.len(),
{
    if ls.len() > 0 {
        law_talent_stages_ascending(ls.drop_last());
        lemma_step_ascending(talent_lines(ls.drop_last()), ls.last());
    }
}

proof fn lemma_var_row_len(tk: Seq<Seq<Seq<char>>>, j: int, i: nat)
    ensures
        var_row(tk, j, i).len() == var_row(tk, 0, i).len(),
    decreases i,
{
    if i > 0 {
        lemma_var_row_len(tk, j, (i - 1) as nat);
    }
}

/// In the table of a talent description's changing numbers, every row (a group of
/// stages with the same numbers) holds exactly one cell per `var` column of the head.
pub proof fn law_var_rows_fill_the_head(rows: Seq<(Seq<char>, Seq<char>)>)
    requires
        rows.len() > 0,
    ensures
        ({
            let tk = token_table(rows);
            let gs = grouped(var_table(tk), row_labels(rows));
            forall|g: int| 0 <= g < gs.len() ==> (#[trigger] gs[g]).0.len() == var_row(tk, 0, tk[0].len()).len()
        }),
{
    let tk = token_table(rows);
    let vt = var_table(tk);
    let gs = grouped(vt, row_labels(rows));
    crate::grouping::lemma_grouped_keys(vt, row_labels(rows));
    assert forall|g: int| 0 <= g < gs.len() implies (#[trigger] gs[g]).0.len() == var_row(tk, 0, tk[0].len()).len() by {
        let j = choose|j: int| 0 <= j < vt.len() && vt[j] == #[trigger] gs[g].0;
        lemma_var_row_len(tk, j, tk[0].len());
    }
}

proof fn lemma_var_row_prefix(tk: Seq<Seq<Seq<char>>>, j: int, i: nat, n: nat)
    requires
        i <= n,
    ensures
        var_row(tk, j, i).len() <= var_row(tk, j, n).len(),
        forall|k: int| 0 <= k < var_row(tk, j, i).len() ==> #[trigger] var_row(tk, j, n)[k] == var_row(tk, j, i)[k],
    decreases n,
{
    if n > i {
        lemma_var_row_prefix(tk, j, i, (n - 1) as nat);
    }
}

proof fn lemma_filled_upto(tk: Seq<Seq<Seq<char>>>, j: int, i: nat)
    requires
        0 <= j < tk.len(),
        same_lengths(tk),
        i <= tk[0].len(),
    ensures
        filled_upto(tk, var_row(tk, j, tk[0].len()), i) == concat_pieces(tk[j].take(i as int)),
    decreases i,
{
    let n = tk[0].len();
    let vals = var_row(tk, j, n);
    assert(tk[j].len() == n);
    if i == 0 {
        assert(tk[j].take(0) =~= Seq::<Seq<char>>::empty());
    } else {
        let p = (i - 1) as nat;
        lemma_filled_upto(tk, j, p);
        assert(tk[j].take(i as int).drop_last() =~= tk[j].take(p as int));
        if is_var_pos(tk, p as int) {
            lemma_var_row_len(tk, j, p);
            lemma_var_row_prefix(tk, j, i, n);
            assert(var_row(tk, j, i) == var_row(tk, j, p).push(tk[j][p as int]));
            assert(vals[var_row(tk, j, p).len() as int] == tk[j][p as int]);
        } else if j != 0 {
            assert(tk[j][p as int] == tk[0][p as int]);
        }
    }
}

/// Where the effects of a talent's rows all break into the same number of pieces and
/// numbers, filling the description template in with the numbers of row `j` gives the
/// pieces and numbers of row `j`'s effect, one after another.
pub proof fn law_template_fills_back(rows: Seq<(Seq<char>, Seq<char>)>, j: int)
    requires
        0 <= j < rows.len(),
        same_lengths(token_table(rows)),
    ensures
        ({
            let tk = token_table(rows);
            template_filled(tk, var_table(tk)[j]) == concat_pieces(tk[j])
        }),
{
    let tk = token_table(rows);
    lemma_filled_upto(tk, j, tk[0].len());
    assert(tk[j].take(tk[0].len() as int) =~= tk[j]);
}

/// Every stage of a talent with an effect and a condition that does not name a module
/// gives a description row of its effect, labelled by its condition (`——` read as
/// `基础`).
pub proof fn law_stage_rows(stages: Seq<(Seq<char>, Stage)>)
    ensures
        forall|i: int|
            0 <= i < stages.len() && (#[trigger] stages[i]).1.1.len() > 0 && !contains(stages[i].1.0, "模组"@)
                ==> stage_rows(stages).contains(
                (
                    stages[i].1.1,
                    if stages[i].1.0 == "——"@ {
                        "基础"@
                    } else {
                        stages[i].1.0
                    },
                ),
            ),
    decreases stages.len(),
{
    if stages.len() > 0 {
        let d = stages.drop_last();
        law_stage_rows(d);
        let rd = stage_rows(d);
        let rs = stage_rows(stages);
        let n = stages.len() - 1;
        assert(rs == rd || rs == rd.push(rs.last()));
        assert forall|i: int|
            0 <= i < stages.len() && (#[trigger] stages[i]).1.1.len() > 0 && !contains(stages[i].1.0, "模组"@)
                implies rs.contains(
                (
                    stages[i].1.1,
                    if stages[i].1.0 == "——"@ {
                        "基础"@
                    } else {
                        stages[i].1.0
                    },
                ),
            ) by {
            if i < n {
                assert(d[i] == stages[i]);
                let x = (
                    stages[i].1.1,
                    if stages[i].1.0 == "——"@ {
                        "基础"@
                    } else {
                        stages[i].1.0
                    },
                );
                let k = choose|k: int| 0 <= k < rd.len() && rd[k] == x;
                assert(rs[k] == x);
            } else {
                assert(rs[rd.len() as int] == rs.last());
            }
        }
    }
}

} // verus!
