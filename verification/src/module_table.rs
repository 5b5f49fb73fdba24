//! The combat side of the module section: per module, its type, branch, stat bonuses
//! and effect updates for levels 1 to 3.
use vstd::prelude::*;
use crate::materials::{module_section, PAT_PARAM};
use crate::md::{extend, flat, push_line, push_str_line, row, row_exec};
use crate::modules::{
    first_value, lookup, lookup_str, module_chunks, module_fields, module_name, module_name_exec,
    module_title, module_title_exec, pair_views, parse_mod_kv_block, split_module_chunks,
    type_suffix, type_suffix_exec,
};
use crate::text::{
    append, append_str, chars_of, find_exec, skip, starts_with, starts_with_str, to_strings,
    views,
};
use crate::wikitext::{br_to, br_to_exec, clean_chars, cleaned};

verus! {

/// The stats a module may raise, in table order.
pub open spec fn module_stats() -> Seq<Seq<char>> {
    seq!["生命"@, "攻击"@, "防御"@, "法术抗性"@, "阻挡数"@, "攻击速度"@]
}

/// The stats of `s` that the module's fields name.
pub open spec fn stats_named(f: Seq<(Seq<char>, Seq<char>)>, s: Seq<Seq<char>>) -> Seq<Seq<char>> {
    s.filter(|x: Seq<char>| first_value(f, x) is Some)
}

/// The stats the module's fields name, in table order.
pub open spec fn present_stats(f: Seq<(Seq<char>, Seq<char>)>) -> Seq<Seq<char>> {
    stats_named(f, module_stats())
}

/// The bonus cells of a level.
pub open spec fn bonuses(f: Seq<(Seq<char>, Seq<char>)>, p: Seq<Seq<char>>, suffix: Seq<char>) -> Seq<
    Seq<char>,
> {
    p.map_values(|s: Seq<char>| bonus(f, s + suffix))
}

/// The divider cells of the stat columns.
pub open spec fn stat_dividers(p: Seq<Seq<char>>) -> Seq<Seq<char>> {
    p.map_values(|s: Seq<char>| ":---:"@)
}

/// A stat bonus as shown: `-` where absent, a `+` before an unsigned value.
pub open spec fn bonus(f: Seq<(Seq<char>, Seq<char>)>, key: Seq<char>) -> Seq<char> {
    let v = match first_value(f, key) {
        Some(v) => v,
        None => "-"@,
    };
    if !starts_with(v, "-"@) && !starts_with(v, "+"@) {
        "+"@ + v
    } else {
        v
    }
}

/// The effect update of a level: the trait at level 1, the talent after.
pub open spec fn effect_update(f: Seq<(Seq<char>, Seq<char>)>, lvl: Seq<char>) -> Seq<char> {
    if lvl == "1"@ {
        match first_value(f, "特性"@) {
            Some(v) => "**特性更新**: "@ + br_to(cleaned(v), " "@),
            None => "-"@,
        }
    } else {
        match first_value(f, "天赋"@ + lvl) {
            Some(v) => "**天赋更新**: "@ + br_to(cleaned(v), " "@),
            None => "-"@,
        }
    }
}

/// The cells of one level's row (`suffix` marks that level's fields).
pub open spec fn level_cells(f: Seq<(Seq<char>, Seq<char>)>, suffix: Seq<char>, lvl: Seq<char>) -> Seq<
    Seq<char>,
> {
    seq![lvl] + bonuses(f, present_stats(f), suffix) + seq![effect_update(f, lvl)]
}

/// The table row of one level.
pub open spec fn level_row(f: Seq<(Seq<char>, Seq<char>)>, suffix: Seq<char>, lvl: Seq<char>) -> Seq<
    char,
> {
    row(level_cells(f, suffix, lvl))
}

/// The head cells of a module's table.
pub open spec fn table_head(f: Seq<(Seq<char>, Seq<char>)>) -> Seq<Seq<char>> {
    seq!["模组等级"@] + present_stats(f) + seq!["战斗效果更新"@]
}

/// The lines of one module block (nothing for the base badge).
pub open spec fn module_table(chunk: Seq<char>) -> Seq<Seq<char>> {
    let f = module_fields(chunk);
    if first_value(f, "基础证章"@) is Some {
        Seq::empty()
    } else {
        let t = match first_value(f, "类型"@) {
            Some(x) => x,
            None => Seq::empty(),
        };
        module_head(f, module_title(chunk), t) + module_levels(f)
    }
}

/// The heading, type and branch lines of a module block.
pub open spec fn module_head(f: Seq<(Seq<char>, Seq<char>)>, title: Seq<char>, t: Seq<char>) -> Seq<
    Seq<char>,
> {
    seq!["#### "@ + module_name(f, title)] + (if t.len() > 0 {
        seq!["- **模组类型**: "@ + type_suffix(t) + "模"@]
    } else {
        Seq::empty()
    }) + (match first_value(f, "分支"@) {
        Some(b) => seq!["- **分支**: "@ + cleaned(b)],
        None => Seq::empty(),
    })
}

/// The level table of a module block, framed by blank lines.
pub open spec fn module_levels(f: Seq<(Seq<char>, Seq<char>)>) -> Seq<Seq<char>> {
    let p = present_stats(f);
    seq![
        Seq::empty(),
        row(table_head(f)),
        row(seq![":---:"@] + stat_dividers(p) + seq![":---"@]),
        level_row(f, Seq::empty(), "1"@),
        level_row(f, "2"@, "2"@),
        level_row(f, "3"@, "3"@),
        Seq::empty(),
    ]
}

pub open spec fn module_tables(chunks: Seq<Seq<char>>) -> Seq<Seq<Seq<char>>> {
    chunks.map_values(|c: Seq<char>| module_table(c))
}

/// The module lines of a page.
pub open spec fn modules_output(raw: Seq<char>) -> Seq<Seq<char>> {
    match module_section(raw) {
        Some(sec) => flat(module_tables(module_chunks(sec))),
        None => Seq::empty(),
    }
}

fn module_stats_exec() -> (r: Vec<Vec<char>>)
    ensures
        views(r@) == module_stats(),
{
    let mut r: Vec<Vec<char>> = Vec::new();
    push_str_line(&mut r, "生命");
    push_str_line(&mut r, "攻击");
    push_str_line(&mut r, "防御");
    push_str_line(&mut r, "法术抗性");
    push_str_line(&mut r, "阻挡数");
    push_str_line(&mut r, "攻击速度");
    assert(views(r@) =~= module_stats());
    r
}

fn present_stats_exec(f: &Vec<(Vec<char>, Vec<char>)>) -> (r: Vec<Vec<char>>)
    ensures
        views(r@) == present_stats(pair_views(f@)),
{
    let all = module_stats_exec();
    let ghost ms = module_stats();
    let mut r: Vec<Vec<char>> = Vec::new();
    let mut i: usize = 0;
    while i < all.len()
        invariant
            i <= all@.len(),
            views(all@) == ms,
            ms == module_stats(),
            views(r@) == stats_named(pair_views(f@), ms.take(i as int)),
        decreases all.len() - i,
    {
        assert(ms.take(i + 1).drop_last() =~= ms.take(i as int));
        assert(ms.take(i + 1).last() == all@[i as int]@);
        reveal_with_fuel(Seq::filter, 1);
        if lookup(f, &all[i]).is_some() {
            push_line(&mut r, all[i].clone());
        }
        i = i + 1;
    }
    assert(ms.take(all@.len() as int) =~= ms);
    r
}

fn bonus_exec(f: &Vec<(Vec<char>, Vec<char>)>, key: &Vec<char>) -> (r: Vec<char>)
    ensures
        r@ == bonus(pair_views(f@), key@),
{
    let v = match lookup(f, key) {
        Some(v) => v,
        None => chars_of("-"),
    };
    if !starts_with_str(&v, "-") && !starts_with_str(&v, "+") {
        let mut r = chars_of("+");
        append(&mut r, &v);
        r
    } else {
        v
    }
}

fn effect_update_exec(f: &Vec<(Vec<char>, Vec<char>)>, lvl: &str) -> (r: Vec<char>)
    ensures
        r@ == effect_update(pair_views(f@), lvl@),
{
    let one = chars_of(lvl);
    if crate::text::eq_str(&one, "1") {
        match lookup_str(f, "特性") {
            Some(v) => {
                let c = clean_chars(&v);
                let b = br_to_exec(&c, " ");
                let mut r = chars_of("**特性更新**: ");
                append(&mut r, &b);
                r
            },
            None => chars_of("-"),
        }
    } else {
        let mut k = chars_of("天赋");
        append(&mut k, &one);
        match lookup(f, &k) {
            Some(v) => {
                let c = clean_chars(&v);
                let b = br_to_exec(&c, " ");
                let mut r = chars_of("**天赋更新**: ");
                append(&mut r, &b);
                r
            },
            None => chars_of("-"),
        }
    }
}

fn level_row_exec(
    f: &Vec<(Vec<char>, Vec<char>)>,
    p: &Vec<Vec<char>>,
    suffix: &str,
    lvl: &str,
) -> (r: Vec<char>)
    requires
        views(p@) == present_stats(pair_views(f@)),
    ensures
        r@ == level_row(pair_views(f@), suffix@, lvl@),
{
    let ghost fv = pair_views(f@);
    let mut cells: Vec<Vec<char>> = Vec::new();
    push_str_line(&mut cells, lvl);
    let suf = chars_of(suffix);
    let mut i: usize = 0;
    while i < p.len()
        invariant
            i <= p@.len(),
            fv == pair_views(f@),
            suf@ == suffix@,
            views(cells@) == seq![lvl@] + bonuses(fv, views(p@), suffix@).take(i as int),
        decreases p.len() - i,
    {
        let mut key = p[i].clone();
        append(&mut key, &suf);
        let b = bonus_exec(f, &key);
        assert(bonuses(fv, views(p@), suffix@).take(i + 1) =~= bonuses(fv, views(p@), suffix@).take(
            i as int,
        ).push(b@));
        let ghost before = views(cells@);
        push_line(&mut cells, b);
        assert(views(cells@) =~= before.push(b@));
        i = i + 1;
    }
    assert(bonuses(fv, views(p@), suffix@).take(p@.len() as int) =~= bonuses(
        fv,
        views(p@),
        suffix@,
    ));
    let e = effect_update_exec(f, lvl);
    let ghost before = views(cells@);
    push_line(&mut cells, e);
    assert(views(cells@) =~= level_cells(fv, suffix@, lvl@));
    row_exec(&cells)
}

fn module_head_exec(f: &Vec<(Vec<char>, Vec<char>)>, title: &Vec<char>, t: &Vec<char>) -> (r: Vec<
    Vec<char>,
>)
    ensures
        views(r@) == module_head(pair_views(f@), title@, t@),
{
    let mut out: Vec<Vec<char>> = Vec::new();
    let name = module_name_exec(f, title);
    let mut h = chars_of("#### ");
    append(&mut h, &name);
    push_line(&mut out, h);
    let ghost o1 = views(out@);
    if t.len() > 0 {
        let mut l = chars_of("- **模组类型**: ");
        let sfx = type_suffix_exec(t);
        append(&mut l, &sfx);
        append_str(&mut l, "模");
        push_line(&mut out, l);
    }
    let ghost o2 = views(out@);
    match lookup_str(f, "分支") {
        Some(b) => {
            let mut l = chars_of("- **分支**: ");
            let c = clean_chars(&b);
            append(&mut l, &c);
            push_line(&mut out, l);
        },
        None => {},
    }
    assert(views(out@) =~= module_head(pair_views(f@), title@, t@));
    out
}

fn module_levels_exec(f: &Vec<(Vec<char>, Vec<char>)>) -> (r: Vec<Vec<char>>)
    ensures
        views(r@) == module_levels(pair_views(f@)),
{
    let mut out: Vec<Vec<char>> = Vec::new();
    push_line(&mut out, Vec::new());
    let p = present_stats_exec(f);
    let mut cols: Vec<Vec<char>> = Vec::new();
    push_str_line(&mut cols, "模组等级");
    let mut divs: Vec<Vec<char>> = Vec::new();
    push_str_line(&mut divs, ":---:");
    let mut i: usize = 0;
    while i < p.len()
        invariant
            i <= p@.len(),
            views(cols@) == seq!["模组等级"@] + views(p@).take(i as int),
            views(divs@) == seq![":---:"@] + stat_dividers(views(p@)).take(i as int),
        decreases p.len() - i,
    {
        push_line(&mut cols, p[i].clone());
        push_str_line(&mut divs, ":---:");
        assert(views(p@).take(i + 1) =~= views(p@).take(i as int).push(p@[i as int]@));
        assert(stat_dividers(views(p@)).take(i + 1) =~= stat_dividers(views(p@)).take(
            i as int,
        ).push(":---:"@));
        i = i + 1;
    }
    assert(views(p@).take(p@.len() as int) =~= views(p@));
    assert(stat_dividers(views(p@)).take(p@.len() as int) =~= stat_dividers(views(p@)));
    push_str_line(&mut cols, "战斗效果更新");
    push_str_line(&mut divs, ":---");
    let ghost pv = present_stats(pair_views(f@));
    assert(views(cols@) =~= table_head(pair_views(f@)));
    assert(views(divs@) =~= seq![":---:"@] + stat_dividers(pv) + seq![":---"@]);
    let rc = row_exec(&cols);
    let rd = row_exec(&divs);
    push_line(&mut out, rc);
    push_line(&mut out, rd);
    proof {
        reveal_strlit("");
    }
    assert(""@ =~= Seq::<char>::empty());
    push_line(&mut out, level_row_exec(f, &p, "", "1"));
    push_line(&mut out, level_row_exec(f, &p, "2", "2"));
    push_line(&mut out, level_row_exec(f, &p, "3", "3"));
    push_line(&mut out, Vec::new());
    assert(views(out@) =~= module_levels(pair_views(f@)));
    out
}

fn module_table_exec(chunk: &Vec<char>) -> (r: Vec<Vec<char>>)
    ensures
        views(r@) == module_table(chunk@),
{
    let f = parse_mod_kv_block(chunk);
    if lookup_str(&f, "基础证章").is_some() {
        return Vec::new();
    }
    let t = match lookup_str(&f, "类型") {
        Some(x) => x,
        None => Vec::new(),
    };
    let title = module_title_exec(chunk);
    let mut out = module_head_exec(&f, &title, &t);
    let lv = module_levels_exec(&f);
    extend(&mut out, lv);
    out
}

/// The combat lines of the module section of a page: per module its heading, type,
/// branch and a table of its stat bonuses and effect updates at levels 1 to 3.
pub fn parse_modules_raw_chars(raw: &Vec<char>) -> (r: Vec<Vec<char>>)
    ensures
        views(r@) == modules_output(raw@),
{
    let marker = chars_of("==模组==");
    match find_exec(raw, &marker) {
        Some(i) => {
            proof {
                crate::text::lemma_find(raw@, marker@);
            }
            let sec = skip(raw, i);
            let chunks = split_module_chunks(&sec);
            let ghost mt = module_tables(module_chunks(sec@));
            let mut out: Vec<Vec<char>> = Vec::new();
            let mut j: usize = 0;
            while j < chunks.len()
                invariant
                    j <= chunks@.len(),
                    views(chunks@) == module_chunks(sec@),
                    mt == module_tables(module_chunks(sec@)),
                    views(out@) == flat(mt.take(j as int)),
                decreases chunks.len() - j,
            {
                let b = module_table_exec(&chunks[j]);
                assert(mt.take(j + 1).drop_last() =~= mt.take(j as int));
                assert(mt[j as int] == module_table(chunks@[j as int]@));
                extend(&mut out, b);
                j = j + 1;
            }
            assert(mt.take(chunks@.len() as int) =~= mt);
            out
        },
        None => Vec::new(),
    }
}

/// The combat lines of the module section of the page `raw_text`.
pub fn parse_modules_raw(raw_text: &str) -> (r: Vec<String>)
    ensures
        r.deep_view() == modules_output(raw_text@),
{
    let raw = chars_of(raw_text);
    let out = parse_modules_raw_chars(&raw);
    to_strings(&out)
}

/// Every level row of a module's table has as many cells as its head: the level, one
/// bonus per stat the module names, and the effect update.
pub proof fn law_module_rows_fit_the_head(f: Seq<(Seq<char>, Seq<char>)>, suffix: Seq<char>, lvl: Seq<char>)
    ensures
        level_cells(f, suffix, lvl).len() == table_head(f).len(),
{
}

/// In a module's level table each stat column is headed by a stat that the module's
/// fields name, and the cell of a level under it is that stat's bonus at that level
/// (`-` where not given, `+` before an unsigned value); the first column is the level and
/// the last the effect update: the trait at level 1, the talent of that level after.
pub proof fn law_module_columns_match_the_head(f: Seq<(Seq<char>, Seq<char>)>, suffix: Seq<char>, lvl: Seq<char>)
    ensures
        ({
            let p = present_stats(f);
            let head = table_head(f);
            let cells = level_cells(f, suffix, lvl);
            &&& head.len() == cells.len()
            &&& cells[0] == lvl
            &&& forall|j: int|
                0 <= j < p.len() ==> head[j + 1] == #[trigger] p[j] && module_stats().contains(p[j]) && first_value(
                    f,
                    p[j],
                ) is Some && cells[j + 1] == bonus(f, p[j] + suffix)
            &&& cells[p.len() as int + 1] == effect_update(f, lvl)
        }),
        forall|key: Seq<char>|
            #[trigger] bonus(f, key) == match first_value(f, key) {
                None => "-"@,
                Some(v) => if starts_with(v, "-"@) || starts_with(v, "+"@) {
                    v
                } else {
                    "+"@ + v
                },
            },
        lvl == "1"@ ==> effect_update(f, lvl) == match first_value(f, "特性"@) {
            Some(v) => "**特性更新**: "@ + br_to(cleaned(v), " "@),
            None => "-"@,
        },
        lvl != "1"@ ==> effect_update(f, lvl) == match first_value(f, "天赋"@ + lvl) {
            Some(v) => "**天赋更新**: "@ + br_to(cleaned(v), " "@),
            None => "-"@,
        },
{
    let p = present_stats(f);
    let head = table_head(f);
    let cells = level_cells(f, suffix, lvl);
    let keep = |x: Seq<char>| first_value(f, x) is Some;
    assert forall|j: int| 0 <= j < p.len() implies head[j + 1] == #[trigger] p[j] && module_stats().contains(p[j])
        && first_value(f, p[j]) is Some && cells[j + 1] == bonus(f, p[j] + suffix) by {
        assert(p == module_stats().filter(keep));
        module_stats().lemma_filter_pred(keep, j);
        assert(p.contains(p[j]));
        module_stats().lemma_filter_contains_rev(keep, p[j]);
        assert(cells[j + 1] == bonuses(f, p, suffix)[j]);
    }
    reveal_strlit("-");
    assert(starts_with("-"@, "-"@)) by {
        assert("-"@.take(1) =~= "-"@);
    }
}

} // verus!
