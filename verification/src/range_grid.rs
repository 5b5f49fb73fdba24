//! Attack ranges: the cells of a range drawing (`<use>` elements of an SVG widget)
//! laid out as a text grid of `■` (the operator), `□` (a cell in range) and `　`.
//!
//! A cell's position is its `x`/`y` attribute divided by 26, rounded half away from
//! zero, the decimal text being read exactly; an attribute that is not a decimal
//! number counts as 0, and positions beyond the range of `i32` are held at its bounds.
use vstd::prelude::*;
use crate::patterns::{captures, captures_all, grp, regex_all_captures, regex_first_captures};
use crate::strops::{all_digits, decimal, digit_char, digits_value, join, join_exec, trim, trim_end, trim_end_exec, trim_exec};
use crate::text::{chars_of, eq_str, find, find_exec, lemma_find, skip, slice_of, to_string, views};

verus! {

/// A `<use ...>` element, its attributes in group 1.
pub const PAT_USE: &'static str = "<use\\s+([^>]+)/?>(?:</use>)?";

/// The `href="#N"` attribute.
pub const PAT_HREF: &'static str = "(?:xlink:)?href=\"#(\\d+)\"";

/// The `x` attribute.
pub const PAT_X: &'static str = "x=\"([-\\d.]+)\"";

/// The `y` attribute.
pub const PAT_Y: &'static str = "y=\"([-\\d.]+)\"";

/// Whether `b` is an unsigned decimal: ASCII digits with at most one `.`, and at least
/// one digit.
pub open spec fn decimal_ok(b: Seq<char>) -> bool {
    match find(b, "."@) {
        Some(p) => all_digits(b.take(p)) && all_digits(b.skip(p + 1)) && b.len() > 1,
        None => b.len() > 0 && all_digits(b),
    }
}

/// The digits before the `.` of a decimal.
pub open spec fn int_digits(b: Seq<char>) -> Seq<char> {
    match find(b, "."@) {
        Some(p) => b.take(p),
        None => b,
    }
}

/// A grid position from an attribute text: the number divided by 26, rounded half
/// away from zero (which depends on its integer part alone), held within `i32`.
pub open spec fn coord(s: Seq<char>) -> int {
    let neg = s.len() > 0 && s[0] == '-';
    let b = if neg {
        s.drop_first()
    } else {
        s
    };
    if !decimal_ok(b) {
        0
    } else {
        let q: int = (digits_value(int_digits(b)) + 13) as int / 26;
        if neg {
            if q > 2147483648 {
                -2147483648
            } else {
                -q
            }
        } else if q > 2147483647 {
            2147483647
        } else {
            q
        }
    }
}

/// A cell: its mark and its column and row.
pub type Cell = (char, int, int);

/// The cell of one `<use>` element, if it has an `href`, an `x` and a `y`.
pub open spec fn use_cell(c: Seq<Option<Seq<char>>>) -> Option<Cell> {
    let attrs = grp(c, 1);
    match regex_first_captures(PAT_HREF@, attrs) {
        Some(h) => match regex_first_captures(PAT_X@, attrs) {
            Some(x) => match regex_first_captures(PAT_Y@, attrs) {
                Some(y) => Some(
                    (
                        if trim(grp(h, 1)) == "1"@ {
                            '■'
                        } else {
                            '□'
                        },
                        coord(grp(x, 1)),
                        coord(grp(y, 1)),
                    ),
                ),
                None => None,
            },
            None => None,
        },
        None => None,
    }
}

/// The cells of the `<use>` elements, in order.
pub open spec fn cells_of(all: Seq<Seq<Option<Seq<char>>>>) -> Seq<Cell>
    decreases all.len(),
{
    if all.len() == 0 {
        Seq::empty()
    } else {
        let r = cells_of(all.drop_last());
        match use_cell(all.last()) {
            Some(c) => r.push(c),
            None => r,
        }
    }
}

/// The cells of a range drawing.
pub open spec fn svg_cells(svg: Seq<char>) -> Seq<Cell> {
    cells_of(regex_all_captures(PAT_USE@, svg))
}

pub open spec fn min_of(v: Seq<int>) -> int
    decreases v.len(),
{
    if v.len() <= 1 {
        if v.len() == 1 {
            v[0]
        } else {
            0
        }
    } else if v.last() < min_of(v.drop_last()) {
        v.last()
    } else {
        min_of(v.drop_last())
    }
}

pub open spec fn max_of(v: Seq<int>) -> int
    decreases v.len(),
{
    if v.len() <= 1 {
        if v.len() == 1 {
            v[0]
        } else {
            0
        }
    } else if v.last() > max_of(v.drop_last()) {
        v.last()
    } else {
        max_of(v.drop_last())
    }
}

pub open spec fn xs(cells: Seq<Cell>) -> Seq<int> {
    cells.map_values(|c: Cell| c.1)
}

pub open spec fn ys(cells: Seq<Cell>) -> Seq<int> {
    cells.map_values(|c: Cell| c.2)
}

/// The mark of the first cell at (`x`, `y`), or `　` where there is none.
pub open spec fn cell_at(cells: Seq<Cell>, x: int, y: int) -> char
    decreases cells.len(),
{
    if cells.len() == 0 {
        '　'
    } else if cells[0].1 == x && cells[0].2 == y {
        cells[0].0
    } else {
        cell_at(cells.drop_first(), x, y)
    }
}

/// The marks of row `y` over `n` columns from `x0`, each followed by a space.
pub open spec fn row_chars(cells: Seq<Cell>, y: int, x0: int, n: nat) -> Seq<char>
    decreases n,
{
    if n == 0 {
        Seq::empty()
    } else {
        row_chars(cells, y, x0, (n - 1) as nat) + seq![cell_at(cells, x0 + n - 1, y), ' ']
    }
}

/// `n` rows from `y0`, each of `w` columns from `x0`, trailing whitespace trimmed.
pub open spec fn grid_rows(cells: Seq<Cell>, x0: int, w: nat, y0: int, n: nat) -> Seq<Seq<char>>
    decreases n,
{
    if n == 0 {
        Seq::empty()
    } else {
        grid_rows(cells, x0, w, y0, (n - 1) as nat).push(trim_end(row_chars(cells, y0 + n - 1, x0, w)))
    }
}

/// The text grid of the cells over their bounding box (empty without cells).
pub open spec fn grid_text(cells: Seq<Cell>) -> Seq<char> {
    if cells.len() == 0 {
        Seq::empty()
    } else {
        let x0 = min_of(xs(cells));
        let x1 = max_of(xs(cells));
        let y0 = min_of(ys(cells));
        let y1 = max_of(ys(cells));
        join(grid_rows(cells, x0, (x1 - x0 + 1) as nat, y0, (y1 - y0 + 1) as nat), "\n"@)
    }
}

/// The text grid of a range drawing.
pub open spec fn svg_grid(svg: Seq<char>) -> Seq<char> {
    grid_text(svg_cells(svg))
}

/// What a range id is shown as: the grid of its drawing, or the id itself where the
/// drawing could not be had or draws nothing.
pub open spec fn grid_or_id(range_id: Seq<char>, svg: Option<Seq<char>>) -> Seq<char> {
    match svg {
        Some(s) => if svg_grid(s).len() == 0 {
            range_id
        } else {
            svg_grid(s)
        },
        None => range_id,
    }
}

// ─── executable ───────────────────────────────────────────────

fn all_digits_exec(v: &Vec<char>) -> (r: bool)
    ensures
        r == all_digits(v@),
{
    let mut i: usize = 0;
    while i < v.len()
        invariant
            i <= v@.len(),
            forall|k: int| 0 <= k < i ==> crate::strops::is_digit(#[trigger] v@[k]),
        decreases v.len() - i,
    {
        if !('0' <= v[i] && v[i] <= '9') {
            assert(!crate::strops::is_digit(v@[i as int]));
            return false;
        }
        i = i + 1;
    }
    true
}

/// A bound past which every position is held at the bounds of `i32`.
const DIGITS_CAP: u64 = 68719476736;

/// The value of a digit string, held at `DIGITS_CAP`.
fn capped_digits_value(v: &Vec<char>) -> (r: u64)
    requires
        all_digits(v@),
    ensures
        r == (if digits_value(v@) >= DIGITS_CAP as nat {
            DIGITS_CAP as nat
        } else {
            digits_value(v@)
        }),
{
    let mut val: u64 = 0;
    let mut i: usize = 0;
    while i < v.len()
        invariant
            i <= v@.len(),
            all_digits(v@),
            val == (if digits_value(v@.take(i as int)) >= DIGITS_CAP as nat {
                DIGITS_CAP as nat
            } else {
                digits_value(v@.take(i as int))
            }),
        decreases v.len() - i,
    {
        assert(v@.take(i + 1).drop_last() =~= v@.take(i as int));
        assert(v@.take(i + 1).last() == v@[i as int]);
        assert(crate::strops::is_digit(v@[i as int]));
        let d = (v[i] as u32 - 48) as u64;
        if val >= DIGITS_CAP {
            val = DIGITS_CAP;
        } else {
            let nv = val * 10 + d;
            val = if nv >= DIGITS_CAP {
                DIGITS_CAP
            } else {
                nv
            };
        }
        i = i + 1;
    }
    assert(v@.take(v@.len() as int) =~= v@);
    val
}

/// A grid position from an attribute text (see `coord`).
pub fn coord_exec(s: &Vec<char>) -> (r: i32)
    ensures
        r as int == coord(s@),
{
    let neg = s.len() > 0 && s[0] == '-';
    let b = if neg {
        skip(s, 1)
    } else {
        s.clone()
    };
    assert(neg ==> b@ =~= s@.drop_first());
    let dot = chars_of(".");
    proof {
        lemma_find(b@, dot@);
        reveal_strlit(".");
    }
    let ok;
    let ip;
    match find_exec(&b, &dot) {
        Some(p) => {
            let left = slice_of(&b, 0, p);
            assert(left@ =~= b@.take(p as int));
            assert(p + 1 <= b.len());
            let right = skip(&b, p + 1);
            ok = all_digits_exec(&left) && all_digits_exec(&right) && b.len() > 1;
            ip = left;
        },
        None => {
            ok = b.len() > 0 && all_digits_exec(&b);
            ip = b.clone();
        },
    }
    assert(ok == decimal_ok(b@));
    assert(ip@ == int_digits(b@));
    if !ok {
        return 0;
    }
    let v = capped_digits_value(&ip);
    let q: u64 = (v + 13) / 26;
    proof {
        let dv = digits_value(int_digits(b@));
        if dv >= DIGITS_CAP as nat {
            assert((dv + 13) as int / 26 >= (DIGITS_CAP + 13) as int / 26);
        }
    }
    if neg {
        if q > 2147483648 {
            -2147483648
        } else {
            -(q as i64) as i32
        }
    } else if q > 2147483647 {
        2147483647
    } else {
        q as i32
    }
}

/// The view of a list of cells.
pub open spec fn cell_views(v: Seq<(char, i32, i32)>) -> Seq<Cell> {
    v.map_values(|c: (char, i32, i32)| (c.0, c.1 as int, c.2 as int))
}

fn use_cell_exec(g: &crate::patterns::Groups) -> (r: Option<(char, i32, i32)>)
    requires
        g.texts@.len() == g.present@.len(),
    ensures
        forall|caps: Seq<Option<Seq<char>>>|
            g.matches_caps(caps) ==> match use_cell(caps) {
                Some(c) => r matches Some(x) && (x.0, x.1 as int, x.2 as int) == c,
                None => r is None,
            },
{
    let attrs = g.get(1);
    match captures(PAT_HREF, &attrs) {
        Some(h) => match captures(PAT_X, &attrs) {
            Some(x) => match captures(PAT_Y, &attrs) {
                Some(y) => {
                    let hv = trim_exec(&h.get(1));
                    let kind = if eq_str(&hv, "1") {
                        '■'
                    } else {
                        '□'
                    };
                    let cx = coord_exec(&x.get(1));
                    let cy = coord_exec(&y.get(1));
                    Some((kind, cx, cy))
                },
                None => None,
            },
            None => None,
        },
        None => None,
    }
}

/// The cells of a range drawing (see `svg_cells`).
pub fn svg_cells_exec(svg: &Vec<char>) -> (r: Vec<(char, i32, i32)>)
    ensures
        cell_views(r@) == svg_cells(svg@),
{
    let all = captures_all(PAT_USE, svg);
    let ghost caps = regex_all_captures(PAT_USE@, svg@);
    let mut r: Vec<(char, i32, i32)> = Vec::new();
    let mut i: usize = 0;
    while i < all.len()
        invariant
            i <= all@.len(),
            all@.len() == caps.len(),
            caps == regex_all_captures(PAT_USE@, svg@),
            forall|k: int| 0 <= k < all@.len() ==> (#[trigger] all@[k]).matches_caps(caps[k]),
            cell_views(r@) == cells_of(caps.take(i as int)),
        decreases all.len() - i,
    {
        assert(caps.take(i + 1).drop_last() =~= caps.take(i as int));
        assert(caps.take(i + 1).last() == caps[i as int]);
        assert(all@[i as int].matches_caps(caps[i as int]));
        match use_cell_exec(&all[i]) {
            Some(c) => {
                let ghost before = cell_views(r@);
                r.push(c);
                assert(cell_views(r@) =~= before.push((c.0, c.1 as int, c.2 as int)));
            },
            None => {},
        }
        i = i + 1;
    }
    assert(caps.take(all@.len() as int) =~= caps);
    r
}

fn bounds_exec(cells: &Vec<(char, i32, i32)>) -> (r: (i32, i32, i32, i32))
    requires
        cells@.len() > 0,
    ensures
        r.0 as int == min_of(xs(cell_views(cells@))),
        r.1 as int == max_of(xs(cell_views(cells@))),
        r.2 as int == min_of(ys(cell_views(cells@))),
        r.3 as int == max_of(ys(cell_views(cells@))),
        r.0 <= r.1,
        r.2 <= r.3,
{
    let ghost cv = cell_views(cells@);
    let mut x0 = cells[0].1;
    let mut x1 = cells[0].1;
    let mut y0 = cells[0].2;
    let mut y1 = cells[0].2;
    let mut i: usize = 1;
    assert(xs(cv).take(1) =~= seq![cells@[0].1 as int]);
    assert(ys(cv).take(1) =~= seq![cells@[0].2 as int]);
    while i < cells.len()
        invariant
            1 <= i <= cells@.len(),
            cv == cell_views(cells@),
            x0 as int == min_of(xs(cv).take(i as int)),
            x1 as int == max_of(xs(cv).take(i as int)),
            y0 as int == min_of(ys(cv).take(i as int)),
            y1 as int == max_of(ys(cv).take(i as int)),
            x0 <= x1,
            y0 <= y1,
        decreases cells.len() - i,
    {
        assert(xs(cv).take(i + 1).drop_last() =~= xs(cv).take(i as int));
        assert(ys(cv).take(i + 1).drop_last() =~= ys(cv).take(i as int));
        assert(xs(cv).take(i + 1).last() == cells@[i as int].1 as int);
        assert(ys(cv).take(i + 1).last() == cells@[i as int].2 as int);
        let c = cells[i];
        if c.1 < x0 {
            x0 = c.1;
        }
        if c.1 > x1 {
            x1 = c.1;
        }
        if c.2 < y0 {
            y0 = c.2;
        }
        if c.2 > y1 {
            y1 = c.2;
        }
        i = i + 1;
    }
    assert(xs(cv).take(cells@.len() as int) =~= xs(cv));
    assert(ys(cv).take(cells@.len() as int) =~= ys(cv));
    (x0, x1, y0, y1)
}

fn cell_at_exec(cells: &Vec<(char, i32, i32)>, x: i64, y: i64) -> (r: char)
    ensures
        r == cell_at(cell_views(cells@), x as int, y as int),
{
    let ghost cv = cell_views(cells@);
    let mut i: usize = 0;
    assert(cv.skip(0) =~= cv);
    while i < cells.len()
        invariant
            i <= cells@.len(),
            cv == cell_views(cells@),
            cell_at(cv, x as int, y as int) == cell_at(cv.skip(i as int), x as int, y as int),
        decreases cells.len() - i,
    {
        assert(cv.skip(i as int)[0] == cv[i as int]);
        assert(cv.skip(i as int).drop_first() =~= cv.skip(i + 1));
        if cells[i].1 as i64 == x && cells[i].2 as i64 == y {
            return cells[i].0;
        }
        i = i + 1;
    }
    '　'
}

fn row_chars_exec(cells: &Vec<(char, i32, i32)>, y: i64, x0: i64, n: u64) -> (r: Vec<char>)
    requires
        -2147483648 <= x0 <= 2147483647,
        n <= 4294967296,
    ensures
        r@ == row_chars(cell_views(cells@), y as int, x0 as int, n as nat),
{
    let mut r: Vec<char> = Vec::new();
    let mut i: u64 = 0;
    while i < n
        invariant
            i <= n,
            -2147483648 <= x0 <= 2147483647,
            n <= 4294967296,
            r@ == row_chars(cell_views(cells@), y as int, x0 as int, i as nat),
        decreases n - i,
    {
        let x: i64 = x0 + i as i64;
        let c = cell_at_exec(cells, x, y);
        let ghost before = r@;
        r.push(c);
        r.push(' ');
        assert(row_chars(cell_views(cells@), y as int, x0 as int, (i + 1) as nat) == before + seq![
            cell_at(cell_views(cells@), x as int, y as int),
            ' ',
        ]);
        assert(r@ =~= before + seq![c, ' ']);
        i = i + 1;
    }
    r
}

fn grid_text_exec(cells: &Vec<(char, i32, i32)>) -> (r: Vec<char>)
    ensures
        r@ == grid_text(cell_views(cells@)),
{
    if cells.len() == 0 {
        return Vec::new();
    }
    let (x0, x1, y0, y1) = bounds_exec(cells);
    let w: u64 = (x1 as i64 - x0 as i64 + 1) as u64;
    let h: u64 = (y1 as i64 - y0 as i64 + 1) as u64;
    let ghost cv = cell_views(cells@);
    let mut rows: Vec<Vec<char>> = Vec::new();
    let mut j: u64 = 0;
    while j < h
        invariant
            j <= h,
            cv == cell_views(cells@),
            h as int == y1 - y0 + 1,
            w as int == x1 - x0 + 1,
            x0 <= x1,
            y0 <= y1,
            views(rows@) == grid_rows(cv, x0 as int, w as nat, y0 as int, j as nat),
        decreases h - j,
    {
        let rc = row_chars_exec(cells, y0 as i64 + j as i64, x0 as i64, w);
        let t = trim_end_exec(&rc);
        let ghost before = views(rows@);
        rows.push(t);
        assert(views(rows@) =~= before.push(t@));
        j = j + 1;
    }
    let nl = chars_of("\n");
    join_exec(&rows, &nl)
}

/// Lays out the cells of a range drawing as a text grid, one line per row from the
/// top, each cell a mark and a space, trailing whitespace trimmed; the empty text
/// where the drawing has no cells.
pub fn svg_to_grid(svg: &str) -> (r: String)
    ensures
        r@ == svg_grid(svg@),
{
    let s = chars_of(svg);
    let cells = svg_cells_exec(&s);
    let g = grid_text_exec(&cells);
    to_string(&g)
}

/// What a range id is shown as, given its fetched drawing, if any (see `grid_or_id`).
pub fn range_grid_or_id(range_id: &str, svg: Option<&str>) -> (r: String)
    ensures
        r@ == grid_or_id(range_id@, match svg {
            Some(s) => Some(s@),
            None => None,
        }),
{
    match svg {
        Some(s) => {
            let g = svg_to_grid(s);
            if g.unicode_len() == 0 {
                range_id.to_string()
            } else {
                g
            }
        },
        None => range_id.to_string(),
    }
}

// ─── laws ─────────────────────────────────────────────────────

proof fn lemma_min_max(v: Seq<int>)
    requires
        v.len() > 0,
    ensures
        forall|i: int| 0 <= i < v.len() ==> min_of(v) <= #[trigger] v[i] <= max_of(v),
    decreases v.len(),
{
    if v.len() > 1 {
        lemma_min_max(v.drop_last());
        assert forall|i: int| 0 <= i < v.len() implies min_of(v) <= #[trigger] v[i] <= max_of(v) by {
            if i < v.len() - 1 {
                assert(v[i] == v.drop_last()[i]);
            }
        }
    }
}

/// The cells of a drawing are marked `■` or `□`.
proof fn lemma_cells_marked(all: Seq<Seq<Option<Seq<char>>>>)
    ensures
        forall|i: int|
            0 <= i < cells_of(all).len() ==> (#[trigger] cells_of(all)[i]).0 == '■' || cells_of(all)[i].0
                == '□',
    decreases all.len(),
{
    if all.len() > 0 {
        lemma_cells_marked(all.drop_last());
        let r = cells_of(all.drop_last());
        let c = cells_of(all);
        assert forall|i: int| 0 <= i < c.len() implies (#[trigger] c[i]).0 == '■' || c[i].0 == '□' by {
            if i < r.len() {
                assert(c[i] == r[i]);
            }
        }
    }
}

/// Where some cell lies at (`x`, `y`), the mark there is that of one of the cells.
proof fn lemma_cell_at_found(cells: Seq<Cell>, x: int, y: int, i: int)
    requires
        0 <= i < cells.len(),
        cells[i].1 == x && cells[i].2 == y,
    ensures
        exists|k: int| 0 <= k < cells.len() && cell_at(cells, x, y) == (#[trigger] cells[k]).0,
    decreases cells.len(),
{
    if cells[0].1 == x && cells[0].2 == y {
        assert(cell_at(cells, x, y) == cells[0].0);
    } else {
        lemma_cell_at_found(cells.drop_first(), x, y, i - 1);
        let k = choose|k: int| 0 <= k < cells.drop_first().len() && cell_at(cells.drop_first(), x, y)
            == (#[trigger] cells.drop_first()[k]).0;
        assert(cells[k + 1] == cells.drop_first()[k]);
    }
}

proof fn lemma_row_chars(cells: Seq<Cell>, y: int, x0: int, n: nat)
    ensures
        row_chars(cells, y, x0, n).len() == 2 * n,
        forall|m: int| 0 <= m < n ==> #[trigger] row_chars(cells, y, x0, n)[2 * m] == cell_at(cells, x0 + m, y),
    decreases n,
{
    if n > 0 {
        lemma_row_chars(cells, y, x0, (n - 1) as nat);
        let r = row_chars(cells, y, x0, (n - 1) as nat);
        assert forall|m: int| 0 <= m < n implies #[trigger] row_chars(cells, y, x0, n)[2 * m] == cell_at(
            cells,
            x0 + m,
            y,
        ) by {
            if m < n - 1 {
                assert(row_chars(cells, y, x0, n)[2 * m] == r[2 * m]);
            }
        }
    }
}

proof fn lemma_trim_end_keeps(s: Seq<char>, i: int)
    requires
        0 <= i < s.len(),
        !crate::text::is_ws(s[i]),
    ensures
        trim_end(s).len() > i,
    decreases s.len(),
{
    if i < s.len() - 1 && crate::text::is_ws(s.last()) {
        lemma_trim_end_keeps(s.drop_last(), i);
    }
}

proof fn lemma_grid_rows(cells: Seq<Cell>, x0: int, w: nat, y0: int, n: nat)
    ensures
        grid_rows(cells, x0, w, y0, n).len() == n,
        forall|m: int|
            0 <= m < n ==> #[trigger] grid_rows(cells, x0, w, y0, n)[m] == trim_end(
                row_chars(cells, y0 + m, x0, w),
            ),
    decreases n,
{
    if n > 0 {
        lemma_grid_rows(cells, x0, w, y0, (n - 1) as nat);
    }
}

proof fn lemma_join_holds_part(parts: Seq<Seq<char>>, sep: Seq<char>, m: int)
    requires
        0 <= m < parts.len(),
    ensures
        join(parts, sep).len() >= parts[m].len(),
    decreases parts.len(),
{
    if parts.len() > 1 && m < parts.len() - 1 {
        lemma_join_holds_part(parts.drop_last(), sep, m);
    }
}

/// A drawing's grid is empty exactly when the drawing has no cells: a range with at
/// least one cell is always shown as a grid, never as its bare id.
pub proof fn law_grid_empty_iff_no_cells(svg: Seq<char>)
    ensures
        svg_grid(svg).len() == 0 <==> svg_cells(svg).len() == 0,
{
    let cells = svg_cells(svg);
    if cells.len() > 0 {
        lemma_cells_marked(regex_all_captures(PAT_USE@, svg));
        let x0 = min_of(xs(cells));
        let x1 = max_of(xs(cells));
        let y0 = min_of(ys(cells));
        let y1 = max_of(ys(cells));
        lemma_min_max(xs(cells));
        lemma_min_max(ys(cells));
        let c = cells[0];
        assert(xs(cells)[0] == c.1 && ys(cells)[0] == c.2);
        let w = (x1 - x0 + 1) as nat;
        let h = (y1 - y0 + 1) as nat;
        let m = c.2 - y0;
        let col = c.1 - x0;
        lemma_cell_at_found(cells, c.1, c.2, 0);
        let k = choose|k: int| 0 <= k < cells.len() && cell_at(cells, c.1, c.2) == (#[trigger] cells[k]).0;
        assert(cells[k].0 == '■' || cells[k].0 == '□');
        lemma_row_chars(cells, c.2, x0, w);
        let rc = row_chars(cells, c.2, x0, w);
        assert(rc[2 * col] == cell_at(cells, x0 + col, c.2));
        assert(!crate::text::is_ws(rc[2 * col]));
        lemma_trim_end_keeps(rc, 2 * col);
        lemma_grid_rows(cells, x0, w, y0, h);
        let rows = grid_rows(cells, x0, w, y0, h);
        assert(rows[m] == trim_end(rc));
        lemma_join_holds_part(rows, "\n"@, m);
    }
}

/// The cells moved by `dx` columns and `dy` rows.
pub open spec fn shifted(cells: Seq<Cell>, dx: int, dy: int) -> Seq<Cell> {
    cells.map_values(|c: Cell| (c.0, c.1 + dx, c.2 + dy))
}

proof fn lemma_min_max_shift(v: Seq<int>, d: int)
    ensures
        min_of(v.map_values(|a: int| a + d)) == min_of(v) + d || v.len() == 0,
        max_of(v.map_values(|a: int| a + d)) == max_of(v) + d || v.len() == 0,
    decreases v.len(),
{
    let w = v.map_values(|a: int| a + d);
    if v.len() > 1 {
        lemma_min_max_shift(v.drop_last(), d);
        assert(w.drop_last() =~= v.drop_last().map_values(|a: int| a + d));
    }
}

proof fn lemma_cell_at_shift(cells: Seq<Cell>, dx: int, dy: int, x: int, y: int)
    ensures
        cell_at(shifted(cells, dx, dy), x + dx, y + dy) == cell_at(cells, x, y),
    decreases cells.len(),
{
    if cells.len() > 0 {
        lemma_cell_at_shift(cells.drop_first(), dx, dy, x, y);
        assert(shifted(cells, dx, dy).drop_first() =~= shifted(cells.drop_first(), dx, dy));
    }
}

proof fn lemma_row_chars_shift(cells: Seq<Cell>, dx: int, dy: int, y: int, x0: int, n: nat)
    ensures
        row_chars(shifted(cells, dx, dy), y + dy, x0 + dx, n) == row_chars(cells, y, x0, n),
    decreases n,
{
    if n > 0 {
        lemma_row_chars_shift(cells, dx, dy, y, x0, (n - 1) as nat);
        lemma_cell_at_shift(cells, dx, dy, x0 + n - 1, y);
        assert(x0 + dx + n - 1 == (x0 + n - 1) + dx);
    }
}

proof fn lemma_grid_rows_shift(cells: Seq<Cell>, dx: int, dy: int, x0: int, w: nat, y0: int, n: nat)
    ensures
        grid_rows(shifted(cells, dx, dy), x0 + dx, w, y0 + dy, n) == grid_rows(cells, x0, w, y0, n),
    decreases n,
{
    if n > 0 {
        lemma_grid_rows_shift(cells, dx, dy, x0, w, y0, (n - 1) as nat);
        lemma_row_chars_shift(cells, dx, dy, y0 + n - 1, x0, w);
        assert(y0 + dy + n - 1 == (y0 + n - 1) + dy);
    }
}

/// The grid is laid out from the smallest column and row that hold a cell: moving every
/// cell by the same number of columns and of rows leaves it as it was.
pub proof fn law_grid_ignores_shift(cells: Seq<Cell>, dx: int, dy: int)
    ensures
        grid_text(shifted(cells, dx, dy)) == grid_text(cells),
{
    let sc = shifted(cells, dx, dy);
    if cells.len() > 0 {
        assert(xs(sc) =~= xs(cells).map_values(|a: int| a + dx));
        assert(ys(sc) =~= ys(cells).map_values(|a: int| a + dy));
        lemma_min_max_shift(xs(cells), dx);
        lemma_min_max_shift(ys(cells), dy);
        let x0 = min_of(xs(cells));
        let x1 = max_of(xs(cells));
        let y0 = min_of(ys(cells));
        let y1 = max_of(ys(cells));
        lemma_grid_rows_shift(cells, dx, dy, x0, (x1 - x0 + 1) as nat, y0, (y1 - y0 + 1) as nat);
        assert((max_of(xs(sc)) - min_of(xs(sc)) + 1) as nat == (x1 - x0 + 1) as nat);
        assert((max_of(ys(sc)) - min_of(ys(sc)) + 1) as nat == (y1 - y0 + 1) as nat);
    }
}

proof fn lemma_digit_char(d: nat)
    requires
        d < 10,
    ensures
        digit_char(d) as u32 == 48 + d,
        crate::strops::is_digit(digit_char(d)),
{
    if d == 0 {
        assert(digit_char(0) == '0');
    } else if d == 1 {
        assert(digit_char(1) == '1');
    } else if d == 2 {
        assert(digit_char(2) == '2');
    } else if d == 3 {
        assert(digit_char(3) == '3');
    } else if d == 4 {
        assert(digit_char(4) == '4');
    } else if d == 5 {
        assert(digit_char(5) == '5');
    } else if d == 6 {
        assert(digit_char(6) == '6');
    } else if d == 7 {
        assert(digit_char(7) == '7');
    } else if d == 8 {
        assert(digit_char(8) == '8');
    } else {
        assert(digit_char(9) == '9');
    }
}

proof fn lemma_decimal_digits(n: nat)
    ensures
        decimal(n).len() > 0,
        all_digits(decimal(n)),
        digits_value(decimal(n)) == n,
    decreases n,
{
    let d = decimal(n);
    lemma_digit_char(n % 10);
    if n >= 10 {
        lemma_decimal_digits(n / 10);
        assert(d.drop_last() =~= decimal(n / 10));
    } else {
        assert(d.drop_last() =~= Seq::<char>::empty());
    }
    assert(d.last() == digit_char(n % 10));
    assert(('0' as u32) == 48);
    assert(digits_value(d) == digits_value(d.drop_last()) * 10 + n % 10);
}

/// The text of a whole number, with a `-` before a negative one.
pub open spec fn int_text(v: int) -> Seq<char> {
    if v < 0 {
        seq!['-'] + decimal((-v) as nat)
    } else {
        decimal(v as nat)
    }
}

/// An attribute that holds a whole multiple `26 * a` of the cell size gives the
/// position `a`, for every `a` within `i32`: moving an element by whole cells moves its
/// cell by as many columns or rows.
pub proof fn law_whole_cells_position(a: int)
    requires
        -2147483648 <= a <= 2147483647,
    ensures
        coord(int_text(26 * a)) == a,
{
    let t = int_text(26 * a);
    let m: nat = if a < 0 { (-26 * a) as nat } else { (26 * a) as nat };
    let b = decimal(m);
    lemma_decimal_digits(m);
    assert(b[0] != '-' && b[0] != '.') by {
        assert(crate::strops::is_digit(b[0]));
    }
    if a < 0 {
        assert(t.drop_first() =~= b);
    }
    lemma_find(b, "."@);
    reveal_strlit(".");
    assert(find(b, "."@) is None) by {
        if find(b, "."@) is Some {
            let p = find(b, "."@)->0;
            assert(crate::text::occurs_at(b, "."@, p));
            assert(b.subrange(p, p + 1)[0] == b[p]);
            assert(crate::strops::is_digit(b[p]));
        }
    }
    assert(int_digits(b) == b);
    assert((m + 13) / 26 == if a < 0 { -a } else { a });
}

/// A `<use>` element draws a cell only where it has an `href`, an `x` and a `y`; the cell
/// is the operator (`■`) exactly when the `href` names `#1`, a cell in range (`□`)
/// otherwise, at the positions its `x` and `y` give.
pub proof fn law_cell_marks(c: Seq<Option<Seq<char>>>)
    ensures
        ({
            let attrs = grp(c, 1);
            &&& use_cell(c) is Some <==> (regex_first_captures(PAT_HREF@, attrs) is Some && regex_first_captures(
                PAT_X@,
                attrs,
            ) is Some && regex_first_captures(PAT_Y@, attrs) is Some)
            &&& use_cell(c) is Some ==> {
                let cell = use_cell(c)->0;
                &&& (cell.0 == '■' <==> trim(grp(regex_first_captures(PAT_HREF@, attrs)->0, 1)) == "1"@)
                &&& (cell.0 == '■' || cell.0 == '□')
                &&& cell.1 == coord(grp(regex_first_captures(PAT_X@, attrs)->0, 1))
                &&& cell.2 == coord(grp(regex_first_captures(PAT_Y@, attrs)->0, 1))
            }
        }),
{
}

} // verus!
