//! The table renderer: turns a table and a signed row count into an aligned
//! textual grid.  A positive count selects the first rows, a negative one
//! the last rows; a magnitude beyond the table's height is an error for that
//! table alone.  Column names are decomposed into a label and an optional
//! `(unit)` suffix, shown as a two-row header above a ruled separator, and
//! numeric cells are printed as fixed-point decimals with two fractional
//! digits.

use vstd::prelude::*;

use crate::strutil::{dec_of, digit_char, is_space_char, lemma_skip_back_bounds, lemma_skip_front_bounds, skip_back, skip_front, views_of};
use crate::table::{Cell, Table};
use crate::validate::rlast_before;

verus! {

/// Why one table could not be rendered.
#[derive(Clone, Copy, Debug, PartialEq, Eq, Structural)]
pub enum RenderError {
    /// The requested row count exceeds the table's height.
    CountExceedsHeight,
}

/// The marker shown for a missing or non-numeric cell.
pub open spec fn missing_marker() -> Seq<char> {
    "--"@
}

/// The digits of a non-negative fixed-point value in hundredths: the whole
/// part, a dot, and exactly two fractional digits.
pub open spec fn fixed_mag(m: int) -> Seq<char>
    recommends
        m >= 0,
{
    dec_of((m / 100) as nat) + seq!['.'] + seq![
        digit_char(((m % 100) / 10) as nat),
        digit_char((m % 10) as nat),
    ]
}

/// The fixed-point rendering of a signed value in hundredths.
pub open spec fn fixed_of(v: int) -> Seq<char> {
    if v < 0 {
        seq!['-'] + fixed_mag(-v)
    } else {
        fixed_mag(v)
    }
}

/// What one cell displays as.
pub open spec fn cell_disp(c: Cell) -> Seq<char> {
    match c {
        Cell::Num(v) => fixed_of(v as int),
        Cell::Missing => missing_marker(),
    }
}

/// Renders a signed value in hundredths as a fixed-point decimal.
pub fn fmt_fixed(v: i64) -> (r: String)
    ensures
        r@ == fixed_of(v as int),
{
    let mag: u64 = if v >= 0 {
        v as u64
    } else {
        (-(v as i128)) as u64
    };
    proof {
        assert(mag == if v >= 0 {
            v as int
        } else {
            -(v as int)
        });
    }
    let whole = mag / 100;
    let frac = mag % 100;
    let mut out = String::new();
    if v < 0 {
        crate::strutil::push_char(&mut out, '-');
    }
    let digits = crate::strutil::u64_to_dec(whole);
    out.append(digits.as_str());
    crate::strutil::push_char(&mut out, '.');
    crate::strutil::push_char(&mut out, crate::strutil::digit_char_exec(frac / 10));
    crate::strutil::push_char(&mut out, crate::strutil::digit_char_exec(frac % 10));
    proof {
        assert(out@ =~= fixed_of(v as int));
    }
    out
}

/// Renders one cell for display.
pub fn fmt_cell(c: Cell) -> (r: String)
    ensures
        r@ == cell_disp(c),
{
    match c {
        Cell::Num(v) => fmt_fixed(v),
        Cell::Missing => String::from_str("--"),
    }
}

/// `s` without leading and trailing whitespace.
pub open spec fn trim_of(s: Seq<char>) -> Seq<char> {
    let a = skip_front(s, 0);
    let b = skip_back(s, s.len() as int);
    if a <= b {
        s.subrange(a, b)
    } else {
        Seq::empty()
    }
}

/// Removes leading and trailing whitespace.
pub fn trim(s: &str) -> (r: String)
    ensures
        r@ == trim_of(s@),
{
    let n = s.unicode_len();
    let mut a: usize = 0;
    while a < n && is_space_exec(s, a)
        invariant
            n == s@.len(),
            a <= n,
            skip_front(s@, 0) == skip_front(s@, a as int),
        decreases n - a,
    {
        a = a + 1;
    }
    let mut b: usize = n;
    while b > 0 && is_space_exec(s, b - 1)
        invariant
            b <= n,
            n == s@.len(),
            skip_back(s@, n as int) == skip_back(s@, b as int),
        decreases b,
    {
        b = b - 1;
    }
    proof {
        lemma_skip_front_bounds(s@, 0);
        lemma_skip_back_bounds(s@, n as int);
    }
    if a <= b {
        s.substring_char(a, b).to_owned()
    } else {
        String::new()
    }
}

/// Whether the character at one position is token whitespace.
fn is_space_exec(s: &str, i: usize) -> (r: bool)
    requires
        i < s@.len(),
    ensures
        r == is_space_char(s@[i as int]),
{
    crate::strutil::is_space(s.get_char(i))
}

/// The end of `s` once every trailing `)` is removed.
pub open spec fn strip_rparens_end(s: Seq<char>, k: int) -> int
    decreases k,
    when 0 <= k <= s.len()
{
    if k > 0 && s[k - 1] == ')' {
        strip_rparens_end(s, k - 1)
    } else {
        k
    }
}

/// `s` without its trailing `)` characters.
pub open spec fn strip_rparens(s: Seq<char>) -> Seq<char> {
    s.subrange(0, strip_rparens_end(s, s.len() as int))
}

/// `strip_rparens_end` stays within range.
pub proof fn lemma_strip_rparens_bounds(s: Seq<char>, k: int)
    requires
        0 <= k <= s.len(),
    ensures
        0 <= strip_rparens_end(s, k) <= k,
    decreases k,
{
    if k > 0 && s[k - 1] == ')' {
        lemma_strip_rparens_bounds(s, k - 1);
    }
}

/// Removes every trailing `)`.
pub fn strip_trailing_rparens(s: &str) -> (r: String)
    ensures
        r@ == strip_rparens(s@),
{
    let n = s.unicode_len();
    let mut b: usize = n;
    while b > 0 && s.get_char(b - 1) == ')'
        invariant
            b <= n,
            n == s@.len(),
            strip_rparens_end(s@, n as int) == strip_rparens_end(s@, b as int),
        decreases b,
    {
        b = b - 1;
    }
    s.substring_char(0, b).to_owned()
}

/// The human label of a column name: what stands before the last `(`,
/// trimmed; the whole name when there is no `(`.
pub open spec fn label_of(col: Seq<char>) -> Seq<char> {
    let p = rlast_before(col, '(', col.len() as int);
    if p >= 0 {
        trim_of(col.subrange(0, p))
    } else {
        col
    }
}

/// The unit row entry of a column name: what stands after the last `(`,
/// trimmed and stripped of trailing `)`, wrapped in parentheses; empty when
/// there is no `(`.
pub open spec fn unit_disp_of(col: Seq<char>) -> Seq<char> {
    let p = rlast_before(col, '(', col.len() as int);
    if p >= 0 {
        seq!['('] + strip_rparens(trim_of(col.subrange(p + 1, col.len() as int))) + seq![')']
    } else {
        Seq::empty()
    }
}

/// Decomposes a column name into its label and its unit row entry.
pub fn split_header(col: &str) -> (r: (String, String))
    ensures
        r.0@ == label_of(col@),
        r.1@ == unit_disp_of(col@),
{
    let n = col.unicode_len();
    proof {
        crate::validate::lemma_rlast_bounds(col@, '(', n as int);
    }
    match crate::validate::last_index_of(col, '(') {
        Some(p) => {
            let before = col.substring_char(0, p);
            let after = col.substring_char(p + 1, n);
            let label = trim(before);
            let trimmed = trim(after);
            proof {
                lemma_skip_front_bounds(after@, 0);
                lemma_skip_back_bounds(after@, after@.len() as int);
                lemma_strip_rparens_bounds(trimmed@, trimmed@.len() as int);
            }
            let stripped = strip_trailing_rparens(trimmed.as_str());
            let mut unit = String::new();
            crate::strutil::push_char(&mut unit, '(');
            unit.append(stripped.as_str());
            crate::strutil::push_char(&mut unit, ')');
            proof {
                assert(unit@ =~= unit_disp_of(col@));
            }
            (label, unit)
        },
        None => {
            (col.to_owned(), String::new())
        },
    }
}

/// `n` spaces (none for a non-positive `n`).
pub open spec fn spaces(n: int) -> Seq<char> {
    Seq::new(
        if n >= 0 {
            n as nat
        } else {
            0nat
        },
        |i: int| ' ',
    )
}

/// `s` padded on the left with spaces to width `w`.
pub open spec fn pad_left(s: Seq<char>, w: int) -> Seq<char> {
    if s.len() >= w {
        s
    } else {
        spaces(w - s.len()) + s
    }
}

/// A run of `=` of width `w`.
pub open spec fn eq_ruler(w: int) -> Seq<char> {
    Seq::new(
        if w >= 0 {
            w as nat
        } else {
            0nat
        },
        |i: int| '=',
    )
}

/// The larger of two numbers.
pub open spec fn max2(a: int, b: int) -> int {
    if a >= b {
        a
    } else {
        b
    }
}

/// One grid line from position `j` on: each entry padded to its column's
/// width, single spaces in between.
pub open spec fn line_from(cells: Seq<Seq<char>>, widths: Seq<int>, j: int) -> Seq<char>
    decreases cells.len() - j,
    when 0 <= j <= cells.len()
{
    if j == cells.len() {
        Seq::empty()
    } else {
        pad_left(cells[j], widths[j]) + (if j + 1 < cells.len() {
            seq![' ']
        } else {
            Seq::empty()
        }) + line_from(cells, widths, j + 1)
    }
}

/// One whole grid line.
pub open spec fn line_of(cells: Seq<Seq<char>>, widths: Seq<int>) -> Seq<char> {
    line_from(cells, widths, 0)
}

/// The separator line: one `=` ruler per column.
pub open spec fn ruler_line(widths: Seq<int>) -> Seq<char> {
    line_of(widths.map_values(|w: int| eq_ruler(w)), widths)
}

/// The widest display among the first `i` rows' cells of column `j`.
pub open spec fn col_cells_max(disp: Seq<Seq<Seq<char>>>, j: int, i: int) -> int
    decreases i,
{
    if i <= 0 {
        0
    } else {
        max2(col_cells_max(disp, j, i - 1), disp[i - 1][j].len() as int)
    }
}

/// The width of column `j`: the widest among its label, its unit entry and
/// its displayed cells.
pub open spec fn width_col(
    labels: Seq<Seq<char>>,
    units: Seq<Seq<char>>,
    disp: Seq<Seq<Seq<char>>>,
    j: int,
) -> int {
    max2(
        labels[j].len() as int,
        max2(units[j].len() as int, col_cells_max(disp, j, disp.len() as int)),
    )
}

/// All column widths.
pub open spec fn widths_of(
    labels: Seq<Seq<char>>,
    units: Seq<Seq<char>>,
    disp: Seq<Seq<Seq<char>>>,
    ncols: nat,
) -> Seq<int> {
    Seq::new(ncols, |j: int| width_col(labels, units, disp, j))
}

/// The labels of all columns.
pub open spec fn labels_of(cols: Seq<Seq<char>>) -> Seq<Seq<char>> {
    cols.map_values(|c: Seq<char>| label_of(c))
}

/// The unit entries of all columns.
pub open spec fn units_of(cols: Seq<Seq<char>>) -> Seq<Seq<char>> {
    cols.map_values(|c: Seq<char>| unit_disp_of(c))
}

/// The displays of one row's cells.
pub open spec fn row_disp(row: Seq<Cell>) -> Seq<Seq<char>> {
    row.map_values(|c: Cell| cell_disp(c))
}

/// The displays of a run of rows.
pub open spec fn disp_of(rows: Seq<Seq<Cell>>) -> Seq<Seq<Seq<char>>> {
    rows.map_values(|r: Seq<Cell>| row_disp(r))
}

/// The magnitude of a signed count.
pub open spec fn abs_of(n: int) -> int {
    if n >= 0 {
        n
    } else {
        -n
    }
}

/// The head or tail slice that a signed count selects: the first rows for a
/// positive count, the last rows for a negative one.
pub open spec fn sel_start(t: Table, nrows: int) -> int {
    if nrows > 0 {
        0
    } else {
        t.spec_height() - abs_of(nrows)
    }
}

/// The rows that a signed count selects.
pub open spec fn sel_of(t: Table, nrows: int) -> Seq<Seq<Cell>> {
    t.spec_rows().subrange(sel_start(t, nrows), sel_start(t, nrows) + abs_of(nrows))
}

/// The whole grid: label row, unit row, ruler, then the selected data rows.
pub open spec fn grid_lines(t: Table, nrows: int) -> Seq<Seq<char>> {
    let cols = t.spec_columns();
    let labels = labels_of(cols);
    let units = units_of(cols);
    let disp = disp_of(sel_of(t, nrows));
    let ws = widths_of(labels, units, disp, cols.len());
    seq![line_of(labels, ws), line_of(units, ws), ruler_line(ws)] + Seq::new(
        abs_of(nrows) as nat,
        |i: int| line_of(disp[i], ws),
    )
}

/// The title line above a rendered table.
pub open spec fn title_of(name: Seq<char>) -> Seq<char> {
    " \u{276f} \u{276f} "@ + name
}

/// The subtitle naming the slice: whether the first or the last rows are
/// shown, and exactly how many.
pub open spec fn subtitle_of(nrows: int) -> Seq<char> {
    "("@ + (if nrows > 0 {
        "first"@
    } else {
        "last"@
    }) + " "@ + dec_of(abs_of(nrows) as nat) + " "@ + (if abs_of(nrows) == 1 {
        "row"@
    } else {
        "rows"@
    }) + ")"@
}

/// One rendered table: its title line, its slice subtitle, and the grid.
#[derive(Debug)]
pub struct RenderedTable {
    /// The title line, carrying the dataset name.
    pub title: String,
    /// The slice subtitle.
    pub subtitle: String,
    /// The grid lines: labels, units, ruler, data.
    pub lines: Vec<String>,
}

/// Pads a display entry on the left with spaces to the column width.
pub fn pad_left_exec(s: &str, w: usize) -> (r: String)
    ensures
        r@ == pad_left(s@, w as int),
{
    let len = s.unicode_len();
    if len >= w {
        return s.to_owned();
    }
    let mut out = String::new();
    let pad = w - len;
    let mut i: usize = 0;
    proof {
        assert(out@ =~= spaces(0));
    }
    while i < pad
        invariant
            i <= pad,
            out@ == spaces(i as int),
        decreases pad - i,
    {
        crate::strutil::push_char(&mut out, ' ');
        i = i + 1;
        proof {
            assert(out@ =~= spaces(i as int));
        }
    }
    out.append(s);
    proof {
        assert(out@ =~= pad_left(s@, w as int));
    }
    out
}

/// A ruler entry of one column's width.
pub fn make_ruler(w: usize) -> (r: String)
    ensures
        r@ == eq_ruler(w as int),
{
    let mut out = String::new();
    let mut i: usize = 0;
    proof {
        assert(out@ =~= eq_ruler(0));
    }
    while i < w
        invariant
            i <= w,
            out@ == eq_ruler(i as int),
        decreases w - i,
    {
        crate::strutil::push_char(&mut out, '=');
        i = i + 1;
        proof {
            assert(out@ =~= eq_ruler(i as int));
        }
    }
    out
}

/// Joins one line of display entries, padded to the column widths and
/// separated by single spaces.
pub fn join_line(cells: &Vec<String>, widths: &Vec<usize>) -> (r: String)
    requires
        cells@.len() == widths@.len(),
    ensures
        r@ == line_of(views_of(cells@), widths_int(widths@)),
{
    let n = cells.len();
    let mut out = String::new();
    let mut j: usize = 0;
    proof {
        assert(views_of(cells@).len() == widths_int(widths@).len());
    }
    while j < n
        invariant
            n == cells@.len(),
            n == widths@.len(),
            j <= n,
            line_of(views_of(cells@), widths_int(widths@)) == out@ + line_from(
                views_of(cells@),
                widths_int(widths@),
                j as int,
            ),
        decreases n - j,
    {
        let padded = pad_left_exec(cells[j].as_str(), widths[j]);
        out.append(padded.as_str());
        if j + 1 < n {
            crate::strutil::push_char(&mut out, ' ');
        }
        j = j + 1;
        proof {
            assert(views_of(cells@)[j - 1] == cells@[j - 1]@);
            assert(widths_int(widths@)[j - 1] == widths@[j - 1] as int);
            assert(line_of(views_of(cells@), widths_int(widths@)) =~= out@ + line_from(
                views_of(cells@),
                widths_int(widths@),
                j as int,
            ));
        }
    }
    proof {
        assert(line_of(views_of(cells@), widths_int(widths@)) =~= out@);
    }
    out
}

/// The widths of a vector, as mathematical integers.
pub open spec fn widths_int(ws: Seq<usize>) -> Seq<int> {
    ws.map_values(|w: usize| w as int)
}

/// The nested views of rendered rows.
pub open spec fn views2(rows: Seq<Vec<String>>) -> Seq<Seq<Seq<char>>> {
    rows.map_values(|r: Vec<String>| views_of(r@))
}

/// Computes every column's width over the rendered header and cells.
pub fn compute_widths(labels: &Vec<String>, units: &Vec<String>, cells: &Vec<Vec<String>>) -> (ws:
    Vec<usize>)
    requires
        labels@.len() == units@.len(),
        forall|i: int| 0 <= i < cells@.len() ==> (#[trigger] cells@[i])@.len() == labels@.len(),
    ensures
        ws@.len() == labels@.len(),
        widths_int(ws@) == widths_of(
            views_of(labels@),
            views_of(units@),
            views2(cells@),
            labels@.len(),
        ),
{
    let ncols = labels.len();
    let nrows = cells.len();
    let mut ws: Vec<usize> = Vec::new();
    let mut j: usize = 0;
    while j < ncols
        invariant
            ncols == labels@.len(),
            ncols == units@.len(),
            nrows == cells@.len(),
            forall|i: int| 0 <= i < cells@.len() ==> (#[trigger] cells@[i])@.len() == ncols,
            j <= ncols,
            ws@.len() == j,
            forall|jj: int|
                0 <= jj < j ==> ws@[jj] as int == width_col(
                    views_of(labels@),
                    views_of(units@),
                    views2(cells@),
                    jj,
                ),
        decreases ncols - j,
    {
        let lw = labels[j].as_str().unicode_len();
        let uw = units[j].as_str().unicode_len();
        let mut wj: usize = if lw >= uw {
            lw
        } else {
            uw
        };
        let mut i: usize = 0;
        while i < nrows
            invariant
                ncols == labels@.len(),
                ncols == units@.len(),
                nrows == cells@.len(),
                j < ncols,
                forall|ii: int| 0 <= ii < cells@.len() ==> (#[trigger] cells@[ii])@.len() == ncols,
                i <= nrows,
                wj as int == max2(
                    views_of(labels@)[j as int].len() as int,
                    max2(
                        views_of(units@)[j as int].len() as int,
                        col_cells_max(views2(cells@), j as int, i as int),
                    ),
                ),
            decreases nrows - i,
        {
            let cw = cells[i][j].as_str().unicode_len();
            proof {
                assert(views2(cells@)[i as int] == views_of(cells@[i as int]@));
                assert(views2(cells@)[i as int][j as int] == cells@[i as int]@[j as int]@);
            }
            if cw > wj {
                wj = cw;
            }
            i = i + 1;
        }
        ws.push(wj);
        j = j + 1;
    }
    proof {
        assert(widths_int(ws@) =~= widths_of(
            views_of(labels@),
            views_of(units@),
            views2(cells@),
            labels@.len(),
        ));
    }
    ws
}

/// Renders one table: the title and subtitle, and the aligned grid of the
/// selected rows.  A count whose magnitude exceeds the height fails, for
/// this table alone.
pub fn render_table(t: &Table, name: &str, nrows: i64) -> (r: Result<RenderedTable, RenderError>)
    requires
        t.well_formed(),
        nrows != 0,
    ensures
        (r is Err) == (abs_of(nrows as int) > t.spec_height()),
        r matches Ok(rt) ==> (rt.title@ == title_of(name@) && rt.subtitle@ == subtitle_of(
            nrows as int,
        ) && views_of(rt.lines@) == grid_lines(*t, nrows as int)),
{
    let height = t.height();
    let mag: u64 = if nrows >= 0 {
        nrows as u64
    } else {
        (-(nrows as i128)) as u64
    };
    proof {
        assert(mag == abs_of(nrows as int));
    }
    if mag > height as u64 {
        return Err(RenderError::CountExceedsHeight);
    }
    let count = mag as usize;
    let start: usize = if nrows > 0 {
        0
    } else {
        height - count
    };
    let ghost sel = sel_of(*t, nrows as int);
    proof {
        assert(sel.len() == count);
    }
    let ncols = t.width();
    let mut labels: Vec<String> = Vec::new();
    let mut units: Vec<String> = Vec::new();
    let mut j: usize = 0;
    while j < ncols
        invariant
            ncols == t.spec_width(),
            j <= ncols,
            labels@.len() == j,
            units@.len() == j,
            forall|jj: int|
                0 <= jj < j ==> (#[trigger] labels@[jj])@ == label_of(t.spec_columns()[jj]),
            forall|jj: int|
                0 <= jj < j ==> (#[trigger] units@[jj])@ == unit_disp_of(t.spec_columns()[jj]),
        decreases ncols - j,
    {
        let (label, unit) = split_header(t.column_at(j).as_str());
        labels.push(label);
        units.push(unit);
        j = j + 1;
    }
    proof {
        assert(views_of(labels@) =~= labels_of(t.spec_columns()));
        assert(views_of(units@) =~= units_of(t.spec_columns()));
    }
    let mut cellsv: Vec<Vec<String>> = Vec::new();
    let mut i: usize = 0;
    while i < count
        invariant
            t.well_formed(),
            ncols == t.spec_width(),
            count == abs_of(nrows as int),
            count <= t.spec_height(),
            start == sel_start(*t, nrows as int),
            start + count <= t.spec_height(),
            height == t.spec_height(),
            sel == sel_of(*t, nrows as int),
            i <= count,
            cellsv@.len() == i,
            forall|ii: int| 0 <= ii < i ==> (#[trigger] cellsv@[ii])@.len() == ncols,
            forall|ii: int|
                0 <= ii < i ==> views_of((#[trigger] cellsv@[ii])@) == row_disp(sel[ii]),
        decreases count - i,
    {
        let mut row: Vec<String> = Vec::new();
        let mut jj: usize = 0;
        while jj < ncols
            invariant
                t.well_formed(),
                ncols == t.spec_width(),
                count == abs_of(nrows as int),
                start == sel_start(*t, nrows as int),
                start + count <= t.spec_height(),
                height == t.spec_height(),
                sel == sel_of(*t, nrows as int),
                i < count,
                jj <= ncols,
                row@.len() == jj,
                forall|k: int|
                    0 <= k < jj ==> (#[trigger] row@[k])@ == cell_disp(sel[i as int][k]),
            decreases ncols - jj,
        {
            let c = t.cell_at(start + i, jj);
            proof {
                assert(sel[i as int] == t.spec_rows()[start + i]);
            }
            row.push(fmt_cell(c));
            jj = jj + 1;
        }
        proof {
            assert(sel[i as int].len() == ncols);
            assert(views_of(row@) =~= row_disp(sel[i as int]));
        }
        cellsv.push(row);
        i = i + 1;
    }
    proof {
        assert(views2(cellsv@) =~= disp_of(sel));
    }
    let widths = compute_widths(&labels, &units, &cellsv);
    let ghost gws = widths_of(
        views_of(labels@),
        views_of(units@),
        views2(cellsv@),
        labels@.len(),
    );
    let mut lines: Vec<String> = Vec::new();
    lines.push(join_line(&labels, &widths));
    lines.push(join_line(&units, &widths));
    let mut rulers: Vec<String> = Vec::new();
    let mut k: usize = 0;
    while k < widths.len()
        invariant
            k <= widths@.len(),
            rulers@.len() == k,
            forall|kk: int|
                0 <= kk < k ==> (#[trigger] rulers@[kk])@ == eq_ruler(widths@[kk] as int),
        decreases widths@.len() - k,
    {
        rulers.push(make_ruler(widths[k]));
        k = k + 1;
    }
    proof {
        assert(views_of(rulers@) =~= widths_int(widths@).map_values(|w: int| eq_ruler(w)));
    }
    lines.push(join_line(&rulers, &widths));
    let mut li: usize = 0;
    while li < count
        invariant
            count == cellsv@.len(),
            widths@.len() == ncols,
            forall|ii: int| 0 <= ii < count ==> (#[trigger] cellsv@[ii])@.len() == ncols,
            li <= count,
            lines@.len() == 3 + li,
            lines@[0]@ == line_of(views_of(labels@), widths_int(widths@)),
            lines@[1]@ == line_of(views_of(units@), widths_int(widths@)),
            lines@[2]@ == line_of(views_of(rulers@), widths_int(widths@)),
            forall|l: int|
                3 <= l < 3 + li ==> (#[trigger] lines@[l])@ == line_of(
                    views_of(cellsv@[l - 3]@),
                    widths_int(widths@),
                ),
        decreases count - li,
    {
        lines.push(join_line(&cellsv[li], &widths));
        li = li + 1;
    }
    proof {
        assert(widths_int(widths@) == widths_of(
            labels_of(t.spec_columns()),
            units_of(t.spec_columns()),
            disp_of(sel),
            t.spec_columns().len(),
        ));
        assert(views_of(rulers@) == widths_int(widths@).map_values(|w: int| eq_ruler(w)));
        assert forall|l: int| 0 <= l < count implies views_of((#[trigger] cellsv@[l])@) == disp_of(
            sel,
        )[l] by {
            assert(views2(cellsv@)[l] == views_of(cellsv@[l]@));
        }
        let grid = grid_lines(*t, nrows as int);
        assert(views_of(lines@).len() == grid.len());
        assert forall|i: int| 0 <= i < grid.len() implies views_of(lines@)[i] == grid[i] by {
            assert(views_of(lines@)[i] == lines@[i]@);
            if i >= 3 {
                assert(lines@[i]@ == line_of(views_of(cellsv@[i - 3]@), widths_int(widths@)));
                assert(views_of(cellsv@[i - 3]@) == disp_of(sel)[i - 3]);
            }
        }
        assert(views_of(lines@) =~= grid_lines(*t, nrows as int));
    }
    let title = String::from_str(" \u{276f} \u{276f} ").concat(name);
    let dec = crate::strutil::u64_to_dec(mag);
    let subtitle = String::from_str("(").concat(
        if nrows > 0 {
            "first"
        } else {
            "last"
        },
    ).concat(" ").concat(dec.as_str()).concat(" ").concat(
        if mag == 1 {
            "row"
        } else {
            "rows"
        },
    ).concat(")");
    proof {
        assert(subtitle@ =~= subtitle_of(nrows as int));
    }
    Ok(RenderedTable { title, subtitle, lines })
}

} // verus!
