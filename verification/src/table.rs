//! The shell's own model of a loaded tabular dataset: named columns and rows
//! of cells.  Numeric cells are kept as fixed-point values in hundredths, so
//! that the renderer's two-digit decimal output is a pure function of the
//! cell.  The external table engine owns the real columnar data; the session
//! converts what the renderer reads into this type.

use vstd::prelude::*;

verus! {

/// One cell of a table: a numeric value in hundredths of a unit, or a value
/// that could not be read as a number.
#[derive(Clone, Copy, Debug, PartialEq, Eq, Structural)]
pub enum Cell {
    /// A fixed-point number: one hundred times the value shown.
    Num(i64),
    /// A missing or non-numeric value; rendered as a marker.
    Missing,
}

/// A loaded tabular dataset: column names and rows of cells.
#[derive(Debug)]
pub struct Table {
    /// Declared column names, each possibly carrying a `(unit)` suffix.
    pub columns: Vec<String>,
    /// Data rows; every row is exactly as wide as the column list.
    pub rows: Vec<Vec<Cell>>,
}

impl Table {
    /// The column names, as character sequences.
    pub open spec fn spec_columns(self) -> Seq<Seq<char>> {
        crate::strutil::views_of(self.columns@)
    }

    /// The data rows, as sequences of cells.
    pub open spec fn spec_rows(self) -> Seq<Seq<Cell>> {
        self.rows@.map_values(|r: Vec<Cell>| r@)
    }

    /// The number of data rows.
    pub open spec fn spec_height(self) -> nat {
        self.rows@.len()
    }

    /// The number of columns.
    pub open spec fn spec_width(self) -> nat {
        self.columns@.len()
    }

    /// Every row is as wide as the column list.
    pub open spec fn well_formed(self) -> bool {
        forall|i: int|
            0 <= i < self.rows@.len() ==> (#[trigger] self.rows@[i])@.len()
                == self.columns@.len()
    }

    /// A table with the given columns and no rows yet.
    pub fn new(columns: Vec<String>) -> (t: Table)
        ensures
            t.well_formed(),
            t.spec_columns() == crate::strutil::views_of(columns@),
            t.spec_height() == 0,
    {
        let t = Table { columns, rows: Vec::new() };
        proof {
            assert(t.spec_rows() =~= Seq::<Seq<Cell>>::empty());
        }
        t
    }

    /// Appends one data row, which must be as wide as the column list.
    pub fn push_row(&mut self, row: Vec<Cell>)
        requires
            old(self).well_formed(),
            row@.len() == old(self).spec_width(),
        ensures
            final(self).well_formed(),
            final(self).spec_columns() == old(self).spec_columns(),
            final(self).spec_rows() == old(self).spec_rows().push(row@),
    {
        self.rows.push(row);
        proof {
            assert(self.spec_rows() =~= old(self).spec_rows().push(row@));
        }
    }

    /// The number of data rows.
    pub fn height(&self) -> (h: usize)
        ensures
            h == self.spec_height(),
    {
        self.rows.len()
    }

    /// The number of columns.
    pub fn width(&self) -> (w: usize)
        ensures
            w == self.spec_width(),
    {
        self.columns.len()
    }

    /// The name of one column.
    pub fn column_at(&self, j: usize) -> (name: &String)
        requires
            j < self.spec_width(),
        ensures
            name@ == self.spec_columns()[j as int],
    {
        &self.columns[j]
    }

    /// One cell of one data row.
    pub fn cell_at(&self, i: usize, j: usize) -> (c: Cell)
        requires
            self.well_formed(),
            i < self.spec_height(),
            j < self.spec_width(),
        ensures
            c == self.spec_rows()[i as int][j as int],
    {
        self.rows[i][j]
    }
}

} // verus!
