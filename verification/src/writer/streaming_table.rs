//! Rows of a streaming table: cell collection, the check of a row against
//! the configured columns, and the header font.
use crate::error::Error;
use crate::text::{decimal, push_decimal, seq_contains, str_contains};
use crate::writer::document_builder::TextAlign;
use vstd::prelude::*;
use vstd::string::StringExecFns;

verus! {

broadcast use vstd::string::group_string_axioms;

/// Horizontal alignment of a table cell.
#[derive(Debug, Clone, Copy, PartialEq, Eq)]
pub enum CellAlign {
    /// Left-aligned.
    Left,
    /// Centered.
    Center,
    /// Right-aligned.
    Right,
}

/// Alignment mapping helper: the table vocabulary (`CellAlign`) doesn't
/// share a type with `TextAlign` but maps trivially.
pub fn cell_to_text_align(a: CellAlign) -> (r: TextAlign)
    ensures
        a == CellAlign::Left ==> r == TextAlign::Left,
        a == CellAlign::Center ==> r == TextAlign::Center,
        a == CellAlign::Right ==> r == TextAlign::Right,
{
    match a {
        CellAlign::Left => TextAlign::Left,
        CellAlign::Center => TextAlign::Center,
        CellAlign::Right => TextAlign::Right,
    }
}

/// One row being built inside `push_row`. Cells must be pushed in column
/// order.
#[derive(Debug, Default)]
pub struct StreamingRow {
    cells: Vec<String>,
}

impl StreamingRow {
    /// The cells pushed so far.
    pub closed spec fn cells_view(&self) -> Seq<Seq<char>> {
        self.cells.deep_view()
    }

    /// An empty row.
    pub fn new() -> (r: Self)
        ensures
            r.cells_view() == Seq::<Seq<char>>::empty(),
    {
        let r = StreamingRow { cells: Vec::new() };
        assert(r.cells.deep_view() =~= Seq::<Seq<char>>::empty());
        r
    }

    /// Append the next cell's string content.
    pub fn cell(&mut self, value: &str) -> (r: &mut Self)
        ensures
            r.cells_view() == old(self).cells_view().push(value@),
            *final(self) == *final(r),
    {
        let ghost before = self.cells.deep_view();
        self.cells.push(value.to_owned());
        assert(self.cells.deep_view() =~= before.push(value@));
        self
    }

    /// The row's cells, in the order they were pushed.
    pub fn into_cells(self) -> (r: Vec<String>)
        ensures
            r.deep_view() == self.cells_view(),
    {
        self.cells
    }
}

/// The check `push_row` makes of a row: there must be columns, and the row
/// must have one cell per column.
pub fn check_row_width(n_cells: usize, n_cols: usize) -> (r: Result<(), Error>)
    ensures
        n_cols == 0 ==> (r matches Err(Error::InvalidOperation(m)) && m@
            == "streaming_table: no columns configured"@),
        n_cols > 0 && n_cells != n_cols ==> (r matches Err(Error::InvalidOperation(m)) && m@
            == "streaming_table: row has "@ + decimal(n_cells as nat) + " cells, expected "@
            + decimal(n_cols as nat)),
        n_cols > 0 && n_cells == n_cols ==> r is Ok,
{
    if n_cols == 0 {
        return Err(Error::InvalidOperation("streaming_table: no columns configured".to_owned()));
    }
    if n_cells != n_cols {
        let mut m = "streaming_table: row has ".to_owned();
        push_decimal(&mut m, n_cells as u64);
        m.append(" cells, expected ");
        push_decimal(&mut m, n_cols as u64);
        return Err(Error::InvalidOperation(m));
    }
    Ok(())
}

/// The font of header cells: the body font when its name already names a
/// bold face (contains `-Bold`), otherwise the body font with `-Bold`
/// appended.
pub fn header_font_name(base: &str) -> (r: String)
    ensures
        seq_contains(base@, "-Bold"@) ==> r@ == base@,
        !seq_contains(base@, "-Bold"@) ==> r@ == base@ + "-Bold"@,
{
    if str_contains(base, "-Bold") {
        base.to_owned()
    } else {
        let mut s = base.to_owned();
        s.append("-Bold");
        s
    }
}

} // verus!
