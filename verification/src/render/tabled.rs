//! Drawing grids of cells with the `tabled` crate.

use vstd::prelude::*;

use crate::options::TableStyle;
use crate::text::views;

verus! {

/// The text that `tabled` draws for `records` (the first record is the
/// header row) in the style numbered `style` (see `style_number`).
pub uninterp spec fn tabled_text(records: Seq<Seq<Seq<char>>>, style: int) -> Seq<char>;

/// The number under which a table style is handed to `tabled_text`.
pub open spec fn style_number(style: TableStyle) -> int {
    match style {
        TableStyle::Rounded => 0,
        TableStyle::Modern => 1,
        TableStyle::Sharp => 2,
        TableStyle::Psql => 3,
        TableStyle::Ascii => 4,
        TableStyle::Blank => 5,
    }
}

/// The character sequences of every cell, row by row.
pub open spec fn cells(rows: Seq<Vec<String>>) -> Seq<Seq<Seq<char>>> {
    rows.map_values(|row: Vec<String>| views(row@))
}

/// Draws `records` with `tabled` (`Builder::from`, `Builder::build`,
/// `Table::with` of the matching `Style`, `Table::to_string`).
/// Trusted: the result is `tabled_text` of the cells and the style; nothing
/// more is claimed about the layout.
#[verifier::external_body]
pub(crate) fn draw_table(records: Vec<Vec<String>>, style: TableStyle) -> (r: String)
    ensures
        r@ == tabled_text(cells(records@), style_number(style)),
{
    let mut table = tabled::builder::Builder::from(records).build();
    match style {
        TableStyle::Rounded => table.with(tabled::settings::Style::rounded()),
        TableStyle::Modern => table.with(tabled::settings::Style::modern()),
        TableStyle::Sharp => table.with(tabled::settings::Style::sharp()),
        TableStyle::Psql => table.with(tabled::settings::Style::psql()),
        TableStyle::Ascii => table.with(tabled::settings::Style::ascii()),
        TableStyle::Blank => table.with(tabled::settings::Style::blank()),
    };
    table.to_string()
}

} // verus!
