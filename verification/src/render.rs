//! The render coordinator: a pure projection of catalog and selection
//! into three drawable regions — header, list and detail — plus the
//! static footer text. It touches no state and does no drawing; painting
//! the regions onto a terminal is the binary's business.
//!
//! The contract of [`render`] pins every field of the output, so two
//! calls on the same catalog and selection produce identical screens.

use vstd::prelude::*;

use crate::catalog::Catalog;
use crate::select::{cursor_ok, SelectionState};

verus! {

/// The static title text of the header region.
pub open spec fn header_text() -> Seq<char> {
    "AWS Logs TUI"@
}

/// The static key-binding hint shown under the list.
pub open spec fn footer_text() -> Seq<char> {
    "Use \u{2193}\u{2191} to move, \u{2190} to unselect, \u{2192} to change status, g/G to go top/bottom."@
}

/// The title of the list region.
pub open spec fn list_title_text() -> Seq<char> {
    "TODO List"@
}

/// The title of the detail region.
pub open spec fn detail_title_text() -> Seq<char> {
    "Function Info"@
}

/// The marker glyph drawn in front of the selected row.
pub open spec fn marker_text() -> Seq<char> {
    ">"@
}

/// The fixed detail message when the catalog has no entries.
pub open spec fn no_entries_text() -> Seq<char> {
    "No functions available..."@
}

/// The fixed detail message when nothing is selected.
pub open spec fn nothing_selected_text() -> Seq<char> {
    "Nothing selected..."@
}

/// The detail region's text: the selected entry's name; with nothing
/// selected, a fixed message; with nothing listed at all, another. The
/// three are distinct literal contracts.
pub open spec fn detail_text(names: Seq<Seq<char>>, cursor: Option<int>) -> Seq<char> {
    if names.len() == 0 {
        no_entries_text()
    } else {
        match cursor {
            None => nothing_selected_text(),
            Some(i) => names[i],
        }
    }
}

/// Empty catalog safety, on the detail region: with nothing listed, the
/// detail text is the fixed no-entries message, whatever the cursor.
pub proof fn lemma_empty_catalog_detail(cursor: Option<int>)
    ensures
        detail_text(Seq::empty(), cursor) == no_entries_text(),
{
}

/// One row of the list region.
#[derive(Clone, Debug, PartialEq, Eq)]
pub struct ListRow {
    /// The entry's name.
    pub text: String,
    /// Rows alternate between two background bands; this is the odd band.
    pub alt_band: bool,
    /// Whether this row is the selected one, to be drawn highlighted and
    /// with the marker glyph.
    pub selected: bool,
}

/// The three drawable regions (header, list, detail) plus the footer
/// hint, as plain data for a terminal painter.
#[derive(Clone, Debug, PartialEq, Eq)]
pub struct Screen {
    pub header: String,
    pub footer: String,
    pub list_title: String,
    pub marker: String,
    pub rows: Vec<ListRow>,
    pub detail_title: String,
    pub detail: String,
}

/// Project catalog and selection into a screen. Pure: no state is read
/// or written besides the arguments, and the contract pins every field,
/// so identical inputs give identical output.
pub fn render(catalog: &Catalog, selection: &SelectionState) -> (s: Screen)
    requires
        cursor_ok(selection@, catalog@.len() as int),
    ensures
        s.header@ == header_text(),
        s.footer@ == footer_text(),
        s.list_title@ == list_title_text(),
        s.marker@ == marker_text(),
        s.detail_title@ == detail_title_text(),
        s.rows@.len() == catalog@.len(),
        forall|i: int|
            0 <= i < catalog@.len() ==> #[trigger] s.rows@[i].text@ == catalog@[i],
        forall|i: int|
            0 <= i < catalog@.len() ==> #[trigger] s.rows@[i].alt_band == (i % 2 == 1),
        forall|i: int|
            0 <= i < catalog@.len() ==> #[trigger] s.rows@[i].selected == (selection@ == Some(
                i,
            )),
        s.detail@ == detail_text(catalog@, selection@),
{
    let n = catalog.len();
    let mut rows: Vec<ListRow> = Vec::new();
    let mut i: usize = 0;
    while i < n
        invariant
            i <= n,
            n == catalog@.len(),
            cursor_ok(selection@, n as int),
            rows@.len() == i,
            forall|k: int| 0 <= k < i ==> #[trigger] rows@[k].text@ == catalog@[k],
            forall|k: int| 0 <= k < i ==> #[trigger] rows@[k].alt_band == (k % 2 == 1),
            forall|k: int|
                0 <= k < i ==> #[trigger] rows@[k].selected == (selection@ == Some(k)),
        decreases n - i,
    {
        let selected = match selection.cursor {
            Some(j) => j == i,
            None => false,
        };
        rows.push(
            ListRow { text: catalog.name_at(i).clone(), alt_band: i % 2 == 1, selected },
        );
        i = i + 1;
    }
    let detail = if n == 0 {
        String::from_str("No functions available...")
    } else {
        match selection.cursor {
            None => String::from_str("Nothing selected..."),
            Some(j) => catalog.name_at(j).clone(),
        }
    };
    Screen {
        header: String::from_str("AWS Logs TUI"),
        footer: String::from_str(
            "Use \u{2193}\u{2191} to move, \u{2190} to unselect, \u{2192} to change status, g/G to go top/bottom.",
        ),
        list_title: String::from_str("TODO List"),
        marker: String::from_str(">"),
        rows,
        detail_title: String::from_str("Function Info"),
        detail,
    }
}

} // verus!
