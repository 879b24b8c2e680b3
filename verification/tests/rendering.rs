use aws_logs_tui::catalog::{Catalog, Function};
use aws_logs_tui::render::render;
use aws_logs_tui::report::{count_line, report_lines};
use aws_logs_tui::select::{NavInput, SelectionState};

fn catalog_of(names: &[&str]) -> Catalog {
    Catalog::from_entries(names.iter().map(|n| Function::new(n)).collect())
}

#[test]
fn render_is_pure() {
    let catalog = catalog_of(&["alpha", "beta", "gamma"]);
    let mut selection = SelectionState::new();
    selection.apply(NavInput::Next, 3);
    let first = render(&catalog, &selection);
    let second = render(&catalog, &selection);
    assert_eq!(first, second);
}

#[test]
fn render_titles_are_fixed() {
    let catalog = catalog_of(&[]);
    let selection = SelectionState::new();
    let screen = render(&catalog, &selection);
    assert_eq!(screen.header, "AWS Logs TUI");
    assert_eq!(
        screen.footer,
        "Use \u{2193}\u{2191} to move, \u{2190} to unselect, \u{2192} to change status, g/G to go top/bottom."
    );
    assert_eq!(screen.list_title, "TODO List");
    assert_eq!(screen.detail_title, "Function Info");
    assert_eq!(screen.marker, ">");
}

#[test]
fn render_rows_alternate_bands_and_mark_the_selection() {
    let catalog = catalog_of(&["a", "b", "c"]);
    let mut selection = SelectionState::new();
    selection.apply(NavInput::Next, 3);
    selection.apply(NavInput::Next, 3);
    let screen = render(&catalog, &selection);
    assert_eq!(screen.rows.len(), 3);
    assert_eq!(screen.rows[0].text, "a");
    assert_eq!(screen.rows[1].text, "b");
    assert_eq!(screen.rows[2].text, "c");
    assert!(!screen.rows[0].alt_band);
    assert!(screen.rows[1].alt_band);
    assert!(!screen.rows[2].alt_band);
    assert!(!screen.rows[0].selected);
    assert!(screen.rows[1].selected);
    assert!(!screen.rows[2].selected);
}

#[test]
fn detail_shows_the_selected_name() {
    let catalog = catalog_of(&["alpha", "beta"]);
    let mut selection = SelectionState::new();
    selection.apply(NavInput::Last, 2);
    let screen = render(&catalog, &selection);
    assert_eq!(screen.detail, "beta");
}

#[test]
fn detail_with_nothing_selected_is_the_fixed_message() {
    let catalog = catalog_of(&["alpha", "beta"]);
    let selection = SelectionState::new();
    let screen = render(&catalog, &selection);
    assert_eq!(screen.detail, "Nothing selected...");
}

#[test]
fn detail_with_empty_catalog_is_the_fixed_message() {
    let catalog = catalog_of(&[]);
    let selection = SelectionState::new();
    let screen = render(&catalog, &selection);
    assert_eq!(screen.detail, "No functions available...");
    assert_eq!(screen.rows.len(), 0);
}

#[test]
fn count_line_is_byte_stable() {
    assert_eq!(count_line(0), "Found [0] functions:");
    assert_eq!(count_line(7), "Found [7] functions:");
    assert_eq!(count_line(42), "Found [42] functions:");
    assert_eq!(count_line(12050), "Found [12050] functions:");
}

#[test]
fn report_lists_the_count_then_every_name() {
    let catalog = catalog_of(&["gamma", "alpha", "beta"]);
    let lines = report_lines(&catalog);
    assert_eq!(
        lines,
        vec!["Found [3] functions:", "alpha", "beta", "gamma"]
    );
}

#[test]
fn report_of_an_empty_catalog_is_just_the_count_line() {
    let catalog = catalog_of(&[]);
    let lines = report_lines(&catalog);
    assert_eq!(lines, vec!["Found [0] functions:"]);
}
