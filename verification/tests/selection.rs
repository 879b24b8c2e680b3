use aws_logs_tui::catalog::{Catalog, Function};
use aws_logs_tui::select::{App, Key, KeyEvent, KeyEventKind, NavInput, SelectionState};

fn catalog_of(names: &[&str]) -> Catalog {
    Catalog::from_entries(names.iter().map(|n| Function::new(n)).collect())
}

fn press(key: Key) -> KeyEvent {
    KeyEvent { kind: KeyEventKind::Press, key }
}

#[test]
fn initial_state_has_nothing_selected() {
    let s = SelectionState::new();
    assert_eq!(s.cursor, None);
}

#[test]
fn next_enters_the_list_at_the_top() {
    let mut s = SelectionState::new();
    s.apply(NavInput::Next, 3);
    assert_eq!(s.cursor, Some(0));
}

#[test]
fn previous_enters_the_list_at_the_bottom() {
    let mut s = SelectionState::new();
    s.apply(NavInput::Previous, 3);
    assert_eq!(s.cursor, Some(2));
}

#[test]
fn next_saturates_at_the_last_index() {
    let mut s = SelectionState::new();
    s.apply(NavInput::Last, 3);
    assert_eq!(s.cursor, Some(2));
    s.apply(NavInput::Next, 3);
    assert_eq!(s.cursor, Some(2));
    s.apply(NavInput::Next, 3);
    assert_eq!(s.cursor, Some(2));
}

#[test]
fn previous_saturates_at_the_first_index() {
    let mut s = SelectionState::new();
    s.apply(NavInput::First, 3);
    assert_eq!(s.cursor, Some(0));
    s.apply(NavInput::Previous, 3);
    assert_eq!(s.cursor, Some(0));
    s.apply(NavInput::Previous, 3);
    assert_eq!(s.cursor, Some(0));
}

#[test]
fn cursor_stays_in_bounds_under_any_walk() {
    let walks = [
        vec![NavInput::Next, NavInput::Next, NavInput::Next, NavInput::Next],
        vec![NavInput::Previous, NavInput::Previous, NavInput::First, NavInput::Next],
        vec![NavInput::Last, NavInput::Next, NavInput::Deselect, NavInput::Previous],
    ];
    for n in [0usize, 1, 2, 5] {
        for walk in &walks {
            let mut s = SelectionState::new();
            for t in walk {
                s.apply(*t, n);
                match s.cursor {
                    None => {}
                    Some(i) => assert!(i < n, "cursor {} out of bounds for {}", i, n),
                }
            }
        }
    }
}

#[test]
fn deselect_then_next_reselects_the_top() {
    for start in [
        vec![],
        vec![NavInput::Last],
        vec![NavInput::Next, NavInput::Next],
    ] {
        let mut s = SelectionState::new();
        for t in &start {
            s.apply(*t, 4);
        }
        s.apply(NavInput::First, 4);
        s.apply(NavInput::Deselect, 4);
        assert_eq!(s.cursor, None);
        s.apply(NavInput::Next, 4);
        assert_eq!(s.cursor, Some(0));
    }
}

#[test]
fn empty_catalog_never_selects() {
    let transitions = [
        NavInput::Deselect,
        NavInput::Next,
        NavInput::Previous,
        NavInput::First,
        NavInput::Last,
    ];
    for t in transitions {
        let mut s = SelectionState::new();
        s.apply(t, 0);
        assert_eq!(s.cursor, None);
    }
}

#[test]
fn exit_keys_raise_the_stop_flag() {
    let mut app = App::new(catalog_of(&["a"]));
    assert!(!app.should_exit);
    app.handle_key(press(Key::Char('q')));
    assert!(app.should_exit);

    let mut app = App::new(catalog_of(&["a"]));
    app.handle_key(press(Key::Esc));
    assert!(app.should_exit);
}

#[test]
fn navigation_keys_drive_the_cursor() {
    let mut app = App::new(catalog_of(&["a", "b", "c"]));
    app.handle_key(press(Key::Char('j')));
    assert_eq!(app.selection.cursor, Some(0));
    app.handle_key(press(Key::Down));
    assert_eq!(app.selection.cursor, Some(1));
    app.handle_key(press(Key::Char('k')));
    assert_eq!(app.selection.cursor, Some(0));
    app.handle_key(press(Key::Char('G')));
    assert_eq!(app.selection.cursor, Some(2));
    app.handle_key(press(Key::Char('g')));
    assert_eq!(app.selection.cursor, Some(0));
    app.handle_key(press(Key::End));
    assert_eq!(app.selection.cursor, Some(2));
    app.handle_key(press(Key::Home));
    assert_eq!(app.selection.cursor, Some(0));
    app.handle_key(press(Key::Char('h')));
    assert_eq!(app.selection.cursor, None);
    app.handle_key(press(Key::Up));
    assert_eq!(app.selection.cursor, Some(2));
    app.handle_key(press(Key::Left));
    assert_eq!(app.selection.cursor, None);
    assert!(!app.should_exit);
}

#[test]
fn only_presses_are_actionable() {
    let mut app = App::new(catalog_of(&["a", "b"]));
    app.handle_key(KeyEvent { kind: KeyEventKind::Release, key: Key::Char('j') });
    assert_eq!(app.selection.cursor, None);
    app.handle_key(KeyEvent { kind: KeyEventKind::Repeat, key: Key::Char('q') });
    assert!(!app.should_exit);
    app.handle_key(KeyEvent { kind: KeyEventKind::Release, key: Key::Esc });
    assert!(!app.should_exit);
}

#[test]
fn unbound_keys_change_nothing() {
    let mut app = App::new(catalog_of(&["a", "b"]));
    app.handle_key(press(Key::Char('j')));
    app.handle_key(press(Key::Char('x')));
    app.handle_key(press(Key::Other));
    app.handle_key(press(Key::Right));
    assert_eq!(app.selection.cursor, Some(0));
    assert!(!app.should_exit);
}
