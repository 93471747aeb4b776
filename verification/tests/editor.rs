use hecto::editor::scroll_axis;
use hecto::{Direction, Document, Editor, Intent, Position, Size};

fn editor(lines: &[&str], width: u16, height: u16) -> Editor {
    let owned: Vec<String> = lines.iter().map(|line| String::from(*line)).collect();
    Editor::new(Document::from_lines(&owned), Size { width, height })
}

fn at(x: usize, y: usize) -> Position {
    Position { x, y }
}

fn go(editor: &mut Editor, keys: &[Direction]) {
    for key in keys {
        editor.process(Intent::Move(*key));
    }
}

#[test]
fn new_editor_starts_in_the_corner() {
    let editor = editor(&["ab"], 80, 24);
    assert_eq!(editor.cursor_position(), at(0, 0));
    assert_eq!(editor.offset(), at(0, 0));
    assert_eq!(Position::default(), at(0, 0));
    assert!(!editor.should_quit());
    assert_eq!(editor.size().width, 80);
    assert_eq!(editor.size().height, 24);
    assert_eq!(editor.document().len(), 1);
}

#[test]
fn right_wraps_to_the_next_row_and_left_wraps_back() {
    let mut editor = editor(&["abc", "de"], 80, 24);
    go(&mut editor, &[Direction::Right, Direction::Right, Direction::Right]);
    assert_eq!(editor.cursor_position(), at(3, 0));
    editor.move_cursor(Direction::Right);
    assert_eq!(editor.cursor_position(), at(0, 1));
    editor.move_cursor(Direction::Left);
    assert_eq!(editor.cursor_position(), at(3, 0));
}

#[test]
fn left_stops_at_the_start_of_the_document() {
    let mut editor = editor(&["abc"], 80, 24);
    editor.move_cursor(Direction::Left);
    assert_eq!(editor.cursor_position(), at(0, 0));
    editor.move_cursor(Direction::Up);
    assert_eq!(editor.cursor_position(), at(0, 0));
}

#[test]
fn down_stops_just_below_the_last_row() {
    let mut editor = editor(&["abc", "de"], 80, 24);
    go(&mut editor, &[Direction::Down, Direction::Down]);
    assert_eq!(editor.cursor_position(), at(0, 2));
    go(&mut editor, &[Direction::Down, Direction::Right]);
    assert_eq!(editor.cursor_position(), at(0, 2));
    editor.move_cursor(Direction::Left);
    assert_eq!(editor.cursor_position(), at(2, 1));
}

#[test]
fn column_is_fitted_to_the_row_it_lands_on() {
    let mut editor = editor(&["abcdef", "xy", ""], 80, 24);
    editor.move_cursor(Direction::End);
    assert_eq!(editor.cursor_position(), at(6, 0));
    editor.move_cursor(Direction::Down);
    assert_eq!(editor.cursor_position(), at(2, 1));
    editor.move_cursor(Direction::Down);
    assert_eq!(editor.cursor_position(), at(0, 2));
    editor.move_cursor(Direction::Up);
    assert_eq!(editor.cursor_position(), at(0, 1));
}

#[test]
fn home_and_end_go_to_the_ends_of_the_row() {
    let mut editor = editor(&["ae\u{301}c"], 80, 24);
    editor.move_cursor(Direction::End);
    assert_eq!(editor.cursor_position(), at(3, 0));
    editor.move_cursor(Direction::Home);
    assert_eq!(editor.cursor_position(), at(0, 0));
}

#[test]
fn page_moves_by_the_viewport_height() {
    let mut editor = editor(&["0", "1", "2", "3", "4", "5", "6", "7"], 10, 3);
    editor.move_cursor(Direction::PageDown);
    assert_eq!(editor.cursor_position(), at(0, 3));
    editor.move_cursor(Direction::PageDown);
    assert_eq!(editor.cursor_position(), at(0, 6));
    editor.move_cursor(Direction::PageDown);
    assert_eq!(editor.cursor_position(), at(0, 8));
    editor.move_cursor(Direction::PageUp);
    assert_eq!(editor.cursor_position(), at(0, 5));
    editor.move_cursor(Direction::PageUp);
    editor.move_cursor(Direction::PageUp);
    assert_eq!(editor.cursor_position(), at(0, 0));
}

#[test]
fn cursor_stays_in_the_document_on_every_move() {
    let mut editor = editor(&["abc", "", "de\u{301}", "f"], 4, 2);
    let keys = [
        Direction::End,
        Direction::Down,
        Direction::Right,
        Direction::Right,
        Direction::End,
        Direction::PageDown,
        Direction::Right,
        Direction::Left,
        Direction::Up,
        Direction::PageUp,
        Direction::Left,
        Direction::Home,
        Direction::Left,
    ];
    for key in keys {
        editor.process(Intent::Move(key));
        let cursor = editor.cursor_position();
        assert!(cursor.y <= editor.document().len());
        assert!(cursor.x <= editor.document().width(cursor.y));
    }
}

#[test]
fn scroll_axis_follows_the_cursor() {
    assert_eq!(scroll_axis(3, 5, 10), 3);
    assert_eq!(scroll_axis(5, 5, 10), 5);
    assert_eq!(scroll_axis(14, 5, 10), 5);
    assert_eq!(scroll_axis(15, 5, 10), 6);
    assert_eq!(scroll_axis(40, 0, 10), 31);
    assert_eq!(scroll_axis(usize::MAX, 0, 10), usize::MAX - 9);
    assert_eq!(scroll_axis(usize::MAX, usize::MAX, 2), usize::MAX - 1);
    assert_eq!(scroll_axis(0, 0, 0), 1);
}

#[test]
fn scroll_axis_is_idempotent() {
    for cursor in 0..30usize {
        for offset in 0..30usize {
            for extent in 1..6usize {
                let once = scroll_axis(cursor, offset, extent);
                assert_eq!(scroll_axis(cursor, once, extent), once);
                assert!(once <= cursor && cursor < once + extent);
            }
        }
    }
}

#[test]
fn viewport_follows_the_cursor() {
    let mut editor = editor(&["0123456789", "1", "2", "3", "4", "5"], 4, 3);
    go(&mut editor, &[Direction::Down, Direction::Down]);
    assert_eq!(editor.offset(), at(0, 0));
    go(&mut editor, &[Direction::Down]);
    assert_eq!(editor.offset(), at(0, 1));
    go(&mut editor, &[Direction::PageDown]);
    assert_eq!(editor.cursor_position(), at(0, 6));
    assert_eq!(editor.offset(), at(0, 4));
    assert_eq!(editor.screen_cursor(), at(0, 2));
    go(&mut editor, &[Direction::PageUp, Direction::PageUp]);
    assert_eq!(editor.offset(), at(0, 0));
    go(&mut editor, &[Direction::End]);
    assert_eq!(editor.cursor_position(), at(10, 0));
    assert_eq!(editor.offset(), at(7, 0));
    assert_eq!(editor.screen_cursor(), at(3, 0));
    go(&mut editor, &[Direction::Home]);
    assert_eq!(editor.offset(), at(0, 0));
}

#[test]
fn scroll_alone_keeps_the_cursor() {
    let mut editor = editor(&["0", "1", "2", "3"], 4, 2);
    editor.move_cursor(Direction::PageDown);
    editor.move_cursor(Direction::Down);
    assert_eq!(editor.offset(), at(0, 0));
    editor.scroll();
    assert_eq!(editor.cursor_position(), at(0, 3));
    assert_eq!(editor.offset(), at(0, 2));
    editor.scroll();
    assert_eq!(editor.offset(), at(0, 2));
}

#[test]
fn typing_a_newline_moves_to_the_new_row() {
    let mut editor = editor(&["abcd"], 80, 24);
    go(&mut editor, &[Direction::Right, Direction::Right]);
    editor.process(Intent::InsertChar('\n'));
    assert_eq!(editor.document().lines(), vec!["ab", "cd"]);
    assert_eq!(editor.cursor_position(), at(0, 1));
}

#[test]
fn typing_a_character_moves_right() {
    let mut editor = editor(&["ad"], 80, 24);
    editor.move_cursor(Direction::Right);
    editor.insert_char('b');
    editor.process(Intent::InsertChar('c'));
    assert_eq!(editor.document().lines(), vec!["abcd"]);
    assert_eq!(editor.cursor_position(), at(3, 0));
}

#[test]
fn typing_a_combining_mark_keeps_the_cursor_in_the_row() {
    let mut editor = editor(&["e", "x"], 80, 24);
    editor.move_cursor(Direction::End);
    editor.insert_char('\u{301}');
    assert_eq!(editor.document().lines(), vec!["e\u{301}", "x"]);
    assert_eq!(editor.cursor_position(), at(1, 0));
}

#[test]
fn typing_below_the_last_row_changes_nothing() {
    let mut editor = editor(&["ab"], 80, 24);
    editor.move_cursor(Direction::Down);
    editor.insert_char('x');
    editor.insert_char('\n');
    assert_eq!(editor.document().lines(), vec!["ab"]);
    assert_eq!(editor.cursor_position(), at(0, 1));
}

#[test]
fn deleting_at_the_cursor() {
    let mut editor = editor(&["ab", "cd"], 80, 24);
    editor.process(Intent::DeleteChar);
    assert_eq!(editor.document().lines(), vec!["b", "cd"]);
    assert_eq!(editor.cursor_position(), at(0, 0));
    editor.move_cursor(Direction::End);
    editor.delete_char();
    assert_eq!(editor.document().lines(), vec!["bcd"]);
    assert_eq!(editor.cursor_position(), at(1, 0));
}

#[test]
fn quit_and_unknown_leave_the_text_alone() {
    let mut editor = editor(&["ab"], 80, 24);
    editor.process(Intent::Unknown);
    assert!(!editor.should_quit());
    editor.process(Intent::Quit);
    assert!(editor.should_quit());
    assert_eq!(editor.document().lines(), vec!["ab"]);
    assert_eq!(editor.cursor_position(), at(0, 0));
}

#[test]
fn draw_row_shows_the_columns_in_view() {
    let mut editor = editor(&["0123\t56789"], 4, 3);
    assert_eq!(editor.draw_row(editor.document().row(0).unwrap()), "0123");
    go(
        &mut editor,
        &[
            Direction::Right,
            Direction::Right,
            Direction::Right,
            Direction::Right,
            Direction::Right,
        ],
    );
    assert_eq!(editor.offset(), at(2, 0));
    assert_eq!(editor.draw_row(editor.document().row(0).unwrap()), "23 5");
}

#[test]
fn fit_brings_a_place_into_the_document() {
    let editor = editor(&["abc", "de"], 80, 24);
    assert_eq!(editor.fit(at(1, 1)), at(1, 1));
    assert_eq!(editor.fit(at(9, 0)), at(3, 0));
    assert_eq!(editor.fit(at(9, 1)), at(2, 1));
    assert_eq!(editor.fit(at(9, 2)), at(0, 2));
    assert_eq!(editor.fit(at(1, 7)), at(0, 2));
}

#[test]
fn row_on_screen_counts_from_the_offset() {
    let mut editor = editor(&["0", "1", "2", "3", "4"], 4, 2);
    assert_eq!(editor.row_on_screen(1).unwrap().text(), "1");
    go(&mut editor, &[Direction::PageDown, Direction::Down]);
    assert_eq!(editor.offset(), at(0, 2));
    assert_eq!(editor.row_on_screen(0).unwrap().text(), "2");
    assert_eq!(editor.row_on_screen(2).unwrap().text(), "4");
    assert!(editor.row_on_screen(3).is_none());
    assert!(editor.row_on_screen(u16::MAX).is_none());
}

#[test]
fn cursor_is_on_screen_after_every_move() {
    let mut editor = editor(&["0123456789abcdef", "", "xy", "0123456789", "q", "w", "e"], 5, 3);
    let keys = [
        Direction::End,
        Direction::Down,
        Direction::Down,
        Direction::End,
        Direction::Down,
        Direction::End,
        Direction::PageDown,
        Direction::PageDown,
        Direction::Left,
        Direction::Left,
        Direction::PageUp,
        Direction::End,
        Direction::Home,
        Direction::PageUp,
        Direction::Right,
    ];
    for key in keys {
        editor.process(Intent::Move(key));
        let cursor = editor.cursor_position();
        let offset = editor.offset();
        assert!(offset.x <= cursor.x && cursor.x < offset.x + 5);
        assert!(offset.y <= cursor.y && cursor.y < offset.y + 3);
    }
}
