use puzzle::keys::{Code, Key, Kind};
use puzzle::textarea::{
    length_before, place_pieces, wrap_places, wrap_ranges, wrapped_line_index, TextArea, TextAreaState, TextRange,
};

fn part(text: &str, range: TextRange) -> String {
    text[range.start..range.end].to_string()
}

#[test]
fn empty_textarea() {
    let mut ta = TextArea::new();
    assert_eq!(ta.text(), "");
    assert!(ta.is_empty());
    assert_eq!(ta.desired_height(80), 1);
}

#[test]
fn insert_and_cursor() {
    let mut ta = TextArea::new();
    ta.insert_str("hello");
    assert_eq!(ta.text(), "hello");
    assert_eq!(ta.cursor_pos, 5);
    ta.move_left();
    assert_eq!(ta.cursor_pos, 4);
    ta.move_right();
    assert_eq!(ta.cursor_pos, 5);
}

#[test]
fn delete_backward_and_forward() {
    let mut ta = TextArea::new();
    ta.insert_str("abcde");
    ta.cursor_pos = 3;
    ta.delete_backward();
    assert_eq!(ta.text(), "abde");
    assert_eq!(ta.cursor_pos, 2);
    ta.delete_forward();
    assert_eq!(ta.text(), "abe");
    assert_eq!(ta.cursor_pos, 2);
}

#[test]
fn wrapping_basic() {
    let ranges = wrap_ranges("hello world", 5);
    assert_eq!(ranges.len(), 2);
    assert_eq!(part("hello world", ranges[0]), "hello");
    assert_eq!(part("hello world", ranges[1]), "world");
}

#[test]
fn wrapping_with_newlines() {
    let ranges = wrap_ranges("ab\ncd", 10);
    assert_eq!(ranges.len(), 2);
    assert_eq!(part("ab\ncd", ranges[0]), "ab");
    assert_eq!(part("ab\ncd", ranges[1]), "cd");
}

#[test]
fn cursor_movement_across_wrapped_lines() {
    let mut ta = TextArea::new();
    ta.insert_str("hello world foo");
    let _ = ta.wrapped_lines(5);
    ta.cursor_pos = 3;
    ta.move_down();
    assert!(ta.cursor_pos >= 6);
    ta.move_up();
    assert!(ta.cursor_pos <= 5);
}

#[test]
fn kill_and_yank() {
    let mut ta = TextArea::new();
    ta.insert_str("hello world");
    ta.cursor_pos = 5;
    ta.kill_to_end_of_line();
    assert_eq!(ta.text(), "hello");
    assert_eq!(ta.kill_buffer, " world");
    ta.yank();
    assert_eq!(ta.text(), "hello world");
}

#[test]
fn word_navigation() {
    let mut ta = TextArea::new();
    ta.insert_str("one two three");
    ta.cursor_pos = 0;
    ta.move_word_right();
    assert_eq!(ta.cursor_pos, 3);
    ta.move_word_right();
    assert_eq!(ta.cursor_pos, 7);
    ta.move_word_left();
    assert_eq!(ta.cursor_pos, 4);
}

#[test]
fn clusters_are_deleted_whole() {
    let mut ta = TextArea::new();
    ta.insert_str("ae\u{301}x");
    ta.cursor_pos = 3;
    ta.delete_backward();
    assert_eq!(ta.text(), "ax");
    assert_eq!(ta.cursor_pos, 1);
    ta.insert_str("o\u{308}");
    ta.move_left();
    assert_eq!(ta.cursor_pos, 1);
    ta.delete_forward();
    assert_eq!(ta.text(), "ax");
    ta.move_right();
    assert_eq!(ta.cursor_pos, 2);
}

#[test]
fn yank_brings_back_what_a_word_kill_took() {
    let mut ta = TextArea::new();
    ta.insert_str("one two three");
    ta.delete_backward_word();
    assert_eq!(ta.text(), "one two ");
    assert_eq!(ta.kill_buffer, "three");
    ta.yank();
    assert_eq!(ta.text(), "one two three");
    ta.cursor_pos = 3;
    ta.delete_forward_word();
    assert_eq!(ta.text(), "one three");
    ta.kill_to_beginning_of_line();
    assert_eq!(ta.text(), " three");
    assert_eq!(ta.kill_buffer, "one");
}

#[test]
fn lines_and_their_ends() {
    let mut ta = TextArea::new();
    ta.insert_str("first\nsecond");
    assert_eq!(ta.lines(), vec!["first".to_string(), "second".to_string()]);
    ta.move_to_beginning_of_line();
    assert_eq!(ta.cursor_pos, 6);
    ta.move_left();
    ta.move_to_beginning_of_line();
    assert_eq!(ta.cursor_pos, 0);
    ta.move_to_end_of_line();
    assert_eq!(ta.cursor_pos, 5);
    ta.kill_to_end_of_line();
    assert_eq!(ta.text(), "firstsecond");
    ta.clear();
    assert!(ta.is_empty());
    assert_eq!(ta.cursor_pos, 0);
}

#[test]
fn keys_edit_the_text() {
    let mut ta = TextArea::new();
    for c in ['h', 'i', '!'] {
        assert!(ta.has_room());
        ta.input(Key::of(Code::Char(c)));
    }
    ta.input(Key::of(Code::Backspace));
    assert_eq!(ta.text(), "hi");
    ta.input(Key::with_ctrl(Code::Char('a')));
    assert_eq!(ta.cursor_pos, 0);
    ta.input(Key::with_ctrl(Code::Char('k')));
    assert_eq!(ta.text(), "");
    ta.input(Key::with_ctrl(Code::Char('y')));
    assert_eq!(ta.text(), "hi");
    let released = Key { kind: Kind::Release, ..Key::of(Code::Char('x')) };
    ta.input(released);
    assert_eq!(ta.text(), "hi");
}

#[test]
fn the_line_of_a_place() {
    let ranges = wrap_ranges("hello world foo", 5);
    assert_eq!(ranges.len(), 3);
    assert_eq!(wrapped_line_index(&ranges, 0), Some(0));
    assert_eq!(wrapped_line_index(&ranges, 7), Some(1));
    assert_eq!(wrapped_line_index(&ranges, 15), Some(2));
}

#[test]
fn the_cursor_is_drawn_in_columns() {
    let mut ta = TextArea::new();
    ta.insert_str("\u{6f22}\u{5b57}");
    let mut state = TextAreaState { scroll: 0 };
    let drawn = ta.render(10, 2, &mut state).unwrap();
    assert_eq!(drawn.rows, vec!["\u{6f22}\u{5b57}".to_string()]);
    assert_eq!(drawn.cursor, Some((4, 0)));
    assert_eq!(ta.cursor_pos_on_screen(10, 2, &state), Some((4, 0)));
}

#[test]
fn the_screen_follows_the_cursor() {
    let mut ta = TextArea::new();
    ta.insert_str("a\nb\nc\nd");
    let mut state = TextAreaState { scroll: 0 };
    let drawn = ta.render(10, 2, &mut state).unwrap();
    assert_eq!(state.scroll, 2);
    assert_eq!(drawn.rows, vec!["c".to_string(), "d".to_string()]);
    assert_eq!(drawn.cursor, Some((1, 1)));
    ta.cursor_pos = 0;
    let drawn = ta.render(10, 2, &mut state).unwrap();
    assert_eq!(state.scroll, 0);
    assert_eq!(drawn.rows, vec!["a".to_string(), "b".to_string()]);
    assert!(ta.render(0, 2, &mut state).is_none());
}

#[test]
fn columns_count_the_widths_of_clusters() {
    let sizes = vec![(1, 1), (2, 2), (1, 1)];
    assert_eq!(length_before(&sizes, 0), 0);
    assert_eq!(length_before(&sizes, 1), 1);
    assert_eq!(length_before(&sizes, 2), 1);
    assert_eq!(length_before(&sizes, 3), 3);
    assert_eq!(length_before(&sizes, 9), 4);
    assert_eq!(length_before(&Vec::new(), 9), 0);
}

#[test]
fn pieces_are_found_again_in_their_line() {
    let line: Vec<char> = "one  two".chars().collect();
    let pieces = vec!["one".to_string(), "two".to_string()];
    let places = place_pieces(&line, &pieces, 10);
    assert_eq!(places.len(), 2);
    assert_eq!((places[0].start, places[0].end), (10, 13));
    assert_eq!((places[1].start, places[1].end), (15, 18));
}

#[test]
fn ranges_count_bytes_and_places_count_characters() {
    let text = "h\u{e9}llo w\u{f6}rld";
    let ranges = wrap_ranges(text, 5);
    assert_eq!((ranges[0].start, ranges[0].end), (0, 6));
    assert_eq!((ranges[1].start, ranges[1].end), (7, 13));
    assert_eq!(part(text, ranges[1]), "w\u{f6}rld");
    let places = wrap_places(text, 5);
    assert_eq!((places[1].start, places[1].end), (6, 11));
}
