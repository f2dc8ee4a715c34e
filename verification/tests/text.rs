use termdraw::ui::event::KeyCode;
use termdraw::ui::event::KeyEvent;
use termdraw::ui::event::KeyEventKind;
use termdraw::ui::event::KeyModifiers;
use termdraw::ui::text::compose_line;
use termdraw::ui::text::cursor_char;
use termdraw::ui::text::edit_text;
use termdraw::ui::text::insert_and_advance;
use termdraw::ui::text::insert_at;
use termdraw::ui::text::pads_line;
use termdraw::ui::text::remove_at;

fn press(code: KeyCode) -> KeyEvent {
    KeyEvent { code, modifiers: KeyModifiers::Unmodified, kind: KeyEventKind::Press }
}

fn shifted(code: KeyCode) -> KeyEvent {
    KeyEvent { code, modifiers: KeyModifiers::Shift, kind: KeyEventKind::Press }
}

#[test]
fn insert_at_every_position() {
    assert_eq!(insert_at("abc", 0, "XY"), "XYabc");
    assert_eq!(insert_at("abc", 1, "XY"), "aXYbc");
    assert_eq!(insert_at("abc", 3, "XY"), "abcXY");
    assert_eq!(insert_at("", 0, "XY"), "XY");
    assert_eq!(insert_at("abc", 2, ""), "abc");
    assert_eq!(insert_at("\u{e9}\u{2588}", 1, "-"), "\u{e9}-\u{2588}");
}

#[test]
fn remove_at_every_position() {
    assert_eq!(remove_at("abc", 0), "bc");
    assert_eq!(remove_at("abc", 1), "ac");
    assert_eq!(remove_at("abc", 2), "ab");
    assert_eq!(remove_at("a", 0), "");
    assert_eq!(remove_at("\u{e9}\u{2588}z", 1), "\u{e9}z");
}

#[test]
fn insert_and_advance_moves_the_cursor_by_one() {
    assert_eq!(insert_and_advance("abc", 1, "X"), ("aXbc".to_owned(), 2));
    assert_eq!(insert_and_advance("abc", 3, "SS"), ("abcSS".to_owned(), 4));
}

#[test]
fn character_keys_insert_at_the_cursor() {
    let text = "ac".to_owned();
    assert_eq!(edit_text(&text, 1, &press(KeyCode::Char('b'))), ("abc".to_owned(), 2));
    assert_eq!(edit_text(&text, 0, &press(KeyCode::Char('b'))), ("bac".to_owned(), 1));
    assert_eq!(edit_text(&text, 2, &press(KeyCode::Char('b'))), ("acb".to_owned(), 3));
    assert_eq!(edit_text("", 0, &press(KeyCode::Char(' '))), (" ".to_owned(), 1));
}

#[test]
fn shifted_character_keys_insert_the_uppercase_form() {
    let text = "ac".to_owned();
    assert_eq!(edit_text(&text, 1, &shifted(KeyCode::Char('b'))), ("aBc".to_owned(), 2));
    assert_eq!(edit_text(&text, 1, &shifted(KeyCode::Char('B'))), ("aBc".to_owned(), 2));
    assert_eq!(edit_text(&text, 2, &shifted(KeyCode::Char('1'))), ("ac1".to_owned(), 3));
    assert_eq!(edit_text(&text, 0, &shifted(KeyCode::Char('\u{e9}'))), ("\u{c9}ac".to_owned(), 1));
    assert_eq!(edit_text(&text, 2, &shifted(KeyCode::Char('\u{df}'))), ("acSS".to_owned(), 3));
}

#[test]
fn backspace_deletes_before_the_cursor() {
    let text = "abc".to_owned();
    assert_eq!(edit_text(&text, 3, &press(KeyCode::Backspace)), ("ab".to_owned(), 2));
    assert_eq!(edit_text(&text, 1, &press(KeyCode::Backspace)), ("bc".to_owned(), 0));
    assert_eq!(edit_text(&text, 0, &press(KeyCode::Backspace)), ("abc".to_owned(), 0));
    assert_eq!(edit_text("", 0, &press(KeyCode::Backspace)), (String::new(), 0));
    assert_eq!(edit_text(&text, 2, &shifted(KeyCode::Backspace)), ("ac".to_owned(), 1));
}

#[test]
fn delete_removes_at_the_cursor() {
    let text = "abc".to_owned();
    assert_eq!(edit_text(&text, 0, &press(KeyCode::Delete)), ("bc".to_owned(), 0));
    assert_eq!(edit_text(&text, 2, &press(KeyCode::Delete)), ("ab".to_owned(), 2));
    assert_eq!(edit_text(&text, 3, &press(KeyCode::Delete)), ("abc".to_owned(), 3));
    assert_eq!(edit_text("", 0, &press(KeyCode::Delete)), (String::new(), 0));
}

#[test]
fn arrows_move_the_cursor_and_stop_at_the_ends() {
    let text = "abc".to_owned();
    assert_eq!(edit_text(&text, 2, &press(KeyCode::Left)), ("abc".to_owned(), 1));
    assert_eq!(edit_text(&text, 0, &press(KeyCode::Left)), ("abc".to_owned(), 0));
    assert_eq!(edit_text(&text, 2, &press(KeyCode::Right)), ("abc".to_owned(), 3));
    assert_eq!(edit_text(&text, 3, &press(KeyCode::Right)), ("abc".to_owned(), 3));
    assert_eq!(edit_text(&text, 2, &shifted(KeyCode::Left)), ("abc".to_owned(), 2));
    assert_eq!(edit_text(&text, 2, &shifted(KeyCode::Right)), ("abc".to_owned(), 2));
}

#[test]
fn keys_that_are_not_pressed_change_nothing() {
    let text = "abc".to_owned();
    for kind in [KeyEventKind::Repeat, KeyEventKind::Release] {
        for code in [
            KeyCode::Char('x'),
            KeyCode::Backspace,
            KeyCode::Delete,
            KeyCode::Left,
            KeyCode::Right,
            KeyCode::Other,
        ] {
            let event = KeyEvent { code, modifiers: KeyModifiers::Unmodified, kind };
            assert_eq!(edit_text(&text, 1, &event), ("abc".to_owned(), 1));
        }
    }
    assert_eq!(edit_text(&text, 1, &press(KeyCode::Other)), ("abc".to_owned(), 1));
    let control = KeyEvent {
        code: KeyCode::Char('x'),
        modifiers: KeyModifiers::Other,
        kind: KeyEventKind::Press,
    };
    assert_eq!(edit_text(&text, 1, &control), ("abc".to_owned(), 1));
}

#[test]
fn cursor_stays_within_the_text_for_a_long_run_of_keys() {
    let keys = [
        press(KeyCode::Left),
        press(KeyCode::Backspace),
        press(KeyCode::Char('a')),
        shifted(KeyCode::Char('\u{df}')),
        press(KeyCode::Right),
        press(KeyCode::Right),
        press(KeyCode::Delete),
        press(KeyCode::Left),
        press(KeyCode::Left),
        press(KeyCode::Left),
        press(KeyCode::Left),
        press(KeyCode::Delete),
        press(KeyCode::Backspace),
        shifted(KeyCode::Char('q')),
        press(KeyCode::Backspace),
        press(KeyCode::Backspace),
    ];
    let mut text = String::new();
    let mut cursor = 0usize;
    for round in 0..20 {
        for (i, key) in keys.iter().enumerate() {
            if (i + round) % 3 == 0 {
                continue;
            }
            let (next, moved) = edit_text(&text, cursor, key);
            assert!(moved <= next.chars().count());
            text = next;
            cursor = moved;
        }
    }
}

#[test]
fn line_padding_after_backspace_at_the_start() {
    assert!(pads_line("abc", 1, &press(KeyCode::Backspace)));
    assert!(pads_line("ab", 1, &press(KeyCode::Backspace)));
    assert!(!pads_line("a", 1, &press(KeyCode::Backspace)));
    assert!(!pads_line("abc", 2, &press(KeyCode::Backspace)));
    assert!(!pads_line("abc", 0, &press(KeyCode::Backspace)));
    assert!(!pads_line("abc", 1, &press(KeyCode::Delete)));
    let release = KeyEvent {
        code: KeyCode::Backspace,
        modifiers: KeyModifiers::Unmodified,
        kind: KeyEventKind::Release,
    };
    assert!(!pads_line("abc", 1, &release));
}

#[test]
fn cursor_char_is_the_character_or_a_blank_behind_the_text() {
    assert_eq!(cursor_char("abc", 0), 'a');
    assert_eq!(cursor_char("abc", 2), 'c');
    assert_eq!(cursor_char("abc", 3), ' ');
    assert_eq!(cursor_char("", 0), ' ');
}

#[test]
fn compose_line_replaces_the_character_under_the_cursor() {
    assert_eq!(compose_line("abc", 1, false, "[b]"), "a[b]c ");
    assert_eq!(compose_line("abc", 0, false, "[a]"), "[a]bc ");
    assert_eq!(compose_line("abc", 3, false, "[ ]"), "abc[ ]");
    assert_eq!(compose_line("", 0, false, "[ ]"), "[ ]");
    assert_eq!(compose_line("bc", 0, true, "[b]"), "[b]c  ");
    assert_eq!(compose_line("abc", 3, true, "_"), "abc_ ");
}
