//! Editing the text of the text tool: insertion and deletion at a cursor,
//! the effect of each key, and the line shown while typing.

use vstd::prelude::*;
use vstd::string::StrSliceExecFns;
use vstd::string::StringExecFns;

use crate::ui::event::KeyCode;
use crate::ui::event::KeyEvent;
use crate::ui::event::KeyEventKind;
use crate::ui::event::KeyModifiers;

verus! {

/// `String::push` appends the character to the end of the string.
pub assume_specification[ String::push ](string: &mut String, ch: char)
    ensures
        final(string)@ == old(string)@.push(ch),
;

/// The uppercase form of a character as `char::to_uppercase` yields it.
pub uninterp spec fn uppercase_of(ch: char) -> Seq<char>;

/// `char::to_uppercase`, its characters collected into a string. The
/// mapping is the one of the Unicode tables; it has one character or more.
#[verifier::external_body]
pub(crate) fn uppercase(ch: char) -> (upper: String)
    ensures
        upper@ == uppercase_of(ch),
        upper@.len() >= 1,
{
    ch.to_uppercase().to_string()
}

/// The text with `piece` inserted before the character at `index`.
pub open spec fn inserted(text: Seq<char>, index: int, piece: Seq<char>) -> Seq<char> {
    text.subrange(0, index) + piece + text.subrange(index, text.len() as int)
}

/// What a shifted character key inserts: the uppercase form of its
/// character. Empty for every other key.
pub open spec fn shifted_form(event: KeyEvent) -> Seq<char> {
    match event.code {
        KeyCode::Char(c) => uppercase_of(c),
        _ => Seq::empty(),
    }
}

/// The text and the cursor after a key, where `upper` is what a shifted
/// character key inserts.
///
/// A character key inserts at the cursor and moves the cursor one to the
/// right. Backspace deletes the character before the cursor, delete the one
/// at it. The arrows move the cursor by one and stop at either end of the text.
/// Keys that are not pressed, and all other keys, change nothing.
pub open spec fn key_applied(text: Seq<char>, cursor: int, event: KeyEvent, upper: Seq<char>) -> (
    Seq<char>,
    int,
) {
    match (event.kind, event.code, event.modifiers) {
        (KeyEventKind::Press, KeyCode::Char(c), KeyModifiers::Unmodified) => (
            inserted(text, cursor, seq![c]),
            cursor + 1,
        ),
        (KeyEventKind::Press, KeyCode::Char(c), KeyModifiers::Shift) => (
            inserted(text, cursor, upper),
            cursor + 1,
        ),
        (KeyEventKind::Press, KeyCode::Backspace, _) => if cursor > 0 {
            (text.remove(cursor - 1), cursor - 1)
        } else {
            (text, cursor)
        },
        (KeyEventKind::Press, KeyCode::Delete, _) => if cursor < text.len() {
            (text.remove(cursor), cursor)
        } else {
            (text, cursor)
        },
        (KeyEventKind::Press, KeyCode::Left, KeyModifiers::Unmodified) => (
            text,
            if cursor > 0 {
                cursor - 1
            } else {
                cursor
            },
        ),
        (KeyEventKind::Press, KeyCode::Right, KeyModifiers::Unmodified) => (
            text,
            if cursor < text.len() {
                cursor + 1
            } else {
                cursor
            },
        ),
        _ => (text, cursor),
    }
}

/// Whether the line shown after a key carries one more trailing blank, so
/// that the shorter line still covers the cursor of the line shown before:
/// after a backspace that has deleted the first character of a longer text.
pub open spec fn key_pads(text: Seq<char>, cursor: int, event: KeyEvent) -> bool {
    event.kind == KeyEventKind::Press && event.code == KeyCode::Backspace && cursor == 1
        && text.len() >= 2
}

/// The line shown while the field takes keys: the text, the padding, and a
/// blank for the cursor to rest on behind the last character, with the
/// character under the cursor replaced by its marked form.
pub open spec fn marked_line(
    text: Seq<char>,
    cursor: int,
    pad: bool,
    mark: Seq<char>,
) -> Seq<char> {
    let line = shown_line(text, pad);
    line.subrange(0, cursor) + mark + line.subrange(cursor + 1, line.len() as int)
}

/// The text followed by its trailing blanks.
pub open spec fn shown_line(text: Seq<char>, pad: bool) -> Seq<char> {
    if pad {
        text + seq![' ', ' ']
    } else {
        text + seq![' ']
    }
}

/// Inserts `piece` into `text` before the character at `index`.
pub fn insert_at(text: &str, index: usize, piece: &str) -> (out: String)
    requires
        index <= text@.len(),
    ensures
        out@ == inserted(text@, index as int, piece@),
{
    let len = text.unicode_len();
    let mut out = String::from_str(text.substring_char(0, index));
    out.append(piece);
    out.append(text.substring_char(index, len));
    out
}

/// Removes the character at `index` from `text`.
pub fn remove_at(text: &str, index: usize) -> (out: String)
    requires
        index < text@.len(),
    ensures
        out@ == text@.remove(index as int),
{
    let len = text.unicode_len();
    let mut out = String::from_str(text.substring_char(0, index));
    out.append(text.substring_char(index + 1, len));
    assert(out@ =~= text@.remove(index as int));
    out
}

/// Inserts `piece` at the cursor and moves the cursor one to the right.
pub fn insert_and_advance(text: &str, cursor_index: usize, piece: &str) -> (edited: (String, usize))
    requires
        cursor_index <= text@.len(),
        piece@.len() >= 1,
    ensures
        edited.0@ == inserted(text@, cursor_index as int, piece@),
        edited.1 == cursor_index + 1,
{
    let out = insert_at(text, cursor_index, piece);
    // The new text has a length, so the cursor, which lies within it, has a successor.
    let grown = out.as_str().unicode_len();
    assert(cursor_index < grown);
    (out, cursor_index + 1)
}

/// Applies one key to the text and the cursor of a text field.
pub fn edit_text(text: &str, cursor_index: usize, event: &KeyEvent) -> (edited: (String, usize))
    requires
        cursor_index <= text@.len(),
    ensures
        (edited.0@, edited.1 as int) == key_applied(
            text@,
            cursor_index as int,
            *event,
            shifted_form(*event),
        ),
        edited.1 <= edited.0@.len(),
{
    let unchanged = match event.kind {
        KeyEventKind::Press => false,
        _ => true,
    };
    if unchanged {
        return (String::from_str(text), cursor_index);
    }
    match (event.code, event.modifiers) {
        (KeyCode::Char(c), KeyModifiers::Unmodified) => {
            let mut piece = String::new();
            piece.push(c);
            assert(piece@ =~= seq![c]);
            insert_and_advance(text, cursor_index, piece.as_str())
        },
        (KeyCode::Char(c), KeyModifiers::Shift) => {
            let piece = uppercase(c);
            insert_and_advance(text, cursor_index, piece.as_str())
        },
        (KeyCode::Backspace, _) => {
            if cursor_index > 0 {
                (remove_at(text, cursor_index - 1), cursor_index - 1)
            } else {
                (String::from_str(text), cursor_index)
            }
        },
        (KeyCode::Delete, _) => {
            if cursor_index < text.unicode_len() {
                (remove_at(text, cursor_index), cursor_index)
            } else {
                (String::from_str(text), cursor_index)
            }
        },
        (KeyCode::Left, KeyModifiers::Unmodified) => {
            let moved = if cursor_index > 0 {
                cursor_index - 1
            } else {
                cursor_index
            };
            (String::from_str(text), moved)
        },
        (KeyCode::Right, KeyModifiers::Unmodified) => {
            let moved = if cursor_index < text.unicode_len() {
                cursor_index + 1
            } else {
                cursor_index
            };
            (String::from_str(text), moved)
        },
        _ => (String::from_str(text), cursor_index),
    }
}

/// Whether the line shown after `event` carries one more trailing blank,
/// given text and cursor as they were before the key.
pub fn pads_line(text: &str, cursor_index: usize, event: &KeyEvent) -> (pad: bool)
    ensures
        pad == key_pads(text@, cursor_index as int, *event),
{
    match (event.kind, event.code) {
        (KeyEventKind::Press, KeyCode::Backspace) => cursor_index == 1 && text.unicode_len() >= 2,
        _ => false,
    }
}

/// Builds the line shown while the field takes keys, given the marked form
/// of the character under the cursor.
pub fn compose_line(text: &str, cursor_index: usize, pad: bool, mark: &str) -> (line: String)
    requires
        cursor_index <= text@.len(),
    ensures
        line@ == marked_line(text@, cursor_index as int, pad, mark@),
{
    let mut plain = String::from_str(text);
    if pad {
        plain.push(' ');
    }
    plain.push(' ');
    assert(plain@ =~= shown_line(text@, pad));
    let len = plain.as_str().unicode_len();
    let mut line = String::from_str(plain.as_str().substring_char(0, cursor_index));
    line.append(mark);
    line.append(plain.as_str().substring_char(cursor_index + 1, len));
    line
}

/// The character under the cursor in the line shown: the character of the
/// text at the cursor, or a blank behind the last one.
pub fn cursor_char(text: &str, cursor_index: usize) -> (ch: char)
    requires
        cursor_index <= text@.len(),
    ensures
        ch == shown_line(text@, false)[cursor_index as int],
{
    if cursor_index < text.unicode_len() {
        text.get_char(cursor_index)
    } else {
        ' '
    }
}

} // verus!
