use crossterm::style::Color;
use termdraw::streamhandler::StreamHandler;
use termdraw::ui::command::DrawCommand;
use termdraw::ui::data::get_next_undo;
use termdraw::ui::data::get_prev_undo;
use termdraw::ui::data::History;
use termdraw::ui::event::KeyCode;
use termdraw::ui::event::KeyEvent;
use termdraw::ui::event::KeyEventKind;
use termdraw::ui::event::KeyModifiers;
use termdraw::ui::event::MouseButton;
use termdraw::ui::event::MouseEvent;
use termdraw::ui::event::MouseEventKind;
use termdraw::ui::handle_mouse_event;
use termdraw::ui::handle_text_input;
use termdraw::ui::is_in_text_field;
use termdraw::ui::toolbar;
use termdraw::ui::tool::add_to_stroke;
use termdraw::ui::tool::Tool;
use termdraw::ui::tool::ToolType;
use termdraw::ui::ui_string;
use termdraw::ui::undo::redo;
use termdraw::ui::undo::undo;
use termdraw::ui::InputError;
use termdraw::ui::UI_HEIGHT;
use termdraw::ui::UI_LENGTH;

fn down(column: u16, row: u16) -> MouseEvent {
    MouseEvent { kind: MouseEventKind::Down(MouseButton::Left), column, row }
}

fn drag(column: u16, row: u16) -> MouseEvent {
    MouseEvent { kind: MouseEventKind::Drag(MouseButton::Left), column, row }
}

fn scroll(kind: MouseEventKind) -> MouseEvent {
    MouseEvent { kind, column: 30, row: 10 }
}

fn key(code: KeyCode) -> KeyEvent {
    KeyEvent { code, modifiers: KeyModifiers::Unmodified, kind: KeyEventKind::Press }
}

fn pen() -> Tool {
    Tool::new(ToolType::Pen, Color::White, 4)
}

fn all_cells(stream: &StreamHandler, width: u16, height: u16) -> Vec<Option<char>> {
    let mut cells = Vec::new();
    for row in 0..height {
        for col in 0..width {
            cells.push(stream.get_char(0, col, row));
        }
    }
    cells
}

#[test]
fn pen_press_paints_commits_and_can_be_undone_and_redone() {
    let mut stream = StreamHandler::new(80, 24);
    let mut tool = pen();
    let mut history = History::new();
    let commands = handle_mouse_event(&mut stream, &mut tool, &mut history, down(5, 5));
    assert_eq!(stream.get_char(0, 5, 5), Some('x'));
    assert_eq!(history.len(), 1);
    assert_eq!(commands, vec![DrawCommand::PrintAt { col: 5, row: 5, text: "x".to_owned() }]);
    assert_eq!(tool.stroke, None);
    let stroke = get_prev_undo(&mut history).unwrap();
    assert_eq!(stroke, vec![(5, 5, ' ', 'x')]);
    stream.apply_stroke(&stroke, termdraw::streamhandler::Direction::Reverse);
    assert_eq!(stream.get_char(0, 5, 5), Some(' '));
    let stroke = get_next_undo(&mut history).unwrap();
    assert_eq!(stroke, vec![(5, 5, ' ', 'x')]);
    stream.apply_stroke(&stroke, termdraw::streamhandler::Direction::Forward);
    assert_eq!(stream.get_char(0, 5, 5), Some('x'));
    assert!(undo(&mut stream, &mut history));
    assert_eq!(stream.get_char(0, 5, 5), Some(' '));
    assert!(redo(&mut stream, &mut history));
    assert_eq!(stream.get_char(0, 5, 5), Some('x'));
    assert_eq!(all_cells(&stream, 80, 24).iter().filter(|c| **c != Some(' ')).count(), 1);
}

#[test]
fn pen_paints_the_glyph_of_its_size() {
    let glyphs = ['.', '-', '+', '*', 'x', 'X', '#', '\u{2588}'];
    for (size, glyph) in glyphs.iter().enumerate() {
        let mut stream = StreamHandler::new(40, 10);
        let mut tool = Tool::new(ToolType::Pen, Color::White, size);
        let mut history = History::new();
        handle_mouse_event(&mut stream, &mut tool, &mut history, down(30, 1));
        assert_eq!(stream.get_char(0, 30, 1), Some(*glyph));
    }
}

#[test]
fn eraser_paints_a_blank_and_records_what_it_erased() {
    let mut stream = StreamHandler::new(40, 10);
    let mut tool = pen();
    let mut history = History::new();
    handle_mouse_event(&mut stream, &mut tool, &mut history, down(7, 7));
    let mut tool = Tool::new(ToolType::Eraser, Color::White, 4);
    let commands = handle_mouse_event(&mut stream, &mut tool, &mut history, down(7, 7));
    assert_eq!(stream.get_char(0, 7, 7), Some(' '));
    assert_eq!(commands, vec![DrawCommand::PrintAt { col: 7, row: 7, text: " ".to_owned() }]);
    assert_eq!(history.len(), 2);
    assert_eq!(get_prev_undo(&mut history), Some(vec![(7, 7, 'x', ' ')]));
}

#[test]
fn press_outside_the_canvas_changes_nothing() {
    let mut stream = StreamHandler::new(30, 10);
    let mut tool = pen();
    let mut history = History::new();
    let commands = handle_mouse_event(&mut stream, &mut tool, &mut history, down(30, 5));
    assert!(commands.is_empty());
    let commands = handle_mouse_event(&mut stream, &mut tool, &mut history, down(25, 10));
    assert!(commands.is_empty());
    assert_eq!(history.len(), 0);
    assert_eq!(tool.stroke, None);
    assert!(all_cells(&stream, 30, 10).iter().all(|c| *c == Some(' ')));
}

#[test]
fn press_commits_what_the_tool_had_accumulated() {
    let mut stream = StreamHandler::new(30, 10);
    let mut tool = pen();
    let mut history = History::new();
    add_to_stroke(&mut tool, 1, 1, 'a', 'b');
    handle_mouse_event(&mut stream, &mut tool, &mut history, down(25, 5));
    assert_eq!(tool.stroke, None);
    assert_eq!(get_prev_undo(&mut history), Some(vec![(1, 1, 'a', 'b'), (25, 5, ' ', 'x')]));
}

#[test]
fn toolbar_press_selects_a_tool_and_paints_nothing() {
    for (column, expected) in [
        (1u16, ToolType::Pen),
        (5, ToolType::Pen),
        (10, ToolType::Eraser),
        (12, ToolType::Eraser),
        (14, ToolType::text_default()),
        (16, ToolType::text_default()),
    ] {
        for row in 0..UI_HEIGHT {
            let mut stream = StreamHandler::new(80, 24);
            let mut tool = Tool::new(ToolType::Pen, Color::White, 6);
            if expected == ToolType::Pen {
                tool.tool_type = ToolType::Eraser;
            }
            add_to_stroke(&mut tool, 1, 1, ' ', 'x');
            let mut history = History::new();
            let commands = handle_mouse_event(&mut stream, &mut tool, &mut history, down(column, row));
            assert!(commands.is_empty());
            assert_eq!(tool.tool_type, expected);
            assert_eq!(tool.stroke, None);
            assert_eq!(tool.size_index, 6);
            assert_eq!(history.len(), 0);
            assert!(all_cells(&stream, 80, 24).iter().all(|c| *c == Some(' ')));
        }
    }
}

#[test]
fn toolbar_press_between_buttons_does_nothing() {
    for column in [0u16, 6, 7, 8, 9, 13, 17, 21] {
        let mut stream = StreamHandler::new(80, 24);
        let mut tool = Tool::new(ToolType::Eraser, Color::White, 6);
        add_to_stroke(&mut tool, 1, 1, ' ', 'x');
        let mut history = History::new();
        let commands = handle_mouse_event(&mut stream, &mut tool, &mut history, down(column, 1));
        assert!(commands.is_empty());
        assert_eq!(tool.tool_type, ToolType::Eraser);
        assert_eq!(tool.stroke, Some(vec![(1, 1, ' ', 'x')]));
        assert_eq!(history.len(), 0);
    }
}

#[test]
fn toolbar_clear_button_asks_for_a_clear() {
    for column in [18u16, 19, 20] {
        let mut stream = StreamHandler::new(80, 24);
        stream.write_cell(0, 40, 10, 'q');
        let mut tool = pen();
        let mut history = History::new();
        let commands = handle_mouse_event(&mut stream, &mut tool, &mut history, down(column, 2));
        assert_eq!(commands, vec![DrawCommand::ClearAll]);
        assert_eq!(tool.tool_type, ToolType::Pen);
        assert_eq!(stream.get_char(0, 40, 10), Some('q'));
        assert_eq!(history.len(), 0);
    }
}

#[test]
fn toolbar_region_ends_at_its_width_and_height() {
    let mut stream = StreamHandler::new(80, 24);
    let mut tool = pen();
    let mut history = History::new();
    handle_mouse_event(&mut stream, &mut tool, &mut history, down(UI_LENGTH, 0));
    assert_eq!(stream.get_char(0, UI_LENGTH, 0), Some('x'));
    handle_mouse_event(&mut stream, &mut tool, &mut history, down(10, UI_HEIGHT));
    assert_eq!(stream.get_char(0, 10, UI_HEIGHT), Some('x'));
    assert_eq!(tool.tool_type, ToolType::Pen);
    handle_mouse_event(&mut stream, &mut tool, &mut history, down(UI_LENGTH - 1, UI_HEIGHT - 1));
    assert_eq!(stream.get_char(0, UI_LENGTH - 1, UI_HEIGHT - 1), Some(' '));
    assert_eq!(history.len(), 2);
}

#[test]
fn drag_repeats_pen_and_eraser_and_skips_the_toolbar() {
    let mut stream = StreamHandler::new(80, 24);
    let mut tool = pen();
    let mut history = History::new();
    handle_mouse_event(&mut stream, &mut tool, &mut history, down(30, 5));
    let commands = handle_mouse_event(&mut stream, &mut tool, &mut history, drag(31, 5));
    assert_eq!(commands, vec![DrawCommand::PrintAt { col: 31, row: 5, text: "x".to_owned() }]);
    assert_eq!(stream.get_char(0, 31, 5), Some('x'));
    assert_eq!(history.len(), 2);
    let commands = handle_mouse_event(&mut stream, &mut tool, &mut history, drag(3, 1));
    assert!(commands.is_empty());
    assert_eq!(stream.get_char(0, 3, 1), Some(' '));
    assert_eq!(tool.tool_type, ToolType::Pen);
    assert_eq!(history.len(), 2);
    tool.tool_type = ToolType::Eraser;
    handle_mouse_event(&mut stream, &mut tool, &mut history, drag(30, 5));
    assert_eq!(stream.get_char(0, 30, 5), Some(' '));
    assert_eq!(history.len(), 3);
}

#[test]
fn drag_does_not_start_or_move_a_text_field() {
    let mut stream = StreamHandler::new(80, 24);
    let mut tool = Tool::new(ToolType::text_default(), Color::White, 4);
    let mut history = History::new();
    let commands = handle_mouse_event(&mut stream, &mut tool, &mut history, drag(30, 5));
    assert!(commands.is_empty());
    assert_eq!(tool.tool_type, ToolType::text_default());
    assert_eq!(tool.stroke, None);
    assert!(!is_in_text_field(&tool));
}

#[test]
fn other_pointer_events_are_ignored() {
    for kind in [
        MouseEventKind::Down(MouseButton::Right),
        MouseEventKind::Down(MouseButton::Middle),
        MouseEventKind::Up(MouseButton::Left),
        MouseEventKind::Drag(MouseButton::Right),
        MouseEventKind::Moved,
        MouseEventKind::ScrollLeft,
        MouseEventKind::ScrollRight,
    ] {
        for (column, row) in [(2u16, 1u16), (30, 5)] {
            let mut stream = StreamHandler::new(80, 24);
            let mut tool = Tool::new(ToolType::Eraser, Color::White, 3);
            let mut history = History::new();
            let commands =
                handle_mouse_event(&mut stream, &mut tool, &mut history, MouseEvent { kind, column, row });
            assert!(commands.is_empty());
            assert_eq!(tool.tool_type, ToolType::Eraser);
            assert_eq!(tool.size_index, 3);
            assert_eq!(history.len(), 0);
            assert!(all_cells(&stream, 80, 24).iter().all(|c| *c == Some(' ')));
        }
    }
}

#[test]
fn scrolling_stays_within_the_palette() {
    let mut stream = StreamHandler::new(80, 24);
    let mut tool = pen();
    let mut history = History::new();
    let mut expected = 4usize;
    for step in 0..100 {
        let up = step < 20 || (step >= 50 && step % 3 != 0);
        let kind = if up { MouseEventKind::ScrollUp } else { MouseEventKind::ScrollDown };
        let commands = handle_mouse_event(&mut stream, &mut tool, &mut history, scroll(kind));
        expected = if up { (expected + 1).min(7) } else { expected.saturating_sub(1) };
        assert!(commands.is_empty());
        assert_eq!(tool.size_index, expected);
        assert!(tool.size_index <= 7);
    }
    assert_eq!(tool.tool_type, ToolType::Pen);
    assert_eq!(history.len(), 0);
}

#[test]
fn scrolling_works_for_every_tool_and_keeps_the_stroke() {
    for tool_type in [ToolType::Pen, ToolType::Eraser, ToolType::text_default()] {
        let mut stream = StreamHandler::new(80, 24);
        let mut tool = Tool::new(tool_type.clone(), Color::White, 0);
        add_to_stroke(&mut tool, 1, 1, ' ', 'x');
        let mut history = History::new();
        handle_mouse_event(&mut stream, &mut tool, &mut history, scroll(MouseEventKind::ScrollDown));
        assert_eq!(tool.size_index, 0);
        handle_mouse_event(&mut stream, &mut tool, &mut history, scroll(MouseEventKind::ScrollUp));
        assert_eq!(tool.size_index, 1);
        handle_mouse_event(
            &mut stream,
            &mut tool,
            &mut history,
            MouseEvent { kind: MouseEventKind::ScrollUp, column: 2, row: 1 },
        );
        assert_eq!(tool.size_index, 2);
        assert_eq!(tool.tool_type, tool_type);
        assert_eq!(tool.stroke, Some(vec![(1, 1, ' ', 'x')]));
    }
}

#[test]
fn text_entry_commits_on_escape() {
    let mut stream = StreamHandler::new(80, 24);
    let mut tool = pen();
    let mut history = History::new();
    handle_mouse_event(&mut stream, &mut tool, &mut history, down(14, 1));
    assert_eq!(tool.tool_type, ToolType::text_default());
    assert!(!is_in_text_field(&tool));
    let commands = handle_mouse_event(&mut stream, &mut tool, &mut history, down(2, 3));
    assert_eq!(commands, vec![DrawCommand::PrintAt { col: 2, row: 3, text: "T".to_owned() }]);
    assert!(is_in_text_field(&tool));
    assert_eq!(tool.stroke, Some(Vec::new()));
    assert_eq!(stream.get_char(0, 2, 3), Some(' '));
    handle_text_input(&mut stream, &mut tool, &mut history, key(KeyCode::Char('H'))).unwrap();
    handle_text_input(&mut stream, &mut tool, &mut history, key(KeyCode::Char('i'))).unwrap();
    assert_eq!(
        tool.tool_type,
        ToolType::Text {
            start_pos: (2, 3),
            text: "Hi".to_owned(),
            cursor_index: 2,
            is_in_text_input: true
        }
    );
    assert_eq!(stream.get_char(0, 2, 3), Some(' '));
    assert_eq!(history.len(), 0);
    let commands =
        handle_text_input(&mut stream, &mut tool, &mut history, key(KeyCode::Esc)).unwrap();
    assert_eq!(
        commands,
        vec![
            DrawCommand::PrintAt { col: 2, row: 3, text: "Hi".to_owned() },
            DrawCommand::HideCursor
        ]
    );
    assert_eq!(stream.get_char(0, 2, 3), Some('H'));
    assert_eq!(stream.get_char(0, 3, 3), Some('i'));
    assert_eq!(stream.get_char(0, 4, 3), Some(' '));
    assert_eq!(tool.tool_type, ToolType::text_default());
    assert_eq!(tool.stroke, None);
    assert!(!is_in_text_field(&tool));
    assert_eq!(history.len(), 1);
    handle_mouse_event(&mut stream, &mut tool, &mut history, down(40, 9));
    assert_eq!(
        tool.tool_type,
        ToolType::Text {
            start_pos: (40, 9),
            text: String::new(),
            cursor_index: 0,
            is_in_text_input: true
        }
    );
    assert_eq!(get_prev_undo(&mut history), Some(vec![(2, 3, ' ', 'H'), (3, 3, ' ', 'i')]));
}

#[test]
fn press_while_typing_does_not_move_the_anchor() {
    let mut stream = StreamHandler::new(80, 24);
    let mut tool = Tool::new(ToolType::text_default(), Color::White, 4);
    let mut history = History::new();
    handle_mouse_event(&mut stream, &mut tool, &mut history, down(30, 5));
    handle_text_input(&mut stream, &mut tool, &mut history, key(KeyCode::Char('a'))).unwrap();
    let before = tool.tool_type.clone();
    let commands = handle_mouse_event(&mut stream, &mut tool, &mut history, down(50, 9));
    assert!(commands.is_empty());
    assert_eq!(tool.tool_type, before);
    assert_eq!(tool.stroke, Some(Vec::new()));
}

#[test]
fn escape_with_no_text_commits_nothing() {
    let mut stream = StreamHandler::new(80, 24);
    let mut tool = Tool::new(ToolType::text_default(), Color::White, 4);
    let mut history = History::new();
    handle_mouse_event(&mut stream, &mut tool, &mut history, down(30, 5));
    let commands =
        handle_text_input(&mut stream, &mut tool, &mut history, key(KeyCode::Esc)).unwrap();
    assert_eq!(
        commands,
        vec![
            DrawCommand::PrintAt { col: 30, row: 5, text: String::new() },
            DrawCommand::HideCursor
        ]
    );
    assert_eq!(history.len(), 0);
    assert_eq!(tool.tool_type, ToolType::text_default());
    assert_eq!(tool.stroke, None);
    assert!(all_cells(&stream, 80, 24).iter().all(|c| *c == Some(' ')));
}

#[test]
fn escape_is_taken_whatever_its_kind_and_modifiers() {
    for kind in [KeyEventKind::Press, KeyEventKind::Repeat, KeyEventKind::Release] {
        for modifiers in [KeyModifiers::Unmodified, KeyModifiers::Shift, KeyModifiers::Other] {
            let mut stream = StreamHandler::new(80, 24);
            let mut tool = Tool::new(ToolType::text_default(), Color::White, 4);
            let mut history = History::new();
            handle_mouse_event(&mut stream, &mut tool, &mut history, down(30, 5));
            handle_text_input(&mut stream, &mut tool, &mut history, key(KeyCode::Char('a'))).unwrap();
            handle_text_input(
                &mut stream,
                &mut tool,
                &mut history,
                KeyEvent { code: KeyCode::Esc, modifiers, kind },
            )
            .unwrap();
            assert!(!is_in_text_field(&tool));
            assert_eq!(stream.get_char(0, 30, 5), Some('a'));
            assert_eq!(history.len(), 1);
        }
    }
}

#[test]
fn committed_text_is_clipped_at_the_edge_of_the_canvas() {
    let mut stream = StreamHandler::new(24, 8);
    let mut tool = Tool::new(ToolType::text_default(), Color::White, 4);
    let mut history = History::new();
    handle_mouse_event(&mut stream, &mut tool, &mut history, down(22, 5));
    for ch in ['a', 'b', 'c'] {
        handle_text_input(&mut stream, &mut tool, &mut history, key(KeyCode::Char(ch))).unwrap();
    }
    handle_text_input(&mut stream, &mut tool, &mut history, key(KeyCode::Esc)).unwrap();
    assert_eq!(stream.get_char(0, 22, 5), Some('a'));
    assert_eq!(stream.get_char(0, 23, 5), Some('b'));
    assert_eq!(stream.get_char(0, 0, 6), Some(' '));
    assert_eq!(get_prev_undo(&mut history), Some(vec![(22, 5, ' ', 'a'), (23, 5, ' ', 'b')]));
}

#[test]
fn committed_text_can_be_undone() {
    let mut stream = StreamHandler::new(40, 8);
    let mut tool = pen();
    let mut history = History::new();
    handle_mouse_event(&mut stream, &mut tool, &mut history, down(31, 5));
    tool.tool_type = ToolType::text_default();
    handle_mouse_event(&mut stream, &mut tool, &mut history, down(30, 5));
    for ch in ['a', 'b', 'c'] {
        handle_text_input(&mut stream, &mut tool, &mut history, key(KeyCode::Char(ch))).unwrap();
    }
    handle_text_input(&mut stream, &mut tool, &mut history, key(KeyCode::Esc)).unwrap();
    assert_eq!(stream.get_char(0, 31, 5), Some('b'));
    assert!(undo(&mut stream, &mut history));
    assert_eq!(stream.get_char(0, 30, 5), Some(' '));
    assert_eq!(stream.get_char(0, 31, 5), Some('x'));
    assert_eq!(stream.get_char(0, 32, 5), Some(' '));
    assert!(redo(&mut stream, &mut history));
    assert_eq!(stream.get_char(0, 30, 5), Some('a'));
    assert_eq!(stream.get_char(0, 31, 5), Some('b'));
    assert_eq!(stream.get_char(0, 32, 5), Some('c'));
}

#[test]
fn keys_are_refused_unless_a_text_field_takes_them() {
    for tool_type in [ToolType::Pen, ToolType::Eraser, ToolType::text_default()] {
        let mut stream = StreamHandler::new(80, 24);
        let mut tool = Tool::new(tool_type.clone(), Color::White, 4);
        add_to_stroke(&mut tool, 1, 1, ' ', 'x');
        let mut history = History::new();
        for code in [KeyCode::Char('a'), KeyCode::Esc, KeyCode::Backspace] {
            let result = handle_text_input(&mut stream, &mut tool, &mut history, key(code));
            assert_eq!(result, Err(InputError::NotInTextInput));
        }
        assert_eq!(tool.tool_type, tool_type);
        assert_eq!(tool.stroke, Some(vec![(1, 1, ' ', 'x')]));
        assert_eq!(history.len(), 0);
        assert!(all_cells(&stream, 80, 24).iter().all(|c| *c == Some(' ')));
    }
}

#[test]
fn typing_asks_for_a_line_at_the_anchor_and_hides_the_cursor() {
    let mut stream = StreamHandler::new(80, 24);
    let mut tool = Tool::new(ToolType::text_default(), Color::White, 4);
    let mut history = History::new();
    handle_mouse_event(&mut stream, &mut tool, &mut history, down(30, 5));
    for code in [
        KeyCode::Char('a'),
        KeyCode::Char('b'),
        KeyCode::Left,
        KeyCode::Backspace,
        KeyCode::Delete,
        KeyCode::Other,
    ] {
        let commands = handle_text_input(&mut stream, &mut tool, &mut history, key(code)).unwrap();
        assert_eq!(commands.len(), 2);
        assert!(matches!(&commands[0], DrawCommand::PrintAt { col: 30, row: 5, .. }));
        assert_eq!(commands[1], DrawCommand::HideCursor);
    }
    assert_eq!(
        tool.tool_type,
        ToolType::Text {
            start_pos: (30, 5),
            text: String::new(),
            cursor_index: 0,
            is_in_text_input: true
        }
    );
    assert_eq!(tool.stroke, Some(Vec::new()));
}

#[test]
fn shifted_key_in_a_text_field_inserts_the_uppercase_form() {
    let mut stream = StreamHandler::new(80, 24);
    let mut tool = Tool::new(ToolType::text_default(), Color::White, 4);
    let mut history = History::new();
    handle_mouse_event(&mut stream, &mut tool, &mut history, down(30, 5));
    handle_text_input(
        &mut stream,
        &mut tool,
        &mut history,
        KeyEvent { code: KeyCode::Char('h'), modifiers: KeyModifiers::Shift, kind: KeyEventKind::Press },
    )
    .unwrap();
    handle_text_input(&mut stream, &mut tool, &mut history, key(KeyCode::Char('i'))).unwrap();
    handle_text_input(&mut stream, &mut tool, &mut history, key(KeyCode::Esc)).unwrap();
    assert_eq!(stream.get_char(0, 30, 5), Some('H'));
    assert_eq!(stream.get_char(0, 31, 5), Some('i'));
}

#[test]
fn toolbar_layout_is_exact() {
    let bar = toolbar("P", "E", "T");
    let lines: Vec<&str> = bar.split('\n').collect();
    assert_eq!(
        lines,
        vec![
            "\u{256d}\u{2500}\u{2500}\u{2500}\u{2500}\u{2500}\u{2500}\u{2500}\u{252c}\u{2500}\u{2500}\u{2500}\u{252c}\u{2500}\u{2500}\u{2500}\u{252c}\u{2500}\u{2500}\u{2500}\u{256e}",
            "\u{2502} P \u{2502} E \u{2502} T \u{2502} \u{f1f8} \u{2502}",
            "\u{2570}\u{2500}\u{2500}\u{2500}\u{2500}\u{2500}\u{2500}\u{2500}\u{2534}\u{2500}\u{2500}\u{2500}\u{2534}\u{2500}\u{2500}\u{2500}\u{2534}\u{2500}\u{2500}\u{2500}\u{256f}",
        ]
    );
    assert_eq!(lines[0].chars().count(), 21);
    assert_eq!(lines[2].chars().count(), 21);
}

#[test]
fn ui_string_highlights_only_the_active_tool() {
    let plain_pen = "\u{2502} \u{f03ea} (#) \u{2502}";
    let plain_eraser = "\u{2502} \u{f01fe} \u{2502}";
    let plain_text = "\u{2502} T \u{2502}";
    let bar = ui_string(&Tool::new(ToolType::Pen, Color::White, 6));
    assert!(bar.contains("\u{f03ea} (#)"));
    assert!(!bar.contains(plain_pen));
    assert!(bar.contains(plain_eraser));
    assert!(bar.contains(plain_text));
    let bar = ui_string(&Tool::new(ToolType::Eraser, Color::White, 6));
    assert!(bar.contains(plain_pen));
    assert!(!bar.contains(plain_eraser));
    assert!(bar.contains(plain_text));
    let bar = ui_string(&Tool::new(ToolType::text_default(), Color::White, 6));
    assert!(bar.contains(plain_pen));
    assert!(bar.contains(plain_eraser));
    assert!(!bar.contains(plain_text));
    assert_eq!(bar.split('\n').count(), 3);
}

#[test]
fn whatever_was_drawn_can_be_undone_and_redone_exactly() {
    let mut stream = StreamHandler::new(40, 12);
    let mut tool = pen();
    let mut history = History::new();
    let mut events: Vec<MouseEvent> = Vec::new();
    for step in 0..30u16 {
        events.push(down(23 + step % 5, 4 + step % 3));
        events.push(drag(24 + step % 7, 5 + step % 4));
        if step % 4 == 0 {
            events.push(scroll(MouseEventKind::ScrollUp));
        }
        if step % 6 == 0 {
            events.push(down(10, 1));
        }
        if step % 6 == 3 {
            events.push(down(2, 1));
        }
        if step % 10 == 9 {
            events.push(down(45, 2));
        }
    }
    for event in events {
        handle_mouse_event(&mut stream, &mut tool, &mut history, event);
    }
    tool.tool_type = ToolType::text_default();
    handle_mouse_event(&mut stream, &mut tool, &mut history, down(25, 5));
    for ch in ['w', 'o', 'r', 'd', 's', ' ', 'o', 'v', 'e', 'r', ' ', 'i', 'n', 'k', '!', '!', '!'] {
        handle_text_input(&mut stream, &mut tool, &mut history, key(KeyCode::Char(ch))).unwrap();
    }
    handle_text_input(&mut stream, &mut tool, &mut history, key(KeyCode::Esc)).unwrap();
    let drawn = all_cells(&stream, 40, 12);
    let strokes = history.len();
    assert!(strokes > 30);
    for count in [0usize, 1, 2, 7, strokes - 1, strokes, strokes + 5] {
        for _ in 0..count {
            undo(&mut stream, &mut history);
        }
        if count >= strokes {
            assert!(all_cells(&stream, 40, 12).iter().all(|c| *c == Some(' ')));
        }
        for _ in 0..count {
            redo(&mut stream, &mut history);
        }
        assert_eq!(all_cells(&stream, 40, 12), drawn);
        assert_eq!(history.position(), 0);
        assert_eq!(history.len(), strokes);
    }
}

#[test]
fn canvas_keeps_its_dimensions() {
    let mut stream = StreamHandler::new(30, 6);
    let mut tool = pen();
    let mut history = History::new();
    for column in [0u16, 22, 29, 30, 31, u16::MAX] {
        for row in [0u16, 3, 5, 6, 7, u16::MAX] {
            handle_mouse_event(&mut stream, &mut tool, &mut history, down(column, row));
            handle_mouse_event(&mut stream, &mut tool, &mut history, drag(column, row));
        }
    }
    tool.tool_type = ToolType::text_default();
    handle_mouse_event(&mut stream, &mut tool, &mut history, down(28, 5));
    for _ in 0..10 {
        handle_text_input(&mut stream, &mut tool, &mut history, key(KeyCode::Char('m'))).unwrap();
    }
    handle_text_input(&mut stream, &mut tool, &mut history, key(KeyCode::Esc)).unwrap();
    for row in 0..8u16 {
        for col in 0..32u16 {
            assert_eq!(stream.get_char(0, col, row).is_some(), col < 30 && row < 6);
            assert_eq!(stream.get_char(1, col, row), None);
        }
    }
    assert_eq!(stream.get_char(0, 28, 5), Some('m'));
    assert_eq!(stream.get_char(0, 29, 5), Some('m'));
}
