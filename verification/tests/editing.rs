use text_edit::context::{DisplayTextCursor, EditorContext, TextEditConfig};
use text_edit::field::{CursorPosition, Segment, TextEditable, TextField};
use text_edit::focus::FocusInput;
use text_edit::keyboard::{Key, KeyInput};
use text_edit::tick::{tick, TickInput};

fn setup(ignore: Vec<String>, allow: Vec<String>, max_length: usize) -> (EditorContext, usize, usize) {
    let mut editable = TextEditable::new();
    editable.filter_out = ignore;
    editable.filter_in = allow;
    editable.max_length = max_length;
    editable.placeholder = "Placeholder".chars().collect();
    let f1 = TextField::from_chars("Text_Section1".chars().collect(), editable).unwrap();
    let f2 = TextField::from_chars("Text_Section2".chars().collect(), TextEditable::new()).unwrap();
    let mut ctx = EditorContext::new(TextEditConfig::new(), DisplayTextCursor('|'));
    let id1 = ctx.add_field(f1);
    let id2 = ctx.add_field(f2);
    ctx.give_focus(id1);
    (ctx, id1, id2)
}

fn quiet_pointer() -> FocusInput {
    FocusInput { clicked_elsewhere: false, virtual_keyboard_interacted: false, interactions: Vec::new() }
}

fn send_keys(ctx: &mut EditorContext, keys: Vec<Key>) {
    let events: Vec<KeyInput> = keys.into_iter().map(|k| KeyInput { logical: k, pressed: true }).collect();
    let input = TickInput {
        focus: quiet_pointer(),
        keys: events,
        ctrl_pressed: false,
        clipboard: None,
        delta_ms: 0,
    };
    tick(ctx, &input);
}

fn rendered(ctx: &EditorContext, id: usize) -> String {
    ctx.fields[id].rendered_chars(ctx.display_cursor.0).into_iter().collect()
}

#[test]
fn arrow() {
    let (mut ctx, text1, _) = setup(vec![], vec![], 0);

    send_keys(&mut ctx, vec![Key::ArrowLeft]);
    assert_eq!(rendered(&ctx, text1), "Text_Section|1".to_string());

    send_keys(&mut ctx, vec![Key::ArrowRight]);
    assert_eq!(rendered(&ctx, text1), "Text_Section1|".to_string());
}

#[test]
fn backspace() {
    let (mut ctx, text1, _) = setup(vec![], vec![], 0);

    send_keys(&mut ctx, vec![Key::Backspace]);
    assert_eq!(rendered(&ctx, text1), "Text_Section|".to_string());
}

#[test]
fn input_text() {
    let (mut ctx, text1, _) = setup(vec![], vec![], 0);

    send_keys(&mut ctx, vec![Key::Space, Key::Character("a".to_string())]);
    assert_eq!(rendered(&ctx, text1), "Text_Section1 a|".to_string());
}

#[test]
fn delete() {
    let (mut ctx, text1, _) = setup(vec![], vec![], 0);

    send_keys(&mut ctx, vec![Key::ArrowLeft, Key::Delete]);
    assert_eq!(rendered(&ctx, text1), "Text_Section|".to_string());

    // Delete at the end of line
    send_keys(&mut ctx, vec![Key::Delete]);
    assert_eq!(rendered(&ctx, text1), "Text_Section|".to_string());
}

#[test]
fn home_end() {
    let (mut ctx, text1, _) = setup(vec![], vec![], 0);

    send_keys(&mut ctx, vec![Key::Home]);
    assert_eq!(rendered(&ctx, text1), "|Text_Section1".to_string());

    // Backspace at the beginning
    send_keys(&mut ctx, vec![Key::Backspace]);
    assert_eq!(rendered(&ctx, text1), "|Text_Section1".to_string());

    send_keys(&mut ctx, vec![Key::End]);
    assert_eq!(rendered(&ctx, text1), "Text_Section1|".to_string());
}

#[test]
fn ignore_char_test() {
    let (mut ctx, text1, _) = setup(vec!["a".into(), " ".into(), "[1-3]".into()], vec![], 0);

    send_keys(
        &mut ctx,
        vec![
            Key::Space,
            Key::Character("a".to_string()),
            Key::Character("b".to_string()),
            Key::Character("2".to_string()),
            Key::Character("4".to_string()),
        ],
    );
    assert_eq!(rendered(&ctx, text1), "Text_Section1b4|".to_string());
}

#[test]
fn allow_char_test() {
    let (mut ctx, text1, _) = setup(vec![], vec!["a".into(), " ".into(), "[1-3]".into()], 0);

    send_keys(
        &mut ctx,
        vec![
            Key::Space,
            Key::Character("a".to_string()),
            Key::Character("b".to_string()),
            Key::Character("0".to_string()),
            Key::Character("1".to_string()),
            Key::Character("3".to_string()),
            Key::Character("4".to_string()),
        ],
    );
    assert_eq!(rendered(&ctx, text1), "Text_Section1 a13|".to_string());
}

#[test]
fn max_length() {
    let (mut ctx, text1, _) = setup(vec![], vec![], 15);

    send_keys(
        &mut ctx,
        vec![
            Key::Character("a".to_string()),
            Key::Character("a".to_string()),
            Key::Character("a".to_string()),
            Key::Character("a".to_string()),
            Key::Character("a".to_string()),
        ],
    );
    assert_eq!(rendered(&ctx, text1), "Text_Section1aa|".to_string());
}

#[test]
fn paste_is_filtered_per_character() {
    let (mut ctx, text1, _) = setup(vec!["[0-9]".into()], vec![], 0);

    let input = TickInput {
        focus: quiet_pointer(),
        keys: vec![KeyInput { logical: Key::Character("v".to_string()), pressed: true }],
        ctrl_pressed: true,
        clipboard: Some("a1b2c3".chars().collect()),
        delta_ms: 0,
    };
    tick(&mut ctx, &input);
    assert_eq!(rendered(&ctx, text1), "Text_Section1abc|".to_string());
}

#[test]
fn paste_respects_length_cap() {
    // at the cap: nothing is pasted
    let (mut ctx, text1, _) = setup(vec![], vec![], 13);
    let input = TickInput {
        focus: quiet_pointer(),
        keys: vec![KeyInput { logical: Key::Character("v".to_string()), pressed: true }],
        ctrl_pressed: true,
        clipboard: Some("abc".chars().collect()),
        delta_ms: 0,
    };
    tick(&mut ctx, &input);
    assert_eq!(rendered(&ctx, text1), "Text_Section1|".to_string());

    // under the cap: the paste goes through, like any insertion
    let (mut ctx, text1, _) = setup(vec![], vec![], 15);
    let input = TickInput {
        focus: quiet_pointer(),
        keys: vec![KeyInput { logical: Key::Character("v".to_string()), pressed: true }],
        ctrl_pressed: true,
        clipboard: Some("abc".chars().collect()),
        delta_ms: 0,
    };
    tick(&mut ctx, &input);
    assert_eq!(rendered(&ctx, text1), "Text_Section1abc|".to_string());
}

#[test]
fn paste_without_clipboard_does_nothing() {
    let (mut ctx, text1, _) = setup(vec![], vec![], 0);

    let input = TickInput {
        focus: quiet_pointer(),
        keys: vec![KeyInput { logical: Key::Character("v".to_string()), pressed: true }],
        ctrl_pressed: true,
        clipboard: None,
        delta_ms: 0,
    };
    tick(&mut ctx, &input);
    assert_eq!(rendered(&ctx, text1), "Text_Section1|".to_string());
}

#[test]
fn released_keys_are_skipped() {
    let (mut ctx, text1, _) = setup(vec![], vec![], 0);

    let input = TickInput {
        focus: quiet_pointer(),
        keys: vec![KeyInput { logical: Key::Character("x".to_string()), pressed: false }],
        ctrl_pressed: false,
        clipboard: None,
        delta_ms: 0,
    };
    tick(&mut ctx, &input);
    assert_eq!(rendered(&ctx, text1), "Text_Section1|".to_string());
}

#[test]
fn multibyte_characters_keep_scalar_boundaries() {
    let (mut ctx, text1, _) = setup(vec![], vec![], 0);

    send_keys(&mut ctx, vec![Key::Character("é".to_string()), Key::ArrowLeft, Key::ArrowLeft]);
    assert_eq!(rendered(&ctx, text1), "Text_Section|1é".to_string());

    send_keys(&mut ctx, vec![Key::Delete, Key::Delete]);
    assert_eq!(rendered(&ctx, text1), "Text_Section|".to_string());
}

fn two_segment_field() -> TextField {
    TextField {
        segments: vec![
            Segment { text: "Text_".chars().collect(), style: 0 },
            Segment { text: "Section1".chars().collect(), style: 1 },
        ],
        cursor: CursorPosition { segment_index: 0, offset: 0 },
        has_focus: true,
        editing: true,
        glyph_visible: true,
        editable: TextEditable::new(),
        text_alpha_permille: 1000,
    }
}

#[test]
fn backspace_across_segment_boundary_takes_previous_trailing_character() {
    let mut f = two_segment_field();
    f.cursor = CursorPosition { segment_index: 1, offset: 0 };
    f.delete_backward();
    let flat: String = f.flat_chars().into_iter().collect();
    assert_eq!(flat, "TextSection1".to_string());
    // the cursor followed the deletion into the earlier segment
    assert_eq!(f.cursor.segment_index, 0);
    assert_eq!(f.cursor.offset, 4);
}

#[test]
fn forward_delete_across_segment_boundary_takes_next_leading_character() {
    let mut f = two_segment_field();
    f.cursor = CursorPosition { segment_index: 0, offset: 5 };
    f.delete_forward();
    let flat: String = f.flat_chars().into_iter().collect();
    assert_eq!(flat, "Text_ection1".to_string());
    // the cursor stayed at the end of its own segment
    assert_eq!(f.cursor.segment_index, 0);
    assert_eq!(f.cursor.offset, 5);
}

#[test]
fn moves_cross_segment_boundaries_by_one_scalar() {
    let mut f = two_segment_field();
    f.cursor = CursorPosition { segment_index: 1, offset: 0 };
    f.move_left();
    assert_eq!(f.cursor_flat_pos(), 4);
    f.move_right();
    assert_eq!(f.cursor_flat_pos(), 5);
    f.move_home();
    assert_eq!(f.cursor_flat_pos(), 0);
    f.move_left();
    assert_eq!(f.cursor_flat_pos(), 0);
    f.move_end();
    assert_eq!(f.cursor_flat_pos(), 13);
    f.move_right();
    assert_eq!(f.cursor_flat_pos(), 13);
}
