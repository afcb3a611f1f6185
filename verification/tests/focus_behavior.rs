use text_edit::context::{DisplayTextCursor, EditorContext, TextEditConfig, TextFocusChanged};
use text_edit::field::{TextEditable, TextField};
use text_edit::focus::{FieldInteraction, FocusInput};
use text_edit::keyboard::{Key, KeyInput};
use text_edit::tick::{tick, TickInput};

fn context_with_two_fields() -> (EditorContext, usize, usize) {
    let f1 = TextField::from_chars("first".chars().collect(), TextEditable::new()).unwrap();
    let f2 = TextField::from_chars("second".chars().collect(), TextEditable::new()).unwrap();
    let mut ctx = EditorContext::new(TextEditConfig::new(), DisplayTextCursor('|'));
    let id1 = ctx.add_field(f1);
    let id2 = ctx.add_field(f2);
    (ctx, id1, id2)
}

fn press_on(field: usize) -> FocusInput {
    FocusInput {
        clicked_elsewhere: true,
        virtual_keyboard_interacted: false,
        interactions: vec![FieldInteraction { field, pressed: true, anchor_y: 120 }],
    }
}

fn quiet() -> FocusInput {
    FocusInput { clicked_elsewhere: false, virtual_keyboard_interacted: false, interactions: Vec::new() }
}

fn tick_input(focus: FocusInput, keys: Vec<Key>) -> TickInput {
    TickInput {
        focus,
        keys: keys.into_iter().map(|k| KeyInput { logical: k, pressed: true }).collect(),
        ctrl_pressed: false,
        clipboard: None,
        delta_ms: 0,
    }
}

#[test]
fn typing_then_unfocusing_publishes_exactly_one_edit() {
    let (mut ctx, id1, _) = context_with_two_fields();

    // click the field, then type into it
    let out = tick(&mut ctx, &tick_input(press_on(id1), vec![]));
    assert_eq!(out.edited.len(), 0);
    tick(&mut ctx, &tick_input(quiet(), vec![Key::Character("!".to_string())]));

    // Enter commits and unfocuses: exactly one event, glyph stripped
    let out = tick(&mut ctx, &tick_input(quiet(), vec![Key::Enter]));
    assert_eq!(out.edited.len(), 1);
    assert_eq!(out.edited[0].field, id1);
    assert_eq!(out.edited[0].text, "first!".to_string());
    assert!(matches!(out.focus_changed[..], [TextFocusChanged::Hide]));

    // no field is focused afterwards
    assert!(ctx.focus.is_none());
    assert!(ctx.fields.iter().all(|f| !f.has_focus));
}

#[test]
fn at_most_one_field_has_focus_after_any_tick() {
    let (mut ctx, id1, id2) = context_with_two_fields();

    let both = FocusInput {
        clicked_elsewhere: true,
        virtual_keyboard_interacted: false,
        interactions: vec![
            FieldInteraction { field: id1, pressed: true, anchor_y: 10 },
            FieldInteraction { field: id2, pressed: true, anchor_y: 20 },
        ],
    };
    let out = tick(&mut ctx, &tick_input(both, vec![]));
    let focused: Vec<usize> = (0..ctx.fields.len()).filter(|&j| ctx.fields[j].has_focus).collect();
    assert_eq!(focused, vec![id2]);
    assert_eq!(out.focus_changed.len(), 2);
}

#[test]
fn clicking_focused_field_again_keeps_cursor() {
    let (mut ctx, id1, _) = context_with_two_fields();

    tick(&mut ctx, &tick_input(press_on(id1), vec![]));
    tick(&mut ctx, &tick_input(quiet(), vec![Key::ArrowLeft, Key::ArrowLeft]));
    let pos_before = ctx.fields[id1].cursor_flat_pos();

    // a repeated click on the same field neither commits nor resets
    let out = tick(&mut ctx, &tick_input(press_on(id1), vec![]));
    assert_eq!(out.edited.len(), 0);
    assert_eq!(ctx.fields[id1].cursor_flat_pos(), pos_before);
}

#[test]
fn focus_change_commits_previous_field() {
    let (mut ctx, id1, id2) = context_with_two_fields();

    tick(&mut ctx, &tick_input(press_on(id1), vec![]));
    tick(&mut ctx, &tick_input(quiet(), vec![Key::Character("x".to_string())]));

    let out = tick(&mut ctx, &tick_input(press_on(id2), vec![]));
    assert_eq!(out.edited.len(), 1);
    assert_eq!(out.edited[0].field, id1);
    assert_eq!(out.edited[0].text, "firstx".to_string());
    assert_eq!(ctx.focus, Some(id2));
}

#[test]
fn click_elsewhere_commits_and_hides() {
    let (mut ctx, id1, _) = context_with_two_fields();

    tick(&mut ctx, &tick_input(press_on(id1), vec![]));
    let elsewhere = FocusInput {
        clicked_elsewhere: true,
        virtual_keyboard_interacted: false,
        interactions: Vec::new(),
    };
    let out = tick(&mut ctx, &tick_input(elsewhere, vec![]));
    assert_eq!(out.edited.len(), 1);
    assert!(matches!(out.focus_changed[..], [TextFocusChanged::Hide]));
}

#[test]
fn press_on_virtual_keyboard_keeps_focus() {
    let (mut ctx, id1, _) = context_with_two_fields();

    tick(&mut ctx, &tick_input(press_on(id1), vec![]));
    let on_keyboard = FocusInput {
        clicked_elsewhere: true,
        virtual_keyboard_interacted: true,
        interactions: Vec::new(),
    };
    let out = tick(&mut ctx, &tick_input(on_keyboard, vec![]));
    assert_eq!(out.edited.len(), 0);
    assert_eq!(ctx.focus, Some(id1));
}

#[test]
fn placeholder_shows_on_empty_unfocused_field_and_commits_empty() {
    let mut editable = TextEditable::new();
    editable.placeholder = "type here".chars().collect();
    let f = TextField::from_chars(Vec::new(), editable).unwrap();
    let mut ctx = EditorContext::new(TextEditConfig::new(), DisplayTextCursor('|'));
    let id = ctx.add_field(f);

    // an idle tick swaps the placeholder in, at reduced alpha
    tick(&mut ctx, &tick_input(quiet(), vec![]));
    let shown: String = ctx.fields[id].flat_chars().into_iter().collect();
    assert_eq!(shown, "type here".to_string());
    assert!(ctx.fields[id].editable.is_placeholder_shown);
    assert_eq!(ctx.fields[id].text_alpha_permille, 200);

    // focusing clears it again and restores the alpha
    tick(&mut ctx, &tick_input(press_on(id), vec![]));
    let shown: String = ctx.fields[id].flat_chars().into_iter().collect();
    assert_eq!(shown, "".to_string());
    assert!(!ctx.fields[id].editable.is_placeholder_shown);
    assert_eq!(ctx.fields[id].text_alpha_permille, 1000);

    // committing while the placeholder was showing publishes an empty text
    tick(&mut ctx, &tick_input(quiet(), vec![Key::Escape]));
    tick(&mut ctx, &tick_input(quiet(), vec![]));
    assert!(ctx.fields[id].editable.is_placeholder_shown);
    tick(&mut ctx, &tick_input(press_on(id), vec![]));
    let out = tick(&mut ctx, &tick_input(quiet(), vec![Key::Enter]));
    assert_eq!(out.edited.len(), 1);
    assert_eq!(out.edited[0].text, "".to_string());
}

#[test]
fn blink_toggles_glyph_and_commit_is_independent_of_it() {
    let (mut ctx, id1, _) = context_with_two_fields();
    ctx.config.blink = true;

    tick(&mut ctx, &tick_input(press_on(id1), vec![]));
    let lit: String = ctx.fields[id1].rendered_chars('|').into_iter().collect();
    assert_eq!(lit, "first|".to_string());

    // half a second later the glyph renders as a space
    let mut input = tick_input(quiet(), vec![]);
    input.delta_ms = 500;
    tick(&mut ctx, &input);
    let dark: String = ctx.fields[id1].rendered_chars('|').into_iter().collect();
    assert_eq!(dark, "first ".to_string());

    // the committed text is the same whatever the blink phase
    let out = tick(&mut ctx, &tick_input(quiet(), vec![Key::Enter]));
    assert_eq!(out.edited[0].text, "first".to_string());
}

#[test]
fn keys_without_focus_are_ignored() {
    let (mut ctx, id1, _) = context_with_two_fields();

    tick(&mut ctx, &tick_input(quiet(), vec![Key::Backspace, Key::Character("z".to_string())]));
    let text: String = ctx.fields[id1].flat_chars().into_iter().collect();
    assert_eq!(text, "first".to_string());
}
