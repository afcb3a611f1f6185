use text_edit::context::{TextEditConfig, TextFocusChanged};
use text_edit::filter::{is_admitted, is_ignored};
use text_edit::keyboard::Key;
use text_edit::number_input::{
    clamp_number, decimal_width, increase_number, number_edited, number_input_editable,
    reduce_number,
};
use text_edit::virtual_keyboard::{
    GamepadNav, KeyCode, VirtualKeyboardPos, VirtualKeyboardState, VirtualKeyLabel,
    VirtualKeysList,
};

fn strings(items: &[&str]) -> Vec<String> {
    items.iter().map(|s| s.to_string()).collect()
}

#[test]
fn deny_patterns_reject_by_regex_or_equality() {
    let deny = strings(&["a", " ", "[1-3]"]);
    let allow: Vec<String> = Vec::new();
    assert!(is_ignored(&deny, &allow, &"a".to_string()));
    assert!(is_ignored(&deny, &allow, &" ".to_string()));
    assert!(is_ignored(&deny, &allow, &"2".to_string()));
    assert!(!is_ignored(&deny, &allow, &"b".to_string()));
    assert!(!is_ignored(&deny, &allow, &"4".to_string()));
}

#[test]
fn allow_patterns_admit_only_matches() {
    let deny: Vec<String> = Vec::new();
    let allow = strings(&["a", " ", "[1-3]"]);
    assert!(is_admitted(&deny, &allow, &"a".to_string()));
    assert!(is_admitted(&deny, &allow, &" ".to_string()));
    assert!(is_admitted(&deny, &allow, &"1".to_string()));
    assert!(is_admitted(&deny, &allow, &"3".to_string()));
    assert!(!is_admitted(&deny, &allow, &"b".to_string()));
    assert!(!is_admitted(&deny, &allow, &"0".to_string()));
    assert!(!is_admitted(&deny, &allow, &"4".to_string()));
}

#[test]
fn invalid_pattern_falls_back_to_exact_equality() {
    let deny = strings(&["["]);
    let allow: Vec<String> = Vec::new();
    // "[" does not compile as a regex, so it only matches itself
    assert!(is_ignored(&deny, &allow, &"[".to_string()));
    assert!(!is_ignored(&deny, &allow, &"[x".to_string()));
    assert!(!is_ignored(&deny, &allow, &"x".to_string()));
}

#[test]
fn deny_takes_precedence_over_allow() {
    let deny = strings(&["a"]);
    let allow = strings(&["[a-z]"]);
    assert!(is_ignored(&deny, &allow, &"a".to_string()));
    assert!(!is_ignored(&deny, &allow, &"b".to_string()));
}

#[test]
fn default_layout_has_four_rows() {
    let list = VirtualKeysList::default();
    assert_eq!(list.keys.len(), 4);
    assert_eq!(list.keys[0].len(), 14);
    assert_eq!(list.keys[1].len(), 14);
    assert_eq!(list.keys[2].len(), 13);
    assert_eq!(list.keys[3].len(), 13);
    // spot checks: the backquote key and the shift key
    assert_eq!(list.keys[0][0].0.main, "`".to_string());
    assert_eq!(list.keys[0][0].0.alt, "~".to_string());
    assert_eq!(list.keys[2][0].0.main, "Shift".to_string());
    assert!(matches!(list.keys[2][0].1.logical_key.0, Key::Shift));
    // a plain key types its label as a character
    match &list.keys[1][0].1.logical_key {
        (Key::Character(main), Key::Character(alt)) => {
            assert_eq!(main, &"q".to_string());
            assert_eq!(alt, &"Q".to_string());
        }
        _ => panic!("letter keys type their labels"),
    }
}

#[test]
fn pressing_a_key_emits_its_event_and_arms_repeat() {
    let mut kb = VirtualKeyboardState::new(VirtualKeysList::default());
    let out = kb.press_key(1, 0, 500).unwrap();
    assert!(matches!(out.key_code, KeyCode::KeyQ));
    match out.logical {
        Key::Character(s) => assert_eq!(s, "q".to_string()),
        _ => panic!("expected a typed character"),
    }
    let t = kb.timers[1][0];
    assert!(t.running);
    assert_eq!(t.duration_ms, 500);
}

#[test]
fn shift_toggles_alt_values_and_emits_nothing() {
    let mut kb = VirtualKeyboardState::new(VirtualKeysList::default());
    // row 2, column 0 is the shift key
    assert!(kb.press_key(2, 0, 500).is_none());
    assert!(kb.keyboard.show_alt);
    let out = kb.press_key(1, 0, 500).unwrap();
    match out.logical {
        Key::Character(s) => assert_eq!(s, "Q".to_string()),
        _ => panic!("expected the shifted character"),
    }
    // labels follow the shift state
    let label = VirtualKeyLabel::new("q", "Q");
    assert_eq!(label.shown(true), &"Q".to_string());
    assert_eq!(label.shown(false), &"q".to_string());
    // a second press toggles back
    kb.press_key(2, 0, 500);
    assert!(!kb.keyboard.show_alt);
}

#[test]
fn held_key_repeats_after_initial_delay_then_at_interval() {
    let mut kb = VirtualKeyboardState::new(VirtualKeysList::default());
    kb.press_key(1, 0, 500).unwrap();

    // before the initial delay nothing repeats
    let out = kb.key_repeat_tick(300, 50);
    assert_eq!(out.len(), 0);

    // the delay elapses: one synthetic press, timer now repeating
    let out = kb.key_repeat_tick(200, 50);
    assert_eq!(out.len(), 1);
    assert!(matches!(out[0].key_code, KeyCode::KeyQ));
    assert_eq!(kb.timers[1][0].duration_ms, 50);

    // each further period emits one more
    let out = kb.key_repeat_tick(50, 50);
    assert_eq!(out.len(), 1);

    // release stops the repeat
    kb.release_key(1, 0);
    let out = kb.key_repeat_tick(1000, 50);
    assert_eq!(out.len(), 0);
}

#[test]
fn hiding_the_keyboard_pauses_all_timers() {
    let mut kb = VirtualKeyboardState::new(VirtualKeysList::default());
    let config = TextEditConfig::new();
    kb.press_key(1, 0, 500).unwrap();
    kb.show_keyboard(&TextFocusChanged::Hide, &config, 600);
    assert!(!kb.visible);
    assert!(!kb.timers[1][0].running);
    assert_eq!(kb.key_repeat_tick(1000, 50).len(), 0);
}

#[test]
fn keyboard_placement_follows_config_then_anchor() {
    let mut kb = VirtualKeyboardState::new(VirtualKeysList::default());
    let mut config = TextEditConfig::new();
    config.enable_virtual_keyboard = true;

    // auto placement: a field on the lower half puts the keyboard on top of
    // the window only when the anchor is at or above the middle
    let p = kb.show_keyboard(&TextFocusChanged::Show(100), &config, 600);
    assert!(matches!(p, Some(VirtualKeyboardPos::Bottom)));
    assert!(kb.visible);
    let p = kb.show_keyboard(&TextFocusChanged::Show(400), &config, 600);
    assert!(matches!(p, Some(VirtualKeyboardPos::Top)));

    // a fixed position wins
    config.virtual_keyboard_pos = Some(VirtualKeyboardPos::Bottom);
    let p = kb.show_keyboard(&TextFocusChanged::Show(400), &config, 600);
    assert!(matches!(p, Some(VirtualKeyboardPos::Bottom)));

    // disabled: never shown
    config.enable_virtual_keyboard = false;
    let mut kb2 = VirtualKeyboardState::new(VirtualKeysList::default());
    let p = kb2.show_keyboard(&TextFocusChanged::Show(400), &config, 600);
    assert!(p.is_none());
    assert!(!kb2.visible);
}

#[test]
fn gamepad_navigation_clamps_up_left_and_wraps_down_right() {
    let mut kb = VirtualKeyboardState::new(VirtualKeysList::default());

    // up and left clamp at the top-left corner
    kb.navigate_selection(GamepadNav::Up);
    kb.navigate_selection(GamepadNav::Left);
    assert_eq!((kb.selecting.row, kb.selecting.col), (0, 0));

    // right walks the row and wraps into the next one
    for _ in 0..13 {
        kb.navigate_selection(GamepadNav::Right);
    }
    assert_eq!((kb.selecting.row, kb.selecting.col), (0, 13));
    kb.navigate_selection(GamepadNav::Right);
    assert_eq!((kb.selecting.row, kb.selecting.col), (1, 0));

    // down wraps back to the first row
    kb.navigate_selection(GamepadNav::Down);
    kb.navigate_selection(GamepadNav::Down);
    kb.navigate_selection(GamepadNav::Down);
    assert_eq!(kb.selecting.row, 0);

    // the confirm button presses the selected key
    let (r, c) = kb.selected_key().unwrap();
    assert_eq!((r, c), (0, 0));
    let out = kb.press_key(r, c, 500).unwrap();
    assert!(matches!(out.key_code, KeyCode::Backquote));
}

#[test]
fn number_edited_parses_and_clamps() {
    assert_eq!(number_edited(&"5".to_string(), 0, 10), Some(5));
    assert_eq!(number_edited(&"999".to_string(), 0, 100), Some(100));
    assert_eq!(number_edited(&"-7".to_string(), -3, 100), Some(-3));
    assert_eq!(number_edited(&"abc".to_string(), 0, 10), None);
    assert_eq!(number_edited(&"".to_string(), 0, 10), None);
}

#[test]
fn number_input_admission_settings() {
    let e = number_input_editable(-100, 50);
    // "-100" is the wider bound: four characters
    assert_eq!(e.max_length, 4);
    assert_eq!(e.filter_in, vec!["[0-9.-]".to_string()]);
    assert!(e.filter_out.is_empty());
    // the pattern admits digits, sign and dot, nothing else
    assert!(is_admitted(&e.filter_out, &e.filter_in, &"7".to_string()));
    assert!(is_admitted(&e.filter_out, &e.filter_in, &"-".to_string()));
    assert!(is_admitted(&e.filter_out, &e.filter_in, &".".to_string()));
    assert!(!is_admitted(&e.filter_out, &e.filter_in, &"a".to_string()));
    assert!(!is_admitted(&e.filter_out, &e.filter_in, &" ".to_string()));
}

#[test]
fn decimal_width_counts_sign_and_digits() {
    assert_eq!(decimal_width(0), 1);
    assert_eq!(decimal_width(9), 1);
    assert_eq!(decimal_width(10), 2);
    assert_eq!(decimal_width(-1), 2);
    assert_eq!(decimal_width(i64::MAX), 19);
    assert_eq!(decimal_width(i64::MIN), 20);
}

#[test]
fn number_steps_stay_inside_the_range() {
    assert_eq!(increase_number(5, 10), 6);
    assert_eq!(increase_number(10, 10), 10);
    assert_eq!(reduce_number(5, 0), 4);
    assert_eq!(reduce_number(0, 0), 0);
    assert_eq!(clamp_number(42, 0, 10), 10);
    assert_eq!(clamp_number(-42, 0, 10), 0);
    assert_eq!(clamp_number(7, 0, 10), 7);
}
