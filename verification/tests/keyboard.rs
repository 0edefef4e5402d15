use oxwm::keyboard::keysyms::keysym_from_str;
use oxwm::keyboard::grabs::grab_keys;
use oxwm::keyboard::grabs::KeyGrab;
use oxwm::keyboard::grabs::ANY_MODIFIER;
use oxwm::keyboard::handlers::handle_key_press;
use oxwm::keyboard::handlers::modifiers_to_mask;
use oxwm::keyboard::handlers::parse_modkey_string;
use oxwm::keyboard::handlers::Arg;
use oxwm::keyboard::handlers::KeyAction;
use oxwm::keyboard::handlers::KeyBinding;
use oxwm::keyboard::handlers::KeyPress;
use oxwm::keyboard::handlers::KeyPressEvent;
use oxwm::keyboard::handlers::KeyboardMapping;
use oxwm::keyboard::handlers::KeychordResult;
use oxwm::keyboard::handlers::KeychordState;
use oxwm::keyboard::keysyms::clean_state;
use oxwm::keyboard::keysyms::CONTROL;
use oxwm::keyboard::keysyms::LOCK;
use oxwm::keyboard::keysyms::MOD1;
use oxwm::keyboard::keysyms::MOD2;
use oxwm::keyboard::keysyms::MOD4;
use oxwm::keyboard::keysyms::SHIFT;
use oxwm::keyboard::keysyms::XK_ESCAPE;
use oxwm::keyboard::spawn::decimal_text;
use oxwm::keyboard::spawn::handle_spawn_action;
use oxwm::keyboard::spawn::SpawnCommand;

const XK_A: u32 = 0x61;
const XK_B: u32 = 0x62;
const XK_C: u32 = 0x63;

const KEY_A: u8 = 38;
const KEY_B: u8 = 56;
const KEY_C: u8 = 54;
const KEY_ESCAPE: u8 = 9;

/// A keymap of two symbols for each key code from 8 on.
fn mapping() -> KeyboardMapping {
    let mut syms = vec![0u32; 2 * 100];
    syms[2 * (KEY_ESCAPE as usize - 8)] = XK_ESCAPE;
    syms[2 * (KEY_A as usize - 8)] = XK_A;
    syms[2 * (KEY_A as usize - 8) + 1] = 0x41;
    syms[2 * (KEY_B as usize - 8)] = XK_B;
    syms[2 * (KEY_C as usize - 8)] = XK_C;
    KeyboardMapping { syms, keysyms_per_keycode: 2, min_keycode: 8 }
}

fn press(modifiers: Vec<u16>, keysym: u32) -> KeyPress {
    KeyPress { modifiers, keysym }
}

fn chord_bindings() -> Vec<KeyBinding> {
    vec![
        KeyBinding::new(
            vec![press(vec![MOD4], XK_A), press(vec![], XK_B)],
            KeyAction::ToggleGaps,
            Arg::none(),
        ),
        KeyBinding::single_key(vec![MOD4], XK_A, KeyAction::KillClient, Arg::none()),
        KeyBinding::single_key(vec![MOD4, SHIFT], XK_C, KeyAction::ViewTag, Arg::Int(3)),
    ]
}

fn key(detail: u8, state: u16) -> KeyPressEvent {
    KeyPressEvent { detail, state }
}

#[test]
fn keychord_resolution() {
    let bindings = chord_bindings();
    let mapping = mapping();
    // the prefix is ambiguous: the chord is in progress
    let first = handle_key_press(key(KEY_A, MOD4), &bindings, &KeychordState::Idle, &mapping);
    let candidates = match first {
        KeychordResult::InProgress(candidates) => candidates,
        _ => panic!("the chord is not in progress"),
    };
    assert_eq!(candidates, vec![0]);
    let state = KeychordState::InProgress { candidates, keys_pressed: 1 };
    // the second key completes the chord of two keys
    match handle_key_press(key(KEY_B, 0), &bindings, &state, &mapping) {
        KeychordResult::Completed(action, arg) => {
            assert_eq!(action, KeyAction::ToggleGaps);
            assert!(matches!(arg, Arg::Nothing));
        }
        _ => panic!("the chord is not completed"),
    }
    // Escape instead cancels it
    assert!(matches!(
        handle_key_press(key(KEY_ESCAPE, 0), &bindings, &state, &mapping),
        KeychordResult::Cancelled
    ));
}

#[test]
fn single_key_binding_fires_at_once() {
    let bindings = chord_bindings();
    match handle_key_press(key(KEY_C, MOD4 | SHIFT), &bindings, &KeychordState::Idle, &mapping()) {
        KeychordResult::Completed(action, Arg::Int(number)) => {
            assert_eq!(action, KeyAction::ViewTag);
            assert_eq!(number, 3);
        }
        _ => panic!("the binding did not fire"),
    }
}

#[test]
fn single_key_binding_fires_without_a_chord_on_its_prefix() {
    let bindings = vec![KeyBinding::single_key(vec![MOD4], XK_A, KeyAction::KillClient, Arg::none())];
    assert!(matches!(
        handle_key_press(key(KEY_A, MOD4), &bindings, &KeychordState::Idle, &mapping()),
        KeychordResult::Completed(KeyAction::KillClient, Arg::Nothing)
    ));
}

#[test]
fn lock_modifiers_do_not_matter() {
    let bindings = chord_bindings();
    let result = handle_key_press(
        key(KEY_C, MOD4 | SHIFT | LOCK | MOD2),
        &bindings,
        &KeychordState::Idle,
        &mapping(),
    );
    assert!(matches!(result, KeychordResult::Completed(KeyAction::ViewTag, _)));
    assert_eq!(clean_state(MOD4 | LOCK | MOD2), MOD4);
}

#[test]
fn first_key_needs_exactly_its_modifiers() {
    let bindings = chord_bindings();
    let mapping = mapping();
    assert!(matches!(
        handle_key_press(key(KEY_C, MOD4), &bindings, &KeychordState::Idle, &mapping),
        KeychordResult::NoMatch
    ));
    assert!(matches!(
        handle_key_press(key(KEY_C, MOD4 | SHIFT | CONTROL), &bindings, &KeychordState::Idle, &mapping),
        KeychordResult::NoMatch
    ));
    assert!(matches!(
        handle_key_press(key(KEY_B, 0), &bindings, &KeychordState::Idle, &mapping),
        KeychordResult::NoMatch
    ));
}

#[test]
fn escape_does_nothing_without_a_chord() {
    assert!(matches!(
        handle_key_press(key(KEY_ESCAPE, 0), &chord_bindings(), &KeychordState::Idle, &mapping()),
        KeychordResult::NoMatch
    ));
}

#[test]
fn wrong_next_key_cancels_the_chord() {
    let state = KeychordState::InProgress { candidates: vec![0], keys_pressed: 1 };
    assert!(matches!(
        handle_key_press(key(KEY_C, 0), &chord_bindings(), &state, &mapping()),
        KeychordResult::Cancelled
    ));
}

#[test]
fn later_keys_accept_further_modifiers() {
    let bindings = vec![KeyBinding::new(
        vec![press(vec![MOD4], XK_A), press(vec![SHIFT], XK_B), press(vec![], XK_C)],
        KeyAction::Quit,
        Arg::none(),
    )];
    let mapping = mapping();
    let state = KeychordState::InProgress { candidates: vec![0], keys_pressed: 1 };
    // shift is needed, control on top is accepted, the chord goes on
    match handle_key_press(key(KEY_B, SHIFT | CONTROL), &bindings, &state, &mapping) {
        KeychordResult::InProgress(left) => assert_eq!(left, vec![0]),
        _ => panic!("the chord does not go on"),
    }
    assert!(matches!(
        handle_key_press(key(KEY_B, CONTROL), &bindings, &state, &mapping),
        KeychordResult::Cancelled
    ));
    let deeper = KeychordState::InProgress { candidates: vec![0], keys_pressed: 2 };
    assert!(matches!(
        handle_key_press(key(KEY_C, MOD1), &bindings, &deeper, &mapping),
        KeychordResult::Completed(KeyAction::Quit, _)
    ));
}

#[test]
fn candidates_that_name_no_binding_are_dropped() {
    let state = KeychordState::InProgress { candidates: vec![17, 0], keys_pressed: 1 };
    assert!(matches!(
        handle_key_press(key(KEY_B, 0), &chord_bindings(), &state, &mapping()),
        KeychordResult::Completed(KeyAction::ToggleGaps, _)
    ));
}

#[test]
fn modifiers_are_combined() {
    assert_eq!(modifiers_to_mask(&[]), 0);
    assert_eq!(modifiers_to_mask(&[MOD4]), 64);
    assert_eq!(modifiers_to_mask(&[MOD4, SHIFT, CONTROL]), 64 | 1 | 4);
    assert_eq!(modifiers_to_mask(&[SHIFT, SHIFT]), 1);
}

#[test]
fn keymap_lookup() {
    let mapping = mapping();
    assert_eq!(mapping.keycode_to_keysym(KEY_A), XK_A);
    assert_eq!(mapping.keycode_to_keysym(KEY_ESCAPE), XK_ESCAPE);
    assert_eq!(mapping.keycode_to_keysym(3), 0);
    assert_eq!(mapping.keycode_to_keysym(200), 0);
    assert_eq!(mapping.find_keycode(XK_B, 8, 255), Some(KEY_B));
    assert_eq!(mapping.find_keycode(XK_B, KEY_B + 1, 255), None);
    assert_eq!(mapping.find_keycode(0x41, 8, 255), None);
    assert_eq!(mapping.find_keycode(XK_A, 0, 255), Some(KEY_A));
}

#[test]
fn keys_are_grabbed_for_the_depth_of_the_chord() {
    let bindings = chord_bindings();
    let mapping = mapping();
    let first = grab_keys(&bindings, 0, &mapping, 8, 107);
    let grab = |modifiers: u16, keycode: u8| KeyGrab { modifiers, keycode };
    let mut expected = Vec::new();
    // key codes in turn: a (38) for the first two bindings, then c (54)
    for mask in [MOD4, MOD4] {
        for lock in [0, LOCK, MOD2, LOCK | MOD2] {
            expected.push(grab(mask | lock, KEY_A));
        }
    }
    for lock in [0, LOCK, MOD2, LOCK | MOD2] {
        expected.push(grab(MOD4 | SHIFT | lock, KEY_C));
    }
    assert_eq!(first, expected);
    let second = grab_keys(&bindings, 1, &mapping, 8, 107);
    assert_eq!(
        second,
        vec![
            grab(0, KEY_B),
            grab(LOCK, KEY_B),
            grab(MOD2, KEY_B),
            grab(LOCK | MOD2, KEY_B),
            grab(ANY_MODIFIER, KEY_ESCAPE),
        ]
    );
    assert!(grab_keys(&bindings, 0, &mapping, 60, 50).is_empty());
}

#[test]
fn spawn_action_starts_a_shell_line() {
    match handle_spawn_action(KeyAction::Spawn, &Arg::Str("st -e top".to_string()), 0) {
        Some(SpawnCommand::Shell(line)) => assert_eq!(line, "st -e top"),
        _ => panic!("no shell line"),
    }
}

#[test]
fn spawn_action_tells_the_menu_its_monitor() {
    let menu = Arg::Array(vec!["dmenu_run".to_string(), "-l".to_string(), "10".to_string()]);
    match handle_spawn_action(KeyAction::Spawn, &menu, 12) {
        Some(SpawnCommand::Program { command, arguments }) => {
            assert_eq!(command, "dmenu_run");
            assert_eq!(arguments, vec!["-m", "12", "-l", "10"]);
        }
        _ => panic!("no program"),
    }
    let told = Arg::Array(vec!["dmenu".to_string(), "-m".to_string(), "1".to_string()]);
    match handle_spawn_action(KeyAction::Spawn, &told, 0) {
        Some(SpawnCommand::Program { command, arguments }) => {
            assert_eq!(command, "dmenu");
            assert_eq!(arguments, vec!["-m", "1"]);
        }
        _ => panic!("no program"),
    }
    let other = Arg::Array(vec!["firefox".to_string(), "-m".to_string()]);
    match handle_spawn_action(KeyAction::Spawn, &other, 3) {
        Some(SpawnCommand::Program { command, arguments }) => {
            assert_eq!(command, "firefox");
            assert_eq!(arguments, vec!["-m"]);
        }
        _ => panic!("no program"),
    }
}

#[test]
fn spawn_action_needs_a_command() {
    assert!(handle_spawn_action(KeyAction::Spawn, &Arg::Array(vec![]), 0).is_none());
    assert!(handle_spawn_action(KeyAction::Spawn, &Arg::Int(1), 0).is_none());
    assert!(handle_spawn_action(KeyAction::Spawn, &Arg::none(), 0).is_none());
    assert!(handle_spawn_action(KeyAction::KillClient, &Arg::Str("st".to_string()), 0).is_none());
}

#[test]
fn numbers_in_decimal() {
    assert_eq!(decimal_text(0), "0");
    assert_eq!(decimal_text(7), "7");
    assert_eq!(decimal_text(10), "10");
    assert_eq!(decimal_text(1234567890), "1234567890");
}

#[test]
fn actions_and_modifiers_by_name() {
    assert_eq!(KeyAction::from_name("Spawn"), Some(KeyAction::Spawn));
    assert_eq!(KeyAction::from_name("ToggleFullScreen"), Some(KeyAction::ToggleFullScreen));
    assert_eq!(KeyAction::from_name("IncNumMaster"), Some(KeyAction::IncNumMaster));
    assert_eq!(KeyAction::from_name("spawn"), None);
    assert_eq!(KeyAction::from_name("ScrollLeft"), None);
    assert_eq!(parse_modkey_string("Mod4"), Some(MOD4));
    assert_eq!(parse_modkey_string("Shift"), Some(SHIFT));
    assert_eq!(parse_modkey_string("Control"), Some(CONTROL));
    assert_eq!(parse_modkey_string("Mod1"), Some(MOD1));
    assert_eq!(parse_modkey_string("Hyper"), None);
}

#[test]
fn arguments_are_copied_whole() {
    let list = Arg::Array(vec!["a".to_string(), "bc".to_string()]);
    match list.clone() {
        Arg::Array(copy) => assert_eq!(copy, vec!["a", "bc"]),
        _ => panic!("not a list"),
    }
    assert!(matches!(Arg::Int(-4).clone(), Arg::Int(-4)));
    match Arg::Str("text".to_string()).clone() {
        Arg::Str(copy) => assert_eq!(copy, "text"),
        _ => panic!("not a text"),
    }
}

#[test]
fn keys_by_name() {
    assert_eq!(keysym_from_str("a"), Some(0x61));
    assert_eq!(keysym_from_str("A"), Some(0x61));
    assert_eq!(keysym_from_str("1"), Some(0x31));
    assert_eq!(keysym_from_str(" "), Some(0x20));
    assert_eq!(keysym_from_str("F"), Some(0x66));
    assert_eq!(keysym_from_str("F1"), Some(0xffbe));
    assert_eq!(keysym_from_str("F9"), Some(0xffc6));
    assert_eq!(keysym_from_str("F10"), Some(0xffc7));
    assert_eq!(keysym_from_str("F12"), Some(0xffc9));
    assert_eq!(keysym_from_str("F13"), None);
    assert_eq!(keysym_from_str("F0"), None);
    assert_eq!(keysym_from_str("F01"), None);
    assert_eq!(keysym_from_str("Return"), Some(0xff0d));
    assert_eq!(keysym_from_str("Enter"), Some(0xff0d));
    assert_eq!(keysym_from_str("space"), Some(0x20));
    assert_eq!(keysym_from_str("BackSpace"), Some(0xff08));
    assert_eq!(keysym_from_str("AudioMute"), Some(0x1008ff12));
    assert_eq!(keysym_from_str("return"), None);
    assert_eq!(keysym_from_str(""), None);
    assert_eq!(keysym_from_str("\u{1}"), None);
    assert_eq!(keysym_from_str("\u{3bb}"), None);
}
