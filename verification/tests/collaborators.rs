use oxwm::overlay::signed_text;
use oxwm::overlay::format_key_combo;
use oxwm::overlay::collect_keybindings;
use oxwm::overlay::action_description;
use oxwm::keyboard::handlers::KeyPress;
use oxwm::keyboard::handlers::KeyBinding;
use oxwm::color::parse_number;
use oxwm::color::parse_color;
use oxwm::animations::AnimationConfig;
use oxwm::animations::Easing;
use oxwm::animations::ScrollAnimation;
use oxwm::animations::ScrollStep;
use oxwm::bar::tab_at_click;
use oxwm::bar::tag_at_click;
use oxwm::bar::Battery;
use oxwm::bar::Block;
use oxwm::bar::BlockCommand;
use oxwm::bar::BlockConfig;
use oxwm::bar::ButtonBlock;
use oxwm::bar::ShellBlock;
use oxwm::bar::StaticBlock;
use oxwm::bar::StatusBlock;
use oxwm::keyboard::handlers::Arg;
use oxwm::keyboard::handlers::KeyAction;
use oxwm::keyboard::keysyms::MOD4;
use oxwm::keyboard::keysyms::SHIFT;
use oxwm::monitor::detect_monitors;
use oxwm::monitor::order_screens;
use oxwm::monitor::Monitor;
use oxwm::monitor::ScreenInfo;
use oxwm::tags::tag_mask;
use oxwm::tags::unmask_tag;
use oxwm::keyboard::keysyms::format_keysym;
use oxwm::window_manager::bar_feed::format_modifier;
use oxwm::ColorScheme;
use oxwm::Config;

fn screen(x: i16, y: i16, width: u16, height: u16) -> ScreenInfo {
    ScreenInfo { x_org: x, y_org: y, width, height }
}

#[test]
fn tag_masks() {
    assert_eq!(tag_mask(0), 1);
    assert_eq!(tag_mask(3), 8);
    assert_eq!(tag_mask(31), 0x8000_0000);
    for tag in 0..32 {
        assert_eq!(unmask_tag(tag_mask(tag)), tag);
    }
    assert_eq!(unmask_tag(0b101000), 3);
    assert_eq!(unmask_tag(0), 32);
}

#[test]
fn screens_are_ordered_and_taken_once() {
    let screens = [
        screen(1920, 0, 1280, 1024),
        screen(0, 1080, 1920, 1080),
        screen(0, 0, 1920, 1080),
        screen(1920, 0, 1280, 1024),
        screen(5, 5, 0, 100),
        screen(5, 5, 100, 0),
    ];
    assert_eq!(
        order_screens(&screens),
        vec![screen(0, 0, 1920, 1080), screen(1920, 0, 1280, 1024), screen(0, 1080, 1920, 1080)]
    );
    assert!(order_screens(&[]).is_empty());
}

#[test]
fn monitors_for_the_screens() {
    let monitors = detect_monitors(&[screen(1920, 0, 1280, 1024), screen(0, 0, 1920, 1080)], 3200, 1080, 24);
    assert_eq!(monitors.len(), 2);
    assert_eq!(
        (monitors[0].screen_x, monitors[0].screen_y, monitors[0].screen_width, monitors[0].screen_height),
        (0, 0, 1920, 1080)
    );
    assert_eq!(
        (
            monitors[1].window_area_x,
            monitors[1].window_area_y,
            monitors[1].window_area_width,
            monitors[1].window_area_height
        ),
        (1920, 24, 1280, 1000)
    );
    assert_eq!(monitors[0].monitor_number, 0);
    assert_eq!(monitors[1].monitor_number, 1);
    // without a usable screen the root window is the monitor
    let fallback = detect_monitors(&[screen(0, 0, 0, 0)], 800, 600, 0);
    assert_eq!(fallback.len(), 1);
    assert_eq!((fallback[0].screen_width, fallback[0].screen_height), (800, 600));
}

#[test]
fn a_monitor_holds_points_of_its_screen() {
    let monitor = Monitor::new(100, 50, 800, 600);
    assert!(monitor.contains_point(100, 50));
    assert!(monitor.contains_point(899, 649));
    assert!(!monitor.contains_point(900, 50));
    assert!(!monitor.contains_point(100, 650));
    assert!(!monitor.contains_point(99, 50));
    assert_eq!(monitor.get_selected_tag(), 1);
    assert_eq!(monitor.overlap_with(0, 0, 200, 100), 100 * 50);
    assert_eq!(monitor.overlap_with(0, 0, 100, 100), 0);
}

#[test]
fn clicks_on_the_bar_find_their_tag() {
    let widths = [30u16, 20, 50];
    assert_eq!(tag_at_click(&widths, 0), Some(0));
    assert_eq!(tag_at_click(&widths, 29), Some(0));
    assert_eq!(tag_at_click(&widths, 30), Some(1));
    assert_eq!(tag_at_click(&widths, 49), Some(1));
    assert_eq!(tag_at_click(&widths, 50), Some(2));
    assert_eq!(tag_at_click(&widths, 99), Some(2));
    assert_eq!(tag_at_click(&widths, 100), None);
    assert_eq!(tag_at_click(&widths, -1), None);
    assert_eq!(tag_at_click(&[], 5), None);
}

#[test]
fn clicks_on_the_tabs_find_their_tab() {
    assert_eq!(tab_at_click(900, 3, 0), Some(0));
    assert_eq!(tab_at_click(900, 3, 299), Some(0));
    assert_eq!(tab_at_click(900, 3, 300), Some(1));
    assert_eq!(tab_at_click(900, 3, 899), Some(2));
    assert_eq!(tab_at_click(900, 3, 900), None);
    assert_eq!(tab_at_click(900, 0, 10), None);
    assert_eq!(tab_at_click(2, 3, 1), None);
    assert_eq!(tab_at_click(900, 3, -5), None);
}

#[test]
fn scroll_animation_runs_its_time() {
    let mut animation = ScrollAnimation::new();
    assert!(!animation.is_active());
    assert_eq!(animation.update(5), None);
    let config = AnimationConfig { duration_ms: 200, easing: Easing::Linear };
    animation.start(10, 110, &config, 1000);
    assert!(animation.is_active());
    assert_eq!(animation.target(), 110);
    assert_eq!(
        animation.update(1050),
        Some(ScrollStep::Between {
            start_value: 10,
            end_value: 110,
            elapsed_ms: 50,
            duration_ms: 200,
            easing: Easing::Linear,
        })
    );
    assert!(animation.is_active());
    assert_eq!(animation.update(1200), Some(ScrollStep::Arrived(110)));
    assert!(!animation.is_active());
    assert_eq!(animation.update(1300), None);
}

#[test]
fn scroll_animation_to_the_same_place_rests() {
    let mut animation = ScrollAnimation::default();
    let config = AnimationConfig::default();
    assert_eq!(config, AnimationConfig { duration_ms: 150, easing: Easing::EaseOut });
    animation.start(7, 7, &config, 0);
    assert!(!animation.is_active());
    animation.start(0, 50, &config, 100);
    animation.cancel();
    assert!(!animation.is_active());
    assert_eq!(animation.target(), 50);
    // a clock that went backwards counts as no time passed
    animation.start(0, 50, &config, 100);
    assert!(matches!(animation.update(40), Some(ScrollStep::Between { elapsed_ms: 0, .. })));
}

#[test]
fn blocks_from_their_configuration() {
    let shell = BlockConfig {
        format: "cpu {}".to_string(),
        command: BlockCommand::Shell { command: "top".to_string(), onclick_command: Some("htop".to_string()) },
        interval_secs: 5,
        color: 0xff0000,
        underline: false,
    };
    match shell.to_block() {
        StatusBlock::Shell(block) => {
            assert_eq!(block.format, "cpu {}");
            assert_eq!(block.command, "top");
            assert_eq!(block.onclick_command, Some("htop".to_string()));
            assert_eq!(block.interval(), 5);
            assert_eq!(block.color(), 0xff0000);
            assert!(block.should_refresh(0));
        }
        _ => panic!("not a shell block"),
    }
    let fixed = BlockConfig {
        format: "| ".to_string(),
        command: BlockCommand::Static("oxwm".to_string()),
        interval_secs: 1,
        color: 7,
        underline: true,
    };
    match fixed.to_block() {
        StatusBlock::Static(block) => {
            assert_eq!(block.text, "| oxwm");
            assert_eq!(block.interval(), u64::MAX);
        }
        _ => panic!("not a static block"),
    }
    let battery = BlockConfig {
        format: String::new(),
        command: BlockCommand::Battery {
            format_charging: "+{}".to_string(),
            format_discharging: "-{}".to_string(),
            format_full: "={}".to_string(),
            battery_name: None,
        },
        interval_secs: 30,
        color: 1,
        underline: false,
    };
    let block = battery.to_block();
    assert_eq!(block.interval(), 30);
    assert_eq!(block.color(), 1);
    match block {
        StatusBlock::Battery(battery) => {
            assert_eq!(battery.battery_path, "/sys/class/power_supply/BAT0");
            assert_eq!(battery.format_for("Charging"), "+{}");
            assert_eq!(battery.format_for("Full"), "={}");
            assert_eq!(battery.format_for("Discharging"), "-{}");
            assert_eq!(battery.format_for("Unknown"), "-{}");
        }
        _ => panic!("not a battery block"),
    }
    let ram = BlockConfig {
        format: "ram".to_string(),
        command: BlockCommand::Ram,
        interval_secs: 2,
        color: 3,
        underline: false,
    };
    assert!(matches!(ram.to_block(), StatusBlock::Ram(block) if block.pattern.is_empty()));
}

#[test]
fn blocks_on_their_own() {
    let battery = Battery::new("a", "b", "c", 9, 4, Some("BAT1".to_string()));
    assert_eq!(battery.battery_path, "/sys/class/power_supply/BAT1");
    assert_eq!(battery.interval(), 9);
    let button = ButtonBlock::new("menu", 5, "rofi");
    assert_eq!((button.text.as_str(), button.color(), button.command.as_str()), ("menu", 5, "rofi"));
    assert_eq!(button.interval(), u64::MAX);
    let fixed = StaticBlock::new("text", 6);
    assert_eq!((fixed.text.as_str(), fixed.color()), ("text", 6));
    let mut shell = ShellBlock::new("{}", "date", None, 2, 8);
    assert_eq!(shell.onclick_command, None);
    assert!(shell.should_refresh(0));
    shell.last_run_ms = Some(1000);
    assert!(!shell.should_refresh(2999));
    assert!(shell.should_refresh(3000));
    assert!(!shell.should_refresh(999));
}

#[test]
fn keys_and_modifiers_by_name() {
    assert_eq!(format_modifier(MOD4), "Super");
    assert_eq!(format_modifier(SHIFT), "Shift");
    assert_eq!(format_modifier(4), "Ctrl");
    assert_eq!(format_modifier(8), "Alt");
    assert_eq!(format_modifier(16), "Mod");
    assert_eq!(format_keysym(0x61), "a");
    assert_eq!(format_keysym(0x3f), "?");
    assert_eq!(format_keysym(0x7e), "~");
    assert_eq!(format_keysym(0x20), "space");
    assert_eq!(format_keysym(0xff0d), "Return");
    assert_eq!(format_keysym(0xff1b), "Escape");
    assert_eq!(format_keysym(0xffff), "?");
}

#[test]
fn the_built_in_configuration() {
    let config = Config::default();
    assert_eq!(config.border_width, 2);
    assert_eq!(config.border_focused, 0x6dade3);
    assert_eq!(config.terminal, "st");
    assert_eq!(config.modkey, MOD4);
    assert_eq!(config.tags, vec!["1", "2", "3", "4", "5", "6", "7", "8", "9"]);
    assert_eq!(config.count_tags(), 9);
    assert_eq!(config.keybindings.len(), 29);
    assert!(!config.gaps_enabled);
    assert!(config.smartgaps_enabled);
    assert_eq!(
        config.scheme_selected,
        ColorScheme { foreground: 0x0db9d7, background: 0x1a1b26, underline: 0xad8ee6 }
    );
    let quit = &config.keybindings[6];
    assert_eq!(quit.func, KeyAction::Quit);
    assert_eq!(quit.keys.len(), 1);
    assert_eq!(quit.keys[0].modifiers, vec![MOD4, SHIFT]);
    assert_eq!(quit.keys[0].keysym, 0x71);
    let view = &config.keybindings[15];
    assert_eq!(view.func, KeyAction::ViewTag);
    assert_eq!(view.keys[0].keysym, 0x35);
    assert!(matches!(view.arg, Arg::Int(4)));
    let moved = &config.keybindings[28];
    assert_eq!(moved.func, KeyAction::MoveToTag);
    assert_eq!(moved.keys[0].keysym, 0x39);
    assert_eq!(moved.keys[0].modifiers, vec![MOD4, SHIFT]);
    assert!(matches!(moved.arg, Arg::Int(8)));
    match &config.keybindings[1].arg {
        Arg::Array(command) => assert_eq!(command, &vec!["sh", "-c", "dmenu_run -l 10"]),
        _ => panic!("not a command"),
    }
    assert_eq!(config.status_blocks.len(), 1);
    let gaps = config.gaps(true);
    assert_eq!((gaps.inner_horizontal, gaps.outer_vertical), (0, 0));
}

#[test]
fn colors_as_written() {
    assert_eq!(parse_color("#ff0000"), Some(0xff0000));
    assert_eq!(parse_color("0x6dade3"), Some(0x6dade3));
    assert_eq!(parse_color("#6DADE3"), Some(0x6dade3));
    assert_eq!(parse_color("255"), Some(255));
    assert_eq!(parse_color("+255"), Some(255));
    assert_eq!(parse_color("#+ff"), Some(0xff));
    assert_eq!(parse_color("0000000000000012"), Some(12));
    assert_eq!(parse_color("#ffffffff"), Some(u32::MAX));
    assert_eq!(parse_color("4294967295"), Some(u32::MAX));
    assert_eq!(parse_color("4294967296"), None);
    assert_eq!(parse_color("#100000000"), None);
    assert_eq!(parse_color("#"), None);
    assert_eq!(parse_color("0x"), None);
    assert_eq!(parse_color(""), None);
    assert_eq!(parse_color("+"), None);
    assert_eq!(parse_color("ff0000"), None);
    assert_eq!(parse_color("#ff00gg"), None);
    assert_eq!(parse_color("-1"), None);
    assert_eq!(parse_color("0X10"), None);
    assert_eq!(parse_color("12 "), None);
}

#[test]
fn colors_agree_with_the_standard_parser() {
    for text in ["0", "7", "+7", "zz", "Zz", "10", "", "+", "++1", "-0", "4294967295", "99999999999", "1_0", "a"] {
        for radix in [2u32, 10, 16, 36] {
            assert_eq!(parse_number(text, 0, radix), u32::from_str_radix(text, radix).ok(), "{text} in {radix}");
        }
    }
}

fn press(modifiers: Vec<u16>, keysym: u32) -> KeyPress {
    KeyPress { modifiers, keysym }
}

#[test]
fn key_presses_in_the_overview() {
    assert_eq!(format_key_combo(&press(vec![MOD4], 0xff0d), MOD4), "Mod + Return");
    assert_eq!(format_key_combo(&press(vec![MOD4, SHIFT], 0x71), MOD4), "Mod + Shift + q");
    assert_eq!(format_key_combo(&press(vec![MOD4, 4], 0x71), 8), "Super + Ctrl + q");
    assert_eq!(format_key_combo(&press(vec![8], 0x20), MOD4), "Alt + space");
    assert_eq!(format_key_combo(&press(vec![16, SHIFT, 128], 0x61), MOD4), "Shift + a");
    assert_eq!(format_key_combo(&press(vec![], 0xff1b), MOD4), "Escape");
}

#[test]
fn actions_in_words() {
    let line = |func: KeyAction, arg: Arg| action_description(&KeyBinding::new(vec![], func, arg));
    assert_eq!(line(KeyAction::Quit, Arg::none()), "Quit Window Manager");
    assert_eq!(line(KeyAction::Restart, Arg::none()), "Restart Window Manager");
    assert_eq!(line(KeyAction::Spawn, Arg::Str("st".to_string())), "Launch: st");
    assert_eq!(
        line(KeyAction::Spawn, Arg::Array(vec!["sh".to_string(), "-c".to_string()])),
        "Launch: sh"
    );
    assert_eq!(line(KeyAction::Spawn, Arg::Array(vec![])), "Launch Program");
    assert_eq!(line(KeyAction::Spawn, Arg::Int(3)), "Launch Program");
    assert_eq!(line(KeyAction::ViewTag, Arg::Int(0)), "View Workspace 0");
    assert_eq!(line(KeyAction::ViewTag, Arg::Int(12)), "View Workspace 12");
    assert_eq!(line(KeyAction::ViewTag, Arg::Int(-3)), "View Workspace -3");
    assert_eq!(line(KeyAction::ViewTag, Arg::Int(i32::MIN)), "View Workspace -2147483648");
    assert_eq!(line(KeyAction::ViewTag, Arg::none()), "View Workspace");
    assert_eq!(line(KeyAction::ToggleView, Arg::Int(4)), "Toggle View Workspace 4");
    assert_eq!(line(KeyAction::MoveToTag, Arg::Int(4)), "Move Window to Workspace");
    assert_eq!(line(KeyAction::NoAction, Arg::none()), "No Action");
}

#[test]
fn numbers_with_a_sign() {
    assert_eq!(signed_text(0), "0");
    assert_eq!(signed_text(-1), "-1");
    assert_eq!(signed_text(i32::MAX), "2147483647");
}

#[test]
fn the_overview_takes_the_shortest_binding_of_each_chief_action() {
    let bindings = vec![
        KeyBinding::new(
            vec![press(vec![MOD4], 0x78), press(vec![], 0x71)],
            KeyAction::Quit,
            Arg::none(),
        ),
        KeyBinding::single_key(vec![MOD4], 0x32, KeyAction::ViewTag, Arg::Int(1)),
        KeyBinding::single_key(vec![MOD4, SHIFT], 0x71, KeyAction::Quit, Arg::none()),
        KeyBinding::single_key(vec![MOD4], 0x65, KeyAction::Quit, Arg::none()),
        KeyBinding::single_key(vec![MOD4], 0x31, KeyAction::ViewTag, Arg::Int(0)),
        KeyBinding::single_key(vec![MOD4], 0x67, KeyAction::ToggleGaps, Arg::none()),
        KeyBinding::single_key(vec![MOD4], 0xff0d, KeyAction::Spawn, Arg::Str("st".to_string())),
        KeyBinding::new(vec![], KeyAction::Restart, Arg::none()),
        KeyBinding::single_key(vec![MOD4], 0x72, KeyAction::Restart, Arg::none()),
    ];
    let lines = collect_keybindings(&bindings, MOD4);
    let expected = vec![
        ("Mod + Shift + q".to_string(), "Quit Window Manager".to_string()),
        ("Mod + Return".to_string(), "Launch: st".to_string()),
        ("Mod + 2".to_string(), "View Workspace 1".to_string()),
    ];
    assert_eq!(lines, expected);
    assert!(collect_keybindings(&[], MOD4).is_empty());
}
