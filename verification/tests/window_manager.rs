use oxwm::client::Client;
use oxwm::keyboard::handlers::KeyPressEvent;
use oxwm::keyboard::handlers::KeyboardMapping;
use oxwm::keyboard::handlers::KeychordState;
use oxwm::keyboard::keysyms::MOD4;
use oxwm::keyboard::keysyms::SHIFT;
use oxwm::layout::LayoutType;
use oxwm::monitor::ScreenInfo;
use oxwm::window_manager::events::Event;
use oxwm::window_manager::handlers::ClientMessage;
use oxwm::window_manager::handlers::OverlayState;
use oxwm::window_manager::handlers::PropertyChange;
use oxwm::window_manager::handlers::Target;
use oxwm::window_manager::lifecycle::NewWindow;
use oxwm::window_manager::Command;
use oxwm::window_manager::Configure;
use oxwm::window_manager::StackMode;
use oxwm::window_manager::WindowManager;
use oxwm::Config;
use oxwm::LayoutSymbolOverride;
use oxwm::WindowRule;

fn screen(x: i16, y: i16, width: u16, height: u16) -> ScreenInfo {
    ScreenInfo { x_org: x, y_org: y, width, height }
}

/// A manager on one screen of 1000 by 600 pixels, without bar and borders.
fn bare_manager() -> WindowManager {
    let mut config = Config::default();
    config.border_width = 0;
    WindowManager::new(config, &[screen(0, 0, 1000, 600)], 1000, 600, 0)
}

/// A manager on one screen with a bar of 20 pixels and borders of 2.
fn manager() -> WindowManager {
    WindowManager::new(Config::default(), &[screen(0, 0, 1000, 620)], 1000, 620, 20)
}

fn two_monitors() -> WindowManager {
    WindowManager::new(
        Config::default(),
        &[screen(1000, 0, 800, 600), screen(0, 0, 1000, 600)],
        1800,
        600,
        0,
    )
}

fn info(x: i32, y: i32, width: i32, height: i32) -> NewWindow {
    NewWindow {
        x,
        y,
        width,
        height,
        border_width: 1,
        transient_parent: None,
        class: String::new(),
        instance: String::new(),
        title: String::new(),
        size_hints: None,
        hints: None,
        is_dialog: false,
        wants_fullscreen: false,
        saved_tags: None,
    }
}

fn open(manager: &mut WindowManager, window: u32) -> Vec<Command> {
    let mut out = Vec::new();
    manager.manage_window(window, &info(10, 10, 300, 200), &mut out);
    out
}

fn client(manager: &WindowManager, window: u32) -> &Client {
    let index = manager.find(window).unwrap();
    &manager.clients[index]
}

fn geometry(manager: &WindowManager, window: u32) -> (i32, i32, i32, i32) {
    let client = client(manager, window);
    (client.x_position, client.y_position, client.width, client.height)
}

fn tiling_order(manager: &WindowManager, monitor: usize) -> Vec<u32> {
    manager.monitors[monitor].clients.items.clone()
}

fn focus_order(manager: &WindowManager, monitor: usize) -> Vec<u32> {
    manager.monitors[monitor].stack.items.clone()
}

fn count(list: &[u32], window: u32) -> usize {
    list.iter().filter(|&&other| other == window).count()
}

/// Every managed window is once in both orderings of its monitor and in no
/// ordering of another, and every selected client is in its focus order.
fn assert_consistent(manager: &WindowManager) {
    for client in &manager.clients {
        for (index, monitor) in manager.monitors.iter().enumerate() {
            let wanted = if index == client.monitor_index { 1 } else { 0 };
            assert_eq!(count(&monitor.clients.items, client.window), wanted);
            assert_eq!(count(&monitor.stack.items, client.window), wanted);
        }
    }
    for monitor in &manager.monitors {
        for &window in monitor.clients.items.iter().chain(monitor.stack.items.iter()) {
            assert!(manager.find(window).is_some());
        }
        if let Some(selected) = monitor.selected_client {
            assert_eq!(count(&monitor.stack.items, selected), 1);
            assert!(manager.is_visible(selected));
        }
        assert_ne!(monitor.tagset[monitor.selected_tags_index], 0);
    }
}

fn configure(window: u32) -> Configure {
    Configure {
        window,
        x: None,
        y: None,
        width: None,
        height: None,
        border_width: None,
        sibling: None,
        stack_mode: None,
    }
}

fn no_overlay() -> OverlayState {
    OverlayState { error_visible: false, keybind_visible: false, keybind_suppress: false }
}

/// A keymap in which key code `8 + n` sends the symbol `n`.
fn plain_mapping() -> KeyboardMapping {
    KeyboardMapping { syms: (0..248).collect(), keysyms_per_keycode: 1, min_keycode: 8 }
}

fn press(manager: &mut WindowManager, keysym: u32, state: u16) -> (Option<bool>, Vec<Command>) {
    let mut out = Vec::new();
    let event = Event::KeyPress {
        target: Target::Root,
        key: KeyPressEvent { detail: (keysym + 8) as u8, state },
        overlay: no_overlay(),
    };
    let answer = manager.handle_event(event, &mut out);
    (answer, out)
}

#[test]
fn new_manager_has_a_monitor_and_no_window() {
    let manager = manager();
    assert_eq!(manager.monitors.len(), 1);
    assert!(manager.clients.is_empty());
    assert_eq!(manager.selected_monitor, 0);
    assert_eq!(manager.layout, LayoutType::Tiling);
    let monitor = &manager.monitors[0];
    assert_eq!((monitor.screen_x, monitor.screen_y, monitor.screen_width, monitor.screen_height), (0, 0, 1000, 620));
    assert_eq!(
        (monitor.window_area_x, monitor.window_area_y, monitor.window_area_width, monitor.window_area_height),
        (0, 20, 1000, 600)
    );
    assert_eq!(monitor.tagset, [1, 1]);
    assert_eq!(monitor.master_factor, 55);
    assert_eq!(monitor.num_master, 1);
    assert_eq!(monitor.selected_client, None);
    assert_consistent(&manager);
}

#[test]
fn three_windows_are_tiled() {
    let mut manager = bare_manager();
    for window in [1, 2, 3] {
        open(&mut manager, window);
    }
    assert_eq!(geometry(&manager, 1), (0, 0, 550, 600));
    assert_eq!(geometry(&manager, 2), (550, 0, 450, 300));
    assert_eq!(geometry(&manager, 3), (550, 300, 450, 300));
    assert_eq!(tiling_order(&manager, 0), vec![1, 2, 3]);
    assert_eq!(focus_order(&manager, 0), vec![3, 2, 1]);
    assert_eq!(manager.monitors[0].selected_client, Some(3));
    assert_consistent(&manager);
}

#[test]
fn tiled_windows_make_room_for_bar_and_borders() {
    let mut manager = manager();
    for window in [1, 2, 3] {
        open(&mut manager, window);
    }
    assert_eq!(geometry(&manager, 1), (0, 20, 546, 596));
    assert_eq!(geometry(&manager, 2), (550, 20, 446, 296));
    assert_eq!(geometry(&manager, 3), (550, 320, 446, 296));
    assert_eq!(client(&manager, 2).border_width, 2);
}

#[test]
fn managing_a_window_issues_its_commands_in_order() {
    let mut manager = bare_manager();
    let out = open(&mut manager, 5);
    let expected_start = vec![
        Command::Configure(Configure { border_width: Some(0), ..configure(5) }),
        Command::SetBorderColor { window: 5, color: 0xbbbbbb },
        Command::ConfigureNotify { window: 5, x: 10, y: 10, width: 300, height: 200, border_width: 0 },
        Command::SelectClientEvents { window: 5 },
        Command::Configure(Configure {
            x: Some(2010),
            y: Some(10),
            width: Some(300),
            height: Some(200),
            ..configure(5)
        }),
        Command::SetWmState { window: 5, state: 1 },
        Command::SaveClientTag { window: 5, tags: 1 },
        // the arrangement: the window is shown where it is, then tiled, then shown again
        Command::Configure(Configure { x: Some(10), y: Some(10), ..configure(5) }),
        Command::Configure(Configure {
            x: Some(0),
            y: Some(0),
            width: Some(1000),
            height: Some(600),
            border_width: Some(0),
            ..configure(5)
        }),
        Command::Configure(Configure { x: Some(0), y: Some(0), ..configure(5) }),
        Command::ShowTabBar { monitor: 0, shown: false },
        Command::MapWindow { window: 5 },
        Command::SetBorderColor { window: 5, color: 0x6dade3 },
        Command::UngrabButtons { window: 5 },
        Command::SetInputFocus { window: 5 },
        Command::UpdateBar,
    ];
    assert_eq!(out, expected_start);
}

#[test]
fn a_managed_window_is_not_managed_again() {
    let mut manager = bare_manager();
    open(&mut manager, 1);
    let again = open(&mut manager, 1);
    assert!(again.is_empty());
    assert_eq!(manager.clients.len(), 1);
    assert_consistent(&manager);
}

#[test]
fn lists_stay_consistent() {
    let mut manager = two_monitors();
    let mut out = Vec::new();
    for window in 1..=6 {
        open(&mut manager, window);
        assert_consistent(&manager);
    }
    manager.focus(Some(2), &mut out);
    assert_consistent(&manager);
    manager.move_stack(1, &mut out);
    assert_consistent(&manager);
    manager.move_to_tag(3, &mut out);
    assert_consistent(&manager);
    manager.view_tag(3, &mut out);
    assert_consistent(&manager);
    manager.send_window_to_adjacent_monitor(1, &mut out);
    assert_consistent(&manager);
    manager.focus_monitor(1, &mut out);
    assert_consistent(&manager);
    manager.toggle_floating(&mut out);
    assert_consistent(&manager);
    manager.remove_window(4, &mut out);
    assert_consistent(&manager);
    manager.remove_window(4, &mut out);
    assert_consistent(&manager);
    manager.view_tag(0, &mut out);
    manager.cycle_focus(-1, &mut out);
    manager.focusstack(1, &mut out);
    manager.fullscreen(&mut out);
    assert_consistent(&manager);
    manager.fullscreen(&mut out);
    assert_consistent(&manager);
    for window in 1..=6 {
        manager.remove_window(window, &mut out);
        assert_consistent(&manager);
    }
    assert!(manager.clients.is_empty());
    assert!(manager.monitors.iter().all(|monitor| monitor.clients.items.is_empty()
        && monitor.stack.items.is_empty()
        && monitor.selected_client.is_none()));
}

#[test]
fn attach_and_detach_keep_each_window_at_most_once() {
    let mut manager = bare_manager();
    for window in [1, 2, 3] {
        open(&mut manager, window);
    }
    let steps: [(u8, u32); 12] = [
        (0, 2), (0, 2), (1, 3), (0, 3), (2, 1), (2, 1), (3, 2), (3, 2), (1, 1), (0, 1), (2, 2), (0, 9),
    ];
    for (step, window) in steps {
        match step {
            0 => manager.attach(window, 0),
            1 => manager.detach(window),
            2 => manager.attach_stack(window, 0),
            _ => manager.detach_stack(window),
        }
        for managed in [1, 2, 3, 9] {
            assert!(count(&tiling_order(&manager, 0), managed) <= 1);
            assert!(count(&focus_order(&manager, 0), managed) <= 1);
        }
        match step {
            0 if window != 9 => assert_eq!(tiling_order(&manager, 0)[0], window),
            1 => assert_eq!(count(&tiling_order(&manager, 0), window), 0),
            2 => assert_eq!(focus_order(&manager, 0)[0], window),
            3 => assert_eq!(count(&focus_order(&manager, 0), window), 0),
            _ => {}
        }
    }
    assert_eq!(count(&tiling_order(&manager, 0), 9), 0);
}

#[test]
fn detach_of_an_absent_window_changes_nothing() {
    let mut manager = bare_manager();
    for window in [1, 2, 3] {
        open(&mut manager, window);
    }
    manager.detach(2);
    manager.detach_stack(2);
    let tiling = tiling_order(&manager, 0);
    let focus = focus_order(&manager, 0);
    let selected = manager.monitors[0].selected_client;
    assert_eq!(tiling, vec![1, 3]);
    assert_eq!(focus, vec![3, 1]);
    manager.detach(2);
    manager.detach_stack(2);
    manager.detach(77);
    manager.detach_stack(77);
    assert_eq!(tiling_order(&manager, 0), tiling);
    assert_eq!(focus_order(&manager, 0), focus);
    assert_eq!(manager.monitors[0].selected_client, selected);
    assert_eq!(manager.clients.len(), 3);
}

#[test]
fn detaching_the_selected_client_selects_the_next_visible_one() {
    let mut manager = bare_manager();
    for window in [1, 2, 3] {
        open(&mut manager, window);
    }
    let index = manager.find(2).unwrap();
    manager.clients[index].tags = 2;
    assert_eq!(focus_order(&manager, 0), vec![3, 2, 1]);
    manager.detach_stack(3);
    // window 2 is not in view: window 1 is the next visible one
    assert_eq!(manager.monitors[0].selected_client, Some(1));
    manager.detach_stack(1);
    assert_eq!(manager.monitors[0].selected_client, None);
}

#[test]
fn attach_aside_groups_windows_by_tag() {
    let mut manager = bare_manager();
    for window in [1, 2, 3, 4] {
        open(&mut manager, window);
    }
    for (window, tags) in [(1, 1), (2, 2), (3, 1), (4, 2)] {
        let index = manager.find(window).unwrap();
        manager.clients[index].tags = tags;
    }
    assert_eq!(tiling_order(&manager, 0), vec![1, 2, 3, 4]);
    // window 2 goes behind the last window that shares its tag
    manager.attach_aside(2, 0);
    assert_eq!(tiling_order(&manager, 0), vec![1, 3, 4, 2]);
    manager.attach_aside(1, 0);
    assert_eq!(tiling_order(&manager, 0), vec![3, 1, 4, 2]);
    // without a window to group with, the window goes first
    let index = manager.find(4).unwrap();
    manager.clients[index].tags = 4;
    manager.attach_aside(4, 0);
    assert_eq!(tiling_order(&manager, 0), vec![4, 3, 1, 2]);
}

#[test]
fn visibility_follows_the_tags_in_view() {
    let mut manager = bare_manager();
    let mut out = Vec::new();
    for window in [1, 2] {
        open(&mut manager, window);
    }
    let index = manager.find(2).unwrap();
    manager.clients[index].tags = 0b110;
    for tag in 0..9 {
        manager.view_tag(tag, &mut out);
        let view = manager.monitors[0].tagset[manager.monitors[0].selected_tags_index];
        assert_eq!(view, 1 << tag);
        for window in [1, 2] {
            let tags = client(&manager, window).tags;
            assert_eq!(manager.is_visible(window), tags & view != 0);
            assert_eq!(manager.is_window_visible(window), tags & view != 0);
        }
    }
    assert!(!manager.is_visible(99));
}

#[test]
fn the_view_is_never_empty() {
    let mut manager = bare_manager();
    let mut out = Vec::new();
    manager.toggleview(0, &mut out);
    assert_eq!(manager.monitors[0].tagset[0], 1);
    assert!(out.is_empty());
    manager.toggleview(2, &mut out);
    assert_eq!(manager.monitors[0].tagset[0], 0b101);
    manager.toggleview(0, &mut out);
    assert_eq!(manager.monitors[0].tagset[0], 0b100);
    manager.toggleview(2, &mut out);
    assert_eq!(manager.monitors[0].tagset[0], 0b100);
    // a tag that is not configured is not toggled
    manager.toggleview(9, &mut out);
    manager.toggleview(40, &mut out);
    assert_eq!(manager.monitors[0].tagset[0], 0b100);
}

#[test]
fn viewing_a_tag_turns_to_the_other_slot() {
    let mut manager = bare_manager();
    let mut out = Vec::new();
    manager.view_tag(2, &mut out);
    assert_eq!(manager.monitors[0].selected_tags_index, 1);
    assert_eq!(manager.monitors[0].tagset, [1, 4]);
    assert_eq!(out[0], Command::SaveSelectedTag { desktop: 2 });
    // the tag in view again: nothing happens without back and forth
    out.clear();
    manager.view_tag(2, &mut out);
    assert!(out.is_empty());
    assert_eq!(manager.monitors[0].tagset, [1, 4]);
    manager.view_tag(5, &mut out);
    assert_eq!(manager.monitors[0].selected_tags_index, 0);
    assert_eq!(manager.monitors[0].tagset, [32, 4]);
    // tags beyond the configured ones are not viewed
    manager.view_tag(9, &mut out);
    assert_eq!(manager.monitors[0].tagset, [32, 4]);
}

#[test]
fn viewing_the_tag_in_view_goes_back_when_configured() {
    let mut manager = bare_manager();
    manager.config.tag_back_and_forth = true;
    let mut out = Vec::new();
    manager.view_tag(2, &mut out);
    assert_eq!(manager.monitors[0].tagset, [1, 4]);
    manager.view_tag(2, &mut out);
    assert_eq!(manager.monitors[0].tagset, [4, 1]);
    assert_eq!(manager.monitors[0].selected_tags_index, 1);
}

#[test]
fn viewing_another_tag_hides_the_windows() {
    let mut manager = bare_manager();
    open(&mut manager, 1);
    let mut out = Vec::new();
    manager.view_tag(1, &mut out);
    assert_eq!(manager.monitors[0].selected_client, None);
    assert!(out.contains(&Command::FocusRoot));
    // the window is moved off the screen, by twice its width
    assert!(out.contains(&Command::Configure(Configure { x: Some(-2000), y: Some(0), ..configure(1) })));
    assert_eq!(out.last(), Some(&Command::UpdateBar));
    out.clear();
    manager.view_tag(0, &mut out);
    assert_eq!(manager.monitors[0].selected_client, Some(1));
    assert!(out.contains(&Command::SetInputFocus { window: 1 }));
}

#[test]
fn moving_to_a_tag_and_toggling_tags() {
    let mut manager = bare_manager();
    for window in [1, 2] {
        open(&mut manager, window);
    }
    let mut out = Vec::new();
    manager.move_to_tag(3, &mut out);
    assert_eq!(client(&manager, 2).tags, 8);
    assert_eq!(out[0], Command::SaveClientTag { window: 2, tags: 8 });
    // the focus went on to the window that is left in view
    assert_eq!(manager.monitors[0].selected_client, Some(1));
    assert_eq!(geometry(&manager, 1), (0, 0, 1000, 600));
    out.clear();
    manager.toggletag(4, &mut out);
    assert_eq!(client(&manager, 1).tags, 0b10001);
    manager.toggletag(0, &mut out);
    assert_eq!(client(&manager, 1).tags, 0b10000);
    // the last tag of a window is not taken from it
    manager.view_tag(4, &mut out);
    out.clear();
    manager.toggletag(4, &mut out);
    assert_eq!(client(&manager, 1).tags, 0b10000);
    assert!(out.is_empty());
}

#[test]
fn focus_moves_a_window_to_the_head_of_the_focus_order() {
    let mut manager = bare_manager();
    for window in [1, 2, 3] {
        open(&mut manager, window);
    }
    let index = manager.find(1).unwrap();
    manager.clients[index].is_urgent = true;
    let mut out = Vec::new();
    manager.focus(Some(1), &mut out);
    assert_eq!(focus_order(&manager, 0), vec![1, 3, 2]);
    assert_eq!(manager.monitors[0].selected_client, Some(1));
    assert_eq!(manager.previous_focused, Some(1));
    assert!(!client(&manager, 1).is_urgent);
    assert_eq!(
        out,
        vec![
            Command::SetBorderColor { window: 3, color: 0xbbbbbb },
            Command::GrabButtons { window: 3 },
            Command::SetUrgencyHint { window: 1, urgent: false },
            Command::SetBorderColor { window: 1, color: 0x6dade3 },
            Command::UngrabButtons { window: 1 },
            Command::SetInputFocus { window: 1 },
        ]
    );
}

#[test]
fn focus_falls_back_on_the_first_visible_window() {
    let mut manager = bare_manager();
    for window in [1, 2, 3] {
        open(&mut manager, window);
    }
    let index = manager.find(3).unwrap();
    manager.clients[index].tags = 2;
    let mut out = Vec::new();
    // window 3 is not in view, window 99 is not managed
    manager.focus(Some(3), &mut out);
    assert_eq!(manager.monitors[0].selected_client, Some(2));
    manager.focus(Some(99), &mut out);
    assert_eq!(manager.monitors[0].selected_client, Some(2));
    manager.focus(None, &mut out);
    assert_eq!(manager.monitors[0].selected_client, Some(2));
    assert_eq!(focus_order(&manager, 0), vec![2, 3, 1]);
}

#[test]
fn focus_without_a_visible_window_goes_to_the_root() {
    let mut manager = bare_manager();
    let mut out = Vec::new();
    manager.focus(None, &mut out);
    assert_eq!(out, vec![Command::FocusRoot]);
    assert_eq!(manager.monitors[0].selected_client, None);
}

#[test]
fn floating_windows_are_stacked_above_tiled_ones() {
    let mut manager = bare_manager();
    for window in [1, 2, 3, 4] {
        open(&mut manager, window);
    }
    for window in [1, 3] {
        let index = manager.find(window).unwrap();
        manager.clients[index].is_floating = true;
    }
    let mut out = Vec::new();
    manager.focus(Some(3), &mut out);
    assert_eq!(focus_order(&manager, 0), vec![3, 4, 2, 1]);
    assert_eq!(manager.windows_to_restack(), vec![3, 1, 4, 2]);
    out.clear();
    manager.restack(&mut out);
    assert_eq!(
        out,
        vec![
            Command::Configure(Configure { stack_mode: Some(StackMode::Above), ..configure(3) }),
            Command::Configure(Configure {
                sibling: Some(3),
                stack_mode: Some(StackMode::Below),
                ..configure(1)
            }),
            Command::Configure(Configure {
                sibling: Some(1),
                stack_mode: Some(StackMode::Below),
                ..configure(4)
            }),
            Command::Configure(Configure {
                sibling: Some(4),
                stack_mode: Some(StackMode::Below),
                ..configure(2)
            }),
        ]
    );
    // a tiled selection does not go first
    manager.focus(Some(2), &mut out);
    assert_eq!(manager.windows_to_restack(), vec![3, 1, 2, 4]);
}

#[test]
fn focus_steps_through_the_tiled_windows() {
    let mut manager = bare_manager();
    for window in [1, 2, 3] {
        open(&mut manager, window);
    }
    let mut out = Vec::new();
    manager.focusstack(1, &mut out);
    assert_eq!(manager.monitors[0].selected_client, Some(1));
    manager.focusstack(1, &mut out);
    assert_eq!(manager.monitors[0].selected_client, Some(2));
    manager.focusstack(-1, &mut out);
    assert_eq!(manager.monitors[0].selected_client, Some(1));
    manager.focusstack(-1, &mut out);
    assert_eq!(manager.monitors[0].selected_client, Some(3));
    assert_eq!(out.last(), Some(&Command::UpdateTabBars));
    manager.cycle_focus(1, &mut out);
    assert_eq!(manager.monitors[0].selected_client, Some(1));
    manager.cycle_focus(-1, &mut out);
    assert_eq!(manager.monitors[0].selected_client, Some(3));
}

#[test]
fn move_stack_exchanges_neighbours() {
    let mut manager = bare_manager();
    for window in [1, 2, 3] {
        open(&mut manager, window);
    }
    let mut out = Vec::new();
    // window 3 is selected and last: forward it goes round to the first place
    manager.move_stack(1, &mut out);
    assert_eq!(tiling_order(&manager, 0), vec![3, 2, 1]);
    assert_eq!(geometry(&manager, 3), (0, 0, 550, 600));
    manager.move_stack(1, &mut out);
    assert_eq!(tiling_order(&manager, 0), vec![2, 3, 1]);
    manager.move_stack(-1, &mut out);
    assert_eq!(tiling_order(&manager, 0), vec![3, 2, 1]);
    manager.move_stack(-1, &mut out);
    assert_eq!(tiling_order(&manager, 0), vec![1, 2, 3]);
    assert_eq!(geometry(&manager, 1), (0, 0, 550, 600));
}

#[test]
fn move_stack_of_a_lone_window_does_nothing() {
    let mut manager = bare_manager();
    open(&mut manager, 1);
    let mut out = Vec::new();
    manager.move_stack(1, &mut out);
    manager.move_stack(-1, &mut out);
    assert!(out.is_empty());
    assert_eq!(tiling_order(&manager, 0), vec![1]);
}

#[test]
fn fullscreen_round_trip_of_a_client() {
    let mut client = Client::new(1, 0, 1);
    client.x_position = 40;
    client.y_position = 60;
    client.width = 320;
    client.height = 240;
    client.border_width = 2;
    client.is_floating = true;
    let screen = oxwm::client::Rect { x: 0, y: 0, width: 1000, height: 600 };
    client.enter_fullscreen(&screen);
    assert!(client.is_fullscreen);
    assert!(client.is_floating);
    assert_eq!((client.x_position, client.y_position, client.width, client.height), (0, 0, 1000, 600));
    assert_eq!(client.border_width, 0);
    client.exit_fullscreen();
    assert!(!client.is_fullscreen);
    assert!(client.is_floating);
    assert_eq!((client.x_position, client.y_position, client.width, client.height), (40, 60, 320, 240));
    assert_eq!(client.border_width, 2);
    // a tiled client comes back tiled
    client.is_floating = false;
    client.enter_fullscreen(&screen);
    assert!(client.is_floating);
    client.exit_fullscreen();
    assert!(!client.is_floating);
}

#[test]
fn fullscreen_round_trip_of_a_floating_window() {
    let mut manager = manager();
    let mut out = Vec::new();
    let mut floating = info(40, 60, 320, 240);
    floating.is_dialog = true;
    manager.manage_window(1, &floating, &mut out);
    assert!(client(&manager, 1).is_floating);
    let before = (geometry(&manager, 1), client(&manager, 1).border_width);
    assert_eq!(before, ((40, 60, 320, 240), 2));
    out.clear();
    manager.set_window_fullscreen(1, true, &mut out);
    assert!(client(&manager, 1).is_fullscreen);
    assert_eq!(geometry(&manager, 1), (0, 0, 1000, 620));
    assert_eq!(client(&manager, 1).border_width, 0);
    assert_eq!(
        out,
        vec![
            Command::SetFullscreenState { window: 1, fullscreen: true },
            Command::Configure(Configure {
                x: Some(0),
                y: Some(0),
                width: Some(1000),
                height: Some(620),
                border_width: Some(0),
                stack_mode: Some(StackMode::Above),
                ..configure(1)
            }),
        ]
    );
    // asking again changes nothing
    out.clear();
    manager.set_window_fullscreen(1, true, &mut out);
    assert!(out.is_empty());
    manager.set_window_fullscreen(1, false, &mut out);
    assert!(!client(&manager, 1).is_fullscreen);
    assert!(client(&manager, 1).is_floating);
    assert_eq!((geometry(&manager, 1), client(&manager, 1).border_width), before);
    assert_eq!(out[0], Command::SetFullscreenState { window: 1, fullscreen: false });
}

#[test]
fn toggling_floating_takes_a_window_out_of_the_layout() {
    let mut manager = bare_manager();
    for window in [1, 2] {
        open(&mut manager, window);
    }
    let mut out = Vec::new();
    manager.toggle_floating(&mut out);
    assert!(client(&manager, 2).is_floating);
    assert_eq!(geometry(&manager, 1), (0, 0, 1000, 600));
    assert_eq!(
        out[0],
        Command::Configure(Configure {
            x: Some(550),
            y: Some(0),
            width: Some(450),
            height: Some(600),
            stack_mode: Some(StackMode::Above),
            ..configure(2)
        })
    );
    manager.toggle_floating(&mut out);
    assert!(!client(&manager, 2).is_floating);
    assert_eq!(geometry(&manager, 2), (550, 0, 450, 600));
}

#[test]
fn removing_the_focused_window_refocuses() {
    let mut manager = bare_manager();
    for window in [1, 2, 3] {
        open(&mut manager, window);
    }
    let mut out = Vec::new();
    manager.remove_window(3, &mut out);
    assert!(manager.find(3).is_none());
    assert_eq!(manager.monitors[0].selected_client, Some(2));
    assert_eq!(tiling_order(&manager, 0), vec![1, 2]);
    assert_eq!(geometry(&manager, 2), (550, 0, 450, 600));
    assert!(out.contains(&Command::SetInputFocus { window: 2 }));
    assert_eq!(out.last(), Some(&Command::UpdateBar));
    out.clear();
    manager.remove_window(1, &mut out);
    assert_eq!(manager.monitors[0].selected_client, Some(2));
    assert!(!out.contains(&Command::SetInputFocus { window: 2 }));
    manager.remove_window(2, &mut out);
    assert_eq!(manager.monitors[0].selected_client, None);
    assert!(out.contains(&Command::FocusRoot));
}

#[test]
fn rules_set_tags_floating_and_monitor() {
    let mut manager = two_monitors();
    manager.config.window_rules = vec![
        WindowRule {
            class: Some("Gimp".to_string()),
            instance: None,
            title: None,
            tags: Some(4),
            focus: None,
            is_floating: Some(true),
            monitor: None,
        },
        WindowRule {
            class: None,
            instance: None,
            title: Some("toolbox".to_string()),
            tags: None,
            focus: None,
            is_floating: None,
            monitor: Some(1),
        },
        WindowRule {
            class: Some("Firefox".to_string()),
            instance: None,
            title: None,
            tags: Some(2),
            focus: None,
            is_floating: None,
            monitor: Some(7),
        },
    ];
    let mut out = Vec::new();
    let mut gimp = info(10, 10, 300, 200);
    gimp.class = "Gimp-2.10".to_string();
    gimp.title = "the toolbox".to_string();
    manager.manage_window(1, &gimp, &mut out);
    assert_eq!(client(&manager, 1).tags, 4);
    assert!(client(&manager, 1).is_floating);
    assert_eq!(client(&manager, 1).monitor_index, 1);
    assert_eq!(client(&manager, 1).name, "the toolbox");
    let mut browser = info(10, 10, 300, 200);
    browser.class = "Firefox".to_string();
    manager.manage_window(2, &browser, &mut out);
    assert_eq!(client(&manager, 2).tags, 2);
    assert!(!client(&manager, 2).is_floating);
    // a monitor that does not exist is not taken
    assert_eq!(client(&manager, 2).monitor_index, 0);
    assert_consistent(&manager);
}

#[test]
fn rule_patterns_match_parts_of_the_text() {
    let rule = WindowRule {
        class: Some("fox".to_string()),
        instance: Some("Nav".to_string()),
        title: None,
        tags: None,
        focus: None,
        is_floating: None,
        monitor: None,
    };
    assert!(rule.matches("Firefox", "Navigator", "anything"));
    assert!(!rule.matches("Firefox", "navigator", "anything"));
    assert!(!rule.matches("Chromium", "Navigator", ""));
    let any = WindowRule {
        class: None,
        instance: None,
        title: None,
        tags: None,
        focus: None,
        is_floating: None,
        monitor: None,
    };
    assert!(any.matches("", "", ""));
}

#[test]
fn transient_windows_follow_their_parent() {
    let mut manager = two_monitors();
    let mut out = Vec::new();
    open(&mut manager, 1);
    manager.send_window_to_adjacent_monitor(1, &mut out);
    assert_eq!(client(&manager, 1).monitor_index, 1);
    let index = manager.find(1).unwrap();
    manager.clients[index].tags = 0b1000;
    let mut dialog = info(10, 10, 100, 80);
    dialog.transient_parent = Some(1);
    manager.manage_window(2, &dialog, &mut out);
    assert_eq!(client(&manager, 2).monitor_index, 1);
    assert_eq!(client(&manager, 2).tags, 0b1000);
    assert!(client(&manager, 2).is_floating);
    // a parent that is not managed gives nothing
    let mut orphan = info(10, 10, 100, 80);
    orphan.transient_parent = Some(55);
    manager.manage_window(3, &orphan, &mut out);
    assert_eq!(client(&manager, 3).monitor_index, manager.selected_monitor);
    assert!(client(&manager, 3).is_floating);
    assert_consistent(&manager);
}

#[test]
fn a_new_window_out_of_view_is_not_selected() {
    let mut manager = two_monitors();
    manager.config.window_rules = vec![WindowRule {
        class: Some("Mail".to_string()),
        instance: None,
        title: None,
        tags: Some(0b100),
        focus: None,
        is_floating: None,
        monitor: Some(1),
    }];
    let mut out = Vec::new();
    open(&mut manager, 1);
    let mut mail = info(0, 0, 100, 100);
    mail.class = "Mail".to_string();
    manager.manage_window(2, &mail, &mut out);
    assert_eq!(client(&manager, 2).monitor_index, 1);
    assert!(!manager.is_visible(2));
    assert_eq!(manager.monitors[1].selected_client, None);
    assert_eq!(manager.monitors[0].selected_client, Some(1));
    assert_eq!(focus_order(&manager, 1), vec![2]);
    assert_consistent(&manager);
}

#[test]
fn persisted_tags_are_taken_when_they_are_configured_tags() {
    let mut manager = bare_manager();
    let mut out = Vec::new();
    let mut saved = info(0, 0, 100, 100);
    saved.saved_tags = Some(0b100);
    manager.manage_window(1, &saved, &mut out);
    assert_eq!(client(&manager, 1).tags, 0b100);
    saved.saved_tags = Some(1 << 9);
    manager.manage_window(2, &saved, &mut out);
    assert_eq!(client(&manager, 2).tags, 1);
    saved.saved_tags = Some(0);
    manager.manage_window(3, &saved, &mut out);
    assert_eq!(client(&manager, 3).tags, 1);
    assert_eq!(manager.get_saved_tag(Some(0b11)), 0b11);
    assert_eq!(manager.get_saved_tag(None), 1);
}

#[test]
fn new_windows_take_hints() {
    let mut manager = bare_manager();
    let mut out = Vec::new();
    let mut hinted = info(0, 0, 100, 100);
    let mut size = vec![0u32; 18];
    size[0] = 16 | 32;
    size[5] = 300;
    size[6] = 200;
    size[7] = 300;
    size[8] = 200;
    hinted.size_hints = Some(size);
    hinted.hints = Some(vec![256 | 1, 0]);
    manager.manage_window(1, &hinted, &mut out);
    let client = client(&manager, 1);
    assert!(client.hints_valid);
    assert!(client.is_fixed);
    assert!(client.is_floating);
    assert!(client.never_focus);
    assert_eq!(client.hints.min_width, 300);
    // the window was urgent, and lost that when it took the focus
    assert!(!client.is_urgent);
    assert!(out.contains(&Command::SetUrgencyHint { window: 1, urgent: false }));
    let mut broken = info(0, 0, 100, 100);
    broken.size_hints = Some(vec![16, 1, 2]);
    manager.manage_window(2, &broken, &mut out);
    assert!(!self::client(&manager, 2).hints_valid);
}

#[test]
fn new_windows_are_kept_inside_the_window_area() {
    let mut manager = manager();
    let mut out = Vec::new();
    let mut floating = info(900, 500, 300, 200);
    floating.is_dialog = true;
    manager.manage_window(1, &floating, &mut out);
    // the window with its border of 2 ends at the edges of the area
    assert_eq!(geometry(&manager, 1), (1000 - 304, 620 - 204, 300, 200));
    let mut high = info(-50, 0, 300, 200);
    high.is_dialog = true;
    manager.manage_window(2, &high, &mut out);
    assert_eq!(geometry(&manager, 2), (0, 20, 300, 200));
    assert_eq!(client(&manager, 2).old_x_position, -50);
}

#[test]
fn monitors_by_point_and_rectangle() {
    let manager = two_monitors();
    // the monitors are in order from left to right
    assert_eq!(manager.monitors[0].screen_x, 0);
    assert_eq!(manager.monitors[1].screen_x, 1000);
    assert_eq!(manager.monitors[1].monitor_number, 1);
    assert_eq!(manager.get_monitor_at_point(0, 0), Some(0));
    assert_eq!(manager.get_monitor_at_point(999, 599), Some(0));
    assert_eq!(manager.get_monitor_at_point(1000, 0), Some(1));
    assert_eq!(manager.get_monitor_at_point(1800, 0), None);
    assert_eq!(manager.get_monitor_at_point(5, 600), None);
    assert_eq!(manager.get_monitor_for_rect(900, 0, 150, 100), 0);
    assert_eq!(manager.get_monitor_for_rect(900, 0, 250, 100), 1);
    assert_eq!(manager.get_monitor_for_rect(950, 0, 100, 100), 0);
    assert_eq!(manager.get_monitor_for_rect(5000, 5000, 10, 10), 0);
    assert_eq!(manager.get_adjacent_monitor(1), Some(1));
    assert_eq!(manager.get_adjacent_monitor(-1), Some(1));
    assert_eq!(bare_manager().get_adjacent_monitor(1), None);
}

#[test]
fn windows_move_between_monitors() {
    let mut manager = two_monitors();
    let mut out = Vec::new();
    for window in [1, 2] {
        open(&mut manager, window);
    }
    manager.monitors[1].tagset = [0b1000, 1];
    out.clear();
    manager.send_window_to_adjacent_monitor(1, &mut out);
    assert_eq!(client(&manager, 2).monitor_index, 1);
    assert_eq!(client(&manager, 2).tags, 0b1000);
    assert_eq!(tiling_order(&manager, 0), vec![1]);
    assert_eq!(tiling_order(&manager, 1), vec![2]);
    assert_eq!(focus_order(&manager, 1), vec![2]);
    assert_eq!(manager.selected_monitor, 0);
    assert_eq!(manager.monitors[0].selected_client, Some(1));
    assert_eq!(geometry(&manager, 1), (0, 0, 996, 596));
    assert_eq!(geometry(&manager, 2), (1000, 0, 796, 596));
    assert_eq!(out[0], Command::SetBorderColor { window: 2, color: 0xbbbbbb });
    manager.focus_monitor(1, &mut out);
    assert_eq!(manager.selected_monitor, 1);
    assert_eq!(manager.monitors[1].selected_client, Some(2));
    manager.focus_monitor(1, &mut out);
    assert_eq!(manager.selected_monitor, 0);
    // a window is not moved to the monitor it is on
    out.clear();
    manager.move_window_to_monitor(1, 0, &mut out);
    manager.move_window_to_monitor(1, 5, &mut out);
    manager.move_window_to_monitor(9, 1, &mut out);
    assert!(out.is_empty());
}

#[test]
fn master_area_parameters() {
    let mut manager = bare_manager();
    for window in [1, 2, 3] {
        open(&mut manager, window);
    }
    let mut out = Vec::new();
    manager.set_master_factor(5, &mut out);
    assert_eq!(manager.monitors[0].master_factor, 60);
    assert_eq!(geometry(&manager, 1), (0, 0, 600, 600));
    manager.set_master_factor(100, &mut out);
    assert_eq!(manager.monitors[0].master_factor, 95);
    manager.set_master_factor(-1000, &mut out);
    assert_eq!(manager.monitors[0].master_factor, 5);
    assert_eq!(geometry(&manager, 1), (0, 0, 50, 600));
    manager.inc_num_master(1, &mut out);
    assert_eq!(manager.monitors[0].num_master, 2);
    assert_eq!(geometry(&manager, 2), (0, 300, 50, 300));
    manager.inc_num_master(-5, &mut out);
    assert_eq!(manager.monitors[0].num_master, 0);
    assert_eq!(geometry(&manager, 1), (0, 0, 1000, 200));
}

#[test]
fn layouts_change() {
    let mut manager = bare_manager();
    for window in [1, 2] {
        open(&mut manager, window);
    }
    let mut out = Vec::new();
    manager.set_layout(LayoutType::Monocle, &mut out);
    assert_eq!(geometry(&manager, 1), (0, 0, 1000, 600));
    assert_eq!(geometry(&manager, 2), (0, 0, 1000, 600));
    assert!(out.contains(&Command::UpdateBar));
    out.clear();
    manager.set_layout(LayoutType::Tabbed, &mut out);
    assert_eq!(geometry(&manager, 1), (0, 0, 1000, 600));
    assert!(out.contains(&Command::MoveTabBar { monitor: 0, x: 0, y: 0, width: 1000 }));
    assert!(out.contains(&Command::ShowTabBar { monitor: 0, shown: true }));
    assert!(out.contains(&Command::UpdateTabBars));
    assert_eq!(manager.tab_windows(0), vec![1, 2]);
    // the floating layout leaves the windows where they are
    manager.set_layout(LayoutType::Normie, &mut out);
    assert_eq!(geometry(&manager, 1), (0, 0, 1000, 600));
}

#[test]
fn gaps_can_be_switched() {
    let mut manager = bare_manager();
    manager.config.gap_inner_horizontal = 10;
    manager.config.gap_inner_vertical = 10;
    manager.config.gap_outer_horizontal = 20;
    manager.config.gap_outer_vertical = 20;
    manager.config.smartgaps_enabled = false;
    open(&mut manager, 1);
    assert_eq!(geometry(&manager, 1), (0, 0, 1000, 600));
    let mut out = Vec::new();
    manager.toggle_gaps(&mut out);
    assert!(manager.gaps_enabled);
    assert_eq!(geometry(&manager, 1), (20, 20, 960, 560));
}

#[test]
fn the_bars_can_be_hidden() {
    let mut manager = manager();
    open(&mut manager, 1);
    assert_eq!(geometry(&manager, 1), (0, 20, 996, 596));
    let mut out = Vec::new();
    manager.toggle_bar(&mut out);
    assert!(!manager.show_bar);
    assert_eq!(out[0], Command::ShowBar { monitor: 0, shown: false });
    assert_eq!(geometry(&manager, 1), (0, 0, 996, 616));
    manager.toggle_bar(&mut out);
    assert_eq!(geometry(&manager, 1), (0, 20, 996, 596));
}

#[test]
fn fullscreen_mode_covers_the_screen_and_gives_it_back() {
    let mut manager = manager();
    manager.config.gaps_enabled = true;
    manager.gaps_enabled = true;
    manager.config.gap_outer_horizontal = 10;
    manager.config.gap_outer_vertical = 10;
    manager.config.smartgaps_enabled = false;
    let mut out = Vec::new();
    for window in [1, 2] {
        open(&mut manager, window);
    }
    let before = (geometry(&manager, 1), geometry(&manager, 2));
    out.clear();
    manager.fullscreen(&mut out);
    assert!(!manager.show_bar);
    assert!(!manager.gaps_enabled);
    assert_eq!(manager.layout, LayoutType::Monocle);
    assert_eq!(manager.last_layout, Some(LayoutType::Tiling));
    assert_eq!(manager.saved_geometry.len(), 2);
    assert_eq!(geometry(&manager, 1), (0, 0, 996, 616));
    assert!(out.contains(&Command::Configure(Configure { border_width: Some(0), ..configure(2) })));
    manager.fullscreen(&mut out);
    assert!(manager.show_bar);
    assert!(manager.gaps_enabled);
    assert_eq!(manager.layout, LayoutType::Tiling);
    assert!(manager.saved_geometry.is_empty());
    assert_eq!((geometry(&manager, 1), geometry(&manager, 2)), before);
}

#[test]
fn fullscreen_mode_needs_a_selected_client() {
    let mut manager = manager();
    let mut out = Vec::new();
    manager.fullscreen(&mut out);
    assert!(manager.show_bar);
    assert!(out.is_empty());
}

#[test]
fn events_drive_the_manager() {
    let mut manager = bare_manager();
    manager.set_keyboard_mapping(plain_mapping());
    let mut out = Vec::new();
    for window in [1, 2, 3] {
        let event = Event::MapRequest { window, override_redirect: false, info: info(0, 0, 100, 100) };
        assert_eq!(manager.handle_event(event, &mut out), None);
    }
    assert_eq!(geometry(&manager, 1), (0, 0, 550, 600));
    assert_eq!(geometry(&manager, 3), (550, 300, 450, 300));
    // a window that asks not to be managed is left alone
    let event = Event::MapRequest { window: 4, override_redirect: true, info: info(0, 0, 100, 100) };
    manager.handle_event(event, &mut out);
    assert!(manager.find(4).is_none());
    // Mod4 + Shift + 2 moves the selected window to the second tag
    let (answer, _) = press(&mut manager, 0x32, MOD4 | SHIFT);
    assert_eq!(answer, None);
    assert_eq!(client(&manager, 3).tags, 2);
    assert_eq!(geometry(&manager, 2), (550, 0, 450, 600));
    // Mod4 + 2 brings the second tag into view
    let (_, issued) = press(&mut manager, 0x32, MOD4);
    assert_eq!(issued[0], Command::GrabKeys { depth: 0 });
    assert_eq!(issued[1], Command::UpdateBar);
    assert_eq!(manager.monitors[0].selected_client, Some(3));
    assert_eq!(geometry(&manager, 3), (0, 0, 1000, 600));
    // Mod4 + j steps back in the stack, Mod4 + f floats
    press(&mut manager, 0x31, MOD4);
    press(&mut manager, 0x6a, MOD4);
    let (_, issued) = press(&mut manager, 0x66, MOD4);
    let floating = manager.monitors[0].selected_client.unwrap();
    assert!(client(&manager, floating).is_floating);
    assert!(issued.contains(&Command::Configure(Configure {
        stack_mode: Some(StackMode::Above),
        ..configure(floating)
    })));
    // the window goes away
    manager.handle_event(Event::DestroyNotify { window: floating }, &mut out);
    assert!(manager.find(floating).is_none());
    // Mod4 + Shift + r asks for the configuration, Mod4 + Shift + q ends the loop
    let (answer, issued) = press(&mut manager, 0x72, MOD4 | SHIFT);
    assert_eq!(answer, None);
    assert_eq!(issued.last(), Some(&Command::ReloadConfig));
    let (answer, _) = press(&mut manager, 0x71, MOD4 | SHIFT);
    assert_eq!(answer, Some(false));
    assert_consistent(&manager);
}

#[test]
fn key_presses_walk_through_a_chord() {
    let mut manager = bare_manager();
    manager.set_keyboard_mapping(plain_mapping());
    manager.config.keybindings = vec![oxwm::keyboard::handlers::KeyBinding::new(
        vec![
            oxwm::keyboard::handlers::KeyPress { modifiers: vec![MOD4], keysym: 0x61 },
            oxwm::keyboard::handlers::KeyPress { modifiers: vec![], keysym: 0x62 },
        ],
        oxwm::keyboard::handlers::KeyAction::ToggleGaps,
        oxwm::keyboard::handlers::Arg::none(),
    )];
    let (_, issued) = press(&mut manager, 0x61, MOD4);
    assert_eq!(issued, vec![Command::GrabKeys { depth: 1 }, Command::UpdateBar]);
    assert_eq!(manager.current_key, 1);
    assert!(matches!(
        &manager.keychord_state,
        KeychordState::InProgress { candidates, keys_pressed: 1 } if candidates == &vec![0]
    ));
    assert_eq!(manager.get_keychord_indicator(), Some("Super+a-".to_string()));
    // Escape is key code 9 in no keymap here: symbol 0xff1b needs its own entry
    let (_, issued) = press(&mut manager, 0x63, 0);
    assert_eq!(issued, vec![Command::GrabKeys { depth: 0 }, Command::UpdateBar]);
    assert!(matches!(manager.keychord_state, KeychordState::Idle));
    assert_eq!(manager.current_key, 0);
    assert_eq!(manager.get_keychord_indicator(), None);
    press(&mut manager, 0x61, MOD4);
    let gaps = manager.gaps_enabled;
    press(&mut manager, 0x62, 0);
    assert_eq!(manager.gaps_enabled, !gaps);
    assert!(matches!(manager.keychord_state, KeychordState::Idle));
}

#[test]
fn key_presses_need_a_keymap() {
    let mut manager = bare_manager();
    let (answer, issued) = press(&mut manager, 0x71, MOD4 | SHIFT);
    assert_eq!(answer, None);
    assert!(issued.is_empty());
}

#[test]
fn overlays_take_their_keys() {
    let mut manager = bare_manager();
    manager.set_keyboard_mapping(plain_mapping());
    let shown = OverlayState { error_visible: true, keybind_visible: true, keybind_suppress: false };
    let mut out = Vec::new();
    let key = KeyPressEvent { detail: (0x71 + 8) as u8, state: MOD4 | SHIFT };
    let answer = manager.handle_event(Event::KeyPress { target: Target::ErrorOverlay, key, overlay: shown }, &mut out);
    assert_eq!(answer, None);
    assert_eq!(out, vec![Command::HideErrorOverlay]);
    out.clear();
    manager.handle_event(Event::KeyPress { target: Target::KeybindOverlay, key, overlay: shown }, &mut out);
    assert_eq!(out, vec![Command::HideKeybindOverlay]);
    out.clear();
    let other = KeyPressEvent { detail: (0x61 + 8) as u8, state: 0 };
    manager.handle_event(Event::KeyPress { target: Target::KeybindOverlay, key: other, overlay: shown }, &mut out);
    assert!(out.is_empty());
    manager.handle_event(Event::Expose { target: Target::ErrorOverlay, overlay: shown }, &mut out);
    manager.handle_event(Event::Expose { target: Target::Bar { monitor: 0, tag: None }, overlay: shown }, &mut out);
    assert_eq!(out, vec![Command::DrawErrorOverlay, Command::UpdateBar]);
}

#[test]
fn button_presses_focus_and_begin_sessions() {
    let mut manager = bare_manager();
    for window in [1, 2] {
        open(&mut manager, window);
    }
    let mut out = Vec::new();
    let event = Event::ButtonPress {
        target: Target::Root,
        child: Some(1),
        state: MOD4,
        button: 1,
        click_x: 0,
        time: 77,
        overlay: no_overlay(),
    };
    manager.handle_event(event, &mut out);
    assert_eq!(manager.monitors[0].selected_client, Some(1));
    let tail = &out[out.len() - 3..];
    assert_eq!(
        tail,
        &[Command::UpdateTabBars, Command::BeginMove { window: 1 }, Command::ReplayPointer { time: 77 }]
    );
    out.clear();
    let event = Event::ButtonPress {
        target: Target::Window(2),
        child: None,
        state: MOD4,
        button: 3,
        click_x: 0,
        time: 78,
        overlay: no_overlay(),
    };
    manager.handle_event(event, &mut out);
    assert_eq!(manager.monitors[0].selected_client, Some(2));
    assert!(out.contains(&Command::BeginResize { window: 2 }));
    out.clear();
    let event = Event::ButtonPress {
        target: Target::Window(2),
        child: None,
        state: 0,
        button: 1,
        click_x: 0,
        time: 79,
        overlay: OverlayState { error_visible: false, keybind_visible: true, keybind_suppress: false },
    };
    manager.handle_event(event, &mut out);
    assert_eq!(out[0], Command::HideKeybindOverlay);
    assert!(!out.contains(&Command::BeginMove { window: 2 }));
    assert_eq!(out.last(), Some(&Command::ReplayPointer { time: 79 }));
    out.clear();
    let event = Event::ButtonPress {
        target: Target::Root,
        child: None,
        state: 0,
        button: 1,
        click_x: 0,
        time: 80,
        overlay: no_overlay(),
    };
    manager.handle_event(event, &mut out);
    assert_eq!(out, vec![Command::ReplayPointer { time: 80 }]);
}

#[test]
fn clicks_on_the_bar_view_tags() {
    let mut manager = two_monitors();
    let mut out = Vec::new();
    let event = Event::ButtonPress {
        target: Target::Bar { monitor: 1, tag: Some(4) },
        child: None,
        state: 0,
        button: 1,
        click_x: 90,
        time: 1,
        overlay: no_overlay(),
    };
    manager.handle_event(event, &mut out);
    assert_eq!(manager.selected_monitor, 1);
    assert_eq!(manager.monitors[1].tagset[manager.monitors[1].selected_tags_index], 16);
    assert_eq!(manager.monitors[0].tagset, [1, 1]);
}

#[test]
fn clicks_on_the_tabs_focus_windows() {
    let mut manager = bare_manager();
    for window in [1, 2, 3] {
        open(&mut manager, window);
    }
    let mut out = Vec::new();
    manager.set_layout(LayoutType::Tabbed, &mut out);
    out.clear();
    manager.click_on_tab_bar(0, 900, 350, &mut out);
    assert_eq!(manager.monitors[0].selected_client, Some(2));
    assert_eq!(
        out[0],
        Command::Configure(Configure { stack_mode: Some(StackMode::Above), ..configure(2) })
    );
    assert_eq!(out.last(), Some(&Command::UpdateTabBars));
    out.clear();
    manager.click_on_tab_bar(0, 900, 900, &mut out);
    assert!(out.is_empty());
}

#[test]
fn pointer_motion_selects_monitors() {
    let mut manager = two_monitors();
    let mut out = Vec::new();
    open(&mut manager, 1);
    manager.send_window_to_adjacent_monitor(1, &mut out);
    open(&mut manager, 2);
    out.clear();
    manager.handle_event(Event::MotionNotify { on_root: true, root_x: 1200, root_y: 10 }, &mut out);
    assert_eq!(manager.selected_monitor, 1);
    assert_eq!(manager.monitors[1].selected_client, Some(1));
    assert_eq!(out[0], Command::UpdateBar);
    out.clear();
    manager.handle_event(Event::MotionNotify { on_root: true, root_x: 1300, root_y: 10 }, &mut out);
    manager.handle_event(Event::MotionNotify { on_root: false, root_x: 10, root_y: 10 }, &mut out);
    assert!(out.is_empty());
    manager.handle_event(Event::EnterNotify { window: 2, normal: true }, &mut out);
    assert_eq!(manager.selected_monitor, 0);
    assert_eq!(manager.monitors[0].selected_client, Some(2));
    out.clear();
    manager.handle_event(Event::EnterNotify { window: 1, normal: false }, &mut out);
    assert!(out.is_empty());
}

#[test]
fn client_messages_and_properties() {
    let mut manager = bare_manager();
    for window in [1, 2] {
        open(&mut manager, window);
    }
    let mut out = Vec::new();
    manager.handle_event(Event::ClientMessage { window: 1, message: ClientMessage::Activate }, &mut out);
    assert!(client(&manager, 1).is_urgent);
    assert_eq!(out, vec![Command::SetUrgencyHint { window: 1, urgent: true }]);
    assert_eq!(manager.urgent_tags(0), 1);
    out.clear();
    // the focused window does not become urgent
    manager.handle_event(Event::ClientMessage { window: 2, message: ClientMessage::Activate }, &mut out);
    assert!(!client(&manager, 2).is_urgent);
    manager.handle_event(
        Event::ClientMessage { window: 1, message: ClientMessage::Fullscreen { action: 2 } },
        &mut out,
    );
    assert!(client(&manager, 1).is_fullscreen);
    manager.handle_event(
        Event::ClientMessage { window: 1, message: ClientMessage::Fullscreen { action: 0 } },
        &mut out,
    );
    assert!(!client(&manager, 1).is_fullscreen);
    manager.handle_event(
        Event::ClientMessage { window: 1, message: ClientMessage::Fullscreen { action: 9 } },
        &mut out,
    );
    assert!(!client(&manager, 1).is_fullscreen);
    manager.handle_event(
        Event::PropertyNotify {
            window: 1,
            change: PropertyChange::Name { title: Some("editor".to_string()) },
        },
        &mut out,
    );
    assert_eq!(client(&manager, 1).name, "editor");
    assert_eq!(manager.title_of(1), Some("editor".to_string()));
    assert_eq!(manager.title_of(9), None);
    manager.handle_event(
        Event::PropertyNotify { window: 1, change: PropertyChange::TransientFor { parent: Some(2) } },
        &mut out,
    );
    assert!(client(&manager, 1).is_floating);
    assert_eq!(geometry(&manager, 2), (0, 0, 1000, 600));
    manager.handle_event(
        Event::PropertyNotify { window: 2, change: PropertyChange::Hints { words: Some(vec![256]) } },
        &mut out,
    );
    // window 2 has the focus: the hint is cleared, the client is not marked
    assert!(!client(&manager, 2).is_urgent);
    manager.handle_event(
        Event::PropertyNotify { window: 2, change: PropertyChange::NormalHints { words: Some(vec![1, 2]) } },
        &mut out,
    );
    assert!(!client(&manager, 2).hints_valid);
    manager.handle_event(
        Event::PropertyNotify {
            window: 2,
            change: PropertyChange::WindowType { is_dialog: true, wants_fullscreen: false },
        },
        &mut out,
    );
    assert!(client(&manager, 2).is_floating);
}

#[test]
fn configuration_requests() {
    let mut manager = bare_manager();
    let mut out = Vec::new();
    let mut floating = info(100, 100, 300, 200);
    floating.is_dialog = true;
    manager.manage_window(1, &floating, &mut out);
    open(&mut manager, 2);
    out.clear();
    // a floating window gets the place it asks for and is told so
    let request = Configure { x: Some(50), y: Some(60), ..configure(1) };
    manager.handle_event(Event::ConfigureRequest(request), &mut out);
    assert_eq!(geometry(&manager, 1), (50, 60, 300, 200));
    assert_eq!(client(&manager, 1).old_x_position, 100);
    assert_eq!(
        out,
        vec![
            Command::ConfigureNotify { window: 1, x: 50, y: 60, width: 300, height: 200, border_width: 0 },
            Command::Configure(Configure {
                x: Some(50),
                y: Some(60),
                width: Some(300),
                height: Some(200),
                ..configure(1)
            }),
        ]
    );
    // beyond the screen it is centred
    out.clear();
    let request = Configure { x: Some(900), width: Some(400), ..configure(1) };
    manager.handle_event(Event::ConfigureRequest(request), &mut out);
    assert_eq!(geometry(&manager, 1), (300, 60, 400, 200));
    assert_eq!(out.len(), 1);
    // a tiled window is told what it has
    out.clear();
    let request = Configure { x: Some(5), width: Some(40), ..configure(2) };
    manager.handle_event(Event::ConfigureRequest(request), &mut out);
    assert_eq!(geometry(&manager, 2), (0, 0, 1000, 600));
    assert_eq!(
        out,
        vec![Command::ConfigureNotify { window: 2, x: 0, y: 0, width: 1000, height: 600, border_width: 0 }]
    );
    // a border width is noted
    let request = Configure { border_width: Some(3), x: Some(1), ..configure(2) };
    manager.handle_event(Event::ConfigureRequest(request), &mut out);
    assert_eq!(client(&manager, 2).border_width, 3);
    assert_eq!(geometry(&manager, 2), (0, 0, 1000, 600));
    // the request of a window that is not managed is passed on
    out.clear();
    let request = Configure { width: Some(40), ..configure(9) };
    manager.handle_event(Event::ConfigureRequest(request), &mut out);
    assert_eq!(out, vec![Command::PassConfigure(request)]);
}

#[test]
fn unmapped_windows_are_let_go_when_visible() {
    let mut manager = bare_manager();
    for window in [1, 2] {
        open(&mut manager, window);
    }
    let index = manager.find(1).unwrap();
    manager.clients[index].tags = 2;
    let mut out = Vec::new();
    manager.handle_event(Event::UnmapNotify { window: 1 }, &mut out);
    assert!(manager.find(1).is_some());
    manager.handle_event(Event::UnmapNotify { window: 2 }, &mut out);
    assert!(manager.find(2).is_none());
    manager.handle_event(Event::DestroyNotify { window: 1 }, &mut out);
    assert!(manager.clients.is_empty());
    out.clear();
    manager.handle_event(Event::DestroyNotify { window: 1 }, &mut out);
    manager.handle_event(Event::Other, &mut out);
    assert!(out.is_empty());
}

#[test]
fn focus_is_claimed_back() {
    let mut manager = bare_manager();
    for window in [1, 2] {
        open(&mut manager, window);
    }
    let mut out = Vec::new();
    manager.handle_event(Event::FocusIn { window: 2 }, &mut out);
    assert!(out.is_empty());
    manager.handle_event(Event::FocusIn { window: 1 }, &mut out);
    assert_eq!(
        out,
        vec![
            Command::SetInputFocus { window: 2 },
            Command::Configure(Configure { border_width: Some(0), ..configure(2) }),
            Command::SetBorderColor { window: 2, color: 0x6dade3 },
        ]
    );
    out.clear();
    manager.handle_event(Event::MappingNotify { keyboard: true }, &mut out);
    manager.handle_event(Event::MappingNotify { keyboard: false }, &mut out);
    manager.handle_event(Event::RootChanged { resized: false }, &mut out);
    assert_eq!(out, vec![Command::GrabKeys { depth: 0 }]);
    manager.handle_event(Event::RootChanged { resized: true }, &mut out);
    assert_eq!(out[1], Command::RefreshScreen);
}

#[test]
fn the_bar_is_told_the_state() {
    let mut manager = bare_manager();
    for window in [1, 2, 3] {
        open(&mut manager, window);
    }
    for (window, tags, urgent) in [(1, 0b1, false), (2, 0b110, true), (3, 0b1000, false)] {
        let index = manager.find(window).unwrap();
        manager.clients[index].tags = tags;
        manager.clients[index].is_urgent = urgent;
    }
    assert_eq!(manager.occupied_tags(0), 0b1111);
    assert_eq!(manager.urgent_tags(0), 0b110);
    assert_eq!(manager.occupied_tags(1), 0);
    assert!(manager.has_windows_on_tag(0, 1));
    assert!(!manager.has_windows_on_tag(0, 2));
    assert!(manager.has_windows_on_tag(0, 3));
    assert!(!manager.has_windows_on_tag(4, 0));
    assert_eq!(manager.get_layout_symbol(), "[]=");
    manager.config.layout_symbols = vec![
        LayoutSymbolOverride { name: "monocle".to_string(), symbol: "(o)".to_string() },
        LayoutSymbolOverride { name: "tiling".to_string(), symbol: "|=".to_string() },
        LayoutSymbolOverride { name: "tiling".to_string(), symbol: "second".to_string() },
    ];
    assert_eq!(manager.get_layout_symbol(), "|=");
    manager.layout = LayoutType::Grid;
    assert_eq!(manager.get_layout_symbol(), "[#]");
}

#[test]
fn non_empty_tags_can_be_stepped_through() {
    let mut manager = bare_manager();
    manager.set_keyboard_mapping(plain_mapping());
    for window in [1, 2] {
        open(&mut manager, window);
    }
    let index = manager.find(1).unwrap();
    manager.clients[index].tags = 1 << 4;
    assert_eq!(manager.find_tag_at_step(1), Some(1));
    assert_eq!(manager.find_tag_at_step(-1), Some(8));
    assert_eq!(manager.find_next_used_tag(true), Some(4));
    assert_eq!(manager.find_next_used_tag(false), Some(4));
    let mut out = Vec::new();
    manager.handle_key_action(
        oxwm::keyboard::handlers::KeyAction::ViewNextNonEmptyTag,
        &oxwm::keyboard::handlers::Arg::none(),
        &mut out,
    );
    assert_eq!(manager.monitors[0].tagset[manager.monitors[0].selected_tags_index], 16);
    manager.handle_key_action(
        oxwm::keyboard::handlers::KeyAction::ViewPreviousTag,
        &oxwm::keyboard::handlers::Arg::none(),
        &mut out,
    );
    assert_eq!(manager.monitors[0].tagset[manager.monitors[0].selected_tags_index], 8);
    manager.handle_key_action(
        oxwm::keyboard::handlers::KeyAction::ChangeLayout,
        &oxwm::keyboard::handlers::Arg::Str("Monocle".to_string()),
        &mut out,
    );
    assert_eq!(manager.layout, LayoutType::Monocle);
    manager.handle_key_action(
        oxwm::keyboard::handlers::KeyAction::ChangeLayout,
        &oxwm::keyboard::handlers::Arg::Str("nonsense".to_string()),
        &mut out,
    );
    assert_eq!(manager.layout, LayoutType::Monocle);
    manager.handle_key_action(
        oxwm::keyboard::handlers::KeyAction::CycleLayout,
        &oxwm::keyboard::handlers::Arg::none(),
        &mut out,
    );
    assert_eq!(manager.layout, LayoutType::Tabbed);
    out.clear();
    manager.handle_key_action(
        oxwm::keyboard::handlers::KeyAction::Spawn,
        &oxwm::keyboard::handlers::Arg::Str("st".to_string()),
        &mut out,
    );
    manager.handle_key_action(
        oxwm::keyboard::handlers::KeyAction::ShowKeybindOverlay,
        &oxwm::keyboard::handlers::Arg::none(),
        &mut out,
    );
    manager.handle_key_action(
        oxwm::keyboard::handlers::KeyAction::ViewTag,
        &oxwm::keyboard::handlers::Arg::Int(-3),
        &mut out,
    );
    assert_eq!(out, vec![Command::Spawn, Command::ToggleKeybindOverlay]);
    out.clear();
    manager.handle_key_action(
        oxwm::keyboard::handlers::KeyAction::SpawnTerminal,
        &oxwm::keyboard::handlers::Arg::none(),
        &mut out,
    );
    // a spawn action without a command starts nothing
    manager.handle_key_action(
        oxwm::keyboard::handlers::KeyAction::Spawn,
        &oxwm::keyboard::handlers::Arg::Int(1),
        &mut out,
    );
    assert_eq!(out, vec![Command::SpawnTerminal]);
    let started = manager.take_spawns();
    assert_eq!(started.len(), 2);
    assert!(matches!(&started[0], oxwm::keyboard::spawn::SpawnCommand::Shell(line) if line == "st"));
    assert!(matches!(&started[1], oxwm::keyboard::spawn::SpawnCommand::Shell(line) if line == "st"));
    assert!(manager.take_spawns().is_empty());
}

#[test]
fn a_new_configuration_is_put_in_force() {
    let mut manager = bare_manager();
    open(&mut manager, 1);
    manager.reload_failed("broken".to_string());
    assert_eq!(manager.error_message, Some("broken".to_string()));
    assert_eq!(manager.config.border_width, 0);
    let mut config = Config::default();
    config.gaps_enabled = true;
    config.smartgaps_enabled = false;
    config.gap_outer_horizontal = 10;
    config.gap_outer_vertical = 5;
    let mut out = Vec::new();
    manager.set_config(config, &mut out);
    assert_eq!(manager.error_message, None);
    assert!(manager.gaps_enabled);
    assert_eq!(manager.config.border_width, 2);
    assert_eq!(geometry(&manager, 1), (5, 10, 986, 576));
    assert_eq!(out[0], Command::HideErrorOverlay);
    assert_eq!(out.last(), Some(&Command::UpdateBar));
}

#[test]
fn attach_aside_counts_floating_windows() {
    let mut manager = bare_manager();
    for window in [1, 2, 3] {
        open(&mut manager, window);
    }
    assert_eq!(tiling_order(&manager, 0), vec![1, 2, 3]);
    let index = manager.find(3).unwrap();
    manager.clients[index].is_floating = true;
    // the floating window 3 shares the tag and is the last to do so
    manager.attach_aside(1, 0);
    assert_eq!(tiling_order(&manager, 0), vec![2, 3, 1]);
}

#[test]
fn set_focus_selects_a_window_that_was_not_selected() {
    let mut manager = bare_manager();
    for window in [1, 2] {
        open(&mut manager, window);
    }
    assert_eq!(manager.monitors[0].selected_client, Some(2));
    let mut out = Vec::new();
    manager.set_focus(1, &mut out);
    assert_eq!(manager.monitors[0].selected_client, Some(1));
    assert_eq!(focus_order(&manager, 0), vec![1, 2]);
    assert!(out.contains(&Command::SetInputFocus { window: 1 }));
    assert_eq!(manager.previous_focused, Some(1));
}

#[test]
fn set_focus_claims_the_focus_back_for_the_selected_window() {
    let mut manager = bare_manager();
    for window in [1, 2] {
        open(&mut manager, window);
    }
    manager.previous_focused = Some(1);
    let order = focus_order(&manager, 0);
    let mut out = Vec::new();
    manager.set_focus(2, &mut out);
    assert_eq!(out[0], Command::SetInputFocus { window: 2 });
    assert!(out.contains(&Command::SetBorderColor { window: 1, color: manager.config.border_unfocused }));
    assert!(out.contains(&Command::SetBorderColor { window: 2, color: manager.config.border_focused }));
    assert_eq!(manager.monitors[0].selected_client, Some(2));
    assert_eq!(manager.previous_focused, Some(2));
    assert_eq!(focus_order(&manager, 0), order);
}

#[test]
fn set_focus_on_an_unknown_window_keeps_the_selection_in_view() {
    let mut manager = bare_manager();
    open(&mut manager, 1);
    let mut out = Vec::new();
    manager.set_focus(9, &mut out);
    assert_eq!(manager.monitors[0].selected_client, Some(1));
}

#[test]
fn fullscreen_mode_round_trip_keeps_a_floating_window() {
    let mut manager = manager();
    let mut out = Vec::new();
    for window in [1, 2, 3] {
        open(&mut manager, window);
    }
    manager.focus(Some(2), &mut out);
    manager.toggle_floating(&mut out);
    let index = manager.find(2).unwrap();
    assert!(manager.clients[index].is_floating);
    let before: Vec<_> = [1, 2, 3]
        .iter()
        .map(|&window| (geometry(&manager, window), client(&manager, window).border_width))
        .collect();
    let selected = manager.monitors[0].selected_client;
    out.clear();
    manager.fullscreen(&mut out);
    assert!(!manager.show_bar);
    assert_eq!(manager.saved_geometry.len(), 3);
    out.clear();
    manager.fullscreen(&mut out);
    // the switch back begins by putting every saved geometry back
    for (place, window) in [1u32, 2, 3].iter().enumerate() {
        let ((x, y, width, height), border_width) = before[place];
        assert_eq!(
            out[place],
            Command::Configure(Configure {
                x: Some(x),
                y: Some(y),
                width: Some(width),
                height: Some(height),
                border_width: Some(border_width),
                ..configure(*window)
            })
        );
    }
    assert!(manager.show_bar);
    assert_eq!(manager.layout, LayoutType::Tiling);
    assert!(manager.saved_geometry.is_empty());
    assert_eq!(manager.monitors[0].selected_client, selected);
    let index = manager.find(2).unwrap();
    assert!(manager.clients[index].is_floating);
    let after: Vec<_> = [1, 2, 3]
        .iter()
        .map(|&window| (geometry(&manager, window), client(&manager, window).border_width))
        .collect();
    assert_eq!(after, before);
}
