use oxwm::monitor::ScreenInfo;
use oxwm::window_manager::lifecycle::NewWindow;
use oxwm::window_manager::pointer::PointerSession;
use oxwm::window_manager::Command;
use oxwm::window_manager::Configure;
use oxwm::window_manager::WindowManager;
use oxwm::Config;

fn manager(auto_tile: bool) -> WindowManager {
    let mut config = Config::default();
    config.border_width = 0;
    config.auto_tile = auto_tile;
    WindowManager::new(
        config,
        &[
            ScreenInfo { x_org: 0, y_org: 0, width: 1000, height: 600 },
            ScreenInfo { x_org: 1000, y_org: 0, width: 1000, height: 600 },
        ],
        2000,
        600,
        0,
    )
}

fn open(manager: &mut WindowManager, window: u32, floating: bool) {
    let info = NewWindow {
        x: 100,
        y: 100,
        width: 300,
        height: 200,
        border_width: 0,
        transient_parent: None,
        class: String::new(),
        instance: String::new(),
        title: String::new(),
        size_hints: None,
        hints: None,
        is_dialog: floating,
        wants_fullscreen: false,
        saved_tags: None,
    };
    let mut out = Vec::new();
    manager.manage_window(window, &info, &mut out);
}

fn geometry(manager: &WindowManager, window: u32) -> (i32, i32, i32, i32) {
    let client = &manager.clients[manager.find(window).unwrap()];
    (client.x_position, client.y_position, client.width, client.height)
}

fn configure(window: u32) -> Configure {
    Configure {
        window,
        x: None,
        y: None,
        width: None,
        height: None,
        border_width: None,
        sibling: None,
        stack_mode: None,
    }
}

fn begin(manager: &mut WindowManager, window: u32, x: i32, y: i32) -> PointerSession {
    let mut out = Vec::new();
    manager.drag_begin(window, x, y, &mut out).unwrap()
}

#[test]
fn a_floating_window_follows_the_pointer() {
    let mut manager = manager(false);
    open(&mut manager, 1, true);
    let mut session = begin(&mut manager, 1, 150, 150);
    assert_eq!((session.orig_x, session.orig_y, session.orig_width, session.orig_height), (100, 100, 300, 200));
    assert!(session.was_floating);
    let mut out = Vec::new();
    manager.drag_motion(&mut session, 250, 200, 100, &mut out);
    assert_eq!(geometry(&manager, 1), (200, 150, 300, 200));
    assert_eq!(out, vec![Command::Configure(Configure { x: Some(200), y: Some(150), ..configure(1) })]);
    assert_eq!(session.last_time, 100);
}

#[test]
fn motion_is_taken_up_at_intervals() {
    let mut manager = manager(false);
    open(&mut manager, 1, true);
    let mut session = begin(&mut manager, 1, 150, 150);
    let mut out = Vec::new();
    manager.drag_motion(&mut session, 250, 200, 16, &mut out);
    assert!(out.is_empty());
    assert_eq!(session.last_time, 0);
    manager.drag_motion(&mut session, 250, 200, 17, &mut out);
    assert_eq!(out.len(), 1);
    manager.drag_motion(&mut session, 350, 200, 33, &mut out);
    assert_eq!(out.len(), 1);
    manager.drag_motion(&mut session, 350, 200, 34, &mut out);
    assert_eq!(out.len(), 2);
    // the clock wraps
    session.last_time = u32::MAX - 3;
    manager.drag_motion(&mut session, 360, 200, 10, &mut out);
    assert_eq!(out.len(), 2);
    manager.drag_motion(&mut session, 360, 200, 13, &mut out);
    assert_eq!(out.len(), 3);
}

#[test]
fn a_moved_window_snaps_to_the_edges() {
    let mut manager = manager(false);
    open(&mut manager, 1, true);
    let mut session = begin(&mut manager, 1, 0, 0);
    let mut out = Vec::new();
    // 31 pixels from the left and the top edge: snapped
    manager.drag_motion(&mut session, -69, -131, 100, &mut out);
    assert_eq!(geometry(&manager, 1), (0, 0, 300, 200));
    // 32 pixels away: not snapped
    manager.drag_motion(&mut session, -68, -132, 200, &mut out);
    assert_eq!(geometry(&manager, 1), (32, -32, 300, 200));
    // the far sides within 31 pixels of the far edges
    manager.drag_motion(&mut session, 600 + 20, 300 - 31, 300, &mut out);
    assert_eq!(geometry(&manager, 1), (700, 400, 300, 200));
}

#[test]
fn a_tiled_window_is_lifted_out_of_the_layout() {
    let mut manager = manager(false);
    open(&mut manager, 1, false);
    open(&mut manager, 2, false);
    assert_eq!(geometry(&manager, 2), (550, 0, 450, 600));
    let mut out = Vec::new();
    let session = manager.drag_begin(2, 600, 10, &mut out).unwrap();
    assert!(!session.was_floating);
    assert!(manager.clients[manager.find(2).unwrap()].is_floating);
    assert_eq!(geometry(&manager, 1), (0, 0, 1000, 600));
    // without tiling on release the window stays floating
    manager.drag_end(&session, &mut out);
    assert!(manager.clients[manager.find(2).unwrap()].is_floating);
}

#[test]
fn a_released_window_goes_back_into_the_layout() {
    let mut manager = manager(true);
    for window in [1, 2, 3] {
        open(&mut manager, window, false);
    }
    let mut out = Vec::new();
    let mut session = manager.drag_begin(3, 600, 310, &mut out).unwrap();
    // windows 1 and 2 share the screen now; window 3 is dropped on window 1
    assert_eq!(geometry(&manager, 1), (0, 0, 550, 600));
    manager.drag_motion(&mut session, 200, 210, 100, &mut out);
    assert_eq!(geometry(&manager, 3), (150, 200, 450, 300));
    manager.drag_end(&session, &mut out);
    assert!(!manager.clients[manager.find(3).unwrap()].is_floating);
    assert_eq!(manager.monitors[0].clients.items, vec![3, 1, 2]);
    assert_eq!(geometry(&manager, 3), (0, 0, 550, 600));
}

#[test]
fn a_window_dropped_on_another_monitor_moves_there() {
    let mut manager = manager(false);
    open(&mut manager, 1, true);
    open(&mut manager, 2, false);
    let mut session = begin(&mut manager, 1, 0, 0);
    let mut out = Vec::new();
    manager.drag_motion(&mut session, 1100, 0, 100, &mut out);
    assert_eq!(geometry(&manager, 1), (1200, 100, 300, 200));
    manager.drag_end(&session, &mut out);
    let client = &manager.clients[manager.find(1).unwrap()];
    assert_eq!(client.monitor_index, 1);
    assert_eq!(manager.selected_monitor, 1);
    assert_eq!(manager.monitors[1].selected_client, Some(1));
    assert_eq!(manager.monitors[0].stack.items, vec![2]);
}

#[test]
fn no_session_on_fullscreen_or_unknown_windows() {
    let mut manager = manager(false);
    open(&mut manager, 1, true);
    let mut out = Vec::new();
    manager.set_window_fullscreen(1, true, &mut out);
    out.clear();
    assert_eq!(manager.drag_begin(1, 0, 0, &mut out), None);
    assert_eq!(manager.drag_begin(9, 0, 0, &mut out), None);
    assert_eq!(manager.resize_begin(1, &mut out), None);
    assert!(out.is_empty());
}

#[test]
fn a_window_is_resized_by_the_pointer() {
    let mut manager = manager(false);
    open(&mut manager, 1, true);
    let mut out = Vec::new();
    let mut session = manager.resize_begin(1, &mut out).unwrap();
    assert_eq!(out, vec![Command::WarpPointer { window: 1, x: 299, y: 199 }]);
    out.clear();
    manager.resize_motion(&mut session, 499, 349, 100, &mut out);
    assert_eq!(geometry(&manager, 1), (100, 100, 400, 250));
    assert_eq!(
        out,
        vec![Command::Configure(Configure { width: Some(400), height: Some(250), ..configure(1) })]
    );
    // never smaller than the least size
    manager.resize_motion(&mut session, 0, 0, 200, &mut out);
    assert_eq!(geometry(&manager, 1), (100, 100, 20, 20));
    out.clear();
    manager.resize_end(&session, &mut out);
    assert_eq!(out[0], Command::WarpPointer { window: 1, x: 19, y: 19 });
}

#[test]
fn a_lone_tiled_window_is_not_resized_when_tiling_on_release() {
    let mut manager = manager(true);
    open(&mut manager, 1, false);
    let mut out = Vec::new();
    assert_eq!(manager.resize_begin(1, &mut out), None);
    open(&mut manager, 2, false);
    let session = manager.resize_begin(2, &mut out).unwrap();
    assert!(manager.clients[manager.find(2).unwrap()].is_floating);
    manager.resize_end(&session, &mut out);
    assert!(!manager.clients[manager.find(2).unwrap()].is_floating);
    assert_eq!(geometry(&manager, 2), (550, 0, 450, 600));
}

#[test]
fn tiled_windows_under_a_point() {
    let mut manager = manager(false);
    for window in [1, 2, 3] {
        open(&mut manager, window, false);
    }
    assert_eq!(manager.tiled_window_at(9, 0, 10, 10), Some(1));
    assert_eq!(manager.tiled_window_at(1, 0, 10, 10), None);
    assert_eq!(manager.tiled_window_at(9, 0, 560, 299), Some(2));
    assert_eq!(manager.tiled_window_at(9, 0, 560, 300), Some(3));
    assert_eq!(manager.tiled_window_at(9, 1, 10, 10), None);
    assert_eq!(manager.tiled_window_at(9, 5, 10, 10), None);
}
