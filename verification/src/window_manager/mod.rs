//! The window manager's state and the commands it issues.  Every operation
//! is a step of one state machine: it takes the state and plain values,
//! changes the state and appends to a list of commands for the display
//! server, which the caller carries out in order.

use vstd::prelude::*;
use crate::client::Client;
use crate::config::Config;
use crate::keyboard::handlers::KeyboardMapping;
use crate::keyboard::handlers::KeychordState;
use crate::keyboard::spawn::SpawnCommand;
use crate::layout::LayoutType;
use crate::monitor::Monitor;
use crate::monitor::ScreenInfo;
use crate::monitor::detect_monitors;
use crate::monitor::monitors_for;
use crate::monitor::orders;
use crate::tags::TagMask;
use crate::tags::Window;

pub mod arrange;
pub mod bar_feed;
pub mod events;
pub mod focus;
pub mod handlers;
pub mod lifecycle;
pub mod pointer;
pub mod registry;
pub mod screen_mode;
pub mod selection;
pub mod views;

verus! {

/// How a window is stacked against its sibling, or against all windows where
/// no sibling is named.
#[derive(Clone, Copy, Debug, PartialEq, Eq, Structural)]
pub enum StackMode {
    Above,
    Below,
}

/// The parts of a window's configuration to change; an absent part is left
/// as it is.
#[derive(Clone, Copy, Debug, PartialEq, Eq, Structural)]
pub struct Configure {
    pub window: Window,
    pub x: Option<i32>,
    pub y: Option<i32>,
    pub width: Option<i32>,
    pub height: Option<i32>,
    pub border_width: Option<i32>,
    pub sibling: Option<Window>,
    pub stack_mode: Option<StackMode>,
}

/// A command for the display server or for a collaborator of the engine.
#[derive(Clone, Copy, Debug, PartialEq, Eq, Structural)]
pub enum Command {
    /// Change geometry, border width or stacking of a window.
    Configure(Configure),
    /// Paint the border of a window.
    SetBorderColor { window: Window, color: u32 },
    /// Catch every button press on a window that is not focused.
    GrabButtons { window: Window },
    /// Let button presses through to the focused window.
    UngrabButtons { window: Window },
    /// Give the input focus to a window.
    SetInputFocus { window: Window },
    /// Give the input focus to the root: no client is focused.
    FocusRoot,
    MapWindow { window: Window },
    /// Record the state of a window for its client (1 is "normal").
    SetWmState { window: Window, state: u32 },
    /// Persist the tags of a window in its property.
    SaveClientTag { window: Window, tags: TagMask },
    /// Persist the index of the lowest tag in view.
    SaveSelectedTag { desktop: u32 },
    /// Set or clear the fullscreen state in the window's property.
    SetFullscreenState { window: Window, fullscreen: bool },
    /// Set or clear the urgency bit in the window's hints.
    SetUrgencyHint { window: Window, urgent: bool },
    /// Tell a client the geometry it has.
    ConfigureNotify { window: Window, x: i32, y: i32, width: i32, height: i32, border_width: i32 },
    /// Ask for the events of a managed window.
    SelectClientEvents { window: Window },
    /// Ask a window to close, or kill its client if it cannot be asked.
    CloseWindow { window: Window },
    /// Grab the keys that the bindings expect at this depth of a chord.
    GrabKeys { depth: usize },
    /// Redraw the bars.
    UpdateBar,
    /// Redraw the strips of tabs.
    UpdateTabBars,
    /// Show or hide the bar of a monitor.
    ShowBar { monitor: usize, shown: bool },
    /// Show or hide the strip of tabs of a monitor.
    ShowTabBar { monitor: usize, shown: bool },
    /// Move the strip of tabs of a monitor.
    MoveTabBar { monitor: usize, x: i32, y: i32, width: i32 },
    /// Replay a pointer event that was caught.
    ReplayPointer { time: u32 },
    /// Start the command of the action that was fired.
    Spawn,
    /// Start the configured terminal.
    SpawnTerminal,
    /// Show or hide the overview of the bindings.
    ToggleKeybindOverlay,
    /// Hide the overview of the bindings.
    HideKeybindOverlay,
    /// Hide the error message.
    HideErrorOverlay,
    /// Redraw the error message.
    DrawErrorOverlay,
    /// Redraw the overview of the bindings.
    DrawKeybindOverlay,
    /// Read the configuration again.
    ReloadConfig,
    /// Pass on a configuration request of a window that is not managed.
    PassConfigure(Configure),
    /// Take the pointer for a move of this window.
    BeginMove { window: Window },
    /// Take the pointer for a resize of this window.
    BeginResize { window: Window },
    /// Read the root window's size again.
    RefreshScreen,
    /// Put the pointer at a place inside a window.
    WarpPointer { window: Window, x: i32, y: i32 },
}

/// A command that changes only what it names.
pub open spec fn configure_of(window: Window) -> Configure {
    Configure {
        window,
        x: None,
        y: None,
        width: None,
        height: None,
        border_width: None,
        sibling: None,
        stack_mode: None,
    }
}

/// Computes `configure_of`.
pub fn configure(window: Window) -> (request: Configure)
    ensures
        request == configure_of(window),
{
    Configure {
        window,
        x: None,
        y: None,
        width: None,
        height: None,
        border_width: None,
        sibling: None,
        stack_mode: None,
    }
}

/// Geometry of a window as it was before the fullscreen mode took it.
#[derive(Clone, Copy, Debug, PartialEq, Eq, Structural)]
pub struct SavedGeometry {
    pub window: Window,
    pub x: i32,
    pub y: i32,
    pub width: i32,
    pub height: i32,
    pub border_width: i32,
}

#[derive(Debug)]
pub struct WindowManager {
    pub config: Config,
    /// The registry: one client for each managed window, oldest first.  It
    /// is an arena: the orderings of the monitors name its clients by
    /// their windows, and commands that concern all windows are issued in
    /// its order.
    pub clients: Vec<Client>,
    pub layout: LayoutType,
    pub gaps_enabled: bool,
    /// Geometries to put back when the fullscreen mode ends.
    pub saved_geometry: Vec<SavedGeometry>,
    pub show_bar: bool,
    /// Height of a bar, in pixels.
    pub bar_height: u32,
    pub last_layout: Option<LayoutType>,
    pub monitors: Vec<Monitor>,
    pub selected_monitor: usize,
    pub previous_focused: Option<Window>,
    pub keychord_state: KeychordState,
    pub current_key: usize,
    pub keyboard_mapping: Option<KeyboardMapping>,
    pub error_message: Option<String>,
    /// The commands that spawn actions asked to start, oldest first.
    pub spawn_queue: Vec<SpawnCommand>,
}

impl WindowManager {
    /// The windows of the registry, oldest first.
    pub open spec fn windows(self) -> Seq<Window> {
        self.clients@.map_values(|client: Client| client.window)
    }

    /// The window is managed.
    pub open spec fn has(self, window: Window) -> bool {
        self.windows().contains(window)
    }

    /// Place of a managed window in the registry.
    pub open spec fn place(self, window: Window) -> int {
        self.windows().index_of(window)
    }

    /// The client of a managed window.
    pub open spec fn client(self, window: Window) -> Client {
        self.clients@[self.place(window)]
    }

    /// The state can be worked with: there is a monitor, the selected
    /// monitor exists, every monitor and every client is well formed, every
    /// client names a monitor that exists, and no window has two clients.
    pub open spec fn wf(self) -> bool {
        &&& self.monitors@.len() > 0
        &&& self.selected_monitor < self.monitors@.len()
        &&& forall|m: int| 0 <= m < self.monitors@.len() ==> (#[trigger] self.monitors@[m]).wf()
        &&& forall|i: int|
            0 <= i < self.clients@.len() ==> (#[trigger] self.clients@[i]).wf()
                && self.clients@[i].monitor_index < self.monitors@.len()
        &&& self.windows().no_duplicates()
    }

    /// The state at the start, against what it was made from: no window
    /// is managed, the tiling layout is in force, gaps are as the
    /// configuration says, the bars are shown, the first monitor is
    /// selected, and no chord is in progress.
    pub open spec fn starts_with(self, config: Config, bar_height: u32) -> bool {
        &&& self.config == config
        &&& self.clients@.len() == 0
        &&& self.layout == LayoutType::Tiling
        &&& self.gaps_enabled == config.gaps_enabled
        &&& self.saved_geometry@.len() == 0
        &&& self.show_bar
        &&& self.bar_height == bar_height
        &&& self.last_layout.is_none()
        &&& self.selected_monitor == 0
        &&& self.previous_focused.is_none()
        &&& self.keychord_state == KeychordState::Idle
        &&& self.current_key == 0
        &&& self.keyboard_mapping.is_none()
        &&& self.error_message.is_none()
        &&& self.spawn_queue@.len() == 0
    }

    /// A manager for the screens that the display server reports, with no
    /// window yet.  Where no screen is usable, the whole root window is
    /// the one monitor.
    pub fn new(
        config: Config,
        screens: &[ScreenInfo],
        root_width: u16,
        root_height: u16,
        bar_height: u32,
    ) -> (manager: WindowManager)
        ensures
            manager.wf(),
            manager.orderly(),
            manager.starts_with(config, bar_height),
            exists|ordered: Seq<ScreenInfo>|
                #![auto]
                orders(ordered, screens@, screens@.len() as int) && monitors_for(
                    manager.monitors@,
                    if ordered.len() > 0 {
                        ordered
                    } else {
                        seq![
                            ScreenInfo { x_org: 0, y_org: 0, width: root_width, height: root_height },
                        ]
                    },
                    bar_height,
                ),
    {
        let monitors = detect_monitors(screens, root_width, root_height, bar_height);
        let gaps_enabled = config.gaps_enabled;
        let manager = WindowManager {
            config,
            clients: Vec::new(),
            layout: LayoutType::Tiling,
            gaps_enabled,
            saved_geometry: Vec::new(),
            show_bar: true,
            bar_height,
            last_layout: None,
            monitors,
            selected_monitor: 0,
            previous_focused: None,
            keychord_state: KeychordState::Idle,
            current_key: 0,
            keyboard_mapping: None,
            error_message: None,
            spawn_queue: Vec::new(),
        };
        proof {
            assert(manager.windows() =~= Seq::<Window>::empty());
            assert forall|m: int| 0 <= m < manager.monitors@.len() implies (
            #[trigger] manager.monitors@[m]).wf() && manager.monitors@[m].clients@.len() == 0
                && manager.monitors@[m].stack@.len() == 0
                && manager.monitors@[m].selected_client.is_none() by {
                let ordered = choose|ordered: Seq<ScreenInfo>|
                    #![auto]
                    orders(ordered, screens@, screens@.len() as int) && monitors_for(
                        manager.monitors@,
                        if ordered.len() > 0 {
                            ordered
                        } else {
                            seq![
                                ScreenInfo {
                                    x_org: 0,
                                    y_org: 0,
                                    width: root_width,
                                    height: root_height,
                                },
                            ]
                        },
                        bar_height,
                    );
            }
        }
        manager
    }

    /// Hands out the commands that spawn actions asked to start, oldest
    /// first, and leaves none waiting.
    pub fn take_spawns(&mut self) -> (started: Vec<SpawnCommand>)
        ensures
            started@ == old(self).spawn_queue@,
            final(self).spawn_queue@.len() == 0,
            *final(self) == (WindowManager { spawn_queue: final(self).spawn_queue, ..*old(self) }),
    {
        let mut started: Vec<SpawnCommand> = Vec::new();
        std::mem::swap(&mut self.spawn_queue, &mut started);
        started
    }

    /// Takes the keymap that the display server reports.
    pub fn set_keyboard_mapping(&mut self, mapping: KeyboardMapping)
        ensures
            *final(self) == (WindowManager { keyboard_mapping: Some(mapping), ..*old(self) }),
    {
        self.keyboard_mapping = Some(mapping);
    }

    /// Window `window` is in the tiling order of monitor `m`.
    pub open spec fn listed(self, m: int, window: Window) -> bool {
        self.monitors@[m].clients@.contains(window)
    }

    /// Window `window` is in the focus order of monitor `m`.
    pub open spec fn stacked(self, m: int, window: Window) -> bool {
        self.monitors@[m].stack@.contains(window)
    }

    /// List consistency: the two orderings of a monitor hold exactly the
    /// managed windows of that monitor (each once, as no ordering holds a
    /// window twice), and the selected client of a monitor is in its focus
    /// order.
    pub open spec fn consistent(self) -> bool {
        &&& forall|m: int, window: Window|
            0 <= m < self.monitors@.len() && #[trigger] self.listed(m, window) ==> self.has(window)
                && self.client(window).monitor_index == m
        &&& forall|m: int, window: Window|
            0 <= m < self.monitors@.len() && #[trigger] self.stacked(m, window) ==> self.has(window)
                && self.client(window).monitor_index == m
        &&& forall|i: int|
            0 <= i < self.clients@.len() ==> self.listed(
                self.clients@[i].monitor_index as int,
                (#[trigger] self.clients@[i]).window,
            ) && self.stacked(self.clients@[i].monitor_index as int, self.clients@[i].window)
        &&& forall|m: int|
            0 <= m < self.monitors@.len() ==> match (#[trigger] self.monitors@[m]).selected_client {
                Some(window) => self.stacked(m, window),
                None => true,
            }
    }

    /// The tag set in view on the selected monitor.
    pub open spec fn selected_tags(self) -> TagMask {
        self.monitors@[self.selected_monitor as int].selected_tags()
    }

    /// The window is managed and shares a tag with the view of its monitor.
    pub open spec fn visible(self, window: Window) -> bool {
        self.has(window) && self.client(window).monitor_index < self.monitors@.len()
            && self.client(window).shown_under(
            self.monitors@[self.client(window).monitor_index as int].selected_tags(),
        )
    }

    /// A managed window has one place in the registry, where its client is.
    pub proof fn lemma_place(self, index: int)
        requires
            self.windows().no_duplicates(),
            0 <= index < self.clients@.len(),
        ensures
            self.has(self.clients@[index].window),
            self.place(self.clients@[index].window) == index,
            self.client(self.clients@[index].window) == self.clients@[index],
    {
        let windows = self.windows();
        assert(windows[index] == self.clients@[index].window);
        assert(windows.contains(self.clients@[index].window));
        let found = windows.index_of(self.clients@[index].window);
        assert(windows[found] == windows[index]);
    }

    /// Place of the window in the registry.
    pub fn find(&self, window: Window) -> (found: Option<usize>)
        ensures
            match found {
                Some(index) => index < self.clients@.len() && self.clients@[index as int].window
                    == window && self.has(window) && (self.windows().no_duplicates()
                    ==> self.place(window) == index),
                None => !self.has(window),
            },
    {
        let mut index: usize = 0;
        while index < self.clients.len()
            invariant
                index <= self.clients@.len(),
                forall|k: int| 0 <= k < index ==> self.clients@[k].window != window,
            decreases self.clients@.len() - index,
        {
            if self.clients[index].window == window {
                proof {
                    assert(self.windows()[index as int] == window);
                    if self.windows().no_duplicates() {
                        self.lemma_place(index as int);
                    }
                }
                return Some(index);
            }
            index += 1;
        }
        proof {
            if self.has(window) {
                let at = self.windows().index_of(window);
                assert(self.windows()[at] == self.clients@[at].window);
            }
        }
        None
    }

    pub fn get_selected_monitor(&self) -> (monitor: &Monitor)
        requires
            self.wf(),
        ensures
            *monitor == self.monitors@[self.selected_monitor as int],
    {
        &self.monitors[self.selected_monitor]
    }

    /// The selected client of the selected monitor.
    pub open spec fn focused(self) -> Option<Window> {
        self.monitors@[self.selected_monitor as int].selected_client
    }

    pub fn is_visible(&self, window: Window) -> (shown: bool)
        requires
            self.wf(),
        ensures
            shown == self.visible(window),
    {
        match self.find(window) {
            Some(index) => {
                let client = &self.clients[index];
                let monitor = &self.monitors[client.monitor_index];
                client.is_shown_under(monitor.get_selected_tag())
            },
            None => false,
        }
    }

    /// Same as `is_visible`.
    pub fn is_window_visible(&self, window: Window) -> (shown: bool)
        requires
            self.wf(),
        ensures
            shown == self.visible(window),
    {
        self.is_visible(window)
    }
}

} // verus!
