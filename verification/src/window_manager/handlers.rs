//! One handler for each kind of event from the display server.

use vstd::prelude::*;
use crate::bar::tab_at_click;
use crate::bar::tab_under;
use crate::client::Client;
use crate::client::Rect;
use crate::client::held;
use crate::client::hold;
use crate::client::hold_length;
use crate::config::Config;
use crate::keyboard::handlers::KeyAction;
use crate::keyboard::handlers::KeyPressEvent;
use crate::keyboard::handlers::KeychordResult;
use crate::keyboard::handlers::KeychordState;
use crate::keyboard::handlers::handle_key_press;
use crate::keyboard::handlers::resolves_press;
use crate::keyboard::keysyms::XK_ESCAPE;
use crate::keyboard::keysyms::XK_Q;
use crate::keyboard::keysyms::XK_CAPITAL_Q;
use crate::keyboard::keysyms::clean;
use crate::keyboard::keysyms::clean_state;
use crate::layout::LayoutType;
use crate::tags::Window;
use crate::window_manager::Command;
use crate::window_manager::Configure;
use crate::window_manager::StackMode;
use crate::window_manager::WindowManager;
use crate::window_manager::configure_of;
use crate::window_manager::focus::stacking_commands;
use crate::window_manager::lifecycle::NewWindow;
use crate::window_manager::pointer::half;
use crate::window_manager::pointer::half_of;
use crate::window_manager::registry::Pick;

verus! {

/// Where an event was reported.
#[derive(Clone, Copy, Debug, PartialEq, Eq, Structural)]
pub enum Target {
    /// The window of the error message.
    ErrorOverlay,
    /// The window of the overview of the bindings.
    KeybindOverlay,
    /// The bar of a monitor; for a click, the tag under it.
    Bar { monitor: usize, tag: Option<usize> },
    /// The strip of tabs of a monitor, which is so many pixels wide.
    TabBar { monitor: usize, width: u16 },
    Root,
    Window(Window),
}

/// What the overlays show when an event arrives.
#[derive(Clone, Copy, Debug, PartialEq, Eq, Structural)]
pub struct OverlayState {
    pub error_visible: bool,
    pub keybind_visible: bool,
    /// The overview of the bindings was just opened and passes over input.
    pub keybind_suppress: bool,
}

/// A property of a window that changed.
#[derive(Debug)]
pub enum PropertyChange {
    /// The property was deleted.
    Deleted,
    TransientFor { parent: Option<Window> },
    /// The size hints, with the words of the property if it is not empty.
    NormalHints { words: Option<Vec<u32>> },
    /// The hints, with the words of the property if it could be read.
    Hints { words: Option<Vec<u32>> },
    /// The name, with the title if it could be read.
    Name { title: Option<String> },
    WindowType { is_dialog: bool, wants_fullscreen: bool },
    Other,
}

/// A message that a client sent.
#[derive(Clone, Copy, Debug, PartialEq, Eq, Structural)]
pub enum ClientMessage {
    /// A request for the fullscreen state: 0 to leave it, 1 to enter it,
    /// 2 to switch it.
    Fullscreen { action: u32 },
    /// A request for attention.
    Activate,
    Other,
}

/// Number of the pointer button that moves a window.
pub const MOVE_BUTTON: u8 = 1;

/// Number of the pointer button that resizes a window.
pub const RESIZE_BUTTON: u8 = 3;

/// A coordinate that centres an extent with its border in a span.
pub open spec fn centred(near: i32, span: i32, extent: i32, border: i32) -> int {
    held(near + (half(span) - half(held(extent + 2 * border) as i32)))
}

/// Computes `centred`.
pub fn centre_in(near: i32, span: i32, extent: i32, border: i32) -> (result: i32)
    ensures
        result == centred(near, span, extent, border),
{
    let whole = hold(extent as i64 + 2 * (border as i64));
    hold(near as i64 + (half_of(span) as i64 - half_of(whole) as i64))
}

/// A client after a configuration request of its window was followed on
/// the screen `screen`, with windows having borders of `border` pixels.
pub open spec fn granted(client: Client, screen: Rect, border: i32, request: Configure) -> Client {
    let x = match request.x {
        Some(value) => held(screen.x + value) as i32,
        None => client.x_position,
    };
    let y = match request.y {
        Some(value) => held(screen.y + value) as i32,
        None => client.y_position,
    };
    let width = match request.width {
        Some(value) => value,
        None => client.width,
    };
    let height = match request.height {
        Some(value) => value,
        None => client.height,
    };
    Client {
        old_x_position: if request.x.is_some() {
            client.x_position
        } else {
            client.old_x_position
        },
        old_y_position: if request.y.is_some() {
            client.y_position
        } else {
            client.old_y_position
        },
        old_width: if request.width.is_some() {
            client.width
        } else {
            client.old_width
        },
        old_height: if request.height.is_some() {
            client.height
        } else {
            client.old_height
        },
        x_position: if x + width > screen.x + screen.width && client.is_floating {
            centred(screen.x, screen.width, width, border) as i32
        } else {
            x
        },
        y_position: if y + height > screen.y + screen.height && client.is_floating {
            centred(screen.y, screen.height, height, border) as i32
        } else {
            y
        },
        width,
        height,
        ..client
    }
}

/// Computes `granted`.
pub fn grant(client: &mut Client, screen: &Rect, border: i32, request: &Configure)
    ensures
        *final(client) == granted(*old(client), *screen, border, *request),
{
    let floating = client.is_floating;
    let mut x = client.x_position;
    let mut y = client.y_position;
    let mut width = client.width;
    let mut height = client.height;
    match request.x {
        Some(value) => {
            client.old_x_position = x;
            x = hold(screen.x as i64 + value as i64);
        },
        None => {},
    }
    match request.y {
        Some(value) => {
            client.old_y_position = y;
            y = hold(screen.y as i64 + value as i64);
        },
        None => {},
    }
    match request.width {
        Some(value) => {
            client.old_width = width;
            width = value;
        },
        None => {},
    }
    match request.height {
        Some(value) => {
            client.old_height = height;
            height = value;
        },
        None => {},
    }
    if x as i64 + (width as i64) > screen.x as i64 + screen.width as i64 && floating {
        x = centre_in(screen.x, screen.width, width, border);
    }
    if y as i64 + (height as i64) > screen.y as i64 + screen.height as i64 && floating {
        y = centre_in(screen.y, screen.height, height, border);
    }
    client.x_position = x;
    client.y_position = y;
    client.width = width;
    client.height = height;
}

impl WindowManager {
    /// The state after a window asked to be mapped.  A window that asks
    /// not to be managed, or is managed already, is left alone.
    pub open spec fn after_map_request(
        self,
        before: WindowManager,
        window: Window,
        override_redirect: bool,
        info: NewWindow,
        issued: Seq<Command>,
        all: Seq<Command>,
    ) -> bool {
        if override_redirect || before.has(window) {
            self.untouched(before, issued, all)
        } else {
            self.has(window) && self.managed_from(before, window, info, issued, all)
        }
    }

    pub fn on_map_request(
        &mut self,
        window: Window,
        override_redirect: bool,
        info: &NewWindow,
        out: &mut Vec<Command>,
    )
        requires
            old(self).wf(),
        ensures
            final(self).wf(),
            old(self).consistent() ==> final(self).consistent(),
            old(self).orderly() ==> final(self).orderly(),
            final(self).after_map_request(
                *old(self),
                window,
                override_redirect,
                *info,
                old(out)@,
                final(out)@,
            ),
    {
        if override_redirect {
            return ;
        }
        self.manage_window(window, info, out);
    }

    /// The state after a window was let go, or after nothing happened
    /// where `goes` is not set.
    pub open spec fn after_release(
        self,
        before: WindowManager,
        window: Window,
        goes: bool,
        issued: Seq<Command>,
        all: Seq<Command>,
    ) -> bool {
        if goes && before.has(window) {
            !self.has(window) && self.removed_from(before, window, issued, all)
        } else {
            self.untouched(before, issued, all)
        }
    }

    /// A visible window that was unmapped is let go.
    pub fn on_unmap(&mut self, window: Window, out: &mut Vec<Command>)
        requires
            old(self).wf(),
        ensures
            final(self).wf(),
            old(self).consistent() ==> final(self).consistent(),
            old(self).orderly() ==> final(self).orderly(),
            final(self).after_release(
                *old(self),
                window,
                old(self).visible(window),
                old(out)@,
                final(out)@,
            ),
    {
        if self.is_visible(window) {
            self.remove_window(window, out);
        }
    }

    /// A window that was destroyed is let go.
    pub fn on_destroy(&mut self, window: Window, out: &mut Vec<Command>)
        requires
            old(self).wf(),
        ensures
            final(self).wf(),
            old(self).consistent() ==> final(self).consistent(),
            old(self).orderly() ==> final(self).orderly(),
            final(self).after_release(*old(self), window, true, old(out)@, final(out)@),
    {
        self.remove_window(window, out);
    }

    /// A window that becomes transient for the managed window `parent`
    /// begins to float, unless it floats already.
    pub open spec fn floats_for(self, window: Window, parent: Option<Window>) -> bool {
        self.has(window) && !self.client(window).is_floating && parent.is_some() && self.has(
            parent.unwrap(),
        )
    }

    /// The state after a property of a window changed.
    pub open spec fn after_property(
        self,
        before: WindowManager,
        window: Window,
        change: PropertyChange,
        issued: Seq<Command>,
        all: Seq<Command>,
    ) -> bool {
        if !before.has(window) {
            self.untouched(before, issued, all)
        } else {
            match change {
                PropertyChange::Deleted => self.untouched(before, issued, all),
                PropertyChange::TransientFor { parent } => if before.floats_for(window, parent) {
                    exists|floating: WindowManager|
                        #![auto]
                        floating.floats(before, window, true) && self.arranged_from(
                            floating,
                            issued,
                            all,
                        )
                } else {
                    self.untouched(before, issued, all)
                },
                PropertyChange::NormalHints { words } => self.after_update_size_hints(
                    before,
                    window,
                    words,
                ) && all == issued,
                PropertyChange::Hints { words } => exists|mid: Seq<Command>|
                    #![auto]
                    self.after_update_hints(before, window, words, issued, mid) && all == mid
                        + seq![Command::UpdateBar],
                PropertyChange::Name { title } => match title {
                    Some(text) => self.after_update_title(before, window, text) && all == issued
                        + (if before.layout == LayoutType::Tabbed {
                        seq![Command::UpdateTabBars]
                    } else {
                        Seq::empty()
                    }),
                    None => self.untouched(before, issued, all),
                },
                PropertyChange::WindowType { is_dialog, wants_fullscreen } => if wants_fullscreen
                    && is_dialog {
                    exists|filled: WindowManager|
                        #![auto]
                        filled.after_set_window_fullscreen(before, window, true, issued, all)
                            && self.after_make_floating(filled, window)
                } else if wants_fullscreen {
                    self.after_set_window_fullscreen(before, window, true, issued, all)
                } else if is_dialog {
                    self.after_make_floating(before, window) && all == issued
                } else {
                    self.untouched(before, issued, all)
                },
                PropertyChange::Other => self.untouched(before, issued, all),
            }
        }
    }

    pub fn on_property(&mut self, window: Window, change: PropertyChange, out: &mut Vec<Command>)
        requires
            old(self).wf(),
        ensures
            final(self).wf(),
            old(self).consistent() ==> final(self).consistent(),
            old(self).orderly() ==> final(self).orderly(),
            final(self).after_property(*old(self), window, change, old(out)@, final(out)@),
    {
        let ghost issued = out@;
        let index = match self.find(window) {
            Some(index) => index,
            None => {
                return ;
            },
        };
        proof {
            self.lemma_place(index as int);
        }
        match change {
            PropertyChange::Deleted => {},
            PropertyChange::TransientFor { parent } => {
                let adopts = !self.clients[index].is_floating && match parent {
                    Some(other) => self.find(other).is_some(),
                    None => false,
                };
                if adopts {
                    self.make_floating(window);
                    let ghost floating = *self;
                    self.arrange(out);
                    assert(floating.floats(*old(self), window, true));
                }
            },
            PropertyChange::NormalHints { words } => {
                self.update_size_hints(window, &words);
            },
            PropertyChange::Hints { words } => {
                self.update_window_hints(window, &words, out);
                let ghost mid = out@;
                out.push(Command::UpdateBar);
                assert(out@ =~= mid + seq![Command::UpdateBar]);
                assert(self.after_update_hints(*old(self), window, words, issued, mid));
            },
            PropertyChange::Name { title } => {
                match title {
                    Some(text) => {
                        let tabbed = match self.layout {
                            LayoutType::Tabbed => true,
                            _ => false,
                        };
                        self.update_window_title(window, text);
                        if tabbed {
                            out.push(Command::UpdateTabBars);
                        }
                        assert(out@ =~= issued + (if old(self).layout == LayoutType::Tabbed {
                            seq![Command::UpdateTabBars]
                        } else {
                            Seq::empty()
                        }));
                    },
                    None => {},
                }
            },
            PropertyChange::WindowType { is_dialog, wants_fullscreen } => {
                if wants_fullscreen {
                    self.set_window_fullscreen(window, true, out);
                }
                let ghost filled = *self;
                if is_dialog {
                    self.make_floating(window);
                }
                if wants_fullscreen && is_dialog {
                    assert(filled.after_set_window_fullscreen(
                        *old(self),
                        window,
                        true,
                        issued,
                        out@,
                    ));
                }
            },
            PropertyChange::Other => {},
        }
    }

    /// The state after the pointer entered a window.  Where it came in the
    /// normal way into a managed window, the monitor of the window is
    /// selected, the bars being drawn if that is a change, and the window
    /// is asked to be focused.
    pub open spec fn after_enter(
        self,
        before: WindowManager,
        window: Window,
        normal: bool,
        issued: Seq<Command>,
        all: Seq<Command>,
    ) -> bool {
        if normal && before.has(window) {
            let m = before.client(window).monitor_index;
            self.after_focus(before.on_monitor(m), Some(window)) && all == issued + (if m
                != before.selected_monitor {
                seq![Command::UpdateBar]
            } else {
                Seq::empty()
            }) + before.on_monitor(m).focus_commands(Some(window)) + seq![Command::UpdateTabBars]
        } else {
            self.untouched(before, issued, all)
        }
    }

    /// Selects a monitor.
    fn select_monitor(&mut self, monitor: usize)
        requires
            old(self).wf(),
            monitor < old(self).monitors@.len(),
        ensures
            final(self).wf(),
            old(self).consistent() ==> final(self).consistent(),
            old(self).orderly() ==> final(self).orderly(),
            *final(self) == old(self).on_monitor(monitor),
    {
        self.selected_monitor = monitor;
        proof {
            assert(self.same_shape(*old(self)));
            self.lemma_same_shape(*old(self));
            if old(self).consistent() {
                assert(self.same_members(*old(self)));
                self.lemma_consistent_carries(*old(self));
            }
        }
    }

    pub fn on_enter(&mut self, window: Window, normal: bool, out: &mut Vec<Command>)
        requires
            old(self).wf(),
        ensures
            final(self).wf(),
            old(self).consistent() ==> final(self).consistent(),
            old(self).orderly() ==> final(self).orderly(),
            final(self).after_enter(*old(self), window, normal, old(out)@, final(out)@),
    {
        if !normal {
            return ;
        }
        let index = match self.find(window) {
            Some(index) => index,
            None => {
                return ;
            },
        };
        proof {
            self.lemma_place(index as int);
            assert(self.clients@[index as int].wf());
        }
        let ghost issued = out@;
        let monitor = self.clients[index].monitor_index;
        if monitor != self.selected_monitor {
            self.select_monitor(monitor);
            out.push(Command::UpdateBar);
        } else {
            assert(*self == old(self).on_monitor(monitor));
        }
        self.focus(Some(window), out);
        out.push(Command::UpdateTabBars);
        assert(out@ =~= issued + (if monitor != old(self).selected_monitor {
            seq![Command::UpdateBar]
        } else {
            Seq::empty()
        }) + old(self).on_monitor(monitor).focus_commands(Some(window)) + seq![
            Command::UpdateTabBars,
        ]);
    }

    /// The monitor that the pointer moved onto: the first whose screen
    /// holds the point, if the motion was on the root and the monitor is
    /// not the selected one.
    pub open spec fn crossed_to(self, monitor: usize, on_root: bool, x: i32, y: i32) -> bool {
        &&& on_root
        &&& monitor < self.monitors@.len()
        &&& monitor != self.selected_monitor
        &&& self.monitors@[monitor as int].covers(x, y)
        &&& forall|k: int| 0 <= k < monitor ==> !self.monitors@[k].covers(x, y)
    }

    /// The state after the pointer moved.  Where it moved onto another
    /// monitor, that monitor is selected, the bars are drawn, and its
    /// first visible window in tiling order, if any, is asked to be
    /// focused.
    pub open spec fn after_motion(
        self,
        before: WindowManager,
        on_root: bool,
        x: i32,
        y: i32,
        issued: Seq<Command>,
        all: Seq<Command>,
    ) -> bool {
        if exists|monitor: usize| before.crossed_to(monitor, on_root, x, y) {
            let monitor = choose|monitor: usize| before.crossed_to(monitor, on_root, x, y);
            let shown = before.all_among(Pick::Shown, before.monitors@[monitor as int].clients@);
            if shown.len() > 0 {
                self.after_focus(before.on_monitor(monitor), Some(shown[0])) && all == issued
                    + seq![Command::UpdateBar] + before.on_monitor(monitor).focus_commands(
                    Some(shown[0]),
                ) + seq![Command::UpdateTabBars]
            } else {
                self == before.on_monitor(monitor) && all == issued + seq![Command::UpdateBar]
            }
        } else {
            self.untouched(before, issued, all)
        }
    }

    pub fn on_motion(&mut self, on_root: bool, x: i32, y: i32, out: &mut Vec<Command>)
        requires
            old(self).wf(),
        ensures
            final(self).wf(),
            old(self).consistent() ==> final(self).consistent(),
            old(self).orderly() ==> final(self).orderly(),
            final(self).after_motion(*old(self), on_root, x, y, old(out)@, final(out)@),
    {
        if !on_root {
            return ;
        }
        let ghost issued = out@;
        match self.get_monitor_at_point(x, y) {
            Some(monitor) => {
                if monitor == self.selected_monitor {
                    assert forall|other: usize| !old(self).crossed_to(other, on_root, x, y) by {
                        if old(self).crossed_to(other, on_root, x, y) {
                            if other < monitor {
                                assert(!old(self).monitors@[other as int].covers(x, y));
                            } else if monitor < other {
                                assert(!old(self).monitors@[monitor as int].covers(x, y));
                            }
                        }
                    }
                    return ;
                }
                proof {
                    assert(old(self).crossed_to(monitor, on_root, x, y));
                    let chosen = choose|other: usize| old(self).crossed_to(other, on_root, x, y);
                    if chosen < monitor {
                        assert(!old(self).monitors@[chosen as int].covers(x, y));
                    } else if monitor < chosen {
                        assert(!old(self).monitors@[monitor as int].covers(x, y));
                    }
                    assert(chosen == monitor);
                }
                let shown = self.visible_windows_on_monitor(monitor);
                self.select_monitor(monitor);
                out.push(Command::UpdateBar);
                if shown.len() > 0 {
                    self.focus(Some(shown[0]), out);
                    out.push(Command::UpdateTabBars);
                    assert(out@ =~= issued + seq![Command::UpdateBar] + old(self).on_monitor(
                        monitor,
                    ).focus_commands(Some(shown@[0])) + seq![Command::UpdateTabBars]);
                } else {
                    assert(out@ =~= issued + seq![Command::UpdateBar]);
                }
            },
            None => {
                assert forall|other: usize| !old(self).crossed_to(other, on_root, x, y) by {}
            },
        }
    }

    /// The state after the display server reported the input focus on a
    /// window: where that is not the selected client, the focus is claimed
    /// back for the selected client.
    pub open spec fn after_focus_in(
        self,
        before: WindowManager,
        window: Window,
        issued: Seq<Command>,
        all: Seq<Command>,
    ) -> bool {
        match before.focused() {
            Some(selected) => if selected != window {
                self == before.refocused(selected) && all == issued + before.refocus_commands(
                    selected,
                )
            } else {
                self.untouched(before, issued, all)
            },
            None => self.untouched(before, issued, all),
        }
    }

    pub fn on_focus_in(&mut self, window: Window, out: &mut Vec<Command>)
        requires
            old(self).wf(),
        ensures
            final(self).wf(),
            old(self).consistent() ==> final(self).consistent(),
            old(self).orderly() ==> final(self).orderly(),
            final(self).after_focus_in(*old(self), window, old(out)@, final(out)@),
    {
        match self.monitors[self.selected_monitor].selected_client {
            Some(selected) => {
                if selected != window {
                    self.set_focus(selected, out);
                }
            },
            None => {},
        }
    }

    /// The fullscreen state that a message asks for: on for 1, off for 0,
    /// the other than the present one for 2, none otherwise.
    pub open spec fn asked_state(self, window: Window, action: u32) -> Option<bool> {
        if action == 1 {
            Some(true)
        } else if action == 0 {
            Some(false)
        } else if action == 2 {
            Some(!self.client(window).is_fullscreen)
        } else {
            None
        }
    }

    /// The state after a client sent a message.  A request for the
    /// fullscreen state is followed; a request for attention marks the
    /// window urgent unless it has the focus or is urgent already.
    pub open spec fn after_client_message(
        self,
        before: WindowManager,
        window: Window,
        message: ClientMessage,
        issued: Seq<Command>,
        all: Seq<Command>,
    ) -> bool {
        if !before.has(window) {
            self.untouched(before, issued, all)
        } else {
            match message {
                ClientMessage::Fullscreen { action } => match before.asked_state(window, action) {
                    Some(fullscreen) => self.after_set_window_fullscreen(
                        before,
                        window,
                        fullscreen,
                        issued,
                        all,
                    ),
                    None => self.untouched(before, issued, all),
                },
                ClientMessage::Activate => if before.focused() != Some(window) && !before.client(
                    window,
                ).is_urgent {
                    self.after_set_urgent(before, window, true, issued, all)
                } else {
                    self.untouched(before, issued, all)
                },
                ClientMessage::Other => self.untouched(before, issued, all),
            }
        }
    }

    pub fn on_client_message(&mut self, window: Window, message: ClientMessage, out: &mut Vec<
        Command,
    >)
        requires
            old(self).wf(),
        ensures
            final(self).wf(),
            old(self).consistent() ==> final(self).consistent(),
            old(self).orderly() ==> final(self).orderly(),
            final(self).after_client_message(*old(self), window, message, old(out)@, final(out)@),
    {
        let index = match self.find(window) {
            Some(index) => index,
            None => {
                return ;
            },
        };
        proof {
            self.lemma_place(index as int);
        }
        match message {
            ClientMessage::Fullscreen { action } => {
                let fullscreen = if action == 1 {
                    true
                } else if action == 0 {
                    false
                } else if action == 2 {
                    !self.clients[index].is_fullscreen
                } else {
                    return ;
                };
                self.set_window_fullscreen(window, fullscreen, out);
            },
            ClientMessage::Activate => {
                let focused = match self.monitors[self.selected_monitor].selected_client {
                    Some(selected) => selected == window,
                    None => false,
                };
                if !focused && !self.clients[index].is_urgent {
                    self.set_urgent(window, true, out);
                }
            },
            ClientMessage::Other => {},
        }
    }

    /// The commands after the keymap changed: the keys are grabbed again
    /// where the keyboard part of it changed.
    pub open spec fn mapping_commands(self, keyboard: bool) -> Seq<Command> {
        if keyboard {
            seq![Command::GrabKeys { depth: self.current_key }]
        } else {
            Seq::empty()
        }
    }

    pub fn on_mapping(&self, keyboard: bool, out: &mut Vec<Command>)
        ensures
            final(out)@ == old(out)@ + self.mapping_commands(keyboard),
    {
        if keyboard {
            out.push(Command::GrabKeys { depth: self.current_key });
        }
        assert(final(out)@ =~= old(out)@ + self.mapping_commands(keyboard));
    }

    /// The commands after a window was exposed: the bar, the strips of
    /// tabs or an overlay that is shown is drawn again.
    pub open spec fn expose_commands(target: Target, overlay: OverlayState) -> Seq<Command> {
        match target {
            Target::ErrorOverlay => if overlay.error_visible {
                seq![Command::DrawErrorOverlay]
            } else {
                Seq::empty()
            },
            Target::KeybindOverlay => if overlay.keybind_visible {
                seq![Command::DrawKeybindOverlay]
            } else {
                Seq::empty()
            },
            Target::Bar { monitor, tag } => seq![Command::UpdateBar],
            Target::TabBar { monitor, width } => seq![Command::UpdateTabBars],
            _ => Seq::empty(),
        }
    }

    pub fn on_expose(target: Target, overlay: OverlayState, out: &mut Vec<Command>)
        ensures
            final(out)@ == old(out)@ + Self::expose_commands(target, overlay),
    {
        match target {
            Target::ErrorOverlay => {
                if overlay.error_visible {
                    out.push(Command::DrawErrorOverlay);
                }
            },
            Target::KeybindOverlay => {
                if overlay.keybind_visible {
                    out.push(Command::DrawKeybindOverlay);
                }
            },
            Target::Bar { monitor, tag } => {
                out.push(Command::UpdateBar);
            },
            Target::TabBar { monitor, width } => {
                out.push(Command::UpdateTabBars);
            },
            _ => {},
        }
        assert(final(out)@ =~= old(out)@ + Self::expose_commands(target, overlay));
    }

    /// The state after the root window changed: where its size changed,
    /// the screen is read again and the windows are arranged.
    pub open spec fn after_root_change(
        self,
        before: WindowManager,
        resized: bool,
        issued: Seq<Command>,
        all: Seq<Command>,
    ) -> bool {
        if resized {
            self.arranged_from(before, issued + seq![Command::RefreshScreen], all)
        } else {
            self.untouched(before, issued, all)
        }
    }

    pub fn on_root_change(&mut self, resized: bool, out: &mut Vec<Command>)
        requires
            old(self).wf(),
        ensures
            final(self).wf(),
            old(self).consistent() ==> final(self).consistent(),
            old(self).orderly() ==> final(self).orderly(),
            final(self).after_root_change(*old(self), resized, old(out)@, final(out)@),
    {
        if resized {
            out.push(Command::RefreshScreen);
            assert(out@ =~= old(out)@ + seq![Command::RefreshScreen]);
            self.arrange(out);
        }
    }

    /// The client after a configuration request of its window was
    /// followed.  A position is taken relative to the screen of the
    /// monitor; what the request changes is kept as the old geometry; a
    /// floating window that would end beyond the screen is centred on it.
    pub open spec fn requested(self, client: Client, request: Configure) -> Client {
        granted(
            client,
            self.monitors@[client.monitor_index as int].screen(),
            held(self.config.border_width as int) as i32,
            request,
        )
    }

    /// Computes `requested` for the client at `index` and puts it in its
    /// place.
    fn follow_request(&mut self, index: usize, request: &Configure)
        requires
            old(self).wf(),
            index < old(self).clients@.len(),
        ensures
            final(self).wf(),
            old(self).consistent() ==> final(self).consistent(),
            old(self).orderly() ==> final(self).orderly(),
            final(self).client_replaced(*old(self), index as int),
            final(self).clients@[index as int] == old(self).requested(
                old(self).clients@[index as int],
                *request,
            ),
    {
        let monitor = &self.monitors[self.clients[index].monitor_index];
        let screen = Rect {
            x: monitor.screen_x,
            y: monitor.screen_y,
            width: monitor.screen_width,
            height: monitor.screen_height,
        };
        let border = hold_length(self.config.border_width);
        grant(&mut self.clients[index], &screen, border, request);
        proof {
            assert(self.clients@ =~= old(self).clients@.update(
                index as int,
                self.clients@[index as int],
            ));
            assert(old(self).clients@[index as int].wf());
            self.lemma_client_replaced(*old(self), index as int);
        }
    }

    /// The command that tells a client the geometry it has.
    pub open spec fn notify_command(client: Client) -> Command {
        Command::ConfigureNotify {
            window: client.window,
            x: client.x_position,
            y: client.y_position,
            width: client.width,
            height: client.height,
            border_width: client.border_width,
        }
    }

    /// The request moves the window without changing its size.
    pub open spec fn only_moves(request: Configure) -> bool {
        (request.x.is_some() || request.y.is_some()) && request.width.is_none()
            && request.height.is_none()
    }

    /// The state after a window asked for a configuration.  A window that
    /// is not managed has its request passed on.  A managed window has a
    /// new border width noted; else, if it is free of the layout, it gets
    /// what it asks for, is told so where it only moves, and is
    /// configured where it is visible; else it is told the geometry it
    /// has.
    pub open spec fn after_configure_request(
        self,
        before: WindowManager,
        request: Configure,
        issued: Seq<Command>,
        all: Seq<Command>,
    ) -> bool {
        let window = request.window;
        if !before.has(window) {
            self == before && all == issued + seq![Command::PassConfigure(request)]
        } else {
            let client = before.client(window);
            match request.border_width {
                Some(border_width) => self.client_set(
                    before,
                    window,
                    Client { border_width, ..client },
                ) && all == issued,
                None => if before.is_free(client) {
                    let granted = before.requested(client, request);
                    self.client_set(before, window, granted) && all == issued + (
                    if Self::only_moves(request) {
                        seq![Self::notify_command(granted)]
                    } else {
                        Seq::empty()
                    }) + (if before.visible(window) {
                        seq![
                            Command::Configure(
                                Configure {
                                    x: Some(granted.x_position),
                                    y: Some(granted.y_position),
                                    width: Some(granted.width),
                                    height: Some(granted.height),
                                    ..configure_of(window)
                                },
                            ),
                        ]
                    } else {
                        Seq::empty()
                    })
                } else {
                    self == before && all == issued + seq![Self::notify_command(client)]
                },
            }
        }
    }

    /// Issues `notify_command`.
    fn notify(client: &Client, out: &mut Vec<Command>)
        ensures
            final(out)@ == old(out)@ + seq![Self::notify_command(*client)],
    {
        out.push(
            Command::ConfigureNotify {
                window: client.window,
                x: client.x_position,
                y: client.y_position,
                width: client.width,
                height: client.height,
                border_width: client.border_width,
            },
        );
        assert(final(out)@ =~= old(out)@ + seq![Self::notify_command(*client)]);
    }

    /// Notes a border width for the client at `index`.
    fn set_border(&mut self, index: usize, border_width: i32)
        requires
            old(self).wf(),
            index < old(self).clients@.len(),
        ensures
            final(self).wf(),
            old(self).consistent() ==> final(self).consistent(),
            old(self).orderly() ==> final(self).orderly(),
            final(self).client_replaced(*old(self), index as int),
            final(self).clients@[index as int] == (Client {
                border_width,
                ..old(self).clients@[index as int]
            }),
    {
        self.clients[index].border_width = border_width;
        proof {
            assert(self.clients@ =~= old(self).clients@.update(
                index as int,
                self.clients@[index as int],
            ));
            assert(old(self).clients@[index as int].wf());
            self.lemma_client_replaced(*old(self), index as int);
        }
    }

    pub fn on_configure_request(&mut self, request: &Configure, out: &mut Vec<Command>)
        requires
            old(self).wf(),
        ensures
            final(self).wf(),
            old(self).consistent() ==> final(self).consistent(),
            old(self).orderly() ==> final(self).orderly(),
            final(self).after_configure_request(*old(self), *request, old(out)@, final(out)@),
    {
        let ghost issued = out@;
        let window = request.window;
        let index = match self.find(window) {
            Some(index) => index,
            None => {
                out.push(Command::PassConfigure(*request));
                assert(out@ =~= issued + seq![Command::PassConfigure(*request)]);
                return ;
            },
        };
        proof {
            self.lemma_place(index as int);
        }
        match request.border_width {
            Some(border_width) => {
                self.set_border(index, border_width);
            },
            None => {
                let free = self.clients[index].is_floating || self.has_no_layout();
                if free {
                    let shown = self.is_visible(window);
                    self.follow_request(index, request);
                    let only_moves = (request.x.is_some() || request.y.is_some())
                        && request.width.is_none() && request.height.is_none();
                    if only_moves {
                        Self::notify(&self.clients[index], out);
                    }
                    if shown {
                        let client = &self.clients[index];
                        let mut configure = crate::window_manager::configure(window);
                        configure.x = Some(client.x_position);
                        configure.y = Some(client.y_position);
                        configure.width = Some(client.width);
                        configure.height = Some(client.height);
                        out.push(Command::Configure(configure));
                    }
                    proof {
                        let granted = old(self).requested(old(self).client(window), *request);
                        assert(out@ =~= issued + (if Self::only_moves(*request) {
                            seq![Self::notify_command(granted)]
                        } else {
                            Seq::empty()
                        }) + (if old(self).visible(window) {
                            seq![
                                Command::Configure(
                                    Configure {
                                        x: Some(granted.x_position),
                                        y: Some(granted.y_position),
                                        width: Some(granted.width),
                                        height: Some(granted.height),
                                        ..configure_of(window)
                                    },
                                ),
                            ]
                        } else {
                            Seq::empty()
                        }));
                    }
                } else {
                    Self::notify(&self.clients[index], out);
                }
            },
        }
    }

    /// The bit of the configured modifier key is set in a modifier state,
    /// lock modifiers set aside.
    pub open spec fn holds_modkey(self, state: u16) -> bool {
        clean(state) & self.config.modkey != 0
    }

    /// The commands that follow a button press on a client window, after
    /// the focus went to it: with the modifier key held, the first button
    /// begins a move and the third a resize of a managed window; the press
    /// is replayed to the client in every case.
    pub open spec fn press_tail(
        self,
        window: Window,
        state: u16,
        button: u8,
        time: u32,
    ) -> Seq<Command> {
        (if self.holds_modkey(state) && button == MOVE_BUTTON && self.has(window) {
            seq![Command::BeginMove { window }]
        } else if self.holds_modkey(state) && button == RESIZE_BUTTON && self.has(window) {
            seq![Command::BeginResize { window }]
        } else {
            Seq::empty()
        }) + seq![Command::ReplayPointer { time }]
    }

    /// The state after a button press on a client window: the window is
    /// asked to be focused, the windows are stacked, the strips of tabs
    /// drawn, and the press is followed up.
    pub open spec fn after_client_press(
        self,
        before: WindowManager,
        window: Window,
        state: u16,
        button: u8,
        time: u32,
        issued: Seq<Command>,
        all: Seq<Command>,
    ) -> bool {
        self.after_focus(before, Some(window)) && all == issued + before.focus_commands(
            Some(window),
        ) + stacking_commands(self.stacking_order()) + seq![Command::UpdateTabBars]
            + self.press_tail(window, state, button, time)
    }

    /// Follows a button press on a client window.
    pub fn press_on_client(
        &mut self,
        window: Window,
        state: u16,
        button: u8,
        time: u32,
        out: &mut Vec<Command>,
    )
        requires
            old(self).wf(),
        ensures
            final(self).wf(),
            old(self).consistent() ==> final(self).consistent(),
            old(self).orderly() ==> final(self).orderly(),
            final(self).after_client_press(
                *old(self),
                window,
                state,
                button,
                time,
                old(out)@,
                final(out)@,
            ),
    {
        let ghost issued = out@;
        self.focus(Some(window), out);
        self.restack(out);
        out.push(Command::UpdateTabBars);
        let modkey_held = clean_state(state) & self.config.modkey != 0;
        let managed = self.find(window).is_some();
        if modkey_held && button == MOVE_BUTTON && managed {
            out.push(Command::BeginMove { window });
        } else if modkey_held && button == RESIZE_BUTTON && managed {
            out.push(Command::BeginResize { window });
        }
        out.push(Command::ReplayPointer { time });
        assert(out@ =~= issued + old(self).focus_commands(Some(window)) + stacking_commands(
            self.stacking_order(),
        ) + seq![Command::UpdateTabBars] + self.press_tail(window, state, button, time));
    }

    /// The state after a click on the bar of a monitor: where a tag is
    /// under the click, the monitor is selected, if it exists, and the tag
    /// is brought into view.
    pub open spec fn after_bar_click(
        self,
        before: WindowManager,
        monitor: usize,
        tag: Option<usize>,
        issued: Seq<Command>,
        all: Seq<Command>,
    ) -> bool {
        match tag {
            Some(tag_index) => self.after_view_tag(
                if monitor < before.monitors@.len() {
                    before.on_monitor(monitor)
                } else {
                    before
                },
                tag_index,
                issued,
                all,
            ),
            None => self.untouched(before, issued, all),
        }
    }

    /// Follows a click on the bar of a monitor.
    pub fn click_on_bar(&mut self, monitor: usize, tag: Option<usize>, out: &mut Vec<Command>)
        requires
            old(self).wf(),
        ensures
            final(self).wf(),
            old(self).consistent() ==> final(self).consistent(),
            old(self).orderly() ==> final(self).orderly(),
            final(self).after_bar_click(*old(self), monitor, tag, old(out)@, final(out)@),
    {
        match tag {
            Some(tag_index) => {
                if monitor < self.monitors.len() {
                    self.select_monitor(monitor);
                }
                self.view_tag(tag_index, out);
            },
            None => {},
        }
    }

    /// The window whose tab lies under a click on the strip of tabs of a
    /// monitor.
    pub open spec fn tab_clicked(self, monitor: usize, width: u16, click_x: i16) -> Option<Window> {
        let tabs = self.all_among(Pick::Tabbed(monitor), self.windows());
        match tab_under(width, tabs.len(), click_x) {
            Some(place) => Some(tabs[place]),
            None => None,
        }
    }

    /// The state after a click on the strip of tabs of a monitor: the
    /// monitor is selected, if it exists, and the window whose tab lies
    /// under the click is raised and asked to be focused.
    pub open spec fn after_tab_click(
        self,
        before: WindowManager,
        monitor: usize,
        width: u16,
        click_x: i16,
        issued: Seq<Command>,
        all: Seq<Command>,
    ) -> bool {
        let selected = if monitor < before.monitors@.len() {
            before.on_monitor(monitor)
        } else {
            before
        };
        match before.tab_clicked(monitor, width, click_x) {
            Some(window) => self.after_focus(selected, Some(window)) && all == issued + seq![
                Command::Configure(
                    Configure { stack_mode: Some(StackMode::Above), ..configure_of(window) },
                ),
            ] + selected.focus_commands(Some(window)) + seq![Command::UpdateTabBars],
            None => self == selected && all == issued,
        }
    }

    /// Follows a click on the strip of tabs of a monitor.
    pub fn click_on_tab_bar(&mut self, monitor: usize, width: u16, click_x: i16, out: &mut Vec<
        Command,
    >)
        requires
            old(self).wf(),
        ensures
            final(self).wf(),
            old(self).consistent() ==> final(self).consistent(),
            old(self).orderly() ==> final(self).orderly(),
            final(self).after_tab_click(*old(self), monitor, width, click_x, old(out)@, final(out)@),
    {
        let ghost issued = out@;
        let tabs = self.tab_windows(monitor);
        if monitor < self.monitors.len() {
            self.select_monitor(monitor);
        }
        match tab_at_click(width, tabs.len(), click_x) {
            Some(place) => {
                let window = tabs[place];
                let ghost selected = *self;
                let mut request = crate::window_manager::configure(window);
                request.stack_mode = Some(StackMode::Above);
                out.push(Command::Configure(request));
                self.focus(Some(window), out);
                out.push(Command::UpdateTabBars);
                assert(out@ =~= issued + seq![
                    Command::Configure(
                        Configure { stack_mode: Some(StackMode::Above), ..configure_of(window) },
                    ),
                ] + selected.focus_commands(Some(window)) + seq![Command::UpdateTabBars]);
            },
            None => {},
        }
    }

    /// The state after a button press.  The overview of the bindings is
    /// hidden by a press elsewhere.  A press on a bar or a strip of tabs
    /// is a click on it; a press on a client window, reported for the
    /// window or for a child of the root, is followed on that window; any
    /// other press is replayed.
    pub open spec fn after_button_press(
        self,
        before: WindowManager,
        target: Target,
        child: Option<Window>,
        state: u16,
        button: u8,
        click_x: i16,
        time: u32,
        overlay: OverlayState,
        issued: Seq<Command>,
        all: Seq<Command>,
    ) -> bool {
        let hidden = issued + (if overlay.keybind_visible && target != Target::KeybindOverlay {
            seq![Command::HideKeybindOverlay]
        } else {
            Seq::empty()
        });
        match target {
            Target::Bar { monitor, tag } => self.after_bar_click(before, monitor, tag, hidden, all),
            Target::TabBar { monitor, width } => self.after_tab_click(
                before,
                monitor,
                width,
                click_x,
                hidden,
                all,
            ),
            _ => match before.pressed_client(target, child) {
                Some(window) => self.after_client_press(
                    before,
                    window,
                    state,
                    button,
                    time,
                    hidden,
                    all,
                ),
                None => self == before && all == hidden + seq![Command::ReplayPointer { time }],
            },
        }
    }

    /// The client window that a button press is on: the child of the root
    /// that it was reported for, if any; else the window it was reported
    /// on, if that is managed.
    pub open spec fn pressed_client(self, target: Target, child: Option<Window>) -> Option<Window> {
        match child {
            Some(window) => Some(window),
            None => match target {
                Target::Window(window) => if self.has(window) {
                    Some(window)
                } else {
                    None
                },
                _ => None,
            },
        }
    }

    pub fn on_button_press(
        &mut self,
        target: Target,
        child: Option<Window>,
        state: u16,
        button: u8,
        click_x: i16,
        time: u32,
        overlay: OverlayState,
        out: &mut Vec<Command>,
    )
        requires
            old(self).wf(),
        ensures
            final(self).wf(),
            old(self).consistent() ==> final(self).consistent(),
            old(self).orderly() ==> final(self).orderly(),
            final(self).after_button_press(
                *old(self),
                target,
                child,
                state,
                button,
                click_x,
                time,
                overlay,
                old(out)@,
                final(out)@,
            ),
    {
        let ghost issued = out@;
        let elsewhere = match target {
            Target::KeybindOverlay => false,
            _ => true,
        };
        if overlay.keybind_visible && elsewhere {
            out.push(Command::HideKeybindOverlay);
        }
        let ghost hidden = out@;
        assert(hidden =~= issued + (if overlay.keybind_visible && target != Target::KeybindOverlay {
            seq![Command::HideKeybindOverlay]
        } else {
            Seq::empty()
        }));
        match target {
            Target::Bar { monitor, tag } => {
                self.click_on_bar(monitor, tag, out);
            },
            Target::TabBar { monitor, width } => {
                self.click_on_tab_bar(monitor, width, click_x, out);
            },
            _ => {
                let pressed = match child {
                    Some(window) => Some(window),
                    None => match target {
                        Target::Window(window) => if self.find(window).is_some() {
                            Some(window)
                        } else {
                            None
                        },
                        _ => None,
                    },
                };
                match pressed {
                    Some(window) => {
                        self.press_on_client(window, state, button, time, out);
                    },
                    None => {
                        out.push(Command::ReplayPointer { time });
                        assert(out@ =~= hidden + seq![Command::ReplayPointer { time }]);
                    },
                }
            },
        }
    }

    /// The state with no chord in progress.
    pub open spec fn chord_reset(self) -> WindowManager {
        WindowManager { keychord_state: KeychordState::Idle, current_key: 0, ..self }
    }

    /// The commands after the chord state changed: the keys for the depth
    /// reached are grabbed and the bars drawn.
    pub open spec fn chord_commands(depth: usize) -> Seq<Command> {
        seq![Command::GrabKeys { depth }, Command::UpdateBar]
    }

    /// The depth of a chord one key further on.
    pub open spec fn deeper(self) -> usize {
        if self.current_key < usize::MAX {
            (self.current_key + 1) as usize
        } else {
            self.current_key
        }
    }

    /// The state after a key press was resolved to `result`, with what the
    /// event loop is to do: `Some(false)` to quit.  A binding that fired
    /// ends the chord and is acted on; quitting is left to the loop and a
    /// restart asks for the configuration to be read again.  A chord that
    /// goes on is one key deeper.  A chord that was cancelled, or a key
    /// that is not bound, ends the chord.
    pub open spec fn after_key(
        self,
        before: WindowManager,
        result: KeychordResult,
        answer: Option<bool>,
        issued: Seq<Command>,
        all: Seq<Command>,
    ) -> bool {
        match result {
            KeychordResult::Completed(action, arg) => match action {
                KeyAction::Quit => self == before.chord_reset() && all == issued
                    + Self::chord_commands(0) && answer == Some(false),
                KeyAction::Restart => self == before.chord_reset() && all == issued
                    + Self::chord_commands(0) + seq![Command::ReloadConfig] && answer.is_none(),
                _ => self.acted(
                    before.chord_reset(),
                    action,
                    arg,
                    issued + Self::chord_commands(0),
                    all,
                ) && answer.is_none(),
            },
            KeychordResult::InProgress(candidates) => self == (WindowManager {
                keychord_state: KeychordState::InProgress {
                    candidates,
                    keys_pressed: before.deeper(),
                },
                current_key: before.deeper(),
                ..before
            }) && all == issued + Self::chord_commands(before.deeper()) && answer.is_none(),
            _ => self == before.chord_reset() && all == issued + Self::chord_commands(0)
                && answer.is_none(),
        }
    }

    /// Ends the chord.
    fn reset_chord(&mut self, out: &mut Vec<Command>)
        requires
            old(self).wf(),
        ensures
            final(self).wf(),
            old(self).consistent() ==> final(self).consistent(),
            old(self).orderly() ==> final(self).orderly(),
            *final(self) == old(self).chord_reset(),
            final(out)@ == old(out)@ + Self::chord_commands(0),
    {
        self.keychord_state = KeychordState::Idle;
        self.current_key = 0;
        out.push(Command::GrabKeys { depth: 0 });
        out.push(Command::UpdateBar);
        proof {
            assert(final(out)@ =~= old(out)@ + Self::chord_commands(0));
            assert(self.same_shape(*old(self)));
            self.lemma_same_shape(*old(self));
            if old(self).consistent() {
                assert(self.same_members(*old(self)));
                self.lemma_consistent_carries(*old(self));
            }
        }
    }

    /// Takes a chord one key further.
    fn deepen_chord(&mut self, candidates: Vec<usize>, out: &mut Vec<Command>)
        requires
            old(self).wf(),
        ensures
            final(self).wf(),
            old(self).consistent() ==> final(self).consistent(),
            old(self).orderly() ==> final(self).orderly(),
            *final(self) == (WindowManager {
                keychord_state: KeychordState::InProgress {
                    candidates,
                    keys_pressed: old(self).deeper(),
                },
                current_key: old(self).deeper(),
                ..*old(self)
            }),
            final(out)@ == old(out)@ + Self::chord_commands(old(self).deeper()),
    {
        if self.current_key < usize::MAX {
            self.current_key = self.current_key + 1;
        }
        self.keychord_state = KeychordState::InProgress {
            candidates,
            keys_pressed: self.current_key,
        };
        out.push(Command::GrabKeys { depth: self.current_key });
        out.push(Command::UpdateBar);
        proof {
            assert(final(out)@ =~= old(out)@ + Self::chord_commands(old(self).deeper()));
            assert(self.same_shape(*old(self)));
            self.lemma_same_shape(*old(self));
            if old(self).consistent() {
                assert(self.same_members(*old(self)));
                self.lemma_consistent_carries(*old(self));
            }
        }
    }

    /// Where the chord stands after a key press was resolved to `result`:
    /// one key deeper while it goes on, and at rest otherwise, whatever
    /// the action that fired did.
    pub open spec fn chord_after(self, before: WindowManager, result: KeychordResult) -> bool {
        match result {
            KeychordResult::InProgress(candidates) => self.keychord_state
                == (KeychordState::InProgress { candidates, keys_pressed: before.deeper() })
                && self.current_key == before.deeper(),
            _ => self.keychord_state == KeychordState::Idle && self.current_key == 0,
        }
    }

    /// Acts on the result of a key press.
    pub fn follow_key(&mut self, result: KeychordResult, out: &mut Vec<Command>) -> (answer: Option<
        bool,
    >)
        requires
            old(self).wf(),
        ensures
            final(self).wf(),
            old(self).consistent() ==> final(self).consistent(),
            old(self).orderly() ==> final(self).orderly(),
            final(self).after_key(*old(self), result, answer, old(out)@, final(out)@),
            final(self).chord_after(*old(self), result),
    {
        match result {
            KeychordResult::Completed(action, arg) => {
                self.reset_chord(out);
                match action {
                    KeyAction::Quit => Some(false),
                    KeyAction::Restart => {
                        out.push(Command::ReloadConfig);
                        assert(final(out)@ =~= old(out)@ + Self::chord_commands(0) + seq![
                            Command::ReloadConfig,
                        ]);
                        None
                    },
                    _ => {
                        self.handle_key_action(action, &arg, out);
                        None
                    },
                }
            },
            KeychordResult::InProgress(candidates) => {
                self.deepen_chord(candidates, out);
                None
            },
            _ => {
                self.reset_chord(out);
                None
            },
        }
    }

    /// The key press is one for the engine's bindings: it was not reported
    /// on an overlay and the keymap is known.
    pub open spec fn binds(self, target: Target) -> bool {
        target != Target::ErrorOverlay && target != Target::KeybindOverlay
            && self.keyboard_mapping.is_some()
    }

    /// The commands after a key press on an overlay: the error message is
    /// hidden by any key, the overview of the bindings by Escape or Q.
    pub open spec fn overlay_key_commands(
        self,
        target: Target,
        key: KeyPressEvent,
        overlay: OverlayState,
    ) -> Seq<Command> {
        match target {
            Target::ErrorOverlay => if overlay.error_visible {
                seq![Command::HideErrorOverlay]
            } else {
                Seq::empty()
            },
            Target::KeybindOverlay => if overlay.keybind_visible && !overlay.keybind_suppress
                && self.keyboard_mapping.is_some() && (self.keyboard_mapping.unwrap().symbol(
                key.detail,
            ) == XK_ESCAPE || self.keyboard_mapping.unwrap().symbol(key.detail) == XK_Q
                || self.keyboard_mapping.unwrap().symbol(key.detail) == XK_CAPITAL_Q) {
                seq![Command::HideKeybindOverlay]
            } else {
                Seq::empty()
            },
            _ => Seq::empty(),
        }
    }

    /// The state after a key press, with what the event loop is to do.  A
    /// press on an overlay concerns the overlay only.  Another press is
    /// resolved against the bindings in the chord state at hand, and the
    /// result is acted on; the chord then stands as the result says.
    pub open spec fn after_key_press(
        self,
        before: WindowManager,
        target: Target,
        key: KeyPressEvent,
        overlay: OverlayState,
        answer: Option<bool>,
        issued: Seq<Command>,
        all: Seq<Command>,
    ) -> bool {
        if before.binds(target) {
            exists|result: KeychordResult|
                #![auto]
                resolves_press(
                    result,
                    before.config.keybindings@,
                    before.keychord_state,
                    before.keyboard_mapping.unwrap().symbol(key.detail),
                    clean(key.state),
                ) && self.after_key(before, result, answer, issued, all) && self.chord_after(
                    before,
                    result,
                )
        } else {
            self == before && all == issued + before.overlay_key_commands(target, key, overlay)
                && answer.is_none()
        }
    }

    pub fn on_key_press(
        &mut self,
        target: Target,
        key: KeyPressEvent,
        overlay: OverlayState,
        out: &mut Vec<Command>,
    ) -> (answer: Option<bool>)
        requires
            old(self).wf(),
        ensures
            final(self).wf(),
            old(self).consistent() ==> final(self).consistent(),
            old(self).orderly() ==> final(self).orderly(),
            final(self).after_key_press(
                *old(self),
                target,
                key,
                overlay,
                answer,
                old(out)@,
                final(out)@,
            ),
    {
        match target {
            Target::ErrorOverlay => {
                if overlay.error_visible {
                    out.push(Command::HideErrorOverlay);
                }
                assert(final(out)@ =~= old(out)@ + old(self).overlay_key_commands(
                    target,
                    key,
                    overlay,
                ));
                return None;
            },
            Target::KeybindOverlay => {
                if overlay.keybind_visible && !overlay.keybind_suppress {
                    match &self.keyboard_mapping {
                        Some(mapping) => {
                            let keysym = mapping.keycode_to_keysym(key.detail);
                            if keysym == XK_ESCAPE || keysym == XK_Q || keysym == XK_CAPITAL_Q {
                                out.push(Command::HideKeybindOverlay);
                            }
                        },
                        None => {},
                    }
                }
                assert(final(out)@ =~= old(out)@ + old(self).overlay_key_commands(
                    target,
                    key,
                    overlay,
                ));
                return None;
            },
            _ => {},
        }
        let result = match &self.keyboard_mapping {
            Some(mapping) => handle_key_press(
                key,
                self.config.keybindings.as_slice(),
                &self.keychord_state,
                mapping,
            ),
            None => {
                assert(final(out)@ =~= old(out)@ + old(self).overlay_key_commands(
                    target,
                    key,
                    overlay,
                ));
                return None;
            },
        };
        let ghost resolved = result;
        let answer = self.follow_key(result, out);
        assert(resolves_press(
            resolved,
            old(self).config.keybindings@,
            old(self).keychord_state,
            old(self).keyboard_mapping.unwrap().symbol(key.detail),
            clean(key.state),
        ));
        answer
    }

    /// The state after the configuration was read again: it is in force,
    /// gaps are as it says, no error stands, the error message is hidden,
    /// the windows are arranged and the bars drawn.
    pub open spec fn after_reload(
        self,
        before: WindowManager,
        config: Config,
        issued: Seq<Command>,
        all: Seq<Command>,
    ) -> bool {
        exists|mid: Seq<Command>|
            #![auto]
            self.arranged_from(
                WindowManager {
                    config,
                    gaps_enabled: config.gaps_enabled,
                    error_message: None,
                    ..before
                },
                issued + seq![Command::HideErrorOverlay],
                mid,
            ) && all == mid + seq![Command::UpdateBar]
    }

    /// Puts a configuration in force that was read again.
    pub fn set_config(&mut self, config: Config, out: &mut Vec<Command>)
        requires
            old(self).wf(),
        ensures
            final(self).wf(),
            old(self).consistent() ==> final(self).consistent(),
            old(self).orderly() ==> final(self).orderly(),
            final(self).after_reload(*old(self), config, old(out)@, final(out)@),
    {
        self.gaps_enabled = config.gaps_enabled;
        self.config = config;
        self.error_message = None;
        out.push(Command::HideErrorOverlay);
        proof {
            assert(out@ =~= old(out)@ + seq![Command::HideErrorOverlay]);
            assert(self.same_shape(*old(self)));
            self.lemma_same_shape(*old(self));
            if old(self).consistent() {
                assert(self.same_members(*old(self)));
                self.lemma_consistent_carries(*old(self));
            }
        }
        let ghost changed = *self;
        assert(changed == (WindowManager {
            config,
            gaps_enabled: config.gaps_enabled,
            error_message: None,
            ..*old(self)
        }));
        self.arrange(out);
        let ghost mid = out@;
        out.push(Command::UpdateBar);
        assert(out@ =~= mid + seq![Command::UpdateBar]);
        assert(self.arranged_from(
            WindowManager {
                config,
                gaps_enabled: config.gaps_enabled,
                error_message: None,
                ..*old(self)
            },
            old(out)@ + seq![Command::HideErrorOverlay],
            mid,
        ));
    }

    /// Keeps the configuration in force when reading it again failed, and
    /// notes the error for the overlay to show.
    pub fn reload_failed(&mut self, message: String)
        ensures
            *final(self) == (WindowManager { error_message: Some(message), ..*old(self) }),
    {
        self.error_message = Some(message);
    }
}

} // verus!
