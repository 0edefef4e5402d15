//! The life of a managed window: taking it under management, its
//! fullscreen and floating states, its move between monitors, and letting
//! it go.

use vstd::prelude::*;
use crate::client::Client;
use crate::client::Rect;
use crate::client::held;
use crate::client::hold;
use crate::client::hold_length;
use crate::config::WindowRule;
use crate::layout::LayoutType;
use crate::monitor::Monitor;
use crate::size_hints::SizeHints;
use crate::tags::TagMask;
use crate::tags::Window;
use crate::tags::masks_overlap;
use crate::window_list::lemma_with_at;
use crate::window_list::lemma_without;
use crate::window_list::with_at;
use crate::window_list::without;
use crate::window_manager::Command;
use crate::window_manager::Configure;
use crate::window_manager::StackMode;
use crate::window_manager::WindowManager;
use crate::window_manager::configure_of;

verus! {

/// Bit of the flags word of a window's hints that says the input field is
/// set.
pub const INPUT_HINT: u32 = 1;

/// Bit of the flags word of a window's hints that asks for attention.
pub const URGENCY_HINT: u32 = 256;

/// What the display server tells about a window that asks to be managed.
#[derive(Debug)]
pub struct NewWindow {
    pub x: i32,
    pub y: i32,
    pub width: i32,
    pub height: i32,
    pub border_width: i32,
    /// The window for which this one is a dialog or the like.
    pub transient_parent: Option<Window>,
    pub class: String,
    pub instance: String,
    pub title: String,
    /// The words of the size-hints property, if the window has one.
    pub size_hints: Option<Vec<u32>>,
    /// The words of the hints property, if the window has one.
    pub hints: Option<Vec<u32>>,
    /// The window declares itself a dialog.
    pub is_dialog: bool,
    /// The window asks to be fullscreen.
    pub wants_fullscreen: bool,
    /// The tags that were persisted for the window, if any.
    pub saved_tags: Option<TagMask>,
}

/// What the window rules set for a window.
#[derive(Clone, Copy, Debug, PartialEq, Eq, Structural)]
pub struct RuleOutcome {
    pub tags: Option<u32>,
    pub is_floating: Option<bool>,
    pub monitor: Option<usize>,
}

/// What the first `count` rules set for a window: of the rules that match,
/// the last that sets a thing decides it.
pub open spec fn rules_set(
    rules: Seq<WindowRule>,
    count: int,
    class: Seq<char>,
    instance: Seq<char>,
    title: Seq<char>,
) -> RuleOutcome
    decreases count,
{
    if count <= 0 {
        RuleOutcome { tags: None, is_floating: None, monitor: None }
    } else {
        let before = rules_set(rules, count - 1, class, instance, title);
        let rule = rules[count - 1];
        if rule.applies_to(class, instance, title) {
            RuleOutcome {
                tags: if rule.tags.is_some() {
                    rule.tags
                } else {
                    before.tags
                },
                is_floating: if rule.is_floating.is_some() {
                    rule.is_floating
                } else {
                    before.is_floating
                },
                monitor: if rule.monitor.is_some() {
                    rule.monitor
                } else {
                    before.monitor
                },
            }
        } else {
            before
        }
    }
}

/// Computes `rules_set` for all rules.
pub fn match_rules(rules: &Vec<WindowRule>, class: &str, instance: &str, title: &str) -> (outcome:
    RuleOutcome)
    ensures
        outcome == rules_set(rules@, rules@.len() as int, class@, instance@, title@),
{
    let mut outcome = RuleOutcome { tags: None, is_floating: None, monitor: None };
    let mut index: usize = 0;
    while index < rules.len()
        invariant
            index <= rules@.len(),
            outcome == rules_set(rules@, index as int, class@, instance@, title@),
        decreases rules@.len() - index,
    {
        let rule = &rules[index];
        if rule.matches(class, instance, title) {
            if rule.tags.is_some() {
                outcome.tags = rule.tags;
            }
            if rule.is_floating.is_some() {
                outcome.is_floating = rule.is_floating;
            }
            if rule.monitor.is_some() {
                outcome.monitor = rule.monitor;
            }
        }
        index += 1;
    }
    outcome
}

/// The hints of a window ask for attention.
pub open spec fn asks_attention(hints: Option<Vec<u32>>) -> bool {
    match hints {
        Some(words) => words@.len() >= 1 && words@[0] & URGENCY_HINT != 0,
        None => false,
    }
}

/// The hints of a window say that it never takes the input focus.
pub open spec fn refuses_focus(hints: Option<Vec<u32>>) -> bool {
    match hints {
        Some(words) => words@.len() >= 2 && words@[0] & INPUT_HINT != 0 && words@[1] == 0,
        None => false,
    }
}

/// Computes `asks_attention`.
pub fn is_urgent_hint(hints: &Option<Vec<u32>>) -> (urgent: bool)
    ensures
        urgent == asks_attention(*hints),
{
    match hints {
        Some(words) => words.len() >= 1 && words[0] & URGENCY_HINT != 0,
        None => false,
    }
}

/// Computes `refuses_focus`.
pub fn is_never_focus_hint(hints: &Option<Vec<u32>>) -> (never: bool)
    ensures
        never == refuses_focus(*hints),
{
    match hints {
        Some(words) => words.len() >= 2 && words[0] & INPUT_HINT != 0 && words[1] == 0,
        None => false,
    }
}

/// The size hints that a property declares: none for a window without the
/// property or with a malformed one.
pub open spec fn hints_declared(property: Option<Vec<u32>>) -> Option<SizeHints> {
    match property {
        Some(words) => if SizeHints::well_formed(words@) {
            Some(SizeHints::declared(words@))
        } else {
            None
        },
        None => None,
    }
}

/// Computes `hints_declared`.
pub fn read_size_hints(property: &Option<Vec<u32>>) -> (hints: Option<SizeHints>)
    ensures
        hints == hints_declared(*property),
{
    match property {
        Some(words) => SizeHints::parse(words.as_slice()),
        None => None,
    }
}

/// A coordinate of a new window held to the window area along one axis:
/// moved back where the window with its border would end beyond the far
/// edge, and not before the near edge.
pub open spec fn kept_inside(position: int, extent: int, border: int, near: int, span: int) -> int {
    let moved = if position + extent + 2 * border > near + span {
        near + span - extent - 2 * border
    } else {
        position
    };
    held(
        if moved < near {
            near
        } else {
            moved
        },
    )
}

/// Computes `kept_inside`.
pub fn keep_inside(position: i32, extent: i32, border: i32, near: i32, span: i32) -> (result: i32)
    ensures
        result == kept_inside(
            position as int,
            extent as int,
            border as int,
            near as int,
            span as int,
        ),
{
    let far: i64 = near as i64 + span as i64;
    let size: i64 = extent as i64 + 2 * (border as i64);
    let moved: i64 = if position as i64 + size > far {
        far - size
    } else {
        position as i64
    };
    hold(
        if moved < near as i64 {
            near as i64
        } else {
            moved
        },
    )
}

impl WindowManager {
    /// The window that stands for a new window where monitor and tags are
    /// inherited: its transient parent, if that is managed.
    pub open spec fn patron(self, info: NewWindow) -> Option<Window> {
        match info.transient_parent {
            Some(parent) => if self.has(parent) {
                Some(parent)
            } else {
                None
            },
            None => None,
        }
    }

    /// What the rules set for a new window; nothing for a transient window.
    pub open spec fn rules_for(self, info: NewWindow) -> RuleOutcome {
        if info.transient_parent.is_some() {
            RuleOutcome { tags: None, is_floating: None, monitor: None }
        } else {
            rules_set(
                self.config.window_rules@,
                self.config.window_rules@.len() as int,
                info.class@,
                info.instance@,
                info.title@,
            )
        }
    }

    /// The monitor of a new window: the one that a rule names, if it
    /// exists; else that of its transient parent; else the selected one.
    pub open spec fn monitor_for(self, info: NewWindow) -> usize {
        match self.rules_for(info).monitor {
            Some(named) => if named < self.monitors@.len() {
                named
            } else {
                self.inherited_monitor(info)
            },
            None => self.inherited_monitor(info),
        }
    }

    /// The monitor that a new window inherits.
    pub open spec fn inherited_monitor(self, info: NewWindow) -> usize {
        match self.patron(info) {
            Some(parent) => self.client(parent).monitor_index,
            None => self.selected_monitor,
        }
    }

    /// The tags of a new window.  A transient window has those of its
    /// parent, or those in view on the selected monitor where the parent
    /// is not managed.  Another window has the tags that a rule sets; else
    /// the tags that were persisted for it, if they are configured tags;
    /// else the tags in view on its monitor.
    pub open spec fn new_tags(self, info: NewWindow) -> TagMask {
        if info.transient_parent.is_some() {
            match self.patron(info) {
                Some(parent) => self.client(parent).tags,
                None => self.selected_tags(),
            }
        } else {
            match self.rules_for(info).tags {
                Some(tags) => tags,
                None => match info.saved_tags {
                    Some(tags) => if tags != 0 && (tags as u64) < (1u64 << (
                    self.config.tag_count() as u64)) {
                        tags
                    } else {
                        self.monitors@[self.monitor_for(info) as int].selected_tags()
                    },
                    None => self.monitors@[self.monitor_for(info) as int].selected_tags(),
                },
            }
        }
    }

    /// A new window floats: a rule says so, or it declares itself a
    /// dialog, is transient, or allows one size only.  A rule that says it
    /// does not float yields to these reasons.
    pub open spec fn new_floating(self, info: NewWindow) -> bool {
        let by_rule = match self.rules_for(info).is_floating {
            Some(floating) => floating,
            None => false,
        };
        by_rule || info.is_dialog || info.transient_parent.is_some() || match hints_declared(
            info.size_hints,
        ) {
            Some(hints) => hints.fixed(),
            None => false,
        }
    }

    /// The client of a new window as it is registered.
    pub open spec fn new_client(self, window: Window, info: NewWindow) -> Client {
        let m = self.monitor_for(info);
        let area = self.monitors@[m as int].window_area();
        let border = held(self.config.border_width as int);
        let x = kept_inside(
            info.x as int,
            info.width as int,
            border,
            area.x as int,
            area.width as int,
        );
        let y = kept_inside(
            info.y as int,
            info.height as int,
            border,
            area.y as int,
            area.height as int,
        );
        let hints = hints_declared(info.size_hints);
        let floating = self.new_floating(info);
        let plain = Client {
            window,
            name: info.title,
            x_position: x as i32,
            y_position: y as i32,
            width: info.width,
            height: info.height,
            border_width: border as i32,
            old_x_position: info.x,
            old_y_position: info.y,
            old_width: info.width,
            old_height: info.height,
            old_border_width: info.border_width,
            old_state: floating,
            tags: self.new_tags(info),
            monitor_index: m,
            is_floating: floating,
            is_fullscreen: false,
            is_fixed: match hints {
                Some(declared) => declared.fixed(),
                None => false,
            },
            is_urgent: asks_attention(info.hints),
            never_focus: refuses_focus(info.hints),
            hints_valid: hints.is_some(),
            hints: match hints {
                Some(declared) => declared,
                None => SizeHints::unset(),
            },
        };
        if info.wants_fullscreen {
            plain.entered_fullscreen(self.monitors@[m as int].screen())
        } else {
            plain
        }
    }

    /// Computes `new_client`.
    pub fn build_client(&self, window: Window, info: &NewWindow) -> (client: Client)
        requires
            self.wf(),
        ensures
            client == self.new_client(window, *info),
            client.wf(),
            client.window == window,
            client.monitor_index < self.monitors@.len(),
    {
        let transient = info.transient_parent.is_some();
        let patron: Option<usize> = match info.transient_parent {
            Some(parent) => self.find(parent),
            None => None,
        };
        let rules = if transient {
            RuleOutcome { tags: None, is_floating: None, monitor: None }
        } else {
            match_rules(
                &self.config.window_rules,
                info.class.as_str(),
                info.instance.as_str(),
                info.title.as_str(),
            )
        };
        let inherited: usize = match patron {
            Some(index) => self.clients[index].monitor_index,
            None => self.selected_monitor,
        };
        let monitor_index: usize = match rules.monitor {
            Some(named) => if named < self.monitors.len() {
                named
            } else {
                inherited
            },
            None => inherited,
        };
        let monitor = &self.monitors[monitor_index];
        let tags: TagMask = if transient {
            match patron {
                Some(index) => self.clients[index].tags,
                None => self.monitors[self.selected_monitor].get_selected_tag(),
            }
        } else {
            match rules.tags {
                Some(tags) => tags,
                None => {
                    let current = monitor.get_selected_tag();
                    match info.saved_tags {
                        Some(saved) => if saved != 0 && (saved as u64) < (1u64 << (
                        self.config.count_tags() as u64)) {
                            saved
                        } else {
                            current
                        },
                        None => current,
                    }
                },
            }
        };
        let hints = read_size_hints(&info.size_hints);
        let fixed = match hints {
            Some(declared) => declared.is_fixed(),
            None => false,
        };
        let by_rule = match rules.is_floating {
            Some(floating) => floating,
            None => false,
        };
        let floating = by_rule || info.is_dialog || transient || fixed;
        let border = hold_length(self.config.border_width);
        let mut client = Client {
            window,
            name: info.title.clone(),
            x_position: keep_inside(
                info.x,
                info.width,
                border,
                monitor.window_area_x,
                monitor.window_area_width,
            ),
            y_position: keep_inside(
                info.y,
                info.height,
                border,
                monitor.window_area_y,
                monitor.window_area_height,
            ),
            width: info.width,
            height: info.height,
            border_width: border,
            old_x_position: info.x,
            old_y_position: info.y,
            old_width: info.width,
            old_height: info.height,
            old_border_width: info.border_width,
            old_state: floating,
            tags,
            monitor_index,
            is_floating: floating,
            is_fullscreen: false,
            is_fixed: fixed,
            is_urgent: is_urgent_hint(&info.hints),
            never_focus: is_never_focus_hint(&info.hints),
            hints_valid: hints.is_some(),
            hints: match hints {
                Some(declared) => declared,
                None => SizeHints::none(),
            },
        };
        proof {
            if info.size_hints.is_some() && SizeHints::well_formed(info.size_hints.unwrap()@) {
                SizeHints::lemma_declared_valid(info.size_hints.unwrap()@);
            }
        }
        if info.wants_fullscreen {
            let screen = Rect {
                x: monitor.screen_x,
                y: monitor.screen_y,
                width: monitor.screen_width,
                height: monitor.screen_height,
            };
            client.enter_fullscreen(&screen);
        }
        client
    }

    /// A registry that has taken one more client, for a window that was
    /// not managed, manages the windows it managed and the new one.
    pub proof fn lemma_registered(self, before: WindowManager, client: Client)
        requires
            before.windows().no_duplicates(),
            !before.has(client.window),
            self.clients@ == before.clients@.push(client),
        ensures
            self.windows() == before.windows().push(client.window),
            self.windows().no_duplicates(),
            self.has(client.window),
            self.client(client.window) == client,
            forall|window: Window|
                #[trigger] self.has(window) <==> (before.has(window) || window == client.window),
            forall|window: Window|
                before.has(window) ==> #[trigger] self.client(window) == before.client(window),
    {
        let old_windows = before.windows();
        let new_windows = self.windows();
        assert(new_windows =~= old_windows.push(client.window));
        assert forall|i: int, j: int|
            0 <= i < new_windows.len() && 0 <= j < new_windows.len() && i != j implies new_windows[i]
            != new_windows[j] by {
            if i < old_windows.len() {
                assert(old_windows.contains(old_windows[i]));
            }
            if j < old_windows.len() {
                assert(old_windows.contains(old_windows[j]));
            }
        }
        assert(new_windows[old_windows.len() as int] == client.window);
        assert forall|window: Window| #[trigger]
            self.has(window) <==> (before.has(window) || window == client.window) by {
            if self.has(window) {
                let at = new_windows.index_of(window);
                if at < old_windows.len() {
                    assert(old_windows[at] == window);
                }
            }
            if before.has(window) {
                let at = old_windows.index_of(window);
                assert(new_windows[at] == window);
            }
        }
        assert forall|window: Window| before.has(window) implies #[trigger] self.client(window)
            == before.client(window) by {
            let at = old_windows.index_of(window);
            assert(new_windows[at] == window);
            let found = new_windows.index_of(window);
            assert(new_windows[found] == new_windows[at]);
        }
        let found = new_windows.index_of(client.window);
        assert(new_windows[found] == new_windows[old_windows.len() as int]);
    }

    /// The commands that take a new window under management, before the
    /// windows are arranged: the border is set and painted, the client is
    /// told its geometry, a window that asks to be fullscreen is made so,
    /// the events of the window are asked for, a floating window is
    /// raised, the window is put off the screen until it is arranged, its
    /// state is recorded and its tags are persisted, and the selected
    /// client of its monitor, if that is the selected monitor, loses the
    /// marks of focus.
    pub open spec fn adopt_commands(self, window: Window, info: NewWindow) -> Seq<Command> {
        let client = self.new_client(window, info);
        let monitor = self.monitors@[client.monitor_index as int];
        let border = held(self.config.border_width as int) as i32;
        let at_x = kept_inside(
            info.x as int,
            info.width as int,
            border as int,
            monitor.window_area_x as int,
            monitor.window_area_width as int,
        ) as i32;
        let at_y = kept_inside(
            info.y as int,
            info.height as int,
            border as int,
            monitor.window_area_y as int,
            monitor.window_area_height as int,
        ) as i32;
        seq![
            Command::Configure(Configure { border_width: Some(border), ..configure_of(window) }),
            Command::SetBorderColor { window, color: self.config.border_unfocused },
            Command::ConfigureNotify {
                window,
                x: at_x,
                y: at_y,
                width: info.width,
                height: info.height,
                border_width: border,
            },
        ] + (if info.wants_fullscreen {
            seq![
                Command::SetFullscreenState { window, fullscreen: true },
                Command::Configure(
                    Configure {
                        x: Some(monitor.screen_x),
                        y: Some(monitor.screen_y),
                        width: Some(monitor.screen_width),
                        height: Some(monitor.screen_height),
                        border_width: Some(0),
                        stack_mode: Some(StackMode::Above),
                        ..configure_of(window)
                    },
                ),
            ]
        } else {
            Seq::empty()
        }) + seq![Command::SelectClientEvents { window }] + (if client.is_floating {
            seq![
                Command::Configure(
                    Configure { stack_mode: Some(StackMode::Above), ..configure_of(window) },
                ),
            ]
        } else {
            Seq::empty()
        }) + seq![
            Command::Configure(
                Configure {
                    x: Some(held(at_x + 2 * monitor.screen_width) as i32),
                    y: Some(at_y),
                    width: Some(info.width),
                    height: Some(info.height),
                    ..configure_of(window)
                },
            ),
            Command::SetWmState { window, state: 1 },
            Command::SaveClientTag { window, tags: client.tags },
        ] + (if client.monitor_index == self.selected_monitor {
            match self.focused() {
                Some(selected) => self.unfocus_commands(selected),
                None => Seq::empty(),
            }
        } else {
            Seq::empty()
        })
    }

    /// Issues `adopt_commands` for the client built for the window.
    fn issue_adopt_commands(&self, client: &Client, info: &NewWindow, out: &mut Vec<Command>)
        requires
            self.wf(),
            *client == self.new_client(client.window, *info),
            client.monitor_index < self.monitors@.len(),
        ensures
            final(out)@ == old(out)@ + self.adopt_commands(client.window, *info),
    {
        let ghost issued = out@;
        let window = client.window;
        let monitor = &self.monitors[client.monitor_index];
        let border = hold_length(self.config.border_width);
        let at_x = keep_inside(
            info.x,
            info.width,
            border,
            monitor.window_area_x,
            monitor.window_area_width,
        );
        let at_y = keep_inside(
            info.y,
            info.height,
            border,
            monitor.window_area_y,
            monitor.window_area_height,
        );
        let mut request = crate::window_manager::configure(window);
        request.border_width = Some(border);
        out.push(Command::Configure(request));
        out.push(Command::SetBorderColor { window, color: self.config.border_unfocused });
        out.push(
            Command::ConfigureNotify {
                window,
                x: at_x,
                y: at_y,
                width: info.width,
                height: info.height,
                border_width: border,
            },
        );
        if info.wants_fullscreen {
            out.push(Command::SetFullscreenState { window, fullscreen: true });
            let mut request = crate::window_manager::configure(window);
            request.x = Some(monitor.screen_x);
            request.y = Some(monitor.screen_y);
            request.width = Some(monitor.screen_width);
            request.height = Some(monitor.screen_height);
            request.border_width = Some(0);
            request.stack_mode = Some(StackMode::Above);
            out.push(Command::Configure(request));
        }
        out.push(Command::SelectClientEvents { window });
        if client.is_floating {
            let mut request = crate::window_manager::configure(window);
            request.stack_mode = Some(StackMode::Above);
            out.push(Command::Configure(request));
        }
        let mut request = crate::window_manager::configure(window);
        request.x = Some(hold(at_x as i64 + 2 * (monitor.screen_width as i64)));
        request.y = Some(at_y);
        request.width = Some(info.width);
        request.height = Some(info.height);
        out.push(Command::Configure(request));
        out.push(Command::SetWmState { window, state: 1 });
        out.push(Command::SaveClientTag { window, tags: client.tags });
        let ghost sofar = out@;
        if client.monitor_index == self.selected_monitor {
            match self.monitors[self.selected_monitor].selected_client {
                Some(selected) => {
                    self.unfocus(selected, out);
                },
                None => {},
            }
        }
        assert(out@ =~= issued + self.adopt_commands(window, *info));
    }

    /// The state is `before` with the new window registered, attached to
    /// both orderings of its monitor and, if it is visible, selected there.
    pub open spec fn adopts(self, before: WindowManager, window: Window, info: NewWindow) -> bool {
        let client = before.new_client(window, info);
        let m = client.monitor_index as int;
        &&& self.clients@ == before.clients@.push(client)
        &&& self.monitors@.len() == before.monitors@.len()
        &&& forall|k: int|
            0 <= k < self.monitors@.len() && k != m ==> #[trigger] self.monitors@[k]
                == before.monitors@[k]
        &&& self.monitors@[m] == (Monitor {
            clients: self.monitors@[m].clients,
            stack: self.monitors@[m].stack,
            selected_client: if before.shows(client) {
                Some(window)
            } else {
                before.monitors@[m].selected_client
            },
            ..before.monitors@[m]
        })
        &&& self.monitors@[m].clients@ == self.put_aside(before.monitors@[m].clients@, window)
        &&& self.monitors@[m].stack@ == with_at(without(before.monitors@[m].stack@, window), 0, window)
        &&& self.selected_monitor == before.selected_monitor
        &&& self.previous_focused == before.previous_focused
        &&& self.same_settings(before)
    }

    /// Puts a client for a window that is not managed into the registry.
    fn register(&mut self, client: Client)
        requires
            old(self).wf(),
            !old(self).has(client.window),
            client.wf(),
            client.monitor_index < old(self).monitors@.len(),
        ensures
            final(self).wf(),
            final(self).clients@ == old(self).clients@.push(client),
            *final(self) == (WindowManager { clients: final(self).clients, ..*old(self) }),
    {
        self.clients.push(client);
        proof {
            self.lemma_registered(*old(self), client);
            assert forall|i: int| 0 <= i < self.clients@.len() implies (
            #[trigger] self.clients@[i]).wf() && self.clients@[i].monitor_index
                < self.monitors@.len() by {
                if i < old(self).clients@.len() {
                    assert(old(self).clients@[i].wf());
                }
            }
        }
    }

    /// Selects `window` on monitor `monitor_index`.
    fn select(&mut self, monitor_index: usize, window: Window)
        requires
            old(self).wf(),
            monitor_index < old(self).monitors@.len(),
        ensures
            final(self).wf(),
            final(self).same_but_monitor(*old(self), monitor_index as int),
            final(self).monitors@[monitor_index as int] == (Monitor {
                selected_client: Some(window),
                ..old(self).monitors@[monitor_index as int]
            }),
    {
        self.monitors[monitor_index].selected_client = Some(window);
        proof {
            assert forall|k: int| 0 <= k < self.monitors@.len() implies (
            #[trigger] self.monitors@[k]).wf() by {
                assert(old(self).monitors@[k].wf());
            }
            assert forall|i: int| 0 <= i < self.clients@.len() implies (
            #[trigger] self.clients@[i]).wf() && self.clients@[i].monitor_index
                < self.monitors@.len() by {
                assert(old(self).clients@[i].wf());
            }
        }
    }

    /// Takes a window that is not managed into the registry and into both
    /// orderings of its monitor, and selects it there if it is visible.
    pub fn adopt(&mut self, window: Window, info: &NewWindow, out: &mut Vec<Command>)
        requires
            old(self).wf(),
            !old(self).has(window),
        ensures
            final(self).wf(),
            old(self).consistent() ==> final(self).consistent(),
            old(self).orderly() ==> final(self).orderly(),
            final(self).adopts(*old(self), window, *info),
            final(self).has(window),
            final(self).client(window) == old(self).new_client(window, *info),
            final(out)@ == old(out)@ + old(self).adopt_commands(window, *info),
    {
        let ghost before = *self;
        let client = self.build_client(window, info);
        let ghost built = client;
        let monitor_index = client.monitor_index;
        self.issue_adopt_commands(&client, info, out);
        self.register(client);
        let ghost registered = *self;
        proof {
            self.lemma_registered(before, built);
        }
        self.attach_aside(window, monitor_index);
        let ghost aside = *self;
        self.attach_stack(window, monitor_index);
        let ghost stacked = *self;
        let index = self.clients.len() - 1;
        proof {
            assert(stacked.clients@ == registered.clients@);
            assert(stacked.monitors@[monitor_index as int].tagset
                == before.monitors@[monitor_index as int].tagset
                && stacked.monitors@[monitor_index as int].selected_tags_index
                == before.monitors@[monitor_index as int].selected_tags_index) by {
                assert(aside.monitors@[monitor_index as int].tagset
                    == registered.monitors@[monitor_index as int].tagset);
            }
        }
        let shown = self.clients[index].is_shown_under(
            self.monitors[monitor_index].get_selected_tag(),
        );
        if shown {
            self.select(monitor_index, window);
        }
        proof {
            assert(aside.clients@ == registered.clients@);
            assert(stacked.clients@ == registered.clients@);
            assert(self.clients@ == registered.clients@);
            assert(self.windows() =~= registered.windows());
            assert(registered.put_aside(before.monitors@[monitor_index as int].clients@, window)
                == self.put_aside(before.monitors@[monitor_index as int].clients@, window)) by {
                let rest = without(before.monitors@[monitor_index as int].clients@, window);
                self.lemma_same_aside_place(
                    registered,
                    rest,
                    registered.client(window).tags,
                    rest.len() as int,
                );
            }
            assert(self.adopts(before, window, *info));
            if before.consistent() {
                self.lemma_adopt_consistent(before, window, *info);
            }
            if before.orderly() {
                self.lemma_adopt_orderly(before, window, *info);
            }
        }
    }

    /// The selections stay visible when a window is adopted.
    proof fn lemma_adopt_orderly(self, before: WindowManager, window: Window, info: NewWindow)
        requires
            before.wf(),
            before.orderly(),
            !before.has(window),
            self.adopts(before, window, info),
            before.new_client(window, info).window == window,
            before.new_client(window, info).monitor_index < before.monitors@.len(),
        ensures
            self.selection_shown(),
    {
        let client = before.new_client(window, info);
        let m = client.monitor_index as int;
        self.lemma_registered(before, client);
        assert forall|k: int| 0 <= k < self.monitors@.len() implies match (
        #[trigger] self.monitors@[k]).selected_client {
            Some(other) => self.visible(other),
            None => true,
        } by {
            if k != m {
                assert(self.monitors@[k] == before.monitors@[k]);
            }
            before.lemma_selected_on_monitor(k);
            match before.monitors@[k].selected_client {
                Some(other) => {
                    assert(before.visible(other));
                    assert(self.client(other) == before.client(other));
                    if k != m {
                        assert(self.monitors@[before.client(other).monitor_index as int]
                            == before.monitors@[k]);
                    }
                },
                None => {},
            }
        }
    }

    /// Consistency survives the adoption of a window.
    proof fn lemma_adopt_consistent(self, before: WindowManager, window: Window, info: NewWindow)
        requires
            before.wf(),
            before.consistent(),
            !before.has(window),
            self.adopts(before, window, info),
            before.new_client(window, info).window == window,
            before.new_client(window, info).monitor_index < before.monitors@.len(),
        ensures
            self.consistent(),
    {
        let client = before.new_client(window, info);
        let m = client.monitor_index as int;
        self.lemma_registered(before, client);
        assert(before.monitors@[m].wf());
        let rest = without(before.monitors@[m].clients@, window);
        lemma_without(before.monitors@[m].clients@, window);
        lemma_without(before.monitors@[m].stack@, window);
        self.lemma_same_aside_place(self, rest, self.client(window).tags, rest.len() as int);
        lemma_with_at(
            rest,
            self.aside_place(rest, self.client(window).tags, rest.len() as int),
            window,
        );
        lemma_with_at(without(before.monitors@[m].stack@, window), 0, window);
        assert forall|k: int, other: Window|
            0 <= k < self.monitors@.len() && #[trigger] self.listed(k, other) implies self.has(
            other,
        ) && self.client(other).monitor_index == k by {
            if k != m {
                assert(self.monitors@[k] == before.monitors@[k]);
                assert(before.listed(k, other));
            } else if other != window {
                assert(before.listed(k, other));
            }
        }
        assert forall|k: int, other: Window|
            0 <= k < self.monitors@.len() && #[trigger] self.stacked(k, other) implies self.has(
            other,
        ) && self.client(other).monitor_index == k by {
            if k != m {
                assert(self.monitors@[k] == before.monitors@[k]);
                assert(before.stacked(k, other));
            } else if other != window {
                assert(before.stacked(k, other));
            }
        }
        assert forall|i: int| 0 <= i < self.clients@.len() implies self.listed(
            self.clients@[i].monitor_index as int,
            (#[trigger] self.clients@[i]).window,
        ) && self.stacked(self.clients@[i].monitor_index as int, self.clients@[i].window) by {
            if i < before.clients@.len() {
                let other = before.clients@[i].window;
                let k = before.clients@[i].monitor_index as int;
                assert(before.clients@[i].wf());
                assert(before.listed(k, other));
                assert(before.stacked(k, other));
                assert(before.windows()[i] == other);
                assert(other != window);
                if k != m {
                    assert(self.monitors@[k] == before.monitors@[k]);
                }
            }
        }
        assert forall|k: int| 0 <= k < self.monitors@.len() implies match (
        #[trigger] self.monitors@[k]).selected_client {
            Some(other) => self.stacked(k, other),
            None => true,
        } by {
            if k != m {
                assert(self.monitors@[k] == before.monitors@[k]);
                assert(before.monitors@[k].selected_client == self.monitors@[k].selected_client);
            }
        }
    }

    /// The commands that follow the arrangement when a window is taken
    /// under management: the window is mapped and asked to be focused, and
    /// the bars, and under the tabbed layout the strips of tabs, are drawn.
    pub open spec fn welcome_tail(self) -> Seq<Command> {
        seq![Command::UpdateBar] + (if self.layout == LayoutType::Tabbed {
            seq![Command::UpdateTabBars]
        } else {
            Seq::empty()
        })
    }

    /// The state after a window was taken under management, against the
    /// state before, with the commands issued: the window is adopted, the
    /// windows are arranged, the window is mapped, and the focus goes to
    /// it, or, if it is not visible, to the first visible window.
    pub open spec fn managed_from(
        self,
        before: WindowManager,
        window: Window,
        info: NewWindow,
        issued: Seq<Command>,
        all: Seq<Command>,
    ) -> bool {
        exists|
            adopted: WindowManager,
            first: WindowManager,
            second: WindowManager,
            arranged: WindowManager,
        |
            #![auto]
            adopted.adopts(before, window, info) && arranged.arranged_through(adopted, first, second)
                && self.after_focus(arranged, Some(window)) && all == issued
                + before.adopt_commands(window, info) + adopted.arrange_commands(
                first,
                second,
                arranged,
            ) + seq![Command::MapWindow { window }] + arranged.focus_commands(Some(window))
                + before.welcome_tail()
    }

    /// Takes a new window under management: a client is made for it with
    /// the monitor, tags and floating state that its transient parent, the
    /// rules and its own hints give it, it is attached to both orderings
    /// of its monitor, the windows are arranged, and it is mapped and
    /// focused.  A window that is managed already is left alone.
    pub fn manage_window(&mut self, window: Window, info: &NewWindow, out: &mut Vec<Command>)
        requires
            old(self).wf(),
        ensures
            final(self).wf(),
            old(self).consistent() ==> final(self).consistent(),
            old(self).orderly() ==> final(self).orderly(),
            old(self).has(window) ==> *final(self) == *old(self) && final(out)@ == old(out)@,
            !old(self).has(window) ==> final(self).has(window) && final(self).managed_from(
                *old(self),
                window,
                *info,
                old(out)@,
                final(out)@,
            ),
    {
        if self.find(window).is_some() {
            return ;
        }
        let ghost before = *self;
        let ghost issued = out@;
        self.adopt(window, info, out);
        let ghost adopted = *self;
        let ghost adopted_out = out@;
        self.apply_layout(out);
        let ghost arranged = *self;
        let ghost arranged_out = out@;
        out.push(Command::MapWindow { window });
        self.focus(Some(window), out);
        out.push(Command::UpdateBar);
        let tabbed = match self.layout {
            LayoutType::Tabbed => true,
            _ => false,
        };
        if tabbed {
            out.push(Command::UpdateTabBars);
        }
        proof {
            let (first, second) = choose|first: WindowManager, second: WindowManager|
                #![auto]
                arranged.arranged_through(adopted, first, second) && arranged_out == adopted_out
                    + adopted.arrange_commands(first, second, arranged);
            arranged.lemma_same_but_geometry(adopted);
            assert(arranged.has(window));
            self.lemma_after_focus(arranged, Some(window));
            assert(out@ =~= issued + before.adopt_commands(window, *info)
                + adopted.arrange_commands(first, second, arranged) + seq![
                Command::MapWindow { window },
            ] + arranged.focus_commands(Some(window)) + before.welcome_tail());
        }
    }

    /// A registry that has let one client go manages the other windows as
    /// before.
    pub proof fn lemma_unregistered(self, before: WindowManager, at: int)
        requires
            before.windows().no_duplicates(),
            0 <= at < before.clients@.len(),
            self.clients@ == before.clients@.remove(at),
        ensures
            self.windows() == before.windows().remove(at),
            self.windows().no_duplicates(),
            !self.has(before.clients@[at].window),
            forall|window: Window|
                #[trigger] self.has(window) <==> (before.has(window) && window
                    != before.clients@[at].window),
            forall|window: Window|
                self.has(window) ==> #[trigger] self.client(window) == before.client(window),
    {
        let old_windows = before.windows();
        let new_windows = self.windows();
        let gone = before.clients@[at].window;
        assert(old_windows[at] == gone);
        assert(new_windows =~= old_windows.remove(at));
        assert(old_windows.index_of(gone) == at) by {
            assert(old_windows.contains(gone));
        }
        assert(new_windows == crate::window_list::without(old_windows, gone));
        lemma_without(old_windows, gone);
        assert forall|window: Window| self.has(window) implies #[trigger] self.client(window)
            == before.client(window) by {
            let found = new_windows.index_of(window);
            let from = if found < at {
                found
            } else {
                found + 1
            };
            assert(new_windows[found] == window);
            assert(old_windows[from] == window);
            let place = old_windows.index_of(window);
            assert(old_windows.contains(window));
            assert(old_windows[place] == old_windows[from]);
        }
    }

    /// The state is `before` with the window taken out of both orderings
    /// of its monitor and out of the registry; where it was the selected
    /// client of its monitor, the first visible window left in the focus
    /// order is selected there.
    pub open spec fn drops(self, before: WindowManager, window: Window) -> bool {
        let at = before.place(window);
        let m = before.client(window).monitor_index as int;
        let left = without(before.monitors@[m].stack@, window);
        &&& self.clients@ == before.clients@.remove(at)
        &&& self.monitors@.len() == before.monitors@.len()
        &&& forall|k: int|
            0 <= k < self.monitors@.len() && k != m ==> #[trigger] self.monitors@[k]
                == before.monitors@[k]
        &&& self.monitors@[m] == (Monitor {
            clients: self.monitors@[m].clients,
            stack: self.monitors@[m].stack,
            selected_client: if before.monitors@[m].selected_client == Some(window)
                && before.stacked(m, window) {
                before.first_shown(left, 0)
            } else {
                before.monitors@[m].selected_client
            },
            ..before.monitors@[m]
        })
        &&& self.monitors@[m].clients@ == without(before.monitors@[m].clients@, window)
        &&& self.monitors@[m].stack@ == left
        &&& self.selected_monitor == before.selected_monitor
        &&& self.previous_focused == before.previous_focused
        &&& self.same_settings(before)
    }

    /// Takes the client at `index` out of the registry.
    fn unregister(&mut self, index: usize)
        requires
            index < old(self).clients@.len(),
        ensures
            final(self).clients@ == old(self).clients@.remove(index as int),
            *final(self) == (WindowManager { clients: final(self).clients, ..*old(self) }),
    {
        self.clients.remove(index);
    }

    /// Takes a managed window out of both orderings of its monitor and out
    /// of the registry.
    pub fn dismiss(&mut self, window: Window)
        requires
            old(self).wf(),
            old(self).has(window),
        ensures
            final(self).wf(),
            old(self).consistent() ==> final(self).consistent(),
            old(self).orderly() ==> final(self).orderly(),
            final(self).drops(*old(self), window),
            !final(self).has(window),
    {
        let ghost before = *self;
        let index = self.find(window).unwrap();
        proof {
            before.lemma_place(index as int);
            assert(before.clients@[index as int].wf());
        }
        let ghost m = before.client(window).monitor_index as int;
        self.detach(window);
        let ghost detached = *self;
        proof {
            assert(detached.clients == before.clients);
            assert(detached.windows() =~= before.windows());
        }
        self.detach_stack(window);
        let ghost unstacked = *self;
        proof {
            assert(unstacked.clients == before.clients);
            detached.lemma_same_visibility(before);
            detached.lemma_same_first_shown(
                before,
                without(before.monitors@[m].stack@, window),
                0,
            );
            lemma_without(before.monitors@[m].stack@, window);
            lemma_without(before.monitors@[m].clients@, window);
            assert(detached.monitors@[m].stack == before.monitors@[m].stack);
        }
        self.unregister(index);
        proof {
            self.lemma_unregistered(before, index as int);
            assert forall|k: int| 0 <= k < self.monitors@.len() implies (
            #[trigger] self.monitors@[k]).wf() by {
                assert(unstacked.monitors@[k].wf());
            }
            assert forall|i: int| 0 <= i < self.clients@.len() implies (
            #[trigger] self.clients@[i]).wf() && self.clients@[i].monitor_index
                < self.monitors@.len() by {
                let from = if i < index {
                    i
                } else {
                    i + 1
                };
                assert(before.clients@[from].wf());
            }
            assert forall|k: int| 0 <= k < self.monitors@.len() && k != m implies #[trigger] self.monitors@[k]
                == before.monitors@[k] by {
                assert(unstacked.monitors@[k] == detached.monitors@[k]);
                assert(detached.monitors@[k] == before.monitors@[k]);
            }
            assert(self.drops(before, window));
            if before.consistent() {
                self.lemma_drop_consistent(before, window);
            }
            if before.orderly() {
                self.lemma_drop_orderly(before, window);
            }
        }
    }

    /// The selections stay visible when a window is dismissed.
    proof fn lemma_drop_orderly(self, before: WindowManager, window: Window)
        requires
            before.wf(),
            before.orderly(),
            before.has(window),
            self.drops(before, window),
        ensures
            self.selection_shown(),
    {
        let at = before.place(window);
        let m = before.client(window).monitor_index as int;
        assert(before.windows()[at] == window);
        assert(before.clients@[at].wf());
        assert(before.clients@[at].window == window);
        self.lemma_unregistered(before, at);
        assert(before.monitors@[m].wf());
        let left = without(before.monitors@[m].stack@, window);
        lemma_without(before.monitors@[m].stack@, window);
        before.lemma_first_shown(left, 0);
        assert forall|k: int| 0 <= k < self.monitors@.len() implies match (
        #[trigger] self.monitors@[k]).selected_client {
            Some(other) => self.visible(other),
            None => true,
        } by {
            if k != m {
                assert(self.monitors@[k] == before.monitors@[k]);
            }
            before.lemma_selected_on_monitor(k);
            match self.monitors@[k].selected_client {
                Some(other) => {
                    assert(before.visible(other));
                    assert(before.has(other));
                    assert(other != window) by {
                        if k == m {
                            if before.monitors@[m].selected_client == Some(window)
                                && before.stacked(m, window) {
                                assert(left.contains(other));
                            } else {
                                assert(before.stacked(m, other));
                            }
                        } else {
                            assert(before.client(other).monitor_index == k);
                        }
                    }
                    assert(self.has(other));
                    assert(self.client(other) == before.client(other));
                    let home = before.client(other).monitor_index as int;
                    assert(self.monitors@[home].tagset == before.monitors@[home].tagset
                        && self.monitors@[home].selected_tags_index
                        == before.monitors@[home].selected_tags_index) by {
                        if home != m {
                            assert(self.monitors@[home] == before.monitors@[home]);
                        }
                    }
                },
                None => {},
            }
        }
    }

    /// Consistency survives the dismissal of a window.
    proof fn lemma_drop_consistent(self, before: WindowManager, window: Window)
        requires
            before.wf(),
            before.consistent(),
            before.has(window),
            self.drops(before, window),
        ensures
            self.consistent(),
    {
        let at = before.place(window);
        let m = before.client(window).monitor_index as int;
        assert(before.windows()[at] == window);
        assert(before.clients@[at].wf());
        assert(before.clients@[at].window == window);
        self.lemma_unregistered(before, at);
        assert(before.monitors@[m].wf());
        let left = without(before.monitors@[m].stack@, window);
        lemma_without(before.monitors@[m].clients@, window);
        lemma_without(before.monitors@[m].stack@, window);
        before.lemma_first_shown(left, 0);
        assert forall|k: int, other: Window|
            0 <= k < self.monitors@.len() && #[trigger] self.listed(k, other) implies self.has(
            other,
        ) && self.client(other).monitor_index == k by {
            if k != m {
                assert(self.monitors@[k] == before.monitors@[k]);
                assert(before.listed(k, other));
                assert(other != window);
            } else {
                assert(before.listed(k, other));
            }
        }
        assert forall|k: int, other: Window|
            0 <= k < self.monitors@.len() && #[trigger] self.stacked(k, other) implies self.has(
            other,
        ) && self.client(other).monitor_index == k by {
            if k != m {
                assert(self.monitors@[k] == before.monitors@[k]);
                assert(before.stacked(k, other));
                assert(other != window);
            } else {
                assert(before.stacked(k, other));
            }
        }
        assert forall|i: int| 0 <= i < self.clients@.len() implies self.listed(
            self.clients@[i].monitor_index as int,
            (#[trigger] self.clients@[i]).window,
        ) && self.stacked(self.clients@[i].monitor_index as int, self.clients@[i].window) by {
            let from = if i < at {
                i
            } else {
                i + 1
            };
            let other = before.clients@[from].window;
            let k = before.clients@[from].monitor_index as int;
            assert(before.clients@[from].wf());
            assert(before.listed(k, other));
            assert(before.stacked(k, other));
            assert(before.windows()[from] == other);
            assert(other != window);
            if k != m {
                assert(self.monitors@[k] == before.monitors@[k]);
            }
        }
        assert forall|k: int| 0 <= k < self.monitors@.len() implies match (
        #[trigger] self.monitors@[k]).selected_client {
            Some(other) => self.stacked(k, other),
            None => true,
        } by {
            if k != m {
                assert(self.monitors@[k] == before.monitors@[k]);
                assert(before.monitors@[k].selected_client == self.monitors@[k].selected_client);
                match before.monitors@[k].selected_client {
                    Some(other) => {
                        assert(before.stacked(k, other));
                    },
                    None => {},
                }
            } else {
                match before.monitors@[m].selected_client {
                    Some(other) => {
                        assert(before.stacked(m, other));
                    },
                    None => {},
                }
            }
        }
    }

    /// The state after a window was let go, against the state before, with
    /// the commands issued: the window is dismissed; if it had the focus,
    /// the focus goes to the first visible window of the selected monitor,
    /// or to the root; the windows are arranged and the bars drawn.
    pub open spec fn removed_from(
        self,
        before: WindowManager,
        window: Window,
        issued: Seq<Command>,
        all: Seq<Command>,
    ) -> bool {
        exists|dropped: WindowManager|
            #![auto]
            dropped.drops(before, window) && if before.focused() == Some(window) {
                self.refreshed(dropped, true, issued, all)
            } else {
                exists|first: WindowManager, second: WindowManager|
                    #![auto]
                    self.arranged_through(dropped, first, second) && all == issued
                        + dropped.arrange_commands(first, second, self) + seq![Command::UpdateBar]
            }
    }

    /// Lets a window go that was unmapped or destroyed.  A window that is
    /// not managed changes nothing.
    pub fn remove_window(&mut self, window: Window, out: &mut Vec<Command>)
        requires
            old(self).wf(),
        ensures
            final(self).wf(),
            old(self).consistent() ==> final(self).consistent(),
            old(self).orderly() ==> final(self).orderly(),
            !final(self).has(window),
            !old(self).has(window) ==> *final(self) == *old(self) && final(out)@ == old(out)@,
            old(self).has(window) ==> final(self).removed_from(
                *old(self),
                window,
                old(out)@,
                final(out)@,
            ),
    {
        if self.find(window).is_none() {
            return ;
        }
        let ghost before = *self;
        let ghost issued = out@;
        let was_focused = match self.monitors[self.selected_monitor].selected_client {
            Some(selected) => selected == window,
            None => false,
        };
        self.dismiss(window);
        let ghost dropped = *self;
        if was_focused {
            self.refresh(true, out);
            proof {
                self.lemma_refreshed_windows(dropped, true, issued, out@);
            }
        } else {
            self.apply_layout(out);
            let ghost arranged_out = out@;
            out.push(Command::UpdateBar);
            proof {
                self.lemma_same_but_geometry(dropped);
                let (first, second) = choose|first: WindowManager, second: WindowManager|
                    #![auto]
                    self.arranged_through(dropped, first, second) && arranged_out == issued
                        + dropped.arrange_commands(first, second, *self);
                assert(out@ =~= issued + dropped.arrange_commands(first, second, *self) + seq![
                    Command::UpdateBar,
                ]);
            }
        }
    }

    /// The screen of the monitor of a client.
    pub open spec fn screen_of(self, client: Client) -> Rect {
        self.monitors@[client.monitor_index as int].screen()
    }

    /// Puts the client at `index` into fullscreen or takes it out.
    fn switch_fullscreen(&mut self, index: usize, fullscreen: bool)
        requires
            old(self).wf(),
            index < old(self).clients@.len(),
        ensures
            final(self).wf(),
            old(self).consistent() ==> final(self).consistent(),
            old(self).orderly() ==> final(self).orderly(),
            final(self).client_replaced(*old(self), index as int),
            final(self).clients@[index as int] == if fullscreen {
                old(self).clients@[index as int].entered_fullscreen(
                    old(self).screen_of(old(self).clients@[index as int]),
                )
            } else {
                old(self).clients@[index as int].left_fullscreen()
            },
    {
        let monitor = &self.monitors[self.clients[index].monitor_index];
        let screen = Rect {
            x: monitor.screen_x,
            y: monitor.screen_y,
            width: monitor.screen_width,
            height: monitor.screen_height,
        };
        if fullscreen {
            self.clients[index].enter_fullscreen(&screen);
        } else {
            self.clients[index].exit_fullscreen();
        }
        proof {
            assert(self.clients@ =~= old(self).clients@.update(
                index as int,
                self.clients@[index as int],
            ));
            assert(old(self).clients@[index as int].wf());
            self.lemma_client_replaced(*old(self), index as int);
        }
    }

    /// The command that gives a window the geometry and border of its
    /// client and, if `raise` is set, raises it.
    pub open spec fn place_command(client: Client, raise: bool) -> Command {
        Command::Configure(
            Configure {
                x: Some(client.x_position),
                y: Some(client.y_position),
                width: Some(client.width),
                height: Some(client.height),
                border_width: Some(client.border_width),
                stack_mode: if raise {
                    Some(StackMode::Above)
                } else {
                    None
                },
                ..configure_of(client.window)
            },
        )
    }

    /// Issues `place_command`.
    fn issue_place(client: &Client, raise: bool, out: &mut Vec<Command>)
        ensures
            final(out)@ == old(out)@ + seq![Self::place_command(*client, raise)],
    {
        let mut request = crate::window_manager::configure(client.window);
        request.x = Some(client.x_position);
        request.y = Some(client.y_position);
        request.width = Some(client.width);
        request.height = Some(client.height);
        request.border_width = Some(client.border_width);
        if raise {
            request.stack_mode = Some(StackMode::Above);
        }
        out.push(Command::Configure(request));
        assert(final(out)@ =~= old(out)@ + seq![Self::place_command(*client, raise)]);
    }

    /// The request changes the fullscreen state of the window: the window
    /// is managed and is not in the state asked for.
    pub open spec fn fullscreen_changes(self, window: Window, fullscreen: bool) -> bool {
        self.has(window) && self.client(window).is_fullscreen != fullscreen
    }

    /// The state is `before` with window `window` in fullscreen: its
    /// floating flag, border width and geometry are saved and it takes the
    /// screen of its monitor.
    pub open spec fn fills_screen(self, before: WindowManager, window: Window) -> bool {
        &&& self.client_replaced(before, before.place(window))
        &&& self.clients@[before.place(window)] == before.client(window).entered_fullscreen(
            before.screen_of(before.client(window)),
        )
    }

    /// The state is `before` with window `window` out of fullscreen: its
    /// floating flag, border width and geometry are as they were saved.
    pub open spec fn leaves_screen(self, before: WindowManager, window: Window) -> bool {
        &&& self.client_replaced(before, before.place(window))
        &&& self.clients@[before.place(window)] == before.client(window).left_fullscreen()
    }

    /// The state after a request for the fullscreen state of a window, against the state before, with the
    /// commands issued.
    pub open spec fn after_set_window_fullscreen(
        self,
        before: WindowManager,
        window: Window,
        fullscreen: bool,
        issued: Seq<Command>,
        all: Seq<Command>,
    ) -> bool {
        &&& !before.fullscreen_changes(window, fullscreen) ==> self == before
            && all == issued
        &&& before.fullscreen_changes(window, fullscreen) && fullscreen ==> self.fills_screen(
            before,
            window,
        ) && all == issued + seq![
            Command::SetFullscreenState { window, fullscreen: true },
            Self::place_command(self.client(window), true),
        ]
        &&& before.fullscreen_changes(window, fullscreen) && !fullscreen ==> exists|
            restored: WindowManager,
            first: WindowManager,
            second: WindowManager,
        |
            #![auto]
            restored.leaves_screen(before, window) && self.arranged_through(
                restored,
                first,
                second,
            ) && all == issued + seq![
                Command::SetFullscreenState { window, fullscreen: false },
                Self::place_command(restored.client(window), false),
            ] + restored.arrange_commands(first, second, self)
    }

    /// Makes a window fullscreen or ends that.  On entry the client's
    /// floating flag, border width and geometry are saved, and the window
    /// takes the whole screen of its monitor, without a border, above the
    /// others.  On exit they are put back and the windows are arranged.  A
    /// window that is not managed, or is in the state asked for already,
    /// changes nothing.
    pub fn set_window_fullscreen(
        &mut self,
        window: Window,
        fullscreen: bool,
        out: &mut Vec<Command>,
    )
        requires
            old(self).wf(),
        ensures
            final(self).wf(),
            old(self).consistent() ==> final(self).consistent(),
            old(self).orderly() ==> final(self).orderly(),
            final(self).after_set_window_fullscreen(*old(self), window, fullscreen, old(out)@, final(out)@),
    {
        let index = match self.find(window) {
            Some(index) => index,
            None => {
                return ;
            },
        };
        if self.clients[index].is_fullscreen == fullscreen {
            return ;
        }
        proof {
            self.lemma_place(index as int);
        }
        if fullscreen {
            self.fill_screen(window, index, out);
        } else {
            self.leave_screen(window, index, out);
        }
    }

    /// Fullscreen round trip of a window.  A floating window that is made
    /// fullscreen and then taken out of it floats as before and has the
    /// border width that it had; the second request configures it with the
    /// geometry and the border width from before the first; and where the
    /// geometry rules leave that geometry as it is, the client has it again
    /// at the end.
    pub proof fn lemma_window_fullscreen_round_trip(
        self,
        during: WindowManager,
        after: WindowManager,
        window: Window,
        issued: Seq<Command>,
        between: Seq<Command>,
        resumed: Seq<Command>,
        all: Seq<Command>,
    )
        requires
            self.wf(),
            self.has(window),
            self.client(window).is_floating,
            !self.client(window).is_fullscreen,
            during.after_set_window_fullscreen(self, window, true, issued, between),
            after.after_set_window_fullscreen(during, window, false, resumed, all),
        ensures
            after.has(window),
            after.client(window).is_floating,
            !after.client(window).is_fullscreen,
            after.client(window).border_width == self.client(window).border_width,
            all.len() >= resumed.len() + 2,
            all[resumed.len() as int + 1] == Self::place_command(
                Client {
                    x_position: self.client(window).x_position,
                    y_position: self.client(window).y_position,
                    width: self.client(window).width,
                    height: self.client(window).height,
                    border_width: self.client(window).border_width,
                    ..after.client(window)
                },
                false,
            ),
            !self.own_size(self.client(window)).changed ==> {
                &&& after.client(window).x_position == self.client(window).x_position
                &&& after.client(window).y_position == self.client(window).y_position
                &&& after.client(window).width == self.client(window).width
                &&& after.client(window).height == self.client(window).height
            },
    {
        let at = self.place(window);
        let client = self.client(window);
        self.lemma_place(at);
        assert(self.fullscreen_changes(window, true));
        assert(during.fills_screen(self, window));
        during.lemma_client_replaced(self, at);
        assert(during.windows() =~= self.windows());
        during.lemma_place(at);
        assert(during.client(window) == client.entered_fullscreen(self.screen_of(client)));
        assert(during.fullscreen_changes(window, false));
        let (restored, first, second) = choose|
            restored: WindowManager,
            first: WindowManager,
            second: WindowManager,
        |
            #![auto]
            restored.leaves_screen(during, window) && after.arranged_through(
                restored,
                first,
                second,
            ) && all == resumed + seq![
                Command::SetFullscreenState { window, fullscreen: false },
                Self::place_command(restored.client(window), false),
            ] + restored.arrange_commands(first, second, after);
        restored.lemma_client_replaced(during, at);
        assert(restored.windows() =~= self.windows());
        restored.lemma_place(at);
        let back = restored.client(window);
        client.lemma_fullscreen_round_trip(self.screen_of(client));
        assert(back == client.entered_fullscreen(self.screen_of(client)).left_fullscreen());
        after.lemma_arranged_frame(restored, first, second);
        assert(after.windows() =~= restored.windows()) by {
            after.lemma_same_but_geometry(restored);
        }
        after.lemma_place(at);
        assert(after.client(window).same_but_geometry(back));
        after.lemma_arrangement_keeps_border(restored, first, second, at);
        if !self.own_size(client).changed {
            assert(restored.own_size(back) == self.own_size(client));
            after.lemma_arrangement_spares(restored, first, second, at);
        }
    }

    /// Puts the client at `index` into fullscreen.
    fn fill_screen(&mut self, window: Window, index: usize, out: &mut Vec<Command>)
        requires
            old(self).wf(),
            index < old(self).clients@.len(),
            index == old(self).place(window),
            old(self).has(window),
        ensures
            final(self).wf(),
            old(self).consistent() ==> final(self).consistent(),
            old(self).orderly() ==> final(self).orderly(),
            final(self).fills_screen(*old(self), window),
            final(out)@ == old(out)@ + seq![
                Command::SetFullscreenState { window, fullscreen: true },
                Self::place_command(final(self).client(window), true),
            ],
    {
        out.push(Command::SetFullscreenState { window, fullscreen: true });
        self.switch_fullscreen(index, true);
        proof {
            self.lemma_client_replaced(*old(self), index as int);
        }
        Self::issue_place(&self.clients[index], true, out);
        assert(final(out)@ =~= old(out)@ + seq![
            Command::SetFullscreenState { window, fullscreen: true },
            Self::place_command(self.client(window), true),
        ]);
    }

    /// Takes the client at `index` out of fullscreen and arranges.
    fn leave_screen(&mut self, window: Window, index: usize, out: &mut Vec<Command>)
        requires
            old(self).wf(),
            index < old(self).clients@.len(),
            index == old(self).place(window),
            old(self).has(window),
        ensures
            final(self).wf(),
            old(self).consistent() ==> final(self).consistent(),
            old(self).orderly() ==> final(self).orderly(),
            exists|restored: WindowManager, first: WindowManager, second: WindowManager|
                #![auto]
                restored.leaves_screen(*old(self), window) && final(self).arranged_through(
                    restored,
                    first,
                    second,
                ) && final(out)@ == old(out)@ + seq![
                    Command::SetFullscreenState { window, fullscreen: false },
                    Self::place_command(restored.client(window), false),
                ] + restored.arrange_commands(first, second, *final(self)),
    {
        let ghost issued = out@;
        out.push(Command::SetFullscreenState { window, fullscreen: false });
        self.switch_fullscreen(index, false);
        proof {
            self.lemma_client_replaced(*old(self), index as int);
        }
        Self::issue_place(&self.clients[index], false, out);
        let ghost restored = *self;
        let ghost placed = out@;
        self.apply_layout(out);
        proof {
            let (first, second) = choose|first: WindowManager, second: WindowManager|
                #![auto]
                self.arranged_through(restored, first, second) && out@ == placed
                    + restored.arrange_commands(first, second, *self);
            assert(out@ =~= issued + seq![
                Command::SetFullscreenState { window, fullscreen: false },
                Self::place_command(restored.client(window), false),
            ] + restored.arrange_commands(first, second, *self));
            assert(restored.leaves_screen(*old(self), window));
        }
    }

    /// The window whose floating state a toggle changes: the selected
    /// client of the selected monitor, if it is managed and not fullscreen.
    pub open spec fn float_subject(self) -> Option<Window> {
        match self.focused() {
            Some(window) => if self.has(window) && !self.client(window).is_fullscreen {
                Some(window)
            } else {
                None
            },
            None => None,
        }
    }

    /// The state is `before` with the floating flag of window `window`
    /// set to `floating`.
    pub open spec fn floats(self, before: WindowManager, window: Window, floating: bool) -> bool {
        &&& self.client_replaced(before, before.place(window))
        &&& self.clients@[before.place(window)] == (Client {
            is_floating: floating,
            ..before.client(window)
        })
    }

    /// Sets the floating flag of the client at `index`.
    fn set_floating(&mut self, index: usize, floating: bool)
        requires
            old(self).wf(),
            index < old(self).clients@.len(),
        ensures
            final(self).wf(),
            old(self).consistent() ==> final(self).consistent(),
            old(self).orderly() ==> final(self).orderly(),
            final(self).client_replaced(*old(self), index as int),
            final(self).clients@[index as int] == (Client {
                is_floating: floating,
                ..old(self).clients@[index as int]
            }),
    {
        self.clients[index].is_floating = floating;
        proof {
            assert(self.clients@ =~= old(self).clients@.update(
                index as int,
                self.clients@[index as int],
            ));
            assert(old(self).clients@[index as int].wf());
            self.lemma_client_replaced(*old(self), index as int);
        }
    }

    /// The state after a toggle of the floating state of the selected client, against the state before, with the
    /// commands issued.
    pub open spec fn after_toggle_floating(
        self,
        before: WindowManager,
        issued: Seq<Command>,
        all: Seq<Command>,
    ) -> bool {
        &&& match before.float_subject() {
            Some(window) => exists|
                toggled: WindowManager,
                first: WindowManager,
                second: WindowManager,
            |
                #![auto]
                toggled.floats(before, window, !before.client(window).is_floating)
                    && self.arranged_through(toggled, first, second) && all
                    == issued + (if before.client(window).is_floating {
                    Seq::empty()
                } else {
                    seq![
                        Command::Configure(
                            Configure {
                                x: Some(before.client(window).x_position),
                                y: Some(before.client(window).y_position),
                                width: Some(before.client(window).width),
                                height: Some(before.client(window).height),
                                stack_mode: Some(StackMode::Above),
                                ..configure_of(window)
                            },
                        ),
                    ]
                }) + toggled.arrange_commands(first, second, self),
            None => self == before && all == issued,
        }
    }

    /// Makes the selected client float, or tiles it again if it floats,
    /// and arranges the windows.  A window that begins to float is raised
    /// where it is.  Nothing happens without a selected client or for a
    /// fullscreen one.
    pub fn toggle_floating(&mut self, out: &mut Vec<Command>)
        requires
            old(self).wf(),
        ensures
            final(self).wf(),
            old(self).consistent() ==> final(self).consistent(),
            old(self).orderly() ==> final(self).orderly(),
            final(self).after_toggle_floating(*old(self), old(out)@, final(out)@),
    {
        let window = match self.monitors[self.selected_monitor].selected_client {
            Some(window) => window,
            None => {
                return ;
            },
        };
        let index = match self.find(window) {
            Some(index) => index,
            None => {
                return ;
            },
        };
        if self.clients[index].is_fullscreen {
            return ;
        }
        let ghost issued = out@;
        let was_floating = self.clients[index].is_floating;
        if !was_floating {
            let client = &self.clients[index];
            let mut request = crate::window_manager::configure(window);
            request.x = Some(client.x_position);
            request.y = Some(client.y_position);
            request.width = Some(client.width);
            request.height = Some(client.height);
            request.stack_mode = Some(StackMode::Above);
            out.push(Command::Configure(request));
        }
        self.set_floating(index, !was_floating);
        let ghost toggled = *self;
        let ghost raised = out@;
        self.apply_layout(out);
        proof {
            let (first, second) = choose|first: WindowManager, second: WindowManager|
                #![auto]
                self.arranged_through(toggled, first, second) && out@ == raised
                    + toggled.arrange_commands(first, second, *self);
            assert(toggled.floats(*old(self), window, !old(self).client(window).is_floating));
            assert(out@ =~= issued + (if old(self).client(window).is_floating {
                Seq::empty()
            } else {
                seq![
                    Command::Configure(
                        Configure {
                            x: Some(old(self).client(window).x_position),
                            y: Some(old(self).client(window).y_position),
                            width: Some(old(self).client(window).width),
                            height: Some(old(self).client(window).height),
                            stack_mode: Some(StackMode::Above),
                            ..configure_of(window)
                        },
                    ),
                ]
            }) + toggled.arrange_commands(first, second, *self));
        }
    }

    /// The monitors differ from those of `other` in their rectangles and
    /// bar flags only, and only `show_bar` differs otherwise.
    pub open spec fn same_but_areas(self, other: WindowManager) -> bool {
        &&& self.monitors@.len() == other.monitors@.len()
        &&& forall|m: int|
            0 <= m < self.monitors@.len() ==> (#[trigger] self.monitors@[m]).same_but_area(
                other.monitors@[m],
            )
        &&& self == (WindowManager { monitors: self.monitors, show_bar: self.show_bar, ..other })
    }

    /// A state that differs in the rectangles of the monitors only is as
    /// well formed and as consistent.
    pub proof fn lemma_same_but_areas(self, other: WindowManager)
        requires
            other.wf(),
            self.same_but_areas(other),
        ensures
            self.wf(),
            other.consistent() ==> self.consistent(),
    {
        assert(self.same_shape(other));
        self.lemma_same_shape(other);
        assert forall|m: int| 0 <= m < self.monitors@.len() implies (
        #[trigger] self.monitors@[m]).wf() by {
            assert(self.monitors@[m].same_but_area(other.monitors@[m]));
            assert(other.monitors@[m].wf());
        }
        assert forall|i: int| 0 <= i < self.clients@.len() implies (#[trigger] self.clients@[i]).wf()
            && self.clients@[i].monitor_index < self.monitors@.len() by {
            assert(other.clients@[i].wf());
        }
        if other.consistent() {
            assert forall|k: int, window: Window| 0 <= k < self.monitors@.len() implies (
            #[trigger] self.stacked(k, window)) == other.stacked(k, window) by {
                assert(self.monitors@[k].same_but_area(other.monitors@[k]));
            }
            assert forall|k: int, window: Window| 0 <= k < self.monitors@.len() implies (
            #[trigger] self.listed(k, window)) == other.listed(k, window) by {
                assert(self.monitors@[k].same_but_area(other.monitors@[k]));
            }
            assert forall|k: int| 0 <= k < self.monitors@.len() implies match (
            #[trigger] self.monitors@[k]).selected_client {
                Some(window) => self.stacked(k, window),
                None => true,
            } by {
                assert(self.monitors@[k].same_but_area(other.monitors@[k]));
                assert(other.monitors@[k].selected_client == self.monitors@[k].selected_client);
            }
            self.lemma_consistent_carries(other);
        }
    }

    /// The state is `before` with the bars shown or hidden and the window
    /// area of every monitor set to match.
    pub open spec fn bars_set(self, before: WindowManager, shown: bool) -> bool {
        &&& self.monitors@.len() == before.monitors@.len()
        &&& forall|m: int|
            0 <= m < self.monitors@.len() ==> #[trigger] self.monitors@[m]
                == before.monitors@[m].with_bar(shown, before.bar_height)
        &&& self == (WindowManager { monitors: self.monitors, show_bar: shown, ..before })
    }

    /// The commands that show or hide the bar of every monitor.
    pub open spec fn bar_commands(self, shown: bool) -> Seq<Command> {
        Seq::new(self.monitors@.len(), |m: int| Command::ShowBar { monitor: m as usize, shown })
    }

    /// Shows or hides the bars and sets the window areas to match.
    pub fn set_bars(&mut self, shown: bool, out: &mut Vec<Command>)
        requires
            old(self).wf(),
        ensures
            final(self).wf(),
            old(self).consistent() ==> final(self).consistent(),
            old(self).orderly() ==> final(self).orderly(),
            final(self).bars_set(*old(self), shown),
            final(out)@ == old(out)@ + old(self).bar_commands(shown),
    {
        let ghost before = *self;
        let ghost issued = out@;
        self.show_bar = shown;
        let count = self.monitors.len();
        let bar_height = self.bar_height;
        let mut m: usize = 0;
        while m < count
            invariant
                count == before.monitors@.len(),
                self.monitors@.len() == count,
                m <= count,
                bar_height == before.bar_height,
                forall|k: int|
                    0 <= k < count ==> #[trigger] self.monitors@[k] == if k < m {
                        before.monitors@[k].with_bar(shown, bar_height)
                    } else {
                        before.monitors@[k]
                    },
                *self == (WindowManager { monitors: self.monitors, show_bar: shown, ..before }),
                out@ == issued + Seq::new(
                    m as nat,
                    |k: int| Command::ShowBar { monitor: k as usize, shown },
                ),
            decreases count - m,
        {
            self.monitors[m].set_bar(shown, bar_height);
            out.push(Command::ShowBar { monitor: m, shown });
            assert(out@ =~= issued + Seq::new(
                (m + 1) as nat,
                |k: int| Command::ShowBar { monitor: k as usize, shown },
            ));
            m += 1;
        }
        proof {
            assert(self.same_but_areas(before));
            self.lemma_same_but_areas(before);
        }
    }

    /// The state after a toggle of the bars, against the state before, with the
    /// commands issued.
    pub open spec fn after_toggle_bar(
        self,
        before: WindowManager,
        issued: Seq<Command>,
        all: Seq<Command>,
    ) -> bool {
        &&& self.show_bar == !before.show_bar
        &&& exists|switched: WindowManager, first: WindowManager, second: WindowManager|
            #![auto]
            switched.bars_set(before, !before.show_bar) && self.arranged_through(
                switched,
                first,
                second,
            ) && all == issued + before.bar_commands(!before.show_bar)
                + switched.arrange_commands(first, second, self)
    }

    /// Shows the bars if they are hidden and hides them if they are shown,
    /// and arranges the windows in the area that is left.
    pub fn toggle_bar(&mut self, out: &mut Vec<Command>)
        requires
            old(self).wf(),
        ensures
            final(self).wf(),
            old(self).consistent() ==> final(self).consistent(),
            old(self).orderly() ==> final(self).orderly(),
            final(self).after_toggle_bar(*old(self), old(out)@, final(out)@),
    {
        let shown = !self.show_bar;
        self.set_bars(shown, out);
        let ghost switched = *self;
        self.apply_layout(out);
        assert(switched.bars_set(*old(self), !old(self).show_bar));
    }

    /// The window can be moved to monitor `target`: it is managed, the
    /// monitor exists and the window is not on it.
    pub open spec fn can_move(self, window: Window, target: usize) -> bool {
        self.has(window) && target < self.monitors@.len() && self.client(window).monitor_index
            != target
    }

    /// The state is `before` with window `window` moved to monitor
    /// `target`: it has left both orderings of its old monitor, where the
    /// selection is derived again if it was selected, it has the tags in
    /// view on the new monitor, and it is attached to both orderings there.
    pub open spec fn moves(self, before: WindowManager, window: Window, target: usize) -> bool {
        let at = before.place(window);
        let source = before.client(window).monitor_index as int;
        let left = without(before.monitors@[source].stack@, window);
        &&& self.clients@ == before.clients@.update(
            at,
            Client {
                monitor_index: target,
                tags: before.monitors@[target as int].selected_tags(),
                ..before.clients@[at]
            },
        )
        &&& self.monitors@.len() == before.monitors@.len()
        &&& forall|k: int|
            0 <= k < self.monitors@.len() && k != source && k != target
                ==> #[trigger] self.monitors@[k] == before.monitors@[k]
        &&& self.monitors@[source] == (Monitor {
            clients: self.monitors@[source].clients,
            stack: self.monitors@[source].stack,
            selected_client: if before.monitors@[source].selected_client == Some(window)
                && before.stacked(source, window) {
                before.first_shown(left, 0)
            } else {
                before.monitors@[source].selected_client
            },
            ..before.monitors@[source]
        })
        &&& self.monitors@[source].clients@ == without(before.monitors@[source].clients@, window)
        &&& self.monitors@[source].stack@ == left
        &&& self.monitors@[target as int] == (Monitor {
            clients: self.monitors@[target as int].clients,
            stack: self.monitors@[target as int].stack,
            ..before.monitors@[target as int]
        })
        &&& self.monitors@[target as int].clients@ == self.put_aside(
            before.monitors@[target as int].clients@,
            window,
        )
        &&& self.monitors@[target as int].stack@ == with_at(
            without(before.monitors@[target as int].stack@, window),
            0,
            window,
        )
        &&& self.selected_monitor == before.selected_monitor
        &&& self.previous_focused == before.previous_focused
        &&& self.same_settings(before)
    }

    /// Puts the client at `index` on monitor `target` with the tags `tags`.
    fn reassign(&mut self, index: usize, target: usize, tags: TagMask)
        requires
            old(self).wf(),
            index < old(self).clients@.len(),
            target < old(self).monitors@.len(),
        ensures
            final(self).wf(),
            final(self).clients@ == old(self).clients@.update(
                index as int,
                Client { monitor_index: target, tags, ..old(self).clients@[index as int] },
            ),
            final(self).windows() == old(self).windows(),
            *final(self) == (WindowManager { clients: final(self).clients, ..*old(self) }),
    {
        self.clients[index].monitor_index = target;
        self.clients[index].tags = tags;
        proof {
            assert(self.clients@ =~= old(self).clients@.update(
                index as int,
                Client { monitor_index: target, tags, ..old(self).clients@[index as int] },
            ));
            assert(self.windows() =~= old(self).windows());
            assert forall|i: int| 0 <= i < self.clients@.len() implies (
            #[trigger] self.clients@[i]).wf() && self.clients@[i].monitor_index
                < self.monitors@.len() by {
                assert(old(self).clients@[i].wf());
            }
        }
    }

    /// Moves a window to another monitor, in the registry and in the
    /// orderings.
    pub fn relocate(&mut self, window: Window, target: usize)
        requires
            old(self).wf(),
            old(self).can_move(window, target),
        ensures
            final(self).wf(),
            old(self).consistent() ==> final(self).consistent(),
            old(self).orderly() ==> final(self).orderly(),
            final(self).moves(*old(self), window, target),
            final(self).windows() == old(self).windows(),
    {
        let ghost before = *self;
        let index = self.find(window).unwrap();
        proof {
            before.lemma_place(index as int);
            assert(before.clients@[index as int].wf());
        }
        let ghost source = before.client(window).monitor_index as int;
        self.detach(window);
        let ghost detached = *self;
        proof {
            assert(detached.clients == before.clients);
            assert(detached.windows() =~= before.windows());
        }
        self.detach_stack(window);
        let ghost unstacked = *self;
        proof {
            assert(unstacked.clients == before.clients);
            detached.lemma_same_visibility(before);
            detached.lemma_same_first_shown(
                before,
                without(before.monitors@[source].stack@, window),
                0,
            );
            lemma_without(before.monitors@[source].stack@, window);
            lemma_without(before.monitors@[source].clients@, window);
            assert(detached.monitors@[source].stack == before.monitors@[source].stack);
            assert(unstacked.monitors@[target as int] == before.monitors@[target as int]) by {
                assert(unstacked.monitors@[target as int] == detached.monitors@[target as int]);
                assert(detached.monitors@[target as int] == before.monitors@[target as int]);
            }
        }
        let tags = self.monitors[target].get_selected_tag();
        self.reassign(index, target, tags);
        let ghost reassigned = *self;
        proof {
            reassigned.lemma_place(index as int);
            assert(reassigned.windows()[index as int] == window);
        }
        self.attach_aside(window, target);
        let ghost aside = *self;
        self.attach_stack(window, target);
        proof {
            assert(self.clients == reassigned.clients);
            assert(aside.clients == reassigned.clients);
            assert(self.windows() =~= reassigned.windows());
            assert(reassigned.put_aside(before.monitors@[target as int].clients@, window)
                == self.put_aside(before.monitors@[target as int].clients@, window)) by {
                let rest = without(before.monitors@[target as int].clients@, window);
                self.lemma_same_aside_place(
                    reassigned,
                    rest,
                    reassigned.client(window).tags,
                    rest.len() as int,
                );
            }
            assert forall|k: int|
                0 <= k < self.monitors@.len() && k != source && k != target implies #[trigger] self.monitors@[k]
                == before.monitors@[k] by {
                assert(self.monitors@[k] == aside.monitors@[k]);
                assert(aside.monitors@[k] == reassigned.monitors@[k]);
                assert(unstacked.monitors@[k] == detached.monitors@[k]);
                assert(detached.monitors@[k] == before.monitors@[k]);
            }
            assert(self.monitors@[source] == unstacked.monitors@[source]) by {
                assert(self.monitors@[source] == aside.monitors@[source]);
                assert(aside.monitors@[source] == reassigned.monitors@[source]);
            }
            assert(self.moves(before, window, target));
            if before.consistent() {
                self.lemma_move_consistent(before, window, target);
            }
            if before.orderly() {
                self.lemma_move_orderly(before, window, target);
            }
        }
    }

    /// The selections stay visible when a window moves to another monitor.
    proof fn lemma_move_orderly(self, before: WindowManager, window: Window, target: usize)
        requires
            before.wf(),
            before.orderly(),
            before.can_move(window, target),
            self.moves(before, window, target),
        ensures
            self.selection_shown(),
    {
        let at = before.place(window);
        let source = before.client(window).monitor_index as int;
        let goal = target as int;
        assert(before.windows()[at] == window);
        assert(before.clients@[at].wf());
        assert(before.clients@[at].window == window);
        assert(self.windows() =~= before.windows());
        assert forall|other: Window| before.has(other) && other != window implies #[trigger] self.client(
            other,
        ) == before.client(other) by {
            let found = before.place(other);
            assert(before.windows()[found] == other);
        }
        assert(before.monitors@[source].wf());
        let left = without(before.monitors@[source].stack@, window);
        lemma_without(before.monitors@[source].stack@, window);
        before.lemma_first_shown(left, 0);
        assert forall|k: int| 0 <= k < self.monitors@.len() implies (
        #[trigger] self.monitors@[k]).tagset == before.monitors@[k].tagset
            && self.monitors@[k].selected_tags_index == before.monitors@[k].selected_tags_index by {
            if k != source && k != goal {
                assert(self.monitors@[k] == before.monitors@[k]);
            }
        }
        assert forall|k: int| 0 <= k < self.monitors@.len() implies match (
        #[trigger] self.monitors@[k]).selected_client {
            Some(other) => self.visible(other),
            None => true,
        } by {
            if k != source && k != goal {
                assert(self.monitors@[k] == before.monitors@[k]);
            }
            before.lemma_selected_on_monitor(k);
            match self.monitors@[k].selected_client {
                Some(other) => {
                    assert(before.visible(other));
                    assert(before.has(other));
                    assert(other != window) by {
                        if k == source {
                            if before.monitors@[source].selected_client == Some(window)
                                && before.stacked(source, window) {
                                assert(left.contains(other));
                            } else {
                                assert(before.stacked(source, other));
                            }
                        } else {
                            assert(before.client(other).monitor_index == k);
                        }
                    }
                    assert(self.client(other) == before.client(other));
                    let home = before.client(other).monitor_index as int;
                    assert(self.monitors@[home].tagset == before.monitors@[home].tagset);
                },
                None => {},
            }
        }
    }

    /// Consistency survives the move of a window to another monitor.
    proof fn lemma_move_consistent(self, before: WindowManager, window: Window, target: usize)
        requires
            before.wf(),
            before.consistent(),
            before.can_move(window, target),
            self.moves(before, window, target),
        ensures
            self.consistent(),
    {
        let at = before.place(window);
        let source = before.client(window).monitor_index as int;
        let goal = target as int;
        assert(before.windows()[at] == window);
        assert(before.clients@[at].wf());
        assert(before.clients@[at].window == window);
        assert(self.windows() =~= before.windows());
        assert(self.client(window) == self.clients@[at]);
        assert forall|other: Window| before.has(other) && other != window implies #[trigger] self.client(
            other,
        ) == before.client(other) by {
            let found = before.place(other);
            assert(before.windows()[found] == other);
        }
        assert(before.monitors@[source].wf());
        assert(before.monitors@[goal].wf());
        let left = without(before.monitors@[source].stack@, window);
        lemma_without(before.monitors@[source].clients@, window);
        lemma_without(before.monitors@[source].stack@, window);
        before.lemma_first_shown(left, 0);
        let rest = without(before.monitors@[goal].clients@, window);
        lemma_without(before.monitors@[goal].clients@, window);
        lemma_without(before.monitors@[goal].stack@, window);
        self.lemma_same_aside_place(self, rest, self.client(window).tags, rest.len() as int);
        lemma_with_at(
            rest,
            self.aside_place(rest, self.client(window).tags, rest.len() as int),
            window,
        );
        lemma_with_at(without(before.monitors@[goal].stack@, window), 0, window);
        assert forall|k: int, other: Window|
            0 <= k < self.monitors@.len() && #[trigger] self.listed(k, other) implies self.has(
            other,
        ) && self.client(other).monitor_index == k by {
            if k != source && k != goal {
                assert(self.monitors@[k] == before.monitors@[k]);
                assert(before.listed(k, other));
            } else if k == source {
                assert(before.listed(k, other));
            } else if other != window {
                assert(before.listed(k, other));
            }
        }
        assert forall|k: int, other: Window|
            0 <= k < self.monitors@.len() && #[trigger] self.stacked(k, other) implies self.has(
            other,
        ) && self.client(other).monitor_index == k by {
            if k != source && k != goal {
                assert(self.monitors@[k] == before.monitors@[k]);
                assert(before.stacked(k, other));
            } else if k == source {
                assert(before.stacked(k, other));
            } else if other != window {
                assert(before.stacked(k, other));
            }
        }
        assert forall|i: int| 0 <= i < self.clients@.len() implies self.listed(
            self.clients@[i].monitor_index as int,
            (#[trigger] self.clients@[i]).window,
        ) && self.stacked(self.clients@[i].monitor_index as int, self.clients@[i].window) by {
            if i != at {
                let other = before.clients@[i].window;
                let k = before.clients@[i].monitor_index as int;
                assert(before.clients@[i].wf());
                assert(before.listed(k, other));
                assert(before.stacked(k, other));
                assert(before.windows()[i] == other);
                assert(other != window);
                if k != source && k != goal {
                    assert(self.monitors@[k] == before.monitors@[k]);
                }
            }
        }
        assert forall|k: int| 0 <= k < self.monitors@.len() implies match (
        #[trigger] self.monitors@[k]).selected_client {
            Some(other) => self.stacked(k, other),
            None => true,
        } by {
            if k != source && k != goal {
                assert(self.monitors@[k] == before.monitors@[k]);
                assert(before.monitors@[k].selected_client == self.monitors@[k].selected_client);
                match before.monitors@[k].selected_client {
                    Some(other) => {
                        assert(before.stacked(k, other));
                    },
                    None => {},
                }
            } else if k == source {
                match before.monitors@[source].selected_client {
                    Some(other) => {
                        assert(before.stacked(source, other));
                    },
                    None => {},
                }
            } else {
                match before.monitors@[goal].selected_client {
                    Some(other) => {
                        assert(before.stacked(goal, other));
                        assert(before.has(other));
                        assert(other != window);
                    },
                    None => {},
                }
            }
        }
    }

    /// The state after a move of a window to a monitor, against the state before, with the
    /// commands issued.
    pub open spec fn after_move_to_monitor(
        self,
        before: WindowManager,
        window: Window,
        target: usize,
        issued: Seq<Command>,
        all: Seq<Command>,
    ) -> bool {
        &&& !before.can_move(window, target) ==> self == before && all
            == issued
        &&& before.can_move(window, target) ==> exists|moved: WindowManager|
            #![auto]
            moved.moves(before, window, target) && self.refreshed(
                moved,
                false,
                issued + before.unfocus_commands(window),
                all,
            )
    }

    /// Moves a window to another monitor, where it takes the tags in view,
    /// then gives the focus to the first visible window of the selected
    /// monitor and arranges.  A window that is not managed, a monitor that
    /// does not exist or the monitor that the window is on changes nothing.
    pub fn move_window_to_monitor(&mut self, window: Window, target: usize, out: &mut Vec<Command>)
        requires
            old(self).wf(),
        ensures
            final(self).wf(),
            old(self).consistent() ==> final(self).consistent(),
            old(self).orderly() ==> final(self).orderly(),
            final(self).after_move_to_monitor(*old(self), window, target, old(out)@, final(out)@),
    {
        if target >= self.monitors.len() {
            return ;
        }
        match self.find(window) {
            Some(index) => {
                if self.clients[index].monitor_index == target {
                    return ;
                }
            },
            None => {
                return ;
            },
        }
        self.unfocus(window, out);
        self.relocate(window, target);
        let ghost moved = *self;
        self.refresh(false, out);
        assert(moved.moves(*old(self), window, target));
    }

    /// The window and the monitor of a move to the next monitor: the
    /// selected client and the monitor next to the selected one.
    pub open spec fn neighbour_move(self, direction: i32) -> Option<(Window, usize)> {
        match (self.focused(), self.adjacent_monitor(direction)) {
            (Some(window), Some(target)) => Some((window, target)),
            _ => None,
        }
    }

    /// The state after a move of the selected client to the next monitor, against the state before, with the
    /// commands issued.
    pub open spec fn after_send_to_adjacent(
        self,
        before: WindowManager,
        direction: i32,
        issued: Seq<Command>,
        all: Seq<Command>,
    ) -> bool {
        &&& match before.neighbour_move(direction) {
            Some((window, target)) => if before.can_move(window, target) {
                exists|moved: WindowManager|
                    #![auto]
                    moved.moves(before, window, target) && self.refreshed(
                        moved,
                        false,
                        issued + before.unfocus_commands(window),
                        all,
                    )
            } else {
                self == before && all == issued
            },
            None => self == before && all == issued,
        }
    }

    /// Moves the selected client to the monitor next to the selected one.
    pub fn send_window_to_adjacent_monitor(&mut self, direction: i32, out: &mut Vec<Command>)
        requires
            old(self).wf(),
        ensures
            final(self).wf(),
            old(self).consistent() ==> final(self).consistent(),
            old(self).orderly() ==> final(self).orderly(),
            final(self).after_send_to_adjacent(*old(self), direction, old(out)@, final(out)@),
    {
        let window = match self.monitors[self.selected_monitor].selected_client {
            Some(window) => window,
            None => {
                return ;
            },
        };
        let target = match self.get_adjacent_monitor(direction) {
            Some(index) => index,
            None => {
                return ;
            },
        };
        self.move_window_to_monitor(window, target, out);
    }

    /// The state is `before` with the client of window `window` replaced
    /// by `client`.
    pub open spec fn client_set(
        self,
        before: WindowManager,
        window: Window,
        client: Client,
    ) -> bool {
        &&& self.client_replaced(before, before.place(window))
        &&& self.clients@[before.place(window)] == client
    }

    /// The state after a window was marked urgent or not, against the state before, with the
    /// commands issued.
    pub open spec fn after_set_urgent(
        self,
        before: WindowManager,
        window: Window,
        urgent: bool,
        issued: Seq<Command>,
        all: Seq<Command>,
    ) -> bool {
        &&& !before.has(window) ==> self == before && all == issued
        &&& before.has(window) ==> self.client_set(
            before,
            window,
            Client { is_urgent: urgent, ..before.client(window) },
        ) && all == issued + seq![Command::SetUrgencyHint { window, urgent }]
    }

    /// Marks a window as urgent or not and sets the hint on the window to
    /// match.  A window that is not managed changes nothing.
    pub fn set_urgent(&mut self, window: Window, urgent: bool, out: &mut Vec<Command>)
        requires
            old(self).wf(),
        ensures
            final(self).wf(),
            old(self).consistent() ==> final(self).consistent(),
            old(self).orderly() ==> final(self).orderly(),
            final(self).after_set_urgent(*old(self), window, urgent, old(out)@, final(out)@),
    {
        match self.find(window) {
            Some(index) => {
                self.clients[index].is_urgent = urgent;
                out.push(Command::SetUrgencyHint { window, urgent });
                proof {
                    assert(self.clients@ =~= old(self).clients@.update(
                        index as int,
                        self.clients@[index as int],
                    ));
                    assert(old(self).clients@[index as int].wf());
                    self.lemma_client_replaced(*old(self), index as int);
                    assert(final(out)@ =~= old(out)@ + seq![
                        Command::SetUrgencyHint { window, urgent },
                    ]);
                }
            },
            None => {},
        }
    }

    /// The client after the hints of its window changed.  The urgency of
    /// the focused window is not kept: the hint is cleared on the window
    /// instead.
    pub open spec fn hinted(self, client: Client, hints: Option<Vec<u32>>) -> Client {
        if hints.is_some() && hints.unwrap()@.len() >= 1 {
            Client {
                is_urgent: if self.focused() == Some(client.window) && asks_attention(hints) {
                    client.is_urgent
                } else {
                    asks_attention(hints)
                },
                never_focus: refuses_focus(hints),
                ..client
            }
        } else {
            client
        }
    }

    /// The state after the hints of a window were taken, against the state before, with the
    /// commands issued.
    pub open spec fn after_update_hints(
        self,
        before: WindowManager,
        window: Window,
        hints: Option<Vec<u32>>,
        issued: Seq<Command>,
        all: Seq<Command>,
    ) -> bool {
        &&& !before.has(window) ==> self == before && all == issued
        &&& before.has(window) ==> self.client_set(
            before,
            window,
            before.hinted(before.client(window), hints),
        ) && all == issued + (if before.focused() == Some(window)
            && asks_attention(hints) {
            seq![Command::SetUrgencyHint { window, urgent: false }]
        } else {
            Seq::empty()
        })
    }

    /// Takes note of the hints of a window: whether it asks for attention
    /// and whether it refuses the input focus.  A window that is not
    /// managed changes nothing.
    pub fn update_window_hints(&mut self, window: Window, hints: &Option<Vec<u32>>, out: &mut Vec<
        Command,
    >)
        requires
            old(self).wf(),
        ensures
            final(self).wf(),
            old(self).consistent() ==> final(self).consistent(),
            old(self).orderly() ==> final(self).orderly(),
            final(self).after_update_hints(*old(self), window, *hints, old(out)@, final(out)@),
    {
        match self.find(window) {
            Some(index) => {
                let urgent = is_urgent_hint(hints);
                let never = is_never_focus_hint(hints);
                let present = match hints {
                    Some(words) => words.len() >= 1,
                    None => false,
                };
                let focused = match self.monitors[self.selected_monitor].selected_client {
                    Some(selected) => selected == window,
                    None => false,
                };
                if present {
                    if focused && urgent {
                        out.push(Command::SetUrgencyHint { window, urgent: false });
                    } else {
                        self.clients[index].is_urgent = urgent;
                    }
                    self.clients[index].never_focus = never;
                }
                proof {
                    assert(self.clients@ =~= old(self).clients@.update(
                        index as int,
                        self.clients@[index as int],
                    ));
                    assert(old(self).clients@[index as int].wf());
                    self.lemma_client_replaced(*old(self), index as int);
                    assert(final(out)@ =~= old(out)@ + (if old(self).focused() == Some(window)
                        && asks_attention(*hints) {
                        seq![Command::SetUrgencyHint { window, urgent: false }]
                    } else {
                        Seq::empty()
                    }));
                }
            },
            None => {},
        }
    }

    /// The client with the size hints that a property declares; without
    /// valid hints for a malformed property.
    pub open spec fn sized(client: Client, property: Option<Vec<u32>>) -> Client {
        match hints_declared(property) {
            Some(hints) => Client { hints, hints_valid: true, is_fixed: hints.fixed(), ..client },
            None => Client { hints_valid: false, ..client },
        }
    }

    /// The state after the size hints of a window were taken, against the state before.
    pub open spec fn after_update_size_hints(
        self,
        before: WindowManager,
        window: Window,
        property: Option<Vec<u32>>,
    ) -> bool {
        &&& !before.has(window) ==> self == before
        &&& before.has(window) ==> self.client_set(
            before,
            window,
            Self::sized(before.client(window), property),
        )
    }

    /// Takes the size hints of a window from its property.  A malformed
    /// property leaves the window without valid hints, so that none are
    /// applied.  A window that is not managed changes nothing.
    pub fn update_size_hints(&mut self, window: Window, property: &Option<Vec<u32>>)
        requires
            old(self).wf(),
        ensures
            final(self).wf(),
            old(self).consistent() ==> final(self).consistent(),
            old(self).orderly() ==> final(self).orderly(),
            final(self).after_update_size_hints(*old(self), window, *property),
    {
        match self.find(window) {
            Some(index) => {
                match read_size_hints(property) {
                    Some(hints) => {
                        proof {
                            SizeHints::lemma_declared_valid(property.unwrap()@);
                        }
                        self.clients[index].hints = hints;
                        self.clients[index].hints_valid = true;
                        self.clients[index].is_fixed = hints.is_fixed();
                    },
                    None => {
                        self.clients[index].hints_valid = false;
                    },
                }
                proof {
                    assert(self.clients@ =~= old(self).clients@.update(
                        index as int,
                        self.clients@[index as int],
                    ));
                    self.lemma_client_replaced(*old(self), index as int);
                }
            },
            None => {},
        }
    }

    /// The state after the title of a window was taken, against the state before.
    pub open spec fn after_update_title(
        self,
        before: WindowManager,
        window: Window,
        title: String,
    ) -> bool {
        &&& !before.has(window) ==> self == before
        &&& before.has(window) ==> self.client_set(
            before,
            window,
            Client { name: title, ..before.client(window) },
        )
    }

    /// Takes the title of a window.  A window that is not managed changes
    /// nothing.
    pub fn update_window_title(&mut self, window: Window, title: String)
        requires
            old(self).wf(),
        ensures
            final(self).wf(),
            old(self).consistent() ==> final(self).consistent(),
            old(self).orderly() ==> final(self).orderly(),
            final(self).after_update_title(*old(self), window, title),
    {
        match self.find(window) {
            Some(index) => {
                self.clients[index].name = title;
                proof {
                    assert(self.clients@ =~= old(self).clients@.update(
                        index as int,
                        self.clients@[index as int],
                    ));
                    assert(old(self).clients@[index as int].wf());
                    self.lemma_client_replaced(*old(self), index as int);
                }
            },
            None => {},
        }
    }

    /// The state after a window was made to float, against the state before.
    pub open spec fn after_make_floating(self, before: WindowManager, window: Window) -> bool {
        &&& !before.has(window) ==> self == before
        &&& before.has(window) ==> self.floats(before, window, true)
    }

    /// Makes a managed window float.
    pub fn make_floating(&mut self, window: Window)
        requires
            old(self).wf(),
        ensures
            final(self).wf(),
            old(self).consistent() ==> final(self).consistent(),
            old(self).orderly() ==> final(self).orderly(),
            final(self).after_make_floating(*old(self), window),
    {
        match self.find(window) {
            Some(index) => {
                self.set_floating(index, true);
            },
            None => {},
        }
    }

    /// The command that closes a window.
    pub fn kill_client(&self, window: Window, out: &mut Vec<Command>)
        ensures
            final(out)@ == old(out)@ + seq![Command::CloseWindow { window }],
    {
        out.push(Command::CloseWindow { window });
        assert(final(out)@ =~= old(out)@ + seq![Command::CloseWindow { window }]);
    }

    /// Window `window` can be put before window `target` in the tiling
    /// order of monitor `m`: both are different, the window is on the
    /// monitor and the target is in its order.
    pub open spec fn can_insert_before(self, window: Window, target: Window, m: usize) -> bool {
        window != target && self.belongs_to(window, m) && self.listed(m as int, target)
    }

    /// Puts a window just before another in the tiling order of a monitor;
    /// it is in that order once afterwards, wherever it was.
    pub fn insert_before(&mut self, window: Window, target: Window, monitor_index: usize)
        requires
            old(self).wf(),
        ensures
            final(self).wf(),
            final(self).same_but_monitor(*old(self), monitor_index as int),
            !old(self).can_insert_before(window, target, monitor_index) ==> *final(self) == *old(
                self,
            ),
            old(self).can_insert_before(window, target, monitor_index) ==> final(self).monitors@[monitor_index as int]
                == (Monitor {
                clients: final(self).monitors@[monitor_index as int].clients,
                ..old(self).monitors@[monitor_index as int]
            }) && final(self).monitors@[monitor_index as int].clients@ == with_at(
                without(old(self).monitors@[monitor_index as int].clients@, window),
                without(old(self).monitors@[monitor_index as int].clients@, window).index_of(
                    target,
                ),
                window,
            ),
    {
        if window == target || !self.is_on_monitor(window, monitor_index) {
            return ;
        }
        if !self.monitors[monitor_index].clients.contains(target) {
            return ;
        }
        proof {
            lemma_without(old(self).monitors@[monitor_index as int].clients@, window);
        }
        self.monitors[monitor_index].clients.remove(window);
        let place = self.monitors[monitor_index].clients.position(target).unwrap();
        proof {
            let rest = without(old(self).monitors@[monitor_index as int].clients@, window);
            assert(rest.index_of(target) == place) by {
                assert(rest.contains(target));
                assert(rest[place as int] == target);
            }
            lemma_without(rest, window);
        }
        self.monitors[monitor_index].clients.insert(place, window);
    }
}

} // verus!
