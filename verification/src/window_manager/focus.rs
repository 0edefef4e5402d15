//! Focus and stacking: one selected client per monitor, the focus order,
//! and the order in which windows are stacked on the screen.

use vstd::prelude::*;
use crate::client::Client;
use crate::monitor::Monitor;
use crate::tags::Window;
use crate::window_list::lemma_swapped;
use crate::window_list::lemma_with_at;
use crate::window_list::swapped;
use crate::window_list::lemma_without;
use crate::window_list::with_at;
use crate::window_list::without;
use crate::window_manager::Command;
use crate::window_manager::Configure;
use crate::window_manager::StackMode;
use crate::window_manager::WindowManager;
use crate::window_manager::configure_of;
use crate::window_manager::registry::Pick;

verus! {

/// First place of `window` in `order` from place `from` on.
pub open spec fn position_from(order: Seq<Window>, window: Window, from: int) -> Option<int>
    decreases order.len() - from,
{
    if from < 0 || from >= order.len() {
        None
    } else if order[from] == window {
        Some(from)
    } else {
        position_from(order, window, from + 1)
    }
}

/// The neighbour of `window` in `order`, taken as a ring: the next window
/// going forward, the one before going backward.  None where the window is
/// not in the order.
pub open spec fn neighbour(order: Seq<Window>, window: Window, forward: bool) -> Option<Window> {
    match position_from(order, window, 0) {
        Some(at) => Some(
            if forward {
                if at + 1 < order.len() {
                    order[at + 1]
                } else {
                    order[0]
                }
            } else {
                if at > 0 {
                    order[at - 1]
                } else {
                    order[order.len() - 1]
                }
            },
        ),
        None => None,
    }
}

/// A place that `position_from` finds is a place of the window.
pub proof fn lemma_position_from(order: Seq<Window>, window: Window, from: int)
    requires
        0 <= from,
    ensures
        match position_from(order, window, from) {
            Some(at) => from <= at < order.len() && order[at] == window,
            None => true,
        },
    decreases order.len() - from,
{
    if from < order.len() && order[from] != window {
        lemma_position_from(order, window, from + 1);
    }
}

/// Computes `position_from` from the start.
pub fn position_in(order: &Vec<Window>, window: Window) -> (place: Option<usize>)
    ensures
        match place {
            Some(at) => position_from(order@, window, 0) == Some(at as int) && at < order@.len(),
            None => position_from(order@, window, 0).is_none(),
        },
{
    let mut index: usize = 0;
    while index < order.len()
        invariant
            index <= order@.len(),
            position_from(order@, window, 0) == position_from(order@, window, index as int),
        decreases order@.len() - index,
    {
        if order[index] == window {
            return Some(index);
        }
        index += 1;
    }
    None
}

/// Computes `neighbour`.
pub fn neighbour_in(order: &Vec<Window>, window: Window, forward: bool) -> (next: Option<Window>)
    ensures
        next == neighbour(order@, window, forward),
{
    match position_in(order, window) {
        Some(at) => Some(
            if forward {
                if at < order.len() - 1 {
                    order[at + 1]
                } else {
                    order[0]
                }
            } else {
                if at > 0 {
                    order[at - 1]
                } else {
                    order[order.len() - 1]
                }
            },
        ),
        None => None,
    }
}

/// The commands that stack the windows of `order` from the top down: the
/// first is raised above all, each other is put below the one before it.
pub open spec fn stacking_commands(order: Seq<Window>) -> Seq<Command> {
    Seq::new(
        order.len(),
        |i: int|
            if i == 0 {
                Command::Configure(
                    Configure { stack_mode: Some(StackMode::Above), ..configure_of(order[0]) },
                )
            } else {
                Command::Configure(
                    Configure {
                        sibling: Some(order[i - 1]),
                        stack_mode: Some(StackMode::Below),
                        ..configure_of(order[i])
                    },
                )
            },
    )
}

impl WindowManager {
    /// The commands that take the marks of focus from a window: its border
    /// gets the colour of unfocused windows and button presses on it are
    /// caught.  None for a window that is not managed.
    pub open spec fn unfocus_commands(self, window: Window) -> Seq<Command> {
        if self.has(window) {
            seq![
                Command::SetBorderColor { window, color: self.config.border_unfocused },
                Command::GrabButtons { window },
            ]
        } else {
            Seq::empty()
        }
    }

    /// Takes the marks of focus from a window.
    pub fn unfocus(&self, window: Window, out: &mut Vec<Command>)
        ensures
            final(out)@ == old(out)@ + self.unfocus_commands(window),
    {
        if self.find(window).is_some() {
            out.push(Command::SetBorderColor { window, color: self.config.border_unfocused });
            out.push(Command::GrabButtons { window });
            assert(final(out)@ =~= old(out)@ + self.unfocus_commands(window));
        } else {
            assert(final(out)@ =~= old(out)@ + self.unfocus_commands(window));
        }
    }

    /// The window that a request for focus settles on: the window asked for
    /// if it is visible, otherwise the first visible window in the focus
    /// order of the selected monitor, if any.
    pub open spec fn focus_target(self, window: Option<Window>) -> Option<Window> {
        match window {
            Some(asked) => if self.visible(asked) {
                Some(asked)
            } else {
                self.first_shown(self.monitors@[self.selected_monitor as int].stack@, 0)
            },
            None => self.first_shown(self.monitors@[self.selected_monitor as int].stack@, 0),
        }
    }

    /// Computes `focus_target`.
    pub fn find_focus_target(&self, window: Option<Window>) -> (target: Option<Window>)
        requires
            self.wf(),
        ensures
            target == self.focus_target(window),
            match target {
                Some(found) => self.visible(found),
                None => true,
            },
    {
        proof {
            self.lemma_first_shown(self.monitors@[self.selected_monitor as int].stack@, 0);
        }
        match window {
            Some(asked) => if self.is_visible(asked) {
                Some(asked)
            } else {
                self.first_visible(self.selected_monitor)
            },
            None => self.first_visible(self.selected_monitor),
        }
    }

    /// The commands of a request for focus: the old selection of the
    /// selected monitor loses the marks of focus unless it is the window
    /// asked for; then the target has its urgency cleared if it was urgent,
    /// gets the border of the focused window, is freed of the button grab
    /// and given the input focus; with no target the root gets the focus.
    pub open spec fn focus_commands(self, window: Option<Window>) -> Seq<Command> {
        let before = match self.focused() {
            Some(selected) => if Some(selected) != window {
                self.unfocus_commands(selected)
            } else {
                Seq::empty()
            },
            None => Seq::empty(),
        };
        let after = match self.focus_target(window) {
            Some(target) => (if self.client(target).is_urgent {
                seq![Command::SetUrgencyHint { window: target, urgent: false }]
            } else {
                Seq::empty()
            }) + seq![
                Command::SetBorderColor { window: target, color: self.config.border_focused },
                Command::UngrabButtons { window: target },
                Command::SetInputFocus { window: target },
            ],
            None => seq![Command::FocusRoot],
        };
        before + after
    }

    /// The state after window `target` took the focus: its monitor is the
    /// selected one, it is the selected client there and the first in the
    /// focus order, it is not urgent, and it is the window focused last.
    pub open spec fn focused_on(self, other: WindowManager, target: Window) -> bool {
        let at = other.place(target);
        let m = other.client(target).monitor_index as int;
        &&& self.selected_monitor == m
        &&& self.previous_focused == Some(target)
        &&& self.clients@ == other.clients@.update(
            at,
            Client { is_urgent: false, ..other.clients@[at] },
        )
        &&& self.monitors@.len() == other.monitors@.len()
        &&& forall|k: int|
            0 <= k < self.monitors@.len() && k != m ==> #[trigger] self.monitors@[k]
                == other.monitors@[k]
        &&& self.monitors@[m] == (Monitor {
            stack: self.monitors@[m].stack,
            selected_client: Some(target),
            ..other.monitors@[m]
        })
        &&& self.monitors@[m].stack@ == with_at(without(other.monitors@[m].stack@, target), 0, target)
        &&& self.same_settings(other)
    }

    /// The state after a request for focus found no target: the selected
    /// monitor has no selected client.
    pub open spec fn focused_on_root(self, other: WindowManager) -> bool {
        let m = other.selected_monitor as int;
        &&& self.selected_monitor == other.selected_monitor
        &&& self.previous_focused == other.previous_focused
        &&& self.clients@ == other.clients@
        &&& self.monitors@.len() == other.monitors@.len()
        &&& forall|k: int|
            0 <= k < self.monitors@.len() && k != m ==> #[trigger] self.monitors@[k]
                == other.monitors@[k]
        &&& self.monitors@[m] == (Monitor { selected_client: None, ..other.monitors@[m] })
        &&& self.same_settings(other)
    }

    /// The configuration, the layout and the other settings that no focus
    /// change and no arrangement touches are as in `other`.
    pub open spec fn same_settings(self, other: WindowManager) -> bool {
        &&& self.config == other.config
        &&& self.layout == other.layout
        &&& self.gaps_enabled == other.gaps_enabled
        &&& self.saved_geometry == other.saved_geometry
        &&& self.show_bar == other.show_bar
        &&& self.bar_height == other.bar_height
        &&& self.last_layout == other.last_layout
        &&& self.keychord_state == other.keychord_state
        &&& self.current_key == other.current_key
        &&& self.keyboard_mapping == other.keyboard_mapping
        &&& self.error_message == other.error_message
        &&& self.spawn_queue == other.spawn_queue
    }

    /// The commands that mark window `target` as focused.
    pub open spec fn take_commands(self, target: Window) -> Seq<Command> {
        (if self.client(target).is_urgent {
            seq![Command::SetUrgencyHint { window: target, urgent: false }]
        } else {
            Seq::empty()
        }) + seq![
            Command::SetBorderColor { window: target, color: self.config.border_focused },
            Command::UngrabButtons { window: target },
            Command::SetInputFocus { window: target },
        ]
    }

    /// Makes a visible window the focused one.
    fn take_focus(&mut self, target: Window, out: &mut Vec<Command>)
        requires
            old(self).wf(),
            old(self).visible(target),
        ensures
            final(self).wf(),
            old(self).consistent() ==> final(self).consistent(),
            final(out)@ == old(out)@ + old(self).take_commands(target),
            final(self).focused_on(*old(self), target),
            final(self).focused() == Some(target),
            final(self).visible(target),
            old(self).selection_shown_but(old(self).client(target).monitor_index as int)
                ==> final(self).selection_shown(),
    {
        let ghost before = *self;
        let ghost issued = out@;
        let index = self.find(target).unwrap();
        let monitor_index = self.clients[index].monitor_index;
        if self.clients[index].is_urgent {
            self.clear_urgent(index);
            out.push(Command::SetUrgencyHint { window: target, urgent: false });
        }
        proof {
            assert(self.clients@ =~= before.clients@.update(
                index as int,
                Client { is_urgent: false, ..before.clients@[index as int] },
            ));
        }
        self.select_first(monitor_index, target);
        self.selected_monitor = monitor_index;
        self.previous_focused = Some(target);
        out.push(Command::SetBorderColor { window: target, color: self.config.border_focused });
        out.push(Command::UngrabButtons { window: target });
        out.push(Command::SetInputFocus { window: target });
        proof {
            assert(out@ =~= issued + before.take_commands(target));
            assert(self.focused_on(before, target));
            self.lemma_focused_on(before, target);
            if before.consistent() {
                self.lemma_focus_consistent(before, target);
            }
            let m = before.client(target).monitor_index as int;
            if before.selection_shown_but(m) {
                assert(self.same_view(before)) by {
                    assert(self.same_shape(before));
                }
                assert(self.same_selection_but(before, m));
                self.lemma_selection_carries(before, m);
                self.lemma_selection_completed(m);
            }
        }
    }

    /// Clears the urgent flag of the client at `index`.
    fn clear_urgent(&mut self, index: usize)
        requires
            index < old(self).clients@.len(),
        ensures
            final(self).clients@ == old(self).clients@.update(
                index as int,
                Client { is_urgent: false, ..old(self).clients@[index as int] },
            ),
            *final(self) == (WindowManager { clients: final(self).clients, ..*old(self) }),
    {
        self.clients[index].is_urgent = false;
    }

    /// Makes `target` the selected client of monitor `monitor_index` and the
    /// first in its focus order.
    fn select_first(&mut self, monitor_index: usize, target: Window)
        requires
            monitor_index < old(self).monitors@.len(),
            old(self).monitors@[monitor_index as int].stack.wf(),
        ensures
            final(self).monitors@.len() == old(self).monitors@.len(),
            forall|k: int|
                0 <= k < final(self).monitors@.len() && k != monitor_index
                    ==> #[trigger] final(self).monitors@[k] == old(self).monitors@[k],
            final(self).monitors@[monitor_index as int] == (Monitor {
                stack: final(self).monitors@[monitor_index as int].stack,
                selected_client: Some(target),
                ..old(self).monitors@[monitor_index as int]
            }),
            final(self).monitors@[monitor_index as int].stack@ == with_at(
                without(old(self).monitors@[monitor_index as int].stack@, target),
                0,
                target,
            ),
            final(self).monitors@[monitor_index as int].stack.wf(),
            *final(self) == (WindowManager { monitors: final(self).monitors, ..*old(self) }),
    {
        self.monitors[monitor_index].stack.push_front(target);
        self.monitors[monitor_index].selected_client = Some(target);
    }

    /// A state focused on a visible window is well formed, and the window
    /// is still visible and is the focused one.
    proof fn lemma_focused_on(self, before: WindowManager, target: Window)
        requires
            before.wf(),
            before.visible(target),
            self.focused_on(before, target),
            self.monitors@[before.client(target).monitor_index as int].stack.wf(),
        ensures
            self.wf(),
            self.focused() == Some(target),
            self.visible(target),
    {
        let m = before.client(target).monitor_index as int;
        let at = before.place(target);
        assert(before.windows()[at] == target);
        assert(before.clients@[at].wf());
        assert(self.same_shape(before));
        self.lemma_same_shape(before);
        assert forall|k: int| 0 <= k < self.monitors@.len() implies (
        #[trigger] self.monitors@[k]).wf() by {
            assert(before.monitors@[k].wf());
        }
        assert forall|i: int| 0 <= i < self.clients@.len() implies (#[trigger] self.clients@[i]).wf()
            && self.clients@[i].monitor_index < self.monitors@.len() by {
            assert(before.clients@[i].wf());
        }
        assert(self.client(target) == self.clients@[at]);
    }

    /// Leaves the selected monitor without a selected client.
    fn drop_focus(&mut self, out: &mut Vec<Command>)
        requires
            old(self).wf(),
        ensures
            final(self).wf(),
            old(self).consistent() ==> final(self).consistent(),
            final(out)@ == old(out)@ + seq![Command::FocusRoot],
            final(self).focused_on_root(*old(self)),
            old(self).selection_shown_but(old(self).selected_monitor as int)
                ==> final(self).selection_shown(),
    {
        let ghost before = *self;
        out.push(Command::FocusRoot);
        let selected = self.selected_monitor;
        self.monitors[selected].selected_client = None;
        proof {
            assert(final(out)@ =~= old(out)@ + seq![Command::FocusRoot]);
            assert(self.same_shape(before));
            self.lemma_same_shape(before);
            assert forall|k: int| 0 <= k < self.monitors@.len() implies (
            #[trigger] self.monitors@[k]).wf() by {
                assert(before.monitors@[k].wf());
            }
            assert forall|i: int| 0 <= i < self.clients@.len() implies (
            #[trigger] self.clients@[i]).wf() && self.clients@[i].monitor_index
                < self.monitors@.len() by {
                assert(before.clients@[i].wf());
            }
            if before.consistent() {
                assert forall|k: int, window: Window| 0 <= k < self.monitors@.len() implies (
                #[trigger] self.stacked(k, window)) == before.stacked(k, window) by {
                    assert(self.monitors@[k].stack == before.monitors@[k].stack);
                }
                assert forall|k: int, window: Window| 0 <= k < self.monitors@.len() implies (
                #[trigger] self.listed(k, window)) == before.listed(k, window) by {
                    assert(self.monitors@[k].clients == before.monitors@[k].clients);
                }
                assert forall|k: int| 0 <= k < self.monitors@.len() implies match (
                #[trigger] self.monitors@[k]).selected_client {
                    Some(window) => self.stacked(k, window),
                    None => true,
                } by {
                    if k != selected {
                        assert(self.monitors@[k] == before.monitors@[k]);
                    }
                }
                self.lemma_consistent_carries(before);
            }
            if before.selection_shown_but(selected as int) {
                assert(self.same_view(before));
                assert(self.same_selection_but(before, selected as int));
                self.lemma_selection_carries(before, selected as int);
                self.lemma_selection_completed(selected as int);
            }
        }
    }

    /// Gives the focus to `window`, or, where that is `None` or not
    /// visible, to the first visible window in the focus order of the
    /// selected monitor; with no such window the root has the focus and the
    /// selected monitor has no selected client.
    pub fn focus(&mut self, window: Option<Window>, out: &mut Vec<Command>)
        requires
            old(self).wf(),
        ensures
            final(self).wf(),
            old(self).consistent() ==> final(self).consistent(),
            final(out)@ == old(out)@ + old(self).focus_commands(window),
            match old(self).focus_target(window) {
                Some(target) => final(self).focused_on(*old(self), target) && final(self).focused()
                    == Some(target) && final(self).visible(target),
                None => final(self).focused_on_root(*old(self)),
            },
            old(self).orderly() ==> final(self).orderly(),
            old(self).consistent() && window.is_none() && old(self).selection_shown_but(
                old(self).selected_monitor as int,
            ) ==> final(self).selection_shown(),
    {
        let ghost issued = out@;
        proof {
            let stack = self.monitors@[self.selected_monitor as int].stack@;
            self.lemma_first_shown(stack, 0);
            if self.consistent() && window.is_none() {
                match self.first_shown(stack, 0) {
                    Some(target) => {
                        assert(self.stacked(self.selected_monitor as int, target));
                    },
                    None => {},
                }
            }
        }
        match self.monitors[self.selected_monitor].selected_client {
            Some(selected) => {
                let same = match window {
                    Some(asked) => asked == selected,
                    None => false,
                };
                if !same {
                    self.unfocus(selected, out);
                }
            },
            None => {},
        }
        match self.find_focus_target(window) {
            Some(target) => {
                self.take_focus(target, out);
            },
            None => {
                self.drop_focus(out);
            },
        }
        assert(final(out)@ =~= issued + old(self).focus_commands(window));
    }

    /// Consistency survives a change of focus.
    proof fn lemma_focus_consistent(self, before: WindowManager, target: Window)
        requires
            before.wf(),
            before.consistent(),
            before.visible(target),
            self.focused_on(before, target),
        ensures
            self.consistent(),
    {
        let m = before.client(target).monitor_index as int;
        let at = before.place(target);
        assert(before.windows()[at] == target);
        assert(before.clients@[at].wf());
        assert(before.stacked(m, target));
        assert(before.monitors@[m].wf());
        lemma_without(before.monitors@[m].stack@, target);
        lemma_with_at(without(before.monitors@[m].stack@, target), 0, target);
        assert(self.same_shape(before));
        assert forall|k: int, window: Window| 0 <= k < self.monitors@.len() implies (
        #[trigger] self.stacked(k, window)) == before.stacked(k, window) by {
            if k != m {
                assert(self.monitors@[k] == before.monitors@[k]);
            }
        }
        assert forall|k: int, window: Window| 0 <= k < self.monitors@.len() implies (
        #[trigger] self.listed(k, window)) == before.listed(k, window) by {
            if k != m {
                assert(self.monitors@[k] == before.monitors@[k]);
            }
        }
        assert forall|k: int| 0 <= k < self.monitors@.len() implies match (
        #[trigger] self.monitors@[k]).selected_client {
            Some(window) => self.stacked(k, window),
            None => true,
        } by {
            if k != m {
                assert(self.monitors@[k] == before.monitors@[k]);
                assert(before.monitors@[k].selected_client == self.monitors@[k].selected_client);
            }
        }
        self.lemma_consistent_carries(before);
    }

    /// The state after a request for focus, against the state before it.
    pub open spec fn after_focus(self, other: WindowManager, window: Option<Window>) -> bool {
        match other.focus_target(window) {
            Some(target) => self.focused_on(other, target) && self.focused() == Some(target)
                && self.visible(target),
            None => self.focused_on_root(other),
        }
    }

    /// The windows of the selected monitor from the top of the screen down:
    /// the selected client if it floats, the other floating windows in
    /// focus order, then the windows that do not float in focus order.
    pub open spec fn stacking_order(self) -> Seq<Window> {
        let monitor = self.monitors@[self.selected_monitor as int];
        let top = match monitor.selected_client {
            Some(selected) => if self.picks(Pick::FloatingBut(None), selected) {
                seq![selected]
            } else {
                Seq::empty()
            },
            None => Seq::empty(),
        };
        top + self.all_among(Pick::FloatingBut(monitor.selected_client), monitor.stack@)
            + self.all_among(Pick::Unfloating, monitor.stack@)
    }

    /// Computes `stacking_order`.
    pub fn windows_to_restack(&self) -> (order: Vec<Window>)
        requires
            self.wf(),
        ensures
            order@ == self.stacking_order(),
    {
        let monitor = &self.monitors[self.selected_monitor];
        let mut order: Vec<Window> = Vec::new();
        match monitor.selected_client {
            Some(selected) => {
                if self.is_picked(Pick::FloatingBut(None), selected) {
                    order.push(selected);
                }
            },
            None => {},
        }
        let ghost top = order@;
        let mut floating = self.collect(Pick::FloatingBut(monitor.selected_client), &monitor.stack);
        let mut others = self.collect(Pick::Unfloating, &monitor.stack);
        order.append(&mut floating);
        order.append(&mut others);
        order
    }

    /// In the stacking order every floating window comes before every
    /// window that does not float: floating windows lie above the others.
    pub proof fn lemma_floating_on_top(self, upper: int, lower: int)
        requires
            0 <= upper < lower < self.stacking_order().len(),
            self.client(self.stacking_order()[lower]).is_floating,
        ensures
            self.client(self.stacking_order()[upper]).is_floating,
    {
        let monitor = self.monitors@[self.selected_monitor as int];
        let top = match monitor.selected_client {
            Some(selected) => if self.picks(Pick::FloatingBut(None), selected) {
                seq![selected]
            } else {
                Seq::<Window>::empty()
            },
            None => Seq::<Window>::empty(),
        };
        let floating = self.all_among(Pick::FloatingBut(monitor.selected_client), monitor.stack@);
        let others = self.all_among(Pick::Unfloating, monitor.stack@);
        let order = self.stacking_order();
        assert(order == top + floating + others);
        self.lemma_among(
            Pick::FloatingBut(monitor.selected_client),
            monitor.stack@,
            monitor.stack@.len() as int,
        );
        self.lemma_among(Pick::Unfloating, monitor.stack@, monitor.stack@.len() as int);
        if lower >= top.len() + floating.len() {
            let window = others[lower - top.len() - floating.len()];
            assert(order[lower] == window);
            assert(others.contains(window));
            assert(false);
        }
        if upper < top.len() {
            assert(order[upper] == top[upper]);
        } else {
            let window = floating[upper - top.len()];
            assert(order[upper] == window);
            assert(floating.contains(window));
        }
    }

    /// Stacks the windows of the selected monitor on the screen: floating
    /// windows above those that do not float, the selected one on top if it
    /// floats.
    pub fn restack(&self, out: &mut Vec<Command>)
        requires
            self.wf(),
        ensures
            final(out)@ == old(out)@ + stacking_commands(self.stacking_order()),
    {
        let order = self.windows_to_restack();
        let ghost issued = out@;
        let mut index: usize = 0;
        while index < order.len()
            invariant
                index <= order@.len(),
                out@ == issued + stacking_commands(order@).subrange(0, index as int),
            decreases order@.len() - index,
        {
            let mut request = crate::window_manager::configure(order[index]);
            if index == 0 {
                request.stack_mode = Some(StackMode::Above);
            } else {
                request.sibling = Some(order[index - 1]);
                request.stack_mode = Some(StackMode::Below);
            }
            out.push(Command::Configure(request));
            assert(out@ =~= issued + stacking_commands(order@).subrange(0, index + 1));
            index += 1;
        }
        assert(stacking_commands(order@).subrange(0, order@.len() as int) =~= stacking_commands(
            order@,
        ));
    }

    /// The window that a step through the tiled windows of the selected
    /// monitor leads to: the neighbour of the selected client among them,
    /// forward for a positive direction and backward otherwise.
    pub open spec fn stack_neighbour(self, direction: i32) -> Option<Window> {
        match self.focused() {
            Some(selected) => neighbour(
                self.tiled_on(self.selected_monitor as int),
                selected,
                direction > 0,
            ),
            None => None,
        }
    }

    /// The state after a step of the focus through the tiled windows, against the state before, with the
    /// commands issued.
    pub open spec fn after_focusstack(
        self,
        before: WindowManager,
        direction: i32,
        issued: Seq<Command>,
        all: Seq<Command>,
    ) -> bool {
        &&& match before.stack_neighbour(direction) {
            Some(next) => self.after_focus(before, Some(next)) && all
                == issued + before.focus_commands(Some(next)) + seq![
                Command::UpdateTabBars,
            ],
            None => self == before && all == issued,
        }
    }

    /// Moves the focus to the neighbour of the selected client among the
    /// tiled windows of the selected monitor.  Nothing happens without a
    /// selected client or where it is not tiled.
    pub fn focusstack(&mut self, direction: i32, out: &mut Vec<Command>)
        requires
            old(self).wf(),
        ensures
            final(self).wf(),
            old(self).consistent() ==> final(self).consistent(),
            final(self).after_focusstack(*old(self), direction, old(out)@, final(out)@),
            old(self).orderly() ==> final(self).orderly(),
    {
        let selected = match self.monitors[self.selected_monitor].selected_client {
            Some(window) => window,
            None => {
                return ;
            },
        };
        let tiled = self.tiled_windows(self.selected_monitor);
        match neighbour_in(&tiled, selected, direction > 0) {
            Some(next) => {
                self.focus(Some(next), out);
                out.push(Command::UpdateTabBars);
                assert(out@ =~= old(out)@ + old(self).focus_commands(Some(next)) + seq![
                    Command::UpdateTabBars,
                ]);
            },
            None => {},
        }
    }

    /// The window that a step through all visible windows leads to: the
    /// neighbour of the selected client among them, or the first of them
    /// where there is no selected client or it is not visible.
    pub open spec fn cycle_neighbour(self, direction: i32) -> Option<Window> {
        let shown = self.shown_on_first(self.monitors@.len() as int);
        if shown.len() == 0 {
            None
        } else {
            match self.focused() {
                Some(selected) => match neighbour(shown, selected, direction > 0) {
                    Some(next) => Some(next),
                    None => Some(shown[0]),
                },
                None => Some(shown[0]),
            }
        }
    }

    /// The state after a step of the focus through the visible windows, against the state before, with the
    /// commands issued.
    pub open spec fn after_cycle_focus(
        self,
        before: WindowManager,
        direction: i32,
        issued: Seq<Command>,
        all: Seq<Command>,
    ) -> bool {
        &&& match before.cycle_neighbour(direction) {
            Some(next) => self.after_focus(before, Some(next)) && all
                == issued + (if before.layout == crate::layout::LayoutType::Tabbed {
                seq![
                    Command::Configure(
                        Configure { stack_mode: Some(StackMode::Above), ..configure_of(next) },
                    ),
                ]
            } else {
                Seq::empty()
            }) + before.focus_commands(Some(next)) + (if before.layout
                == crate::layout::LayoutType::Tabbed {
                seq![Command::UpdateTabBars]
            } else {
                Seq::empty()
            }),
            None => self == before && all == issued,
        }
    }

    /// Moves the focus to the neighbour of the selected client among all
    /// visible windows.  Under the tabbed layout the window is raised and
    /// the strips of tabs are drawn again.
    pub fn cycle_focus(&mut self, direction: i32, out: &mut Vec<Command>)
        requires
            old(self).wf(),
        ensures
            final(self).wf(),
            old(self).consistent() ==> final(self).consistent(),
            final(self).after_cycle_focus(*old(self), direction, old(out)@, final(out)@),
            old(self).orderly() ==> final(self).orderly(),
    {
        let shown = self.visible_windows();
        if shown.len() == 0 {
            return ;
        }
        let next = match self.monitors[self.selected_monitor].selected_client {
            Some(selected) => match neighbour_in(&shown, selected, direction > 0) {
                Some(next) => next,
                None => shown[0],
            },
            None => shown[0],
        };
        let tabbed = match self.layout {
            crate::layout::LayoutType::Tabbed => true,
            _ => false,
        };
        if tabbed {
            let mut request = crate::window_manager::configure(next);
            request.stack_mode = Some(StackMode::Above);
            out.push(Command::Configure(request));
        }
        self.focus(Some(next), out);
        if tabbed {
            out.push(Command::UpdateTabBars);
        }
        assert(out@ =~= old(out)@ + (if old(self).layout == crate::layout::LayoutType::Tabbed {
            seq![
                Command::Configure(
                    Configure { stack_mode: Some(StackMode::Above), ..configure_of(next) },
                ),
            ]
        } else {
            Seq::empty()
        }) + old(self).focus_commands(Some(next)) + (if old(self).layout
            == crate::layout::LayoutType::Tabbed {
            seq![Command::UpdateTabBars]
        } else {
            Seq::empty()
        }));
    }

    /// The monitor next to the selected one, going round: the next for a
    /// positive direction, the one before otherwise.  None with one monitor.
    pub open spec fn adjacent_monitor(self, direction: i32) -> Option<usize> {
        if self.monitors@.len() <= 1 {
            None
        } else if direction > 0 {
            if self.selected_monitor + 1 < self.monitors@.len() {
                Some((self.selected_monitor + 1) as usize)
            } else {
                Some(0)
            }
        } else if self.selected_monitor == 0 {
            Some((self.monitors@.len() - 1) as usize)
        } else {
            Some((self.selected_monitor - 1) as usize)
        }
    }

    pub fn get_adjacent_monitor(&self, direction: i32) -> (monitor: Option<usize>)
        requires
            self.wf(),
        ensures
            monitor == self.adjacent_monitor(direction),
            match monitor {
                Some(index) => index < self.monitors@.len() && index != self.selected_monitor,
                None => true,
            },
    {
        if self.monitors.len() <= 1 {
            return None;
        }
        if direction > 0 {
            if self.selected_monitor < self.monitors.len() - 1 {
                Some(self.selected_monitor + 1)
            } else {
                Some(0)
            }
        } else if self.selected_monitor == 0 {
            Some(self.monitors.len() - 1)
        } else {
            Some(self.selected_monitor - 1)
        }
    }

    /// The first monitor whose screen holds the point.
    pub fn get_monitor_at_point(&self, x: i32, y: i32) -> (monitor: Option<usize>)
        ensures
            match monitor {
                Some(index) => index < self.monitors@.len() && self.monitors@[index as int].covers(
                    x,
                    y,
                ) && forall|k: int| 0 <= k < index ==> !self.monitors@[k].covers(x, y),
                None => forall|k: int|
                    0 <= k < self.monitors@.len() ==> !self.monitors@[k].covers(x, y),
            },
    {
        let mut index: usize = 0;
        while index < self.monitors.len()
            invariant
                index <= self.monitors@.len(),
                forall|k: int| 0 <= k < index ==> !self.monitors@[k].covers(x, y),
            decreases self.monitors@.len() - index,
        {
            if self.monitors[index].contains_point(x, y) {
                return Some(index);
            }
            index += 1;
        }
        None
    }

    /// Monitor `monitor` is the one that a rectangle belongs to: its window
    /// area holds the largest part of the rectangle, it is the first of
    /// those with the largest part, and it is the selected monitor where
    /// the rectangle lies on none.
    pub open spec fn is_rect_monitor(
        self,
        monitor: usize,
        x: i32,
        y: i32,
        width: i32,
        height: i32,
    ) -> bool {
        &&& monitor < self.monitors@.len()
        &&& forall|k: int|
            0 <= k < self.monitors@.len() ==> self.monitors@[k].overlap(x, y, width, height)
                <= self.monitors@[monitor as int].overlap(x, y, width, height)
        &&& self.monitors@[monitor as int].overlap(x, y, width, height) > 0 ==> forall|k: int|
            0 <= k < monitor ==> self.monitors@[k].overlap(x, y, width, height)
                < self.monitors@[monitor as int].overlap(x, y, width, height)
        &&& self.monitors@[monitor as int].overlap(x, y, width, height) == 0 ==> monitor
            == self.selected_monitor
    }

    /// The monitor that a rectangle belongs to.
    pub fn get_monitor_for_rect(&self, x: i32, y: i32, width: i32, height: i32) -> (monitor: usize)
        requires
            self.wf(),
        ensures
            self.is_rect_monitor(monitor, x, y, width, height),
    {
        let mut best: usize = self.selected_monitor;
        let mut largest: i128 = 0;
        let mut index: usize = 0;
        while index < self.monitors.len()
            invariant
                self.wf(),
                index <= self.monitors@.len(),
                best < self.monitors@.len(),
                largest >= 0,
                largest == 0 ==> best == self.selected_monitor && forall|k: int|
                    0 <= k < index ==> self.monitors@[k].overlap(x, y, width, height) == 0,
                largest > 0 ==> best < index && largest == self.monitors@[best as int].overlap(
                    x,
                    y,
                    width,
                    height,
                ) && (forall|k: int|
                    0 <= k < index ==> self.monitors@[k].overlap(x, y, width, height) <= largest)
                    && (forall|k: int|
                    0 <= k < best ==> self.monitors@[k].overlap(x, y, width, height) < largest),
            decreases self.monitors@.len() - index,
        {
            let area = self.monitors[index].overlap_with(x, y, width, height);
            if area > largest {
                largest = area;
                best = index;
            }
            index += 1;
        }
        best
    }

    /// The state after a step of the focus to the next monitor, against the state before, with the
    /// commands issued.
    pub open spec fn after_focus_monitor(
        self,
        before: WindowManager,
        direction: i32,
        issued: Seq<Command>,
        all: Seq<Command>,
    ) -> bool {
        &&& match before.adjacent_monitor(direction) {
            Some(target) => self.after_focus(before.on_monitor(target), None)
                && all == issued + (match before.focused() {
                Some(selected) => before.unfocus_commands(selected),
                None => Seq::empty(),
            }) + before.on_monitor(target).focus_commands(None),
            None => self == before && all == issued,
        }
    }

    /// Selects the monitor next to the selected one and gives the focus to
    /// its first visible window.  Nothing happens with one monitor.
    pub fn focus_monitor(&mut self, direction: i32, out: &mut Vec<Command>)
        requires
            old(self).wf(),
        ensures
            final(self).wf(),
            old(self).consistent() ==> final(self).consistent(),
            final(self).after_focus_monitor(*old(self), direction, old(out)@, final(out)@),
            old(self).orderly() ==> final(self).orderly(),
    {
        let target = match self.get_adjacent_monitor(direction) {
            Some(index) => index,
            None => {
                return ;
            },
        };
        match self.monitors[self.selected_monitor].selected_client {
            Some(selected) => {
                self.unfocus(selected, out);
            },
            None => {},
        }
        self.selected_monitor = target;
        proof {
            assert(self.same_shape(*old(self)));
            if old(self).consistent() {
                assert(self.same_members(*old(self)));
                self.lemma_consistent_carries(*old(self));
            }
            if old(self).orderly() {
                assert(self.same_view(*old(self)));
                assert(self.same_selection_but(*old(self), -1));
                self.lemma_orderly_carries(*old(self));
            }
        }
        self.focus(None, out);
    }

    /// The state with monitor `target` selected.
    pub open spec fn on_monitor(self, target: usize) -> WindowManager {
        WindowManager { selected_monitor: target, ..self }
    }

    /// The state after the display server reported the focus elsewhere and
    /// it was claimed back for `window`.
    pub open spec fn refocused(self, window: Window) -> WindowManager {
        WindowManager { previous_focused: Some(window), ..self }
    }

    /// The commands that claim the input focus back for `window`: the focus
    /// is set, the window focused before gets the border of an unfocused
    /// window, and `window` that of the focused one.
    pub open spec fn refocus_commands(self, window: Window) -> Seq<Command> {
        seq![Command::SetInputFocus { window }] + (match self.previous_focused {
            Some(before) => if before != window {
                seq![
                    Command::Configure(
                        Configure {
                            border_width: Some(crate::client::held(self.config.border_width as int) as i32),
                            ..configure_of(before)
                        },
                    ),
                    Command::SetBorderColor { window: before, color: self.config.border_unfocused },
                ]
            } else {
                Seq::empty()
            },
            None => Seq::empty(),
        }) + seq![
            Command::Configure(
                Configure {
                    border_width: Some(crate::client::held(self.config.border_width as int) as i32),
                    ..configure_of(window)
                },
            ),
            Command::SetBorderColor { window, color: self.config.border_focused },
        ] + (if self.layout == crate::layout::LayoutType::Tabbed {
            seq![Command::UpdateTabBars]
        } else {
            Seq::empty()
        })
    }

    /// Sets the input focus on `window`.  Where it is the selected client
    /// of the selected monitor already, the focus is claimed back for it
    /// and nothing else changes; otherwise the window is selected as
    /// `focus` selects it.
    pub fn set_focus(&mut self, window: Window, out: &mut Vec<Command>)
        requires
            old(self).wf(),
        ensures
            final(self).wf(),
            old(self).consistent() ==> final(self).consistent(),
            old(self).orderly() ==> final(self).orderly(),
            old(self).focused() == Some(window) ==> *final(self) == old(self).refocused(window)
                && final(out)@ == old(out)@ + old(self).refocus_commands(window),
            old(self).focused() != Some(window) ==> final(out)@ == old(out)@ + old(
                self,
            ).focus_commands(Some(window)) && match old(self).focus_target(Some(window)) {
                Some(target) => final(self).focused_on(*old(self), target) && final(self).focused()
                    == Some(target) && final(self).visible(target),
                None => final(self).focused_on_root(*old(self)),
            },
    {
        let selected = match self.monitors[self.selected_monitor].selected_client {
            Some(selected) => selected == window,
            None => false,
        };
        if !selected {
            self.focus(Some(window), out);
            return;
        }
        let ghost issued = out@;
        let border = crate::client::hold_length(self.config.border_width);
        out.push(Command::SetInputFocus { window });
        match self.previous_focused {
            Some(before) => {
                if before != window {
                    let mut request = crate::window_manager::configure(before);
                    request.border_width = Some(border);
                    out.push(Command::Configure(request));
                    out.push(
                        Command::SetBorderColor {
                            window: before,
                            color: self.config.border_unfocused,
                        },
                    );
                }
            },
            None => {},
        }
        let mut request = crate::window_manager::configure(window);
        request.border_width = Some(border);
        out.push(Command::Configure(request));
        out.push(Command::SetBorderColor { window, color: self.config.border_focused });
        self.previous_focused = Some(window);
        let tabbed = match self.layout {
            crate::layout::LayoutType::Tabbed => true,
            _ => false,
        };
        if tabbed {
            out.push(Command::UpdateTabBars);
        }
        assert(out@ =~= issued + old(self).refocus_commands(window));
        proof {
            assert(self.same_shape(*old(self)));
            self.lemma_same_shape(*old(self));
            if old(self).consistent() {
                assert(self.same_members(*old(self)));
                self.lemma_consistent_carries(*old(self));
            }
        }
    }

    /// A change of focus keeps the windows, their monitors, the tag sets
    /// and the settings.
    pub proof fn lemma_after_focus(self, other: WindowManager, window: Option<Window>)
        requires
            other.wf(),
            self.after_focus(other, window),
        ensures
            self.same_shape(other),
            self.windows() == other.windows(),
            forall|managed: Window| #[trigger] self.has(managed) == other.has(managed),
            self.same_settings(other),
            self.monitors@.len() == other.monitors@.len(),
            forall|m: int|
                0 <= m < self.monitors@.len() ==> (#[trigger] self.monitors@[m]).tagset
                    == other.monitors@[m].tagset && self.monitors@[m].selected_tags_index
                    == other.monitors@[m].selected_tags_index,
    {
        other.lemma_first_shown(other.monitors@[other.selected_monitor as int].stack@, 0);
        match other.focus_target(window) {
            Some(target) => {
                assert(other.visible(target));
                let at = other.place(target);
                assert(other.windows()[at] == target);
                let m = other.client(target).monitor_index as int;
                assert(other.clients@[at].wf());
                assert forall|k: int| 0 <= k < self.monitors@.len() implies (
                #[trigger] self.monitors@[k]).tagset == other.monitors@[k].tagset
                    && self.monitors@[k].selected_tags_index
                    == other.monitors@[k].selected_tags_index by {
                    if k != m {
                        assert(self.monitors@[k] == other.monitors@[k]);
                    }
                }
            },
            None => {
                let m = other.selected_monitor as int;
                assert forall|k: int| 0 <= k < self.monitors@.len() implies (
                #[trigger] self.monitors@[k]).tagset == other.monitors@[k].tagset
                    && self.monitors@[k].selected_tags_index
                    == other.monitors@[k].selected_tags_index by {
                    if k != m {
                        assert(self.monitors@[k] == other.monitors@[k]);
                    }
                }
            },
        }
        assert(self.same_shape(other));
        self.lemma_same_shape(other);
    }

    /// The places in the tiling order of the selected monitor that a move
    /// of the selected client exchanges: its own place and that of the
    /// next tiled window behind it, or of the first tiled window where
    /// none is behind it, for a positive direction; and that of the tiled
    /// window before it, or of the last tiled window where none is before
    /// it, otherwise.  None where there is no selected client in the
    /// order or where the place found is its own.
    pub open spec fn swap_places(self, direction: i32) -> Option<(int, int)> {
        let m = self.selected_monitor;
        let order = self.monitors@[m as int].clients@;
        match self.focused() {
            Some(selected) => match position_from(order, selected, 0) {
                Some(own) => {
                    let other = if direction > 0 {
                        match self.first_picked_from(Pick::Tiled(m), order, own + 1) {
                            Some(place) => Some(place),
                            None => self.first_picked_from(Pick::Tiled(m), order, 0),
                        }
                    } else {
                        match self.last_picked_before(Pick::Tiled(m), order, own) {
                            Some(place) => Some(place),
                            None => self.last_picked_before(Pick::Tiled(m), order, order.len() as int),
                        }
                    };
                    match other {
                        Some(place) => if place != own {
                            Some((own, place))
                        } else {
                            None
                        },
                        None => None,
                    }
                },
                None => None,
            },
            None => None,
        }
    }

    /// Computes `swap_places`.
    fn find_swap_places(&self, direction: i32) -> (places: Option<(usize, usize)>)
        requires
            self.wf(),
        ensures
            match places {
                Some((own, other)) => self.swap_places(direction) == Some((own as int, other as int))
                    && own < self.monitors@[self.selected_monitor as int].clients@.len() && other
                    < self.monitors@[self.selected_monitor as int].clients@.len(),
                None => self.swap_places(direction).is_none(),
            },
    {
        let m = self.selected_monitor;
        let order = &self.monitors[m].clients;
        let selected = match self.monitors[m].selected_client {
            Some(window) => window,
            None => {
                return None;
            },
        };
        let own = match position_in(&order.items, selected) {
            Some(place) => place,
            None => {
                return None;
            },
        };
        assert(own < order.items.len());
        let other = if direction > 0 {
            match self.find_first_picked(Pick::Tiled(m), order, own + 1) {
                Some(place) => Some(place),
                None => self.find_first_picked(Pick::Tiled(m), order, 0),
            }
        } else {
            match self.find_last_picked(Pick::Tiled(m), order, own) {
                Some(place) => Some(place),
                None => self.find_last_picked(Pick::Tiled(m), order, order.len()),
            }
        };
        match other {
            Some(place) => if place != own {
                Some((own, place))
            } else {
                None
            },
            None => None,
        }
    }

    /// The state is `before` with the windows at two places of the tiling
    /// order of the selected monitor exchanged.
    pub open spec fn swaps(self, before: WindowManager, own: int, other: int) -> bool {
        let m = before.selected_monitor as int;
        &&& self.same_but_monitor(before, m)
        &&& self.monitors@[m] == (Monitor {
            clients: self.monitors@[m].clients,
            ..before.monitors@[m]
        })
        &&& self.monitors@[m].clients@ == swapped(before.monitors@[m].clients@, own, other)
    }

    /// Exchanges two windows in the tiling order of the selected monitor.
    fn swap_clients(&mut self, own: usize, other: usize)
        requires
            old(self).wf(),
            own < old(self).monitors@[old(self).selected_monitor as int].clients@.len(),
            other < old(self).monitors@[old(self).selected_monitor as int].clients@.len(),
        ensures
            final(self).wf(),
            old(self).consistent() ==> final(self).consistent(),
            final(self).swaps(*old(self), own as int, other as int),
            old(self).orderly() ==> final(self).orderly(),
    {
        let ghost before = *self;
        let m = self.selected_monitor;
        proof {
            assert(before.monitors@[m as int].wf());
            lemma_swapped(before.monitors@[m as int].clients@, own as int, other as int);
        }
        self.monitors[m].clients.swap(own, other);
        proof {
            assert(self.same_shape(before));
            self.lemma_same_shape(before);
            assert forall|k: int| 0 <= k < self.monitors@.len() implies (
            #[trigger] self.monitors@[k]).wf() by {
                assert(before.monitors@[k].wf());
            }
            assert forall|i: int| 0 <= i < self.clients@.len() implies (
            #[trigger] self.clients@[i]).wf() && self.clients@[i].monitor_index
                < self.monitors@.len() by {
                assert(before.clients@[i].wf());
            }
            if before.consistent() {
                assert forall|k: int, window: Window| 0 <= k < self.monitors@.len() implies (
                #[trigger] self.stacked(k, window)) == before.stacked(k, window) by {
                    if k != m {
                        assert(self.monitors@[k] == before.monitors@[k]);
                    }
                }
                assert forall|k: int, window: Window| 0 <= k < self.monitors@.len() implies (
                #[trigger] self.listed(k, window)) == before.listed(k, window) by {
                    if k != m {
                        assert(self.monitors@[k] == before.monitors@[k]);
                    }
                }
                assert forall|k: int| 0 <= k < self.monitors@.len() implies match (
                #[trigger] self.monitors@[k]).selected_client {
                    Some(window) => self.stacked(k, window),
                    None => true,
                } by {
                    if k != m {
                        assert(self.monitors@[k] == before.monitors@[k]);
                    }
                    assert(before.monitors@[k].selected_client
                        == self.monitors@[k].selected_client);
                }
                self.lemma_consistent_carries(before);
            }
            if before.orderly() {
                assert(self.same_view(before)) by {
                    assert forall|k: int| 0 <= k < self.monitors@.len() implies (
                    #[trigger] self.monitors@[k]).selected_tags()
                        == before.monitors@[k].selected_tags() by {
                        if k != m {
                            assert(self.monitors@[k] == before.monitors@[k]);
                        }
                    }
                }
                assert(self.same_selection_but(before, -1)) by {
                    assert forall|k: int| 0 <= k < self.monitors@.len() implies (
                    #[trigger] self.monitors@[k]).selected_client
                        == before.monitors@[k].selected_client by {
                        if k != m {
                            assert(self.monitors@[k] == before.monitors@[k]);
                        }
                    }
                }
                self.lemma_orderly_carries(before);
            }
        }
    }

    /// The state after a move of the selected client through the tiling order, against the state before, with the
    /// commands issued.
    pub open spec fn after_move_stack(
        self,
        before: WindowManager,
        direction: i32,
        issued: Seq<Command>,
        all: Seq<Command>,
    ) -> bool {
        &&& match before.swap_places(direction) {
            Some((own, other)) => exists|
                exchanged: WindowManager,
                first: WindowManager,
                second: WindowManager,
            |
                #![auto]
                exchanged.swaps(before, own, other) && self.arranged_through(
                    exchanged,
                    first,
                    second,
                ) && all == issued + exchanged.arrange_commands(
                    first,
                    second,
                    self,
                ),
            None => self == before && all == issued,
        }
    }

    /// Moves the selected client through the tiling order of the selected
    /// monitor: it changes places with the tiled window behind it, or
    /// before it, going round at the ends; then the windows are arranged.
    pub fn move_stack(&mut self, direction: i32, out: &mut Vec<Command>)
        requires
            old(self).wf(),
        ensures
            final(self).wf(),
            old(self).consistent() ==> final(self).consistent(),
            final(self).after_move_stack(*old(self), direction, old(out)@, final(out)@),
            old(self).orderly() ==> final(self).orderly(),
    {
        match self.find_swap_places(direction) {
            Some((own, other)) => {
                self.swap_clients(own, other);
                let ghost exchanged = *self;
                self.apply_layout(out);
                assert(exchanged.swaps(*old(self), own as int, other as int));
                proof {
                    if old(self).orderly() {
                        self.lemma_orderly_geometry(exchanged);
                    }
                }
            },
            None => {},
        }
    }
}

} // verus!
