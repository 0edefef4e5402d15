//! The registry's two orderings per monitor: attaching and detaching a
//! window, and walking the orderings.

use vstd::prelude::*;
use crate::client::Client;
use crate::monitor::Monitor;
use crate::tags::TagMask;
use crate::tags::Window;
use crate::tags::masks_overlap;
use crate::window_list::WindowList;
use crate::window_list::lemma_with_at;
use crate::window_list::lemma_without;
use crate::window_list::with_at;
use crate::window_list::without;
use crate::window_manager::WindowManager;

verus! {

/// A property by which windows are picked from an ordering.
#[derive(Clone, Copy, Debug, PartialEq, Eq, Structural)]
pub enum Pick {
    /// Visible windows.
    Shown,
    /// Visible windows of a monitor that do not float: those that a layout
    /// arranges there.
    Tiled(usize),
    /// Managed floating windows other than the one named.
    FloatingBut(Option<Window>),
    /// Managed windows that do not float.
    Unfloating,
    /// Windows of a monitor that get a tab: visible, neither floating nor
    /// fullscreen.
    Tabbed(usize),

}

impl WindowManager {
    /// Everything but monitor `m` is as in `other`.
    pub open spec fn same_but_monitor(self, other: WindowManager, m: int) -> bool {
        &&& self.monitors@.len() == other.monitors@.len()
        &&& forall|k: int|
            0 <= k < self.monitors@.len() && k != m ==> #[trigger] self.monitors@[k]
                == other.monitors@[k]
        &&& self == (WindowManager { monitors: self.monitors, ..other })
    }

    /// Window `window` can be put into the orderings of monitor `m`: it is
    /// managed and it is on that monitor.
    pub open spec fn belongs_to(self, window: Window, m: usize) -> bool {
        m < self.monitors@.len() && self.has(window) && self.client(window).monitor_index == m
    }

    /// The window is managed and on monitor `m`.
    pub open spec fn on(self, window: Window, m: int) -> bool {
        self.has(window) && self.client(window).monitor_index == m
    }

    /// Computes `belongs_to`.
    pub fn is_on_monitor(&self, window: Window, m: usize) -> (belongs: bool)
        requires
            self.wf(),
        ensures
            belongs == self.belongs_to(window, m),
    {
        if m >= self.monitors.len() {
            return false;
        }
        match self.find(window) {
            Some(index) => self.clients[index].monitor_index == m,
            None => false,
        }
    }

    /// The orderings are sound: every window in an ordering of a monitor is
    /// a managed window of that monitor, and the selected client of a
    /// monitor is in its focus order.  With no ordering holding a window
    /// twice, a managed window is then at most once in each ordering of its
    /// monitor and in no ordering of another.
    pub open spec fn sound(self) -> bool {
        &&& forall|m: int, window: Window|
            0 <= m < self.monitors@.len() && #[trigger] self.listed(m, window) ==> self.on(window, m)
        &&& forall|m: int, window: Window|
            0 <= m < self.monitors@.len() && #[trigger] self.stacked(m, window) ==> self.on(
                window,
                m,
            )
        &&& self.selection_stacked()
    }

    /// A consistent state has sound orderings.
    pub proof fn lemma_consistent_is_sound(self)
        requires
            self.consistent(),
        ensures
            self.sound(),
    {
    }

    /// Soundness survives a change of the orderings of one monitor that
    /// brings in only managed windows of that monitor and keeps the
    /// selected client in the focus order.
    pub proof fn lemma_sound_kept(self, before: WindowManager, m: int)
        requires
            before.sound(),
            0 <= m < before.monitors@.len(),
            self.same_but_monitor(before, m),
            forall|window: Window|
                #[trigger] self.listed(m, window) ==> before.listed(m, window) || before.on(
                    window,
                    m,
                ),
            forall|window: Window|
                #[trigger] self.stacked(m, window) ==> before.stacked(m, window) || before.on(
                    window,
                    m,
                ),
            match self.monitors@[m].selected_client {
                Some(window) => self.stacked(m, window),
                None => true,
            },
        ensures
            self.sound(),
    {
        assert(self.windows() =~= before.windows());
        assert forall|k: int, window: Window|
            0 <= k < self.monitors@.len() && #[trigger] self.listed(k, window) implies self.on(
            window,
            k,
        ) by {
            if k != m {
                assert(self.monitors@[k] == before.monitors@[k]);
                assert(before.listed(k, window));
            }
        }
        assert forall|k: int, window: Window|
            0 <= k < self.monitors@.len() && #[trigger] self.stacked(k, window) implies self.on(
            window,
            k,
        ) by {
            if k != m {
                assert(self.monitors@[k] == before.monitors@[k]);
                assert(before.stacked(k, window));
            }
        }
        assert forall|k: int| 0 <= k < self.monitors@.len() implies match (
        #[trigger] self.monitors@[k]).selected_client {
            Some(window) => self.stacked(k, window),
            None => true,
        } by {
            if k != m {
                assert(self.monitors@[k] == before.monitors@[k]);
                assert(before.monitors@[k].selected_client == self.monitors@[k].selected_client);
            }
        }
    }

    /// Puts the window first in the tiling order of its monitor; it is in
    /// that order once afterwards, wherever it was.  A window that is not
    /// managed, or not on that monitor, is not attached.
    pub fn attach(&mut self, window: Window, monitor_index: usize)
        requires
            old(self).wf(),
        ensures
            final(self).wf(),
            final(self).same_but_monitor(*old(self), monitor_index as int),
            !old(self).belongs_to(window, monitor_index) ==> *final(self) == *old(self),
            old(self).belongs_to(window, monitor_index) ==> final(self).monitors@[monitor_index as int]
                == (Monitor {
                clients: final(self).monitors@[monitor_index as int].clients,
                ..old(self).monitors@[monitor_index as int]
            }) && final(self).monitors@[monitor_index as int].clients@ == with_at(
                without(old(self).monitors@[monitor_index as int].clients@, window),
                0,
                window,
            ),
            old(self).sound() ==> final(self).sound(),
    {
        if self.is_on_monitor(window, monitor_index) {
            proof {
                assert(old(self).monitors@[monitor_index as int].wf());
                lemma_without(old(self).monitors@[monitor_index as int].clients@, window);
                lemma_with_at(
                    without(old(self).monitors@[monitor_index as int].clients@, window),
                    0,
                    window,
                );
            }
            self.monitors[monitor_index].clients.push_front(window);
            proof {
                if old(self).sound() {
                    self.lemma_sound_kept(*old(self), monitor_index as int);
                }
            }
        }
    }

    /// Takes the window out of the tiling order of its monitor.  A window
    /// that is not managed or not in that order leaves everything as it is.
    pub fn detach(&mut self, window: Window)
        requires
            old(self).wf(),
        ensures
            final(self).wf(),
            !old(self).has(window) ==> *final(self) == *old(self),
            old(self).has(window) ==> ({
                let m = old(self).client(window).monitor_index as int;
                &&& final(self).same_but_monitor(*old(self), m)
                &&& final(self).monitors@[m] == (Monitor {
                    clients: final(self).monitors@[m].clients,
                    ..old(self).monitors@[m]
                })
                &&& final(self).monitors@[m].clients@ == without(
                    old(self).monitors@[m].clients@,
                    window,
                )
                &&& !old(self).listed(m, window) ==> *final(self) == *old(self)
            }),
            old(self).sound() ==> final(self).sound(),
    {
        match self.find(window) {
            Some(index) => {
                let monitor_index = self.clients[index].monitor_index;
                proof {
                    lemma_without(self.monitors@[monitor_index as int].clients@, window);
                }
                if self.monitors[monitor_index].clients.contains(window) {
                    self.monitors[monitor_index].clients.remove(window);
                    proof {
                        assert(old(self).clients@[index as int].wf());
                        assert(old(self).monitors@[monitor_index as int].wf());
                        if old(self).sound() {
                            self.lemma_sound_kept(*old(self), monitor_index as int);
                        }
                    }
                }
            },
            None => {},
        }
    }

    /// Puts the window first in the focus order of its monitor; it is in
    /// that order once afterwards, wherever it was.  A window that is not
    /// managed, or not on that monitor, is not attached.
    pub fn attach_stack(&mut self, window: Window, monitor_index: usize)
        requires
            old(self).wf(),
        ensures
            final(self).wf(),
            final(self).same_but_monitor(*old(self), monitor_index as int),
            !old(self).belongs_to(window, monitor_index) ==> *final(self) == *old(self),
            old(self).belongs_to(window, monitor_index) ==> final(self).monitors@[monitor_index as int]
                == (Monitor {
                stack: final(self).monitors@[monitor_index as int].stack,
                ..old(self).monitors@[monitor_index as int]
            }) && final(self).monitors@[monitor_index as int].stack@ == with_at(
                without(old(self).monitors@[monitor_index as int].stack@, window),
                0,
                window,
            ),
            old(self).sound() ==> final(self).sound(),
    {
        if self.is_on_monitor(window, monitor_index) {
            proof {
                assert(old(self).monitors@[monitor_index as int].wf());
                lemma_without(old(self).monitors@[monitor_index as int].stack@, window);
                lemma_with_at(
                    without(old(self).monitors@[monitor_index as int].stack@, window),
                    0,
                    window,
                );
            }
            self.monitors[monitor_index].stack.push_front(window);
            proof {
                if old(self).sound() {
                    self.lemma_sound_kept(*old(self), monitor_index as int);
                }
            }
        }
    }

    /// The first window of `order`, from place `from` on, that is visible.
    pub open spec fn first_shown(self, order: Seq<Window>, from: int) -> Option<Window>
        decreases order.len() - from,
    {
        if from < 0 || from >= order.len() {
            None
        } else if self.visible(order[from]) {
            Some(order[from])
        } else {
            self.first_shown(order, from + 1)
        }
    }

    /// A window that `first_shown` finds is one of the order from `from` on.
    pub proof fn lemma_first_shown(self, order: Seq<Window>, from: int)
        requires
            0 <= from,
        ensures
            match self.first_shown(order, from) {
                Some(window) => order.contains(window) && self.visible(window),
                None => true,
            },
        decreases order.len() - from,
    {
        if from < order.len() {
            if self.visible(order[from]) {
                assert(order.contains(order[from]));
            } else {
                self.lemma_first_shown(order, from + 1);
            }
        }
    }

    /// The first visible window in the focus order of monitor
    /// `monitor_index`.
    pub fn first_visible(&self, monitor_index: usize) -> (found: Option<Window>)
        requires
            self.wf(),
            monitor_index < self.monitors@.len(),
        ensures
            found == self.first_shown(self.monitors@[monitor_index as int].stack@, 0),
    {
        let stack = &self.monitors[monitor_index].stack;
        let mut index: usize = 0;
        while index < stack.len()
            invariant
                self.wf(),
                monitor_index < self.monitors@.len(),
                *stack == self.monitors@[monitor_index as int].stack,
                index <= stack@.len(),
                self.first_shown(stack@, 0) == self.first_shown(stack@, index as int),
            decreases stack@.len() - index,
        {
            let window = stack.get(index);
            if self.is_visible(window) {
                return Some(window);
            }
            index += 1;
        }
        None
    }

    /// Takes the window out of the focus order of its monitor.  Where it was
    /// the selected client of that monitor, the first visible window of the
    /// order that is left is selected, or none.  A window that is not
    /// managed or not in that order leaves everything as it is.
    pub fn detach_stack(&mut self, window: Window)
        requires
            old(self).wf(),
        ensures
            final(self).wf(),
            !old(self).has(window) ==> *final(self) == *old(self),
            old(self).has(window) ==> ({
                let m = old(self).client(window).monitor_index as int;
                let left = without(old(self).monitors@[m].stack@, window);
                &&& final(self).same_but_monitor(*old(self), m)
                &&& !old(self).stacked(m, window) ==> *final(self) == *old(self)
                &&& old(self).stacked(m, window) ==> final(self).monitors@[m] == (Monitor {
                    stack: final(self).monitors@[m].stack,
                    selected_client: if old(self).monitors@[m].selected_client == Some(window) {
                        old(self).first_shown(left, 0)
                    } else {
                        old(self).monitors@[m].selected_client
                    },
                    ..old(self).monitors@[m]
                }) && final(self).monitors@[m].stack@ == left
            }),
            old(self).sound() ==> final(self).sound(),
    {
        match self.find(window) {
            Some(index) => {
                let monitor_index = self.clients[index].monitor_index;
                proof {
                    lemma_without(self.monitors@[monitor_index as int].stack@, window);
                }
                if self.monitors[monitor_index].stack.contains(window) {
                    self.monitors[monitor_index].stack.remove(window);
                    let was_selected = match self.monitors[monitor_index].selected_client {
                        Some(selected) => selected == window,
                        None => false,
                    };
                    if was_selected {
                        proof {
                            self.lemma_same_visibility(*old(self));
                            self.lemma_same_first_shown(
                                *old(self),
                                self.monitors@[monitor_index as int].stack@,
                                0,
                            );
                        }
                        let next = self.first_visible(monitor_index);
                        self.monitors[monitor_index].selected_client = next;
                    }
                    proof {
                        assert(old(self).clients@[index as int].wf());
                        old(self).lemma_first_shown(
                            without(old(self).monitors@[monitor_index as int].stack@, window),
                            0,
                        );
                        if old(self).sound() {
                            self.lemma_sound_kept(*old(self), monitor_index as int);
                        }
                    }
                }
            },
            None => {},
        }
    }

    /// The tag sets in view and the clients are as in `other`.
    pub open spec fn same_visibility(self, other: WindowManager) -> bool {
        &&& self.clients@ == other.clients@
        &&& self.monitors@.len() == other.monitors@.len()
        &&& forall|m: int|
            0 <= m < self.monitors@.len() ==> (#[trigger] self.monitors@[m]).selected_tags()
                == other.monitors@[m].selected_tags()
    }

    /// States with the same clients and the same tag sets in view show the
    /// same windows.
    pub proof fn lemma_same_visibility(self, other: WindowManager)
        requires
            self.same_visibility(other),
        ensures
            forall|window: Window| #[trigger] self.visible(window) == other.visible(window),
            forall|window: Window| #[trigger] self.has(window) == other.has(window),
            forall|window: Window| #[trigger] self.client(window) == other.client(window),
    {
        assert(self.windows() =~= other.windows());
    }

    /// States with the same clients and the same tag sets in view find the
    /// same first visible window.
    pub proof fn lemma_same_first_shown(self, other: WindowManager, order: Seq<Window>, from: int)
        requires
            self.same_visibility(other),
        ensures
            self.first_shown(order, from) == other.first_shown(order, from),
        decreases order.len() - from,
    {
        self.lemma_same_visibility(other);
        if 0 <= from < order.len() {
            self.lemma_same_first_shown(other, order, from + 1);
        }
    }

    /// The registry holds the same windows on the same monitors, in the
    /// same places, as `other` does.
    pub open spec fn same_shape(self, other: WindowManager) -> bool {
        &&& self.clients@.len() == other.clients@.len()
        &&& forall|i: int|
            0 <= i < self.clients@.len() ==> (#[trigger] self.clients@[i]).window
                == other.clients@[i].window && self.clients@[i].monitor_index
                == other.clients@[i].monitor_index
    }

    /// Registries of the same shape manage the same windows, each on the
    /// same monitor.
    pub proof fn lemma_same_shape(self, other: WindowManager)
        requires
            self.same_shape(other),
        ensures
            self.windows() == other.windows(),
            forall|window: Window| #[trigger] self.has(window) == other.has(window),
            forall|window: Window| #[trigger] self.place(window) == other.place(window),
            forall|window: Window|
                self.has(window) ==> (#[trigger] self.client(window)).monitor_index
                    == other.client(window).monitor_index && self.client(window).window
                    == window,
    {
        assert(self.windows() =~= other.windows());
        assert forall|window: Window| self.has(window) implies (#[trigger] self.client(
            window,
        )).monitor_index == other.client(window).monitor_index && self.client(window).window
            == window by {
            let at = self.windows().index_of(window);
            assert(self.windows()[at] == window);
        }
    }

    /// The orderings hold the same windows as those of `other`, whatever
    /// their order.
    pub open spec fn same_members(self, other: WindowManager) -> bool {
        &&& self.monitors@.len() == other.monitors@.len()
        &&& forall|m: int, window: Window|
            0 <= m < self.monitors@.len() ==> (#[trigger] self.listed(m, window)) == other.listed(
                m,
                window,
            )
        &&& forall|m: int, window: Window|
            0 <= m < self.monitors@.len() ==> (#[trigger] self.stacked(m, window))
                == other.stacked(m, window)
    }

    /// The selected client of each monitor is in its focus order.
    pub open spec fn selection_stacked(self) -> bool {
        forall|m: int|
            0 <= m < self.monitors@.len() ==> match (#[trigger] self.monitors@[m]).selected_client {
                Some(window) => self.stacked(m, window),
                None => true,
            }
    }

    /// Consistency carries over to a state with the same shape of registry
    /// and the same members in the orderings.
    pub proof fn lemma_consistent_carries(self, other: WindowManager)
        requires
            other.wf(),
            other.consistent(),
            self.same_shape(other),
            self.same_members(other),
            self.selection_stacked(),
        ensures
            self.consistent(),
    {
        self.lemma_same_shape(other);
        assert forall|m: int, window: Window|
            0 <= m < self.monitors@.len() && #[trigger] self.listed(m, window) implies self.has(
            window,
        ) && self.client(window).monitor_index == m by {
            assert(other.listed(m, window));
        }
        assert forall|m: int, window: Window|
            0 <= m < self.monitors@.len() && #[trigger] self.stacked(m, window) implies self.has(
            window,
        ) && self.client(window).monitor_index == m by {
            assert(other.stacked(m, window));
        }
        assert forall|i: int| 0 <= i < self.clients@.len() implies self.listed(
            self.clients@[i].monitor_index as int,
            (#[trigger] self.clients@[i]).window,
        ) && self.stacked(self.clients@[i].monitor_index as int, self.clients@[i].window) by {
            assert(other.listed(
                other.clients@[i].monitor_index as int,
                other.clients@[i].window,
            ));
            assert(other.stacked(
                other.clients@[i].monitor_index as int,
                other.clients@[i].window,
            ));
            assert(other.clients@[i].wf());
        }
    }

    /// A managed window occurs once in the tiling order and once in the
    /// focus order of its monitor, and in no ordering of another monitor.
    pub proof fn lemma_listed_once(self, window: Window, other_monitor: int)
        requires
            self.wf(),
            self.consistent(),
            self.has(window),
            0 <= other_monitor < self.monitors@.len(),
            other_monitor != self.client(window).monitor_index,
        ensures
            self.listed(self.client(window).monitor_index as int, window),
            self.stacked(self.client(window).monitor_index as int, window),
            self.monitors@[self.client(window).monitor_index as int].clients@.no_duplicates(),
            self.monitors@[self.client(window).monitor_index as int].stack@.no_duplicates(),
            !self.listed(other_monitor, window),
            !self.stacked(other_monitor, window),
    {
        let at = self.windows().index_of(window);
        assert(self.windows()[at] == window);
        assert(self.clients@[at].window == window);
        assert(self.clients@[at].wf());
        assert(self.monitors@[self.client(window).monitor_index as int].wf());
    }

    /// The window has the property.
    pub open spec fn picks(self, pick: Pick, window: Window) -> bool {
        match pick {
            Pick::Shown => self.visible(window),
            Pick::Tiled(monitor) => self.visible(window) && self.client(window).monitor_index
                == monitor && !self.client(window).is_floating,
            Pick::FloatingBut(spared) => self.has(window) && self.client(window).is_floating
                && spared != Some(window),
            Pick::Unfloating => self.has(window) && !self.client(window).is_floating,
            Pick::Tabbed(monitor) => self.visible(window) && self.client(window).monitor_index
                == monitor && !self.client(window).is_floating && !self.client(
                window,
            ).is_fullscreen,
        }
    }

    /// Computes `picks`.
    pub fn is_picked(&self, pick: Pick, window: Window) -> (picked: bool)
        requires
            self.wf(),
        ensures
            picked == self.picks(pick, window),
    {
        match self.find(window) {
            Some(index) => {
                let client = &self.clients[index];
                let shown = client.is_shown_under(
                    self.monitors[client.monitor_index].get_selected_tag(),
                );
                match pick {
                    Pick::Shown => shown,
                    Pick::Tiled(monitor) => shown && client.monitor_index == monitor
                        && !client.is_floating,
                    Pick::FloatingBut(spared) => client.is_floating && match spared {
                        Some(other) => other != window,
                        None => true,
                    },
                    Pick::Unfloating => !client.is_floating,
                    Pick::Tabbed(monitor) => shown && client.monitor_index == monitor
                        && !client.is_floating && !client.is_fullscreen,

                }
            },
            None => false,
        }
    }

    /// The windows with the property among the first `count` of `order`, in
    /// their order.
    pub open spec fn among(self, pick: Pick, order: Seq<Window>, count: int) -> Seq<Window>
        decreases count,
    {
        if count <= 0 {
            Seq::empty()
        } else if self.picks(pick, order[count - 1]) {
            self.among(pick, order, count - 1).push(order[count - 1])
        } else {
            self.among(pick, order, count - 1)
        }
    }

    /// The windows with the property in `order`, in their order.
    pub open spec fn all_among(self, pick: Pick, order: Seq<Window>) -> Seq<Window> {
        self.among(pick, order, order.len() as int)
    }

    /// Every window picked from an ordering is in the ordering and has the
    /// property, and every such window is picked.
    pub proof fn lemma_among(self, pick: Pick, order: Seq<Window>, count: int)
        requires
            0 <= count <= order.len(),
        ensures
            forall|window: Window|
                #[trigger] self.among(pick, order, count).contains(window) <==> (self.picks(
                    pick,
                    window,
                ) && order.subrange(0, count).contains(window)),
            self.among(pick, order, count).len() <= count,
            order.no_duplicates() ==> self.among(pick, order, count).no_duplicates(),
        decreases count,
    {
        if count > 0 {
            self.lemma_among(pick, order, count - 1);
            let shorter = self.among(pick, order, count - 1);
            let last = order[count - 1];
            assert(order.subrange(0, count) =~= order.subrange(0, count - 1).push(last));
            assert forall|window: Window| #[trigger]
                self.among(pick, order, count).contains(window) <==> (self.picks(pick, window)
                    && order.subrange(0, count).contains(window)) by {
                let longer = self.among(pick, order, count);
                if longer.contains(window) {
                    let at = longer.index_of(window);
                    if at < shorter.len() {
                        assert(shorter[at] == window);
                        assert(shorter.contains(window));
                        let inside = order.subrange(0, count - 1).index_of(window);
                        assert(order.subrange(0, count)[inside] == window);
                    } else {
                        assert(window == last);
                        assert(order.subrange(0, count)[count - 1] == last);
                    }
                }
                if self.picks(pick, window) && order.subrange(0, count).contains(window) {
                    let inside = order.subrange(0, count).index_of(window);
                    if inside < count - 1 {
                        assert(order.subrange(0, count - 1)[inside] == window);
                        assert(shorter.contains(window));
                        let at = shorter.index_of(window);
                        assert(longer[at] == window);
                    } else {
                        assert(longer == shorter.push(last));
                        assert(longer[longer.len() - 1] == window);
                    }
                }
            }
            if order.no_duplicates() && self.picks(pick, last) {
                if shorter.contains(last) {
                    let inside = order.subrange(0, count - 1).index_of(last);
                    assert(order[inside] == last);
                }
                assert forall|i: int, j: int|
                    0 <= i < shorter.len() + 1 && 0 <= j < shorter.len() + 1 && i != j implies shorter.push(
                    last,
                )[i] != shorter.push(last)[j] by {
                    if i < shorter.len() {
                        assert(shorter.contains(shorter[i]));
                    }
                    if j < shorter.len() {
                        assert(shorter.contains(shorter[j]));
                    }
                }
            }
        }
    }

    /// Picks the windows with a property from an ordering.
    pub fn collect(&self, pick: Pick, order: &WindowList) -> (picked: Vec<Window>)
        requires
            self.wf(),
        ensures
            picked@ == self.all_among(pick, order@),
    {
        let mut picked: Vec<Window> = Vec::new();
        let mut index: usize = 0;
        while index < order.len()
            invariant
                self.wf(),
                index <= order@.len(),
                picked@ == self.among(pick, order@, index as int),
            decreases order@.len() - index,
        {
            let window = order.get(index);
            if self.is_picked(pick, window) {
                picked.push(window);
            }
            index += 1;
        }
        picked
    }

    /// The visible windows of monitor `monitor_index`, in tiling order; none
    /// for a monitor that does not exist.
    pub fn visible_windows_on_monitor(&self, monitor_index: usize) -> (shown: Vec<Window>)
        requires
            self.wf(),
        ensures
            shown@ == if monitor_index < self.monitors@.len() {
                self.all_among(Pick::Shown, self.monitors@[monitor_index as int].clients@)
            } else {
                Seq::empty()
            },
    {
        if monitor_index < self.monitors.len() {
            self.collect(Pick::Shown, &self.monitors[monitor_index].clients)
        } else {
            Vec::new()
        }
    }

    /// The visible windows of the first `count` monitors, monitor by
    /// monitor, each in tiling order.
    pub open spec fn shown_on_first(self, count: int) -> Seq<Window>
        decreases count,
    {
        if count <= 0 {
            Seq::empty()
        } else {
            self.shown_on_first(count - 1) + self.all_among(
                Pick::Shown,
                self.monitors@[count - 1].clients@,
            )
        }
    }

    /// The visible windows of all monitors.
    pub fn visible_windows(&self) -> (shown: Vec<Window>)
        requires
            self.wf(),
        ensures
            shown@ == self.shown_on_first(self.monitors@.len() as int),
    {
        let mut shown: Vec<Window> = Vec::new();
        let mut index: usize = 0;
        while index < self.monitors.len()
            invariant
                self.wf(),
                index <= self.monitors@.len(),
                shown@ == self.shown_on_first(index as int),
            decreases self.monitors@.len() - index,
        {
            let mut more = self.collect(Pick::Shown, &self.monitors[index].clients);
            shown.append(&mut more);
            index += 1;
        }
        shown
    }

    /// The windows that the layout arranges on monitor `m`, in tiling order.
    pub open spec fn tiled_on(self, m: int) -> Seq<Window> {
        self.all_among(Pick::Tiled(m as usize), self.monitors@[m].clients@)
    }

    /// The windows that the layout arranges on monitor `monitor_index`, in
    /// tiling order.
    pub fn tiled_windows(&self, monitor_index: usize) -> (tiled: Vec<Window>)
        requires
            self.wf(),
            monitor_index < self.monitors@.len(),
        ensures
            tiled@ == self.tiled_on(monitor_index as int),
    {
        self.collect(Pick::Tiled(monitor_index), &self.monitors[monitor_index].clients)
    }

    /// States that pick the same windows pick the same from an ordering.
    pub proof fn lemma_same_among(
        self,
        other: WindowManager,
        pick: Pick,
        order: Seq<Window>,
        count: int,
    )
        requires
            forall|window: Window| #[trigger] self.picks(pick, window) == other.picks(pick, window),
        ensures
            self.among(pick, order, count) == other.among(pick, order, count),
        decreases count,
    {
        if count > 0 {
            self.lemma_same_among(other, pick, order, count - 1);
        }
    }

    /// Picks the windows with a property from the registry, oldest first.
    pub fn collect_managed(&self, pick: Pick) -> (picked: Vec<Window>)
        requires
            self.wf(),
        ensures
            picked@ == self.all_among(pick, self.windows()),
    {
        let mut picked: Vec<Window> = Vec::new();
        let mut index: usize = 0;
        while index < self.clients.len()
            invariant
                self.wf(),
                index <= self.clients@.len(),
                picked@ == self.among(pick, self.windows(), index as int),
            decreases self.clients@.len() - index,
        {
            let window = self.clients[index].window;
            assert(self.windows()[index as int] == window);
            if self.is_picked(pick, window) {
                picked.push(window);
            }
            index += 1;
        }
        picked
    }

    /// The windows of monitor `monitor_index` that get a tab, oldest first.
    pub fn tab_windows(&self, monitor_index: usize) -> (tabs: Vec<Window>)
        requires
            self.wf(),
        ensures
            tabs@ == self.all_among(Pick::Tabbed(monitor_index), self.windows()),
    {
        self.collect_managed(Pick::Tabbed(monitor_index))
    }

    /// Window `other` is one beside which a window with the tags `tags` is
    /// put: it is managed and shares a tag.
    pub open spec fn groups_with(self, other: Window, tags: TagMask) -> bool {
        self.has(other) && masks_overlap(self.client(other).tags, tags)
    }

    /// The place, among the first `count` windows of `order`, for a window
    /// with the tags `tags`: behind the last window it groups with, or
    /// first where there is none.
    pub open spec fn aside_place(self, order: Seq<Window>, tags: TagMask, count: int) -> int
        decreases count,
    {
        if count <= 0 {
            0
        } else if self.groups_with(order[count - 1], tags) {
            count
        } else {
            self.aside_place(order, tags, count - 1)
        }
    }

    /// States with the same clients find the same place.
    pub proof fn lemma_same_aside_place(
        self,
        other: WindowManager,
        order: Seq<Window>,
        tags: TagMask,
        count: int,
    )
        requires
            self.clients@ == other.clients@,
        ensures
            self.aside_place(order, tags, count) == other.aside_place(order, tags, count),
            0 <= self.aside_place(order, tags, count),
            count >= 0 ==> self.aside_place(order, tags, count) <= count,
        decreases count,
    {
        assert(self.windows() =~= other.windows());
        if count > 0 {
            self.lemma_same_aside_place(other, order, tags, count - 1);
        }
    }

    /// Computes `aside_place` for a whole ordering.
    pub fn find_aside_place(&self, order: &WindowList, tags: TagMask) -> (place: usize)
        requires
            self.wf(),
        ensures
            place == self.aside_place(order@, tags, order@.len() as int),
            place <= order@.len(),
    {
        let mut place: usize = 0;
        let mut index: usize = 0;
        while index < order.len()
            invariant
                self.wf(),
                index <= order@.len(),
                place <= index,
                place == self.aside_place(order@, tags, index as int),
            decreases order@.len() - index,
        {
            let other = order.get(index);
            let groups = match self.find(other) {
                Some(at) => self.clients[at].tags & tags != 0,
                None => false,
            };
            index += 1;
            if groups {
                place = index;
            }
        }
        place
    }

    /// The tiling order of a monitor after window `window` is put beside
    /// the windows it groups with.
    pub open spec fn put_aside(self, order: Seq<Window>, window: Window) -> Seq<Window> {
        let rest = without(order, window);
        with_at(
            rest,
            self.aside_place(rest, self.client(window).tags, rest.len() as int),
            window,
        )
    }

    /// Puts the window into the tiling order of its monitor behind the last
    /// window that shares a tag with it, or first where
    /// there is none; it is in that order once afterwards, wherever it
    /// was.  A window that is not managed, or not on that monitor, is not
    /// attached.
    pub fn attach_aside(&mut self, window: Window, monitor_index: usize)
        requires
            old(self).wf(),
        ensures
            final(self).wf(),
            final(self).same_but_monitor(*old(self), monitor_index as int),
            !old(self).belongs_to(window, monitor_index) ==> *final(self) == *old(self),
            old(self).belongs_to(window, monitor_index) ==> final(self).monitors@[monitor_index as int]
                == (Monitor {
                clients: final(self).monitors@[monitor_index as int].clients,
                ..old(self).monitors@[monitor_index as int]
            }) && final(self).monitors@[monitor_index as int].clients@ == old(self).put_aside(
                old(self).monitors@[monitor_index as int].clients@,
                window,
            ),
            old(self).sound() ==> final(self).sound(),
    {
        if self.is_on_monitor(window, monitor_index) {
            let index = self.find(window).unwrap();
            let tags = self.clients[index].tags;
            self.monitors[monitor_index].clients.remove(window);
            let place = self.find_aside_place(&self.monitors[monitor_index].clients, tags);
            proof {
                let rest = without(old(self).monitors@[monitor_index as int].clients@, window);
                self.lemma_same_aside_place(*old(self), rest, tags, rest.len() as int);
                lemma_without(rest, window);
                lemma_without(old(self).monitors@[monitor_index as int].clients@, window);
            }
            self.monitors[monitor_index].clients.insert(place, window);
            proof {
                let rest = without(old(self).monitors@[monitor_index as int].clients@, window);
                lemma_with_at(rest, place as int, window);
                if old(self).sound() {
                    self.lemma_sound_kept(*old(self), monitor_index as int);
                }
            }
        }
    }

    /// The first place in `order`, from `from` on, of a window with the
    /// property.
    pub open spec fn first_picked_from(self, pick: Pick, order: Seq<Window>, from: int) -> Option<int>
        decreases order.len() - from,
    {
        if from < 0 || from >= order.len() {
            None
        } else if self.picks(pick, order[from]) {
            Some(from)
        } else {
            self.first_picked_from(pick, order, from + 1)
        }
    }

    /// The last place in `order`, before `count`, of a window with the
    /// property.
    pub open spec fn last_picked_before(self, pick: Pick, order: Seq<Window>, count: int) -> Option<int>
        decreases count,
    {
        if count <= 0 || count > order.len() {
            None
        } else if self.picks(pick, order[count - 1]) {
            Some(count - 1)
        } else {
            self.last_picked_before(pick, order, count - 1)
        }
    }

    /// Computes `first_picked_from`.
    pub fn find_first_picked(
        &self,
        pick: Pick,
        order: &WindowList,
        from: usize,
    ) -> (found: Option<usize>)
        requires
            self.wf(),
        ensures
            match found {
                Some(place) => self.first_picked_from(pick, order@, from as int) == Some(
                    place as int,
                ) && from <= place < order@.len(),
                None => self.first_picked_from(pick, order@, from as int).is_none(),
            },
    {
        let mut index: usize = from;
        while index < order.len()
            invariant
                self.wf(),
                from <= index,
                self.first_picked_from(pick, order@, from as int) == self.first_picked_from(
                    pick,
                    order@,
                    index as int,
                ),
            decreases order@.len() - index,
        {
            if self.is_picked(pick, order.get(index)) {
                return Some(index);
            }
            index += 1;
        }
        None
    }

    /// Computes `last_picked_before`.
    pub fn find_last_picked(
        &self,
        pick: Pick,
        order: &WindowList,
        count: usize,
    ) -> (found: Option<usize>)
        requires
            self.wf(),
            count <= order@.len(),
        ensures
            match found {
                Some(place) => self.last_picked_before(pick, order@, count as int) == Some(
                    place as int,
                ) && place < count,
                None => self.last_picked_before(pick, order@, count as int).is_none(),
            },
    {
        let mut index: usize = count;
        while index > 0
            invariant
                self.wf(),
                index <= count,
                count <= order@.len(),
                self.last_picked_before(pick, order@, count as int) == self.last_picked_before(
                    pick,
                    order@,
                    index as int,
                ),
            decreases index,
        {
            if self.is_picked(pick, order.get(index - 1)) {
                return Some(index - 1);
            }
            index -= 1;
        }
        None
    }
}

} // verus!
