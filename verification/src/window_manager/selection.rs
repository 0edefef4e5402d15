//! The selected client of a monitor is one of its visible windows: what
//! that means, and why the operations keep it so.

use vstd::prelude::*;
use crate::client::Client;
use crate::tags::Window;
use crate::window_manager::WindowManager;

verus! {

impl WindowManager {
    /// The selected client of every monitor, but for monitor `spared`, is
    /// visible.
    pub open spec fn selection_shown_but(self, spared: int) -> bool {
        forall|m: int|
            0 <= m < self.monitors@.len() && m != spared ==> match (
            #[trigger] self.monitors@[m]).selected_client {
                Some(window) => self.visible(window),
                None => true,
            }
    }

    /// The selected client of every monitor is visible.
    pub open spec fn selection_shown(self) -> bool {
        self.selection_shown_but(-1)
    }

    /// The state is in order: the orderings hold exactly the managed
    /// windows of their monitors, and the selected client of every monitor
    /// is one of its visible windows.
    pub open spec fn orderly(self) -> bool {
        self.consistent() && self.selection_shown()
    }

    /// The windows, their monitors and tags, and the tags in view are as in
    /// `other`.
    pub open spec fn same_view(self, other: WindowManager) -> bool {
        &&& self.same_shape(other)
        &&& forall|i: int|
            0 <= i < self.clients@.len() ==> (#[trigger] self.clients@[i]).tags
                == other.clients@[i].tags
        &&& self.monitors@.len() == other.monitors@.len()
        &&& forall|m: int|
            0 <= m < self.monitors@.len() ==> (#[trigger] self.monitors@[m]).selected_tags()
                == other.monitors@[m].selected_tags()
    }

    /// States with the same view show the same windows.
    pub proof fn lemma_same_view(self, other: WindowManager)
        requires
            self.same_view(other),
        ensures
            forall|window: Window| #[trigger] self.visible(window) == other.visible(window),
    {
        self.lemma_same_shape(other);
        assert forall|window: Window| #[trigger] self.visible(window) == other.visible(window) by {
            if self.has(window) {
                let at = self.place(window);
                assert(self.windows()[at] == window);
                assert(self.clients@[at].tags == other.clients@[at].tags);
            }
        }
    }

    /// The selections are as in `other`, but for monitor `spared`.
    pub open spec fn same_selection_but(self, other: WindowManager, spared: int) -> bool {
        &&& self.monitors@.len() == other.monitors@.len()
        &&& forall|m: int|
            0 <= m < self.monitors@.len() && m != spared ==> (
            #[trigger] self.monitors@[m]).selected_client == other.monitors@[m].selected_client
    }

    /// Visible selections stay visible in a state with the same view and
    /// the same selections.
    pub proof fn lemma_selection_carries(self, other: WindowManager, spared: int)
        requires
            other.selection_shown_but(spared),
            self.same_view(other),
            self.same_selection_but(other, spared),
        ensures
            self.selection_shown_but(spared),
    {
        self.lemma_same_view(other);
        assert forall|m: int| 0 <= m < self.monitors@.len() && m != spared implies match (
        #[trigger] self.monitors@[m]).selected_client {
            Some(window) => self.visible(window),
            None => true,
        } by {
            assert(other.monitors@[m].selected_client == self.monitors@[m].selected_client);
        }
    }

    /// With the selection of the spared monitor visible too, every
    /// selection is visible.
    pub proof fn lemma_selection_completed(self, spared: int)
        requires
            self.selection_shown_but(spared),
            0 <= spared < self.monitors@.len() ==> match self.monitors@[spared].selected_client {
                Some(window) => self.visible(window),
                None => true,
            },
        ensures
            self.selection_shown(),
    {
    }

    /// A state that differs in geometry only keeps the selections visible.
    pub proof fn lemma_geometry_keeps_selection(self, other: WindowManager, spared: int)
        requires
            other.wf(),
            other.selection_shown_but(spared),
            self.same_but_geometry(other),
        ensures
            self.selection_shown_but(spared),
    {
        self.lemma_same_but_geometry(other);
        assert forall|m: int| 0 <= m < self.monitors@.len() && m != spared implies match (
        #[trigger] self.monitors@[m]).selected_client {
            Some(window) => self.visible(window),
            None => true,
        } by {
            assert(other.monitors@[m].selected_client == self.monitors@[m].selected_client);
        }
    }

    /// A state with one client replaced by one with the same tags keeps the
    /// selections visible.
    pub proof fn lemma_replacement_keeps_selection(
        self,
        other: WindowManager,
        index: int,
        spared: int,
    )
        requires
            other.wf(),
            other.selection_shown_but(spared),
            self.client_replaced(other, index),
            self.clients@[index].tags == other.clients@[index].tags,
        ensures
            self.selection_shown_but(spared),
    {
        assert(self.same_view(other)) by {
            assert forall|i: int| 0 <= i < self.clients@.len() implies (
            #[trigger] self.clients@[i]).tags == other.clients@[i].tags
                && self.clients@[i].window == other.clients@[i].window
                && self.clients@[i].monitor_index == other.clients@[i].monitor_index by {}
        }
        self.lemma_selection_carries(other, spared);
    }

    /// In a consistent state the selected client of a monitor is on that
    /// monitor.
    pub proof fn lemma_selected_on_monitor(self, m: int)
        requires
            self.consistent(),
            0 <= m < self.monitors@.len(),
        ensures
            match self.monitors@[m].selected_client {
                Some(window) => self.on(window, m),
                None => true,
            },
    {
        match self.monitors@[m].selected_client {
            Some(window) => {
                assert(self.stacked(m, window));
            },
            None => {},
        }
    }

    /// A state in order stays in order when only geometry changes.
    pub proof fn lemma_orderly_geometry(self, other: WindowManager)
        requires
            other.wf(),
            other.orderly(),
            self.same_but_geometry(other),
        ensures
            self.orderly(),
    {
        self.lemma_same_but_geometry(other);
        self.lemma_geometry_keeps_selection(other, -1);
    }

    /// A consistent state with the view and the selections of a state in
    /// order is in order.
    pub proof fn lemma_orderly_carries(self, other: WindowManager)
        requires
            other.orderly(),
            self.consistent(),
            self.same_view(other),
            self.same_selection_but(other, -1),
        ensures
            self.orderly(),
    {
        self.lemma_selection_carries(other, -1);
    }

    /// A change of the tag sets of one monitor leaves the selections of the
    /// other monitors visible.
    pub proof fn lemma_retag_spares_others(self, before: WindowManager, m: int)
        requires
            before.wf(),
            before.orderly(),
            0 <= m < before.monitors@.len(),
            self.same_but_monitor(before, m),
            self.monitors@[m].same_but_tags(before.monitors@[m]),
        ensures
            self.selection_shown_but(m),
    {
        assert(self.windows() =~= before.windows());
        assert forall|k: int| 0 <= k < self.monitors@.len() && k != m implies match (
        #[trigger] self.monitors@[k]).selected_client {
            Some(window) => self.visible(window),
            None => true,
        } by {
            assert(self.monitors@[k] == before.monitors@[k]);
            before.lemma_selected_on_monitor(k);
            match before.monitors@[k].selected_client {
                Some(window) => {
                    assert(before.visible(window));
                    assert(before.client(window).monitor_index == k);
                },
                None => {},
            }
        }
    }

    /// A change of one client leaves the selections of the monitors that
    /// it is not on visible.
    pub proof fn lemma_client_spares_others(self, before: WindowManager, index: int)
        requires
            before.wf(),
            before.orderly(),
            self.client_replaced(before, index),
        ensures
            self.selection_shown_but(before.clients@[index].monitor_index as int),
    {
        let m = before.clients@[index].monitor_index as int;
        let changed = before.clients@[index].window;
        self.lemma_client_replaced(before, index);
        before.lemma_place(index);
        assert forall|k: int| 0 <= k < self.monitors@.len() && k != m implies match (
        #[trigger] self.monitors@[k]).selected_client {
            Some(window) => self.visible(window),
            None => true,
        } by {
            before.lemma_selected_on_monitor(k);
            match before.monitors@[k].selected_client {
                Some(window) => {
                    assert(before.visible(window));
                    assert(window != changed);
                    assert(self.client(window) == before.client(window));
                },
                None => {},
            }
        }
    }

}

} // verus!
