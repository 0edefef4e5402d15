//! Tags: what is in view on a monitor, and which tags a window has.

use vstd::prelude::*;
use vstd::std_specs::bits::u32_trailing_zeros;
use crate::client::Client;
use crate::monitor::Monitor;
use crate::tags::MAX_TAGS;
use crate::tags::TagMask;
use crate::tags::Window;
use crate::tags::tag_mask;
use crate::tags::unmask_tag;
use crate::window_manager::Command;
use crate::window_manager::WindowManager;

verus! {

impl WindowManager {
    /// The state is `before` with the client at `index` replaced by one for
    /// the same window on the same monitor.
    pub open spec fn client_replaced(self, before: WindowManager, index: int) -> bool {
        &&& 0 <= index < before.clients@.len()
        &&& self.clients@ == before.clients@.update(index, self.clients@[index])
        &&& self.clients@[index].window == before.clients@[index].window
        &&& self.clients@[index].monitor_index == before.clients@[index].monitor_index
        &&& self.clients@[index].wf()
        &&& self.monitors == before.monitors
        &&& self.selected_monitor == before.selected_monitor
        &&& self.previous_focused == before.previous_focused
        &&& self.same_settings(before)
    }

    /// Replacing a client by one for the same window on the same monitor
    /// keeps the state well formed and consistent.
    pub proof fn lemma_client_replaced(self, before: WindowManager, index: int)
        requires
            before.wf(),
            self.client_replaced(before, index),
        ensures
            self.wf(),
            before.consistent() ==> self.consistent(),
            self.windows() == before.windows(),
            self.client(before.clients@[index].window) == self.clients@[index],
            forall|window: Window|
                before.has(window) && window != before.clients@[index].window
                    ==> #[trigger] self.client(window) == before.client(window),
    {
        assert(self.same_shape(before));
        self.lemma_same_shape(before);
        assert forall|i: int| 0 <= i < self.clients@.len() implies (#[trigger] self.clients@[i]).wf()
            && self.clients@[i].monitor_index < self.monitors@.len() by {
            assert(before.clients@[i].wf());
        }
        before.lemma_place(index);
        assert forall|window: Window|
            before.has(window) && window != before.clients@[index].window implies #[trigger] self.client(
            window,
        ) == before.client(window) by {
            let at = before.place(window);
            assert(before.windows()[at] == window);
        }
        if before.consistent() {
            assert(self.same_members(before));
            self.lemma_consistent_carries(before);
        }
    }

    /// The state after the focus went to the first visible window of the
    /// selected monitor and the windows were arranged, starting from the
    /// state `start`, with the commands of both, and a redraw of the bars
    /// at the end if `bar` is set, added to `issued`.
    pub open spec fn refreshed(
        self,
        start: WindowManager,
        bar: bool,
        issued: Seq<Command>,
        all: Seq<Command>,
    ) -> bool {
        exists|focused: WindowManager, first: WindowManager, second: WindowManager|
            #![auto]
            focused.after_focus(start, None) && self.arranged_through(focused, first, second)
                && all == issued + start.focus_commands(None) + focused.arrange_commands(
                first,
                second,
                self,
            ) + (if bar {
                seq![Command::UpdateBar]
            } else {
                Seq::empty()
            })
    }

    /// The registry holds the windows of `other`, each with the tags that
    /// it has there.
    pub open spec fn same_tags(self, other: WindowManager) -> bool {
        &&& self.same_shape(other)
        &&& forall|i: int|
            0 <= i < self.clients@.len() ==> (#[trigger] self.clients@[i]).tags
                == other.clients@[i].tags
    }

    /// The selected client of the selected monitor, if it has one, is a
    /// window of the tags in view.
    pub open spec fn focus_in_view(self) -> bool {
        match self.focused() {
            Some(window) => self.visible(window),
            None => true,
        }
    }

    /// Gives the focus to the first visible window of the selected monitor
    /// and arranges the windows; the bars are redrawn if `bar` is set.
    pub fn refresh(&mut self, bar: bool, out: &mut Vec<Command>)
        requires
            old(self).wf(),
        ensures
            final(self).wf(),
            old(self).consistent() ==> final(self).consistent(),
            old(self).orderly() ==> final(self).orderly(),
            old(self).consistent() && old(self).selection_shown_but(
                old(self).selected_monitor as int,
            ) ==> final(self).orderly(),
            final(self).refreshed(*old(self), bar, old(out)@, final(out)@),
            final(self).same_tags(*old(self)),
            final(self).focus_in_view(),
    {
        let ghost start = *self;
        let ghost issued = out@;
        self.focus(None, out);
        let ghost focused = *self;
        let ghost focus_out = out@;
        proof {
            start.lemma_first_shown(start.monitors@[start.selected_monitor as int].stack@, 0);
            match start.focus_target(None) {
                Some(target) => {
                    assert(start.visible(target));
                    assert(start.has(target));
                },
                None => {},
            }
            assert(focused.same_tags(start));
            assert(focused.focus_in_view());
        }
        self.apply_layout(out);
        proof {
            if focused.orderly() {
                self.lemma_orderly_geometry(focused);
            }
            self.lemma_same_but_geometry(focused);
            assert(self.same_tags(start)) by {
                assert forall|i: int| 0 <= i < self.clients@.len() implies (
                #[trigger] self.clients@[i]).tags == start.clients@[i].tags && self.clients@[i].window
                    == start.clients@[i].window && self.clients@[i].monitor_index
                    == start.clients@[i].monitor_index by {
                    assert(self.clients@[i].same_but_geometry(focused.clients@[i]));
                }
            }
            assert(self.focused() == focused.focused());
        }
        let ghost arranged_out = out@;
        if bar {
            out.push(Command::UpdateBar);
        }
        proof {
            let (first, second) = choose|first: WindowManager, second: WindowManager|
                #![auto]
                self.arranged_through(focused, first, second) && arranged_out == focus_out
                    + focused.arrange_commands(first, second, *self);
            assert(focused.after_focus(start, None));
            assert(out@ =~= issued + start.focus_commands(None) + focused.arrange_commands(
                first,
                second,
                *self,
            ) + (if bar {
                seq![Command::UpdateBar]
            } else {
                Seq::empty()
            }));
        }
    }

    /// A refresh manages the windows that were managed.
    pub proof fn lemma_refreshed_windows(
        self,
        start: WindowManager,
        bar: bool,
        issued: Seq<Command>,
        all: Seq<Command>,
    )
        requires
            start.wf(),
            self.refreshed(start, bar, issued, all),
        ensures
            self.windows() == start.windows(),
            forall|window: Window| #[trigger] self.has(window) == start.has(window),
            self.layout == start.layout,
            self.selected_tags_of_all(start),
    {
        let (focused, first, second) = choose|
            focused: WindowManager,
            first: WindowManager,
            second: WindowManager,
        |
            #![auto]
            focused.after_focus(start, None) && self.arranged_through(focused, first, second)
                && all == issued + start.focus_commands(None) + focused.arrange_commands(
                first,
                second,
                self,
            ) + (if bar {
                seq![Command::UpdateBar]
            } else {
                Seq::empty()
            });
        focused.lemma_after_focus(start, None);
        first.lemma_same_but_geometry(focused);
        if focused.layout != crate::layout::LayoutType::Normie {
            second.lemma_same_but_geometry(first);
        }
        self.lemma_same_but_geometry(second);
    }

    /// The monitors have the tag sets that they have in `other`.
    pub open spec fn selected_tags_of_all(self, other: WindowManager) -> bool {
        &&& self.monitors@.len() == other.monitors@.len()
        &&& forall|m: int|
            0 <= m < self.monitors@.len() ==> (#[trigger] self.monitors@[m]).tagset
                == other.monitors@[m].tagset && self.monitors@[m].selected_tags_index
                == other.monitors@[m].selected_tags_index
    }

    /// Tag `tag_index` is one of the configured tags.
    pub open spec fn is_tag(self, tag_index: usize) -> bool {
        tag_index < self.config.tag_count()
    }

    /// The state is `before` with tag `tag_index` brought into view on the
    /// selected monitor.
    pub open spec fn views(self, before: WindowManager, tag_index: usize) -> bool {
        let m = before.selected_monitor as int;
        let viewing = before.monitors@[m].viewing(tag_index, before.config.tag_back_and_forth);
        &&& self.same_but_monitor(before, m)
        &&& self.monitors@[m].same_but_tags(before.monitors@[m])
        &&& self.monitors@[m].selected_tags_index == viewing.0
        &&& self.monitors@[m].tagset[0] == viewing.1
        &&& self.monitors@[m].tagset[1] == viewing.2
    }

    /// Bringing the tag into view changes the view: not so where the tag
    /// alone is in view already and going back and forth is off.
    pub open spec fn view_changes(self, tag_index: usize) -> bool {
        self.is_tag(tag_index) && !((1u32 << tag_index) == self.selected_tags()
            && !self.config.tag_back_and_forth)
    }

    /// The command that persists the tag in view: the index of its lowest
    /// tag.
    pub open spec fn save_view_command(self) -> Command {
        Command::SaveSelectedTag { desktop: u32_trailing_zeros(self.selected_tags()) }
    }

    /// Issues `save_view_command`.
    fn save_selected_tags(&self, out: &mut Vec<Command>)
        requires
            self.wf(),
        ensures
            final(out)@ == old(out)@ + seq![self.save_view_command()],
    {
        let tags = self.monitors[self.selected_monitor].get_selected_tag();
        out.push(Command::SaveSelectedTag { desktop: unmask_tag(tags) as u32 });
        assert(final(out)@ =~= old(out)@ + seq![self.save_view_command()]);
    }

    /// The state after a request to bring a tag into view, against the state before, with the
    /// commands issued.
    pub open spec fn after_view_tag(
        self,
        before: WindowManager,
        tag_index: usize,
        issued: Seq<Command>,
        all: Seq<Command>,
    ) -> bool {
        &&& !before.view_changes(tag_index) ==> self == before && all == issued
        &&& before.view_changes(tag_index) ==> exists|viewed: WindowManager|
            #![auto]
            viewed.views(before, tag_index) && self.refreshed(
                viewed,
                true,
                issued + seq![viewed.save_view_command()],
                all,
            )
    }

    /// Brings tag `tag_index` into view on the selected monitor, then gives
    /// the focus to the first visible window and arranges.  A tag that is
    /// not configured, or one that alone is in view already while going
    /// back and forth is off, changes nothing.
    pub fn view_tag(&mut self, tag_index: usize, out: &mut Vec<Command>)
        requires
            old(self).wf(),
        ensures
            final(self).wf(),
            old(self).consistent() ==> final(self).consistent(),
            old(self).orderly() ==> final(self).orderly(),
            final(self).after_view_tag(*old(self), tag_index, old(out)@, final(out)@),
            final(self).same_tags(*old(self)),
            old(self).view_changes(tag_index) ==> final(self).focus_in_view(),
    {
        if tag_index >= self.config.count_tags() {
            return ;
        }
        let back_and_forth = self.config.tag_back_and_forth;
        let selected = self.selected_monitor;
        let tags = self.monitors[selected].get_selected_tag();
        if tag_mask(tag_index) == tags && !back_and_forth {
            return ;
        }
        self.monitors[selected].view_tag(tag_index, back_and_forth);
        proof {
            self.lemma_monitor_retagged(*old(self), selected as int);
            if old(self).orderly() {
                self.lemma_retag_spares_others(*old(self), selected as int);
            }
        }
        let ghost viewed = *self;
        self.save_selected_tags(out);
        self.refresh(true, out);
        assert(viewed.views(*old(self), tag_index));
    }

    /// A change of the tag sets of one monitor keeps the state well formed
    /// and consistent.
    pub proof fn lemma_monitor_retagged(self, before: WindowManager, m: int)
        requires
            before.wf(),
            0 <= m < before.monitors@.len(),
            self.same_but_monitor(before, m),
            self.monitors@[m].same_but_tags(before.monitors@[m]),
            self.monitors@[m].wf(),
        ensures
            self.wf(),
            before.consistent() ==> self.consistent(),
    {
        assert(self.same_shape(before));
        self.lemma_same_shape(before);
        assert forall|k: int| 0 <= k < self.monitors@.len() implies (
        #[trigger] self.monitors@[k]).wf() by {
            if k != m {
                assert(self.monitors@[k] == before.monitors@[k]);
                assert(before.monitors@[k].wf());
            }
        }
        assert forall|i: int| 0 <= i < self.clients@.len() implies (#[trigger] self.clients@[i]).wf()
            && self.clients@[i].monitor_index < self.monitors@.len() by {
            assert(before.clients@[i].wf());
        }
        if before.consistent() {
            assert forall|k: int, window: Window| 0 <= k < self.monitors@.len() implies (
            #[trigger] self.stacked(k, window)) == before.stacked(k, window) by {
                if k != m {
                    assert(self.monitors@[k] == before.monitors@[k]);
                }
            }
            assert forall|k: int, window: Window| 0 <= k < self.monitors@.len() implies (
            #[trigger] self.listed(k, window)) == before.listed(k, window) by {
                if k != m {
                    assert(self.monitors@[k] == before.monitors@[k]);
                }
            }
            assert forall|k: int| 0 <= k < self.monitors@.len() implies match (
            #[trigger] self.monitors@[k]).selected_client {
                Some(window) => self.stacked(k, window),
                None => true,
            } by {
                if k != m {
                    assert(self.monitors@[k] == before.monitors@[k]);
                }
                assert(before.monitors@[k].selected_client == self.monitors@[k].selected_client);
            }
            self.lemma_consistent_carries(before);
        }
    }

    /// The state is `before` with tag `tag_index` toggled in the view of
    /// the selected monitor.
    pub open spec fn toggles_view(self, before: WindowManager, tag_index: usize) -> bool {
        let m = before.selected_monitor as int;
        &&& self.same_but_monitor(before, m)
        &&& self.monitors@[m].same_but_tags(before.monitors@[m])
        &&& self.monitors@[m].selected_tags_index == before.monitors@[m].selected_tags_index
        &&& self.monitors@[m].selected_tags() == before.monitors@[m].toggled(tag_index)
        &&& self.monitors@[m].previous_tags() == before.monitors@[m].previous_tags()
    }

    /// Toggling the tag changes the view: the tag is configured and it is
    /// not the last tag in view.
    pub open spec fn toggle_changes(self, tag_index: usize) -> bool {
        self.is_tag(tag_index) && self.selected_tags() ^ (1u32 << tag_index) != 0
    }

    /// The state after a request to toggle a tag in the view, against the state before, with the
    /// commands issued.
    pub open spec fn after_toggleview(
        self,
        before: WindowManager,
        tag_index: usize,
        issued: Seq<Command>,
        all: Seq<Command>,
    ) -> bool {
        &&& self.selected_tags() != 0
        &&& !before.toggle_changes(tag_index) ==> self == before && all
            == issued
        &&& before.toggle_changes(tag_index) ==> exists|viewed: WindowManager|
            #![auto]
            viewed.toggles_view(before, tag_index) && self.refreshed(
                viewed,
                true,
                issued + seq![viewed.save_view_command()],
                all,
            )
    }

    /// Toggles tag `tag_index` in the view of the selected monitor, then
    /// gives the focus to the first visible window and arranges.  A tag
    /// that is not configured, or the last tag in view, changes nothing:
    /// the view is never empty.
    pub fn toggleview(&mut self, tag_index: usize, out: &mut Vec<Command>)
        requires
            old(self).wf(),
        ensures
            final(self).wf(),
            old(self).consistent() ==> final(self).consistent(),
            old(self).orderly() ==> final(self).orderly(),
            final(self).after_toggleview(*old(self), tag_index, old(out)@, final(out)@),
            final(self).same_tags(*old(self)),
            old(self).toggle_changes(tag_index) ==> final(self).focus_in_view(),
    {
        if tag_index >= self.config.count_tags() {
            return ;
        }
        let selected = self.selected_monitor;
        let tags = self.monitors[selected].get_selected_tag();
        if tags ^ tag_mask(tag_index) == 0 {
            return ;
        }
        self.monitors[selected].toggleview(tag_index);
        proof {
            self.lemma_monitor_retagged(*old(self), selected as int);
            if old(self).orderly() {
                self.lemma_retag_spares_others(*old(self), selected as int);
            }
        }
        let ghost viewed = *self;
        self.save_selected_tags(out);
        self.refresh(true, out);
        assert(viewed.toggles_view(*old(self), tag_index));
    }

    /// Gives the client at `index` the tags `tags`.
    fn set_tags(&mut self, index: usize, tags: TagMask)
        requires
            old(self).wf(),
            index < old(self).clients@.len(),
        ensures
            final(self).wf(),
            old(self).consistent() ==> final(self).consistent(),
            old(self).orderly() ==> final(self).selection_shown_but(
                old(self).clients@[index as int].monitor_index as int,
            ),
            final(self).client_replaced(*old(self), index as int),
            final(self).clients@[index as int] == (Client {
                tags,
                ..old(self).clients@[index as int]
            }),
    {
        self.clients[index].tags = tags;
        proof {
            assert(self.clients@ =~= old(self).clients@.update(
                index as int,
                self.clients@[index as int],
            ));
            assert(old(self).clients@[index as int].wf());
            self.lemma_client_replaced(*old(self), index as int);
            if old(self).orderly() {
                self.lemma_client_spares_others(*old(self), index as int);
            }
        }
    }

    /// The state is `before` with the tags of window `window` set to
    /// `tags`.
    pub open spec fn retags(self, before: WindowManager, window: Window, tags: TagMask) -> bool {
        &&& self.client_replaced(before, before.place(window))
        &&& self.clients@[before.place(window)] == (Client { tags, ..before.client(window) })
    }

    /// The window whose tags a tag action changes: the selected client of
    /// the selected monitor, if it is managed and the tag is configured.
    pub open spec fn tag_subject(self, tag_index: usize) -> Option<Window> {
        match self.focused() {
            Some(window) => if self.is_tag(tag_index) && self.has(window) {
                Some(window)
            } else {
                None
            },
            None => None,
        }
    }

    /// Computes `tag_subject`, with the place of the client.
    fn find_tag_subject(&self, tag_index: usize) -> (found: Option<(Window, usize)>)
        requires
            self.wf(),
        ensures
            match found {
                Some((window, index)) => self.tag_subject(tag_index) == Some(window) && index
                    == self.place(window) && index < self.clients@.len() && self.clients@[index as int]
                    == self.client(window) && tag_index < MAX_TAGS && (self.consistent()
                    ==> self.clients@[index as int].monitor_index == self.selected_monitor),
                None => self.tag_subject(tag_index).is_none(),
            },
    {
        if tag_index >= self.config.count_tags() {
            return None;
        }
        proof {
            if self.consistent() {
                self.lemma_selected_on_monitor(self.selected_monitor as int);
            }
        }
        match self.monitors[self.selected_monitor].selected_client {
            Some(window) => match self.find(window) {
                Some(index) => Some((window, index)),
                None => None,
            },
            None => None,
        }
    }

    /// The state after a request to move the selected client to a tag, against the state before, with the
    /// commands issued.
    pub open spec fn after_move_to_tag(
        self,
        before: WindowManager,
        tag_index: usize,
        issued: Seq<Command>,
        all: Seq<Command>,
    ) -> bool {
        &&& match before.tag_subject(tag_index) {
            Some(window) => exists|tagged: WindowManager|
                #![auto]
                tagged.retags(before, window, 1u32 << tag_index) && self.refreshed(
                    tagged,
                    true,
                    issued + seq![
                        Command::SaveClientTag { window, tags: 1u32 << tag_index },
                    ],
                    all,
                ),
            None => self == before && all == issued,
        }
    }

    /// Moves the selected client to tag `tag_index` alone, persists that,
    /// then gives the focus to the first visible window and arranges.
    /// Without a selected client, or for a tag that is not configured,
    /// nothing happens.
    pub fn move_to_tag(&mut self, tag_index: usize, out: &mut Vec<Command>)
        requires
            old(self).wf(),
        ensures
            final(self).wf(),
            old(self).consistent() ==> final(self).consistent(),
            old(self).orderly() ==> final(self).orderly(),
            final(self).after_move_to_tag(*old(self), tag_index, old(out)@, final(out)@),
    {
        match self.find_tag_subject(tag_index) {
            Some((window, index)) => {
                let mask = tag_mask(tag_index);
                self.set_tags(index, mask);
                let ghost tagged = *self;
                out.push(Command::SaveClientTag { window, tags: mask });
                assert(out@ =~= old(out)@ + seq![
                    Command::SaveClientTag { window, tags: 1u32 << tag_index },
                ]);
                self.refresh(true, out);
                assert(tagged.retags(*old(self), window, 1u32 << tag_index));
            },
            None => {},
        }
    }

    /// The state after a request to toggle a tag on the selected client, against the state before, with the
    /// commands issued.
    pub open spec fn after_toggletag(
        self,
        before: WindowManager,
        tag_index: usize,
        issued: Seq<Command>,
        all: Seq<Command>,
    ) -> bool {
        &&& match before.tag_subject(tag_index) {
            Some(window) => if before.client(window).tags ^ (1u32 << tag_index) == 0 {
                self == before && all == issued
            } else {
                exists|tagged: WindowManager|
                    #![auto]
                    tagged.retags(
                        before,
                        window,
                        before.client(window).tags ^ (1u32 << tag_index),
                    ) && self.refreshed(
                        tagged,
                        true,
                        issued + seq![
                            Command::SaveClientTag {
                                window,
                                tags: before.client(window).tags ^ (1u32 << tag_index),
                            },
                        ],
                        all,
                    )
            },
            None => self == before && all == issued,
        }
    }

    /// Toggles tag `tag_index` on the selected client, persists that, then
    /// gives the focus to the first visible window and arranges.  The last
    /// tag of a client is not taken from it.
    pub fn toggletag(&mut self, tag_index: usize, out: &mut Vec<Command>)
        requires
            old(self).wf(),
        ensures
            final(self).wf(),
            old(self).consistent() ==> final(self).consistent(),
            old(self).orderly() ==> final(self).orderly(),
            final(self).after_toggletag(*old(self), tag_index, old(out)@, final(out)@),
    {
        match self.find_tag_subject(tag_index) {
            Some((window, index)) => {
                let new_tags = self.clients[index].tags ^ tag_mask(tag_index);
                if new_tags == 0 {
                    return ;
                }
                self.set_tags(index, new_tags);
                let ghost tagged = *self;
                out.push(Command::SaveClientTag { window, tags: new_tags });
                assert(out@ =~= old(out)@ + seq![Command::SaveClientTag { window, tags: new_tags }]);
                self.refresh(true, out);
                assert(tagged.retags(*old(self), window, new_tags));
            },
            None => {},
        }
    }

    /// A window whose lowest tag is tag `tag_index` is among the first
    /// `count` windows in the tiling order of monitor `m`.
    pub open spec fn tag_used_among(self, m: int, tag_index: usize, count: int) -> bool {
        exists|k: int|
            0 <= k < count && self.has(#[trigger] self.monitors@[m].clients@[k])
                && u32_trailing_zeros(self.client(self.monitors@[m].clients@[k]).tags)
                == tag_index
    }

    /// Monitor `monitor_number` has a window whose lowest tag is tag
    /// `tag_index`.
    pub fn has_windows_on_tag(&self, monitor_number: usize, tag_index: usize) -> (used: bool)
        requires
            self.wf(),
        ensures
            used == (monitor_number < self.monitors@.len() && self.tag_used_among(
                monitor_number as int,
                tag_index,
                self.monitors@[monitor_number as int].clients@.len() as int,
            )),
    {
        if monitor_number >= self.monitors.len() {
            return false;
        }
        let order = &self.monitors[monitor_number].clients;
        let mut index: usize = 0;
        while index < order.len()
            invariant
                self.wf(),
                monitor_number < self.monitors@.len(),
                *order == self.monitors@[monitor_number as int].clients,
                index <= order@.len(),
                !self.tag_used_among(monitor_number as int, tag_index, index as int),
            decreases order@.len() - index,
        {
            let window = order.get(index);
            match self.find(window) {
                Some(at) => {
                    if unmask_tag(self.clients[at].tags) == tag_index {
                        assert(self.tag_used_among(
                            monitor_number as int,
                            tag_index,
                            order@.len() as int,
                        )) by {
                            assert(self.has(self.monitors@[monitor_number as int].clients@[index as int]));
                        }
                        return true;
                    }
                },
                None => {},
            }
            index += 1;
        }
        false
    }

    /// The tags of a window that is taken under management: the tags that
    /// were persisted for it, if they are not empty and hold configured
    /// tags only; otherwise the tags in view on the selected monitor.
    pub open spec fn tags_for(self, saved: Option<TagMask>) -> TagMask {
        match saved {
            Some(tags) => if tags != 0 && (tags as u64) < (1u64 << (self.config.tag_count() as u64)) {
                tags
            } else {
                self.selected_tags()
            },
            None => self.selected_tags(),
        }
    }

    /// Computes `tags_for`.
    pub fn get_saved_tag(&self, saved: Option<TagMask>) -> (tags: TagMask)
        requires
            self.wf(),
        ensures
            tags == self.tags_for(saved),
    {
        let count = self.config.count_tags();
        let current = self.monitors[self.selected_monitor].get_selected_tag();
        match saved {
            Some(tags) => {
                let limit: u64 = 1u64 << (count as u64);
                if tags != 0 && (tags as u64) < limit {
                    tags
                } else {
                    current
                }
            },
            None => current,
        }
    }
}

} // verus!
