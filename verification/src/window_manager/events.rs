//! The control core: what an action that a binding fired does, and what an
//! event from the display server does.

use vstd::prelude::*;
use vstd::std_specs::bits::u32_trailing_zeros;
use crate::client::Client;
use crate::keyboard::handlers::Arg;
use crate::keyboard::handlers::KeyAction;
use crate::keyboard::handlers::KeyPressEvent;
use crate::keyboard::spawn::SpawnCommand;
use crate::keyboard::spawn::handle_spawn_action;
use crate::keyboard::spawn::spawns;
use crate::window_manager::Configure;
use crate::window_manager::handlers::ClientMessage;
use crate::window_manager::handlers::OverlayState;
use crate::window_manager::handlers::PropertyChange;
use crate::window_manager::handlers::Target;
use crate::window_manager::lifecycle::NewWindow;
use crate::layout::LayoutType;
use crate::monitor::Monitor;
use crate::tags::MAX_TAGS;
use crate::tags::Window;
use crate::tags::unmask_tag;
use crate::text::lowercase;
use crate::window_manager::Command;
use crate::window_manager::WindowManager;
use crate::window_manager::focus::stacking_commands;

verus! {

/// An event from the display server, with what the engine needs to know
/// of it.
#[derive(Debug)]
pub enum Event {
    /// A window asks to be mapped.
    MapRequest { window: Window, override_redirect: bool, info: NewWindow },
    UnmapNotify { window: Window },
    DestroyNotify { window: Window },
    PropertyNotify { window: Window, change: PropertyChange },
    /// The pointer entered a window, in the normal way or by a grab.
    EnterNotify { window: Window, normal: bool },
    /// The pointer moved, on the root window or not.
    MotionNotify { on_root: bool, root_x: i32, root_y: i32 },
    KeyPress { target: Target, key: KeyPressEvent, overlay: OverlayState },
    ButtonPress {
        target: Target,
        /// The child of the root that the press was on, if any.
        child: Option<Window>,
        state: u16,
        button: u8,
        click_x: i16,
        time: u32,
        overlay: OverlayState,
    },
    Expose { target: Target, overlay: OverlayState },
    ConfigureRequest(Configure),
    ClientMessage { window: Window, message: ClientMessage },
    FocusIn { window: Window },
    /// The keymap changed, in its keyboard part or not.
    MappingNotify { keyboard: bool },
    /// The root window was configured, with a change of its size or not.
    RootChanged { resized: bool },
    Other,
}

impl WindowManager {
    /// The state after the windows were arranged, starting from the state
    /// `start`, with the commands of the arrangement added to `issued`.
    pub open spec fn arranged_from(
        self,
        start: WindowManager,
        issued: Seq<Command>,
        all: Seq<Command>,
    ) -> bool {
        exists|first: WindowManager, second: WindowManager|
            #![auto]
            self.arranged_through(start, first, second) && all == issued + start.arrange_commands(
                first,
                second,
                self,
            )
    }

    /// Arranges the windows of all monitors.
    pub fn arrange(&mut self, out: &mut Vec<Command>)
        requires
            old(self).wf(),
        ensures
            final(self).wf(),
            old(self).consistent() ==> final(self).consistent(),
            old(self).orderly() ==> final(self).orderly(),
            final(self).same_but_geometry(*old(self)),
            final(self).arranged_from(*old(self), old(out)@, final(out)@),
    {
        self.apply_layout(out);
    }

    /// Nothing happened.
    pub open spec fn untouched(
        self,
        before: WindowManager,
        issued: Seq<Command>,
        all: Seq<Command>,
    ) -> bool {
        self == before && all == issued
    }

    /// The commands that stack the windows of the selected monitor were
    /// added to `mid`.
    pub open spec fn restacked(self, mid: Seq<Command>, all: Seq<Command>) -> bool {
        all == mid + stacking_commands(self.stacking_order())
    }

    /// The state is `before` with the monitor at `m` replaced.
    pub open spec fn monitor_set(self, before: WindowManager, m: int, monitor: Monitor) -> bool {
        &&& self.same_but_monitor(before, m)
        &&& self.monitors@[m] == monitor
    }

    /// A monitor replaced by one with the same orderings, tag sets and
    /// selection keeps the state well formed and consistent.
    proof fn lemma_monitor_tuned(self, before: WindowManager, m: int)
        requires
            before.wf(),
            0 <= m < before.monitors@.len(),
            self.same_but_monitor(before, m),
            self.monitors@[m].clients == before.monitors@[m].clients,
            self.monitors@[m].stack == before.monitors@[m].stack,
            self.monitors@[m].selected_client == before.monitors@[m].selected_client,
            self.monitors@[m].tagset == before.monitors@[m].tagset,
            self.monitors@[m].selected_tags_index == before.monitors@[m].selected_tags_index,
        ensures
            self.wf(),
            before.consistent() ==> self.consistent(),
    {
        assert(self.same_shape(before));
        self.lemma_same_shape(before);
        assert forall|k: int| 0 <= k < self.monitors@.len() implies (
        #[trigger] self.monitors@[k]).wf() by {
            assert(before.monitors@[k].wf());
            if k != m {
                assert(self.monitors@[k] == before.monitors@[k]);
            }
        }
        assert forall|i: int| 0 <= i < self.clients@.len() implies (#[trigger] self.clients@[i]).wf()
            && self.clients@[i].monitor_index < self.monitors@.len() by {
            assert(before.clients@[i].wf());
        }
        if before.consistent() {
            assert forall|k: int, window: Window| 0 <= k < self.monitors@.len() implies (
            #[trigger] self.stacked(k, window)) == before.stacked(k, window) by {
                if k != m {
                    assert(self.monitors@[k] == before.monitors@[k]);
                }
            }
            assert forall|k: int, window: Window| 0 <= k < self.monitors@.len() implies (
            #[trigger] self.listed(k, window)) == before.listed(k, window) by {
                if k != m {
                    assert(self.monitors@[k] == before.monitors@[k]);
                }
            }
            assert forall|k: int| 0 <= k < self.monitors@.len() implies match (
            #[trigger] self.monitors@[k]).selected_client {
                Some(window) => self.stacked(k, window),
                None => true,
            } by {
                if k != m {
                    assert(self.monitors@[k] == before.monitors@[k]);
                }
                assert(before.monitors@[k].selected_client == self.monitors@[k].selected_client);
            }
            self.lemma_consistent_carries(before);
        }
    }

    /// The state after the master factor of the selected monitor was
    /// changed by `delta` hundredths and the windows arranged.
    pub open spec fn after_set_master_factor(
        self,
        before: WindowManager,
        delta: i32,
        issued: Seq<Command>,
        all: Seq<Command>,
    ) -> bool {
        exists|tuned: WindowManager|
            #![auto]
            tuned.monitor_set(
                before,
                before.selected_monitor as int,
                Monitor {
                    master_factor: before.monitors@[before.selected_monitor as int].factor_after(
                        delta,
                    ),
                    ..before.monitors@[before.selected_monitor as int]
                },
            ) && self.arranged_from(tuned, issued, all)
    }

    /// Changes the share of the width that the master area of the selected
    /// monitor takes, by `delta` hundredths, within 5 and 95 hundredths,
    /// and arranges the windows.
    pub fn set_master_factor(&mut self, delta: i32, out: &mut Vec<Command>)
        requires
            old(self).wf(),
        ensures
            final(self).wf(),
            old(self).consistent() ==> final(self).consistent(),
            old(self).orderly() ==> final(self).orderly(),
            final(self).after_set_master_factor(*old(self), delta, old(out)@, final(out)@),
    {
        let selected = self.selected_monitor;
        self.monitors[selected].set_master_factor(delta);
        proof {
            self.lemma_monitor_tuned(*old(self), selected as int);
        }
        let ghost tuned = *self;
        self.arrange(out);
        assert(tuned.monitor_set(
            *old(self),
            old(self).selected_monitor as int,
            Monitor {
                master_factor: old(self).monitors@[old(self).selected_monitor as int].factor_after(
                    delta,
                ),
                ..old(self).monitors@[old(self).selected_monitor as int]
            },
        ));
    }

    /// The state after the number of master windows of the selected
    /// monitor was changed by `delta` and the windows arranged.
    pub open spec fn after_inc_num_master(
        self,
        before: WindowManager,
        delta: i32,
        issued: Seq<Command>,
        all: Seq<Command>,
    ) -> bool {
        exists|tuned: WindowManager|
            #![auto]
            tuned.monitor_set(
                before,
                before.selected_monitor as int,
                Monitor {
                    num_master: before.monitors@[before.selected_monitor as int].masters_after(
                        delta,
                    ),
                    ..before.monitors@[before.selected_monitor as int]
                },
            ) && self.arranged_from(tuned, issued, all)
    }

    /// Changes the number of master windows of the selected monitor by
    /// `delta`, not below none, and arranges the windows.
    pub fn inc_num_master(&mut self, delta: i32, out: &mut Vec<Command>)
        requires
            old(self).wf(),
        ensures
            final(self).wf(),
            old(self).consistent() ==> final(self).consistent(),
            old(self).orderly() ==> final(self).orderly(),
            final(self).after_inc_num_master(*old(self), delta, old(out)@, final(out)@),
    {
        let selected = self.selected_monitor;
        self.monitors[selected].inc_num_master(delta);
        proof {
            self.lemma_monitor_tuned(*old(self), selected as int);
        }
        let ghost tuned = *self;
        self.arrange(out);
        assert(tuned.monitor_set(
            *old(self),
            old(self).selected_monitor as int,
            Monitor {
                num_master: old(self).monitors@[old(self).selected_monitor as int].masters_after(
                    delta,
                ),
                ..old(self).monitors@[old(self).selected_monitor as int]
            },
        ));
    }

    /// The state after the layout `layout` was put in force: the windows
    /// are arranged, the bars drawn and the windows stacked.
    pub open spec fn after_set_layout(
        self,
        before: WindowManager,
        layout: LayoutType,
        issued: Seq<Command>,
        all: Seq<Command>,
    ) -> bool {
        exists|mid: Seq<Command>|
            #![auto]
            self.arranged_from(WindowManager { layout, ..before }, issued, mid) && all == mid
                + seq![Command::UpdateBar] + stacking_commands(self.stacking_order())
    }

    /// Puts a layout in force.
    pub fn set_layout(&mut self, layout: LayoutType, out: &mut Vec<Command>)
        requires
            old(self).wf(),
        ensures
            final(self).wf(),
            old(self).consistent() ==> final(self).consistent(),
            old(self).orderly() ==> final(self).orderly(),
            final(self).after_set_layout(*old(self), layout, old(out)@, final(out)@),
    {
        self.layout = layout;
        proof {
            assert(self.same_shape(*old(self)));
            self.lemma_same_shape(*old(self));
            if old(self).consistent() {
                assert(self.same_members(*old(self)));
                self.lemma_consistent_carries(*old(self));
            }
        }
        let ghost changed = *self;
        assert(changed == (WindowManager { layout, ..*old(self) }));
        self.arrange(out);
        let ghost mid = out@;
        out.push(Command::UpdateBar);
        let ghost barred = out@;
        self.restack(out);
        proof {
            assert(out@ =~= mid + seq![Command::UpdateBar] + stacking_commands(
                self.stacking_order(),
            ));
            assert(self.arranged_from(WindowManager { layout, ..*old(self) }, old(out)@, mid));
        }
    }

    /// The state after gaps were switched on or off: the windows are
    /// arranged and stacked.
    pub open spec fn after_toggle_gaps(
        self,
        before: WindowManager,
        issued: Seq<Command>,
        all: Seq<Command>,
    ) -> bool {
        exists|mid: Seq<Command>|
            #![auto]
            self.arranged_from(
                WindowManager { gaps_enabled: !before.gaps_enabled, ..before },
                issued,
                mid,
            ) && self.restacked(mid, all)
    }

    /// Switches gaps on or off.
    pub fn toggle_gaps(&mut self, out: &mut Vec<Command>)
        requires
            old(self).wf(),
        ensures
            final(self).wf(),
            old(self).consistent() ==> final(self).consistent(),
            old(self).orderly() ==> final(self).orderly(),
            final(self).after_toggle_gaps(*old(self), old(out)@, final(out)@),
    {
        self.gaps_enabled = !self.gaps_enabled;
        proof {
            assert(self.same_shape(*old(self)));
            self.lemma_same_shape(*old(self));
            if old(self).consistent() {
                assert(self.same_members(*old(self)));
                self.lemma_consistent_carries(*old(self));
            }
        }
        let ghost toggled = *self;
        assert(toggled == (WindowManager { gaps_enabled: !old(self).gaps_enabled, ..*old(self) }));
        self.arrange(out);
        let ghost mid = out@;
        self.restack(out);
        assert(self.restacked(mid, out@));
        assert(self.arranged_from(
            WindowManager { gaps_enabled: !old(self).gaps_enabled, ..*old(self) },
            old(out)@,
            mid,
        ));
    }

    /// The tag that lies `step` tags from the lowest tag in view, going
    /// round the configured tags; none where no tag is configured.
    pub open spec fn tag_at_step(self, step: int) -> Option<usize> {
        let count = self.config.tag_count() as int;
        if count == 0 {
            None
        } else {
            Some(((u32_trailing_zeros(self.selected_tags()) + step) % count) as usize)
        }
    }

    /// Computes `tag_at_step` for a step of at most the number of tags
    /// forward or backward.
    pub fn find_tag_at_step(&self, step: i32) -> (tag: Option<usize>)
        requires
            self.wf(),
            -(MAX_TAGS as i32) <= step <= MAX_TAGS as i32,
        ensures
            tag == self.tag_at_step(step as int),
            match tag {
                Some(index) => index < self.config.tag_count(),
                None => true,
            },
    {
        let count = self.config.count_tags();
        if count == 0 {
            return None;
        }
        let current = unmask_tag(self.monitors[self.selected_monitor].get_selected_tag());
        let sum: i64 = current as i64 + step as i64 + 64 * (count as i64);
        let tag: i64 = sum % (count as i64);
        proof {
            let whole = current as int + step as int;
            vstd::arithmetic::div_mod::lemma_mod_multiples_vanish(64, whole, count as int);
            vstd::arithmetic::div_mod::lemma_mod_bound(sum as int, count as int);
            vstd::arithmetic::div_mod::lemma_mod_bound(whole, count as int);
            assert(sum == count * 64 + whole) by (nonlinear_arith)
                requires
                    sum == whole + 64 * count,
            ;
        }
        Some(tag as usize)
    }

    /// Monitor `m` has a window whose lowest tag is `tag_index`.
    pub open spec fn tag_used(self, m: usize, tag_index: usize) -> bool {
        m < self.monitors@.len() && self.tag_used_among(
            m as int,
            tag_index,
            self.monitors@[m as int].clients@.len() as int,
        )
    }

    /// The first tag with a window on the selected monitor, going from the
    /// lowest tag in view in steps of `direction`, from `offset` steps on
    /// and short of a full round.
    pub open spec fn next_used_tag(self, direction: int, offset: int) -> Option<usize>
        decreases self.config.tag_count() - offset,
    {
        if offset < 1 || offset >= self.config.tag_count() {
            None
        } else {
            match self.tag_at_step(direction * offset) {
                Some(tag) => if self.tag_used(self.selected_monitor, tag) {
                    Some(tag)
                } else {
                    self.next_used_tag(direction, offset + 1)
                },
                None => None,
            }
        }
    }

    /// Computes `next_used_tag` from the first step on.
    pub fn find_next_used_tag(&self, forward: bool) -> (tag: Option<usize>)
        requires
            self.wf(),
        ensures
            tag == self.next_used_tag(
                if forward {
                    1
                } else {
                    -1
                },
                1,
            ),
    {
        let count = self.config.count_tags();
        let direction: i32 = if forward {
            1
        } else {
            -1
        };
        let mut offset: usize = 1;
        while offset < count
            invariant
                self.wf(),
                count == self.config.tag_count(),
                count <= MAX_TAGS,
                1 <= offset,
                direction == if forward {
                    1i32
                } else {
                    -1i32
                },
                self.next_used_tag(direction as int, 1) == self.next_used_tag(
                    direction as int,
                    offset as int,
                ),
            decreases count - offset,
        {
            let step: i32 = if forward {
                offset as i32
            } else {
                -(offset as i32)
            };
            assert(step == direction * offset) by (nonlinear_arith)
                requires
                    step == if forward {
                        offset as int
                    } else {
                        -(offset as int)
                    },
                    direction == if forward {
                        1int
                    } else {
                        -1int
                    },
            ;
            match self.find_tag_at_step(step) {
                Some(tag) => {
                    if self.has_windows_on_tag(self.selected_monitor, tag) {
                        return Some(tag);
                    }
                },
                None => {
                    return None;
                },
            }
            offset += 1;
        }
        None
    }

    /// The state after a view request for an optional tag.
    pub open spec fn after_view_of(
        self,
        before: WindowManager,
        tag: Option<usize>,
        issued: Seq<Command>,
        all: Seq<Command>,
    ) -> bool {
        match tag {
            Some(tag_index) => self.after_view_tag(before, tag_index, issued, all),
            None => self.untouched(before, issued, all),
        }
    }

    /// The tag that the integer argument of an action names; none for
    /// another argument or a negative number.
    pub open spec fn tag_of(arg: Arg) -> Option<usize> {
        match arg {
            Arg::Int(number) => if number >= 0 {
                Some(number as usize)
            } else {
                None
            },
            _ => None,
        }
    }

    /// The number that the argument of an action holds.
    pub open spec fn number_of(arg: Arg) -> Option<i32> {
        match arg {
            Arg::Int(number) => Some(number),
            _ => None,
        }
    }

    /// The state is `before` with a command, if there is one, added to
    /// those waiting to be started.
    pub open spec fn queued(self, before: WindowManager, started: Option<SpawnCommand>) -> bool {
        &&& self == (WindowManager { spawn_queue: self.spawn_queue, ..before })
        &&& self.spawn_queue@ == before.spawn_queue@ + (match started {
            Some(command) => seq![command],
            None => Seq::empty(),
        })
    }

    /// Adds a command, if there is one, to those waiting to be started.
    fn queue_spawn(&mut self, started: Option<SpawnCommand>)
        requires
            old(self).wf(),
        ensures
            final(self).wf(),
            old(self).consistent() ==> final(self).consistent(),
            old(self).orderly() ==> final(self).orderly(),
            final(self).queued(*old(self), started),
    {
        match started {
            Some(command) => {
                self.spawn_queue.push(command);
                assert(self.spawn_queue@ =~= old(self).spawn_queue@ + seq![command]);
            },
            None => {
                assert(self.spawn_queue@ =~= old(self).spawn_queue@ + Seq::<SpawnCommand>::empty());
            },
        }
        proof {
            assert(self.same_shape(*old(self)));
            self.lemma_same_shape(*old(self));
            if old(self).consistent() {
                assert(self.same_members(*old(self)));
                self.lemma_consistent_carries(*old(self));
            }
        }
    }

    /// The state after an action that a binding fired, against the state
    /// before, with the commands issued.  Quitting and restarting are not
    /// acted on here: the event loop sees to them.
    pub open spec fn acted(
        self,
        before: WindowManager,
        action: KeyAction,
        arg: Arg,
        issued: Seq<Command>,
        all: Seq<Command>,
    ) -> bool {
        match action {
            KeyAction::Spawn => exists|started: Option<SpawnCommand>|
                #![auto]
                spawns(action, arg, before.selected_monitor, started) && self.queued(
                    before,
                    started,
                ) && all == issued + (if started.is_some() {
                    seq![Command::Spawn]
                } else {
                    Seq::empty()
                }),
            KeyAction::SpawnTerminal => self.queued(
                before,
                Some(SpawnCommand::Shell(before.config.terminal)),
            ) && all == issued + seq![Command::SpawnTerminal],
            KeyAction::KillClient => self == before && all == issued + (match before.focused() {
                Some(window) => seq![Command::CloseWindow { window }],
                None => Seq::empty(),
            }),
            KeyAction::ToggleFullScreen => exists|mid: Seq<Command>|
                #![auto]
                (if before.mode_switches() {
                    self.mode_switched(before, issued, mid)
                } else {
                    self.untouched(before, issued, mid)
                }) && self.restacked(mid, all),
            KeyAction::ChangeLayout => match arg {
                Arg::Str(name) => match LayoutType::named(lowercase(name@)) {
                    Some(layout) => self.after_set_layout(before, layout, issued, all),
                    None => self.untouched(before, issued, all),
                },
                _ => self.untouched(before, issued, all),
            },
            KeyAction::CycleLayout => self.after_set_layout(
                before,
                before.layout.successor(),
                issued,
                all,
            ),
            KeyAction::ToggleFloating => exists|mid: Seq<Command>|
                #![auto]
                self.after_toggle_floating(before, issued, mid) && self.restacked(mid, all),
            KeyAction::FocusStack => match Self::number_of(arg) {
                Some(direction) => exists|mid: Seq<Command>|
                    #![auto]
                    self.after_focusstack(before, direction, issued, mid) && self.restacked(
                        mid,
                        all,
                    ),
                None => self.untouched(before, issued, all),
            },
            KeyAction::MoveStack => match Self::number_of(arg) {
                Some(direction) => exists|mid: Seq<Command>|
                    #![auto]
                    self.after_move_stack(before, direction, issued, mid) && self.restacked(
                        mid,
                        all,
                    ),
                None => self.untouched(before, issued, all),
            },
            KeyAction::Quit => self.untouched(before, issued, all),
            KeyAction::Restart => self.untouched(before, issued, all),
            KeyAction::ViewTag => self.after_view_of(before, Self::tag_of(arg), issued, all),
            KeyAction::ViewNextTag => self.after_view_of(before, before.tag_at_step(1), issued, all),
            KeyAction::ViewPreviousTag => self.after_view_of(
                before,
                before.tag_at_step(-1),
                issued,
                all,
            ),
            KeyAction::ViewNextNonEmptyTag => self.after_view_of(
                before,
                before.next_used_tag(1, 1),
                issued,
                all,
            ),
            KeyAction::ViewPreviousNonEmptyTag => self.after_view_of(
                before,
                before.next_used_tag(-1, 1),
                issued,
                all,
            ),
            KeyAction::ToggleView => match Self::tag_of(arg) {
                Some(tag_index) => self.after_toggleview(before, tag_index, issued, all),
                None => self.untouched(before, issued, all),
            },
            KeyAction::MoveToTag => match Self::tag_of(arg) {
                Some(tag_index) => self.after_move_to_tag(before, tag_index, issued, all),
                None => self.untouched(before, issued, all),
            },
            KeyAction::ToggleTag => match Self::tag_of(arg) {
                Some(tag_index) => self.after_toggletag(before, tag_index, issued, all),
                None => self.untouched(before, issued, all),
            },
            KeyAction::ToggleGaps => self.after_toggle_gaps(before, issued, all),
            KeyAction::FocusMonitor => match Self::number_of(arg) {
                Some(direction) => self.after_focus_monitor(before, direction, issued, all),
                None => self.untouched(before, issued, all),
            },
            KeyAction::TagMonitor => match Self::number_of(arg) {
                Some(direction) => self.after_send_to_adjacent(before, direction, issued, all),
                None => self.untouched(before, issued, all),
            },
            KeyAction::ShowKeybindOverlay => self == before && all == issued + seq![
                Command::ToggleKeybindOverlay,
            ],
            KeyAction::SetMasterFactor => match Self::number_of(arg) {
                Some(delta) => self.after_set_master_factor(before, delta, issued, all),
                None => self.untouched(before, issued, all),
            },
            KeyAction::IncNumMaster => match Self::number_of(arg) {
                Some(delta) => self.after_inc_num_master(before, delta, issued, all),
                None => self.untouched(before, issued, all),
            },
            KeyAction::NoAction => self.untouched(before, issued, all),
        }
    }

    /// Views an optional tag.
    fn view_of(&mut self, tag: Option<usize>, out: &mut Vec<Command>)
        requires
            old(self).wf(),
        ensures
            final(self).wf(),
            old(self).consistent() ==> final(self).consistent(),
            old(self).orderly() ==> final(self).orderly(),
            final(self).after_view_of(*old(self), tag, old(out)@, final(out)@),
    {
        match tag {
            Some(tag_index) => {
                self.view_tag(tag_index, out);
            },
            None => {},
        }
    }

    /// Computes `tag_of`.
    fn arg_tag(arg: &Arg) -> (tag: Option<usize>)
        ensures
            tag == Self::tag_of(*arg),
    {
        match arg {
            Arg::Int(number) => if *number >= 0 {
                Some(*number as usize)
            } else {
                None
            },
            _ => None,
        }
    }

    /// Computes `number_of`.
    fn arg_number(arg: &Arg) -> (number: Option<i32>)
        ensures
            number == Self::number_of(*arg),
    {
        match arg {
            Arg::Int(number) => Some(*number),
            _ => None,
        }
    }

    /// Does what an action that a binding fired asks for.
    pub fn handle_key_action(&mut self, action: KeyAction, arg: &Arg, out: &mut Vec<Command>)
        requires
            old(self).wf(),
        ensures
            final(self).wf(),
            old(self).consistent() ==> final(self).consistent(),
            old(self).orderly() ==> final(self).orderly(),
            final(self).acted(*old(self), action, *arg, old(out)@, final(out)@),
            final(self).keychord_state == old(self).keychord_state,
            final(self).current_key == old(self).current_key,
    {
        let ghost issued = out@;
        match action {
            KeyAction::Spawn => {
                let started = handle_spawn_action(action, arg, self.selected_monitor);
                let ghost wanted = started;
                if started.is_some() {
                    out.push(Command::Spawn);
                }
                self.queue_spawn(started);
                assert(out@ =~= issued + (if wanted.is_some() {
                    seq![Command::Spawn]
                } else {
                    Seq::empty()
                }));
                assert(spawns(action, *arg, old(self).selected_monitor, wanted));
            },
            KeyAction::SpawnTerminal => {
                let terminal = self.config.terminal.clone();
                self.queue_spawn(Some(SpawnCommand::Shell(terminal)));
                out.push(Command::SpawnTerminal);
                assert(out@ =~= issued + seq![Command::SpawnTerminal]);
            },
            KeyAction::KillClient => {
                match self.monitors[self.selected_monitor].selected_client {
                    Some(window) => {
                        self.kill_client(window, out);
                    },
                    None => {
                        assert(out@ =~= issued + Seq::<Command>::empty());
                    },
                }
            },
            KeyAction::ToggleFullScreen => {
                self.fullscreen(out);
                let ghost mid = out@;
                self.restack(out);
                assert(self.restacked(mid, out@));
            },
            KeyAction::ChangeLayout => {
                match arg {
                    Arg::Str(name) => {
                        match LayoutType::from_str(name.as_str()) {
                            Ok(layout) => {
                                self.set_layout(layout, out);
                            },
                            Err(_) => {},
                        }
                    },
                    _ => {},
                }
            },
            KeyAction::CycleLayout => {
                let next = self.layout.next();
                self.set_layout(next, out);
            },
            KeyAction::ToggleFloating => {
                self.toggle_floating(out);
                let ghost mid = out@;
                self.restack(out);
                assert(self.restacked(mid, out@));
            },
            KeyAction::FocusStack => {
                match Self::arg_number(arg) {
                    Some(direction) => {
                        self.focusstack(direction, out);
                        let ghost mid = out@;
                        self.restack(out);
                        assert(self.restacked(mid, out@));
                    },
                    None => {},
                }
            },
            KeyAction::MoveStack => {
                match Self::arg_number(arg) {
                    Some(direction) => {
                        self.move_stack(direction, out);
                        let ghost mid = out@;
                        self.restack(out);
                        assert(self.restacked(mid, out@));
                    },
                    None => {},
                }
            },
            KeyAction::Quit => {},
            KeyAction::Restart => {},
            KeyAction::ViewTag => {
                self.view_of(Self::arg_tag(arg), out);
            },
            KeyAction::ViewNextTag => {
                let tag = self.find_tag_at_step(1);
                self.view_of(tag, out);
            },
            KeyAction::ViewPreviousTag => {
                let tag = self.find_tag_at_step(-1);
                self.view_of(tag, out);
            },
            KeyAction::ViewNextNonEmptyTag => {
                let tag = self.find_next_used_tag(true);
                self.view_of(tag, out);
            },
            KeyAction::ViewPreviousNonEmptyTag => {
                let tag = self.find_next_used_tag(false);
                self.view_of(tag, out);
            },
            KeyAction::ToggleView => {
                match Self::arg_tag(arg) {
                    Some(tag_index) => {
                        self.toggleview(tag_index, out);
                    },
                    None => {},
                }
            },
            KeyAction::MoveToTag => {
                match Self::arg_tag(arg) {
                    Some(tag_index) => {
                        self.move_to_tag(tag_index, out);
                    },
                    None => {},
                }
            },
            KeyAction::ToggleTag => {
                match Self::arg_tag(arg) {
                    Some(tag_index) => {
                        self.toggletag(tag_index, out);
                    },
                    None => {},
                }
            },
            KeyAction::ToggleGaps => {
                self.toggle_gaps(out);
            },
            KeyAction::FocusMonitor => {
                match Self::arg_number(arg) {
                    Some(direction) => {
                        self.focus_monitor(direction, out);
                    },
                    None => {},
                }
            },
            KeyAction::TagMonitor => {
                match Self::arg_number(arg) {
                    Some(direction) => {
                        self.send_window_to_adjacent_monitor(direction, out);
                    },
                    None => {},
                }
            },
            KeyAction::ShowKeybindOverlay => {
                out.push(Command::ToggleKeybindOverlay);
                assert(out@ =~= issued + seq![Command::ToggleKeybindOverlay]);
            },
            KeyAction::SetMasterFactor => {
                match Self::arg_number(arg) {
                    Some(delta) => {
                        self.set_master_factor(delta, out);
                    },
                    None => {},
                }
            },
            KeyAction::IncNumMaster => {
                match Self::arg_number(arg) {
                    Some(delta) => {
                        self.inc_num_master(delta, out);
                    },
                    None => {},
                }
            },
            KeyAction::NoAction => {},
        }
    }

    /// The state after an event, against the state before, with the
    /// commands issued and what the event loop is to do: go on, for
    /// `None`, or end, for `Some(restart)`.
    pub open spec fn handled(
        self,
        before: WindowManager,
        event: Event,
        answer: Option<bool>,
        issued: Seq<Command>,
        all: Seq<Command>,
    ) -> bool {
        match event {
            Event::MapRequest { window, override_redirect, info } => self.after_map_request(
                before,
                window,
                override_redirect,
                info,
                issued,
                all,
            ) && answer.is_none(),
            Event::UnmapNotify { window } => self.after_release(
                before,
                window,
                before.visible(window),
                issued,
                all,
            ) && answer.is_none(),
            Event::DestroyNotify { window } => self.after_release(before, window, true, issued, all)
                && answer.is_none(),
            Event::PropertyNotify { window, change } => self.after_property(
                before,
                window,
                change,
                issued,
                all,
            ) && answer.is_none(),
            Event::EnterNotify { window, normal } => self.after_enter(
                before,
                window,
                normal,
                issued,
                all,
            ) && answer.is_none(),
            Event::MotionNotify { on_root, root_x, root_y } => self.after_motion(
                before,
                on_root,
                root_x,
                root_y,
                issued,
                all,
            ) && answer.is_none(),
            Event::KeyPress { target, key, overlay } => self.after_key_press(
                before,
                target,
                key,
                overlay,
                answer,
                issued,
                all,
            ),
            Event::ButtonPress {
                target,
                child,
                state,
                button,
                click_x,
                time,
                overlay,
            } => self.after_button_press(
                before,
                target,
                child,
                state,
                button,
                click_x,
                time,
                overlay,
                issued,
                all,
            ) && answer.is_none(),
            Event::Expose { target, overlay } => self == before && all == issued
                + Self::expose_commands(target, overlay) && answer.is_none(),
            Event::ConfigureRequest(request) => self.after_configure_request(
                before,
                request,
                issued,
                all,
            ) && answer.is_none(),
            Event::ClientMessage { window, message } => self.after_client_message(
                before,
                window,
                message,
                issued,
                all,
            ) && answer.is_none(),
            Event::FocusIn { window } => self.after_focus_in(before, window, issued, all)
                && answer.is_none(),
            Event::MappingNotify { keyboard } => self == before && all == issued
                + before.mapping_commands(keyboard) && answer.is_none(),
            Event::RootChanged { resized } => self.after_root_change(before, resized, issued, all)
                && answer.is_none(),
            Event::Other => self.untouched(before, issued, all) && answer.is_none(),
        }
    }

    /// Takes one event from the display server: changes the state as the
    /// event asks and adds the commands to carry out.  The answer tells
    /// the event loop to go on, with `None`, or to end.
    pub fn handle_event(&mut self, event: Event, out: &mut Vec<Command>) -> (answer: Option<bool>)
        requires
            old(self).wf(),
        ensures
            final(self).wf(),
            old(self).consistent() ==> final(self).consistent(),
            old(self).orderly() ==> final(self).orderly(),
            final(self).handled(*old(self), event, answer, old(out)@, final(out)@),
    {
        match event {
            Event::MapRequest { window, override_redirect, info } => {
                self.on_map_request(window, override_redirect, &info, out);
                None
            },
            Event::UnmapNotify { window } => {
                self.on_unmap(window, out);
                None
            },
            Event::DestroyNotify { window } => {
                self.on_destroy(window, out);
                None
            },
            Event::PropertyNotify { window, change } => {
                self.on_property(window, change, out);
                None
            },
            Event::EnterNotify { window, normal } => {
                self.on_enter(window, normal, out);
                None
            },
            Event::MotionNotify { on_root, root_x, root_y } => {
                self.on_motion(on_root, root_x, root_y, out);
                None
            },
            Event::KeyPress { target, key, overlay } => self.on_key_press(target, key, overlay, out),
            Event::ButtonPress { target, child, state, button, click_x, time, overlay } => {
                self.on_button_press(target, child, state, button, click_x, time, overlay, out);
                None
            },
            Event::Expose { target, overlay } => {
                Self::on_expose(target, overlay, out);
                None
            },
            Event::ConfigureRequest(request) => {
                self.on_configure_request(&request, out);
                None
            },
            Event::ClientMessage { window, message } => {
                self.on_client_message(window, message, out);
                None
            },
            Event::FocusIn { window } => {
                self.on_focus_in(window, out);
                None
            },
            Event::MappingNotify { keyboard } => {
                self.on_mapping(keyboard, out);
                None
            },
            Event::RootChanged { resized } => {
                self.on_root_change(resized, out);
                None
            },
            Event::Other => None,
        }
    }
}

} // verus!
