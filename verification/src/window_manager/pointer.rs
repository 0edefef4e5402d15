//! Moving and resizing a window with the pointer.  The caller holds the
//! pointer and feeds its motion; the engine decides where the window goes.

use vstd::prelude::*;
use crate::client::Client;
use crate::client::Constrained;
use crate::client::held;
use crate::client::hold;
use crate::layout::LayoutType;
use crate::monitor::Monitor;
use crate::tags::Window;
use crate::window_manager::Command;
use crate::window_manager::Configure;
use crate::window_manager::WindowManager;
use crate::window_manager::configure_of;
use crate::window_manager::registry::Pick;

verus! {

/// Distance in pixels within which a moved window snaps to an edge of the
/// window area.
pub const SNAP: i64 = 32;

/// Time in milliseconds within which further motion is passed over.
pub const MOTION_INTERVAL: u32 = 16;

/// A move or a resize under way.
#[derive(Clone, Copy, Debug, PartialEq, Eq, Structural)]
pub struct PointerSession {
    pub window: Window,
    pub orig_x: i32,
    pub orig_y: i32,
    pub orig_width: i32,
    pub orig_height: i32,
    pub border_width: i32,
    /// The window floated before the session began.
    pub was_floating: bool,
    /// The layout arranged nothing when the session began.
    pub is_normie: bool,
    pub monitor_index: usize,
    /// Where the pointer was when the session began.
    pub start_x: i32,
    pub start_y: i32,
    /// Time of the last motion that was taken up.
    pub last_time: u32,
}

/// A coordinate of a moved window after snapping along one axis: at the
/// near edge of the area where it is within the snap distance of it, else
/// against the far edge where its far side is within the snap distance of
/// that, else where it is.
pub open spec fn snapped(position: int, extent: int, near: int, span: int) -> int {
    if -SNAP < near - position < SNAP {
        near
    } else if -SNAP < (near + span) - (position + extent) < SNAP {
        near + span - extent
    } else {
        position
    }
}

/// Computes `snapped`, held as a coordinate.
pub fn snap(position: i64, extent: i32, near: i32, span: i32) -> (result: i32)
    requires
        -0x2_0000_0000 <= position <= 0x2_0000_0000,
    ensures
        result == held(snapped(position as int, extent as int, near as int, span as int)),
{
    let to_near: i64 = near as i64 - position;
    let to_far: i64 = (near as i64 + span as i64) - (position + extent as i64);
    if -SNAP < to_near && to_near < SNAP {
        near
    } else if -SNAP < to_far && to_far < SNAP {
        hold(near as i64 + span as i64 - extent as i64)
    } else {
        hold(position)
    }
}

/// A motion at the time `time` is taken up: more than the motion interval
/// has passed since the last one that was, on a clock that wraps.
pub open spec fn taken_up(last_time: u32, time: u32) -> bool {
    if time >= last_time {
        time - last_time > MOTION_INTERVAL
    } else {
        time + 0x1_0000_0000 - last_time > MOTION_INTERVAL
    }
}

/// Computes `taken_up`.
pub fn is_taken_up(last_time: u32, time: u32) -> (taken: bool)
    ensures
        taken == taken_up(last_time, time),
{
    let passed: u64 = if time >= last_time {
        (time - last_time) as u64
    } else {
        time as u64 + 0x1_0000_0000 - last_time as u64
    };
    passed > MOTION_INTERVAL as u64
}

/// A side of a window that is resized by the pointer: from the window's
/// origin to the pointer, less the border on both sides, and 1 at least.
pub open spec fn dragged_side(pointer: int, origin: int, border: int) -> int {
    let side = pointer - origin - 2 * border + 1;
    if side < 1 {
        1
    } else {
        held(side)
    }
}

/// Computes `dragged_side`.
pub fn drag_side(pointer: i32, origin: i32, border: i32) -> (side: i32)
    ensures
        side == dragged_side(pointer as int, origin as int, border as int),
{
    let side: i64 = pointer as i64 - origin as i64 - 2 * (border as i64) + 1;
    if side < 1 {
        1
    } else {
        hold(side)
    }
}

/// Half of a length; none of a negative one.
pub open spec fn half(length: i32) -> int {
    if length > 0 {
        length as int / 2
    } else {
        0
    }
}

/// Computes `half`.
pub fn half_of(length: i32) -> (result: i32)
    ensures
        result == half(length),
{
    if length > 0 {
        length / 2
    } else {
        0
    }
}

impl WindowManager {
    /// A session with the pointer can begin on the window: it is managed
    /// and not fullscreen.
    pub open spec fn can_grab(self, window: Window) -> bool {
        self.has(window) && !self.client(window).is_fullscreen
    }

    /// The session that begins on a window with the pointer at a place.
    pub open spec fn session_for(
        self,
        window: Window,
        pointer_x: i32,
        pointer_y: i32,
    ) -> PointerSession {
        let client = self.client(window);
        PointerSession {
            window,
            orig_x: client.x_position,
            orig_y: client.y_position,
            orig_width: client.width,
            orig_height: client.height,
            border_width: client.border_width,
            was_floating: client.is_floating,
            is_normie: self.layout == LayoutType::Normie,
            monitor_index: client.monitor_index,
            start_x: pointer_x,
            start_y: pointer_y,
            last_time: 0,
        }
    }

    /// The window is lifted out of the layout when a session begins on it:
    /// it did not float and the layout arranges windows.
    pub open spec fn lifts(self, window: Window) -> bool {
        !self.client(window).is_floating && self.layout != LayoutType::Normie
    }

    /// The state after a session began on a window, against the state
    /// before, with the commands issued: a window that is lifted out of
    /// the layout floats, is raised where it is, and the windows are
    /// arranged.
    pub open spec fn grabbed(
        self,
        before: WindowManager,
        window: Window,
        issued: Seq<Command>,
        all: Seq<Command>,
    ) -> bool {
        if before.lifts(window) {
            exists|lifted: WindowManager, first: WindowManager, second: WindowManager|
                #![auto]
                lifted.floats(before, window, true) && self.arranged_through(lifted, first, second)
                    && all == issued + seq![
                    Command::Configure(
                        Configure {
                            x: Some(before.client(window).x_position),
                            y: Some(before.client(window).y_position),
                            width: Some(before.client(window).width),
                            height: Some(before.client(window).height),
                            stack_mode: Some(crate::window_manager::StackMode::Above),
                            ..configure_of(window)
                        },
                    ),
                ] + lifted.arrange_commands(first, second, self)
        } else {
            self == before && all == issued
        }
    }

    /// Lifts the window out of the layout if need be, at the start of a
    /// session.
    fn lift(&mut self, window: Window, index: usize, out: &mut Vec<Command>)
        requires
            old(self).wf(),
            index < old(self).clients@.len(),
            old(self).clients@[index as int].window == window,
        ensures
            final(self).wf(),
            old(self).consistent() ==> final(self).consistent(),
            old(self).orderly() ==> final(self).orderly(),
            final(self).grabbed(*old(self), window, old(out)@, final(out)@),
    {
        proof {
            old(self).lemma_place(index as int);
        }
        if !self.clients[index].is_floating && !self.has_no_layout() {
            let ghost issued = out@;
            let client = &self.clients[index];
            let mut request = crate::window_manager::configure(window);
            request.x = Some(client.x_position);
            request.y = Some(client.y_position);
            request.width = Some(client.width);
            request.height = Some(client.height);
            request.stack_mode = Some(crate::window_manager::StackMode::Above);
            out.push(Command::Configure(request));
            self.make_floating(window);
            let ghost lifted = *self;
            let ghost raised = out@;
            self.apply_layout(out);
            proof {
                let (first, second) = choose|first: WindowManager, second: WindowManager|
                    #![auto]
                    self.arranged_through(lifted, first, second) && out@ == raised
                        + lifted.arrange_commands(first, second, *self);
                assert(out@ =~= issued + seq![
                    Command::Configure(
                        Configure {
                            x: Some(old(self).client(window).x_position),
                            y: Some(old(self).client(window).y_position),
                            width: Some(old(self).client(window).width),
                            height: Some(old(self).client(window).height),
                            stack_mode: Some(crate::window_manager::StackMode::Above),
                            ..configure_of(window)
                        },
                    ),
                ] + lifted.arrange_commands(first, second, *self));
            }
        }
    }

    /// Begins a move of a window with the pointer at a place on the root.
    /// No session begins on a window that is not managed or is fullscreen.
    pub fn drag_begin(&mut self, window: Window, pointer_x: i32, pointer_y: i32, out: &mut Vec<
        Command,
    >) -> (session: Option<PointerSession>)
        requires
            old(self).wf(),
        ensures
            final(self).wf(),
            old(self).consistent() ==> final(self).consistent(),
            old(self).orderly() ==> final(self).orderly(),
            session == if old(self).can_grab(window) {
                Some(old(self).session_for(window, pointer_x, pointer_y))
            } else {
                None
            },
            !old(self).can_grab(window) ==> *final(self) == *old(self) && final(out)@ == old(out)@,
            old(self).can_grab(window) ==> final(self).grabbed(
                *old(self),
                window,
                old(out)@,
                final(out)@,
            ),
    {
        let index = match self.find(window) {
            Some(index) => index,
            None => {
                return None;
            },
        };
        if self.clients[index].is_fullscreen {
            return None;
        }
        proof {
            self.lemma_place(index as int);
        }
        let client = &self.clients[index];
        let session = PointerSession {
            window,
            orig_x: client.x_position,
            orig_y: client.y_position,
            orig_width: client.width,
            orig_height: client.height,
            border_width: client.border_width,
            was_floating: client.is_floating,
            is_normie: self.has_no_layout(),
            monitor_index: client.monitor_index,
            start_x: pointer_x,
            start_y: pointer_y,
            last_time: 0,
        };
        self.lift(window, index, out);
        Some(session)
    }

    /// The window follows the pointer in a session: the motion is taken
    /// up, the window is managed on a monitor that exists, and it floats
    /// or the session began under the layout that arranges nothing.
    pub open spec fn follows(self, session: PointerSession, time: u32) -> bool {
        taken_up(session.last_time, time) && self.has(session.window) && (session.is_normie
            || self.client(session.window).is_floating)
    }

    /// Where a moved window goes for a place of the pointer: as far from
    /// its first place as the pointer is from its own, and snapped to the
    /// edges of the window area of the monitor where the move began.
    pub open spec fn moved_to(
        self,
        session: PointerSession,
        root_x: i32,
        root_y: i32) -> (i32, i32,
    ) {
        let monitor = self.monitors@[session.monitor_index as int];
        (
            held(
                snapped(
                    session.orig_x + (root_x - session.start_x),
                    session.orig_width as int,
                    monitor.window_area_x as int,
                    monitor.window_area_width as int,
                ),
            ) as i32,
            held(
                snapped(
                    session.orig_y + (root_y - session.start_y),
                    session.orig_height as int,
                    monitor.window_area_y as int,
                    monitor.window_area_height as int,
                ),
            ) as i32,
        )
    }

    /// Takes up a motion of the pointer during a move.  Motion that comes
    /// within the motion interval of the last is passed over.
    pub fn drag_motion(
        &mut self,
        session: &mut PointerSession,
        root_x: i32,
        root_y: i32,
        time: u32,
        out: &mut Vec<Command>,
    )
        requires
            old(self).wf(),
            old(session).monitor_index < old(self).monitors@.len(),
        ensures
            final(self).wf(),
            old(self).consistent() ==> final(self).consistent(),
            old(self).orderly() ==> final(self).orderly(),
            *final(session) == (PointerSession {
                last_time: if taken_up(old(session).last_time, time) {
                    time
                } else {
                    old(session).last_time
                },
                ..*old(session)
            }),
            !old(self).follows(*old(session), time) ==> *final(self) == *old(self) && final(out)@
                == old(out)@,
            old(self).follows(*old(session), time) ==> final(self).client_set(
                *old(self),
                old(session).window,
                Client {
                    x_position: old(self).moved_to(*old(session), root_x, root_y).0,
                    y_position: old(self).moved_to(*old(session), root_x, root_y).1,
                    ..old(self).client(old(session).window)
                },
            ) && final(out)@ == old(out)@ + seq![
                Command::Configure(
                    Configure {
                        x: Some(old(self).moved_to(*old(session), root_x, root_y).0),
                        y: Some(old(self).moved_to(*old(session), root_x, root_y).1),
                        ..configure_of(old(session).window)
                    },
                ),
            ],
    {
        if !is_taken_up(session.last_time, time) {
            return ;
        }
        session.last_time = time;
        let index = match self.find(session.window) {
            Some(index) => index,
            None => {
                return ;
            },
        };
        if !(session.is_normie || self.clients[index].is_floating) {
            return ;
        }
        let monitor = &self.monitors[session.monitor_index];
        let new_x = snap(
            session.orig_x as i64 + (root_x as i64 - session.start_x as i64),
            session.orig_width,
            monitor.window_area_x,
            monitor.window_area_width,
        );
        let new_y = snap(
            session.orig_y as i64 + (root_y as i64 - session.start_y as i64),
            session.orig_height,
            monitor.window_area_y,
            monitor.window_area_height,
        );
        self.clients[index].x_position = new_x;
        self.clients[index].y_position = new_y;
        let mut request = crate::window_manager::configure(session.window);
        request.x = Some(new_x);
        request.y = Some(new_y);
        out.push(Command::Configure(request));
        proof {
            assert(self.clients@ =~= old(self).clients@.update(
                index as int,
                self.clients@[index as int],
            ));
            assert(old(self).clients@[index as int].wf());
            self.lemma_client_replaced(*old(self), index as int);
            assert(final(out)@ =~= old(out)@ + seq![
                Command::Configure(
                    Configure {
                        x: Some(old(self).moved_to(*old(session), root_x, root_y).0),
                        y: Some(old(self).moved_to(*old(session), root_x, root_y).1),
                        ..configure_of(old(session).window)
                    },
                ),
            ]);
        }
    }

    /// The size that a resized window takes for a place of the pointer:
    /// what the geometry rules make of the size from the window's origin
    /// to the pointer.
    pub open spec fn resized_to(
        self,
        session: PointerSession,
        root_x: i32,
        root_y: i32,
    ) -> Constrained {
        let client = self.client(session.window);
        self.size_for(
            session.window,
            client.x_position,
            client.y_position,
            dragged_side(root_x as int, session.orig_x as int, session.border_width as int) as i32,
            dragged_side(root_y as int, session.orig_y as int, session.border_width as int) as i32,
        )
    }

    /// Takes up a motion of the pointer during a resize.  Motion that
    /// comes within the motion interval of the last is passed over.
    pub fn resize_motion(
        &mut self,
        session: &mut PointerSession,
        root_x: i32,
        root_y: i32,
        time: u32,
        out: &mut Vec<Command>,
    )
        requires
            old(self).wf(),
        ensures
            final(self).wf(),
            old(self).consistent() ==> final(self).consistent(),
            old(self).orderly() ==> final(self).orderly(),
            *final(session) == (PointerSession {
                last_time: if taken_up(old(session).last_time, time) {
                    time
                } else {
                    old(session).last_time
                },
                ..*old(session)
            }),
            !old(self).follows(*old(session), time) ==> *final(self) == *old(self) && final(out)@
                == old(out)@,
            old(self).follows(*old(session), time) ==> final(self).client_set(
                *old(self),
                old(session).window,
                Client {
                    width: old(self).resized_to(*old(session), root_x, root_y).width,
                    height: old(self).resized_to(*old(session), root_x, root_y).height,
                    ..old(self).client(old(session).window)
                },
            ) && final(out)@ == old(out)@ + seq![
                Command::Configure(
                    Configure {
                        width: Some(old(self).resized_to(*old(session), root_x, root_y).width),
                        height: Some(old(self).resized_to(*old(session), root_x, root_y).height),
                        ..configure_of(old(session).window)
                    },
                ),
            ],
    {
        if !is_taken_up(session.last_time, time) {
            return ;
        }
        session.last_time = time;
        let index = match self.find(session.window) {
            Some(index) => index,
            None => {
                return ;
            },
        };
        if !(session.is_normie || self.clients[index].is_floating) {
            return ;
        }
        proof {
            self.lemma_place(index as int);
        }
        let width = drag_side(root_x, session.orig_x, session.border_width);
        let height = drag_side(root_y, session.orig_y, session.border_width);
        let to = self.apply_size_hints(
            session.window,
            self.clients[index].x_position,
            self.clients[index].y_position,
            width,
            height,
        );
        self.clients[index].width = to.width;
        self.clients[index].height = to.height;
        let mut request = crate::window_manager::configure(session.window);
        request.width = Some(to.width);
        request.height = Some(to.height);
        out.push(Command::Configure(request));
        proof {
            assert(self.clients@ =~= old(self).clients@.update(
                index as int,
                self.clients@[index as int],
            ));
            assert(old(self).clients@[index as int].wf());
            self.lemma_client_replaced(*old(self), index as int);
            assert(final(out)@ =~= old(out)@ + seq![
                Command::Configure(
                    Configure {
                        width: Some(old(self).resized_to(*old(session), root_x, root_y).width),
                        height: Some(old(self).resized_to(*old(session), root_x, root_y).height),
                        ..configure_of(old(session).window)
                    },
                ),
            ]);
        }
    }

    /// The monitor that the window of a session has come to lie on.
    pub open spec fn lands_on(self, window: Window, target: usize) -> bool {
        self.has(window) && self.is_rect_monitor(
            target,
            self.client(window).x_position,
            self.client(window).y_position,
            self.client(window).width,
            self.client(window).height,
        )
    }

    /// The state after the window of a session was handed to the monitor
    /// it has come to lie on, against the state before, with the commands
    /// issued: where that is another monitor than the one it was on, the
    /// window is moved there, that monitor is selected, and the focus goes
    /// to its first visible window.
    pub open spec fn handed_over(
        self,
        before: WindowManager,
        window: Window,
        from: usize,
        issued: Seq<Command>,
        all: Seq<Command>,
    ) -> bool {
        if !before.has(window) {
            self == before && all == issued
        } else {
            exists|target: usize|
                #![auto]
                before.lands_on(window, target) && if target == from || !before.can_move(
                    window,
                    target,
                ) {
                    if target == from {
                        self == before && all == issued
                    } else {
                        self.after_focus(before.on_monitor(target), None) && all == issued
                            + before.on_monitor(target).focus_commands(None)
                    }
                } else {
                    exists|moved: WindowManager, settled: WindowManager, mid: Seq<Command>|
                        #![auto]
                        moved.moves(before, window, target) && settled.refreshed(
                            moved,
                            false,
                            issued + before.unfocus_commands(window),
                            mid,
                        ) && self.after_focus(settled.on_monitor(target), None) && all == mid
                            + settled.on_monitor(target).focus_commands(None)
                }
        }
    }

    /// Hands the window of a session to the monitor it has come to lie on.
    pub fn hand_over(&mut self, window: Window, from: usize, out: &mut Vec<Command>)
        requires
            old(self).wf(),
        ensures
            final(self).wf(),
            old(self).consistent() ==> final(self).consistent(),
            old(self).orderly() ==> final(self).orderly(),
            final(self).handed_over(*old(self), window, from, old(out)@, final(out)@),
    {
        let index = match self.find(window) {
            Some(index) => index,
            None => {
                return ;
            },
        };
        proof {
            self.lemma_place(index as int);
        }
        let client = &self.clients[index];
        let target = self.get_monitor_for_rect(
            client.x_position,
            client.y_position,
            client.width,
            client.height,
        );
        if target == from {
            assert(old(self).lands_on(window, target));
            return ;
        }
        let ghost before = *self;
        let ghost issued = out@;
        let ghost able = before.can_move(window, target);
        self.move_window_to_monitor(window, target, out);
        let ghost settled = *self;
        let ghost mid = out@;
        self.selected_monitor = target;
        proof {
            assert(self.same_shape(settled));
            if settled.consistent() {
                assert(self.same_members(settled));
                self.lemma_consistent_carries(settled);
            }
            assert(*self == settled.on_monitor(target));
        }
        self.focus(None, out);
        proof {
            assert(before.lands_on(window, target));
            if able {
                let moved = choose|moved: WindowManager|
                    #![auto]
                    moved.moves(before, window, target) && settled.refreshed(
                        moved,
                        false,
                        issued + before.unfocus_commands(window),
                        mid,
                    );
                assert(moved.moves(before, window, target));
            } else {
                assert(settled == before);
            }
        }
    }

    /// The first place in the tiling order of monitor `m`, from `from` on,
    /// of a tiled window other than `spared` that covers the point with
    /// its border.
    pub open spec fn first_under(self, m: usize, spared: Window, x: i32, y: i32, from: int) -> Option<int>
        decreases self.monitors@[m as int].clients@.len() - from,
    {
        let order = self.monitors@[m as int].clients@;
        if from < 0 || from >= order.len() {
            None
        } else if order[from] != spared && self.picks(Pick::Tiled(m), order[from]) && self.client(
            order[from],
        ).covers(x, y) {
            Some(from)
        } else {
            self.first_under(m, spared, x, y, from + 1)
        }
    }

    /// The first tiled window of monitor `monitor_index`, other than
    /// `exclude`, that covers the point with its border.
    pub fn tiled_window_at(&self, exclude: Window, monitor_index: usize, x: i32, y: i32) -> (found:
        Option<Window>)
        requires
            self.wf(),
        ensures
            found == if monitor_index < self.monitors@.len() {
                match self.first_under(monitor_index, exclude, x, y, 0) {
                    Some(place) => Some(self.monitors@[monitor_index as int].clients@[place]),
                    None => None,
                }
            } else {
                None
            },
    {
        if monitor_index >= self.monitors.len() {
            return None;
        }
        let order = &self.monitors[monitor_index].clients;
        let mut index: usize = 0;
        while index < order.len()
            invariant
                self.wf(),
                monitor_index < self.monitors@.len(),
                *order == self.monitors@[monitor_index as int].clients,
                index <= order@.len(),
                self.first_under(monitor_index, exclude, x, y, 0) == self.first_under(
                    monitor_index,
                    exclude,
                    x,
                    y,
                    index as int,
                ),
            decreases order@.len() - index,
        {
            let window = order.get(index);
            if window != exclude && self.is_picked(Pick::Tiled(monitor_index), window) {
                let at = self.find(window).unwrap();
                if self.clients[at].is_under(x, y) {
                    return Some(window);
                }
            }
            index += 1;
        }
        None
    }

    /// A window that was lifted out of the layout for a session goes back
    /// into it when the session ends: tiling on release is configured, the
    /// window did not float and the layout arranged windows.
    pub open spec fn settles_back(self, session: PointerSession) -> bool {
        self.config.auto_tile && !session.was_floating && !session.is_normie
    }

    /// The centre of a client's window.
    pub open spec fn centre(client: Client) -> (i32, i32) {
        (
            held(client.x_position + half(client.width)) as i32,
            held(client.y_position + half(client.height)) as i32,
        )
    }

    /// The state after the window of a session went back into the layout,
    /// against the state before, with the commands issued.  Where
    /// `reorder` is set and the centre of the window lies on a tiled
    /// window of its monitor, it is put before that window in the tiling
    /// order.  Then it no longer floats and the windows are arranged.
    pub open spec fn settled_back(
        self,
        before: WindowManager,
        window: Window,
        reorder: bool,
        issued: Seq<Command>,
        all: Seq<Command>,
    ) -> bool {
        exists|
            placed: WindowManager,
            tiled: WindowManager,
            first: WindowManager,
            second: WindowManager,
        |
            #![auto]
            placed.dropped_on(before, window, reorder) && (if placed.has(window) {
                tiled.floats(placed, window, false)
            } else {
                tiled == placed
            }) && self.arranged_through(tiled, first, second) && all == issued
                + tiled.arrange_commands(first, second, self)
    }

    /// The tiled window on which the window of a session was dropped.
    pub open spec fn drop_target(self, window: Window) -> Option<Window> {
        if self.has(window) {
            let client = self.client(window);
            let m = client.monitor_index;
            match self.first_under(m, window, Self::centre(client).0, Self::centre(client).1, 0) {
                Some(place) => Some(self.monitors@[m as int].clients@[place]),
                None => None,
            }
        } else {
            None
        }
    }

    /// The state is `before` with the window put before the tiled window
    /// on which it was dropped, if `reorder` is set and there is one.
    pub open spec fn dropped_on(
        self,
        before: WindowManager,
        window: Window,
        reorder: bool,
    ) -> bool {
        if !reorder {
            self == before
        } else {
            match before.drop_target(window) {
                Some(target) => {
                    let m = before.client(window).monitor_index;
                    &&& self.same_but_monitor(before, m as int)
                    &&& self.monitors@[m as int] == (Monitor {
                        clients: self.monitors@[m as int].clients,
                        ..before.monitors@[m as int]
                    })
                    &&& self.monitors@[m as int].clients@ == if before.can_insert_before(
                        window,
                        target,
                        m,
                    ) {
                        crate::window_list::with_at(
                            crate::window_list::without(
                                before.monitors@[m as int].clients@,
                                window,
                            ),
                            crate::window_list::without(
                                before.monitors@[m as int].clients@,
                                window,
                            ).index_of(target),
                            window,
                        )
                    } else {
                        before.monitors@[m as int].clients@
                    }
                },
                None => self == before,
            }
        }
    }

    /// Puts the window before the tiled window on which it was dropped.
    fn drop_on_target(&mut self, window: Window)
        requires
            old(self).wf(),
        ensures
            final(self).wf(),
            old(self).consistent() ==> final(self).consistent(),
            old(self).orderly() ==> final(self).orderly(),
            final(self).dropped_on(*old(self), window, true),
            final(self).windows() == old(self).windows(),
    {
        let index = match self.find(window) {
            Some(index) => index,
            None => {
                return ;
            },
        };
        proof {
            self.lemma_place(index as int);
        }
        let client = &self.clients[index];
        let monitor_index = client.monitor_index;
        let centre_x = hold(client.x_position as i64 + half_of(client.width) as i64);
        let centre_y = hold(client.y_position as i64 + half_of(client.height) as i64);
        match self.tiled_window_at(window, monitor_index, centre_x, centre_y) {
            Some(target) => {
                let ghost before = *self;
                self.insert_before(window, target, monitor_index);
                proof {
                    assert(self.same_shape(before));
                    self.lemma_same_shape(before);
                    if before.consistent() {
                        self.lemma_reordered(before, window, target, monitor_index);
                    }
                }
            },
            None => {},
        }
    }

    /// Consistency survives putting a window before another in the order
    /// it is in.
    proof fn lemma_reordered(self, before: WindowManager, window: Window, target: Window, m: usize)
        requires
            before.wf(),
            before.consistent(),
            m < before.monitors@.len(),
            self.same_but_monitor(before, m as int),
            self.same_shape(before),
            !before.can_insert_before(window, target, m) ==> self == before,
            before.can_insert_before(window, target, m) ==> self.monitors@[m as int] == (Monitor {
                clients: self.monitors@[m as int].clients,
                ..before.monitors@[m as int]
            }) && self.monitors@[m as int].clients@ == crate::window_list::with_at(
                crate::window_list::without(before.monitors@[m as int].clients@, window),
                crate::window_list::without(before.monitors@[m as int].clients@, window).index_of(
                    target,
                ),
                window,
            ),
        ensures
            self.consistent(),
    {
        if before.can_insert_before(window, target, m) {
            let order = before.monitors@[m as int].clients@;
            let rest = crate::window_list::without(order, window);
            assert(before.monitors@[m as int].wf());
            crate::window_list::lemma_without(order, window);
            assert(rest.contains(target));
            let place = rest.index_of(target);
            crate::window_list::lemma_with_at(rest, place, window);
            let at = before.place(window);
            assert(before.windows()[at] == window);
            assert(before.clients@[at].wf());
            assert(before.listed(m as int, window));
            assert forall|k: int, other: Window| 0 <= k < self.monitors@.len() implies (
            #[trigger] self.stacked(k, other)) == before.stacked(k, other) by {
                if k != m {
                    assert(self.monitors@[k] == before.monitors@[k]);
                }
            }
            assert forall|k: int, other: Window| 0 <= k < self.monitors@.len() implies (
            #[trigger] self.listed(k, other)) == before.listed(k, other) by {
                if k != m {
                    assert(self.monitors@[k] == before.monitors@[k]);
                }
            }
            assert forall|k: int| 0 <= k < self.monitors@.len() implies match (
            #[trigger] self.monitors@[k]).selected_client {
                Some(other) => self.stacked(k, other),
                None => true,
            } by {
                if k != m {
                    assert(self.monitors@[k] == before.monitors@[k]);
                }
                assert(before.monitors@[k].selected_client == self.monitors@[k].selected_client);
            }
            self.lemma_consistent_carries(before);
        }
    }

    /// Puts the window of a session back into the layout.
    pub fn settle_back(&mut self, window: Window, reorder: bool, out: &mut Vec<Command>)
        requires
            old(self).wf(),
        ensures
            final(self).wf(),
            old(self).consistent() ==> final(self).consistent(),
            old(self).orderly() ==> final(self).orderly(),
            final(self).settled_back(*old(self), window, reorder, old(out)@, final(out)@),
    {
        let ghost before = *self;
        let ghost issued = out@;
        if reorder {
            self.drop_on_target(window);
        }
        let ghost placed = *self;
        match self.find(window) {
            Some(index) => {
                proof {
                    self.lemma_place(index as int);
                }
                self.make_floating_or_not(index, false);
            },
            None => {},
        }
        let ghost tiled = *self;
        self.apply_layout(out);
        proof {
            let (first, second) = choose|first: WindowManager, second: WindowManager|
                #![auto]
                self.arranged_through(tiled, first, second) && out@ == issued
                    + tiled.arrange_commands(first, second, *self);
            assert(placed.dropped_on(before, window, reorder));
            assert(if placed.has(window) {
                tiled.floats(placed, window, false)
            } else {
                tiled == placed
            });
        }
    }

    /// Sets the floating flag of the client at `index`.
    fn make_floating_or_not(&mut self, index: usize, floating: bool)
        requires
            old(self).wf(),
            index < old(self).clients@.len(),
        ensures
            final(self).wf(),
            old(self).consistent() ==> final(self).consistent(),
            old(self).orderly() ==> final(self).orderly(),
            final(self).client_replaced(*old(self), index as int),
            final(self).clients@[index as int] == (Client {
                is_floating: floating,
                ..old(self).clients@[index as int]
            }),
    {
        self.clients[index].is_floating = floating;
        proof {
            assert(self.clients@ =~= old(self).clients@.update(
                index as int,
                self.clients@[index as int],
            ));
            assert(old(self).clients@[index as int].wf());
            self.lemma_client_replaced(*old(self), index as int);
        }
    }

    /// Ends a move: the window is handed to the monitor it has come to lie
    /// on, and goes back into the layout if it was lifted out of it and
    /// tiling on release is configured, before the tiled window on which
    /// it was dropped.
    pub fn drag_end(&mut self, session: &PointerSession, out: &mut Vec<Command>)
        requires
            old(self).wf(),
        ensures
            final(self).wf(),
            old(self).consistent() ==> final(self).consistent(),
            old(self).orderly() ==> final(self).orderly(),
            exists|handed: WindowManager, mid: Seq<Command>|
                #![auto]
                handed.handed_over(
                    *old(self),
                    session.window,
                    session.monitor_index,
                    old(out)@,
                    mid,
                ) && if old(self).settles_back(*session) {
                    final(self).settled_back(handed, session.window, true, mid, final(out)@)
                } else {
                    *final(self) == handed && final(out)@ == mid
                },
    {
        let settles = self.config.auto_tile && !session.was_floating && !session.is_normie;
        self.hand_over(session.window, session.monitor_index, out);
        let ghost handed = *self;
        let ghost mid = out@;
        proof {
            handed.lemma_handed_over_config(
                *old(self),
                session.window,
                session.monitor_index,
                old(out)@,
                mid,
            );
        }
        if settles {
            self.settle_back(session.window, true, out);
        }
        assert(handed.handed_over(
            *old(self),
            session.window,
            session.monitor_index,
            old(out)@,
            mid,
        ));
    }

    /// Handing a window over keeps the configuration.
    pub proof fn lemma_handed_over_config(
        self,
        before: WindowManager,
        window: Window,
        from: usize,
        issued: Seq<Command>,
        all: Seq<Command>,
    )
        requires
            before.wf(),
            self.wf(),
            self.handed_over(before, window, from, issued, all),
        ensures
            self.config.auto_tile == before.config.auto_tile,
    {
        if before.has(window) {
            let target = choose|target: usize|
                #![auto]
                before.lands_on(window, target) && if target == from || !before.can_move(
                    window,
                    target,
                ) {
                    if target == from {
                        self == before && all == issued
                    } else {
                        self.after_focus(before.on_monitor(target), None) && all == issued
                            + before.on_monitor(target).focus_commands(None)
                    }
                } else {
                    exists|moved: WindowManager, settled: WindowManager, mid: Seq<Command>|
                        #![auto]
                        moved.moves(before, window, target) && settled.refreshed(
                            moved,
                            false,
                            issued + before.unfocus_commands(window),
                            mid,
                        ) && self.after_focus(settled.on_monitor(target), None) && all == mid
                            + settled.on_monitor(target).focus_commands(None)
                };
            if target == from {
            } else if !before.can_move(window, target) {
                self.lemma_focus_settings(before.on_monitor(target), None);
            } else {
                let (moved, settled, mid) = choose|
                    moved: WindowManager,
                    settled: WindowManager,
                    mid: Seq<Command>,
                |
                    #![auto]
                    moved.moves(before, window, target) && settled.refreshed(
                        moved,
                        false,
                        issued + before.unfocus_commands(window),
                        mid,
                    ) && self.after_focus(settled.on_monitor(target), None) && all == mid
                        + settled.on_monitor(target).focus_commands(None);
                settled.lemma_refreshed_settings(
                    moved,
                    false,
                    issued + before.unfocus_commands(window),
                    mid,
                );
                self.lemma_focus_settings(settled.on_monitor(target), None);
            }
        }
    }

    /// A change of focus keeps the settings.
    pub proof fn lemma_focus_settings(self, other: WindowManager, window: Option<Window>)
        requires
            self.after_focus(other, window),
        ensures
            self.same_settings(other),
    {
    }

    /// A refresh keeps the settings.
    pub proof fn lemma_refreshed_settings(
        self,
        start: WindowManager,
        bar: bool,
        issued: Seq<Command>,
        all: Seq<Command>,
    )
        requires
            self.refreshed(start, bar, issued, all),
        ensures
            self.same_settings(start),
    {
        let (focused, first, second) = choose|
            focused: WindowManager,
            first: WindowManager,
            second: WindowManager,
        |
            #![auto]
            focused.after_focus(start, None) && self.arranged_through(focused, first, second)
                && all == issued + start.focus_commands(None) + focused.arrange_commands(
                first,
                second,
                self,
            ) + (if bar {
                seq![Command::UpdateBar]
            } else {
                Seq::empty()
            });
        assert(focused.same_settings(start));
        assert(first.same_settings(focused));
        assert(second.same_settings(first));
        assert(self.same_settings(second));
    }

    /// A resize can begin on the window: a session can, and the window is
    /// not the lone tiled window of its monitor while tiling on release
    /// is configured.
    pub open spec fn can_resize(self, window: Window) -> bool {
        self.can_grab(window) && !(self.config.auto_tile && self.lifts(window) && self.tiled_on(
            self.client(window).monitor_index as int,
        ).len() <= 1)
    }

    /// Begins a resize of a window: the pointer is put at its lower right
    /// corner.
    pub fn resize_begin(&mut self, window: Window, out: &mut Vec<Command>) -> (session: Option<
        PointerSession,
    >)
        requires
            old(self).wf(),
        ensures
            final(self).wf(),
            old(self).consistent() ==> final(self).consistent(),
            old(self).orderly() ==> final(self).orderly(),
            session == if old(self).can_resize(window) {
                Some(old(self).session_for(window, 0, 0))
            } else {
                None
            },
            !old(self).can_resize(window) ==> *final(self) == *old(self) && final(out)@ == old(
                out,
            )@,
            old(self).can_resize(window) ==> exists|mid: Seq<Command>|
                #![auto]
                final(self).grabbed(*old(self), window, old(out)@, mid) && final(out)@ == mid
                    + seq![
                    Command::WarpPointer {
                        window,
                        x: held(
                            old(self).client(window).width + old(self).client(window).border_width
                                - 1,
                        ) as i32,
                        y: held(
                            old(self).client(window).height + old(self).client(
                                window,
                            ).border_width - 1,
                        ) as i32,
                    },
                ],
    {
        let index = match self.find(window) {
            Some(index) => index,
            None => {
                return None;
            },
        };
        if self.clients[index].is_fullscreen {
            return None;
        }
        proof {
            self.lemma_place(index as int);
        }
        let lifts = !self.clients[index].is_floating && !self.has_no_layout();
        if self.config.auto_tile && lifts {
            let tiled = self.tiled_windows(self.clients[index].monitor_index);
            if tiled.len() <= 1 {
                return None;
            }
        }
        let client = &self.clients[index];
        let session = PointerSession {
            window,
            orig_x: client.x_position,
            orig_y: client.y_position,
            orig_width: client.width,
            orig_height: client.height,
            border_width: client.border_width,
            was_floating: client.is_floating,
            is_normie: self.has_no_layout(),
            monitor_index: client.monitor_index,
            start_x: 0,
            start_y: 0,
            last_time: 0,
        };
        let x = hold(client.width as i64 + client.border_width as i64 - 1);
        let y = hold(client.height as i64 + client.border_width as i64 - 1);
        self.lift(window, index, out);
        let ghost mid = out@;
        out.push(Command::WarpPointer { window, x, y });
        assert(final(self).grabbed(*old(self), window, old(out)@, mid));
        Some(session)
    }

    /// The command that puts the pointer at the lower right corner of a
    /// managed window.
    pub open spec fn corner_commands(self, window: Window) -> Seq<Command> {
        if self.has(window) {
            seq![
                Command::WarpPointer {
                    window,
                    x: held(self.client(window).width + self.client(window).border_width - 1)
                        as i32,
                    y: held(self.client(window).height + self.client(window).border_width - 1)
                        as i32,
                },
            ]
        } else {
            Seq::empty()
        }
    }

    /// Ends a resize: the pointer is put at the lower right corner of the
    /// window, the window is handed to the monitor it has come to lie on,
    /// and goes back into the layout if it was lifted out of it and tiling
    /// on release is configured.
    pub fn resize_end(&mut self, session: &PointerSession, out: &mut Vec<Command>)
        requires
            old(self).wf(),
        ensures
            final(self).wf(),
            old(self).consistent() ==> final(self).consistent(),
            old(self).orderly() ==> final(self).orderly(),
            exists|handed: WindowManager, mid: Seq<Command>|
                #![auto]
                handed.handed_over(
                    *old(self),
                    session.window,
                    session.monitor_index,
                    old(out)@ + old(self).corner_commands(session.window),
                    mid,
                ) && if old(self).settles_back(*session) {
                    final(self).settled_back(handed, session.window, false, mid, final(out)@)
                } else {
                    *final(self) == handed && final(out)@ == mid
                },
    {
        let settles = self.config.auto_tile && !session.was_floating && !session.is_normie;
        match self.find(session.window) {
            Some(index) => {
                proof {
                    self.lemma_place(index as int);
                }
                let client = &self.clients[index];
                let x = hold(client.width as i64 + client.border_width as i64 - 1);
                let y = hold(client.height as i64 + client.border_width as i64 - 1);
                out.push(Command::WarpPointer { window: session.window, x, y });
            },
            None => {},
        }
        let ghost warped = out@;
        assert(warped =~= old(out)@ + old(self).corner_commands(session.window));
        self.hand_over(session.window, session.monitor_index, out);
        let ghost handed = *self;
        let ghost mid = out@;
        proof {
            handed.lemma_handed_over_config(
                *old(self),
                session.window,
                session.monitor_index,
                warped,
                mid,
            );
        }
        if settles {
            self.settle_back(session.window, false, out);
        }
        assert(handed.handed_over(
            *old(self),
            session.window,
            session.monitor_index,
            old(out)@ + old(self).corner_commands(session.window),
            mid,
        ));
    }
}

} // verus!
