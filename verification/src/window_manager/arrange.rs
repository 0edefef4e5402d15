//! Arrangement: floating windows are held to the geometry rules, tiled
//! windows get the rectangles of the layout, hidden windows are moved off
//! the screen.

use vstd::prelude::*;
use crate::client::Client;
use crate::client::Constrained;
use crate::client::Rect;
use crate::client::held;
use crate::client::hold;
use crate::client::hold_length;
use crate::layout::LayoutType;
use crate::layout::WindowGeometry;
use crate::layout::minus;
use crate::window_manager::focus::lemma_position_from;
use crate::window_manager::focus::position_from;
use crate::tags::Window;
use crate::window_manager::Command;
use crate::window_manager::Configure;
use crate::window_manager::WindowManager;
use crate::window_manager::configure_of;
use crate::window_manager::registry::Pick;

verus! {

/// A length of a rectangle as a layout takes it: none where it is negative.
pub open spec fn length(value: i32) -> u32 {
    if value < 0 {
        0
    } else {
        value as u32
    }
}

/// Computes `length`.
pub fn length_of(value: i32) -> (result: u32)
    ensures
        result == length(value),
{
    if value < 0 {
        0
    } else {
        value as u32
    }
}

/// In a list without duplicates the first place of a window is its place.
pub proof fn lemma_position_unique(order: Seq<Window>, place: int, from: int)
    requires
        order.no_duplicates(),
        0 <= from <= place < order.len(),
    ensures
        position_from(order, order[place], from) == Some(place),
    decreases place - from,
{
    if from < place {
        lemma_position_unique(order, place, from + 1);
    }
}

impl WindowManager {
    /// The clients differ from those of `other` in geometry only, and
    /// everything else is as in `other`.
    pub open spec fn same_but_geometry(self, other: WindowManager) -> bool {
        &&& self.clients@.len() == other.clients@.len()
        &&& forall|i: int|
            0 <= i < self.clients@.len() ==> (#[trigger] self.clients@[i]).same_but_geometry(
                other.clients@[i],
            )
        &&& self.monitors == other.monitors
        &&& self.selected_monitor == other.selected_monitor
        &&& self.previous_focused == other.previous_focused
        &&& self.same_settings(other)
    }

    /// A state that differs in geometry only is as well formed and as
    /// consistent, and shows and picks the same windows.
    pub proof fn lemma_same_but_geometry(self, other: WindowManager)
        requires
            other.wf(),
            self.same_but_geometry(other),
        ensures
            self.wf(),
            other.consistent() ==> self.consistent(),
            self.windows() == other.windows(),
            forall|window: Window| #[trigger] self.has(window) == other.has(window),
            forall|window: Window| #[trigger] self.place(window) == other.place(window),
            forall|window: Window| #[trigger] self.visible(window) == other.visible(window),
            forall|pick: Pick, window: Window|
                #[trigger] self.picks(pick, window) == other.picks(pick, window),
            forall|window: Window|
                self.has(window) ==> (#[trigger] self.client(window)).same_but_geometry(
                    other.client(window),
                ),
    {
        assert(self.same_shape(other)) by {
            assert forall|i: int| 0 <= i < self.clients@.len() implies (
            #[trigger] self.clients@[i]).window == other.clients@[i].window
                && self.clients@[i].monitor_index == other.clients@[i].monitor_index by {
                assert(self.clients@[i].same_but_geometry(other.clients@[i]));
            }
        }
        self.lemma_same_shape(other);
        assert forall|i: int| 0 <= i < self.clients@.len() implies (#[trigger] self.clients@[i]).wf()
            && self.clients@[i].monitor_index < self.monitors@.len() by {
            assert(self.clients@[i].same_but_geometry(other.clients@[i]));
            assert(other.clients@[i].wf());
        }
        assert forall|window: Window| self.has(window) implies (#[trigger] self.client(
            window,
        )).same_but_geometry(other.client(window)) by {
            let at = self.place(window);
            assert(self.windows()[at] == window);
            assert(self.clients@[at].same_but_geometry(other.clients@[at]));
        }
        assert forall|window: Window| #[trigger] self.visible(window) == other.visible(window) by {
            if self.has(window) {
                assert(self.client(window).same_but_geometry(other.client(window)));
            }
        }
        assert forall|pick: Pick, window: Window| #[trigger]
            self.picks(pick, window) == other.picks(pick, window) by {
            if self.has(window) {
                assert(self.client(window).same_but_geometry(other.client(window)));
            }
            assert(self.visible(window) == other.visible(window));
        }
        if other.consistent() {
            assert(self.same_members(other));
            self.lemma_consistent_carries(other);
        }
    }

    /// The window is free of the layout: it floats, or the layout arranges
    /// nothing.
    pub open spec fn is_free(self, client: Client) -> bool {
        client.is_floating || self.layout == LayoutType::Normie
    }

    /// What the geometry rules make of a proposed geometry for a window; a
    /// window that is not managed keeps what is proposed.
    pub open spec fn size_for(
        self,
        window: Window,
        x: i32,
        y: i32,
        width: i32,
        height: i32,
    ) -> Constrained {
        if self.has(window) {
            self.client(window).constrained(
                self.monitors@[self.client(window).monitor_index as int].window_area(),
                self.is_free(self.client(window)),
                x,
                y,
                width,
                height,
            )
        } else {
            Constrained { x, y, width, height, changed: false }
        }
    }

    /// The layout in force arranges nothing.
    pub fn has_no_layout(&self) -> (normie: bool)
        ensures
            normie == (self.layout == LayoutType::Normie),
    {
        match self.layout {
            LayoutType::Normie => true,
            _ => false,
        }
    }

    /// Applies the geometry rules to a proposed geometry for a window.
    pub fn apply_size_hints(&self, window: Window, x: i32, y: i32, width: i32, height: i32) -> (result:
        Constrained)
        requires
            self.wf(),
        ensures
            result == self.size_for(window, x, y, width, height),
    {
        match self.find(window) {
            Some(index) => {
                let client = &self.clients[index];
                let monitor = &self.monitors[client.monitor_index];
                let area = Rect {
                    x: monitor.window_area_x,
                    y: monitor.window_area_y,
                    width: monitor.window_area_width,
                    height: monitor.window_area_height,
                };
                let free = client.is_floating || self.has_no_layout();
                client.constrain(&area, free, x, y, width, height)
            },
            None => Constrained { x, y, width, height, changed: false },
        }
    }

    /// What the geometry rules make of the geometry that a client has.
    pub open spec fn own_size(self, client: Client) -> Constrained {
        client.constrained(
            self.monitors@[client.monitor_index as int].window_area(),
            true,
            client.x_position,
            client.y_position,
            client.width,
            client.height,
        )
    }

    /// The client is shown on its monitor.
    pub open spec fn shows(self, client: Client) -> bool {
        client.shown_under(self.monitors@[client.monitor_index as int].selected_tags())
    }

    /// The geometry of the client is to be corrected: it is shown, free of
    /// the layout and not fullscreen, and the geometry rules change its
    /// geometry.
    pub open spec fn settles(self, client: Client) -> bool {
        self.shows(client) && self.is_free(client) && !client.is_fullscreen && self.own_size(
            client,
        ).changed
    }

    /// The client after its geometry is corrected, if it is to be.
    pub open spec fn settled(self, client: Client) -> Client {
        if self.settles(client) {
            client.resized(self.own_size(client))
        } else {
            client
        }
    }

    /// The commands that show a client that is visible: the window is put
    /// at its place, and if its geometry is corrected, it is configured
    /// with the new geometry and the configured border width and told so.
    pub open spec fn show_commands(self, client: Client) -> Seq<Command> {
        let to = self.own_size(client);
        seq![
            Command::Configure(
                Configure {
                    x: Some(client.x_position),
                    y: Some(client.y_position),
                    ..configure_of(client.window)
                },
            ),
        ] + (if self.settles(client) {
            seq![
                Command::Configure(
                    Configure {
                        x: Some(to.x),
                        y: Some(to.y),
                        width: Some(to.width),
                        height: Some(to.height),
                        border_width: Some(held(self.config.border_width as int) as i32),
                        ..configure_of(client.window)
                    },
                ),
                Command::ConfigureNotify {
                    window: client.window,
                    x: to.x,
                    y: to.y,
                    width: to.width,
                    height: to.height,
                    border_width: client.border_width,
                },
            ]
        } else {
            Seq::empty()
        })
    }

    /// The command that hides a client that is not visible: the window is
    /// moved off the screen to the left, by twice its width.
    pub open spec fn hide_command(self, client: Client) -> Command {
        Command::Configure(
            Configure {
                x: Some(held(held(client.width + 2 * client.border_width) * -2) as i32),
                y: Some(client.y_position),
                ..configure_of(client.window)
            },
        )
    }

    /// Shows the client at `index`, which is visible: corrects its geometry
    /// if need be and issues the commands.
    fn show_client(&mut self, index: usize, out: &mut Vec<Command>)
        requires
            old(self).wf(),
            index < old(self).clients@.len(),
            old(self).shows(old(self).clients@[index as int]),
        ensures
            final(self).clients@ == old(self).clients@.update(
                index as int,
                old(self).settled(old(self).clients@[index as int]),
            ),
            final(self).same_but_geometry(*old(self)),
            final(out)@ == old(out)@ + old(self).show_commands(old(self).clients@[index as int]),
    {
        let ghost issued = out@;
        let ghost before = *self;
        let window = self.clients[index].window;
        let x = self.clients[index].x_position;
        let y = self.clients[index].y_position;
        let width = self.clients[index].width;
        let height = self.clients[index].height;
        let mut request = crate::window_manager::configure(window);
        request.x = Some(x);
        request.y = Some(y);
        out.push(Command::Configure(request));
        let free = self.clients[index].is_floating || self.has_no_layout();
        if free && !self.clients[index].is_fullscreen {
            let monitor = &self.monitors[self.clients[index].monitor_index];
            let area = Rect {
                x: monitor.window_area_x,
                y: monitor.window_area_y,
                width: monitor.window_area_width,
                height: monitor.window_area_height,
            };
            let to = self.clients[index].constrain(&area, true, x, y, width, height);
            if to.changed {
                let border_width = self.clients[index].border_width;
                self.clients[index].resize(&to);
                let mut request = crate::window_manager::configure(window);
                request.x = Some(to.x);
                request.y = Some(to.y);
                request.width = Some(to.width);
                request.height = Some(to.height);
                request.border_width = Some(hold_length(self.config.border_width));
                out.push(Command::Configure(request));
                out.push(
                    Command::ConfigureNotify {
                        window,
                        x: to.x,
                        y: to.y,
                        width: to.width,
                        height: to.height,
                        border_width,
                    },
                );
            }
        }
        proof {
            assert(out@ =~= issued + before.show_commands(before.clients@[index as int]));
            assert(self.clients@ =~= before.clients@.update(
                index as int,
                before.settled(before.clients@[index as int]),
            ));
        }
    }

    /// The client after the windows of monitor `m` are shown and hidden:
    /// corrected if it is in the focus order of `m`, its monitor.
    pub open spec fn shown_client(self, m: int, client: Client) -> Client {
        if client.monitor_index == m && self.stacked(m, client.window) {
            self.settled(client)
        } else {
            client
        }
    }

    /// The commands that show the visible windows among the first `count`
    /// of the focus order of monitor `m`, in that order.
    pub open spec fn shows_upto(self, m: int, count: int) -> Seq<Command>
        decreases count,
    {
        if count <= 0 {
            Seq::empty()
        } else {
            let window = self.monitors@[m].stack@[count - 1];
            self.shows_upto(m, count - 1) + (if self.on(window, m) && self.shows(
                self.client(window),
            ) {
                self.show_commands(self.client(window))
            } else {
                Seq::empty()
            })
        }
    }

    /// The commands that hide the windows that are not visible in the focus
    /// order of monitor `m` from place `from` on, the last of them first.
    pub open spec fn hides_from(self, m: int, from: int) -> Seq<Command>
        decreases self.monitors@[m].stack@.len() - from,
    {
        if from < 0 || from >= self.monitors@[m].stack@.len() {
            Seq::empty()
        } else {
            let window = self.monitors@[m].stack@[from];
            self.hides_from(m, from + 1) + (if self.on(window, m) && !self.shows(
                self.client(window),
            ) {
                seq![self.hide_command(self.client(window))]
            } else {
                Seq::empty()
            })
        }
    }

    /// The commands that show and hide the windows of monitor `m`: the
    /// visible ones are shown in focus order, then the others are hidden in
    /// the opposite order.
    pub open spec fn showhide_commands(self, m: int) -> Seq<Command> {
        self.shows_upto(m, self.monitors@[m].stack@.len() as int) + self.hides_from(m, 0)
    }

    /// The clients are those of `before` with the windows among the first
    /// `count` of the focus order of monitor `m` shown.
    pub open spec fn shown_upto(self, before: WindowManager, m: int, count: int) -> bool {
        forall|i: int|
            0 <= i < self.clients@.len() ==> #[trigger] self.clients@[i] == if before.clients@[i].monitor_index
                == m && before.monitors@[m].stack@.subrange(0, count).contains(
                before.clients@[i].window,
            ) {
                before.settled(before.clients@[i])
            } else {
                before.clients@[i]
            }
    }

    /// Shows one more window of the focus order of monitor `m`.
    fn show_next(
        &mut self,
        m: usize,
        place: usize,
        out: &mut Vec<Command>,
        Ghost(before): Ghost<WindowManager>,
        Ghost(issued): Ghost<Seq<Command>>,
    )
        requires
            before.wf(),
            old(out)@ == issued + before.shows_upto(m as int, place as int),
            old(self).same_but_geometry(before),
            m < before.monitors@.len(),
            place < before.monitors@[m as int].stack@.len(),
            old(self).shown_upto(before, m as int, place as int),
        ensures
            final(self).same_but_geometry(before),
            final(self).shown_upto(before, m as int, place + 1),
            final(out)@ == issued + before.shows_upto(m as int, place + 1),
    {
        let ghost stack = before.monitors@[m as int].stack@;
        let ghost mid = *self;
        proof {
            self.lemma_same_but_geometry(before);
            assert(before.monitors@[m as int].wf());
            assert(stack.subrange(0, place + 1) =~= stack.subrange(0, place as int).push(
                stack[place as int],
            ));
        }
        let window = self.monitors[m].stack.get(place);
        let ghost added = if before.on(window, m as int) && before.shows(before.client(window)) {
            before.show_commands(before.client(window))
        } else {
            Seq::empty()
        };
        assert(before.shows_upto(m as int, place + 1) == before.shows_upto(m as int, place as int)
            + added);
        let found = self.find(window);
        let mut shown = false;
        match found {
            Some(index) => {
                proof {
                    assert(before.windows()[index as int] == window);
                    assert(!stack.subrange(0, place as int).contains(window)) by {
                        if stack.subrange(0, place as int).contains(window) {
                            let at = stack.subrange(0, place as int).index_of(window);
                            assert(stack[at] == window);
                            assert(stack[place as int] == window);
                        }
                    }
                    assert(self.clients@[index as int] == before.clients@[index as int]);
                    assert(before.client(window) == before.clients@[index as int]);
                    assert(before.clients@[index as int].wf());
                }
                if self.clients[index].monitor_index == m {
                    let tags = self.monitors[m].get_selected_tag();
                    if self.clients[index].is_shown_under(tags) {
                        self.show_client(index, out);
                        shown = true;
                    }
                }
                proof {
                    assert(mid.settled(mid.clients@[index as int]) == before.settled(
                        before.clients@[index as int],
                    ));
                    assert(mid.show_commands(mid.clients@[index as int]) == before.show_commands(
                        before.clients@[index as int],
                    ));
                    assert forall|i: int| 0 <= i < self.clients@.len() implies (
                    #[trigger] self.clients@[i]).same_but_geometry(before.clients@[i]) by {
                        assert(mid.clients@[i].same_but_geometry(before.clients@[i]));
                        if shown {
                            assert(self.clients@[i].same_but_geometry(mid.clients@[i]));
                        }
                    }
                    assert forall|i: int| 0 <= i < self.clients@.len() implies #[trigger] self.clients@[i]
                        == if before.clients@[i].monitor_index == m && stack.subrange(
                        0,
                        place + 1,
                    ).contains(before.clients@[i].window) {
                        before.settled(before.clients@[i])
                    } else {
                        before.clients@[i]
                    } by {
                        if i != index {
                            assert(before.windows()[i] == before.clients@[i].window);
                            assert(before.clients@[i].window != window);
                            if stack.subrange(0, place + 1).contains(before.clients@[i].window) {
                                let at = stack.subrange(0, place + 1).index_of(
                                    before.clients@[i].window,
                                );
                                assert(stack.subrange(0, place as int)[at]
                                    == before.clients@[i].window);
                            }
                            if stack.subrange(0, place as int).contains(before.clients@[i].window) {
                                let at = stack.subrange(0, place as int).index_of(
                                    before.clients@[i].window,
                                );
                                assert(stack.subrange(0, place + 1)[at]
                                    == before.clients@[i].window);
                            }
                            assert(self.clients@[i] == mid.clients@[i]);
                        } else {
                            assert(stack.subrange(0, place + 1)[place as int] == window);
                        }
                    }
                    assert(out@ =~= issued + before.shows_upto(m as int, place + 1));
                }
            },
            None => {
                proof {
                    assert forall|i: int| 0 <= i < self.clients@.len() implies #[trigger] self.clients@[i]
                        == if before.clients@[i].monitor_index == m && stack.subrange(
                        0,
                        place + 1,
                    ).contains(before.clients@[i].window) {
                        before.settled(before.clients@[i])
                    } else {
                        before.clients@[i]
                    } by {
                        assert(before.windows()[i] == before.clients@[i].window);
                        assert(before.clients@[i].window != window);
                        if stack.subrange(0, place + 1).contains(before.clients@[i].window) {
                            let at = stack.subrange(0, place + 1).index_of(
                                before.clients@[i].window,
                            );
                            assert(stack.subrange(0, place as int)[at]
                                == before.clients@[i].window);
                        }
                        if stack.subrange(0, place as int).contains(before.clients@[i].window) {
                            let at = stack.subrange(0, place as int).index_of(
                                before.clients@[i].window,
                            );
                            assert(stack.subrange(0, place + 1)[at] == before.clients@[i].window);
                        }
                    }
                    assert(out@ =~= issued + before.shows_upto(m as int, place + 1));
                }
            },
        }
    }

    /// Hides one more window of the focus order of monitor `m`, if it is
    /// not visible.
    fn hide_next(&self, m: usize, place: usize, out: &mut Vec<Command>, Ghost(shown): Ghost<
        Seq<Command>,
    >)
        requires
            self.wf(),
            m < self.monitors@.len(),
            place < self.monitors@[m as int].stack@.len(),
            old(out)@ == shown + self.hides_from(m as int, place + 1),
        ensures
            final(out)@ == shown + self.hides_from(m as int, place as int),
    {
        let window = self.monitors[m].stack.get(place);
        match self.find(window) {
            Some(index) => {
                let client = &self.clients[index];
                if client.monitor_index == m && !client.is_shown_under(
                    self.monitors[m].get_selected_tag(),
                ) {
                    let mut request = crate::window_manager::configure(window);
                    let twice: i64 = (client.width_with_border() as i64) * -2;
                    request.x = Some(hold(twice));
                    request.y = Some(client.y_position);
                    out.push(Command::Configure(request));
                    assert(request == self.hide_command(self.client(window))->Configure_0);
                }
            },
            None => {},
        }
        assert(final(out)@ =~= shown + self.hides_from(m as int, place as int));
    }

    /// The state after the windows of monitor `m` are shown and hidden,
    /// against the state before.
    pub open spec fn after_showhide(self, before: WindowManager, m: int) -> bool {
        &&& self.same_but_geometry(before)
        &&& forall|i: int|
            0 <= i < self.clients@.len() ==> #[trigger] self.clients@[i] == before.shown_client(
                m,
                before.clients@[i],
            )
    }

    /// Shows the visible windows of monitor `monitor_index` where they
    /// belong, correcting the geometry of those that are free of the
    /// layout, and moves the others off the screen.
    pub fn showhide(&mut self, monitor_index: usize, out: &mut Vec<Command>)
        requires
            old(self).wf(),
            monitor_index < old(self).monitors@.len(),
        ensures
            final(self).wf(),
            old(self).consistent() ==> final(self).consistent(),
            old(self).orderly() ==> final(self).orderly(),
            final(self).after_showhide(*old(self), monitor_index as int),
            final(out)@ == old(out)@ + old(self).showhide_commands(monitor_index as int),
    {
        let ghost before = *self;
        let ghost issued = out@;
        let count = self.monitors[monitor_index].stack.len();
        let mut place: usize = 0;
        assert(before.same_but_geometry(before));
        while place < count
            invariant
                before.wf(),
                monitor_index < before.monitors@.len(),
                count == before.monitors@[monitor_index as int].stack@.len(),
                place <= count,
                self.same_but_geometry(before),
                self.shown_upto(before, monitor_index as int, place as int),
                out@ == issued + before.shows_upto(monitor_index as int, place as int),
            decreases count - place,
        {
            self.show_next(monitor_index, place, out, Ghost(before), Ghost(issued));
            place += 1;
        }
        proof {
            let stack = before.monitors@[monitor_index as int].stack@;
            assert(stack.subrange(0, count as int) =~= stack);
            self.lemma_same_but_geometry(before);
            self.lemma_same_hides(before, monitor_index as int, 0);
        }
        let ghost shown = out@;
        let mut left: usize = count;
        assert(shown =~= shown + self.hides_from(monitor_index as int, count as int));
        while left > 0
            invariant
                self.wf(),
                monitor_index < self.monitors@.len(),
                count == self.monitors@[monitor_index as int].stack@.len(),
                left <= count,
                out@ == shown + self.hides_from(monitor_index as int, left as int),
            decreases left,
        {
            left -= 1;
            self.hide_next(monitor_index, left, out, Ghost(shown));
        }
        assert(out@ =~= issued + before.showhide_commands(monitor_index as int));
    }

    /// A state that differs in geometry only, with the hidden clients
    /// untouched, hides with the same commands.
    proof fn lemma_same_hides(self, before: WindowManager, m: int, from: int)
        requires
            before.wf(),
            self.same_but_geometry(before),
            0 <= m < before.monitors@.len(),
            forall|i: int|
                0 <= i < self.clients@.len() ==> #[trigger] self.clients@[i] == before.shown_client(
                    m,
                    before.clients@[i],
                ),
        ensures
            self.hides_from(m, from) == before.hides_from(m, from),
        decreases before.monitors@[m].stack@.len() - from,
    {
        self.lemma_same_but_geometry(before);
        if 0 <= from < before.monitors@[m].stack@.len() {
            self.lemma_same_hides(before, m, from + 1);
            let window = before.monitors@[m].stack@[from];
            if before.has(window) {
                let at = before.place(window);
                assert(before.windows()[at] == window);
                assert(self.clients@[at] == before.shown_client(m, before.clients@[at]));
            }
        }
    }

    /// A state that differs in geometry only, with the clients of monitor
    /// `m` untouched, has the same clients for the windows of `m`.
    proof fn lemma_same_client(self, before: WindowManager, m: int, window: Window)
        requires
            before.wf(),
            self.same_but_geometry(before),
            0 <= m < before.monitors@.len(),
            forall|i: int|
                0 <= i < self.clients@.len() && before.clients@[i].monitor_index == m
                    ==> #[trigger] self.clients@[i] == before.clients@[i],
        ensures
            self.on(window, m) == before.on(window, m),
            before.on(window, m) ==> self.client(window) == before.client(window),
            self.monitors == before.monitors,
    {
        self.lemma_same_but_geometry(before);
        if before.has(window) {
            let at = before.place(window);
            assert(before.windows()[at] == window);
            assert(self.clients@[at].same_but_geometry(before.clients@[at]));
            if before.clients@[at].monitor_index == m {
                assert(self.clients@[at] == before.clients@[at]);
            }
        }
    }

    /// Such a state shows the windows of `m` with the same commands.
    proof fn lemma_same_shows(self, before: WindowManager, m: int, count: int)
        requires
            before.wf(),
            self.same_but_geometry(before),
            0 <= m < before.monitors@.len(),
            0 <= count <= before.monitors@[m].stack@.len(),
            forall|i: int|
                0 <= i < self.clients@.len() && before.clients@[i].monitor_index == m
                    ==> #[trigger] self.clients@[i] == before.clients@[i],
        ensures
            self.shows_upto(m, count) == before.shows_upto(m, count),
        decreases count,
    {
        if count > 0 {
            self.lemma_same_shows(before, m, count - 1);
            self.lemma_same_client(before, m, before.monitors@[m].stack@[count - 1]);
        }
    }

    /// Such a state hides the windows of `m` with the same commands.
    proof fn lemma_same_hidden(self, before: WindowManager, m: int, from: int)
        requires
            before.wf(),
            self.same_but_geometry(before),
            0 <= m < before.monitors@.len(),
            forall|i: int|
                0 <= i < self.clients@.len() && before.clients@[i].monitor_index == m
                    ==> #[trigger] self.clients@[i] == before.clients@[i],
        ensures
            self.hides_from(m, from) == before.hides_from(m, from),
        decreases before.monitors@[m].stack@.len() - from,
    {
        if 0 <= from < before.monitors@[m].stack@.len() {
            self.lemma_same_hidden(before, m, from + 1);
            self.lemma_same_client(before, m, before.monitors@[m].stack@[from]);
        }
    }

    /// The client after the windows of its monitor are shown and hidden.
    pub open spec fn placed_client(self, client: Client) -> Client {
        self.shown_client(client.monitor_index as int, client)
    }

    /// The commands that show and hide the windows of the first `count`
    /// monitors, monitor by monitor.
    pub open spec fn showhide_upto(self, count: int) -> Seq<Command>
        decreases count,
    {
        if count <= 0 {
            Seq::empty()
        } else {
            self.showhide_upto(count - 1) + self.showhide_commands(count - 1)
        }
    }

    /// The state after the windows of all monitors are shown and hidden,
    /// against the state before.
    pub open spec fn after_showhide_all(self, before: WindowManager) -> bool {
        &&& self.same_but_geometry(before)
        &&& forall|i: int|
            0 <= i < self.clients@.len() ==> #[trigger] self.clients@[i] == before.placed_client(
                before.clients@[i],
            )
    }

    /// Shows and hides the windows of all monitors.
    pub fn showhide_all(&mut self, out: &mut Vec<Command>)
        requires
            old(self).wf(),
        ensures
            final(self).wf(),
            old(self).consistent() ==> final(self).consistent(),
            old(self).orderly() ==> final(self).orderly(),
            final(self).after_showhide_all(*old(self)),
            final(out)@ == old(out)@ + old(self).showhide_upto(old(self).monitors@.len() as int),
    {
        let ghost before = *self;
        let ghost issued = out@;
        let count = self.monitors.len();
        let mut m: usize = 0;
        assert(before.same_but_geometry(before));
        while m < count
            invariant
                before.wf(),
                self.wf(),
                before.consistent() ==> self.consistent(),
                before.orderly() ==> self.orderly(),
                count == before.monitors@.len(),
                m <= count,
                self.same_but_geometry(before),
                forall|i: int|
                    0 <= i < self.clients@.len() ==> #[trigger] self.clients@[i] == if before.clients@[i].monitor_index
                        < m {
                        before.placed_client(before.clients@[i])
                    } else {
                        before.clients@[i]
                    },
                out@ == issued + before.showhide_upto(m as int),
            decreases count - m,
        {
            let ghost mid = *self;
            proof {
                self.lemma_same_shows(
                    before,
                    m as int,
                    before.monitors@[m as int].stack@.len() as int,
                );
                self.lemma_same_hidden(before, m as int, 0);
            }
            self.showhide(m, out);
            proof {
                assert forall|i: int| 0 <= i < self.clients@.len() implies (
                #[trigger] self.clients@[i]).same_but_geometry(before.clients@[i]) by {
                    assert(self.clients@[i].same_but_geometry(mid.clients@[i]));
                    assert(mid.clients@[i].same_but_geometry(before.clients@[i]));
                }
                assert forall|i: int| 0 <= i < self.clients@.len() implies #[trigger] self.clients@[i]
                    == if before.clients@[i].monitor_index < m + 1 {
                    before.placed_client(before.clients@[i])
                } else {
                    before.clients@[i]
                } by {
                    assert(self.clients@[i] == mid.shown_client(m as int, mid.clients@[i]));
                    assert(mid.clients@[i].same_but_geometry(before.clients@[i]));
                }
                assert(out@ =~= issued + before.showhide_upto(m + 1));
            }
            m += 1;
        }
        proof {
            assert forall|i: int| 0 <= i < self.clients@.len() implies #[trigger] self.clients@[i]
                == before.placed_client(before.clients@[i]) by {
                assert(before.clients@[i].wf());
            }
        }
    }

    /// Side of a tiled window for a side of its rectangle: the border is
    /// taken off on both sides, and the least size of a window is kept.
    pub open spec fn fitted(self, side: u32) -> int {
        held(Client::raised(minus(side as int, 2 * self.config.border_width)))
    }

    /// Computes `fitted`.
    fn fit(&self, side: u32) -> (result: i32)
        ensures
            result == self.fitted(side),
    {
        let border: u64 = 2 * (self.config.border_width as u64);
        let inner: u64 = if (side as u64) > border {
            (side as u64) - border
        } else {
            0
        };
        if inner < crate::client::MIN_WINDOW_SIZE as u64 {
            crate::client::MIN_WINDOW_SIZE
        } else {
            hold(inner as i64)
        }
    }

    /// The client with the rectangle that the layout gave it: placed in the
    /// window area of its monitor, with the configured border.
    pub open spec fn tile_client(self, client: Client, rectangle: WindowGeometry) -> Client {
        let area = self.monitors@[client.monitor_index as int].window_area();
        Client {
            x_position: held(rectangle.x_coordinate + area.x) as i32,
            y_position: held(rectangle.y_coordinate + area.y) as i32,
            width: self.fitted(rectangle.width) as i32,
            height: self.fitted(rectangle.height) as i32,
            border_width: held(self.config.border_width as int) as i32,
            ..client
        }
    }

    /// The command that gives a window the geometry and border of its
    /// client.
    pub open spec fn tile_command(client: Client) -> Command {
        Command::Configure(
            Configure {
                x: Some(client.x_position),
                y: Some(client.y_position),
                width: Some(client.width),
                height: Some(client.height),
                border_width: Some(client.border_width),
                ..configure_of(client.window)
            },
        )
    }

    /// The rectangles that the layout in force gives the tiled windows of
    /// monitor `m`, in tiling order, within its window area.
    pub open spec fn rectangles(self, m: int) -> Seq<WindowGeometry> {
        let monitor = self.monitors@[m];
        self.layout.geometries(
            self.tiled_on(m).len(),
            length(monitor.window_area_width),
            length(monitor.window_area_height),
            self.config.gaps_when(self.gaps_enabled),
            monitor.master_factor,
            monitor.num_master,
            self.config.smartgaps_enabled,
        )
    }

    /// The client after the layout arranged the tiled windows of its
    /// monitor: with its rectangle if it is one of them, as it was
    /// otherwise.
    pub open spec fn tiled_client(self, client: Client) -> Client {
        let m = client.monitor_index as int;
        match position_from(self.tiled_on(m), client.window, 0) {
            Some(place) => if place < self.rectangles(m).len() {
                self.tile_client(client, self.rectangles(m)[place])
            } else {
                client
            },
            None => client,
        }
    }

    /// The commands that arrange the first `count` tiled windows of monitor
    /// `m`.
    pub open spec fn tiles_upto(self, m: int, count: int) -> Seq<Command>
        decreases count,
    {
        if count <= 0 {
            Seq::empty()
        } else {
            self.tiles_upto(m, count - 1) + (if count - 1 < self.rectangles(m).len() {
                seq![
                    Self::tile_command(
                        self.tile_client(
                            self.client(self.tiled_on(m)[count - 1]),
                            self.rectangles(m)[count - 1],
                        ),
                    ),
                ]
            } else {
                Seq::empty()
            })
        }
    }

    /// The commands that arrange the tiled windows of monitor `m`.
    pub open spec fn tile_commands(self, m: int) -> Seq<Command> {
        self.tiles_upto(m, self.tiled_on(m).len() as int)
    }

    /// The clients are those of `before` with the first `count` tiled
    /// windows of monitor `m` arranged.
    pub open spec fn tiled_upto(self, before: WindowManager, m: int, count: int) -> bool {
        forall|i: int|
            0 <= i < self.clients@.len() ==> #[trigger] self.clients@[i] == if before.clients@[i].monitor_index
                == m {
                match position_from(before.tiled_on(m), before.clients@[i].window, 0) {
                    Some(place) => if place < count && place < before.rectangles(m).len() {
                        before.tile_client(before.clients@[i], before.rectangles(m)[place])
                    } else {
                        before.clients@[i]
                    },
                    None => before.clients@[i],
                }
            } else {
                before.clients@[i]
            }
    }

    /// Gives the client at `index` a rectangle of the layout.
    fn tile_one(&mut self, index: usize, rectangle: &WindowGeometry, out: &mut Vec<Command>)
        requires
            old(self).wf(),
            index < old(self).clients@.len(),
        ensures
            final(self).clients@ == old(self).clients@.update(
                index as int,
                old(self).tile_client(old(self).clients@[index as int], *rectangle),
            ),
            final(self).same_but_geometry(*old(self)),
            final(out)@ == old(out)@ + seq![
                Self::tile_command(
                    old(self).tile_client(old(self).clients@[index as int], *rectangle),
                ),
            ],
    {
        let monitor = &self.monitors[self.clients[index].monitor_index];
        let x = hold(rectangle.x_coordinate as i64 + monitor.window_area_x as i64);
        let y = hold(rectangle.y_coordinate as i64 + monitor.window_area_y as i64);
        let width = self.fit(rectangle.width);
        let height = self.fit(rectangle.height);
        let border_width = hold_length(self.config.border_width);
        let window = self.clients[index].window;
        self.clients[index].x_position = x;
        self.clients[index].y_position = y;
        self.clients[index].width = width;
        self.clients[index].height = height;
        self.clients[index].border_width = border_width;
        let mut request = crate::window_manager::configure(window);
        request.x = Some(x);
        request.y = Some(y);
        request.width = Some(width);
        request.height = Some(height);
        request.border_width = Some(border_width);
        out.push(Command::Configure(request));
        proof {
            assert(self.clients@ =~= old(self).clients@.update(
                index as int,
                old(self).tile_client(old(self).clients@[index as int], *rectangle),
            ));
            assert(final(out)@ =~= old(out)@ + seq![
                Self::tile_command(
                    old(self).tile_client(old(self).clients@[index as int], *rectangle),
                ),
            ]);
        }
    }

    /// Arranges one more tiled window of monitor `m`.
    fn tile_next(
        &mut self,
        m: usize,
        place: usize,
        tiled: &Vec<Window>,
        rectangles: &Vec<WindowGeometry>,
        out: &mut Vec<Command>,
        Ghost(before): Ghost<WindowManager>,
        Ghost(issued): Ghost<Seq<Command>>,
    )
        requires
            before.wf(),
            old(self).same_but_geometry(before),
            m < before.monitors@.len(),
            tiled@ == before.tiled_on(m as int),
            rectangles@ == before.rectangles(m as int),
            place < tiled@.len(),
            old(self).tiled_upto(before, m as int, place as int),
            old(out)@ == issued + before.tiles_upto(m as int, place as int),
        ensures
            final(self).same_but_geometry(before),
            final(self).tiled_upto(before, m as int, place + 1),
            final(out)@ == issued + before.tiles_upto(m as int, place + 1),
    {
        let ghost mid = *self;
        let window = tiled[place];
        proof {
            self.lemma_same_but_geometry(before);
            assert(before.monitors@[m as int].wf());
            before.lemma_among(
                Pick::Tiled(m),
                before.monitors@[m as int].clients@,
                before.monitors@[m as int].clients@.len() as int,
            );
            assert(tiled@.contains(window));
            assert(before.picks(Pick::Tiled(m), window));
            lemma_position_unique(tiled@, place as int, 0);
        }
        let index = self.find(window).unwrap();
        proof {
            assert(before.windows()[index as int] == window);
            assert(before.client(window) == before.clients@[index as int]);
            assert(self.clients@[index as int] == before.clients@[index as int]);
        }
        if place < rectangles.len() {
            self.tile_one(index, &rectangles[place], out);
        }
        proof {
            assert(mid.tile_client(mid.clients@[index as int], rectangles@[place as int])
                == before.tile_client(before.clients@[index as int], rectangles@[place as int]));
            assert forall|i: int| 0 <= i < self.clients@.len() implies (
            #[trigger] self.clients@[i]).same_but_geometry(before.clients@[i]) by {
                assert(mid.clients@[i].same_but_geometry(before.clients@[i]));
                if place < rectangles@.len() {
                    assert(self.clients@[i].same_but_geometry(mid.clients@[i]));
                }
            }
            assert forall|i: int| 0 <= i < self.clients@.len() implies #[trigger] self.clients@[i]
                == if before.clients@[i].monitor_index == m {
                match position_from(before.tiled_on(m as int), before.clients@[i].window, 0) {
                    Some(at) => if at < place + 1 && at < before.rectangles(m as int).len() {
                        before.tile_client(before.clients@[i], before.rectangles(m as int)[at])
                    } else {
                        before.clients@[i]
                    },
                    None => before.clients@[i],
                }
            } else {
                before.clients@[i]
            } by {
                if i != index {
                    assert(before.windows()[i] == before.clients@[i].window);
                    assert(before.clients@[i].window != window);
                    lemma_position_from(tiled@, before.clients@[i].window, 0);
                    assert(self.clients@[i] == mid.clients@[i]);
                }
            }
            assert(out@ =~= issued + before.tiles_upto(m as int, place + 1));
        }
    }

    /// The state after the tiled windows of monitor `m` are arranged,
    /// against the state before.
    pub open spec fn after_tiling(self, before: WindowManager, m: int) -> bool {
        &&& self.same_but_geometry(before)
        &&& forall|i: int|
            0 <= i < self.clients@.len() ==> #[trigger] self.clients@[i] == if before.clients@[i].monitor_index
                == m {
                before.tiled_client(before.clients@[i])
            } else {
                before.clients@[i]
            }
    }

    /// Gives the tiled windows of monitor `monitor_index` the rectangles of
    /// the layout in force.
    pub fn tile_monitor(&mut self, monitor_index: usize, out: &mut Vec<Command>)
        requires
            old(self).wf(),
            monitor_index < old(self).monitors@.len(),
        ensures
            final(self).wf(),
            old(self).consistent() ==> final(self).consistent(),
            old(self).orderly() ==> final(self).orderly(),
            final(self).after_tiling(*old(self), monitor_index as int),
            final(out)@ == old(out)@ + old(self).tile_commands(monitor_index as int),
    {
        let ghost before = *self;
        let ghost issued = out@;
        let tiled = self.tiled_windows(monitor_index);
        let monitor = &self.monitors[monitor_index];
        let gaps = self.config.gaps(self.gaps_enabled);
        let rectangles = self.layout.arrange(
            tiled.as_slice(),
            length_of(monitor.window_area_width),
            length_of(monitor.window_area_height),
            &gaps,
            monitor.master_factor,
            monitor.num_master,
            self.config.smartgaps_enabled,
        );
        let mut place: usize = 0;
        assert(before.same_but_geometry(before));
        assert(self.tiled_upto(before, monitor_index as int, 0)) by {
            assert forall|i: int| 0 <= i < self.clients@.len() implies match position_from(
                tiled@,
                (#[trigger] before.clients@[i]).window,
                0,
            ) {
                Some(at) => at >= 0,
                None => true,
            } by {
                lemma_position_from(tiled@, before.clients@[i].window, 0);
            }
        }
        while place < tiled.len()
            invariant
                before.wf(),
                monitor_index < before.monitors@.len(),
                tiled@ == before.tiled_on(monitor_index as int),
                rectangles@ == before.rectangles(monitor_index as int),
                place <= tiled@.len(),
                self.same_but_geometry(before),
                self.tiled_upto(before, monitor_index as int, place as int),
                out@ == issued + before.tiles_upto(monitor_index as int, place as int),
            decreases tiled@.len() - place,
        {
            self.tile_next(
                monitor_index,
                place,
                &tiled,
                &rectangles,
                out,
                Ghost(before),
                Ghost(issued),
            );
            place += 1;
        }
        proof {
            self.lemma_same_but_geometry(before);
            assert forall|i: int| 0 <= i < self.clients@.len() implies #[trigger] self.clients@[i]
                == if before.clients@[i].monitor_index == monitor_index {
                before.tiled_client(before.clients@[i])
            } else {
                before.clients@[i]
            } by {
                lemma_position_from(tiled@, before.clients@[i].window, 0);
            }
        }
    }

    /// A state that differs in geometry only arranges the tiled windows of
    /// a monitor whose clients are untouched in the same way.
    proof fn lemma_same_tiling(self, before: WindowManager, m: usize)
        requires
            before.wf(),
            self.same_but_geometry(before),
            m < before.monitors@.len(),
            forall|i: int|
                0 <= i < self.clients@.len() && before.clients@[i].monitor_index == m
                    ==> #[trigger] self.clients@[i] == before.clients@[i],
        ensures
            self.tiled_on(m as int) == before.tiled_on(m as int),
            self.rectangles(m as int) == before.rectangles(m as int),
            self.tile_commands(m as int) == before.tile_commands(m as int),
            forall|client: Client|
                client.monitor_index == m ==> #[trigger] self.tiled_client(client)
                    == before.tiled_client(client),
    {
        self.lemma_same_but_geometry(before);
        let order = before.monitors@[m as int].clients@;
        self.lemma_same_among(before, Pick::Tiled(m), order, order.len() as int);
        self.lemma_same_tiles(before, m, before.tiled_on(m as int).len() as int);
    }

    /// Such a state issues the same commands for the tiled windows.
    proof fn lemma_same_tiles(self, before: WindowManager, m: usize, count: int)
        requires
            before.wf(),
            self.same_but_geometry(before),
            m < before.monitors@.len(),
            count <= before.tiled_on(m as int).len(),
            self.tiled_on(m as int) == before.tiled_on(m as int),
            self.rectangles(m as int) == before.rectangles(m as int),
            forall|i: int|
                0 <= i < self.clients@.len() && before.clients@[i].monitor_index == m
                    ==> #[trigger] self.clients@[i] == before.clients@[i],
        ensures
            self.tiles_upto(m as int, count) == before.tiles_upto(m as int, count),
        decreases count,
    {
        if count > 0 {
            self.lemma_same_tiles(before, m, count - 1);
            let window = before.tiled_on(m as int)[count - 1];
            before.lemma_among(
                Pick::Tiled(m),
                before.monitors@[m as int].clients@,
                before.monitors@[m as int].clients@.len() as int,
            );
            assert(before.tiled_on(m as int).contains(window));
            assert(before.picks(Pick::Tiled(m), window));
            self.lemma_same_client(before, m as int, window);
        }
    }

    /// The commands that arrange the tiled windows of the first `count`
    /// monitors.
    pub open spec fn tiling_upto(self, count: int) -> Seq<Command>
        decreases count,
    {
        if count <= 0 {
            Seq::empty()
        } else {
            self.tiling_upto(count - 1) + self.tile_commands(count - 1)
        }
    }

    /// The state after the tiled windows of all monitors are arranged,
    /// against the state before.
    pub open spec fn after_tiling_all(self, before: WindowManager) -> bool {
        &&& self.same_but_geometry(before)
        &&& forall|i: int|
            0 <= i < self.clients@.len() ==> #[trigger] self.clients@[i] == before.tiled_client(
                before.clients@[i],
            )
    }

    /// Gives the tiled windows of every monitor the rectangles of the
    /// layout in force.
    pub fn tile_all(&mut self, out: &mut Vec<Command>)
        requires
            old(self).wf(),
        ensures
            final(self).wf(),
            old(self).consistent() ==> final(self).consistent(),
            old(self).orderly() ==> final(self).orderly(),
            final(self).after_tiling_all(*old(self)),
            final(out)@ == old(out)@ + old(self).tiling_upto(old(self).monitors@.len() as int),
    {
        let ghost before = *self;
        let ghost issued = out@;
        let count = self.monitors.len();
        let mut m: usize = 0;
        assert(before.same_but_geometry(before));
        while m < count
            invariant
                before.wf(),
                self.wf(),
                before.consistent() ==> self.consistent(),
                before.orderly() ==> self.orderly(),
                count == before.monitors@.len(),
                m <= count,
                self.same_but_geometry(before),
                forall|i: int|
                    0 <= i < self.clients@.len() ==> #[trigger] self.clients@[i] == if before.clients@[i].monitor_index
                        < m {
                        before.tiled_client(before.clients@[i])
                    } else {
                        before.clients@[i]
                    },
                out@ == issued + before.tiling_upto(m as int),
            decreases count - m,
        {
            let ghost mid = *self;
            proof {
                self.lemma_same_tiling(before, m);
            }
            self.tile_monitor(m, out);
            proof {
                assert forall|i: int| 0 <= i < self.clients@.len() implies (
                #[trigger] self.clients@[i]).same_but_geometry(before.clients@[i]) by {
                    assert(self.clients@[i].same_but_geometry(mid.clients@[i]));
                    assert(mid.clients@[i].same_but_geometry(before.clients@[i]));
                }
                assert forall|i: int| 0 <= i < self.clients@.len() implies #[trigger] self.clients@[i]
                    == if before.clients@[i].monitor_index < m + 1 {
                    before.tiled_client(before.clients@[i])
                } else {
                    before.clients@[i]
                } by {
                    assert(mid.clients@[i].same_but_geometry(before.clients@[i]));
                }
                assert(mid.tile_commands(m as int) == before.tile_commands(m as int));
                assert(out@ =~= issued + before.tiling_upto(m + 1));
            }
            m += 1;
        }
        proof {
            assert forall|i: int| 0 <= i < self.clients@.len() implies #[trigger] self.clients@[i]
                == before.tiled_client(before.clients@[i]) by {
                assert(before.clients@[i].wf());
            }
        }
    }

    /// The outer gaps in force, horizontal and vertical.
    pub open spec fn outer_gaps(self) -> (u32, u32) {
        if self.gaps_enabled {
            (self.config.gap_outer_horizontal, self.config.gap_outer_vertical)
        } else {
            (0, 0)
        }
    }

    /// Height that the bar takes at the top of a monitor.
    pub open spec fn bar_space(self) -> u32 {
        if self.show_bar {
            self.bar_height
        } else {
            0
        }
    }

    /// Computes `bar_space`.
    pub fn bar_space_of(&self) -> (space: u32)
        ensures
            space == self.bar_space(),
    {
        if self.show_bar {
            self.bar_height
        } else {
            0
        }
    }

    /// Monitor `m` has a window that gets a tab.
    pub open spec fn has_tabs(self, m: int) -> bool {
        self.all_among(Pick::Tabbed(m as usize), self.windows()).len() > 0
    }

    /// The command that puts the strip of tabs of monitor `m` in place:
    /// inside the outer gaps, below the bar.
    pub open spec fn tab_bar_place(self, m: int) -> Command {
        let monitor = self.monitors@[m];
        Command::MoveTabBar {
            monitor: m as usize,
            x: held(monitor.screen_x + self.outer_gaps().0) as i32,
            y: held(monitor.screen_y + self.bar_space() + self.outer_gaps().1) as i32,
            width: held(monitor.screen_width - 2 * self.outer_gaps().0) as i32,
        }
    }

    /// The commands for the strips of tabs after an arrangement.  Under the
    /// tabbed layout every strip is put in place, the strips of monitors
    /// with a tabbed window are shown and the strips are drawn; under
    /// another layout every strip is hidden.
    pub open spec fn tab_commands(self) -> Seq<Command> {
        let tabbed = self.layout == LayoutType::Tabbed;
        (if tabbed {
            Seq::new(self.monitors@.len(), |m: int| self.tab_bar_place(m))
        } else {
            Seq::empty()
        }) + Seq::new(
            self.monitors@.len(),
            |m: int| Command::ShowTabBar { monitor: m as usize, shown: tabbed && self.has_tabs(m) },
        ) + (if tabbed {
            seq![Command::UpdateTabBars]
        } else {
            Seq::empty()
        })
    }

    /// Issues the commands for the strips of tabs.
    pub fn arrange_tab_bars(&self, out: &mut Vec<Command>)
        requires
            self.wf(),
        ensures
            final(out)@ == old(out)@ + self.tab_commands(),
    {
        let ghost issued = out@;
        let tabbed = match self.layout {
            LayoutType::Tabbed => true,
            _ => false,
        };
        let count = self.monitors.len();
        if tabbed {
            let outer_h: i64 = if self.gaps_enabled {
                self.config.gap_outer_horizontal as i64
            } else {
                0
            };
            let outer_v: i64 = if self.gaps_enabled {
                self.config.gap_outer_vertical as i64
            } else {
                0
            };
            let space: i64 = self.bar_space_of() as i64;
            let mut m: usize = 0;
            while m < count
                invariant
                    count == self.monitors@.len(),
                    m <= count,
                    outer_h == self.outer_gaps().0,
                    outer_v == self.outer_gaps().1,
                    space == self.bar_space(),
                    out@ == issued + Seq::new(m as nat, |k: int| self.tab_bar_place(k)),
                decreases count - m,
            {
                let monitor = &self.monitors[m];
                out.push(
                    Command::MoveTabBar {
                        monitor: m,
                        x: hold(monitor.screen_x as i64 + outer_h),
                        y: hold(monitor.screen_y as i64 + space + outer_v),
                        width: hold(monitor.screen_width as i64 - 2 * outer_h),
                    },
                );
                assert(out@ =~= issued + Seq::new((m + 1) as nat, |k: int| self.tab_bar_place(k)));
                m += 1;
            }
        }
        let ghost placed = out@;
        let mut m: usize = 0;
        while m < count
            invariant
                self.wf(),
                count == self.monitors@.len(),
                m <= count,
                tabbed == (self.layout == LayoutType::Tabbed),
                out@ == placed + Seq::new(
                    m as nat,
                    |k: int|
                        Command::ShowTabBar { monitor: k as usize, shown: tabbed && self.has_tabs(k) },
                ),
            decreases count - m,
        {
            let shown = tabbed && self.tab_windows(m).len() > 0;
            out.push(Command::ShowTabBar { monitor: m, shown });
            assert(out@ =~= placed + Seq::new(
                (m + 1) as nat,
                |k: int|
                    Command::ShowTabBar { monitor: k as usize, shown: tabbed && self.has_tabs(k) },
            ));
            m += 1;
        }
        if tabbed {
            out.push(Command::UpdateTabBars);
        }
        assert(out@ =~= issued + self.tab_commands());
    }

    /// The commands of an arrangement that goes through the states `first`
    /// and `second` to end in the state `last`.
    pub open spec fn arrange_commands(
        self,
        first: WindowManager,
        second: WindowManager,
        last: WindowManager,
    ) -> Seq<Command> {
        let count = self.monitors@.len() as int;
        self.showhide_upto(count) + (if self.layout == LayoutType::Normie {
            Seq::empty()
        } else {
            first.tiling_upto(count)
        }) + second.showhide_upto(count) + last.tab_commands()
    }

    /// The state after an arrangement, against the state before: the
    /// arrangement goes through the states `first` and `second`.  First
    /// the windows of every monitor are shown or hidden and the free ones
    /// held to the geometry rules; then, unless the layout arranges
    /// nothing, the tiled windows of every monitor get their rectangles;
    /// then the windows are shown or hidden once more.
    pub open spec fn arranged_through(
        self,
        before: WindowManager,
        first: WindowManager,
        second: WindowManager,
    ) -> bool {
        &&& first.after_showhide_all(before)
        &&& if before.layout == LayoutType::Normie {
            second == first
        } else {
            second.after_tiling_all(first)
        }
        &&& self.after_showhide_all(second)
    }

    /// Arranges the windows of all monitors.
    pub fn apply_layout(&mut self, out: &mut Vec<Command>)
        requires
            old(self).wf(),
        ensures
            final(self).wf(),
            old(self).consistent() ==> final(self).consistent(),
            old(self).orderly() ==> final(self).orderly(),
            final(self).same_but_geometry(*old(self)),
            exists|first: WindowManager, second: WindowManager|
                #![auto]
                final(self).arranged_through(*old(self), first, second) && final(out)@ == old(out)@
                    + old(self).arrange_commands(first, second, *final(self)),
    {
        let ghost before = *self;
        let ghost issued = out@;
        self.showhide_all(out);
        let ghost first = *self;
        if !self.has_no_layout() {
            self.tile_all(out);
        }
        let ghost second = *self;
        self.showhide_all(out);
        self.arrange_tab_bars(out);
        proof {
            assert forall|i: int| 0 <= i < self.clients@.len() implies (
            #[trigger] self.clients@[i]).same_but_geometry(before.clients@[i]) by {
                assert(self.clients@[i].same_but_geometry(second.clients@[i]));
                assert(second.clients@[i].same_but_geometry(first.clients@[i]));
                assert(first.clients@[i].same_but_geometry(before.clients@[i]));
            }
            assert(self.arranged_through(before, first, second));
            assert(out@ =~= issued + before.arrange_commands(first, second, *self));
        }
    }
}

} // verus!
