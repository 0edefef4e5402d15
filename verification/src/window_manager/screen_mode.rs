//! The fullscreen mode of the whole manager: the bars are hidden, gaps are
//! off, every window takes the screen under the monocle layout, and what
//! was before is put back when the mode ends.

use vstd::prelude::*;
use crate::client::Client;
use crate::client::held;
use crate::client::hold;
use crate::client::hold_length;
use crate::layout::LayoutType;
use crate::tags::Window;
use crate::window_manager::Command;
use crate::window_manager::Configure;
use crate::window_manager::SavedGeometry;
use crate::window_manager::WindowManager;
use crate::window_manager::configure_of;
use crate::window_manager::registry::Pick;

verus! {

/// The geometry of a client, to be put back later.
pub open spec fn saved_of(client: Client) -> SavedGeometry {
    SavedGeometry {
        window: client.window,
        x: client.x_position,
        y: client.y_position,
        width: client.width,
        height: client.height,
        border_width: client.border_width,
    }
}

/// The client with a saved geometry put back, if it was saved for its
/// window.
pub open spec fn put_back(client: Client, saved: SavedGeometry) -> Client {
    if saved.window == client.window {
        Client {
            x_position: saved.x,
            y_position: saved.y,
            width: saved.width,
            height: saved.height,
            border_width: saved.border_width,
            ..client
        }
    } else {
        client
    }
}

/// The client with the first `count` saved geometries put back in turn.
pub open spec fn restored(client: Client, saved: Seq<SavedGeometry>, count: int) -> Client
    decreases count,
{
    if count <= 0 {
        client
    } else {
        put_back(restored(client, saved, count - 1), saved[count - 1])
    }
}

/// Putting geometries back changes geometry only.
pub proof fn lemma_restored(client: Client, saved: Seq<SavedGeometry>, count: int)
    ensures
        restored(client, saved, count).same_but_geometry(client),
    decreases count,
{
    if count > 0 {
        lemma_restored(client, saved, count - 1);
    }
}

/// The command that puts a saved geometry back on its window.
pub open spec fn restore_command(saved: SavedGeometry) -> Command {
    Command::Configure(
        Configure {
            x: Some(saved.x),
            y: Some(saved.y),
            width: Some(saved.width),
            height: Some(saved.height),
            border_width: Some(saved.border_width),
            ..configure_of(saved.window)
        },
    )
}

/// The client has the geometry and the border width that were saved.
pub open spec fn holds(client: Client, saved: SavedGeometry) -> bool {
    &&& client.x_position == saved.x
    &&& client.y_position == saved.y
    &&& client.width == saved.width
    &&& client.height == saved.height
    &&& client.border_width == saved.border_width
}

impl WindowManager {
    /// The geometries of the visible windows, oldest window first.
    pub open spec fn snapshot(self) -> Seq<SavedGeometry> {
        self.all_among(Pick::Shown, self.windows()).map_values(
            |window: Window| saved_of(self.client(window)),
        )
    }

    /// Computes `snapshot`.
    pub fn take_snapshot(&self) -> (saved: Vec<SavedGeometry>)
        requires
            self.wf(),
        ensures
            saved@ == self.snapshot(),
    {
        let shown = self.collect_managed(Pick::Shown);
        let mut saved: Vec<SavedGeometry> = Vec::new();
        let mut index: usize = 0;
        proof {
            self.lemma_among(Pick::Shown, self.windows(), self.windows().len() as int);
        }
        while index < shown.len()
            invariant
                self.wf(),
                index <= shown@.len(),
                shown@ == self.all_among(Pick::Shown, self.windows()),
                forall|window: Window| #[trigger] shown@.contains(window) ==> self.has(window),
                saved@ == shown@.subrange(0, index as int).map_values(
                    |window: Window| saved_of(self.client(window)),
                ),
            decreases shown@.len() - index,
        {
            let window = shown[index];
            assert(shown@.contains(window));
            let at = self.find(window).unwrap();
            let client = &self.clients[at];
            saved.push(
                SavedGeometry {
                    window,
                    x: client.x_position,
                    y: client.y_position,
                    width: client.width,
                    height: client.height,
                    border_width: client.border_width,
                },
            );
            assert(saved@ =~= shown@.subrange(0, index + 1).map_values(
                |window: Window| saved_of(self.client(window)),
            ));
            index += 1;
        }
        assert(shown@.subrange(0, shown@.len() as int) =~= shown@);
        saved
    }

    /// The fullscreen mode can be switched: the selected monitor has a
    /// selected client.
    pub open spec fn mode_switches(self) -> bool {
        self.focused().is_some()
    }

    /// The state is `before` at the start of the fullscreen mode: the
    /// geometries of the visible windows are saved, the layout is kept as
    /// the last one and the monocle layout is in force, and gaps are off,
    /// their state kept in the configuration.
    pub open spec fn mode_begun(self, before: WindowManager) -> bool {
        &&& self.saved_geometry@ == before.snapshot()
        &&& self.last_layout == Some(before.layout)
        &&& self.layout == LayoutType::Monocle
        &&& !self.gaps_enabled
        &&& self.config.gaps_enabled == before.gaps_enabled
        &&& self.clients == before.clients
        &&& self.monitors == before.monitors
        &&& self.selected_monitor == before.selected_monitor
        &&& self.previous_focused == before.previous_focused
        &&& self.show_bar == before.show_bar
        &&& self.bar_height == before.bar_height
        &&& self.keychord_state == before.keychord_state
        &&& self.current_key == before.current_key
        &&& self.keyboard_mapping == before.keyboard_mapping
        &&& self.error_message == before.error_message
        &&& self.spawn_queue == before.spawn_queue
    }

    /// Begins the fullscreen mode, before anything is arranged.
    fn begin_mode(&mut self)
        requires
            old(self).wf(),
        ensures
            final(self).wf(),
            old(self).consistent() ==> final(self).consistent(),
            old(self).orderly() ==> final(self).orderly(),
            final(self).mode_begun(*old(self)),
            final(self).windows() == old(self).windows(),
    {
        let saved = self.take_snapshot();
        self.saved_geometry = saved;
        self.last_layout = Some(self.layout);
        self.layout = LayoutType::Monocle;
        self.config.gaps_enabled = self.gaps_enabled;
        self.gaps_enabled = false;
        proof {
            assert(self.same_shape(*old(self)));
            self.lemma_same_shape(*old(self));
            if old(self).consistent() {
                assert(self.same_members(*old(self)));
                self.lemma_consistent_carries(*old(self));
            }
        }
    }

    /// The commands that strip the borders of the windows whose geometry
    /// was saved.
    pub open spec fn strip_commands(self) -> Seq<Command> {
        self.saved_geometry@.map_values(
            |saved: SavedGeometry|
                Command::Configure(
                    Configure { border_width: Some(0), ..configure_of(saved.window) },
                ),
        )
    }

    /// The command that lets a floating window take the screen of its
    /// monitor inside the outer gaps in force and its own border.
    pub open spec fn stretch_command(self, client: Client) -> Command {
        let monitor = self.monitors@[client.monitor_index as int];
        let border = held(self.config.border_width as int);
        Command::Configure(
            Configure {
                x: Some(held(monitor.screen_x + self.outer_gaps().0) as i32),
                y: Some(held(monitor.screen_y + self.outer_gaps().1) as i32),
                width: Some(
                    held(monitor.screen_width - 2 * self.outer_gaps().0 - 2 * border) as i32,
                ),
                height: Some(
                    held(monitor.screen_height - 2 * self.outer_gaps().1 - 2 * border) as i32,
                ),
                ..configure_of(client.window)
            },
        )
    }

    /// The commands that stretch the floating windows among the first
    /// `count` windows whose geometry was saved.
    pub open spec fn stretches_upto(self, count: int) -> Seq<Command>
        decreases count,
    {
        if count <= 0 {
            Seq::empty()
        } else {
            let window = self.saved_geometry@[count - 1].window;
            self.stretches_upto(count - 1) + (if self.has(window) && self.client(
                window,
            ).is_floating {
                seq![self.stretch_command(self.client(window))]
            } else {
                Seq::empty()
            })
        }
    }

    /// Issues `strip_commands`, then the commands that stretch the
    /// floating windows.
    fn cover_screens(&self, out: &mut Vec<Command>)
        requires
            self.wf(),
        ensures
            final(out)@ == old(out)@ + self.strip_commands() + self.stretches_upto(
                self.saved_geometry@.len() as int,
            ),
    {
        let ghost issued = out@;
        let count = self.saved_geometry.len();
        let mut index: usize = 0;
        while index < count
            invariant
                count == self.saved_geometry@.len(),
                index <= count,
                out@ == issued + self.strip_commands().subrange(0, index as int),
            decreases count - index,
        {
            let mut request = crate::window_manager::configure(self.saved_geometry[index].window);
            request.border_width = Some(0);
            out.push(Command::Configure(request));
            assert(out@ =~= issued + self.strip_commands().subrange(0, index + 1));
            index += 1;
        }
        assert(self.strip_commands().subrange(0, count as int) =~= self.strip_commands());
        let ghost stripped = out@;
        let border: i64 = hold_length(self.config.border_width) as i64;
        let outer_h: i64 = if self.gaps_enabled {
            self.config.gap_outer_horizontal as i64
        } else {
            0
        };
        let outer_v: i64 = if self.gaps_enabled {
            self.config.gap_outer_vertical as i64
        } else {
            0
        };
        let mut index: usize = 0;
        while index < count
            invariant
                self.wf(),
                count == self.saved_geometry@.len(),
                index <= count,
                border == held(self.config.border_width as int),
                outer_h == self.outer_gaps().0,
                outer_v == self.outer_gaps().1,
                out@ == stripped + self.stretches_upto(index as int),
            decreases count - index,
        {
            let window = self.saved_geometry[index].window;
            match self.find(window) {
                Some(at) => {
                    let client = &self.clients[at];
                    if client.is_floating {
                        let monitor = &self.monitors[client.monitor_index];
                        let mut request = crate::window_manager::configure(window);
                        request.x = Some(hold(monitor.screen_x as i64 + outer_h));
                        request.y = Some(hold(monitor.screen_y as i64 + outer_v));
                        request.width = Some(
                            hold(monitor.screen_width as i64 - 2 * outer_h - 2 * border),
                        );
                        request.height = Some(
                            hold(monitor.screen_height as i64 - 2 * outer_v - 2 * border),
                        );
                        out.push(Command::Configure(request));
                    }
                },
                None => {},
            }
            assert(out@ =~= stripped + self.stretches_upto(index + 1));
            index += 1;
        }
        assert(out@ =~= issued + self.strip_commands() + self.stretches_upto(count as int));
    }

    /// The state is `before` at the end of the fullscreen mode: the last
    /// layout is in force again, gaps are as the configuration kept them,
    /// the saved geometries are put back on their clients and forgotten.
    pub open spec fn mode_ended(self, before: WindowManager) -> bool {
        &&& self.settings_restored(before)
        &&& self.clients@.len() == before.clients@.len()
        &&& forall|i: int|
            0 <= i < self.clients@.len() ==> #[trigger] self.clients@[i] == restored(
                before.clients@[i],
                before.saved_geometry@,
                before.saved_geometry@.len() as int,
            )
    }

    /// The settings at the end of the fullscreen mode, against those
    /// before: the last layout is in force again, gaps are as the
    /// configuration kept them, and no geometry is saved.
    pub open spec fn settings_restored(self, before: WindowManager) -> bool {
        &&& self.saved_geometry@ == Seq::<SavedGeometry>::empty()
        &&& self.layout == match before.last_layout {
            Some(layout) => layout,
            None => before.layout,
        }
        &&& self.gaps_enabled == before.config.gaps_enabled
        &&& self.config == before.config
        &&& self.last_layout == before.last_layout
        &&& self.monitors == before.monitors
        &&& self.selected_monitor == before.selected_monitor
        &&& self.previous_focused == before.previous_focused
        &&& self.show_bar == before.show_bar
        &&& self.bar_height == before.bar_height
        &&& self.keychord_state == before.keychord_state
        &&& self.current_key == before.current_key
        &&& self.keyboard_mapping == before.keyboard_mapping
        &&& self.error_message == before.error_message
        &&& self.spawn_queue == before.spawn_queue
    }

    /// The commands that put the saved geometries back.
    pub open spec fn restore_commands(self) -> Seq<Command> {
        self.saved_geometry@.map_values(|saved: SavedGeometry| restore_command(saved))
    }

    /// Puts one saved geometry back on its client, if it has one.
    fn put_back_one(&mut self, saved: &SavedGeometry)
        requires
            old(self).wf(),
        ensures
            final(self).clients@.len() == old(self).clients@.len(),
            forall|i: int|
                0 <= i < final(self).clients@.len() ==> #[trigger] final(self).clients@[i]
                    == put_back(old(self).clients@[i], *saved),
            *final(self) == (WindowManager { clients: final(self).clients, ..*old(self) }),
    {
        match self.find(saved.window) {
            Some(index) => {
                self.clients[index].x_position = saved.x;
                self.clients[index].y_position = saved.y;
                self.clients[index].width = saved.width;
                self.clients[index].height = saved.height;
                self.clients[index].border_width = saved.border_width;
                proof {
                    assert forall|i: int| 0 <= i < self.clients@.len() implies #[trigger] self.clients@[i]
                        == put_back(old(self).clients@[i], *saved) by {
                        if i != index {
                            assert(old(self).windows()[i] == old(self).clients@[i].window);
                            assert(old(self).windows()[index as int] == saved.window);
                        }
                    }
                }
            },
            None => {
                proof {
                    assert forall|i: int| 0 <= i < self.clients@.len() implies #[trigger] self.clients@[i]
                        == put_back(old(self).clients@[i], *saved) by {
                        assert(old(self).windows()[i] == old(self).clients@[i].window);
                        assert(old(self).windows().contains(old(self).clients@[i].window));
                    }
                }
            },
        }
    }

    /// Ends the fullscreen mode, before anything is arranged.
    fn end_mode(&mut self, out: &mut Vec<Command>)
        requires
            old(self).wf(),
        ensures
            final(self).wf(),
            old(self).consistent() ==> final(self).consistent(),
            old(self).orderly() ==> final(self).orderly(),
            final(self).mode_ended(*old(self)),
            final(self).windows() == old(self).windows(),
            final(out)@ == old(out)@ + old(self).restore_commands(),
    {
        let ghost before = *self;
        let ghost issued = out@;
        match self.last_layout {
            Some(layout) => {
                self.layout = layout;
            },
            None => {},
        }
        self.gaps_enabled = self.config.gaps_enabled;
        let saved = self.take_saved();
        let mut index: usize = 0;
        while index < saved.len()
            invariant
                before.wf(),
                self.wf(),
                index <= saved@.len(),
                saved@ == before.saved_geometry@,
                self.clients@.len() == before.clients@.len(),
                forall|i: int|
                    0 <= i < self.clients@.len() ==> #[trigger] self.clients@[i] == restored(
                        before.clients@[i],
                        saved@,
                        index as int,
                    ),
                self.settings_restored(before),
                out@ == issued + before.restore_commands().subrange(0, index as int),
            decreases saved@.len() - index,
        {
            let entry = saved[index];
            let mut request = crate::window_manager::configure(entry.window);
            request.x = Some(entry.x);
            request.y = Some(entry.y);
            request.width = Some(entry.width);
            request.height = Some(entry.height);
            request.border_width = Some(entry.border_width);
            out.push(Command::Configure(request));
            let ghost mid = *self;
            self.put_back_one(&entry);
            proof {
                assert(out@ =~= issued + before.restore_commands().subrange(0, index + 1));
                assert forall|i: int| 0 <= i < self.clients@.len() implies #[trigger] self.clients@[i]
                    == restored(before.clients@[i], saved@, index + 1) by {
                    assert(self.clients@[i] == put_back(mid.clients@[i], entry));
                }
                self.lemma_restored_state(before, saved@, index + 1);
            }
            index += 1;
        }
        proof {
            assert(before.restore_commands().subrange(0, saved@.len() as int)
                =~= before.restore_commands());
            self.lemma_restored_state(before, saved@, saved@.len() as int);
            assert(self.same_shape(before));
            self.lemma_same_shape(before);
            if before.consistent() {
                assert(self.same_members(before));
                self.lemma_consistent_carries(before);
            }
            if before.orderly() {
                assert(self.same_view(before)) by {
                    assert forall|i: int| 0 <= i < self.clients@.len() implies (
                    #[trigger] self.clients@[i]).tags == before.clients@[i].tags by {
                        lemma_restored(before.clients@[i], saved@, saved@.len() as int);
                    }
                }
                assert(self.same_selection_but(before, -1));
                self.lemma_orderly_carries(before);
            }
        }
    }

    /// Takes the saved geometries and leaves none.
    fn take_saved(&mut self) -> (saved: Vec<SavedGeometry>)
        ensures
            saved@ == old(self).saved_geometry@,
            final(self).saved_geometry@ == Seq::<SavedGeometry>::empty(),
            *final(self) == (WindowManager {
                saved_geometry: final(self).saved_geometry,
                ..*old(self)
            }),
    {
        let mut saved: Vec<SavedGeometry> = Vec::new();
        std::mem::swap(&mut self.saved_geometry, &mut saved);
        saved
    }

    /// A state whose clients are those of `before` with geometries put
    /// back is well formed.
    proof fn lemma_restored_state(
        self,
        before: WindowManager,
        saved: Seq<SavedGeometry>,
        count: int,
    )
        requires
            before.wf(),
            self.monitors == before.monitors,
            self.selected_monitor == before.selected_monitor,
            self.clients@.len() == before.clients@.len(),
            forall|i: int|
                0 <= i < self.clients@.len() ==> #[trigger] self.clients@[i] == restored(
                    before.clients@[i],
                    saved,
                    count,
                ),
        ensures
            self.wf(),
            self.same_shape(before),
    {
        assert forall|i: int| 0 <= i < self.clients@.len() implies (#[trigger] self.clients@[i]).wf()
            && self.clients@[i].monitor_index < self.monitors@.len() && self.clients@[i].window
            == before.clients@[i].window && self.clients@[i].monitor_index
            == before.clients@[i].monitor_index by {
            lemma_restored(before.clients@[i], saved, count);
            assert(before.clients@[i].wf());
        }
        assert(self.same_shape(before));
        self.lemma_same_shape(before);
    }

    /// The state after the fullscreen mode was switched, against the state
    /// before, with the commands issued.  While the bars are shown the
    /// mode begins: the bars are hidden and the windows arranged, twice,
    /// then the borders of the windows are stripped and the floating
    /// windows stretched over their screens.  While the bars are hidden
    /// the mode ends: the saved geometries are put back, the bars are
    /// shown and the windows arranged.
    pub open spec fn mode_switched(
        self,
        before: WindowManager,
        issued: Seq<Command>,
        all: Seq<Command>,
    ) -> bool {
        if before.show_bar {
            exists|
                begun: WindowManager,
                switched: WindowManager,
                first: WindowManager,
                second: WindowManager,
                arranged: WindowManager,
                third: WindowManager,
                fourth: WindowManager,
            |
                #![auto]
                begun.mode_begun(before) && switched.bars_set(begun, false)
                    && arranged.arranged_through(switched, first, second) && self.arranged_through(
                    arranged,
                    third,
                    fourth,
                ) && all == issued + begun.bar_commands(false) + switched.arrange_commands(
                    first,
                    second,
                    arranged,
                ) + arranged.arrange_commands(third, fourth, self) + self.strip_commands()
                    + self.stretches_upto(self.saved_geometry@.len() as int)
        } else {
            exists|
                ended: WindowManager,
                switched: WindowManager,
                first: WindowManager,
                second: WindowManager,
            |
                #![auto]
                ended.mode_ended(before) && switched.bars_set(ended, true) && self.arranged_through(
                    switched,
                    first,
                    second,
                ) && all == issued + before.restore_commands() + ended.bar_commands(true)
                    + switched.arrange_commands(first, second, self)
        }
    }

    /// Switches the fullscreen mode of the manager.  Nothing happens
    /// without a selected client.
    pub fn fullscreen(&mut self, out: &mut Vec<Command>)
        requires
            old(self).wf(),
        ensures
            final(self).wf(),
            old(self).consistent() ==> final(self).consistent(),
            old(self).orderly() ==> final(self).orderly(),
            !old(self).mode_switches() ==> *final(self) == *old(self) && final(out)@ == old(out)@,
            old(self).mode_switches() ==> final(self).mode_switched(
                *old(self),
                old(out)@,
                final(out)@,
            ),
    {
        if self.monitors[self.selected_monitor].selected_client.is_none() {
            return ;
        }
        let ghost before = *self;
        let ghost issued = out@;
        if self.show_bar {
            self.begin_mode();
            let ghost begun = *self;
            self.set_bars(false, out);
            let ghost switched = *self;
            let ghost bars_out = out@;
            self.apply_layout(out);
            let ghost arranged = *self;
            let ghost arranged_out = out@;
            self.apply_layout(out);
            let ghost again_out = out@;
            self.cover_screens(out);
            proof {
                let (first, second) = choose|first: WindowManager, second: WindowManager|
                    #![auto]
                    arranged.arranged_through(switched, first, second) && arranged_out == bars_out
                        + switched.arrange_commands(first, second, arranged);
                let (third, fourth) = choose|third: WindowManager, fourth: WindowManager|
                    #![auto]
                    self.arranged_through(arranged, third, fourth) && again_out == arranged_out
                        + arranged.arrange_commands(third, fourth, *self);
                assert(out@ =~= issued + begun.bar_commands(false) + switched.arrange_commands(
                    first,
                    second,
                    arranged,
                ) + arranged.arrange_commands(third, fourth, *self) + self.strip_commands()
                    + self.stretches_upto(self.saved_geometry@.len() as int));
                assert(begun.mode_begun(before));
            }
        } else {
            self.end_mode(out);
            let ghost ended = *self;
            let ghost restored_out = out@;
            self.set_bars(true, out);
            let ghost switched = *self;
            let ghost bars_out = out@;
            self.apply_layout(out);
            proof {
                let (first, second) = choose|first: WindowManager, second: WindowManager|
                    #![auto]
                    self.arranged_through(switched, first, second) && out@ == bars_out
                        + switched.arrange_commands(first, second, *self);
                assert(out@ =~= issued + before.restore_commands() + ended.bar_commands(true)
                    + switched.arrange_commands(first, second, *self));
                assert(ended.mode_ended(before));
            }
        }
    }

    /// The state arises from `ended`, the state in which the saved
    /// geometries were put back, when the bars are shown and the windows
    /// arranged.
    pub open spec fn resumes(self, ended: WindowManager) -> bool {
        exists|switched: WindowManager, first: WindowManager, second: WindowManager|
            #![auto]
            switched.bars_set(ended, true) && self.arranged_through(switched, first, second)
    }

    /// The mode that began in this state ends through the state `ended`:
    /// the commands of the switch that ends it begin with those that put
    /// back, on every window visible in this state, the geometry and the
    /// border width that it has here; in `ended` the clients of these
    /// windows hold them, and `after` arises from `ended`.
    pub open spec fn put_back_in(
        self,
        ended: WindowManager,
        after: WindowManager,
        issued: Seq<Command>,
        rest: Seq<Command>,
        all: Seq<Command>,
    ) -> bool {
        &&& after.resumes(ended)
        &&& all == issued + self.snapshot().map_values(
            |saved: SavedGeometry| restore_command(saved),
        ) + rest
        &&& ended.clients@.len() == self.clients@.len()
        &&& forall|i: int|
            0 <= i < self.clients@.len() && self.visible(self.clients@[i].window) ==> holds(
                #[trigger] ended.clients@[i],
                saved_of(self.clients@[i]),
            )
    }

    /// The geometry rules leave the geometry of the client as it is while
    /// the bars are shown.
    pub open spec fn rests(self, client: Client) -> bool {
        !client.constrained(
            self.monitors@[client.monitor_index as int].with_bar(
                true,
                self.bar_height,
            ).window_area(),
            true,
            client.x_position,
            client.y_position,
            client.width,
            client.height,
        ).changed
    }

    /// A floating client whose geometry the rules leave as it is comes out
    /// of an arrangement as it went in.
    pub proof fn lemma_arrangement_spares(
        self,
        before: WindowManager,
        first: WindowManager,
        second: WindowManager,
        i: int,
    )
        requires
            before.wf(),
            self.arranged_through(before, first, second),
            0 <= i < before.clients@.len(),
            before.clients@[i].is_floating,
            !before.own_size(before.clients@[i]).changed,
        ensures
            self.clients@[i] == before.clients@[i],
    {
        let client = before.clients@[i];
        let m = client.monitor_index as int;
        first.lemma_same_but_geometry(before);
        assert(first.clients@[i] == before.placed_client(client));
        assert(!before.settles(client));
        assert(first.clients@[i] == client);
        if before.layout != LayoutType::Normie {
            assert(second.clients@[i] == first.tiled_client(client));
            let tiled = first.tiled_on(m);
            crate::window_manager::focus::lemma_position_from(tiled, client.window, 0);
            match crate::window_manager::focus::position_from(tiled, client.window, 0) {
                Some(at) => {
                    assert(tiled.contains(client.window));
                    first.lemma_among(
                        Pick::Tiled(m as usize),
                        first.monitors@[m].clients@,
                        first.monitors@[m].clients@.len() as int,
                    );
                    first.lemma_place(i);
                    assert(first.client(client.window) == client);
                    assert(false);
                },
                None => {},
            }
            second.lemma_same_but_geometry(first);
        }
        assert(second.clients@[i] == client);
        assert(self.clients@[i] == second.placed_client(client));
        assert(second.own_size(client) == before.own_size(client));
        assert(!second.settles(client));
    }

    /// An arrangement leaves a floating client its border width.
    pub proof fn lemma_arrangement_keeps_border(
        self,
        before: WindowManager,
        first: WindowManager,
        second: WindowManager,
        i: int,
    )
        requires
            before.wf(),
            self.arranged_through(before, first, second),
            0 <= i < before.clients@.len(),
            before.clients@[i].is_floating,
        ensures
            self.clients@[i].border_width == before.clients@[i].border_width,
    {
        let client = before.clients@[i];
        let m = client.monitor_index as int;
        first.lemma_same_but_geometry(before);
        assert(first.clients@[i] == before.placed_client(client));
        let placed = first.clients@[i];
        assert(placed.border_width == client.border_width);
        assert(placed.same_but_geometry(client));
        if before.layout != LayoutType::Normie {
            assert(second.clients@[i] == first.tiled_client(placed));
            let tiled = first.tiled_on(m);
            crate::window_manager::focus::lemma_position_from(tiled, placed.window, 0);
            match crate::window_manager::focus::position_from(tiled, placed.window, 0) {
                Some(at) => {
                    assert(tiled.contains(placed.window));
                    first.lemma_among(
                        Pick::Tiled(m as usize),
                        first.monitors@[m].clients@,
                        first.monitors@[m].clients@.len() as int,
                    );
                    first.lemma_place(i);
                    assert(first.client(placed.window) == placed);
                    assert(false);
                },
                None => {},
            }
            second.lemma_same_but_geometry(first);
        }
        assert(second.clients@[i] == placed);
        assert(self.clients@[i] == second.placed_client(placed));
    }

    /// An arrangement changes geometry only.
    pub proof fn lemma_arranged_frame(
        self,
        before: WindowManager,
        first: WindowManager,
        second: WindowManager,
    )
        requires
            before.wf(),
            self.arranged_through(before, first, second),
        ensures
            self.wf(),
            self.same_but_geometry(before),
    {
        first.lemma_same_but_geometry(before);
        if before.layout != LayoutType::Normie {
            second.lemma_same_but_geometry(first);
        }
        self.lemma_same_but_geometry(second);
        assert forall|i: int| 0 <= i < self.clients@.len() implies (
        #[trigger] self.clients@[i]).same_but_geometry(before.clients@[i]) by {
            assert(first.clients@[i].same_but_geometry(before.clients@[i]));
            assert(second.clients@[i].same_but_geometry(first.clients@[i]));
            assert(self.clients@[i].same_but_geometry(second.clients@[i]));
        }
    }

    /// Showing or hiding the bars keeps a state well formed, with the
    /// selected client of every monitor.
    pub proof fn lemma_bars_frame(self, before: WindowManager, shown: bool)
        requires
            before.wf(),
            self.bars_set(before, shown),
        ensures
            self.wf(),
            self.focused() == before.focused(),
            self.windows() == before.windows(),
    {
        assert forall|m: int| 0 <= m < self.monitors@.len() implies (#[trigger] self.monitors@[m]).wf()
            && self.monitors@[m].selected_client == before.monitors@[m].selected_client by {
            assert(before.monitors@[m].wf());
        }
    }

    /// The saved geometries of the visible windows, put back on a client
    /// with the window of a managed one: the client holds what was saved
    /// for its window if that is among the first `count` visible ones, and
    /// is as it was otherwise.
    pub proof fn lemma_snapshot_put_back(self, client: Client, count: int)
        requires
            self.wf(),
            0 <= count <= self.snapshot().len(),
        ensures
            self.all_among(Pick::Shown, self.windows()).subrange(0, count).contains(client.window)
                ==> holds(
                restored(client, self.snapshot(), count),
                saved_of(self.client(client.window)),
            ),
            !self.all_among(Pick::Shown, self.windows()).subrange(0, count).contains(
                client.window,
            ) ==> restored(client, self.snapshot(), count) == client,
        decreases count,
    {
        let shown = self.all_among(Pick::Shown, self.windows());
        if count > 0 {
            self.lemma_snapshot_put_back(client, count - 1);
            self.lemma_among(Pick::Shown, self.windows(), self.windows().len() as int);
            let window = shown[count - 1];
            let shorter = shown.subrange(0, count - 1);
            let longer = shown.subrange(0, count);
            assert(shown.contains(window));
            self.lemma_place(self.place(window));
            let entry = self.snapshot()[count - 1];
            assert(entry == saved_of(self.client(window)));
            assert(entry.window == window);
            assert(restored(client, self.snapshot(), count) == put_back(
                restored(client, self.snapshot(), count - 1),
                entry,
            ));
            lemma_restored(client, self.snapshot(), count - 1);
            assert(longer =~= shorter.push(window));
            if window != client.window {
                if longer.contains(client.window) {
                    let at = longer.index_of(client.window);
                    assert(longer[at] == client.window);
                    assert(at < count - 1);
                    assert(shorter[at] == client.window);
                    assert(shorter.contains(client.window));
                } else if shorter.contains(client.window) {
                    let at = shorter.index_of(client.window);
                    assert(longer[at] == client.window);
                }
            } else {
                assert(longer[count - 1] == client.window);
                assert(longer.contains(client.window));
            }
        } else {
            assert(shown.subrange(0, 0).len() == 0);
        }
    }

    /// The state is in the fullscreen mode that began in `start`: the bars
    /// are hidden, the geometries of the windows visible in `start` are
    /// saved, its layout and the state of its gaps are kept, and the
    /// clients and monitors are those of `start` but for geometry, bar and
    /// window area.
    pub open spec fn in_mode_of(self, start: WindowManager) -> bool {
        &&& self.wf()
        &&& !self.show_bar
        &&& self.bar_height == start.bar_height
        &&& self.saved_geometry@ == start.snapshot()
        &&& self.last_layout == Some(start.layout)
        &&& self.config.gaps_enabled == start.gaps_enabled
        &&& self.selected_monitor == start.selected_monitor
        &&& self.monitors@.len() == start.monitors@.len()
        &&& forall|m: int|
            0 <= m < self.monitors@.len() ==> #[trigger] self.monitors@[m]
                == start.monitors@[m].with_bar(false, start.bar_height)
        &&& self.clients@.len() == start.clients@.len()
        &&& forall|i: int|
            0 <= i < self.clients@.len() ==> (#[trigger] self.clients@[i]).same_but_geometry(
                start.clients@[i],
            )
    }

    /// The switch that begins the mode leads into it.
    proof fn lemma_mode_goes(
        self,
        begun: WindowManager,
        hidden: WindowManager,
        first: WindowManager,
        second: WindowManager,
        arranged: WindowManager,
        third: WindowManager,
        fourth: WindowManager,
        during: WindowManager,
    )
        requires
            self.wf(),
            begun.mode_begun(self),
            hidden.bars_set(begun, false),
            arranged.arranged_through(hidden, first, second),
            during.arranged_through(arranged, third, fourth),
        ensures
            during.in_mode_of(self),
    {
        assert(begun.wf()) by {
            assert(begun.same_shape(self));
            begun.lemma_same_shape(self);
        }
        hidden.lemma_bars_frame(begun, false);
        arranged.lemma_arranged_frame(hidden, first, second);
        during.lemma_arranged_frame(arranged, third, fourth);
        assert forall|i: int| 0 <= i < during.clients@.len() implies (
        #[trigger] during.clients@[i]).same_but_geometry(self.clients@[i]) by {
            assert(begun.clients@[i] == self.clients@[i]);
            assert(hidden.clients@[i] == begun.clients@[i]);
            assert(arranged.clients@[i].same_but_geometry(hidden.clients@[i]));
            assert(during.clients@[i].same_but_geometry(arranged.clients@[i]));
        }
    }

    /// The end of the mode puts back what its beginning saved: every
    /// client of a window that was visible in `start` holds the geometry
    /// and border width that it had there, and differs from its client in
    /// `start` in geometry only.
    proof fn lemma_mode_ends(self, start: WindowManager, during: WindowManager)
        requires
            start.wf(),
            during.in_mode_of(start),
            self.mode_ended(during),
        ensures
            self.wf(),
            self.layout == start.layout,
            self.gaps_enabled == start.gaps_enabled,
            self.saved_geometry@ == Seq::<SavedGeometry>::empty(),
            self.bar_height == start.bar_height,
            self.monitors == during.monitors,
            self.selected_monitor == start.selected_monitor,
            self.clients@.len() == start.clients@.len(),
            forall|i: int|
                0 <= i < self.clients@.len() ==> (#[trigger] self.clients@[i]).same_but_geometry(
                    start.clients@[i],
                ),
            forall|i: int|
                0 <= i < start.clients@.len() && start.visible(start.clients@[i].window) ==> holds(
                    #[trigger] self.clients@[i],
                    saved_of(start.clients@[i]),
                ),
    {
        self.lemma_restored_state(
            during,
            during.saved_geometry@,
            during.saved_geometry@.len() as int,
        );
        start.lemma_among(Pick::Shown, start.windows(), start.windows().len() as int);
        let visible = start.all_among(Pick::Shown, start.windows());
        assert(visible.subrange(0, visible.len() as int) =~= visible);
        assert(start.windows().subrange(0, start.windows().len() as int) =~= start.windows());
        assert forall|i: int| 0 <= i < self.clients@.len() implies (
        #[trigger] self.clients@[i]).same_but_geometry(start.clients@[i]) by {
            lemma_restored(
                during.clients@[i],
                during.saved_geometry@,
                during.saved_geometry@.len() as int,
            );
            assert(during.clients@[i].same_but_geometry(start.clients@[i]));
        }
        assert forall|i: int|
            0 <= i < start.clients@.len() && start.visible(start.clients@[i].window) implies holds(
            #[trigger] self.clients@[i],
            saved_of(start.clients@[i]),
        ) by {
            let window = start.clients@[i].window;
            start.lemma_place(i);
            assert(during.clients@[i].same_but_geometry(start.clients@[i]));
            assert(visible.contains(window));
            start.lemma_snapshot_put_back(during.clients@[i], visible.len() as int);
            assert(start.snapshot().len() == visible.len());
        }
    }

    /// A client that rests in `start`, and has the geometry it had there
    /// when the mode has ended, is left as it is when the bars are shown
    /// again and the windows arranged.
    proof fn lemma_rests_after(
        self,
        start: WindowManager,
        during: WindowManager,
        ended: WindowManager,
        shown: WindowManager,
        first: WindowManager,
        second: WindowManager,
        i: int,
    )
        requires
            start.wf(),
            during.in_mode_of(start),
            ended.wf(),
            ended.monitors == during.monitors,
            ended.bar_height == start.bar_height,
            ended.clients@.len() == start.clients@.len(),
            shown.bars_set(ended, true),
            self.arranged_through(shown, first, second),
            0 <= i < start.clients@.len(),
            holds(ended.clients@[i], saved_of(start.clients@[i])),
            ended.clients@[i].same_but_geometry(start.clients@[i]),
            start.clients@[i].is_floating,
            start.rests(start.clients@[i]),
        ensures
            self.clients@[i] == ended.clients@[i],
    {
        let client = start.clients@[i];
        let m = client.monitor_index as int;
        shown.lemma_bars_frame(ended, true);
        assert(client.monitor_index < start.monitors@.len());
        assert(during.monitors@[m] == start.monitors@[m].with_bar(false, start.bar_height));
        assert(shown.monitors@[m] == ended.monitors@[m].with_bar(true, ended.bar_height));
        assert(shown.monitors@[m].window_area() == start.monitors@[m].with_bar(
            true,
            start.bar_height,
        ).window_area());
        assert(shown.clients@[i] == ended.clients@[i]);
        self.lemma_arrangement_spares(shown, first, second, i);
    }

    /// Round trip of the fullscreen mode: two switches in a row, the first
    /// made while the bars are shown.  In between the bars are hidden and
    /// a client is still selected, so the second switch ends the mode.
    /// After it the bars are shown, the layout and the gaps are those from
    /// before the first switch, no geometry is saved, the same client is
    /// selected and every client is as before but for its geometry.  The
    /// second switch begins by configuring every window that was visible
    /// before the first back to the geometry and the border width that it
    /// had then; the clients hold these in the state `ended`, from which
    /// the bars are shown and the windows arranged.  A floating window
    /// among them whose geometry the rules leave as it is has that
    /// geometry and border width again after the second switch.
    pub proof fn lemma_mode_round_trip(
        self,
        during: WindowManager,
        after: WindowManager,
        issued: Seq<Command>,
        between: Seq<Command>,
        resumed: Seq<Command>,
        all: Seq<Command>,
    )
        requires
            self.wf(),
            self.show_bar,
            self.mode_switches(),
            during.mode_switched(self, issued, between),
            after.mode_switched(during, resumed, all),
        ensures
            !during.show_bar,
            during.mode_switches(),
            after.wf(),
            after.show_bar,
            after.layout == self.layout,
            after.gaps_enabled == self.gaps_enabled,
            after.saved_geometry@ == Seq::<SavedGeometry>::empty(),
            after.focused() == self.focused(),
            after.clients@.len() == self.clients@.len(),
            forall|i: int|
                0 <= i < after.clients@.len() ==> (#[trigger] after.clients@[i]).same_but_geometry(
                    self.clients@[i],
                ),
            exists|ended: WindowManager, rest: Seq<Command>|
                #[trigger] self.put_back_in(ended, after, resumed, rest, all),
            forall|i: int|
                0 <= i < self.clients@.len() && self.clients@[i].is_floating && self.visible(
                    self.clients@[i].window,
                ) && self.rests(self.clients@[i]) ==> holds(
                    #[trigger] after.clients@[i],
                    saved_of(self.clients@[i]),
                ),
    {
        let (begun, hidden, first, second, arranged, third, fourth) = choose|
            begun: WindowManager,
            hidden: WindowManager,
            first: WindowManager,
            second: WindowManager,
            arranged: WindowManager,
            third: WindowManager,
            fourth: WindowManager,
        |
            #![auto]
            begun.mode_begun(self) && hidden.bars_set(begun, false) && arranged.arranged_through(
                hidden,
                first,
                second,
            ) && during.arranged_through(arranged, third, fourth) && between == issued
                + begun.bar_commands(false) + hidden.arrange_commands(first, second, arranged)
                + arranged.arrange_commands(third, fourth, during) + during.strip_commands()
                + during.stretches_upto(during.saved_geometry@.len() as int);
        self.lemma_mode_goes(begun, hidden, first, second, arranged, third, fourth, during);
        assert(during.focused() == self.focused()) by {
            assert(during.monitors@[self.selected_monitor as int]
                == self.monitors@[self.selected_monitor as int].with_bar(false, self.bar_height));
        }
        let (ended, shown, fifth, sixth) = choose|
            ended: WindowManager,
            shown: WindowManager,
            fifth: WindowManager,
            sixth: WindowManager,
        |
            #![auto]
            ended.mode_ended(during) && shown.bars_set(ended, true) && after.arranged_through(
                shown,
                fifth,
                sixth,
            ) && all == resumed + during.restore_commands() + ended.bar_commands(true)
                + shown.arrange_commands(fifth, sixth, after);
        ended.lemma_mode_ends(self, during);
        shown.lemma_bars_frame(ended, true);
        after.lemma_arranged_frame(shown, fifth, sixth);
        let rest = ended.bar_commands(true) + shown.arrange_commands(fifth, sixth, after);
        assert(all =~= resumed + self.snapshot().map_values(
            |saved: SavedGeometry| restore_command(saved),
        ) + rest);
        assert(after.resumes(ended));
        assert(self.put_back_in(ended, after, resumed, rest, all));
        assert(after.focused() == self.focused()) by {
            assert(shown.focused() == ended.focused());
            assert(ended.focused() == during.focused());
        }
        assert forall|i: int| 0 <= i < after.clients@.len() implies (
        #[trigger] after.clients@[i]).same_but_geometry(self.clients@[i]) by {
            assert(ended.clients@[i].same_but_geometry(self.clients@[i]));
            assert(shown.clients@[i] == ended.clients@[i]);
            assert(after.clients@[i].same_but_geometry(shown.clients@[i]));
        }
        assert forall|i: int|
            0 <= i < self.clients@.len() && self.clients@[i].is_floating && self.visible(
                self.clients@[i].window,
            ) && self.rests(self.clients@[i]) implies holds(
            #[trigger] after.clients@[i],
            saved_of(self.clients@[i]),
        ) by {
            assert(holds(ended.clients@[i], saved_of(self.clients@[i])));
            assert(ended.clients@[i].same_but_geometry(self.clients@[i]));
            after.lemma_rests_after(self, during, ended, shown, fifth, sixth, i);
        }
    }
}

} // verus!
