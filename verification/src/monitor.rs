//! One display output: its rectangles, its two tag sets, the parameters of
//! its master area, and its two orderings of windows.

use vstd::prelude::*;
use crate::client::Rect;
use crate::client::hold;
use crate::client::hold_length;
use crate::client::held;
use crate::tags::MAX_TAGS;
use crate::tags::TagMask;
use crate::tags::Window;
use crate::tags::tag_mask;
use crate::window_list::WindowList;

verus! {

/// Least and greatest share of the width that the master area can take, in
/// hundredths.
pub const MIN_MASTER_FACTOR: u32 = 5;

pub const MAX_MASTER_FACTOR: u32 = 95;

/// One display output.  The share of the master area and the number of
/// masters are kept for the monitor as a whole, not for each tag: a change
/// of view carries them over as they are.
#[derive(Debug)]
pub struct Monitor {
    /// Share of the width that the master area takes, in hundredths.
    pub master_factor: u32,
    pub num_master: i32,
    pub monitor_number: usize,
    pub screen_x: i32,
    pub screen_y: i32,
    pub screen_width: i32,
    pub screen_height: i32,
    pub window_area_x: i32,
    pub window_area_y: i32,
    pub window_area_width: i32,
    pub window_area_height: i32,
    pub selected_tags_index: usize,
    pub tagset: [TagMask; 2],
    pub show_bar: bool,
    /// Tiling order.
    pub clients: WindowList,
    /// Focus order, the most recently focused window first.
    pub stack: WindowList,
    pub selected_client: Option<Window>,
}

impl Monitor {
    /// The tag-set toggle names a slot, neither tag set is empty and no
    /// window occurs twice in an ordering.
    pub open spec fn wf(self) -> bool {
        &&& self.selected_tags_index < 2
        &&& self.tagset[0] != 0
        &&& self.tagset[1] != 0
        &&& self.clients.wf()
        &&& self.stack.wf()
    }

    /// The tag set in view.
    pub open spec fn selected_tags(self) -> TagMask {
        self.tagset[self.selected_tags_index as int]
    }

    /// The tag set that was in view before.
    pub open spec fn previous_tags(self) -> TagMask {
        self.tagset[1 - self.selected_tags_index]
    }

    /// The whole screen of the monitor.
    pub open spec fn screen(self) -> Rect {
        Rect {
            x: self.screen_x,
            y: self.screen_y,
            width: self.screen_width,
            height: self.screen_height,
        }
    }

    /// The part of the screen that windows can take.
    pub open spec fn window_area(self) -> Rect {
        Rect {
            x: self.window_area_x,
            y: self.window_area_y,
            width: self.window_area_width,
            height: self.window_area_height,
        }
    }

    /// A monitor for the screen rectangle given, showing tag 0, with one
    /// master window that takes 55 hundredths of the width, and no window.
    pub fn new(x: i32, y: i32, width: u32, height: u32) -> (monitor: Monitor)
        ensures
            monitor.wf(),
            monitor.screen() == (Rect {
                x,
                y,
                width: held(width as int) as i32,
                height: held(height as int) as i32,
            }),
            monitor.window_area() == monitor.screen(),
            monitor.master_factor == 55,
            monitor.num_master == 1,
            monitor.monitor_number == 0,
            monitor.selected_tags_index == 0,
            monitor.tagset[0] == 1 && monitor.tagset[1] == 1,
            monitor.show_bar,
            monitor.clients@ == Seq::<Window>::empty(),
            monitor.stack@ == Seq::<Window>::empty(),
            monitor.selected_client.is_none(),
    {
        let screen_width = hold_length(width);
        let screen_height = hold_length(height);
        Monitor {
            master_factor: 55,
            num_master: 1,
            monitor_number: 0,
            screen_x: x,
            screen_y: y,
            screen_width,
            screen_height,
            window_area_x: x,
            window_area_y: y,
            window_area_width: screen_width,
            window_area_height: screen_height,
            selected_tags_index: 0,
            tagset: [1, 1],
            show_bar: true,
            clients: WindowList::new(),
            stack: WindowList::new(),
            selected_client: None,
        }
    }

    /// The point lies on the screen of the monitor.
    pub open spec fn covers(self, x: i32, y: i32) -> bool {
        x >= self.screen_x && x < self.screen_x + self.screen_width && y >= self.screen_y && y
            < self.screen_y + self.screen_height
    }

    pub fn contains_point(&self, x: i32, y: i32) -> (inside: bool)
        ensures
            inside == self.covers(x, y),
    {
        x >= self.screen_x && (x as i64) < self.screen_x as i64 + self.screen_width as i64 && y
            >= self.screen_y && (y as i64) < self.screen_y as i64 + self.screen_height as i64
    }

    pub fn get_selected_tag(&self) -> (tags: TagMask)
        requires
            self.selected_tags_index < 2,
        ensures
            tags == self.selected_tags(),
    {
        self.tagset[self.selected_tags_index]
    }

    /// Area of the part of the rectangle that lies in the window area.
    pub open spec fn overlap(self, x: i32, y: i32, width: i32, height: i32) -> int {
        let right = if x + width < self.window_area_x + self.window_area_width {
            x + width
        } else {
            self.window_area_x + self.window_area_width
        };
        let left = if x > self.window_area_x {
            x as int
        } else {
            self.window_area_x as int
        };
        let bottom = if y + height < self.window_area_y + self.window_area_height {
            y + height
        } else {
            self.window_area_y + self.window_area_height
        };
        let top = if y > self.window_area_y {
            y as int
        } else {
            self.window_area_y as int
        };
        (if right > left {
            right - left
        } else {
            0
        }) * (if bottom > top {
            bottom - top
        } else {
            0
        })
    }

    /// Computes `overlap`.
    pub fn overlap_with(&self, x: i32, y: i32, width: i32, height: i32) -> (area: i128)
        ensures
            area == self.overlap(x, y, width, height),
            area >= 0,
    {
        let far_x: i64 = self.window_area_x as i64 + self.window_area_width as i64;
        let far_y: i64 = self.window_area_y as i64 + self.window_area_height as i64;
        let right: i64 = if x as i64 + (width as i64) < far_x {
            x as i64 + width as i64
        } else {
            far_x
        };
        let left: i64 = if x > self.window_area_x {
            x as i64
        } else {
            self.window_area_x as i64
        };
        let bottom: i64 = if y as i64 + (height as i64) < far_y {
            y as i64 + height as i64
        } else {
            far_y
        };
        let top: i64 = if y > self.window_area_y {
            y as i64
        } else {
            self.window_area_y as i64
        };
        let across: i64 = if right > left {
            right - left
        } else {
            0
        };
        let down: i64 = if bottom > top {
            bottom - top
        } else {
            0
        };
        assert(0 <= across * down <= 0x2_0000_0000 * 0x2_0000_0000) by (nonlinear_arith)
            requires
                0 <= across <= 0x2_0000_0000,
                0 <= down <= 0x2_0000_0000,
        ;
        (across as i128) * (down as i128)
    }

    /// The tag sets after tag `tag_index` is brought into view.  Where the
    /// tag alone is in view already, the two slots change places if
    /// `back_and_forth` is set, and nothing happens otherwise; else the
    /// toggle turns to the other slot, which takes the tag.
    pub open spec fn viewing(
        self,
        tag_index: usize,
        back_and_forth: bool) -> (usize, TagMask, TagMask,
    ) {
        let mask = 1u32 << tag_index;
        if mask == self.selected_tags() {
            if back_and_forth {
                (self.selected_tags_index, self.tagset[1], self.tagset[0])
            } else {
                (self.selected_tags_index, self.tagset[0], self.tagset[1])
            }
        } else if self.selected_tags_index == 0 {
            (1, self.tagset[0], mask)
        } else {
            (0, mask, self.tagset[1])
        }
    }

    /// Brings tag `tag_index` into view.  Tells whether the view was
    /// touched: it is not where the tag alone is in view and
    /// `back_and_forth` is off.
    pub fn view_tag(&mut self, tag_index: usize, back_and_forth: bool) -> (touched: bool)
        requires
            old(self).wf(),
            tag_index < MAX_TAGS,
        ensures
            final(self).wf(),
            final(self).selected_tags_index == old(self).viewing(tag_index, back_and_forth).0,
            final(self).tagset[0] == old(self).viewing(tag_index, back_and_forth).1,
            final(self).tagset[1] == old(self).viewing(tag_index, back_and_forth).2,
            touched == !((1u32 << tag_index) == old(self).selected_tags() && !back_and_forth),
            final(self).same_but_tags(*old(self)),
    {
        let mask = tag_mask(tag_index);
        let first = self.tagset[0];
        let second = self.tagset[1];
        if mask == self.tagset[self.selected_tags_index] {
            if !back_and_forth {
                return false;
            }
            self.tagset = [second, first];
        } else if self.selected_tags_index == 0 {
            self.selected_tags_index = 1;
            self.tagset = [first, mask];
        } else {
            self.selected_tags_index = 0;
            self.tagset = [mask, second];
        }
        true
    }

    /// Everything but the tag sets and their toggle is as in `other`.
    pub open spec fn same_but_tags(self, other: Monitor) -> bool {
        self == (Monitor {
            selected_tags_index: self.selected_tags_index,
            tagset: self.tagset,
            ..other
        })
    }

    /// The tag set in view after tag `tag_index` is toggled in it: the bit
    /// is flipped, unless that would leave no tag in view.
    pub open spec fn toggled(self, tag_index: usize) -> TagMask {
        if self.selected_tags() ^ (1u32 << tag_index) == 0 {
            self.selected_tags()
        } else {
            self.selected_tags() ^ (1u32 << tag_index)
        }
    }

    /// Toggles tag `tag_index` in the view; the last tag in view cannot be
    /// toggled off.  Tells whether the view changed.
    pub fn toggleview(&mut self, tag_index: usize) -> (touched: bool)
        requires
            old(self).wf(),
            tag_index < MAX_TAGS,
        ensures
            final(self).wf(),
            final(self).selected_tags() == old(self).toggled(tag_index),
            final(self).selected_tags() != 0,
            final(self).selected_tags_index == old(self).selected_tags_index,
            final(self).previous_tags() == old(self).previous_tags(),
            touched == (old(self).selected_tags() ^ (1u32 << tag_index) != 0),
            final(self).same_but_tags(*old(self)),
    {
        let mask = tag_mask(tag_index);
        let first = self.tagset[0];
        let second = self.tagset[1];
        let new_tagset = self.tagset[self.selected_tags_index] ^ mask;
        if new_tagset == 0 {
            return false;
        }
        if self.selected_tags_index == 0 {
            self.tagset = [new_tagset, second];
        } else {
            self.tagset = [first, new_tagset];
        }
        true
    }

    /// The master factor after `delta` hundredths are added: held between 5
    /// and 95 hundredths.
    pub open spec fn factor_after(self, delta: i32) -> u32 {
        if self.master_factor + delta < MIN_MASTER_FACTOR {
            MIN_MASTER_FACTOR
        } else if self.master_factor + delta > MAX_MASTER_FACTOR {
            MAX_MASTER_FACTOR
        } else {
            (self.master_factor + delta) as u32
        }
    }

    pub fn set_master_factor(&mut self, delta: i32)
        ensures
            *final(self) == (Monitor { master_factor: old(self).factor_after(delta), ..*old(self) }),
            MIN_MASTER_FACTOR <= final(self).master_factor <= MAX_MASTER_FACTOR,
    {
        let sum: i64 = self.master_factor as i64 + delta as i64;
        self.master_factor = if sum < MIN_MASTER_FACTOR as i64 {
            MIN_MASTER_FACTOR
        } else if sum > MAX_MASTER_FACTOR as i64 {
            MAX_MASTER_FACTOR
        } else {
            sum as u32
        };
    }

    /// The number of master windows after `delta` is added: never negative.
    pub open spec fn masters_after(self, delta: i32) -> i32 {
        if self.num_master + delta < 0 {
            0
        } else {
            held(self.num_master + delta) as i32
        }
    }

    pub fn inc_num_master(&mut self, delta: i32)
        ensures
            *final(self) == (Monitor { num_master: old(self).masters_after(delta), ..*old(self) }),
            final(self).num_master >= 0,
    {
        let sum: i64 = self.num_master as i64 + delta as i64;
        self.num_master = if sum < 0 {
            0
        } else {
            hold(sum)
        };
    }

    /// The monitor with its window area set: the screen, less a bar of
    /// `bar_height` pixels at its top while the bar is shown.
    pub open spec fn with_window_area(self, bar_height: u32) -> Monitor {
        Monitor {
            window_area_x: self.screen_x,
            window_area_y: held(self.screen_y + self.bar_space(bar_height)) as i32,
            window_area_width: self.screen_width,
            window_area_height: held(self.screen_height - self.bar_space(bar_height)) as i32,
            ..self
        }
    }

    /// The monitor with its bar shown or hidden, and its window area set
    /// to match.
    pub open spec fn with_bar(self, shown: bool, bar_height: u32) -> Monitor {
        (Monitor { show_bar: shown, ..self }).with_window_area(bar_height)
    }

    /// Shows or hides the bar and sets the window area to match.
    pub fn set_bar(&mut self, shown: bool, bar_height: u32)
        ensures
            *final(self) == old(self).with_bar(shown, bar_height),
    {
        self.show_bar = shown;
        self.update_window_area(bar_height);
    }

    /// Only the rectangles and the bar flag may differ from `other`.
    pub open spec fn same_but_area(self, other: Monitor) -> bool {
        self == (Monitor {
            screen_x: self.screen_x,
            screen_y: self.screen_y,
            screen_width: self.screen_width,
            screen_height: self.screen_height,
            window_area_x: self.window_area_x,
            window_area_y: self.window_area_y,
            window_area_width: self.window_area_width,
            window_area_height: self.window_area_height,
            show_bar: self.show_bar,
            ..other
        })
    }

    /// Sets the window area: the screen, less a bar of `bar_height` pixels
    /// at its top while the bar is shown.
    pub fn update_window_area(&mut self, bar_height: u32)
        ensures
            *final(self) == old(self).with_window_area(bar_height),
    {
        let space: i64 = if self.show_bar {
            bar_height as i64
        } else {
            0
        };
        self.window_area_x = self.screen_x;
        self.window_area_y = hold(self.screen_y as i64 + space);
        self.window_area_width = self.screen_width;
        self.window_area_height = hold(self.screen_height as i64 - space);
    }

    /// Height that the bar takes from the screen.
    pub open spec fn bar_space(self, bar_height: u32) -> int {
        if self.show_bar {
            bar_height as int
        } else {
            0
        }
    }
}

/// A screen as the display server reports it.
#[derive(Clone, Copy, Debug, PartialEq, Eq, Structural)]
pub struct ScreenInfo {
    pub x_org: i16,
    pub y_org: i16,
    pub width: u16,
    pub height: u16,
}

/// The screen has an extent.
pub open spec fn usable(screen: ScreenInfo) -> bool {
    screen.width > 0 && screen.height > 0
}

/// Screen `first` may stand before screen `second`: it lies higher, or as
/// high and not further right.
pub open spec fn stands_before(first: ScreenInfo, second: ScreenInfo) -> bool {
    first.y_org < second.y_org || (first.y_org == second.y_org && first.x_org <= second.x_org)
}

/// The screens are in order, from the top down and from left to right.
pub open spec fn in_order(screens: Seq<ScreenInfo>) -> bool {
    forall|i: int, j: int|
        0 <= i < j < screens.len() ==> stands_before(#[trigger] screens[i], #[trigger] screens[j])
}

/// `ordered` holds, in order and each once, the usable screens among the
/// first `count` of `screens`.
pub open spec fn orders(ordered: Seq<ScreenInfo>, screens: Seq<ScreenInfo>, count: int) -> bool {
    &&& in_order(ordered)
    &&& ordered.no_duplicates()
    &&& forall|screen: ScreenInfo|
        #[trigger] ordered.contains(screen) <==> (usable(screen) && screens.subrange(
            0,
            count,
        ).contains(screen))
}

/// Puts a screen into an ordered list of screens, unless it is there.
fn place_screen(ordered: &mut Vec<ScreenInfo>, screen: ScreenInfo)
    requires
        in_order(old(ordered)@),
        old(ordered)@.no_duplicates(),
    ensures
        in_order(final(ordered)@),
        final(ordered)@.no_duplicates(),
        forall|other: ScreenInfo|
            #[trigger] final(ordered)@.contains(other) <==> (old(ordered)@.contains(other) || other
                == screen),
{
    let mut place: usize = 0;
    let mut stop = false;
    while place < ordered.len() && !stop
        invariant
            place <= ordered@.len(),
            ordered@ == old(ordered)@,
            in_order(ordered@),
            ordered@.no_duplicates(),
            forall|k: int| 0 <= k < place ==> stands_before(#[trigger] ordered@[k], screen),
            forall|k: int| 0 <= k < place ==> ordered@[k] != screen,
            stop ==> place < ordered@.len() && !stands_before(ordered@[place as int], screen),
        decreases ordered@.len() - place + if stop {
            0int
        } else {
            1int
        },
    {
        let other = ordered[place];
        if other.x_org == screen.x_org && other.y_org == screen.y_org && other.width
            == screen.width && other.height == screen.height {
            assert(other == screen);
            assert(ordered@.contains(screen));
            return ;
        }
        let before = other.y_org < screen.y_org || (other.y_org == screen.y_org && other.x_org
            <= screen.x_org);
        if !before {
            stop = true;
        } else {
            place += 1;
        }
    }
    let ghost list = ordered@;
    proof {
        assert forall|k: int| place <= k < list.len() implies list[k] != screen
            && stands_before(screen, #[trigger] list[k]) by {
            assert(stop);
            if k > place {
                assert(stands_before(list[place as int], list[k]));
            }
        }
    }
    ordered.insert(place, screen);
    proof {
        let more = ordered@;
        assert(more =~= list.insert(place as int, screen));
        assert forall|i: int, j: int| 0 <= i < j < more.len() implies stands_before(
            #[trigger] more[i],
            #[trigger] more[j],
        ) by {
            let from_i = if i < place {
                i
            } else {
                i - 1
            };
            let from_j = if j < place {
                j
            } else {
                j - 1
            };
            if i != place && j != place {
                assert(stands_before(list[from_i], list[from_j]));
            } else if i == place {
                assert(stands_before(screen, list[from_j]));
            } else {
                assert(stands_before(list[from_i], screen));
            }
        }
        assert forall|i: int, j: int| 0 <= i < more.len() && 0 <= j < more.len() && i != j implies more[i]
            != more[j] by {
            let from_i = if i < place {
                i
            } else {
                i - 1
            };
            let from_j = if j < place {
                j
            } else {
                j - 1
            };
            if i != place && j != place {
                assert(list[from_i] != list[from_j]);
            } else if i == place {
                assert(list.contains(list[from_j]));
            } else {
                assert(list.contains(list[from_i]));
            }
        }
        assert forall|other: ScreenInfo| #[trigger]
            more.contains(other) <==> (list.contains(other) || other == screen) by {
            if more.contains(other) {
                let at = more.index_of(other);
                if at != place {
                    let from = if at < place {
                        at
                    } else {
                        at - 1
                    };
                    assert(list[from] == other);
                }
            }
            if list.contains(other) {
                let at = list.index_of(other);
                let to = if at < place {
                    at
                } else {
                    at + 1
                };
                assert(more[to] == other);
            }
            assert(more[place as int] == screen);
        }
    }
}

/// The usable screens in order, each once.
pub fn order_screens(screens: &[ScreenInfo]) -> (ordered: Vec<ScreenInfo>)
    ensures
        orders(ordered@, screens@, screens@.len() as int),
{
    let mut ordered: Vec<ScreenInfo> = Vec::new();
    let mut index: usize = 0;
    assert(screens@.subrange(0, 0) =~= Seq::<ScreenInfo>::empty());
    while index < screens.len()
        invariant
            index <= screens@.len(),
            orders(ordered@, screens@, index as int),
        decreases screens@.len() - index,
    {
        let screen = screens[index];
        let ghost sofar = ordered@;
        if screen.width > 0 && screen.height > 0 {
            place_screen(&mut ordered, screen);
        }
        proof {
            assert(screens@.subrange(0, index + 1) =~= screens@.subrange(0, index as int).push(
                screen,
            ));
            assert forall|other: ScreenInfo| #[trigger]
                ordered@.contains(other) <==> (usable(other) && screens@.subrange(
                    0,
                    index + 1,
                ).contains(other)) by {
                let shorter = screens@.subrange(0, index as int);
                let longer = screens@.subrange(0, index + 1);
                if longer.contains(other) {
                    let at = longer.index_of(other);
                    if at < index {
                        assert(shorter[at] == other);
                    }
                }
                if shorter.contains(other) {
                    let at = shorter.index_of(other);
                    assert(longer[at] == other);
                }
                assert(longer[index as int] == screen);
                assert(sofar.contains(other) <==> (usable(other) && shorter.contains(other)));
            }
        }
        index += 1;
    }
    ordered
}

/// The monitors for the screens that the display server reports: one for
/// each usable screen, each once, from the top down and from left to
/// right; or one for the whole root window where no screen is usable.
/// Each monitor has its number and a window area below a bar of
/// `bar_height` pixels.
pub fn detect_monitors(
    screens: &[ScreenInfo],
    root_width: u16,
    root_height: u16,
    bar_height: u32,
) -> (monitors: Vec<Monitor>)
    ensures
        monitors@.len() > 0,
        exists|ordered: Seq<ScreenInfo>|
            #![auto]
            orders(ordered, screens@, screens@.len() as int) && monitors_for(
                monitors@,
                if ordered.len() > 0 {
                    ordered
                } else {
                    seq![ScreenInfo { x_org: 0, y_org: 0, width: root_width, height: root_height }]
                },
                bar_height,
            ),
{
    let mut ordered = order_screens(screens);
    let ghost found = ordered@;
    if ordered.len() == 0 {
        ordered.push(ScreenInfo { x_org: 0, y_org: 0, width: root_width, height: root_height });
        assert(ordered@ =~= seq![
            ScreenInfo { x_org: 0, y_org: 0, width: root_width, height: root_height },
        ]);
    }
    let mut monitors: Vec<Monitor> = Vec::new();
    let mut index: usize = 0;
    while index < ordered.len()
        invariant
            index <= ordered@.len(),
            monitors@.len() == index,
            forall|k: int| 0 <= k < index ==> monitor_for(#[trigger] monitors@[k], ordered@[k], k, bar_height),
        decreases ordered@.len() - index,
    {
        let screen = ordered[index];
        let mut monitor = Monitor::new(
            screen.x_org as i32,
            screen.y_org as i32,
            screen.width as u32,
            screen.height as u32,
        );
        monitor.monitor_number = index;
        monitor.update_window_area(bar_height);
        monitors.push(monitor);
        index += 1;
    }
    assert(orders(found, screens@, screens@.len() as int));
    monitors
}

/// Monitor `monitor` is the one for screen `screen`, with the number
/// `number`: a new monitor on that screen, with a window area below a bar
/// of `bar_height` pixels.
pub open spec fn monitor_for(
    monitor: Monitor,
    screen: ScreenInfo,
    number: int,
    bar_height: u32,
) -> bool {
    &&& monitor.wf()
    &&& monitor.screen() == (Rect {
        x: screen.x_org as i32,
        y: screen.y_org as i32,
        width: screen.width as i32,
        height: screen.height as i32,
    })
    &&& monitor.window_area() == (Rect {
        x: screen.x_org as i32,
        y: held(screen.y_org + bar_height) as i32,
        width: screen.width as i32,
        height: held(screen.height - bar_height) as i32,
    })
    &&& monitor.monitor_number == number
    &&& monitor.master_factor == 55
    &&& monitor.num_master == 1
    &&& monitor.selected_tags_index == 0
    &&& monitor.tagset[0] == 1
    &&& monitor.tagset[1] == 1
    &&& monitor.show_bar
    &&& monitor.clients@ == Seq::<Window>::empty()
    &&& monitor.stack@ == Seq::<Window>::empty()
    &&& monitor.selected_client.is_none()
}

/// The monitors are those for the screens, in their order.
pub open spec fn monitors_for(
    monitors: Seq<Monitor>,
    screens: Seq<ScreenInfo>,
    bar_height: u32,
) -> bool {
    &&& monitors.len() == screens.len()
    &&& forall|k: int|
        0 <= k < monitors.len() ==> monitor_for(#[trigger] monitors[k], screens[k], k, bar_height)
}

} // verus!
