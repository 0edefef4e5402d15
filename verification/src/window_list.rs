//! An ordering of windows in which no window occurs twice: the tiling order
//! and the focus order of a monitor are such lists.

use vstd::prelude::*;
use crate::tags::Window;

verus! {

/// `list` without `window`, the order of the others kept.
pub open spec fn without(list: Seq<Window>, window: Window) -> Seq<Window> {
    if list.contains(window) {
        list.remove(list.index_of(window))
    } else {
        list
    }
}

/// `list` with `window` put in at `place`.
pub open spec fn with_at(list: Seq<Window>, place: int, window: Window) -> Seq<Window> {
    list.insert(place, window)
}

/// Taking a window out of a list without duplicates leaves a list without
/// duplicates that holds the other windows and not this one.
pub proof fn lemma_without(list: Seq<Window>, window: Window)
    requires
        list.no_duplicates(),
    ensures
        without(list, window).no_duplicates(),
        !without(list, window).contains(window),
        forall|other: Window|
            other != window ==> (#[trigger] without(list, window).contains(other)
                <==> list.contains(other)),
        list.contains(window) ==> without(list, window).len() == list.len() - 1,
        !list.contains(window) ==> without(list, window) == list,
{
    if list.contains(window) {
        let place = list.index_of(window);
        let rest = list.remove(place);
        assert forall|i: int, j: int| 0 <= i < rest.len() && 0 <= j < rest.len() && i != j implies rest[i]
            != rest[j] by {
            let from_i = if i < place {
                i
            } else {
                i + 1
            };
            let from_j = if j < place {
                j
            } else {
                j + 1
            };
            assert(rest[i] == list[from_i]);
            assert(rest[j] == list[from_j]);
        }
        if rest.contains(window) {
            let at = rest.index_of(window);
            let from = if at < place {
                at
            } else {
                at + 1
            };
            assert(list[from] == window);
            assert(list[place] == window);
        }
        assert forall|other: Window| other != window implies (#[trigger] rest.contains(other)
            <==> list.contains(other)) by {
            if rest.contains(other) {
                let at = rest.index_of(other);
                let from = if at < place {
                    at
                } else {
                    at + 1
                };
                assert(list[from] == other);
            }
            if list.contains(other) {
                let at = list.index_of(other);
                let to = if at < place {
                    at
                } else {
                    at - 1
                };
                assert(rest[to] == other);
            }
        }
    }
}

/// Putting an absent window into a list without duplicates leaves a list
/// without duplicates that holds it and the others.
pub proof fn lemma_with_at(list: Seq<Window>, place: int, window: Window)
    requires
        list.no_duplicates(),
        !list.contains(window),
        0 <= place <= list.len(),
    ensures
        with_at(list, place, window).no_duplicates(),
        with_at(list, place, window).contains(window),
        with_at(list, place, window)[place] == window,
        forall|other: Window|
            other != window ==> (#[trigger] with_at(list, place, window).contains(other)
                <==> list.contains(other)),
        with_at(list, place, window).len() == list.len() + 1,
        without(with_at(list, place, window), window) == list,
{
    let more = list.insert(place, window);
    assert forall|i: int, j: int| 0 <= i < more.len() && 0 <= j < more.len() && i != j implies more[i]
        != more[j] by {
        if i != place && j != place {
            let from_i = if i < place {
                i
            } else {
                i - 1
            };
            let from_j = if j < place {
                j
            } else {
                j - 1
            };
            assert(more[i] == list[from_i]);
            assert(more[j] == list[from_j]);
        } else if i == place {
            let from_j = if j < place {
                j
            } else {
                j - 1
            };
            assert(more[j] == list[from_j]);
            assert(list.contains(list[from_j]));
        } else {
            let from_i = if i < place {
                i
            } else {
                i - 1
            };
            assert(more[i] == list[from_i]);
            assert(list.contains(list[from_i]));
        }
    }
    assert(more[place] == window);
    assert forall|other: Window| other != window implies (#[trigger] more.contains(other)
        <==> list.contains(other)) by {
        if more.contains(other) {
            let at = more.index_of(other);
            let from = if at < place {
                at
            } else {
                at - 1
            };
            assert(list[from] == other);
        }
        if list.contains(other) {
            let at = list.index_of(other);
            let to = if at < place {
                at
            } else {
                at + 1
            };
            assert(more[to] == other);
        }
    }
    assert(more.index_of(window) == place);
    assert(more.remove(place) =~= list);
}

/// `list` with the windows at the places `first` and `second` exchanged.
pub open spec fn swapped(list: Seq<Window>, first: int, second: int) -> Seq<Window> {
    list.update(first, list[second]).update(second, list[first])
}

/// Exchanging two windows of a list without duplicates leaves a list
/// without duplicates that holds the same windows.
pub proof fn lemma_swapped(list: Seq<Window>, first: int, second: int)
    requires
        list.no_duplicates(),
        0 <= first < list.len(),
        0 <= second < list.len(),
    ensures
        swapped(list, first, second).no_duplicates(),
        swapped(list, first, second).len() == list.len(),
        forall|window: Window|
            #[trigger] swapped(list, first, second).contains(window) <==> list.contains(window),
{
    let after = swapped(list, first, second);
    let from = |i: int|
        if i == first {
            second
        } else if i == second {
            first
        } else {
            i
        };
    assert forall|i: int| 0 <= i < after.len() implies after[i] == list[from(i)] by {}
    assert forall|i: int, j: int| 0 <= i < after.len() && 0 <= j < after.len() && i != j implies after[i]
        != after[j] by {
        assert(after[i] == list[from(i)]);
        assert(after[j] == list[from(j)]);
    }
    assert forall|window: Window| #[trigger] after.contains(window) <==> list.contains(window) by {
        if after.contains(window) {
            let at = after.index_of(window);
            assert(list[from(at)] == window);
        }
        if list.contains(window) {
            let at = list.index_of(window);
            assert(after[from(at)] == window);
        }
    }
}

/// A list of windows without duplicates.
#[derive(Debug)]
pub struct WindowList {
    pub items: Vec<Window>,
}

impl View for WindowList {
    type V = Seq<Window>;

    open spec fn view(&self) -> Seq<Window> {
        self.items@
    }
}

impl WindowList {
    /// No window occurs twice.
    pub open spec fn wf(self) -> bool {
        self@.no_duplicates()
    }

    pub fn new() -> (list: WindowList)
        ensures
            list@ == Seq::<Window>::empty(),
            list.wf(),
    {
        WindowList { items: Vec::new() }
    }

    pub fn len(&self) -> (count: usize)
        ensures
            count == self@.len(),
    {
        self.items.len()
    }

    pub fn get(&self, place: usize) -> (window: Window)
        requires
            place < self@.len(),
        ensures
            window == self@[place as int],
    {
        self.items[place]
    }

    /// The first window, if any.
    pub fn head(&self) -> (first: Option<Window>)
        ensures
            first == if self@.len() > 0 {
                Some(self@[0])
            } else {
                None
            },
    {
        if self.items.len() > 0 {
            Some(self.items[0])
        } else {
            None
        }
    }

    /// Place of `window` in the list.
    pub fn position(&self, window: Window) -> (place: Option<usize>)
        ensures
            match place {
                Some(at) => at < self@.len() && self@[at as int] == window && forall|k: int|
                    0 <= k < at ==> self@[k] != window,
                None => !self@.contains(window),
            },
    {
        let mut index: usize = 0;
        while index < self.items.len()
            invariant
                index <= self@.len(),
                forall|k: int| 0 <= k < index ==> self@[k] != window,
            decreases self@.len() - index,
        {
            if self.items[index] == window {
                return Some(index);
            }
            index += 1;
        }
        None
    }

    pub fn contains(&self, window: Window) -> (found: bool)
        ensures
            found == self@.contains(window),
    {
        self.position(window).is_some()
    }

    /// The window after `window`, if `window` is listed and not the last.
    pub fn next(&self, window: Window) -> (after: Option<Window>)
        requires
            self.wf(),
        ensures
            after == if self@.contains(window) && self@.index_of(window) + 1 < self@.len() {
                Some(self@[self@.index_of(window) + 1])
            } else {
                None
            },
    {
        match self.position(window) {
            Some(at) => {
                assert(self@.index_of(window) == at);
                if at < self.items.len() - 1 {
                    Some(self.items[at + 1])
                } else {
                    None
                }
            },
            None => None,
        }
    }

    /// Takes `window` out of the list; a list that does not hold it is left
    /// as it is.  Tells whether the window was there.
    pub fn remove(&mut self, window: Window) -> (was_listed: bool)
        requires
            old(self).wf(),
        ensures
            final(self).wf(),
            final(self)@ == without(old(self)@, window),
            was_listed == old(self)@.contains(window),
            !final(self)@.contains(window),
            !was_listed ==> *final(self) == *old(self),
    {
        proof {
            lemma_without(self@, window);
        }
        match self.position(window) {
            Some(at) => {
                assert(self@.index_of(window) == at);
                self.items.remove(at);
                true
            },
            None => false,
        }
    }

    /// Puts `window` at `place`, after taking it out of the list if it was
    /// there; a place beyond the end is the end.
    pub fn insert(&mut self, place: usize, window: Window)
        requires
            old(self).wf(),
        ensures
            final(self).wf(),
            final(self)@ == with_at(
                without(old(self)@, window),
                if place <= without(old(self)@, window).len() {
                    place as int
                } else {
                    without(old(self)@, window).len() as int
                },
                window,
            ),
    {
        self.remove(window);
        let at: usize = if place <= self.items.len() {
            place
        } else {
            self.items.len()
        };
        proof {
            lemma_with_at(self@, at as int, window);
        }
        self.items.insert(at, window);
    }

    /// Puts `window` first, after taking it out of the list if it was there.
    pub fn push_front(&mut self, window: Window)
        requires
            old(self).wf(),
        ensures
            final(self).wf(),
            final(self)@ == with_at(without(old(self)@, window), 0, window),
            final(self)@[0] == window,
    {
        proof {
            lemma_without(self@, window);
            lemma_with_at(without(self@, window), 0, window);
        }
        self.insert(0, window);
    }

    /// Exchanges the windows at two places.
    pub fn swap(&mut self, first: usize, second: usize)
        requires
            old(self).wf(),
            first < old(self)@.len(),
            second < old(self)@.len(),
        ensures
            final(self).wf(),
            final(self)@ == swapped(old(self)@, first as int, second as int),
    {
        proof {
            lemma_swapped(self@, first as int, second as int);
        }
        let one = self.items[first];
        let other = self.items[second];
        self.items[first] = other;
        self.items[second] = one;
    }
}

} // verus!
