//! A list with a cursor.

use vstd::prelude::*;

verus! {

/// The cursor of a list: the index of the selected item, if one is
/// selected.
#[derive(Clone, Copy, Debug, PartialEq, Eq, Hash, Structural)]
pub struct ListState {
    pub selected: Option<usize>,
}

impl ListState {
    /// The index of the selected item.
    pub fn selected(&self) -> (index: Option<usize>)
        ensures
            index == self.selected,
    {
        self.selected
    }

    /// Puts the cursor on the item at `index`, or removes it for `None`.
    pub fn select(&mut self, index: Option<usize>)
        ensures
            final(self).selected == index,
    {
        self.selected = index;
    }
}

impl Default for ListState {
    fn default() -> (state: ListState)
        ensures
            state.selected is None,
    {
        ListState { selected: None }
    }
}

/// An ordered list of items, one of which may be selected. The cursor, if
/// there is one, is the index of the selected item.
#[derive(Debug, PartialEq, Eq, Hash)]
pub struct StatefulList<T> {
    pub state: ListState,
    pub items: Vec<T>,
}

/// The place of a cursor as a number.
pub open spec fn place(cursor: Option<usize>) -> Option<int> {
    match cursor {
        Some(i) => Some(i as int),
        None => None,
    }
}

/// Where the cursor stands after a step forward in a list of `len` items:
/// on the first item if there was no cursor, else one further, but never
/// past the last item. In an empty list the cursor does not move.
pub open spec fn after_next(cursor: Option<int>, len: int) -> Option<int> {
    if len <= 0 {
        cursor
    } else {
        match cursor {
            None => Some(0),
            Some(i) => if i + 1 >= len {
                Some(i)
            } else {
                Some(i + 1)
            },
        }
    }
}

/// Where the cursor stands after a step back in a list of `len` items: on
/// the first item if there was no cursor, else one back, but never before
/// the first item. In an empty list the cursor does not move.
pub open spec fn after_previous(cursor: Option<int>, len: int) -> Option<int> {
    if len <= 0 {
        cursor
    } else {
        match cursor {
            None => Some(0),
            Some(i) => if i <= 0 {
                Some(i)
            } else {
                Some(i - 1)
            },
        }
    }
}

/// Whether a cursor is one that a list of `len` items can have.
pub open spec fn in_range(cursor: Option<int>, len: int) -> bool {
    match cursor {
        Some(i) => 0 <= i < len,
        None => true,
    }
}

/// Where the cursor stands after `n` steps back.
pub open spec fn after_previous_times(cursor: Option<int>, len: int, n: nat) -> Option<int>
    decreases n,
{
    if n == 0 {
        cursor
    } else {
        after_previous(after_previous_times(cursor, len, (n - 1) as nat), len)
    }
}

/// Where the cursor stands after `n` steps forward.
pub open spec fn after_next_times(cursor: Option<int>, len: int, n: nat) -> Option<int>
    decreases n,
{
    if n == 0 {
        cursor
    } else {
        after_next(after_next_times(cursor, len, (n - 1) as nat), len)
    }
}

/// A step forward or back keeps the cursor within the list. A step forward
/// moves it by one place at most, and from the last item not at all.
pub proof fn lemma_step_stays_in_range(cursor: Option<int>, len: int)
    requires
        in_range(cursor, len),
    ensures
        in_range(after_next(cursor, len), len),
        in_range(after_previous(cursor, len), len),
        len > 0 ==> after_next(cursor, len) is Some && after_previous(cursor, len) is Some,
        cursor matches Some(i) ==> after_next(cursor, len) == Some(i) || (i + 1 < len
            && after_next(cursor, len) == Some(i + 1)),
        cursor == Some(len - 1) ==> after_next(cursor, len) == cursor,
{
}

/// In an empty list no number of steps, forward or back, sets a cursor.
pub proof fn lemma_empty_list_has_no_cursor(n: nat)
    ensures
        after_next_times(None, 0, n) is None,
        after_previous_times(None, 0, n) is None,
    decreases n,
{
    if n > 0 {
        lemma_empty_list_has_no_cursor((n - 1) as nat);
    }
}

/// Steps back from the item at index `i` lead towards the first item and
/// stay there.
pub proof fn lemma_previous_times(i: int, len: int, n: nat)
    requires
        0 <= i < len,
    ensures
        after_previous_times(Some(i), len, n) == Some(
            if n >= i {
                0
            } else {
                i - n
            },
        ),
    decreases n,
{
    if n > 0 {
        lemma_previous_times(i, len, (n - 1) as nat);
    }
}

/// Steps forward from the item at index `i` lead towards the last item and
/// stay there: the cursor never passes the last item.
pub proof fn lemma_next_times(i: int, len: int, n: nat)
    requires
        0 <= i < len,
    ensures
        after_next_times(Some(i), len, n) == Some(
            if i + n >= len {
                len - 1
            } else {
                i + n
            },
        ),
    decreases n,
{
    if n > 0 {
        lemma_next_times(i, len, (n - 1) as nat);
    }
}

/// In a list that is not empty, one step forward followed by as many steps
/// back as the list has items puts the cursor on the first item, wherever it
/// stood.
pub proof fn lemma_next_then_previous_returns_to_first(cursor: Option<int>, len: int)
    requires
        len > 0,
        in_range(cursor, len),
    ensures
        after_previous_times(after_next(cursor, len), len, len as nat) == Some(0int),
{
    lemma_step_stays_in_range(cursor, len);
    let i = after_next(cursor, len)->0;
    lemma_previous_times(i, len, len as nat);
}

impl<T> StatefulList<T> {
    /// Whether the cursor, if there is one, points at an item of the list.
    pub open spec fn wf(&self) -> bool {
        in_range(place(self.state.selected), self.items@.len() as int)
    }

    /// The place of the cursor as a number.
    pub open spec fn position(&self) -> Option<int> {
        place(self.state.selected)
    }

    /// A list of the given items with nothing selected.
    pub fn with_items(items: Vec<T>) -> (list: StatefulList<T>)
        ensures
            list.items == items,
            list.state.selected is None,
            list.wf(),
    {
        StatefulList { state: ListState { selected: None }, items }
    }

    /// The index of the selected item.
    pub fn selected(&self) -> (cursor: Option<usize>)
        ensures
            cursor == self.state.selected,
    {
        self.state.selected
    }

    /// Puts the cursor on the item at `index`, or removes it for `None`. An
    /// index that is not the index of an item is ignored.
    pub fn select(&mut self, index: Option<usize>)
        ensures
            final(self).items == old(self).items,
            final(self).state.selected == if in_range(place(index), old(self).items@.len() as int) {
                index
            } else {
                old(self).state.selected
            },
            old(self).wf() ==> final(self).wf(),
    {
        match index {
            Some(i) => {
                if i < self.items.len() {
                    self.state.selected = Some(i);
                }
            },
            None => {
                self.state.selected = None;
            },
        }
    }

    /// The selected item, if the cursor points at one.
    pub fn selected_item(&self) -> (item: Option<&T>)
        ensures
            match self.state.selected {
                Some(i) => if i < self.items@.len() {
                    item == Some(&self.items@[i as int])
                } else {
                    item is None
                },
                None => item is None,
            },
    {
        match self.state.selected {
            Some(i) => {
                if i < self.items.len() {
                    Some(&self.items[i])
                } else {
                    None
                }
            },
            None => None,
        }
    }

    /// The number of the selected item among the items, counted from one;
    /// zero if the cursor points at no item.
    pub fn ordinal(&self) -> (n: usize)
        ensures
            n == match self.state.selected {
                Some(i) => if i < self.items@.len() {
                    i + 1
                } else {
                    0
                },
                None => 0,
            },
    {
        match self.state.selected {
            Some(i) => {
                if i < self.items.len() {
                    i + 1
                } else {
                    0
                }
            },
            None => 0,
        }
    }

    /// Moves the cursor one item forward. It does not move past the last
    /// item, and in an empty list it does not move at all.
    pub fn next(&mut self)
        ensures
            final(self).items == old(self).items,
            final(self).position() == after_next(old(self).position(), old(self).items@.len() as int),
            old(self).wf() ==> final(self).wf(),
    {
        if self.items.len() == 0 {
            return ;
        }
        let i: usize = match self.state.selected {
            Some(i) => {
                if i >= self.items.len() - 1 {
                    i
                } else {
                    i + 1
                }
            },
            None => 0,
        };
        self.state.selected = Some(i);
    }

    /// Moves the cursor one item back. It does not move before the first
    /// item, and in an empty list it does not move at all.
    pub fn previous(&mut self)
        ensures
            final(self).items == old(self).items,
            final(self).position() == after_previous(
                old(self).position(),
                old(self).items@.len() as int,
            ),
            old(self).wf() ==> final(self).wf(),
    {
        if self.items.len() == 0 {
            return ;
        }
        let i: usize = match self.state.selected {
            Some(i) => {
                if i == 0 {
                    i
                } else {
                    i - 1
                }
            },
            None => 0,
        };
        self.state.selected = Some(i);
    }

    /// Removes the cursor.
    pub fn unselect(&mut self)
        ensures
            final(self).items == old(self).items,
            final(self).state.selected is None,
            final(self).wf(),
    {
        self.state.selected = None;
    }
}

impl<T: Clone> Clone for StatefulList<T> {
    /// A copy of the list: the cursor stands where it stood, and each item
    /// is a copy of the item at its index.
    fn clone(&self) -> (list: Self)
        ensures
            list.state.selected == self.state.selected,
            list.items@.len() == self.items@.len(),
            forall|i: int|
                0 <= i < self.items@.len() ==> cloned::<T>(self.items@[i], #[trigger] list.items@[i]),
            self.wf() ==> list.wf(),
    {
        let mut items: Vec<T> = Vec::new();
        let mut i: usize = 0;
        while i < self.items.len()
            invariant
                i <= self.items@.len(),
                items@.len() == i,
                forall|k: int| 0 <= k < i ==> cloned::<T>(self.items@[k], #[trigger] items@[k]),
            decreases self.items@.len() - i,
        {
            items.push(self.items[i].clone());
            i += 1;
        }
        StatefulList { state: self.state, items }
    }
}

impl<T> Default for StatefulList<T> {
    fn default() -> (list: StatefulList<T>)
        ensures
            list.items@.len() == 0,
            list.state.selected is None,
            list.wf(),
    {
        StatefulList { state: ListState { selected: None }, items: Vec::new() }
    }
}

} // verus!
