//! Where the cursor of a list stands and how far the list is scrolled.
use vstd::prelude::*;

verus! {

/// The cursor and the scroll offset of a list.
#[derive(Clone, Copy, Debug, PartialEq, Eq, Structural)]
pub struct ListState {
    pub offset: usize,
    pub selected: Option<usize>,
}

impl Default for ListState {
    fn default() -> (r: ListState)
        ensures
            r == ListState::blank(),
    {
        ListState { offset: 0, selected: None }
    }
}

impl ListState {
    /// A list that is not scrolled, with no cursor.
    pub open spec fn blank() -> ListState {
        ListState { offset: 0, selected: None }
    }

    /// The list with the cursor at `index`; without a cursor it is scrolled
    /// back to its start.
    pub open spec fn with_selected(self, index: Option<usize>) -> ListState {
        ListState {
            offset: if index is None {
                0
            } else {
                self.offset
            },
            selected: index,
        }
    }

    /// The list with the cursor one item further.
    pub open spec fn advanced(self) -> ListState {
        self.with_selected(
            match self.selected {
                Some(i) => Some(
                    if i == usize::MAX {
                        i
                    } else {
                        (i + 1) as usize
                    },
                ),
                None => Some(0),
            },
        )
    }

    /// The list with the cursor one item back; without a cursor it goes to the
    /// far end.
    pub open spec fn retreated(self) -> ListState {
        self.with_selected(
            match self.selected {
                Some(i) => Some(
                    if i == 0 {
                        i
                    } else {
                        (i - 1) as usize
                    },
                ),
                None => Some(usize::MAX),
            },
        )
    }

    /// A list with the cursor at its first item.
    pub open spec fn at_first() -> ListState {
        ListState { offset: 0, selected: Some(0) }
    }

    /// A list with the cursor at its first item.
    pub fn first() -> (r: ListState)
        ensures
            r == ListState::at_first(),
    {
        ListState { offset: 0, selected: Some(0) }
    }

    /// The item under the cursor.
    pub fn selected(&self) -> (r: Option<usize>)
        ensures
            r == self.selected,
    {
        self.selected
    }

    /// The first item that is shown.
    pub fn offset(&self) -> (r: usize)
        ensures
            r == self.offset,
    {
        self.offset
    }

    /// Puts the cursor at `index`, or takes it away.
    pub fn select(&mut self, index: Option<usize>)
        ensures
            *final(self) == old(self).with_selected(index),
    {
        self.selected = index;
        if index.is_none() {
            self.offset = 0;
        }
    }

    /// Moves the cursor one item further.
    pub fn select_next(&mut self)
        ensures
            *final(self) == old(self).advanced(),
    {
        let next = match self.selected {
            Some(i) => i.saturating_add(1),
            None => 0,
        };
        self.select(Some(next));
    }

    /// Moves the cursor one item back.
    pub fn select_previous(&mut self)
        ensures
            *final(self) == old(self).retreated(),
    {
        let previous = match self.selected {
            Some(i) => i.saturating_sub(1),
            None => usize::MAX,
        };
        self.select(Some(previous));
    }

    /// Puts the cursor at the first item.
    pub fn select_first(&mut self)
        ensures
            *final(self) == old(self).with_selected(Some(0)),
    {
        self.select(Some(0));
    }
}

} // verus!
