use vstd::prelude::*;

verus! {

/// Which index a list moves to when stepping forward from `sel`.
///
/// Stepping from no selection lands on the first row; stepping past the
/// largest index stays there (a renderer clamps to the rows it shows).
pub open spec fn next_index(sel: Option<usize>) -> usize {
    match sel {
        Option::None => 0,
        Option::Some(i) => if i == usize::MAX { usize::MAX } else { (i + 1) as usize },
    }
}

/// Which index a list moves to when stepping backward from `sel`.
///
/// Stepping from no selection lands on the last conceivable row, which a
/// renderer clamps to the last row it actually shows.
pub open spec fn previous_index(sel: Option<usize>) -> usize {
    match sel {
        Option::None => usize::MAX,
        Option::Some(i) => if i == 0 { 0 } else { (i - 1) as usize },
    }
}

/// Selection state for a vertical list: which row is selected and which
/// row is shown first.
///
/// Indices are not clamped here; the renderer clamps them to the number
/// of rows it lays out.
#[derive(Clone, Copy, PartialEq, Eq, Structural, Debug)]
pub struct DashBoardState {
    /// The selected row, if any.
    pub selected: Option<usize>,
    /// The first visible row.
    pub offset: usize,
}

impl Default for DashBoardState {
    /// No row selected, scrolled to the top.
    fn default() -> (r: Self)
        ensures
            r.selected is None,
            r.offset == 0,
    {
        DashBoardState { selected: None, offset: 0 }
    }
}

impl DashBoardState {
    /// The selected row, if any.
    pub fn selected(&self) -> (r: Option<usize>)
        ensures
            r == self.selected,
    {
        self.selected
    }

    /// The first visible row.
    pub fn offset(&self) -> (r: usize)
        ensures
            r == self.offset,
    {
        self.offset
    }

    /// Selects `index`; clearing the selection also scrolls back to the top.
    pub fn select(&mut self, index: Option<usize>)
        ensures
            final(self).selected == index,
            final(self).offset == if index is None { 0usize } else { old(self).offset },
    {
        self.selected = index;
        if index.is_none() {
            self.offset = 0;
        }
    }

    /// Selects the first row.
    pub fn select_first(&mut self)
        ensures
            final(self).selected == Some(0usize),
            final(self).offset == old(self).offset,
    {
        self.select(Some(0));
    }

    /// Selects the row after the current one, or the first row if none is
    /// selected.
    pub fn select_next(&mut self)
        ensures
            final(self).selected == Some(next_index(old(self).selected)),
            final(self).offset == old(self).offset,
    {
        let next: usize = match self.selected {
            None => 0,
            Some(i) => if i == usize::MAX {
                usize::MAX
            } else {
                i + 1
            },
        };
        self.select(Some(next));
    }

    /// Selects the row before the current one, or the last conceivable row
    /// if none is selected.
    pub fn select_previous(&mut self)
        ensures
            final(self).selected == Some(previous_index(old(self).selected)),
            final(self).offset == old(self).offset,
    {
        let previous: usize = match self.selected {
            None => usize::MAX,
            Some(i) => if i == 0 {
                0
            } else {
                i - 1
            },
        };
        self.select(Some(previous));
    }
}

} // verus!
