//! Scroll offset and selection of a list, as a list widget keeps them between
//! renders, with the integer arithmetic that the navigation code relies on.

use vstd::prelude::*;

verus! {

/// `a - b`, or 0 where that would be negative (what `saturating_sub` gives on
/// unsigned integers).
pub open spec fn sat_sub(a: int, b: int) -> int {
    if a >= b { a - b } else { 0 }
}

/// `a + b`, or `usize::MAX` where that would not fit in a `usize`.
pub open spec fn sat_add(a: int, b: int) -> int {
    if a + b > usize::MAX { usize::MAX as int } else { a + b }
}

pub open spec fn min_int(a: int, b: int) -> int {
    if a <= b { a } else { b }
}

pub open spec fn abs_diff(a: int, b: int) -> int {
    if a >= b { a - b } else { b - a }
}

/// The offset that scrolling by `by` rows (up when negative) moves to from
/// `offset`, never past `max_offset`.
pub open spec fn scrolled_offset(offset: int, by: int, max_offset: int) -> int {
    let target = if by < 0 { sat_sub(offset, -by) } else { sat_add(offset, by) };
    min_int(target, max_offset)
}

/// Scrolling down by `n` rows and back up by `n` rows returns to the offset
/// one started from, as long as the way down was not cut short at the end
/// of the list.
pub proof fn scroll_back_restores_offset(offset: usize, n: usize, max_offset: usize)
    requires
        offset + n <= max_offset,
    ensures
        scrolled_offset(scrolled_offset(offset as int, n as int, max_offset as int), -(n as int), max_offset as int)
            == offset,
{
}

/// A scroll never moves the view past the largest offset.
pub proof fn scroll_stays_in_bounds(offset: usize, by: int, max_offset: usize)
    ensures
        0 <= scrolled_offset(offset as int, by, max_offset as int) <= max_offset,
{
}

/// The index `select_next` moves to: the one after the selection, or the
/// first one when nothing is selected.
pub open spec fn next_index(selected: Option<usize>) -> usize {
    match selected {
        Some(i) => sat_add(i as int, 1) as usize,
        None => 0usize,
    }
}

/// The index `select_previous` moves to: the one before the selection
/// (staying at 0), or the last possible index when nothing is selected.
pub open spec fn previous_index(selected: Option<usize>) -> usize {
    match selected {
        Some(i) => sat_sub(i as int, 1) as usize,
        None => usize::MAX,
    }
}

/// Moving the selection down and then up again returns it to where it was,
/// unless it was already at the last possible index.
pub proof fn previous_undoes_next(i: usize)
    requires
        i < usize::MAX,
    ensures
        previous_index(Some(next_index(Some(i)))) == i,
{
}

/// The state of a rendered list: the index of the first item shown
/// (`offset`) and the index of the highlighted item, if any (`selected`).
///
/// The selection may point past the end of the list; rendering clamps it to
/// the last item.
#[derive(Clone, Copy, Debug)]
pub struct ListState {
    pub offset: usize,
    pub selected: Option<usize>,
}

impl Default for ListState {
    fn default() -> (s: Self)
        ensures
            s.offset == 0,
            s.selected is None,
    {
        ListState { offset: 0, selected: None }
    }
}

impl ListState {
    /// The same state with `selected` as its selection.
    pub fn with_selected(self, selected: Option<usize>) -> (s: Self)
        ensures
            s.offset == self.offset,
            s.selected == selected,
    {
        ListState { offset: self.offset, selected }
    }

    /// Index of the first item shown.
    pub fn offset(&self) -> (r: usize)
        ensures
            r == self.offset,
    {
        self.offset
    }

    /// Index of the selected item, if any.
    pub fn selected(&self) -> (r: Option<usize>)
        ensures
            r == self.selected,
    {
        self.selected
    }

    /// Makes `offset` the index of the first item shown.
    pub fn set_offset(&mut self, offset: usize)
        ensures
            final(self).offset == offset,
            final(self).selected == old(self).selected,
    {
        self.offset = offset;
    }

    /// Selects `index`; removing the selection also scrolls back to the top.
    pub fn select(&mut self, index: Option<usize>)
        ensures
            final(self).selected == index,
            final(self).offset == (if index is None { 0 } else { old(self).offset }),
    {
        self.selected = index;
        if index.is_none() {
            self.offset = 0;
        }
    }

    /// Selects the item after the selected one, or the first one if none is
    /// selected.
    pub fn select_next(&mut self)
        ensures
            final(self).selected == Some(next_index(old(self).selected)),
            final(self).offset == old(self).offset,
    {
        let next = match self.selected {
            Some(i) => i.saturating_add(1),
            None => 0,
        };
        self.select(Some(next));
    }

    /// Selects the item before the selected one, or the last possible index if
    /// none is selected.
    pub fn select_previous(&mut self)
        ensures
            final(self).selected == Some(previous_index(old(self).selected)),
            final(self).offset == old(self).offset,
    {
        let previous = match self.selected {
            Some(i) => i.saturating_sub(1),
            None => usize::MAX,
        };
        self.select(Some(previous));
    }

    /// Selects the first item.
    pub fn select_first(&mut self)
        ensures
            final(self).selected == Some(0usize),
            final(self).offset == old(self).offset,
    {
        self.select(Some(0));
    }
}

} // verus!
