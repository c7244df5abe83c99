//! The feed tree: categories, their feed sources and the Read Later section,
//! with keyboard and mouse-wheel navigation over them.

use vstd::prelude::*;

use crate::feed::{FeedCategory, FeedSource};
use crate::list_state::{abs_diff, min_int, sat_add, sat_sub, scrolled_offset, ListState};
use crate::text::{decimal, decimal_text};

verus! {

/// A row of the feed tree.
pub enum FeedItemInfo {
    /// Represents the category title
    Category(String),
    /// Represents an item in the feed tree with a title, category, and slug
    Item(String, String, String),
    /// Represents a separator in the menu
    Separator,
    /// Represents the Read Later category
    ReadLater,
}

/// Rows that category navigation stops at.
pub open spec fn is_heading(item: FeedItemInfo) -> bool {
    item is Category || item is ReadLater
}

/// Largest offset that still fills the view: `len - visible`, or 0.
pub open spec fn max_offset_of(len: int, visible: int) -> int {
    sat_sub(len, visible)
}

/// The offset that the feed tree moves to so that `selection` is in view,
/// starting from `offset`: scroll just enough to reveal the selection, and
/// where that moves the view by more than one row, center the selection
/// instead (favoring the higher row for an even number of visible lines).
/// The result never exceeds `max_offset`.
pub open spec fn tree_offset_step(offset: int, selection: Option<usize>, visible: int, max_offset: int) -> int {
    let revealed = match selection {
        Some(idx) => if idx < offset {
            idx as int
        } else if idx > sat_add(offset, sat_sub(visible, 1)) {
            sat_sub(idx as int, sat_sub(visible, 1))
        } else {
            offset
        },
        None => offset,
    };
    let next = min_int(revealed, max_offset);
    if abs_diff(next, offset) > 1 && selection is Some {
        let centered = sat_sub(selection->0 as int, visible / 2);
        let centered = if centered > 0 { sat_add(centered, sat_add(visible, 1) % 2) } else { centered };
        min_int(centered, max_offset)
    } else {
        next
    }
}

/// `tree_offset_step` applied `n` times.
pub open spec fn tree_offset_steps(offset: int, selection: Option<usize>, visible: int, max_offset: int, n: nat) -> int
    decreases n,
{
    if n == 0 {
        offset
    } else {
        tree_offset_step(tree_offset_steps(offset, selection, visible, max_offset, (n - 1) as nat), selection, visible, max_offset)
    }
}

/// Where moving down from row `k` lands: the first row after `k` that is no
/// separator, or the last row when only separators follow.
pub open spec fn landing_down(items: Seq<FeedItemInfo>, k: int) -> int
    decreases items.len() - k,
{
    if k + 1 >= items.len() {
        items.len() - 1
    } else if items[k + 1] is Separator {
        landing_down(items, k + 1)
    } else {
        k + 1
    }
}

/// How many times moving down from row `k` recenters the view.
pub open spec fn steps_down(items: Seq<FeedItemInfo>, k: int) -> nat
    decreases items.len() - k,
{
    if k + 1 >= items.len() {
        1
    } else if items[k + 1] is Separator {
        1 + steps_down(items, k + 1)
    } else {
        1
    }
}

/// Rows `0..=j` are all separators: moving up from the row after `j` would
/// never find a row to rest on.
pub open spec fn separators_through(items: Seq<FeedItemInfo>, j: int) -> bool {
    forall|m: int| 0 <= m <= j ==> #[trigger] items[m] is Separator
}

/// Where moving up from row `k` lands: the first row before `k` that is no
/// separator (row 0 when `k` is 0).
pub open spec fn landing_up(items: Seq<FeedItemInfo>, k: int) -> int
    decreases k,
{
    let j = sat_sub(k, 1);
    if k > 0 && j < items.len() && items[j] is Separator {
        landing_up(items, j)
    } else {
        j
    }
}

/// How many times moving up from row `k` recenters the view.
pub open spec fn steps_up(items: Seq<FeedItemInfo>, k: int) -> nat
    decreases k,
{
    let j = sat_sub(k, 1);
    if k > 0 && j < items.len() && items[j] is Separator {
        1 + steps_up(items, j)
    } else {
        1
    }
}

/// The first heading at or after row `from`.
pub open spec fn next_heading(items: Seq<FeedItemInfo>, from: int) -> Option<int>
    decreases items.len() - from,
{
    if from >= items.len() || from < 0 {
        None
    } else if is_heading(items[from]) {
        Some(from)
    } else {
        next_heading(items, from + 1)
    }
}

/// The last heading before row `upto`.
pub open spec fn prev_heading(items: Seq<FeedItemInfo>, upto: int) -> Option<int>
    decreases upto,
{
    if upto <= 0 {
        None
    } else if is_heading(items[upto - 1]) {
        Some(upto - 1)
    } else {
        prev_heading(items, upto - 1)
    }
}

/// What the feed tree's contracts speak of.
pub struct FeedTreeView {
    /// The rows.
    pub items: Seq<FeedItemInfo>,
    /// Index of the first row shown.
    pub offset: usize,
    /// The list's own selection.
    pub selected: Option<usize>,
    pub visible_lines: usize,
    /// The selection kept aside while the selected row is scrolled out of view.
    pub parked: Option<usize>,
    /// The library generation the rows were last built from.
    pub generation: u64,
    /// Number of Read Later entries shown.
    pub read_later: usize,
    /// Unread entries per (category title, feed slug).
    pub unread: Map<(Seq<char>, Seq<char>), u16>,
}

impl FeedTreeView {
    /// The selection in effect: the list's own, else the parked one.
    pub open spec fn current(self) -> Option<usize> {
        match self.selected {
            Some(i) => Some(i),
            None => self.parked,
        }
    }

    /// The row that the selection in effect names, if any.
    pub open spec fn selected_row(self) -> Option<FeedItemInfo> {
        match self.current() {
            Some(i) => if i < self.items.len() { Some(self.items[i as int]) } else { None },
            None => None,
        }
    }

    pub open spec fn max_offset(self) -> int {
        max_offset_of(self.items.len() as int, self.visible_lines as int)
    }

    /// The state of a new tree: no rows, the first row selected (and parked),
    /// no view height yet, and no library generation read.
    pub open spec fn fresh(self) -> bool {
        &&& self.items.len() == 0
        &&& self.selected == Some(0usize)
        &&& self.offset == 0
        &&& self.visible_lines == 0
        &&& self.parked == Some(0usize)
        &&& self.generation == u64::MAX
        &&& self.read_later == 0
        &&& self.unread == Map::<(Seq<char>, Seq<char>), u16>::empty()
    }

    /// `next` differs from `self` in the list state alone.
    pub open spec fn same_rows(self, next: Self) -> bool {
        &&& next.items == self.items
        &&& next.visible_lines == self.visible_lines
        &&& next.parked == self.parked
        &&& next.generation == self.generation
        &&& next.read_later == self.read_later
        &&& next.unread == self.unread
    }

    /// `next` shows `selection` selected, with the view moved once towards it.
    pub open spec fn shows_with_one_step(self, next: Self, selection: Option<usize>) -> bool {
        &&& next.selected == selection
        &&& next.offset == tree_offset_step(self.offset as int, selection, self.visible_lines as int, self.max_offset())
    }

    /// The state after `select_last`.
    pub open spec fn after_select_last(self, next: Self) -> bool {
        if self.items.len() == 0 {
            next.selected == self.selected && next.offset == self.offset
        } else {
            self.shows_with_one_step(next, Some((self.items.len() - 1) as usize))
        }
    }
}

/// The rows of one category: its heading, then one row per feed source.
pub open spec fn category_rows(c: FeedCategory) -> Seq<FeedItemInfo> {
    seq![FeedItemInfo::Category(c.title)] + c.feeds@.map_values(
        |f: FeedSource| FeedItemInfo::Item(f.title, c.title, f.slug),
    )
}

/// The rows of the categories, in order.
pub open spec fn tree_rows(cats: Seq<FeedCategory>) -> Seq<FeedItemInfo>
    decreases cats.len(),
{
    if cats.len() == 0 {
        Seq::empty()
    } else {
        tree_rows(cats.drop_last()) + category_rows(cats.last())
    }
}

/// The rows that follow the categories: a separator and the Read Later
/// heading when there are Read Later entries.
pub open spec fn read_later_rows(read_later_count: usize) -> Seq<FeedItemInfo> {
    if read_later_count > 0 {
        seq![FeedItemInfo::Separator, FeedItemInfo::ReadLater]
    } else {
        Seq::empty()
    }
}

/// The unread counts given for the feeds of category `i` (none if missing).
pub open spec fn unread_row(unread: Seq<Vec<Option<u16>>>, i: int) -> Seq<Option<u16>> {
    if 0 <= i < unread.len() { unread[i]@ } else { Seq::empty() }
}

/// The unread count given for feed `j` of a row (none if missing).
pub open spec fn unread_in_row(row: Seq<Option<u16>>, j: int) -> Option<u16> {
    if 0 <= j < row.len() { row[j] } else { None }
}

/// `m` with the known unread counts of the first `n` feeds of `c` recorded
/// under (category title, feed slug), later ones replacing earlier ones.
pub open spec fn record_category_unread(
    m: Map<(Seq<char>, Seq<char>), u16>,
    c: FeedCategory,
    row: Seq<Option<u16>>,
    n: int,
) -> Map<(Seq<char>, Seq<char>), u16>
    decreases n,
{
    if n <= 0 {
        m
    } else {
        let prev = record_category_unread(m, c, row, n - 1);
        match unread_in_row(row, n - 1) {
            Some(v) => prev.insert((c.title@, c.feeds@[n - 1].slug@), v),
            None => prev,
        }
    }
}

/// The unread counts recorded for the first `n` categories.
pub open spec fn tree_unread(cats: Seq<FeedCategory>, unread: Seq<Vec<Option<u16>>>, n: int) -> Map<(Seq<char>, Seq<char>), u16>
    decreases n,
{
    if n <= 0 {
        Map::empty()
    } else {
        record_category_unread(
            tree_unread(cats, unread, n - 1),
            cats[n - 1],
            unread_row(unread, n - 1),
            cats[n - 1].feeds@.len() as int,
        )
    }
}

/// The unread count shown for a feed: the one recorded for its category and
/// slug, else none.
pub open spec fn unread_of(m: Map<(Seq<char>, Seq<char>), u16>, category: Seq<char>, slug: Seq<char>) -> Option<u16> {
    if m.contains_key((category, slug)) {
        Some(m[(category, slug)])
    } else {
        None
    }
}

proof fn lemma_tree_rows_push(cats: Seq<FeedCategory>, c: FeedCategory)
    ensures
        tree_rows(cats.push(c)) == tree_rows(cats) + category_rows(c),
{
    assert(cats.push(c).drop_last() =~= cats);
}

proof fn lemma_unread_map_push(entries: Seq<(String, String, u16)>, e: (String, String, u16))
    ensures
        unread_map(entries.push(e)) == unread_map(entries).insert((e.0@, e.1@), e.2),
{
    assert(entries.push(e).drop_last() =~= entries);
}

/// The title shown for a row: a folder icon and the category title; a feed
/// icon, the feed title and its unread count when there are unread entries;
/// nothing for a separator; the Read Later heading with its entry count.
pub open spec fn tree_row_title(row: FeedItemInfo, unread: Map<(Seq<char>, Seq<char>), u16>, read_later: usize) -> Seq<char> {
    match row {
        FeedItemInfo::Category(t) => "\u{f07c} "@ + t@,
        FeedItemInfo::Item(t, c, s) => {
            let n: u16 = match unread_of(unread, c@, s@) {
                Some(v) => v,
                None => 0,
            };
            if n > 0 {
                " \u{f09e}  "@ + t@ + " ("@ + decimal(n as nat) + ")"@
            } else {
                " \u{f09e}  "@ + t@
            }
        },
        FeedItemInfo::Separator => Seq::empty(),
        FeedItemInfo::ReadLater => if read_later > 0 {
            "\u{f02d} Read Later ("@ + decimal(read_later as nat) + ")"@
        } else {
            "\u{f02d} Read Later"@
        },
    }
}

/// Navigation state of the feed tree.
pub struct FeedTreeState {
    pub treeitems: Vec<FeedItemInfo>,
    pub list_state: ListState,
    pub visible_lines: usize,
    last_generation: u64,
    /// Unread counts by (category title, feed slug), later entries replacing
    /// earlier ones of the same key. A list rather than a hash map: the keys
    /// are strings, and what a hash map's insertions and lookups do with
    /// string keys is not known to the verifier.
    unread_counts: Vec<(String, String, u16)>,
    read_later_count: usize,
    selected: Option<usize>,
}

/// The map that an association list of unread counts stands for.
pub open spec fn unread_map(entries: Seq<(String, String, u16)>) -> Map<(Seq<char>, Seq<char>), u16>
    decreases entries.len(),
{
    if entries.len() == 0 {
        Map::empty()
    } else {
        let e = entries.last();
        unread_map(entries.drop_last()).insert((e.0@, e.1@), e.2)
    }
}

impl View for FeedTreeState {
    type V = FeedTreeView;

    closed spec fn view(&self) -> FeedTreeView {
        FeedTreeView {
            items: self.treeitems@,
            offset: self.list_state.offset,
            selected: self.list_state.selected,
            visible_lines: self.visible_lines,
            parked: self.selected,
            generation: self.last_generation,
            read_later: self.read_later_count,
            unread: unread_map(self.unread_counts@),
        }
    }
}

impl Default for FeedTreeState {
    fn default() -> (s: Self)
        ensures
            s@.fresh(),
    {
        Self::new()
    }
}

impl FeedTreeState {
    pub fn new() -> (s: Self)
        ensures
            s@.fresh(),
    {
        FeedTreeState {
            treeitems: Vec::new(),
            list_state: ListState::default().with_selected(Some(0)),
            last_generation: u64::MAX,
            unread_counts: Vec::new(),
            read_later_count: 0,
            visible_lines: 0,
            selected: Some(0),
        }
    }

    fn max_offset(&self) -> (r: usize)
        ensures
            r == self@.max_offset(),
    {
        self.treeitems.len().saturating_sub(self.visible_lines)
    }

    /// Moves the view so that the selection is shown.
    fn update_list_offset(&mut self)
        ensures
            old(self)@.same_rows(final(self)@),
            old(self)@.shows_with_one_step(final(self)@, old(self)@.selected),
    {
        let current_offset = self.list_state.offset();
        let visible_selection = self.list_state.selected();
        let max_offset = self.max_offset();
        let window_end = current_offset.saturating_add(self.visible_lines.saturating_sub(1));
        let revealed = match visible_selection {
            Some(idx) => if idx < current_offset {
                idx
            } else if idx > window_end {
                idx.saturating_sub(self.visible_lines.saturating_sub(1))
            } else {
                current_offset
            },
            None => current_offset,
        };
        let mut next_offset = if revealed <= max_offset { revealed } else { max_offset };
        let distance = if next_offset >= current_offset {
            next_offset - current_offset
        } else {
            current_offset - next_offset
        };
        if distance > 1 {
            if let Some(idx) = visible_selection {
                next_offset = idx.saturating_sub(self.visible_lines / 2);
                if next_offset > 0 {
                    next_offset = next_offset.saturating_add(self.visible_lines.saturating_add(1) % 2);
                }
            }
        }
        let final_offset = if next_offset <= max_offset { next_offset } else { max_offset };
        self.list_state.set_offset(final_offset);
    }

    /// The selected row, if the selection in effect names one.
    pub fn get_selected(&self) -> (r: Option<&FeedItemInfo>)
        ensures
            r == (match self@.current() {
                Some(i) => if i < self@.items.len() { Some(&self@.items[i as int]) } else { None },
                None => None,
            }),
    {
        let current = match self.list_state.selected() {
            Some(i) => Some(i),
            None => self.selected,
        };
        if let Some(idx) = current {
            if idx < self.treeitems.len() {
                return Some(&self.treeitems[idx]);
            }
        }
        None
    }

    fn is_selected_separator(&self) -> (r: bool)
        ensures
            r == (match self@.selected {
                Some(i) => i < self@.items.len() && self@.items[i as int] is Separator,
                None => false,
            }),
    {
        match self.list_state.selected() {
            Some(index) => index < self.treeitems.len() && matches!(self.treeitems[index], FeedItemInfo::Separator),
            None => false,
        }
    }

    /// Selects the last row.
    pub fn select_last(&mut self)
        ensures
            old(self)@.same_rows(final(self)@),
            old(self)@.after_select_last(final(self)@),
    {
        if self.treeitems.len() == 0 {
            return;
        }
        self.list_state.select(Some(self.treeitems.len() - 1));
        self.update_list_offset();
    }

    /// Selects the first row.
    pub fn select_first(&mut self)
        ensures
            old(self)@.same_rows(final(self)@),
            old(self)@.items.len() == 0 ==> final(self)@ == old(self)@,
            old(self)@.items.len() > 0 ==> old(self)@.shows_with_one_step(final(self)@, Some(0usize)),
    {
        if self.treeitems.len() == 0 {
            return;
        }
        self.list_state.select_first();
        self.update_list_offset();
    }

    /// Selects row `index` unless it is a separator or past the end, then
    /// brings the selection into view.
    pub fn select(&mut self, index: usize)
        ensures
            old(self)@.same_rows(final(self)@),
            old(self)@.shows_with_one_step(
                final(self)@,
                if index < old(self)@.items.len() && !(old(self)@.items[index as int] is Separator) {
                    Some(index)
                } else {
                    old(self)@.selected
                },
            ),
    {
        if index < self.treeitems.len() {
            match self.treeitems[index] {
                FeedItemInfo::Separator => {},
                _ => self.list_state.select(Some(index)),
            }
        }
        self.update_list_offset();
    }

    /// Sets how many rows the view shows.
    pub fn set_visible_lines(&mut self, visible_lines: usize)
        ensures
            final(self)@ == (FeedTreeView { visible_lines: visible_lines, ..old(self)@ }),
    {
        self.visible_lines = visible_lines;
    }

    /// Replaces the rows.
    pub fn set_rows(&mut self, rows: Vec<FeedItemInfo>)
        ensures
            final(self)@ == (FeedTreeView { items: rows@, ..old(self)@ }),
    {
        self.treeitems = rows;
    }

    /// Whether the rows were built from an older library generation than
    /// `generation`, so that `update` would rebuild them.
    pub fn needs_update(&self, generation: u64) -> (r: bool)
        ensures
            r == (generation != self@.generation),
    {
        generation != self.last_generation
    }

    /// Looks up the unread count recorded for a category and feed slug.
    pub fn unread_count(&self, category: &String, slug: &String) -> (r: Option<u16>)
        ensures
            r == unread_of(self@.unread, category@, slug@),
    {
        let ghost entries = self.unread_counts@;
        let ghost key = (category@, slug@);
        let mut i = self.unread_counts.len();
        proof {
            assert(entries.take(i as int) =~= entries);
        }
        while i > 0
            invariant
                entries == self.unread_counts@,
                i <= entries.len(),
                unread_of(unread_map(entries), category@, slug@) == unread_of(
                    unread_map(entries.take(i as int)), category@, slug@),
            decreases i,
        {
            let entry = &self.unread_counts[i - 1];
            proof {
                assert(entries.take(i as int) =~= entries.take(i - 1).push(entries[i - 1]));
                lemma_unread_map_push(entries.take(i - 1), entries[i - 1]);
            }
            if entry.0 == *category && entry.1 == *slug {
                return Some(entry.2);
            }
            i -= 1;
        }
        proof {
            assert(entries.take(0) =~= Seq::<(String, String, u16)>::empty());
        }
        None
    }

    /// Rebuilds the rows from the library's categories when `generation`
    /// differs from the one they were built from.
    ///
    /// `unread[i][j]` is the unread count of feed `j` of category `i`, or
    /// none where it could not be read; `read_later_count` is the number of
    /// Read Later entries (0 where they could not be read). A selection left
    /// past the end of the new rows moves to the last row.
    pub fn update(
        &mut self,
        generation: u64,
        categories: &Vec<FeedCategory>,
        unread: &Vec<Vec<Option<u16>>>,
        read_later_count: usize,
    )
        ensures
            generation == old(self)@.generation ==> final(self)@ == old(self)@,
            generation != old(self)@.generation ==> {
                let o = old(self)@;
                let f = final(self)@;
                &&& f.generation == generation
                &&& f.items == tree_rows(categories@) + read_later_rows(read_later_count)
                &&& f.read_later == read_later_count
                &&& f.unread == tree_unread(categories@, unread@, categories@.len() as int)
                &&& f.visible_lines == o.visible_lines
                &&& f.parked == o.parked
                &&& if (o.current() matches Some(idx) && idx >= f.items.len() && f.items.len() > 0) {
                    let sel = Some((f.items.len() - 1) as usize);
                    &&& f.selected == sel
                    &&& f.offset == tree_offset_step(
                        o.offset as int, sel, o.visible_lines as int, f.max_offset())
                } else {
                    f.selected == o.selected && f.offset == o.offset
                }
            },
    {
        if generation == self.last_generation {
            return;
        }
        self.last_generation = generation;
        self.treeitems.clear();
        self.unread_counts = Vec::new();
        let ghost cats = categories@;
        let mut ci: usize = 0;
        while ci < categories.len()
            invariant
                cats == categories@,
                ci <= cats.len(),
                self.treeitems@ == tree_rows(cats.take(ci as int)),
                unread_map(self.unread_counts@) == tree_unread(cats, unread@, ci as int),
                self.last_generation == generation,
                self.list_state == old(self).list_state,
                self.selected == old(self).selected,
                self.visible_lines == old(self).visible_lines,
                self.read_later_count == old(self).read_later_count,
            decreases cats.len() - ci,
        {
            let category = &categories[ci];
            proof {
                assert(cats.take(ci + 1) =~= cats.take(ci as int).push(cats[ci as int]));
                lemma_tree_rows_push(cats.take(ci as int), cats[ci as int]);
            }
            let ghost rows_before = self.treeitems@;
            let ghost map_before = tree_unread(cats, unread@, ci as int);
            let ghost row = unread_row(unread@, ci as int);
            self.treeitems.push(FeedItemInfo::Category(category.title.clone()));
            let mut fi: usize = 0;
            while fi < category.feeds.len()
                invariant
                    cats == categories@,
                    ci < cats.len(),
                    *category == cats[ci as int],
                    fi <= category.feeds@.len(),
                    row == unread_row(unread@, ci as int),
                    rows_before + category_rows(cats[ci as int]) == tree_rows(cats.take(ci + 1)),
                    self.treeitems@ == rows_before + category_rows(*category).take(fi + 1),
                    unread_map(self.unread_counts@) == record_category_unread(map_before, *category, row, fi as int),
                    map_before == tree_unread(cats, unread@, ci as int),
                    self.last_generation == generation,
                    self.list_state == old(self).list_state,
                    self.selected == old(self).selected,
                    self.visible_lines == old(self).visible_lines,
                    self.read_later_count == old(self).read_later_count,
                decreases category.feeds@.len() - fi,
            {
                let item = &category.feeds[fi];
                proof {
                    assert(category_rows(*category).take(fi + 2) =~= category_rows(*category).take(fi + 1).push(
                        FeedItemInfo::Item(item.title, category.title, item.slug)));
                }
                self.treeitems.push(FeedItemInfo::Item(item.title.clone(), category.title.clone(), item.slug.clone()));
                let count = if ci < unread.len() && fi < unread[ci].len() { unread[ci][fi] } else { None };
                if let Some(count) = count {
                    let ghost before = self.unread_counts@;
                    self.unread_counts.push((category.title.clone(), item.slug.clone(), count));
                    proof {
                        lemma_unread_map_push(before, (category.title, item.slug, count));
                    }
                }
                fi += 1;
            }
            proof {
                assert(category_rows(*category).take(fi + 1) =~= category_rows(*category));
            }
            ci += 1;
        }
        proof {
            assert(cats.take(cats.len() as int) =~= cats);
        }
        if read_later_count > 0 {
            self.read_later_count = read_later_count;
            self.treeitems.push(FeedItemInfo::Separator);
            self.treeitems.push(FeedItemInfo::ReadLater);
        } else {
            self.read_later_count = 0;
        }
        let current = match self.list_state.selected() {
            Some(i) => Some(i),
            None => self.selected,
        };
        if let Some(idx) = current {
            if idx >= self.treeitems.len() {
                self.select_last();
            }
        }
    }

    /// The title of each row, in order.
    pub fn get_item_titles(&self) -> (r: Vec<String>)
        ensures
            r@.len() == self@.items.len(),
            forall|i: int| 0 <= i < r@.len() ==> #[trigger] r@[i]@ == tree_row_title(
                self@.items[i], self@.unread, self@.read_later),
            forall|i: int| 0 <= i < r@.len() ==> (self@.items[i] matches FeedItemInfo::Item(t, c, s) ==> {
                let key = (c@, s@);
                if self@.unread.contains_key(key) && self@.unread[key] > 0 {
                    #[trigger] r@[i]@ == " \u{f09e}  "@ + t@ + " ("@ + decimal(self@.unread[key] as nat) + ")"@
                } else {
                    r@[i]@ == " \u{f09e}  "@ + t@
                }
            }),
            forall|i: int| 0 <= i < r@.len() && self@.items[i] is ReadLater ==> if self@.read_later > 0 {
                #[trigger] r@[i]@ == "\u{f02d} Read Later ("@ + decimal(self@.read_later as nat) + ")"@
            } else {
                r@[i]@ == "\u{f02d} Read Later"@
            },
    {
        let mut titles: Vec<String> = Vec::new();
        let mut i: usize = 0;
        while i < self.treeitems.len()
            invariant
                i <= self.treeitems@.len(),
                titles@.len() == i,
                forall|k: int| 0 <= k < i ==> #[trigger] titles@[k]@ == tree_row_title(
                    self@.items[k], self@.unread, self@.read_later),
            decreases self.treeitems@.len() - i,
        {
            let title = match &self.treeitems[i] {
                FeedItemInfo::Category(t) => {
                    let mut title = String::from_str("\u{f07c} ");
                    title.append(t.as_str());
                    title
                },
                FeedItemInfo::Item(t, c, s) => {
                    let unread: u16 = match self.unread_count(c, s) {
                        Some(v) => v,
                        None => 0,
                    };
                    let mut title = String::from_str(" \u{f09e}  ");
                    title.append(t.as_str());
                    if unread > 0 {
                        title.append(" (");
                        title.append(decimal_text(unread as usize).as_str());
                        title.append(")");
                    }
                    title
                },
                FeedItemInfo::Separator => String::new(),
                FeedItemInfo::ReadLater => {
                    if self.read_later_count > 0 {
                        let mut title = String::from_str("\u{f02d} Read Later (");
                        title.append(decimal_text(self.read_later_count).as_str());
                        title.append(")");
                        title
                    } else {
                        String::from_str("\u{f02d} Read Later")
                    }
                },
            };
            titles.push(title);
            i += 1;
        }
        proof {
            assert forall|k: int| 0 <= k < titles@.len() implies (self@.items[k] matches FeedItemInfo::Item(t, c, s) ==> {
                let key = (c@, s@);
                if self@.unread.contains_key(key) && self@.unread[key] > 0 {
                    #[trigger] titles@[k]@ == " \u{f09e}  "@ + t@ + " ("@ + decimal(self@.unread[key] as nat) + ")"@
                } else {
                    titles@[k]@ == " \u{f09e}  "@ + t@
                }
            }) by {
                if let FeedItemInfo::Item(t, c, s) = self@.items[k] {
                    feed_row_title_shows_positive_count(t, c, s, self@.unread, self@.read_later);
                }
            }
            assert forall|k: int| 0 <= k < titles@.len() && self@.items[k] is ReadLater implies if self@.read_later > 0 {
                #[trigger] titles@[k]@ == "\u{f02d} Read Later ("@ + decimal(self@.read_later as nat) + ")"@
            } else {
                titles@[k]@ == "\u{f02d} Read Later"@
            } by {
                read_later_row_shows_positive_count(self@.unread, self@.read_later);
            }
        }
        titles
    }

    /// Moves the selection down one row, skipping separators; past the end,
    /// or with nothing selected, selects the last row.
    pub fn select_next(&mut self)
        requires
            old(self)@.current() != Some(usize::MAX),
        ensures
            old(self)@.same_rows(final(self)@),
            match old(self)@.current() {
                Some(idx) => if idx + 1 < old(self)@.items.len() {
                    let sel = Some(landing_down(old(self)@.items, idx as int) as usize);
                    &&& final(self)@.selected == sel
                    &&& final(self)@.offset == tree_offset_steps(
                        old(self)@.offset as int, sel, old(self)@.visible_lines as int,
                        old(self)@.max_offset(), steps_down(old(self)@.items, idx as int))
                } else {
                    old(self)@.after_select_last(final(self)@)
                },
                None => old(self)@.after_select_last(final(self)@),
            },
            old(self)@.items.len() > 0 && !(old(self)@.items.last() is Separator) ==> (final(self)@.selected matches Some(i)
                && i < final(self)@.items.len() && !(final(self)@.items[i as int] is Separator)),
        decreases down_measure(old(self)@),
    {
        proof {
            assert(self@.items.len() == self.treeitems.len());
            if let Some(idx) = self@.current() {
                if self@.items.len() > 0 && !(self@.items.last() is Separator) {
                    moving_down_skips_separators(self@.items, idx as int);
                }
            }
        }
        let selected = match self.list_state.selected() {
            Some(i) => Some(i),
            None => self.selected,
        };
        match selected {
            Some(idx) if idx + 1 < self.treeitems.len() => {
                let ghost start = self@;
                proof {
                    lemma_landing_down_bounds(start.items, idx as int);
                }
                let ghost sel = Some(landing_down(start.items, idx as int) as usize);
                let ghost m = start.max_offset();
                let ghost vl = start.visible_lines as int;
                self.list_state.select(selected);
                self.list_state.select_next();
                if self.is_selected_separator() {
                    proof {
                        if idx + 2 < start.items.len() {
                            lemma_landing_down_bounds(start.items, idx + 1);
                        }
                    }
                    assert(landing_down(start.items, idx as int) == landing_down(start.items, idx + 1));
                    assert(steps_down(start.items, idx as int) == 1 + steps_down(start.items, idx + 1));
                    self.select_next();
                    proof {
                        if idx + 2 >= start.items.len() {
                            assert(tree_offset_steps(start.offset as int, sel, vl, m, 0) == start.offset);
                            assert(tree_offset_steps(start.offset as int, sel, vl, m, 1) == self@.offset);
                        }
                    }
                } else {
                    assert(steps_down(start.items, idx as int) == 1);
                    assert(tree_offset_steps(start.offset as int, sel, vl, m, 0) == start.offset);
                }
                assert(self@.offset == tree_offset_steps(
                    start.offset as int, sel, vl, m, (steps_down(start.items, idx as int) - 1) as nat));
                self.update_list_offset();
            },
            _ => {
                self.select_last();
            },
        }
    }

    /// Moves the selection up one row, skipping separators; with nothing
    /// selected, or a selection past the end, selects the last row.
    ///
    /// Rows above the selection that are all separators would leave it with
    /// nowhere to rest, so those states are excluded.
    pub fn select_previous(&mut self)
        requires
            match old(self)@.current() {
                Some(idx) => sat_sub(idx as int, 1) < old(self)@.items.len()
                    ==> !separators_through(old(self)@.items, sat_sub(idx as int, 1)),
                None => true,
            },
        ensures
            old(self)@.same_rows(final(self)@),
            match old(self)@.current() {
                Some(idx) => if sat_sub(idx as int, 1) < old(self)@.items.len() {
                    let sel = Some(landing_up(old(self)@.items, idx as int) as usize);
                    &&& final(self)@.selected == sel
                    &&& final(self)@.offset == tree_offset_steps(
                        old(self)@.offset as int, sel, old(self)@.visible_lines as int,
                        old(self)@.max_offset(), steps_up(old(self)@.items, idx as int))
                } else {
                    old(self)@.after_select_last(final(self)@)
                },
                None => old(self)@.after_select_last(final(self)@),
            },
            old(self)@.items.len() > 0 && !(old(self)@.items.last() is Separator) ==> (final(self)@.selected matches Some(i)
                && i < final(self)@.items.len() && !(final(self)@.items[i as int] is Separator)),
        decreases up_measure(old(self)@),
    {
        proof {
            assert(self@.items.len() == self.treeitems.len());
            if let Some(idx) = self@.current() {
                if sat_sub(idx as int, 1) < self@.items.len() {
                    moving_up_skips_separators(self@.items, idx as int);
                }
            }
        }
        let selected = match self.list_state.selected() {
            Some(i) => Some(i),
            None => self.selected,
        };
        match selected {
            Some(idx) if idx.saturating_sub(1) < self.treeitems.len() => {
                let ghost start = self@;
                proof {
                    lemma_landing_up_bounds(start.items, idx as int);
                }
                let ghost sel = Some(landing_up(start.items, idx as int) as usize);
                let ghost m = start.max_offset();
                let ghost vl = start.visible_lines as int;
                self.list_state.select(selected);
                self.list_state.select_previous();
                if self.is_selected_separator() {
                    proof {
                        let items = self@.items;
                        let j = sat_sub(idx as int, 1);
                        if j == 0 {
                            assert(separators_through(items, j));
                        } else {
                            assert(!separators_through(items, j - 1)) by {
                                if separators_through(items, j - 1) {
                                    assert forall|m: int| 0 <= m <= j implies #[trigger] items[m] is Separator by {
                                        if m < j {
                                            assert(items[m] is Separator);
                                        }
                                    }
                                }
                            }
                        }
                    }
                    self.select_previous();
                } else {
                    assert(tree_offset_steps(start.offset as int, sel, vl, m, 0) == start.offset);
                }
                assert(self@.offset == tree_offset_steps(
                    start.offset as int, sel, vl, m, (steps_up(start.items, idx as int) - 1) as nat));
                self.update_list_offset();
            },
            _ => {
                self.select_last();
            },
        }
    }

    /// Selects the next category heading (or the Read Later heading) below
    /// the selection; stays put when there is none.
    pub fn select_next_category(&mut self)
        requires
            current_or_top(old(self)@) < usize::MAX,
        ensures
            old(self)@.same_rows(final(self)@),
            match next_heading(old(self)@.items, current_or_top(old(self)@) + 1) {
                Some(h) => old(self)@.shows_with_one_step(final(self)@, Some(h as usize)),
                None => final(self)@ == old(self)@,
            },
            ({
                let items = old(self)@.items;
                let c = current_or_top(old(self)@) as int;
                if exists|h: int| c < h < items.len() && #[trigger] is_heading(items[h]) {
                    &&& final(self)@.selected matches Some(h)
                    &&& c < h < items.len()
                    &&& is_heading(items[h as int])
                    &&& forall|j: int| c < j < h ==> !#[trigger] is_heading(items[j])
                } else {
                    final(self)@ == old(self)@
                }
            }),
    {
        proof {
            next_heading_is_nearest(self@.items, current_or_top(self@) + 1);
        }
        let current = match self.list_state.selected() {
            Some(i) => i,
            None => match self.selected {
                Some(i) => i,
                None => 0,
            },
        };
        let ghost items = self@.items;
        proof {
            lemma_next_heading_bounds(items, current + 1);
        }
        let mut i = current + 1;
        while i < self.treeitems.len()
            invariant
                self@ == old(self)@,
                items == self@.items,
                current + 1 <= i,
                current == current_or_top(old(self)@),
                next_heading(items, current + 1) == next_heading(items, i as int),
            decreases self.treeitems.len() - i,
        {
            if matches!(self.treeitems[i], FeedItemInfo::Category(_) | FeedItemInfo::ReadLater) {
                assert(next_heading(items, i as int) == Some(i as int));
                proof {
                    next_heading_is_nearest(items, current + 1);
                }
                assert(current_or_top(old(self)@) == current);
                assert(next_heading(old(self)@.items, current_or_top(old(self)@) + 1) == Some(i as int));
                self.list_state.select(Some(i));
                self.update_list_offset();
                assert(self@.selected == Some(i));
                return;
            }
            i += 1;
        }
        proof {
            next_heading_is_nearest(items, current + 1);
        }
    }

    /// Selects the nearest category heading (or the Read Later heading)
    /// above the selection; stays put when there is none.
    pub fn select_previous_category(&mut self)
        ensures
            old(self)@.same_rows(final(self)@),
            match prev_heading(old(self)@.items, min_int(current_or_top(old(self)@) as int, old(self)@.items.len() as int)) {
                Some(h) => old(self)@.shows_with_one_step(final(self)@, Some(h as usize)),
                None => final(self)@ == old(self)@,
            },
            ({
                let items = old(self)@.items;
                let c = min_int(current_or_top(old(self)@) as int, items.len() as int);
                if exists|h: int| 0 <= h < c && #[trigger] is_heading(items[h]) {
                    &&& final(self)@.selected matches Some(h)
                    &&& h < c
                    &&& is_heading(items[h as int])
                    &&& forall|j: int| h < j < c ==> !#[trigger] is_heading(items[j])
                } else {
                    final(self)@ == old(self)@
                }
            }),
    {
        proof {
            prev_heading_is_nearest(self@.items, min_int(current_or_top(self@) as int, self@.items.len() as int));
        }
        let current = match self.list_state.selected() {
            Some(i) => i,
            None => match self.selected {
                Some(i) => i,
                None => 0,
            },
        };
        let ghost items = self@.items;
        proof {
            lemma_prev_heading_bounds(items, min_int(current as int, items.len() as int));
        }
        let mut i = if current <= self.treeitems.len() { current } else { self.treeitems.len() };
        while i > 0
            invariant
                self@ == old(self)@,
                items == self@.items,
                i <= items.len(),
                current == current_or_top(old(self)@),
                prev_heading(items, min_int(current as int, items.len() as int)) == prev_heading(items, i as int),
            decreases i,
        {
            if matches!(self.treeitems[i - 1], FeedItemInfo::Category(_) | FeedItemInfo::ReadLater) {
                assert(prev_heading(items, i as int) == Some(i - 1));
                proof {
                    prev_heading_is_nearest(items, min_int(current as int, items.len() as int));
                }
                self.list_state.select(Some(i - 1));
                self.update_list_offset();
                return;
            }
            i -= 1;
        }
        proof {
            prev_heading_is_nearest(items, min_int(current as int, items.len() as int));
        }
    }

    /// Scrolls the view by `scroll_by` rows (up when negative) without moving
    /// the selection; a selection scrolled out of view is parked until it
    /// comes back. Lists that fit the view are not scrolled.
    pub fn scroll_by(&mut self, scroll_by: isize)
        requires
            scroll_by != isize::MIN,
        ensures
            final(self)@.items == old(self)@.items,
            final(self)@.visible_lines == old(self)@.visible_lines,
            final(self)@.generation == old(self)@.generation,
            final(self)@.read_later == old(self)@.read_later,
            final(self)@.unread == old(self)@.unread,
            final(self)@.current() == old(self)@.current(),
            ({
                let o = old(self)@;
                let f = final(self)@;
                if o.items.len() == 0 || o.items.len() < o.visible_lines {
                    f.offset == 0 && f.selected == o.selected && f.parked == o.parked
                } else {
                    let n = scrolled_offset(o.offset as int, scroll_by as int, o.max_offset());
                    &&& f.offset == n
                    &&& match o.current() {
                        Some(cs) => if cs >= o.visible_lines + n || cs < n {
                            f.selected is None && f.parked == Some(cs)
                        } else {
                            &&& f.parked == o.parked
                            &&& f.selected == (if !(o.items[cs as int] is Separator) { Some(cs) } else { o.selected })
                        },
                        None => f.selected == o.selected && f.parked == o.parked,
                    }
                }
            }),
    {
        if self.treeitems.len() == 0 || self.treeitems.len() < self.visible_lines {
            self.list_state.set_offset(0);
            return;
        }
        let scroll_by_u: usize = if scroll_by < 0 { (-scroll_by) as usize } else { scroll_by as usize };
        let current_selection = match self.list_state.selected() {
            Some(i) => Some(i),
            None => self.selected,
        };
        let current_offset = self.list_state.offset();
        let target = if scroll_by < 0 {
            current_offset.saturating_sub(scroll_by_u)
        } else {
            current_offset.saturating_add(scroll_by_u)
        };
        let max_offset = self.max_offset();
        let next_offset = if target <= max_offset { target } else { max_offset };
        if let Some(current_selection) = current_selection {
            if current_selection >= self.visible_lines + next_offset {
                self.selected = Some(current_selection);
                self.list_state.select(None);
            } else if current_selection < next_offset {
                self.selected = Some(current_selection);
                self.list_state.select(None);
            } else {
                self.select(current_selection);
            }
        }
        self.list_state.set_offset(next_offset);
    }
}

/// The selection in effect, or the top row when there is none.
pub open spec fn current_or_top(v: FeedTreeView) -> usize {
    match v.current() {
        Some(i) => i,
        None => 0,
    }
}

/// Rows left below the selection: shrinks with each step down.
pub open spec fn down_measure(v: FeedTreeView) -> int {
    match v.current() {
        Some(i) => v.items.len() - i,
        None => 0,
    }
}

/// The selected row's index: shrinks with each step up.
pub open spec fn up_measure(v: FeedTreeView) -> int {
    match v.current() {
        Some(i) => i as int,
        None => 0,
    }
}


proof fn lemma_landing_down_bounds(items: Seq<FeedItemInfo>, k: int)
    requires
        0 <= k,
        k + 1 < items.len(),
    ensures
        k + 1 <= landing_down(items, k) < items.len(),
    decreases items.len() - k,
{
    if items[k + 1] is Separator {
        if k + 2 < items.len() {
            lemma_landing_down_bounds(items, k + 1);
        } else {
            assert(landing_down(items, k + 1) == items.len() - 1);
        }
    }
}

proof fn lemma_landing_up_bounds(items: Seq<FeedItemInfo>, k: int)
    requires
        0 <= k,
    ensures
        0 <= landing_up(items, k) <= sat_sub(k, 1),
    decreases k,
{
    let j = sat_sub(k, 1);
    if k > 0 && j < items.len() && items[j] is Separator {
        lemma_landing_up_bounds(items, j);
    }
}

proof fn lemma_next_heading_bounds(items: Seq<FeedItemInfo>, from: int)
    ensures
        next_heading(items, from) matches Some(h) ==> from <= h < items.len() && is_heading(items[h]),
    decreases items.len() - from,
{
    if 0 <= from < items.len() && !is_heading(items[from]) {
        lemma_next_heading_bounds(items, from + 1);
    }
}

proof fn lemma_prev_heading_bounds(items: Seq<FeedItemInfo>, upto: int)
    requires
        upto <= items.len(),
    ensures
        prev_heading(items, upto) matches Some(h) ==> 0 <= h < upto && is_heading(items[h]),
    decreases upto,
{
    if upto > 0 && !is_heading(items[upto - 1]) {
        lemma_prev_heading_bounds(items, upto - 1);
    }
}


/// Moving down through the tree rests on a row that is no separator, as
/// long as the last row is none.
pub proof fn moving_down_skips_separators(items: Seq<FeedItemInfo>, k: int)
    requires
        0 <= k,
        items.len() > 0,
        !(items.last() is Separator),
    ensures
        0 <= landing_down(items, k) < items.len(),
        !(items[landing_down(items, k)] is Separator),
    decreases items.len() - k,
{
    if k + 1 < items.len() && items[k + 1] is Separator {
        moving_down_skips_separators(items, k + 1);
    }
}

/// Moving up through the tree rests on a row that is no separator, as long
/// as some row above is none.
pub proof fn moving_up_skips_separators(items: Seq<FeedItemInfo>, k: int)
    requires
        0 <= k,
        sat_sub(k, 1) < items.len(),
        !separators_through(items, sat_sub(k, 1)),
    ensures
        0 <= landing_up(items, k) <= sat_sub(k, 1),
        !(items[landing_up(items, k)] is Separator),
    decreases k,
{
    let j = sat_sub(k, 1);
    if k > 0 && items[j] is Separator {
        if j == 0 {
            assert(separators_through(items, j));
        } else {
            assert(!separators_through(items, j - 1)) by {
                if separators_through(items, j - 1) {
                    assert forall|m: int| 0 <= m <= j implies #[trigger] items[m] is Separator by {
                        if m < j {
                            assert(items[m] is Separator);
                        }
                    }
                }
            }
        }
        moving_up_skips_separators(items, j);
    } else if k == 0 {
        assert(!(items[0] is Separator)) by {
            if items[0] is Separator {
                assert(separators_through(items, 0));
            }
        }
    }
}

/// Bringing the selection into view never moves the tree past its largest
/// offset.
pub proof fn tree_offset_in_bounds(offset: usize, selection: Option<usize>, visible: usize, max_offset: usize, n: nat)
    requires
        n > 0,
    ensures
        0 <= tree_offset_steps(offset as int, selection, visible as int, max_offset as int, n) <= max_offset,
    decreases n,
{
    let prev = tree_offset_steps(offset as int, selection, visible as int, max_offset as int, (n - 1) as nat);
    if n > 1 {
        tree_offset_in_bounds(offset, selection, visible, max_offset, (n - 1) as nat);
    }
    assert(0 <= prev);
    assert(tree_offset_steps(offset as int, selection, visible as int, max_offset as int, n)
        == tree_offset_step(prev, selection, visible as int, max_offset as int));
}

/// Between two rows that are no separators, moving down and then up again
/// comes back to the row one started from.
pub proof fn up_undoes_down(items: Seq<FeedItemInfo>, k: int)
    requires
        0 <= k,
        k + 1 < items.len(),
        !(items[k] is Separator),
        !(items[k + 1] is Separator),
    ensures
        landing_down(items, k) == k + 1,
        landing_up(items, landing_down(items, k)) == k,
{
}

/// After one step of bringing a selected row into view, the row is on
/// screen and the offset lies within bounds.
pub proof fn tree_step_shows_selection(offset: usize, idx: usize, visible: usize, len: usize)
    requires
        visible >= 1,
        idx < len,
    ensures
        ({
            let o = tree_offset_step(offset as int, Some(idx), visible as int, max_offset_of(len as int, visible as int));
            &&& 0 <= o <= max_offset_of(len as int, visible as int)
            &&& o <= idx < o + visible
        }),
{
}

/// After any number of steps bringing a selected row into view, the row
/// is on screen and the offset lies within bounds.
pub proof fn tree_steps_show_selection(offset: usize, idx: usize, visible: usize, len: usize, n: nat)
    requires
        visible >= 1,
        idx < len,
        n > 0,
    ensures
        ({
            let o = tree_offset_steps(offset as int, Some(idx), visible as int, max_offset_of(len as int, visible as int), n);
            &&& 0 <= o <= max_offset_of(len as int, visible as int)
            &&& o <= idx < o + visible
        }),
    decreases n,
{
    let m = max_offset_of(len as int, visible as int);
    let prev = tree_offset_steps(offset as int, Some(idx), visible as int, m, (n - 1) as nat);
    if n > 1 {
        tree_steps_show_selection(offset, idx, visible, len, (n - 1) as nat);
        tree_step_shows_selection(prev as usize, idx, visible, len);
    } else {
        tree_step_shows_selection(offset, idx, visible, len);
    }
    assert(tree_offset_steps(offset as int, Some(idx), visible as int, m, n)
        == tree_offset_step(prev, Some(idx), visible as int, m));
}

/// The heading that moving up a category lands on is the nearest heading
/// above the given row: no heading lies between them, and where there is
/// none above, nothing is found.
pub proof fn prev_heading_is_nearest(items: Seq<FeedItemInfo>, upto: int)
    requires
        upto <= items.len(),
    ensures
        match prev_heading(items, upto) {
            Some(h) => {
                &&& 0 <= h < upto
                &&& is_heading(items[h])
                &&& forall|j: int| h < j < upto ==> !#[trigger] is_heading(items[j])
            },
            None => forall|j: int| 0 <= j < upto ==> !#[trigger] is_heading(items[j]),
        },
    decreases upto,
{
    if upto > 0 && !is_heading(items[upto - 1]) {
        prev_heading_is_nearest(items, upto - 1);
    }
}

/// The heading that moving down a category lands on is the nearest heading
/// at or below the given row: no heading lies between them, and where there
/// is none below, nothing is found.
pub proof fn next_heading_is_nearest(items: Seq<FeedItemInfo>, from: int)
    requires
        0 <= from,
    ensures
        match next_heading(items, from) {
            Some(h) => {
                &&& from <= h < items.len()
                &&& is_heading(items[h])
                &&& forall|j: int| from <= j < h ==> !#[trigger] is_heading(items[j])
            },
            None => forall|j: int| from <= j < items.len() ==> !#[trigger] is_heading(items[j]),
        },
    decreases items.len() - from,
{
    if from < items.len() && !is_heading(items[from]) {
        next_heading_is_nearest(items, from + 1);
    }
}

/// A feed's row shows its unread count whenever one is recorded and it is
/// above zero, as the feed icon, the title and the count in parentheses; with
/// no count recorded, or a count of zero, the row is the icon and the title
/// alone.
pub proof fn feed_row_title_shows_positive_count(
    t: String,
    c: String,
    s: String,
    unread: Map<(Seq<char>, Seq<char>), u16>,
    read_later: usize,
)
    ensures
        unread.contains_key((c@, s@)) && unread[(c@, s@)] > 0 ==> tree_row_title(
            FeedItemInfo::Item(t, c, s), unread, read_later)
            == " \u{f09e}  "@ + t@ + " ("@ + decimal(unread[(c@, s@)] as nat) + ")"@,
        !unread.contains_key((c@, s@)) || unread[(c@, s@)] == 0 ==> tree_row_title(
            FeedItemInfo::Item(t, c, s), unread, read_later) == " \u{f09e}  "@ + t@,
{
}

/// The Read Later heading shows its entry count whenever there is at least
/// one entry, in parentheses after the bookmark icon and the words; with no
/// entries it is the icon and the words alone.
pub proof fn read_later_row_shows_positive_count(unread: Map<(Seq<char>, Seq<char>), u16>, read_later: usize)
    ensures
        read_later > 0 ==> tree_row_title(FeedItemInfo::ReadLater, unread, read_later)
            == "\u{f02d} Read Later ("@ + decimal(read_later as nat) + ")"@,
        read_later == 0 ==> tree_row_title(FeedItemInfo::ReadLater, unread, read_later) == "\u{f02d} Read Later"@,
{
}

} // verus!
