//! The entry list: the entries of the selected category, feed or Read Later
//! section, with keyboard and mouse-wheel navigation over them.

use vstd::prelude::*;

use crate::feed::FeedEntry;
use crate::feedtreestate::{FeedItemInfo, FeedTreeState};
use crate::list_state::{abs_diff, min_int, sat_add, sat_sub, scrolled_offset, ListState};
use crate::theme::{is_blank_theme, Theme};

verus! {

#[verifier::external_type_specification]
#[verifier::external_body]
pub struct ExInstant(std::time::Instant);

/// How the scrollbar position is measured: by the selected entry when the
/// keyboard moves it, by the scroll offset when the mouse wheel does.
pub enum ScrollMeasureMode {
    Keyboard,
    Mouse,
}

/// Largest offset that still fills the view: `len - visible`, or 0.
pub open spec fn entry_max_offset(len: int, visible: int) -> int {
    sat_sub(len, visible)
}

/// The offset that the entry list moves to so that `selection` is in view,
/// starting from `offset`: scroll just enough to reveal the selection
/// (never past `max_offset`), and where that jumps by more than one row past
/// the first half screen, center the selection instead (favoring the higher
/// row for an even number of visible lines).
pub open spec fn entry_offset_step(offset: int, selection: Option<usize>, visible: int, max_offset: int) -> int {
    let revealed = match selection {
        Some(idx) => if idx < offset {
            idx as int
        } else if idx > sat_add(offset, sat_sub(visible, 1)) {
            sat_sub(idx as int, sat_sub(visible, 1))
        } else {
            offset
        },
        None => offset,
    };
    let next = min_int(revealed, max_offset);
    if abs_diff(next, offset) > 1 && next > visible / 2 && selection is Some {
        let centered = sat_sub(selection->0 as int, visible / 2);
        if centered > sat_sub(visible, 1) {
            min_int(sat_add(centered, sat_add(visible, 1) % 2), max_offset)
        } else {
            centered
        }
    } else {
        next
    }
}

/// What identifies the tree row whose entries the list shows: the category
/// title, the feed slug, `read_later` for the Read Later section, and nothing
/// for anything else.
pub open spec fn selection_key(row: Option<FeedItemInfo>) -> Seq<char> {
    match row {
        Some(FeedItemInfo::Category(t)) => t@,
        Some(FeedItemInfo::Item(_, _, s)) => s@,
        Some(FeedItemInfo::ReadLater) => "read_later"@,
        _ => Seq::empty(),
    }
}

/// Where the entries for a tree row come from.
pub enum EntrySource {
    /// The entries of every feed in the category with this title.
    Category(String),
    /// The entries of the feed with this slug.
    Feed(String),
    /// The Read Later entries.
    ReadLater,
    /// No entries (a separator, or nothing selected).
    Empty,
}

/// The source of the entries for a tree row.
pub open spec fn source_of(row: Option<FeedItemInfo>) -> EntrySource {
    match row {
        Some(FeedItemInfo::Category(t)) => EntrySource::Category(t),
        Some(FeedItemInfo::Item(_, _, s)) => EntrySource::Feed(s),
        Some(FeedItemInfo::ReadLater) => EntrySource::ReadLater,
        _ => EntrySource::Empty,
    }
}

/// A refresh of the entry list that `update` asks for: where to read the
/// entries from, and whether the tree selection changed (so that the list
/// goes back to its first entry).
pub struct EntryRefresh {
    pub source: EntrySource,
    pub selection_changed: bool,
}

/// What the entry list's contracts speak of.
pub struct FeedEntryView {
    pub entries: Seq<FeedEntry>,
    /// Index of the first entry shown.
    pub offset: usize,
    /// The list's own selection.
    pub selected: Option<usize>,
    pub visible_lines: usize,
    /// The selection kept aside while the selected entry is scrolled out of view.
    pub parked: Option<usize>,
    /// Key of the tree row the entries were read for.
    pub previous_selected: Seq<char>,
    /// The library generation the entries were read from.
    pub generation: u64,
    /// Paths of the entries that are in Read Later.
    pub read_later_paths: Seq<Seq<char>>,
    pub theme: Theme,
    /// Whether the scrollbar follows the scroll offset (mouse) rather than
    /// the selection (keyboard).
    pub measure_by_mouse: bool,
    /// When the list was last clicked.
    pub last_click: Option<std::time::Instant>,
}

impl FeedEntryView {
    /// The selection in effect: the list's own, else the parked one.
    pub open spec fn current(self) -> Option<usize> {
        match self.selected {
            Some(i) => Some(i),
            None => self.parked,
        }
    }

    pub open spec fn max_offset(self) -> int {
        entry_max_offset(self.entries.len() as int, self.visible_lines as int)
    }

    /// The state of a new entry list: no entries, the first one selected
    /// (and parked), no view height yet, nothing read, measured by keyboard,
    /// drawn with the blank default theme.
    pub open spec fn fresh(self) -> bool {
        &&& self.entries.len() == 0
        &&& self.selected == Some(0usize)
        &&& self.offset == 0
        &&& self.parked == Some(0usize)
        &&& self.visible_lines == 0
        &&& self.previous_selected.len() == 0
        &&& self.generation == u64::MAX
        &&& self.read_later_paths.len() == 0
        &&& !self.measure_by_mouse
        &&& self.last_click is None
        &&& is_blank_theme(self.theme)
    }

    /// `next` differs from `self` in the list state alone.
    pub open spec fn same_entries(self, next: Self) -> bool {
        &&& next.entries == self.entries
        &&& next.visible_lines == self.visible_lines
        &&& next.parked == self.parked
        &&& next.previous_selected == self.previous_selected
        &&& next.generation == self.generation
        &&& next.read_later_paths == self.read_later_paths
        &&& next.theme == self.theme
        &&& next.measure_by_mouse == self.measure_by_mouse
        &&& next.last_click == self.last_click
    }

    /// `next` shows `selection` selected, with the view moved towards it.
    pub open spec fn shows_with_step(self, next: Self, selection: Option<usize>) -> bool {
        &&& next.selected == selection
        &&& next.offset == entry_offset_step(self.offset as int, selection, self.visible_lines as int, self.max_offset())
    }

    /// The state after `select_last`: the last entry selected and the view at
    /// its largest offset (unchanged for an empty list).
    pub open spec fn after_select_last(self, next: Self) -> bool {
        if self.entries.len() == 0 {
            next.selected == self.selected && next.offset == self.offset
        } else {
            next.selected == Some((self.entries.len() - 1) as usize) && next.offset == self.max_offset()
        }
    }
}

/// The title line of an entry: a newspaper icon and the title, a bookmark
/// icon when the entry is in Read Later, and a dot when it is unseen.
pub open spec fn entry_title(e: FeedEntry, read_later_paths: Seq<Seq<char>>) -> Seq<char> {
    " \u{f1ea} "@ + e.title@
        + (if read_later_paths.contains(e.filepath@) { " \u{f02d}"@ } else { Seq::empty() })
        + (if !e.seen { " \u{e3e3}"@ } else { Seq::empty() })
}

/// Whether a title line drawn for an entry titled `title` carries the Read
/// Later bookmark right after the newspaper icon and the title.
pub open spec fn shows_bookmark(line: Seq<char>, title: Seq<char>) -> bool {
    let n = (" \u{f1ea} "@ + title).len() as int;
    line.len() >= n + 2 && line.subrange(n, n + 2) == " \u{f02d}"@
}

/// Whether the marks that follow the icon and the title in a title line for
/// an entry titled `title` end with the unseen dot.
pub open spec fn shows_unseen_dot(line: Seq<char>, title: Seq<char>) -> bool {
    let n = (" \u{f1ea} "@ + title).len() as int;
    line.len() >= n + 2 && line.subrange(line.len() - 2, line.len() as int) == " \u{e3e3}"@
}

/// The lines an entry is drawn with, with their colors: its title (bold),
/// a byline with the date and author, and the start of its description.
pub struct EntryItem {
    pub title: String,
    pub title_color: u32,
    pub byline: String,
    pub byline_color: u32,
    pub description: String,
    pub description_color: u32,
}

/// The color of an entry's title: the unread color while unseen, the read
/// color once seen.
pub open spec fn entry_title_color(e: FeedEntry, theme: Theme) -> u32 {
    if !e.seen { theme.base@[9] } else { theme.base@[6] }
}

/// The byline of an entry: a calendar icon and the date, then a feed icon
/// and the author.
pub open spec fn entry_byline(e: FeedEntry, date: Seq<char>) -> Seq<char> {
    " \u{f0520} "@ + date + " | \u{f09e} "@ + e.author@
}

/// The description line of an entry: its description followed by an
/// ellipsis.
pub open spec fn entry_description(e: FeedEntry) -> Seq<char> {
    " "@ + e.description@ + "..."@
}

/// Navigation state of the entry list.
pub struct FeedEntryState {
    pub entries: Vec<FeedEntry>,
    pub list_state: ListState,
    pub previous_selected: String,
    pub last_click: Option<std::time::Instant>,
    pub visible_lines: usize,
    theme: Theme,
    last_generation: u64,
    /// Paths of the Read Later entries. A list rather than a hash set: the
    /// paths are strings, and what a hash set's membership test does with
    /// string keys is not known to the verifier.
    read_later_paths: Vec<String>,
    selected: Option<usize>,
    scroll_measure: ScrollMeasureMode,
}

impl View for FeedEntryState {
    type V = FeedEntryView;

    closed spec fn view(&self) -> FeedEntryView {
        FeedEntryView {
            entries: self.entries@,
            offset: self.list_state.offset,
            selected: self.list_state.selected,
            visible_lines: self.visible_lines,
            parked: self.selected,
            previous_selected: self.previous_selected@,
            generation: self.last_generation,
            read_later_paths: self.read_later_paths@.map_values(|p: String| p@),
            theme: self.theme,
            measure_by_mouse: self.scroll_measure is Mouse,
            last_click: self.last_click,
        }
    }
}

impl Default for FeedEntryState {
    fn default() -> (s: Self)
        ensures
            s@.fresh(),
    {
        Self::new()
    }
}

impl FeedEntryState {
    pub fn new() -> (s: Self)
        ensures
            s@.fresh(),
    {
        FeedEntryState {
            entries: Vec::new(),
            list_state: ListState::default().with_selected(Some(0)),
            previous_selected: String::new(),
            theme: Theme::default(),
            last_generation: u64::MAX,
            last_click: None,
            read_later_paths: Vec::new(),
            visible_lines: 0,
            selected: Some(0),
            scroll_measure: ScrollMeasureMode::Keyboard,
        }
    }

    fn max_offset(&self) -> (r: usize)
        ensures
            r == self@.max_offset(),
    {
        self.entries.len().saturating_sub(self.visible_lines)
    }

    /// Moves the view so that the selection is shown.
    fn update_list_offset(&mut self)
        ensures
            old(self)@.same_entries(final(self)@),
            old(self)@.shows_with_step(final(self)@, old(self)@.selected),
    {
        let current_offset = self.list_state.offset();
        let current_selection = self.list_state.selected();
        let max_offset = self.max_offset();
        let window_end = current_offset.saturating_add(self.visible_lines.saturating_sub(1));
        let revealed = match current_selection {
            Some(idx) => if idx < current_offset {
                idx
            } else if idx > window_end {
                idx.saturating_sub(self.visible_lines.saturating_sub(1))
            } else {
                current_offset
            },
            None => current_offset,
        };
        let mut next_offset = if revealed <= max_offset { revealed } else { max_offset };
        let distance = if next_offset >= current_offset {
            next_offset - current_offset
        } else {
            current_offset - next_offset
        };
        if distance > 1 && next_offset > self.visible_lines / 2 {
            if let Some(idx) = current_selection {
                next_offset = idx.saturating_sub(self.visible_lines / 2);
                if next_offset > self.visible_lines.saturating_sub(1) {
                    let shifted = next_offset.saturating_add(self.visible_lines.saturating_add(1) % 2);
                    next_offset = if shifted <= max_offset { shifted } else { max_offset };
                }
            }
        }
        self.list_state.set_offset(next_offset);
    }

    /// Sets how many entries the view shows.
    pub fn set_visible_lines(&mut self, visible_lines: usize)
        ensures
            final(self)@ == (FeedEntryView { visible_lines: visible_lines, ..old(self)@ }),
    {
        self.visible_lines = visible_lines;
    }

    /// Replaces the entries.
    pub fn set_entries(&mut self, entries: Vec<FeedEntry>)
        ensures
            final(self)@ == (FeedEntryView { entries: entries@, ..old(self)@ }),
    {
        self.entries = entries;
    }

    /// The theme the list is drawn with.
    pub fn theme(&self) -> (r: &Theme)
        ensures
            *r == self@.theme,
    {
        &self.theme
    }

    /// The entry that the selection in effect names, if any.
    pub fn get_selected(&self) -> (r: Option<FeedEntry>)
        ensures
            r == (match self@.current() {
                Some(i) => if i < self@.entries.len() { Some(self@.entries[i as int]) } else { None },
                None => None,
            }),
    {
        let current = match self.list_state.selected() {
            Some(i) => Some(i),
            None => self.selected,
        };
        if let Some(idx) = current {
            if idx < self.entries.len() {
                return Some(self.entries[idx].clone());
            }
        }
        None
    }

    /// Marks the entry the list selects as seen.
    pub fn set_current_read(&mut self)
        ensures
            final(self)@ == (match old(self)@.selected {
                Some(i) => if i < old(self)@.entries.len() {
                    (FeedEntryView {
                        entries: old(self)@.entries.update(
                            i as int,
                            (FeedEntry { seen: true, ..old(self)@.entries[i as int] }),
                        ),
                        ..old(self)@
                    })
                } else {
                    old(self)@
                },
                None => old(self)@,
            }),
    {
        if let Some(selected) = self.list_state.selected() {
            if selected < self.entries.len() {
                let mut entry = self.entries[selected].clone();
                entry.seen = true;
                self.entries.set(selected, entry);
            }
        }
    }

    /// Moves the selection to the next entry and brings it into view (a
    /// selection on the last entry moves one past it; rendering clamps it).
    /// A selection past the end moves to the last entry.
    pub fn select_next(&mut self)
        ensures
            old(self)@.same_entries(final(self)@),
            old(self)@.entries.len() == 0 ==> final(self)@ == old(self)@,
            old(self)@.entries.len() > 0 ==> {
                let s = match old(self)@.current() {
                    Some(i) => i,
                    None => 0,
                };
                if s >= old(self)@.entries.len() {
                    old(self)@.after_select_last(final(self)@)
                } else {
                    old(self)@.shows_with_step(final(self)@, Some((s + 1) as usize))
                }
            },
            ({
                let o = old(self)@;
                (o.current() matches Some(s) && s < o.entries.len() && o.visible_lines >= 1 && o.offset <= o.max_offset()
                    && o.offset <= s < o.offset + o.visible_lines) ==> abs_diff(final(self)@.offset as int, o.offset as int) <= 1
            }),
    {
        proof {
            if let Some(s) = self@.current() {
                if s < self@.entries.len() && self@.visible_lines >= 1 && self@.offset <= self@.max_offset()
                    && self@.offset <= s < self@.offset + self@.visible_lines {
                    assert(self@.entries.len() == self.entries.len());
                    entry_single_step_scrolls_one_row(self@.offset, s, (s + 1) as usize, self@.visible_lines,
                        self@.max_offset());
                }
            }
        }
        if self.entries.len() == 0 {
            return;
        }
        let selected = match self.list_state.selected() {
            Some(i) => i,
            None => match self.selected {
                Some(i) => i,
                None => 0,
            },
        };
        if selected >= self.entries.len() {
            self.select_last();
            return;
        }
        self.list_state.select(Some(selected));
        self.list_state.select_next();
        self.update_list_offset();
    }

    /// Moves the selection to the previous entry (staying on the first) and
    /// brings it into view. A selection past the end moves to the last entry.
    pub fn select_previous(&mut self)
        ensures
            old(self)@.same_entries(final(self)@),
            old(self)@.entries.len() == 0 ==> final(self)@ == old(self)@,
            old(self)@.entries.len() > 0 ==> {
                let s = match old(self)@.current() {
                    Some(i) => i,
                    None => 0,
                };
                if s >= old(self)@.entries.len() {
                    old(self)@.after_select_last(final(self)@)
                } else {
                    old(self)@.shows_with_step(final(self)@, Some(sat_sub(s as int, 1) as usize))
                }
            },
            ({
                let o = old(self)@;
                (o.current() matches Some(s) && s < o.entries.len() && o.visible_lines >= 1 && o.offset <= o.max_offset()
                    && o.offset <= s < o.offset + o.visible_lines) ==> abs_diff(final(self)@.offset as int, o.offset as int) <= 1
            }),
    {
        proof {
            if let Some(s) = self@.current() {
                if s < self@.entries.len() && self@.visible_lines >= 1 && self@.offset <= self@.max_offset()
                    && self@.offset <= s < self@.offset + self@.visible_lines {
                    entry_single_step_scrolls_one_row(self@.offset, s, sat_sub(s as int, 1) as usize,
                        self@.visible_lines, self@.max_offset());
                }
            }
        }
        if self.entries.len() == 0 {
            return;
        }
        let selected = match self.list_state.selected() {
            Some(i) => i,
            None => match self.selected {
                Some(i) => i,
                None => 0,
            },
        };
        if selected >= self.entries.len() {
            self.select_last();
        } else {
            self.list_state.select(Some(selected));
            self.list_state.select_previous();
            self.update_list_offset();
        }
    }

    /// Selects the first entry and brings it into view.
    pub fn select_first(&mut self)
        ensures
            old(self)@.same_entries(final(self)@),
            old(self)@.entries.len() == 0 ==> final(self)@ == old(self)@,
            old(self)@.entries.len() > 0 ==> old(self)@.shows_with_step(final(self)@, Some(0usize)),
    {
        if self.entries.len() == 0 {
            return;
        }
        self.list_state.select_first();
        self.update_list_offset();
    }

    /// Selects the last entry and scrolls to the end of the list.
    pub fn select_last(&mut self)
        ensures
            old(self)@.same_entries(final(self)@),
            old(self)@.after_select_last(final(self)@),
    {
        if self.entries.len() == 0 {
            return;
        }
        let max_offset = self.max_offset();
        self.list_state.set_offset(max_offset);
        self.list_state.select(Some(self.entries.len() - 1));
    }

    /// The largest scrollbar position: the largest offset when measuring by
    /// mouse, the last entry's index when measuring by keyboard.
    pub fn scroll_max(&self) -> (r: usize)
        ensures
            r == (if self@.measure_by_mouse {
                self@.max_offset()
            } else {
                sat_sub(self@.entries.len() as int, 1)
            }),
    {
        match self.scroll_measure {
            ScrollMeasureMode::Mouse => self.max_offset(),
            ScrollMeasureMode::Keyboard => self.entries.len().saturating_sub(1),
        }
    }

    /// The scrollbar position: the offset when measuring by mouse, the
    /// selected entry (else the offset) when measuring by keyboard.
    pub fn scroll(&self) -> (r: usize)
        ensures
            r == (if self@.measure_by_mouse {
                self@.offset
            } else {
                match self@.selected {
                    Some(i) => i,
                    None => self@.offset,
                }
            }),
    {
        match self.scroll_measure {
            ScrollMeasureMode::Mouse => self.list_state.offset(),
            ScrollMeasureMode::Keyboard => match self.list_state.selected() {
                Some(i) => i,
                None => self.list_state.offset(),
            },
        }
    }

    /// Selects entry `index` when there is one, then brings the selection
    /// into view.
    pub fn select(&mut self, index: usize)
        ensures
            old(self)@.same_entries(final(self)@),
            old(self)@.shows_with_step(
                final(self)@,
                if index < old(self)@.entries.len() { Some(index) } else { old(self)@.selected },
            ),
    {
        if index < self.entries.len() {
            self.list_state.select(Some(index));
        }
        self.update_list_offset();
    }

    /// Scrolls the view by `scroll_by` entries (up when negative) without
    /// moving the selection; a selection scrolled out of view is parked until
    /// it comes back. Lists that fit the view are not scrolled.
    pub fn scroll_by(&mut self, scroll_by: isize)
        requires
            scroll_by != isize::MIN,
        ensures
            final(self)@.entries == old(self)@.entries,
            final(self)@.visible_lines == old(self)@.visible_lines,
            final(self)@.previous_selected == old(self)@.previous_selected,
            final(self)@.generation == old(self)@.generation,
            final(self)@.read_later_paths == old(self)@.read_later_paths,
            final(self)@.theme == old(self)@.theme,
            final(self)@.measure_by_mouse == old(self)@.measure_by_mouse,
            final(self)@.last_click == old(self)@.last_click,
            final(self)@.current() == old(self)@.current(),
            ({
                let o = old(self)@;
                let f = final(self)@;
                if o.entries.len() == 0 || o.entries.len() < o.visible_lines {
                    f.offset == 0 && f.selected == o.selected && f.parked == o.parked
                } else {
                    let n = scrolled_offset(o.offset as int, scroll_by as int, o.max_offset());
                    &&& f.offset == n
                    &&& match o.current() {
                        Some(cs) => if cs >= o.visible_lines + n || cs < n {
                            f.selected is None && f.parked == Some(cs)
                        } else {
                            f.parked == o.parked && f.selected == Some(cs)
                        },
                        None => f.selected == o.selected && f.parked == o.parked,
                    }
                }
            }),
    {
        if self.entries.len() == 0 || self.entries.len() < self.visible_lines {
            self.list_state.set_offset(0);
            return;
        }
        let scroll_by_u: usize = if scroll_by < 0 { (-scroll_by) as usize } else { scroll_by as usize };
        let current_selection = match self.list_state.selected() {
            Some(i) => Some(i),
            None => self.selected,
        };
        let current_offset = self.list_state.offset();
        let target = if scroll_by < 0 {
            current_offset.saturating_sub(scroll_by_u)
        } else {
            current_offset.saturating_add(scroll_by_u)
        };
        let max_offset = self.max_offset();
        let next_offset = if target <= max_offset { target } else { max_offset };
        if let Some(current_selection) = current_selection {
            if current_selection >= self.visible_lines + next_offset {
                self.selected = Some(current_selection);
                self.list_state.select(None);
            } else if current_selection < next_offset {
                self.selected = Some(current_selection);
                self.list_state.select(None);
            } else {
                self.select(current_selection);
            }
        }
        self.list_state.set_offset(next_offset);
    }

    /// Measures the scrollbar by the scroll offset.
    pub fn set_scroll_measure_mouse(&mut self)
        ensures
            final(self)@ == (FeedEntryView { measure_by_mouse: true, ..old(self)@ }),
    {
        self.scroll_measure = ScrollMeasureMode::Mouse;
    }

    /// Measures the scrollbar by the selected entry.
    pub fn set_scroll_measure_key(&mut self)
        ensures
            final(self)@ == (FeedEntryView { measure_by_mouse: false, ..old(self)@ }),
    {
        self.scroll_measure = ScrollMeasureMode::Keyboard;
    }

    /// Takes the theme to draw with and decides whether the entries must be
    /// read again: they must when the library generation or the tree row
    /// they were read for changed. Returns where to read them from, or none
    /// when the list is up to date.
    pub fn update(&mut self, theme: Theme, generation: u64, treestate: &FeedTreeState) -> (r: Option<EntryRefresh>)
        ensures
            ({
                let o = old(self)@;
                let f = final(self)@;
                let row = treestate@.selected_row();
                let key = selection_key(row);
                if generation == o.generation && key == o.previous_selected {
                    &&& r is None
                    &&& f == (FeedEntryView { theme: theme, ..o })
                } else {
                    &&& r == Some(EntryRefresh { source: source_of(row), selection_changed: key != o.previous_selected })
                    &&& f == (FeedEntryView { theme: theme, generation: generation, previous_selected: key, ..o })
                }
            }),
    {
        let row = treestate.get_selected();
        let current_selected: String = match row {
            Some(FeedItemInfo::Category(t)) => t.clone(),
            Some(FeedItemInfo::Item(_, _, s)) => s.clone(),
            Some(FeedItemInfo::ReadLater) => String::from_str("read_later"),
            _ => String::new(),
        };
        self.theme = theme;
        let same_selection = current_selected == self.previous_selected;
        if generation == self.last_generation && same_selection {
            return None;
        }
        self.last_generation = generation;
        self.previous_selected = current_selected;
        let source = match row {
            Some(FeedItemInfo::Category(t)) => EntrySource::Category(t.clone()),
            Some(FeedItemInfo::Item(_, _, s)) => EntrySource::Feed(s.clone()),
            Some(FeedItemInfo::ReadLater) => EntrySource::ReadLater,
            _ => EntrySource::Empty,
        };
        Some(EntryRefresh { source, selection_changed: !same_selection })
    }

    /// Installs the entries read for a refresh and the paths of the Read
    /// Later entries; a changed tree selection goes back to the first entry.
    pub fn finish_update(&mut self, refresh: &EntryRefresh, entries: Vec<FeedEntry>, read_later_paths: Vec<String>)
        ensures
            ({
                let o = old(self)@;
                let f = final(self)@;
                let installed = FeedEntryView {
                    entries: entries@,
                    read_later_paths: read_later_paths@.map_values(|p: String| p@),
                    ..o
                };
                if refresh.selection_changed && entries@.len() > 0 {
                    &&& installed.same_entries(f)
                    &&& installed.shows_with_step(f, Some(0usize))
                } else {
                    f == installed
                }
            }),
    {
        self.entries = entries;
        self.read_later_paths = read_later_paths;
        if refresh.selection_changed {
            self.select_first();
        }
    }

    /// Whether the entry stored at `path` is in Read Later.
    pub fn is_read_later(&self, path: &String) -> (r: bool)
        ensures
            r == self@.read_later_paths.contains(path@),
    {
        let mut i: usize = 0;
        while i < self.read_later_paths.len()
            invariant
                i <= self.read_later_paths@.len(),
                forall|k: int| 0 <= k < i ==> self.read_later_paths@[k]@ != path@,
            decreases self.read_later_paths@.len() - i,
        {
            if self.read_later_paths[i] == *path {
                proof {
                    assert(self@.read_later_paths[i as int] == path@);
                }
                return true;
            }
            i += 1;
        }
        proof {
            if self@.read_later_paths.contains(path@) {
                let k = choose|k: int| 0 <= k < self@.read_later_paths.len() && self@.read_later_paths[k] == path@;
                assert(self.read_later_paths@[k]@ == path@);
            }
        }
        false
    }

    /// The lines of entry `index` as drawn with the list's theme, its date
    /// written as `date`; none past the end.
    pub fn get_item(&self, index: usize, date: &String) -> (r: Option<EntryItem>)
        ensures
            index >= self@.entries.len() ==> r is None,
            index < self@.entries.len() ==> (r matches Some(item) && {
                let e = self@.entries[index as int];
                let t = self@.theme;
                &&& item.title@ == entry_title(e, self@.read_later_paths)
                &&& item.title_color == entry_title_color(e, t)
                &&& item.byline@ == entry_byline(e, date@)
                &&& item.byline_color == t.base@[5]
                &&& item.description@ == entry_description(e)
                &&& item.description_color == t.base@[4]
                &&& shows_bookmark(item.title@, e.title@) <==> self@.read_later_paths.contains(e.filepath@)
                &&& shows_unseen_dot(item.title@, e.title@) <==> !e.seen
            }),
    {
        if index >= self.entries.len() {
            return None;
        }
        proof {
            entry_title_marks(self@.entries[index as int], self@.read_later_paths);
        }
        let entry = &self.entries[index];
        let mut title = String::from_str(" \u{f1ea} ");
        title.append(entry.title.as_str());
        if self.is_read_later(&entry.filepath) {
            title.append(" \u{f02d}");
        }
        if !entry.seen {
            title.append(" \u{e3e3}");
        }
        let title_color = if !entry.seen { self.theme.base[9] } else { self.theme.base[6] };
        let mut byline = String::from_str(" \u{f0520} ");
        byline.append(date.as_str());
        byline.append(" | \u{f09e} ");
        byline.append(entry.author.as_str());
        let mut description = String::from_str(" ");
        description.append(entry.description.as_str());
        description.append("...");
        Some(EntryItem {
            title,
            title_color,
            byline,
            byline_color: self.theme.base[5],
            description,
            description_color: self.theme.base[4],
        })
    }

    /// The title line of each entry, in order.
    pub fn get_item_titles(&self) -> (r: Vec<String>)
        ensures
            r@.len() == self@.entries.len(),
            forall|i: int| 0 <= i < r@.len() ==> #[trigger] r@[i]@ == entry_title(
                self@.entries[i], self@.read_later_paths),
            forall|i: int| 0 <= i < r@.len() ==> {
                &&& shows_bookmark(#[trigger] r@[i]@, self@.entries[i].title@)
                    <==> self@.read_later_paths.contains(self@.entries[i].filepath@)
                &&& shows_unseen_dot(r@[i]@, self@.entries[i].title@) <==> !self@.entries[i].seen
            },
    {
        let mut titles: Vec<String> = Vec::new();
        let mut i: usize = 0;
        while i < self.entries.len()
            invariant
                i <= self.entries@.len(),
                titles@.len() == i,
                forall|k: int| 0 <= k < i ==> #[trigger] titles@[k]@ == entry_title(
                    self@.entries[k], self@.read_later_paths),
            decreases self.entries@.len() - i,
        {
            let entry = &self.entries[i];
            let mut title = String::from_str(" \u{f1ea} ");
            title.append(entry.title.as_str());
            if self.is_read_later(&entry.filepath) {
                title.append(" \u{f02d}");
            }
            if !entry.seen {
                title.append(" \u{e3e3}");
            }
            titles.push(title);
            i += 1;
        }
        proof {
            assert forall|k: int| 0 <= k < titles@.len() implies {
                &&& shows_bookmark(#[trigger] titles@[k]@, self@.entries[k].title@)
                    <==> self@.read_later_paths.contains(self@.entries[k].filepath@)
                &&& shows_unseen_dot(titles@[k]@, self@.entries[k].title@) <==> !self@.entries[k].seen
            } by {
                entry_title_marks(self@.entries[k], self@.read_later_paths);
            }
        }
        titles
    }
}

/// Once the entry list is scrolled within its bounds, bringing the
/// selection into view keeps it there.
pub proof fn entry_offset_in_bounds(offset: usize, selection: Option<usize>, visible: usize, max_offset: usize)
    requires
        offset <= max_offset,
    ensures
        0 <= entry_offset_step(offset as int, selection, visible as int, max_offset as int) <= max_offset,
{
}

/// Bringing a selected entry into view puts it on screen, from any offset;
/// from an offset within bounds the new offset stays within bounds too.
/// (From an offset past the bounds it may stay past them: with 16 entries,
/// 10 visible lines, offset 13 and entry 13 selected, the new offset is 8,
/// beyond the largest offset 6.)
pub proof fn entry_step_shows_selection(offset: usize, idx: usize, visible: usize, len: usize)
    requires
        visible >= 1,
        idx < len,
    ensures
        ({
            let m = entry_max_offset(len as int, visible as int);
            let o = entry_offset_step(offset as int, Some(idx), visible as int, m);
            &&& 0 <= o <= idx < o + visible
            &&& offset <= m ==> o <= m
        }),
{
}

/// Moving the selection by one entry from a row on screen scrolls the view
/// by at most one row: only a longer jump of the view recenters it.
pub proof fn entry_single_step_scrolls_one_row(offset: usize, old_sel: usize, new_sel: usize, visible: usize, max_offset: int)
    requires
        visible >= 1,
        offset <= max_offset,
        offset <= old_sel < offset + visible,
        new_sel == old_sel + 1 || new_sel + 1 == old_sel || new_sel == old_sel,
    ensures
        abs_diff(entry_offset_step(offset as int, Some(new_sel), visible as int, max_offset), offset as int) <= 1,
{
}

/// An entry's title line starts with the newspaper icon and the title; the
/// Read Later bookmark follows the title exactly when the entry's file is in
/// Read Later, seen or not; and the marks end with the unseen dot exactly
/// when the entry is unseen, in Read Later or not.
pub proof fn entry_title_marks(e: FeedEntry, read_later_paths: Seq<Seq<char>>)
    ensures
        ({
            let line = entry_title(e, read_later_paths);
            let head = " \u{f1ea} "@ + e.title@;
            &&& line.len() >= head.len()
            &&& line.subrange(0, head.len() as int) == head
            &&& shows_bookmark(line, e.title@) <==> read_later_paths.contains(e.filepath@)
            &&& shows_unseen_dot(line, e.title@) <==> !e.seen
        }),
{
    reveal_strlit(" \u{f02d}");
    reveal_strlit(" \u{e3e3}");
    let head = " \u{f1ea} "@ + e.title@;
    let mark: Seq<char> = if read_later_paths.contains(e.filepath@) { " \u{f02d}"@ } else { Seq::empty() };
    let dot: Seq<char> = if !e.seen { " \u{e3e3}"@ } else { Seq::empty() };
    let line = entry_title(e, read_later_paths);
    let n = head.len() as int;
    assert(line == head + mark + dot);
    assert(line.subrange(0, n) =~= head);
    if mark.len() > 0 {
        assert(line.subrange(n, n + 2) =~= mark);
    } else if dot.len() > 0 {
        assert(line.subrange(n, n + 2) =~= dot);
        assert(line.subrange(n, n + 2)[1] != " \u{f02d}"@[1]);
    }
    if dot.len() > 0 {
        assert(line.subrange(line.len() - 2, line.len() as int) =~= dot);
    } else if mark.len() > 0 {
        assert(line.subrange(line.len() - 2, line.len() as int) =~= mark);
        assert(line.subrange(line.len() - 2, line.len() as int)[1] != " \u{e3e3}"@[1]);
    }
}

} // verus!
