//! The help dialog: the current screen's key instructions and an About tab.

use vstd::prelude::*;

use crate::input::{is_close_key, key_closes, DialogEvent, Event, KeyCode, KeyEvent, KeyEventKind};
use crate::instructions::{count_instruction_lines, instruction_lines, InstructionCategory, InstructionDetail, ScreenInstructions};
use crate::theme::Theme;
use crate::list_state::{min_int, sat_sub};
use crate::mouse::Rect;

verus! {

/// What the help dialog's contracts speak of.
pub struct HelpDialogView {
    /// 0 for the instructions, 1 for About.
    pub active_tab: usize,
    /// First line of the instructions shown.
    pub scroll: u16,
    /// Largest scroll that still fills the view.
    pub scrollmax: u16,
    pub instructions: ScreenInstructions,
}

/// The help dialog's state.
pub struct HelpDialog {
    instructions: ScreenInstructions,
    active_tab: usize,
    scroll: u16,
    scrollmax: u16,
}

impl View for HelpDialog {
    type V = HelpDialogView;

    closed spec fn view(&self) -> HelpDialogView {
        HelpDialogView {
            active_tab: self.active_tab,
            scroll: self.scroll,
            scrollmax: self.scrollmax,
            instructions: self.instructions,
        }
    }
}

/// A line of the instructions tab with its colors: a category name (bold),
/// a blank line, or a key binding (its keys padded, then its description).
pub enum HelpLine {
    Heading(String, u32),
    Blank,
    Binding(String, u32, String, u32),
}

/// A line of the instructions tab as the contracts speak of it.
pub enum HelpLineView {
    Heading(Seq<char>, u32),
    Blank,
    Binding(Seq<char>, u32, Seq<char>, u32),
}

pub open spec fn help_line_view(line: HelpLine) -> HelpLineView {
    match line {
        HelpLine::Heading(t, c) => HelpLineView::Heading(t@, c),
        HelpLine::Blank => HelpLineView::Blank,
        HelpLine::Binding(k, kc, d, dc) => HelpLineView::Binding(k@, kc, d@, dc),
    }
}

/// `n` spaces.
pub open spec fn spaces(n: nat) -> Seq<char> {
    Seq::new(n, |i: int| ' ')
}

/// The keys of a binding indented by two spaces and padded with spaces to
/// 19 characters (longer keys are kept whole).
pub open spec fn padded_keys(keys: Seq<char>) -> Seq<char> {
    "  "@ + keys + spaces(if keys.len() < 19 { (19 - keys.len()) as nat } else { 0 })
}

pub open spec fn binding_line(d: InstructionDetail, theme: Theme) -> HelpLineView {
    HelpLineView::Binding(padded_keys(d.keys@), theme.base@[6], d.description@, theme.base@[4])
}

/// The lines of one category: its name, a blank line, its bindings and a
/// blank line.
pub open spec fn category_help_lines(c: InstructionCategory, theme: Theme) -> Seq<HelpLineView> {
    seq![HelpLineView::Heading(c.name@, theme.base@[8]), HelpLineView::Blank]
        + c.details@.map_values(|d: InstructionDetail| binding_line(d, theme))
        + seq![HelpLineView::Blank]
}

/// The lines of the instructions tab.
pub open spec fn help_lines(categories: Seq<InstructionCategory>, theme: Theme) -> Seq<HelpLineView>
    decreases categories.len(),
{
    if categories.len() == 0 {
        Seq::empty()
    } else {
        help_lines(categories.drop_last(), theme) + category_help_lines(categories.last(), theme)
    }
}

proof fn lemma_view_push(lines: Seq<HelpLine>, line: HelpLine)
    ensures
        lines.push(line).map_values(|l: HelpLine| help_line_view(l))
            == lines.map_values(|l: HelpLine| help_line_view(l)).push(help_line_view(line)),
{
    assert(lines.push(line).map_values(|l: HelpLine| help_line_view(l))
        =~= lines.map_values(|l: HelpLine| help_line_view(l)).push(help_line_view(line)));
}

/// The keys of a binding, padded as the instructions tab shows them.
fn pad_keys(keys: &String) -> (r: String)
    ensures
        r@ == padded_keys(keys@),
{
    let mut padded = String::from_str("  ");
    padded.append(keys.as_str());
    let n = keys.as_str().unicode_len();
    let start: usize = if n < 19 { n } else { 19 };
    let mut k: usize = start;
    proof {
        reveal_strlit(" ");
        assert(spaces(0) =~= Seq::<char>::empty());
        assert(padded@ =~= "  "@ + keys@ + spaces(0));
    }
    while k < 19
        invariant
            start <= k <= 19,
            padded@ == "  "@ + keys@ + spaces((k - start) as nat),
        decreases 19 - k,
    {
        padded.append(" ");
        proof {
            reveal_strlit(" ");
            assert(spaces((k - start) as nat).push(' ') =~= spaces((k + 1 - start) as nat));
            assert(padded@ =~= "  "@ + keys@ + spaces((k + 1 - start) as nat));
        }
        k += 1;
    }
    padded
}

/// The state after a key press in the help dialog, and the answer: the
/// closing keys close it; Tab and Shift+Tab switch tabs and scroll back to
/// the top (Shift+Tab on the first tab wraps round to the last); Down and `j` scroll down (up to the largest scroll), Up and `k`
/// scroll up, both on the instructions tab only; other keys do nothing.
pub open spec fn help_after_key(v: HelpDialogView, key: KeyEvent) -> (HelpDialogView, DialogEvent) {
    if is_close_key(key) {
        (v, DialogEvent::CloseDialog)
    } else if key.code is Tab {
        (HelpDialogView { active_tab: ((v.active_tab + 1) % 2) as usize, scroll: 0, ..v }, DialogEvent::NoAction)
    } else if key.code is BackTab {
        let previous = if v.active_tab == 0 { 1 } else { (v.active_tab - 1) % 2 };
        (HelpDialogView { active_tab: previous as usize, scroll: 0, ..v }, DialogEvent::NoAction)
    } else if key.code is Down || key.code == KeyCode::Char('j') {
        if v.active_tab == 0 {
            let down = if v.scroll < u16::MAX { v.scroll + 1 } else { v.scroll as int };
            let capped = if down <= v.scrollmax { down } else { v.scrollmax as int };
            (HelpDialogView { scroll: capped as u16, ..v }, DialogEvent::NoAction)
        } else {
            (v, DialogEvent::NoAction)
        }
    } else if key.code is Up || key.code == KeyCode::Char('k') {
        if v.active_tab == 0 {
            (HelpDialogView { scroll: sat_sub(v.scroll as int, 1) as u16, ..v }, DialogEvent::NoAction)
        } else {
            (v, DialogEvent::NoAction)
        }
    } else {
        (v, DialogEvent::NoAction)
    }
}

impl HelpDialog {
    #[verifier::type_invariant]
    spec fn inv(self) -> bool {
        self.active_tab < 2
    }

    /// The dialog on its instructions tab, scrolled to the top.
    pub fn new(instructions: ScreenInstructions) -> (d: HelpDialog)
        ensures
            d@ == (HelpDialogView { active_tab: 0, scroll: 0, scrollmax: 0, instructions: instructions }),
    {
        HelpDialog { instructions, active_tab: 0, scroll: 0, scrollmax: 0 }
    }

    /// The active tab: 0 for the instructions, 1 for About.
    pub fn active_tab(&self) -> (r: usize)
        ensures
            r == self@.active_tab,
            r < 2,
    {
        proof {
            use_type_invariant(self);
        }
        self.active_tab
    }

    /// First line of the instructions shown.
    pub fn scroll(&self) -> (r: u16)
        ensures
            r == self@.scroll,
    {
        self.scroll
    }

    /// Largest scroll that still fills the view.
    pub fn scrollmax(&self) -> (r: u16)
        ensures
            r == self@.scrollmax,
    {
        self.scrollmax
    }

    /// The instructions shown.
    pub fn instructions(&self) -> (r: &ScreenInstructions)
        ensures
            *r == self@.instructions,
    {
        &self.instructions
    }

    /// Sets the largest scroll for a view `view_height` lines high: the
    /// number of instruction lines (as a `u16`) less the view height, or 0.
    pub fn update_scroll_max(&mut self, view_height: u16)
        requires
            instruction_lines(old(self)@.instructions.categories@) <= usize::MAX,
        ensures
            final(self)@ == (HelpDialogView {
                scrollmax: sat_sub(
                    (instruction_lines(old(self)@.instructions.categories@) as u16) as int,
                    view_height as int,
                ) as u16,
                ..old(self)@
            }),
    {
        proof {
            use_type_invariant(&*self);
        }
        let lines = count_instruction_lines(&self.instructions);
        self.scrollmax = (lines as u16).saturating_sub(view_height);
    }

    /// Answers a key press.
    pub fn handle_keypress(&mut self, key: KeyEvent) -> (r: DialogEvent)
        ensures
            (final(self)@, r) == help_after_key(old(self)@, key),
            final(self)@.active_tab < 2,
            key.code is Down || key.code == KeyCode::Char('j') ==> {
                &&& r == DialogEvent::NoAction
                &&& final(self)@ == (HelpDialogView {
                    scroll: if old(self)@.active_tab == 0 {
                        min_int(old(self)@.scroll + 1, old(self)@.scrollmax as int) as u16
                    } else {
                        old(self)@.scroll
                    },
                    ..old(self)@
                })
            },
            key.code is Up || key.code == KeyCode::Char('k') ==> {
                &&& r == DialogEvent::NoAction
                &&& final(self)@ == (HelpDialogView {
                    scroll: if old(self)@.active_tab == 0 {
                        sat_sub(old(self)@.scroll as int, 1) as u16
                    } else {
                        old(self)@.scroll
                    },
                    ..old(self)@
                })
            },
    {
        proof {
            use_type_invariant(&*self);
        }
        if key_closes(&key) {
            return DialogEvent::CloseDialog;
        }
        match key.code {
            KeyCode::Tab => {
                self.active_tab = (self.active_tab + 1) % 2;
                self.scroll = 0;
                DialogEvent::NoAction
            },
            KeyCode::BackTab => {
                self.active_tab = if self.active_tab == 0 { 1 } else { (self.active_tab - 1) % 2 };
                self.scroll = 0;
                DialogEvent::NoAction
            },
            KeyCode::Down | KeyCode::Char('j') => {
                if self.active_tab == 0 {
                    let down = self.scroll.saturating_add(1);
                    self.scroll = if down <= self.scrollmax { down } else { self.scrollmax };
                }
                DialogEvent::NoAction
            },
            KeyCode::Up | KeyCode::Char('k') => {
                if self.active_tab == 0 {
                    self.scroll = self.scroll.saturating_sub(1);
                }
                DialogEvent::NoAction
            },
            _ => DialogEvent::NoAction,
        }
    }

    /// Answers an event: key presses as `handle_keypress` does, anything
    /// else (releases, mouse, resizes) with nothing.
    pub fn handle_event(&mut self, event: Event) -> (r: DialogEvent)
        ensures
            match event {
                Event::Key(key) => if key.kind is Press {
                    (final(self)@, r) == help_after_key(old(self)@, key)
                } else {
                    final(self)@ == old(self)@ && r == DialogEvent::NoAction
                },
                _ => final(self)@ == old(self)@ && r == DialogEvent::NoAction,
            },
    {
        match event {
            Event::Key(key) => match key.kind {
                KeyEventKind::Press => self.handle_keypress(key),
                _ => DialogEvent::NoAction,
            },
            _ => DialogEvent::NoAction,
        }
    }

    /// The foreground and background colors of tab `tab`'s label: the active
    /// tab stands out.
    pub fn tab_colors(&self, theme: &Theme, tab: usize) -> (r: (u32, u32))
        ensures
            r == (if tab == self@.active_tab {
                (theme.base@[0], theme.base@[8])
            } else {
                (theme.base@[6], theme.base@[2])
            }),
    {
        if tab == self.active_tab {
            (theme.base[0x0], theme.base[0x8])
        } else {
            (theme.base[0x6], theme.base[0x2])
        }
    }

    /// The lines of the instructions tab, colored with `theme`.
    pub fn content_lines(&self, theme: &Theme) -> (r: Vec<HelpLine>)
        ensures
            r@.map_values(|l: HelpLine| help_line_view(l)) == help_lines(self@.instructions.categories@, *theme),
    {
        let ghost cats = self.instructions.categories@;
        let mut lines: Vec<HelpLine> = Vec::new();
        let mut ci: usize = 0;
        proof {
            assert(cats.take(0) =~= Seq::<InstructionCategory>::empty());
            assert(lines@.map_values(|l: HelpLine| help_line_view(l)) =~= Seq::<HelpLineView>::empty());
        }
        while ci < self.instructions.categories.len()
            invariant
                cats == self.instructions.categories@,
                cats == self@.instructions.categories@,
                ci <= cats.len(),
                lines@.map_values(|l: HelpLine| help_line_view(l)) == help_lines(cats.take(ci as int), *theme),
            decreases cats.len() - ci,
        {
            let category = &self.instructions.categories[ci];
            let ghost before = help_lines(cats.take(ci as int), *theme);
            let ghost rows = category_help_lines(*category, *theme);
            proof {
                assert(cats.take(ci + 1).drop_last() =~= cats.take(ci as int));
            }
            let heading = HelpLine::Heading(category.name.clone(), theme.base[0x8]);
            proof {
                lemma_view_push(lines@, heading);
            }
            lines.push(heading);
            proof {
                lemma_view_push(lines@, HelpLine::Blank);
            }
            lines.push(HelpLine::Blank);
            proof {
                assert(rows.take(2) =~= seq![HelpLineView::Heading(category.name@, theme.base@[8]), HelpLineView::Blank]);
            }
            let mut di: usize = 0;
            while di < category.details.len()
                invariant
                    cats == self.instructions.categories@,
                    ci < cats.len(),
                    *category == cats[ci as int],
                    rows == category_help_lines(*category, *theme),
                    di <= category.details@.len(),
                    lines@.map_values(|l: HelpLine| help_line_view(l)) == before + rows.take(di + 2),
                decreases category.details@.len() - di,
            {
                let detail = &category.details[di];
                let keys = pad_keys(&detail.keys);
                let line = HelpLine::Binding(keys, theme.base[0x6], detail.description.clone(), theme.base[0x4]);
                proof {
                    lemma_view_push(lines@, line);
                    assert(rows.take(di + 3) =~= rows.take(di + 2).push(binding_line(*detail, *theme)));
                }
                lines.push(line);
                di += 1;
            }
            proof {
                lemma_view_push(lines@, HelpLine::Blank);
                assert(rows =~= rows.take(di + 2).push(HelpLineView::Blank));
            }
            lines.push(HelpLine::Blank);
            ci += 1;
        }
        proof {
            assert(cats.take(cats.len() as int) =~= cats);
        }
        lines
    }

    /// Where and how large the dialog is drawn.
    pub fn get_size(&self) -> (r: Rect)
        ensures
            r == (Rect { x: 70, y: 28, width: 0, height: 0 }),
    {
        Rect { x: 70, y: 28, width: 0, height: 0 }
    }

    pub fn get_title(&self) -> (r: String)
        ensures
            r@ == "Help"@,
    {
        String::from_str("Help")
    }

    pub fn get_instructions(&self) -> (r: String)
        ensures
            r@ == "Tab: switch tabs | j/k \u{2191}\u{2193}: scroll | Esc/q: close"@,
    {
        String::from_str("Tab: switch tabs | j/k \u{2191}\u{2193}: scroll | Esc/q: close")
    }
}

/// Pressing Tab twice comes back to the same tab, scrolled to the top.
pub proof fn tab_twice_returns(v: HelpDialogView, tab: KeyEvent)
    requires
        v.active_tab < 2,
        tab.code is Tab,
    ensures
        help_after_key(help_after_key(v, tab).0, tab).0 == (HelpDialogView { scroll: 0, ..v }),
{
}

/// Shift+Tab undoes Tab, scrolled to the top.
pub proof fn backtab_undoes_tab(v: HelpDialogView, tab: KeyEvent, backtab: KeyEvent)
    requires
        v.active_tab < 2,
        tab.code is Tab,
        backtab.code is BackTab,
    ensures
        help_after_key(help_after_key(v, tab).0, backtab).0 == (HelpDialogView { scroll: 0, ..v }),
{
}

/// Scrolling down one line and back up returns to the same place, unless
/// the instructions were already scrolled to the end.
pub proof fn scroll_up_undoes_down(v: HelpDialogView, down: KeyEvent, up: KeyEvent)
    requires
        v.active_tab == 0,
        v.scroll < v.scrollmax,
        down.code is Down,
        up.code is Up,
    ensures
        help_after_key(help_after_key(v, down).0, up).0 == v,
{
}

/// Scrolling down never goes past the largest scroll.
pub proof fn scroll_down_stays_within_max(v: HelpDialogView, down: KeyEvent)
    requires
        v.active_tab == 0,
        down.code is Down,
    ensures
        help_after_key(v, down).0.scroll <= v.scrollmax,
{
}

/// `j` scrolls the help dialog exactly as Down does, from any state.
pub proof fn j_scrolls_like_down(v: HelpDialogView, j: KeyEvent, down: KeyEvent)
    requires
        j.code == KeyCode::Char('j'),
        down.code is Down,
    ensures
        help_after_key(v, j) == help_after_key(v, down),
{
}

/// `k` scrolls the help dialog exactly as Up does, from any state.
pub proof fn k_scrolls_like_up(v: HelpDialogView, k: KeyEvent, up: KeyEvent)
    requires
        k.code == KeyCode::Char('k'),
        up.code is Up,
    ensures
        help_after_key(v, k) == help_after_key(v, up),
{
}

/// On the instructions tab, Down or `j` scrolls down by one line, stopping
/// at the largest scroll, and changes nothing else.
pub proof fn scroll_down_moves_one_line(v: HelpDialogView, key: KeyEvent)
    requires
        v.active_tab == 0,
        key.code is Down || key.code == KeyCode::Char('j'),
    ensures
        help_after_key(v, key).1 == DialogEvent::NoAction,
        help_after_key(v, key).0 == (HelpDialogView { scroll: min_int(v.scroll + 1, v.scrollmax as int) as u16, ..v }),
{
}

/// On the instructions tab, Up or `k` scrolls up by one line, stopping at
/// the top, and changes nothing else.
pub proof fn scroll_up_moves_one_line(v: HelpDialogView, key: KeyEvent)
    requires
        v.active_tab == 0,
        key.code is Up || key.code == KeyCode::Char('k'),
    ensures
        help_after_key(v, key).1 == DialogEvent::NoAction,
        help_after_key(v, key).0 == (HelpDialogView { scroll: if v.scroll > 0 { (v.scroll - 1) as u16 } else { 0 }, ..v }),
{
}

} // verus!
