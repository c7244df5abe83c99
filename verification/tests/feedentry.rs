use bulletty::feed::{FeedCategory, FeedEntry, FeedSource};
use bulletty::feedentrystate::{EntrySource, FeedEntryState};
use bulletty::feedtreestate::FeedTreeState;
use bulletty::theme::Theme;

fn entry(title: &str, path: &str, seen: bool) -> FeedEntry {
    FeedEntry {
        title: title.to_string(),
        description: format!("about {title}"),
        author: "someone".to_string(),
        date: 1_700_000_000,
        filepath: path.to_string(),
        seen,
    }
}

fn entries(n: usize) -> Vec<FeedEntry> {
    (0..n).map(|i| entry(&format!("E{i}"), &format!("/lib/e{i}.md"), false)).collect()
}

fn tree() -> FeedTreeState {
    let mut tree = FeedTreeState::new();
    let cats = vec![FeedCategory {
        title: "Programming".to_string(),
        feeds: vec![FeedSource { title: "Blog".to_string(), slug: "blog".to_string() }],
    }];
    tree.update(1, &cats, &vec![], 1);
    tree
}

fn loaded(n: usize, visible: usize) -> FeedEntryState {
    let mut state = FeedEntryState::new();
    let refresh = state.update(Theme::default(), 1, &tree()).expect("first update refreshes");
    state.finish_update(&refresh, entries(n), vec![]);
    state.visible_lines = visible;
    state
}

#[test]
fn update_asks_for_the_selected_rows_entries() {
    let mut state = FeedEntryState::new();
    let mut tree = tree();
    let refresh = state.update(Theme::default(), 1, &tree).unwrap();
    assert!(matches!(&refresh.source, EntrySource::Category(t) if t == "Programming"));
    assert!(refresh.selection_changed);
    assert_eq!(state.previous_selected, "Programming");
    // nothing changed: no refresh
    assert!(state.update(Theme::default(), 1, &tree).is_none());
    // a new generation refreshes without a selection change
    let refresh = state.update(Theme::default(), 2, &tree).unwrap();
    assert!(!refresh.selection_changed);
    tree.select(1);
    let refresh = state.update(Theme::default(), 2, &tree).unwrap();
    assert!(matches!(&refresh.source, EntrySource::Feed(s) if s == "blog"));
    assert!(refresh.selection_changed);
    tree.select(3);
    let refresh = state.update(Theme::default(), 2, &tree).unwrap();
    assert!(matches!(refresh.source, EntrySource::ReadLater));
    assert_eq!(state.previous_selected, "read_later");
    tree.list_state.select(Some(9));
    let refresh = state.update(Theme::default(), 2, &tree).unwrap();
    assert!(matches!(refresh.source, EntrySource::Empty));
    assert_eq!(state.previous_selected, "");
}

#[test]
fn a_changed_selection_goes_back_to_the_first_entry() {
    let mut state = loaded(10, 3);
    state.select(7);
    assert_eq!(state.list_state.selected(), Some(7));
    let mut t = tree();
    t.select(1);
    let refresh = state.update(Theme::default(), 1, &t).unwrap();
    state.finish_update(&refresh, entries(10), vec![]);
    assert_eq!(state.list_state.selected(), Some(0));
}

#[test]
fn select_next_moves_one_down() {
    let mut state = loaded(5, 3);
    state.select_next();
    assert_eq!(state.list_state.selected(), Some(1));
    state.select_last();
    assert_eq!(state.list_state.selected(), Some(4));
    assert_eq!(state.list_state.offset(), 2);
    // from the last entry the selection moves one past it
    state.select_next();
    assert_eq!(state.list_state.selected(), Some(5));
    // a selection past the end goes back to the last entry
    state.select_next();
    assert_eq!(state.list_state.selected(), Some(4));
}

#[test]
fn select_previous_stays_on_the_first() {
    let mut state = loaded(5, 3);
    state.select_previous();
    assert_eq!(state.list_state.selected(), Some(0));
    state.select(3);
    state.select_previous();
    assert_eq!(state.list_state.selected(), Some(2));
}

#[test]
fn empty_list_ignores_navigation() {
    let mut state = FeedEntryState::default();
    state.select_next();
    state.select_previous();
    state.select_last();
    state.select_first();
    assert_eq!(state.list_state.selected(), Some(0));
    assert!(state.get_selected().is_none());
}

#[test]
fn get_selected_and_set_current_read() {
    let mut state = loaded(4, 2);
    state.select(2);
    assert_eq!(state.get_selected().unwrap().title, "E2");
    assert!(!state.entries[2].seen);
    state.set_current_read();
    assert!(state.entries[2].seen);
    assert!(!state.entries[1].seen);
    assert!(state.get_selected().unwrap().seen);
}

#[test]
fn scroll_by_parks_selection_and_round_trips() {
    let mut state = loaded(10, 3);
    state.select(1);
    state.scroll_by(4);
    assert_eq!(state.list_state.offset(), 4);
    assert_eq!(state.list_state.selected(), None);
    assert_eq!(state.get_selected().unwrap().title, "E1");
    state.scroll_by(-4);
    assert_eq!(state.list_state.offset(), 0);
    assert_eq!(state.list_state.selected(), Some(1));
    state.scroll_by(100);
    assert_eq!(state.list_state.offset(), 7);
}

#[test]
fn scroll_position_follows_the_measure() {
    let mut state = loaded(10, 3);
    state.select(5);
    assert_eq!(state.scroll_max(), 9);
    assert_eq!(state.scroll(), 5);
    state.set_scroll_measure_mouse();
    assert_eq!(state.scroll_max(), 7);
    assert_eq!(state.scroll(), state.list_state.offset());
    state.set_scroll_measure_key();
    assert_eq!(state.scroll(), 5);
}

#[test]
fn titles_mark_unseen_and_read_later_entries() {
    let mut state = FeedEntryState::new();
    let refresh = state.update(Theme::default(), 1, &tree()).unwrap();
    state.finish_update(
        &refresh,
        vec![entry("Fresh", "/a.md", false), entry("Old", "/b.md", true)],
        vec!["/b.md".to_string()],
    );
    let titles = state.get_item_titles();
    assert_eq!(titles[0], " \u{f1ea} Fresh \u{e3e3}");
    assert_eq!(titles[1], " \u{f1ea} Old \u{f02d}");
    assert!(state.is_read_later(&"/b.md".to_string()));
    assert!(!state.is_read_later(&"/a.md".to_string()));
}

#[test]
fn selecting_far_below_centers_the_entry() {
    let mut state = loaded(30, 5);
    state.select(20);
    // 20 - 5/2 = 18, past 4 visible lines: shifted by (5 + 1) % 2 = 0
    assert_eq!(state.list_state.offset(), 18);
}

#[test]
fn entry_items_carry_lines_and_colors() {
    let mut theme = Theme::default();
    for i in 0..16 {
        theme.base[i] = 200 + i as u32;
    }
    let mut state = FeedEntryState::new();
    let refresh = state.update(theme, 1, &tree()).unwrap();
    state.finish_update(&refresh, vec![entry("Fresh", "/a.md", false), entry("Old", "/b.md", true)], vec![]);
    let item = state.get_item(0, &"2024-01-02".to_string()).unwrap();
    assert_eq!(item.title, " \u{f1ea} Fresh \u{e3e3}");
    assert_eq!(item.title_color, 209);
    assert_eq!(item.byline, " \u{f0520} 2024-01-02 | \u{f09e} someone");
    assert_eq!(item.byline_color, 205);
    assert_eq!(item.description, " about Fresh...");
    assert_eq!(item.description_color, 204);
    let item = state.get_item(1, &String::new()).unwrap();
    assert_eq!(item.title_color, 206);
    assert!(state.get_item(2, &String::new()).is_none());
}

#[test]
fn setters_install_entries_and_view_height() {
    let mut state = FeedEntryState::new();
    state.set_entries(entries(6));
    state.set_visible_lines(2);
    state.select_last();
    assert_eq!(state.list_state.selected(), Some(5));
    assert_eq!(state.list_state.offset(), 4);
}

#[test]
fn new_list_draws_with_the_blank_theme() {
    let state = FeedEntryState::new();
    assert_eq!(state.theme().scheme, "");
    assert_eq!(state.theme().base, [0u32; 16]);
}

#[test]
fn selection_is_on_screen_even_from_an_offset_past_the_end() {
    let mut state = loaded(16, 10);
    state.list_state.set_offset(13);
    state.select(13);
    let offset = state.list_state.offset();
    assert!(offset <= 13 && 13 < offset + 10);
    assert_eq!(offset, 8);
}
