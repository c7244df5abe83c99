use bulletty::feed::{FeedCategory, FeedSource};
use bulletty::feedtreestate::{FeedItemInfo, FeedTreeState};

fn source(title: &str, slug: &str) -> FeedSource {
    FeedSource { title: title.to_string(), slug: slug.to_string() }
}

fn library() -> Vec<FeedCategory> {
    vec![
        FeedCategory {
            title: "Programming".to_string(),
            feeds: vec![source("Bruno Croci", "bruno-croci"), source("Some Blog", "some-blog")],
        },
        FeedCategory { title: "General".to_string(), feeds: vec![source("Another", "another-website")] },
    ]
}

fn tree_with_read_later(read_later: usize) -> FeedTreeState {
    let mut tree = FeedTreeState::new();
    let unread = vec![vec![Some(3), None], vec![Some(0)]];
    tree.update(1, &library(), &unread, read_later);
    tree
}

fn selected_index(tree: &FeedTreeState) -> Option<usize> {
    tree.list_state.selected()
}

#[test]
fn update_builds_rows_in_library_order() {
    let tree = tree_with_read_later(2);
    assert_eq!(tree.treeitems.len(), 7);
    assert!(matches!(&tree.treeitems[0], FeedItemInfo::Category(t) if t == "Programming"));
    assert!(matches!(&tree.treeitems[1], FeedItemInfo::Item(t, c, s) if t == "Bruno Croci" && c == "Programming" && s == "bruno-croci"));
    assert!(matches!(&tree.treeitems[2], FeedItemInfo::Item(_, _, s) if s == "some-blog"));
    assert!(matches!(&tree.treeitems[3], FeedItemInfo::Category(t) if t == "General"));
    assert!(matches!(&tree.treeitems[4], FeedItemInfo::Item(_, c, s) if c == "General" && s == "another-website"));
    assert!(matches!(tree.treeitems[5], FeedItemInfo::Separator));
    assert!(matches!(tree.treeitems[6], FeedItemInfo::ReadLater));
}

#[test]
fn update_without_read_later_has_no_section() {
    let tree = tree_with_read_later(0);
    assert_eq!(tree.treeitems.len(), 5);
    assert!(!tree.treeitems.iter().any(|r| matches!(r, FeedItemInfo::Separator | FeedItemInfo::ReadLater)));
}

#[test]
fn update_with_same_generation_changes_nothing() {
    let mut tree = tree_with_read_later(2);
    assert!(!tree.needs_update(1));
    assert!(tree.needs_update(2));
    tree.update(1, &Vec::new(), &Vec::new(), 0);
    assert_eq!(tree.treeitems.len(), 7);
}

#[test]
fn update_moves_selection_left_past_the_end() {
    let mut tree = tree_with_read_later(2);
    tree.select(6);
    assert_eq!(selected_index(&tree), Some(6));
    tree.update(2, &library(), &vec![], 0);
    assert_eq!(tree.treeitems.len(), 5);
    assert_eq!(selected_index(&tree), Some(4));
}

#[test]
fn titles_show_unread_counts_and_read_later() {
    let tree = tree_with_read_later(2);
    let titles = tree.get_item_titles();
    assert_eq!(titles[0], "\u{f07c} Programming");
    assert_eq!(titles[1], " \u{f09e}  Bruno Croci (3)");
    assert_eq!(titles[2], " \u{f09e}  Some Blog");
    assert_eq!(titles[4], " \u{f09e}  Another");
    assert_eq!(titles[5], "");
    assert_eq!(titles[6], "\u{f02d} Read Later (2)");
}

#[test]
fn unread_count_of_a_feed() {
    let tree = tree_with_read_later(0);
    assert_eq!(tree.unread_count(&"Programming".to_string(), &"bruno-croci".to_string()), Some(3));
    assert_eq!(tree.unread_count(&"Programming".to_string(), &"some-blog".to_string()), None);
    assert_eq!(tree.unread_count(&"General".to_string(), &"another-website".to_string()), Some(0));
    assert_eq!(tree.unread_count(&"General".to_string(), &"bruno-croci".to_string()), None);
}

#[test]
fn later_unread_count_for_the_same_feed_wins() {
    let mut tree = FeedTreeState::new();
    let cats = vec![FeedCategory {
        title: "A".to_string(),
        feeds: vec![source("One", "dup"), source("Two", "dup")],
    }];
    tree.update(1, &cats, &vec![vec![Some(1), Some(7)]], 0);
    assert_eq!(tree.unread_count(&"A".to_string(), &"dup".to_string()), Some(7));
    let titles = tree.get_item_titles();
    assert_eq!(titles[1], " \u{f09e}  One (7)");
}

#[test]
fn select_next_skips_the_separator() {
    let mut tree = tree_with_read_later(2);
    tree.select(4);
    tree.select_next();
    assert_eq!(selected_index(&tree), Some(6));
    tree.select_next();
    assert_eq!(selected_index(&tree), Some(6));
}

#[test]
fn select_previous_skips_the_separator() {
    let mut tree = tree_with_read_later(2);
    tree.select(6);
    tree.select_previous();
    assert_eq!(selected_index(&tree), Some(4));
    tree.select_first();
    tree.select_previous();
    assert_eq!(selected_index(&tree), Some(0));
}

#[test]
fn select_refuses_a_separator() {
    let mut tree = tree_with_read_later(2);
    tree.select(2);
    tree.select(5);
    assert_eq!(selected_index(&tree), Some(2));
    tree.select(99);
    assert_eq!(selected_index(&tree), Some(2));
}

#[test]
fn category_navigation_stops_at_headings() {
    let mut tree = tree_with_read_later(2);
    tree.select(1);
    tree.select_next_category();
    assert_eq!(selected_index(&tree), Some(3));
    tree.select_next_category();
    assert_eq!(selected_index(&tree), Some(6));
    tree.select_next_category();
    assert_eq!(selected_index(&tree), Some(6));
    tree.select_previous_category();
    assert_eq!(selected_index(&tree), Some(3));
    tree.select_previous_category();
    assert_eq!(selected_index(&tree), Some(0));
    tree.select_previous_category();
    assert_eq!(selected_index(&tree), Some(0));
}

#[test]
fn get_selected_names_the_row() {
    let mut tree = tree_with_read_later(2);
    tree.select(3);
    assert!(matches!(tree.get_selected(), Some(FeedItemInfo::Category(t)) if t == "General"));
    tree.list_state.select(Some(50));
    assert!(tree.get_selected().is_none());
}

#[test]
fn scroll_parks_and_restores_the_selection() {
    let mut tree = tree_with_read_later(2);
    tree.visible_lines = 3;
    tree.select(0);
    tree.scroll_by(2);
    assert_eq!(tree.list_state.offset(), 2);
    assert_eq!(selected_index(&tree), None);
    assert!(matches!(tree.get_selected(), Some(FeedItemInfo::Category(t)) if t == "Programming"));
    tree.scroll_by(-2);
    assert_eq!(tree.list_state.offset(), 0);
    assert_eq!(selected_index(&tree), Some(0));
}

#[test]
fn scroll_is_clamped_to_the_end() {
    let mut tree = tree_with_read_later(2);
    tree.visible_lines = 3;
    tree.scroll_by(100);
    assert_eq!(tree.list_state.offset(), 4);
    tree.scroll_by(-100);
    assert_eq!(tree.list_state.offset(), 0);
}

#[test]
fn short_lists_do_not_scroll() {
    let mut tree = tree_with_read_later(2);
    tree.visible_lines = 20;
    tree.list_state.set_offset(3);
    tree.scroll_by(1);
    assert_eq!(tree.list_state.offset(), 0);
}

#[test]
fn selecting_far_below_the_view_centers_it() {
    let mut tree = FeedTreeState::new();
    let cats = vec![FeedCategory {
        title: "C".to_string(),
        feeds: (0..20).map(|i| source(&format!("F{i}"), &format!("f{i}"))).collect(),
    }];
    tree.update(1, &cats, &vec![], 0);
    tree.visible_lines = 5;
    tree.select(15);
    // 15 - 5/2 = 13, within the largest offset 16
    assert_eq!(tree.list_state.offset(), 13);
    tree.select(16);
    assert_eq!(tree.list_state.offset(), 13);
    // an even view height shifts the centered offset down one row
    tree.visible_lines = 4;
    tree.select(1);
    // 1 - 4/2 saturates at 0, which is not shifted
    assert_eq!(tree.list_state.offset(), 0);
    tree.select(12);
    // 12 - 4/2 = 10, plus one for the even height
    assert_eq!(tree.list_state.offset(), 11);
}

#[test]
fn new_tree_is_empty_with_first_row_selected() {
    let tree = FeedTreeState::default();
    assert!(tree.treeitems.is_empty());
    assert_eq!(selected_index(&tree), Some(0));
    assert_eq!(tree.list_state.offset(), 0);
    assert!(tree.needs_update(0));
}

#[test]
fn setters_install_rows_and_view_height() {
    let mut tree = FeedTreeState::new();
    tree.set_rows(vec![
        FeedItemInfo::Category("A".to_string()),
        FeedItemInfo::Separator,
        FeedItemInfo::ReadLater,
    ]);
    tree.set_visible_lines(1);
    tree.select_next();
    assert_eq!(selected_index(&tree), Some(2));
    assert_eq!(tree.list_state.offset(), 2);
}
