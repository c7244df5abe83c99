use bulletty::list_state::ListState;
use bulletty::mouse::{find_mouse, mouse_inside, MouseEvent, Rect};

fn same_as_ratatui(offset: usize, selected: Option<usize>) {
    let ours = ListState { offset, selected };
    let theirs = ratatui::widgets::ListState::default().with_offset(offset).with_selected(selected);

    let (mut a, mut b) = (ours, theirs);
    a.select_next();
    b.select_next();
    assert_eq!((a.offset(), a.selected()), (b.offset(), b.selected()));

    let (mut a, mut b) = (ours, theirs);
    a.select_previous();
    b.select_previous();
    assert_eq!((a.offset(), a.selected()), (b.offset(), b.selected()));

    let (mut a, mut b) = (ours, theirs);
    a.select_first();
    b.select_first();
    assert_eq!((a.offset(), a.selected()), (b.offset(), b.selected()));

    for index in [None, Some(0), Some(3), Some(usize::MAX)] {
        let (mut a, mut b) = (ours, theirs);
        a.select(index);
        b.select(index);
        assert_eq!((a.offset(), a.selected()), (b.offset(), b.selected()));
    }
}

#[test]
fn list_state_moves_as_ratatui_does() {
    for offset in [0, 1, 7, usize::MAX] {
        for selected in [None, Some(0), Some(1), Some(9), Some(usize::MAX)] {
            same_as_ratatui(offset, selected);
        }
    }
}

#[test]
fn list_state_select_none_scrolls_to_top() {
    let mut s = ListState::default();
    s.set_offset(5);
    s.select(Some(2));
    assert_eq!(s.offset(), 5);
    s.select(None);
    assert_eq!(s.offset(), 0);
    assert_eq!(s.selected(), None);
}

#[test]
fn mouse_inside_agrees_with_ratatui() {
    let rects = [(0, 0, 0, 0), (2, 3, 4, 5), (u16::MAX - 2, u16::MAX - 1, 10, 10), (10, 0, 1, 1)];
    for (x, y, w, h) in rects {
        for column in [0, 1, 2, 5, 6, 10, 11, u16::MAX - 2, u16::MAX - 1, u16::MAX] {
            for row in [0, 1, 3, 7, 8, u16::MAX - 1, u16::MAX] {
                let ours = mouse_inside(&MouseEvent { column, row }, &Rect { x, y, width: w, height: h });
                let theirs = ratatui::layout::Rect { x, y, width: w, height: h }
                    .contains(ratatui::layout::Position::new(column, row));
                assert_eq!(ours, theirs, "rect {x},{y},{w},{h} at {column},{row}");
            }
        }
    }
}

#[test]
fn find_mouse_returns_the_first_hit() {
    let rects = vec![
        Rect { x: 0, y: 0, width: 10, height: 1 },
        Rect { x: 0, y: 1, width: 10, height: 5 },
        Rect { x: 0, y: 0, width: 20, height: 20 },
    ];
    assert_eq!(find_mouse(&MouseEvent { column: 3, row: 0 }, &rects), Some(0));
    assert_eq!(find_mouse(&MouseEvent { column: 3, row: 4 }, &rects), Some(1));
    assert_eq!(find_mouse(&MouseEvent { column: 15, row: 4 }, &rects), Some(2));
    assert_eq!(find_mouse(&MouseEvent { column: 25, row: 4 }, &rects), None);
    assert_eq!(find_mouse(&MouseEvent { column: 0, row: 0 }, &[]), None);
}
