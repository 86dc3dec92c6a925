use dashboard::layout::{compose, Rect, Slot};

fn names(count: usize) -> Vec<String> {
    (0..count).map(|i| format!("w{:02}", i)).collect()
}

fn lengths(rows: &[Vec<Slot>]) -> Vec<usize> {
    rows.iter().map(|row| row.len()).collect()
}

#[test]
fn twelve_widgets_in_a_viewport_of_five_cells_fill_rows_of_five_five_and_two() {
    let all = names(12);
    let rows = compose(&all, 100, 40, 20, 10);
    assert_eq!(lengths(&rows), vec![5, 5, 2]);
    let laid: Vec<String> = rows.iter().flatten().map(|slot| slot.name.clone()).collect();
    assert_eq!(laid, all);
}

#[test]
fn slots_share_the_width_evenly_up_to_the_cell_width() {
    let rows = compose(&names(7), 100, 40, 20, 10);
    assert_eq!(rows[0][0].area, Rect { x: 0, y: 0, width: 20, height: 10 });
    assert_eq!(rows[0][4].area, Rect { x: 80, y: 0, width: 20, height: 10 });
    assert_eq!(rows[1][0].area, Rect { x: 0, y: 10, width: 20, height: 10 });
    assert_eq!(rows[1][1].area, Rect { x: 20, y: 10, width: 20, height: 10 });

    let rows = compose(&names(3), 50, 40, 16, 4);
    assert_eq!(lengths(&rows), vec![3]);
    assert_eq!(rows[0][2].area, Rect { x: 32, y: 0, width: 16, height: 4 });
}

#[test]
fn a_cell_wider_than_the_viewport_gives_one_widget_to_a_row() {
    let rows = compose(&names(3), 10, 40, 25, 5);
    assert_eq!(lengths(&rows), vec![1, 1, 1]);
    assert_eq!(rows[0][0].area, Rect { x: 0, y: 0, width: 10, height: 5 });
    assert_eq!(rows[2][0].area, Rect { x: 0, y: 10, width: 10, height: 5 });
}

#[test]
fn a_cell_width_of_zero_puts_all_widgets_in_one_row() {
    let rows = compose(&names(4), 10, 40, 0, 5);
    assert_eq!(lengths(&rows), vec![4]);
    assert_eq!(rows[0][3].area, Rect { x: 0, y: 0, width: 0, height: 5 });
}

#[test]
fn no_widget_gives_no_row() {
    assert!(compose(&Vec::new(), 100, 40, 20, 10).is_empty());
}

#[test]
fn rows_below_the_viewport_are_cut_off() {
    let rows = compose(&names(4), 20, 25, 20, 10);
    assert_eq!(lengths(&rows), vec![1, 1, 1, 1]);
    assert_eq!(rows[1][0].area, Rect { x: 0, y: 10, width: 20, height: 10 });
    assert_eq!(rows[2][0].area, Rect { x: 0, y: 20, width: 20, height: 5 });
    assert_eq!(rows[3][0].area, Rect { x: 0, y: 25, width: 20, height: 0 });
}

#[test]
fn an_exact_fit_fills_every_row() {
    let rows = compose(&names(10), 100, 40, 20, 10);
    assert_eq!(lengths(&rows), vec![5, 5]);
    let rows = compose(&names(6), 59, 40, 20, 10);
    assert_eq!(lengths(&rows), vec![2, 2, 2]);
}

#[test]
fn inner_shrinks_on_all_sides() {
    let r = Rect { x: 3, y: 4, width: 10, height: 6 };
    assert_eq!(r.inner(1, 1), Rect { x: 4, y: 5, width: 8, height: 4 });
    assert_eq!(r.inner(5, 3), Rect { x: 8, y: 7, width: 0, height: 0 });
    assert_eq!(r.inner(6, 1), Rect::zero());
    assert_eq!(r.inner(1, 4), Rect::zero());
}
