use smash::layout::{FontMetrics, Layout};

#[test]
fn new_layout_is_empty() {
    let layout = Layout::new();
    assert_eq!(layout.width, 0);
    assert_eq!(layout.height, 0);
    assert!(!layout.is_underflow());
}

#[test]
fn add_grows_each_axis_on_its_own() {
    let layout = Layout { width: 10, height: 20 };
    assert_eq!(layout.add(5, 0), Layout { width: 15, height: 20 });
    assert_eq!(layout.add(0, 7), Layout { width: 10, height: 27 });
    assert_eq!(layout.add(5, 7), Layout { width: 15, height: 27 });
    assert_eq!(layout.add(0, 0), layout);
}

#[test]
fn add_leaves_the_receiver_alone() {
    let layout = Layout { width: 3, height: 4 };
    let _ = layout.add(100, 100);
    assert_eq!(layout, Layout { width: 3, height: 4 });
}

#[test]
fn add_twice_is_add_of_the_sums() {
    let layouts = [
        Layout { width: 0, height: 0 },
        Layout { width: 600, height: 400 },
        Layout { width: -3, height: 8 },
    ];
    let deltas = [(0, 0), (1, 2), (-5, 9), (17, -40), (-600, -400), (1000, 1000)];
    for layout in layouts {
        for (a, b) in deltas {
            for (c, d) in deltas {
                assert_eq!(layout.add(a, b).add(c, d), layout.add(a + c, b + d));
            }
        }
    }
}

#[test]
fn add_with_negative_deltas_shrinks_a_budget() {
    let space = Layout { width: 600, height: 400 };
    assert_eq!(space.add(0, -150), Layout { width: 600, height: 250 });
    assert_eq!(space.add(0, -150).add(0, -250), Layout { width: 600, height: 0 });
}

#[test]
fn add_below_zero_returns_the_value_and_is_detected() {
    let space = Layout { width: 600, height: 400 };
    let over = space.add(0, -401);
    assert_eq!(over, Layout { width: 600, height: -1 });
    assert!(over.is_underflow());
    let narrow = space.add(-601, 0);
    assert_eq!(narrow, Layout { width: -1, height: 400 });
    assert!(narrow.is_underflow());
    assert!(!space.add(-600, -400).is_underflow());
}

#[test]
fn add_past_the_range_wraps_around() {
    let big = Layout { width: i32::MAX, height: i32::MIN };
    assert_eq!(big.add(1, -1), Layout { width: i32::MIN, height: i32::MAX });
    assert_eq!(big.add(1, -1).add(-1, 1), big);
}

#[test]
fn font_metrics_are_plain_values() {
    let metrics = FontMetrics { advance: 8, line_height: 16 };
    let copy = metrics;
    assert_eq!(copy, metrics);
    assert_eq!(copy.advance, 8);
    assert_eq!(copy.line_height, 16);
}

#[test]
fn grid_measures_columns_and_lines() {
    let metrics = FontMetrics { advance: 8, line_height: 16 };
    assert_eq!(metrics.grid(80, 25), Layout { width: 640, height: 400 });
    assert_eq!(metrics.grid(0, 0), Layout { width: 0, height: 0 });
    assert_eq!(metrics.grid(1, 3), Layout { width: 8, height: 48 });
}

#[test]
fn grid_past_the_range_wraps_around() {
    let metrics = FontMetrics { advance: 1 << 16, line_height: 3 };
    assert_eq!(metrics.grid(1 << 15, i32::MAX), Layout { width: i32::MIN, height: i32::MAX - 2 });
}
