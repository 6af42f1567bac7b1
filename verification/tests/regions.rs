use pane_grid::{Axis, Node, Pane, Point, Ratio, Rectangle, Size, Split, SplitRegion, State};

fn half() -> Ratio {
    Ratio { millionths: 500_000 }
}

fn square(side: u32) -> Rectangle {
    Rectangle { x: 0, y: 0, width: side, height: side }
}

fn three_panes() -> (State<()>, Pane, Pane, Pane) {
    let (mut state, a) = State::new(());
    let b = state.split(a, Axis::Vertical, ()).unwrap();
    let c = state.split(a, Axis::Horizontal, ()).unwrap();
    (state, a, b, c)
}

#[test]
fn split_leaves_the_spacing_free() {
    let (left, right) = Axis::Vertical.split(&square(100), half(), 4);
    assert_eq!(left, Rectangle { x: 0, y: 0, width: 48, height: 100 });
    assert_eq!(right, Rectangle { x: 52, y: 0, width: 48, height: 100 });
    let (top, bottom) = Axis::Horizontal.split(&square(100), half(), 4);
    assert_eq!(top, Rectangle { x: 0, y: 0, width: 100, height: 48 });
    assert_eq!(bottom, Rectangle { x: 0, y: 52, width: 100, height: 48 });
}

#[test]
fn split_follows_the_ratio_and_the_origin() {
    let area = Rectangle { x: -30, y: 7, width: 200, height: 60 };
    let (left, right) = Axis::Vertical.split(&area, Ratio { millionths: 250_000 }, 10);
    assert_eq!(left, Rectangle { x: -30, y: 7, width: 45, height: 60 });
    assert_eq!(right, Rectangle { x: 25, y: 7, width: 145, height: 60 });
}

#[test]
fn halves_round_away_from_zero() {
    assert_eq!(Axis::line_position(101, half(), 0), 51);
    assert_eq!(Axis::line_position(100, half(), 1), 50);
    assert_eq!(Axis::line_position(10, Ratio { millionths: 100_000 }, 5), -2);
    assert_eq!(Axis::line_position(10, Ratio { millionths: 100_000 }, 10), -4);
    let (left, right) = Axis::Vertical.split(&square(101), half(), 0);
    assert_eq!(left.width, 51);
    assert_eq!((right.x, right.width), (51, 50));
    let (left, right) = Axis::Vertical.split(&square(100), half(), 1);
    assert_eq!(left.width, 50);
    assert_eq!((right.x, right.width), (51, 49));
}

#[test]
fn spacing_that_does_not_fit_is_cut_off() {
    let (top, bottom) = Axis::Horizontal.split(&square(10), Ratio { millionths: 100_000 }, 10);
    assert_eq!(top, Rectangle { x: 0, y: 0, width: 10, height: 0 });
    assert_eq!(bottom, Rectangle { x: 0, y: 6, width: 10, height: 4 });
    let (top, bottom) = Axis::Horizontal.split(&square(10), half(), 40);
    assert_eq!(top.height, 0);
    assert_eq!((bottom.y, bottom.height), (10, 0));
}

#[test]
fn a_ratio_above_one_stands_for_the_whole() {
    let (left, right) = Axis::Vertical.split(&square(100), Ratio { millionths: 2_000_000 }, 0);
    assert_eq!(left, square(100));
    assert_eq!(right, Rectangle { x: 100, y: 0, width: 0, height: 100 });
    let (left, right) = Axis::Vertical.split(&square(100), Ratio { millionths: 0 }, 0);
    assert_eq!(left, Rectangle { x: 0, y: 0, width: 0, height: 100 });
    assert_eq!(right, square(100));
}

#[test]
fn an_empty_area_stays_empty() {
    let (state, _, _, _) = three_panes();
    let regions = state.layout().pane_regions(5, Size { width: 0, height: 0 });
    assert_eq!(regions.len(), 3);
    for (_, rectangle) in regions {
        assert_eq!(rectangle, square(0));
    }
}

#[test]
fn split_line_bounds_are_centered_on_the_line() {
    assert_eq!(
        Axis::Vertical.split_line_bounds(square(100), half(), 10),
        Rectangle { x: 45, y: 0, width: 10, height: 100 }
    );
    assert_eq!(
        Axis::Horizontal.split_line_bounds(square(100), Ratio { millionths: 300_000 }, 4),
        Rectangle { x: 0, y: 28, width: 100, height: 4 }
    );
    assert_eq!(
        Axis::Vertical.split_line_bounds(square(2), half(), 10),
        Rectangle { x: -4, y: 0, width: 10, height: 2 }
    );
}

#[test]
fn regions_of_a_nested_tree() {
    let (state, a, b, c) = three_panes();
    let size = Size { width: 97, height: 53 };
    assert_eq!(
        state.layout().pane_regions(3, size),
        vec![
            (b, Rectangle { x: 0, y: 0, width: 47, height: 53 }),
            (c, Rectangle { x: 50, y: 0, width: 47, height: 25 }),
            (a, Rectangle { x: 50, y: 28, width: 47, height: 25 }),
        ]
    );
    assert_eq!(
        state.layout().split_regions(3, size),
        vec![
            SplitRegion {
                split: Split(2),
                axis: Axis::Vertical,
                rectangle: Rectangle { x: 0, y: 0, width: 97, height: 53 },
                ratio: half(),
            },
            SplitRegion {
                split: Split(4),
                axis: Axis::Horizontal,
                rectangle: Rectangle { x: 50, y: 0, width: 47, height: 53 },
                ratio: half(),
            },
        ]
    );
}

#[test]
fn regions_tile_the_area() {
    let (mut state, a, b, _) = three_panes();
    state.split(b, Axis::Horizontal, ()).unwrap();
    state.split(a, Axis::Vertical, ()).unwrap();
    state.resize(Split(2), Ratio { millionths: 333_333 });
    state.resize(Split(4), Ratio { millionths: 900_000 });
    for spacing in [0u32, 1, 3, 10, 200] {
        let size = Size { width: 83, height: 61 };
        let regions = state.layout().pane_regions(spacing, size);
        let splits = state.layout().split_regions(spacing, size);
        assert_eq!(regions.len(), 5);
        let mut covered: u64 = 0;
        for cy in 0..61i64 {
            for cx in 0..83i64 {
                let holding = regions
                    .iter()
                    .filter(|(_, r)| {
                        r.x <= cx
                            && cx < r.x + r.width as i64
                            && r.y <= cy
                            && cy < r.y + r.height as i64
                    })
                    .count();
                assert!(holding <= 1);
                covered += holding as u64;
            }
        }
        let area: u64 = regions.iter().map(|(_, r)| r.width as u64 * r.height as u64).sum();
        assert_eq!(covered, area);
        let mut free: u64 = 0;
        for region in &splits {
            let (first, second) = region.axis.split(&region.rectangle, region.ratio, spacing);
            free += region.rectangle.width as u64 * region.rectangle.height as u64
                - first.width as u64 * first.height as u64
                - second.width as u64 * second.height as u64;
        }
        assert_eq!(area + free, 83 * 61);
        if spacing == 0 {
            assert_eq!(area, 83 * 61);
        }
        for (_, r) in &regions {
            assert!(r.x >= 0 && r.y >= 0);
            assert!(r.x + r.width as i64 <= 83 && r.y + r.height as i64 <= 61);
        }
    }
}

#[test]
fn a_rectangle_holds_its_borders() {
    let rectangle = Rectangle { x: 10, y: 20, width: 30, height: 40 };
    assert!(rectangle.contains(Point { x: 10, y: 20 }));
    assert!(rectangle.contains(Point { x: 40, y: 60 }));
    assert!(rectangle.contains(Point { x: 25, y: 33 }));
    assert!(!rectangle.contains(Point { x: 9, y: 20 }));
    assert!(!rectangle.contains(Point { x: 41, y: 60 }));
    assert!(!rectangle.contains(Point { x: 10, y: 61 }));
    assert!(!rectangle.contains(Point { x: 10, y: 19 }));
    let far = Rectangle { x: i64::MAX, y: i64::MIN, width: u32::MAX, height: u32::MAX };
    assert!(!far.contains(Point { x: i32::MAX, y: i32::MIN }));
    assert_eq!(
        Rectangle::with_size(Size { width: 3, height: 4 }),
        Rectangle { x: 0, y: 0, width: 3, height: 4 }
    );
}

#[test]
fn ratios_clamp_to_the_range() {
    assert_eq!(Ratio { millionths: 0 }.clamped(), Ratio { millionths: 100_000 });
    assert_eq!(Ratio { millionths: 99_999 }.clamped(), Ratio { millionths: 100_000 });
    assert_eq!(Ratio { millionths: 100_000 }.clamped(), Ratio { millionths: 100_000 });
    assert_eq!(Ratio { millionths: 456_789 }.clamped(), Ratio { millionths: 456_789 });
    assert_eq!(Ratio { millionths: 900_001 }.clamped(), Ratio { millionths: 900_000 });
    assert_eq!(Ratio { millionths: u32::MAX }.clamped(), Ratio { millionths: 900_000 });
    assert_eq!(Ratio::half(), half());
    assert_eq!(Axis::default(), Axis::Horizontal);
}

#[test]
fn a_tree_built_by_hand_is_laid_out() {
    let tree = Node::Split {
        id: Split(0),
        axis: Axis::Horizontal,
        ratio: Ratio { millionths: 50_000 },
        first: Box::new(Node::Pane(Pane(1))),
        second: Box::new(Node::Pane(Pane(1))),
    };
    let regions = tree.pane_regions(0, Size { width: 10, height: 200 });
    assert_eq!(
        regions,
        vec![
            (Pane(1), Rectangle { x: 0, y: 0, width: 10, height: 10 }),
            (Pane(1), Rectangle { x: 0, y: 10, width: 10, height: 190 }),
        ]
    );
}
