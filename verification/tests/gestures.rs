use pane_grid::widget::highlight_bounds;
use pane_grid::{
    hovered_split, pane_at, Axis, Button, Color, Content, ContentTarget, DragEvent, Event, Gesture,
    Highlight,
    Interaction, Length, Line, Message, MouseEvent, MouseInteraction, Offset, Pane, PaneDrawing,
    PaneGrid, Point, Ratio, Rectangle, ResizeEvent, Size, Split, State, Status, Style, TouchEvent,
    Vector,
};

const PRESS: Event = Event::Mouse(MouseEvent::ButtonPressed(Button::Left));
const RELEASE: Event = Event::Mouse(MouseEvent::ButtonReleased(Button::Left));
const MOVE: Event = Event::Mouse(MouseEvent::CursorMoved);

fn hundred() -> Size {
    Size { width: 100, height: 100 }
}

fn at(x: i32, y: i32) -> Point {
    Point { x, y }
}

fn title_bar() -> Content {
    Content::new().pick_area(Rectangle { x: 0, y: 0, width: u32::MAX, height: 20 })
}

/// Pane 1 on the left, pane 0 on the right.
fn two_panes() -> (State<()>, Pane, Pane) {
    let (mut state, a) = State::new(());
    let b = state.split(a, Axis::Vertical, ()).unwrap();
    (state, a, b)
}

#[test]
fn new_grid_shows_every_pane_and_reacts_to_nothing() {
    let (mut state, a) = State::new(10u32);
    let b = state.split(a, Axis::Vertical, 20).unwrap();
    let grid = PaneGrid::new(&state, |pane, kept| {
        Content::new().pick_area(Rectangle { x: pane.0 as i64, y: 0, width: *kept, height: 1 })
    });
    assert_eq!(
        grid.elements,
        vec![
            (b, Content { pick_area: Some(Rectangle { x: 1, y: 0, width: 20, height: 1 }) }),
            (a, Content { pick_area: Some(Rectangle { x: 0, y: 0, width: 10, height: 1 }) }),
        ]
    );
    assert_eq!(grid.width, Length::Fill);
    assert_eq!(grid.height, Length::Fill);
    assert_eq!(grid.spacing, 0);
    assert!(!grid.on_click);
    assert!(!grid.on_drag);
    assert_eq!(grid.on_resize, None);
    assert_eq!(grid.style, Style::default());
    assert_eq!(grid.content(a), Some(grid.elements[1].1));
    assert_eq!(grid.content(Pane(5)), None);
}

#[test]
fn builders_set_one_field_each() {
    let (state, _, _) = two_panes();
    let line = Line { color: Color { r: 1, g: 2, b: 3, a: 4 }, width: 2 };
    let style = Style { picked_split: Some(line), hovered_split: None };
    let grid = PaneGrid::new(&state, |_, _| Content::new())
        .width(Length::Units(300))
        .height(Length::Shrink)
        .spacing(7)
        .on_click()
        .on_drag()
        .on_resize(9)
        .style(style);
    assert_eq!(grid.width, Length::Units(300));
    assert_eq!(grid.height, Length::Shrink);
    assert_eq!(grid.spacing, 7);
    assert!(grid.on_click);
    assert!(grid.on_drag);
    assert_eq!(grid.on_resize, Some(9));
    assert_eq!(grid.style, style);
    assert_eq!(grid.elements.len(), 2);
}

#[test]
fn layout_follows_the_elements() {
    let (mut state, a, b) = two_panes();
    let grid = PaneGrid::new(&state, |_, _| Content::new()).spacing(4);
    assert_eq!(grid.layout(state.layout(), hundred()), state.layout().pane_regions(4, hundred()));
    assert!(state.close(b).is_some());
    assert_eq!(
        grid.layout(state.layout(), hundred()),
        vec![(a, Rectangle { x: 0, y: 0, width: 100, height: 100 })]
    );
}

#[test]
fn press_near_the_split_line_picks_the_split() {
    let (state, _, _) = two_panes();
    let grid = PaneGrid::new(&state, |_, _| title_bar()).spacing(4).on_click().on_drag().on_resize(6);
    let splits = state.layout().split_regions(4, hundred());
    assert_eq!(
        hovered_split(&splits, 10, at(49, 50)),
        Some((Split(2), Axis::Vertical, Rectangle { x: 45, y: 0, width: 10, height: 100 }))
    );
    let mut interaction = Interaction::Idle;
    let outcome = grid.on_event(state.layout(), &mut interaction, PRESS, hundred(), at(49, 50));
    assert_eq!(interaction, Interaction::SplitPicked { split: Split(2), axis: Axis::Vertical });
    assert_eq!(outcome.status, Status::Captured);
    assert_eq!(outcome.messages, vec![]);
    for x in [45, 55] {
        let mut interaction = Interaction::Idle;
        grid.on_event(state.layout(), &mut interaction, PRESS, hundred(), at(x, 0));
        assert_eq!(interaction, Interaction::SplitPicked { split: Split(2), axis: Axis::Vertical });
    }
    for x in [44, 56] {
        let mut interaction = Interaction::Idle;
        grid.on_event(state.layout(), &mut interaction, PRESS, hundred(), at(x, 50));
        assert_eq!(interaction, Interaction::Idle);
    }
}

#[test]
fn hovered_split_takes_the_first_band() {
    let (mut state, a, _) = two_panes();
    state.split(a, Axis::Horizontal, ()).unwrap();
    let splits = state.layout().split_regions(0, hundred());
    assert_eq!(
        hovered_split(&splits, 10, at(52, 50)),
        Some((Split(2), Axis::Vertical, Rectangle { x: 45, y: 0, width: 10, height: 100 }))
    );
    assert_eq!(
        hovered_split(&splits, 10, at(80, 50)),
        Some((Split(4), Axis::Horizontal, Rectangle { x: 50, y: 45, width: 50, height: 10 }))
    );
    assert_eq!(hovered_split(&splits, 10, at(20, 50)), None);
    assert_eq!(hovered_split(&Vec::new(), 10, at(20, 50)), None);
}

#[test]
fn press_on_a_pane_reports_the_click() {
    let (state, a, b) = two_panes();
    let grid = PaneGrid::new(&state, |_, _| title_bar()).spacing(4).on_click().on_resize(6);
    let mut interaction = Interaction::Idle;
    let outcome = grid.on_event(state.layout(), &mut interaction, PRESS, hundred(), at(10, 50));
    assert_eq!(outcome.status, Status::Captured);
    assert_eq!(outcome.messages, vec![Message::PaneClicked(b)]);
    assert_eq!(interaction, Interaction::Idle);
    let touch = Event::Touch(TouchEvent::FingerPressed);
    let outcome = grid.on_event(state.layout(), &mut interaction, touch, hundred(), at(90, 5));
    assert_eq!(outcome.messages, vec![Message::PaneClicked(a)]);
    assert_eq!(interaction, Interaction::Idle);
}

#[test]
fn press_in_the_pick_area_picks_the_pane() {
    let (state, a, _) = two_panes();
    let grid = PaneGrid::new(&state, |_, _| title_bar()).spacing(4).on_click().on_drag();
    let mut interaction = Interaction::Idle;
    let outcome = grid.on_event(state.layout(), &mut interaction, PRESS, hundred(), at(60, 10));
    assert_eq!(outcome.status, Status::Captured);
    assert_eq!(
        outcome.messages,
        vec![Message::PaneClicked(a), Message::Dragged(DragEvent::Picked { pane: a })]
    );
    assert_eq!(
        interaction,
        Interaction::PanePicked { pane: a, origin_offset: Offset { x: 8, y: 10 } }
    );

    let mut interaction = Interaction::Idle;
    let outcome = grid.on_event(state.layout(), &mut interaction, PRESS, hundred(), at(60, 21));
    assert_eq!(outcome.messages, vec![Message::PaneClicked(a)]);
    assert_eq!(interaction, Interaction::Idle);

    let quiet = PaneGrid::new(&state, |_, _| title_bar()).spacing(4).on_drag();
    let outcome = quiet.on_event(state.layout(), &mut interaction, PRESS, hundred(), at(60, 20));
    assert_eq!(outcome.messages, vec![Message::Dragged(DragEvent::Picked { pane: a })]);
    assert_eq!(
        interaction,
        Interaction::PanePicked { pane: a, origin_offset: Offset { x: 8, y: 20 } }
    );

    let plain = PaneGrid::new(&state, |_, _| Content::new()).on_click().on_drag();
    let mut interaction = Interaction::Idle;
    let outcome = plain.on_event(state.layout(), &mut interaction, PRESS, hundred(), at(60, 10));
    assert_eq!(outcome.messages, vec![Message::PaneClicked(a)]);
    assert_eq!(interaction, Interaction::Idle);
}

#[test]
fn press_in_the_free_strip_hits_nothing_without_resizing() {
    let (state, _, _) = two_panes();
    let grid = PaneGrid::new(&state, |_, _| title_bar()).spacing(4).on_click().on_drag();
    let mut interaction = Interaction::Idle;
    let outcome = grid.on_event(state.layout(), &mut interaction, PRESS, hundred(), at(50, 10));
    assert_eq!(outcome.status, Status::Captured);
    assert_eq!(outcome.messages, vec![]);
    assert_eq!(interaction, Interaction::Idle);
}

#[test]
fn press_on_a_shared_border_goes_to_the_earlier_pane() {
    let (state, a, b) = two_panes();
    let grid = PaneGrid::new(&state, |_, _| Content::new()).on_click();
    let mut interaction = Interaction::Idle;
    let outcome = grid.on_event(state.layout(), &mut interaction, PRESS, hundred(), at(50, 10));
    assert_eq!(outcome.messages, vec![Message::PaneClicked(b)]);
    let outcome = grid.on_event(state.layout(), &mut interaction, PRESS, hundred(), at(51, 10));
    assert_eq!(outcome.messages, vec![Message::PaneClicked(a)]);
    let regions = state.layout().pane_regions(0, hundred());
    assert_eq!(pane_at(&regions, at(50, 100)), Some(regions[0]));
    assert_eq!(pane_at(&regions, at(100, 100)), Some(regions[1]));
    assert_eq!(pane_at(&regions, at(101, 100)), None);
}

#[test]
fn press_outside_the_grid_is_ignored() {
    let (state, _, _) = two_panes();
    let grid = PaneGrid::new(&state, |_, _| title_bar()).on_click().on_drag().on_resize(6);
    for cursor in [at(-1, 50), at(101, 50), at(50, -1), at(50, 101)] {
        let mut interaction = Interaction::Idle;
        let outcome = grid.on_event(state.layout(), &mut interaction, PRESS, hundred(), cursor);
        assert_eq!(outcome.status, Status::Ignored);
        assert_eq!(outcome.messages, vec![]);
        assert_eq!(interaction, Interaction::Idle);
    }
}

#[test]
fn other_events_are_ignored() {
    let (state, _, _) = two_panes();
    let grid = PaneGrid::new(&state, |_, _| title_bar()).on_click().on_drag().on_resize(6);
    let picked = Interaction::SplitPicked { split: Split(2), axis: Axis::Vertical };
    for event in [
        Event::Other,
        Event::Mouse(MouseEvent::Other),
        Event::Mouse(MouseEvent::ButtonPressed(Button::Right)),
        Event::Mouse(MouseEvent::ButtonReleased(Button::Middle)),
        Event::Mouse(MouseEvent::ButtonPressed(Button::Other)),
    ] {
        assert_eq!(event.gesture(), Gesture::Nothing);
        let mut interaction = picked;
        let outcome = grid.on_event(state.layout(), &mut interaction, event, hundred(), at(50, 50));
        assert_eq!(outcome.status, Status::Ignored);
        assert_eq!(outcome.messages, vec![]);
        assert_eq!(interaction, picked);
    }
    assert_eq!(Event::Touch(TouchEvent::FingerPressed).gesture(), Gesture::Press);
    assert_eq!(Event::Touch(TouchEvent::FingerLifted).gesture(), Gesture::Release);
    assert_eq!(Event::Touch(TouchEvent::FingerLost).gesture(), Gesture::Release);
    assert_eq!(Event::Touch(TouchEvent::FingerMoved).gesture(), Gesture::Move);
    assert_eq!(PRESS.gesture(), Gesture::Press);
    assert_eq!(RELEASE.gesture(), Gesture::Release);
    assert_eq!(MOVE.gesture(), Gesture::Move);
}

#[test]
fn release_over_another_pane_drops() {
    let (state, a, b) = two_panes();
    let grid = PaneGrid::new(&state, |_, _| title_bar()).spacing(4).on_drag();
    let picked = Interaction::PanePicked { pane: a, origin_offset: Offset { x: 8, y: 10 } };

    let mut interaction = picked;
    let outcome = grid.on_event(state.layout(), &mut interaction, RELEASE, hundred(), at(10, 90));
    assert_eq!(outcome.status, Status::Captured);
    assert_eq!(
        outcome.messages,
        vec![Message::Dragged(DragEvent::Dropped { pane: a, target: b })]
    );
    assert_eq!(interaction, Interaction::Idle);

    for cursor in [at(70, 90), at(50, 50), at(300, 300)] {
        let mut interaction = picked;
        let outcome = grid.on_event(state.layout(), &mut interaction, RELEASE, hundred(), cursor);
        assert_eq!(outcome.status, Status::Captured);
        assert_eq!(outcome.messages, vec![Message::Dragged(DragEvent::Canceled { pane: a })]);
        assert_eq!(interaction, Interaction::Idle);
    }

    let fixed = PaneGrid::new(&state, |_, _| title_bar()).spacing(4);
    let mut interaction = picked;
    let lifted = Event::Touch(TouchEvent::FingerLifted);
    let outcome = fixed.on_event(state.layout(), &mut interaction, lifted, hundred(), at(10, 90));
    assert_eq!(outcome.status, Status::Captured);
    assert_eq!(outcome.messages, vec![]);
    assert_eq!(interaction, Interaction::Idle);
}

#[test]
fn release_lets_go_of_a_split() {
    let (state, _, _) = two_panes();
    let grid = PaneGrid::new(&state, |_, _| title_bar()).on_drag().on_resize(6);
    let mut interaction = Interaction::SplitPicked { split: Split(2), axis: Axis::Vertical };
    let outcome = grid.on_event(state.layout(), &mut interaction, RELEASE, hundred(), at(10, 90));
    assert_eq!(outcome.status, Status::Captured);
    assert_eq!(outcome.messages, vec![]);
    assert_eq!(interaction, Interaction::Idle);
    let outcome = grid.on_event(state.layout(), &mut interaction, RELEASE, hundred(), at(10, 90));
    assert_eq!(outcome.status, Status::Ignored);
    assert_eq!(outcome.messages, vec![]);
    assert_eq!(interaction, Interaction::Idle);
}

fn resized(split: usize, millionths: u32) -> Vec<Message> {
    vec![Message::Resized(ResizeEvent { split: Split(split), ratio: Ratio { millionths } })]
}

#[test]
fn move_with_a_split_picked_asks_for_a_resize() {
    let (state, _, _) = two_panes();
    let grid = PaneGrid::new(&state, |_, _| title_bar()).spacing(4).on_resize(6);
    let picked = Interaction::SplitPicked { split: Split(2), axis: Axis::Vertical };
    for (x, millionths) in [
        (30, 300_000),
        (10, 100_000),
        (9, 100_000),
        (0, 100_000),
        (-500, 100_000),
        (90, 900_000),
        (91, 900_000),
        (100, 900_000),
        (5000, 900_000),
        (33, 330_000),
    ] {
        let mut interaction = picked;
        let outcome = grid.on_event(state.layout(), &mut interaction, MOVE, hundred(), at(x, 400));
        assert_eq!(outcome.status, Status::Captured);
        assert_eq!(outcome.messages, resized(2, millionths));
        assert_eq!(interaction, picked);
    }
    let size = Size { width: 3, height: 100 };
    let mut interaction = picked;
    let outcome = grid.on_event(state.layout(), &mut interaction, MOVE, size, at(1, 0));
    assert_eq!(outcome.messages, resized(2, 333_333));
    let outcome = grid.on_event(state.layout(), &mut interaction, MOVE, size, at(2, 0));
    assert_eq!(outcome.messages, resized(2, 666_667));
    let nothing = Size { width: 0, height: 0 };
    let outcome = grid.on_event(state.layout(), &mut interaction, MOVE, nothing, at(1, 0));
    assert_eq!(outcome.messages, resized(2, 900_000));
    let outcome = grid.on_event(state.layout(), &mut interaction, MOVE, nothing, at(0, 0));
    assert_eq!(outcome.messages, resized(2, 100_000));
}

#[test]
fn move_measures_inside_the_rectangle_of_the_split() {
    let (mut state, a, _) = two_panes();
    state.split(a, Axis::Horizontal, ()).unwrap();
    let grid = PaneGrid::new(&state, |_, _| title_bar()).spacing(3).on_resize(0);
    let size = Size { width: 97, height: 53 };
    let mut interaction = Interaction::SplitPicked { split: Split(4), axis: Axis::Vertical };
    let outcome = grid.on_event(state.layout(), &mut interaction, MOVE, size, at(0, 10));
    assert_eq!(outcome.messages, resized(4, 188_679));
    let (status, event) = grid.trigger_resize(state.layout(), &interaction, size, at(0, 40));
    assert_eq!(status, Status::Captured);
    assert_eq!(event, Some(ResizeEvent { split: Split(4), ratio: Ratio { millionths: 754_717 } }));
}

#[test]
fn move_without_a_split_to_resize_is_ignored() {
    let (state, a, _) = two_panes();
    let grid = PaneGrid::new(&state, |_, _| title_bar()).on_drag().on_resize(6);
    let fixed = PaneGrid::new(&state, |_, _| title_bar()).on_drag();
    let split = Interaction::SplitPicked { split: Split(2), axis: Axis::Vertical };
    let unknown = Interaction::SplitPicked { split: Split(7), axis: Axis::Vertical };
    let pane = Interaction::PanePicked { pane: a, origin_offset: Offset { x: 0, y: 0 } };
    for (grid, before) in
        [(&grid, Interaction::Idle), (&grid, pane), (&grid, unknown), (&fixed, split)]
    {
        let mut interaction = before;
        let outcome = grid.on_event(state.layout(), &mut interaction, MOVE, hundred(), at(30, 30));
        assert_eq!(outcome.status, Status::Ignored);
        assert_eq!(outcome.messages, vec![]);
        assert_eq!(interaction, before);
    }
}

#[test]
fn every_press_inside_hits_a_split_or_a_pane() {
    let (mut state, a, b) = two_panes();
    state.split(a, Axis::Horizontal, ()).unwrap();
    state.split(b, Axis::Horizontal, ()).unwrap();
    state.resize(Split(2), Ratio { millionths: 100_000 });
    let size = Size { width: 41, height: 29 };
    for (spacing, leeway) in [(0, 0), (3, 0), (4, 6), (60, 1), (1, 90)] {
        let grid = PaneGrid::new(&state, |_, _| Content::new())
            .spacing(spacing)
            .on_click()
            .on_resize(leeway);
        for y in 0..=29 {
            for x in 0..=41 {
                let mut interaction = Interaction::Idle;
                let outcome = grid.on_event(state.layout(), &mut interaction, PRESS, size, at(x, y));
                assert_eq!(outcome.status, Status::Captured);
                let on_split = matches!(interaction, Interaction::SplitPicked { .. });
                let on_pane = matches!(outcome.messages[..], [Message::PaneClicked(_)]);
                assert!(on_split != on_pane);
            }
        }
    }
}

#[test]
fn pointer_shows_what_it_can_do() {
    let (state, a, _) = two_panes();
    let grid = PaneGrid::new(&state, |_, _| title_bar()).spacing(4).on_resize(6);
    let contents = vec![MouseInteraction::Pointer, MouseInteraction::Text, MouseInteraction::Idle];
    let show = |interaction: Interaction, cursor: Point| {
        grid.mouse_interaction(state.layout(), &interaction, hundred(), cursor, &contents)
    };
    let pane = Interaction::PanePicked { pane: a, origin_offset: Offset { x: 0, y: 0 } };
    assert_eq!(show(pane, at(49, 50)), MouseInteraction::Grab);
    let vertical = Interaction::SplitPicked { split: Split(2), axis: Axis::Vertical };
    assert_eq!(show(vertical, at(10, 10)), MouseInteraction::ResizingHorizontally);
    let horizontal = Interaction::SplitPicked { split: Split(2), axis: Axis::Horizontal };
    assert_eq!(show(horizontal, at(10, 10)), MouseInteraction::ResizingVertically);
    assert_eq!(show(Interaction::Idle, at(49, 50)), MouseInteraction::ResizingHorizontally);
    assert_eq!(show(Interaction::Idle, at(10, 50)), MouseInteraction::Text);
    let fixed = PaneGrid::new(&state, |_, _| title_bar()).spacing(4);
    assert_eq!(
        fixed.mouse_interaction(state.layout(), &Interaction::Idle, hundred(), at(49, 50), &vec![]),
        MouseInteraction::Idle
    );
}

#[test]
fn strongest_interaction_has_the_highest_rank() {
    assert_eq!(MouseInteraction::strongest(&vec![]), MouseInteraction::Idle);
    assert_eq!(
        MouseInteraction::strongest(&vec![
            MouseInteraction::Grabbing,
            MouseInteraction::ResizingVertically,
            MouseInteraction::Crosshair,
        ]),
        MouseInteraction::ResizingVertically
    );
    assert_eq!(MouseInteraction::Idle.rank(), 0);
    assert_eq!(MouseInteraction::Working.rank(), 5);
    assert_eq!(MouseInteraction::ResizingHorizontally.rank(), 7);
    assert_eq!(Status::Ignored.merge(Status::Ignored), Status::Ignored);
    assert_eq!(Status::Ignored.merge(Status::Captured), Status::Captured);
    assert_eq!(Status::Captured.merge(Status::Ignored), Status::Captured);
}

fn plain(pane: Pane, bounds: Rectangle, cursor: Point) -> PaneDrawing {
    PaneDrawing { pane, bounds, cursor: Some(cursor), translation: None }
}

#[test]
fn draw_places_every_pane() {
    let (state, a, b) = two_panes();
    let grid = PaneGrid::new(&state, |_, _| title_bar()).spacing(4).on_resize(6);
    let drawing = grid.draw(state.layout(), &Interaction::Idle, hundred(), at(49, 50));
    assert_eq!(
        drawing.panes,
        vec![
            plain(b, Rectangle { x: 0, y: 0, width: 48, height: 100 }, at(49, 50)),
            plain(a, Rectangle { x: 52, y: 0, width: 48, height: 100 }, at(49, 50)),
        ]
    );
    assert_eq!(drawing.highlight, None);
}

#[test]
fn draw_moves_the_dragged_pane_with_the_pointer() {
    let (state, a, b) = two_panes();
    let grid = PaneGrid::new(&state, |_, _| title_bar()).spacing(4).on_drag();
    let picked = Interaction::PanePicked { pane: a, origin_offset: Offset { x: 8, y: 10 } };
    let drawing = grid.draw(state.layout(), &picked, hundred(), at(20, 30));
    assert_eq!(
        drawing.panes,
        vec![
            PaneDrawing {
                pane: b,
                bounds: Rectangle { x: 0, y: 0, width: 48, height: 100 },
                cursor: None,
                translation: None,
            },
            PaneDrawing {
                pane: a,
                bounds: Rectangle { x: 52, y: 0, width: 48, height: 100 },
                cursor: None,
                translation: Some(Vector { x: -40, y: 20 }),
            },
        ]
    );
}

#[test]
fn draw_highlights_the_split() {
    let (state, _, _) = two_panes();
    let red = Color { r: 255, g: 0, b: 0, a: 255 };
    let blue = Color { r: 0, g: 0, b: 255, a: 255 };
    let style = Style {
        picked_split: Some(Line { color: red, width: 7 }),
        hovered_split: Some(Line { color: blue, width: 2 }),
    };
    let grid = PaneGrid::new(&state, |_, _| title_bar()).spacing(4).on_resize(6).style(style);

    let hovered = grid.draw(state.layout(), &Interaction::Idle, hundred(), at(46, 50));
    assert_eq!(
        hovered.highlight,
        Some(Highlight { bounds: Rectangle { x: 49, y: 0, width: 2, height: 100 }, color: blue })
    );
    let away = grid.draw(state.layout(), &Interaction::Idle, hundred(), at(10, 50));
    assert_eq!(away.highlight, None);

    let picked = Interaction::SplitPicked { split: Split(2), axis: Axis::Vertical };
    let dragged = grid.draw(state.layout(), &picked, hundred(), at(10, 50));
    assert_eq!(
        dragged.highlight,
        Some(Highlight { bounds: Rectangle { x: 47, y: 0, width: 7, height: 100 }, color: red })
    );

    let unknown = Interaction::SplitPicked { split: Split(9), axis: Axis::Vertical };
    let fallback = grid.draw(state.layout(), &unknown, hundred(), at(46, 50));
    assert_eq!(fallback.highlight, hovered.highlight);

    let across = Interaction::SplitPicked { split: Split(2), axis: Axis::Horizontal };
    let turned = grid.draw(state.layout(), &across, hundred(), at(10, 50));
    assert_eq!(
        turned.highlight,
        Some(Highlight { bounds: Rectangle { x: 0, y: 47, width: 100, height: 7 }, color: red })
    );

    let bare = PaneGrid::new(&state, |_, _| title_bar()).spacing(4).on_resize(6);
    assert_eq!(bare.draw(state.layout(), &picked, hundred(), at(49, 50)).highlight, None);
}

#[test]
fn the_bar_is_centered_on_the_rounded_sum() {
    let (state, _, _) = two_panes();
    let white = Color { r: 255, g: 255, b: 255, a: 255 };
    let style = Style { picked_split: Some(Line { color: white, width: 1 }), hovered_split: None };
    let grid = PaneGrid::new(&state, |_, _| Content::new()).on_resize(0).style(style);
    let picked = Interaction::SplitPicked { split: Split(2), axis: Axis::Vertical };
    let drawing = grid.draw(state.layout(), &picked, hundred(), at(0, 0));
    assert_eq!(
        drawing.highlight,
        Some(Highlight { bounds: Rectangle { x: 50, y: 0, width: 1, height: 100 }, color: white })
    );
    let band = Rectangle { x: 48, y: 0, width: 4, height: 100 };
    assert_eq!(highlight_bounds(Axis::Vertical, band, 2).x, 49);
    assert_eq!(highlight_bounds(Axis::Vertical, band, 4).x, 48);
    assert_eq!(highlight_bounds(Axis::Vertical, band, 7).x, 47);
    assert_eq!(highlight_bounds(Axis::Vertical, band, 8).x, 46);
    let across = Rectangle { x: 3, y: -4, width: 9, height: 2 };
    assert_eq!(
        highlight_bounds(Axis::Horizontal, across, 5),
        Rectangle { x: 3, y: -6, width: 9, height: 5 }
    );
    assert_eq!(highlight_bounds(Axis::Horizontal, across, 3).y, -5);
    assert_eq!(highlight_bounds(Axis::Horizontal, across, 9).y, -8);
    let low = Rectangle { x: 0, y: 0, width: 0, height: 0 };
    assert_eq!(highlight_bounds(Axis::Vertical, low, 1).x, -1);
    assert_eq!(highlight_bounds(Axis::Vertical, low, 2).x, -1);
    assert_eq!(highlight_bounds(Axis::Vertical, low, 3).x, -2);
}

#[test]
fn without_spacing_every_press_lands_on_a_pane() {
    let (mut state, a, b) = two_panes();
    state.split(a, Axis::Horizontal, ()).unwrap();
    state.split(b, Axis::Vertical, ()).unwrap();
    state.resize(Split(4), Ratio { millionths: 777_777 });
    let size = Size { width: 37, height: 23 };
    let grid = PaneGrid::new(&state, |_, _| Content::new()).on_click();
    for y in 0..=23 {
        for x in 0..=37 {
            let mut interaction = Interaction::Idle;
            let outcome = grid.on_event(state.layout(), &mut interaction, PRESS, size, at(x, y));
            assert!(matches!(outcome.messages[..], [Message::PaneClicked(_)]));
            assert_eq!(interaction, Interaction::Idle);
        }
    }
}

#[test]
fn contents_see_the_event_after_the_grid() {
    let (state, a, b) = two_panes();
    let grid = PaneGrid::new(&state, |_, _| title_bar()).spacing(4).on_drag();
    let mut interaction = Interaction::Idle;
    let outcome = grid.on_event(state.layout(), &mut interaction, PRESS, hundred(), at(60, 10));
    assert_eq!(
        grid.content_targets(state.layout(), &interaction, hundred()),
        vec![
            ContentTarget {
                pane: b,
                bounds: Rectangle { x: 0, y: 0, width: 48, height: 100 },
                is_picked: false,
            },
            ContentTarget {
                pane: a,
                bounds: Rectangle { x: 52, y: 0, width: 48, height: 100 },
                is_picked: true,
            },
        ]
    );
    assert_eq!(outcome.status.merge_all(&vec![Status::Ignored, Status::Ignored]), Status::Captured);
    let idle = grid.content_targets(state.layout(), &Interaction::Idle, hundred());
    assert!(idle.iter().all(|target| !target.is_picked));
    assert_eq!(Status::Ignored.merge_all(&vec![]), Status::Ignored);
    assert_eq!(Status::Ignored.merge_all(&vec![Status::Ignored, Status::Ignored]), Status::Ignored);
    assert_eq!(
        Status::Ignored.merge_all(&vec![Status::Ignored, Status::Captured, Status::Ignored]),
        Status::Captured
    );
    assert_eq!(Status::Captured.merge_all(&vec![]), Status::Captured);
}

#[test]
fn a_gesture_from_press_to_drop() {
    let (mut state, a, b) = two_panes();
    let grid = PaneGrid::new(&state, |_, _| title_bar()).on_drag();
    let mut interaction = Interaction::Idle;
    grid.on_event(state.layout(), &mut interaction, PRESS, hundred(), at(20, 5));
    assert_eq!(interaction.picked_pane(), Some((b, Offset { x: 20, y: 5 })));
    assert_eq!(interaction.picked_split(), None);
    grid.on_event(state.layout(), &mut interaction, MOVE, hundred(), at(80, 50));
    let outcome = grid.on_event(state.layout(), &mut interaction, RELEASE, hundred(), at(80, 50));
    assert_eq!(
        outcome.messages,
        vec![Message::Dragged(DragEvent::Dropped { pane: b, target: a })]
    );
    assert!(state.drag_and_drop_commit(b, a));
    assert_eq!(state.layout().pane_list(), vec![b, a]);
    let mut held = Interaction::Idle;
    held.pick_split(Split(3), Axis::Horizontal);
    assert_eq!(held.picked_split(), Some((Split(3), Axis::Horizontal)));
    held.pick_pane(a, Offset { x: 1, y: 2 });
    assert_eq!(held.picked_pane(), Some((a, Offset { x: 1, y: 2 })));
    held.idle();
    assert_eq!(held, Interaction::Idle);
}
