use see_augmented::config::Config;
use see_augmented::geometry::Point;
use see_augmented::input::{
    redraw_due, touch_message, MouseButton, MousePen, PointerEvent, TouchPhase,
};
use see_augmented::sample::{PathMsg, PRESSURE_FULL};

fn at(x: i32, y: i32) -> Point {
    Point { x, y }
}

fn event(pressure: Option<u32>, phase: TouchPhase) -> PointerEvent {
    PointerEvent { position: at(3, 4), pressure, phase }
}

#[test]
fn touch_becomes_a_message() {
    assert_eq!(
        touch_message(event(Some(500_000), TouchPhase::Started)),
        Some(PathMsg::Start(at(3, 4), 500_000))
    );
    assert_eq!(
        touch_message(event(Some(500_000), TouchPhase::Moved)),
        Some(PathMsg::Move(at(3, 4), 500_000))
    );
    assert_eq!(touch_message(event(Some(500_000), TouchPhase::Ended)), Some(PathMsg::End(at(3, 4))));
    assert_eq!(
        touch_message(event(Some(500_000), TouchPhase::Cancelled)),
        Some(PathMsg::End(at(3, 4)))
    );
}

#[test]
fn touch_without_pressure_counts_only_at_its_end() {
    assert_eq!(touch_message(event(Some(99), TouchPhase::Started)), None);
    assert_eq!(touch_message(event(Some(0), TouchPhase::Moved)), None);
    assert_eq!(touch_message(event(Some(0), TouchPhase::Ended)), Some(PathMsg::End(at(3, 4))));
    assert_eq!(touch_message(event(Some(0), TouchPhase::Cancelled)), Some(PathMsg::End(at(3, 4))));
    assert_eq!(
        touch_message(event(Some(100), TouchPhase::Started)),
        Some(PathMsg::Start(at(3, 4), 100))
    );
}

#[test]
fn device_without_pressure_draws_at_full_pressure() {
    assert_eq!(
        touch_message(event(None, TouchPhase::Started)),
        Some(PathMsg::Start(at(3, 4), PRESSURE_FULL))
    );
    assert_eq!(
        touch_message(event(None, TouchPhase::Moved)),
        Some(PathMsg::Move(at(3, 4), PRESSURE_FULL))
    );
    assert_eq!(touch_message(event(None, TouchPhase::Ended)), Some(PathMsg::End(at(3, 4))));
}

#[test]
fn left_button_draws() {
    let mut pen = MousePen::new();
    assert!(!pen.down);
    assert_eq!(pen.hover(at(1, 1)), None);
    assert_eq!(pen.press(MouseButton::Left, at(1, 1)), Some(PathMsg::Start(at(1, 1), PRESSURE_FULL)));
    assert!(pen.down);
    assert_eq!(pen.hover(at(2, 2)), Some(PathMsg::Move(at(2, 2), PRESSURE_FULL)));
    assert_eq!(pen.release(MouseButton::Left, at(3, 3)), Some(PathMsg::End(at(3, 3))));
    assert!(!pen.down);
    assert_eq!(pen.hover(at(4, 4)), None);
}

#[test]
fn other_buttons_do_not_draw() {
    let mut pen = MousePen::new();
    assert_eq!(pen.press(MouseButton::Right, at(1, 1)), None);
    assert_eq!(pen.press(MouseButton::Middle, at(1, 1)), None);
    assert_eq!(pen.press(MouseButton::Other, at(1, 1)), None);
    assert!(!pen.down);
    pen.press(MouseButton::Left, at(1, 1));
    assert_eq!(pen.release(MouseButton::Right, at(1, 1)), None);
    assert!(pen.down);
}

#[test]
fn redraw_waits_for_the_interval() {
    let config = Config::default();
    assert!(!redraw_due(&config, 1000, 1000));
    assert!(!redraw_due(&config, 1000, 1033));
    assert!(redraw_due(&config, 1000, 1034));
    assert!(!redraw_due(&config, 1000, 999));
    assert!(!redraw_due(&config, u64::MAX, 0));
    assert!(redraw_due(&config, 0, u64::MAX));
    let eager = Config { min_redraw_interval_ms: 0, ..config };
    assert!(!redraw_due(&eager, 5, 5));
    assert!(redraw_due(&eager, 5, 6));
}
