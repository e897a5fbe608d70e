use rustautogui::motion::{MotionStep, MouseMotion};
use rustautogui::mouse::{DragAction, Mouse, MouseClick, MouseEventKind, MouseInput, MouseScroll};

fn input(kind: MouseEventKind) -> MouseInput {
    MouseInput { kind, mouse_data: 0 }
}

#[test]
fn new_mouse_is_built() {
    let m = Mouse::new();
    assert_eq!(format!("{:?}", m), "Mouse");
}

#[test]
fn mouse_down_presses_each_button() {
    assert_eq!(Mouse::mouse_down(MouseClick::LEFT), input(MouseEventKind::LeftDown));
    assert_eq!(Mouse::mouse_down(MouseClick::RIGHT), input(MouseEventKind::RightDown));
    assert_eq!(Mouse::mouse_down(MouseClick::MIDDLE), input(MouseEventKind::MiddleDown));
}

#[test]
fn mouse_up_releases_each_button() {
    assert_eq!(Mouse::mouse_up(MouseClick::LEFT), input(MouseEventKind::LeftUp));
    assert_eq!(Mouse::mouse_up(MouseClick::RIGHT), input(MouseEventKind::RightUp));
    assert_eq!(Mouse::mouse_up(MouseClick::MIDDLE), input(MouseEventKind::MiddleUp));
}

#[test]
fn click_is_press_then_release() {
    for b in [MouseClick::LEFT, MouseClick::RIGHT, MouseClick::MIDDLE] {
        assert_eq!(Mouse::mouse_click(b), (Mouse::mouse_down(b), Mouse::mouse_up(b)));
    }
}

#[test]
fn button_events_are_distinct() {
    let all = [MouseClick::LEFT, MouseClick::RIGHT, MouseClick::MIDDLE];
    for a in all {
        for b in all {
            assert_ne!(Mouse::mouse_down(a), Mouse::mouse_up(b));
            if a != b {
                assert_ne!(Mouse::mouse_down(a), Mouse::mouse_down(b));
                assert_ne!(Mouse::mouse_up(a), Mouse::mouse_up(b));
            }
        }
    }
}

#[test]
fn scroll_one_notch_each_direction() {
    assert_eq!(
        Mouse::scroll(MouseScroll::UP, 1),
        MouseInput { kind: MouseEventKind::Wheel, mouse_data: 120 }
    );
    assert_eq!(
        Mouse::scroll(MouseScroll::DOWN, 1),
        MouseInput { kind: MouseEventKind::Wheel, mouse_data: (-120i32) as u32 }
    );
    assert_eq!(
        Mouse::scroll(MouseScroll::LEFT, 1),
        MouseInput { kind: MouseEventKind::HorizontalWheel, mouse_data: 0xFFFF_FF88 }
    );
    assert_eq!(
        Mouse::scroll(MouseScroll::RIGHT, 1),
        MouseInput { kind: MouseEventKind::HorizontalWheel, mouse_data: 120 }
    );
}

#[test]
fn scroll_scales_with_intensity() {
    assert_eq!(Mouse::scroll(MouseScroll::UP, 5).mouse_data, 600);
    assert_eq!(Mouse::scroll(MouseScroll::RIGHT, 17_895_697).mouse_data, 2_147_483_640);
    assert_eq!(Mouse::scroll(MouseScroll::DOWN, 10).mouse_data, (-1200i32) as u32);
}

#[test]
fn scroll_zero_intensity_sends_zero() {
    for d in [MouseScroll::UP, MouseScroll::DOWN, MouseScroll::LEFT, MouseScroll::RIGHT] {
        assert_eq!(Mouse::scroll(d, 0).mouse_data, 0);
    }
}

#[test]
fn scroll_opposites_cancel() {
    for i in [0u32, 1, 7, 1000, 17_895_697] {
        let up = Mouse::scroll(MouseScroll::UP, i);
        let down = Mouse::scroll(MouseScroll::DOWN, i);
        assert_eq!(up.kind, down.kind);
        assert_eq!(up.mouse_data.wrapping_add(down.mouse_data), 0);
        let left = Mouse::scroll(MouseScroll::LEFT, i);
        let right = Mouse::scroll(MouseScroll::RIGHT, i);
        assert_eq!(left.kind, right.kind);
        assert_eq!(left.mouse_data.wrapping_add(right.mouse_data), 0);
    }
}

#[test]
fn scroll_intensity_read_as_signed() {
    // 0xFFFF_FFFF reads as -1: one notch the other way.
    assert_eq!(Mouse::scroll(MouseScroll::UP, u32::MAX).mouse_data, (-120i32) as u32);
}

#[test]
fn drag_plan_is_press_wait_move_wait_release() {
    let plan = Mouse::drag_mouse(300, -20);
    assert_eq!(
        plan,
        vec![
            DragAction::Send(input(MouseEventKind::LeftDown)),
            DragAction::SleepMillis(80),
            DragAction::MoveTo(300, -20),
            DragAction::SleepMillis(50),
            DragAction::Send(input(MouseEventKind::LeftUp)),
        ]
    );
}

#[test]
fn motion_interpolates_in_proportion() {
    let m = MouseMotion::new((0, 0), (100, -50), 1000);
    assert_eq!(m.step(0), MotionStep::MoveTo(0, 0));
    assert_eq!(m.step(500), MotionStep::MoveTo(50, -25));
    assert_eq!(m.step(333), MotionStep::MoveTo(33, -16));
    assert_eq!(m.step(999), MotionStep::MoveTo(99, -49));
}

#[test]
fn motion_arrives_at_duration() {
    let m = MouseMotion::new((10, 20), (-30, 60), 250);
    assert_eq!(m.step(250), MotionStep::Arrive(-30, 60));
    assert_eq!(m.step(2500), MotionStep::Arrive(-30, 60));
}

#[test]
fn motion_arrives_however_late_it_is_polled() {
    let m = MouseMotion::new((10, 20), (-30, 60), 250);
    assert_eq!(m.step(2501), MotionStep::Arrive(-30, 60));
    assert_eq!(m.step(u64::MAX), MotionStep::Arrive(-30, 60));
    let tiny = MouseMotion::new((0, 0), (5, 5), 1);
    assert_eq!(tiny.step(11), MotionStep::Arrive(5, 5));
}

#[test]
fn motion_rounds_toward_zero() {
    // -5 + 1/3 * 10 = -1.67, rounded toward zero to -1
    let m = MouseMotion::new((-5, 5), (5, -5), 3);
    assert_eq!(m.step(1), MotionStep::MoveTo(-1, 1));
    assert_eq!(m.step(2), MotionStep::MoveTo(1, -1));
}

#[test]
fn motion_never_backtracks() {
    let m = MouseMotion::new((-700, 900), (1919, -3), 7_000_000);
    let mut last = (-700i32, 900i32);
    let mut e = 0u64;
    while e < 7_000_000 {
        match m.step(e) {
            MotionStep::MoveTo(x, y) => {
                assert!(last.0 <= x && x <= 1919);
                assert!(-3 <= y && y <= last.1);
                last = (x, y);
            }
            other => panic!("unexpected step {:?}", other),
        }
        e += 12_345;
    }
}

#[test]
fn motion_with_large_duration_and_extreme_points() {
    let m = MouseMotion::new((i32::MIN, i32::MAX), (-1, 0), u64::MAX);
    assert_eq!(m.step(0), MotionStep::MoveTo(i32::MIN, i32::MAX));
    match m.step(u64::MAX / 2) {
        MotionStep::MoveTo(x, y) => {
            assert!(i32::MIN <= x && x <= -1);
            assert!(0 <= y);
        }
        other => panic!("unexpected step {:?}", other),
    }
}
