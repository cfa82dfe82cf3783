use objmesh::camera::{Axis, Bindings, Controls, Input, Step};
use objmesh::light::{process_input, ArrowKeys, Nudge};
use objmesh::support::{Action, FrameLoop};

#[test]
fn keys_are_held_in_the_order_they_went_down() {
    let mut c = Controls::new(900);
    c.process_input(Input::KeyPressed(3));
    c.process_input(Input::KeyPressed(1));
    c.process_input(Input::KeyPressed(3));
    c.process_input(Input::KeyPressed(2));
    assert_eq!(c.keys, vec![3, 1, 2]);
    assert!(c.holds(1));
    assert!(!c.holds(4));
    assert_eq!(c.position(2), Some(2));
    assert_eq!(c.position(9), None);
}

#[test]
fn released_key_leaves_the_others_in_place() {
    let mut c = Controls::new(900);
    c.process_input(Input::KeyPressed(3));
    c.process_input(Input::KeyPressed(1));
    c.process_input(Input::KeyPressed(2));
    c.process_input(Input::KeyReleased(1));
    assert_eq!(c.keys, vec![3, 2]);
    c.process_input(Input::KeyReleased(7));
    assert_eq!(c.keys, vec![3, 2]);
    c.process_input(Input::Other);
    assert_eq!(c.keys, vec![3, 2]);
}

#[test]
fn mouse_button_is_held_under_its_code() {
    let mut c = Controls::new(900);
    assert!(!c.can_take(Input::MouseReleased));
    c.process_input(Input::MousePressed);
    c.process_input(Input::MousePressed);
    assert_eq!(c.keys, vec![900]);
    assert!(c.can_take(Input::MouseReleased));
    c.process_input(Input::MouseReleased);
    assert!(c.keys.is_empty());
}

#[test]
fn mouse_movement_is_measured_from_the_last_place() {
    let mut c = Controls::new(900);
    c.process_input(Input::MouseMoved(10, 20));
    assert_eq!((c.dx, c.dy, c.mouse), (10, -20, (10, 20)));
    c.process_input(Input::MouseMoved(4, 5));
    assert_eq!((c.dx, c.dy, c.mouse), (-6, 15, (4, 5)));
    c.process_input(Input::KeyPressed(1));
    assert_eq!((c.dx, c.dy, c.mouse), (-6, 15, (4, 5)));
}

#[test]
fn mouse_movement_out_of_range_is_not_taken() {
    let mut c = Controls::new(900);
    c.process_input(Input::MouseMoved(-2, 2));
    assert!(!c.can_take(Input::MouseMoved(i32::MAX, 0)));
    assert!(!c.can_take(Input::MouseMoved(0, i32::MIN)));
    assert!(c.can_take(Input::MouseMoved(i32::MAX - 2, i32::MIN + 3)));
    assert!(c.can_take(Input::KeyPressed(0)));
}

#[test]
fn frame_loop_carries_the_rest_of_a_step() {
    let mut f = FrameLoop::new(10_000_000, 1_000);
    assert_eq!(f, FrameLoop { time_stamp: 10_000_000, accumulator: 0, previous_clock: 1_000, frame: 0 });
    assert_eq!(f.elapsed(4_001_000), 4_000_000);
    assert_eq!(f.advance(4_001_000, Action::Continue), Some(6));
    assert_eq!(f, FrameLoop { time_stamp: 10_000_000, accumulator: 4_000_000, previous_clock: 4_001_000, frame: 1 });
    assert_eq!(f.advance(33_001_000, Action::Continue), Some(7));
    assert_eq!(f.accumulator, 3_000_000);
    assert_eq!(f.frame, 2);
}

#[test]
fn frame_loop_stops_without_a_change() {
    let mut f = FrameLoop::new(5, 0);
    f.advance(7, Action::Continue);
    let before = f;
    assert_eq!(f.advance(9, Action::Stop), None);
    assert_eq!(f, before);
}

#[test]
fn frame_loop_pause_is_cut_to_32_bits() {
    let mut f = FrameLoop::new(u64::MAX, 0);
    let rest = (u64::MAX - 1) / 1_000_000;
    assert_eq!(f.advance(1, Action::Continue), Some(rest as u32));
    assert!(rest > u32::MAX as u64);
}

#[test]
fn frame_loop_refuses_a_clock_that_went_back() {
    let f = FrameLoop::new(5, 100);
    assert!(!f.ready(99));
    assert!(f.ready(100));
    let g = FrameLoop { time_stamp: u64::MAX, accumulator: u64::MAX - 1, previous_clock: 0, frame: 0 };
    assert!(g.ready(1));
    assert!(!g.ready(2));
    let h = FrameLoop { time_stamp: 5, accumulator: 0, previous_clock: 0, frame: u32::MAX };
    assert!(!h.ready(1));
}

#[test]
fn frame_loop_reads_the_clock() {
    let mut f = FrameLoop::start(1_000_000);
    assert_eq!((f.time_stamp, f.accumulator, f.frame), (1_000_000, 0, 0));
    assert!(f.previous_clock > 0);
    if let Some(now) = f.begin_frame() {
        assert!(now >= f.previous_clock);
        assert!(f.ready(now));
        let dt = f.elapsed(now);
        let pause = f.advance(now, Action::Continue);
        assert_eq!(f.accumulator, dt % 1_000_000);
        assert_eq!(pause, Some(if f.accumulator == 0 { 1 } else { 0 }));
        assert_eq!(f.previous_clock, now);
    }
}

fn bindings() -> Bindings {
    Bindings {
        move_forward_button: 1,
        move_backward_button: 2,
        strafe_left_button: 3,
        strafe_right_button: 4,
        fly_up_button: 5,
        fly_down_button: 6,
        move_faster_button: 7,
    }
}

#[test]
fn no_key_held_gives_no_movement() {
    let c = Controls::new(900);
    assert!(c.update_pos(&bindings()).is_empty());
    let mut c = Controls::new(900);
    c.process_input(Input::KeyPressed(7));
    c.process_input(Input::KeyPressed(42));
    c.process_input(Input::MousePressed);
    assert!(c.update_pos(&bindings()).is_empty());
}

#[test]
fn each_key_moves_along_its_axis() {
    let expected = [
        (1, Step { axis: Axis::Forward, ahead: false }),
        (2, Step { axis: Axis::Forward, ahead: true }),
        (3, Step { axis: Axis::Right, ahead: true }),
        (4, Step { axis: Axis::Right, ahead: false }),
        (5, Step { axis: Axis::Up, ahead: true }),
        (6, Step { axis: Axis::Up, ahead: false }),
    ];
    for (key, step) in expected {
        let mut c = Controls::new(900);
        c.process_input(Input::KeyPressed(key));
        assert_eq!(c.update_pos(&bindings()), vec![step]);
        c.process_input(Input::KeyReleased(key));
        assert!(c.update_pos(&bindings()).is_empty());
    }
}

#[test]
fn movements_come_in_the_order_of_the_bindings() {
    let mut c = Controls::new(900);
    for key in [6, 4, 1, 3] {
        c.process_input(Input::KeyPressed(key));
    }
    assert_eq!(
        c.update_pos(&bindings()),
        vec![
            Step { axis: Axis::Forward, ahead: false },
            Step { axis: Axis::Right, ahead: true },
            Step { axis: Axis::Right, ahead: false },
            Step { axis: Axis::Up, ahead: false },
        ]
    );
}

#[test]
fn arrow_keys_nudge_the_light() {
    let keys = ArrowKeys { left: 1, right: 2, up: 3, down: 4 };
    assert_eq!(process_input(Input::KeyPressed(1), &keys), Some(Nudge { l: 0, u: -1 }));
    assert_eq!(process_input(Input::KeyPressed(2), &keys), Some(Nudge { l: 0, u: 1 }));
    assert_eq!(process_input(Input::KeyPressed(3), &keys), Some(Nudge { l: 1, u: 0 }));
    assert_eq!(process_input(Input::KeyPressed(4), &keys), Some(Nudge { l: -1, u: 0 }));
}

#[test]
fn other_reports_leave_the_light_alone() {
    let keys = ArrowKeys { left: 1, right: 2, up: 3, down: 4 };
    assert_eq!(process_input(Input::KeyPressed(5), &keys), None);
    assert_eq!(process_input(Input::KeyReleased(1), &keys), None);
    assert_eq!(process_input(Input::MousePressed, &keys), None);
    assert_eq!(process_input(Input::MouseReleased, &keys), None);
    assert_eq!(process_input(Input::MouseMoved(1, 1), &keys), None);
    assert_eq!(process_input(Input::Other, &keys), None);
}

#[test]
fn first_arrow_counts_where_two_share_a_code() {
    let keys = ArrowKeys { left: 1, right: 1, up: 1, down: 1 };
    assert_eq!(process_input(Input::KeyPressed(1), &keys), Some(Nudge { l: 0, u: -1 }));
}

#[test]
fn clock_reading_is_taken_where_the_frame_can_be() {
    let f = FrameLoop::new(5, 100);
    assert_eq!(f.take_reading(100), Some(100));
    assert_eq!(f.take_reading(u64::MAX), Some(u64::MAX));
    assert_eq!(f.take_reading(99), None);
    let g = FrameLoop { time_stamp: 5, accumulator: 4, previous_clock: 0, frame: 0 };
    assert_eq!(g.take_reading(u64::MAX - 4), Some(u64::MAX - 4));
    assert_eq!(g.take_reading(u64::MAX - 3), None);
    let h = FrameLoop { time_stamp: 5, accumulator: 0, previous_clock: 0, frame: u32::MAX };
    assert_eq!(h.take_reading(1), None);
}

#[test]
fn frame_always_begins_where_no_reading_can_be_refused() {
    let f = FrameLoop::new(5, 0);
    let now = f.begin_frame();
    assert!(now.is_some());
    assert_eq!(now, f.take_reading(now.unwrap()));
}
