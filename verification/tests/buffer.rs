use fas_rs::buffer::{Buffer, FrameTime, BUFFER_MAX, READY_SAMPLES, READY_SPAN};
use fas_rs::config::TargetFps;

fn millis(n: u64) -> FrameTime {
    FrameTime::from_millis(n).unwrap()
}

#[test]
fn the_constants() {
    assert_eq!(BUFFER_MAX, 144);
    assert_eq!(READY_SAMPLES, 30);
    assert_eq!(READY_SPAN, 1_000_000_000);
}

#[test]
fn frame_time_units() {
    assert_eq!(FrameTime::from_nanos(5).as_nanos(), 5);
    assert_eq!(millis(16).as_nanos(), 16_000_000);
    assert_eq!(FrameTime::from_millis(u64::MAX), None);
    assert_eq!(FrameTime::from_millis(18_446_744_073_709), Some(FrameTime { nanos: 18_446_744_073_709_000_000 }));
    assert_eq!(FrameTime::from_millis(18_446_744_073_710), None);
    assert!(FrameTime::from_nanos(0).is_zero());
    assert!(!FrameTime::from_nanos(1).is_zero());
}

#[test]
fn a_new_buffer_is_empty_and_not_ready() {
    let b = Buffer::new(TargetFps::Value(60));
    assert_eq!(b.len(), 0);
    assert!(!b.is_ready());
    assert_eq!(b.target_fps(), &TargetFps::Value(60));
}

#[test]
fn a_buffer_keeps_the_target_it_was_made_for() {
    let mut b = Buffer::new(TargetFps::Array(vec![30, 60]));
    b.push_frametime(millis(16));
    assert_eq!(b.target_fps(), &TargetFps::Array(vec![30, 60]));
}

#[test]
fn the_window_holds_at_most_its_room() {
    let mut b = Buffer::new(TargetFps::Value(60));
    for _ in 0..143 {
        b.push_frametime(millis(1));
    }
    assert_eq!(b.len(), 143);
    b.push_frametime(millis(1));
    assert_eq!(b.len(), 144);
    b.push_frametime(millis(1));
    assert_eq!(b.len(), 144);
    for _ in 0..500 {
        b.push_frametime(millis(1));
    }
    assert_eq!(b.len(), 144);
}

#[test]
fn too_few_samples_are_not_ready_however_long_they_took() {
    let mut b = Buffer::new(TargetFps::Value(60));
    for _ in 0..29 {
        b.push_frametime(millis(1000));
        assert!(!b.is_ready());
    }
    b.push_frametime(millis(1000));
    assert!(b.is_ready());
}

#[test]
fn enough_samples_are_ready_once_they_span_a_second() {
    let mut b = Buffer::new(TargetFps::Value(60));
    for _ in 0..59 {
        b.push_frametime(FrameTime::from_nanos(16_666_667));
        assert!(!b.is_ready());
    }
    // 60 frames of 16 666 667 ns span 1 000 000 020 ns.
    b.push_frametime(FrameTime::from_nanos(16_666_667));
    assert!(b.is_ready());
}

#[test]
fn the_span_counts_to_the_nanosecond() {
    let mut short = Buffer::new(TargetFps::Value(30));
    let mut long = Buffer::new(TargetFps::Value(30));
    for _ in 0..29 {
        short.push_frametime(FrameTime::from_nanos(33_333_333));
        long.push_frametime(FrameTime::from_nanos(33_333_333));
    }
    // 29 * 33 333 333 = 966 666 657; 33 333 342 more is one short of a second.
    short.push_frametime(FrameTime::from_nanos(33_333_342));
    long.push_frametime(FrameTime::from_nanos(33_333_343));
    assert!(!short.is_ready());
    assert!(long.is_ready());
}

#[test]
fn a_full_window_is_ready_however_short_it_is() {
    let mut b = Buffer::new(TargetFps::Value(240));
    for _ in 0..143 {
        b.push_frametime(millis(4));
        assert!(!b.is_ready());
    }
    b.push_frametime(millis(4));
    assert!(b.is_ready());
}

#[test]
fn the_oldest_sample_leaves_first() {
    let mut b = Buffer::new(TargetFps::Value(60));
    // One long sample, then short ones: ready while the long one is in the
    // window, which is always, since a full window is ready too.
    b.push_frametime(millis(1000));
    for _ in 0..29 {
        b.push_frametime(FrameTime::from_nanos(1));
    }
    assert!(b.is_ready());
    let mut c = Buffer::new(TargetFps::Value(60));
    for _ in 0..30 {
        c.push_frametime(FrameTime::from_nanos(1));
    }
    assert!(!c.is_ready());
}

#[test]
fn samples_of_the_longest_time_do_not_overflow() {
    let mut b = Buffer::new(TargetFps::Value(60));
    for _ in 0..100 {
        b.push_frametime(FrameTime::from_nanos(u64::MAX));
    }
    assert!(b.is_ready());
}
