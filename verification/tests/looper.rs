use fas_rs::buffer::FrameTime;
use fas_rs::config::{Config, TargetFps};
use fas_rs::error::FasError;
use fas_rs::looper::{
    copy_target, is_zero_target, FasData, Looper, PerformanceController, TopAppChecker,
};

/// A controller that counts what it is asked, and fails on demand.
struct Counting {
    game: u32,
    default: u32,
    fail: bool,
}

impl Counting {
    fn new() -> Counting {
        Counting { game: 0, default: 0, fail: false }
    }

    fn calls(&self) -> u32 {
        self.game + self.default
    }
}

impl PerformanceController for Counting {
    fn init_game(&mut self, _config: &Config) -> Result<(), FasError> {
        self.game += 1;
        if self.fail {
            Err(FasError::Other("game mode refused"))
        } else {
            Ok(())
        }
    }

    fn init_default(&mut self, _config: &Config) -> Result<(), FasError> {
        self.default += 1;
        if self.fail {
            Err(FasError::Other("default state refused"))
        } else {
            Ok(())
        }
    }
}

fn looper() -> Looper<Counting> {
    Looper::new(Config::new("[game_list]\n").unwrap(), Counting::new())
}

fn sample(buffer: u64, pid: i32, nanos: u64, target: TargetFps) -> FasData {
    FasData {
        buffer,
        pid,
        pkg: "com.example.racer".to_string(),
        frametime: FrameTime::from_nanos(nanos),
        target_fps: target,
    }
}

fn frame(buffer: u64, pid: i32) -> FasData {
    sample(buffer, pid, 16_666_667, TargetFps::Value(60))
}

#[test]
fn topapp_checker_knows_its_pids() {
    let mut checker = TopAppChecker::new();
    assert!(!checker.is_topapp(7));
    checker.refresh(vec![3, 7]);
    assert!(checker.is_topapp(7));
    assert!(checker.is_topapp(3));
    assert!(!checker.is_topapp(8));
    checker.refresh(vec![8]);
    assert!(!checker.is_topapp(7));
    assert!(checker.is_topapp(8));
}

#[test]
fn a_new_loop_watches_nothing() {
    let l = looper();
    assert_eq!(l.buffer_count(), 0);
    assert!(!l.started());
    assert_eq!(l.controller_ref().calls(), 0);
}

#[test]
fn a_sample_of_a_background_process_is_passed_over() {
    let mut l = looper();
    l.set_topapps(vec![1]);
    for _ in 0..200 {
        assert!(!l.buffer_update(&frame(10, 2)));
    }
    assert_eq!(l.buffer_count(), 0);
    assert!(!l.is_watched(10, 2));
}

#[test]
fn a_sample_of_no_time_is_passed_over() {
    let mut l = looper();
    l.set_topapps(vec![1]);
    for _ in 0..200 {
        assert!(!l.buffer_update(&sample(10, 1, 0, TargetFps::Value(60))));
    }
    assert_eq!(l.buffer_count(), 0);
}

#[test]
fn samples_that_are_passed_over_leave_a_watched_buffer_alone() {
    let mut l = looper();
    l.set_topapps(vec![1]);
    // 59 samples that count: one more would make the buffer ready.
    for _ in 0..59 {
        assert!(!l.buffer_update(&frame(10, 1)));
    }
    for _ in 0..100 {
        assert!(!l.buffer_update(&sample(10, 1, 0, TargetFps::Value(60))));
        assert!(!l.buffer_update(&frame(10, 2)));
    }
    assert_eq!(l.buffer_count(), 1);
    assert!(l.buffer_update(&frame(10, 1)));
}

#[test]
fn a_sample_with_target_zero_that_does_not_count_is_passed_over() {
    let mut l = looper();
    l.set_topapps(vec![1]);
    assert!(!l.buffer_update(&sample(10, 2, 5, TargetFps::Value(0))));
    assert!(!l.buffer_update(&sample(10, 1, 0, TargetFps::Value(0))));
    assert_eq!(l.try_buffer_update(&sample(10, 2, 5, TargetFps::Value(0))), Ok(false));
    assert_eq!(l.buffer_count(), 0);
}

#[test]
fn the_first_sample_opens_a_buffer_that_is_not_ready() {
    let mut l = looper();
    l.set_topapps(vec![1]);
    // Long enough to make any buffer ready that held thirty of them.
    assert!(!l.buffer_update(&sample(10, 1, u64::MAX, TargetFps::Value(60))));
    assert_eq!(l.buffer_count(), 1);
    assert!(l.is_watched(10, 1));
    assert!(!l.is_watched(10, 2));
    assert!(!l.is_watched(11, 1));
}

#[test]
fn a_buffer_reports_when_it_is_ready() {
    let mut l = looper();
    l.set_topapps(vec![1]);
    for _ in 0..59 {
        assert!(!l.buffer_update(&frame(10, 1)));
    }
    assert!(l.buffer_update(&frame(10, 1)));
    assert!(l.buffer_update(&frame(10, 1)));
    assert_eq!(l.buffer_count(), 1);
}

#[test]
fn buffers_are_kept_apart_by_render_buffer_and_process() {
    let mut l = looper();
    l.set_topapps(vec![1, 2]);
    for _ in 0..59 {
        l.buffer_update(&frame(10, 1));
    }
    assert!(!l.buffer_update(&frame(11, 1)));
    assert!(!l.buffer_update(&frame(10, 2)));
    assert_eq!(l.buffer_count(), 3);
    assert!(l.buffer_update(&frame(10, 1)));
    assert!(!l.buffer_update(&frame(11, 1)));
}

#[test]
fn a_sample_with_target_zero_is_turned_down_before_anything_changes() {
    let mut l = looper();
    l.set_topapps(vec![1]);
    assert_eq!(
        l.try_buffer_update(&sample(10, 1, 5, TargetFps::Value(0))),
        Err(FasError::ZeroTargetFps)
    );
    assert_eq!(l.buffer_count(), 0);
    assert!(!l.is_watched(10, 1));
    // Nor does it touch a buffer that is watched.
    for _ in 0..59 {
        assert_eq!(l.try_buffer_update(&frame(10, 1)), Ok(false));
    }
    assert_eq!(
        l.try_buffer_update(&sample(10, 1, 16_666_667, TargetFps::Value(0))),
        Err(FasError::ZeroTargetFps)
    );
    assert_eq!(l.try_buffer_update(&frame(10, 1)), Ok(true));
}

#[test]
fn an_array_that_holds_zero_is_no_target_zero() {
    let mut l = looper();
    l.set_topapps(vec![1]);
    assert_eq!(l.try_buffer_update(&sample(10, 1, 5, TargetFps::Array(vec![0]))), Ok(false));
    assert_eq!(l.try_buffer_update(&sample(11, 1, 5, TargetFps::Array(vec![]))), Ok(false));
    assert_eq!(l.buffer_count(), 2);
}

#[test]
fn enable_enable_disable_asks_the_controller_twice() {
    let mut l = looper();
    assert_eq!(l.enable_fas(), Ok(()));
    assert!(l.started());
    assert_eq!(l.controller_ref().calls(), 1);
    assert_eq!(l.enable_fas(), Ok(()));
    assert!(l.started());
    assert_eq!(l.controller_ref().calls(), 1);
    assert_eq!(l.disable_fas(), Ok(()));
    assert!(!l.started());
    assert_eq!(l.controller_ref().calls(), 2);
    assert_eq!(l.controller_ref().game, 1);
    assert_eq!(l.controller_ref().default, 1);
}

#[test]
fn disable_on_a_loop_that_is_not_started_asks_nothing() {
    let mut l = looper();
    assert_eq!(l.disable_fas(), Ok(()));
    assert_eq!(l.disable_fas(), Ok(()));
    assert_eq!(l.controller_ref().calls(), 0);
    assert!(!l.started());
}

#[test]
fn a_controller_that_fails_leaves_the_mode_as_it_was() {
    let mut controller = Counting::new();
    controller.fail = true;
    let mut l = Looper::new(Config::new("").unwrap(), controller);
    assert_eq!(l.enable_fas(), Err(FasError::Other("game mode refused")));
    assert!(!l.started());
    // Not started, so it is asked again.
    assert_eq!(l.enable_fas(), Err(FasError::Other("game mode refused")));
    assert_eq!(l.controller_ref().game, 2);
    assert_eq!(l.disable_fas(), Ok(()));
    assert_eq!(l.controller_ref().default, 0);
}

#[test]
fn settle_follows_the_controller_on_success_only() {
    let mut l = looper();
    assert_eq!(l.settle(true, Err(FasError::Other("no"))), Err(FasError::Other("no")));
    assert!(!l.started());
    assert_eq!(l.settle(true, Ok(())), Ok(()));
    assert!(l.started());
    assert_eq!(l.settle(false, Err(FasError::ZeroTargetFps)), Err(FasError::ZeroTargetFps));
    assert!(l.started());
    assert_eq!(l.settle(false, Ok(())), Ok(()));
    assert!(!l.started());
    assert_eq!(l.controller_ref().calls(), 0);
}

#[test]
fn retain_drops_the_buffers_of_background_processes() {
    let mut l = looper();
    l.set_topapps(vec![1, 2, 3]);
    l.buffer_update(&frame(10, 1));
    l.buffer_update(&frame(11, 1));
    l.buffer_update(&frame(10, 2));
    l.buffer_update(&frame(10, 3));
    assert_eq!(l.buffer_count(), 4);
    l.set_topapps(vec![1, 3]);
    assert_eq!(l.retain_topapp(), Ok(()));
    assert_eq!(l.buffer_count(), 3);
    assert!(l.is_watched(10, 1));
    assert!(l.is_watched(11, 1));
    assert!(!l.is_watched(10, 2));
    assert!(l.is_watched(10, 3));
    assert!(l.started());
    assert_eq!(l.controller_ref().game, 1);
}

#[test]
fn retain_twice_is_retain_once() {
    let mut l = looper();
    l.set_topapps(vec![1, 2]);
    l.buffer_update(&frame(10, 1));
    l.buffer_update(&frame(10, 2));
    l.set_topapps(vec![2]);
    assert_eq!(l.retain_topapp(), Ok(()));
    assert_eq!(l.buffer_count(), 1);
    assert_eq!(l.controller_ref().calls(), 1);
    assert_eq!(l.retain_topapp(), Ok(()));
    assert_eq!(l.buffer_count(), 1);
    assert!(l.is_watched(10, 2));
    assert!(l.started());
    assert_eq!(l.controller_ref().calls(), 1);
}

#[test]
fn retain_leaves_game_mode_when_nothing_is_left() {
    let mut l = looper();
    l.set_topapps(vec![1]);
    l.buffer_update(&frame(10, 1));
    assert_eq!(l.retain_topapp(), Ok(()));
    assert!(l.started());
    l.set_topapps(vec![]);
    assert_eq!(l.retain_topapp(), Ok(()));
    assert_eq!(l.buffer_count(), 0);
    assert!(!l.started());
    assert_eq!(l.controller_ref().game, 1);
    assert_eq!(l.controller_ref().default, 1);
    assert_eq!(l.retain_topapp(), Ok(()));
    assert_eq!(l.controller_ref().calls(), 2);
}

#[test]
fn retain_on_an_empty_loop_that_never_started_asks_nothing() {
    let mut l = looper();
    assert_eq!(l.retain_topapp(), Ok(()));
    assert_eq!(l.controller_ref().calls(), 0);
}

#[test]
fn retain_hands_on_the_error_of_the_controller_and_asks_again_next_time() {
    let mut controller = Counting::new();
    controller.fail = true;
    let mut l = Looper::new(Config::new("").unwrap(), controller);
    l.set_topapps(vec![1]);
    l.buffer_update(&frame(10, 1));
    assert_eq!(l.retain_topapp(), Err(FasError::Other("game mode refused")));
    assert!(!l.started());
    assert_eq!(l.buffer_count(), 1);
    assert_eq!(l.retain_topapp(), Err(FasError::Other("game mode refused")));
    assert_eq!(l.controller_ref().game, 2);
}

#[test]
fn a_buffer_that_was_dropped_starts_anew() {
    let mut l = looper();
    l.set_topapps(vec![1]);
    for _ in 0..59 {
        l.buffer_update(&frame(10, 1));
    }
    l.set_topapps(vec![]);
    l.retain_topapp().unwrap();
    l.set_topapps(vec![1]);
    assert!(!l.buffer_update(&frame(10, 1)));
    assert!(!l.buffer_update(&frame(10, 1)));
}

#[test]
fn zero_targets() {
    assert!(is_zero_target(&TargetFps::Value(0)));
    assert!(!is_zero_target(&TargetFps::Value(1)));
    assert!(!is_zero_target(&TargetFps::Array(vec![])));
    assert!(!is_zero_target(&TargetFps::Array(vec![0])));
}

#[test]
fn a_copy_of_a_target_is_the_target() {
    assert_eq!(copy_target(&TargetFps::Value(90)), TargetFps::Value(90));
    assert_eq!(copy_target(&TargetFps::Array(vec![30, 60])), TargetFps::Array(vec![30, 60]));
}
