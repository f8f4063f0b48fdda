use fas_rs::insider::{usage_percent, CoreTimes, Event, Insider, Received, State, TUNE_INTERVAL};
use fas_rs::policy::Policy;
use fas_rs::write_pool::WriteRequest;

fn request(file: &str, value: &str) -> WriteRequest {
    WriteRequest { path: format!("/cluster4/{file}"), value: value.to_string() }
}

fn insider(always_userspace_governor: bool) -> Insider {
    let policy = Policy::new("policy4", "/cluster4".to_string(), vec![100, 200, 300, 400], None).unwrap();
    Insider::new(policy, always_userspace_governor)
}

#[test]
fn a_new_actor_is_in_the_default_state() {
    let a = insider(true);
    assert_eq!(a.state(), State::Normal);
    assert!(a.always_userspace_governor());
    assert_eq!(a.policy().num(), 4);
    assert!(!insider(false).always_userspace_governor());
}

#[test]
fn usage_policy_picks_the_lowest_step_that_covers_the_load() {
    let a = insider(true);
    assert_eq!(a.usage_policy(0), 100);
    assert_eq!(a.usage_policy(1), 100);
    assert_eq!(a.usage_policy(25), 100);
    assert_eq!(a.usage_policy(26), 200);
    assert_eq!(a.usage_policy(50), 200);
    assert_eq!(a.usage_policy(51), 300);
    assert_eq!(a.usage_policy(75), 300);
    assert_eq!(a.usage_policy(76), 400);
    assert_eq!(a.usage_policy(100), 400);
    assert_eq!(a.usage_policy(255), 400);
}

#[test]
fn usage_policy_with_one_step_and_with_the_largest_steps() {
    let one = Insider::new(Policy::new("policy0", "/p".to_string(), vec![7], None).unwrap(), true);
    assert_eq!(one.usage_policy(0), 7);
    assert_eq!(one.usage_policy(100), 7);
    let large = Insider::new(
        Policy::new("policy0", "/p".to_string(), vec![usize::MAX / 2, usize::MAX], None).unwrap(),
        true,
    );
    assert_eq!(large.usage_policy(49), usize::MAX / 2);
    assert_eq!(large.usage_policy(50), usize::MAX);
}

#[test]
fn tune_writes_the_speed_only_where_the_actor_tunes() {
    assert_eq!(insider(true).tune(60), vec![request("scaling_setspeed", "300")]);
    assert_eq!(insider(false).tune(60), vec![]);
}

#[test]
fn the_speed_write() {
    assert_eq!(
        insider(false).set_userspace_governor_freq(1234),
        request("scaling_setspeed", "1234")
    );
}

#[test]
fn an_actor_that_tunes_waits_a_short_while() {
    assert_eq!(TUNE_INTERVAL, 25);
    assert_eq!(insider(true).recv_event(), Some(25));
    assert_eq!(insider(false).recv_event(), None);
}

#[test]
fn the_loop_goes_on_until_nobody_can_send() {
    let mut a = insider(false);
    let turn = a.event_loop(Received::Timeout, "schedutil");
    assert!(turn.go_on);
    assert_eq!(turn.writes, vec![]);
    let turn = a.event_loop(Received::Event(Event::InitGame), "schedutil");
    assert!(turn.go_on);
    let turn = a.event_loop(Received::Disconnected, "schedutil");
    assert!(!turn.go_on);
    assert_eq!(turn.writes, vec![]);
    assert_eq!(a.state(), State::Fas);
}

#[test]
fn the_events_are_carried_out_by_the_policy() {
    let mut a = insider(false);
    let turn = a.event_loop(Received::Event(Event::InitGame), "schedutil\n");
    assert_eq!(
        turn.writes,
        vec![request("scaling_governor", "performance"), request("scaling_max_freq", "400")]
    );
    assert_eq!(a.state(), State::Fas);
    let turn = a.event_loop(Received::Event(Event::SetFasFreq(300)), "performance");
    assert_eq!(
        turn.writes,
        vec![request("scaling_max_freq", "300"), request("scaling_min_freq", "100")]
    );
    assert_eq!(a.state(), State::Fas);
    let turn = a.event_loop(Received::Event(Event::InitDefault(false)), "performance");
    assert_eq!(
        turn.writes,
        vec![
            request("scaling_min_freq", "100"),
            request("scaling_max_freq", "400"),
            request("scaling_governor", "schedutil\n"),
        ]
    );
    assert_eq!(a.state(), State::Normal);
}

#[test]
fn the_reset_tells_the_actor_whether_its_cluster_is_the_small_one() {
    let mut a = insider(false);
    a.init_default(true);
    assert!(a.policy().little());
    assert_eq!(a.init_game("schedutil"), vec![request("scaling_max_freq", "400")]);
    a.init_default(false);
    assert!(!a.policy().little());
    assert_eq!(
        a.init_game("schedutil"),
        vec![request("scaling_governor", "performance"), request("scaling_max_freq", "400")]
    );
}

#[test]
fn the_single_events() {
    let mut a = insider(true);
    assert_eq!(
        a.set_fas_freq(200),
        vec![request("scaling_max_freq", "200"), request("scaling_min_freq", "100")]
    );
    assert_eq!(a.state(), State::Normal);
    assert_eq!(
        a.init_default(false),
        vec![request("scaling_min_freq", "100"), request("scaling_max_freq", "400")]
    );
}

#[test]
fn the_load_of_a_core_is_its_busy_share_in_percent() {
    assert_eq!(usage_percent(CoreTimes { busy: 0, total: 0 }), 0);
    assert_eq!(usage_percent(CoreTimes { busy: 5, total: 0 }), 0);
    assert_eq!(usage_percent(CoreTimes { busy: 0, total: 10 }), 0);
    assert_eq!(usage_percent(CoreTimes { busy: 1, total: 3 }), 33);
    assert_eq!(usage_percent(CoreTimes { busy: 2, total: 3 }), 66);
    assert_eq!(usage_percent(CoreTimes { busy: 99, total: 100 }), 99);
    assert_eq!(usage_percent(CoreTimes { busy: 100, total: 100 }), 100);
    assert_eq!(usage_percent(CoreTimes { busy: 101, total: 100 }), 100);
    assert_eq!(usage_percent(CoreTimes { busy: u64::MAX - 1, total: u64::MAX }), 99);
}

#[test]
fn the_load_of_a_cluster_is_that_of_its_busiest_core() {
    assert_eq!(Insider::current_usage_max(&vec![]), 0);
    assert_eq!(
        Insider::current_usage_max(&vec![
            CoreTimes { busy: 10, total: 100 },
            CoreTimes { busy: 70, total: 100 },
            CoreTimes { busy: 30, total: 100 },
        ]),
        70
    );
}
