//! The actor of one cluster: it owns the cluster's policy, tunes the
//! frequency to the load where it is set up to do so, and carries out the
//! events that the controller sends it.
//!
//! The actor's thread and queue are the caller's. The caller samples the
//! load and calls [`Insider::tune`], waits for an event as
//! [`Insider::recv_event`] says, and hands what came to
//! [`Insider::event_loop`], until that says to stop.

use crate::policy::{Freq, Policy, PolicyView};
use crate::text::{decimal, join, joined, to_decimal};
use crate::write_pool::{requests, Request, WriteRequest};
use vstd::prelude::*;

verus! {

/// The longest that an actor which tunes to the load waits for an event, in
/// milliseconds.
pub const TUNE_INTERVAL: u64 = 25;

/// The mode that an actor's cluster is in.
#[derive(Debug, Clone, Copy, PartialEq, Eq, Structural)]
pub enum State {
    /// Game mode.
    Fas,
    /// The default state.
    Normal,
}

/// What the controller asks of an actor.
#[derive(Debug, Clone, Copy, PartialEq, Eq, Structural)]
pub enum Event {
    /// Go back to the default state; the flag says whether the cluster is
    /// the one of the small cores.
    InitDefault(bool),
    /// Enter game mode.
    InitGame,
    /// Hold the cluster to at most this frequency.
    SetFasFreq(Freq),
}

/// How a wait for an event ended.
#[derive(Debug, Clone, Copy, PartialEq, Eq, Structural)]
pub enum Received {
    Event(Event),
    /// The time to wait has passed.
    Timeout,
    /// Nobody can send events any more.
    Disconnected,
}

/// What an actor does after a wait.
#[derive(Debug)]
pub struct Turn {
    /// The writes to make, in order.
    pub writes: Vec<WriteRequest>,
    /// Whether to go on with the loop.
    pub go_on: bool,
}

/// How long one core was busy during an interval, and how long the interval
/// was, in the kernel's ticks.
#[derive(Debug, Clone, Copy, PartialEq, Eq, Structural)]
pub struct CoreTimes {
    pub busy: u64,
    pub total: u64,
}

/// The load of a core in percent: the share of the interval that it was busy,
/// rounded down, and at most 100. An interval of no length shows no load.
pub open spec fn usage_of(t: CoreTimes) -> u8 {
    if t.total == 0 {
        0
    } else if t.busy >= t.total {
        100
    } else {
        (t.busy * 100 / t.total as int) as u8
    }
}

/// The highest load among the cores of a cluster; 0 for a cluster without
/// cores.
pub open spec fn usage_max_of(times: Seq<CoreTimes>) -> u8
    decreases times.len(),
{
    if times.len() == 0 {
        0
    } else {
        let front = usage_max_of(times.drop_last());
        if usage_of(times.last()) > front {
            usage_of(times.last())
        } else {
            front
        }
    }
}

/// The load of a core in percent.
pub fn usage_percent(t: CoreTimes) -> (r: u8)
    ensures
        r == usage_of(t),
        r <= 100,
{
    if t.total == 0 {
        0
    } else if t.busy >= t.total {
        100
    } else {
        let share: u128 = (t.busy as u128) * 100 / (t.total as u128);
        assert(share < 100) by (nonlinear_arith)
            requires
                share == (t.busy * 100) / (t.total as int),
                t.busy < t.total,
                t.total > 0,
        ;
        share as u8
    }
}

/// Whether the step `f` is enough for a load of `usage` percent of what the
/// cluster can do at `ceiling`.
pub open spec fn covers(f: Freq, ceiling: Freq, usage: u8) -> bool {
    f * 100 >= ceiling * (if usage < 100 {
        usage as int
    } else {
        100
    })
}

/// The place of the first of `freqs` that covers the load, or of the last
/// step if none does.
pub open spec fn usage_step(freqs: Seq<Freq>, ceiling: Freq, usage: u8) -> nat
    decreases freqs.len(),
{
    if freqs.len() <= 1 || covers(freqs[0], ceiling, usage) {
        0
    } else {
        1 + usage_step(freqs.drop_first(), ceiling, usage)
    }
}

/// An actor as a mathematical value.
pub struct InsiderView {
    pub policy: PolicyView,
    /// Whether the actor tunes the frequency to the load all the time.
    pub always_userspace: bool,
    pub state: State,
}

impl InsiderView {
    /// The frequency for a load of `usage` percent: the lowest step that
    /// covers it.
    pub open spec fn usage_freq(self, usage: u8) -> Freq {
        self.policy.freqs[usage_step(self.policy.freqs, self.policy.ceiling(), usage) as int]
    }

    /// The write that sets the frequency under the governor `userspace`.
    pub open spec fn speed_request(self, f: Freq) -> Request {
        (joined(self.policy.path, "scaling_setspeed"@), decimal(f as nat))
    }

    /// The writes that tune the cluster to a load of `usage` percent: none
    /// unless the actor is set up to tune.
    pub open spec fn tune_requests(self, usage: u8) -> Seq<Request> {
        if self.always_userspace {
            seq![self.speed_request(self.usage_freq(usage))]
        } else {
            Seq::empty()
        }
    }

    /// The actor after the event `e`, where the cluster's governor was
    /// `governor` when the event came.
    pub open spec fn after_event(self, e: Event, governor: Seq<char>) -> InsiderView {
        match e {
            Event::InitDefault(little) => InsiderView {
                policy: (PolicyView { little, ..self.policy }).released(),
                state: State::Normal,
                ..self
            },
            Event::InitGame => InsiderView {
                policy: self.policy.taken_over(governor),
                state: State::Fas,
                ..self
            },
            Event::SetFasFreq(_) => self,
        }
    }

    /// The writes that the event `e` calls for.
    pub open spec fn event_requests(self, e: Event) -> Seq<Request> {
        match e {
            Event::InitDefault(little) => (PolicyView { little, ..self.policy }).default_requests(),
            Event::InitGame => self.policy.game_requests(),
            Event::SetFasFreq(f) => self.policy.fas_requests(f),
        }
    }

    /// The actor after a wait that ended with `received`.
    pub open spec fn after_wait(self, received: Received, governor: Seq<char>) -> InsiderView {
        match received {
            Received::Event(e) => self.after_event(e, governor),
            _ => self,
        }
    }

    /// The writes to make after a wait that ended with `received`.
    pub open spec fn wait_requests(self, received: Received) -> Seq<Request> {
        match received {
            Received::Event(e) => self.event_requests(e),
            _ => Seq::empty(),
        }
    }
}

pub struct Insider {
    policy: Policy,
    always_userspace_governor: bool,
    state: State,
}

impl View for Insider {
    type V = InsiderView;

    closed spec fn view(&self) -> InsiderView {
        InsiderView {
            policy: self.policy@,
            always_userspace: self.always_userspace_governor,
            state: self.state,
        }
    }
}

impl Insider {
    /// The actor of the cluster `policy`, in the default state.
    pub fn new(policy: Policy, always_userspace_governor: bool) -> (r: Insider)
        ensures
            r@ == (InsiderView {
                policy: policy@,
                always_userspace: always_userspace_governor,
                state: State::Normal,
            }),
    {
        Insider { policy, always_userspace_governor, state: State::Normal }
    }

    /// Whether the actor tunes the frequency to the load all the time.
    pub fn always_userspace_governor(&self) -> (r: bool)
        ensures
            r == self@.always_userspace,
    {
        self.always_userspace_governor
    }

    /// The mode that the cluster is in.
    pub fn state(&self) -> (r: State)
        ensures
            r == self@.state,
    {
        self.state
    }

    /// The cluster.
    pub fn policy(&self) -> (r: &Policy)
        ensures
            r@ == self@.policy,
    {
        &self.policy
    }

    /// The highest load among the cores of the cluster, from the times that
    /// were sampled for them.
    pub fn current_usage_max(times: &Vec<CoreTimes>) -> (r: u8)
        ensures
            r == usage_max_of(times@),
    {
        let mut highest: u8 = 0;
        let mut i: usize = 0;
        assert(times@.take(0) == Seq::<CoreTimes>::empty());
        while i < times.len()
            invariant
                i <= times.len(),
                highest == usage_max_of(times@.take(i as int)),
            decreases times.len() - i,
        {
            assert(times@.take(i + 1).drop_last() == times@.take(i as int));
            let usage = usage_percent(times[i]);
            if usage > highest {
                highest = usage;
            }
            i += 1;
        }
        assert(times@.take(times.len() as int) == times@);
        highest
    }

    /// The frequency for a load of `usage` percent.
    pub fn usage_policy(&self, usage: u8) -> (r: Freq)
        requires
            self@.policy.freqs.len() > 0,
        ensures
            r == self@.usage_freq(usage),
    {
        let freqs = self.policy.freqs();
        let ceiling = freqs[freqs.len() - 1];
        let share: u128 = if usage < 100 {
            usage as u128
        } else {
            100
        };
        assert(ceiling * share <= usize::MAX * 100) by (nonlinear_arith)
            requires
                ceiling <= usize::MAX,
                share <= 100,
        ;
        let needed: u128 = (ceiling as u128) * share;
        let mut i: usize = 0;
        assert(freqs@.skip(0) == freqs@);
        while i + 1 < freqs.len() && (freqs[i] as u128) * 100 < needed
            invariant
                i < freqs.len(),
                needed == ceiling * (if usage < 100 {
                    usage as int
                } else {
                    100
                }),
                usage_step(freqs@, ceiling, usage) == i + usage_step(
                    freqs@.skip(i as int),
                    ceiling,
                    usage,
                ),
            decreases freqs.len() - i,
        {
            assert(freqs@.skip(i as int).drop_first() == freqs@.skip(i + 1));
            i += 1;
        }
        assert(freqs@.skip(i as int)[0] == freqs@[i as int]);
        freqs[i]
    }

    /// The write that sets the frequency under the governor `userspace`.
    pub fn set_userspace_governor_freq(&self, f: Freq) -> (r: WriteRequest)
        ensures
            r@ == self@.speed_request(f),
    {
        WriteRequest { path: join(self.policy.path(), "scaling_setspeed"), value: to_decimal(f as u64) }
    }

    /// Tunes the cluster to a load of `usage` percent, if the actor is set up
    /// to do so.
    pub fn tune(&self, usage: u8) -> (r: Vec<WriteRequest>)
        requires
            self@.policy.freqs.len() > 0,
        ensures
            requests(r@) == self@.tune_requests(usage),
    {
        let mut out: Vec<WriteRequest> = Vec::new();
        if self.always_userspace_governor {
            let f = self.usage_policy(usage);
            out.push(self.set_userspace_governor_freq(f));
        }
        assert(requests(out@) =~= self@.tune_requests(usage));
        out
    }

    /// How long to wait for the next event at most, in milliseconds: a short
    /// while where the actor tunes to the load, so that it looks at the load
    /// again soon; `None`, which is without end, where it does not.
    pub fn recv_event(&self) -> (r: Option<u64>)
        ensures
            r == if self@.always_userspace {
                Some(TUNE_INTERVAL)
            } else {
                None
            },
    {
        if self.always_userspace_governor {
            Some(TUNE_INTERVAL)
        } else {
            None
        }
    }

    /// Goes back to the default state; `little` says whether the cluster is
    /// the one of the small cores.
    pub fn init_default(&mut self, little: bool) -> (r: Vec<WriteRequest>)
        requires
            old(self)@.policy.freqs.len() > 0,
        ensures
            requests(r@) == old(self)@.event_requests(Event::InitDefault(little)),
            final(self)@ == old(self)@.after_event(Event::InitDefault(little), Seq::empty()),
    {
        self.policy.set_little(little);
        self.state = State::Normal;
        self.policy.init_default()
    }

    /// Enters game mode. `governor` is what the cluster's governor file
    /// holds at this moment.
    pub fn init_game(&mut self, governor: &str) -> (r: Vec<WriteRequest>)
        requires
            old(self)@.policy.freqs.len() > 0,
        ensures
            requests(r@) == old(self)@.event_requests(Event::InitGame),
            final(self)@ == old(self)@.after_event(Event::InitGame, governor@),
    {
        self.state = State::Fas;
        self.policy.init_game(governor)
    }

    /// Holds the cluster to at most `f`.
    pub fn set_fas_freq(&mut self, f: Freq) -> (r: Vec<WriteRequest>)
        requires
            old(self)@.policy.freqs.len() > 0,
        ensures
            requests(r@) == old(self)@.event_requests(Event::SetFasFreq(f)),
            final(self)@ == old(self)@,
    {
        self.policy.set_fas_freq(f)
    }

    /// One turn of the loop, after the wait: carries out the event if one
    /// came, and says whether the loop goes on. It ends when nobody can send
    /// events any more, and only then. `governor` is what the cluster's
    /// governor file holds at this moment.
    pub fn event_loop(&mut self, received: Received, governor: &str) -> (r: Turn)
        requires
            old(self)@.policy.freqs.len() > 0,
        ensures
            requests(r.writes@) == old(self)@.wait_requests(received),
            final(self)@ == old(self)@.after_wait(received, governor@),
            r.go_on == (received != Received::Disconnected),
            final(self)@.policy.freqs == old(self)@.policy.freqs,
    {
        match received {
            Received::Event(event) => {
                let writes = match event {
                    Event::InitDefault(little) => self.init_default(little),
                    Event::InitGame => self.init_game(governor),
                    Event::SetFasFreq(f) => self.set_fas_freq(f),
                };
                Turn { writes, go_on: true }
            },
            Received::Timeout => Turn { writes: Vec::new(), go_on: true },
            Received::Disconnected => Turn { writes: Vec::new(), go_on: false },
        }
    }
}

} // verus!
