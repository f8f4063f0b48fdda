//! The control loop's bookkeeping: which render buffers of which foreground
//! processes are being watched, and whether the controller has been put into
//! game mode on their account.

use crate::assoc::{
    distinct_keys, lemma_map_of_dom, lemma_map_of_len, lemma_map_of_push, lemma_map_of_remove,
    lemma_map_of_update, lemma_map_of_values, map_of,
};
use crate::buffer::{Buffer, BufferView, FrameTime};
use crate::config::{Config, Target, TargetFps};
use crate::error::FasError;
use vstd::prelude::*;

verus! {

/// What the loop drives: something that can put the machine into game mode
/// and back. Both transitions are expensive, and either may fail.
pub trait PerformanceController {
    /// Enters game mode.
    fn init_game(&mut self, config: &Config) -> Result<(), FasError>;

    /// Goes back to the default state.
    fn init_default(&mut self, config: &Config) -> Result<(), FasError>;
}

/// One frame-time sample, as the sensor hands it in.
#[derive(Debug, Clone)]
pub struct FasData {
    /// The render buffer that the frame went to.
    pub buffer: u64,
    /// The process that drew it.
    pub pid: i32,
    /// The name of that process.
    pub pkg: String,
    pub frametime: FrameTime,
    pub target_fps: TargetFps,
}

/// The processes that are in the foreground, as last reported.
pub struct TopAppChecker {
    pids: Vec<i32>,
}

impl View for TopAppChecker {
    type V = Set<i32>;

    closed spec fn view(&self) -> Set<i32> {
        self.pids@.to_set()
    }
}

impl TopAppChecker {
    pub fn new() -> (r: TopAppChecker)
        ensures
            r@ == Set::<i32>::empty(),
    {
        let r = TopAppChecker { pids: Vec::new() };
        assert(r@ =~= Set::<i32>::empty());
        r
    }

    /// Replaces the foreground processes by `pids`.
    pub fn refresh(&mut self, pids: Vec<i32>)
        ensures
            final(self)@ == pids@.to_set(),
    {
        self.pids = pids;
    }

    pub fn is_topapp(&self, pid: i32) -> (r: bool)
        ensures
            r == self@.contains(pid),
    {
        let mut i: usize = 0;
        while i < self.pids.len()
            invariant
                i <= self.pids.len(),
                forall|j: int| 0 <= j < i ==> self.pids@[j] != pid,
            decreases self.pids.len() - i,
        {
            if self.pids[i] == pid {
                return true;
            }
            i += 1;
        }
        false
    }
}

/// The buffers that a loop watches, by render buffer and process.
pub type Buffers = Map<(u64, i32), BufferView>;

/// The part of `buffers` that belongs to processes in `topapps`.
pub open spec fn foreground(buffers: Buffers, topapps: Set<i32>) -> Buffers {
    Map::new(
        |k: (u64, i32)| buffers.contains_key(k) && topapps.contains(k.1),
        |k: (u64, i32)| buffers[k],
    )
}

/// A loop as a mathematical value.
pub struct LooperView {
    pub buffers: Buffers,
    pub topapps: Set<i32>,
    /// Whether the controller is in game mode.
    pub started: bool,
}

impl LooperView {
    /// Whether the sample `d` counts: its process is in the foreground and
    /// its frame took some time.
    pub open spec fn accepts(self, d: FasData) -> bool {
        self.topapps.contains(d.pid) && d.frametime.nanos != 0
    }

    /// The loop after the sample `d` was handed in. A sample that does not
    /// count changes nothing. One that counts goes to the buffer of its
    /// render buffer and process, which is made for the sample's target if
    /// there is none yet.
    pub open spec fn updated(self, d: FasData) -> LooperView {
        if !self.accepts(d) {
            self
        } else {
            let key = (d.buffer, d.pid);
            let buffer = if self.buffers.contains_key(key) {
                self.buffers[key]
            } else {
                BufferView::new(d.target_fps@)
            };
            LooperView { buffers: self.buffers.insert(key, buffer.push(d.frametime)), ..self }
        }
    }

    /// What handing in the sample `d` reports: whether its buffer, if it was
    /// there before, is now ready.
    pub open spec fn update_ready(self, d: FasData) -> bool {
        &&& self.accepts(d)
        &&& self.buffers.contains_key((d.buffer, d.pid))
        &&& self.buffers[(d.buffer, d.pid)].push(d.frametime).ready()
    }

    /// The loop after each sample of `ds` was handed in, in order.
    pub open spec fn updated_all(self, ds: Seq<FasData>) -> LooperView
        decreases ds.len(),
    {
        if ds.len() == 0 {
            self
        } else {
            self.updated_all(ds.drop_last()).updated(ds.last())
        }
    }

    /// The loop without the buffers of processes that left the foreground.
    pub open spec fn retained(self) -> LooperView {
        LooperView { buffers: foreground(self.buffers, self.topapps), ..self }
    }

    /// Whether anything is being watched, so that game mode is called for.
    pub open spec fn wants_game(self) -> bool {
        !self.buffers.is_empty()
    }

    /// The loop after it was to be in game mode (`game`) or out of it. Where
    /// it already is, nothing changes. Else the controller was asked, with
    /// success or not (`ok`), and the loop follows only on success.
    pub open spec fn switched(self, game: bool, ok: bool) -> LooperView {
        if self.started != game && ok {
            LooperView { started: game, ..self }
        } else {
            self
        }
    }
}

/// A sample that does not count leaves the loop as it is and reports no
/// readiness, and so does every sequence of such samples.
pub proof fn lemma_rejected_samples(v: LooperView, ds: Seq<FasData>)
    requires
        forall|i: int| 0 <= i < ds.len() ==> !v.accepts(#[trigger] ds[i]),
    ensures
        v.updated_all(ds) == v,
        forall|i: int|
            0 <= i < ds.len() ==> !(#[trigger] v.updated_all(ds.take(i))).update_ready(ds[i]),
        forall|i: int| 0 <= i <= ds.len() ==> #[trigger] v.updated_all(ds.take(i)) == v,
    decreases ds.len(),
{
    assert forall|i: int| 0 <= i <= ds.len() implies #[trigger] v.updated_all(ds.take(i)) == v by {
        lemma_rejected_prefix(v, ds, i);
    }
    assert(ds.take(ds.len() as int) == ds);
}

proof fn lemma_rejected_prefix(v: LooperView, ds: Seq<FasData>, n: int)
    requires
        forall|i: int| 0 <= i < ds.len() ==> !v.accepts(#[trigger] ds[i]),
        0 <= n <= ds.len(),
    ensures
        v.updated_all(ds.take(n)) == v,
    decreases n,
{
    if n > 0 {
        lemma_rejected_prefix(v, ds, n - 1);
        assert(ds.take(n).drop_last() == ds.take(n - 1));
        assert(ds.take(n).last() == ds[n - 1]);
    }
}

/// Dropping the background buffers a second time drops nothing more.
pub proof fn lemma_foreground_idempotent(buffers: Buffers, topapps: Set<i32>)
    ensures
        foreground(foreground(buffers, topapps), topapps) == foreground(buffers, topapps),
{
    assert(foreground(foreground(buffers, topapps), topapps) =~= foreground(buffers, topapps));
}

/// Once the loop has been cleared of background buffers and the controller
/// has followed, clearing it again changes nothing and asks the controller
/// for nothing, whatever the controller would have answered.
pub proof fn lemma_retain_idempotent(v: LooperView, ok: bool)
    ensures
        ({
            let once = v.retained().switched(v.retained().wants_game(), true);
            let twice = once.retained().switched(once.retained().wants_game(), ok);
            &&& once.started == once.retained().wants_game()
            &&& twice == once
        }),
{
    lemma_foreground_idempotent(v.buffers, v.topapps);
}

/// Asking for a mode that the loop is in changes nothing: after one
/// successful switch, a second one to the same mode is not handed on.
pub proof fn lemma_switch_idempotent(v: LooperView, game: bool, ok: bool)
    ensures
        v.switched(game, true).started == game,
        v.switched(game, true).switched(game, ok) == v.switched(game, true),
{
}

struct Entry {
    buffer_id: u64,
    pid: i32,
    buffer: Buffer,
}

impl Entry {
    spec fn key(self) -> (u64, i32) {
        (self.buffer_id, self.pid)
    }
}

spec fn pairs(entries: Seq<Entry>) -> Seq<((u64, i32), BufferView)> {
    entries.map_values(|e: Entry| (e.key(), e.buffer@))
}

pub struct Looper<P: PerformanceController> {
    buffers: Vec<Entry>,
    topapp_checker: TopAppChecker,
    controller: P,
    config: Config,
    started: bool,
}

impl<P: PerformanceController> View for Looper<P> {
    type V = LooperView;

    closed spec fn view(&self) -> LooperView {
        LooperView {
            buffers: map_of(pairs(self.buffers@)),
            topapps: self.topapp_checker@,
            started: self.started,
        }
    }
}

impl<P: PerformanceController> Looper<P> {
    /// What every operation keeps: no render buffer and process is watched
    /// twice, and every buffer is well formed.
    pub closed spec fn wf(&self) -> bool {
        &&& distinct_keys(pairs(self.buffers@))
        &&& forall|i: int| 0 <= i < self.buffers@.len() ==> (#[trigger] self.buffers@[i]).buffer@.wf()
    }

    /// The controller that the loop drives.
    pub closed spec fn controller(&self) -> P {
        self.controller
    }

    /// The configuration that the loop hands to the controller.
    pub closed spec fn config(&self) -> Config {
        self.config
    }

    /// A loop that watches nothing, with the controller in its default
    /// state and no process in the foreground.
    pub fn new(config: Config, controller: P) -> (r: Looper<P>)
        ensures
            r.wf(),
            r@.buffers == Buffers::empty(),
            r@.topapps == Set::<i32>::empty(),
            !r@.started,
            r.controller() == controller,
            r.config() == config,
    {
        let r = Looper {
            buffers: Vec::new(),
            topapp_checker: TopAppChecker::new(),
            controller,
            config,
            started: false,
        };
        assert(pairs(r.buffers@) =~= Seq::empty());
        r
    }

    /// Takes note of the processes that are now in the foreground.
    pub fn set_topapps(&mut self, pids: Vec<i32>)
        requires
            old(self).wf(),
        ensures
            final(self).wf(),
            final(self)@ == (LooperView { topapps: pids@.to_set(), ..old(self)@ }),
            final(self).controller() == old(self).controller(),
            final(self).config() == old(self).config(),
    {
        self.topapp_checker.refresh(pids);
    }

    /// Replaces the configuration that is handed to the controller.
    pub fn set_config(&mut self, config: Config)
        requires
            old(self).wf(),
        ensures
            final(self).wf(),
            final(self)@ == old(self)@,
            final(self).controller() == old(self).controller(),
            final(self).config() == config,
    {
        self.config = config;
    }

    /// Records the controller's answer to a request for game mode (`game`)
    /// or for the default state: the loop follows on success only. The
    /// answer is handed back.
    pub fn settle(&mut self, game: bool, outcome: Result<(), FasError>) -> (r: Result<(), FasError>)
        requires
            old(self).wf(),
            old(self)@.started != game,
        ensures
            final(self).wf(),
            r == outcome,
            final(self)@ == old(self)@.switched(game, outcome is Ok),
            final(self).controller() == old(self).controller(),
            final(self).config() == old(self).config(),
    {
        if outcome.is_ok() {
            self.started = game;
        }
        outcome
    }

    /// Leaves game mode, if the controller is in it. The controller is asked
    /// only then; where it fails, its error is handed on and the loop still
    /// counts as started.
    pub fn disable_fas(&mut self) -> (r: Result<(), FasError>)
        requires
            old(self).wf(),
        ensures
            final(self).wf(),
            final(self)@ == old(self)@.switched(false, r is Ok),
            final(self).config() == old(self).config(),
            !old(self)@.started ==> r is Ok && final(self).controller() == old(self).controller(),
    {
        if self.started {
            let outcome = self.controller.init_default(&self.config);
            self.settle(false, outcome)
        } else {
            Ok(())
        }
    }

    /// Enters game mode, unless the controller is in it. The controller is
    /// asked only then; where it fails, its error is handed on and the loop
    /// does not count as started.
    pub fn enable_fas(&mut self) -> (r: Result<(), FasError>)
        requires
            old(self).wf(),
        ensures
            final(self).wf(),
            final(self)@ == old(self)@.switched(true, r is Ok),
            final(self).config() == old(self).config(),
            old(self)@.started ==> r is Ok && final(self).controller() == old(self).controller(),
    {
        if !self.started {
            let outcome = self.controller.init_game(&self.config);
            self.settle(true, outcome)
        } else {
            Ok(())
        }
    }

    /// Stops watching the buffers of processes that have left the
    /// foreground, then enters game mode if anything is still watched and
    /// leaves it if nothing is.
    pub fn retain_topapp(&mut self) -> (r: Result<(), FasError>)
        requires
            old(self).wf(),
        ensures
            final(self).wf(),
            final(self)@ == old(self)@.retained().switched(
                old(self)@.retained().wants_game(),
                r is Ok,
            ),
            final(self).config() == old(self).config(),
            old(self)@.started == old(self)@.retained().wants_game() ==> r is Ok
                && final(self).controller() == old(self).controller(),
    {
        let ghost before = self.buffers@;
        let ghost topapps = self.topapp_checker@;
        let mut i: usize = 0;
        while i < self.buffers.len()
            invariant
                i <= self.buffers.len(),
                self.wf(),
                self.topapp_checker == old(self).topapp_checker,
                self.controller == old(self).controller,
                self.config == old(self).config,
                self.started == old(self).started,
                topapps == self.topapp_checker@,
                foreground(map_of(pairs(self.buffers@)), topapps) == foreground(
                    map_of(pairs(before)),
                    topapps,
                ),
                forall|j: int| 0 <= j < i ==> topapps.contains((#[trigger] self.buffers@[j]).pid),
            decreases self.buffers.len() - i,
        {
            if self.topapp_checker.is_topapp(self.buffers[i].pid) {
                i += 1;
            } else {
                proof {
                    let held = pairs(self.buffers@);
                    lemma_map_of_remove(held, i as int);
                    assert(pairs(self.buffers@.remove(i as int)) == held.remove(i as int));
                    assert(foreground(map_of(held.remove(i as int)), topapps) =~= foreground(
                        map_of(held),
                        topapps,
                    ));
                }
                self.buffers.remove(i);
            }
        }
        proof {
            let held = pairs(self.buffers@);
            lemma_map_of_dom(held);
            lemma_map_of_values(held);
            assert forall|k: (u64, i32)| map_of(held).contains_key(k) implies topapps.contains(
                k.1,
            ) by {
                let j = choose|j: int| 0 <= j < held.len() && (#[trigger] held[j]).0 == k;
                assert(topapps.contains(self.buffers@[j].pid));
            }
            assert(foreground(map_of(held), topapps) =~= map_of(held));
            if held.len() > 0 {
                assert(map_of(held).contains_key(held[0].0));
            } else {
                assert(map_of(held) =~= Buffers::empty());
            }
        }
        if self.buffers.is_empty() {
            self.disable_fas()
        } else {
            self.enable_fas()
        }
    }

    /// Hands in a sample and reports whether its buffer is ready. A sample
    /// of a background process or of no time is passed over. The first
    /// sample for a render buffer and process opens a buffer for them, which
    /// is not ready yet.
    ///
    /// A target of the single rate 0 has no meaning: with a sample that
    /// counts it must not be handed in.
    pub fn buffer_update(&mut self, d: &FasData) -> (ready: bool)
        requires
            old(self).wf(),
            old(self)@.accepts(*d) ==> d.target_fps@ != Target::Value(0),
        ensures
            final(self).wf(),
            final(self)@ == old(self)@.updated(*d),
            ready == old(self)@.update_ready(*d),
            final(self).controller() == old(self).controller(),
            final(self).config() == old(self).config(),
    {
        if !self.topapp_checker.is_topapp(d.pid) || d.frametime.is_zero() {
            return false;
        }
        proof {
            lemma_map_of_dom(pairs(self.buffers@));
            lemma_map_of_values(pairs(self.buffers@));
        }
        let mut i: usize = 0;
        while i < self.buffers.len() && !(self.buffers[i].buffer_id == d.buffer
            && self.buffers[i].pid == d.pid)
            invariant
                i <= self.buffers.len(),
                *self == *old(self),
                forall|j: int| 0 <= j < i ==> (#[trigger] self.buffers@[j]).key() != (d.buffer, d.pid),
            decreases self.buffers.len() - i,
        {
            i += 1;
        }
        if i < self.buffers.len() {
            assert(self.buffers@[i as int].key() == (d.buffer, d.pid));
            let mut entry = self.buffers.remove(i);
            entry.buffer.push_frametime(d.frametime);
            let ready = entry.buffer.is_ready();
            proof {
                let held = pairs(old(self).buffers@);
                lemma_map_of_update(held, i as int, entry.buffer@);
                assert(self.buffers@.insert(i as int, entry) == old(self).buffers@.update(
                    i as int,
                    entry,
                ));
                assert(pairs(old(self).buffers@.update(i as int, entry)) == held.update(
                    i as int,
                    (held[i as int].0, entry.buffer@),
                ));
            }
            self.buffers.insert(i, entry);
            assert(self@.buffers == old(self)@.updated(*d).buffers);
            ready
        } else {
            let mut buffer = Buffer::new(copy_target(&d.target_fps));
            buffer.push_frametime(d.frametime);
            let entry = Entry { buffer_id: d.buffer, pid: d.pid, buffer };
            proof {
                let held = pairs(self.buffers@);
                assert(!map_of(held).contains_key(entry.key())) by {
                    if map_of(held).contains_key(entry.key()) {
                        let j = choose|j: int|
                            0 <= j < held.len() && (#[trigger] held[j]).0 == entry.key();
                        assert(self.buffers@[j].key() == entry.key());
                    }
                }
                lemma_map_of_push(held, entry.key(), entry.buffer@);
                assert(pairs(self.buffers@.push(entry)) == held.push((entry.key(), entry.buffer@)));
            }
            self.buffers.push(entry);
            false
        }
    }

    /// Hands in a sample as [`Looper::buffer_update`] does, and turns down a
    /// sample that counts but names the single rate 0 as its target: nothing
    /// is changed then.
    pub fn try_buffer_update(&mut self, d: &FasData) -> (r: Result<bool, FasError>)
        requires
            old(self).wf(),
        ensures
            final(self).wf(),
            final(self).controller() == old(self).controller(),
            final(self).config() == old(self).config(),
            old(self)@.accepts(*d) && d.target_fps@ == Target::Value(0) ==> r == Err::<
                bool,
                FasError,
            >(FasError::ZeroTargetFps) && final(self)@ == old(self)@,
            !(old(self)@.accepts(*d) && d.target_fps@ == Target::Value(0)) ==> r == Ok::<
                bool,
                FasError,
            >(old(self)@.update_ready(*d)) && final(self)@ == old(self)@.updated(*d),
    {
        if self.topapp_checker.is_topapp(d.pid) && !d.frametime.is_zero() && is_zero_target(
            &d.target_fps,
        ) {
            Err(FasError::ZeroTargetFps)
        } else {
            Ok(self.buffer_update(d))
        }
    }

    /// Whether the controller is in game mode.
    pub fn started(&self) -> (r: bool)
        ensures
            r == self@.started,
    {
        self.started
    }

    /// The number of buffers that are watched.
    pub fn buffer_count(&self) -> (r: usize)
        requires
            self.wf(),
        ensures
            r == self@.buffers.dom().len(),
            self@.buffers.dom().finite(),
    {
        proof {
            lemma_map_of_len(pairs(self.buffers@));
        }
        self.buffers.len()
    }

    /// Whether the render buffer `buffer` of process `pid` is watched.
    pub fn is_watched(&self, buffer: u64, pid: i32) -> (r: bool)
        ensures
            r == self@.buffers.contains_key((buffer, pid)),
    {
        let mut i: usize = 0;
        while i < self.buffers.len()
            invariant
                i <= self.buffers.len(),
                forall|j: int| 0 <= j < i ==> (#[trigger] self.buffers@[j]).key() != (buffer, pid),
            decreases self.buffers.len() - i,
        {
            if self.buffers[i].buffer_id == buffer && self.buffers[i].pid == pid {
                proof {
                    lemma_map_of_dom(pairs(self.buffers@));
                    assert(pairs(self.buffers@)[i as int].0 == (buffer, pid));
                }
                return true;
            }
            i += 1;
        }
        proof {
            let held = pairs(self.buffers@);
            lemma_map_of_dom(held);
            if map_of(held).contains_key((buffer, pid)) {
                let j = choose|j: int| 0 <= j < held.len() && (#[trigger] held[j]).0 == (buffer, pid);
                assert(self.buffers@[j].key() == (buffer, pid));
            }
        }
        false
    }

    /// The controller.
    pub fn controller_ref(&self) -> (r: &P)
        ensures
            *r == self.controller(),
    {
        &self.controller
    }
}

/// Whether `t` is the single rate 0.
pub fn is_zero_target(t: &TargetFps) -> (r: bool)
    ensures
        r == (t@ == Target::Value(0)),
{
    match t {
        TargetFps::Value(v) => *v == 0,
        TargetFps::Array(_) => false,
    }
}

/// A copy of `t`.
pub fn copy_target(t: &TargetFps) -> (r: TargetFps)
    ensures
        r@ == t@,
{
    match t {
        TargetFps::Value(v) => TargetFps::Value(*v),
        TargetFps::Array(a) => TargetFps::Array(a.clone()),
    }
}

} // verus!
