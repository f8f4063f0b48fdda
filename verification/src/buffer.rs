//! The frame times of one render buffer of one process: a window over the
//! most recent samples, and the test that says when the window holds enough
//! of them to decide on a frequency.

use crate::config::{Target, TargetFps};
use vstd::prelude::*;

verus! {

/// The most samples that a buffer keeps.
pub const BUFFER_MAX: usize = 144;

/// The fewest samples on which a buffer is ready.
pub const READY_SAMPLES: usize = 30;

/// The time, in nanoseconds, that the samples of a ready buffer span, unless
/// the window is full.
pub const READY_SPAN: u64 = 1_000_000_000;

/// The time that one frame took, in nanoseconds.
#[derive(Debug, Clone, Copy, PartialEq, Eq, Structural)]
pub struct FrameTime {
    pub nanos: u64,
}

impl FrameTime {
    pub fn from_nanos(nanos: u64) -> (r: FrameTime)
        ensures
            r.nanos == nanos,
    {
        FrameTime { nanos }
    }

    /// A frame time of whole milliseconds; `None` where it does not fit.
    pub fn from_millis(millis: u64) -> (r: Option<FrameTime>)
        ensures
            r == if millis * 1_000_000 <= u64::MAX {
                Some(FrameTime { nanos: (millis * 1_000_000) as u64 })
            } else {
                None
            },
    {
        match millis.checked_mul(1_000_000) {
            Some(nanos) => Some(FrameTime { nanos }),
            None => None,
        }
    }

    pub fn as_nanos(&self) -> (r: u64)
        ensures
            r == self.nanos,
    {
        self.nanos
    }

    /// A frame that took no time: no sample at all.
    pub fn is_zero(&self) -> (r: bool)
        ensures
            r == (self.nanos == 0),
    {
        self.nanos == 0
    }
}

/// The time that the samples `s` span together, in nanoseconds.
pub open spec fn span(s: Seq<FrameTime>) -> nat
    decreases s.len(),
{
    if s.len() == 0 {
        0
    } else {
        span(s.drop_last()) + s.last().nanos as nat
    }
}

/// The `limit` newest of the samples `s`.
pub open spec fn newest(s: Seq<FrameTime>, limit: nat) -> Seq<FrameTime> {
    if s.len() > limit {
        s.skip(s.len() - limit)
    } else {
        s
    }
}

/// A buffer as a mathematical value: the target it was made for and its
/// samples, oldest first.
pub struct BufferView {
    pub target: Target,
    pub frametimes: Seq<FrameTime>,
}

impl BufferView {
    /// A buffer without samples.
    pub open spec fn new(target: Target) -> BufferView {
        BufferView { target, frametimes: Seq::empty() }
    }

    /// The buffer after `sample` came in: the sample is the newest, and of
    /// the older ones as many stay as the window has room for.
    pub open spec fn push(self, sample: FrameTime) -> BufferView {
        BufferView {
            target: self.target,
            frametimes: newest(self.frametimes.push(sample), BUFFER_MAX as nat),
        }
    }

    /// Enough samples, and either they span enough time or the window is
    /// full.
    pub open spec fn ready(self) -> bool {
        &&& self.frametimes.len() >= READY_SAMPLES
        &&& (span(self.frametimes) >= READY_SPAN || self.frametimes.len() >= BUFFER_MAX)
    }

    /// What holds of every buffer: a target that is not the single rate 0, no
    /// more samples than the window has room for, and no sample of no time.
    pub open spec fn wf(self) -> bool {
        &&& self.target != Target::Value(0)
        &&& self.frametimes.len() <= BUFFER_MAX
        &&& forall|i: int| 0 <= i < self.frametimes.len() ==> self.frametimes[i].nanos != 0
    }
}

pub struct Buffer {
    target_fps: TargetFps,
    frametimes: Vec<FrameTime>,
}

impl View for Buffer {
    type V = BufferView;

    closed spec fn view(&self) -> BufferView {
        BufferView { target: self.target_fps@, frametimes: self.frametimes@ }
    }
}

impl Buffer {
    /// A buffer without samples for a game that aims at `target_fps`.
    pub fn new(target_fps: TargetFps) -> (r: Buffer)
        requires
            target_fps@ != Target::Value(0),
        ensures
            r@ == BufferView::new(target_fps@),
            r@.wf(),
    {
        Buffer { target_fps, frametimes: Vec::new() }
    }

    /// Takes in a sample.
    pub fn push_frametime(&mut self, sample: FrameTime)
        requires
            old(self)@.wf(),
            sample.nanos != 0,
        ensures
            final(self)@ == old(self)@.push(sample),
            final(self)@.wf(),
    {
        if self.frametimes.len() >= BUFFER_MAX {
            self.frametimes.remove(0);
        }
        self.frametimes.push(sample);
        assert(self@.frametimes == old(self)@.push(sample).frametimes);
    }

    /// Whether the window holds enough to decide on.
    pub fn is_ready(&self) -> (r: bool)
        ensures
            r == self@.ready(),
    {
        let n = self.frametimes.len();
        if n < READY_SAMPLES {
            return false;
        }
        if n >= BUFFER_MAX {
            return true;
        }
        let mut total: u128 = 0;
        let mut i: usize = 0;
        assert(self.frametimes@.take(0) == Seq::<FrameTime>::empty());
        while i < n
            invariant
                n == self.frametimes.len(),
                i <= n,
                total == span(self.frametimes@.take(i as int)),
                total <= i * u64::MAX,
            decreases n - i,
        {
            assert(self.frametimes@.take(i + 1).drop_last() == self.frametimes@.take(i as int));
            assert((i + 1) * u64::MAX == i * u64::MAX + u64::MAX) by (nonlinear_arith);
            assert(i * u64::MAX <= usize::MAX * u64::MAX) by (nonlinear_arith)
                requires
                    i <= usize::MAX,
            ;
            total = total + self.frametimes[i].nanos as u128;
            i += 1;
        }
        assert(self.frametimes@.take(n as int) == self.frametimes@);
        total >= READY_SPAN as u128
    }

    /// The target that the buffer was made for.
    pub fn target_fps(&self) -> (r: &TargetFps)
        ensures
            r@ == self@.target,
    {
        &self.target_fps
    }

    /// The number of samples in the window.
    pub fn len(&self) -> (r: usize)
        ensures
            r == self@.frametimes.len(),
    {
        self.frametimes.len()
    }
}

} // verus!
