//! The writer service: which writes to control files are handed to which
//! worker, and which are held back because the file was just given the same
//! value.
//!
//! The pool decides; it neither owns threads nor touches files. A caller
//! hands each [`Dispatch`] to the worker it names, and each worker turns the
//! commands it receives into file operations with [`write_thread`] and
//! reports back through [`WritePool::finish`]. Time is a count of
//! milliseconds that the caller reads from a clock that never runs backwards.

use crate::assoc::{
    distinct_keys, lemma_map_of_dom, lemma_map_of_push, lemma_map_of_remove, lemma_map_of_update,
    lemma_map_of_values, map_of,
};
use crate::text::same_text;
use likely_stable::likely;
use vstd::prelude::*;

verus! {

/// For so many milliseconds a value written to a path is remembered.
pub const CACHE_WINDOW: u64 = 5000;

/// The mode of a control file while a worker writes it.
pub const MODE_WRITABLE: u32 = 0o644;

/// The mode of a control file at any other time.
pub const MODE_READ_ONLY: u32 = 0o444;

/// A value to be written to a file.
#[derive(Debug, Clone, PartialEq, Eq)]
pub struct WriteRequest {
    pub path: String,
    pub value: String,
}

/// A write as a mathematical value: the path, then the value.
pub type Request = (Seq<char>, Seq<char>);

impl View for WriteRequest {
    type V = Request;

    open spec fn view(&self) -> Request {
        (self.path@, self.value@)
    }
}

/// The writes of a sequence of requests.
pub open spec fn requests(writes: Seq<WriteRequest>) -> Seq<Request> {
    writes.map_values(|w: WriteRequest| w@)
}

/// What a worker is told to do.
#[derive(Debug, Clone, PartialEq, Eq)]
pub enum Command {
    /// Write a value to a path.
    Write(String, String),
    /// Stop.
    Exit,
}

/// A command as a mathematical value.
pub enum CommandView {
    Write(Seq<char>, Seq<char>),
    Exit,
}

impl View for Command {
    type V = CommandView;

    open spec fn view(&self) -> CommandView {
        match self {
            Command::Write(path, value) => CommandView::Write(path@, value@),
            Command::Exit => CommandView::Exit,
        }
    }
}

/// A command on its way to a worker.
#[derive(Debug, Clone, PartialEq, Eq)]
pub struct Dispatch {
    /// The worker, by its place in the pool.
    pub worker: usize,
    pub command: Command,
}

impl View for Dispatch {
    type V = (int, CommandView);

    open spec fn view(&self) -> (int, CommandView) {
        (self.worker as int, self.command@)
    }
}

/// The commands of a vector, each with its worker.
pub open spec fn dispatches(ds: Seq<Dispatch>) -> Seq<(int, CommandView)> {
    ds.map_values(|d: Dispatch| d@)
}

/// What a worker does to a file.
#[derive(Debug, Clone, PartialEq, Eq)]
pub enum FileOp {
    /// Set the mode of the file at a path.
    SetMode(String, u32),
    /// Replace what the file at a path holds by a value.
    Write(String, String),
}

/// A file operation as a mathematical value.
pub enum FileOpView {
    SetMode(Seq<char>, u32),
    Write(Seq<char>, Seq<char>),
}

impl View for FileOp {
    type V = FileOpView;

    open spec fn view(&self) -> FileOpView {
        match self {
            FileOp::SetMode(path, mode) => FileOpView::SetMode(path@, *mode),
            FileOp::Write(path, value) => FileOpView::Write(path@, value@),
        }
    }
}

/// A write between the two changes of mode that keep the file closed to
/// everyone else: open it, write, close it again.
pub open spec fn framed_write(path: Seq<char>, value: Seq<char>) -> Seq<FileOpView> {
    seq![
        FileOpView::SetMode(path, MODE_WRITABLE),
        FileOpView::Write(path, value),
        FileOpView::SetMode(path, MODE_READ_ONLY),
    ]
}

/// The file operations of a vector.
pub open spec fn file_ops(ops: Seq<FileOp>) -> Seq<FileOpView> {
    ops.map_values(|op: FileOp| op@)
}

/// A write with the two changes of mode around it.
pub fn framed(path: String, value: String) -> (r: Vec<FileOp>)
    ensures
        file_ops(r@) == framed_write(path@, value@),
{
    let mut ops: Vec<FileOp> = Vec::new();
    ops.push(FileOp::SetMode(path.clone(), MODE_WRITABLE));
    ops.push(FileOp::Write(path.clone(), value));
    ops.push(FileOp::SetMode(path, MODE_READ_ONLY));
    assert(file_ops(ops@) == framed_write(path@, value@));
    ops
}

/// What a worker does with what its queue gave it: `None` where it stops,
/// because it was told to or because the queue is closed (`received` is
/// `None`); else the file operations to carry out, in order, before it
/// reports that it has finished a write and waits again.
pub open spec fn worker_ops(received: Option<CommandView>) -> Option<Seq<FileOpView>> {
    match received {
        Some(CommandView::Write(path, value)) => Some(framed_write(path, value)),
        _ => None,
    }
}

/// One turn of a worker: see [`worker_ops`].
pub fn write_thread(received: Option<Command>) -> (r: Option<Vec<FileOp>>)
    ensures
        match worker_ops(
            match received {
                Some(c) => Some(c@),
                None => None,
            },
        ) {
            Some(ops) => r matches Some(v) && file_ops(v@) == ops,
            None => r is None,
        },
{
    if likely(received.is_some()) {
        match received.unwrap() {
            Command::Write(path, value) => Some(framed(path, value)),
            Command::Exit => None,
        }
    } else {
        None
    }
}

/// Whether a value recorded at `time` is still remembered at `now`.
pub open spec fn fresh(time: u64, now: u64) -> bool {
    now - time <= CACHE_WINDOW
}

/// The first worker among those with the least load.
pub open spec fn least_loaded(loads: Seq<usize>) -> int
    decreases loads.len(),
{
    if loads.len() <= 1 {
        0
    } else {
        let w = least_loaded(loads.drop_last());
        if loads.last() < loads[w] {
            loads.len() - 1
        } else {
            w
        }
    }
}

/// No worker has less load than the one chosen, and none in front of it has
/// as little.
pub proof fn lemma_least_loaded(loads: Seq<usize>)
    requires
        loads.len() > 0,
    ensures
        0 <= least_loaded(loads) < loads.len(),
        forall|i: int| 0 <= i < loads.len() ==> loads[least_loaded(loads)] <= #[trigger] loads[i],
        forall|i: int| 0 <= i < least_loaded(loads) ==> loads[least_loaded(loads)] < #[trigger] loads[i],
    decreases loads.len(),
{
    if loads.len() > 1 {
        let front = loads.drop_last();
        lemma_least_loaded(front);
        let w = least_loaded(front);
        assert(front[w] == loads[w]);
        assert forall|i: int| 0 <= i < loads.len() implies loads[least_loaded(loads)] <= #[trigger] loads[i] by {
            if i < front.len() {
                assert(front[i] == loads[i]);
            }
        }
        assert forall|i: int| 0 <= i < least_loaded(loads) implies loads[least_loaded(loads)]
            < #[trigger] loads[i] by {
            if i < front.len() {
                assert(front[i] == loads[i]);
            }
        }
    }
}

/// A load with one more write outstanding.
pub open spec fn one_more(load: usize) -> usize {
    if load < usize::MAX {
        (load + 1) as usize
    } else {
        load
    }
}

/// A load with one write less outstanding.
pub open spec fn one_less(load: usize) -> usize {
    if load > 0 {
        (load - 1) as usize
    } else {
        load
    }
}

/// What the pool remembers: for a path the value last handed out for it, and
/// when.
pub type Cache = Map<Seq<char>, (Seq<char>, u64)>;

/// The part of `cache` that is still remembered at `now`.
pub open spec fn collected(cache: Cache, now: u64) -> Cache {
    Map::new(
        |path: Seq<char>| cache.contains_key(path) && fresh(cache[path].1, now),
        |path: Seq<char>| cache[path],
    )
}

/// A pool as a mathematical value.
pub struct WritePoolView {
    /// For each worker the number of writes handed to it and not yet
    /// reported as finished.
    pub loads: Seq<usize>,
    pub cache: Cache,
}

impl WritePoolView {
    /// Whether a write of `value` to `path` at `now` is held back: the pool
    /// remembers that very value for the path.
    pub open spec fn suppresses(self, path: Seq<char>, value: Seq<char>, now: u64) -> bool {
        &&& self.cache.contains_key(path)
        &&& self.cache[path].0 == value
        &&& fresh(self.cache[path].1, now)
    }

    /// The worker that the next write goes to.
    pub open spec fn next_worker(self) -> int {
        least_loaded(self.loads)
    }

    /// What a write of `value` to `path` at `now` hands out: nothing where it
    /// is held back, else the command and the worker it goes to.
    pub open spec fn dispatch(self, path: Seq<char>, value: Seq<char>, now: u64) -> Option<
        (int, CommandView),
    > {
        if self.suppresses(path, value, now) {
            None
        } else {
            Some((self.next_worker(), CommandView::Write(path, value)))
        }
    }

    /// The pool after a write of `value` to `path` at `now`. A write that is
    /// held back changes nothing. Else the chosen worker has one more write
    /// outstanding, the value is remembered for the path as of `now`, and
    /// what was recorded too long ago is forgotten.
    pub open spec fn written(self, path: Seq<char>, value: Seq<char>, now: u64) -> WritePoolView {
        if self.suppresses(path, value, now) {
            self
        } else {
            let w = self.next_worker();
            WritePoolView {
                loads: self.loads.update(w, one_more(self.loads[w])),
                cache: collected(self.cache.insert(path, (value, now)), now),
            }
        }
    }

    /// The pool after the writes `writes` were asked for at `now`, in order.
    pub open spec fn written_all(self, writes: Seq<Request>, now: u64) -> WritePoolView
        decreases writes.len(),
    {
        if writes.len() == 0 {
            self
        } else {
            self.written_all(writes.drop_last(), now).written(writes.last().0, writes.last().1, now)
        }
    }

    /// What the writes `writes`, asked for at `now` in order, hand out.
    pub open spec fn dispatch_all(self, writes: Seq<Request>, now: u64) -> Seq<(int, CommandView)>
        decreases writes.len(),
    {
        if writes.len() == 0 {
            Seq::empty()
        } else {
            let front = self.dispatch_all(writes.drop_last(), now);
            match self.written_all(writes.drop_last(), now).dispatch(
                writes.last().0,
                writes.last().1,
                now,
            ) {
                Some(d) => front.push(d),
                None => front,
            }
        }
    }

    /// The pool after `worker` reported that it has finished a write.
    pub open spec fn finished(self, worker: int) -> WritePoolView {
        WritePoolView { loads: self.loads.update(worker, one_less(self.loads[worker])), ..self }
    }
}

/// A value that was handed out for a path is held back when it is asked for
/// again within the window, and handed out again when it is asked for after
/// the window has passed.
pub proof fn lemma_repeated_write(
    v: WritePoolView,
    path: Seq<char>,
    value: Seq<char>,
    first: u64,
    second: u64,
)
    requires
        v.dispatch(path, value, first) is Some,
        first <= second,
    ensures
        second <= first + CACHE_WINDOW ==> v.written(path, value, first).dispatch(
            path,
            value,
            second,
        ) is None && v.written(path, value, first).written(path, value, second) == v.written(
            path,
            value,
            first,
        ),
        second > first + CACHE_WINDOW ==> v.written(path, value, first).dispatch(
            path,
            value,
            second,
        ) is Some,
{
}

/// A write that is not held back goes to a worker with the least load, and
/// among those to the first.
pub proof fn lemma_dispatch_least_loaded(
    v: WritePoolView,
    path: Seq<char>,
    value: Seq<char>,
    now: u64,
)
    requires
        v.loads.len() > 0,
        v.dispatch(path, value, now) is Some,
    ensures
        ({
            let w = v.next_worker();
            &&& v.dispatch(path, value, now) == Some((w, CommandView::Write(path, value)))
            &&& 0 <= w < v.loads.len()
            &&& forall|i: int| 0 <= i < v.loads.len() ==> v.loads[w] <= #[trigger] v.loads[i]
            &&& forall|i: int| 0 <= i < w ==> v.loads[w] < #[trigger] v.loads[i]
        }),
{
    lemma_least_loaded(v.loads);
}

/// The loads after `count` writes, none of them held back and none reported
/// as finished, went to workers that had the loads `loads`.
pub open spec fn after_writes(loads: Seq<usize>, count: nat) -> Seq<usize>
    decreases count,
{
    if count == 0 {
        loads
    } else {
        let prior = after_writes(loads, (count - 1) as nat);
        prior.update(least_loaded(prior), one_more(prior[least_loaded(prior)]))
    }
}

/// Of `workers` idle workers, the first `count` have one write each after
/// `count` writes, and the others none: the writes went to different
/// workers.
pub proof fn lemma_idle_workers_fill(workers: nat, count: nat)
    requires
        count <= workers,
        workers <= usize::MAX,
    ensures
        after_writes(Seq::new(workers, |i: int| 0usize), count) == Seq::new(
            workers,
            |i: int| if i < count { 1usize } else { 0usize },
        ),
    decreases count,
{
    let idle = Seq::new(workers, |i: int| 0usize);
    if count > 0 {
        lemma_idle_workers_fill(workers, (count - 1) as nat);
        let prior = after_writes(idle, (count - 1) as nat);
        lemma_least_loaded(prior);
        let w = least_loaded(prior);
        assert(prior[count - 1] == 0);
        assert(w == count - 1) by {
            if w < count - 1 {
                assert(prior[w] == 1);
            } else if w > count - 1 {
                assert(prior[w] < prior[count - 1]);
            }
        }
        assert(after_writes(idle, count) =~= Seq::new(
            workers,
            |i: int| if i < count { 1usize } else { 0usize },
        ));
    } else {
        assert(after_writes(idle, count) =~= Seq::new(
            workers,
            |i: int| if i < count { 1usize } else { 0usize },
        ));
    }
}

/// Where every worker has a write outstanding but one, which has none, the
/// next write goes to that one.
pub proof fn lemma_idle_worker_is_next(loads: Seq<usize>, idle: int)
    requires
        0 <= idle < loads.len(),
        loads[idle] == 0,
        forall|i: int| 0 <= i < loads.len() && i != idle ==> #[trigger] loads[i] > 0,
    ensures
        least_loaded(loads) == idle,
{
    lemma_least_loaded(loads);
}

struct CacheEntry {
    path: String,
    value: String,
    time: u64,
}

spec fn pairs(entries: Seq<CacheEntry>) -> Seq<(Seq<char>, (Seq<char>, u64))> {
    entries.map_values(|e: CacheEntry| (e.path@, (e.value@, e.time)))
}

pub struct WritePool {
    workers: Vec<usize>,
    cache_map: Vec<CacheEntry>,
}

impl View for WritePool {
    type V = WritePoolView;

    closed spec fn view(&self) -> WritePoolView {
        WritePoolView { loads: self.workers@, cache: map_of(pairs(self.cache_map@)) }
    }
}

impl WritePool {
    /// What every operation keeps: no path is remembered twice.
    pub closed spec fn wf(&self) -> bool {
        distinct_keys(pairs(self.cache_map@))
    }

    /// A pool of `worker_count` idle workers that remembers nothing.
    pub fn new(worker_count: usize) -> (r: WritePool)
        ensures
            r.wf(),
            r@.loads == Seq::new(worker_count as nat, |i: int| 0usize),
            r@.cache == Cache::empty(),
    {
        let mut workers: Vec<usize> = Vec::new();
        let mut i: usize = 0;
        while i < worker_count
            invariant
                i <= worker_count,
                workers@ == Seq::new(i as nat, |j: int| 0usize),
            decreases worker_count - i,
        {
            workers.push(0);
            i += 1;
        }
        let r = WritePool { workers, cache_map: Vec::new() };
        assert(pairs(r.cache_map@) =~= Seq::empty());
        r
    }

    /// The number of workers.
    pub fn worker_count(&self) -> (r: usize)
        ensures
            r == self@.loads.len(),
    {
        self.workers.len()
    }

    /// The number of writes that `worker` has outstanding.
    pub fn load(&self, worker: usize) -> (r: usize)
        requires
            worker < self@.loads.len(),
        ensures
            r == self@.loads[worker as int],
    {
        self.workers[worker]
    }

    /// Where `path` stands in the cache.
    fn find(&self, path: &str) -> (r: Option<usize>)
        requires
            self.wf(),
        ensures
            match r {
                Some(i) => i < self.cache_map@.len() && self.cache_map@[i as int].path@ == path@
                    && self@.cache.contains_key(path@) && self@.cache[path@] == (
                    self.cache_map@[i as int].value@,
                    self.cache_map@[i as int].time,
                ),
                None => !self@.cache.contains_key(path@),
            },
    {
        let mut i: usize = 0;
        while i < self.cache_map.len()
            invariant
                self.wf(),
                i <= self.cache_map.len(),
                forall|j: int| 0 <= j < i ==> (#[trigger] pairs(self.cache_map@)[j]).0 != path@,
            decreases self.cache_map.len() - i,
        {
            if same_text(self.cache_map[i].path.as_str(), path) {
                proof {
                    lemma_map_of_values(pairs(self.cache_map@));
                    assert(pairs(self.cache_map@)[i as int].0 == path@);
                }
                return Some(i);
            }
            i += 1;
        }
        proof {
            lemma_map_of_dom(pairs(self.cache_map@));
        }
        None
    }

    /// The first worker among those with the least load.
    fn pick(&self) -> (r: usize)
        requires
            self@.loads.len() > 0,
        ensures
            r == self@.next_worker(),
            r < self@.loads.len(),
    {
        let mut best: usize = 0;
        let mut i: usize = 1;
        assert(self.workers@.take(1).drop_last() =~= Seq::<usize>::empty());
        while i < self.workers.len()
            invariant
                1 <= i <= self.workers.len(),
                best < i,
                best == least_loaded(self.workers@.take(i as int)),
            decreases self.workers.len() - i,
        {
            assert(self.workers@.take(i + 1).drop_last() == self.workers@.take(i as int));
            if self.workers[i] < self.workers[best] {
                best = i;
            }
            i += 1;
        }
        assert(self.workers@.take(self.workers.len() as int) == self.workers@);
        best
    }

    /// Asks for `value` to be written to `path`, at the time `now`. Where
    /// the pool remembers that it handed out this value for the path within
    /// the window, nothing is to be done. Else the command to hand on is
    /// returned, with the worker that has the least load.
    pub fn write(&mut self, path: &str, value: &str, now: u64) -> (r: Option<Dispatch>)
        requires
            old(self).wf(),
            old(self)@.loads.len() > 0,
        ensures
            final(self).wf(),
            final(self)@ == old(self)@.written(path@, value@, now),
            match r {
                Some(d) => old(self)@.dispatch(path@, value@, now) == Some((d.worker as int, d.command@)),
                None => old(self)@.dispatch(path@, value@, now) is None,
            },
    {
        let found = self.find(path);
        if likely(found.is_some()) {
            let entry = &self.cache_map[found.unwrap()];
            if same_text(entry.value.as_str(), value) && (now < entry.time || now - entry.time
                <= CACHE_WINDOW) {
                return None;
            }
        }
        let worker = self.pick();
        let load = self.workers[worker];
        if load < usize::MAX {
            self.workers.set(worker, load + 1);
        }
        assert(self.workers@ == old(self).workers@.update(worker as int, one_more(load)));
        let entry = CacheEntry { path: path.to_owned(), value: value.to_owned(), time: now };
        match found {
            Some(i) => {
                proof {
                    lemma_map_of_update(pairs(self.cache_map@), i as int, (value@, now));
                    assert(pairs(self.cache_map@.update(i as int, entry)) == pairs(
                        self.cache_map@,
                    ).update(i as int, (path@, (value@, now))));
                }
                self.cache_map.set(i, entry);
            },
            None => {
                proof {
                    lemma_map_of_push(pairs(self.cache_map@), path@, (value@, now));
                    assert(pairs(self.cache_map@.push(entry)) == pairs(self.cache_map@).push(
                        (path@, (value@, now)),
                    ));
                }
                self.cache_map.push(entry);
            },
        }
        assert(self@.cache == old(self)@.cache.insert(path@, (value@, now)));
        self.map_gc(now);
        Some(Dispatch { worker, command: Command::Write(path.to_owned(), value.to_owned()) })
    }

    /// Asks for each of `writes` in order, at the time `now`, and returns the
    /// commands to hand on.
    pub fn write_all(&mut self, writes: &Vec<WriteRequest>, now: u64) -> (r: Vec<Dispatch>)
        requires
            old(self).wf(),
            old(self)@.loads.len() > 0,
        ensures
            final(self).wf(),
            final(self)@ == old(self)@.written_all(requests(writes@), now),
            dispatches(r@) == old(self)@.dispatch_all(requests(writes@), now),
            final(self)@.loads.len() == old(self)@.loads.len(),
    {
        let mut out: Vec<Dispatch> = Vec::new();
        let mut i: usize = 0;
        let ghost all = requests(writes@);
        assert(all.take(0) == Seq::<Request>::empty());
        assert(dispatches(out@) =~= Seq::empty());
        while i < writes.len()
            invariant
                i <= writes.len(),
                all == requests(writes@),
                self.wf(),
                self@.loads.len() == old(self)@.loads.len(),
                self@.loads.len() > 0,
                self@ == old(self)@.written_all(all.take(i as int), now),
                dispatches(out@) == old(self)@.dispatch_all(all.take(i as int), now),
            decreases writes.len() - i,
        {
            proof {
                assert(all.take(i + 1).drop_last() == all.take(i as int));
                assert(all.take(i + 1).last() == writes@[i as int]@);
                lemma_least_loaded(self@.loads);
            }
            let ghost before = out@;
            if let Some(d) = self.write(writes[i].path.as_str(), writes[i].value.as_str(), now) {
                out.push(d);
                assert(dispatches(out@) =~= dispatches(before).push(d@));
            }
            i += 1;
        }
        assert(all.take(writes.len() as int) == all);
        out
    }

    /// Forgets what is remembered for `path`. A caller that could not hand a
    /// command on says so with this, so that the same write is not held back
    /// when it is asked for again.
    pub fn forget(&mut self, path: &str)
        requires
            old(self).wf(),
        ensures
            final(self).wf(),
            final(self)@ == (WritePoolView { cache: old(self)@.cache.remove(path@), ..old(self)@ }),
    {
        match self.find(path) {
            Some(i) => {
                proof {
                    let held = pairs(self.cache_map@);
                    lemma_map_of_remove(held, i as int);
                    assert(pairs(self.cache_map@.remove(i as int)) == held.remove(i as int));
                }
                self.cache_map.remove(i);
            },
            None => {
                assert(self@.cache.remove(path@) =~= self@.cache);
            },
        }
    }

    /// Forgets what was recorded more than the window before `now`.
    pub fn map_gc(&mut self, now: u64)
        requires
            old(self).wf(),
        ensures
            final(self).wf(),
            final(self)@ == (WritePoolView { cache: collected(old(self)@.cache, now), ..old(self)@ }),
    {
        let ghost start = map_of(pairs(self.cache_map@));
        let mut i: usize = 0;
        while i < self.cache_map.len()
            invariant
                i <= self.cache_map.len(),
                self.wf(),
                self.workers == old(self).workers,
                collected(map_of(pairs(self.cache_map@)), now) == collected(start, now),
                forall|j: int| 0 <= j < i ==> fresh((#[trigger] self.cache_map@[j]).time, now),
            decreases self.cache_map.len() - i,
        {
            let time = self.cache_map[i].time;
            if now < time || now - time <= CACHE_WINDOW {
                i += 1;
            } else {
                proof {
                    let held = pairs(self.cache_map@);
                    lemma_map_of_remove(held, i as int);
                    lemma_map_of_values(held);
                    assert(pairs(self.cache_map@.remove(i as int)) == held.remove(i as int));
                    assert(collected(map_of(held.remove(i as int)), now) =~= collected(
                        map_of(held),
                        now,
                    ));
                }
                self.cache_map.remove(i);
            }
        }
        proof {
            let held = pairs(self.cache_map@);
            lemma_map_of_dom(held);
            lemma_map_of_values(held);
            assert forall|path: Seq<char>| map_of(held).contains_key(path) implies fresh(
                map_of(held)[path].1,
                now,
            ) by {
                let j = choose|j: int| 0 <= j < held.len() && (#[trigger] held[j]).0 == path;
                assert(fresh(self.cache_map@[j].time, now));
            }
            assert(collected(map_of(held), now) =~= map_of(held));
        }
    }

    /// Takes note that `worker` has finished a write.
    pub fn finish(&mut self, worker: usize)
        requires
            old(self).wf(),
            worker < old(self)@.loads.len(),
        ensures
            final(self).wf(),
            final(self)@ == old(self)@.finished(worker as int),
    {
        let load = self.workers[worker];
        if load > 0 {
            self.workers.set(worker, load - 1);
        }
        assert(self.workers@ == old(self).workers@.update(worker as int, one_less(load)));
    }

    /// Ends the service: one command to stop for each worker, in the order
    /// of the workers.
    pub fn shutdown(self) -> (r: Vec<Dispatch>)
        ensures
            r@.len() == self@.loads.len(),
            forall|i: int|
                0 <= i < r@.len() ==> (#[trigger] r@[i]).worker == i && r@[i].command@
                    == CommandView::Exit,
    {
        let mut out: Vec<Dispatch> = Vec::new();
        let mut i: usize = 0;
        while i < self.workers.len()
            invariant
                i <= self.workers.len(),
                out@.len() == i,
                forall|j: int|
                    0 <= j < i ==> (#[trigger] out@[j]).worker == j && out@[j].command@
                        == CommandView::Exit,
            decreases self.workers.len() - i,
        {
            out.push(Dispatch { worker: i, command: Command::Exit });
            i += 1;
        }
        out
    }
}

} // verus!
