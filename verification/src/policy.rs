//! One cluster of processor cores: its frequency steps, the governor it had
//! before the scheduler took it over, and the values that each operation
//! has written to its control files.
//!
//! An operation writes nothing itself. It returns the writes to be made, in
//! order, for the writer service to hand on.

use crate::error::FasError;
use crate::sort::{ascending, ints_usize, sorted_usize};
use crate::text::{
    chars_of, decimal, join, joined, numbers_of, parse_numbers, parse_unsigned, strip_all,
    to_decimal, trim, trim_bounds, trimmed_is, unsigned_of, without,
};
use crate::write_pool::{requests, Request, WriteRequest};
use std::cmp::Ordering;
use vstd::prelude::*;
use vstd::string::*;

verus! {

/// A frequency step of the hardware.
pub type Freq = usize;

/// The view of an optional text.
pub open spec fn text_of(t: Option<String>) -> Option<Seq<char>> {
    match t {
        Some(s) => Some(s@),
        None => None,
    }
}

/// The number of the cluster whose control directory is called `name`: what
/// is left of the name without the word `policy` and the whitespace around
/// the rest, read as a number below 256.
pub open spec fn policy_num(name: Seq<char>) -> Option<u8> {
    match unsigned_of(trim(without(name, "policy"@)), 255) {
        Some(n) => Some(n as u8),
        None => None,
    }
}

/// The frequency steps that a table lists: its words, each a number.
pub open spec fn freqs_of(table: Seq<char>) -> Option<Seq<Freq>> {
    match numbers_of(table, usize::MAX as nat) {
        Some(ns) => Some(ns.map_values(|n: nat| n as usize)),
        None => None,
    }
}

/// Reads the table of the frequencies that a cluster offers. `None` where a
/// word of the table is no number.
pub fn parse_freqs(table: &str) -> (r: Option<Vec<Freq>>)
    ensures
        match r {
            Some(v) => freqs_of(table@) == Some(v@),
            None => freqs_of(table@) is None,
        },
{
    let chars = chars_of(table);
    match parse_numbers(&chars, usize::MAX as u64) {
        Some(ns) => {
            let mut out: Vec<Freq> = Vec::new();
            let mut i: usize = 0;
            while i < ns.len()
                invariant
                    i <= ns.len(),
                    out@.len() == i,
                    forall|j: int| 0 <= j < ns@.len() ==> #[trigger] ns@[j] <= usize::MAX,
                    forall|j: int| 0 <= j < i ==> out@[j] == ns@[j],
                decreases ns.len() - i,
            {
                out.push(ns[i] as usize);
                i += 1;
            }
            assert(freqs_of(table@)->0 =~= out@);
            Some(out)
        },
        None => None,
    }
}

/// A cluster as a mathematical value.
pub struct PolicyView {
    /// Whether the cluster is the one of the small cores.
    pub little: bool,
    /// The number of the cluster.
    pub num: u8,
    /// The directory of its control files.
    pub path: Seq<char>,
    /// The steps it offers, lowest first.
    pub freqs: Seq<Freq>,
    /// The governor to give back to it.
    pub gov_snapshot: Option<Seq<char>>,
    /// The file that takes forced bounds, where the hardware has one.
    pub force_bound: Option<Seq<char>>,
}

impl PolicyView {
    pub open spec fn governor_file(self) -> Seq<char> {
        joined(self.path, "scaling_governor"@)
    }

    pub open spec fn max_freq_file(self) -> Seq<char> {
        joined(self.path, "scaling_max_freq"@)
    }

    pub open spec fn min_freq_file(self) -> Seq<char> {
        joined(self.path, "scaling_min_freq"@)
    }

    /// The lowest step.
    pub open spec fn floor(self) -> Freq {
        self.freqs[0]
    }

    /// The highest step.
    pub open spec fn ceiling(self) -> Freq {
        self.freqs.last()
    }

    /// The write that sets the highest frequency allowed.
    pub open spec fn max_request(self, f: Freq) -> Request {
        (self.max_freq_file(), decimal(f as nat))
    }

    /// The write that sets the lowest frequency allowed.
    pub open spec fn min_request(self, f: Freq) -> Request {
        (self.min_freq_file(), decimal(f as nat))
    }

    /// What is written to bound the cluster by force: its number and the two
    /// bounds, with a blank between.
    pub open spec fn bound_message(self, low: Freq, high: Freq) -> Seq<char> {
        decimal(self.num as nat) + seq![' '] + decimal(low as nat) + seq![' '] + decimal(high as nat)
    }

    /// The write that bounds the cluster by force, where the hardware has a
    /// file for that.
    pub open spec fn bound_requests(self, low: Freq, high: Freq) -> Seq<Request> {
        match self.force_bound {
            Some(file) => seq![(file, self.bound_message(low, high))],
            None => Seq::empty(),
        }
    }

    /// The write that gives the cluster its governor back, where one was
    /// kept.
    pub open spec fn reset_requests(self) -> Seq<Request> {
        match self.gov_snapshot {
            Some(governor) => seq![(self.governor_file(), governor)],
            None => Seq::empty(),
        }
    }

    /// The cluster after its governor was given back: nothing is kept any
    /// more.
    pub open spec fn released(self) -> PolicyView {
        PolicyView { gov_snapshot: None, ..self }
    }

    /// The writes that put the cluster into its default state: the forced
    /// bound as wide as the steps allow, the lowest and the highest
    /// frequency allowed at the lowest and the highest step, and the
    /// governor as it was.
    pub open spec fn default_requests(self) -> Seq<Request> {
        self.bound_requests(self.floor(), self.ceiling()) + seq![
            self.min_request(self.floor()),
            self.max_request(self.ceiling()),
        ] + self.reset_requests()
    }

    /// The write that takes the governor over, which puts the cluster under
    /// `performance`: none for the cluster of the small cores.
    pub open spec fn takeover_requests(self) -> Seq<Request> {
        if self.little {
            Seq::empty()
        } else {
            seq![(self.governor_file(), "performance"@)]
        }
    }

    /// The cluster after the governor was taken over, while its governor was
    /// `governor`. The governor is kept to be given back, unless it was
    /// `performance` already; the cluster of the small cores keeps its
    /// governor, so nothing changes for it.
    pub open spec fn taken_over(self, governor: Seq<char>) -> PolicyView {
        if self.little || trim(governor) == "performance"@ {
            self
        } else {
            PolicyView { gov_snapshot: Some(governor), ..self }
        }
    }

    /// The writes that put the cluster into game mode: the governor taken
    /// over, and the highest frequency allowed at the highest step.
    pub open spec fn game_requests(self) -> Seq<Request> {
        self.takeover_requests() + seq![self.max_request(self.ceiling())]
    }

    /// The writes that hold the cluster to at most `f`: the highest
    /// frequency allowed at `f`, the lowest at the lowest step, and the
    /// forced bound from the lowest step to `f`.
    pub open spec fn fas_requests(self, f: Freq) -> Seq<Request> {
        seq![self.max_request(f), self.min_request(self.floor())] + self.bound_requests(
            self.floor(),
            f,
        )
    }
}

/// Taking the governor over can be undone once. For a cluster that is not
/// the one of the small cores and keeps no governor, a takeover writes
/// `performance`; giving the governor back then writes the governor that the
/// cluster had, unless that was `performance` already, in which case nothing
/// was kept and nothing is written. Either way nothing is kept afterwards, so
/// a second giving back writes nothing.
pub proof fn lemma_takeover_reversible(v: PolicyView, governor: Seq<char>)
    requires
        !v.little,
        v.gov_snapshot is None,
    ensures
        v.takeover_requests() == seq![(v.governor_file(), "performance"@)],
        trim(governor) != "performance"@ ==> v.taken_over(governor).gov_snapshot == Some(governor)
            && v.taken_over(governor).reset_requests() == seq![(v.governor_file(), governor)],
        trim(governor) == "performance"@ ==> v.taken_over(governor) == v && v.taken_over(
            governor,
        ).reset_requests() == Seq::<Request>::empty(),
        v.taken_over(governor).released().reset_requests() == Seq::<Request>::empty(),
{
}

/// The cluster of the small cores keeps its governor: a takeover writes
/// nothing for it and keeps nothing.
pub proof fn lemma_little_keeps_governor(v: PolicyView, governor: Seq<char>)
    requires
        v.little,
    ensures
        v.takeover_requests() == Seq::<Request>::empty(),
        v.taken_over(governor) == v,
{
}

/// Holding the cluster to `f` sets the lowest frequency allowed back to the
/// lowest step, whatever it was, and bounds the cluster by force, where the
/// hardware can do that, from the lowest step to `f`.
pub proof fn lemma_fas_pins_floor(v: PolicyView, f: Freq)
    ensures
        v.fas_requests(f)[0] == v.max_request(f),
        v.fas_requests(f)[1] == (v.min_freq_file(), decimal(v.freqs[0] as nat)),
        v.force_bound is Some ==> v.fas_requests(f).len() == 3 && v.fas_requests(f)[2] == (
            v.force_bound->0,
            v.bound_message(v.freqs[0], f),
        ),
        v.force_bound is None ==> v.fas_requests(f).len() == 2,
{
}

pub struct Policy {
    little: bool,
    num: u8,
    path: String,
    freqs: Vec<Freq>,
    gov_snapshot: Option<String>,
    force_bound: Option<String>,
}

impl View for Policy {
    type V = PolicyView;

    closed spec fn view(&self) -> PolicyView {
        PolicyView {
            little: self.little,
            num: self.num,
            path: self.path@,
            freqs: self.freqs@,
            gov_snapshot: text_of(self.gov_snapshot),
            force_bound: text_of(self.force_bound),
        }
    }
}

impl Policy {
    /// The cluster whose control directory is `path` and is called `name`,
    /// with the frequencies `freqs` and, where the hardware has one, the file
    /// `force_bound` for forced bounds. It fails where the name gives no
    /// cluster number.
    pub fn new(name: &str, path: String, freqs: Vec<Freq>, force_bound: Option<String>) -> (r:
        Result<Policy, FasError>)
        ensures
            match r {
                Ok(p) => {
                    &&& policy_num(name@) == Some(p@.num)
                    &&& !p@.little
                    &&& p@.path == path@
                    &&& ascending(ints_usize(p@.freqs))
                    &&& p@.freqs.to_multiset() == freqs@.to_multiset()
                    &&& p@.gov_snapshot is None
                    &&& p@.force_bound == text_of(force_bound)
                },
                Err(e) => {
                    &&& policy_num(name@) is None
                    &&& e matches FasError::Other(reason)
                    &&& reason@ == "Failed to parse cpufreq policy num"@
                },
            },
    {
        let sorted = sorted_usize(&freqs);
        match Policy::parse_policy(name) {
            Some(num) => Ok(
                Policy { little: false, num, path, freqs: sorted, gov_snapshot: None, force_bound },
            ),
            None => Err(FasError::Other("Failed to parse cpufreq policy num")),
        }
    }

    /// The number of the cluster whose control directory is called `p`.
    pub fn parse_policy(p: &str) -> (r: Option<u8>)
        ensures
            r == policy_num(p@),
    {
        let chars = chars_of(p);
        let word = chars_of("policy");
        let rest = strip_all(&chars, &word);
        let (from, to) = trim_bounds(&rest, 0, rest.len());
        assert(rest@.subrange(0, rest.len() as int) == rest@);
        match parse_unsigned(&rest, from, to, 255) {
            Some(n) => Some(n as u8),
            None => None,
        }
    }

    /// Puts the cluster into its default state.
    pub fn init_default(&mut self) -> (r: Vec<WriteRequest>)
        requires
            old(self)@.freqs.len() > 0,
        ensures
            requests(r@) == old(self)@.default_requests(),
            final(self)@ == old(self)@.released(),
    {
        let low = self.freqs[0];
        let high = self.freqs[self.freqs.len() - 1];
        let mut out: Vec<WriteRequest> = Vec::new();
        if let Some(file) = &self.force_bound {
            out.push(self.force_freq_bound(low, high, file.as_str()));
        }
        out.push(self.set_min_freq(low));
        out.push(self.set_max_freq(high));
        let mut reset = self.reset_gov();
        if reset.len() > 0 {
            out.push(reset.remove(0));
        }
        assert(requests(out@) =~= old(self)@.default_requests());
        out
    }

    /// Puts the cluster into game mode. `governor` is what the cluster's
    /// governor file holds at this moment.
    pub fn init_game(&mut self, governor: &str) -> (r: Vec<WriteRequest>)
        requires
            old(self)@.freqs.len() > 0,
        ensures
            requests(r@) == old(self)@.game_requests(),
            final(self)@ == old(self)@.taken_over(governor@),
    {
        let mut out = self.set_fas_gov(governor);
        out.push(self.set_max_freq(self.freqs[self.freqs.len() - 1]));
        assert(requests(out@) =~= old(self)@.game_requests());
        out
    }

    /// Holds the cluster to at most `f`.
    pub fn set_fas_freq(&self, f: Freq) -> (r: Vec<WriteRequest>)
        requires
            self@.freqs.len() > 0,
        ensures
            requests(r@) == self@.fas_requests(f),
    {
        let low = self.freqs[0];
        let mut out: Vec<WriteRequest> = Vec::new();
        out.push(self.set_max_freq(f));
        out.push(self.set_min_freq(low));
        if let Some(file) = &self.force_bound {
            out.push(self.force_freq_bound(low, f, file.as_str()));
        }
        assert(requests(out@) =~= self@.fas_requests(f));
        out
    }

    /// Gives the cluster the governor back that it had when it was taken
    /// over, if one was kept, and keeps it no longer.
    pub fn reset_gov(&mut self) -> (r: Vec<WriteRequest>)
        ensures
            requests(r@) == old(self)@.reset_requests(),
            final(self)@ == old(self)@.released(),
    {
        let path = join(self.path.as_str(), "scaling_governor");
        let mut out: Vec<WriteRequest> = Vec::new();
        let kept = self.gov_snapshot.take();
        if let Some(governor) = kept {
            out.push(WriteRequest { path, value: governor });
        }
        assert(requests(out@) =~= old(self)@.reset_requests());
        out
    }

    /// Takes the governor over: the cluster is to run under `performance`.
    /// `governor` is what its governor file holds at this moment; it is kept
    /// unless it is `performance` already. The cluster of the small cores is
    /// left alone.
    pub fn set_fas_gov(&mut self, governor: &str) -> (r: Vec<WriteRequest>)
        ensures
            requests(r@) == old(self)@.takeover_requests(),
            final(self)@ == old(self)@.taken_over(governor@),
    {
        let path = join(self.path.as_str(), "scaling_governor");
        let mut out: Vec<WriteRequest> = Vec::new();
        if !self.little {
            if !trimmed_is(governor, "performance") {
                self.gov_snapshot = Some(governor.to_owned());
            }
            out.push(WriteRequest { path, value: "performance".to_owned() });
        }
        assert(requests(out@) =~= old(self)@.takeover_requests());
        out
    }

    /// The write that sets the highest frequency allowed to `f`.
    pub fn set_max_freq(&self, f: Freq) -> (r: WriteRequest)
        ensures
            r@ == self@.max_request(f),
    {
        WriteRequest {
            path: join(self.path.as_str(), "scaling_max_freq"),
            value: to_decimal(f as u64),
        }
    }

    /// The write that sets the lowest frequency allowed to `f`.
    pub fn set_min_freq(&self, f: Freq) -> (r: WriteRequest)
        ensures
            r@ == self@.min_request(f),
    {
        WriteRequest {
            path: join(self.path.as_str(), "scaling_min_freq"),
            value: to_decimal(f as u64),
        }
    }

    /// The write that bounds the cluster by force to the steps from `l` to
    /// `r`, through the file `p`.
    pub fn force_freq_bound(&self, l: Freq, r: Freq, p: &str) -> (w: WriteRequest)
        ensures
            w@ == (p@, self@.bound_message(l, r)),
    {
        proof {
            reveal_strlit(" ");
            assert(" "@ =~= seq![' ']);
        }
        let mut message = to_decimal(self.num as u64);
        message.append(" ");
        message.append(to_decimal(l as u64).as_str());
        message.append(" ");
        message.append(to_decimal(r as u64).as_str());
        WriteRequest { path: p.to_owned(), value: message }
    }

    /// The order of the clusters, which is that of their numbers.
    pub fn cmp(&self, other: &Policy) -> (r: Ordering)
        ensures
            r == if self@.num < other@.num {
                Ordering::Less
            } else if self@.num == other@.num {
                Ordering::Equal
            } else {
                Ordering::Greater
            },
    {
        if self.num < other.num {
            Ordering::Less
        } else if self.num == other.num {
            Ordering::Equal
        } else {
            Ordering::Greater
        }
    }

    /// Whether the cluster is the one of the small cores.
    pub fn little(&self) -> (r: bool)
        ensures
            r == self@.little,
    {
        self.little
    }

    /// Marks the cluster as the one of the small cores, or as another.
    pub fn set_little(&mut self, little: bool)
        ensures
            final(self)@ == (PolicyView { little, ..old(self)@ }),
    {
        self.little = little;
    }

    /// The number of the cluster.
    pub fn num(&self) -> (r: u8)
        ensures
            r == self@.num,
    {
        self.num
    }

    /// The directory of the control files.
    pub fn path(&self) -> (r: &str)
        ensures
            r@ == self@.path,
    {
        self.path.as_str()
    }

    /// The steps, lowest first.
    pub fn freqs(&self) -> (r: &Vec<Freq>)
        ensures
            r@ == self@.freqs,
    {
        &self.freqs
    }
}

} // verus!
