//! The partial-result cache: low-confidence decisions kept for a while, and
//! the pressure signal their backlog produces.
use vstd::prelude::*;
use crate::decision::{confidence_of, Evidence, MetacognitiveDecision, UNIT};
use crate::host;

verus! {

/// Lifetime of a cached partial result, in seconds.
pub const PARTIAL_RESULT_TTL: i64 = 3600;

/// A cached low-confidence decision.
pub struct PartialResult {
    pub result_id: String,
    /// Id of the decision the entry came from.
    pub task_id: String,
    /// In millionths of a percent: one hundred times the confidence.
    pub completion_percentage: u64,
    pub partial_data: Evidence,
    /// In millionths.
    pub confidence: u64,
    /// Seconds since the Unix epoch.
    pub created_at: i64,
    /// Seconds.
    pub ttl: i64,
}

impl PartialResult {
    /// A field-by-field copy.
    pub fn duplicate(&self) -> (r: Self)
        ensures
            r == *self,
    {
        PartialResult {
            result_id: self.result_id.clone(),
            task_id: self.task_id.clone(),
            completion_percentage: self.completion_percentage,
            partial_data: self.partial_data.duplicate(),
            confidence: self.confidence,
            created_at: self.created_at,
            ttl: self.ttl,
        }
    }
}

/// The entry that archiving `d` at time `now` under id `id` creates.
pub open spec fn partial_result_of(d: MetacognitiveDecision, id: String, now: i64) -> PartialResult {
    PartialResult {
        result_id: id,
        task_id: d.decision_id,
        completion_percentage: (d.confidence * 100) as u64,
        partial_data: d.evidence,
        confidence: d.confidence,
        created_at: now,
        ttl: PARTIAL_RESULT_TTL,
    }
}

/// An entry has expired once its age reaches its lifetime.
pub open spec fn expired(r: PartialResult, now: int) -> bool {
    now - r.created_at >= r.ttl
}

pub open spec fn live_at(now: int) -> spec_fn(PartialResult) -> bool {
    |r: PartialResult| !expired(r, now)
}

/// Sum of the completion percentages.
pub open spec fn completion_sum(s: Seq<PartialResult>) -> nat
    decreases s.len(),
{
    if s.len() == 0 {
        0
    } else {
        completion_sum(s.drop_last()) + s.last().completion_percentage as nat
    }
}

/// Backlog pressure `n / (1 + mean completion)`, in millionths, with the
/// mean completion taken in millionths of a percent and rounded down; zero
/// for an empty cache.
pub open spec fn lactate_of(n: nat, total_completion: nat) -> nat {
    if n == 0 {
        0
    } else {
        n * UNIT as nat * UNIT as nat / (UNIT as nat + total_completion / n)
    }
}

/// `pat` occurs in `text` as a contiguous run.
pub open spec fn has_substring(text: Seq<char>, pat: Seq<char>) -> bool {
    exists|i: int| 0 <= i && i + pat.len() <= text.len() && #[trigger] text.subrange(i, i + pat.len()) == pat
}

pub open spec fn mentions(pat: Seq<char>) -> spec_fn(PartialResult) -> bool {
    |r: PartialResult| has_substring(r.task_id@, pat)
}

/// Whether `pat` occurs in `text` at position `i`.
fn matches_at(text: &str, pat: &str, i: usize, n: usize, m: usize) -> (b: bool)
    requires
        n == text@.len(),
        m == pat@.len(),
        i + m <= n,
    ensures
        b == (text@.subrange(i as int, i + m) == pat@),
{
    let mut j: usize = 0;
    while j < m
        invariant
            n == text@.len(),
            m == pat@.len(),
            i + m <= n,
            0 <= j <= m,
            forall|t: int| 0 <= t < j ==> text@[i + t] == pat@[t],
        decreases m - j,
    {
        if text.get_char(i + j) != pat.get_char(j) {
            assert(text@.subrange(i as int, i + m)[j as int] != pat@[j as int]);
            return false;
        }
        j = j + 1;
    }
    assert(text@.subrange(i as int, i + m) =~= pat@);
    true
}

/// Whether `pat` occurs in `text`.
pub fn contains_text(text: &str, pat: &str) -> (b: bool)
    ensures
        b == has_substring(text@, pat@),
{
    let n = text.unicode_len();
    let m = pat.unicode_len();
    if m > n {
        return false;
    }
    let last = n - m;
    let mut i: usize = 0;
    while i < last
        invariant
            n == text@.len(),
            m == pat@.len(),
            last == n - m,
            0 <= i <= last,
            forall|k: int| 0 <= k < i ==> #[trigger] text@.subrange(k, k + m) != pat@,
        decreases last - i,
    {
        if matches_at(text, pat, i, n, m) {
            return true;
        }
        i = i + 1;
    }
    if matches_at(text, pat, last, n, m) {
        return true;
    }
    proof {
        assert forall|k: int| 0 <= k && k + pat@.len() <= text@.len()
            implies #[trigger] text@.subrange(k, k + pat@.len()) != pat@ by {
            assert(k <= last);
        }
    }
    false
}

/// The cache state.
pub struct LactateCycle {
    /// Entries in order of archiving.
    pub partial_results: Vec<PartialResult>,
    /// Pressure at the last recomputation, in millionths.
    pub lactate_level: u128,
}

pub open spec fn results_wf(s: Seq<PartialResult>) -> bool {
    forall|i: int| 0 <= i < s.len() ==> (#[trigger] s[i]).completion_percentage <= 100 * UNIT
}

impl LactateCycle {
    /// Every completion percentage is at most one hundred percent.
    pub open spec fn wf(&self) -> bool {
        results_wf(self.partial_results@)
    }

    /// An empty cache.
    pub fn new() -> (c: Self)
        ensures
            c.wf(),
            c.partial_results@.len() == 0,
            c.lactate_level == 0,
    {
        LactateCycle { partial_results: Vec::new(), lactate_level: 0 }
    }

    /// Archives a decision under a fresh random id, stamped with the current
    /// time.
    pub fn store_partial_result(&mut self, decision: &MetacognitiveDecision)
        requires
            old(self).wf(),
            decision.wf(),
        ensures
            final(self).wf(),
            final(self).lactate_level == old(self).lactate_level,
            exists|id: String, now: i64| final(self).partial_results@
                == old(self).partial_results@.push(#[trigger] partial_result_of(*decision, id, now)),
    {
        let id = host::fresh_id();
        let now = host::unix_seconds();
        self.store_partial_result_at(decision, id, now);
    }

    /// Archives a decision under the given id and creation time, with
    /// completion one hundred times its confidence and a lifetime of
    /// `PARTIAL_RESULT_TTL`.
    pub fn store_partial_result_at(&mut self, decision: &MetacognitiveDecision, result_id: String, now: i64)
        requires
            old(self).wf(),
            decision.wf(),
        ensures
            final(self).wf(),
            final(self).lactate_level == old(self).lactate_level,
            final(self).partial_results@ == old(self).partial_results@.push(partial_result_of(*decision, result_id, now)),
    {
        let entry = PartialResult {
            result_id,
            task_id: decision.decision_id.clone(),
            completion_percentage: decision.confidence * 100,
            partial_data: decision.evidence.duplicate(),
            confidence: decision.confidence,
            created_at: now,
            ttl: PARTIAL_RESULT_TTL,
        };
        self.partial_results.push(entry);
        proof {
            let s = self.partial_results@;
            assert forall|i: int| 0 <= i < s.len() implies (#[trigger] s[i]).completion_percentage <= 100 * UNIT by {
                if i < s.len() - 1 {
                    assert(s[i] == old(self).partial_results@[i]);
                }
            }
        }
    }

    /// Drops every entry whose age has reached its lifetime, keeping the
    /// order of the rest.
    pub fn cleanup_expired_results(&mut self, now: i64)
        requires
            old(self).wf(),
        ensures
            final(self).wf(),
            final(self).lactate_level == old(self).lactate_level,
            final(self).partial_results@ == old(self).partial_results@.filter(live_at(now as int)),
    {
        let ghost all = self.partial_results@;
        let mut kept: Vec<PartialResult> = Vec::new();
        let mut i: usize = 0;
        while i < self.partial_results.len()
            invariant
                0 <= i <= all.len(),
                self.partial_results@ == all,
                results_wf(all),
                kept@ == all.subrange(0, i as int).filter(live_at(now as int)),
                results_wf(kept@),
            decreases all.len() - i,
        {
            let r = &self.partial_results[i];
            let age: i128 = now as i128 - r.created_at as i128;
            proof {
                assert(all.subrange(0, i + 1) =~= all.subrange(0, i as int).push(all[i as int]));
                all.subrange(0, i as int).lemma_filter_push(all[i as int], live_at(now as int));
            }
            if age < r.ttl as i128 {
                kept.push(r.duplicate());
            }
            i = i + 1;
        }
        assert(all.subrange(0, all.len() as int) =~= all);
        self.partial_results = kept;
    }

    /// Recomputes the backlog pressure from the entries.
    pub fn update_lactate_level(&mut self)
        requires
            old(self).wf(),
        ensures
            final(self).wf(),
            final(self).partial_results@ == old(self).partial_results@,
            final(self).lactate_level == lactate_of(
                old(self).partial_results@.len(),
                completion_sum(old(self).partial_results@),
            ),
    {
        let n = self.partial_results.len();
        let mut total: u128 = 0;
        let mut i: usize = 0;
        while i < n
            invariant
                n == self.partial_results@.len(),
                0 <= i <= n,
                results_wf(self.partial_results@),
                total == completion_sum(self.partial_results@.subrange(0, i as int)),
                total <= i * (100 * UNIT),
            decreases n - i,
        {
            assert(self.partial_results@.subrange(0, i + 1).drop_last() =~= self.partial_results@.subrange(0, i as int));
            proof {
                let c = self.partial_results@[i as int].completion_percentage as nat;
                assert(c <= 100 * UNIT);
                assert(total + c <= (i + 1) * (100 * UNIT as nat)) by (nonlinear_arith)
                    requires total <= i * (100 * UNIT as nat), c <= 100 * UNIT;
                assert((i + 1) * (100 * UNIT as nat) <= u64::MAX as nat * (100 * UNIT as nat)) by (nonlinear_arith)
                    requires i < u64::MAX;
            }
            total = total + self.partial_results[i].completion_percentage as u128;
            i = i + 1;
        }
        assert(self.partial_results@.subrange(0, n as int) =~= self.partial_results@);
        if n == 0 {
            self.lactate_level = 0;
        } else {
            let mean: u128 = total / (n as u128);
            proof {
                let tn = total as nat;
                let nn = n as nat;
                assert(tn / nn <= 100 * UNIT as nat) by (nonlinear_arith)
                    requires tn <= nn * (100 * UNIT as nat), nn > 0;
                assert(n as nat * UNIT as nat * UNIT as nat <= u64::MAX as nat * UNIT as nat * UNIT as nat) by (nonlinear_arith)
                    requires n <= u64::MAX;
            }
            self.lactate_level = (n as u128) * (UNIT as u128) * (UNIT as u128) / ((UNIT as u128) + mean);
        }
    }

    /// First entry archived from the given decision id, if any.
    pub fn retrieve_partial_result(&self, task_id: &str) -> (r: Option<PartialResult>)
        ensures
            match r {
                None => forall|i: int| 0 <= i < self.partial_results@.len()
                    ==> (#[trigger] self.partial_results@[i]).task_id@ != task_id@,
                Some(p) => exists|i: int| {
                    &&& 0 <= i < self.partial_results@.len()
                    &&& #[trigger] self.partial_results@[i] == p
                    &&& p.task_id@ == task_id@
                    &&& forall|j: int| 0 <= j < i ==> (#[trigger] self.partial_results@[j]).task_id@ != task_id@
                },
            },
    {
        let key = task_id.to_owned();
        let mut i: usize = 0;
        while i < self.partial_results.len()
            invariant
                0 <= i <= self.partial_results@.len(),
                key@ == task_id@,
                forall|j: int| 0 <= j < i ==> (#[trigger] self.partial_results@[j]).task_id@ != task_id@,
            decreases self.partial_results@.len() - i,
        {
            if self.partial_results[i].task_id == key {
                return Some(self.partial_results[i].duplicate());
            }
            i = i + 1;
        }
        None
    }

    /// Backlog pressure at the last recomputation.
    pub fn get_lactate_level(&self) -> (l: u128)
        ensures
            l == self.lactate_level,
    {
        self.lactate_level
    }

    /// Every entry whose decision id contains `stream_id`, in archiving order.
    pub fn recovery_from_incomplete(&self, stream_id: &str) -> (r: Vec<PartialResult>)
        ensures
            r@ == self.partial_results@.filter(mentions(stream_id@)),
    {
        let ghost all = self.partial_results@;
        let mut found: Vec<PartialResult> = Vec::new();
        let mut i: usize = 0;
        while i < self.partial_results.len()
            invariant
                0 <= i <= all.len(),
                self.partial_results@ == all,
                found@ == all.subrange(0, i as int).filter(mentions(stream_id@)),
            decreases all.len() - i,
        {
            let r = &self.partial_results[i];
            proof {
                assert(all.subrange(0, i + 1) =~= all.subrange(0, i as int).push(all[i as int]));
                all.subrange(0, i as int).lemma_filter_push(all[i as int], mentions(stream_id@));
            }
            if contains_text(r.task_id.as_str(), stream_id) {
                found.push(r.duplicate());
            }
            i = i + 1;
        }
        assert(all.subrange(0, all.len() as int) =~= all);
        found
    }
}

/// After a sweep at `now` no entry has expired, and the level computed over
/// an empty cache is zero.
pub proof fn lemma_sweep_leaves_no_expired(entries: Seq<PartialResult>, now: int)
    ensures
        forall|i: int| 0 <= i < entries.filter(live_at(now)).len()
            ==> !expired(#[trigger] entries.filter(live_at(now))[i], now),
        forall|total: nat| #[trigger] lactate_of(0, total) == 0,
{
    broadcast use vstd::seq_lib::group_filter_ensures;
}

} // verus!
