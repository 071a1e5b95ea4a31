//! Verification of swarm compute results: hardware attestation,
//! optimistic bisection games and traditional redundancy.

use vstd::prelude::*;
use crate::bytes::bytes_equal;

verus! {

/// A hardware attestation of a compute result.
pub struct TeeAttestation {
    pub signature: Vec<u8>,
    pub public_key: Vec<u8>,
    pub result_hash: [u8; 32],
}

impl TeeAttestation {
    /// The attestation is accepted when both its signature and its
    /// public key are present.
    pub open spec fn is_well_formed(&self) -> bool {
        self.signature@.len() > 0 && self.public_key@.len() > 0
    }

    /// Accepts the attestation exactly when signature and public key are non-empty.
    pub fn verify(&self) -> (ok: bool)
        ensures
            ok == self.is_well_formed(),
            ok == (self.signature@.len() > 0 && self.public_key@.len() > 0),
    {
        !self.signature.is_empty() && !self.public_key.is_empty()
    }
}

/// An attestation is accepted exactly when its signature and its public key
/// are both present, whatever their lengths.
pub proof fn lemma_attestation_acceptance(att: TeeAttestation)
    ensures
        att.is_well_formed() <==> (att.signature@.len() != 0 && att.public_key@.len() != 0),
{
}

/// How many of `results` are identical to `target`.
pub open spec fn count_matching(results: Seq<Vec<u8>>, target: Seq<u8>) -> nat
    decreases results.len(),
{
    if results.len() == 0 {
        0
    } else {
        count_matching(results.drop_last(), target) + if results.last()@ == target { 1nat } else { 0nat }
    }
}

/// Results byte-for-byte equal to `target`.
pub open spec fn results_equal_to(results: Seq<Vec<u8>>, target: Seq<u8>) -> Seq<Vec<u8>> {
    results.filter(|r: Vec<u8>| r@ == target)
}

/// The count of matching results is the number of results that are
/// byte-for-byte identical to the target.
pub proof fn lemma_count_is_number_of_identical(results: Seq<Vec<u8>>, target: Seq<u8>)
    ensures
        count_matching(results, target) == results_equal_to(results, target).len(),
    decreases results.len(),
{
    reveal(Seq::filter);
    if results.len() > 0 {
        lemma_count_is_number_of_identical(results.drop_last(), target);
    }
}

/// A count of one or more means some result is byte-for-byte the target.
pub proof fn lemma_count_has_member(results: Seq<Vec<u8>>, target: Seq<u8>)
    requires
        count_matching(results, target) >= 1,
    ensures
        exists|i: int| 0 <= i < results.len() && #[trigger] results[i]@ == target,
    decreases results.len(),
{
    if results.last()@ == target {
        assert(results[results.len() - 1]@ == target);
    } else {
        lemma_count_has_member(results.drop_last(), target);
        let i = choose|i: int| 0 <= i < results.drop_last().len() && #[trigger] results.drop_last()[i]@ == target;
        assert(results[i]@ == target);
    }
}

/// A count of two or more means two different results are both
/// byte-for-byte the target.
pub proof fn lemma_matching_group_has_two(results: Seq<Vec<u8>>, target: Seq<u8>)
    requires
        count_matching(results, target) >= 2,
    ensures
        exists|i: int, j: int| 0 <= i < j < results.len() && #[trigger] results[i]@ == target
            && #[trigger] results[j]@ == target,
    decreases results.len(),
{
    let last = results.len() - 1;
    if results.last()@ == target {
        lemma_count_has_member(results.drop_last(), target);
        let i = choose|i: int| 0 <= i < results.drop_last().len() && #[trigger] results.drop_last()[i]@ == target;
        assert(results[i]@ == target && results[last]@ == target);
    } else {
        lemma_matching_group_has_two(results.drop_last(), target);
        let (i, j) = choose|i: int, j: int| 0 <= i < j < results.drop_last().len()
            && #[trigger] results.drop_last()[i]@ == target && #[trigger] results.drop_last()[j]@ == target;
        assert(results[i]@ == target && results[j]@ == target);
    }
}

/// Some result is matched by at least `required_factor` identical results
/// (itself included); a factor of zero is always met.
pub open spec fn has_matching_group(results: Seq<Vec<u8>>, required_factor: nat) -> bool {
    required_factor == 0 || exists|j: int|
        0 <= j < results.len() && #[trigger] count_matching(results, results[j]@) >= required_factor
}

/// Counting never exceeds the number of results.
proof fn lemma_count_matching_bound(results: Seq<Vec<u8>>, target: Seq<u8>)
    ensures
        count_matching(results, target) <= results.len(),
    decreases results.len(),
{
    if results.len() > 0 {
        lemma_count_matching_bound(results.drop_last(), target);
    }
}

/// The number of results identical to `target`.
fn count_matches(results: &[Vec<u8>], target: &Vec<u8>) -> (count: usize)
    ensures
        count == count_matching(results@, target@),
{
    let mut count: usize = 0;
    let mut k: usize = 0;
    while k < results.len()
        invariant
            k <= results@.len(),
            count == count_matching(results@.take(k as int), target@),
        decreases results@.len() - k,
    {
        proof {
            assert(results@.take(k + 1).drop_last() =~= results@.take(k as int));
            lemma_count_matching_bound(results@.take(k as int), target@);
        }
        if bytes_equal(&results[k], target) {
            count = count + 1;
        }
        k = k + 1;
    }
    assert(results@.take(results@.len() as int) =~= results@);
    count
}

/// Traditional redundancy check: true when the number of matching results
/// is at least `required_factor`, that is, when some result is shared by at
/// least that many peers.
pub fn verify_redundancy(results: &[Vec<u8>], required_factor: usize) -> (ok: bool)
    ensures
        ok == has_matching_group(results@, required_factor as nat),
        ok == (required_factor == 0 || exists|j: int| 0 <= j < results@.len()
            && #[trigger] results_equal_to(results@, results@[j]@).len() >= required_factor),
        ok && required_factor >= 2 ==> exists|i: int, j: int| 0 <= i < j < results@.len()
            && #[trigger] results@[i]@ == #[trigger] results@[j]@,
{
    proof {
        assert forall|j: int| 0 <= j < results@.len() implies #[trigger] results_equal_to(results@, results@[j]@).len()
            == count_matching(results@, results@[j]@) by {
            lemma_count_is_number_of_identical(results@, results@[j]@);
        }
    }
    if required_factor == 0 {
        return true;
    }
    let mut j: usize = 0;
    while j < results.len()
        invariant
            0 < required_factor,
            j <= results@.len(),
            forall|jj: int| 0 <= jj < j ==> #[trigger] count_matching(results@, results@[jj]@) < required_factor,
        decreases results@.len() - j,
    {
        let matches = count_matches(results, &results[j]);
        if matches >= required_factor {
            assert(count_matching(results@, results@[j as int]@) >= required_factor);
            proof {
                lemma_count_is_number_of_identical(results@, results@[j as int]@);
            }
            assert(results_equal_to(results@, results@[j as int]@).len() >= required_factor);
            proof {
                if required_factor >= 2 {
                    lemma_matching_group_has_two(results@, results@[j as int]@);
                    let (a, b) = choose|a: int, b: int| 0 <= a < b < results@.len()
                        && #[trigger] results@[a]@ == results@[j as int]@ && #[trigger] results@[b]@ == results@[j as int]@;
                    assert(results@[a]@ == results@[b]@);
                }
            }
            return true;
        }
        j = j + 1;
    }
    false
}

/// An optimistic-execution dispute: the solver's claimed state after each
/// execution step.
pub struct BisectionGame {
    pub num_steps: usize,
    pub solver_states: Vec<String>,
}

/// The challenger `f` answers at step `i` with a state equal to `s`.
pub open spec fn answers_with<F: Fn(usize) -> String>(f: F, i: usize, s: Seq<char>) -> bool {
    exists|v: String| #[trigger] call_ensures(f, (i,), v) && v@ == s
}

/// The challenger `f` answers at step `i` with a state different from `s`.
pub open spec fn answers_other_than<F: Fn(usize) -> String>(f: F, i: usize, s: Seq<char>) -> bool {
    exists|v: String| #[trigger] call_ensures(f, (i,), v) && v@ != s
}

/// The challenger gives one state per step, whatever the number of calls.
pub open spec fn is_deterministic<F: Fn(usize) -> String>(f: F) -> bool {
    forall|i: usize, v: String, w: String|
        #[trigger] call_ensures(f, (i,), v) && #[trigger] call_ensures(f, (i,), w) ==> v@ == w@
}

impl BisectionGame {
    /// The step count is at most the number of recorded states.
    pub open spec fn well_formed(&self) -> bool {
        self.num_steps <= self.solver_states@.len()
    }

    /// Solver and challenger agree on the state after step `i`.
    pub open spec fn agrees_at<F: Fn(usize) -> String>(&self, f: F, i: usize) -> bool {
        answers_with(f, i, self.solver_states@[i as int]@)
    }

    /// Solver and challenger disagree on the state after step `i`.
    pub open spec fn disagrees_at<F: Fn(usize) -> String>(&self, f: F, i: usize) -> bool {
        answers_other_than(f, i, self.solver_states@[i as int]@)
    }

    /// The answer of a dispute search: `Some(i)` when the challenger's answer
    /// differs from the solver's state at step `i` and matched it at every
    /// earlier step; `None` when it matched at every step.
    pub open spec fn is_dispute_answer<F: Fn(usize) -> String>(&self, f: F, r: Option<usize>) -> bool {
        match r {
            None => forall|k: usize| k < self.num_steps ==> #[trigger] self.agrees_at(f, k),
            Some(i) => {
                &&& i < self.num_steps
                &&& self.disagrees_at(f, i)
                &&& forall|k: usize| k < i ==> #[trigger] self.agrees_at(f, k)
            },
        }
    }

    /// `Some(i)` is the first step of disagreement; `None` means no step disagrees.
    pub open spec fn is_first_divergence<F: Fn(usize) -> String>(&self, f: F, r: Option<usize>) -> bool {
        match r {
            None => forall|k: usize| k < self.num_steps ==> !#[trigger] self.disagrees_at(f, k),
            Some(i) => {
                &&& i < self.num_steps
                &&& self.disagrees_at(f, i)
                &&& forall|k: usize| k < i ==> !#[trigger] self.disagrees_at(f, k)
            },
        }
    }

    /// Starts a game over the solver's recorded states.
    pub fn new(solver_states: Vec<String>) -> (game: Self)
        ensures
            game.num_steps == solver_states@.len(),
            game.solver_states@ == solver_states@,
            game.well_formed(),
    {
        BisectionGame { num_steps: solver_states.len(), solver_states }
    }

    /// Finds the first step at which solver and challenger disagree, or
    /// `None` when they agree on every step. A bisection over the steps
    /// narrows down to a step where agreement turns into disagreement; the
    /// steps before it are then checked, so that the answer is the first
    /// disagreement even where a divergence heals and reappears.
    pub fn find_dispute_point<F>(&self, challenger_fn: F) -> (r: Option<usize>)
        where
            F: Fn(usize) -> String,
        requires
            self.well_formed(),
            forall|i: usize| i < self.num_steps ==> call_requires(challenger_fn, (i,)),
        ensures
            self.is_dispute_answer(challenger_fn, r),
            is_deterministic(challenger_fn) ==> self.is_first_divergence(challenger_fn, r),
    {
        if self.num_steps == 0 {
            return None;
        }
        let last_step = self.num_steps - 1;
        let last_answer = challenger_fn(last_step);
        assert(call_ensures(challenger_fn, (last_step,), last_answer));
        let agrees_last = self.solver_states[last_step] == last_answer;
        // `bound`: the steps below it are still to be checked; steps from
        // `bound` on up to the candidate answer are known to agree.
        let mut bound: usize = last_step;
        let mut candidate: Option<usize> = None;
        if agrees_last {
            assert(self.agrees_at(challenger_fn, last_step));
        } else {
            assert(self.disagrees_at(challenger_fn, last_step));
            let mut low: usize = 0;
            let mut high: usize = last_step;
            while low < high
                invariant
                    self.well_formed(),
                    forall|i: usize| i < self.num_steps ==> call_requires(challenger_fn, (i,)),
                    last_step == self.num_steps - 1,
                    low <= high <= last_step,
                    self.disagrees_at(challenger_fn, high),
                    low == 0 || self.agrees_at(challenger_fn, (low - 1) as usize),
                decreases high - low,
            {
                let mid = low + (high - low) / 2;
                let challenger_state = challenger_fn(mid);
                assert(call_ensures(challenger_fn, (mid,), challenger_state));
                if self.solver_states[mid] == challenger_state {
                    assert(self.agrees_at(challenger_fn, mid));
                    low = mid + 1;
                } else {
                    assert(self.disagrees_at(challenger_fn, mid));
                    high = mid;
                }
            }
            bound = if low == 0 { 0 } else { low - 1 };
            candidate = Some(low);
        }
        let mut k: usize = 0;
        while k < bound
            invariant
                self.well_formed(),
                forall|i: usize| i < self.num_steps ==> call_requires(challenger_fn, (i,)),
                last_step == self.num_steps - 1,
                bound <= last_step,
                k <= bound,
                forall|j: usize| j < k ==> #[trigger] self.agrees_at(challenger_fn, j),
            decreases bound - k,
        {
            let challenger_state = challenger_fn(k);
            assert(call_ensures(challenger_fn, (k,), challenger_state));
            if self.solver_states[k] != challenger_state {
                assert(self.disagrees_at(challenger_fn, k));
                proof {
                    self.lemma_first_divergence(challenger_fn, Some(k));
                }
                return Some(k);
            }
            assert(self.agrees_at(challenger_fn, k));
            k = k + 1;
        }
        assert(candidate is None ==> self.agrees_at(challenger_fn, last_step));
        assert(candidate matches Some(low) ==> low < self.num_steps && self.disagrees_at(challenger_fn, low)
            && (low == 0 || (bound == low - 1 && self.agrees_at(challenger_fn, bound))));
        proof {
            self.lemma_first_divergence(challenger_fn, candidate);
        }
        candidate
    }

    /// With a challenger that answers each step one way, an observed answer
    /// of a search is the first divergence.
    proof fn lemma_first_divergence<F: Fn(usize) -> String>(&self, f: F, r: Option<usize>)
        requires
            self.is_dispute_answer(f, r),
        ensures
            is_deterministic(f) ==> self.is_first_divergence(f, r),
    {
        if is_deterministic(f) {
            let bound: usize = match r { Some(i) => i, None => self.num_steps };
            assert forall|k: usize| k < bound implies !#[trigger] self.disagrees_at(f, k) by {
                assert(self.agrees_at(f, k));
                if self.disagrees_at(f, k) {
                    let v = choose|v: String| #[trigger] call_ensures(f, (k,), v)
                        && v@ != self.solver_states@[k as int]@;
                    let w = choose|w: String| #[trigger] call_ensures(f, (k,), w)
                        && w@ == self.solver_states@[k as int]@;
                    assert(call_ensures(f, (k,), v));
                    assert(call_ensures(f, (k,), w));
                }
            }
        }
    }
}

} // verus!
