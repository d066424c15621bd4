//! Delayed connection racing.
//!
//! Every candidate gets an attempt. Attempt `k` starts `k` times 250 ms after
//! the race begins, and all attempts run side by side. The first attempt to
//! succeed wins and the others are cancelled; when every attempt has failed
//! the race is lost. The host runs the attempts and reports each result; the
//! race says what to do next.

use vstd::prelude::*;
use crate::candidates::Candidate;
use crate::error::TapsError;

verus! {

/// The time between the starts of two successive attempts, in milliseconds.
pub const ATTEMPT_DELAY_MS: u64 = 250;

/// The delay before attempt `k` starts, in milliseconds.
pub fn start_delay_ms(k: usize) -> (delay: u128)
    ensures
        delay == k * ATTEMPT_DELAY_MS,
{
    assert(k * ATTEMPT_DELAY_MS <= u128::MAX) by (nonlinear_arith)
        requires
            k <= u64::MAX,
            ATTEMPT_DELAY_MS == 250,
    ;
    (k as u128) * (ATTEMPT_DELAY_MS as u128)
}

/// A race as a mathematical value: which attempts have yet to report, and
/// the attempt that won, if one has.
pub struct RaceModel {
    pub pending: Seq<bool>,
    pub winner: Option<int>,
}

/// What follows from one report, as a mathematical value.
pub enum StepModel {
    /// Nothing is decided yet.
    Wait,
    /// The reported attempt has won; the listed attempts are to be cancelled.
    Won { cancel: Seq<int> },
    /// Every attempt has failed.
    Lost,
    /// The race was decided earlier; whatever the attempt opened is to be released.
    Discard,
}

/// The indices at which a sequence holds `true`, in ascending order.
pub open spec fn pending_indices(pending: Seq<bool>) -> Seq<int>
    decreases pending.len(),
{
    if pending.len() == 0 {
        Seq::empty()
    } else if pending.last() {
        pending_indices(pending.drop_last()).push(pending.len() - 1)
    } else {
        pending_indices(pending.drop_last())
    }
}

impl RaceModel {
    /// A race of `n` attempts in which none has reported.
    pub open spec fn fresh(n: nat) -> RaceModel {
        RaceModel { pending: Seq::new(n, |i: int| true), winner: None }
    }

    /// Whether attempt `k` may report.
    pub open spec fn awaits(self, k: int) -> bool {
        0 <= k < self.pending.len() && self.pending[k]
    }

    /// The race after attempt `k` has reported, and what the host does next.
    pub open spec fn next(self, k: int, succeeded: bool) -> (RaceModel, StepModel) {
        let pending = self.pending.update(k, false);
        if self.winner is Some {
            (RaceModel { pending, winner: self.winner }, StepModel::Discard)
        } else if succeeded {
            (
                RaceModel { pending, winner: Some(k) },
                StepModel::Won { cancel: pending_indices(pending) },
            )
        } else if pending_indices(pending).len() == 0 {
            (RaceModel { pending, winner: None }, StepModel::Lost)
        } else {
            (RaceModel { pending, winner: None }, StepModel::Wait)
        }
    }

    /// The race after a sequence of reports, each an attempt with its result.
    pub open spec fn run(self, reports: Seq<(int, bool)>) -> RaceModel
        decreases reports.len(),
    {
        if reports.len() == 0 {
            self
        } else {
            self.run(reports.drop_last()).next(reports.last().0, reports.last().1).0
        }
    }
}

/// What the host does after it has reported the result of an attempt.
#[derive(Debug)]
pub enum RaceStep {
    /// Nothing is decided yet: keep waiting for the other attempts.
    Wait,
    /// The reported attempt has won: its transport becomes the connection,
    /// and the listed attempts are cancelled.
    Won { cancel: Vec<usize> },
    /// Every attempt has failed: initiation fails, no candidate succeeded.
    Lost,
    /// The race was decided earlier: release what the attempt opened.
    Discard,
}

impl View for RaceStep {
    type V = StepModel;

    open spec fn view(&self) -> StepModel {
        match self {
            RaceStep::Wait => StepModel::Wait,
            RaceStep::Won { cancel } => StepModel::Won {
                cancel: cancel@.map_values(|i: usize| i as int),
            },
            RaceStep::Lost => StepModel::Lost,
            RaceStep::Discard => StepModel::Discard,
        }
    }
}

/// A race between the attempts for a list of candidates.
#[derive(Debug)]
pub struct Race {
    pub candidates: Vec<Candidate>,
    pub pending: Vec<bool>,
    pub winner: Option<usize>,
}

impl View for Race {
    type V = RaceModel;

    open spec fn view(&self) -> RaceModel {
        RaceModel {
            pending: self.pending@,
            winner: match self.winner {
                Some(w) => Some(w as int),
                None => None,
            },
        }
    }
}

impl Race {
    /// Every candidate has an attempt.
    pub open spec fn wf(&self) -> bool {
        self.pending@.len() == self.candidates@.len()
    }

    /// A race in which no attempt has reported.
    pub fn new(candidates: Vec<Candidate>) -> (race: Race)
        ensures
            race.wf(),
            race.candidates == candidates,
            race@ == RaceModel::fresh(candidates@.len()),
    {
        let mut pending: Vec<bool> = Vec::new();
        let mut i: usize = 0;
        while i < candidates.len()
            invariant
                i <= candidates@.len(),
                pending@.len() == i,
                forall|k: int| 0 <= k < i ==> pending@[k],
            decreases candidates@.len() - i,
        {
            pending.push(true);
            i += 1;
        }
        let race = Race { candidates, pending, winner: None };
        assert(race@.pending =~= RaceModel::fresh(race.candidates@.len()).pending);
        race
    }

    /// The number of attempts.
    pub fn len(&self) -> (n: usize)
        ensures
            n == self.candidates@.len(),
    {
        self.candidates.len()
    }

    /// Whether attempt `k` has yet to report.
    pub fn is_pending(&self, k: usize) -> (pending: bool)
        ensures
            pending == self@.awaits(k as int),
    {
        k < self.pending.len() && self.pending[k]
    }

    /// The attempts that have yet to report, in ascending order.
    pub fn outstanding(&self) -> (indices: Vec<usize>)
        ensures
            indices@.map_values(|i: usize| i as int) == pending_indices(self.pending@),
    {
        let mut indices: Vec<usize> = Vec::new();
        let mut i: usize = 0;
        while i < self.pending.len()
            invariant
                i <= self.pending@.len(),
                indices@.map_values(|i: usize| i as int) == pending_indices(
                    self.pending@.take(i as int),
                ),
            decreases self.pending@.len() - i,
        {
            proof {
                assert(self.pending@.take(i + 1).drop_last() =~= self.pending@.take(i as int));
            }
            if self.pending[i] {
                let ghost before = indices@;
                indices.push(i);
                assert(indices@.map_values(|i: usize| i as int) =~= before.map_values(
                    |i: usize| i as int,
                ).push(i as int));
            }
            i += 1;
        }
        proof {
            assert(self.pending@.take(i as int) =~= self.pending@);
        }
        indices
    }

    /// How the race has ended, if it has: with the winning attempt, or,
    /// when no attempt is left to report and none has won, with the failure
    /// that no candidate succeeded.
    pub open spec fn ended(self) -> Option<Result<int, TapsError>> {
        match self@.winner {
            Some(winner) => Some(Ok(winner)),
            None => if pending_indices(self.pending@).len() == 0 {
                Some(Err(TapsError::NoCandidateSucceeded))
            } else {
                None
            },
        }
    }

    /// Tells how the race has ended, if it has.
    pub fn outcome(&self) -> (outcome: Option<Result<usize, TapsError>>)
        ensures
            match outcome {
                Some(Ok(winner)) => self.ended() == Some(Ok::<int, TapsError>(winner as int)),
                Some(Err(error)) => self.ended() == Some(Err::<int, TapsError>(error)),
                None => self.ended() is None,
            },
    {
        match self.winner {
            Some(winner) => Some(Ok(winner)),
            None => {
                if self.outstanding().len() == 0 {
                    Some(Err(TapsError::NoCandidateSucceeded))
                } else {
                    None
                }
            },
        }
    }

    /// Takes the report of attempt `k` and says what the host does next.
    pub fn on_result(&mut self, k: usize, succeeded: bool) -> (step: RaceStep)
        requires
            old(self).wf(),
            old(self)@.awaits(k as int),
        ensures
            final(self).wf(),
            final(self).candidates == old(self).candidates,
            (final(self)@, step@) == old(self)@.next(k as int, succeeded),
    {
        self.pending[k] = false;
        if self.winner.is_some() {
            RaceStep::Discard
        } else if succeeded {
            self.winner = Some(k);
            RaceStep::Won { cancel: self.outstanding() }
        } else {
            let outstanding = self.outstanding();
            if outstanding.len() == 0 {
                RaceStep::Lost
            } else {
                RaceStep::Wait
            }
        }
    }
}

/// Whether a sequence of reports can come out of a race of `n` attempts:
/// every report is of one of the attempts, and no attempt reports twice.
pub open spec fn admissible(n: nat, reports: Seq<(int, bool)>) -> bool {
    &&& forall|i: int| 0 <= i < reports.len() ==> 0 <= (#[trigger] reports[i]).0 < n
    &&& forall|i: int, j: int|
        0 <= i < j < reports.len() ==> (#[trigger] reports[i]).0 != (#[trigger] reports[j]).0
}

/// Whether attempt `k` is among the reports.
pub open spec fn reported(reports: Seq<(int, bool)>, k: int) -> bool {
    exists|i: int| 0 <= i < reports.len() && (#[trigger] reports[i]).0 == k
}

/// The attempt of the earliest report of a success.
pub open spec fn first_success(reports: Seq<(int, bool)>) -> Option<int>
    decreases reports.len(),
{
    if reports.len() == 0 {
        None
    } else {
        match first_success(reports.drop_last()) {
            Some(w) => Some(w),
            None => if reports.last().1 {
                Some(reports.last().0)
            } else {
                None
            },
        }
    }
}

/// The listed indices are those at which the sequence holds `true`.
pub proof fn lemma_pending_indices(pending: Seq<bool>)
    ensures
        forall|k: int| #[trigger]
            pending_indices(pending).contains(k) <==> 0 <= k < pending.len() && pending[k],
        pending_indices(pending).len() == 0 <==> forall|k: int|
            0 <= k < pending.len() ==> !pending[k],
    decreases pending.len(),
{
    if pending.len() > 0 {
        let shorter = pending.drop_last();
        let last = pending.len() - 1;
        let before = pending_indices(shorter);
        let all = pending_indices(pending);
        lemma_pending_indices(shorter);
        assert forall|k: int| #[trigger]
            all.contains(k) <==> 0 <= k < pending.len() && pending[k] by {
            if all.contains(k) {
                let i = choose|i: int| 0 <= i < all.len() && all[i] == k;
                if i < before.len() {
                    assert(before[i] == k);
                    assert(before.contains(k));
                    assert(shorter[k] == pending[k]);
                }
            }
            if 0 <= k < pending.len() && pending[k] {
                if k < last {
                    assert(shorter[k] == pending[k]);
                    assert(before.contains(k));
                    let i = choose|i: int| 0 <= i < before.len() && before[i] == k;
                    assert(all[i] == k);
                } else {
                    assert(all[all.len() - 1] == k);
                }
            }
        }
        if all.len() == 0 {
            assert forall|k: int| 0 <= k < pending.len() implies !pending[k] by {
                if pending[k] {
                    assert(all.contains(k));
                }
            }
        } else {
            assert(all.contains(all[0]));
        }
    }
}

/// The earliest success is a report of a success, and without one every
/// report is of a failure.
pub proof fn lemma_first_success(reports: Seq<(int, bool)>)
    ensures
        first_success(reports) matches Some(w) ==> exists|i: int|
            0 <= i < reports.len() && #[trigger] reports[i] == (w, true),
        first_success(reports) is None ==> forall|i: int|
            0 <= i < reports.len() ==> !(#[trigger] reports[i]).1,
    decreases reports.len(),
{
    if reports.len() > 0 {
        let shorter = reports.drop_last();
        lemma_first_success(shorter);
        match first_success(shorter) {
            Some(w) => {
                let i = choose|i: int| 0 <= i < shorter.len() && #[trigger] shorter[i] == (w, true);
                assert(reports[i] == (w, true));
            },
            None => {
                if reports.last().1 {
                    assert(reports[reports.len() - 1] == (reports.last().0, true));
                } else {
                    assert forall|i: int| 0 <= i < reports.len() implies !(
                    #[trigger] reports[i]).1 by {
                        if i < shorter.len() {
                            assert(shorter[i] == reports[i]);
                        }
                    }
                }
            },
        }
    }
}

/// After any admissible sequence of reports the attempts that have yet to
/// report are those not among the reports, and the winner is the attempt
/// whose success was reported first.
pub proof fn lemma_run(n: nat, reports: Seq<(int, bool)>)
    requires
        admissible(n, reports),
    ensures
        RaceModel::fresh(n).run(reports).pending.len() == n,
        forall|k: int|
            0 <= k < n ==> RaceModel::fresh(n).run(reports).pending[k] == !reported(reports, k),
        RaceModel::fresh(n).run(reports).winner == first_success(reports),
    decreases reports.len(),
{
    let start = RaceModel::fresh(n);
    if reports.len() > 0 {
        let shorter = reports.drop_last();
        let last = reports.len() - 1;
        assert(admissible(n, shorter)) by {
            assert forall|i: int| 0 <= i < shorter.len() implies 0 <= (#[trigger] shorter[i]).0
                < n by {
                assert(shorter[i] == reports[i]);
            }
            assert forall|i: int, j: int| 0 <= i < j < shorter.len() implies (
            #[trigger] shorter[i]).0 != (#[trigger] shorter[j]).0 by {
                assert(shorter[i] == reports[i] && shorter[j] == reports[j]);
            }
        }
        lemma_run(n, shorter);
        let before = start.run(shorter);
        let after = start.run(reports);
        assert(after == before.next(reports[last].0, reports[last].1).0);
        assert forall|k: int| 0 <= k < n implies after.pending[k] == !reported(reports, k) by {
            if k == reports[last].0 {
                assert(reported(reports, k));
            } else if reported(shorter, k) {
                let i = choose|i: int| 0 <= i < shorter.len() && (#[trigger] shorter[i]).0 == k;
                assert(reports[i] == shorter[i]);
            } else if reported(reports, k) {
                let i = choose|i: int| 0 <= i < reports.len() && (#[trigger] reports[i]).0 == k;
                assert(shorter[i] == reports[i]);
            }
        }
    } else {
        assert forall|k: int| 0 <= k < n implies start.pending[k] == !reported(reports, k) by {}
    }
}

/// In an admissible sequence every report comes from an attempt that the
/// race still waits for.
pub proof fn lemma_reports_are_awaited(n: nat, reports: Seq<(int, bool)>, i: int)
    requires
        admissible(n, reports),
        0 <= i < reports.len(),
    ensures
        admissible(n, reports.take(i)),
        RaceModel::fresh(n).run(reports.take(i)).awaits(reports[i].0),
{
    let earlier = reports.take(i);
    assert(admissible(n, earlier)) by {
        assert forall|a: int| 0 <= a < earlier.len() implies 0 <= (#[trigger] earlier[a]).0
            < n by {
            assert(earlier[a] == reports[a]);
        }
        assert forall|a: int, b: int| 0 <= a < b < earlier.len() implies (#[trigger] earlier[a]).0
            != (#[trigger] earlier[b]).0 by {
            assert(earlier[a] == reports[a] && earlier[b] == reports[b]);
        }
    }
    lemma_run(n, earlier);
    if reported(earlier, reports[i].0) {
        let a = choose|a: int| 0 <= a < earlier.len() && (#[trigger] earlier[a]).0 == reports[i].0;
        assert(earlier[a] == reports[a]);
    }
}

/// Race correctness. Let every attempt have the result that `outcomes`
/// gives it, and let every attempt report once, in any order. If some
/// attempt succeeds, the race has a winner, and the winner is an attempt that
/// succeeds. If every attempt fails, the race has no winner and the last
/// report ends it as lost.
pub proof fn lemma_race_correct(outcomes: Seq<bool>, reports: Seq<(int, bool)>)
    requires
        admissible(outcomes.len(), reports),
        forall|i: int|
            0 <= i < reports.len() ==> (#[trigger] reports[i]).1 == outcomes[reports[i].0],
        forall|k: int| 0 <= k < outcomes.len() ==> reported(reports, k),
    ensures
        (exists|k: int| 0 <= k < outcomes.len() && outcomes[k]) ==> {
            let winner = RaceModel::fresh(outcomes.len()).run(reports).winner;
            &&& winner is Some
            &&& 0 <= winner->0 < outcomes.len()
            &&& outcomes[winner->0]
        },
        (forall|k: int| 0 <= k < outcomes.len() ==> !outcomes[k]) ==> {
            &&& RaceModel::fresh(outcomes.len()).run(reports).winner is None
            &&& reports.len() > 0 ==> RaceModel::fresh(outcomes.len()).run(
                reports.drop_last(),
            ).next(reports.last().0, reports.last().1).1 == StepModel::Lost
        },
{
    let n = outcomes.len();
    let start = RaceModel::fresh(n);
    lemma_run(n, reports);
    lemma_first_success(reports);
    if exists|k: int| 0 <= k < outcomes.len() && outcomes[k] {
        let k = choose|k: int| 0 <= k < outcomes.len() && outcomes[k];
        assert(reported(reports, k));
        let i = choose|i: int| 0 <= i < reports.len() && (#[trigger] reports[i]).0 == k;
        assert(reports[i].1);
        let w = first_success(reports)->0;
        let j = choose|j: int| 0 <= j < reports.len() && #[trigger] reports[j] == (w, true);
        assert(reports[j].1 == outcomes[reports[j].0]);
    }
    if forall|k: int| 0 <= k < outcomes.len() ==> !outcomes[k] {
        if first_success(reports) is Some {
            let w = first_success(reports)->0;
            let j = choose|j: int| 0 <= j < reports.len() && #[trigger] reports[j] == (w, true);
            assert(reports[j].1 == outcomes[reports[j].0]);
        }
        if reports.len() > 0 {
            let last = reports.len() - 1;
            lemma_reports_are_awaited(n, reports, last);
            assert(reports.take(last) =~= reports.drop_last());
            let before = start.run(reports.drop_last());
            let after = start.run(reports);
            lemma_run(n, reports.drop_last());
            lemma_first_success(reports.drop_last());
            if first_success(reports.drop_last()) is Some {
                assert(first_success(reports) is Some);
            }
            assert(reports[last].1 == outcomes[reports[last].0]);
            assert(!reports.last().1);
            assert(before.winner is None);
            let pending = before.pending.update(reports[last].0, false);
            assert(after.pending == pending);
            lemma_pending_indices(pending);
            assert forall|k: int| 0 <= k < pending.len() implies !pending[k] by {
                assert(reported(reports, k));
            }
            assert(pending_indices(pending).len() == 0);
            assert(after.winner is None);
        }
    }
}

/// No attempt is left to itself. Whenever a success is reported, the race
/// either makes that attempt the winner and names every attempt that has yet
/// to report for cancelling, or, being decided already, has it discarded.
pub proof fn lemma_successes_are_owned(n: nat, reports: Seq<(int, bool)>, i: int)
    requires
        admissible(n, reports),
        0 <= i < reports.len(),
        reports[i].1,
    ensures
        ({
            let before = RaceModel::fresh(n).run(reports.take(i));
            let step = before.next(reports[i].0, true).1;
            if first_success(reports.take(i)) is None {
                &&& step is Won
                &&& forall|k: int|
                    step->cancel.contains(k) <==> 0 <= k < n && k != reports[i].0 && !reported(
                        reports.take(i),
                        k,
                    )
            } else {
                step == StepModel::Discard
            }
        }),
{
    lemma_reports_are_awaited(n, reports, i);
    let earlier = reports.take(i);
    let before = RaceModel::fresh(n).run(earlier);
    lemma_run(n, earlier);
    let pending = before.pending.update(reports[i].0, false);
    lemma_pending_indices(pending);
    let step = before.next(reports[i].0, true).1;
    if first_success(earlier) is None {
        assert(step == StepModel::Won { cancel: pending_indices(pending) });
        assert forall|k: int|
            step->cancel.contains(k) <==> 0 <= k < n && k != reports[i].0 && !reported(
                earlier,
                k,
            ) by {
            assert(pending.len() == n);
            assert(step->cancel == pending_indices(pending));
            assert(pending_indices(pending).contains(k) <==> 0 <= k < pending.len()
                && pending[k]);
            if 0 <= k < n {
                if k != reports[i].0 {
                    assert(pending[k] == before.pending[k]);
                    assert(before.pending[k] == !reported(earlier, k));
                } else {
                    assert(!pending[k]);
                }
            }
        }
    }
}

} // verus!
