//! When training stops.
//!
//! Training repeats one update of the parameters `(a, b)` until the stopping
//! policy fires. The arithmetic of an update is the driver's; the trainer
//! owns the parameters, counts the updates and decides after each one
//! whether another follows. Parameters and errors are binary64 bit patterns.

use crate::binary64::{is_nan, less_than, lt, value};
use vstd::prelude::*;

verus! {

/// The rule that ends training.
#[derive(Debug, Clone, Copy, PartialEq, Eq, Structural)]
pub enum StoppingPolicy {
    /// Stop after exactly this many updates.
    FixedEpochs(u64),
    /// Stop after the first update that lowers the error by less than this
    /// threshold.
    ConvergenceThreshold(u64),
}

/// What the driver does next.
#[derive(Debug, Clone, Copy, PartialEq, Eq, Structural)]
pub enum Action {
    /// Update the parameters once more and record the outcome.
    Step,
    /// Stop: the parameters are final.
    Finish,
}

/// The state of a training run.
pub struct TrainerState {
    pub policy: StoppingPolicy,
    /// The slope.
    pub a: u64,
    /// The intercept.
    pub b: u64,
    /// The number of updates recorded, held at `u64::MAX` once reached.
    pub epochs: u64,
    /// Whether the policy has fired.
    pub done: bool,
}

/// The outcome of one update: the new parameters and the improvement, which
/// is the error before the update minus the error after it.
#[derive(Debug, Clone, Copy, PartialEq, Eq, Structural)]
pub struct Update {
    pub a: u64,
    pub b: u64,
    pub improvement: u64,
}

/// Whether the policy fires after the update that brought the count to
/// `epochs` and lowered the error by `improvement`.
pub open spec fn fires(policy: StoppingPolicy, epochs: u64, improvement: u64) -> bool {
    match policy {
        StoppingPolicy::FixedEpochs(n) => epochs >= n,
        StoppingPolicy::ConvergenceThreshold(d_rms) => lt(improvement, d_rms),
    }
}

impl TrainerState {
    /// The state before any update: both parameters zero. A policy of zero
    /// epochs has fired already.
    pub open spec fn initial(policy: StoppingPolicy) -> TrainerState {
        TrainerState {
            policy,
            a: 0,
            b: 0,
            epochs: 0,
            done: policy == StoppingPolicy::FixedEpochs(0),
        }
    }

    /// What the driver does next in this state.
    pub open spec fn action(self) -> Action {
        if self.done {
            Action::Finish
        } else {
            Action::Step
        }
    }

    /// The state after one update is recorded. A finished run ignores it.
    pub open spec fn step(self, update: Update) -> TrainerState {
        if self.done {
            self
        } else {
            let epochs = if self.epochs < u64::MAX {
                (self.epochs + 1) as u64
            } else {
                self.epochs
            };
            TrainerState {
                policy: self.policy,
                a: update.a,
                b: update.b,
                epochs,
                done: fires(self.policy, epochs, update.improvement),
            }
        }
    }

    /// The state after the updates are recorded in order.
    pub open spec fn run(self, updates: Seq<Update>) -> TrainerState
        decreases updates.len(),
    {
        if updates.len() == 0 {
            self
        } else {
            self.run(updates.drop_last()).step(updates.last())
        }
    }
}

/// A training run: the parameters, the count of updates and the policy.
#[derive(Debug)]
pub struct Trainer {
    policy: StoppingPolicy,
    a: u64,
    b: u64,
    epochs: u64,
    done: bool,
}

impl View for Trainer {
    type V = TrainerState;

    closed spec fn view(&self) -> TrainerState {
        TrainerState { policy: self.policy, a: self.a, b: self.b, epochs: self.epochs, done: self.done }
    }
}

impl Trainer {
    /// Starts a run with both parameters zero.
    pub fn new(policy: StoppingPolicy) -> (trainer: Trainer)
        ensures
            trainer@ == TrainerState::initial(policy),
    {
        let done = match policy {
            StoppingPolicy::FixedEpochs(n) => n == 0,
            StoppingPolicy::ConvergenceThreshold(_) => false,
        };
        Trainer { policy, a: 0, b: 0, epochs: 0, done }
    }

    /// What the driver does next.
    pub fn action(&self) -> (action: Action)
        ensures
            action == self@.action(),
    {
        if self.done {
            Action::Finish
        } else {
            Action::Step
        }
    }

    /// Records the outcome of one update and decides what follows.
    ///
    /// Only the convergence policy reads the improvement. Once the run has
    /// finished the parameters are frozen and nothing is recorded.
    pub fn record_step(&mut self, update: Update) -> (action: Action)
        ensures
            final(self)@ == old(self)@.step(update),
            action == final(self)@.action(),
    {
        if self.done {
            return Action::Finish;
        }
        if self.epochs < u64::MAX {
            self.epochs = self.epochs + 1;
        }
        self.a = update.a;
        self.b = update.b;
        self.done = match self.policy {
            StoppingPolicy::FixedEpochs(n) => self.epochs >= n,
            StoppingPolicy::ConvergenceThreshold(d_rms) => less_than(update.improvement, d_rms),
        };
        self.action()
    }

    /// The parameters `(a, b)`: slope and intercept in normalized units.
    pub fn params(&self) -> (p: (u64, u64))
        ensures
            p == (self@.a, self@.b),
    {
        (self.a, self.b)
    }

    /// The number of updates recorded.
    pub fn epochs(&self) -> (n: u64)
        ensures
            n == self@.epochs,
    {
        self.epochs
    }

    /// Whether the policy has fired.
    pub fn is_done(&self) -> (done: bool)
        ensures
            done == self@.done,
    {
        self.done
    }

    /// The policy of this run.
    pub fn policy(&self) -> (policy: StoppingPolicy)
        ensures
            policy == self@.policy,
    {
        self.policy
    }
}

/// Whether update `k` is the first whose improvement is below the threshold.
pub open spec fn first_below(d_rms: u64, updates: Seq<Update>, k: int) -> bool {
    &&& 0 <= k < updates.len()
    &&& lt(updates[k].improvement, d_rms)
    &&& forall|j: int| 0 <= j < k ==> !lt(#[trigger] updates[j].improvement, d_rms)
}

/// The policy of a run never changes.
pub proof fn lemma_policy_is_kept(state: TrainerState, updates: Seq<Update>)
    ensures
        state.run(updates).policy == state.policy,
    decreases updates.len(),
{
    if updates.len() > 0 {
        lemma_policy_is_kept(state, updates.drop_last());
    }
}

/// A finished run is frozen: whatever is recorded, nothing changes.
pub proof fn lemma_finished_is_frozen(state: TrainerState, updates: Seq<Update>)
    requires
        state.done,
    ensures
        state.run(updates) == state,
    decreases updates.len(),
{
    if updates.len() > 0 {
        lemma_finished_is_frozen(state, updates.drop_last());
    }
}

/// A run of zero epochs takes no update: the parameters stay `(0, 0)`.
pub proof fn lemma_zero_epochs_changes_nothing(updates: Seq<Update>)
    ensures
        TrainerState::initial(StoppingPolicy::FixedEpochs(0)).run(updates) == TrainerState::initial(
            StoppingPolicy::FixedEpochs(0),
        ),
        TrainerState::initial(StoppingPolicy::FixedEpochs(0)).run(updates).a == 0,
        TrainerState::initial(StoppingPolicy::FixedEpochs(0)).run(updates).b == 0,
{
    lemma_finished_is_frozen(TrainerState::initial(StoppingPolicy::FixedEpochs(0)), updates);
}

/// A run of `n` epochs takes exactly `n` updates: it is not finished before
/// the `n`-th, whatever the improvements are, and ignores what follows it.
pub proof fn lemma_fixed_epochs_exact(n: u64, updates: Seq<Update>)
    ensures
        ({
            let end = TrainerState::initial(StoppingPolicy::FixedEpochs(n)).run(updates);
            let taken = if updates.len() >= n {
                n as int
            } else {
                updates.len() as int
            };
            &&& end.done == (updates.len() >= n)
            &&& end.epochs == taken
            &&& taken == 0 ==> end.a == 0 && end.b == 0
            &&& taken > 0 ==> end.a == updates[taken - 1].a && end.b == updates[taken - 1].b
        }),
    decreases updates.len(),
{
    let start = TrainerState::initial(StoppingPolicy::FixedEpochs(n));
    if updates.len() > 0 {
        let before = updates.drop_last();
        lemma_fixed_epochs_exact(n, before);
        lemma_policy_is_kept(start, before);
        assert(start.run(updates) == start.run(before).step(updates.last()));
        assert(forall|i: int| 0 <= i < before.len() ==> before[i] == updates[i]);
    }
}

/// Under the convergence policy a run goes on as long as every improvement
/// is at least the threshold: it has then taken every update.
pub proof fn lemma_threshold_continues(d_rms: u64, updates: Seq<Update>)
    requires
        forall|i: int| 0 <= i < updates.len() ==> !lt(#[trigger] updates[i].improvement, d_rms),
    ensures
        ({
            let end = TrainerState::initial(StoppingPolicy::ConvergenceThreshold(d_rms)).run(
                updates,
            );
            &&& !end.done
            &&& end.epochs == if updates.len() <= u64::MAX {
                updates.len() as int
            } else {
                u64::MAX as int
            }
            &&& updates.len() == 0 ==> end.a == 0 && end.b == 0
            &&& updates.len() > 0 ==> end.a == updates.last().a && end.b == updates.last().b
        }),
    decreases updates.len(),
{
    let start = TrainerState::initial(StoppingPolicy::ConvergenceThreshold(d_rms));
    if updates.len() > 0 {
        let before = updates.drop_last();
        assert forall|i: int| 0 <= i < before.len() implies !lt(
            #[trigger] before[i].improvement,
            d_rms,
        ) by {
            assert(before[i] == updates[i]);
        }
        lemma_threshold_continues(d_rms, before);
        lemma_policy_is_kept(start, before);
        assert(start.run(updates) == start.run(before).step(updates.last()));
    }
}

/// Under the convergence policy a run stops at the first update whose
/// improvement is below the threshold, and keeps that update's parameters.
pub proof fn lemma_threshold_stops_at_first(d_rms: u64, updates: Seq<Update>, k: int)
    requires
        first_below(d_rms, updates, k),
    ensures
        ({
            let end = TrainerState::initial(StoppingPolicy::ConvergenceThreshold(d_rms)).run(
                updates,
            );
            &&& end.done
            &&& end.a == updates[k].a
            &&& end.b == updates[k].b
            &&& end.epochs == if k < u64::MAX {
                k + 1
            } else {
                u64::MAX as int
            }
        }),
    decreases updates.len(),
{
    let start = TrainerState::initial(StoppingPolicy::ConvergenceThreshold(d_rms));
    let before = updates.drop_last();
    lemma_policy_is_kept(start, before);
    assert(start.run(updates) == start.run(before).step(updates.last()));
    assert forall|j: int| 0 <= j < before.len() && j < k implies !lt(
        #[trigger] before[j].improvement,
        d_rms,
    ) by {
        assert(before[j] == updates[j]);
    }
    if k == updates.len() - 1 {
        lemma_threshold_continues(d_rms, before);
    } else {
        assert(before[k] == updates[k]);
        assert(first_below(d_rms, before, k));
        lemma_threshold_stops_at_first(d_rms, before, k);
    }
}

/// Under the convergence policy a run is finished exactly when some recorded
/// improvement was below the threshold. While it goes on, every update has
/// lowered the error by the threshold or more, or produced a NaN.
pub proof fn lemma_threshold_done_iff(d_rms: u64, updates: Seq<Update>)
    ensures
        TrainerState::initial(StoppingPolicy::ConvergenceThreshold(d_rms)).run(updates).done
            <==> exists|i: int| 0 <= i < updates.len() && lt(#[trigger] updates[i].improvement, d_rms),
    decreases updates.len(),
{
    let start = TrainerState::initial(StoppingPolicy::ConvergenceThreshold(d_rms));
    if updates.len() > 0 {
        let before = updates.drop_last();
        lemma_threshold_done_iff(d_rms, before);
        lemma_policy_is_kept(start, before);
        assert(start.run(updates) == start.run(before).step(updates.last()));
        assert(forall|i: int| 0 <= i < before.len() ==> before[i] == updates[i]);
        if start.run(updates).done {
            if start.run(before).done {
                let i = choose|i: int|
                    0 <= i < before.len() && lt(#[trigger] before[i].improvement, d_rms);
                assert(lt(updates[i].improvement, d_rms));
            } else {
                assert(lt(updates[updates.len() - 1].improvement, d_rms));
            }
        } else {
            assert forall|i: int| 0 <= i < updates.len() implies !lt(
                #[trigger] updates[i].improvement,
                d_rms,
            ) by {
                if i < before.len() {
                    assert(!lt(before[i].improvement, d_rms));
                }
            }
        }
    }
}

/// The convergence policy fires whenever the error did not go down, even
/// where it went up: a negative or zero improvement is below any positive
/// threshold.
pub proof fn lemma_fires_without_improvement(d_rms: u64, epochs: u64, improvement: u64)
    requires
        !is_nan(d_rms) && value(d_rms) > 0,
        !is_nan(improvement) && value(improvement) <= 0,
    ensures
        fires(StoppingPolicy::ConvergenceThreshold(d_rms), epochs, improvement),
{
}

/// The convergence policy never fires on a NaN: once the error is a NaN the
/// run has no end.
pub proof fn lemma_nan_never_fires(d_rms: u64, epochs: u64, improvement: u64)
    requires
        is_nan(improvement) || is_nan(d_rms),
    ensures
        !fires(StoppingPolicy::ConvergenceThreshold(d_rms), epochs, improvement),
{
}

} // verus!
