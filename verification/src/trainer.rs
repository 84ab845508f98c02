//! The schedule of a training run: a fixed number of epochs, one after the
//! other, with a progress report on every tenth of them.
//!
//! The trainer decides; its caller runs the epoch that it is handed and comes
//! back for the next one.

use vstd::prelude::*;

verus! {

/// Epochs of a full training run.
pub const EPOCHS: usize = 150;

/// A report is due on every epoch whose index is a multiple of this.
pub const REPORT_EVERY: usize = 10;

/// Whether a trainer still has epochs to run.
#[derive(Clone, Copy, Debug, PartialEq, Eq, Structural)]
pub enum Phase {
    Training,
    Idle,
}

/// One epoch to run: its index, counted from 0, and whether the loss and the
/// accuracy are to be reported after it.
#[derive(Clone, Copy, Debug, PartialEq, Eq, Structural)]
pub struct Epoch {
    pub index: usize,
    pub report: bool,
}

/// The phase of a run of `epochs` epochs of which `started` have begun.
pub open spec fn phase_at(epochs: nat, started: nat) -> Phase {
    if started < epochs {
        Phase::Training
    } else {
        Phase::Idle
    }
}

/// Whether the epoch with this index ends with a report.
pub open spec fn reports(index: nat) -> bool {
    index % (REPORT_EVERY as nat) == 0
}

/// How many epochs have begun after one more request for the next epoch, in
/// a run of `epochs` epochs of which `started` had begun before.
pub open spec fn step(epochs: nat, started: nat) -> nat {
    if phase_at(epochs, started) == Phase::Training {
        started + 1
    } else {
        started
    }
}

/// How many epochs have begun after `calls` requests for the next epoch.
pub open spec fn started_after(epochs: nat, started: nat, calls: nat) -> nat
    decreases calls,
{
    if calls == 0 {
        started
    } else {
        step(epochs, started_after(epochs, started, (calls - 1) as nat))
    }
}

/// A run of `epochs` epochs begins exactly `epochs` of them, however often
/// the next one is asked for: after `calls` requests the smaller of `calls`
/// and `epochs` have begun, and the run is idle from the `epochs`-th on.
pub proof fn lemma_runs_every_epoch_once(epochs: nat, calls: nat)
    ensures
        started_after(epochs, 0, calls) == if calls <= epochs {
            calls
        } else {
            epochs
        },
        phase_at(epochs, started_after(epochs, 0, calls)) == Phase::Idle <==> calls >= epochs,
    decreases calls,
{
    if calls > 0 {
        lemma_runs_every_epoch_once(epochs, (calls - 1) as nat);
    }
}

/// The progress of one training run.
pub struct Trainer {
    epochs: usize,
    started: usize,
}

impl Trainer {
    #[verifier::type_invariant]
    spec fn bounded(self) -> bool {
        self.started <= self.epochs
    }

    /// The epochs of the whole run.
    pub closed spec fn spec_epochs(self) -> nat {
        self.epochs as nat
    }

    /// The epochs that have begun.
    pub closed spec fn spec_started(self) -> nat {
        self.started as nat
    }

    pub open spec fn spec_phase(self) -> Phase {
        phase_at(self.spec_epochs(), self.spec_started())
    }

    /// A run of `epochs` epochs, none of them begun.
    pub fn new(epochs: usize) -> (t: Trainer)
        ensures
            t.spec_epochs() == epochs,
            t.spec_started() == 0,
    {
        Trainer { epochs, started: 0 }
    }

    pub fn epochs(&self) -> (n: usize)
        ensures
            n == self.spec_epochs(),
    {
        self.epochs
    }

    /// The epochs that have begun, which are never more than those of the run.
    pub fn started(&self) -> (n: usize)
        ensures
            n == self.spec_started(),
            n <= self.spec_epochs(),
    {
        proof {
            use_type_invariant(self);
        }
        self.started
    }

    pub fn phase(&self) -> (p: Phase)
        ensures
            p == self.spec_phase(),
    {
        if self.started < self.epochs {
            Phase::Training
        } else {
            Phase::Idle
        }
    }

    /// Begins the next epoch, if one is left. While training, the epoch handed
    /// out is the one after the last, and it ends with a report where its
    /// index is a multiple of [`REPORT_EVERY`]. An idle trainer hands out
    /// nothing and stays as it is.
    pub fn begin_epoch(&mut self) -> (e: Option<Epoch>)
        ensures
            final(self).spec_epochs() == old(self).spec_epochs(),
            final(self).spec_started() == step(old(self).spec_epochs(), old(self).spec_started()),
            match e {
                Some(epoch) => old(self).spec_phase() == Phase::Training && epoch.index == old(
                    self,
                ).spec_started() && epoch.report == reports(old(self).spec_started()),
                None => old(self).spec_phase() == Phase::Idle,
            },
    {
        proof {
            use_type_invariant(&*self);
        }
        if self.started < self.epochs {
            let index = self.started;
            self.started = index + 1;
            Some(Epoch { index, report: index % REPORT_EVERY == 0 })
        } else {
            None
        }
    }
}

} // verus!
