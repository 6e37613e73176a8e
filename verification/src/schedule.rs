use vstd::prelude::*;

verus! {

/// The trainer's only state machine: "epoch `epoch` of `epochs`".
///
/// A training run starts at epoch 0 and performs one forward-plus-update
/// step per epoch until the counter reaches the configured count; there is
/// no convergence check and no early exit. The caller drives the loop:
/// while the schedule is not complete it computes one epoch's weight
/// update, hands it to the network, and advances the schedule.
#[derive(Clone, Copy, Debug, PartialEq, Eq, Structural)]
pub struct TrainSchedule {
    pub epoch: usize,
    pub epochs: usize,
}

impl TrainSchedule {
    /// The counter never runs past the configured count.
    pub open spec fn wf(&self) -> bool {
        self.epoch <= self.epochs
    }

    /// A schedule is complete when every configured epoch has run.
    pub open spec fn spec_complete(&self) -> bool {
        self.epoch == self.epochs
    }

    /// A fresh schedule for `epochs` epochs, positioned before the first.
    pub fn new(epochs: usize) -> (s: TrainSchedule)
        ensures
            s.epoch == 0,
            s.epochs == epochs,
            s.wf(),
            s.spec_complete() <==> epochs == 0,
    {
        TrainSchedule { epoch: 0, epochs }
    }

    /// Whether every configured epoch has run.
    pub fn is_complete(&self) -> (r: bool)
        requires
            self.wf(),
        ensures
            r == self.spec_complete(),
    {
        self.epoch == self.epochs
    }

    /// Records that one more epoch has run.
    pub fn step(&mut self)
        requires
            old(self).wf(),
            !old(self).spec_complete(),
        ensures
            final(self).epoch == old(self).epoch + 1,
            final(self).epochs == old(self).epochs,
            final(self).wf(),
    {
        self.epoch += 1;
    }
}

/// A run configured for zero epochs is complete before any step: no weight
/// update is ever produced, so the network keeps exactly the weights it was
/// constructed with.
pub proof fn lemma_zero_epochs_complete(s: TrainSchedule)
    requires
        s.epoch == 0,
        s.epochs == 0,
    ensures
        s.spec_complete(),
{
}

} // verus!
