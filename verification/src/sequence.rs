//! What the bridge asks of the sequence engine.
//!
//! The engine takes steps one after another and runs them as one unit
//! against the probe. The bridge does not run anything itself: it says which
//! steps make up a transaction, as a plain value, and whoever owns the
//! engine carries them out.

use vstd::prelude::*;

verus! {

/// One step of a sequence.
#[derive(Debug, PartialEq, Eq)]
pub enum Step {
    /// Shift `bits` out on the data line, first bit first, with the mode
    /// line low. With `capture`, the bits that come in meanwhile are kept,
    /// one for each bit sent.
    Shift { bits: Vec<bool>, capture: bool },
    /// Drive the mode line through `states`, one clock each.
    Mode { states: Vec<bool> },
}

/// A step as a mathematical value.
pub enum StepView {
    /// `bits` are shifted out, first bit first; with `capture`, as many
    /// bits are taken in.
    Shift { bits: Seq<bool>, capture: bool },
    /// The mode line goes through `states`, one clock each.
    Mode { states: Seq<bool> },
}

impl View for Step {
    type V = StepView;

    open spec fn view(&self) -> StepView {
        match *self {
            Step::Shift { bits, capture } => StepView::Shift { bits: bits@, capture },
            Step::Mode { states } => StepView::Mode { states: states@ },
        }
    }
}

/// The steps of one run of the engine, in order.
#[derive(Debug, PartialEq, Eq)]
pub struct Sequence {
    pub steps: Vec<Step>,
}

impl View for Sequence {
    type V = Seq<StepView>;

    open spec fn view(&self) -> Seq<StepView> {
        Seq::new(self.steps@.len(), |i: int| self.steps@[i]@)
    }
}

/// The steps of one SPI transaction: `bits` are shifted out, and then the
/// mode line is raised for one clock, which marks the bits as an SPI frame.
pub open spec fn transaction(bits: Seq<bool>, capture: bool) -> Seq<StepView> {
    seq![StepView::Shift { bits, capture }, StepView::Mode { states: seq![true] }]
}

/// A transaction has one shift step, and one mode step, which follows it
/// and raises the mode line exactly once.
pub proof fn lemma_mode_raised_once(bits: Seq<bool>, capture: bool)
    ensures
        transaction(bits, capture).len() == 2,
        transaction(bits, capture)[0] == (StepView::Shift { bits, capture }),
        transaction(bits, capture)[1] == (StepView::Mode { states: seq![true] }),
        forall|i: int|
            0 <= i < transaction(bits, capture).len() ==> (transaction(bits, capture)[i] is Mode
                <==> i == 1),
        forall|i: int|
            0 <= i < transaction(bits, capture).len() ==> (transaction(bits, capture)[i] is Shift
                <==> i == 0),
{
}

impl Sequence {
    /// The sequence that shifts `bits` out as one SPI transaction.
    pub fn transaction(bits: Vec<bool>, capture: bool) -> (r: Sequence)
        ensures
            r@ == transaction(bits@, capture),
    {
        let mut states: Vec<bool> = Vec::new();
        states.push(true);
        let mut steps: Vec<Step> = Vec::new();
        steps.push(Step::Shift { bits, capture });
        steps.push(Step::Mode { states });
        let r = Sequence { steps };
        proof {
            assert(states@ =~= seq![true]);
            assert(r@ =~= transaction(bits@, capture));
        }
        r
    }
}

} // verus!
