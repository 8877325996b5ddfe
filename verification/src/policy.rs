use vstd::prelude::*;

verus! {

/// How the budget of a limiter comes back as time passes.
#[derive(Clone, Copy, Debug, PartialEq, Eq, Structural)]
pub enum RefillPolicy {
    /// Nothing comes back while the window runs; once more than a whole
    /// window has elapsed the budget is restored in full.
    Full,
    /// The budget trickles back in proportion to the share of the window
    /// that has elapsed since the last refill.
    Gradual,
}

} // verus!
