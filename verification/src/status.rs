//! Why a pipeline stage stopped.

use vstd::prelude::*;

verus! {

/// The reason a stage gives when it terminates, for a supervisor to act on.
#[derive(Clone, Copy, Debug, PartialEq, Eq, Structural)]
pub enum StageExit {
    /// The network source ended in an orderly way.
    EndOfStream,
    /// The stage could not forward a sample: the receiving stage is gone.
    ChannelClosed,
    /// The stage that feeds the channel is gone and the channel is drained.
    Disconnected,
}

} // verus!
