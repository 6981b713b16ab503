//! The ingestion stage: turns what a read from the network source yielded
//! into a sample on the channel, or into the decision to stop.

use vstd::prelude::*;
use std::sync::mpsc::Sender;
use crate::channel::send;
use crate::codec::{decode, le_value, SampleType};
use crate::status::StageExit;

verus! {

/// What one blocking read of a record from the network source yielded.
#[derive(Debug)]
pub enum ReadOutcome {
    /// A whole record was delivered.
    Record(Vec<u8>),
    /// The source ended in an orderly way before delivering a whole record.
    EndOfStream,
    /// The read failed for another reason.
    Failed,
}

/// What the stage does about a read.
#[derive(Clone, Copy, Debug, PartialEq, Eq, Structural)]
pub enum IngestAction {
    /// Forward the decoded sample on the channel.
    Forward(u64),
    /// Close the connection in both directions and stop.
    Shutdown,
    /// Report the failure and read again; nothing is forwarded.
    Skip,
}

/// The stage's decision for each outcome of a read.
pub open spec fn action_on(outcome: ReadOutcome) -> IngestAction {
    match outcome {
        ReadOutcome::Record(bytes) => IngestAction::Forward(le_value(bytes@) as u64),
        ReadOutcome::EndOfStream => IngestAction::Shutdown,
        ReadOutcome::Failed => IngestAction::Skip,
    }
}

/// Whether, and why, the stage stops after trying to forward a sample.
pub open spec fn exit_after_send(sent: Result<(), u64>) -> Option<StageExit> {
    match sent {
        Ok(_) => None,
        Err(_) => Some(StageExit::ChannelClosed),
    }
}

/// The ingestion stage's configuration: the sample type it decodes.
pub struct IngestionStage {
    sample_type: SampleType,
}

impl IngestionStage {
    /// The sample type that the stage decodes.
    pub closed spec fn spec_sample_type(&self) -> SampleType {
        self.sample_type
    }

    /// A stage that decodes records of `sample_type`.
    pub fn new(sample_type: SampleType) -> (stage: IngestionStage)
        ensures
            stage.spec_sample_type() == sample_type,
    {
        IngestionStage { sample_type }
    }

    /// The number of bytes to read for one record.
    pub fn record_width(&self) -> (w: usize)
        ensures
            w == self.spec_sample_type().spec_width(),
    {
        self.sample_type.width()
    }

    /// Decides what to do about a read. A delivered record is exactly one
    /// sample wide and is decoded whatever its bytes are.
    pub fn on_read(&self, outcome: &ReadOutcome) -> (action: IngestAction)
        requires
            outcome matches ReadOutcome::Record(bytes) ==> bytes@.len()
                == self.spec_sample_type().spec_width(),
        ensures
            action == action_on(*outcome),
    {
        match outcome {
            ReadOutcome::Record(bytes) => IngestAction::Forward(decode(bytes.as_slice())),
            ReadOutcome::EndOfStream => IngestAction::Shutdown,
            ReadOutcome::Failed => IngestAction::Skip,
        }
    }

    /// Decides whether the stage goes on after trying to forward a sample: a
    /// refused send means the receiving stage is gone, which ends this stage.
    pub fn after_send(sent: Result<(), u64>) -> (exit: Option<StageExit>)
        ensures
            exit == exit_after_send(sent),
    {
        match sent {
            Ok(_) => None,
            Err(_) => Some(StageExit::ChannelClosed),
        }
    }

    /// One iteration of the stage, given what the read yielded. The result
    /// is the reason to stop, if there is one. An orderly end of the source
    /// always stops the stage, a failed read never does, and a record stops it
    /// only if the channel refuses the sample.
    pub fn step(&self, outcome: &ReadOutcome, tx: &Sender<u64>) -> (exit: Option<StageExit>)
        requires
            outcome matches ReadOutcome::Record(bytes) ==> bytes@.len()
                == self.spec_sample_type().spec_width(),
        ensures
            outcome is EndOfStream ==> exit == Some(StageExit::EndOfStream),
            outcome is Failed ==> exit is None,
            outcome is Record ==> exit is None || exit == Some(StageExit::ChannelClosed),
    {
        match self.on_read(outcome) {
            IngestAction::Forward(sample) => Self::after_send(send(tx, sample)),
            IngestAction::Shutdown => Some(StageExit::EndOfStream),
            IngestAction::Skip => None,
        }
    }
}

} // verus!
