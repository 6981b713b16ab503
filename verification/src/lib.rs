//! Acquisition of a sensor's sample stream and its preparation for spectral
//! analysis.
//!
//! Samples arrive as fixed-width little-endian records, pass through an
//! unbounded channel into a bounded ring buffer, and leave the ring in
//! windows of a fixed size, ready for a forward Fourier transform.
//!
//! * [`codec`]: the wire format of a sample.
//! * [`config`]: the parameters that are fixed when a pipeline is made.
//! * [`ring`]: the bounded ring buffer.
//! * [`channel`]: the channel between ingestion and buffering.
//! * [`ingest`], [`buffering`], [`analysis`]: one iteration of each stage.
//! * [`pipeline`]: the ring and the two stages that share it.
//! * [`model`]: what holds of every run of a pipeline.
//! * [`status`]: why a stage stopped.
//! * [`adc`]: framing for the converter that produces the samples.
//! * [`audio`]: channel layout for audio output.
//!
//! Samples are handled as the bit patterns of their numeric representation,
//! so that every pattern, whatever number it stands for, is carried through
//! unchanged. Arithmetic on the numbers themselves, the transform included,
//! is left to the caller.

pub mod adc;
pub mod analysis;
pub mod audio;
pub mod buffering;
pub mod channel;
pub mod codec;
pub mod config;
pub mod ingest;
pub mod model;
pub mod pipeline;
pub mod ring;
pub mod status;
