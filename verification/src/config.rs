//! Construction-time configuration of a pipeline.

use vstd::prelude::*;
use crate::codec::SampleType;

verus! {

/// The reference number of refusals after which a retry pass gives up.
pub const DEFAULT_RETRY_LIMIT: usize = 3;

/// Why a configuration was refused.
#[derive(Clone, Copy, Debug, PartialEq, Eq, Structural)]
pub enum ConfigError {
    /// The width of a record on the wire differs from the in-memory width of
    /// the sample type.
    WidthMismatch { wire_width: usize, sample_width: usize },
}

/// The fixed parameters of a pipeline. A value of this type has passed the
/// width check: every record on the wire is exactly one sample wide.
#[derive(Clone, Copy, Debug)]
pub struct PipelineConfig {
    sample_type: SampleType,
    capacity: usize,
    window: usize,
    retry_limit: usize,
}

impl PipelineConfig {
    /// The numeric representation of a sample.
    pub closed spec fn spec_sample_type(&self) -> SampleType {
        self.sample_type
    }

    /// The ring buffer's capacity, in samples.
    pub closed spec fn spec_capacity(&self) -> usize {
        self.capacity
    }

    /// The number of samples in a transform window.
    pub closed spec fn spec_window(&self) -> usize {
        self.window
    }

    /// The number of refusals after which a retry pass gives up.
    pub closed spec fn spec_retry_limit(&self) -> usize {
        self.retry_limit
    }

    /// Checks the parameters and fixes them. The configuration is refused
    /// exactly when the wire width differs from the sample type's width.
    pub fn new(
        sample_type: SampleType,
        wire_width: usize,
        capacity: usize,
        window: usize,
        retry_limit: usize,
    ) -> (r: Result<PipelineConfig, ConfigError>)
        ensures
            r is Ok <==> wire_width == sample_type.spec_width(),
            r matches Ok(config) ==> config.spec_sample_type() == sample_type
                && config.spec_capacity() == capacity && config.spec_window() == window
                && config.spec_retry_limit() == retry_limit,
            r matches Err(e) ==> e == (ConfigError::WidthMismatch {
                wire_width,
                sample_width: sample_type.spec_width(),
            }),
    {
        let sample_width = sample_type.width();
        if wire_width != sample_width {
            return Err(ConfigError::WidthMismatch { wire_width, sample_width });
        }
        Ok(PipelineConfig { sample_type, capacity, window, retry_limit })
    }

    /// The numeric representation of a sample.
    #[verifier::when_used_as_spec(spec_sample_type)]
    pub fn sample_type(&self) -> (t: SampleType)
        ensures
            t == self.spec_sample_type(),
    {
        self.sample_type
    }

    /// The width of one record on the wire, which is the sample type's width.
    pub fn wire_width(&self) -> (w: usize)
        ensures
            w == self.spec_sample_type().spec_width(),
    {
        self.sample_type.width()
    }

    /// The ring buffer's capacity, in samples.
    #[verifier::when_used_as_spec(spec_capacity)]
    pub fn capacity(&self) -> (c: usize)
        ensures
            c == self.spec_capacity(),
    {
        self.capacity
    }

    /// The number of samples in a transform window.
    #[verifier::when_used_as_spec(spec_window)]
    pub fn window(&self) -> (n: usize)
        ensures
            n == self.spec_window(),
    {
        self.window
    }

    /// The number of refusals after which a retry pass gives up.
    #[verifier::when_used_as_spec(spec_retry_limit)]
    pub fn retry_limit(&self) -> (limit: usize)
        ensures
            limit == self.spec_retry_limit(),
    {
        self.retry_limit
    }

    /// Whether the pipeline can ever emit a window: the ring must be able to
    /// hold one.
    pub fn can_emit(&self) -> (b: bool)
        ensures
            b == (self.spec_capacity() >= self.spec_window()),
    {
        self.capacity >= self.window
    }
}

} // verus!
