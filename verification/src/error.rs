//! The one kind of failure: a configuration or a request that names a
//! value outside its range.

use vstd::prelude::*;
use vstd::string::StringExecFns;

verus! {

/// Why a processor could not be built, or a wave not generated.
#[derive(Clone, Copy, Debug, PartialEq, Eq, Structural)]
pub enum InvalidConfig {
    /// The sample rate does not compare greater than zero.
    SampleRateNotPositive,
    /// The buffer size is zero.
    ZeroBufferSize,
    /// The frequency compares less than zero.
    NegativeFrequency,
    /// The duration compares less than zero.
    NegativeDuration,
}

impl InvalidConfig {
    /// The sentence that `reason` returns.
    pub open spec fn spec_reason(self) -> Seq<char> {
        match self {
            InvalidConfig::SampleRateNotPositive => "sample rate must be greater than zero"@,
            InvalidConfig::ZeroBufferSize => "buffer size must be greater than zero"@,
            InvalidConfig::NegativeFrequency => "frequency must not be negative"@,
            InvalidConfig::NegativeDuration => "duration must not be negative"@,
        }
    }

    /// The reason in words, for the host to show.
    pub fn reason(&self) -> (text: String)
        ensures
            text@ == self.spec_reason(),
    {
        match self {
            InvalidConfig::SampleRateNotPositive => String::from_str(
                "sample rate must be greater than zero",
            ),
            InvalidConfig::ZeroBufferSize => String::from_str(
                "buffer size must be greater than zero",
            ),
            InvalidConfig::NegativeFrequency => String::from_str("frequency must not be negative"),
            InvalidConfig::NegativeDuration => String::from_str("duration must not be negative"),
        }
    }
}

} // verus!
