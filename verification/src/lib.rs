//! The core of a small audio engine for a digital audio workstation: a
//! greeting, an addition, and a processor that passes sample buffers
//! through and lays out sine waves.

use vstd::prelude::*;
use vstd::string::StringExecFns;

pub mod binary32;
pub mod error;
pub mod processor;
pub mod rounding;

pub use error::InvalidConfig;
pub use processor::AudioProcessor;

verus! {

/// The greeting for `name`: "Hello, ", the name, and an exclamation mark.
pub open spec fn greeting(name: Seq<char>) -> Seq<char> {
    "Hello, "@ + name + "!"@
}

/// Composes the greeting that the host shows to `name`.
pub fn greet(name: &str) -> (message: String)
    ensures
        message@ == greeting(name@),
{
    String::from_str("Hello, ").concat(name).concat("!")
}

/// Adds two integers whose sum fits in an `i32`.
pub fn add(a: i32, b: i32) -> (sum: i32)
    requires
        i32::MIN <= a + b <= i32::MAX,
    ensures
        sum == a + b,
{
    a + b
}

} // verus!
