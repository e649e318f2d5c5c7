//! Errors in how a rubric or a set of criteria is configured.
use vstd::prelude::*;

verus! {

/// A configuration error: the rubric or the criteria cannot be trusted to grade.
/// A program that gets one should report it and stop.
#[derive(Debug, PartialEq, Eq)]
pub enum ConfigError {
    /// No criterion has the stub that was asked for.
    MissingStub(String),
    /// No check is registered under the name a rubric entry refers to.
    UnknownFunc(String),
    /// A rubric entry's worth does not fit a criterion's points.
    WorthOutOfRange(String),
    /// A criterion was built without a worth.
    MissingWorth(String),
}

} // verus!
