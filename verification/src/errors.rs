//! The error taxonomy of the client: every fatal outcome of the
//! collection, authentication and identity stages is one of these.

use vstd::prelude::*;

verus! {

/// A fatal failure of one stage of the run.
#[derive(Clone, Copy, Debug, PartialEq, Eq, Structural)]
pub enum Failure {
    /// The interactive input stream was unreadable or closed.
    IoFailure,
    /// A network call failed at the transport level.
    NetworkFailure,
    /// A response body did not match the expected schema.
    DecodeFailure,
    /// A list that must hold at least one record was empty.
    IndexFailure,
}

impl Failure {
    /// A human-readable message for the operator; the orchestrator
    /// prints this before exiting non-zero.
    pub fn describe(&self) -> (r: &'static str)
        ensures
            self is IoFailure ==> r@ == "could not read interactive input"@,
            self is NetworkFailure ==> r@ == "network request failed"@,
            self is DecodeFailure ==> r@ == "response did not match the expected schema"@,
            self is IndexFailure ==> r@ == "expected at least one account record"@,
    {
        match self {
            Failure::IoFailure => "could not read interactive input",
            Failure::NetworkFailure => "network request failed",
            Failure::DecodeFailure => "response did not match the expected schema",
            Failure::IndexFailure => "expected at least one account record",
        }
    }
}

} // verus!
