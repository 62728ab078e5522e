//! The ways in which a run can fail.

use vstd::prelude::*;

verus! {

/// Why a stage of the protocol stopped. Every kind ends the run; a proof
/// that does not verify is not among them, it is a result.
#[derive(Clone, Copy, Debug, PartialEq, Eq, Structural)]
pub enum Error {
    /// The source image could not be read or decoded.
    ImageDecodeError,
    /// The bytes of a pixel are wider than the field encoding takes.
    EncodingError,
    /// A value that the prover's statement needs was not supplied.
    AssignmentMissing,
    /// The trusted setup or the derivation of the keys failed.
    SetupError,
    /// The backend failed while it computed the proof.
    ProofGenerationError,
    /// The backend failed while it checked the proof.
    VerificationError,
    /// The thumbnail could not be written or read back.
    IoError,
}

} // verus!
