//! The error taxonomy of the evaluation layer.
//!
//! Every condition here is local, synchronous and non-retryable: each
//! operation is a pure function of its validated inputs, so retrying without
//! changing the operands has no value. No error is ever swallowed, since
//! mis-tracked scale or level state would corrupt results invisibly.

use vstd::prelude::*;

verus! {

/// An error surfaced by the evaluation layer.
#[derive(Clone, Copy, Debug, PartialEq, Eq, Structural)]
pub enum Error {
    /// Binary operands live at different modulus-chain levels where identity
    /// is required. Callers must mod-switch explicitly before combining.
    LevelMismatch,
    /// A rescale or modulus switch was requested past the bottom of the
    /// modulus chain.
    ChainExhausted,
    /// The supplied relinearization keys do not cover the operand's current
    /// size.
    InsufficientKeyMaterial,
    /// A rotation step count's absolute value reaches or exceeds half the
    /// encoded vector width.
    InvalidRotationStep,
    /// An operand is not in the representation state (coefficient or
    /// transform form) that the operation requires.
    RepresentationMismatch,
    /// A modulus-switch or rescale target does not lie below the value's
    /// current level.
    InvalidLevelTarget,
    /// The engine rejected the call: mismatched operand scales, invalid
    /// scheme parameters, or malformed serialized bytes.
    EngineFailure,
}

} // verus!
