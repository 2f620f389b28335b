use vstd::prelude::*;

verus! {

/// Why a record could not be created.
#[derive(Clone, Copy, Debug, PartialEq, Eq, Structural)]
pub enum RecordError {
    /// A slot already exists at the derived address.
    AlreadyExists,
    /// The authority cannot pay the deposit for the new slot.
    InsufficientResources,
    /// No bump seed yields an address off the signing curve.
    DerivationExhausted,
    /// The request is not signed by the authority it names.
    Unauthenticated,
}

} // verus!
