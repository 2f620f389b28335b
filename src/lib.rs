//! An append-only store of evaluation and vote records, each kept at an
//! address derived from its kind, its authority and its project id.
use vstd::prelude::*;

pub mod address;
pub mod error;
pub mod record;
pub mod ledger;
pub mod program;
pub mod laws;
pub mod layout;

pub use address::{RecordKind, derive_address};
pub use error::RecordError;
pub use ledger::Ledger;
pub use program::{RecordEvaluation, RecordVote, Signer, record_evaluation, record_vote};
pub use record::{EvaluationRecord, Slot, VoteRecord, truncate_name};

verus! {

/// The id of the deployed program whose records the store holds.
pub const PROGRAM_ID: [u8; 32] = [
    74, 109, 249, 223, 189, 186, 201, 63, 38, 61, 16, 153, 244, 33, 6, 196, 61, 21, 114, 32, 128,
    103, 176, 152, 230, 77, 196, 87, 142, 178, 129, 23,
];

} // verus!
