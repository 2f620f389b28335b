//! Derivation of a record's address from its kind, authority and project id.
use vstd::prelude::*;
use anchor_lang::prelude::Pubkey;
use crate::error::RecordError;

verus! {

/// The two kinds of record; each has its own seed tag.
#[derive(Clone, Copy, Debug, PartialEq, Eq, Structural)]
pub enum RecordKind {
    Evaluation,
    Vote,
}

/// The seed tag of a kind: the ASCII bytes of "eval" or "vote".
pub open spec fn kind_tag(kind: RecordKind) -> Seq<u8> {
    match kind {
        RecordKind::Evaluation => seq![101u8, 118u8, 97u8, 108u8],
        RecordKind::Vote => seq![118u8, 111u8, 116u8, 101u8],
    }
}

/// The little-endian bytes of a 32-bit integer.
pub open spec fn le_bytes(x: u32) -> Seq<u8> {
    seq![
        (x % 256) as u8,
        (x / 256 % 256) as u8,
        (x / 65536 % 256) as u8,
        (x / 16777216) as u8,
    ]
}

/// The seeds that address a record: kind tag, authority, project id.
pub open spec fn record_seeds(kind: RecordKind, authority: Seq<u8>, project_id: u32) -> Seq<Seq<u8>> {
    seq![kind_tag(kind), authority, le_bytes(project_id)]
}

/// The program address found for some seeds under a program id, with its
/// bump seed, or none where no bump seed gives an address off the curve.
pub uninterp spec fn program_address(seeds: Seq<Seq<u8>>, program_id: Seq<u8>) -> Option<(Seq<u8>, u8)>;

/// The address and bump of the record of `kind` keyed by `authority` and
/// `project_id`, under the program `program_id`.
pub open spec fn derived_address(
    kind: RecordKind,
    authority: Seq<u8>,
    project_id: u32,
    program_id: Seq<u8>,
) -> Option<(Seq<u8>, u8)> {
    program_address(record_seeds(kind, authority, project_id), program_id)
}

/// What a derivation hands back, seen through the addresses' views.
pub open spec fn derivation_view(r: Result<([u8; 32], u8), RecordError>) -> Result<(Seq<u8>, u8), RecordError> {
    match r {
        Ok(found) => Ok((found.0@, found.1)),
        Err(e) => Err(e),
    }
}

/// What a derivation must hand back for a key.
pub open spec fn expected_derivation(
    kind: RecordKind,
    authority: Seq<u8>,
    project_id: u32,
    program_id: Seq<u8>,
) -> Result<(Seq<u8>, u8), RecordError> {
    match derived_address(kind, authority, project_id, program_id) {
        Some(found) => Ok(found),
        None => Err(RecordError::DerivationExhausted),
    }
}

/// The seed tag of `kind` as bytes.
pub fn tag_bytes(kind: RecordKind) -> (r: Vec<u8>)
    ensures
        r@ == kind_tag(kind),
{
    let mut r: Vec<u8> = Vec::new();
    match kind {
        RecordKind::Evaluation => {
            r.push(101u8);
            r.push(118u8);
            r.push(97u8);
            r.push(108u8);
        },
        RecordKind::Vote => {
            r.push(118u8);
            r.push(111u8);
            r.push(116u8);
            r.push(101u8);
        },
    }
    assert(r@ =~= kind_tag(kind));
    r
}

/// The little-endian encoding of `x`.
pub fn u32_le_bytes(x: u32) -> (r: Vec<u8>)
    ensures
        r@ == le_bytes(x),
{
    let mut r: Vec<u8> = Vec::new();
    r.push((x % 256) as u8);
    r.push((x / 256 % 256) as u8);
    r.push((x / 65536 % 256) as u8);
    r.push((x / 16777216) as u8);
    assert(r@ =~= le_bytes(x));
    r
}

/// Relies on `Pubkey::try_find_program_address` (solana-program, through
/// anchor-lang): it tries bump seeds from 255 downward and returns the first
/// address off the ed25519 curve, a function of the seeds and program id.
#[verifier::external_body]
fn find_program_address(
    tag: &Vec<u8>,
    authority: &[u8; 32],
    id_le: &Vec<u8>,
    program_id: &[u8; 32],
) -> (r: Option<([u8; 32], u8)>)
    ensures
        match r {
            Some(found) => program_address(seq![tag@, authority@, id_le@], program_id@) == Some(
                (found.0@, found.1),
            ),
            None => program_address(seq![tag@, authority@, id_le@], program_id@).is_none(),
        },
{
    let seeds: [&[u8]; 3] = [tag.as_slice(), authority.as_slice(), id_le.as_slice()];
    match Pubkey::try_find_program_address(&seeds, &Pubkey::new_from_array(*program_id)) {
        Some((key, bump)) => Some((key.to_bytes(), bump)),
        None => None,
    }
}

/// Derives the address and bump of the record of `kind` keyed by
/// `authority` and `project_id`.
pub fn derive_address(
    kind: RecordKind,
    authority: &[u8; 32],
    project_id: u32,
    program_id: &[u8; 32],
) -> (r: Result<([u8; 32], u8), RecordError>)
    ensures
        derivation_view(r) == expected_derivation(kind, authority@, project_id, program_id@),
{
    let tag = tag_bytes(kind);
    let id_le = u32_le_bytes(project_id);
    match find_program_address(&tag, authority, &id_le, program_id) {
        Some(found) => Ok(found),
        None => Err(RecordError::DerivationExhausted),
    }
}

} // verus!
