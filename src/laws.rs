//! Properties that hold of the store across calls.
use vstd::prelude::*;
use crate::address::{RecordKind, kind_tag, le_bytes, derivation_view, expected_derivation, derived_address};
use crate::error::RecordError;
use crate::ledger::LedgerView;
use crate::program::{SignerView, evaluation_outcome, vote_outcome, evaluation_of, vote_of};
use crate::record::{SlotView, EVALUATION_SPACE, VOTE_SPACE, lemma_truncated_name_fits};
use crate::layout::{
    slot_data, evaluation_in, vote_in, padded, evaluation_image, vote_image,
    lemma_evaluation_round_trip, lemma_vote_round_trip, byte_range,
};

verus! {

/// Deriving the address of one key twice gives the same address and bump.
pub proof fn lemma_derivation_deterministic(
    kind: RecordKind,
    authority: Seq<u8>,
    project_id: u32,
    program_id: Seq<u8>,
    r1: Result<([u8; 32], u8), RecordError>,
    r2: Result<([u8; 32], u8), RecordError>,
)
    requires
        derivation_view(r1) == expected_derivation(kind, authority, project_id, program_id),
        derivation_view(r2) == expected_derivation(kind, authority, project_id, program_id),
    ensures
        derivation_view(r1) == derivation_view(r2),
{
}

proof fn lemma_le_bytes_injective(x: u32, y: u32)
    requires
        le_bytes(x) == le_bytes(y),
    ensures
        x == y,
{
    let bx = le_bytes(x);
    let by_ = le_bytes(y);
    assert(bx[0] == by_[0] && bx[1] == by_[1] && bx[2] == by_[2] && bx[3] == by_[3]);
    assert(x % 256 == y % 256 && x / 256 % 256 == y / 256 % 256 && x / 65536 % 256 == y / 65536
        % 256 && x / 16777216 == y / 16777216);
    assert(x == y) by (bit_vector)
        requires
            x % 256u32 == y % 256u32,
            x / 256u32 % 256u32 == y / 256u32 % 256u32,
            x / 65536u32 % 256u32 == y / 65536u32 % 256u32,
            x / 16777216u32 == y / 16777216u32,
    ;
}

/// Two distinct keys (kind, 32-byte authority, project id) give distinct
/// seed bytes: the tag, the authority and the little-endian project id,
/// laid end to end. So their addresses are hashes of distinct inputs for
/// every bump, and the kinds of record never share an address input.
pub proof fn lemma_distinct_keys_distinct_seeds(
    kind1: RecordKind,
    authority1: Seq<u8>,
    project_id1: u32,
    kind2: RecordKind,
    authority2: Seq<u8>,
    project_id2: u32,
)
    requires
        authority1.len() == 32,
        authority2.len() == 32,
        kind1 != kind2 || authority1 != authority2 || project_id1 != project_id2,
    ensures
        kind_tag(kind1) + authority1 + le_bytes(project_id1) != kind_tag(kind2) + authority2
            + le_bytes(project_id2),
{
    let s1 = kind_tag(kind1) + authority1 + le_bytes(project_id1);
    let s2 = kind_tag(kind2) + authority2 + le_bytes(project_id2);
    if s1 == s2 {
        assert(s1.subrange(0, 4) =~= kind_tag(kind1));
        assert(s2.subrange(0, 4) =~= kind_tag(kind2));
        assert(s1.subrange(4, 36) =~= authority1);
        assert(s2.subrange(4, 36) =~= authority2);
        assert(s1.subrange(36, 40) =~= le_bytes(project_id1));
        assert(s2.subrange(36, 40) =~= le_bytes(project_id2));
        lemma_le_bytes_injective(project_id1, project_id2);
        if kind1 != kind2 {
            assert(kind_tag(kind1)[0] != kind_tag(kind2)[0]);
        }
    }
}

/// Once an evaluation is recorded for an authority and project, a second
/// request for the same key fails with `AlreadyExists` and changes nothing.
pub proof fn lemma_evaluation_at_most_once(
    ledger: LedgerView,
    signer: SignerView,
    now1: i64,
    now2: i64,
    project_id: u32,
    name1: Seq<char>,
    name2: Seq<char>,
    score1: u16,
    score2: u16,
    confidence1: u16,
    confidence2: u16,
    hash1: Seq<u8>,
    hash2: Seq<u8>,
)
    requires
        evaluation_outcome(ledger, signer, now1, project_id, name1, score1, confidence1, hash1).0
            is Ok,
    ensures
        ({
            let first = evaluation_outcome(
                ledger,
                signer,
                now1,
                project_id,
                name1,
                score1,
                confidence1,
                hash1,
            );
            evaluation_outcome(first.1, first.2, now2, project_id, name2, score2, confidence2, hash2)
                == (Err::<(), RecordError>(RecordError::AlreadyExists), first.1, first.2)
        }),
{
}

/// Once a vote is recorded for an authority and project, a second request
/// for the same key fails with `AlreadyExists` and changes nothing.
pub proof fn lemma_vote_at_most_once(
    ledger: LedgerView,
    signer: SignerView,
    now1: i64,
    now2: i64,
    project_id: u32,
    vote_type1: u8,
    vote_type2: u8,
    hash1: Seq<u8>,
    hash2: Seq<u8>,
)
    requires
        vote_outcome(ledger, signer, now1, project_id, vote_type1, hash1).0 is Ok,
    ensures
        ({
            let first = vote_outcome(ledger, signer, now1, project_id, vote_type1, hash1);
            vote_outcome(first.1, first.2, now2, project_id, vote_type2, hash2) == (
                Err::<(), RecordError>(RecordError::AlreadyExists),
                first.1,
                first.2,
            )
        }),
{
}

/// No request alters or removes a slot that exists: every slot of the
/// store before a request is in it, unchanged, after.
pub proof fn lemma_slots_immutable(
    ledger: LedgerView,
    signer: SignerView,
    now: i64,
    project_id: u32,
    project_name: Seq<char>,
    score: u16,
    confidence: u16,
    vote_type: u8,
    reasoning_hash: Seq<u8>,
)
    ensures
        ledger.slots.submap_of(
            evaluation_outcome(
                ledger,
                signer,
                now,
                project_id,
                project_name,
                score,
                confidence,
                reasoning_hash,
            ).1.slots,
        ),
        ledger.slots.submap_of(
            vote_outcome(ledger, signer, now, project_id, vote_type, reasoning_hash).1.slots,
        ),
{
}

/// A recorded evaluation sits at the address that anyone derives again
/// from "eval", its authority and its project id, with the bump found there.
pub proof fn lemma_evaluation_at_derived_address(
    ledger: LedgerView,
    signer: SignerView,
    now: i64,
    project_id: u32,
    project_name: Seq<char>,
    score: u16,
    confidence: u16,
    reasoning_hash: Seq<u8>,
)
    requires
        evaluation_outcome(ledger, signer, now, project_id, project_name, score, confidence, reasoning_hash).0 is Ok,
    ensures
        ({
            let after = evaluation_outcome(ledger, signer, now, project_id, project_name, score, confidence, reasoning_hash).1;
            let found = derived_address(RecordKind::Evaluation, signer.key, project_id, ledger.program_id);
            let pair = found->0;
            &&& found is Some
            &&& after.slots[pair.0] == SlotView::Evaluation(
                evaluation_of(signer, now, project_id, project_name, score, confidence, reasoning_hash, pair.1),
            )
        }),
{
}

/// A recorded vote sits at the address that anyone derives again from
/// "vote", its authority and its project id, with the bump found there.
pub proof fn lemma_vote_at_derived_address(
    ledger: LedgerView,
    signer: SignerView,
    now: i64,
    project_id: u32,
    vote_type: u8,
    reasoning_hash: Seq<u8>,
)
    requires
        vote_outcome(ledger, signer, now, project_id, vote_type, reasoning_hash).0 is Ok,
    ensures
        ({
            let after = vote_outcome(ledger, signer, now, project_id, vote_type, reasoning_hash).1;
            let found = derived_address(RecordKind::Vote, signer.key, project_id, ledger.program_id);
            let pair = found->0;
            &&& found is Some
            &&& after.slots[pair.0] == SlotView::Vote(
                vote_of(signer, now, project_id, vote_type, reasoning_hash, pair.1),
            )
        }),
{
}

/// The data of the slot that a recorded evaluation fills reads back as
/// that evaluation, every field as it was written.
pub proof fn lemma_evaluation_reads_back(
    ledger: LedgerView,
    signer: SignerView,
    now: i64,
    project_id: u32,
    project_name: Seq<char>,
    score: u16,
    confidence: u16,
    reasoning_hash: Seq<u8>,
)
    requires
        signer.key.len() == 32,
        reasoning_hash.len() == 32,
        evaluation_outcome(ledger, signer, now, project_id, project_name, score, confidence, reasoning_hash).0 is Ok,
    ensures
        ({
            let after = evaluation_outcome(ledger, signer, now, project_id, project_name, score, confidence, reasoning_hash).1;
            let pair = derived_address(RecordKind::Evaluation, signer.key, project_id, ledger.program_id)->0;
            evaluation_in(slot_data(after.slots[pair.0])) == Some(
                evaluation_of(signer, now, project_id, project_name, score, confidence, reasoning_hash, pair.1),
            )
        }),
{
    let pair = derived_address(RecordKind::Evaluation, signer.key, project_id, ledger.program_id)->0;
    let e = evaluation_of(signer, now, project_id, project_name, score, confidence, reasoning_hash, pair.1);
    lemma_truncated_name_fits(project_name);
    assert(byte_range(4) == 0x1_0000_0000) by {
        reveal_with_fuel(byte_range, 5);
    }
    let image = evaluation_image(e);
    let rest = Seq::new((EVALUATION_SPACE - image.len()) as nat, |i: int| 0u8);
    lemma_evaluation_round_trip(e, rest);
    assert(padded(image, EVALUATION_SPACE as nat) == image + rest);
}

/// The data of the slot that a recorded vote fills reads back as that
/// vote, every field as it was written.
pub proof fn lemma_vote_reads_back(
    ledger: LedgerView,
    signer: SignerView,
    now: i64,
    project_id: u32,
    vote_type: u8,
    reasoning_hash: Seq<u8>,
)
    requires
        signer.key.len() == 32,
        reasoning_hash.len() == 32,
        vote_outcome(ledger, signer, now, project_id, vote_type, reasoning_hash).0 is Ok,
    ensures
        ({
            let after = vote_outcome(ledger, signer, now, project_id, vote_type, reasoning_hash).1;
            let pair = derived_address(RecordKind::Vote, signer.key, project_id, ledger.program_id)->0;
            vote_in(slot_data(after.slots[pair.0])) == Some(
                vote_of(signer, now, project_id, vote_type, reasoning_hash, pair.1),
            )
        }),
{
    let pair = derived_address(RecordKind::Vote, signer.key, project_id, ledger.program_id)->0;
    let v = vote_of(signer, now, project_id, vote_type, reasoning_hash, pair.1);
    let image = vote_image(v);
    let rest = Seq::new((VOTE_SPACE - image.len()) as nat, |i: int| 0u8);
    lemma_vote_round_trip(v, rest);
    assert(padded(image, VOTE_SPACE as nat) == image + rest);
}

} // verus!
