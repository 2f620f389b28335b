//! The two instructions: each derives its record's address, creates the
//! slot there if none exists and the authority can pay, and fills it.
use vstd::prelude::*;
use crate::address::{RecordKind, derive_address, expected_derivation};
use crate::error::RecordError;
use crate::ledger::{Ledger, LedgerView, SLOT_OVERHEAD, deposit_for};
use crate::record::{
    EvaluationRecord, EvaluationView, VoteRecord, VoteView, Slot, SlotView, EVALUATION_SPACE,
    VOTE_SPACE, truncate_name, truncated_name,
};

verus! {

/// The account that signs a request and pays for the new slot.
#[derive(Clone, Copy, Debug)]
pub struct Signer {
    pub key: [u8; 32],
    pub is_signer: bool,
    pub lamports: u64,
}

/// A signer as mathematical values.
pub struct SignerView {
    pub key: Seq<u8>,
    pub is_signer: bool,
    pub lamports: u64,
}

impl View for Signer {
    type V = SignerView;

    open spec fn view(&self) -> SignerView {
        SignerView { key: self.key@, is_signer: self.is_signer, lamports: self.lamports }
    }
}

/// The accounts of a request to record an evaluation.
#[derive(Clone, Copy, Debug)]
pub struct RecordEvaluation {
    pub authority: Signer,
}

/// The accounts of a request to record a vote.
#[derive(Clone, Copy, Debug)]
pub struct RecordVote {
    pub authority: Signer,
}

/// Where a new record of `kind` goes, with its bump and the deposit that
/// the signer pays, or why it cannot be created: an unsigned request, no
/// address, an occupied address, or a deposit beyond the signer's balance,
/// checked in that order.
pub open spec fn admission(
    ledger: LedgerView,
    signer: SignerView,
    kind: RecordKind,
    project_id: u32,
    space: u64,
) -> Result<(Seq<u8>, u8, u64), RecordError> {
    if !signer.is_signer {
        Err(RecordError::Unauthenticated)
    } else {
        match expected_derivation(kind, signer.key, project_id, ledger.program_id) {
            Err(e) => Err(e),
            Ok(found) => if ledger.slots.contains_key(found.0) {
                Err(RecordError::AlreadyExists)
            } else if deposit_for(space, ledger.deposit_per_byte) > signer.lamports {
                Err(RecordError::InsufficientResources)
            } else {
                Ok((found.0, found.1, deposit_for(space, ledger.deposit_per_byte) as u64))
            },
        }
    }
}

/// The store and signer after a request: on admission the slot is added
/// and the deposit taken; otherwise both stay as they were.
pub open spec fn creation_outcome(
    ledger: LedgerView,
    signer: SignerView,
    admitted: Result<(Seq<u8>, u8, u64), RecordError>,
    slot: SlotView,
) -> (Result<(), RecordError>, LedgerView, SignerView) {
    match admitted {
        Err(e) => (Err(e), ledger, signer),
        Ok(found) => (
            Ok(()),
            LedgerView { slots: ledger.slots.insert(found.0, slot), ..ledger },
            SignerView { lamports: (signer.lamports - found.2) as u64, ..signer },
        ),
    }
}

/// The evaluation that a request writes, given its bump.
pub open spec fn evaluation_of(
    signer: SignerView,
    now: i64,
    project_id: u32,
    project_name: Seq<char>,
    score: u16,
    confidence: u16,
    reasoning_hash: Seq<u8>,
    bump: u8,
) -> EvaluationView {
    EvaluationView {
        authority: signer.key,
        project_id,
        project_name: truncated_name(project_name),
        score,
        confidence,
        reasoning_hash,
        timestamp: now,
        bump,
    }
}

/// The vote that a request writes, given its bump.
pub open spec fn vote_of(
    signer: SignerView,
    now: i64,
    project_id: u32,
    vote_type: u8,
    reasoning_hash: Seq<u8>,
    bump: u8,
) -> VoteView {
    VoteView { authority: signer.key, project_id, vote_type, reasoning_hash, timestamp: now, bump }
}

/// What recording an evaluation does to the store and the signer.
pub open spec fn evaluation_outcome(
    ledger: LedgerView,
    signer: SignerView,
    now: i64,
    project_id: u32,
    project_name: Seq<char>,
    score: u16,
    confidence: u16,
    reasoning_hash: Seq<u8>,
) -> (Result<(), RecordError>, LedgerView, SignerView) {
    let admitted = admission(ledger, signer, RecordKind::Evaluation, project_id, EVALUATION_SPACE);
    let bump = match admitted {
        Ok(found) => found.1,
        Err(_) => 0,
    };
    creation_outcome(
        ledger,
        signer,
        admitted,
        SlotView::Evaluation(
            evaluation_of(signer, now, project_id, project_name, score, confidence, reasoning_hash, bump),
        ),
    )
}

/// What recording a vote does to the store and the signer.
pub open spec fn vote_outcome(
    ledger: LedgerView,
    signer: SignerView,
    now: i64,
    project_id: u32,
    vote_type: u8,
    reasoning_hash: Seq<u8>,
) -> (Result<(), RecordError>, LedgerView, SignerView) {
    let admitted = admission(ledger, signer, RecordKind::Vote, project_id, VOTE_SPACE);
    let bump = match admitted {
        Ok(found) => found.1,
        Err(_) => 0,
    };
    creation_outcome(
        ledger,
        signer,
        admitted,
        SlotView::Vote(vote_of(signer, now, project_id, vote_type, reasoning_hash, bump)),
    )
}

/// The deposit for a slot of `space` bytes, or none where it exceeds
/// `lamports`.
fn affordable_deposit(space: u64, deposit_per_byte: u64, lamports: u64) -> (r: Option<u64>)
    requires
        space <= 1024,
    ensures
        match r {
            Some(d) => d == deposit_for(space, deposit_per_byte) && d <= lamports,
            None => deposit_for(space, deposit_per_byte) > lamports,
        },
{
    let bytes = SLOT_OVERHEAD + space;
    match bytes.checked_mul(deposit_per_byte) {
        Some(d) => if d <= lamports {
            Some(d)
        } else {
            None
        },
        None => None,
    }
}

impl Ledger {
    /// Runs the checks of a request, in the order that `admission` gives.
    fn check_request(&self, signer: &Signer, kind: RecordKind, project_id: u32, space: u64) -> (r: Result<([u8; 32], u8, u64), RecordError>)
        requires
            self.wf(),
            space <= 1024,
        ensures
            match r {
                Ok(found) => admission(self@, signer@, kind, project_id, space) == Ok::<(Seq<u8>, u8, u64), RecordError>((found.0@, found.1, found.2)),
                Err(e) => admission(self@, signer@, kind, project_id, space) == Err::<(Seq<u8>, u8, u64), RecordError>(e),
            },
    {
        if !signer.is_signer {
            return Err(RecordError::Unauthenticated);
        }
        let (address, bump) = match derive_address(kind, &signer.key, project_id, self.program_id()) {
            Ok(found) => found,
            Err(e) => return Err(e),
        };
        if self.contains(&address) {
            return Err(RecordError::AlreadyExists);
        }
        match affordable_deposit(space, self.deposit_per_byte(), signer.lamports) {
            Some(d) => Ok((address, bump, d)),
            None => Err(RecordError::InsufficientResources),
        }
    }
}

/// Records an evaluation of project `project_id` by the signing authority,
/// at the address derived from "eval", the authority and the project id.
/// The name is cut to at most 64 bytes; the deposit is taken from the
/// authority. Fails without effect if the address is taken.
pub fn record_evaluation(
    ctx: &mut RecordEvaluation,
    ledger: &mut Ledger,
    now: i64,
    project_id: u32,
    project_name: String,
    score: u16,
    confidence: u16,
    reasoning_hash: [u8; 32],
) -> (r: Result<(), RecordError>)
    requires
        old(ledger).wf(),
    ensures
        final(ledger).wf(),
        (r, final(ledger)@, final(ctx).authority@) == evaluation_outcome(
            old(ledger)@,
            old(ctx).authority@,
            now,
            project_id,
            project_name@,
            score,
            confidence,
            reasoning_hash@,
        ),
{
    let (address, bump, deposit) = match ledger.check_request(&ctx.authority, RecordKind::Evaluation, project_id, EVALUATION_SPACE) {
        Ok(found) => found,
        Err(e) => return Err(e),
    };
    let name = truncate_name(project_name.as_str());
    let record = EvaluationRecord {
        authority: ctx.authority.key,
        project_id,
        project_name: name,
        score,
        confidence,
        reasoning_hash,
        timestamp: now,
        bump,
    };
    ledger.create_at(address, Slot::Evaluation(record));
    ctx.authority.lamports = ctx.authority.lamports - deposit;
    Ok(())
}

/// Records a vote of type `vote_type` on project `project_id` by the
/// signing authority, at the address derived from "vote", the authority
/// and the project id. Fails without effect if the address is taken.
pub fn record_vote(
    ctx: &mut RecordVote,
    ledger: &mut Ledger,
    now: i64,
    project_id: u32,
    vote_type: u8,
    reasoning_hash: [u8; 32],
) -> (r: Result<(), RecordError>)
    requires
        old(ledger).wf(),
    ensures
        final(ledger).wf(),
        (r, final(ledger)@, final(ctx).authority@) == vote_outcome(
            old(ledger)@,
            old(ctx).authority@,
            now,
            project_id,
            vote_type,
            reasoning_hash@,
        ),
{
    let (address, bump, deposit) = match ledger.check_request(&ctx.authority, RecordKind::Vote, project_id, VOTE_SPACE) {
        Ok(found) => found,
        Err(e) => return Err(e),
    };
    let record = VoteRecord {
        authority: ctx.authority.key,
        project_id,
        vote_type,
        reasoning_hash,
        timestamp: now,
        bump,
    };
    ledger.create_at(address, Slot::Vote(record));
    ctx.authority.lamports = ctx.authority.lamports - deposit;
    Ok(())
}

} // verus!
