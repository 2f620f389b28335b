//! The two record kinds and the bound on a stored project name.
use vstd::prelude::*;
use vstd::utf8::*;
use vstd::string::StringSliceAdditionalSpecFns;

verus! {

broadcast use encode_utf8_valid_utf8, encode_utf8_decode_utf8;

/// The most bytes of a project name that a record keeps.
pub const MAX_NAME_BYTES: usize = 64;

/// Bytes of a stored evaluation: discriminator, then the fields at their
/// widest (the name with its length prefix and 64 bytes).
pub const EVALUATION_SPACE: u64 = 157;

/// Bytes of a stored vote: discriminator, then the fields.
pub const VOTE_SPACE: u64 = 86;

/// The largest char boundary of `bytes` at or below `i`.
pub open spec fn boundary_at_or_below(bytes: Seq<u8>, i: int) -> int
    decreases i,
{
    if i <= 0 {
        0
    } else if is_char_boundary(bytes, i) {
        i
    } else {
        boundary_at_or_below(bytes, i - 1)
    }
}

/// How many leading bytes of the encoding of `name` a record keeps: all of
/// them up to 64, else the longest run of whole characters within 64.
pub open spec fn kept_name_bytes(name: Seq<char>) -> int {
    let bytes = encode_utf8(name);
    if bytes.len() <= MAX_NAME_BYTES {
        bytes.len() as int
    } else {
        boundary_at_or_below(bytes, MAX_NAME_BYTES as int)
    }
}

/// The name that a record keeps of `name`.
pub open spec fn truncated_name(name: Seq<char>) -> Seq<char> {
    decode_utf8(encode_utf8(name).subrange(0, kept_name_bytes(name)))
}

proof fn lemma_boundary_at_or_below(bytes: Seq<u8>, i: int)
    requires
        valid_utf8(bytes),
    ensures
        0 <= boundary_at_or_below(bytes, i) <= if i < 0 { 0 } else { i },
        is_char_boundary(bytes, boundary_at_or_below(bytes, i)),
    decreases i,
{
    if i > 0 && !is_char_boundary(bytes, i) {
        lemma_boundary_at_or_below(bytes, i - 1);
    }
}

/// The name that a record keeps is at most 64 bytes long.
pub proof fn lemma_truncated_name_fits(name: Seq<char>)
    ensures
        encode_utf8(truncated_name(name)).len() <= MAX_NAME_BYTES,
        encode_utf8(truncated_name(name)) == encode_utf8(name).subrange(0, kept_name_bytes(name)),
{
    let bytes = encode_utf8(name);
    is_char_boundary_start_end_of_seq(bytes);
    lemma_boundary_at_or_below(bytes, MAX_NAME_BYTES as int);
    let k = kept_name_bytes(name);
    valid_utf8_split(bytes, k);
    decode_utf8_encode_utf8(bytes.subrange(0, k));
}

/// Keeps at most the first 64 bytes of `name`, cut at a char boundary.
pub fn truncate_name(name: &str) -> (r: String)
    ensures
        r@ == truncated_name(name@),
        encode_utf8(r@) == encode_utf8(name@).subrange(0, kept_name_bytes(name@)),
        encode_utf8(r@).len() <= MAX_NAME_BYTES,
        encode_utf8(name@).len() <= MAX_NAME_BYTES ==> r@ == name@,
{
    let ghost bytes = name.spec_bytes();
    proof {
        is_char_boundary_start_end_of_seq(bytes);
        lemma_boundary_at_or_below(bytes, MAX_NAME_BYTES as int);
    }
    let len = name.as_bytes().len();
    let mut cut: usize = if len <= MAX_NAME_BYTES {
        len
    } else {
        MAX_NAME_BYTES
    };
    while !name.is_char_boundary(cut)
        invariant
            bytes == name.spec_bytes(),
            valid_utf8(bytes),
            cut <= len,
            len == bytes.len(),
            is_char_boundary(bytes, bytes.len() as int),
            len > MAX_NAME_BYTES ==> boundary_at_or_below(bytes, cut as int) == boundary_at_or_below(
                bytes,
                MAX_NAME_BYTES as int,
            ),
            len <= MAX_NAME_BYTES ==> cut == len,
            cut <= MAX_NAME_BYTES,
        decreases cut,
    {
        cut = cut - 1;
    }
    assert(cut as int == kept_name_bytes(name@));
    let (head, _) = name.split_at(cut);
    let r = head.to_owned();
    proof {
        assert(encode_utf8(r@) == bytes.subrange(0, cut as int));
        if len <= MAX_NAME_BYTES {
            assert(bytes.subrange(0, cut as int) =~= bytes);
            assert(decode_utf8(encode_utf8(r@)) == decode_utf8(encode_utf8(name@)));
        }
    }
    r
}

/// An evaluation of a project, kept once and never changed.
pub struct EvaluationRecord {
    pub authority: [u8; 32],
    pub project_id: u32,
    pub project_name: String,
    pub score: u16,
    pub confidence: u16,
    pub reasoning_hash: [u8; 32],
    pub timestamp: i64,
    pub bump: u8,
}

/// The fields of an evaluation as mathematical values.
pub struct EvaluationView {
    pub authority: Seq<u8>,
    pub project_id: u32,
    pub project_name: Seq<char>,
    pub score: u16,
    pub confidence: u16,
    pub reasoning_hash: Seq<u8>,
    pub timestamp: i64,
    pub bump: u8,
}

impl View for EvaluationRecord {
    type V = EvaluationView;

    open spec fn view(&self) -> EvaluationView {
        EvaluationView {
            authority: self.authority@,
            project_id: self.project_id,
            project_name: self.project_name@,
            score: self.score,
            confidence: self.confidence,
            reasoning_hash: self.reasoning_hash@,
            timestamp: self.timestamp,
            bump: self.bump,
        }
    }
}

impl EvaluationView {
    /// The stored name fits the 64 bytes that the layout reserves.
    pub open spec fn wf(&self) -> bool {
        encode_utf8(self.project_name).len() <= MAX_NAME_BYTES
    }
}

/// A vote on a project, kept once and never changed.
pub struct VoteRecord {
    pub authority: [u8; 32],
    pub project_id: u32,
    pub vote_type: u8,
    pub reasoning_hash: [u8; 32],
    pub timestamp: i64,
    pub bump: u8,
}

/// The fields of a vote as mathematical values.
pub struct VoteView {
    pub authority: Seq<u8>,
    pub project_id: u32,
    pub vote_type: u8,
    pub reasoning_hash: Seq<u8>,
    pub timestamp: i64,
    pub bump: u8,
}

impl View for VoteRecord {
    type V = VoteView;

    open spec fn view(&self) -> VoteView {
        VoteView {
            authority: self.authority@,
            project_id: self.project_id,
            vote_type: self.vote_type,
            reasoning_hash: self.reasoning_hash@,
            timestamp: self.timestamp,
            bump: self.bump,
        }
    }
}

/// What a slot of the store holds.
pub enum Slot {
    Evaluation(EvaluationRecord),
    Vote(VoteRecord),
}

/// A slot's content as a mathematical value.
pub enum SlotView {
    Evaluation(EvaluationView),
    Vote(VoteView),
}

impl View for Slot {
    type V = SlotView;

    open spec fn view(&self) -> SlotView {
        match self {
            Slot::Evaluation(e) => SlotView::Evaluation(e@),
            Slot::Vote(v) => SlotView::Vote(v@),
        }
    }
}

impl SlotView {
    /// An evaluation's name fits its reserved bytes.
    pub open spec fn wf(&self) -> bool {
        match self {
            SlotView::Evaluation(e) => e.wf(),
            SlotView::Vote(_) => true,
        }
    }
}

} // verus!
