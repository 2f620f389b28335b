//! The byte layout of a stored record: an 8-byte discriminator that tags
//! the kind, then the fields in declaration order, integers little-endian,
//! the name as a 4-byte length and its UTF-8 bytes; zeros fill the slot.
use vstd::prelude::*;
use vstd::utf8::*;
use vstd::slice::slice_subrange;
use vstd::string::StringSliceAdditionalSpecFns;
use crate::ledger::Ledger;
use crate::record::{
    Slot, SlotView, EvaluationRecord, EvaluationView, VoteRecord, VoteView, EVALUATION_SPACE,
    VOTE_SPACE,
};

verus! {

broadcast use encode_utf8_valid_utf8, encode_utf8_decode_utf8;

/// The low `n` bytes of `x`, least significant first.
pub open spec fn le(x: nat, n: nat) -> Seq<u8>
    decreases n,
{
    if n == 0 {
        Seq::empty()
    } else {
        seq![(x % 256) as u8] + le(x / 256, (n - 1) as nat)
    }
}

/// The number that little-endian bytes stand for.
pub open spec fn le_value(s: Seq<u8>) -> nat
    decreases s.len(),
{
    if s.len() == 0 {
        0
    } else {
        s[0] as nat + 256 * le_value(s.drop_first())
    }
}

/// 256 to the power `n`: the numbers that `n` bytes can hold.
pub open spec fn byte_range(n: nat) -> nat
    decreases n,
{
    if n == 0 {
        1
    } else {
        256 * byte_range((n - 1) as nat)
    }
}

/// The two's-complement bits of a 64-bit signed integer.
pub open spec fn i64_bits(t: i64) -> nat {
    if t >= 0 {
        t as nat
    } else {
        (t + 0x1_0000_0000_0000_0000) as nat
    }
}

/// The 64-bit signed integer whose two's-complement bits are `v`.
pub open spec fn i64_of_bits(v: nat) -> i64 {
    if v < 0x8000_0000_0000_0000 {
        v as i64
    } else {
        (v - 0x1_0000_0000_0000_0000) as i64
    }
}

/// The discriminator of an evaluation slot.
pub open spec fn evaluation_tag() -> Seq<u8> {
    seq![11u8, 75u8, 86u8, 83u8, 213u8, 40u8, 43u8, 130u8]
}

/// The discriminator of a vote slot.
pub open spec fn vote_tag() -> Seq<u8> {
    seq![112u8, 9u8, 123u8, 165u8, 234u8, 9u8, 157u8, 167u8]
}

/// An evaluation that the layout can hold: 32-byte keys and hash, and a
/// name whose length fits its 4-byte prefix.
pub open spec fn evaluation_encodable(e: EvaluationView) -> bool {
    &&& e.authority.len() == 32
    &&& e.reasoning_hash.len() == 32
    &&& encode_utf8(e.project_name).len() < byte_range(4)
}

/// A vote that the layout can hold: 32-byte key and hash.
pub open spec fn vote_encodable(v: VoteView) -> bool {
    &&& v.authority.len() == 32
    &&& v.reasoning_hash.len() == 32
}

/// The bytes that an evaluation is written as.
pub open spec fn evaluation_image(e: EvaluationView) -> Seq<u8> {
    let name = encode_utf8(e.project_name);
    evaluation_tag() + e.authority + le(e.project_id as nat, 4) + le(name.len(), 4) + name + le(
        e.score as nat,
        2,
    ) + le(e.confidence as nat, 2) + e.reasoning_hash + le(i64_bits(e.timestamp), 8) + seq![e.bump]
}

/// The bytes that a vote is written as.
pub open spec fn vote_image(v: VoteView) -> Seq<u8> {
    vote_tag() + v.authority + le(v.project_id as nat, 4) + seq![v.vote_type] + v.reasoning_hash
        + le(i64_bits(v.timestamp), 8) + seq![v.bump]
}

/// The evaluation that slot data holds, read field by field from the
/// start; none where the tag differs, the data ends early, or the name is
/// not UTF-8. Bytes after the record are not read.
pub open spec fn evaluation_in(d: Seq<u8>) -> Option<EvaluationView> {
    if d.len() < 48 || d.subrange(0, 8) != evaluation_tag() {
        None
    } else {
        let n = le_value(d.subrange(44, 48)) as int;
        let p = 48 + n;
        if d.len() < p + 45 || !valid_utf8(d.subrange(48, p)) {
            None
        } else {
            Some(
                EvaluationView {
                    authority: d.subrange(8, 40),
                    project_id: le_value(d.subrange(40, 44)) as u32,
                    project_name: decode_utf8(d.subrange(48, p)),
                    score: le_value(d.subrange(p, p + 2)) as u16,
                    confidence: le_value(d.subrange(p + 2, p + 4)) as u16,
                    reasoning_hash: d.subrange(p + 4, p + 36),
                    timestamp: i64_of_bits(le_value(d.subrange(p + 36, p + 44))),
                    bump: d[p + 44],
                },
            )
        }
    }
}

/// The vote that slot data holds; none where the tag differs or the data
/// ends early.
pub open spec fn vote_in(d: Seq<u8>) -> Option<VoteView> {
    if d.len() < 86 || d.subrange(0, 8) != vote_tag() {
        None
    } else {
        Some(
            VoteView {
                authority: d.subrange(8, 40),
                project_id: le_value(d.subrange(40, 44)) as u32,
                vote_type: d[44],
                reasoning_hash: d.subrange(45, 77),
                timestamp: i64_of_bits(le_value(d.subrange(77, 85))),
                bump: d[85],
            },
        )
    }
}

/// The data of the slot that holds a record.
pub open spec fn slot_data(s: SlotView) -> Seq<u8> {
    match s {
        SlotView::Evaluation(e) => padded(evaluation_image(e), EVALUATION_SPACE as nat),
        SlotView::Vote(v) => padded(vote_image(v), VOTE_SPACE as nat),
    }
}

/// The data of a slot of `space` bytes that holds `image`.
pub open spec fn padded(image: Seq<u8>, space: nat) -> Seq<u8> {
    image + Seq::new((space - image.len()) as nat, |i: int| 0u8)
}

pub proof fn lemma_le_round_trip(x: nat, n: nat)
    requires
        x < byte_range(n),
    ensures
        le(x, n).len() == n,
        le_value(le(x, n)) == x,
    decreases n,
{
    if n > 0 {
        assert(x / 256 < byte_range((n - 1) as nat)) by (nonlinear_arith)
            requires
                x < 256 * byte_range((n - 1) as nat),
        ;
        lemma_le_round_trip(x / 256, (n - 1) as nat);
        let s = le(x, n);
        assert(s.drop_first() =~= le(x / 256, (n - 1) as nat));
    }
}

pub proof fn lemma_le_value_bound(s: Seq<u8>)
    ensures
        le_value(s) < byte_range(s.len()),
    decreases s.len(),
{
    if s.len() > 0 {
        lemma_le_value_bound(s.drop_first());
        let a = s[0] as nat;
        let b = le_value(s.drop_first());
        let r = byte_range((s.len() - 1) as nat);
        assert(a + 256 * b < 256 * r) by (nonlinear_arith)
            requires
                a < 256,
                b < r,
        ;
    }
}

proof fn lemma_byte_ranges()
    ensures
        byte_range(1) == 0x100,
        byte_range(2) == 0x1_0000,
        byte_range(4) == 0x1_0000_0000,
        byte_range(8) == 0x1_0000_0000_0000_0000,
{
    reveal_with_fuel(byte_range, 9);
}

proof fn lemma_i64_bits(t: i64)
    ensures
        i64_bits(t) < byte_range(8),
        i64_of_bits(i64_bits(t)) == t,
{
    lemma_byte_ranges();
}

/// Reading back the data of a slot that an evaluation was written to gives
/// that evaluation.
pub proof fn lemma_evaluation_round_trip(e: EvaluationView, rest: Seq<u8>)
    requires
        evaluation_encodable(e),
    ensures
        evaluation_in(evaluation_image(e) + rest) == Some(e),
{
    lemma_byte_ranges();
    lemma_i64_bits(e.timestamp);
    let name = encode_utf8(e.project_name);
    let n = name.len() as int;
    lemma_le_round_trip(e.project_id as nat, 4);
    lemma_le_round_trip(name.len(), 4);
    lemma_le_round_trip(e.score as nat, 2);
    lemma_le_round_trip(e.confidence as nat, 2);
    lemma_le_round_trip(i64_bits(e.timestamp), 8);
    let d = evaluation_image(e) + rest;
    let p = 48 + n;
    assert(d.subrange(0, 8) =~= evaluation_tag());
    assert(d.subrange(8, 40) =~= e.authority);
    assert(d.subrange(40, 44) =~= le(e.project_id as nat, 4));
    assert(d.subrange(44, 48) =~= le(name.len(), 4));
    assert(d.subrange(48, p) =~= name);
    assert(d.subrange(p, p + 2) =~= le(e.score as nat, 2));
    assert(d.subrange(p + 2, p + 4) =~= le(e.confidence as nat, 2));
    assert(d.subrange(p + 4, p + 36) =~= e.reasoning_hash);
    assert(d.subrange(p + 36, p + 44) =~= le(i64_bits(e.timestamp), 8));
    assert(d[p + 44] == e.bump);
    assert(evaluation_in(d) =~= Some(e));
}

/// Reading back the data of a slot that a vote was written to gives that
/// vote.
pub proof fn lemma_vote_round_trip(v: VoteView, rest: Seq<u8>)
    requires
        vote_encodable(v),
    ensures
        vote_in(vote_image(v) + rest) == Some(v),
{
    lemma_byte_ranges();
    lemma_i64_bits(v.timestamp);
    lemma_le_round_trip(v.project_id as nat, 4);
    lemma_le_round_trip(i64_bits(v.timestamp), 8);
    let d = vote_image(v) + rest;
    assert(d.subrange(0, 8) =~= vote_tag());
    assert(d.subrange(8, 40) =~= v.authority);
    assert(d.subrange(40, 44) =~= le(v.project_id as nat, 4));
    assert(d[44] == v.vote_type);
    assert(d.subrange(45, 77) =~= v.reasoning_hash);
    assert(d.subrange(77, 85) =~= le(i64_bits(v.timestamp), 8));
    assert(d[85] == v.bump);
    assert(vote_in(d) =~= Some(v));
}

pub proof fn lemma_le_len(x: nat, n: nat)
    ensures
        le(x, n).len() == n,
    decreases n,
{
    if n > 0 {
        lemma_le_len(x / 256, (n - 1) as nat);
    }
}

proof fn lemma_byte_range_monotone(a: nat, b: nat)
    requires
        a <= b,
    ensures
        byte_range(a) <= byte_range(b),
    decreases b,
{
    if a < b {
        lemma_byte_range_monotone(a, (b - 1) as nat);
    }
}

/// Appends the low `n` bytes of `x`, least significant first.
fn push_le(out: &mut Vec<u8>, x: u64, n: usize)
    ensures
        final(out)@ == old(out)@ + le(x as nat, n as nat),
    decreases n,
{
    if n > 0 {
        let ghost before = out@;
        out.push((x % 256) as u8);
        push_le(out, x / 256, n - 1);
        assert(out@ =~= before + le(x as nat, n as nat));
    } else {
        assert(out@ =~= old(out)@ + le(x as nat, n as nat));
    }
}

/// The number that the `n` bytes of `d` at `pos` stand for, little-endian.
fn read_le(d: &[u8], pos: usize, n: usize) -> (r: u64)
    requires
        n <= 8,
        pos + n <= d@.len(),
    ensures
        r as nat == le_value(d@.subrange(pos as int, pos + n)),
        (r as nat) < byte_range(n as nat),
    decreases n,
{
    let len = d.len();
    if n == 0 {
        0
    } else {
        let rest = read_le(d, pos + 1, n - 1);
        proof {
            lemma_byte_ranges();
            lemma_byte_range_monotone(n as nat, 8);
            assert(d@.subrange(pos as int, pos + n).drop_first() =~= d@.subrange(pos + 1, pos + n));
        }
        d[pos] as u64 + 256 * rest
    }
}

/// Appends the bytes of `s`.
fn push_bytes(out: &mut Vec<u8>, s: &[u8])
    ensures
        final(out)@ == old(out)@ + s@,
{
    let ghost before = out@;
    let mut i: usize = 0;
    while i < s.len()
        invariant
            i <= s@.len(),
            out@ == before + s@.subrange(0, i as int),
        decreases s@.len() - i,
    {
        out.push(s[i]);
        i = i + 1;
        assert(out@ =~= before + s@.subrange(0, i as int));
    }
    assert(s@.subrange(0, i as int) =~= s@);
}

/// Appends zeros until `out` holds `space` bytes.
fn pad_to(out: &mut Vec<u8>, space: usize)
    requires
        old(out)@.len() <= space,
    ensures
        final(out)@ == padded(old(out)@, space as nat),
{
    let ghost before = out@;
    while out.len() < space
        invariant
            before.len() <= out@.len() <= space,
            out@ == before + Seq::new((out@.len() - before.len()) as nat, |i: int| 0u8),
        decreases space - out@.len(),
    {
        out.push(0u8);
        assert(out@ =~= before + Seq::new((out@.len() - before.len()) as nat, |i: int| 0u8));
    }
}

/// Whether the bytes of `d` at `pos` are those of `expected`.
fn bytes_at(d: &[u8], pos: usize, expected: &Vec<u8>) -> (r: bool)
    requires
        pos + expected@.len() <= d@.len(),
    ensures
        r == (d@.subrange(pos as int, pos + expected@.len()) == expected@),
{
    let len = d.len();
    let mut i: usize = 0;
    while i < expected.len()
        invariant
            len == d@.len(),
            i <= expected@.len(),
            pos + expected@.len() <= d@.len(),
            forall|j: int| 0 <= j < i ==> d@[pos + j] == expected@[j],
        decreases expected@.len() - i,
    {
        if d[pos + i] != expected[i] {
            assert(d@.subrange(pos as int, pos + expected@.len())[i as int] != expected@[i as int]);
            return false;
        }
        i = i + 1;
    }
    assert(d@.subrange(pos as int, pos + expected@.len()) =~= expected@);
    true
}

/// The 32 bytes of `d` at `pos`.
fn take32(d: &[u8], pos: usize) -> (r: [u8; 32])
    requires
        pos + 32 <= d@.len(),
    ensures
        r@ == d@.subrange(pos as int, pos + 32),
{
    let len = d.len();
    let mut r = [0u8; 32];
    let mut i: usize = 0;
    while i < 32
        invariant
            len == d@.len(),
            i <= 32,
            pos + 32 <= d@.len(),
            r@.len() == 32,
            forall|j: int| 0 <= j < i ==> r@[j] == d@[pos + j],
        decreases 32 - i,
    {
        r[i] = d[pos + i];
        i = i + 1;
    }
    assert(r@ =~= d@.subrange(pos as int, pos + 32));
    r
}

/// Relies on `std::str::from_utf8`: it accepts exactly the well-formed
/// UTF-8 byte strings, and then views the same bytes as text.
#[verifier::external_body]
fn utf8_text(b: &[u8]) -> (r: Option<&str>)
    ensures
        match r {
            Some(s) => valid_utf8(b@) && s.spec_bytes() == b@,
            None => !valid_utf8(b@),
        },
{
    std::str::from_utf8(b).ok()
}

/// The two's-complement bits of `t`.
fn i64_to_bits(t: i64) -> (r: u64)
    ensures
        r as nat == i64_bits(t),
{
    if t >= 0 {
        t as u64
    } else {
        u64::MAX - ((-(t + 1)) as u64)
    }
}

/// The 64-bit signed integer whose two's-complement bits are `v`.
fn i64_from_bits(v: u64) -> (r: i64)
    ensures
        r == i64_of_bits(v as nat),
{
    if v < 0x8000_0000_0000_0000 {
        v as i64
    } else {
        -((u64::MAX - v) as i64) - 1
    }
}

fn evaluation_tag_bytes() -> (r: Vec<u8>)
    ensures
        r@ == evaluation_tag(),
{
    let mut r: Vec<u8> = Vec::new();
    r.push(11u8);
    r.push(75u8);
    r.push(86u8);
    r.push(83u8);
    r.push(213u8);
    r.push(40u8);
    r.push(43u8);
    r.push(130u8);
    assert(r@ =~= evaluation_tag());
    r
}

fn vote_tag_bytes() -> (r: Vec<u8>)
    ensures
        r@ == vote_tag(),
{
    let mut r: Vec<u8> = Vec::new();
    r.push(112u8);
    r.push(9u8);
    r.push(123u8);
    r.push(165u8);
    r.push(234u8);
    r.push(9u8);
    r.push(157u8);
    r.push(167u8);
    assert(r@ =~= vote_tag());
    r
}

impl EvaluationRecord {
    /// The data of the slot that holds this evaluation.
    pub fn to_account_data(&self) -> (r: Vec<u8>)
        requires
            self@.wf(),
        ensures
            r@ == padded(evaluation_image(self@), EVALUATION_SPACE as nat),
            r@.len() == EVALUATION_SPACE,
    {
        let name = self.project_name.as_str().as_bytes();
        let mut out = evaluation_tag_bytes();
        push_bytes(&mut out, self.authority.as_slice());
        push_le(&mut out, self.project_id as u64, 4);
        push_le(&mut out, name.len() as u64, 4);
        push_bytes(&mut out, name);
        push_le(&mut out, self.score as u64, 2);
        push_le(&mut out, self.confidence as u64, 2);
        push_bytes(&mut out, self.reasoning_hash.as_slice());
        push_le(&mut out, i64_to_bits(self.timestamp), 8);
        out.push(self.bump);
        proof {
            lemma_le_len(self.project_id as nat, 4);
            lemma_le_len(name@.len(), 4);
            lemma_le_len(self.score as nat, 2);
            lemma_le_len(self.confidence as nat, 2);
            lemma_le_len(i64_bits(self.timestamp), 8);
        }
        assert(out@ =~= evaluation_image(self@));
        pad_to(&mut out, EVALUATION_SPACE as usize);
        out
    }

    /// The evaluation that slot data holds, if it holds one.
    pub fn from_account_data(d: &[u8]) -> (r: Option<EvaluationRecord>)
        ensures
            match r {
                Some(e) => evaluation_in(d@) == Some(e@),
                None => evaluation_in(d@) is None,
            },
    {
        if d.len() < 48 || !bytes_at(d, 0, &evaluation_tag_bytes()) {
            return None;
        }
        let n = read_le(d, 44, 4);
        proof {
            lemma_byte_ranges();
        }
        if (d.len() as u64) < 48 + n + 45 {
            return None;
        }
        let p: usize = 48 + n as usize;
        let text = match utf8_text(slice_subrange(d, 48, p)) {
            Some(t) => t,
            None => return None,
        };
        let project_name = text.to_owned();
        let authority = take32(d, 8);
        let project_id = read_le(d, 40, 4) as u32;
        let score = read_le(d, p, 2) as u16;
        let confidence = read_le(d, p + 2, 2) as u16;
        let reasoning_hash = take32(d, p + 4);
        let timestamp = i64_from_bits(read_le(d, p + 36, 8));
        let bump = d[p + 44];
        let e = EvaluationRecord {
            authority,
            project_id,
            project_name,
            score,
            confidence,
            reasoning_hash,
            timestamp,
            bump,
        };
        assert(evaluation_in(d@) =~= Some(e@));
        Some(e)
    }
}

impl VoteRecord {
    /// The data of the slot that holds this vote.
    pub fn to_account_data(&self) -> (r: Vec<u8>)
        ensures
            r@ == padded(vote_image(self@), VOTE_SPACE as nat),
            r@.len() == VOTE_SPACE,
    {
        let mut out = vote_tag_bytes();
        push_bytes(&mut out, self.authority.as_slice());
        push_le(&mut out, self.project_id as u64, 4);
        out.push(self.vote_type);
        push_bytes(&mut out, self.reasoning_hash.as_slice());
        push_le(&mut out, i64_to_bits(self.timestamp), 8);
        out.push(self.bump);
        proof {
            lemma_le_len(self.project_id as nat, 4);
            lemma_le_len(i64_bits(self.timestamp), 8);
        }
        assert(out@ =~= vote_image(self@));
        pad_to(&mut out, VOTE_SPACE as usize);
        out
    }

    /// The vote that slot data holds, if it holds one.
    pub fn from_account_data(d: &[u8]) -> (r: Option<VoteRecord>)
        ensures
            match r {
                Some(v) => vote_in(d@) == Some(v@),
                None => vote_in(d@) is None,
            },
    {
        if d.len() < 86 || !bytes_at(d, 0, &vote_tag_bytes()) {
            return None;
        }
        proof {
            lemma_byte_ranges();
        }
        let v = VoteRecord {
            authority: take32(d, 8),
            project_id: read_le(d, 40, 4) as u32,
            vote_type: d[44],
            reasoning_hash: take32(d, 45),
            timestamp: i64_from_bits(read_le(d, 77, 8)),
            bump: d[85],
        };
        assert(vote_in(d@) =~= Some(v@));
        Some(v)
    }
}

impl Slot {
    /// The data of this slot, as the host stores it.
    pub fn to_account_data(&self) -> (r: Vec<u8>)
        requires
            self@.wf(),
        ensures
            r@ == slot_data(self@),
    {
        match self {
            Slot::Evaluation(e) => e.to_account_data(),
            Slot::Vote(v) => v.to_account_data(),
        }
    }
}

impl Ledger {
    /// The data of the slot at `address`, if there is one.
    pub fn account_data(&self, address: &[u8; 32]) -> (r: Option<Vec<u8>>)
        requires
            self.wf(),
        ensures
            r.is_some() == self@.slots.contains_key(address@),
            r matches Some(d) ==> d@ == slot_data(self@.slots[address@]),
    {
        proof {
            self.lemma_slots_wf();
        }
        match self.get(address) {
            Some(s) => Some(s.to_account_data()),
            None => None,
        }
    }
}

} // verus!
