//! The record store: slots at addresses, created once and never changed.
use vstd::prelude::*;
use crate::record::{Slot, SlotView, EvaluationRecord, VoteRecord};

verus! {

/// The bytes that the host counts for every slot beside its data.
pub const SLOT_OVERHEAD: u64 = 128;

/// The store as mathematical values.
pub struct LedgerView {
    pub program_id: Seq<u8>,
    pub deposit_per_byte: u64,
    pub slots: Map<Seq<u8>, SlotView>,
}

/// The store of one program: its id, the deposit that a slot costs per
/// byte, and the slots created so far, each at its own address.
pub struct Ledger {
    program_id: [u8; 32],
    deposit_per_byte: u64,
    addresses: Vec<[u8; 32]>,
    slots: Vec<Slot>,
}

/// The map from address to slot that the two parallel sequences hold.
pub open spec fn slot_map(addresses: Seq<[u8; 32]>, slots: Seq<Slot>) -> Map<Seq<u8>, SlotView>
    decreases addresses.len(),
{
    if addresses.len() == 0 || slots.len() == 0 {
        Map::empty()
    } else {
        slot_map(addresses.drop_last(), slots.drop_last()).insert(
            addresses.last()@,
            slots.last()@,
        )
    }
}

/// The deposit that a slot of `space` data bytes costs.
pub open spec fn deposit_for(space: u64, deposit_per_byte: u64) -> int {
    (SLOT_OVERHEAD + space) * deposit_per_byte
}

proof fn lemma_slot_map(addresses: Seq<[u8; 32]>, slots: Seq<Slot>)
    requires
        addresses.len() == slots.len(),
        forall|i: int, j: int|
            0 <= i < j < addresses.len() ==> addresses[i]@ != addresses[j]@,
    ensures
        forall|k: Seq<u8>|
            slot_map(addresses, slots).contains_key(k) <==> exists|i: int|
                0 <= i < addresses.len() && #[trigger] addresses[i]@ == k,
        forall|i: int|
            0 <= i < addresses.len() ==> slot_map(addresses, slots).contains_key(#[trigger] addresses[i]@)
                && slot_map(addresses, slots)[addresses[i]@] == slots[i]@,
        slot_map(addresses, slots).dom().finite(),
        slot_map(addresses, slots).len() == addresses.len(),
    decreases addresses.len(),
{
    if addresses.len() > 0 {
        let a = addresses.drop_last();
        let s = slots.drop_last();
        assert forall|i: int, j: int| 0 <= i < j < a.len() implies a[i]@ != a[j]@ by {
            assert(a[i] == addresses[i] && a[j] == addresses[j]);
        }
        lemma_slot_map(a, s);
        assert(slot_map(addresses, slots) == slot_map(a, s).insert(addresses.last()@, slots.last()@));
        assert(!slot_map(a, s).contains_key(addresses.last()@)) by {
            if slot_map(a, s).contains_key(addresses.last()@) {
                let i = choose|i: int| 0 <= i < a.len() && #[trigger] a[i]@ == addresses.last()@;
                assert(a[i] == addresses[i]);
            }
        }
        assert forall|k: Seq<u8>|
            slot_map(addresses, slots).contains_key(k) implies exists|i: int|
                0 <= i < addresses.len() && #[trigger] addresses[i]@ == k by {
            if k != addresses.last()@ {
                assert(slot_map(a, s).contains_key(k));
                let i = choose|i: int| 0 <= i < a.len() && #[trigger] a[i]@ == k;
                assert(a[i] == addresses[i]);
            } else {
                assert(addresses[addresses.len() - 1]@ == k);
            }
        }
        assert forall|i: int|
            0 <= i < addresses.len() implies slot_map(addresses, slots).contains_key(
                #[trigger] addresses[i]@,
            ) && slot_map(addresses, slots)[addresses[i]@] == slots[i]@ by {
            if i < addresses.len() - 1 {
                assert(a[i] == addresses[i]);
            }
        }
    }
}

impl View for Ledger {
    type V = LedgerView;

    closed spec fn view(&self) -> LedgerView {
        LedgerView {
            program_id: self.program_id@,
            deposit_per_byte: self.deposit_per_byte,
            slots: slot_map(self.addresses@, self.slots@),
        }
    }
}

/// Whether two addresses are the same.
pub fn same_address(a: &[u8; 32], b: &[u8; 32]) -> (r: bool)
    ensures
        r == (a@ == b@),
{
    let mut i: usize = 0;
    while i < 32
        invariant
            i <= 32,
            a@.len() == 32,
            b@.len() == 32,
            forall|j: int| 0 <= j < i ==> a@[j] == b@[j],
        decreases 32 - i,
    {
        if a[i] != b[i] {
            return false;
        }
        i = i + 1;
    }
    assert(a@ =~= b@);
    true
}

impl Ledger {
    /// Slots sit at distinct addresses, and every stored name fits its
    /// reserved bytes.
    pub closed spec fn wf(&self) -> bool {
        &&& self.addresses.len() == self.slots.len()
        &&& forall|i: int, j: int|
            0 <= i < j < self.addresses.len() ==> self.addresses[i]@ != self.addresses[j]@
        &&& forall|i: int| 0 <= i < self.slots.len() ==> (#[trigger] self.slots[i]@).wf()
    }

    /// Every slot of the store is well formed.
    pub proof fn lemma_slots_wf(&self)
        requires
            self.wf(),
        ensures
            forall|k: Seq<u8>| #[trigger] self@.slots.contains_key(k) ==> self@.slots[k].wf(),
    {
        lemma_slot_map(self.addresses@, self.slots@);
        assert forall|k: Seq<u8>| #[trigger] self@.slots.contains_key(k) implies self@.slots[k].wf() by {
            let i = choose|i: int| 0 <= i < self.addresses@.len() && #[trigger] self.addresses@[i]@ == k;
            assert(self.slots@[i]@.wf());
        }
    }

    /// An empty store for the program `program_id`.
    pub fn new(program_id: [u8; 32], deposit_per_byte: u64) -> (r: Ledger)
        ensures
            r.wf(),
            r@.program_id == program_id@,
            r@.deposit_per_byte == deposit_per_byte,
            r@.slots == Map::<Seq<u8>, SlotView>::empty(),
    {
        Ledger { program_id, deposit_per_byte, addresses: Vec::new(), slots: Vec::new() }
    }

    /// The id of the program whose records this store holds.
    pub fn program_id(&self) -> (r: &[u8; 32])
        ensures
            r@ == self@.program_id,
    {
        &self.program_id
    }

    /// The deposit that a slot costs per byte.
    pub fn deposit_per_byte(&self) -> (r: u64)
        ensures
            r == self@.deposit_per_byte,
    {
        self.deposit_per_byte
    }

    /// The number of slots created so far.
    pub fn len(&self) -> (r: usize)
        requires
            self.wf(),
        ensures
            r == self@.slots.len(),
    {
        proof {
            lemma_slot_map(self.addresses@, self.slots@);
        }
        self.addresses.len()
    }

    /// The index of the slot at `address`, if there is one.
    fn position(&self, address: &[u8; 32]) -> (r: Option<usize>)
        requires
            self.wf(),
        ensures
            r.is_some() == self@.slots.contains_key(address@),
            r matches Some(i) ==> i < self.slots@.len() && self.addresses@[i as int]@ == address@
                && self@.slots[address@] == self.slots@[i as int]@,
    {
        proof {
            lemma_slot_map(self.addresses@, self.slots@);
        }
        let mut i: usize = 0;
        while i < self.addresses.len()
            invariant
                self.wf(),
                i <= self.addresses@.len(),
                forall|j: int| 0 <= j < i ==> self.addresses@[j]@ != address@,
            decreases self.addresses@.len() - i,
        {
            if same_address(&self.addresses[i], address) {
                proof {
                    lemma_slot_map(self.addresses@, self.slots@);
                }
                return Some(i);
            }
            i = i + 1;
        }
        proof {
            lemma_slot_map(self.addresses@, self.slots@);
        }
        None
    }

    /// Whether a slot exists at `address`.
    pub fn contains(&self, address: &[u8; 32]) -> (r: bool)
        requires
            self.wf(),
        ensures
            r == self@.slots.contains_key(address@),
    {
        self.position(address).is_some()
    }

    /// The slot at `address`, if there is one.
    pub fn get(&self, address: &[u8; 32]) -> (r: Option<&Slot>)
        requires
            self.wf(),
        ensures
            r.is_some() == self@.slots.contains_key(address@),
            r matches Some(s) ==> s@ == self@.slots[address@],
    {
        match self.position(address) {
            Some(i) => Some(&self.slots[i]),
            None => None,
        }
    }

    /// The evaluation at `address`, if the slot there holds one.
    pub fn evaluation_at(&self, address: &[u8; 32]) -> (r: Option<&EvaluationRecord>)
        requires
            self.wf(),
        ensures
            r.is_some() == (self@.slots.contains_key(address@) && self@.slots[address@] is Evaluation),
            r matches Some(e) ==> self@.slots[address@] == SlotView::Evaluation(e@),
    {
        match self.get(address) {
            Some(Slot::Evaluation(e)) => Some(e),
            _ => None,
        }
    }

    /// The vote at `address`, if the slot there holds one.
    pub fn vote_at(&self, address: &[u8; 32]) -> (r: Option<&VoteRecord>)
        requires
            self.wf(),
        ensures
            r.is_some() == (self@.slots.contains_key(address@) && self@.slots[address@] is Vote),
            r matches Some(v) ==> self@.slots[address@] == SlotView::Vote(v@),
    {
        match self.get(address) {
            Some(Slot::Vote(v)) => Some(v),
            _ => None,
        }
    }

    /// Creates the slot at an address where none exists.
    pub(crate) fn create_at(&mut self, address: [u8; 32], slot: Slot)
        requires
            old(self).wf(),
            !old(self)@.slots.contains_key(address@),
            slot@.wf(),
        ensures
            final(self).wf(),
            final(self)@ == (LedgerView {
                slots: old(self)@.slots.insert(address@, slot@),
                ..old(self)@
            }),
    {
        proof {
            lemma_slot_map(self.addresses@, self.slots@);
        }
        let ghost old_addresses = self.addresses@;
        let ghost old_slots = self.slots@;
        self.addresses.push(address);
        self.slots.push(slot);
        proof {
            assert(self.addresses@.drop_last() =~= old_addresses);
            assert(self.slots@.drop_last() =~= old_slots);
            assert forall|i: int, j: int|
                0 <= i < j < self.addresses@.len() implies self.addresses@[i]@ != self.addresses@[j]@ by {
                if j == self.addresses@.len() - 1 {
                    assert(old_addresses[i] == self.addresses@[i]);
                }
            }
            assert forall|i: int| 0 <= i < self.slots@.len() implies (#[trigger] self.slots@[i]@).wf() by {
                if i < old_slots.len() {
                    assert(old_slots[i] == self.slots@[i]);
                }
            }
        }
    }
}

} // verus!
