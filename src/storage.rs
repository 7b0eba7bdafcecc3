//! Persistent contract storage: 256-bit words keyed by contract address and
//! 256-bit key. Writes are kept as a journal in which the latest write to a
//! slot wins, so that the writes of a failed call can be discarded.

use crate::context::Address;
use crate::word::Word;
use vstd::prelude::*;

verus! {

/// The key of a slot in the model: the contract's address bytes and the key.
pub type SlotKey = (Seq<u8>, nat);

/// One recorded write.
#[derive(Clone, Copy, Debug)]
pub struct Slot {
    pub address: Address,
    pub key: Word,
    pub value: Word,
}

pub open spec fn slot_key(s: Slot) -> SlotKey {
    (s.address.bytes@, s.key@)
}

/// The slots that a journal of writes leaves behind.
pub open spec fn journal_model(j: Seq<Slot>) -> Map<SlotKey, nat>
    decreases j.len(),
{
    if j.len() == 0 {
        Map::empty()
    } else {
        journal_model(j.drop_last()).insert(slot_key(j.last()), j.last().value@)
    }
}

/// What a read of a slot gives: the stored word, or zero for a slot never written.
pub open spec fn load(m: Map<SlotKey, nat>, address: Seq<u8>, key: nat) -> nat {
    if m.contains_key((address, key)) {
        m[(address, key)]
    } else {
        0
    }
}

proof fn lemma_latest_write(j: Seq<Slot>, i: int, k: SlotKey)
    requires
        0 <= i < j.len(),
        slot_key(j[i]) == k,
        forall|t: int| i < t < j.len() ==> slot_key(#[trigger] j[t]) != k,
    ensures
        journal_model(j).contains_key(k),
        journal_model(j)[k] == j[i].value@,
    decreases j.len(),
{
    if i < j.len() - 1 {
        let p = j.drop_last();
        assert(forall|t: int| i < t < p.len() ==> p[t] == j[t]);
        lemma_latest_write(p, i, k);
    }
}

proof fn lemma_never_written(j: Seq<Slot>, k: SlotKey)
    requires
        forall|t: int| 0 <= t < j.len() ==> slot_key(#[trigger] j[t]) != k,
    ensures
        !journal_model(j).contains_key(k),
    decreases j.len(),
{
    if j.len() > 0 {
        let p = j.drop_last();
        assert(forall|t: int| 0 <= t < p.len() ==> p[t] == j[t]);
        lemma_never_written(p, k);
    }
}

/// Whether two addresses are the same.
pub fn same_address(a: &Address, b: &Address) -> (r: bool)
    ensures
        r == (a.bytes@ == b.bytes@),
{
    let mut i: usize = 0;
    while i < 20
        invariant
            i <= 20,
            a.bytes@.len() == 20,
            b.bytes@.len() == 20,
            forall|t: int| 0 <= t < i ==> a.bytes@[t] == b.bytes@[t],
        decreases 20 - i,
    {
        if a.bytes[i] != b.bytes[i] {
            return false;
        }
        i = i + 1;
    }
    assert(a.bytes@ =~= b.bytes@);
    true
}

/// The storage of all contracts, with the writes recorded in order.
pub struct Storage {
    journal: Vec<Slot>,
}

impl View for Storage {
    type V = Map<SlotKey, nat>;

    closed spec fn view(&self) -> Map<SlotKey, nat> {
        journal_model(self.journal@)
    }
}

impl Storage {
    /// The writes recorded so far, oldest first.
    pub closed spec fn history(&self) -> Seq<Slot> {
        self.journal@
    }

    /// The slots are what the recorded writes leave behind.
    pub proof fn lemma_view_is_history(&self)
        ensures
            self@ == journal_model(self.history()),
    {
    }

    /// An empty storage: every slot reads as zero.
    pub fn new() -> (r: Storage)
        ensures
            r.history() == Seq::<Slot>::empty(),
            r@ == Map::<SlotKey, nat>::empty(),
    {
        Storage { journal: Vec::new() }
    }

    /// Reads the slot `key` of contract `address`; zero where nothing was written.
    pub fn get(&self, address: &Address, key: &Word) -> (r: Word)
        ensures
            r@ == load(self@, address.bytes@, key@),
    {
        let mut i: usize = self.journal.len();
        while i > 0
            invariant
                i <= self.journal@.len(),
                forall|t: int|
                    i <= t < self.journal@.len() ==> slot_key(#[trigger] self.journal@[t]) != (
                    address.bytes@,
                    key@,
                ),
            decreases i,
        {
            let s = self.journal[i - 1];
            if same_address(&s.address, address) && s.key.same_value(key) {
                proof {
                    lemma_latest_write(self.journal@, i - 1, (address.bytes@, key@));
                }
                return s.value;
            }
            i = i - 1;
        }
        proof {
            lemma_never_written(self.journal@, (address.bytes@, key@));
        }
        Word::from_u64(0)
    }

    /// Writes `value` to the slot `key` of contract `address`.
    pub fn set(&mut self, address: &Address, key: &Word, value: &Word)
        ensures
            final(self)@ == old(self)@.insert((address.bytes@, key@), value@),
            final(self).history() == old(self).history().push(
                Slot { address: *address, key: *key, value: *value },
            ),
    {
        self.journal.push(Slot { address: *address, key: *key, value: *value });
        assert(self.journal@.drop_last() == old(self).journal@);
    }

    /// A mark of the writes made so far, for `rollback`.
    pub fn checkpoint(&self) -> (r: usize)
        ensures
            r == self.history().len(),
    {
        self.journal.len()
    }

    /// Discards the writes made since `mark` was taken.
    pub fn rollback(&mut self, mark: usize)
        requires
            mark <= old(self).history().len(),
        ensures
            final(self).history() == old(self).history().subrange(0, mark as int),
    {
        self.journal.truncate(mark);
    }
}

} // verus!
