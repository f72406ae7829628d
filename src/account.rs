//! The account: header fields, the record buffer and one written flag per slot.
use vstd::prelude::*;

use crate::codec::{buffer_len, get_line_item, read_record, slots_of, write_record};
use crate::{Errors, Record, BASE_SIZE, DATA_LINE_SIZE};

verus! {

/// The abstract state of an account.
pub struct AccountModel {
    pub authority: Seq<u8>,
    pub max_items: nat,
    pub num_items: nat,
    pub used_items: nat,
    /// Record `i` for every slot `i < max_items`.
    pub slots: Seq<Seq<u8>>,
    /// Whether slot `i` has ever been written.
    pub written: Seq<bool>,
}

/// Number of `true` entries.
pub open spec fn count_true(s: Seq<bool>) -> nat
    decreases s.len(),
{
    if s.len() == 0 {
        0
    } else {
        count_true(s.drop_last()) + if s.last() { 1nat } else { 0nat }
    }
}

pub proof fn lemma_count_true_le_len(s: Seq<bool>)
    ensures
        count_true(s) <= s.len(),
    decreases s.len(),
{
    if s.len() > 0 {
        lemma_count_true_le_len(s.drop_last());
    }
}

/// Setting one flag adds one to the count exactly when it was clear.
pub proof fn lemma_count_true_set(s: Seq<bool>, i: int)
    requires
        0 <= i < s.len(),
    ensures
        count_true(s.update(i, true)) == count_true(s) + if s[i] { 0nat } else { 1nat },
    decreases s.len(),
{
    let t = s.update(i, true);
    if i == s.len() - 1 {
        assert(t.drop_last() =~= s.drop_last());
    } else {
        assert(t.drop_last() =~= s.drop_last().update(i, true));
        lemma_count_true_set(s.drop_last(), i);
    }
}

/// A well-formed model: counters ordered, one slot and one flag per item, and
/// `num_items` the number of written slots.
pub open spec fn model_wf(m: AccountModel) -> bool {
    &&& m.used_items <= m.num_items <= m.max_items
    &&& m.max_items <= u32::MAX
    &&& m.slots.len() == m.max_items
    &&& m.written.len() == m.max_items
    &&& m.num_items == count_true(m.written)
    &&& m.authority.len() == 32
    &&& forall|i: int| 0 <= i < m.max_items ==> (#[trigger] m.slots[i]).len() == 32
}

/// What `add_item` does: check the caller, then the index, then write the slot.
pub open spec fn add_spec(m: AccountModel, caller: Seq<u8>, index: int, item: Seq<u8>) -> (AccountModel, Result<(), Errors>) {
    if caller != m.authority {
        (m, Err(Errors::Unauthorized))
    } else if index < 0 || index >= m.max_items {
        (m, Err(Errors::CapacityExceeded))
    } else {
        (
            AccountModel {
                num_items: if m.written[index] { m.num_items } else { m.num_items + 1 },
                slots: m.slots.update(index, item),
                written: m.written.update(index, true),
                ..m
            },
            Ok(()),
        )
    }
}

/// What `show_item` returns.
pub open spec fn show_spec(m: AccountModel, index: int) -> Result<Seq<u8>, Errors> {
    if index < 0 || index >= m.max_items {
        Err(Errors::IndexOutOfRange)
    } else {
        Ok(m.slots[index])
    }
}

/// A record result seen through the record's bytes.
pub open spec fn record_result(r: Result<Record, Errors>) -> Result<Seq<u8>, Errors> {
    match r {
        Ok(rec) => Ok(rec@),
        Err(e) => Err(e),
    }
}

/// Whether two records hold the same bytes.
pub fn same_record(a: &Record, b: &Record) -> (r: bool)
    ensures
        r == (a@ == b@),
{
    let mut k: usize = 0;
    while k < DATA_LINE_SIZE
        invariant
            k <= DATA_LINE_SIZE,
            forall|j: int| 0 <= j < k ==> a@[j] == b@[j],
        decreases DATA_LINE_SIZE - k,
    {
        if a[k] != b[k] {
            assert(a@[k as int] != b@[k as int]);
            return false;
        }
        k = k + 1;
    }
    assert(a@ =~= b@);
    true
}

/// The header of the account, the raw buffer of records, and the written flags.
pub struct DataAccount {
    pub authority: Record,
    pub max_items: u32,
    pub num_items: u32,
    pub used_items: u32,
    /// The whole account buffer; record `i` starts at `BASE_SIZE + 4 + 32 * i`.
    pub data: Vec<u8>,
    /// One flag per slot, set once the slot has been written.
    pub written: Vec<bool>,
}

impl View for DataAccount {
    type V = AccountModel;

    open spec fn view(&self) -> AccountModel {
        AccountModel {
            authority: self.authority@,
            max_items: self.max_items as nat,
            num_items: self.num_items as nat,
            used_items: self.used_items as nat,
            slots: slots_of(self.data@, self.max_items as nat),
            written: self.written@,
        }
    }
}

impl DataAccount {
    pub open spec fn wf(&self) -> bool {
        &&& self.used_items <= self.num_items <= self.max_items
        &&& self.data@.len() == buffer_len(self.max_items as nat)
        &&& self.written@.len() == self.max_items
        &&& self.num_items == count_true(self.written@)
    }

    pub proof fn lemma_wf_model(&self)
        requires
            self.wf(),
        ensures
            model_wf(self@),
    {
    }

    /// A fresh zeroed account owned by `authority` with room for `max_items` records.
    pub fn initialize(authority: Record, max_items: u32) -> (r: DataAccount)
        requires
            buffer_len(max_items as nat) <= usize::MAX,
        ensures
            r.wf(),
            r@.authority == authority@,
            r@.max_items == max_items,
            r@.num_items == 0,
            r@.used_items == 0,
            forall|i: int| 0 <= i < max_items ==> #[trigger] r@.slots[i] == Seq::new(32, |j: int| 0u8),
            forall|i: int| 0 <= i < max_items ==> !#[trigger] r@.written[i],
    {
        let len: usize = BASE_SIZE + 4 + (max_items as usize) * DATA_LINE_SIZE;
        let mut data: Vec<u8> = Vec::new();
        while data.len() < len
            invariant
                data@.len() <= len,
                forall|p: int| 0 <= p < data@.len() ==> data@[p] == 0u8,
            decreases len - data@.len(),
        {
            data.push(0u8);
        }
        let mut written: Vec<bool> = Vec::new();
        while written.len() < max_items as usize
            invariant
                written@.len() <= max_items,
                forall|p: int| 0 <= p < written@.len() ==> !written@[p],
            decreases max_items - written@.len(),
        {
            written.push(false);
        }
        let r = DataAccount { authority, max_items, num_items: 0, used_items: 0, data, written };
        assert forall|i: int| 0 <= i < max_items implies #[trigger] r@.slots[i] == Seq::new(32, |j: int| 0u8) by {
            assert(r@.slots[i] =~= Seq::new(32, |j: int| 0u8));
        }
        proof {
            lemma_count_all_false(r.written@);
        }
        r
    }

    /// Writes `item` at slot `index` on behalf of `caller`. The first write of a slot
    /// adds one to `num_items`; a later write of the same slot replaces the record only.
    /// Fails with `Unauthorized` when `caller` is not the authority, then with
    /// `CapacityExceeded` when `index >= max_items`; a failure changes nothing.
    pub fn add_item(&mut self, caller: &Record, item: Record, index: u64) -> (r: Result<(), Errors>)
        requires
            old(self).wf(),
        ensures
            final(self).wf(),
            final(self)@ == add_spec(old(self)@, caller@, index as int, item@).0,
            r == add_spec(old(self)@, caller@, index as int, item@).1,
    {
        if !same_record(caller, &self.authority) {
            return Err(Errors::Unauthorized);
        }
        if index >= self.max_items as u64 {
            return Err(Errors::CapacityExceeded);
        }
        let idx: usize = index as usize;
        let ghost before = self@;
        let new_count: u32 = match get_line_item(idx, self.data.as_slice(), self.written.as_slice(), self.max_items) {
            Err(_) => {
                proof {
                    lemma_count_true_set(self.written@, idx as int);
                    lemma_count_true_le_len(self.written@.update(idx as int, true));
                }
                self.num_items + 1
            },
            Ok(_) => {
                proof {
                    lemma_count_true_set(self.written@, idx as int);
                }
                self.num_items
            },
        };
        self.num_items = new_count;
        write_record(&mut self.data, idx, &item);
        self.written.set(idx, true);
        assert(self@.slots =~= before.slots.update(idx as int, item@));
        Ok(())
    }

    /// The record at slot `index`; fails with `IndexOutOfRange` when `index >= max_items`.
    pub fn show_item(&self, index: u32) -> (r: Result<Record, Errors>)
        requires
            self.wf(),
        ensures
            record_result(r) == show_spec(self@, index as int),
    {
        if index >= self.max_items {
            return Err(Errors::IndexOutOfRange);
        }
        Ok(read_record(self.data.as_slice(), index as usize))
    }
}

proof fn lemma_count_all_false(s: Seq<bool>)
    requires
        forall|p: int| 0 <= p < s.len() ==> !s[p],
    ensures
        count_true(s) == 0,
    decreases s.len(),
{
    if s.len() > 0 {
        lemma_count_all_false(s.drop_last());
    }
}

} // verus!
