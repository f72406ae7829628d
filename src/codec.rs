//! Layout of the record region of the account buffer, and byte-level accessors.
use vstd::prelude::*;

use crate::{Errors, Record, BASE_SIZE, DATA_LINE_SIZE};

verus! {

/// Byte offset of the record at `index`: after the header and the `used_items` counter.
pub open spec fn record_offset(index: int) -> int {
    BASE_SIZE + 4 + index * DATA_LINE_SIZE
}

/// Length of a buffer that holds `max_items` records.
pub open spec fn buffer_len(max_items: nat) -> nat {
    (BASE_SIZE + 4 + max_items * DATA_LINE_SIZE) as nat
}

/// The 32 bytes of the record at `index`.
pub open spec fn slot_of(data: Seq<u8>, index: int) -> Seq<u8> {
    data.subrange(record_offset(index), record_offset(index) + DATA_LINE_SIZE)
}

/// The first `count` records of the buffer, in index order.
pub open spec fn slots_of(data: Seq<u8>, count: nat) -> Seq<Seq<u8>> {
    Seq::new(count, |i: int| slot_of(data, i))
}

/// Reads the 32 bytes of the record at `index`.
pub fn read_record(data: &[u8], index: usize) -> (r: Record)
    requires
        record_offset(index as int) + DATA_LINE_SIZE <= data@.len(),
    ensures
        r@ == slot_of(data@, index as int),
{
    let n: usize = data.len();
    assert(n == data@.len());
    let start: usize = BASE_SIZE + 4 + index * DATA_LINE_SIZE;
    let mut r: Record = [0u8; 32];
    let mut k: usize = 0;
    while k < DATA_LINE_SIZE
        invariant
            start == record_offset(index as int),
            start + DATA_LINE_SIZE <= data@.len(),
            n == data@.len(),
            k <= DATA_LINE_SIZE,
            forall|j: int| 0 <= j < k ==> r@[j] == data@[start + j],
        decreases DATA_LINE_SIZE - k,
    {
        r[k] = data[start + k];
        k = k + 1;
    }
    assert(r@ =~= slot_of(data@, index as int));
    r
}

/// Writes `value` over the record at `index`; every other record keeps its bytes.
pub fn write_record(data: &mut Vec<u8>, index: usize, value: &Record)
    requires
        record_offset(index as int) + DATA_LINE_SIZE <= old(data)@.len(),
    ensures
        final(data)@.len() == old(data)@.len(),
        slot_of(final(data)@, index as int) == value@,
        forall|j: int|
            0 <= j && j != index && record_offset(j) + DATA_LINE_SIZE <= old(data)@.len()
                ==> #[trigger] slot_of(final(data)@, j) == slot_of(old(data)@, j),
{
    let ghost before = data@;
    let n: usize = data.len();
    assert(n == data@.len());
    let start: usize = BASE_SIZE + 4 + index * DATA_LINE_SIZE;
    let mut k: usize = 0;
    while k < DATA_LINE_SIZE
        invariant
            start == record_offset(index as int),
            start + DATA_LINE_SIZE <= before.len(),
            n == before.len(),
            data@.len() == before.len(),
            k <= DATA_LINE_SIZE,
            forall|p: int|
                0 <= p < before.len() ==> #[trigger] data@[p] == if start <= p < start + k {
                    value@[p - start]
                } else {
                    before[p]
                },
        decreases DATA_LINE_SIZE - k,
    {
        data.set(start + k, value[k]);
        k = k + 1;
    }
    assert(slot_of(data@, index as int) =~= value@);
    assert forall|j: int|
        0 <= j && j != index && record_offset(j) + DATA_LINE_SIZE <= before.len() implies
            #[trigger] slot_of(data@, j) == slot_of(before, j) by {
        assert(slot_of(data@, j) =~= slot_of(before, j));
    }
}

/// Exchanges the records at `i` and `j`; every other record keeps its bytes.
pub fn swap_records(data: &mut Vec<u8>, i: usize, j: usize)
    requires
        record_offset(i as int) + DATA_LINE_SIZE <= old(data)@.len(),
        record_offset(j as int) + DATA_LINE_SIZE <= old(data)@.len(),
    ensures
        final(data)@.len() == old(data)@.len(),
        forall|k: int|
            0 <= k && record_offset(k) + DATA_LINE_SIZE <= old(data)@.len()
                ==> #[trigger] slot_of(final(data)@, k) == if k == i {
                slot_of(old(data)@, j as int)
            } else if k == j {
                slot_of(old(data)@, i as int)
            } else {
                slot_of(old(data)@, k)
            },
{
    let first = read_record(data.as_slice(), i);
    let second = read_record(data.as_slice(), j);
    write_record(data, i, &second);
    write_record(data, j, &first);
}

/// Reads the record at `index`, provided the slot exists and has been written.
pub fn get_line_item(index: usize, data: &[u8], written: &[bool], max_number: u32) -> (r: Result<Record, Errors>)
    requires
        buffer_len(max_number as nat) <= data@.len(),
        max_number <= written@.len(),
    ensures
        index >= max_number ==> r == Err::<Record, Errors>(Errors::IndexOutOfRange),
        index < max_number && !written@[index as int] ==> r == Err::<Record, Errors>(Errors::DecodeError),
        index < max_number && written@[index as int] ==> r is Ok && r->Ok_0@ == slot_of(data@, index as int),
{
    if index >= max_number as usize {
        return Err(Errors::IndexOutOfRange);
    }
    if !written[index] {
        return Err(Errors::DecodeError);
    }
    Ok(read_record(data, index))
}

} // verus!
