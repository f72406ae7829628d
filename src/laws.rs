//! Properties that relate several operations, or several calls of one.
use vstd::prelude::*;

use crate::account::{add_spec, count_true, lemma_count_true_le_len, lemma_count_true_set, model_wf, show_spec, AccountModel};
use crate::generator::{generate_spec, lcg_value, lemma_search_finds, lemma_search_in_range};
use crate::selection::{increment_for, select_spec, selected_index, swap_slots};
use crate::Errors;

verus! {

/// Reading a slot right after a successful write of it returns the written record.
pub proof fn lemma_show_after_add(m: AccountModel, caller: Seq<u8>, index: int, item: Seq<u8>)
    requires
        model_wf(m),
        caller == m.authority,
        0 <= index < m.max_items,
    ensures
        add_spec(m, caller, index, item).1 is Ok,
        show_spec(add_spec(m, caller, index, item).0, index) == Ok::<Seq<u8>, Errors>(item),
{
}

/// The first write of a slot adds exactly one to `num_items`; writing a slot that was
/// already written leaves `num_items` as it was. Either way the account stays well formed.
pub proof fn lemma_add_counts_first_write(m: AccountModel, caller: Seq<u8>, index: int, item: Seq<u8>)
    requires
        model_wf(m),
        caller == m.authority,
        0 <= index < m.max_items,
        item.len() == 32,
    ensures
        !m.written[index] ==> add_spec(m, caller, index, item).0.num_items == m.num_items + 1,
        m.written[index] ==> add_spec(m, caller, index, item).0.num_items == m.num_items,
        model_wf(add_spec(m, caller, index, item).0),
{
    lemma_count_true_set(m.written, index);
    lemma_count_true_le_len(m.written.update(index, true));
    let n = add_spec(m, caller, index, item).0;
    assert forall|i: int| 0 <= i < n.max_items implies (#[trigger] n.slots[i]).len() == 32 by {
        if i != index {
            assert(n.slots[i] == m.slots[i]);
        }
    }
}

/// The index a draw picks lies in the undrawn pool `[used_items, num_items)`, and a
/// failed pick can only be the generator's `RandomNumberNotFound`.
pub proof fn lemma_selected_in_pool(m: AccountModel, entropy: u64)
    requires
        model_wf(m),
        m.used_items < m.num_items,
    ensures
        selected_index(m, entropy) is Ok ==> m.used_items <= selected_index(m, entropy)->Ok_0 < m.num_items,
        selected_index(m, entropy) is Err ==> selected_index(m, entropy) == Err::<nat, Errors>(
            Errors::RandomNumberNotFound,
        ),
{
    let remaining = (m.num_items - m.used_items) as nat;
    if remaining != 1 {
        let inc = increment_for(entropy, remaining);
        lemma_search_in_range(21, inc as nat, 100, m.used_items, m.num_items, 0);
        assert(m.used_items as u32 as nat == m.used_items);
        assert(m.num_items as u32 as nat == m.num_items);
    }
}

/// A draw takes its record from the undrawn pool and never disturbs the records
/// already drawn: they keep their places, and the new one lands right after them.
pub proof fn lemma_draw_without_replacement(m: AccountModel, entropy: u64)
    requires
        model_wf(m),
        select_spec(m, entropy).1 is Ok,
    ensures
        selected_index(m, entropy) is Ok,
        m.used_items <= selected_index(m, entropy)->Ok_0 < m.num_items,
        select_spec(m, entropy).1 == Ok::<Seq<u8>, Errors>(m.slots[selected_index(m, entropy)->Ok_0 as int]),
        select_spec(m, entropy).0.used_items == m.used_items + 1,
        select_spec(m, entropy).0.slots[m.used_items as int] == m.slots[selected_index(m, entropy)->Ok_0 as int],
        select_spec(m, entropy).0.slots.subrange(0, m.used_items as int) == m.slots.subrange(0, m.used_items as int),
{
    lemma_selected_in_pool(m, entropy);
    let n = select_spec(m, entropy).0;
    assert(n.slots.subrange(0, m.used_items as int) =~= m.slots.subrange(0, m.used_items as int));
}

/// A draw keeps the account well formed.
pub proof fn lemma_draw_keeps_wf(m: AccountModel, entropy: u64)
    requires
        model_wf(m),
    ensures
        model_wf(select_spec(m, entropy).0),
        select_spec(m, entropy).0.num_items == m.num_items,
        select_spec(m, entropy).0.max_items == m.max_items,
{
    if m.used_items < m.num_items {
        lemma_selected_in_pool(m, entropy);
        if let Ok(s) = selected_index(m, entropy) {
            let n = select_spec(m, entropy).0;
            assert forall|i: int| 0 <= i < n.max_items implies (#[trigger] n.slots[i]).len() == 32 by {
                assert(m.slots[i].len() == 32);
            }
        }
    }
}

/// The state after drawing once with each entropy value of `es` in turn.
pub open spec fn draw_run(m: AccountModel, es: Seq<u64>) -> AccountModel
    decreases es.len(),
{
    if es.len() == 0 {
        m
    } else {
        draw_run(select_spec(m, es[0]).0, es.drop_first())
    }
}

/// No draw of the run fails for want of a generator value.
pub open spec fn run_finds_indices(m: AccountModel, es: Seq<u64>) -> bool
    decreases es.len(),
{
    es.len() == 0 || (select_spec(m, es[0]).1 != Err::<Seq<u8>, Errors>(Errors::RandomNumberNotFound)
        && run_finds_indices(select_spec(m, es[0]).0, es.drop_first()))
}

/// After `N` draws with no write in between, `used_items` has grown by `min(N, pool size)`;
/// once the pool is empty every further draw fails with `PoolExhausted`. The records
/// drawn before the run keep their places.
pub proof fn lemma_draw_count(m: AccountModel, es: Seq<u64>)
    requires
        model_wf(m),
        run_finds_indices(m, es),
    ensures
        model_wf(draw_run(m, es)),
        draw_run(m, es).num_items == m.num_items,
        draw_run(m, es).used_items == if m.used_items + es.len() <= m.num_items {
            m.used_items + es.len()
        } else {
            m.num_items
        },
        draw_run(m, es).slots.subrange(0, m.used_items as int) == m.slots.subrange(0, m.used_items as int),
        m.used_items + es.len() >= m.num_items ==> forall|e: u64|
            #[trigger] select_spec(draw_run(m, es), e).1 == Err::<Seq<u8>, Errors>(Errors::PoolExhausted),
    decreases es.len(),
{
    if es.len() > 0 {
        let n = select_spec(m, es[0]).0;
        lemma_draw_keeps_wf(m, es[0]);
        if m.used_items < m.num_items {
            lemma_selected_in_pool(m, es[0]);
            lemma_draw_without_replacement(m, es[0]);
        }
        lemma_draw_count(n, es.drop_first());
        assert(draw_run(m, es) == draw_run(n, es.drop_first()));
        let f = draw_run(m, es);
        assert(f.slots.subrange(0, m.used_items as int) =~= n.slots.subrange(0, n.used_items as int).subrange(
            0,
            m.used_items as int,
        ));
    }
}

/// With the parameters a draw uses, the generator returns a value in `[min, max)`
/// whenever one of its first 100 states lies there.
pub proof fn lemma_generator_finds(increment: u32, min: u32, max: u32)
    requires
        min < max < 100,
        exists|k: nat| 1 <= k <= 100 && min <= #[trigger] lcg_value(21, increment as nat, 100, k) < max,
    ensures
        generate_spec(21, increment, 100, min, max) is Ok,
        min <= generate_spec(21, increment, 100, min, max)->Ok_0 < max,
{
    let k = choose|k: nat| 1 <= k <= 100 && min <= #[trigger] lcg_value(21, increment as nat, 100, k) < max;
    lemma_search_finds(21, increment as nat, 100, min as nat, max as nat, 0, k);
    lemma_search_in_range(21, increment as nat, 100, min as nat, max as nat, 0);
}

} // verus!
