use vstd::prelude::*;

use crate::contract::{deposit_step, minted_by_step};
use crate::msg::Coin;
use crate::state::{
    lemma_upserted_staked_of, lemma_upserted_wf, staked_sum, LedgerModel, RegistryModel,
};

verus! {

/// The pool and registry after a sequence of deposit calls, each given as
/// its sender and attached funds, with `denom` accepted.
pub open spec fn after_deposits(
    m: LedgerModel,
    denom: Seq<char>,
    calls: Seq<(Seq<char>, Seq<Coin>)>,
) -> LedgerModel
    decreases calls.len(),
{
    if calls.len() == 0 {
        m
    } else {
        let before = after_deposits(m, denom, calls.drop_last());
        deposit_step(before, denom, calls.last().0, calls.last().1)
    }
}

/// The receipt tokens minted to `id` over a sequence of deposit calls.
pub open spec fn minted_to(
    m: LedgerModel,
    denom: Seq<char>,
    calls: Seq<(Seq<char>, Seq<Coin>)>,
    id: Seq<char>,
) -> int
    decreases calls.len(),
{
    if calls.len() == 0 {
        0
    } else {
        let before = after_deposits(m, denom, calls.drop_last());
        minted_to(m, denom, calls.drop_last(), id) + if calls.last().0 == id {
            minted_by_step(before, denom, calls.last().0, calls.last().1)
        } else {
            0
        }
    }
}

proof fn lemma_step_keeps_wf(m: LedgerModel, denom: Seq<char>, sender: Seq<char>, funds: Seq<Coin>)
    requires
        m.wf(),
    ensures
        deposit_step(m, denom, sender, funds).wf(),
{
    if deposit_step(m, denom, sender, funds) != m {
        let q = crate::contract::accepted_amount(funds, denom).unwrap();
        lemma_upserted_wf(m.clients, sender, q);
    }
}

/// Every identity in the registry's list appears once, and has a record
/// exactly when it is listed.
pub open spec fn index_consistent(c: RegistryModel) -> bool {
    &&& c.ids.no_duplicates()
    &&& forall|id: Seq<char>| #[trigger] c.ids.contains(id) <==> c.record_of(id) is Some
}

proof fn lemma_wf_index_consistent(c: RegistryModel)
    requires
        c.wf(),
    ensures
        index_consistent(c),
{
    assert forall|id: Seq<char>| #[trigger] c.ids.contains(id) <==> c.record_of(id) is Some by {
        c.ids.index_of_first_ensures(id);
    }
}

/// Over any sequence of deposit calls, from a consistent ledger, the pool's
/// staked total stays the sum of the clients' stakes and within what the
/// pool holds, and the list of identities stays free of repeats, listing
/// exactly the identities that have a record.
pub proof fn lemma_deposits_keep_invariants(
    m: LedgerModel,
    denom: Seq<char>,
    calls: Seq<(Seq<char>, Seq<Coin>)>,
)
    requires
        m.wf(),
    ensures
        after_deposits(m, denom, calls).wf(),
        after_deposits(m, denom, calls).pool.pool_total_amount_staked == staked_sum(
            after_deposits(m, denom, calls).clients.records,
        ),
        index_consistent(after_deposits(m, denom, calls).clients),
    decreases calls.len(),
{
    if calls.len() > 0 {
        lemma_deposits_keep_invariants(m, denom, calls.drop_last());
        let before = after_deposits(m, denom, calls.drop_last());
        lemma_step_keeps_wf(before, denom, calls.last().0, calls.last().1);
    }
    lemma_wf_index_consistent(after_deposits(m, denom, calls).clients);
}

/// Over any sequence of deposit calls, from a consistent ledger, the stake
/// recorded for `id` grows by exactly the receipt tokens minted to `id`;
/// from an empty ledger the two are equal.
pub proof fn lemma_deposits_conserve(
    m: LedgerModel,
    denom: Seq<char>,
    calls: Seq<(Seq<char>, Seq<Coin>)>,
    id: Seq<char>,
)
    requires
        m.wf(),
    ensures
        after_deposits(m, denom, calls).clients.staked_of(id) == m.clients.staked_of(id)
            + minted_to(m, denom, calls, id),
        m.clients.ids.len() == 0 ==> after_deposits(m, denom, calls).clients.staked_of(id)
            == minted_to(m, denom, calls, id),
    decreases calls.len(),
{
    if calls.len() > 0 {
        lemma_deposits_conserve(m, denom, calls.drop_last(), id);
        lemma_deposits_keep_invariants(m, denom, calls.drop_last());
        let before = after_deposits(m, denom, calls.drop_last());
        let (sender, funds) = calls.last();
        if deposit_step(before, denom, sender, funds) != before {
            let q = crate::contract::accepted_amount(funds, denom).unwrap();
            lemma_upserted_staked_of(before.clients, sender, q, id);
        }
    }
    if m.clients.ids.len() == 0 {
        m.clients.ids.index_of_first_ensures(id);
    }
}

} // verus!
