use vstd::prelude::*;

verus! {

/// Setup-time configuration of the pool.
#[derive(Clone, Debug, PartialEq, Eq)]
pub struct StateInfo {
    pub admin_addr: String,
    pub cfo_addr: String,
    /// Denomination accepted as a deposit.
    pub token_denom: String,
    pub min_withdrawal: u128,
}

/// What one depositor holds in the pool.
#[derive(Clone, Copy, Debug, PartialEq, Eq)]
pub struct Client {
    pub nb_token_staked: u128,
    pub yield_generated: u128,
}

/// Aggregate amounts of the pool.
#[derive(Clone, Copy, Debug, PartialEq, Eq, Default)]
pub struct Pool {
    pub pool_total_amount: u128,
    pub pool_total_amount_staked: u128,
    pub total_claim: u128,
}

/// Identities of all depositors, in the order of their first deposit.
#[derive(Clone, Debug, PartialEq, Eq, Default)]
pub struct ClientsList {
    pub clients_list: Vec<String>,
}

pub open spec fn ids_of(v: Seq<String>) -> Seq<Seq<char>> {
    v.map_values(|s: String| s@)
}

/// Sum of the staked amounts of a sequence of records.
pub open spec fn staked_sum(records: Seq<Client>) -> int
    decreases records.len(),
{
    if records.len() == 0 {
        0
    } else {
        staked_sum(records.drop_last()) + records.last().nb_token_staked
    }
}

pub proof fn lemma_staked_sum_push(records: Seq<Client>, c: Client)
    ensures
        staked_sum(records.push(c)) == staked_sum(records) + c.nb_token_staked,
{
    assert(records.push(c).drop_last() =~= records);
}

pub proof fn lemma_staked_sum_update(records: Seq<Client>, i: int, c: Client)
    requires
        0 <= i < records.len(),
    ensures
        staked_sum(records.update(i, c)) == staked_sum(records) - records[i].nb_token_staked
            + c.nb_token_staked,
    decreases records.len(),
{
    if i == records.len() - 1 {
        assert(records.update(i, c).drop_last() =~= records.drop_last());
    } else {
        lemma_staked_sum_update(records.drop_last(), i, c);
        assert(records.update(i, c).drop_last() =~= records.drop_last().update(i, c));
    }
}

/// The registry as the depositors' identities and their records, side by side.
pub struct RegistryModel {
    pub ids: Seq<Seq<char>>,
    pub records: Seq<Client>,
}

impl RegistryModel {
    /// Each identity has exactly one record, and appears once.
    pub open spec fn wf(self) -> bool {
        &&& self.ids.len() == self.records.len()
        &&& self.ids.no_duplicates()
    }

    pub open spec fn record_of(self, id: Seq<char>) -> Option<Client> {
        match self.ids.index_of_first(id) {
            Some(i) => if i < self.records.len() {
                Some(self.records[i])
            } else {
                None
            },
            None => None,
        }
    }

    pub open spec fn staked_of(self, id: Seq<char>) -> int {
        match self.record_of(id) {
            Some(c) => c.nb_token_staked as int,
            None => 0,
        }
    }

    /// The registry after `id` added `delta` to its stake, its record
    /// created (and its identity listed) on the first time.
    pub open spec fn upserted(self, id: Seq<char>, delta: u128) -> RegistryModel {
        match self.ids.index_of_first(id) {
            Some(i) => RegistryModel {
                ids: self.ids,
                records: self.records.update(
                    i,
                    Client {
                        nb_token_staked: (self.records[i].nb_token_staked + delta) as u128,
                        yield_generated: self.records[i].yield_generated,
                    },
                ),
            },
            None => RegistryModel {
                ids: self.ids.push(id),
                records: self.records.push(Client { nb_token_staked: delta, yield_generated: 0 }),
            },
        }
    }
}

/// Upserting keeps the registry consistent and raises the sum of stakes by `delta`.
pub proof fn lemma_upserted_wf(m: RegistryModel, id: Seq<char>, delta: u128)
    requires
        m.wf(),
        m.staked_of(id) + delta <= u128::MAX,
    ensures
        m.upserted(id, delta).wf(),
        staked_sum(m.upserted(id, delta).records) == staked_sum(m.records) + delta,
{
    m.ids.index_of_first_ensures(id);
    match m.ids.index_of_first(id) {
        Some(i) => {
            let c = Client {
                nb_token_staked: (m.records[i].nb_token_staked + delta) as u128,
                yield_generated: m.records[i].yield_generated,
            };
            lemma_staked_sum_update(m.records, i, c);
        },
        None => {
            let ids2 = m.ids.push(id);
            assert forall|a: int, b: int| 0 <= a < ids2.len() && 0 <= b < ids2.len() && a != b
                implies ids2[a] != ids2[b] by {
                if a < m.ids.len() && b < m.ids.len() {
                } else if a < m.ids.len() {
                    assert(ids2[a] == m.ids[a]);
                } else {
                    assert(ids2[b] == m.ids[b]);
                }
            }
            lemma_staked_sum_push(m.records, Client { nb_token_staked: delta, yield_generated: 0 });
        },
    }
}

/// Upserting for `s` changes the stake of `s` alone, by `delta`.
pub proof fn lemma_upserted_staked_of(m: RegistryModel, s: Seq<char>, delta: u128, id: Seq<char>)
    requires
        m.wf(),
        m.staked_of(s) + delta <= u128::MAX,
    ensures
        m.upserted(s, delta).staked_of(id) == m.staked_of(id) + if id == s {
            delta as int
        } else {
            0
        },
{
    let m2 = m.upserted(s, delta);
    m.ids.index_of_first_ensures(s);
    m.ids.index_of_first_ensures(id);
    m2.ids.index_of_first_ensures(id);
    match m.ids.index_of_first(s) {
        Some(i) => {
            if id != s {
                match m.ids.index_of_first(id) {
                    Some(k) => {
                        assert(k != i);
                    },
                    None => {},
                }
            }
        },
        None => {
            assert(m2.ids[m.ids.len() as int] == s);
            if id == s {
                assert(m2.ids.contains(id));
                let k = m2.ids.index_of_first(id).unwrap();
                if k < m.ids.len() {
                    assert(m.ids[k] == s);
                }
            } else {
                match m.ids.index_of_first(id) {
                    Some(k) => {
                        assert(m2.ids[k] == id);
                        assert(m2.ids.contains(id));
                        let k2 = m2.ids.index_of_first(id).unwrap();
                        if k2 < k {
                            assert(m.ids[k2] == id);
                        }
                    },
                    None => {
                        if m2.ids.contains(id) {
                            let k2 = choose|j: int| 0 <= j < m2.ids.len() && m2.ids[j] == id;
                            assert(m.ids[k2] == id);
                        }
                    },
                }
            }
        },
    }
}

/// Per-depositor records together with the list of their identities.
pub struct ClientRegistry {
    pub clients_list: ClientsList,
    pub records: Vec<Client>,
}

impl View for ClientRegistry {
    type V = RegistryModel;

    open spec fn view(&self) -> RegistryModel {
        RegistryModel { ids: ids_of(self.clients_list.clients_list@), records: self.records@ }
    }
}

impl ClientRegistry {
    /// The list and the records have the same length.
    pub open spec fn aligned(&self) -> bool {
        self.clients_list.clients_list@.len() == self.records@.len()
    }

    pub fn is_aligned(&self) -> (r: bool)
        ensures
            r == self.aligned(),
    {
        self.clients_list.clients_list.len() == self.records.len()
    }

    pub fn new() -> (r: ClientRegistry)
        ensures
            r@.ids == Seq::<Seq<char>>::empty(),
            r@.records == Seq::<Client>::empty(),
            r@.wf(),
    {
        let r = ClientRegistry { clients_list: ClientsList { clients_list: Vec::new() }, records: Vec::new() };
        assert(r@.ids =~= Seq::<Seq<char>>::empty());
        r
    }

    /// Where `id` is listed first, if it is.
    pub fn position(&self, id: &String) -> (r: Option<usize>)
        ensures
            match r {
                Some(i) => i < self@.ids.len() && self@.ids.index_of_first(id@) == Some(i as int),
                None => self@.ids.index_of_first(id@) is None,
            },
    {
        let list = &self.clients_list.clients_list;
        let mut i: usize = 0;
        while i < list.len()
            invariant
                i <= list@.len(),
                self@.ids == ids_of(list@),
                forall|j: int| 0 <= j < i ==> self@.ids[j] != id@,
            decreases list@.len() - i,
        {
            if list[i] == *id {
                proof {
                    assert(self@.ids[i as int] == id@);
                    assert(self@.ids.contains(id@));
                    self@.ids.index_of_first_ensures(id@);
                }
                return Some(i);
            }
            i = i + 1;
        }
        proof {
            self@.ids.index_of_first_ensures(id@);
        }
        None
    }

    pub fn get(&self, id: &String) -> (r: Option<Client>)
        requires
            self.aligned(),
        ensures
            r == self@.record_of(id@),
    {
        match self.position(id) {
            Some(i) => Some(self.records[i]),
            None => None,
        }
    }

    /// Adds `delta` to the stake of `id`; a first deposit lists `id` and
    /// creates its record.
    pub fn upsert(&mut self, id: &String, delta: u128)
        requires
            old(self).aligned(),
            old(self)@.staked_of(id@) + delta <= u128::MAX,
        ensures
            final(self).aligned(),
            final(self)@ == old(self)@.upserted(id@, delta),
    {
        match self.position(id) {
            Some(i) => {
                let old_client = self.records[i];
                self.records[i] = Client {
                    nb_token_staked: old_client.nb_token_staked + delta,
                    yield_generated: old_client.yield_generated,
                };
            },
            None => {
                self.clients_list.clients_list.push(id.clone());
                self.records.push(Client { nb_token_staked: delta, yield_generated: 0 });
                assert(self@.ids =~= old(self)@.ids.push(id@));
            },
        }
    }

    /// The identities of all depositors, in order.
    pub fn list_all(&self) -> (r: Vec<String>)
        ensures
            ids_of(r@) == self@.ids,
    {
        let list = &self.clients_list.clients_list;
        let mut out: Vec<String> = Vec::new();
        let mut i: usize = 0;
        while i < list.len()
            invariant
                i <= list@.len(),
                self@.ids == ids_of(list@),
                ids_of(out@) =~= ids_of(list@).subrange(0, i as int),
            decreases list@.len() - i,
        {
            let s = list[i].clone();
            assert(s@ == list@[i as int]@);
            let ghost before = out@;
            out.push(s);
            proof {
                assert(out@ == before.push(s));
                assert(ids_of(out@) =~= ids_of(before).push(s@));
                assert(ids_of(out@) =~= ids_of(list@).subrange(0, i + 1));
            }
            i = i + 1;
        }
        proof {
            assert(ids_of(list@).subrange(0, i as int) =~= ids_of(list@));
        }
        out
    }
}

/// Receipt-token minting authority and supply cap.
#[derive(Clone, Debug, PartialEq, Eq)]
pub struct MinterData {
    pub minter: String,
    pub cap: Option<u128>,
}

/// Metadata and supply of the receipt token.
#[derive(Clone, Debug, PartialEq, Eq)]
pub struct TokenInfo {
    pub name: String,
    pub symbol: String,
    pub decimals: u8,
    pub total_supply: u128,
    pub mint: Option<MinterData>,
}

/// Pool amounts and client registry, as mathematical values.
pub struct LedgerModel {
    pub pool: Pool,
    pub clients: RegistryModel,
}

impl LedgerModel {
    /// The registry is consistent, the pool's staked total is the sum of the
    /// clients' stakes, and never exceeds what the pool holds.
    pub open spec fn wf(self) -> bool {
        &&& self.clients.wf()
        &&& self.pool.pool_total_amount_staked == staked_sum(self.clients.records)
        &&& self.pool.pool_total_amount_staked <= self.pool.pool_total_amount
    }

    /// A deposit of `quantity` by `id` fits every counter it raises.
    pub open spec fn can_take(self, id: Seq<char>, quantity: u128) -> bool {
        &&& self.pool.pool_total_amount + quantity <= u128::MAX
        &&& self.pool.pool_total_amount_staked + quantity <= u128::MAX
        &&& self.clients.staked_of(id) + quantity <= u128::MAX
    }

    /// The pool and registry after `id` deposited `quantity`.
    pub open spec fn deposited(self, id: Seq<char>, quantity: u128) -> LedgerModel {
        LedgerModel {
            pool: Pool {
                pool_total_amount: (self.pool.pool_total_amount + quantity) as u128,
                pool_total_amount_staked: (self.pool.pool_total_amount_staked + quantity) as u128,
                total_claim: self.pool.total_claim,
            },
            clients: self.clients.upserted(id, quantity),
        }
    }
}

impl Pool {
    /// Raises both the amount held and the amount staked by `quantity`.
    pub fn record_deposit(&mut self, quantity: u128)
        requires
            old(self).pool_total_amount + quantity <= u128::MAX,
            old(self).pool_total_amount_staked + quantity <= u128::MAX,
        ensures
            final(self).pool_total_amount == old(self).pool_total_amount + quantity,
            final(self).pool_total_amount_staked == old(self).pool_total_amount_staked + quantity,
            final(self).total_claim == old(self).total_claim,
    {
        self.pool_total_amount = self.pool_total_amount + quantity;
        self.pool_total_amount_staked = self.pool_total_amount_staked + quantity;
    }
}

/// Everything the pool keeps: configuration, pool amounts and client registry.
pub struct Ledger {
    pub state: StateInfo,
    pub pool: Pool,
    pub clients: ClientRegistry,
}

impl View for Ledger {
    type V = LedgerModel;

    open spec fn view(&self) -> LedgerModel {
        LedgerModel { pool: self.pool, clients: self.clients@ }
    }
}

} // verus!
