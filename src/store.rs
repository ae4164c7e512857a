use std::collections::HashMap;
use vstd::prelude::*;

verus! {

broadcast use vstd::std_specs::hash::group_hash_axioms;

/// Error raised by a store backend that could not complete a write.
/// The in-memory store never raises it.
#[derive(PartialEq, Eq, Structural, Debug, Clone, Copy)]
pub enum StoreError {
    Unavailable,
}

/// A recorded deposit or withdrawal. Amounts are fixed-point, in units of
/// one ten-thousandth; a withdrawal is stored with a negative amount.
#[derive(PartialEq, Eq, Structural, Debug, Clone, Copy, Default)]
pub struct Transaction {
    pub id: u32,
    pub client: u16,
    pub amount: i64,
    pub disputed: bool,
}

/// A client account snapshot. Amounts are fixed-point, in units of one
/// ten-thousandth. The total is derived, never stored.
#[derive(PartialEq, Eq, Structural, Debug, Clone, Copy, Default)]
pub struct Client {
    pub id: u16,
    pub available: i64,
    pub held: i64,
    pub locked: bool,
}

impl Client {
    /// The total balance: `available + held`.
    pub open spec fn spec_total(self) -> int {
        self.available + self.held
    }

    /// The total balance, computed from the two stored balances.
    pub fn total(&self) -> (r: i128)
        ensures
            r == self.spec_total(),
    {
        self.available as i128 + self.held as i128
    }
}

/// The value stored under `k`, if any.
pub open spec fn lookup<K, V>(m: Map<K, V>, k: K) -> Option<V> {
    if m.contains_key(k) {
        Some(m[k])
    } else {
        None
    }
}

/// Every client is stored under its own id.
pub open spec fn clients_keyed_by_id(m: Map<u16, Client>) -> bool {
    forall|k: u16| #[trigger] m.contains_key(k) ==> m[k].id == k
}

/// Every transaction is stored under its own id.
pub open spec fn transactions_keyed_by_id(m: Map<u32, Transaction>) -> bool {
    forall|k: u32| #[trigger] m.contains_key(k) ==> m[k].id == k
}

/// Appending `x` adds exactly `x` to what a sequence contains.
proof fn lemma_push_contains<T>(s: Seq<T>, x: T, k: T)
    ensures
        s.push(x).contains(k) <==> (s.contains(k) || k == x),
{
    if s.contains(k) {
        let j = choose|j: int| 0 <= j < s.len() && s[j] == k;
        assert(s.push(x)[j] == k);
    }
    if k == x {
        assert(s.push(x)[s.len() as int] == k);
    }
    if s.push(x).contains(k) {
        let j = choose|j: int| 0 <= j < s.push(x).len() && s.push(x)[j] == k;
        if j < s.len() {
            assert(s[j] == k);
        }
    }
}

/// Appending an absent `x` keeps a sequence free of duplicates.
proof fn lemma_push_no_duplicates<T>(s: Seq<T>, x: T)
    requires
        s.no_duplicates(),
        !s.contains(x),
    ensures
        s.push(x).no_duplicates(),
{
    assert forall|i: int, j: int|
        0 <= i < s.push(x).len() && 0 <= j < s.push(x).len() && i != j implies s.push(x)[i]
        != s.push(x)[j] by {
        if i == s.len() {
            assert(s[j] == s.push(x)[j]);
        } else if j == s.len() {
            assert(s[i] == s.push(x)[i]);
        }
    }
}

/// Key-value storage of client and transaction snapshots. Every write
/// replaces the whole record stored under the record's id.
pub trait Store {
    /// The clients, by id.
    spec fn clients(&self) -> Map<u16, Client>;

    /// The transactions, by id.
    spec fn transactions(&self) -> Map<u32, Transaction>;

    /// The backend's own consistency condition.
    spec fn well_formed(&self) -> bool;

    /// The backend never fails a write (true of a store held in memory).
    spec fn writes_cannot_fail(&self) -> bool;

    /// A well-formed store holds every record under its own id.
    proof fn lemma_keyed_by_id(&self)
        requires
            self.well_formed(),
        ensures
            clients_keyed_by_id(self.clients()),
            transactions_keyed_by_id(self.transactions()),
    ;

    fn get_client(&self, id: u16) -> (r: Option<Client>)
        requires
            self.well_formed(),
        ensures
            r == lookup(self.clients(), id),
    ;

    fn set_client(&mut self, client: Client) -> (r: Result<(), StoreError>)
        requires
            old(self).well_formed(),
        ensures
            final(self).well_formed(),
            r is Ok ==> final(self).clients() == old(self).clients().insert(client.id, client),
            r is Ok ==> final(self).transactions() == old(self).transactions(),
            old(self).writes_cannot_fail() ==> r is Ok && final(self).writes_cannot_fail(),
    ;

    fn get_transaction(&self, id: u32) -> (r: Option<Transaction>)
        requires
            self.well_formed(),
        ensures
            r == lookup(self.transactions(), id),
    ;

    fn set_transaction(&mut self, transaction: Transaction) -> (r: Result<(), StoreError>)
        requires
            old(self).well_formed(),
        ensures
            final(self).well_formed(),
            r is Ok ==> final(self).transactions() == old(self).transactions().insert(
                transaction.id,
                transaction,
            ),
            r is Ok ==> final(self).clients() == old(self).clients(),
            old(self).writes_cannot_fail() ==> r is Ok && final(self).writes_cannot_fail(),
    ;

    /// Every stored client once, in no particular order.
    fn dump_clients(&self) -> (r: Vec<Client>)
        requires
            self.well_formed(),
        ensures
            forall|i: int|
                0 <= i < r@.len() ==> #[trigger] lookup(self.clients(), r@[i].id) == Some(r@[i]),
            forall|i: int, j: int| 0 <= i < j < r@.len() ==> r@[i].id != r@[j].id,
            forall|id: u16|
                #[trigger] self.clients().contains_key(id) ==> exists|i: int|
                    0 <= i < r@.len() && r@[i].id == id,
    ;

    /// Every stored transaction once, in no particular order.
    fn dump_transactions(&self) -> (r: Vec<Transaction>)
        requires
            self.well_formed(),
        ensures
            forall|i: int|
                0 <= i < r@.len() ==> #[trigger] lookup(self.transactions(), r@[i].id) == Some(
                    r@[i],
                ),
            forall|i: int, j: int| 0 <= i < j < r@.len() ==> r@[i].id != r@[j].id,
            forall|id: u32|
                #[trigger] self.transactions().contains_key(id) ==> exists|i: int|
                    0 <= i < r@.len() && r@[i].id == id,
    ;
}

/// A store held in memory. Besides the two maps it keeps the ids of each in
/// the order they were first written, so that a dump can walk them.
pub struct InMemoryStore {
    clients: HashMap<u16, Client>,
    client_ids: Vec<u16>,
    transactions: HashMap<u32, Transaction>,
    transaction_ids: Vec<u32>,
}

impl InMemoryStore {
    /// An empty store.
    pub fn new() -> (r: InMemoryStore)
        ensures
            r.well_formed(),
            r.writes_cannot_fail(),
            r.clients() == Map::<u16, Client>::empty(),
            r.transactions() == Map::<u32, Transaction>::empty(),
    {
        InMemoryStore {
            clients: HashMap::new(),
            client_ids: Vec::new(),
            transactions: HashMap::new(),
            transaction_ids: Vec::new(),
        }
    }
}

impl Default for InMemoryStore {
    fn default() -> (r: InMemoryStore)
        ensures
            r.well_formed(),
            r.writes_cannot_fail(),
            r.clients() == Map::<u16, Client>::empty(),
            r.transactions() == Map::<u32, Transaction>::empty(),
    {
        InMemoryStore::new()
    }
}

impl Store for InMemoryStore {
    closed spec fn clients(&self) -> Map<u16, Client> {
        self.clients@
    }

    closed spec fn transactions(&self) -> Map<u32, Transaction> {
        self.transactions@
    }

    open spec fn writes_cannot_fail(&self) -> bool {
        true
    }

    proof fn lemma_keyed_by_id(&self) {
    }

    closed spec fn well_formed(&self) -> bool {
        &&& clients_keyed_by_id(self.clients@)
        &&& transactions_keyed_by_id(self.transactions@)
        &&& self.client_ids@.no_duplicates()
        &&& self.transaction_ids@.no_duplicates()
        &&& forall|k: u16| #[trigger]
            self.clients@.contains_key(k) <==> self.client_ids@.contains(k)
        &&& forall|k: u32| #[trigger]
            self.transactions@.contains_key(k) <==> self.transaction_ids@.contains(k)
    }

    fn get_client(&self, id: u16) -> (r: Option<Client>) {
        match self.clients.get(&id) {
            Some(c) => Some(*c),
            None => None,
        }
    }

    fn set_client(&mut self, client: Client) -> (r: Result<(), StoreError>)
        ensures
            r is Ok,
    {
        let is_new = !self.clients.contains_key(&client.id);
        if is_new {
            proof {
                lemma_push_no_duplicates(self.client_ids@, client.id);
            }
            self.client_ids.push(client.id);
        }
        self.clients.insert(client.id, client);
        proof {
            assert forall|k: u16| #[trigger]
                self.clients@.contains_key(k) <==> self.client_ids@.contains(k) by {
                lemma_push_contains(old(self).client_ids@, client.id, k);
            }
        }
        Ok(())
    }

    fn get_transaction(&self, id: u32) -> (r: Option<Transaction>) {
        match self.transactions.get(&id) {
            Some(t) => Some(*t),
            None => None,
        }
    }

    fn set_transaction(&mut self, transaction: Transaction) -> (r: Result<(), StoreError>)
        ensures
            r is Ok,
    {
        let is_new = !self.transactions.contains_key(&transaction.id);
        if is_new {
            proof {
                lemma_push_no_duplicates(self.transaction_ids@, transaction.id);
            }
            self.transaction_ids.push(transaction.id);
        }
        self.transactions.insert(transaction.id, transaction);
        proof {
            assert forall|k: u32| #[trigger]
                self.transactions@.contains_key(k) <==> self.transaction_ids@.contains(k) by {
                lemma_push_contains(old(self).transaction_ids@, transaction.id, k);
            }
        }
        Ok(())
    }

    fn dump_clients(&self) -> (r: Vec<Client>) {
        let mut out: Vec<Client> = Vec::new();
        let mut i: usize = 0;
        while i < self.client_ids.len()
            invariant
                self.well_formed(),
                i <= self.client_ids@.len(),
                out@.len() == i,
                forall|j: int| 0 <= j < i ==> out@[j].id == self.client_ids@[j],
                forall|j: int|
                    0 <= j < i ==> #[trigger] lookup(self.clients@, out@[j].id) == Some(out@[j]),
            decreases self.client_ids@.len() - i,
        {
            let id = self.client_ids[i];
            assert(self.client_ids@.contains(id));
            let c = *self.clients.get(&id).unwrap();
            out.push(c);
            i = i + 1;
        }
        proof {
            assert forall|i: int, j: int| 0 <= i < j < out@.len() implies out@[i].id
                != out@[j].id by {
                assert(self.client_ids@[i] != self.client_ids@[j]);
            }
            assert forall|id: u16| #[trigger] self.clients().contains_key(id) implies exists|i: int|
                0 <= i < out@.len() && out@[i].id == id by {
                let k = choose|k: int| 0 <= k < self.client_ids@.len() && self.client_ids@[k] == id;
                assert(out@[k].id == id);
            }
        }
        out
    }

    fn dump_transactions(&self) -> (r: Vec<Transaction>) {
        let mut out: Vec<Transaction> = Vec::new();
        let mut i: usize = 0;
        while i < self.transaction_ids.len()
            invariant
                self.well_formed(),
                i <= self.transaction_ids@.len(),
                out@.len() == i,
                forall|j: int| 0 <= j < i ==> out@[j].id == self.transaction_ids@[j],
                forall|j: int|
                    0 <= j < i ==> #[trigger] lookup(self.transactions@, out@[j].id) == Some(
                        out@[j],
                    ),
            decreases self.transaction_ids@.len() - i,
        {
            let id = self.transaction_ids[i];
            assert(self.transaction_ids@.contains(id));
            let t = *self.transactions.get(&id).unwrap();
            out.push(t);
            i = i + 1;
        }
        proof {
            assert forall|i: int, j: int| 0 <= i < j < out@.len() implies out@[i].id
                != out@[j].id by {
                assert(self.transaction_ids@[i] != self.transaction_ids@[j]);
            }
            assert forall|id: u32| #[trigger] self.transactions().contains_key(id) implies exists|i: int|
                0 <= i < out@.len() && out@[i].id == id by {
                let k = choose|k: int|
                    0 <= k < self.transaction_ids@.len() && self.transaction_ids@[k] == id;
                assert(out@[k].id == id);
            }
        }
        out
    }
}

} // verus!
