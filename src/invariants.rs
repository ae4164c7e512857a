use crate::processor::ProcessorError;
use crate::runner::{ledger_outcome, ledger_step, replay_events, Event, EventType};
use crate::store::{clients_keyed_by_id, transactions_keyed_by_id, Client, Transaction};
use vstd::prelude::*;

verus! {

/// A ledger whose records are each stored under their own id.
pub open spec fn keyed_ledger(clients: Map<u16, Client>, transactions: Map<u32, Transaction>) -> bool {
    clients_keyed_by_id(clients) && transactions_keyed_by_id(transactions)
}

/// Every event keeps each record stored under its own id.
pub proof fn lemma_step_keeps_ledger_keyed(
    clients: Map<u16, Client>,
    transactions: Map<u32, Transaction>,
    event: Event,
)
    requires
        keyed_ledger(clients, transactions),
    ensures
        keyed_ledger(ledger_step(clients, transactions, event).0, ledger_step(clients, transactions, event).1),
{
}

/// Any sequence of events keeps each record stored under its own id.
pub proof fn lemma_replay_keeps_ledger_keyed(
    clients: Map<u16, Client>,
    transactions: Map<u32, Transaction>,
    events: Seq<Event>,
)
    requires
        keyed_ledger(clients, transactions),
    ensures
        keyed_ledger(
            replay_events(clients, transactions, events).0,
            replay_events(clients, transactions, events).1,
        ),
    decreases events.len(),
{
    if events.len() > 0 {
        lemma_replay_keeps_ledger_keyed(clients, transactions, events.drop_last());
        let (c, t) = replay_events(clients, transactions, events.drop_last());
        lemma_step_keeps_ledger_keyed(c, t, events.last());
    }
}

/// A locked client stays, and stays locked, whatever event comes.
pub proof fn lemma_locked_is_permanent(
    clients: Map<u16, Client>,
    transactions: Map<u32, Transaction>,
    event: Event,
)
    requires
        keyed_ledger(clients, transactions),
    ensures
        forall|id: u16|
            #[trigger] clients.contains_key(id) && clients[id].locked ==> {
                &&& ledger_step(clients, transactions, event).0.contains_key(id)
                &&& ledger_step(clients, transactions, event).0[id].locked
            },
{
}

/// A locked client stays, and stays locked, through any sequence of events.
pub proof fn lemma_locked_is_permanent_over_replay(
    clients: Map<u16, Client>,
    transactions: Map<u32, Transaction>,
    events: Seq<Event>,
)
    requires
        keyed_ledger(clients, transactions),
    ensures
        forall|id: u16|
            #[trigger] clients.contains_key(id) && clients[id].locked ==> {
                &&& replay_events(clients, transactions, events).0.contains_key(id)
                &&& replay_events(clients, transactions, events).0[id].locked
            },
    decreases events.len(),
{
    if events.len() > 0 {
        lemma_locked_is_permanent_over_replay(clients, transactions, events.drop_last());
        lemma_replay_keeps_ledger_keyed(clients, transactions, events.drop_last());
        let (c, t) = replay_events(clients, transactions, events.drop_last());
        lemma_locked_is_permanent(c, t, events.last());
    }
}

/// Once recorded, a transaction keeps its id, client and amount whatever
/// event comes; only its disputed flag may change.
pub proof fn lemma_transaction_is_fixed(
    clients: Map<u16, Client>,
    transactions: Map<u32, Transaction>,
    event: Event,
)
    requires
        keyed_ledger(clients, transactions),
    ensures
        forall|id: u32|
            #[trigger] transactions.contains_key(id) ==> {
                let after = ledger_step(clients, transactions, event).1;
                &&& after.contains_key(id)
                &&& after[id].id == transactions[id].id
                &&& after[id].client == transactions[id].client
                &&& after[id].amount == transactions[id].amount
            },
{
}

/// Once recorded, a transaction keeps its id, client and amount through any
/// sequence of events.
pub proof fn lemma_transaction_is_fixed_over_replay(
    clients: Map<u16, Client>,
    transactions: Map<u32, Transaction>,
    events: Seq<Event>,
)
    requires
        keyed_ledger(clients, transactions),
    ensures
        forall|id: u32|
            #[trigger] transactions.contains_key(id) ==> {
                let after = replay_events(clients, transactions, events).1;
                &&& after.contains_key(id)
                &&& after[id].id == transactions[id].id
                &&& after[id].client == transactions[id].client
                &&& after[id].amount == transactions[id].amount
            },
    decreases events.len(),
{
    if events.len() > 0 {
        lemma_transaction_is_fixed_over_replay(clients, transactions, events.drop_last());
        lemma_replay_keeps_ledger_keyed(clients, transactions, events.drop_last());
        let (c, t) = replay_events(clients, transactions, events.drop_last());
        lemma_transaction_is_fixed(c, t, events.last());
    }
}

/// A rejected event changes nothing, so running it again on the same ledger
/// is rejected the same way.
pub proof fn lemma_rejection_changes_nothing(
    clients: Map<u16, Client>,
    transactions: Map<u32, Transaction>,
    event: Event,
)
    requires
        ledger_outcome(clients, transactions, event) is Err,
    ensures
        ledger_step(clients, transactions, event) == (clients, transactions),
        ledger_outcome(
            ledger_step(clients, transactions, event).0,
            ledger_step(clients, transactions, event).1,
            event,
        ) == ledger_outcome(clients, transactions, event),
{
}

/// A deposit or withdrawal whose transaction id is already recorded is
/// rejected as a repeat, whatever the client's state.
pub proof fn lemma_known_id_rejected(
    clients: Map<u16, Client>,
    transactions: Map<u32, Transaction>,
    event: Event,
)
    requires
        event.event_type == EventType::Deposit || event.event_type == EventType::Withdrawal,
        transactions.contains_key(event.tx),
    ensures
        ledger_outcome(clients, transactions, event) == Err::<(Client, Transaction), ProcessorError>(
            ProcessorError::TransactionExists,
        ),
{
}

/// Once a deposit or withdrawal has been processed, processing the same
/// transaction id again is rejected as a repeat, whatever the client's state
/// and whatever came in between.
pub proof fn lemma_repeated_id_rejected(
    clients: Map<u16, Client>,
    transactions: Map<u32, Transaction>,
    event: Event,
    between: Seq<Event>,
    again: Event,
)
    requires
        keyed_ledger(clients, transactions),
        event.event_type == EventType::Deposit || event.event_type == EventType::Withdrawal,
        again.event_type == EventType::Deposit || again.event_type == EventType::Withdrawal,
        again.tx == event.tx,
        ledger_outcome(clients, transactions, event) is Ok,
    ensures
        ({
            let (c1, t1) = ledger_step(clients, transactions, event);
            let (c2, t2) = replay_events(c1, t1, between);
            ledger_outcome(c2, t2, again) == Err::<(Client, Transaction), ProcessorError>(
                ProcessorError::TransactionExists,
            )
        }),
{
    let (c1, t1) = ledger_step(clients, transactions, event);
    assert(t1.contains_key(event.tx));
    lemma_step_keeps_ledger_keyed(clients, transactions, event);
    lemma_transaction_is_fixed_over_replay(c1, t1, between);
    let (c2, t2) = replay_events(c1, t1, between);
    lemma_known_id_rejected(c2, t2, again);
}

/// Replaying no events leaves the ledger as it was; from an empty ledger
/// there are no clients to dump.
pub proof fn lemma_empty_replay(clients: Map<u16, Client>, transactions: Map<u32, Transaction>)
    ensures
        replay_events(clients, transactions, Seq::empty()) == (clients, transactions),
        replay_events(Map::empty(), Map::empty(), Seq::empty()).0 == Map::<u16, Client>::empty(),
{
}

} // verus!
