use crate::invariants::{lemma_locked_is_permanent, lemma_transaction_is_fixed};
use crate::logger::Logger;
use crate::processor::{
    chargeback_outcome, deposit_outcome, dispute_outcome, resolve_outcome, withdrawal_outcome,
    ChargebackProcessor, DepositProcessor, DisputeProcessor, Processor, ProcessorError,
    ResolveProcessor, WithdrawalProcessor,
};
use crate::store::{lookup, Client, Store, StoreError, Transaction};
use vstd::prelude::*;

verus! {

/// The five kinds of ledger event.
#[derive(PartialEq, Eq, Structural, Debug, Clone, Copy)]
pub enum EventType {
    Deposit,
    Withdrawal,
    Dispute,
    Resolve,
    Chargeback,
}

/// One input record. `amount` is fixed-point, in units of one
/// ten-thousandth, and is read only by deposits and withdrawals.
#[derive(PartialEq, Eq, Structural, Debug, Clone, Copy)]
pub struct Event {
    pub event_type: EventType,
    pub client: u16,
    pub tx: u32,
    pub amount: Option<i64>,
}

} // verus!

verus! {

/// Why a run stopped.
#[derive(PartialEq, Eq, Structural, Debug, Clone, Copy)]
pub enum RunnerError {
    StoreError(StoreError),
    FileError,
}

impl RunnerError {
    /// A human-readable description of the failure.
    pub fn message(&self) -> (r: String)
        ensures
            r@ == (match *self {
                RunnerError::StoreError(_) => "Store could not complete the write"@,
                RunnerError::FileError => "Input file could not be opened"@,
            }),
    {
        match self {
            RunnerError::StoreError(_) => "Store could not complete the write".to_owned(),
            RunnerError::FileError => "Input file could not be opened".to_owned(),
        }
    }
}

impl From<StoreError> for RunnerError {
    fn from(e: StoreError) -> (r: RunnerError)
        ensures
            r == RunnerError::StoreError(e),
    {
        RunnerError::StoreError(e)
    }
}

impl vstd::std_specs::convert::FromSpecImpl<StoreError> for RunnerError {
    open spec fn obeys_from_spec() -> bool {
        true
    }

    open spec fn from_spec(e: StoreError) -> RunnerError {
        RunnerError::StoreError(e)
    }
}

/// The transition that an event's kind selects.
pub open spec fn event_outcome(
    maybe_tx: Option<Transaction>,
    maybe_client: Option<Client>,
    event: Event,
) -> Result<(Client, Transaction), ProcessorError> {
    match event.event_type {
        EventType::Deposit => deposit_outcome(maybe_tx, maybe_client, event),
        EventType::Withdrawal => withdrawal_outcome(maybe_tx, maybe_client, event),
        EventType::Dispute => dispute_outcome(maybe_tx, maybe_client, event),
        EventType::Resolve => resolve_outcome(maybe_tx, maybe_client, event),
        EventType::Chargeback => chargeback_outcome(maybe_tx, maybe_client, event),
    }
}

/// The transition applied to the snapshots that a ledger holds under the
/// event's ids.
pub open spec fn ledger_outcome(
    clients: Map<u16, Client>,
    transactions: Map<u32, Transaction>,
    event: Event,
) -> Result<(Client, Transaction), ProcessorError> {
    event_outcome(lookup(transactions, event.tx), lookup(clients, event.client), event)
}

/// The ledger after one event: on success both snapshots are written back
/// under their ids; on rejection nothing changes.
pub open spec fn ledger_step(
    clients: Map<u16, Client>,
    transactions: Map<u32, Transaction>,
    event: Event,
) -> (Map<u16, Client>, Map<u32, Transaction>) {
    match ledger_outcome(clients, transactions, event) {
        Ok((c, t)) => (clients.insert(c.id, c), transactions.insert(t.id, t)),
        Err(_) => (clients, transactions),
    }
}

/// The ledger after a sequence of events, applied in order.
pub open spec fn replay_events(
    clients: Map<u16, Client>,
    transactions: Map<u32, Transaction>,
    events: Seq<Event>,
) -> (Map<u16, Client>, Map<u32, Transaction>)
    decreases events.len(),
{
    if events.len() == 0 {
        (clients, transactions)
    } else {
        let (c, t) = replay_events(clients, transactions, events.drop_last());
        ledger_step(c, t, events.last())
    }
}

/// Runs the transition that the event's kind selects.
pub fn dispatch(
    maybe_tx: Option<Transaction>,
    maybe_client: Option<Client>,
    event: &Event,
) -> (r: Result<(Client, Transaction), ProcessorError>)
    ensures
        r == event_outcome(maybe_tx, maybe_client, *event),
{
    match event.event_type {
        EventType::Deposit => DepositProcessor::process_event(maybe_tx, maybe_client, event),
        EventType::Withdrawal => WithdrawalProcessor::process_event(maybe_tx, maybe_client, event),
        EventType::Dispute => DisputeProcessor::process_event(maybe_tx, maybe_client, event),
        EventType::Resolve => ResolveProcessor::process_event(maybe_tx, maybe_client, event),
        EventType::Chargeback => ChargebackProcessor::process_event(maybe_tx, maybe_client, event),
    }
}

/// Applies one event to the store: fetch both snapshots, run the
/// transition, and on success write the transaction, then the client.
/// A rejection leaves the store untouched; a failed write is reported as
/// `ProcessorError::StoreError`.
pub fn process_event<S: Store>(store: &mut S, event: &Event) -> (r: Result<(), ProcessorError>)
    requires
        old(store).well_formed(),
    ensures
        final(store).well_formed(),
        match ledger_outcome(old(store).clients(), old(store).transactions(), *event) {
            Err(e) => {
                &&& r == Err::<(), ProcessorError>(e)
                &&& final(store).clients() == old(store).clients()
                &&& final(store).transactions() == old(store).transactions()
            },
            Ok(_) => {
                &&& (r is Ok || r matches Err(ProcessorError::StoreError(_)))
                &&& r is Ok ==> (final(store).clients(), final(store).transactions())
                    == ledger_step(old(store).clients(), old(store).transactions(), *event)
            },
        },
        old(store).writes_cannot_fail() ==> {
            &&& final(store).writes_cannot_fail()
            &&& (r is Ok <==> ledger_outcome(old(store).clients(), old(store).transactions(), *event) is Ok)
            &&& (final(store).clients(), final(store).transactions()) == ledger_step(
                old(store).clients(),
                old(store).transactions(),
                *event,
            )
        },
{
    let maybe_tx = store.get_transaction(event.tx);
    let maybe_client = store.get_client(event.client);
    match dispatch(maybe_tx, maybe_client, event) {
        Err(e) => Err(e),
        Ok((client, transaction)) => {
            match store.set_transaction(transaction) {
                Err(e) => return Err(ProcessorError::StoreError(e)),
                Ok(()) => {},
            }
            match store.set_client(client) {
                Err(e) => Err(ProcessorError::StoreError(e)),
                Ok(()) => Ok(()),
            }
        },
    }
}

/// Applies one event and sends any rejection's message to the logger.
/// Only a failed write stops the run.
pub fn apply_event<S: Store, L: Logger>(store: &mut S, logger: &L, event: &Event) -> (r: Result<
    (),
    RunnerError,
>)
    requires
        old(store).well_formed(),
    ensures
        final(store).well_formed(),
        r is Ok ==> (final(store).clients(), final(store).transactions()) == ledger_step(
            old(store).clients(),
            old(store).transactions(),
            *event,
        ),
        r is Err ==> ledger_outcome(old(store).clients(), old(store).transactions(), *event) is Ok,
        r is Err ==> r matches Err(RunnerError::StoreError(_)),
        old(store).writes_cannot_fail() ==> r is Ok && final(store).writes_cannot_fail(),
        r is Ok ==> forall|id: u16|
            #[trigger] old(store).clients().contains_key(id) && old(store).clients()[id].locked ==> {
                &&& final(store).clients().contains_key(id)
                &&& final(store).clients()[id].locked
            },
        r is Ok ==> forall|n: u32|
            #[trigger] old(store).transactions().contains_key(n) ==> {
                &&& final(store).transactions().contains_key(n)
                &&& final(store).transactions()[n].id == old(store).transactions()[n].id
                &&& final(store).transactions()[n].client == old(store).transactions()[n].client
                &&& final(store).transactions()[n].amount == old(store).transactions()[n].amount
            },
{
    proof {
        store.lemma_keyed_by_id();
        lemma_locked_is_permanent(store.clients(), store.transactions(), *event);
        lemma_transaction_is_fixed(store.clients(), store.transactions(), *event);
    }
    match process_event(store, event) {
        Ok(()) => Ok(()),
        Err(ProcessorError::StoreError(e)) => Err(RunnerError::StoreError(e)),
        Err(e) => {
            logger.error(e.message());
            Ok(())
        },
    }
}

/// Applies the events in order, as `apply_event` does, and stops at the
/// first failed write.
pub fn replay<S: Store, L: Logger>(store: &mut S, logger: &L, events: &Vec<Event>) -> (r: Result<
    (),
    RunnerError,
>)
    requires
        old(store).well_formed(),
    ensures
        final(store).well_formed(),
        r is Ok ==> (final(store).clients(), final(store).transactions()) == replay_events(
            old(store).clients(),
            old(store).transactions(),
            events@,
        ),
        r is Err ==> r matches Err(RunnerError::StoreError(_)),
        r is Err ==> exists|k: int|
            0 <= k < events@.len() && #[trigger] ledger_outcome(
                replay_events(old(store).clients(), old(store).transactions(), events@.take(k)).0,
                replay_events(old(store).clients(), old(store).transactions(), events@.take(k)).1,
                events@[k],
            ) is Ok,
        old(store).writes_cannot_fail() ==> r is Ok && final(store).writes_cannot_fail(),
{
    let ghost c0 = store.clients();
    let ghost t0 = store.transactions();
    let ghost safe = store.writes_cannot_fail();
    let mut i: usize = 0;
    while i < events.len()
        invariant
            store.well_formed(),
            i <= events@.len(),
            (store.clients(), store.transactions()) == replay_events(c0, t0, events@.take(i as int)),
            safe ==> store.writes_cannot_fail(),
            safe == old(store).writes_cannot_fail(),
            c0 == old(store).clients(),
            t0 == old(store).transactions(),
        decreases events@.len() - i,
    {
        match apply_event(store, logger, &events[i]) {
            Ok(()) => {},
            Err(e) => {
                proof {
                    let k = i as int;
                    assert(ledger_outcome(
                        replay_events(c0, t0, events@.take(k)).0,
                        replay_events(c0, t0, events@.take(k)).1,
                        events@[k],
                    ) is Ok);
                }
                return Err(e);
            },
        }
        proof {
            assert(events@.take(i + 1).drop_last() == events@.take(i as int));
        }
        i = i + 1;
    }
    proof {
        assert(events@.take(events@.len() as int) == events@);
    }
    Ok(())
}

} // verus!
