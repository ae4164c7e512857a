use transaction_processor::logger::NoopLogger;
use transaction_processor::processor::ProcessorError;
use transaction_processor::runner::{apply_event, process_event, replay, Event, EventType};
use transaction_processor::store::{Client, InMemoryStore, Store, Transaction};

fn event(event_type: EventType, client: u16, tx: u32, amount: Option<i64>) -> Event {
    Event { event_type, client, tx, amount }
}

fn client(id: u16, available: i64, held: i64, locked: bool) -> Client {
    Client { id, available, held, locked }
}

fn deposited() -> InMemoryStore {
    let mut store = InMemoryStore::new();
    let r = process_event(&mut store, &event(EventType::Deposit, 1, 1, Some(50_000)));
    assert_eq!(r, Ok(()));
    store
}

#[test]
fn scenario_deposit_on_empty_store() {
    let store = deposited();
    let c = store.get_client(1).unwrap();
    assert_eq!(c, client(1, 50_000, 0, false));
    assert_eq!(c.total(), 50_000);
    assert_eq!(
        store.get_transaction(1),
        Some(Transaction { id: 1, client: 1, amount: 50_000, disputed: false })
    );
}

#[test]
fn scenario_withdrawal_after_deposit() {
    let mut store = deposited();
    let r = process_event(&mut store, &event(EventType::Withdrawal, 1, 2, Some(30_000)));
    assert_eq!(r, Ok(()));
    let c = store.get_client(1).unwrap();
    assert_eq!(c, client(1, 20_000, 0, false));
    assert_eq!(c.total(), 20_000);
}

#[test]
fn scenario_withdrawal_above_balance() {
    let mut store = deposited();
    process_event(&mut store, &event(EventType::Withdrawal, 1, 2, Some(30_000))).unwrap();
    let r = process_event(&mut store, &event(EventType::Withdrawal, 1, 3, Some(1_000_000)));
    assert_eq!(r, Err(ProcessorError::WithdrawalAboveBalance));
    assert_eq!(store.get_client(1).unwrap(), client(1, 20_000, 0, false));
    assert_eq!(store.get_transaction(3), None);
}

#[test]
fn scenario_dispute_holds_funds() {
    let mut store = deposited();
    let r = process_event(&mut store, &event(EventType::Dispute, 1, 1, None));
    assert_eq!(r, Ok(()));
    assert_eq!(store.get_client(1).unwrap(), client(1, 0, 50_000, false));
    assert!(store.get_transaction(1).unwrap().disputed);
}

#[test]
fn scenario_resolve_releases_funds() {
    let mut store = deposited();
    process_event(&mut store, &event(EventType::Dispute, 1, 1, None)).unwrap();
    let r = process_event(&mut store, &event(EventType::Resolve, 1, 1, None));
    assert_eq!(r, Ok(()));
    assert_eq!(store.get_client(1).unwrap(), client(1, 50_000, 0, false));
    assert!(!store.get_transaction(1).unwrap().disputed);
}

#[test]
fn scenario_chargeback_locks_account() {
    let mut store = deposited();
    process_event(&mut store, &event(EventType::Dispute, 1, 1, None)).unwrap();
    process_event(&mut store, &event(EventType::Resolve, 1, 1, None)).unwrap();
    process_event(&mut store, &event(EventType::Dispute, 1, 1, None)).unwrap();
    assert_eq!(store.get_client(1).unwrap(), client(1, 0, 50_000, false));
    let r = process_event(&mut store, &event(EventType::Chargeback, 1, 1, None));
    assert_eq!(r, Ok(()));
    assert_eq!(store.get_client(1).unwrap(), client(1, 0, 0, true));
    assert!(!store.get_transaction(1).unwrap().disputed);
    let r = process_event(&mut store, &event(EventType::Deposit, 1, 4, Some(10_000)));
    assert_eq!(r, Err(ProcessorError::ClientLocked));
    assert_eq!(store.get_client(1).unwrap(), client(1, 0, 0, true));
    assert_eq!(store.get_transaction(4), None);
}

#[test]
fn total_is_available_plus_held() {
    let c = client(3, 12_500, -2_500, false);
    assert_eq!(c.total(), 10_000);
    let big = client(3, i64::MAX, i64::MAX, false);
    assert_eq!(big.total(), 2 * (i64::MAX as i128));
}

#[test]
fn locked_client_stays_locked() {
    let mut store = deposited();
    process_event(&mut store, &event(EventType::Dispute, 1, 1, None)).unwrap();
    process_event(&mut store, &event(EventType::Chargeback, 1, 1, None)).unwrap();
    for e in [
        event(EventType::Deposit, 1, 5, Some(1)),
        event(EventType::Withdrawal, 1, 6, Some(1)),
        event(EventType::Dispute, 1, 1, None),
        event(EventType::Resolve, 1, 1, None),
        event(EventType::Chargeback, 1, 1, None),
    ] {
        let _ = process_event(&mut store, &e);
        assert!(store.get_client(1).unwrap().locked);
    }
}

#[test]
fn transaction_fields_stay_fixed() {
    let mut store = deposited();
    process_event(&mut store, &event(EventType::Dispute, 1, 1, None)).unwrap();
    process_event(&mut store, &event(EventType::Resolve, 1, 1, None)).unwrap();
    let _ = process_event(&mut store, &event(EventType::Deposit, 2, 1, Some(99)));
    let t = store.get_transaction(1).unwrap();
    assert_eq!((t.id, t.client, t.amount), (1, 1, 50_000));
}

#[test]
fn rejected_event_is_rejected_again_without_change() {
    let mut store = deposited();
    let e = event(EventType::Resolve, 1, 1, None);
    let first = process_event(&mut store, &e);
    assert_eq!(first, Err(ProcessorError::TransactionNotDisputed));
    assert_eq!(store.dump_clients(), vec![client(1, 50_000, 0, false)]);
    let second = process_event(&mut store, &e);
    assert_eq!(second, first);
    assert_eq!(store.dump_clients(), vec![client(1, 50_000, 0, false)]);
    assert_eq!(store.dump_transactions().len(), 1);
}

#[test]
fn repeated_transaction_id_is_rejected() {
    let mut store = deposited();
    let again = process_event(&mut store, &event(EventType::Withdrawal, 1, 1, Some(1)));
    assert_eq!(again, Err(ProcessorError::TransactionExists));
    let again = process_event(&mut store, &event(EventType::Deposit, 7, 1, Some(1)));
    assert_eq!(again, Err(ProcessorError::TransactionExists));
    assert_eq!(store.get_client(7), None);
}

#[test]
fn unknown_client_is_not_created_by_withdrawal() {
    let mut store = InMemoryStore::new();
    let r = process_event(&mut store, &event(EventType::Withdrawal, 9, 1, Some(1)));
    assert_eq!(r, Err(ProcessorError::ClientMissing));
    assert!(store.dump_clients().is_empty());
}

#[test]
fn empty_replay_dumps_no_clients() {
    let mut store = InMemoryStore::default();
    let r = replay(&mut store, &NoopLogger, &Vec::new());
    assert_eq!(r, Ok(()));
    assert!(store.dump_clients().is_empty());
    assert!(store.dump_transactions().is_empty());
}

#[test]
fn replay_runs_every_event_and_skips_rejections() {
    let mut store = InMemoryStore::new();
    let events = vec![
        event(EventType::Deposit, 1, 1, Some(10_000)),
        event(EventType::Deposit, 2, 2, Some(20_000)),
        event(EventType::Deposit, 1, 3, Some(20_000)),
        event(EventType::Withdrawal, 1, 4, Some(15_000)),
        event(EventType::Withdrawal, 2, 5, Some(30_000)),
    ];
    assert_eq!(replay(&mut store, &NoopLogger, &events), Ok(()));
    let mut clients = store.dump_clients();
    clients.sort_by_key(|c| c.id);
    assert_eq!(clients, vec![client(1, 15_000, 0, false), client(2, 20_000, 0, false)]);
    assert_eq!(store.get_transaction(5), None);
}

#[test]
fn apply_event_logs_and_continues() {
    let mut store = InMemoryStore::new();
    let r = apply_event(&mut store, &NoopLogger, &event(EventType::Dispute, 1, 1, None));
    assert_eq!(r, Ok(()));
    assert!(store.dump_clients().is_empty());
}

#[test]
fn set_client_replaces_whole_record() {
    let mut store = InMemoryStore::new();
    store.set_client(client(4, 1, 2, false)).unwrap();
    store.set_client(client(4, 3, 0, true)).unwrap();
    assert_eq!(store.get_client(4), Some(client(4, 3, 0, true)));
    assert_eq!(store.dump_clients(), vec![client(4, 3, 0, true)]);
}

#[test]
fn replay_deposit_withdrawal_overdraw() {
    let mut store = InMemoryStore::new();
    let events = vec![
        event(EventType::Deposit, 1, 1, Some(50_000)),
        event(EventType::Withdrawal, 1, 2, Some(30_000)),
        event(EventType::Withdrawal, 1, 3, Some(1_000_000)),
    ];
    assert_eq!(replay(&mut store, &NoopLogger, &events), Ok(()));
    let clients = store.dump_clients();
    assert_eq!(clients, vec![client(1, 20_000, 0, false)]);
    assert_eq!(clients[0].total(), 20_000);
    assert_eq!(store.get_transaction(3), None);
}

#[test]
fn replay_dispute_cycle_ends_locked() {
    let mut store = InMemoryStore::new();
    let events = vec![
        event(EventType::Deposit, 1, 1, Some(50_000)),
        event(EventType::Dispute, 1, 1, None),
        event(EventType::Resolve, 1, 1, None),
        event(EventType::Dispute, 1, 1, None),
        event(EventType::Chargeback, 1, 1, None),
        event(EventType::Deposit, 1, 4, Some(10_000)),
    ];
    assert_eq!(replay(&mut store, &NoopLogger, &events), Ok(()));
    let clients = store.dump_clients();
    assert_eq!(clients, vec![client(1, 0, 0, true)]);
    assert_eq!(clients[0].total(), 0);
    assert_eq!(store.get_transaction(4), None);
}
