use crate::runner::Event;
use crate::store::{Client, StoreError, Transaction};
use vstd::prelude::*;

verus! {

/// Why an event was rejected. All but `StoreError` leave the ledger untouched.
#[derive(PartialEq, Eq, Structural, Debug, Clone, Copy)]
pub enum ProcessorError {
    StoreError(StoreError),
    TransactionExists,
    NoAmount,
    ClientLocked,
    WithdrawalAboveBalance,
    ClientMissing,
    ClientTransactionMismatch,
    TransactionMissing,
    TransactionDisputed,
    WithdrawalNotDisputable,
    TransactionNotDisputed,
    /// The amount, or a balance it produces, does not fit in 64 bits.
    BalanceOverflow,
}

/// The text that describes a rejection.
pub open spec fn error_text(e: ProcessorError) -> Seq<char> {
    match e {
        ProcessorError::StoreError(_) => "Store could not complete the write"@,
        ProcessorError::TransactionExists => "Attempted processing of transaction that has already been processed"@,
        ProcessorError::NoAmount => "Amount not specified for transaction"@,
        ProcessorError::ClientLocked => "Attempted to deposit or withdraw on locked client account"@,
        ProcessorError::WithdrawalAboveBalance => "Withdrawal exceeds client withdrawable (free) balance"@,
        ProcessorError::ClientMissing => "Dispute or withdrawal refers to nonexistent client"@,
        ProcessorError::ClientTransactionMismatch => "Client and transaction do not match in alleged dispute"@,
        ProcessorError::TransactionMissing => "Dispute refers to nonexistent transaction"@,
        ProcessorError::TransactionDisputed => "Attempted to open duplicate dispute on transaction"@,
        ProcessorError::WithdrawalNotDisputable => "Attempted to open dispute on withdrawal transaction"@,
        ProcessorError::TransactionNotDisputed => "Attempted to close a dispute on a non-disputed transaction"@,
        ProcessorError::BalanceOverflow => "Amount or resulting balance is out of range"@,
    }
}

impl ProcessorError {
    /// A human-readable description of the rejection.
    pub fn message(&self) -> (r: String)
        ensures
            r@ == error_text(*self),
    {
        match self {
            ProcessorError::StoreError(_) => "Store could not complete the write".to_owned(),
            ProcessorError::TransactionExists => "Attempted processing of transaction that has already been processed".to_owned(),
            ProcessorError::NoAmount => "Amount not specified for transaction".to_owned(),
            ProcessorError::ClientLocked => "Attempted to deposit or withdraw on locked client account".to_owned(),
            ProcessorError::WithdrawalAboveBalance => "Withdrawal exceeds client withdrawable (free) balance".to_owned(),
            ProcessorError::ClientMissing => "Dispute or withdrawal refers to nonexistent client".to_owned(),
            ProcessorError::ClientTransactionMismatch => "Client and transaction do not match in alleged dispute".to_owned(),
            ProcessorError::TransactionMissing => "Dispute refers to nonexistent transaction".to_owned(),
            ProcessorError::TransactionDisputed => "Attempted to open duplicate dispute on transaction".to_owned(),
            ProcessorError::WithdrawalNotDisputable => "Attempted to open dispute on withdrawal transaction".to_owned(),
            ProcessorError::TransactionNotDisputed => "Attempted to close a dispute on a non-disputed transaction".to_owned(),
            ProcessorError::BalanceOverflow => "Amount or resulting balance is out of range".to_owned(),
        }
    }
}

impl From<StoreError> for ProcessorError {
    fn from(e: StoreError) -> (r: ProcessorError)
        ensures
            r == ProcessorError::StoreError(e),
    {
        ProcessorError::StoreError(e)
    }
}

impl vstd::std_specs::convert::FromSpecImpl<StoreError> for ProcessorError {
    open spec fn obeys_from_spec() -> bool {
        true
    }

    open spec fn from_spec(e: StoreError) -> ProcessorError {
        ProcessorError::StoreError(e)
    }
}

/// Whether an integer fits in an `i64`.
pub open spec fn fits_i64(x: int) -> bool {
    i64::MIN <= x <= i64::MAX
}

/// Outcome of a deposit. Checks, first failure wins: the transaction id is
/// new; an existing client is not locked; the event carries an amount.
pub open spec fn deposit_outcome(
    maybe_tx: Option<Transaction>,
    maybe_client: Option<Client>,
    event: Event,
) -> Result<(Client, Transaction), ProcessorError> {
    if maybe_tx is Some {
        Err(ProcessorError::TransactionExists)
    } else if maybe_client is Some && maybe_client->0.locked {
        Err(ProcessorError::ClientLocked)
    } else if event.amount is None {
        Err(ProcessorError::NoAmount)
    } else {
        let amount = event.amount->0;
        let (available, held) = match maybe_client {
            Some(c) => (c.available, c.held),
            None => (0i64, 0i64),
        };
        if !fits_i64(available + amount) {
            Err(ProcessorError::BalanceOverflow)
        } else {
            Ok(
                (
                    Client {
                        id: event.client,
                        available: (available + amount) as i64,
                        held,
                        locked: false,
                    },
                    Transaction { id: event.tx, client: event.client, amount, disputed: false },
                ),
            )
        }
    }
}

/// Outcome of a withdrawal. Checks, first failure wins: the transaction id
/// is new; the event carries an amount; the client exists; it is not locked;
/// the amount does not exceed the available balance.
pub open spec fn withdrawal_outcome(
    maybe_tx: Option<Transaction>,
    maybe_client: Option<Client>,
    event: Event,
) -> Result<(Client, Transaction), ProcessorError> {
    if maybe_tx is Some {
        Err(ProcessorError::TransactionExists)
    } else if event.amount is None {
        Err(ProcessorError::NoAmount)
    } else if maybe_client is None {
        Err(ProcessorError::ClientMissing)
    } else {
        let amount = event.amount->0;
        let c = maybe_client->0;
        if c.locked {
            Err(ProcessorError::ClientLocked)
        } else if amount > c.available {
            Err(ProcessorError::WithdrawalAboveBalance)
        } else if !fits_i64(c.available - amount) || !fits_i64(-amount) {
            Err(ProcessorError::BalanceOverflow)
        } else {
            Ok(
                (
                    Client { available: (c.available - amount) as i64, ..c },
                    Transaction {
                        id: event.tx,
                        client: event.client,
                        amount: (-amount) as i64,
                        disputed: false,
                    },
                ),
            )
        }
    }
}

/// Outcome of a dispute. Checks, first failure wins: the transaction exists;
/// it is not disputed; it is not a withdrawal; the client exists; the
/// transaction belongs to it. No floor is put on the available balance.
pub open spec fn dispute_outcome(
    maybe_tx: Option<Transaction>,
    maybe_client: Option<Client>,
    event: Event,
) -> Result<(Client, Transaction), ProcessorError> {
    if maybe_tx is None {
        Err(ProcessorError::TransactionMissing)
    } else {
        let t = maybe_tx->0;
        if t.disputed {
            Err(ProcessorError::TransactionDisputed)
        } else if t.amount < 0 {
            Err(ProcessorError::WithdrawalNotDisputable)
        } else if maybe_client is None {
            Err(ProcessorError::ClientMissing)
        } else {
            let c = maybe_client->0;
            if t.client != c.id {
                Err(ProcessorError::ClientTransactionMismatch)
            } else if !fits_i64(c.available - t.amount) || !fits_i64(c.held + t.amount) {
                Err(ProcessorError::BalanceOverflow)
            } else {
                Ok(
                    (
                        Client {
                            available: (c.available - t.amount) as i64,
                            held: (c.held + t.amount) as i64,
                            ..c
                        },
                        Transaction { disputed: true, ..t },
                    ),
                )
            }
        }
    }
}

/// Outcome of a resolve. Checks, first failure wins: the transaction exists;
/// it is disputed; the client exists; the transaction belongs to it.
pub open spec fn resolve_outcome(
    maybe_tx: Option<Transaction>,
    maybe_client: Option<Client>,
    event: Event,
) -> Result<(Client, Transaction), ProcessorError> {
    if maybe_tx is None {
        Err(ProcessorError::TransactionMissing)
    } else {
        let t = maybe_tx->0;
        if !t.disputed {
            Err(ProcessorError::TransactionNotDisputed)
        } else if maybe_client is None {
            Err(ProcessorError::ClientMissing)
        } else {
            let c = maybe_client->0;
            if t.client != c.id {
                Err(ProcessorError::ClientTransactionMismatch)
            } else if !fits_i64(c.available + t.amount) || !fits_i64(c.held - t.amount) {
                Err(ProcessorError::BalanceOverflow)
            } else {
                Ok(
                    (
                        Client {
                            available: (c.available + t.amount) as i64,
                            held: (c.held - t.amount) as i64,
                            ..c
                        },
                        Transaction { disputed: false, ..t },
                    ),
                )
            }
        }
    }
}

/// Outcome of a chargeback. Checks, first failure wins: the transaction
/// exists; it is disputed; the client exists; the transaction belongs to it.
/// The held funds leave the account and the account is locked.
pub open spec fn chargeback_outcome(
    maybe_tx: Option<Transaction>,
    maybe_client: Option<Client>,
    event: Event,
) -> Result<(Client, Transaction), ProcessorError> {
    if maybe_tx is None {
        Err(ProcessorError::TransactionMissing)
    } else {
        let t = maybe_tx->0;
        if !t.disputed {
            Err(ProcessorError::TransactionNotDisputed)
        } else if maybe_client is None {
            Err(ProcessorError::ClientMissing)
        } else {
            let c = maybe_client->0;
            if t.client != c.id {
                Err(ProcessorError::ClientTransactionMismatch)
            } else if !fits_i64(c.held - t.amount) {
                Err(ProcessorError::BalanceOverflow)
            } else {
                Ok(
                    (
                        Client { held: (c.held - t.amount) as i64, locked: true, ..c },
                        Transaction { disputed: false, ..t },
                    ),
                )
            }
        }
    }
}

/// A pure state transition for one kind of event: from the current
/// snapshots of the transaction and the client, to their next snapshots or
/// a rejection.
pub trait Processor {
    /// What the transition yields on the given snapshots.
    spec fn outcome(
        maybe_tx: Option<Transaction>,
        maybe_client: Option<Client>,
        event: Event,
    ) -> Result<(Client, Transaction), ProcessorError>;

    fn process_event(
        maybe_tx: Option<Transaction>,
        maybe_client: Option<Client>,
        event: &Event,
    ) -> (r: Result<(Client, Transaction), ProcessorError>)
        ensures
            r == Self::outcome(maybe_tx, maybe_client, *event),
    ;
}

pub struct DepositProcessor;

pub struct WithdrawalProcessor;

pub struct DisputeProcessor;

pub struct ResolveProcessor;

pub struct ChargebackProcessor;

impl Processor for DepositProcessor {
    open spec fn outcome(
        maybe_tx: Option<Transaction>,
        maybe_client: Option<Client>,
        event: Event,
    ) -> Result<(Client, Transaction), ProcessorError> {
        deposit_outcome(maybe_tx, maybe_client, event)
    }

    fn process_event(
        maybe_tx: Option<Transaction>,
        maybe_client: Option<Client>,
        event: &Event,
    ) -> (r: Result<(Client, Transaction), ProcessorError>) {
        if maybe_tx.is_some() {
            return Err(ProcessorError::TransactionExists);
        }
        if let Some(c) = maybe_client {
            if c.locked {
                return Err(ProcessorError::ClientLocked);
            }
        }
        let amount = match event.amount {
            None => return Err(ProcessorError::NoAmount),
            Some(amount) => amount,
        };
        let mut client = match maybe_client {
            Some(c) => c,
            None => Client { id: event.client, available: 0, held: 0, locked: false },
        };
        let available = client.available as i128 + amount as i128;
        if available < i64::MIN as i128 || available > i64::MAX as i128 {
            return Err(ProcessorError::BalanceOverflow);
        }
        client.id = event.client;
        client.available = available as i64;
        let tx = Transaction { id: event.tx, client: event.client, amount, disputed: false };
        Ok((client, tx))
    }
}

impl Processor for WithdrawalProcessor {
    open spec fn outcome(
        maybe_tx: Option<Transaction>,
        maybe_client: Option<Client>,
        event: Event,
    ) -> Result<(Client, Transaction), ProcessorError> {
        withdrawal_outcome(maybe_tx, maybe_client, event)
    }

    fn process_event(
        maybe_tx: Option<Transaction>,
        maybe_client: Option<Client>,
        event: &Event,
    ) -> (r: Result<(Client, Transaction), ProcessorError>) {
        if maybe_tx.is_some() {
            return Err(ProcessorError::TransactionExists);
        }
        let amount = match event.amount {
            None => return Err(ProcessorError::NoAmount),
            Some(amount) => amount,
        };
        let mut client = match maybe_client {
            None => return Err(ProcessorError::ClientMissing),
            Some(c) => c,
        };
        if client.locked {
            return Err(ProcessorError::ClientLocked);
        }
        if amount > client.available {
            return Err(ProcessorError::WithdrawalAboveBalance);
        }
        let available = client.available as i128 - amount as i128;
        let stored = -(amount as i128);
        if available < i64::MIN as i128 || available > i64::MAX as i128 || stored
            > i64::MAX as i128 {
            return Err(ProcessorError::BalanceOverflow);
        }
        client.available = available as i64;
        let tx = Transaction {
            id: event.tx,
            client: event.client,
            amount: stored as i64,
            disputed: false,
        };
        Ok((client, tx))
    }
}

impl Processor for DisputeProcessor {
    open spec fn outcome(
        maybe_tx: Option<Transaction>,
        maybe_client: Option<Client>,
        event: Event,
    ) -> Result<(Client, Transaction), ProcessorError> {
        dispute_outcome(maybe_tx, maybe_client, event)
    }

    fn process_event(
        maybe_tx: Option<Transaction>,
        maybe_client: Option<Client>,
        event: &Event,
    ) -> (r: Result<(Client, Transaction), ProcessorError>) {
        let mut tx = match maybe_tx {
            None => return Err(ProcessorError::TransactionMissing),
            Some(t) => t,
        };
        if tx.disputed {
            return Err(ProcessorError::TransactionDisputed);
        }
        if tx.amount < 0 {
            return Err(ProcessorError::WithdrawalNotDisputable);
        }
        let mut client = match maybe_client {
            None => return Err(ProcessorError::ClientMissing),
            Some(c) => c,
        };
        if tx.client != client.id {
            return Err(ProcessorError::ClientTransactionMismatch);
        }
        let available = client.available as i128 - tx.amount as i128;
        let held = client.held as i128 + tx.amount as i128;
        if available < i64::MIN as i128 || available > i64::MAX as i128 || held < i64::MIN as i128
            || held > i64::MAX as i128 {
            return Err(ProcessorError::BalanceOverflow);
        }
        client.available = available as i64;
        client.held = held as i64;
        tx.disputed = true;
        Ok((client, tx))
    }
}

impl Processor for ResolveProcessor {
    open spec fn outcome(
        maybe_tx: Option<Transaction>,
        maybe_client: Option<Client>,
        event: Event,
    ) -> Result<(Client, Transaction), ProcessorError> {
        resolve_outcome(maybe_tx, maybe_client, event)
    }

    fn process_event(
        maybe_tx: Option<Transaction>,
        maybe_client: Option<Client>,
        event: &Event,
    ) -> (r: Result<(Client, Transaction), ProcessorError>) {
        let mut tx = match maybe_tx {
            None => return Err(ProcessorError::TransactionMissing),
            Some(t) => t,
        };
        if !tx.disputed {
            return Err(ProcessorError::TransactionNotDisputed);
        }
        let mut client = match maybe_client {
            None => return Err(ProcessorError::ClientMissing),
            Some(c) => c,
        };
        if tx.client != client.id {
            return Err(ProcessorError::ClientTransactionMismatch);
        }
        let available = client.available as i128 + tx.amount as i128;
        let held = client.held as i128 - tx.amount as i128;
        if available < i64::MIN as i128 || available > i64::MAX as i128 || held < i64::MIN as i128
            || held > i64::MAX as i128 {
            return Err(ProcessorError::BalanceOverflow);
        }
        client.available = available as i64;
        client.held = held as i64;
        tx.disputed = false;
        Ok((client, tx))
    }
}

impl Processor for ChargebackProcessor {
    open spec fn outcome(
        maybe_tx: Option<Transaction>,
        maybe_client: Option<Client>,
        event: Event,
    ) -> Result<(Client, Transaction), ProcessorError> {
        chargeback_outcome(maybe_tx, maybe_client, event)
    }

    fn process_event(
        maybe_tx: Option<Transaction>,
        maybe_client: Option<Client>,
        event: &Event,
    ) -> (r: Result<(Client, Transaction), ProcessorError>) {
        let mut tx = match maybe_tx {
            None => return Err(ProcessorError::TransactionMissing),
            Some(t) => t,
        };
        if !tx.disputed {
            return Err(ProcessorError::TransactionNotDisputed);
        }
        let mut client = match maybe_client {
            None => return Err(ProcessorError::ClientMissing),
            Some(c) => c,
        };
        if tx.client != client.id {
            return Err(ProcessorError::ClientTransactionMismatch);
        }
        let held = client.held as i128 - tx.amount as i128;
        if held < i64::MIN as i128 || held > i64::MAX as i128 {
            return Err(ProcessorError::BalanceOverflow);
        }
        client.held = held as i64;
        client.locked = true;
        tx.disputed = false;
        Ok((client, tx))
    }
}

} // verus!
