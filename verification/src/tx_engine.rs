//! The ledger: one account per client, created when the client is first
//! named, and the dispatcher that hands each event to its account.

use crate::account::{Account, AccountState, Transaction};
use crate::amount::{Amount, LEDGER_SCALE};
use crate::errors::Error;
use std::collections::HashMap;
use vstd::prelude::*;
use vstd::std_specs::convert::FromSpecImpl;

verus! {

broadcast use vstd::std_specs::hash::group_hash_axioms;

/// What an event asks of an account.
#[derive(Clone, Copy, Debug, PartialEq, Eq, Structural)]
pub enum EventType {
    Deposit,
    Withdrawal,
    Dispute,
    Resolve,
    Chargeback,
}

impl EventType {
    /// The name of the kind as records spell it.
    pub open spec fn spec_name(self) -> Seq<char> {
        match self {
            EventType::Deposit => "deposit"@,
            EventType::Withdrawal => "withdrawal"@,
            EventType::Dispute => "dispute"@,
            EventType::Resolve => "resolve"@,
            EventType::Chargeback => "chargeback"@,
        }
    }

    /// The name of the kind, in lower case.
    pub fn name(&self) -> (r: &'static str)
        ensures
            r@ == self.spec_name(),
    {
        match self {
            EventType::Deposit => "deposit",
            EventType::Withdrawal => "withdrawal",
            EventType::Dispute => "dispute",
            EventType::Resolve => "resolve",
            EventType::Chargeback => "chargeback",
        }
    }

    /// The kind that a record's `type` field names. Upper and lower case
    /// letters are taken alike.
    pub open spec fn spec_from_name(name: Seq<char>) -> Option<EventType> {
        let folded = fold_case(name);
        if folded == EventType::Deposit.spec_name() {
            Some(EventType::Deposit)
        } else if folded == EventType::Withdrawal.spec_name() {
            Some(EventType::Withdrawal)
        } else if folded == EventType::Dispute.spec_name() {
            Some(EventType::Dispute)
        } else if folded == EventType::Resolve.spec_name() {
            Some(EventType::Resolve)
        } else if folded == EventType::Chargeback.spec_name() {
            Some(EventType::Chargeback)
        } else {
            None
        }
    }

    /// The kind that `name` names, if it names one of the five.
    pub fn from_name(name: &str) -> (r: Option<EventType>)
        ensures
            r == EventType::spec_from_name(name@),
    {
        if folds_to(name, EventType::Deposit.name()) {
            Some(EventType::Deposit)
        } else if folds_to(name, EventType::Withdrawal.name()) {
            Some(EventType::Withdrawal)
        } else if folds_to(name, EventType::Dispute.name()) {
            Some(EventType::Dispute)
        } else if folds_to(name, EventType::Resolve.name()) {
            Some(EventType::Resolve)
        } else if folds_to(name, EventType::Chargeback.name()) {
            Some(EventType::Chargeback)
        } else {
            None
        }
    }
}

/// The lower-case form of an upper-case ASCII letter; any other character
/// as it is.
pub open spec fn lower(c: char) -> char {
    if 'A' <= c && c <= 'Z' {
        ((c as u8) + 32) as char
    } else {
        c
    }
}

/// The text with its upper-case ASCII letters in lower case.
pub open spec fn fold_case(text: Seq<char>) -> Seq<char> {
    Seq::new(text.len(), |i: int| lower(text[i]))
}

fn to_lower(c: char) -> (r: char)
    ensures
        r == lower(c),
{
    if 'A' <= c && c <= 'Z' {
        ((c as u8) + 32) as char
    } else {
        c
    }
}

/// Whether `text`, letter case aside, is `word`.
fn folds_to(text: &str, word: &str) -> (r: bool)
    ensures
        r == (fold_case(text@) == word@),
{
    let n = text.unicode_len();
    if n != word.unicode_len() {
        return false;
    }
    let mut i: usize = 0;
    while i < n
        invariant
            i <= n,
            n == text@.len(),
            n == word@.len(),
            forall|j: int| 0 <= j < i ==> lower(text@[j]) == word@[j],
        decreases n - i,
    {
        if to_lower(text.get_char(i)) != word.get_char(i) {
            assert(fold_case(text@)[i as int] != word@[i as int]);
            return false;
        }
        i += 1;
    }
    assert(fold_case(text@) =~= word@);
    true
}

/// One record of the input: a kind, the client and transaction it names,
/// and for a deposit or withdrawal the amount.
#[derive(Clone, Copy, Debug, PartialEq, Eq, Structural)]
pub struct Event {
    pub event_type: EventType,
    pub client: u16,
    pub tx: u32,
    pub amount: Option<Amount>,
}

impl Event {
    /// An event as a record gives it.
    pub fn new(event_type: EventType, client: u16, tx: u32, amount: Option<Amount>) -> (r: Event)
        ensures
            r == (Event { event_type, client, tx, amount }),
    {
        Event { event_type, client, tx, amount }
    }

    /// The amount that reaches the account: a deposit's or withdrawal's
    /// amount brought to the ledger's fractional digits, and none for the
    /// other kinds, which go by the recorded deposit.
    pub open spec fn ledger_amount(self) -> Option<Amount> {
        match self.event_type {
            EventType::Deposit | EventType::Withdrawal => match self.amount {
                Some(a) => Some(
                    if a.wf() {
                        a.rescaled(LEDGER_SCALE)
                    } else {
                        a
                    },
                ),
                None => None,
            },
            _ => None,
        }
    }

    /// The transaction that the event hands to its account.
    pub open spec fn transaction(self) -> Transaction {
        Transaction { tx: self.tx, amount: self.ledger_amount(), disputed: false }
    }
}

/// The transaction that an event hands to its account: `Event::transaction`.
impl From<&Event> for Transaction {
    fn from(event: &Event) -> (r: Transaction) {
        match event.event_type {
            EventType::Deposit | EventType::Withdrawal => {
                let amount = match event.amount {
                    Some(a) => Some(
                        if a.is_valid() {
                            a.normalized()
                        } else {
                            a
                        },
                    ),
                    None => None,
                };
                Transaction::new(event.tx, amount)
            },
            EventType::Dispute | EventType::Resolve | EventType::Chargeback => Transaction::new(
                event.tx,
                None,
            ),
        }
    }
}

impl FromSpecImpl<&Event> for Transaction {
    open spec fn obeys_from_spec() -> bool {
        true
    }

    open spec fn from_spec(event: &Event) -> Transaction {
        event.transaction()
    }
}

/// What an operation of kind `kind` makes of an account. An operation that
/// the account cannot take (a deposit or withdrawal without a usable amount,
/// a balance that could not be formed exactly) leaves the account as it was.
pub open spec fn account_step(s: AccountState, kind: EventType, t: Transaction) -> AccountState {
    match kind {
        EventType::Deposit => if s.deposit_defined(t) {
            s.after_deposit(t)
        } else {
            s
        },
        EventType::Withdrawal => if s.withdrawal_defined(t) {
            s.after_withdrawal(t)
        } else {
            s
        },
        EventType::Dispute => if s.dispute_defined(t.tx) {
            s.after_dispute(t.tx)
        } else {
            s
        },
        EventType::Resolve => if s.resolve_defined(t.tx) {
            s.after_resolve(t.tx)
        } else {
            s
        },
        EventType::Chargeback => if s.chargeback_defined(t.tx) {
            s.after_chargeback(t.tx)
        } else {
            s
        },
    }
}

/// The outcome of an operation of kind `kind`: `None` where the account
/// cannot take the operation, else what the operation returns.
pub open spec fn account_outcome(s: AccountState, kind: EventType, t: Transaction) -> Option<
    Result<(), Error>,
> {
    match kind {
        EventType::Deposit => if s.deposit_defined(t) {
            Some(s.deposit_result(t))
        } else {
            None
        },
        EventType::Withdrawal => if s.withdrawal_defined(t) {
            Some(s.withdrawal_result(t))
        } else {
            None
        },
        EventType::Dispute => if s.dispute_defined(t.tx) {
            Some(s.dispute_result(t.tx))
        } else {
            None
        },
        EventType::Resolve => if s.resolve_defined(t.tx) {
            Some(s.resolve_result(t.tx))
        } else {
            None
        },
        EventType::Chargeback => if s.chargeback_defined(t.tx) {
            Some(s.chargeback_result(t.tx))
        } else {
            None
        },
    }
}

/// The account that an event of `client` works on: the client's account, or
/// a fresh one where the ledger has none.
pub open spec fn account_for(ledger: Map<u16, AccountState>, client: u16) -> AccountState {
    if ledger.contains_key(client) {
        ledger[client]
    } else {
        AccountState::fresh(client)
    }
}

/// The ledger after an event: the event's account is looked up or created,
/// takes the one operation, and every other account stays as it was.
pub open spec fn ledger_step(ledger: Map<u16, AccountState>, event: Event) -> Map<
    u16,
    AccountState,
> {
    ledger.insert(
        event.client,
        account_step(
            account_for(ledger, event.client),
            event.event_type,
            event.transaction(),
        ),
    )
}

/// The outcome on an event: that of its account on the one operation.
pub open spec fn ledger_outcome(ledger: Map<u16, AccountState>, event: Event) -> Option<
    Result<(), Error>,
> {
    account_outcome(
        account_for(ledger, event.client),
        event.event_type,
        event.transaction(),
    )
}

/// The accounts of all clients seen so far.
pub struct TxEngine {
    accounts: HashMap<u16, Account>,
}

impl View for TxEngine {
    type V = Map<u16, AccountState>;

    closed spec fn view(&self) -> Map<u16, AccountState> {
        Map::new(|c: u16| self.accounts@.contains_key(c), |c: u16| self.accounts@[c]@)
    }
}

/// Every account of the ledger is well formed and filed under its own
/// client id.
pub open spec fn ledger_wf(ledger: Map<u16, AccountState>) -> bool {
    forall|c: u16| #[trigger] ledger.contains_key(c) ==> ledger[c].wf() && ledger[c].client_id == c
}

impl TxEngine {
    /// The ledger meets `ledger_wf`.
    pub open spec fn wf(&self) -> bool {
        ledger_wf(self@)
    }

    /// A ledger without accounts.
    pub fn new() -> (r: TxEngine)
        ensures
            r@ == Map::<u16, AccountState>::empty(),
            r.wf(),
    {
        let r = TxEngine { accounts: HashMap::new() };
        assert(r@ =~= Map::<u16, AccountState>::empty());
        r
    }

    /// The account of a client, if the ledger has one.
    pub fn account(&self, client: u16) -> (r: Option<&Account>)
        ensures
            match r {
                Some(a) => self@.contains_key(client) && a@ == self@[client],
                None => !self@.contains_key(client),
            },
            self.wf() ==> match r {
                Some(a) => a.wf() && a@.client_id == client,
                None => true,
            },
    {
        let r = self.accounts.get(&client);
        assert(r is Some ==> self@.contains_key(client));
        r
    }

    /// The clients that the ledger has an account for, in ascending order.
    pub fn clients(&self) -> (r: Vec<u16>)
        ensures
            forall|c: u16| r@.contains(c) <==> self@.contains_key(c),
            forall|i: int, j: int| 0 <= i < j < r@.len() ==> r@[i] < r@[j],
    {
        let mut found: Vec<u16> = Vec::new();
        let mut next: u32 = 0;
        while next <= 0xFFFF
            invariant
                next <= 0x1_0000,
                forall|c: u16| found@.contains(c) <==> (c < next && self@.contains_key(c)),
                forall|i: int| 0 <= i < found@.len() ==> found@[i] < next,
                forall|i: int, j: int| 0 <= i < j < found@.len() ==> found@[i] < found@[j],
            decreases 0x1_0000 - next,
        {
            let client: u16 = next as u16;
            if self.accounts.contains_key(&client) {
                let ghost before = found@;
                found.push(client);
                assert forall|c: u16| found@.contains(c) <==> (c < next + 1 && self@.contains_key(
                    c,
                )) by {
                    if found@.contains(c) {
                        let i = choose|i: int| 0 <= i < found@.len() && found@[i] == c;
                        if i < before.len() {
                            assert(before.contains(c));
                        }
                    }
                    if c < next && self@.contains_key(c) {
                        assert(before.contains(c));
                        let i = choose|i: int| 0 <= i < before.len() && before[i] == c;
                        assert(found@[i] == c);
                    }
                    if c == client {
                        assert(found@[before.len() as int] == c);
                    }
                }
            }
            next += 1;
        }
        found
    }

    /// Hands the event to the account of its client, which is created if
    /// this is the first event that names the client, and returns the
    /// account's outcome: `None` where the account could not take the
    /// operation at all.
    pub fn apply(&mut self, event: &Event) -> (r: Option<Result<(), Error>>)
        requires
            old(self).wf(),
        ensures
            final(self).wf(),
            final(self)@ == ledger_step(old(self)@, *event),
            r == ledger_outcome(old(self)@, *event),
    {
        let txn: Transaction = Transaction::from(event);
        let mut account = match self.accounts.remove(&event.client) {
            Some(a) => a,
            None => Account::new(event.client),
        };
        assert(account@ == account_for(old(self)@, event.client));
        let outcome = match event.event_type {
            EventType::Deposit => {
                if account.can_deposit(&txn) {
                    Some(account.deposit(txn))
                } else {
                    None
                }
            },
            EventType::Withdrawal => {
                if account.can_withdraw(&txn) {
                    Some(account.withdrawal(txn))
                } else {
                    None
                }
            },
            EventType::Dispute => {
                if account.can_dispute(txn.tx) {
                    Some(account.dispute(txn))
                } else {
                    None
                }
            },
            EventType::Resolve => {
                if account.can_resolve(txn.tx) {
                    Some(account.resolve(txn))
                } else {
                    None
                }
            },
            EventType::Chargeback => {
                if account.can_chargeback(txn.tx) {
                    Some(account.chargeback(txn))
                } else {
                    None
                }
            },
        };
        assert(account@ == account_step(
            account_for(old(self)@, event.client),
            event.event_type,
            txn,
        ));
        self.accounts.insert(event.client, account);
        assert(self@ =~= ledger_step(old(self)@, *event));
        outcome
    }

    /// Applies the event and passes the error of a refused operation to
    /// `log`. Whatever the event, the next one can follow.
    pub fn process(&mut self, event: &Event)
        requires
            old(self).wf(),
        ensures
            final(self).wf(),
            final(self)@ == ledger_step(old(self)@, *event),
    {
        match self.apply(event) {
            Some(Err(e)) => log(e),
            _ => {},
        }
    }
}

/// Takes the error of a refused operation. Nothing is recorded.
pub fn log(_e: Error) {
}

} // verus!
