//! One client's account: its balances, the deposits it has accepted, and the
//! five operations on it. Each operation is specified by a pair of spec
//! functions on `AccountState`, its outcome and the state it leaves.

use crate::amount::{lemma_difference_units, lemma_sum_units, lemma_units_sign, Amount};
use crate::errors::Error;
use std::collections::HashMap;
use vstd::prelude::*;

verus! {

broadcast use vstd::std_specs::hash::group_hash_axioms;

/// Number of transaction ids.
pub open spec fn tx_ids() -> nat {
    0x1_0000_0000
}

/// An operation handed to an account, and the record that the account keeps
/// of an accepted deposit.
#[derive(Clone, Copy, Debug, PartialEq, Eq, Structural)]
pub struct Transaction {
    pub tx: u32,
    pub amount: Option<Amount>,
    pub disputed: bool,
}

impl Transaction {
    /// An operation on the transaction `tx`, not disputed. A deposit or
    /// withdrawal carries its amount; the other operations carry none.
    pub fn new(tx: u32, amount: Option<Amount>) -> (r: Transaction)
        ensures
            r == (Transaction { tx, amount, disputed: false }),
    {
        Transaction { tx, amount, disputed: false }
    }

    /// The record of a deposit of `amount` under the id `tx`.
    pub open spec fn record(tx: u32, amount: Amount, disputed: bool) -> Transaction {
        Transaction { tx, amount: Some(amount), disputed }
    }

    /// A record as an account keeps it under the id `tx`: it carries that id
    /// and a valid, non-negative amount.
    pub open spec fn is_record_of(self, tx: u32) -> bool {
        &&& self.tx == tx
        &&& self.amount matches Some(a) && a.wf() && a.mantissa >= 0
    }
}

/// The balances of an account and whether it is locked.
#[derive(Clone, Copy, Debug, PartialEq, Eq, Structural)]
pub struct AccountInfo {
    pub available: Amount,
    pub held: Amount,
    pub locked: bool,
}

impl AccountInfo {
    /// Available and held funds together. The total is never stored.
    pub fn total(&self) -> (r: Amount)
        requires
            self.available.wf(),
            self.held.wf(),
            self.available.addable(self.held),
        ensures
            r == self.available.sum(self.held),
            r.units() == self.available.units() + self.held.units(),
            r.wf(),
    {
        self.available.exact_add(self.held)
    }
}

/// What `tx` contributes to the held funds: the value of its deposit while
/// that deposit is disputed.
pub open spec fn held_share(records: Map<u32, Transaction>, tx: u32) -> int {
    if records.contains_key(tx) && records[tx].disputed {
        match records[tx].amount {
            Some(a) => a.units(),
            None => 0,
        }
    } else {
        0
    }
}

/// The value of the disputed deposits among the first `n` transaction ids.
pub open spec fn held_total(records: Map<u32, Transaction>, n: nat) -> int
    decreases n,
{
    if n == 0 {
        0
    } else {
        held_total(records, (n - 1) as nat) + held_share(records, (n - 1) as u32)
    }
}

/// The mathematical state of an account.
pub struct AccountState {
    pub client_id: u16,
    pub available: Amount,
    pub held: Amount,
    pub locked: bool,
    pub records: Map<u32, Transaction>,
}

impl AccountState {
    /// The account of a client that has not been seen before.
    pub open spec fn fresh(client_id: u16) -> AccountState {
        AccountState {
            client_id,
            available: Amount { mantissa: 0, scale: 0 },
            held: Amount { mantissa: 0, scale: 0 },
            locked: false,
            records: Map::empty(),
        }
    }

    /// The invariant of an account. While the account is unlocked the held
    /// funds are exactly the disputed deposits; once locked they are at least
    /// not negative.
    pub open spec fn wf(self) -> bool {
        &&& self.available.wf()
        &&& self.held.wf()
        &&& forall|tx: u32| #[trigger]
            self.records.contains_key(tx) ==> self.records[tx].is_record_of(tx)
        &&& !self.locked ==> self.held.units() == held_total(self.records, tx_ids())
        &&& self.locked ==> self.held.mantissa >= 0
    }

    /// The amount of the deposit recorded under `tx`.
    pub open spec fn amount_of(self, tx: u32) -> Amount {
        self.records[tx].amount.unwrap()
    }

    /// The state with the record of `tx` marked as disputed or not.
    pub open spec fn with_disputed(self, tx: u32, disputed: bool) -> Map<u32, Transaction> {
        self.records.insert(tx, Transaction::record(tx, self.amount_of(tx), disputed))
    }

    // Deposit

    /// A deposit can be handed to the account: it carries a valid amount that
    /// is not negative, and where it will be accepted the new balance is exact.
    pub open spec fn deposit_defined(self, t: Transaction) -> bool {
        &&& t.amount matches Some(a) && a.wf() && a.mantissa >= 0
        &&& self.deposit_result(t) is Ok ==> self.available.addable(t.amount.unwrap())
    }

    pub open spec fn deposit_result(self, t: Transaction) -> Result<(), Error> {
        if self.locked {
            Err(Error::AccountLockedError(self.client_id))
        } else if self.records.contains_key(t.tx) {
            Err(Error::DepositError(t.tx))
        } else {
            Ok(())
        }
    }

    pub open spec fn after_deposit(self, t: Transaction) -> AccountState {
        if self.deposit_result(t) is Ok {
            AccountState {
                available: self.available.sum(t.amount.unwrap()),
                records: self.records.insert(
                    t.tx,
                    Transaction::record(t.tx, t.amount.unwrap(), false),
                ),
                ..self
            }
        } else {
            self
        }
    }

    // Withdrawal

    /// A withdrawal can be handed to the account: it carries a valid amount,
    /// and unless the account is locked the difference to what is available
    /// is exact.
    pub open spec fn withdrawal_defined(self, t: Transaction) -> bool {
        &&& t.amount matches Some(a) && a.wf()
        &&& !self.locked ==> self.available.subtractable(t.amount.unwrap())
    }

    pub open spec fn withdrawal_result(self, t: Transaction) -> Result<(), Error> {
        if self.locked {
            Err(Error::AccountLockedError(self.client_id))
        } else if self.available.units() < t.amount.unwrap().units() {
            Err(Error::InsufficientFundsError(self.available, t.amount.unwrap()))
        } else {
            Ok(())
        }
    }

    pub open spec fn after_withdrawal(self, t: Transaction) -> AccountState {
        if self.withdrawal_result(t) is Ok {
            AccountState { available: self.available.difference(t.amount.unwrap()), ..self }
        } else {
            self
        }
    }

    // Dispute

    /// A dispute of `tx` can be handed to the account: where it will be
    /// accepted, both new balances are exact.
    pub open spec fn dispute_defined(self, tx: u32) -> bool {
        self.dispute_result(tx) is Ok ==> {
            &&& self.available.subtractable(self.amount_of(tx))
            &&& self.held.addable(self.amount_of(tx))
        }
    }

    pub open spec fn dispute_result(self, tx: u32) -> Result<(), Error> {
        if self.locked {
            Err(Error::AccountLockedError(self.client_id))
        } else if !self.records.contains_key(tx) {
            Err(Error::NonExistentTxnError(tx))
        } else if self.records[tx].disputed {
            Err(Error::DisputeError(tx))
        } else {
            Ok(())
        }
    }

    pub open spec fn after_dispute(self, tx: u32) -> AccountState {
        if self.dispute_result(tx) is Ok {
            AccountState {
                available: self.available.difference(self.amount_of(tx)),
                held: self.held.sum(self.amount_of(tx)),
                records: self.with_disputed(tx, true),
                ..self
            }
        } else {
            self
        }
    }

    // Resolve

    /// A resolve of `tx` can be handed to the account: where it will be
    /// accepted, both new balances are exact.
    pub open spec fn resolve_defined(self, tx: u32) -> bool {
        self.resolve_result(tx) is Ok ==> {
            &&& self.held.subtractable(self.amount_of(tx))
            &&& self.available.addable(self.amount_of(tx))
        }
    }

    pub open spec fn resolve_result(self, tx: u32) -> Result<(), Error> {
        if self.locked {
            Err(Error::AccountLockedError(self.client_id))
        } else if !self.records.contains_key(tx) {
            Err(Error::NonExistentTxnError(tx))
        } else if !self.records[tx].disputed {
            Err(Error::InvalidAccountAction(tx))
        } else {
            Ok(())
        }
    }

    pub open spec fn after_resolve(self, tx: u32) -> AccountState {
        if self.resolve_result(tx) is Ok {
            AccountState {
                available: self.available.sum(self.amount_of(tx)),
                held: self.held.difference(self.amount_of(tx)),
                records: self.with_disputed(tx, false),
                ..self
            }
        } else {
            self
        }
    }

    // Chargeback

    /// A chargeback of `tx` can be handed to the account: where it will be
    /// accepted, the new held balance is exact.
    pub open spec fn chargeback_defined(self, tx: u32) -> bool {
        self.chargeback_result(tx) is Ok ==> self.held.subtractable(self.amount_of(tx))
    }

    pub open spec fn chargeback_result(self, tx: u32) -> Result<(), Error> {
        self.resolve_result(tx)
    }

    pub open spec fn after_chargeback(self, tx: u32) -> AccountState {
        if self.chargeback_result(tx) is Ok {
            AccountState {
                held: self.held.difference(self.amount_of(tx)),
                locked: true,
                ..self
            }
        } else {
            self
        }
    }
}

/// Changing the record of one transaction changes the held total by the
/// change of that transaction's share.
pub proof fn lemma_held_total_change(
    before: Map<u32, Transaction>,
    after: Map<u32, Transaction>,
    tx: u32,
    n: nat,
)
    requires
        n <= tx_ids(),
        forall|other: u32|
            other != tx ==> #[trigger] held_share(after, other) == held_share(before, other),
    ensures
        held_total(after, n) == held_total(before, n) + if tx < n {
            held_share(after, tx) - held_share(before, tx)
        } else {
            0
        },
    decreases n,
{
    if n > 0 {
        lemma_held_total_change(before, after, tx, (n - 1) as nat);
        let last = (n - 1) as u32;
        if last != tx {
            assert(held_share(after, last) == held_share(before, last));
        }
    }
}

/// Where no share is negative, the held total is not negative and covers
/// the share of each transaction it counts.
pub proof fn lemma_held_total_covers(records: Map<u32, Transaction>, tx: u32, n: nat)
    requires
        n <= tx_ids(),
        forall|other: u32| #[trigger] held_share(records, other) >= 0,
    ensures
        held_total(records, n) >= 0,
        tx < n ==> held_total(records, n) >= held_share(records, tx),
    decreases n,
{
    if n > 0 {
        lemma_held_total_covers(records, tx, (n - 1) as nat);
        assert(held_share(records, (n - 1) as u32) >= 0);
    }
}

/// In a well-formed account no transaction has a negative share.
pub proof fn lemma_shares_not_negative(s: AccountState)
    requires
        s.wf(),
    ensures
        forall|tx: u32| #[trigger] held_share(s.records, tx) >= 0,
{
    assert forall|tx: u32| #[trigger] held_share(s.records, tx) >= 0 by {
        if s.records.contains_key(tx) {
            lemma_units_sign(s.amount_of(tx));
        }
    }
}

/// Marking the record of `tx` leaves every other share as it was.
proof fn lemma_marking_is_local(s: AccountState, tx: u32, disputed: bool)
    requires
        s.wf(),
        s.records.contains_key(tx),
    ensures
        forall|other: u32|
            other != tx ==> #[trigger] held_share(s.with_disputed(tx, disputed), other)
                == held_share(s.records, other),
        held_share(s.with_disputed(tx, disputed), tx) == if disputed {
            s.amount_of(tx).units()
        } else {
            0
        },
        forall|other: u32| #[trigger]
            s.with_disputed(tx, disputed).contains_key(other) ==> s.with_disputed(
                tx,
                disputed,
            )[other].is_record_of(other),
{
}

/// A deposit keeps the invariant.
pub proof fn lemma_deposit_keeps_wf(s: AccountState, t: Transaction)
    requires
        s.wf(),
        s.deposit_defined(t),
    ensures
        s.after_deposit(t).wf(),
{
    if s.deposit_result(t) is Ok {
        let after = s.after_deposit(t);
        lemma_sum_units(s.available, t.amount.unwrap());
        assert forall|other: u32| other != t.tx implies #[trigger] held_share(
            after.records,
            other,
        ) == held_share(s.records, other) by {}
        lemma_held_total_change(s.records, after.records, t.tx, tx_ids());
    }
}

/// A withdrawal keeps the invariant.
pub proof fn lemma_withdrawal_keeps_wf(s: AccountState, t: Transaction)
    requires
        s.wf(),
        s.withdrawal_defined(t),
    ensures
        s.after_withdrawal(t).wf(),
{
    if s.withdrawal_result(t) is Ok {
        lemma_difference_units(s.available, t.amount.unwrap());
    }
}

/// A dispute keeps the invariant.
pub proof fn lemma_dispute_keeps_wf(s: AccountState, tx: u32)
    requires
        s.wf(),
        s.dispute_defined(tx),
    ensures
        s.after_dispute(tx).wf(),
{
    if s.dispute_result(tx) is Ok {
        let after = s.after_dispute(tx);
        lemma_difference_units(s.available, s.amount_of(tx));
        lemma_sum_units(s.held, s.amount_of(tx));
        lemma_marking_is_local(s, tx, true);
        lemma_held_total_change(s.records, after.records, tx, tx_ids());
    }
}

/// A resolve keeps the invariant.
pub proof fn lemma_resolve_keeps_wf(s: AccountState, tx: u32)
    requires
        s.wf(),
        s.resolve_defined(tx),
    ensures
        s.after_resolve(tx).wf(),
{
    if s.resolve_result(tx) is Ok {
        let after = s.after_resolve(tx);
        lemma_sum_units(s.available, s.amount_of(tx));
        lemma_difference_units(s.held, s.amount_of(tx));
        lemma_marking_is_local(s, tx, false);
        lemma_held_total_change(s.records, after.records, tx, tx_ids());
    }
}

/// A chargeback keeps the invariant: the charged deposit was counted in the
/// held funds, so what is left of them is not negative.
pub proof fn lemma_chargeback_keeps_wf(s: AccountState, tx: u32)
    requires
        s.wf(),
        s.chargeback_defined(tx),
    ensures
        s.after_chargeback(tx).wf(),
{
    if s.chargeback_result(tx) is Ok {
        let after = s.after_chargeback(tx);
        lemma_difference_units(s.held, s.amount_of(tx));
        lemma_shares_not_negative(s);
        lemma_held_total_covers(s.records, tx, tx_ids());
        lemma_units_sign(after.held);
    }
}

/// A client's account.
pub struct Account {
    client_id: u16,
    pub account_info: AccountInfo,
    deposits: HashMap<u32, Transaction>,
}

impl View for Account {
    type V = AccountState;

    closed spec fn view(&self) -> AccountState {
        AccountState {
            client_id: self.client_id,
            available: self.account_info.available,
            held: self.account_info.held,
            locked: self.account_info.locked,
            records: self.deposits@,
        }
    }
}

impl Account {
    /// The account's state meets the invariant of `AccountState`.
    pub open spec fn wf(&self) -> bool {
        self@.wf()
    }

    /// An unlocked account with zero balances and no deposits.
    pub fn new(client_id: u16) -> (r: Account)
        ensures
            r@ == AccountState::fresh(client_id),
            r.wf(),
    {
        let r = Account {
            client_id,
            account_info: AccountInfo {
                available: Amount::zero(),
                held: Amount::zero(),
                locked: false,
            },
            deposits: HashMap::new(),
        };
        proof {
            lemma_fresh_wf(client_id);
        }
        r
    }

    /// The client that the account belongs to.
    pub fn client_id(&self) -> (r: u16)
        ensures
            r == self@.client_id,
    {
        self.client_id
    }

    /// The balances and the lock, as the state has them.
    pub fn info(&self) -> (r: AccountInfo)
        ensures
            r.available == self@.available,
            r.held == self@.held,
            r.locked == self@.locked,
    {
        self.account_info
    }

    /// Whether the account holds a deposit under this id.
    pub fn has_deposit(&self, tx: u32) -> (r: bool)
        ensures
            r == self@.records.contains_key(tx),
    {
        self.deposits.contains_key(&tx)
    }

    /// The record of the deposit under this id, if the account holds one.
    pub fn deposit_record(&self, tx: u32) -> (r: Option<Transaction>)
        ensures
            r == if self@.records.contains_key(tx) {
                Some(self@.records[tx])
            } else {
                None
            },
    {
        match self.deposits.get(&tx) {
            Some(t) => Some(*t),
            None => None,
        }
    }

    /// Whether `deposit` may be called with this transaction.
    pub fn can_deposit(&self, transaction: &Transaction) -> (r: bool)
        requires
            self.wf(),
        ensures
            r == self@.deposit_defined(*transaction),
    {
        match transaction.amount {
            None => false,
            Some(a) => a.is_valid() && !a.is_negative() && (self.account_info.locked
                || self.deposits.contains_key(&transaction.tx)
                || self.account_info.available.adds_exactly(&a)),
        }
    }

    /// Whether `withdrawal` may be called with this transaction.
    pub fn can_withdraw(&self, transaction: &Transaction) -> (r: bool)
        requires
            self.wf(),
        ensures
            r == self@.withdrawal_defined(*transaction),
    {
        match transaction.amount {
            None => false,
            Some(a) => a.is_valid() && (self.account_info.locked
                || self.account_info.available.subtracts_exactly(&a)),
        }
    }

    /// Whether `dispute` may be called with this transaction id.
    pub fn can_dispute(&self, tx: u32) -> (r: bool)
        requires
            self.wf(),
        ensures
            r == self@.dispute_defined(tx),
    {
        if self.account_info.locked {
            return true;
        }
        match self.deposit_record(tx) {
            None => true,
            Some(txn) => {
                let amount = txn.amount.unwrap();
                txn.disputed || (self.account_info.available.subtracts_exactly(&amount)
                    && self.account_info.held.adds_exactly(&amount))
            },
        }
    }

    /// Whether `resolve` may be called with this transaction id.
    pub fn can_resolve(&self, tx: u32) -> (r: bool)
        requires
            self.wf(),
        ensures
            r == self@.resolve_defined(tx),
    {
        if self.account_info.locked {
            return true;
        }
        match self.deposit_record(tx) {
            None => true,
            Some(txn) => {
                let amount = txn.amount.unwrap();
                !txn.disputed || (self.account_info.held.subtracts_exactly(&amount)
                    && self.account_info.available.adds_exactly(&amount))
            },
        }
    }

    /// Whether `chargeback` may be called with this transaction id.
    pub fn can_chargeback(&self, tx: u32) -> (r: bool)
        requires
            self.wf(),
        ensures
            r == self@.chargeback_defined(tx),
    {
        if self.account_info.locked {
            return true;
        }
        match self.deposit_record(tx) {
            None => true,
            Some(txn) => {
                let amount = txn.amount.unwrap();
                !txn.disputed || self.account_info.held.subtracts_exactly(&amount)
            },
        }
    }

    /// Credits the account and records the deposit, unless the account is
    /// locked or already holds a deposit under this id.
    pub fn deposit(&mut self, transaction: Transaction) -> (r: Result<(), Error>)
        requires
            old(self).wf(),
            old(self)@.deposit_defined(transaction),
        ensures
            r == old(self)@.deposit_result(transaction),
            final(self)@ == old(self)@.after_deposit(transaction),
            final(self).wf(),
    {
        proof {
            lemma_deposit_keeps_wf(self@, transaction);
        }
        if self.account_info.locked {
            return Err(Error::AccountLockedError(self.client_id));
        }
        if self.deposits.contains_key(&transaction.tx) {
            return Err(Error::DepositError(transaction.tx));
        }
        let amount = transaction.amount.unwrap();
        self.account_info.available = self.account_info.available.exact_add(amount);
        self.deposits.insert(
            transaction.tx,
            Transaction { tx: transaction.tx, amount: Some(amount), disputed: false },
        );
        Ok(())
    }

    /// Debits the account, unless it is locked or holds less than is asked.
    /// A withdrawal leaves no record.
    pub fn withdrawal(&mut self, transaction: Transaction) -> (r: Result<(), Error>)
        requires
            old(self).wf(),
            old(self)@.withdrawal_defined(transaction),
        ensures
            r == old(self)@.withdrawal_result(transaction),
            final(self)@ == old(self)@.after_withdrawal(transaction),
            final(self).wf(),
    {
        proof {
            lemma_withdrawal_keeps_wf(self@, transaction);
        }
        if self.account_info.locked {
            return Err(Error::AccountLockedError(self.client_id));
        }
        let amount = transaction.amount.unwrap();
        let rest = self.account_info.available.exact_sub(amount);
        if rest.is_negative() {
            return Err(Error::InsufficientFundsError(self.account_info.available, amount));
        }
        self.account_info.available = rest;
        Ok(())
    }

    /// Moves the amount of a recorded deposit from available to held and
    /// marks the deposit as disputed. What is available may fall below zero.
    pub fn dispute(&mut self, transaction: Transaction) -> (r: Result<(), Error>)
        requires
            old(self).wf(),
            old(self)@.dispute_defined(transaction.tx),
        ensures
            r == old(self)@.dispute_result(transaction.tx),
            final(self)@ == old(self)@.after_dispute(transaction.tx),
            final(self).wf(),
    {
        proof {
            lemma_dispute_keeps_wf(self@, transaction.tx);
        }
        if self.account_info.locked {
            return Err(Error::AccountLockedError(self.client_id));
        }
        match self.deposit_record(transaction.tx) {
            Some(txn) => {
                if txn.disputed {
                    return Err(Error::DisputeError(transaction.tx));
                }
                let amount = txn.amount.unwrap();
                self.account_info.available = self.account_info.available.exact_sub(amount);
                self.account_info.held = self.account_info.held.exact_add(amount);
                self.deposits.insert(
                    transaction.tx,
                    Transaction { tx: transaction.tx, amount: Some(amount), disputed: true },
                );
                Ok(())
            },
            None => Err(Error::NonExistentTxnError(transaction.tx)),
        }
    }

    /// Moves the amount of a disputed deposit back from held to available
    /// and clears the dispute.
    pub fn resolve(&mut self, transaction: Transaction) -> (r: Result<(), Error>)
        requires
            old(self).wf(),
            old(self)@.resolve_defined(transaction.tx),
        ensures
            r == old(self)@.resolve_result(transaction.tx),
            final(self)@ == old(self)@.after_resolve(transaction.tx),
            final(self).wf(),
    {
        proof {
            lemma_resolve_keeps_wf(self@, transaction.tx);
        }
        if self.account_info.locked {
            return Err(Error::AccountLockedError(self.client_id));
        }
        match self.deposit_record(transaction.tx) {
            Some(txn) => {
                if !txn.disputed {
                    return Err(Error::InvalidAccountAction(transaction.tx));
                }
                let amount = txn.amount.unwrap();
                self.account_info.held = self.account_info.held.exact_sub(amount);
                self.account_info.available = self.account_info.available.exact_add(amount);
                self.deposits.insert(
                    transaction.tx,
                    Transaction { tx: transaction.tx, amount: Some(amount), disputed: false },
                );
                Ok(())
            },
            None => Err(Error::NonExistentTxnError(transaction.tx)),
        }
    }

    /// Takes the amount of a disputed deposit out of the held funds and
    /// locks the account. The deposit stays disputed.
    pub fn chargeback(&mut self, transaction: Transaction) -> (r: Result<(), Error>)
        requires
            old(self).wf(),
            old(self)@.chargeback_defined(transaction.tx),
        ensures
            r == old(self)@.chargeback_result(transaction.tx),
            final(self)@ == old(self)@.after_chargeback(transaction.tx),
            final(self).wf(),
    {
        proof {
            lemma_chargeback_keeps_wf(self@, transaction.tx);
        }
        if self.account_info.locked {
            return Err(Error::AccountLockedError(self.client_id));
        }
        match self.deposit_record(transaction.tx) {
            Some(txn) => {
                if !txn.disputed {
                    return Err(Error::InvalidAccountAction(transaction.tx));
                }
                let amount = txn.amount.unwrap();
                self.account_info.held = self.account_info.held.exact_sub(amount);
                self.account_info.locked = true;
                Ok(())
            },
            None => Err(Error::NonExistentTxnError(transaction.tx)),
        }
    }
}

/// The account of a client that has not been seen before is well formed.
pub proof fn lemma_fresh_wf(client_id: u16)
    ensures
        AccountState::fresh(client_id).wf(),
{
    lemma_units_sign(AccountState::fresh(client_id).held);
    lemma_empty_total(tx_ids());
}

/// With no records the held total is zero.
proof fn lemma_empty_total(n: nat)
    ensures
        held_total(Map::<u32, Transaction>::empty(), n) == 0,
    decreases n,
{
    if n > 0 {
        lemma_empty_total((n - 1) as nat);
    }
}

} // verus!
