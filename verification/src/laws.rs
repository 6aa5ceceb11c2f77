//! What holds of every account and every ledger, whatever events arrive.
//! Each law is stated over the spec functions that the operations' contracts
//! use, so it holds of the executable operations too.

use crate::account::{
    lemma_chargeback_keeps_wf, lemma_deposit_keeps_wf, lemma_dispute_keeps_wf,
    lemma_fresh_wf, lemma_held_total_covers, lemma_resolve_keeps_wf, lemma_shares_not_negative,
    lemma_withdrawal_keeps_wf, tx_ids, AccountState, Transaction,
};
use crate::amount::{lemma_difference_units, lemma_sum_units, lemma_units_sign, Amount};
use crate::errors::Error;
use crate::tx_engine::{
    account_for, account_step, fold_case, ledger_step, lower, ledger_wf, Event, EventType,
};
use vstd::prelude::*;

verus! {

/// Held funds are never negative.
pub proof fn law_held_not_negative(s: AccountState)
    requires
        s.wf(),
    ensures
        s.held.mantissa >= 0,
        s.held.units() >= 0,
{
    lemma_units_sign(s.held);
    if !s.locked {
        lemma_shares_not_negative(s);
        lemma_held_total_covers(s.records, 0, tx_ids());
    }
}

/// Every operation keeps the invariant of the account, whether it is
/// accepted, refused, or cannot be taken.
pub proof fn law_step_keeps_wf(s: AccountState, kind: EventType, t: Transaction)
    requires
        s.wf(),
    ensures
        account_step(s, kind, t).wf(),
{
    match kind {
        EventType::Deposit => {
            if s.deposit_defined(t) {
                lemma_deposit_keeps_wf(s, t);
            }
        },
        EventType::Withdrawal => {
            if s.withdrawal_defined(t) {
                lemma_withdrawal_keeps_wf(s, t);
            }
        },
        EventType::Dispute => {
            if s.dispute_defined(t.tx) {
                lemma_dispute_keeps_wf(s, t.tx);
            }
        },
        EventType::Resolve => {
            if s.resolve_defined(t.tx) {
                lemma_resolve_keeps_wf(s, t.tx);
            }
        },
        EventType::Chargeback => {
            if s.chargeback_defined(t.tx) {
                lemma_chargeback_keeps_wf(s, t.tx);
            }
        },
    }
}

/// Every event keeps the invariant of the ledger, and touches no account
/// but that of its client.
pub proof fn law_event_keeps_ledger(ledger: Map<u16, AccountState>, event: Event)
    requires
        ledger_wf(ledger),
    ensures
        ledger_wf(ledger_step(ledger, event)),
        ledger_step(ledger, event).contains_key(event.client),
        forall|c: u16|
            c != event.client ==> (ledger_step(ledger, event).contains_key(c)
                <==> ledger.contains_key(c)),
        forall|c: u16|
            c != event.client && ledger.contains_key(c) ==> ledger_step(ledger, event)[c]
                == ledger[c],
{
    let s = account_for(ledger, event.client);
    if !ledger.contains_key(event.client) {
        lemma_fresh_wf(event.client);
    }
    law_step_keeps_wf(s, event.event_type, event.transaction());
}

/// The ledger that a sequence of events leaves, starting with no account.
pub open spec fn ledger_after(events: Seq<Event>) -> Map<u16, AccountState>
    decreases events.len(),
{
    if events.len() == 0 {
        Map::empty()
    } else {
        ledger_step(ledger_after(events.drop_last()), events.last())
    }
}

/// Whatever events have arrived, every account of the ledger is well
/// formed, is filed under its own client, and holds no negative funds.
pub proof fn law_processing_keeps_every_account_sound(events: Seq<Event>, client: u16)
    requires
        ledger_after(events).contains_key(client),
    ensures
        ledger_wf(ledger_after(events)),
        ledger_after(events)[client].wf(),
        ledger_after(events)[client].client_id == client,
        ledger_after(events)[client].held.mantissa >= 0,
{
    lemma_ledger_after_wf(events);
    law_held_not_negative(ledger_after(events)[client]);
}

/// Every ledger that events lead to is well formed.
proof fn lemma_ledger_after_wf(events: Seq<Event>)
    ensures
        ledger_wf(ledger_after(events)),
    decreases events.len(),
{
    if events.len() > 0 {
        lemma_ledger_after_wf(events.drop_last());
        law_event_keeps_ledger(ledger_after(events.drop_last()), events.last());
    }
}

/// What is available does not fall below zero by any operation but a
/// dispute.
pub proof fn law_available_not_negative_kept(s: AccountState, kind: EventType, t: Transaction)
    requires
        s.wf(),
        kind != EventType::Dispute,
        s.available.mantissa >= 0,
    ensures
        account_step(s, kind, t).available.mantissa >= 0,
{
    lemma_units_sign(s.available);
    let after = account_step(s, kind, t);
    match kind {
        EventType::Deposit => {
            if s.deposit_defined(t) && s.deposit_result(t) is Ok {
                lemma_sum_units(s.available, t.amount.unwrap());
                lemma_units_sign(t.amount.unwrap());
                lemma_units_sign(after.available);
            }
        },
        EventType::Withdrawal => {
            if s.withdrawal_defined(t) && s.withdrawal_result(t) is Ok {
                lemma_difference_units(s.available, t.amount.unwrap());
                lemma_units_sign(after.available);
            }
        },
        EventType::Resolve => {
            if s.resolve_defined(t.tx) && s.resolve_result(t.tx) is Ok {
                lemma_sum_units(s.available, s.amount_of(t.tx));
                lemma_units_sign(s.amount_of(t.tx));
                lemma_units_sign(after.available);
            }
        },
        _ => {},
    }
}

/// The value of an account's funds, available and held together.
pub open spec fn total_units(s: AccountState) -> int {
    s.available.units() + s.held.units()
}

/// Funds enter an account by an accepted deposit and leave it by an
/// accepted withdrawal or chargeback, each by exactly its amount; an
/// accepted dispute or resolve moves funds between available and held and
/// leaves the total as it is.
pub proof fn law_funds_move_by_the_amount(s: AccountState, t: Transaction)
    requires
        s.wf(),
    ensures
        s.deposit_defined(t) && s.deposit_result(t) is Ok ==> total_units(s.after_deposit(t))
            == total_units(s) + t.amount.unwrap().units(),
        s.withdrawal_defined(t) && s.withdrawal_result(t) is Ok ==> total_units(
            s.after_withdrawal(t),
        ) == total_units(s) - t.amount.unwrap().units(),
        s.dispute_defined(t.tx) && s.dispute_result(t.tx) is Ok ==> total_units(
            s.after_dispute(t.tx),
        ) == total_units(s),
        s.resolve_defined(t.tx) && s.resolve_result(t.tx) is Ok ==> total_units(
            s.after_resolve(t.tx),
        ) == total_units(s),
        s.chargeback_defined(t.tx) && s.chargeback_result(t.tx) is Ok ==> total_units(
            s.after_chargeback(t.tx),
        ) == total_units(s) - s.amount_of(t.tx).units(),
{
    if s.deposit_defined(t) && s.deposit_result(t) is Ok {
        lemma_sum_units(s.available, t.amount.unwrap());
    }
    if s.withdrawal_defined(t) && s.withdrawal_result(t) is Ok {
        lemma_difference_units(s.available, t.amount.unwrap());
    }
    if s.dispute_defined(t.tx) && s.dispute_result(t.tx) is Ok {
        lemma_difference_units(s.available, s.amount_of(t.tx));
        lemma_sum_units(s.held, s.amount_of(t.tx));
    }
    if s.resolve_defined(t.tx) && s.resolve_result(t.tx) is Ok {
        lemma_sum_units(s.available, s.amount_of(t.tx));
        lemma_difference_units(s.held, s.amount_of(t.tx));
    }
    if s.chargeback_defined(t.tx) && s.chargeback_result(t.tx) is Ok {
        lemma_difference_units(s.held, s.amount_of(t.tx));
    }
}

/// An accepted withdrawal leaves what is available at zero or above,
/// whatever was available before.
pub proof fn law_withdrawal_leaves_no_debt(s: AccountState, t: Transaction)
    requires
        s.wf(),
        s.withdrawal_defined(t),
        s.withdrawal_result(t) is Ok,
    ensures
        s.after_withdrawal(t).available.mantissa >= 0,
        s.after_withdrawal(t).available.units() == s.available.units() - t.amount.unwrap().units(),
{
    lemma_difference_units(s.available, t.amount.unwrap());
    lemma_units_sign(s.after_withdrawal(t).available);
}

/// A recorded deposit is never deleted and its amount never changes.
pub proof fn law_records_persist(s: AccountState, kind: EventType, t: Transaction, tx: u32)
    requires
        s.wf(),
        s.records.contains_key(tx),
    ensures
        account_step(s, kind, t).records.contains_key(tx),
        account_step(s, kind, t).records[tx].amount == s.records[tx].amount,
        account_step(s, kind, t).records[tx].tx == tx,
{
}

/// Only an accepted deposit adds a record, and only under its own id.
pub proof fn law_only_deposits_record(s: AccountState, kind: EventType, t: Transaction, tx: u32)
    requires
        s.wf(),
        !s.records.contains_key(tx),
        account_step(s, kind, t).records.contains_key(tx),
    ensures
        kind == EventType::Deposit,
        tx == t.tx,
        s.deposit_result(t) is Ok,
        account_step(s, kind, t).records[tx] == Transaction::record(tx, t.amount.unwrap(), false),
{
}

/// A deposit under an id that the account already holds is refused and
/// changes nothing; on an unlocked account the refusal names the id as a
/// duplicate.
pub proof fn law_known_deposit_refused(s: AccountState, t: Transaction)
    requires
        s.records.contains_key(t.tx),
    ensures
        s.deposit_result(t) is Err,
        s.after_deposit(t) == s,
        !s.locked ==> s.deposit_result(t) == Err::<(), Error>(Error::DepositError(t.tx)),
{
}

/// After an accepted deposit, a second deposit under the same id is refused
/// as a duplicate, whatever its amount, and changes nothing.
pub proof fn law_duplicate_deposit_refused(s: AccountState, first: Transaction, second: Transaction)
    requires
        s.deposit_result(first) is Ok,
        second.tx == first.tx,
    ensures
        s.after_deposit(first).deposit_result(second) == Err::<(), Error>(
            Error::DepositError(first.tx),
        ),
        s.after_deposit(first).after_deposit(second) == s.after_deposit(first),
{
}

/// After an accepted dispute the resolve of the same deposit can be taken
/// and is accepted, and the two together leave the value of both balances,
/// the lock and all records as they were.
pub proof fn law_dispute_resolve_keeps_value(s: AccountState, tx: u32)
    requires
        s.wf(),
        s.dispute_result(tx) is Ok,
        s.dispute_defined(tx),
    ensures
        s.after_dispute(tx).resolve_defined(tx),
        s.after_dispute(tx).resolve_result(tx) is Ok,
        s.after_dispute(tx).after_resolve(tx).available.units() == s.available.units(),
        s.after_dispute(tx).after_resolve(tx).held.units() == s.held.units(),
        s.after_dispute(tx).after_resolve(tx).records == s.records,
        s.after_dispute(tx).after_resolve(tx).locked == s.locked,
        s.after_dispute(tx).after_resolve(tx).client_id == s.client_id,
{
    let amount = s.amount_of(tx);
    let mid = s.after_dispute(tx);
    let end = mid.after_resolve(tx);
    lemma_difference_units(s.available, amount);
    lemma_sum_units(s.held, amount);
    lemma_sum_units(mid.available, amount);
    lemma_difference_units(mid.held, amount);
    assert(end.records =~= s.records);
}

/// An accepted dispute followed by the resolve of the same deposit gives
/// back the very state it started from, where each balance either is not
/// zero or is written with as many fractional digits as the deposit. (A zero
/// balance written with other digits comes back as zero with the deposit's
/// digits.)
pub proof fn law_dispute_resolve_round_trip(s: AccountState, tx: u32)
    requires
        s.wf(),
        s.dispute_result(tx) is Ok,
        s.dispute_defined(tx),
        s.available.mantissa != 0 || s.available.scale == s.amount_of(tx).scale,
        s.held.mantissa != 0 || s.held.scale == s.amount_of(tx).scale,
    ensures
        s.after_dispute(tx).resolve_defined(tx),
        s.after_dispute(tx).resolve_result(tx) is Ok,
        s.after_dispute(tx).after_resolve(tx) == s,
{
    let amount = s.amount_of(tx);
    let mid = s.after_dispute(tx);
    let end = mid.after_resolve(tx);
    law_held_not_negative(s);
    assert(end.records =~= s.records);
}

/// An accepted chargeback locks the account, takes the deposit's value out
/// of the held funds and leaves what is available alone.
pub proof fn law_chargeback_locks(s: AccountState, tx: u32)
    requires
        s.wf(),
        s.chargeback_result(tx) is Ok,
        s.chargeback_defined(tx),
    ensures
        s.after_chargeback(tx).locked,
        s.after_chargeback(tx).available == s.available,
        s.after_chargeback(tx).held.units() == s.held.units() - s.amount_of(tx).units(),
        s.after_chargeback(tx).records == s.records,
{
    lemma_difference_units(s.held, s.amount_of(tx));
}

/// After an accepted dispute the chargeback of the same deposit can be taken
/// and is accepted, and the two together lock the account, leave the held
/// funds at their value before the dispute, and what is available lower by
/// the deposit.
pub proof fn law_dispute_chargeback_removes_deposit(s: AccountState, tx: u32)
    requires
        s.wf(),
        s.dispute_result(tx) is Ok,
        s.dispute_defined(tx),
    ensures
        s.after_dispute(tx).chargeback_defined(tx),
        s.after_dispute(tx).chargeback_result(tx) is Ok,
        s.after_dispute(tx).after_chargeback(tx).locked,
        s.after_dispute(tx).after_chargeback(tx).held.units() == s.held.units(),
        s.after_dispute(tx).after_chargeback(tx).available.units() == s.available.units()
            - s.amount_of(tx).units(),
{
    let amount = s.amount_of(tx);
    let mid = s.after_dispute(tx);
    lemma_dispute_keeps_wf(s, tx);
    lemma_difference_units(s.available, amount);
    lemma_sum_units(s.held, amount);
    lemma_difference_units(mid.held, amount);
}

/// A locked account refuses every operation, naming its client, and stays
/// exactly as it is.
pub proof fn law_locked_account_refuses(s: AccountState, kind: EventType, t: Transaction)
    requires
        s.locked,
    ensures
        account_step(s, kind, t) == s,
        s.deposit_result(t) == Err::<(), Error>(Error::AccountLockedError(s.client_id)),
        s.withdrawal_result(t) == Err::<(), Error>(Error::AccountLockedError(s.client_id)),
        s.dispute_result(t.tx) == Err::<(), Error>(Error::AccountLockedError(s.client_id)),
        s.resolve_result(t.tx) == Err::<(), Error>(Error::AccountLockedError(s.client_id)),
        s.chargeback_result(t.tx) == Err::<(), Error>(Error::AccountLockedError(s.client_id)),
        s.after_deposit(t) == s,
        s.after_withdrawal(t) == s,
        s.after_dispute(t.tx) == s,
        s.after_resolve(t.tx) == s,
        s.after_chargeback(t.tx) == s,
{
}

/// A withdrawal of more than is available is refused on an unlocked
/// account, with what is available and what was asked for, and changes
/// nothing.
pub proof fn law_overdraft_refused(s: AccountState, t: Transaction)
    requires
        !s.locked,
        t.amount is Some,
        s.available.units() < t.amount.unwrap().units(),
    ensures
        s.withdrawal_result(t) == Err::<(), Error>(
            Error::InsufficientFundsError(s.available, t.amount.unwrap()),
        ),
        s.after_withdrawal(t) == s,
{
}

/// A dispute, resolve or chargeback of an id that an unlocked account holds
/// no deposit under is refused as unknown and changes nothing.
pub proof fn law_unknown_transaction_refused(s: AccountState, tx: u32)
    requires
        !s.locked,
        !s.records.contains_key(tx),
    ensures
        s.dispute_result(tx) == Err::<(), Error>(Error::NonExistentTxnError(tx)),
        s.resolve_result(tx) == Err::<(), Error>(Error::NonExistentTxnError(tx)),
        s.chargeback_result(tx) == Err::<(), Error>(Error::NonExistentTxnError(tx)),
        s.after_dispute(tx) == s,
        s.after_resolve(tx) == s,
        s.after_chargeback(tx) == s,
{
}

/// A refused operation changes nothing: an account changes only where the
/// outcome is `Ok`.
pub proof fn law_refusal_changes_nothing(s: AccountState, t: Transaction)
    ensures
        s.deposit_result(t) is Err ==> s.after_deposit(t) == s,
        s.withdrawal_result(t) is Err ==> s.after_withdrawal(t) == s,
        s.dispute_result(t.tx) is Err ==> s.after_dispute(t.tx) == s,
        s.resolve_result(t.tx) is Err ==> s.after_resolve(t.tx) == s,
        s.chargeback_result(t.tx) is Err ==> s.after_chargeback(t.tx) == s,
{
}

/// Each kind is read back from its own name.
pub proof fn law_name_round_trip(kind: EventType)
    ensures
        EventType::spec_from_name(kind.spec_name()) == Some(kind),
{
    reveal_strlit("deposit");
    reveal_strlit("withdrawal");
    reveal_strlit("dispute");
    reveal_strlit("resolve");
    reveal_strlit("chargeback");
    let name = kind.spec_name();
    assert forall|i: int| 0 <= i < name.len() implies lower(name[i]) == name[i] by {
        assert('a' <= name[i] && name[i] <= 'z');
    }
    assert(fold_case(name) =~= name);
    assert("deposit"@[1] != "dispute"@[1]);
    assert("deposit"@[0] != "resolve"@[0]);
    assert("dispute"@[0] != "resolve"@[0]);
    assert("withdrawal"@[0] != "chargeback"@[0]);
}

/// The lock is final: no operation unlocks an account.
pub proof fn law_lock_is_final(s: AccountState, kind: EventType, t: Transaction)
    requires
        s.locked,
    ensures
        account_step(s, kind, t).locked,
{
}

} // verus!
