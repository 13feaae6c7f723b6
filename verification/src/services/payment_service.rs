//! The ledger: balances, tips and the log of transfers.

use vstd::prelude::*;
use vstd::string::StringExecFns;
use crate::collections::{views, Dup, Key};
use crate::error::ServiceError;
use crate::identity::{anonymous_bytes, principal_text, UserId};
use crate::models::user::UserView;
use crate::storage::state::State;
use crate::text::{decimal, decimal_string};

verus! {

/// The operations of the ledger.
pub struct PaymentService;

/// What a transfer was for.
#[derive(Debug, Clone, Copy, PartialEq, Eq, Structural)]
pub enum TransactionType {
    Tip,
    Reward,
}

/// A transfer that has been applied to the balances.
#[derive(Debug)]
pub struct Transaction {
    pub id: String,
    pub from: UserId,
    pub to: UserId,
    pub amount: u64,
    pub transaction_type: TransactionType,
    pub timestamp: u64,
}

/// What a transaction holds.
pub struct TransactionView {
    pub id: Seq<char>,
    pub from: Seq<u8>,
    pub to: Seq<u8>,
    pub amount: u64,
    pub transaction_type: TransactionType,
    pub timestamp: u64,
}

impl View for Transaction {
    type V = TransactionView;

    open spec fn view(&self) -> TransactionView {
        TransactionView {
            id: self.id@,
            from: self.from@,
            to: self.to@,
            amount: self.amount,
            transaction_type: self.transaction_type,
            timestamp: self.timestamp,
        }
    }
}

impl Dup for Transaction {
    fn dup(&self) -> (r: Transaction) {
        Transaction {
            id: self.id.clone(),
            from: self.from.dup(),
            to: self.to.dup(),
            amount: self.amount,
            transaction_type: self.transaction_type,
            timestamp: self.timestamp,
        }
    }
}

/// The identifier of a tip at `now` by the sender whose identity has the
/// text `sender`.
pub open spec fn tip_id_of(sender: Seq<char>, now: u64) -> Seq<char> {
    "tip_"@ + sender + "_"@ + decimal(now as nat)
}

/// The identifier of a tip that `from` sends at `now`.
pub open spec fn tip_id(from: Seq<u8>, now: u64) -> Seq<char> {
    tip_id_of(principal_text(from), now)
}

/// The record of a tip of `amount` from `from` to `to` at `now`, logged
/// under `id`.
pub open spec fn tip_record(
    id: Seq<char>,
    from: Seq<u8>,
    to: Seq<u8>,
    amount: u64,
    now: u64,
) -> TransactionView {
    TransactionView {
        id,
        from,
        to,
        amount,
        transaction_type: TransactionType::Tip,
        timestamp: now,
    }
}

/// The identifier of a tip at `now` by the sender whose identity has the
/// text `sender`.
pub fn tip_id_for(sender: &str, now: u64) -> (id: String)
    ensures
        id@ == tip_id_of(sender@, now),
{
    let mut id = "tip_".to_owned();
    id.append(sender);
    id.append("_");
    let stamp = decimal_string(now);
    id.append(stamp.as_str());
    id
}

/// Why a tip of `amount` from `caller` to `to` is refused, if it is. The
/// checks are made in this order.
pub open spec fn tip_error(state: &State, caller: Seq<u8>, to: Seq<u8>, amount: u64) -> Option<
    ServiceError,
> {
    if caller == anonymous_bytes() {
        Some(ServiceError::Unauthenticated)
    } else if amount == 0 {
        Some(ServiceError::Conflict)
    } else if caller == to {
        Some(ServiceError::Conflict)
    } else if !state.users@.dom().contains(caller) || !state.users@.dom().contains(to) {
        Some(ServiceError::NotFound)
    } else if state.users@[caller].balance < amount {
        Some(ServiceError::InsufficientBalance)
    } else {
        None
    }
}

/// The profile `u` with `amount` taken from its balance.
pub open spec fn debited(u: UserView, amount: u64) -> UserView {
    UserView { balance: (u.balance - amount) as u64, ..u }
}

/// The profile `u` with `amount` added to its balance.
pub open spec fn credited(u: UserView, amount: u64) -> UserView {
    UserView { balance: (u.balance + amount) as u64, ..u }
}

/// Whether `after` is `before` with `amount` moved from the balance of
/// `from` to that of `to`, both of whom have profiles, and with the tip
/// logged under `id`.
pub open spec fn transferred(
    before: &State,
    after: &State,
    from: Seq<u8>,
    to: Seq<u8>,
    amount: u64,
    id: Seq<char>,
    now: u64,
) -> bool {
    &&& *after == (State { users: after.users, transactions: after.transactions, ..*before })
    &&& after.users.keys() == before.users.keys()
    &&& after.users@ == before.users@.insert(from, debited(before.users@[from], amount)).insert(
        to,
        credited(before.users@[to], amount),
    )
    &&& views(after.transactions@) == views(before.transactions@).push(
        tip_record(id, from, to, amount, now),
    )
    &&& after.balance_of(from) == before.balance_of(from) - amount
    &&& after.balance_of(to) == before.balance_of(to) + amount
}

impl PaymentService {
    /// Moves `amount` from the balance of `from` to that of `to` and logs
    /// the transfer under `id` as a tip made at `now`, all or nothing.
    ///
    /// The recipient's balance must have room for the amount.
    pub fn transfer(
        state: &mut State,
        from: UserId,
        to: UserId,
        amount: u64,
        id: String,
        now: u64,
    ) -> (r: Result<(), ServiceError>)
        requires
            old(state).wf(),
            tip_error(old(state), from@, to@, amount) is None ==> old(state).balance_of(to@)
                + amount <= u64::MAX,
        ensures
            final(state).wf(),
            match tip_error(old(state), from@, to@, amount) {
                Some(e) => r == Err::<(), ServiceError>(e) && *final(state) == *old(state),
                None => r is Ok && transferred(
                    old(state),
                    final(state),
                    from@,
                    to@,
                    amount,
                    id@,
                    now,
                ),
            },
    {
        if from.is_anonymous() {
            return Err(ServiceError::Unauthenticated);
        }
        if amount == 0 {
            return Err(ServiceError::Conflict);
        }
        if from.same(&to) {
            return Err(ServiceError::Conflict);
        }
        let sender_row = state.users.find(&from);
        let recipient_row = state.users.find(&to);
        if sender_row.is_none() || recipient_row.is_none() {
            return Err(ServiceError::NotFound);
        }
        let i = sender_row.unwrap();
        let j = recipient_row.unwrap();
        if state.users.value_at(i).balance < amount {
            return Err(ServiceError::InsufficientBalance);
        }
        let sender = state.users.value_at_mut(i);
        sender.balance = sender.balance - amount;
        let recipient = state.users.value_at_mut(j);
        recipient.balance = recipient.balance + amount;

        let transaction = Transaction {
            id,
            from,
            to,
            amount,
            transaction_type: TransactionType::Tip,
            timestamp: now,
        };
        state.transactions.push(transaction);
        assert(views(state.transactions@) =~= views(old(state).transactions@).push(
            tip_record(id@, from@, to@, amount, now),
        ));
        Ok(())
    }

    /// Moves `amount` from the balance of `caller` to that of `user_id` and
    /// logs the transfer, all or nothing.
    ///
    /// The recipient's balance must have room for the amount.
    pub fn tip_user(
        state: &mut State,
        caller: UserId,
        user_id: UserId,
        amount: u64,
        now: u64,
    ) -> (r: Result<(), ServiceError>)
        requires
            old(state).wf(),
            tip_error(old(state), caller@, user_id@, amount) is None ==> old(state).balance_of(
                user_id@,
            ) + amount <= u64::MAX,
        ensures
            final(state).wf(),
            match tip_error(old(state), caller@, user_id@, amount) {
                Some(e) => r == Err::<(), ServiceError>(e) && *final(state) == *old(state),
                None => r is Ok && transferred(
                    old(state),
                    final(state),
                    caller@,
                    user_id@,
                    amount,
                    tip_id(caller@, now),
                    now,
                ),
            },
    {
        let text = caller.to_text();
        let id = tip_id_for(text.as_str(), now);
        Self::transfer(state, caller, user_id, amount, id, now)
    }

    /// The balance of `user_id`: nothing where there is no such profile.
    pub fn get_user_balance(state: &State, user_id: UserId) -> (balance: u64)
        requires
            state.wf(),
        ensures
            balance == state.balance_of(user_id@),
    {
        match state.users.get(&user_id) {
            Some(user) => user.balance,
            None => 0,
        }
    }

    /// Adds `amount` to the balance of `user_id`.
    ///
    /// The balance must have room for the amount.
    pub fn add_balance(state: &mut State, user_id: UserId, amount: u64) -> (r: Result<
        (),
        ServiceError,
    >)
        requires
            old(state).wf(),
            old(state).balance_of(user_id@) + amount <= u64::MAX,
        ensures
            final(state).wf(),
            !old(state).users@.dom().contains(user_id@) ==> r == Err::<(), ServiceError>(
                ServiceError::NotFound,
            ) && *final(state) == *old(state),
            old(state).users@.dom().contains(user_id@) ==> {
                &&& r is Ok
                &&& *final(state) == (State { users: final(state).users, ..*old(state) })
                &&& final(state).users.keys() == old(state).users.keys()
                &&& final(state).users@ == old(state).users@.insert(
                    user_id@,
                    credited(old(state).users@[user_id@], amount),
                )
            },
    {
        match state.users.find(&user_id) {
            Some(i) => {
                let user = state.users.value_at_mut(i);
                user.balance = user.balance + amount;
                Ok(())
            },
            None => Err(ServiceError::NotFound),
        }
    }
}

} // verus!
