use crate::amount::Amount;
use crate::deposit::{books_after_deposit, deposit_calls, deposit_lands};
use crate::gateway::{confirmed, Exchange, ExternalCallFailure};
use crate::identity::Identity;
use crate::ledger::{balance_in, credited, debited, lemma_debited, total_of, well_formed};
use crate::pool::{EmployerPoolError, Worker};
use vstd::prelude::*;

verus! {

/// The pool's persistent state as a mathematical value: who the admin is,
/// which asset contract is tracked, and what each employer has available.
pub struct PoolState {
    pub admin: Identity,
    pub token: Identity,
    pub ledger: Map<Identity, nat>,
}

impl PoolState {
    /// What `who` has available.
    pub open spec fn available(self, who: Identity) -> nat {
        balance_in(self.ledger, who)
    }

    /// The sum of all employers' balances.
    pub open spec fn total(self) -> nat {
        total_of(self.ledger)
    }

    /// This state with another ledger.
    pub open spec fn with_ledger(self, ledger: Map<Identity, nat>) -> PoolState {
        PoolState { admin: self.admin, token: self.token, ledger }
    }

    /// The state after `caller` asked to become the admin: granted only while
    /// there is none.
    pub open spec fn initialize_admin(self, caller: Identity) -> PoolState {
        if self.admin.is_unset() {
            PoolState { admin: caller, token: self.token, ledger: self.ledger }
        } else {
            self
        }
    }

    /// The check in front of every admin-only operation.
    pub open spec fn require_admin(self, caller: Identity) -> Result<(), EmployerPoolError> {
        if caller == self.admin {
            Ok(())
        } else {
            Err(EmployerPoolError::AccessDenied)
        }
    }

    /// The state after `caller` asked to hand the admin role to `new_admin`.
    pub open spec fn change_admin(self, caller: Identity, new_admin: Identity) -> Result<
        PoolState,
        EmployerPoolError,
    > {
        if caller == self.admin {
            Ok(PoolState { admin: new_admin, token: self.token, ledger: self.ledger })
        } else {
            Err(EmployerPoolError::AccessDenied)
        }
    }

    /// The state after `caller` asked to track the asset contract `token`.
    pub open spec fn set_address(self, caller: Identity, token: Identity) -> Result<
        PoolState,
        EmployerPoolError,
    > {
        if caller == self.admin {
            Ok(PoolState { admin: self.admin, token, ledger: self.ledger })
        } else {
            Err(EmployerPoolError::AccessDenied)
        }
    }

    /// The state after `amount` was set aside from what `employer` has.
    pub open spec fn debit(self, employer: Identity, amount: nat) -> PoolState {
        self.with_ledger(debited(self.ledger, employer, amount))
    }

    /// The state after `amount` was added to what `employer` has.
    pub open spec fn credit(self, employer: Identity, amount: nat) -> PoolState {
        self.with_ledger(credited(self.ledger, employer, amount))
    }

    /// The state after a payout batch from `employer`'s balance that got the
    /// answers `replies`, one for each line of `workers`.
    pub open spec fn pay_batch(
        self,
        employer: Identity,
        workers: Seq<Worker>,
        replies: Seq<Result<bool, ExternalCallFailure>>,
    ) -> PoolState {
        let start: nat = self.available(employer);
        self.debit(employer, (start - batch_balance(start, workers, replies)) as nat)
    }

    /// The state after `caller` asked to deposit `amount`, where the asset
    /// contract answered the balance query with `funds` and the request to
    /// pull the amount in with `pull`. The deposit is credited only where the
    /// reported balance covers it, the credit fits and the pull is confirmed.
    pub open spec fn deposit(
        self,
        caller: Identity,
        amount: Amount,
        funds: Result<Amount, ExternalCallFailure>,
        pull: Result<bool, ExternalCallFailure>,
    ) -> PoolState {
        self.with_ledger(books_after_deposit(self.ledger, caller, amount, funds, pull))
    }

    /// The state after `caller` asked to pay `workers` out of `employer`'s
    /// balance, having announced `total`. Nothing happens unless `caller` is
    /// the admin and `employer` has at least `total`.
    pub open spec fn auto_pay_workers(
        self,
        caller: Identity,
        employer: Identity,
        workers: Seq<Worker>,
        total: Amount,
        replies: Seq<Result<bool, ExternalCallFailure>>,
    ) -> PoolState {
        if caller == self.admin && total@ <= self.available(employer) {
            self.pay_batch(employer, workers, replies)
        } else {
            self
        }
    }

    /// The state after `caller` asked to withdraw `amount` of `employer`'s
    /// balance to the admin. Nothing happens unless `caller` is the admin,
    /// `employer` has at least `amount` and the transfer is confirmed.
    pub open spec fn emergency_withdraw(
        self,
        caller: Identity,
        employer: Identity,
        amount: Amount,
        reply: Result<bool, ExternalCallFailure>,
    ) -> PoolState {
        if caller == self.admin && amount@ <= self.available(employer) && confirmed(reply) {
            self.debit(employer, amount@)
        } else {
            self
        }
    }
}

/// What is left of `start` after a payout batch. The lines are taken in
/// order. A line that asks for more than is left at its turn is skipped; one
/// whose transfer is not confirmed takes nothing; any other takes its amount.
/// `replies` holds one answer for each line; the answer for a skipped line is
/// not looked at.
pub open spec fn batch_balance(
    start: nat,
    workers: Seq<Worker>,
    replies: Seq<Result<bool, ExternalCallFailure>>,
) -> nat
    decreases workers.len(),
{
    if workers.len() == 0 {
        start
    } else {
        let left: nat = batch_balance(start, workers.drop_last(), replies.drop_last());
        let amount = workers.last().amount_paid@;
        if amount <= left && confirmed(replies.last()) {
            (left - amount) as nat
        } else {
            left
        }
    }
}

/// The round trips of a payout batch, in order: one transfer request for each
/// line that is not skipped, none for a skipped line.
pub open spec fn batch_calls(
    start: nat,
    token: Identity,
    workers: Seq<Worker>,
    replies: Seq<Result<bool, ExternalCallFailure>>,
) -> Seq<Exchange>
    decreases workers.len(),
{
    if workers.len() == 0 {
        Seq::empty()
    } else {
        let left: nat = batch_balance(start, workers.drop_last(), replies.drop_last());
        let before = batch_calls(start, token, workers.drop_last(), replies.drop_last());
        if workers.last().amount_paid@ <= left {
            before.push(
                Exchange::Transfer {
                    token,
                    recipient: workers.last().worker_address,
                    amount: workers.last().amount_paid,
                    reply: replies.last(),
                },
            )
        } else {
            before
        }
    }
}

/// The round trips of an admin's payout batch: none where the batch is
/// refused, those of the batch where not.
pub open spec fn auto_pay_calls(
    state: PoolState,
    caller: Identity,
    employer: Identity,
    workers: Seq<Worker>,
    total: Amount,
    replies: Seq<Result<bool, ExternalCallFailure>>,
) -> Seq<Exchange> {
    if caller == state.admin && total@ <= state.available(employer) {
        batch_calls(state.available(employer), state.token, workers, replies)
    } else {
        Seq::empty()
    }
}

/// The round trips of an emergency withdrawal: none where it is refused, the
/// one transfer request to the admin where not.
pub open spec fn withdraw_calls(
    state: PoolState,
    caller: Identity,
    employer: Identity,
    amount: Amount,
    reply: Result<bool, ExternalCallFailure>,
) -> Seq<Exchange> {
    if caller == state.admin && amount@ <= state.available(employer) {
        seq![Exchange::Transfer { token: state.token, recipient: state.admin, amount, reply }]
    } else {
        Seq::empty()
    }
}

/// Whether a payout batch from `employer`'s balance that got the answers
/// `replies`, one for each line, accounts for what is seen: the state after
/// it, and the round trips that the record shows after it.
pub open spec fn batch_ran(
    before: PoolState,
    after: PoolState,
    asked_before: Seq<Exchange>,
    asked_after: Seq<Exchange>,
    employer: Identity,
    workers: Seq<Worker>,
    replies: Seq<Result<bool, ExternalCallFailure>>,
) -> bool {
    &&& replies.len() == workers.len()
    &&& after == before.pay_batch(employer, workers, replies)
    &&& asked_after == asked_before + batch_calls(
        before.available(employer),
        before.token,
        workers,
        replies,
    )
}

/// Whether an admin's payout batch that got the answers `replies` accounts
/// for what is seen: the state after it, and the round trips that the record
/// shows after it.
pub open spec fn auto_pay_ran(
    before: PoolState,
    after: PoolState,
    asked_before: Seq<Exchange>,
    asked_after: Seq<Exchange>,
    caller: Identity,
    employer: Identity,
    workers: Seq<Worker>,
    total: Amount,
    replies: Seq<Result<bool, ExternalCallFailure>>,
) -> bool {
    &&& replies.len() == workers.len()
    &&& after == before.auto_pay_workers(caller, employer, workers, total, replies)
    &&& asked_after == asked_before + auto_pay_calls(
        before,
        caller,
        employer,
        workers,
        total,
        replies,
    )
}

/// Whether a deposit that got the answers `funds` and `pull` accounts for what
/// is seen: its result `success`, the state after it, and the round trips
/// that the record shows after it.
pub open spec fn deposit_ran(
    before: PoolState,
    after: PoolState,
    asked_before: Seq<Exchange>,
    asked_after: Seq<Exchange>,
    caller: Identity,
    escrow: Identity,
    amount: Amount,
    funds: Result<Amount, ExternalCallFailure>,
    pull: Result<bool, ExternalCallFailure>,
    success: bool,
) -> bool {
    &&& success == deposit_lands(before.available(caller), amount, funds, pull)
    &&& after == before.deposit(caller, amount, funds, pull)
    &&& asked_after == asked_before + deposit_calls(
        before.available(caller),
        before.token,
        caller,
        escrow,
        amount,
        funds,
        pull,
    )
}

/// Whether an emergency withdrawal that got the answer `reply` accounts for
/// what is seen: its result `r`, the state after it, and the round trips that
/// the record shows after it. A caller without the role is denied, whatever
/// else holds; an amount above the balance is refused with the balance; a
/// transfer that is not confirmed is reported as a failure.
pub open spec fn withdrawal_ran(
    before: PoolState,
    after: PoolState,
    asked_before: Seq<Exchange>,
    asked_after: Seq<Exchange>,
    caller: Identity,
    employer: Identity,
    amount: Amount,
    reply: Result<bool, ExternalCallFailure>,
    r: Result<(), EmployerPoolError>,
) -> bool {
    &&& after == before.emergency_withdraw(caller, employer, amount, reply)
    &&& asked_after == asked_before + withdraw_calls(before, caller, employer, amount, reply)
    &&& match r {
        Ok(_) => caller == before.admin && amount@ <= before.available(employer) && confirmed(
            reply,
        ),
        Err(EmployerPoolError::AccessDenied) => caller != before.admin,
        Err(EmployerPoolError::InsufficientBalance(balance)) => caller == before.admin && balance@
            == before.available(employer) && balance@ < amount@,
        Err(EmployerPoolError::ExternalCallFailure) => caller == before.admin && amount@
            <= before.available(employer) && !confirmed(reply),
    }
}

/// A payout batch never leaves more than it started with.
pub proof fn lemma_batch_balance_bounded(
    start: nat,
    workers: Seq<Worker>,
    replies: Seq<Result<bool, ExternalCallFailure>>,
)
    ensures
        batch_balance(start, workers, replies) <= start,
    decreases workers.len(),
{
    if workers.len() > 0 {
        lemma_batch_balance_bounded(start, workers.drop_last(), replies.drop_last());
    }
}

/// Initialization takes effect once: after a call by someone with an
/// identity there is an admin, and a further call by anyone changes nothing.
pub proof fn lemma_initialize_once(state: PoolState, first: Identity, second: Identity)
    requires
        !first.is_unset(),
    ensures
        state.admin.is_unset() ==> state.initialize_admin(first).admin == first,
        !state.admin.is_unset() ==> state.initialize_admin(first) == state,
        state.initialize_admin(first).initialize_admin(second) == state.initialize_admin(first),
{
}

/// Whoever is not the admin is refused by every admin-only operation, which
/// then changes nothing and asks the asset contract nothing.
pub proof fn lemma_access_denied(
    state: PoolState,
    caller: Identity,
    other: Identity,
    workers: Seq<Worker>,
    amount: Amount,
    replies: Seq<Result<bool, ExternalCallFailure>>,
    reply: Result<bool, ExternalCallFailure>,
)
    requires
        caller != state.admin,
    ensures
        state.require_admin(caller) == Err::<(), EmployerPoolError>(EmployerPoolError::AccessDenied),
        state.change_admin(caller, other) == Err::<PoolState, EmployerPoolError>(
            EmployerPoolError::AccessDenied,
        ),
        state.set_address(caller, other) == Err::<PoolState, EmployerPoolError>(
            EmployerPoolError::AccessDenied,
        ),
        state.auto_pay_workers(caller, other, workers, amount, replies) == state,
        auto_pay_calls(state, caller, other, workers, amount, replies) == Seq::<Exchange>::empty(),
        state.emergency_withdraw(caller, other, amount, reply) == state,
        withdraw_calls(state, caller, other, amount, reply) == Seq::<Exchange>::empty(),
{
}

/// Rotation: once the admin has handed its role to `new_admin`, every
/// admin-only operation lets `new_admin` through, and refuses the former
/// admin unless the role was handed to itself.
pub proof fn lemma_admin_rotation(
    state: PoolState,
    caller: Identity,
    new_admin: Identity,
    other: Identity,
    workers: Seq<Worker>,
    amount: Amount,
    replies: Seq<Result<bool, ExternalCallFailure>>,
    reply: Result<bool, ExternalCallFailure>,
)
    requires
        caller == state.admin,
    ensures
        state.change_admin(caller, new_admin) matches Ok(next) && {
            &&& next.admin == new_admin
            &&& next.token == state.token
            &&& next.ledger == state.ledger
            &&& next.require_admin(new_admin) == Ok::<(), EmployerPoolError>(())
            &&& next.change_admin(new_admin, other).is_ok()
            &&& next.set_address(new_admin, other).is_ok()
            &&& amount@ <= next.available(other) ==> {
                &&& next.auto_pay_workers(new_admin, other, workers, amount, replies)
                    == next.pay_batch(other, workers, replies)
                &&& confirmed(reply) ==> next.emergency_withdraw(new_admin, other, amount, reply)
                    == next.debit(other, amount@)
            }
            &&& caller != new_admin ==> {
                &&& next.require_admin(caller) == Err::<(), EmployerPoolError>(
                    EmployerPoolError::AccessDenied,
                )
                &&& next.change_admin(caller, other) == Err::<PoolState, EmployerPoolError>(
                    EmployerPoolError::AccessDenied,
                )
                &&& next.set_address(caller, other) == Err::<PoolState, EmployerPoolError>(
                    EmployerPoolError::AccessDenied,
                )
                &&& next.auto_pay_workers(caller, other, workers, amount, replies) == next
                &&& next.emergency_withdraw(caller, other, amount, reply) == next
            }
        },
{
}

/// What a payout batch does to the books: the payer is left with what the
/// batch leaves, which is never more than it had and never less than nothing;
/// every other employer keeps what it had; and the total falls by what the
/// payer paid.
pub proof fn lemma_pay_batch(
    state: PoolState,
    employer: Identity,
    workers: Seq<Worker>,
    replies: Seq<Result<bool, ExternalCallFailure>>,
)
    requires
        well_formed(state.ledger),
    ensures
        well_formed(state.pay_batch(employer, workers, replies).ledger),
        0 <= batch_balance(state.available(employer), workers, replies) <= state.available(
            employer,
        ),
        state.pay_batch(employer, workers, replies).available(employer) == batch_balance(
            state.available(employer),
            workers,
            replies,
        ),
        forall|other: Identity|
            other != employer ==> #[trigger] state.pay_batch(employer, workers, replies).available(
                other,
            ) == state.available(other),
        state.pay_batch(employer, workers, replies).total() + state.available(employer)
            == state.total() + batch_balance(state.available(employer), workers, replies),
{
    let start: nat = state.available(employer);
    lemma_batch_balance_bounded(start, workers, replies);
    lemma_debited(state.ledger, employer, (start - batch_balance(start, workers, replies)) as nat);
}

} // verus!
