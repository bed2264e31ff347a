use crate::amount::Amount;
use crate::deposit::{deposit_admitted, deposit_calls, deposit_lands};
use crate::gateway::{confirmed, Exchange, ExternalCallFailure};
use crate::identity::Identity;
use crate::ledger::{lemma_credited, lemma_debited, well_formed};
use crate::pool::Worker;
use crate::state::{
    auto_pay_calls, batch_balance, batch_calls, lemma_batch_balance_bounded, lemma_pay_batch,
    withdraw_calls, PoolState,
};
use vstd::prelude::*;

verus! {

/// What the escrow holds of `token` after one round trip, if `token` is an
/// honest asset contract: a confirmed transfer moves its amount, and nothing
/// else moves anything.
pub open spec fn holdings_after(
    held: int,
    token: Identity,
    escrow: Identity,
    exchange: Exchange,
) -> int {
    match exchange {
        Exchange::BalanceOf { .. } => held,
        Exchange::Transfer { token: asked, recipient, amount, reply } => {
            if asked == token && confirmed(reply) && recipient != escrow {
                held - amount@
            } else {
                held
            }
        },
        Exchange::TransferFrom { token: asked, sender, recipient, amount, reply } => {
            if asked == token && confirmed(reply) && sender != recipient {
                if recipient == escrow {
                    held + amount@
                } else if sender == escrow {
                    held - amount@
                } else {
                    held
                }
            } else {
                held
            }
        },
    }
}

/// What the escrow holds of `token` after the round trips of `trail`, having
/// held `held` before them.
pub open spec fn holdings(held: int, token: Identity, escrow: Identity, trail: Seq<Exchange>) -> int
    decreases trail.len(),
{
    if trail.len() == 0 {
        held
    } else {
        holdings_after(
            holdings(held, token, escrow, trail.drop_last()),
            token,
            escrow,
            trail.last(),
        )
    }
}

/// The books promise no more than the escrow holds.
pub open spec fn solvent(state: PoolState, held: int) -> bool {
    state.total() <= held
}

/// One committed call of an operation that moves balances, with the answers
/// that the asset contract gave during it.
pub enum Operation {
    Deposit {
        caller: Identity,
        amount: Amount,
        funds: Result<Amount, ExternalCallFailure>,
        pull: Result<bool, ExternalCallFailure>,
    },
    PayWorkers {
        caller: Identity,
        workers: Seq<Worker>,
        replies: Seq<Result<bool, ExternalCallFailure>>,
    },
    AutoPayWorkers {
        caller: Identity,
        employer: Identity,
        workers: Seq<Worker>,
        total: Amount,
        replies: Seq<Result<bool, ExternalCallFailure>>,
    },
    EmergencyWithdraw {
        caller: Identity,
        employer: Identity,
        amount: Amount,
        reply: Result<bool, ExternalCallFailure>,
    },
}

/// The state that `operation` leaves behind.
pub open spec fn state_after(state: PoolState, operation: Operation) -> PoolState {
    match operation {
        Operation::Deposit { caller, amount, funds, pull } => state.deposit(
            caller,
            amount,
            funds,
            pull,
        ),
        Operation::PayWorkers { caller, workers, replies } => state.pay_batch(
            caller,
            workers,
            replies,
        ),
        Operation::AutoPayWorkers {
            caller,
            employer,
            workers,
            total,
            replies,
        } => state.auto_pay_workers(caller, employer, workers, total, replies),
        Operation::EmergencyWithdraw { caller, employer, amount, reply } => state.emergency_withdraw(
            caller,
            employer,
            amount,
            reply,
        ),
    }
}

/// The round trips that `operation` makes.
pub open spec fn calls_of(state: PoolState, escrow: Identity, operation: Operation) -> Seq<
    Exchange,
> {
    match operation {
        Operation::Deposit { caller, amount, funds, pull } => deposit_calls(
            state.available(caller),
            state.token,
            caller,
            escrow,
            amount,
            funds,
            pull,
        ),
        Operation::PayWorkers { caller, workers, replies } => batch_calls(
            state.available(caller),
            state.token,
            workers,
            replies,
        ),
        Operation::AutoPayWorkers { caller, employer, workers, total, replies } => auto_pay_calls(
            state,
            caller,
            employer,
            workers,
            total,
            replies,
        ),
        Operation::EmergencyWithdraw { caller, employer, amount, reply } => withdraw_calls(
            state,
            caller,
            employer,
            amount,
            reply,
        ),
    }
}

/// Whether `operation` is one that the solvency law speaks of: any but a
/// deposit that the escrow makes into itself.
pub open spec fn in_scope(escrow: Identity, operation: Operation) -> bool {
    operation matches Operation::Deposit { caller, .. } ==> caller != escrow
}

/// The state after the operations of `run`, one after the other.
pub open spec fn state_after_run(state: PoolState, run: Seq<Operation>) -> PoolState
    decreases run.len(),
{
    if run.len() == 0 {
        state
    } else {
        state_after(state_after_run(state, run.drop_last()), run.last())
    }
}

/// What the escrow holds after the operations of `run`, if the tracked asset
/// contract is honest.
pub open spec fn holdings_after_run(
    state: PoolState,
    held: int,
    escrow: Identity,
    run: Seq<Operation>,
) -> int
    decreases run.len(),
{
    if run.len() == 0 {
        held
    } else {
        let before = state_after_run(state, run.drop_last());
        holdings(
            holdings_after_run(state, held, escrow, run.drop_last()),
            before.token,
            escrow,
            calls_of(before, escrow, run.last()),
        )
    }
}

/// The round trips of a payout batch take from the escrow no more than the
/// batch takes from the employer.
pub proof fn lemma_batch_holdings(
    held: int,
    token: Identity,
    escrow: Identity,
    start: nat,
    workers: Seq<Worker>,
    replies: Seq<Result<bool, ExternalCallFailure>>,
)
    ensures
        batch_balance(start, workers, replies) <= start,
        holdings(held, token, escrow, batch_calls(start, token, workers, replies)) >= held - (start
            - batch_balance(start, workers, replies)),
    decreases workers.len(),
{
    lemma_batch_balance_bounded(start, workers, replies);
    if workers.len() > 0 {
        lemma_batch_holdings(held, token, escrow, start, workers.drop_last(), replies.drop_last());
        let before = batch_calls(start, token, workers.drop_last(), replies.drop_last());
        let left: nat = batch_balance(start, workers.drop_last(), replies.drop_last());
        if workers.last().amount_paid@ <= left {
            let calls = batch_calls(start, token, workers, replies);
            assert(calls.drop_last() =~= before);
        }
    }
}

/// A payout batch keeps the pool solvent.
pub proof fn lemma_pay_batch_solvent(
    state: PoolState,
    held: int,
    escrow: Identity,
    employer: Identity,
    workers: Seq<Worker>,
    replies: Seq<Result<bool, ExternalCallFailure>>,
)
    requires
        well_formed(state.ledger),
        solvent(state, held),
    ensures
        well_formed(state.pay_batch(employer, workers, replies).ledger),
        state.pay_batch(employer, workers, replies).token == state.token,
        solvent(
            state.pay_batch(employer, workers, replies),
            holdings(
                held,
                state.token,
                escrow,
                batch_calls(state.available(employer), state.token, workers, replies),
            ),
        ),
{
    let start: nat = state.available(employer);
    lemma_batch_holdings(held, state.token, escrow, start, workers, replies);
    lemma_debited(
        state.ledger,
        employer,
        (start - batch_balance(start, workers, replies)) as nat,
    );
}

/// One operation keeps the pool solvent: if the books promised no more than
/// the escrow held before it, they promise no more than the escrow holds
/// after it.
pub proof fn lemma_operation_solvent(
    state: PoolState,
    held: int,
    escrow: Identity,
    operation: Operation,
)
    requires
        well_formed(state.ledger),
        solvent(state, held),
        in_scope(escrow, operation),
    ensures
        well_formed(state_after(state, operation).ledger),
        state_after(state, operation).token == state.token,
        solvent(
            state_after(state, operation),
            holdings(held, state.token, escrow, calls_of(state, escrow, operation)),
        ),
{
    assert(holdings(held, state.token, escrow, Seq::<Exchange>::empty()) == held);
    match operation {
        Operation::Deposit { caller, amount, funds, pull } => {
            let calls = deposit_calls(
                state.available(caller),
                state.token,
                caller,
                escrow,
                amount,
                funds,
                pull,
            );
            let query = seq![calls[0]];
            lemma_credited(state.ledger, caller, amount@);
            assert(query.drop_last() =~= Seq::<Exchange>::empty());
            assert(query.last() == Exchange::BalanceOf {
                token: state.token,
                account: caller,
                reply: funds,
            });
            assert(holdings(held, state.token, escrow, query) == held);
            if deposit_admitted(state.available(caller), amount, funds) {
                assert(calls.drop_last() =~= query);
                assert(calls.last() == Exchange::TransferFrom {
                    token: state.token,
                    sender: caller,
                    recipient: escrow,
                    amount,
                    reply: pull,
                });
            } else {
                assert(calls =~= query);
            }
        },
        Operation::PayWorkers { caller, workers, replies } => {
            lemma_pay_batch_solvent(state, held, escrow, caller, workers, replies);
        },
        Operation::AutoPayWorkers { caller, employer, workers, total, replies } => {
            lemma_pay_batch_solvent(state, held, escrow, employer, workers, replies);
        },
        Operation::EmergencyWithdraw { caller, employer, amount, reply } => {
            let calls = withdraw_calls(state, caller, employer, amount, reply);
            if caller == state.admin && amount@ <= state.available(employer) {
                lemma_debited(state.ledger, employer, amount@);
                assert(calls.drop_last() =~= Seq::<Exchange>::empty());
            }
        },
    }
}

/// Solvency: starting from books that promise no more than the escrow holds
/// of the tracked asset, after every sequence of deposits, payouts and
/// emergency withdrawals the books still promise no more than the escrow
/// holds, provided the asset contract is honest and the escrow never deposits
/// into itself.
pub proof fn lemma_solvency(state: PoolState, held: int, escrow: Identity, run: Seq<Operation>)
    requires
        well_formed(state.ledger),
        solvent(state, held),
        forall|i: int| 0 <= i < run.len() ==> in_scope(escrow, #[trigger] run[i]),
    ensures
        well_formed(state_after_run(state, run).ledger),
        state_after_run(state, run).token == state.token,
        solvent(state_after_run(state, run), holdings_after_run(state, held, escrow, run)),
    decreases run.len(),
{
    if run.len() > 0 {
        let earlier = run.drop_last();
        assert forall|i: int| 0 <= i < earlier.len() implies in_scope(
            escrow,
            #[trigger] earlier[i],
        ) by {
            assert(earlier[i] == run[i]);
        }
        lemma_solvency(state, held, escrow, earlier);
        assert(in_scope(escrow, run[run.len() - 1]));
        lemma_operation_solvent(
            state_after_run(state, earlier),
            holdings_after_run(state, held, escrow, earlier),
            escrow,
            run.last(),
        );
    }
}

/// What `operation` adds to what `who` has: the amount of a deposit that
/// lands, for the depositor, and nothing otherwise.
pub open spec fn given(state: PoolState, operation: Operation, who: Identity) -> int {
    match operation {
        Operation::Deposit { caller, amount, funds, pull } => {
            if who == caller && deposit_lands(state.available(caller), amount, funds, pull) {
                amount@ as int
            } else {
                0
            }
        },
        _ => 0,
    }
}

/// What `operation` takes from what `who` has: what a batch pays out of the
/// payer's balance, the amount of a withdrawal that goes through, and nothing
/// otherwise.
pub open spec fn taken(state: PoolState, operation: Operation, who: Identity) -> int {
    match operation {
        Operation::Deposit { .. } => 0,
        Operation::PayWorkers { caller, workers, replies } => {
            if who == caller {
                state.available(caller) - batch_balance(state.available(caller), workers, replies)
            } else {
                0
            }
        },
        Operation::AutoPayWorkers { caller, employer, workers, total, replies } => {
            if who == employer && caller == state.admin && total@ <= state.available(employer) {
                state.available(employer) - batch_balance(
                    state.available(employer),
                    workers,
                    replies,
                )
            } else {
                0
            }
        },
        Operation::EmergencyWithdraw { caller, employer, amount, reply } => {
            if who == employer && caller == state.admin && amount@ <= state.available(employer)
                && confirmed(reply) {
                amount@ as int
            } else {
                0
            }
        },
    }
}

/// Non-negativity: an operation takes from an employer no more than it has,
/// and gives it no more than an `Amount` can hold on top of what it has. So
/// the balance after the operation is the balance before it, less what was
/// taken, plus what was given, as a plain number: nothing wraps below zero
/// or above the width of an `Amount`.
pub proof fn lemma_balance_after(state: PoolState, operation: Operation, who: Identity)
    requires
        well_formed(state.ledger),
        state.available(who) <= Amount::max_value(),
    ensures
        well_formed(state_after(state, operation).ledger),
        0 <= taken(state, operation, who) <= state.available(who),
        0 <= given(state, operation, who),
        state_after(state, operation).available(who) == state.available(who) - taken(
            state,
            operation,
            who,
        ) + given(state, operation, who),
        state_after(state, operation).available(who) <= Amount::max_value(),
{
    match operation {
        Operation::Deposit { caller, amount, funds, pull } => {
            lemma_credited(state.ledger, caller, amount@);
        },
        Operation::PayWorkers { caller, workers, replies } => {
            lemma_pay_batch(state, caller, workers, replies);
        },
        Operation::AutoPayWorkers { caller, employer, workers, total, replies } => {
            lemma_pay_batch(state, employer, workers, replies);
        },
        Operation::EmergencyWithdraw { caller, employer, amount, reply } => {
            if amount@ <= state.available(employer) {
                lemma_debited(state.ledger, employer, amount@);
            }
        },
    }
}

/// Over a whole run of operations the books stay well formed, and every
/// balance stays within what an `Amount` can hold.
pub proof fn lemma_balances_in_range(state: PoolState, run: Seq<Operation>)
    requires
        well_formed(state.ledger),
        forall|who: Identity| #[trigger] state.available(who) <= Amount::max_value(),
    ensures
        well_formed(state_after_run(state, run).ledger),
        forall|who: Identity|
            0 <= #[trigger] state_after_run(state, run).available(who) <= Amount::max_value(),
    decreases run.len(),
{
    if run.len() > 0 {
        lemma_balances_in_range(state, run.drop_last());
        let before = state_after_run(state, run.drop_last());
        assert forall|who: Identity|
            0 <= #[trigger] state_after_run(state, run).available(who)
                <= Amount::max_value() by {
            lemma_balance_after(before, run.last(), who);
        }
        // For any one employer, the same fact says that the books stay well formed.
        lemma_balance_after(before, run.last(), state.admin);
    }
}

/// What one operation does to the sum of all balances: a deposit that lands
/// adds its amount, one that does not adds nothing, and no other operation
/// adds anything.
pub proof fn lemma_total_after(state: PoolState, operation: Operation)
    requires
        well_formed(state.ledger),
    ensures
        match operation {
            Operation::Deposit { caller, amount, funds, pull } => state_after(
                state,
                operation,
            ).total() == state.total() + if deposit_lands(
                state.available(caller),
                amount,
                funds,
                pull,
            ) {
                amount@
            } else {
                0
            },
            Operation::PayWorkers { caller, workers, replies } => state_after(
                state,
                operation,
            ).total() + state.available(caller) == state.total() + batch_balance(
                state.available(caller),
                workers,
                replies,
            ),
            _ => state_after(state, operation).total() <= state.total(),
        },
{
    match operation {
        Operation::Deposit { caller, amount, funds, pull } => {
            lemma_credited(state.ledger, caller, amount@);
        },
        Operation::PayWorkers { caller, workers, replies } => {
            lemma_pay_batch(state, caller, workers, replies);
        },
        Operation::AutoPayWorkers { caller, employer, workers, total, replies } => {
            lemma_pay_batch(state, employer, workers, replies);
        },
        Operation::EmergencyWithdraw { caller, employer, amount, reply } => {
            if amount@ <= state.available(employer) {
                lemma_debited(state.ledger, employer, amount@);
            }
        },
    }
}

} // verus!
