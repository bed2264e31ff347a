use crate::amount::{u256_lt, Amount};
use crate::gateway::{
    balance_or_zero, confirmed, reported, Audited, Exchange, ExternalCallFailure, IERC20,
};
use crate::identity::Identity;
use crate::ledger::{balance_in, credited, BalanceLedger};
use vstd::prelude::*;

verus! {

/// Whether a deposit goes on to ask for the transfer, once the asset contract
/// has answered the balance query with `funds`: the reported balance covers
/// the amount, and the amount on top of `held`, what the depositor has in the
/// books, is no more than an `Amount` can hold.
pub open spec fn deposit_admitted(
    held: nat,
    amount: Amount,
    funds: Result<Amount, ExternalCallFailure>,
) -> bool {
    amount@ <= reported(funds) && held + amount@ <= Amount::max_value()
}

/// Whether a deposit is credited: it is admitted, and the asset contract
/// confirms that it pulled the amount in.
pub open spec fn deposit_lands(
    held: nat,
    amount: Amount,
    funds: Result<Amount, ExternalCallFailure>,
    pull: Result<bool, ExternalCallFailure>,
) -> bool {
    deposit_admitted(held, amount, funds) && confirmed(pull)
}

/// The round trips of a deposit: the balance query, and where the deposit is
/// admitted, the request to pull the amount from the depositor to the escrow.
pub open spec fn deposit_calls(
    held: nat,
    token: Identity,
    caller: Identity,
    escrow: Identity,
    amount: Amount,
    funds: Result<Amount, ExternalCallFailure>,
    pull: Result<bool, ExternalCallFailure>,
) -> Seq<Exchange> {
    let query = Exchange::BalanceOf { token, account: caller, reply: funds };
    if deposit_admitted(held, amount, funds) {
        seq![
            query,
            Exchange::TransferFrom { token, sender: caller, recipient: escrow, amount, reply: pull },
        ]
    } else {
        seq![query]
    }
}

/// The books after `caller` asked to deposit `amount`, where the asset
/// contract answered the balance query with `funds` and the request to pull
/// the amount in with `pull`: credited where the deposit lands, untouched
/// where not.
pub open spec fn books_after_deposit(
    books: Map<Identity, nat>,
    caller: Identity,
    amount: Amount,
    funds: Result<Amount, ExternalCallFailure>,
    pull: Result<bool, ExternalCallFailure>,
) -> Map<Identity, nat> {
    if deposit_lands(balance_in(books, caller), amount, funds, pull) {
        credited(books, caller, amount@)
    } else {
        books
    }
}

/// Whether a deposit that got the answers `funds` and `pull` accounts for what
/// is seen: its result `success`, the books after it, and the round trips
/// that the record shows after it.
pub open spec fn deposit_made(
    before: Map<Identity, nat>,
    after: Map<Identity, nat>,
    asked_before: Seq<Exchange>,
    asked_after: Seq<Exchange>,
    token: Identity,
    caller: Identity,
    escrow: Identity,
    amount: Amount,
    funds: Result<Amount, ExternalCallFailure>,
    pull: Result<bool, ExternalCallFailure>,
    success: bool,
) -> bool {
    &&& success == deposit_lands(balance_in(before, caller), amount, funds, pull)
    &&& after == books_after_deposit(before, caller, amount, funds, pull)
    &&& asked_after == asked_before + deposit_calls(
        balance_in(before, caller),
        token,
        caller,
        escrow,
        amount,
        funds,
        pull,
    )
}

/// First half of a deposit: takes the asset contract's answer to the balance
/// query, and says whether the reported balance covers `amount`. A failed
/// round trip reports nothing, and so covers only a deposit of nothing.
pub fn deposit_covered(funds: Result<Amount, ExternalCallFailure>, amount: Amount) -> (covered:
    bool)
    ensures
        covered == (amount@ <= reported(funds)),
{
    let external = balance_or_zero(funds);
    !u256_lt(&external, &amount)
}

/// Second half of a deposit: takes the asset contract's answer to the request
/// to pull `amount` in, and credits `caller` only where the answer confirms
/// the transfer.
pub fn settle_deposit(
    books: &mut BalanceLedger,
    caller: Identity,
    amount: Amount,
    reply: Result<bool, ExternalCallFailure>,
) -> (landed: bool)
    requires
        old(books).balance(caller) + amount@ <= Amount::max_value(),
    ensures
        landed == confirmed(reply),
        final(books)@ == if landed {
            credited(old(books)@, caller, amount@)
        } else {
            old(books)@
        },
{
    match reply {
        Ok(true) => {
            books.credit(&caller, &amount);
            true
        },
        _ => false,
    }
}

/// Takes a deposit of `amount` from `caller` into `books`: asks `token` what
/// `caller` owns, and where that covers `amount` and the credit would fit,
/// asks it to move `amount` from `caller` to `escrow`. The amount is
/// credited, and `true` returned, only where that transfer is confirmed.
/// Where the reported balance falls short, whatever the books hold, and where
/// it covers the amount but the credit would not fit, the answer is `false`,
/// nothing is changed and no transfer is asked for.
pub fn take_deposit<G: IERC20>(
    books: &mut BalanceLedger,
    gateway: &mut Audited<G>,
    token: Identity,
    caller: Identity,
    escrow: Identity,
    amount: Amount,
) -> (success: bool)
    ensures
        final(gateway).trail().len() > old(gateway).trail().len(),
        final(gateway).trail()[old(gateway).trail().len() as int] matches Exchange::BalanceOf {
            token: asked,
            account,
            reply,
        } && {
            &&& asked == token
            &&& account == caller
            &&& reported(reply) < amount@ ==> {
                &&& !success
                &&& final(books)@ == old(books)@
                &&& final(gateway).trail().len() == old(gateway).trail().len() + 1
            }
            &&& amount@ <= reported(reply) && old(books).balance(caller) + amount@
                > Amount::max_value() ==> {
                &&& !success
                &&& final(books)@ == old(books)@
                &&& final(gateway).trail().len() == old(gateway).trail().len() + 1
            }
        },
        !success ==> final(books)@ == old(books)@,
        exists|funds: Result<Amount, ExternalCallFailure>, pull: Result<bool, ExternalCallFailure>|
            #[trigger] deposit_made(
                old(books)@,
                final(books)@,
                old(gateway).trail(),
                final(gateway).trail(),
                token,
                caller,
                escrow,
                amount,
                funds,
                pull,
                success,
            ),
{
    let ghost held: nat = books.balance(caller);
    let funds = gateway.balance_of(token, caller);
    if !deposit_covered(funds, amount) || !books.fits(&caller, &amount) {
        proof {
            let pull = Err::<bool, ExternalCallFailure>(ExternalCallFailure);
            assert(gateway.trail() =~= old(gateway).trail() + deposit_calls(
                held,
                token,
                caller,
                escrow,
                amount,
                funds,
                pull,
            ));
            assert(deposit_made(
                old(books)@,
                books@,
                old(gateway).trail(),
                gateway.trail(),
                token,
                caller,
                escrow,
                amount,
                funds,
                pull,
                false,
            ));
        }
        return false;
    }
    let pull = gateway.transfer_from(token, caller, escrow, amount);
    let landed = settle_deposit(books, caller, amount, pull);
    proof {
        assert(gateway.trail() =~= old(gateway).trail() + deposit_calls(
            held,
            token,
            caller,
            escrow,
            amount,
            funds,
            pull,
        ));
        assert(deposit_made(
            old(books)@,
            books@,
            old(gateway).trail(),
            gateway.trail(),
            token,
            caller,
            escrow,
            amount,
            funds,
            pull,
            landed,
        ));
    }
    landed
}

} // verus!
