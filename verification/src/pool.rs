use crate::amount::{u256_lt, Amount};
use crate::deposit::{deposit_made, settle_deposit, take_deposit};
use crate::gateway::{
    balance_or_zero, confirmed, reported, Audited, Exchange, ExternalCallFailure, IERC20,
};
use crate::identity::Identity;
use crate::ledger::{
    debited, lemma_credited_debited, lemma_debited, lemma_debited_twice, well_formed,
    BalanceLedger,
};
use crate::state::{
    auto_pay_ran, batch_balance, batch_calls, batch_ran, deposit_ran, lemma_batch_balance_bounded,
    withdraw_calls, withdrawal_ran, PoolState,
};
use vstd::prelude::*;

verus! {

/// One line of a payout batch: who is to be paid, and how much.
#[derive(Clone, Copy, Debug)]
pub struct Worker {
    pub worker_address: Identity,
    pub amount_paid: Amount,
}

/// Why an operation of the pool was refused.
#[derive(Clone, Copy, Debug)]
pub enum EmployerPoolError {
    /// The caller is not the admin.
    AccessDenied,
    /// More was asked for than the employer has; the balance it does have
    /// comes with the error.
    InsufficientBalance(Amount),
    /// The asset contract did not confirm a transfer that the operation
    /// cannot do without.
    ExternalCallFailure,
}

/// The escrow: an admin, the asset contract it tracks, and its books.
pub struct EmployerPool {
    admin: Identity,
    token: Identity,
    ledger: BalanceLedger,
}

impl View for EmployerPool {
    type V = PoolState;

    closed spec fn view(&self) -> PoolState {
        PoolState { admin: self.admin, token: self.token, ledger: self.ledger@ }
    }
}

impl EmployerPool {
    /// The books of every pool are well formed, and no balance in them
    /// exceeds what an `Amount` can hold.
    pub proof fn lemma_well_formed(&self)
        ensures
            well_formed(self@.ledger),
            forall|who: Identity| #[trigger] self@.available(who) <= Amount::max_value(),
    {
        self.ledger.lemma_well_formed();
        assert forall|who: Identity| #[trigger] self@.available(who) <= Amount::max_value() by {
            assert(self.ledger.balance(who) <= Amount::max_value());
        }
    }

    /// A pool without admin, without tracked asset and with empty books.
    pub fn new() -> (pool: EmployerPool)
        ensures
            pool@.admin.is_unset(),
            pool@.token.is_unset(),
            pool@.ledger == Map::<Identity, nat>::empty(),
    {
        EmployerPool {
            admin: Identity::unset(),
            token: Identity::unset(),
            ledger: BalanceLedger::new(),
        }
    }

    /// A pool with the given admin, tracked asset and books: the way back in
    /// for state that was kept elsewhere between calls.
    pub fn from_parts(admin: Identity, token: Identity, ledger: BalanceLedger) -> (pool:
        EmployerPool)
        ensures
            pool@ == (PoolState { admin, token, ledger: ledger@ }),
    {
        EmployerPool { admin, token, ledger }
    }

    /// Makes `caller` the admin if there is none yet, and does nothing
    /// otherwise.
    pub fn initialize_admin(&mut self, caller: Identity)
        ensures
            final(self)@ == old(self)@.initialize_admin(caller),
    {
        if self.admin.is_default() {
            self.admin = caller;
        }
    }

    /// Passes for the admin and for nobody else.
    pub fn require_admin(&self, caller: Identity) -> (r: Result<(), EmployerPoolError>)
        ensures
            r == self@.require_admin(caller),
    {
        if caller == self.admin {
            Ok(())
        } else {
            Err(EmployerPoolError::AccessDenied)
        }
    }

    /// Hands the admin role to `new_admin`. Only the admin may do so; anyone
    /// else is denied, and nothing changes.
    pub fn change_admin(&mut self, caller: Identity, new_admin: Identity) -> (r: Result<
        (),
        EmployerPoolError,
    >)
        ensures
            match old(self)@.change_admin(caller, new_admin) {
                Ok(next) => r == Ok::<(), EmployerPoolError>(()) && final(self)@ == next,
                Err(e) => r == Err::<(), EmployerPoolError>(e) && final(self)@ == old(self)@,
            },
    {
        if caller == self.admin {
            self.admin = new_admin;
            Ok(())
        } else {
            Err(EmployerPoolError::AccessDenied)
        }
    }

    /// Makes `token` the tracked asset contract. Only the admin may do so;
    /// anyone else is denied, and nothing changes.
    pub fn set_address(&mut self, caller: Identity, token: Identity) -> (r: Result<
        (),
        EmployerPoolError,
    >)
        ensures
            match old(self)@.set_address(caller, token) {
                Ok(next) => r == Ok::<(), EmployerPoolError>(()) && final(self)@ == next,
                Err(e) => r == Err::<(), EmployerPoolError>(e) && final(self)@ == old(self)@,
            },
    {
        if caller == self.admin {
            self.token = token;
            Ok(())
        } else {
            Err(EmployerPoolError::AccessDenied)
        }
    }

    /// The admin, or the unset identity while there is none.
    pub fn current_admin(&self) -> (admin: Identity)
        ensures
            admin == self@.admin,
    {
        self.admin
    }

    /// The tracked asset contract, or the unset identity while there is none.
    pub fn token(&self) -> (token: Identity)
        ensures
            token == self@.token,
    {
        self.token
    }

    /// What `employer` has available in the pool.
    pub fn employer_balance(&self, employer: Identity) -> (balance: Amount)
        ensures
            balance@ == self@.available(employer),
    {
        self.ledger.get(&employer)
    }

    /// What the caller has available in the pool.
    pub fn my_balance(&self, caller: Identity) -> (balance: Amount)
        ensures
            balance@ == self@.available(caller),
    {
        self.ledger.get(&caller)
    }

    /// Reads how much of the tracked asset `owner` owns, as the asset contract
    /// reports it. A failed round trip reads as zero: "unknown", not
    /// "nothing".
    pub fn token_balance<G: IERC20>(&self, gateway: &mut Audited<G>, owner: Identity) -> (balance:
        Amount)
        ensures
            final(gateway).trail().len() == old(gateway).trail().len() + 1,
            final(gateway).trail().drop_last() == old(gateway).trail(),
            final(gateway).trail().last() matches Exchange::BalanceOf { token, account, reply }
                && token == self@.token && account == owner && balance@ == reported(reply),
    {
        let reply = gateway.balance_of(self.token, owner);
        proof {
            assert(gateway.trail().drop_last() =~= old(gateway).trail());
        }
        balance_or_zero(reply)
    }

    /// First half of one payment: sets `amount` aside from what `employer`
    /// has, before any transfer is asked for. Refuses, and changes nothing,
    /// where `employer` has less than `amount`.
    pub fn reserve_payment(&mut self, employer: Identity, amount: Amount) -> (reserved: bool)
        ensures
            reserved == (amount@ <= old(self)@.available(employer)),
            final(self)@ == if reserved {
                old(self)@.debit(employer, amount@)
            } else {
                old(self)@
            },
    {
        let available = self.ledger.get(&employer);
        if u256_lt(&available, &amount) {
            false
        } else {
            self.ledger.debit(&employer, &amount);
            true
        }
    }

    /// Second half of one payment: takes the asset contract's answer to the
    /// transfer request. A confirmed transfer keeps what was set aside; any
    /// other answer gives it back to `employer`.
    pub fn settle_payment(
        &mut self,
        employer: Identity,
        amount: Amount,
        reply: Result<bool, ExternalCallFailure>,
    ) -> (paid: bool)
        requires
            old(self)@.available(employer) + amount@ <= Amount::max_value(),
        ensures
            paid == confirmed(reply),
            final(self)@ == if paid {
                old(self)@
            } else {
                old(self)@.credit(employer, amount@)
            },
    {
        match reply {
            Ok(true) => true,
            _ => {
                self.ledger.credit(&employer, &amount);
                false
            },
        }
    }

    /// Pays `workers` in order out of what `employer` has.
    fn pay_from<G: IERC20>(
        &mut self,
        gateway: &mut Audited<G>,
        employer: Identity,
        workers: &Vec<Worker>,
    )
        ensures
            exists|replies: Seq<Result<bool, ExternalCallFailure>>| #[trigger]
                batch_ran(
                    old(self)@,
                    final(self)@,
                    old(gateway).trail(),
                    final(gateway).trail(),
                    employer,
                    workers@,
                    replies,
                ),
    {
        let ghost before = self@;
        let ghost start: nat = self@.available(employer);
        let ghost mut replies: Seq<Result<bool, ExternalCallFailure>> = Seq::empty();
        let token = self.token;
        proof {
            self.lemma_well_formed();
            assert(self@.available(employer) <= Amount::max_value());
            assert(workers@.take(0) =~= Seq::<Worker>::empty());
            assert(before.pay_batch(employer, workers@.take(0), replies).ledger =~= before.ledger);
            assert(old(gateway).trail() + batch_calls(start, token, workers@.take(0), replies)
                =~= old(gateway).trail());
        }
        let mut i: usize = 0;
        while i < workers.len()
            invariant
                i <= workers@.len(),
                replies.len() == i,
                before == old(self)@,
                well_formed(before.ledger),
                start == before.available(employer),
                start <= Amount::max_value(),
                token == before.token,
                self@ == before.pay_batch(employer, workers@.take(i as int), replies),
                gateway.trail() == old(gateway).trail() + batch_calls(
                    start,
                    token,
                    workers@.take(i as int),
                    replies,
                ),
            decreases workers@.len() - i,
        {
            let worker = workers[i];
            let ghost done = workers@.take(i as int);
            let ghost left: nat = batch_balance(start, done, replies);
            let ghost mut reply: Result<bool, ExternalCallFailure> = Err(ExternalCallFailure);
            proof {
                lemma_batch_balance_bounded(start, done, replies);
                lemma_debited(before.ledger, employer, (start - left) as nat);
            }
            if self.reserve_payment(employer, worker.amount_paid) {
                let answer = gateway.transfer(token, worker.worker_address, worker.amount_paid);
                proof {
                    reply = answer;
                    lemma_debited_twice(
                        before.ledger,
                        employer,
                        (start - left) as nat,
                        worker.amount_paid@,
                    );
                    lemma_credited_debited(
                        debited(before.ledger, employer, (start - left) as nat),
                        employer,
                        worker.amount_paid@,
                    );
                }
                self.settle_payment(employer, worker.amount_paid, answer);
            }
            proof {
                let next = workers@.take(i + 1);
                assert(next.drop_last() =~= done);
                assert(next.last() == worker);
                assert(replies.push(reply).drop_last() =~= replies);
                replies = replies.push(reply);
            }
            i += 1;
        }
        proof {
            assert(workers@.take(i as int) =~= workers@);
            assert(batch_ran(
                before,
                self@,
                old(gateway).trail(),
                gateway.trail(),
                employer,
                workers@,
                replies,
            ));
        }
    }

    /// Pays `workers` in order out of what the caller has. A line that asks
    /// for more than is left at its turn is skipped; one whose transfer the
    /// asset contract does not confirm takes nothing from the balance. Always
    /// answers `true`.
    pub fn pay_workers<G: IERC20>(
        &mut self,
        gateway: &mut Audited<G>,
        caller: Identity,
        workers: Vec<Worker>,
    ) -> (success: bool)
        ensures
            success,
            exists|replies: Seq<Result<bool, ExternalCallFailure>>| #[trigger]
                batch_ran(
                    old(self)@,
                    final(self)@,
                    old(gateway).trail(),
                    final(gateway).trail(),
                    caller,
                    workers@,
                    replies,
                ),
    {
        self.pay_from(gateway, caller, &workers);
        true
    }

    /// Pays `workers` in order out of what `employer` has, on the admin's
    /// word. Refused with `AccessDenied` for any other caller, whatever else
    /// holds, and with `InsufficientBalance` where `employer` has less than
    /// the announced `total`; a refusal changes nothing and asks the asset
    /// contract nothing. Otherwise the batch runs as `pay_workers` runs it.
    pub fn auto_pay_workers<G: IERC20>(
        &mut self,
        gateway: &mut Audited<G>,
        caller: Identity,
        employer: Identity,
        workers: Vec<Worker>,
        total: Amount,
    ) -> (r: Result<bool, EmployerPoolError>)
        ensures
            match r {
                Ok(success) => success && caller == old(self)@.admin && total@ <= old(
                    self,
                )@.available(employer),
                Err(EmployerPoolError::AccessDenied) => caller != old(self)@.admin,
                Err(EmployerPoolError::InsufficientBalance(balance)) => caller == old(self)@.admin
                    && balance@ == old(self)@.available(employer) && balance@ < total@,
                Err(EmployerPoolError::ExternalCallFailure) => false,
            },
            r.is_err() ==> final(self)@ == old(self)@ && final(gateway).trail() == old(
                gateway,
            ).trail(),
            exists|replies: Seq<Result<bool, ExternalCallFailure>>| #[trigger]
                auto_pay_ran(
                    old(self)@,
                    final(self)@,
                    old(gateway).trail(),
                    final(gateway).trail(),
                    caller,
                    employer,
                    workers@,
                    total,
                    replies,
                ),
    {
        let ghost before = self@;
        let ghost idle = Seq::new(
            workers@.len(),
            |i: int| Err::<bool, ExternalCallFailure>(ExternalCallFailure),
        );
        if self.require_admin(caller).is_err() {
            proof {
                assert(gateway.trail() + Seq::<Exchange>::empty() =~= gateway.trail());
                assert(auto_pay_ran(
                    before,
                    self@,
                    old(gateway).trail(),
                    gateway.trail(),
                    caller,
                    employer,
                    workers@,
                    total,
                    idle,
                ));
            }
            return Err(EmployerPoolError::AccessDenied);
        }
        let balance = self.ledger.get(&employer);
        if u256_lt(&balance, &total) {
            proof {
                assert(gateway.trail() + Seq::<Exchange>::empty() =~= gateway.trail());
                assert(auto_pay_ran(
                    before,
                    self@,
                    old(gateway).trail(),
                    gateway.trail(),
                    caller,
                    employer,
                    workers@,
                    total,
                    idle,
                ));
            }
            return Err(EmployerPoolError::InsufficientBalance(balance));
        }
        self.pay_from(gateway, employer, &workers);
        proof {
            let replies = choose|replies: Seq<Result<bool, ExternalCallFailure>>| #[trigger]
                batch_ran(
                    before,
                    self@,
                    old(gateway).trail(),
                    gateway.trail(),
                    employer,
                    workers@,
                    replies,
                );
            assert(auto_pay_ran(
                before,
                self@,
                old(gateway).trail(),
                gateway.trail(),
                caller,
                employer,
                workers@,
                total,
                replies,
            ));
        }
        Ok(true)
    }

    /// Second half of a deposit: takes the asset contract's answer to the
    /// request to pull `amount` in, and credits `caller` only where the
    /// answer confirms the transfer.
    pub fn settle_deposit(
        &mut self,
        caller: Identity,
        amount: Amount,
        reply: Result<bool, ExternalCallFailure>,
    ) -> (landed: bool)
        requires
            old(self)@.available(caller) + amount@ <= Amount::max_value(),
        ensures
            landed == confirmed(reply),
            final(self)@ == if landed {
                old(self)@.credit(caller, amount@)
            } else {
                old(self)@
            },
    {
        settle_deposit(&mut self.ledger, caller, amount, reply)
    }

    /// Takes a deposit of `amount` from `caller`: asks the tracked asset
    /// contract what `caller` owns, and where that covers `amount` and the
    /// credit would fit, asks it to move `amount` from `caller` to `escrow`,
    /// the pool's own account. The amount is credited, and `true` returned,
    /// only where that transfer is confirmed. Where the reported balance falls
    /// short, whatever the books hold, and where it covers the amount but the
    /// credit would not fit, the answer is `false`, nothing is changed and no
    /// transfer is asked for.
    pub fn deposit<G: IERC20>(
        &mut self,
        gateway: &mut Audited<G>,
        caller: Identity,
        escrow: Identity,
        amount: Amount,
    ) -> (success: bool)
        ensures
            final(gateway).trail().len() > old(gateway).trail().len(),
            final(gateway).trail()[old(gateway).trail().len() as int] matches Exchange::BalanceOf {
                token,
                account,
                reply,
            } && {
                &&& token == old(self)@.token
                &&& account == caller
                &&& reported(reply) < amount@ ==> {
                    &&& !success
                    &&& final(self)@ == old(self)@
                    &&& final(gateway).trail().len() == old(gateway).trail().len() + 1
                }
                &&& amount@ <= reported(reply) && old(self)@.available(caller) + amount@
                    > Amount::max_value() ==> {
                    &&& !success
                    &&& final(self)@ == old(self)@
                    &&& final(gateway).trail().len() == old(gateway).trail().len() + 1
                }
            },
            !success ==> final(self)@ == old(self)@,
            exists|funds: Result<Amount, ExternalCallFailure>, pull: Result<bool, ExternalCallFailure>|
                #[trigger] deposit_ran(
                    old(self)@,
                    final(self)@,
                    old(gateway).trail(),
                    final(gateway).trail(),
                    caller,
                    escrow,
                    amount,
                    funds,
                    pull,
                    success,
                ),
    {
        let ghost before = self@;
        let token = self.token;
        let success = take_deposit(&mut self.ledger, gateway, token, caller, escrow, amount);
        proof {
            let (funds, pull) = choose|
                funds: Result<Amount, ExternalCallFailure>,
                pull: Result<bool, ExternalCallFailure>,
            | #[trigger]
                deposit_made(
                    before.ledger,
                    self.ledger@,
                    old(gateway).trail(),
                    gateway.trail(),
                    token,
                    caller,
                    escrow,
                    amount,
                    funds,
                    pull,
                    success,
                );
            assert(deposit_ran(
                before,
                self@,
                old(gateway).trail(),
                gateway.trail(),
                caller,
                escrow,
                amount,
                funds,
                pull,
                success,
            ));
        }
        success
    }

    /// Moves `amount` of `employer`'s balance out to the admin. Refused with
    /// `AccessDenied` for any caller but the admin, whatever else holds, and
    /// with `InsufficientBalance` where `employer` has less than `amount`; a
    /// refusal changes nothing and asks the asset contract nothing. Otherwise
    /// the amount is set aside, the asset contract is asked to move it to the
    /// admin, and where it does not confirm, the amount is given back and
    /// `ExternalCallFailure` returned.
    pub fn emergency_withdraw<G: IERC20>(
        &mut self,
        gateway: &mut Audited<G>,
        caller: Identity,
        employer: Identity,
        amount: Amount,
    ) -> (r: Result<(), EmployerPoolError>)
        ensures
            r.is_err() ==> final(self)@ == old(self)@,
            r matches Err(e) && !(e is ExternalCallFailure) ==> final(gateway).trail() == old(
                gateway,
            ).trail(),
            exists|reply: Result<bool, ExternalCallFailure>| #[trigger]
                withdrawal_ran(
                    old(self)@,
                    final(self)@,
                    old(gateway).trail(),
                    final(gateway).trail(),
                    caller,
                    employer,
                    amount,
                    reply,
                    r,
                ),
    {
        let ghost before = self@;
        let ghost idle = Err::<bool, ExternalCallFailure>(ExternalCallFailure);
        if self.require_admin(caller).is_err() {
            let r = Err(EmployerPoolError::AccessDenied);
            proof {
                assert(gateway.trail() + Seq::<Exchange>::empty() =~= gateway.trail());
                assert(withdrawal_ran(
                    before,
                    self@,
                    old(gateway).trail(),
                    gateway.trail(),
                    caller,
                    employer,
                    amount,
                    idle,
                    r,
                ));
            }
            return r;
        }
        let balance = self.ledger.get(&employer);
        if u256_lt(&balance, &amount) {
            let r = Err(EmployerPoolError::InsufficientBalance(balance));
            proof {
                assert(gateway.trail() + Seq::<Exchange>::empty() =~= gateway.trail());
                assert(withdrawal_ran(
                    before,
                    self@,
                    old(gateway).trail(),
                    gateway.trail(),
                    caller,
                    employer,
                    amount,
                    idle,
                    r,
                ));
            }
            return r;
        }
        let token = self.token;
        let admin = self.admin;
        proof {
            self.lemma_well_formed();
            assert(self@.available(employer) <= Amount::max_value());
            lemma_debited(self@.ledger, employer, amount@);
            lemma_credited_debited(self@.ledger, employer, amount@);
        }
        self.ledger.debit(&employer, &amount);
        let reply = gateway.transfer(token, admin, amount);
        let paid = self.settle_payment(employer, amount, reply);
        let r = if paid {
            Ok(())
        } else {
            Err(EmployerPoolError::ExternalCallFailure)
        };
        proof {
            assert(gateway.trail() =~= old(gateway).trail() + withdraw_calls(
                before,
                caller,
                employer,
                amount,
                reply,
            ));
            assert(withdrawal_ran(
                before,
                self@,
                old(gateway).trail(),
                gateway.trail(),
                caller,
                employer,
                amount,
                reply,
                r,
            ));
        }
        r
    }
}

} // verus!
