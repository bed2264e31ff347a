use crate::amount::{modulus, u256_lt, u256_wrapping_div, u256_wrapping_mul, Amount};
use crate::deposit::{deposit_made, take_deposit};
use crate::gateway::{balance_or_zero, reported, Audited, Exchange, ExternalCallFailure, IERC20};
use crate::identity::Identity;
use crate::ledger::{balance_in, debited, BalanceLedger};
use crate::pool::Worker;
use vstd::prelude::*;

verus! {

/// Why an operation of the prize pool was refused.
#[derive(Clone, Copy, Debug)]
pub enum TriviaError {
    /// The caller does not hold the role that the operation asks for.
    AccessDenied,
    /// A reward round needs exactly three winners.
    WrongWinnerCount,
    /// The host has nothing deposited.
    NoAllocation,
    /// The escrow holds less of the asset than the host's allocation; what
    /// the asset contract reported comes with the error.
    InsufficientContractBalance(Amount),
    /// The round trip for a transfer failed.
    ExternalCallFailure,
}

/// The prize pool's persistent state as a mathematical value.
pub struct TriviaState {
    pub token: Identity,
    pub admin: Identity,
    pub bank_admin: Identity,
    pub deployer: Identity,
    pub deposits: Map<Identity, nat>,
}

impl TriviaState {
    /// What `who` has deposited.
    pub open spec fn available(self, who: Identity) -> nat {
        balance_in(self.deposits, who)
    }

    /// This state with other deposits.
    pub open spec fn with_deposits(self, deposits: Map<Identity, nat>) -> TriviaState {
        TriviaState {
            token: self.token,
            admin: self.admin,
            bank_admin: self.bank_admin,
            deployer: self.deployer,
            deposits,
        }
    }

    /// The state after a request to set the asset and the three roles: granted
    /// only while there is no admin.
    pub open spec fn initialize(
        self,
        token: Identity,
        admin: Identity,
        bank_admin: Identity,
        deployer: Identity,
    ) -> TriviaState {
        if self.admin.is_unset() {
            TriviaState { token, admin, bank_admin, deployer, deposits: self.deposits }
        } else {
            self
        }
    }
}

/// `percent` hundredths of `allocation`, rounded down. The product is taken in
/// 256 bits, so an allocation whose product does not fit loses the upper part
/// before the division.
pub open spec fn share(allocation: nat, percent: nat) -> nat {
    ((allocation * percent) % modulus()) / 100
}

/// Who gets what of a host's allocation: 48, 29 and 19 hundredths for the
/// three winners in order, and 4 hundredths for the bank admin.
pub open spec fn reward_plan(winners: Seq<Identity>, bank_admin: Identity, allocation: nat) -> Seq<
    (Identity, nat),
> {
    seq![
        (winners[0], share(allocation, 48)),
        (winners[1], share(allocation, 29)),
        (winners[2], share(allocation, 19)),
        (bank_admin, share(allocation, 4)),
    ]
}

/// Whether `exchange` is a request to `token` to transfer `line.1` to
/// `line.0`.
pub open spec fn is_transfer(exchange: Exchange, token: Identity, line: (Identity, nat)) -> bool {
    exchange matches Exchange::Transfer { token: asked, recipient, amount, .. } && asked == token
        && recipient == line.0 && amount@ == line.1
}

/// What came back on a transfer request; a balance query counts as a failed
/// one.
pub open spec fn answer(exchange: Exchange) -> Result<bool, ExternalCallFailure> {
    match exchange {
        Exchange::Transfer { reply, .. } => reply,
        Exchange::TransferFrom { reply, .. } => reply,
        Exchange::BalanceOf { .. } => Err(ExternalCallFailure),
    }
}

/// Whether the round trip of a transfer request failed.
pub open spec fn unanswered(exchange: Exchange) -> bool {
    answer(exchange).is_err()
}

/// Whether `exchange` is a query to `token` for what `account` owns.
pub open spec fn is_query(exchange: Exchange, token: Identity, account: Identity) -> bool {
    exchange matches Exchange::BalanceOf { token: asked, account: about, .. } && asked == token
        && about == account
}

/// What a balance query found, zero for any other round trip.
pub open spec fn found(exchange: Exchange) -> nat {
    match exchange {
        Exchange::BalanceOf { reply, .. } => reported(reply),
        _ => 0,
    }
}

/// Whether `calls` is the record of paying out `plan` line by line, stopping
/// at the first round trip that fails: `complete` where every line was asked
/// for and none failed, otherwise cut short by a last round trip that failed.
pub open spec fn plan_pushed(
    token: Identity,
    plan: Seq<(Identity, nat)>,
    calls: Seq<Exchange>,
    complete: bool,
) -> bool {
    &&& calls.len() <= plan.len()
    &&& forall|i: int| 0 <= i < calls.len() ==> is_transfer(#[trigger] calls[i], token, plan[i])
    &&& forall|i: int| 0 <= i < calls.len() - 1 ==> !unanswered(#[trigger] calls[i])
    &&& if complete {
        calls.len() == plan.len() && (calls.len() > 0 ==> !unanswered(calls.last()))
    } else {
        calls.len() > 0 && unanswered(calls.last())
    }
}

/// The plan that a list of payments spells out.
pub open spec fn plan_of(lines: Seq<Worker>) -> Seq<(Identity, nat)> {
    Seq::new(lines.len(), |i: int| (lines[i].worker_address, lines[i].amount_paid@))
}

/// A prize pool: hosts deposit an allocation, and the deployer pays a host's
/// allocation out to three winners and the bank admin.
pub struct TriviaBase {
    token: Identity,
    admin: Identity,
    bank_admin: Identity,
    deployer: Identity,
    deposits: BalanceLedger,
}

impl View for TriviaBase {
    type V = TriviaState;

    closed spec fn view(&self) -> TriviaState {
        TriviaState {
            token: self.token,
            admin: self.admin,
            bank_admin: self.bank_admin,
            deployer: self.deployer,
            deposits: self.deposits@,
        }
    }
}

/// `percent` hundredths of `allocation`, as `alloy_primitives::U256`
/// multiplies and divides.
pub fn share_of(allocation: &Amount, percent: u64) -> (part: Amount)
    ensures
        part@ == share(allocation@, percent as nat),
{
    let product = u256_wrapping_mul(allocation, &Amount::from_u64(percent));
    u256_wrapping_div(&product, &Amount::from_u64(100))
}

/// Asks `token` to transfer each line of `lines` in order, and stops at the
/// first round trip that fails.
fn push_plan<G: IERC20>(gateway: &mut Audited<G>, token: Identity, lines: &Vec<Worker>) -> (complete:
    bool)
    ensures
        final(gateway).trail().len() >= old(gateway).trail().len(),
        final(gateway).trail().take(old(gateway).trail().len() as int) == old(gateway).trail(),
        plan_pushed(
            token,
            plan_of(lines@),
            final(gateway).trail().skip(old(gateway).trail().len() as int),
            complete,
        ),
{
    let ghost start: int = gateway.trail().len() as int;
    let mut i: usize = 0;
    proof {
        assert(gateway.trail().take(start) =~= old(gateway).trail());
    }
    while i < lines.len()
        invariant
            i <= lines@.len(),
            start == old(gateway).trail().len(),
            gateway.trail().len() == start + i,
            gateway.trail().take(start) == old(gateway).trail(),
            forall|k: int|
                0 <= k < i ==> is_transfer(
                    #[trigger] gateway.trail().skip(start)[k],
                    token,
                    plan_of(lines@)[k],
                ),
            forall|k: int| 0 <= k < i ==> !unanswered(#[trigger] gateway.trail().skip(start)[k]),
        decreases lines@.len() - i,
    {
        let ghost before = gateway.trail();
        let reply = gateway.transfer(token, lines[i].worker_address, lines[i].amount_paid);
        proof {
            let calls = gateway.trail().skip(start);
            assert(gateway.trail().take(start) =~= before.take(start));
            assert forall|k: int| 0 <= k < i implies calls[k] == before.skip(start)[k] by {}
            assert(calls[i as int] == Exchange::Transfer {
                token,
                recipient: lines@[i as int].worker_address,
                amount: lines@[i as int].amount_paid,
                reply,
            });
        }
        if reply.is_err() {
            proof {
                let calls = gateway.trail().skip(start);
                assert(calls.last() == calls[i as int]);
            }
            return false;
        }
        i += 1;
    }
    true
}

impl TriviaBase {
    /// A prize pool without asset, without roles and without deposits.
    pub fn new() -> (pool: TriviaBase)
        ensures
            pool@.token.is_unset(),
            pool@.admin.is_unset(),
            pool@.bank_admin.is_unset(),
            pool@.deployer.is_unset(),
            pool@.deposits == Map::<Identity, nat>::empty(),
    {
        TriviaBase {
            token: Identity::unset(),
            admin: Identity::unset(),
            bank_admin: Identity::unset(),
            deployer: Identity::unset(),
            deposits: BalanceLedger::new(),
        }
    }

    /// A prize pool with the given asset, roles and deposits: the way back
    /// in for state that was kept elsewhere between calls.
    pub fn from_parts(
        token: Identity,
        admin: Identity,
        bank_admin: Identity,
        deployer: Identity,
        deposits: BalanceLedger,
    ) -> (pool: TriviaBase)
        ensures
            pool@ == (TriviaState { token, admin, bank_admin, deployer, deposits: deposits@ }),
    {
        TriviaBase { token, admin, bank_admin, deployer, deposits }
    }

    /// Sets the asset and the three roles if there is no admin yet, and does
    /// nothing otherwise.
    pub fn initialize(
        &mut self,
        token: Identity,
        admin: Identity,
        bank_admin: Identity,
        deployer: Identity,
    )
        ensures
            final(self)@ == old(self)@.initialize(token, admin, bank_admin, deployer),
    {
        if self.admin.is_default() {
            self.token = token;
            self.admin = admin;
            self.bank_admin = bank_admin;
            self.deployer = deployer;
        }
    }

    pub fn token(&self) -> (token: Identity)
        ensures
            token == self@.token,
    {
        self.token
    }

    pub fn admin(&self) -> (admin: Identity)
        ensures
            admin == self@.admin,
    {
        self.admin
    }

    pub fn bank_admin(&self) -> (bank_admin: Identity)
        ensures
            bank_admin == self@.bank_admin,
    {
        self.bank_admin
    }

    pub fn deployer(&self) -> (deployer: Identity)
        ensures
            deployer == self@.deployer,
    {
        self.deployer
    }

    /// What `user` has deposited.
    pub fn get_deposit(&self, user: Identity) -> (balance: Amount)
        ensures
            balance@ == self@.available(user),
    {
        self.deposits.get(&user)
    }

    /// Takes a deposit of `amount` from `caller`: asks the asset contract what
    /// `caller` owns, and where that covers `amount` and the credit would fit,
    /// asks it to move `amount` from `caller` to `escrow`, the pool's own
    /// account. The amount is credited, and `true` returned, only where that
    /// transfer is confirmed. Where the reported balance falls short, whatever
    /// the deposits hold, and where it covers the amount but the credit would
    /// not fit, the answer is `false`, nothing is changed and no transfer is
    /// asked for. The asset and the roles stay as they are.
    pub fn deposit<G: IERC20>(
        &mut self,
        gateway: &mut Audited<G>,
        caller: Identity,
        escrow: Identity,
        amount: Amount,
    ) -> (success: bool)
        ensures
            final(gateway).trail().len() > old(gateway).trail().len(),
            final(gateway).trail()[old(gateway).trail().len() as int] matches Exchange::BalanceOf {
                token,
                account,
                reply,
            } && {
                &&& token == old(self)@.token
                &&& account == caller
                &&& reported(reply) < amount@ ==> {
                    &&& !success
                    &&& final(self)@ == old(self)@
                    &&& final(gateway).trail().len() == old(gateway).trail().len() + 1
                }
                &&& amount@ <= reported(reply) && old(self)@.available(caller) + amount@
                    > Amount::max_value() ==> {
                    &&& !success
                    &&& final(self)@ == old(self)@
                    &&& final(gateway).trail().len() == old(gateway).trail().len() + 1
                }
            },
            !success ==> final(self)@ == old(self)@,
            final(self)@ == old(self)@.with_deposits(final(self)@.deposits),
            exists|funds: Result<Amount, ExternalCallFailure>, pull: Result<bool, ExternalCallFailure>|
                #[trigger] deposit_made(
                    old(self)@.deposits,
                    final(self)@.deposits,
                    old(gateway).trail(),
                    final(gateway).trail(),
                    old(self)@.token,
                    caller,
                    escrow,
                    amount,
                    funds,
                    pull,
                    success,
                ),
    {
        let ghost before = self@;
        let token = self.token;
        let success = take_deposit(&mut self.deposits, gateway, token, caller, escrow, amount);
        proof {
            let (funds, pull) = choose|
                funds: Result<Amount, ExternalCallFailure>,
                pull: Result<bool, ExternalCallFailure>,
            | #[trigger]
                deposit_made(
                    before.deposits,
                    self.deposits@,
                    old(gateway).trail(),
                    gateway.trail(),
                    token,
                    caller,
                    escrow,
                    amount,
                    funds,
                    pull,
                    success,
                );
            assert(deposit_made(
                before.deposits,
                self@.deposits,
                old(gateway).trail(),
                gateway.trail(),
                before.token,
                caller,
                escrow,
                amount,
                funds,
                pull,
                success,
            ));
        }
        success
    }

    /// Asks the asset contract what `owner` owns. A failed round trip reads as
    /// zero: "unknown", not "nothing".
    pub fn token_balance<G: IERC20>(&self, gateway: &mut Audited<G>, owner: Identity) -> (balance:
        Amount)
        ensures
            final(gateway).trail().len() == old(gateway).trail().len() + 1,
            final(gateway).trail().drop_last() == old(gateway).trail(),
            is_query(final(gateway).trail().last(), self@.token, owner),
            balance@ == found(final(gateway).trail().last()),
    {
        let reply = gateway.balance_of(self.token, owner);
        proof {
            assert(gateway.trail().drop_last() =~= old(gateway).trail());
        }
        balance_or_zero(reply)
    }

    /// Asks the asset contract what `escrow`, the pool's own account, holds.
    pub fn contract_balance<G: IERC20>(&self, gateway: &mut Audited<G>, escrow: Identity) -> (balance:
        Amount)
        ensures
            final(gateway).trail().len() == old(gateway).trail().len() + 1,
            final(gateway).trail().drop_last() == old(gateway).trail(),
            is_query(final(gateway).trail().last(), self@.token, escrow),
            balance@ == found(final(gateway).trail().last()),
    {
        self.token_balance(gateway, escrow)
    }

    /// Sweeps everything that `escrow`, the pool's own account, holds of the
    /// asset to the admin, whatever the deposits say. Only the admin may do
    /// so. Answers what the asset contract answered to the transfer request,
    /// and `ExternalCallFailure` where that round trip failed.
    pub fn emergency_withdraw<G: IERC20>(
        &self,
        gateway: &mut Audited<G>,
        caller: Identity,
        escrow: Identity,
    ) -> (r: Result<bool, TriviaError>)
        ensures
            final(gateway).trail().len() >= old(gateway).trail().len(),
            final(gateway).trail().take(old(gateway).trail().len() as int) == old(gateway).trail(),
            ({
                let calls = final(gateway).trail().skip(old(gateway).trail().len() as int);
                let swept = calls.len() == 2 && is_query(calls[0], self@.token, escrow)
                    && is_transfer(calls[1], self@.token, (self@.admin, found(calls[0])));
                match r {
                    Ok(done) => caller == self@.admin && swept && answer(calls[1]) == Ok::<
                        bool,
                        ExternalCallFailure,
                    >(done),
                    Err(TriviaError::AccessDenied) => caller != self@.admin && calls.len() == 0,
                    Err(TriviaError::ExternalCallFailure) => caller == self@.admin && swept
                        && unanswered(calls[1]),
                    Err(_) => false,
                }
            }),
    {
        let ghost start: int = gateway.trail().len() as int;
        proof {
            assert(gateway.trail().take(start) =~= old(gateway).trail());
        }
        if caller != self.admin {
            return Err(TriviaError::AccessDenied);
        }
        let balance = self.contract_balance(gateway, escrow);
        let ghost query = gateway.trail().last();
        let reply = gateway.transfer(self.token, self.admin, balance);
        proof {
            let calls = gateway.trail().skip(start);
            assert(gateway.trail().take(start) =~= old(gateway).trail());
            assert(calls[0] == query);
            assert(calls[1] == Exchange::Transfer {
                token: self.token,
                recipient: self.admin,
                amount: balance,
                reply,
            });
        }
        match reply {
            Ok(done) => Ok(done),
            Err(_) => Err(TriviaError::ExternalCallFailure),
        }
    }

    /// First half of a reward round: who is to be paid what for `host`'s
    /// allocation, before anything is asked of the asset contract. The round
    /// is refused for any caller but the deployer, for a list that is not of
    /// three winners, and for a host without allocation, in this order.
    pub fn reward_lines(&self, caller: Identity, host: Identity, winners: &Vec<Identity>) -> (r:
        Result<Vec<Worker>, TriviaError>)
        ensures
            match r {
                Ok(lines) => caller == self@.deployer && winners@.len() == 3 && self@.available(
                    host,
                ) > 0 && plan_of(lines@) == reward_plan(
                    winners@,
                    self@.bank_admin,
                    self@.available(host),
                ),
                Err(TriviaError::AccessDenied) => caller != self@.deployer,
                Err(TriviaError::WrongWinnerCount) => caller == self@.deployer && winners@.len()
                    != 3,
                Err(TriviaError::NoAllocation) => caller == self@.deployer && winners@.len() == 3
                    && self@.available(host) == 0,
                Err(_) => false,
            },
    {
        if caller != self.deployer {
            return Err(TriviaError::AccessDenied);
        }
        if winners.len() != 3 {
            return Err(TriviaError::WrongWinnerCount);
        }
        let allocation = self.deposits.get(&host);
        if !u256_lt(&Amount::zero(), &allocation) {
            return Err(TriviaError::NoAllocation);
        }
        let mut lines: Vec<Worker> = Vec::new();
        lines.push(Worker { worker_address: winners[0], amount_paid: share_of(&allocation, 48) });
        lines.push(Worker { worker_address: winners[1], amount_paid: share_of(&allocation, 29) });
        lines.push(Worker { worker_address: winners[2], amount_paid: share_of(&allocation, 19) });
        lines.push(Worker { worker_address: self.bank_admin, amount_paid: share_of(&allocation, 4) });
        proof {
            assert(plan_of(lines@) =~= reward_plan(winners@, self.bank_admin, allocation@));
        }
        Ok(lines)
    }

    /// Pays `host`'s allocation out: 48, 29 and 19 hundredths to the three
    /// `winners` in order and 4 hundredths to the bank admin, then sets the
    /// allocation to zero. Only the deployer may do so. Refused, with nothing
    /// changed, for any other caller, for a list that is not of three winners,
    /// for a host without allocation, and where the escrow is reported to hold
    /// less than the allocation. A transfer whose round trip fails ends the
    /// payout with `ExternalCallFailure` and the allocation as it was; one
    /// that the asset contract merely declines does not.
    pub fn reward_winners<G: IERC20>(
        &mut self,
        gateway: &mut Audited<G>,
        caller: Identity,
        escrow: Identity,
        host: Identity,
        winners: Vec<Identity>,
    ) -> (r: Result<bool, TriviaError>)
        ensures
            final(gateway).trail().len() >= old(gateway).trail().len(),
            final(gateway).trail().take(old(gateway).trail().len() as int) == old(gateway).trail(),
            r.is_err() ==> final(self)@ == old(self)@,
            ({
                let before = old(self)@;
                let calls = final(gateway).trail().skip(old(gateway).trail().len() as int);
                let allocation: nat = before.available(host);
                let admitted = caller == before.deployer && winners@.len() == 3 && allocation > 0;
                let plan = reward_plan(winners@, before.bank_admin, allocation);
                match r {
                    Err(TriviaError::AccessDenied) => caller != before.deployer && calls.len() == 0,
                    Err(TriviaError::WrongWinnerCount) => caller == before.deployer && winners@.len()
                        != 3 && calls.len() == 0,
                    Err(TriviaError::NoAllocation) => caller == before.deployer && winners@.len()
                        == 3 && allocation == 0 && calls.len() == 0,
                    Err(TriviaError::InsufficientContractBalance(held)) => admitted && calls.len()
                        == 1 && is_query(calls[0], before.token, escrow) && held@ == found(
                        calls[0],
                    ) && held@ < allocation,
                    Err(TriviaError::ExternalCallFailure) => admitted && calls.len() >= 1
                        && is_query(calls[0], before.token, escrow) && allocation <= found(
                        calls[0],
                    ) && plan_pushed(before.token, plan, calls.skip(1), false),
                    Ok(done) => done && admitted && calls.len() >= 1 && is_query(
                        calls[0],
                        before.token,
                        escrow,
                    ) && allocation <= found(calls[0]) && plan_pushed(
                        before.token,
                        plan,
                        calls.skip(1),
                        true,
                    ) && final(self)@ == before.with_deposits(
                        debited(before.deposits, host, allocation),
                    ),
                }
            }),
    {
        let ghost start: int = gateway.trail().len() as int;
        proof {
            assert(gateway.trail().take(start) =~= old(gateway).trail());
        }
        let lines = match self.reward_lines(caller, host, &winners) {
            Ok(lines) => lines,
            Err(refusal) => {
                return Err(refusal);
            },
        };
        let allocation = self.deposits.get(&host);
        let held = self.contract_balance(gateway, escrow);
        let ghost query = gateway.trail().last();
        proof {
            assert(gateway.trail().take(start) =~= old(gateway).trail());
            assert(gateway.trail().skip(start) =~= seq![query]);
        }
        if u256_lt(&held, &allocation) {
            return Err(TriviaError::InsufficientContractBalance(held));
        }
        let ghost asked = gateway.trail();
        let complete = push_plan(gateway, self.token, &lines);
        proof {
            let calls = gateway.trail().skip(start);
            assert(gateway.trail().take(start) =~= asked.take(start));
            assert(calls[0] == asked[start]);
            assert(calls.skip(1) =~= gateway.trail().skip(start + 1));
        }
        if !complete {
            return Err(TriviaError::ExternalCallFailure);
        }
        self.deposits.debit(&host, &allocation);
        Ok(true)
    }
}

} // verus!
