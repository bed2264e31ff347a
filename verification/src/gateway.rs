use crate::amount::Amount;
use crate::identity::Identity;
use vstd::prelude::*;

verus! {

/// A round trip to an asset contract that did not come back with an answer.
#[derive(Clone, Copy, Debug, PartialEq, Eq, Structural)]
pub struct ExternalCallFailure;

/// The calls that the escrow makes to fungible-asset contracts. `token` names
/// the contract that is called. Nothing is assumed of an implementation: each
/// answer is taken as it comes.
pub trait IERC20 {
    /// Asks `token` how much `account` owns.
    fn balance_of(&self, token: Identity, account: Identity) -> Result<
        Amount,
        ExternalCallFailure,
    >;

    /// Asks `token` to move `amount` from the escrow to `recipient`. `Ok(true)`
    /// is the only answer that confirms the transfer.
    fn transfer(&mut self, token: Identity, recipient: Identity, amount: Amount) -> Result<
        bool,
        ExternalCallFailure,
    >;

    /// Asks `token` to move `amount` from `sender` to `recipient`. `Ok(true)`
    /// is the only answer that confirms the transfer.
    fn transfer_from(
        &mut self,
        token: Identity,
        sender: Identity,
        recipient: Identity,
        amount: Amount,
    ) -> Result<bool, ExternalCallFailure>;
}

/// Whether an answer to a transfer request confirms the transfer. A refusal
/// and a failed round trip both leave it unconfirmed.
pub open spec fn confirmed(reply: Result<bool, ExternalCallFailure>) -> bool {
    reply == Ok::<bool, ExternalCallFailure>(true)
}

/// The balance that an answer to a balance query reports: a failed round trip
/// reads as zero, which stands for "unknown".
pub open spec fn reported(reply: Result<Amount, ExternalCallFailure>) -> nat {
    match reply {
        Ok(balance) => balance@,
        Err(_) => 0,
    }
}

/// One completed round trip: what was asked, and what came back.
#[allow(inconsistent_fields)]
pub enum Exchange {
    BalanceOf { token: Identity, account: Identity, reply: Result<Amount, ExternalCallFailure> },
    Transfer {
        token: Identity,
        recipient: Identity,
        amount: Amount,
        reply: Result<bool, ExternalCallFailure>,
    },
    TransferFrom {
        token: Identity,
        sender: Identity,
        recipient: Identity,
        amount: Amount,
        reply: Result<bool, ExternalCallFailure>,
    },
}

/// Reads an answer to a balance query: the balance it carries, or zero where
/// the round trip failed.
pub fn balance_or_zero(reply: Result<Amount, ExternalCallFailure>) -> (balance: Amount)
    ensures
        balance@ == reported(reply),
{
    match reply {
        Ok(balance) => balance,
        Err(_) => Amount::zero(),
    }
}

/// A gateway together with the record of every round trip made through it.
/// The record exists for proofs only; it costs nothing at run time.
pub struct Audited<G> {
    gateway: G,
    trail: Ghost<Seq<Exchange>>,
}

impl<G: IERC20> Audited<G> {
    /// The round trips made so far, oldest first.
    pub closed spec fn trail(&self) -> Seq<Exchange> {
        self.trail@
    }

    /// The gateway that the calls go through.
    pub closed spec fn inner(&self) -> G {
        self.gateway
    }

    /// Puts `gateway` under record, with nothing recorded yet.
    pub fn new(gateway: G) -> (audited: Audited<G>)
        ensures
            audited.inner() == gateway,
            audited.trail() == Seq::<Exchange>::empty(),
    {
        Audited { gateway, trail: Ghost(Seq::empty()) }
    }

    /// The gateway itself, for a caller that wants to look at it.
    pub fn gateway(&self) -> (gateway: &G)
        ensures
            *gateway == self.inner(),
    {
        &self.gateway
    }

    /// Gives the gateway back and drops the record.
    pub fn into_inner(self) -> (gateway: G)
        ensures
            gateway == self.inner(),
    {
        self.gateway
    }

    /// Asks `token` how much `account` owns, and records the round trip.
    pub fn balance_of(&mut self, token: Identity, account: Identity) -> (reply: Result<
        Amount,
        ExternalCallFailure,
    >)
        ensures
            final(self).trail() == old(self).trail().push(
                Exchange::BalanceOf { token, account, reply },
            ),
    {
        let reply = self.gateway.balance_of(token, account);
        self.trail = Ghost(self.trail@.push(Exchange::BalanceOf { token, account, reply }));
        reply
    }

    /// Asks `token` to move `amount` from the escrow to `recipient`, and
    /// records the round trip.
    pub fn transfer(&mut self, token: Identity, recipient: Identity, amount: Amount) -> (reply:
        Result<bool, ExternalCallFailure>)
        ensures
            final(self).trail() == old(self).trail().push(
                Exchange::Transfer { token, recipient, amount, reply },
            ),
    {
        let reply = self.gateway.transfer(token, recipient, amount);
        self.trail = Ghost(
            self.trail@.push(Exchange::Transfer { token, recipient, amount, reply }),
        );
        reply
    }

    /// Asks `token` to move `amount` from `sender` to `recipient`, and records
    /// the round trip.
    pub fn transfer_from(
        &mut self,
        token: Identity,
        sender: Identity,
        recipient: Identity,
        amount: Amount,
    ) -> (reply: Result<bool, ExternalCallFailure>)
        ensures
            final(self).trail() == old(self).trail().push(
                Exchange::TransferFrom { token, sender, recipient, amount, reply },
            ),
    {
        let reply = self.gateway.transfer_from(token, sender, recipient, amount);
        self.trail = Ghost(
            self.trail@.push(Exchange::TransferFrom { token, sender, recipient, amount, reply }),
        );
        reply
    }
}

} // verus!
