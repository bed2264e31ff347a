use crate::amount::Amount;
use crate::gateway::{Audited, Exchange, ExternalCallFailure, IERC20};
use crate::identity::Identity;
use vstd::prelude::*;

verus! {

/// Why a counter did not count up.
#[derive(Clone, Copy, Debug, PartialEq, Eq, Structural)]
pub enum CounterError {
    /// The round trip to the asset contract failed.
    TokenCallFailed,
    /// The asset contract answered, and did not confirm the payment.
    TokenTransferFailed,
}

/// What an increment comes to, given the asset contract's answer to the
/// request for payment.
pub open spec fn increment_result(reply: Result<bool, ExternalCallFailure>) -> Result<
    (),
    CounterError,
> {
    match reply {
        Ok(true) => Ok(()),
        Ok(false) => Err(CounterError::TokenTransferFailed),
        Err(_) => Err(CounterError::TokenCallFailed),
    }
}

/// The counter as a mathematical value.
pub struct CounterState {
    pub count: u64,
    pub token_address: Identity,
    pub increment_cost: Amount,
}

/// A counter that charges for counting up: each increment costs the caller a
/// fixed amount of one asset, paid to the counter's own account.
pub struct Counter {
    count: u64,
    token_address: Identity,
    increment_cost: Amount,
}

impl View for Counter {
    type V = CounterState;

    closed spec fn view(&self) -> CounterState {
        CounterState {
            count: self.count,
            token_address: self.token_address,
            increment_cost: self.increment_cost,
        }
    }
}

impl Counter {
    /// A counter at zero that charges `increment_cost` of `token_address` for
    /// each increment.
    pub fn new(token_address: Identity, increment_cost: Amount) -> (counter: Counter)
        ensures
            counter@ == (CounterState { count: 0, token_address, increment_cost }),
    {
        Counter { count: 0, token_address, increment_cost }
    }

    /// A counter that stands at `count`: the way back in for state that was
    /// kept elsewhere between calls.
    pub fn from_parts(count: u64, token_address: Identity, increment_cost: Amount) -> (counter:
        Counter)
        ensures
            counter@ == (CounterState { count, token_address, increment_cost }),
    {
        Counter { count, token_address, increment_cost }
    }

    /// Second half of an increment: takes the asset contract's answer to the
    /// request for payment, and counts up only where it confirms the payment.
    pub fn settle_increment(&mut self, reply: Result<bool, ExternalCallFailure>) -> (r: Result<
        (),
        CounterError,
    >)
        requires
            old(self)@.count < u64::MAX,
        ensures
            r == increment_result(reply),
            final(self)@ == (CounterState {
                count: if r.is_ok() {
                    (old(self)@.count + 1) as u64
                } else {
                    old(self)@.count
                },
                ..old(self)@
            }),
    {
        match reply {
            Ok(true) => {
                self.count = self.count + 1;
                Ok(())
            },
            Ok(false) => Err(CounterError::TokenTransferFailed),
            Err(_) => Err(CounterError::TokenCallFailed),
        }
    }

    /// Counts up by one, after asking the asset contract to move the cost of
    /// an increment from `caller` to `escrow`, the counter's own account. The
    /// counter stays as it is unless the payment is confirmed.
    pub fn increment<G: IERC20>(
        &mut self,
        gateway: &mut Audited<G>,
        caller: Identity,
        escrow: Identity,
    ) -> (r: Result<(), CounterError>)
        requires
            old(self)@.count < u64::MAX,
        ensures
            final(gateway).trail().len() == old(gateway).trail().len() + 1,
            final(gateway).trail().drop_last() == old(gateway).trail(),
            final(gateway).trail().last() matches Exchange::TransferFrom {
                token,
                sender,
                recipient,
                amount,
                reply,
            } && {
                &&& token == old(self)@.token_address
                &&& sender == caller
                &&& recipient == escrow
                &&& amount == old(self)@.increment_cost
                &&& r == increment_result(reply)
            },
            final(self)@ == (CounterState {
                count: if r.is_ok() {
                    (old(self)@.count + 1) as u64
                } else {
                    old(self)@.count
                },
                ..old(self)@
            }),
    {
        let reply = gateway.transfer_from(self.token_address, caller, escrow, self.increment_cost);
        proof {
            assert(gateway.trail().drop_last() =~= old(gateway).trail());
        }
        self.settle_increment(reply)
    }

    /// Counts down by one, and stays at zero.
    pub fn decrement(&mut self)
        ensures
            final(self)@ == (CounterState {
                count: if old(self)@.count > 0 {
                    (old(self)@.count - 1) as u64
                } else {
                    0
                },
                ..old(self)@
            }),
    {
        if self.count > 0 {
            self.count = self.count - 1;
        }
    }

    pub fn get_count(&self) -> (count: u64)
        ensures
            count == self@.count,
    {
        self.count
    }
}

} // verus!
