use employer_pool::amount::Amount;
use employer_pool::counter::{Counter, CounterError};
use employer_pool::gateway::{Audited, ExternalCallFailure, IERC20};
use employer_pool::identity::Identity;

/// An asset contract that gives one fixed answer and writes down what it was
/// asked for.
struct Till {
    answer: Result<bool, ExternalCallFailure>,
    asked: Vec<(Identity, Identity, Identity, Amount)>,
}

impl IERC20 for Till {
    fn balance_of(&self, _token: Identity, _account: Identity) -> Result<Amount, ExternalCallFailure> {
        Ok(Amount::zero())
    }

    fn transfer(&mut self, _token: Identity, _recipient: Identity, _amount: Amount) -> Result<bool, ExternalCallFailure> {
        self.answer
    }

    fn transfer_from(
        &mut self,
        token: Identity,
        sender: Identity,
        recipient: Identity,
        amount: Amount,
    ) -> Result<bool, ExternalCallFailure> {
        self.asked.push((token, sender, recipient, amount));
        self.answer
    }
}

fn tag(value: u8) -> Identity {
    Identity { bytes: [value; 20] }
}

fn till(answer: Result<bool, ExternalCallFailure>) -> Audited<Till> {
    Audited::new(Till { answer, asked: Vec::new() })
}

#[test]
fn new_counter_is_at_zero() {
    assert_eq!(Counter::new(tag(1), Amount::from_u64(5)).get_count(), 0);
}

#[test]
fn paid_increment_counts_up() {
    let mut counter = Counter::new(tag(1), Amount::from_u64(5));
    let mut gateway = till(Ok(true));
    assert_eq!(counter.increment(&mut gateway, tag(2), tag(3)), Ok(()));
    assert_eq!(counter.increment(&mut gateway, tag(2), tag(3)), Ok(()));
    assert_eq!(counter.get_count(), 2);
    let asked = gateway.into_inner().asked;
    assert_eq!(asked.len(), 2);
    assert_eq!(asked[0], (tag(1), tag(2), tag(3), Amount::from_u64(5)));
}

#[test]
fn declined_payment_does_not_count() {
    let mut counter = Counter::new(tag(1), Amount::from_u64(5));
    let mut gateway = till(Ok(false));
    assert_eq!(counter.increment(&mut gateway, tag(2), tag(3)), Err(CounterError::TokenTransferFailed));
    assert_eq!(counter.get_count(), 0);
    assert_eq!(gateway.gateway().asked.len(), 1);
}

#[test]
fn failed_round_trip_does_not_count() {
    let mut counter = Counter::new(tag(1), Amount::from_u64(5));
    let mut gateway = till(Err(ExternalCallFailure));
    assert_eq!(counter.increment(&mut gateway, tag(2), tag(3)), Err(CounterError::TokenCallFailed));
    assert_eq!(counter.get_count(), 0);
}

#[test]
fn settle_increment_takes_each_answer() {
    let mut counter = Counter::new(tag(1), Amount::from_u64(5));
    assert_eq!(counter.settle_increment(Ok(true)), Ok(()));
    assert_eq!(counter.settle_increment(Ok(false)), Err(CounterError::TokenTransferFailed));
    assert_eq!(counter.settle_increment(Err(ExternalCallFailure)), Err(CounterError::TokenCallFailed));
    assert_eq!(counter.get_count(), 1);
}

#[test]
fn decrement_counts_down_and_stops_at_zero() {
    let mut counter = Counter::new(tag(1), Amount::from_u64(5));
    let mut gateway = till(Ok(true));
    assert!(counter.increment(&mut gateway, tag(2), tag(3)).is_ok());
    assert!(counter.increment(&mut gateway, tag(2), tag(3)).is_ok());
    counter.decrement();
    assert_eq!(counter.get_count(), 1);
    counter.decrement();
    assert_eq!(counter.get_count(), 0);
    counter.decrement();
    assert_eq!(counter.get_count(), 0);
}
