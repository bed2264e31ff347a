use employer_pool::amount::Amount;
use employer_pool::gateway::{Audited, ExternalCallFailure, IERC20};
use employer_pool::identity::Identity;
use employer_pool::ledger::BalanceLedger;
use employer_pool::trivia::{share_of, TriviaBase, TriviaError};
use std::collections::HashMap;

/// An in-memory asset contract for the prize pool: real balances, a record of
/// the transfers it was asked for, and a switch that makes the round trip of
/// the transfer with a given number fail.
struct Bank {
    escrow: Identity,
    balances: HashMap<Identity, u64>,
    pushes: Vec<(Identity, u64)>,
    fails_at: Option<usize>,
    declines: bool,
}

impl Bank {
    fn owned(&self, who: Identity) -> u64 {
        *self.balances.get(&who).unwrap_or(&0)
    }

    fn shift(&mut self, sender: Identity, recipient: Identity, amount: u64) -> bool {
        if self.declines || self.owned(sender) < amount {
            return false;
        }
        *self.balances.entry(sender).or_insert(0) -= amount;
        *self.balances.entry(recipient).or_insert(0) += amount;
        true
    }
}

impl IERC20 for Bank {
    fn balance_of(&self, _token: Identity, account: Identity) -> Result<Amount, ExternalCallFailure> {
        Ok(Amount::from_u64(self.owned(account)))
    }

    fn transfer(&mut self, _token: Identity, recipient: Identity, amount: Amount) -> Result<bool, ExternalCallFailure> {
        self.pushes.push((recipient, amount.limbs[0]));
        if self.fails_at == Some(self.pushes.len()) {
            return Err(ExternalCallFailure);
        }
        let escrow = self.escrow;
        Ok(self.shift(escrow, recipient, amount.limbs[0]))
    }

    fn transfer_from(
        &mut self,
        _token: Identity,
        sender: Identity,
        recipient: Identity,
        amount: Amount,
    ) -> Result<bool, ExternalCallFailure> {
        Ok(self.shift(sender, recipient, amount.limbs[0]))
    }
}

fn who(tag: u8) -> Identity {
    Identity { bytes: [tag; 20] }
}

const TOKEN: u8 = 1;
const ADMIN: u8 = 2;
const BANK_ADMIN: u8 = 3;
const DEPLOYER: u8 = 4;
const ESCROW: u8 = 5;
const HOST: u8 = 6;
const FIRST: u8 = 7;
const SECOND: u8 = 8;
const THIRD: u8 = 9;

/// An initialized prize pool into which `HOST` has deposited `allocation`.
fn round(allocation: u64) -> (TriviaBase, Audited<Bank>) {
    let mut pool = TriviaBase::new();
    pool.initialize(who(TOKEN), who(ADMIN), who(BANK_ADMIN), who(DEPLOYER));
    let mut balances = HashMap::new();
    balances.insert(who(HOST), allocation);
    let bank = Bank { escrow: who(ESCROW), balances, pushes: Vec::new(), fails_at: None, declines: false };
    let mut gateway = Audited::new(bank);
    if allocation > 0 {
        assert!(pool.deposit(&mut gateway, who(HOST), who(ESCROW), Amount::from_u64(allocation)));
    }
    (pool, gateway)
}

fn winners() -> Vec<Identity> {
    vec![who(FIRST), who(SECOND), who(THIRD)]
}

#[test]
fn initialize_sets_asset_and_roles_once() {
    let mut pool = TriviaBase::new();
    assert!(pool.admin().is_default());
    pool.initialize(who(TOKEN), who(ADMIN), who(BANK_ADMIN), who(DEPLOYER));
    assert_eq!(pool.token(), who(TOKEN));
    assert_eq!(pool.admin(), who(ADMIN));
    assert_eq!(pool.bank_admin(), who(BANK_ADMIN));
    assert_eq!(pool.deployer(), who(DEPLOYER));
    pool.initialize(who(20), who(21), who(22), who(23));
    assert_eq!(pool.token(), who(TOKEN));
    assert_eq!(pool.admin(), who(ADMIN));
    assert_eq!(pool.bank_admin(), who(BANK_ADMIN));
    assert_eq!(pool.deployer(), who(DEPLOYER));
}

#[test]
fn host_deposit_is_recorded() {
    let (pool, gateway) = round(1000);
    assert_eq!(pool.get_deposit(who(HOST)), Amount::from_u64(1000));
    assert_eq!(pool.get_deposit(who(FIRST)), Amount::zero());
    assert_eq!(gateway.gateway().owned(who(ESCROW)), 1000);
}

#[test]
fn host_deposit_beyond_what_the_host_owns_is_rejected() {
    let (mut pool, mut gateway) = round(1000);
    assert!(!pool.deposit(&mut gateway, who(HOST), who(ESCROW), Amount::from_u64(1)));
    assert_eq!(pool.get_deposit(who(HOST)), Amount::from_u64(1000));
}

#[test]
fn contract_balance_asks_about_the_escrow() {
    let (pool, mut gateway) = round(1000);
    assert_eq!(pool.contract_balance(&mut gateway, who(ESCROW)), Amount::from_u64(1000));
    assert_eq!(pool.contract_balance(&mut gateway, who(HOST)), Amount::zero());
}

#[test]
fn prize_pool_token_balance_reports_what_the_asset_contract_says() {
    let (pool, gateway) = round(1000);
    let mut bank = gateway.into_inner();
    bank.balances.insert(who(FIRST), 12);
    let mut gateway = Audited::new(bank);
    assert_eq!(pool.token_balance(&mut gateway, who(FIRST)), Amount::from_u64(12));
    assert_eq!(pool.token_balance(&mut gateway, who(SECOND)), Amount::zero());
}

#[test]
fn shares_are_hundredths_rounded_down() {
    let allocation = Amount::from_u64(1000);
    assert_eq!(share_of(&allocation, 48), Amount::from_u64(480));
    assert_eq!(share_of(&allocation, 29), Amount::from_u64(290));
    assert_eq!(share_of(&allocation, 19), Amount::from_u64(190));
    assert_eq!(share_of(&allocation, 4), Amount::from_u64(40));
    let odd = Amount::from_u64(101);
    assert_eq!(share_of(&odd, 48), Amount::from_u64(48));
    assert_eq!(share_of(&odd, 29), Amount::from_u64(29));
    assert_eq!(share_of(&odd, 19), Amount::from_u64(19));
    assert_eq!(share_of(&odd, 4), Amount::from_u64(4));
    assert_eq!(share_of(&Amount::from_u64(1), 48), Amount::zero());
    assert_eq!(share_of(&Amount::from_u64(3), 48), Amount::from_u64(1));
}

#[test]
fn share_of_a_wide_allocation() {
    let wide = Amount { limbs: [0, 0, 0, 1 << 8] };
    assert_eq!(
        share_of(&wide, 48),
        Amount { limbs: [5165088340638674452, 1475739525896764129, 16233134784864405422, 122] }
    );
}

#[test]
fn share_of_an_allocation_whose_product_wraps() {
    let most = Amount { limbs: [u64::MAX; 4] };
    assert_eq!(
        share_of(&most, 48),
        Amount {
            limbs: [17708874310761169550, 10330176681277348904, 2951479051793528258, 184467440737095516]
        }
    );
    assert_eq!(share_of(&Amount { limbs: [0, 0, 0, 1 << 63] }, 48), Amount::zero());
}

#[test]
fn reward_round_pays_winners_and_bank_admin_and_clears_the_allocation() {
    let (mut pool, mut gateway) = round(1000);
    let r = pool.reward_winners(&mut gateway, who(DEPLOYER), who(ESCROW), who(HOST), winners());
    assert!(matches!(r, Ok(true)));
    assert_eq!(pool.get_deposit(who(HOST)), Amount::zero());
    let bank = gateway.into_inner();
    assert_eq!(
        bank.pushes,
        vec![(who(FIRST), 480), (who(SECOND), 290), (who(THIRD), 190), (who(BANK_ADMIN), 40)]
    );
    assert_eq!(bank.owned(who(FIRST)), 480);
    assert_eq!(bank.owned(who(SECOND)), 290);
    assert_eq!(bank.owned(who(THIRD)), 190);
    assert_eq!(bank.owned(who(BANK_ADMIN)), 40);
    assert_eq!(bank.owned(who(ESCROW)), 0);
}

#[test]
fn reward_round_leaves_the_rounding_rest_in_the_escrow() {
    let (mut pool, mut gateway) = round(101);
    let r = pool.reward_winners(&mut gateway, who(DEPLOYER), who(ESCROW), who(HOST), winners());
    assert!(matches!(r, Ok(true)));
    let bank = gateway.into_inner();
    assert_eq!(bank.pushes, vec![(who(FIRST), 48), (who(SECOND), 29), (who(THIRD), 19), (who(BANK_ADMIN), 4)]);
    assert_eq!(bank.owned(who(ESCROW)), 1);
    assert_eq!(pool.get_deposit(who(HOST)), Amount::zero());
}

#[test]
fn reward_round_by_anyone_but_the_deployer_is_denied() {
    let (mut pool, mut gateway) = round(1000);
    let r = pool.reward_winners(&mut gateway, who(ADMIN), who(ESCROW), who(HOST), winners());
    assert!(matches!(r, Err(TriviaError::AccessDenied)));
    assert_eq!(pool.get_deposit(who(HOST)), Amount::from_u64(1000));
    assert!(gateway.gateway().pushes.is_empty());
}

#[test]
fn reward_round_needs_three_winners() {
    let (mut pool, mut gateway) = round(1000);
    let two = vec![who(FIRST), who(SECOND)];
    let r = pool.reward_winners(&mut gateway, who(DEPLOYER), who(ESCROW), who(HOST), two);
    assert!(matches!(r, Err(TriviaError::WrongWinnerCount)));
    let four = vec![who(FIRST), who(SECOND), who(THIRD), who(FIRST)];
    let r = pool.reward_winners(&mut gateway, who(DEPLOYER), who(ESCROW), who(HOST), four);
    assert!(matches!(r, Err(TriviaError::WrongWinnerCount)));
    let r = pool.reward_winners(&mut gateway, who(DEPLOYER), who(ESCROW), who(HOST), Vec::new());
    assert!(matches!(r, Err(TriviaError::WrongWinnerCount)));
    assert_eq!(pool.get_deposit(who(HOST)), Amount::from_u64(1000));
    assert!(gateway.gateway().pushes.is_empty());
}

#[test]
fn reward_round_needs_an_allocation() {
    let (mut pool, mut gateway) = round(0);
    let r = pool.reward_winners(&mut gateway, who(DEPLOYER), who(ESCROW), who(HOST), winners());
    assert!(matches!(r, Err(TriviaError::NoAllocation)));
    assert!(gateway.gateway().pushes.is_empty());
}

#[test]
fn reward_round_needs_the_escrow_to_hold_the_allocation() {
    let (mut pool, gateway) = round(1000);
    let mut bank = gateway.into_inner();
    bank.balances.insert(who(ESCROW), 999);
    let mut gateway = Audited::new(bank);
    let r = pool.reward_winners(&mut gateway, who(DEPLOYER), who(ESCROW), who(HOST), winners());
    match r {
        Err(TriviaError::InsufficientContractBalance(held)) => assert_eq!(held, Amount::from_u64(999)),
        _ => panic!("expected InsufficientContractBalance"),
    }
    assert_eq!(pool.get_deposit(who(HOST)), Amount::from_u64(1000));
    assert!(gateway.gateway().pushes.is_empty());
}

#[test]
fn reward_round_stops_at_a_failed_round_trip() {
    let (mut pool, gateway) = round(1000);
    let mut bank = gateway.into_inner();
    bank.fails_at = Some(2);
    let mut gateway = Audited::new(bank);
    let r = pool.reward_winners(&mut gateway, who(DEPLOYER), who(ESCROW), who(HOST), winners());
    assert!(matches!(r, Err(TriviaError::ExternalCallFailure)));
    assert_eq!(pool.get_deposit(who(HOST)), Amount::from_u64(1000));
    assert_eq!(gateway.gateway().pushes, vec![(who(FIRST), 480), (who(SECOND), 290)]);
}

#[test]
fn reward_round_goes_on_past_a_declined_transfer() {
    let (mut pool, gateway) = round(1000);
    let mut bank = gateway.into_inner();
    bank.declines = true;
    let mut gateway = Audited::new(bank);
    let r = pool.reward_winners(&mut gateway, who(DEPLOYER), who(ESCROW), who(HOST), winners());
    assert!(matches!(r, Ok(true)));
    assert_eq!(pool.get_deposit(who(HOST)), Amount::zero());
    assert_eq!(gateway.gateway().pushes.len(), 4);
}

#[test]
fn sweep_sends_everything_the_escrow_holds_to_the_admin() {
    let (pool, mut gateway) = round(1000);
    let r = pool.emergency_withdraw(&mut gateway, who(ADMIN), who(ESCROW));
    assert!(matches!(r, Ok(true)));
    assert_eq!(gateway.gateway().pushes, vec![(who(ADMIN), 1000)]);
    assert_eq!(gateway.gateway().owned(who(ADMIN)), 1000);
    assert_eq!(gateway.gateway().owned(who(ESCROW)), 0);
    assert_eq!(pool.get_deposit(who(HOST)), Amount::from_u64(1000));
}

#[test]
fn sweep_by_anyone_but_the_admin_is_denied() {
    let (pool, mut gateway) = round(1000);
    let r = pool.emergency_withdraw(&mut gateway, who(DEPLOYER), who(ESCROW));
    assert!(matches!(r, Err(TriviaError::AccessDenied)));
    assert!(gateway.gateway().pushes.is_empty());
}

#[test]
fn sweep_answers_what_the_asset_contract_answered() {
    let (pool, gateway) = round(1000);
    let mut bank = gateway.into_inner();
    bank.declines = true;
    let mut gateway = Audited::new(bank);
    assert!(matches!(pool.emergency_withdraw(&mut gateway, who(ADMIN), who(ESCROW)), Ok(false)));
    let mut bank = gateway.into_inner();
    bank.fails_at = Some(2);
    let mut gateway = Audited::new(bank);
    let r = pool.emergency_withdraw(&mut gateway, who(ADMIN), who(ESCROW));
    assert!(matches!(r, Err(TriviaError::ExternalCallFailure)));
}

#[test]
fn prize_pool_deposit_with_short_funds_is_rejected_whatever_the_deposits_hold() {
    let mut deposits = BalanceLedger::new();
    deposits.credit(&who(HOST), &Amount::from_u64(1));
    let mut pool = TriviaBase::from_parts(who(TOKEN), who(ADMIN), who(BANK_ADMIN), who(DEPLOYER), deposits);
    let mut balances = HashMap::new();
    balances.insert(who(HOST), 10);
    let bank = Bank { escrow: who(ESCROW), balances, pushes: Vec::new(), fails_at: None, declines: false };
    let mut gateway = Audited::new(bank);
    assert!(!pool.deposit(&mut gateway, who(HOST), who(ESCROW), Amount { limbs: [u64::MAX; 4] }));
    assert_eq!(pool.get_deposit(who(HOST)), Amount::from_u64(1));
    assert_eq!(gateway.gateway().owned(who(HOST)), 10);
    assert_eq!(gateway.gateway().owned(who(ESCROW)), 0);
}

#[test]
fn prize_pool_deposit_that_would_not_fit_is_rejected_without_a_pull() {
    let mut deposits = BalanceLedger::new();
    deposits.credit(&who(HOST), &Amount { limbs: [u64::MAX; 4] });
    let mut pool = TriviaBase::from_parts(who(TOKEN), who(ADMIN), who(BANK_ADMIN), who(DEPLOYER), deposits);
    let mut balances = HashMap::new();
    balances.insert(who(HOST), 10);
    let bank = Bank { escrow: who(ESCROW), balances, pushes: Vec::new(), fails_at: None, declines: false };
    let mut gateway = Audited::new(bank);
    assert!(!pool.deposit(&mut gateway, who(HOST), who(ESCROW), Amount::from_u64(1)));
    assert_eq!(pool.get_deposit(who(HOST)), Amount { limbs: [u64::MAX; 4] });
    assert_eq!(gateway.gateway().owned(who(HOST)), 10);
    assert_eq!(gateway.gateway().owned(who(ESCROW)), 0);
    assert_eq!(pool.token(), who(TOKEN));
    assert_eq!(pool.admin(), who(ADMIN));
    assert!(pool.deposit(&mut gateway, who(HOST), who(ESCROW), Amount::zero()));
    assert!(!pool.deposit(&mut gateway, who(FIRST), who(ESCROW), Amount::from_u64(1)));
}

#[test]
fn reward_lines_name_winners_and_bank_admin_with_their_shares() {
    let (pool, _gateway) = round(1000);
    let lines = match pool.reward_lines(who(DEPLOYER), who(HOST), &winners()) {
        Ok(lines) => lines,
        Err(_) => panic!("expected lines"),
    };
    let seen: Vec<(Identity, Amount)> =
        lines.iter().map(|line| (line.worker_address, line.amount_paid)).collect();
    assert_eq!(
        seen,
        vec![
            (who(FIRST), Amount::from_u64(480)),
            (who(SECOND), Amount::from_u64(290)),
            (who(THIRD), Amount::from_u64(190)),
            (who(BANK_ADMIN), Amount::from_u64(40)),
        ]
    );
}

#[test]
fn reward_lines_are_refused_in_order() {
    let (pool, _gateway) = round(0);
    let two = vec![who(FIRST), who(SECOND)];
    assert!(matches!(pool.reward_lines(who(ADMIN), who(HOST), &two), Err(TriviaError::AccessDenied)));
    assert!(matches!(pool.reward_lines(who(DEPLOYER), who(HOST), &two), Err(TriviaError::WrongWinnerCount)));
    assert!(matches!(pool.reward_lines(who(DEPLOYER), who(HOST), &winners()), Err(TriviaError::NoAllocation)));
}
