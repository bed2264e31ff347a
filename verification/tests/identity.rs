use employer_pool::amount::Amount;
use employer_pool::identity::Identity;

#[test]
fn unset_identity_is_all_zero() {
    assert_eq!(Identity::unset().bytes, [0u8; 20]);
    assert!(Identity::unset().is_default());
}

#[test]
fn identity_with_one_set_byte_is_not_unset() {
    let mut bytes = [0u8; 20];
    bytes[19] = 1;
    assert!(!Identity { bytes }.is_default());
    bytes = [0u8; 20];
    bytes[0] = 1;
    assert!(!Identity { bytes }.is_default());
}

#[test]
fn identities_compare_byte_by_byte() {
    let mut bytes = [7u8; 20];
    let a = Identity { bytes };
    assert!(a == Identity { bytes: [7u8; 20] });
    bytes[19] = 8;
    assert!(a != Identity { bytes });
}

#[test]
fn amounts_compare_limb_by_limb() {
    assert!(Amount::from_u64(5) == Amount { limbs: [5, 0, 0, 0] });
    assert!(Amount::from_u64(5) != Amount { limbs: [5, 0, 0, 1] });
    assert!(Amount::zero() == Amount { limbs: [0; 4] });
}

#[test]
fn checked_add_gives_the_sum_while_it_fits() {
    let a = Amount::from_u64(7);
    let b = Amount { limbs: [u64::MAX, 0, 0, 0] };
    assert_eq!(a.checked_add(&b), Some(Amount { limbs: [6, 1, 0, 0] }));
    assert_eq!(Amount::zero().checked_add(&Amount::zero()), Some(Amount::zero()));
    let most = Amount { limbs: [u64::MAX; 4] };
    assert_eq!(most.checked_add(&Amount::zero()), Some(most));
}

#[test]
fn checked_add_refuses_a_sum_that_does_not_fit() {
    let most = Amount { limbs: [u64::MAX; 4] };
    assert_eq!(most.checked_add(&Amount::from_u64(1)), None);
    assert_eq!(most.checked_add(&most), None);
    let half = Amount { limbs: [0, 0, 0, 1 << 63] };
    assert_eq!(half.checked_add(&half), None);
}
