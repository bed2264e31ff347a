use employer_pool::amount::Amount;
use employer_pool::identity::Identity;
use employer_pool::wire::{balance_from_reply, transfer_confirmed, transfer_from_calldata};

fn word_ending_in(last: u8) -> Vec<u8> {
    let mut word = vec![0u8; 32];
    word[31] = last;
    word
}

#[test]
fn transfer_from_request_is_selector_and_three_words() {
    let sender = Identity { bytes: [0x11; 20] };
    let recipient = Identity { bytes: [0x22; 20] };
    let data = transfer_from_calldata(&sender, &recipient, &Amount::from_u64(0x0102));
    let mut expected = vec![0x23u8, 0xb8, 0x72, 0xdd];
    expected.extend_from_slice(&[0u8; 12]);
    expected.extend_from_slice(&[0x11u8; 20]);
    expected.extend_from_slice(&[0u8; 12]);
    expected.extend_from_slice(&[0x22u8; 20]);
    expected.extend_from_slice(&[0u8; 30]);
    expected.extend_from_slice(&[0x01u8, 0x02]);
    assert_eq!(data.len(), 100);
    assert_eq!(data, expected);
}

#[test]
fn transfer_from_request_keeps_the_order_of_identity_bytes() {
    let mut bytes = [0u8; 20];
    for i in 0..20 {
        bytes[i] = i as u8 + 1;
    }
    let data = transfer_from_calldata(&Identity { bytes }, &Identity::unset(), &Amount::zero());
    assert_eq!(&data[4..16], &[0u8; 12]);
    assert_eq!(&data[16..36], &bytes);
    assert_eq!(&data[36..100], &[0u8; 64]);
}

#[test]
fn transfer_from_request_writes_the_amount_most_significant_byte_first() {
    let amount = Amount { limbs: [0x0807060504030201, 0, 0, 0xf1f2f3f4f5f6f7f8] };
    let data = transfer_from_calldata(&Identity::unset(), &Identity::unset(), &amount);
    assert_eq!(&data[68..76], &[0xf1u8, 0xf2, 0xf3, 0xf4, 0xf5, 0xf6, 0xf7, 0xf8]);
    assert_eq!(&data[76..92], &[0u8; 16]);
    assert_eq!(&data[92..100], &[0x08u8, 0x07, 0x06, 0x05, 0x04, 0x03, 0x02, 0x01]);
}

#[test]
fn transfer_from_request_agrees_with_the_outside_encoding() {
    let amount = Amount { limbs: [1, 2, 3, 4] };
    let data = transfer_from_calldata(&Identity::unset(), &Identity::unset(), &amount);
    let outside = alloy_primitives::U256::from_limbs([1, 2, 3, 4]).to_be_bytes::<32>();
    assert_eq!(&data[68..100], &outside);
}

#[test]
fn transfer_is_confirmed_by_a_word_that_ends_in_one() {
    assert!(transfer_confirmed(&word_ending_in(1)));
}

#[test]
fn transfer_is_not_confirmed_by_anything_else() {
    assert!(!transfer_confirmed(&word_ending_in(0)));
    assert!(!transfer_confirmed(&word_ending_in(2)));
    assert!(!transfer_confirmed(&[]));
    assert!(!transfer_confirmed(&[1]));
    assert!(!transfer_confirmed(&vec![1u8; 31]));
    assert!(!transfer_confirmed(&vec![1u8; 33]));
    let mut leading = vec![0u8; 32];
    leading[0] = 1;
    assert!(!transfer_confirmed(&leading));
}

#[test]
fn balance_reply_is_read_most_significant_byte_first() {
    assert_eq!(balance_from_reply(&word_ending_in(5)), Amount::from_u64(5));
    let mut word = vec![0u8; 32];
    word[0] = 1;
    assert_eq!(balance_from_reply(&word), Amount { limbs: [0, 0, 0, 1 << 56] });
    word = vec![0u8; 32];
    word[30] = 1;
    word[31] = 2;
    assert_eq!(balance_from_reply(&word), Amount::from_u64(258));
    assert_eq!(balance_from_reply(&vec![0xffu8; 32]), Amount { limbs: [u64::MAX; 4] });
}

#[test]
fn balance_reply_of_another_length_reads_as_zero() {
    assert_eq!(balance_from_reply(&[]), Amount::zero());
    assert_eq!(balance_from_reply(&vec![0xffu8; 31]), Amount::zero());
    assert_eq!(balance_from_reply(&vec![0xffu8; 33]), Amount::zero());
}
