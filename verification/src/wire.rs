use crate::amount::{be_bytes, be_value, u256_from_be_bytes, u256_to_be_bytes, Amount};
use crate::identity::Identity;
use vstd::prelude::*;

verus! {

/// The four bytes that open a request to an asset contract's
/// `transferFrom(address,address,uint256)`.
pub open spec fn transfer_from_selector() -> Seq<u8> {
    seq![0x23u8, 0xb8u8, 0x72u8, 0xddu8]
}

/// An identity as one 32-byte word: twelve zero bytes, then its twenty bytes.
pub open spec fn identity_word(who: Identity) -> Seq<u8> {
    Seq::new(
        32,
        |i: int|
            if i < 12 {
                0u8
            } else {
                who.bytes[i - 12]
            },
    )
}

/// The bytes of a request to move `amount` from `sender` to `recipient`: the
/// selector, then the three arguments as one 32-byte word each.
pub open spec fn transfer_from_request(sender: Identity, recipient: Identity, amount: nat) -> Seq<
    u8,
> {
    transfer_from_selector() + identity_word(sender) + identity_word(recipient) + be_bytes(
        amount,
        32,
    )
}

fn push_identity_word(data: &mut Vec<u8>, who: &Identity)
    ensures
        final(data)@ == old(data)@ + identity_word(*who),
{
    let mut i: usize = 0;
    while i < 12
        invariant
            i <= 12,
            data@ == old(data)@ + identity_word(*who).subrange(0, i as int),
        decreases 12 - i,
    {
        data.push(0u8);
        i += 1;
        assert(data@ =~= old(data)@ + identity_word(*who).subrange(0, i as int));
    }
    let mut k: usize = 0;
    while k < 20
        invariant
            k <= 20,
            data@ == old(data)@ + identity_word(*who).subrange(0, 12 + k as int),
        decreases 20 - k,
    {
        data.push(who.bytes[k]);
        k += 1;
        assert(data@ =~= old(data)@ + identity_word(*who).subrange(0, 12 + k as int));
    }
    assert(identity_word(*who).subrange(0, 32) =~= identity_word(*who));
}

/// Writes the request that asks an asset contract to move `amount` from
/// `sender` to `recipient`.
pub fn transfer_from_calldata(sender: &Identity, recipient: &Identity, amount: &Amount) -> (data:
    Vec<u8>)
    ensures
        data@ == transfer_from_request(*sender, *recipient, amount@),
{
    let mut data: Vec<u8> = Vec::new();
    data.push(0x23u8);
    data.push(0xb8u8);
    data.push(0x72u8);
    data.push(0xddu8);
    assert(data@ =~= transfer_from_selector());
    push_identity_word(&mut data, sender);
    push_identity_word(&mut data, recipient);
    let word = u256_to_be_bytes(amount);
    let ghost head = data@;
    let mut i: usize = 0;
    while i < 32
        invariant
            i <= 32,
            word@.len() == 32,
            data@ == head + word@.subrange(0, i as int),
        decreases 32 - i,
    {
        data.push(word[i]);
        i += 1;
        assert(data@ =~= head + word@.subrange(0, i as int));
    }
    assert(word@.subrange(0, 32) =~= word@);
    data
}

/// Whether an asset contract's answer to a transfer request says "done": one
/// 32-byte word whose last byte is one.
pub fn transfer_confirmed(reply: &[u8]) -> (done: bool)
    ensures
        done == (reply@.len() == 32 && reply@[31] == 1u8),
{
    reply.len() == 32 && reply[31] == 1
}

/// Reads an asset contract's answer to a balance query: the number that its
/// 32 bytes spell out, most significant byte first. An answer of any other
/// length reads as zero.
pub fn balance_from_reply(reply: &[u8]) -> (balance: Amount)
    ensures
        balance@ == if reply@.len() == 32 {
            be_value(reply@)
        } else {
            0
        },
{
    if reply.len() != 32 {
        return Amount::zero();
    }
    let mut word = [0u8; 32];
    let mut i: usize = 0;
    while i < 32
        invariant
            i <= 32,
            reply@.len() == 32,
            forall|k: int| 0 <= k < i ==> word@[k] == reply@[k],
        decreases 32 - i,
    {
        word[i] = reply[i];
        i += 1;
    }
    assert(word@ =~= reply@);
    u256_from_be_bytes(word)
}

} // verus!
