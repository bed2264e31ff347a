use vstd::prelude::*;

verus! {

/// A quantity of the tracked asset: an unsigned 256-bit integer, held as four
/// 64-bit limbs with the least significant limb first.
#[derive(Clone, Copy, Debug, Hash)]
pub struct Amount {
    pub limbs: [u64; 4],
}

impl View for Amount {
    type V = nat;

    /// The number that the four limbs spell out.
    open spec fn view(&self) -> nat {
        (self.limbs[0] as nat) + (self.limbs[1] as nat) * 0x1_0000_0000_0000_0000nat
            + (self.limbs[2] as nat) * 0x1_0000_0000_0000_0000_0000_0000_0000_0000nat
            + (self.limbs[3] as nat)
            * 0x1_0000_0000_0000_0000_0000_0000_0000_0000_0000_0000_0000_0000nat
    }
}

impl PartialEq for Amount {
    fn eq(&self, other: &Amount) -> (r: bool) {
        let same = self.limbs[0] == other.limbs[0] && self.limbs[1] == other.limbs[1]
            && self.limbs[2] == other.limbs[2] && self.limbs[3] == other.limbs[3];
        assert(same ==> self.limbs =~= other.limbs);
        same
    }
}

impl vstd::std_specs::cmp::PartialEqSpecImpl for Amount {
    open spec fn obeys_eq_spec() -> bool {
        true
    }

    open spec fn eq_spec(&self, other: &Amount) -> bool {
        *self == *other
    }
}

impl Eq for Amount {}

/// Two to the power 256: one more than the largest `Amount`.
pub open spec fn modulus() -> nat {
    0x1_0000_0000_0000_0000_0000_0000_0000_0000_0000_0000_0000_0000_0000_0000_0000_0000nat
}

/// The number that a byte string spells out when read most significant byte
/// first.
pub open spec fn be_value(bytes: Seq<u8>) -> nat
    decreases bytes.len(),
{
    if bytes.len() == 0 {
        0
    } else {
        be_value(bytes.drop_last()) * 256 + bytes.last() as nat
    }
}

/// The `len` bytes that spell `value` out, most significant byte first. A
/// value too large for `len` bytes loses its upper part.
pub open spec fn be_bytes(value: nat, len: nat) -> Seq<u8>
    decreases len,
{
    if len == 0 {
        Seq::empty()
    } else {
        be_bytes(value / 256, (len - 1) as nat).push((value % 256) as u8)
    }
}

impl Amount {
    /// The largest value an `Amount` can hold.
    pub open spec fn max_value() -> nat {
        (modulus() - 1) as nat
    }

    /// The amount of nothing.
    pub fn zero() -> (r: Amount)
        ensures
            r@ == 0,
    {
        Amount { limbs: [0, 0, 0, 0] }
    }

    /// The amount that `value` denotes.
    pub fn from_u64(value: u64) -> (r: Amount)
        ensures
            r@ == value,
    {
        Amount { limbs: [value, 0, 0, 0] }
    }

    /// The sum of two amounts, or `None` where it does not fit in 256 bits.
    pub fn checked_add(&self, other: &Amount) -> (sum: Option<Amount>)
        ensures
            match sum {
                Some(total) => total@ == self@ + other@,
                None => self@ + other@ > Amount::max_value(),
            },
    {
        let wrapped = u256_wrapping_add(self, other);
        if u256_lt(&wrapped, self) {
            None
        } else {
            Some(wrapped)
        }
    }

    /// Every amount fits in 256 bits.
    pub proof fn lemma_bounded(self)
        ensures
            self@ <= Amount::max_value(),
    {
    }

    /// Amounts that denote the same number are the same amount.
    pub proof fn lemma_view_injective(self, other: Amount)
        requires
            self@ == other@,
        ensures
            self == other,
    {
        assert(self.limbs[0] == other.limbs[0]);
        assert(self.limbs[1] == other.limbs[1]);
        assert(self.limbs[2] == other.limbs[2]);
        assert(self.limbs[3] == other.limbs[3]);
        assert(self.limbs =~= other.limbs);
    }
}

// The arithmetic on amounts is that of `alloy_primitives::U256`. Each function
// below makes one call to it; an amount goes in through `U256::from_limbs` and
// comes out through `U256::into_limbs`, both of which take the limbs least
// significant first, as `Amount` holds them.

/// `alloy_primitives::U256`'s `<`: the numeric order of the two values.
#[verifier::external_body]
pub(crate) fn u256_lt(a: &Amount, b: &Amount) -> (r: bool)
    ensures
        r == (a@ < b@),
{
    alloy_primitives::U256::from_limbs(a.limbs) < alloy_primitives::U256::from_limbs(b.limbs)
}

/// `alloy_primitives::U256::wrapping_add`, which is what `+` does on that
/// type: the sum, reduced modulo two to the power 256.
#[verifier::external_body]
pub(crate) fn u256_wrapping_add(a: &Amount, b: &Amount) -> (r: Amount)
    ensures
        r@ == (a@ + b@) % modulus(),
{
    let sum = alloy_primitives::U256::from_limbs(a.limbs).wrapping_add(
        alloy_primitives::U256::from_limbs(b.limbs),
    );
    Amount { limbs: sum.into_limbs() }
}

/// `alloy_primitives::U256::wrapping_sub`, which is what `-` does on that
/// type: the difference, reduced modulo two to the power 256.
#[verifier::external_body]
pub(crate) fn u256_wrapping_sub(a: &Amount, b: &Amount) -> (r: Amount)
    ensures
        r@ == (a@ - b@) % (modulus() as int),
{
    let difference = alloy_primitives::U256::from_limbs(a.limbs).wrapping_sub(
        alloy_primitives::U256::from_limbs(b.limbs),
    );
    Amount { limbs: difference.into_limbs() }
}

/// `alloy_primitives::U256::wrapping_mul`, which is what `*` does on that
/// type: the product, reduced modulo two to the power 256.
#[verifier::external_body]
pub(crate) fn u256_wrapping_mul(a: &Amount, b: &Amount) -> (r: Amount)
    ensures
        r@ == (a@ * b@) % modulus(),
{
    let product = alloy_primitives::U256::from_limbs(a.limbs).wrapping_mul(
        alloy_primitives::U256::from_limbs(b.limbs),
    );
    Amount { limbs: product.into_limbs() }
}

/// `alloy_primitives::U256::wrapping_div`, which is what `/` does on that
/// type: the quotient, rounded down. The outside function panics on a zero
/// divisor, which `requires` leaves out.
#[verifier::external_body]
pub(crate) fn u256_wrapping_div(a: &Amount, b: &Amount) -> (r: Amount)
    requires
        b@ != 0,
    ensures
        r@ == a@ / b@,
{
    let quotient = alloy_primitives::U256::from_limbs(a.limbs).wrapping_div(
        alloy_primitives::U256::from_limbs(b.limbs),
    );
    Amount { limbs: quotient.into_limbs() }
}

/// `alloy_primitives::U256::from_be_bytes`: the number that 32 bytes spell
/// out, most significant byte first.
#[verifier::external_body]
pub(crate) fn u256_from_be_bytes(bytes: [u8; 32]) -> (r: Amount)
    ensures
        r@ == be_value(bytes@),
{
    Amount { limbs: alloy_primitives::U256::from_be_bytes::<32>(bytes).into_limbs() }
}

/// `alloy_primitives::U256::to_be_bytes`: the 32 bytes that spell the number
/// out, most significant byte first.
#[verifier::external_body]
pub(crate) fn u256_to_be_bytes(a: &Amount) -> (r: [u8; 32])
    ensures
        r@ == be_bytes(a@, 32),
{
    alloy_primitives::U256::from_limbs(a.limbs).to_be_bytes::<32>()
}

} // verus!
