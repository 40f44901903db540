//! Arithmetic on 16-bit masks: how many bits a mask selects, and how a value is
//! spread over, and gathered from, the bit positions it selects.
use vstd::prelude::*;

verus! {

/// Two to the power `n`.
pub open spec fn pow2(n: nat) -> nat
    decreases n,
{
    if n == 0 {
        1
    } else {
        2 * pow2((n - 1) as nat)
    }
}

/// The number of bits set in `mask`.
pub open spec fn popcount(mask: nat) -> nat
    decreases mask,
{
    if mask == 0 {
        0
    } else {
        mask % 2 + popcount(mask / 2)
    }
}

/// The position of the lowest bit set in `mask`: the number of zero bits
/// below it. Zero for an empty mask.
pub open spec fn low_zeros(mask: nat) -> nat
    decreases mask,
{
    if mask == 0 || mask % 2 == 1 {
        0
    } else {
        1 + low_zeros(mask / 2)
    }
}

/// The word that holds the low bits of `value` at the positions that `mask`
/// selects: bit 0 of `value` at the lowest selected position, bit 1 at the next,
/// so that the most significant bit that fits lands on the highest one.
pub open spec fn deposit(value: nat, mask: nat) -> nat
    decreases mask,
{
    if mask == 0 {
        0
    } else if mask % 2 == 1 {
        value % 2 + 2 * deposit(value / 2, mask / 2)
    } else {
        2 * deposit(value, mask / 2)
    }
}

/// The value that `word` holds at the positions that `mask` selects, the
/// inverse of [`deposit`].
pub open spec fn extract(word: nat, mask: nat) -> nat
    decreases mask,
{
    if mask == 0 {
        0
    } else if mask % 2 == 1 {
        word % 2 + 2 * extract(word / 2, mask / 2)
    } else {
        extract(word / 2, mask / 2)
    }
}

/// Powers of two grow with the exponent.
pub proof fn lemma_pow2_monotone(a: nat, b: nat)
    requires
        a <= b,
    ensures
        pow2(a) <= pow2(b),
        pow2(a) > 0,
    decreases b,
{
    if a < b {
        lemma_pow2_monotone(a, (b - 1) as nat);
    } else if a > 0 {
        lemma_pow2_monotone((a - 1) as nat, (b - 1) as nat);
    }
}

/// Adding exponents multiplies the powers.
pub proof fn lemma_pow2_adds(a: nat, b: nat)
    ensures
        pow2(a + b) == pow2(a) * pow2(b),
    decreases a,
{
    if a > 0 {
        lemma_pow2_adds((a - 1) as nat, b);
        assert(pow2(a + b) == 2 * pow2((a - 1 + b) as nat));
        assert(2 * (pow2((a - 1) as nat) * pow2(b)) == (2 * pow2((a - 1) as nat)) * pow2(b))
            by (nonlinear_arith);
    } else {
        assert(pow2(0 + b) == 1 * pow2(b));
    }
}

/// The powers of two at the widths of a byte, a word and a word pair.
pub proof fn lemma_pow2_values()
    ensures
        pow2(0) == 1,
        pow2(1) == 2,
        pow2(8) == 0x100,
        pow2(16) == 0x1_0000,
        pow2(32) == 0x1_0000_0000,
{
    reveal_with_fuel(pow2, 9);
    assert(pow2(16) == 0x100 * pow2(8)) by {
        reveal_with_fuel(pow2, 9);
    }
    assert(pow2(24) == 0x100 * pow2(16)) by {
        reveal_with_fuel(pow2, 9);
    }
    assert(pow2(32) == 0x100 * pow2(24)) by {
        reveal_with_fuel(pow2, 9);
    }
}

/// A mask below `2^n` selects at most `n` bits.
pub proof fn lemma_popcount_bound(mask: nat, n: nat)
    requires
        mask < pow2(n),
    ensures
        popcount(mask) <= n,
    decreases mask,
{
    if mask != 0 {
        lemma_popcount_bound(mask / 2, (n - 1) as nat);
    }
}

/// A deposited value never exceeds its mask.
pub proof fn lemma_deposit_bound(value: nat, mask: nat)
    ensures
        deposit(value, mask) <= mask,
    decreases mask,
{
    if mask != 0 {
        if mask % 2 == 1 {
            lemma_deposit_bound(value / 2, mask / 2);
        } else {
            lemma_deposit_bound(value, mask / 2);
        }
    }
}

/// An extracted value fits in as many bits as the mask selects.
pub proof fn lemma_extract_bound(word: nat, mask: nat)
    ensures
        extract(word, mask) < pow2(popcount(mask)),
    decreases mask,
{
    if mask != 0 {
        lemma_extract_bound(word / 2, mask / 2);
    }
}

/// Gathering what was spread gives the value back, provided it fits in the
/// bits that the mask selects.
pub proof fn lemma_extract_deposit(value: nat, mask: nat)
    requires
        value < pow2(popcount(mask)),
    ensures
        extract(deposit(value, mask), mask) == value,
    decreases mask,
{
    if mask != 0 {
        if mask % 2 == 1 {
            lemma_extract_deposit(value / 2, mask / 2);
        } else {
            lemma_extract_deposit(value, mask / 2);
        }
    }
}

/// A deposited value has no bit outside its mask.
pub proof fn lemma_deposit_within(value: nat, mask: u16)
    ensures
        deposit(value, mask as nat) <= mask,
        (deposit(value, mask as nat) as u16) & !mask == 0,
    decreases mask,
{
    lemma_deposit_bound(value, mask as nat);
    let m2: u16 = mask / 2;
    if mask != 0 {
        let next = if mask % 2 == 1 { value / 2 } else { value };
        lemma_deposit_within(next, m2);
        let inner: u16 = deposit(next, m2 as nat) as u16;
        let low: u16 = if mask % 2 == 1 { (value % 2) as u16 } else { 0 };
        let whole: u16 = deposit(value, mask as nat) as u16;
        assert(whole == low + 2 * inner);
        assert(whole & !mask == 0) by (bit_vector)
            requires
                m2 == mask / 2,
                inner & !m2 == 0,
                inner <= m2,
                low <= mask % 2,
                whole == low + 2 * inner,
        ;
    } else {
        assert(0u16 & !0u16 == 0) by (bit_vector);
    }
}

/// What a word holds under a mask depends only on the bits under the mask.
pub proof fn lemma_extract_masked(word: u16, mask: u16)
    ensures
        extract((word & mask) as nat, mask as nat) == extract(word as nat, mask as nat),
    decreases mask,
{
    let w2: u16 = word / 2;
    let m2: u16 = mask / 2;
    if mask != 0 {
        lemma_extract_masked(w2, m2);
        let inner: u16 = w2 & m2;
        assert(inner == (word & mask) / 2 && (mask % 2 == 1 ==> (word & mask) % 2 == word % 2))
            by (bit_vector)
            requires
                w2 == word / 2,
                m2 == mask / 2,
                inner == w2 & m2,
        ;
    }
}

/// The number of bits that `mask` selects.
pub fn mask_width(mask: u16) -> (width: u32)
    ensures
        width == popcount(mask as nat),
        width <= 16,
    decreases mask,
{
    proof {
        lemma_pow2_values();
        lemma_popcount_bound(mask as nat, 16);
    }
    if mask == 0 {
        0
    } else {
        let rest = mask_width(mask / 2);
        if mask % 2 == 1 {
            rest + 1
        } else {
            rest
        }
    }
}

/// The position of the lowest bit that `mask` selects.
pub fn mask_shift(mask: u16) -> (shift: u32)
    ensures
        shift == low_zeros(mask as nat),
        shift < 16,
    decreases mask,
{
    if mask == 0 || mask % 2 == 1 {
        0
    } else {
        let rest = mask_shift(mask / 2);
        proof {
            lemma_pow2_values();
            lemma_low_zeros_bound(mask as nat, 16);
        }
        rest + 1
    }
}

/// The lowest bit of a mask that is not empty and below `2^n` stands below
/// position `n`.
pub proof fn lemma_low_zeros_bound(mask: nat, n: nat)
    requires
        0 < mask < pow2(n),
    ensures
        low_zeros(mask) < n,
    decreases mask,
{
    if mask % 2 == 0 {
        lemma_low_zeros_bound(mask / 2, (n - 1) as nat);
    }
}

/// Spreads the low bits of `value` over the positions that `mask` selects.
pub fn pack(value: u16, mask: u16) -> (word: u16)
    ensures
        word == deposit(value as nat, mask as nat),
        word <= mask,
        word & !mask == 0,
    decreases mask,
{
    proof {
        lemma_deposit_within(value as nat, mask);
    }
    if mask == 0 {
        0
    } else if mask % 2 == 1 {
        let rest = pack(value / 2, mask / 2);
        value % 2 + 2 * rest
    } else {
        let rest = pack(value, mask / 2);
        2 * rest
    }
}

/// Gathers the bits of `word` at the positions that `mask` selects.
pub fn unpack(word: u16, mask: u16) -> (value: u16)
    ensures
        value == extract(word as nat, mask as nat),
        value < pow2(popcount(mask as nat)),
        value <= mask,
    decreases mask,
{
    proof {
        lemma_extract_bound(word as nat, mask as nat);
    }
    if mask == 0 {
        0
    } else if mask % 2 == 1 {
        let rest = unpack(word / 2, mask / 2);
        word % 2 + 2 * rest
    } else {
        unpack(word / 2, mask / 2)
    }
}

/// Two to the power `n`, for the widths that a word or a word pair can have.
pub fn two_pow(n: u32) -> (p: u64)
    requires
        n <= 32,
    ensures
        p == pow2(n as nat),
        p <= 0x1_0000_0000,
    decreases n,
{
    proof {
        lemma_pow2_values();
        lemma_pow2_monotone(n as nat, 32);
        if n > 0 {
            lemma_pow2_monotone((n - 1) as nat, 31);
            assert(pow2(32) == 2 * pow2(31));
        }
    }
    if n == 0 {
        1
    } else {
        2 * two_pow(n - 1)
    }
}

/// What a field of `width` bits holds for `value`, in two's complement. A
/// value that is not negative may use all the bits, unless it is `relative`, a
/// signed distance, which leaves the top bit to the sign. `None` where the value
/// does not fit.
pub open spec fn field_bits(value: int, width: nat, relative: bool) -> Option<nat> {
    let top = pow2(width) as int;
    let half = top / 2;
    let limit = if relative {
        half
    } else {
        top
    };
    if -half <= value < limit {
        Some(
            (if value < 0 {
                value + top
            } else {
                value
            }) as nat,
        )
    } else {
        None
    }
}

/// The signed number that a field of `width` bits holds.
pub open spec fn sign_extend(field: nat, width: nat) -> int {
    if field >= pow2(width) / 2 {
        field - pow2(width)
    } else {
        field as int
    }
}

/// What fits in a field is below two to the width, and reading the field gives
/// the value back: as a signed number for a distance, as it stands for a
/// number that is not negative.
pub proof fn lemma_field_bits(value: int, width: nat, relative: bool)
    ensures
        field_bits(value, width, relative) matches Some(field) ==> {
            &&& field < pow2(width)
            &&& relative ==> sign_extend(field, width) == value
            &&& value >= 0 ==> field == value
        },
{
    lemma_pow2_monotone(0, width);
}

/// What a field of `width` bits holds for `value`.
pub fn to_field(value: i64, width: u32, relative: bool) -> (field: Option<u64>)
    requires
        width <= 32,
    ensures
        match field {
            Some(f) => field_bits(value as int, width as nat, relative) == Some(f as nat) && f
                < pow2(width as nat),
            None => field_bits(value as int, width as nat, relative) is None,
        },
{
    let top = two_pow(width) as i64;
    let half = top / 2;
    let limit = if relative {
        half
    } else {
        top
    };
    if -half <= value && value < limit {
        if value < 0 {
            Some((value + top) as u64)
        } else {
            Some(value as u64)
        }
    } else {
        None
    }
}

/// The signed number that a field of `width` bits holds.
pub fn from_field(field: u64, width: u32) -> (value: i64)
    requires
        width <= 32,
        field < pow2(width as nat),
    ensures
        value == sign_extend(field as nat, width as nat),
{
    let top = two_pow(width);
    if field >= top / 2 {
        field as i64 - top as i64
    } else {
        field as i64
    }
}

} // verus!
