use vstd::arithmetic::power2::{lemma2_to64, pow2};
use vstd::bits::lemma_u32_shl_is_mul;
use vstd::prelude::*;

verus! {

/// The 16-bit word that holds the same two's-complement value as the
/// `n`-bit field `x`.
pub open spec fn sign_extended(x: u16, n: nat) -> u16 {
    if n >= 1 && x as int >= pow2((n - 1) as nat) {
        (x as int + 0x10000 - pow2(n)) as u16
    } else {
        x
    }
}

/// The value of a 16-bit word read as a two's-complement integer.
pub open spec fn signed16(w: u16) -> int {
    if w >= 0x8000 {
        w as int - 0x10000
    } else {
        w as int
    }
}

/// The value of an `n`-bit field read as a two's-complement integer.
pub open spec fn signed_field(x: u16, n: nat) -> int {
    if n >= 1 && x as int >= pow2((n - 1) as nat) {
        x as int - pow2(n)
    } else {
        x as int
    }
}

proof fn lemma_pow2_halves(n: nat)
    requires
        1 <= n <= 16,
    ensures
        pow2(n) == 2 * pow2((n - 1) as nat),
        pow2(n) <= 0x10000,
        pow2(16) == 0x10000,
{
    lemma2_to64();
}

/// Widens the `bit_count`-bit field `x` to 16 bits, filling the upper bits
/// with the field's sign bit.
pub fn sign_extend(x: u16, bit_count: u8) -> (r: u16)
    requires
        1 <= bit_count <= 16,
        (x as nat) < pow2(bit_count as nat),
    ensures
        r == sign_extended(x, bit_count as nat),
{
    proof {
        lemma_pow2_halves(bit_count as nat);
        lemma_u32_shl_is_mul(1, bit_count as u32);
    }
    let width: u32 = 1u32 << (bit_count as u32);
    if (x as u32) >= width / 2 {
        ((x as u32) + 0x10000 - width) as u16
    } else {
        x
    }
}

/// Sign extension to the full word width changes nothing, extending a result
/// again changes nothing, and the extended word reads as the same signed
/// value as the field: a negative field becomes its two's-complement
/// equivalent.
pub proof fn lemma_sign_extend_laws(x: u16, n: nat)
    requires
        1 <= n <= 16,
        (x as nat) < pow2(n),
    ensures
        sign_extended(x, 16) == x,
        sign_extended(sign_extended(x, n), 16) == sign_extended(x, n),
        signed16(sign_extended(x, n)) == signed_field(x, n),
        x as int >= pow2((n - 1) as nat) ==> signed16(sign_extended(x, n)) == x as int - pow2(n),
{
    lemma_pow2_halves(n);
    lemma2_to64();
}

} // verus!
