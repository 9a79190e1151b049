//! Peer ids: 16 hex digits mixed from a clock reading and an address, and
//! their short display form.

use vstd::prelude::*;
use vstd::arithmetic::div_mod::{lemma_mul_mod_noop_left, lemma_mul_mod_noop_right};
use crate::textutil::{hex16, hex_char, hex_digits};

verus! {

/// The 64-bit value an id is made from: the clock reading times the golden
/// ratio constant plus the address, then the SplitMix64 finalizer.
pub open spec fn mix_entropy(nanos: u64, addr: u64) -> u64 {
    let x0 = entropy_seed(nanos, addr);
    let x1 = x0 ^ (x0 >> 30u64);
    let x2 = x1.wrapping_mul(0xBF58_476D_1CE4_E5B9u64);
    let x3 = x2 ^ (x2 >> 27u64);
    let x4 = x3.wrapping_mul(0x94D0_49BB_1331_11EBu64);
    x4 ^ (x4 >> 31u64)
}

/// Mixes a clock reading in nanoseconds and an address into a 64-bit value.
pub fn mix64(nanos: u64, addr: u64) -> (x: u64)
    ensures
        x == mix_entropy(nanos, addr),
{
    let mut x = nanos.wrapping_mul(0x9E37_79B9_7F4A_7C15).wrapping_add(addr);
    x ^= x >> 30;
    x = x.wrapping_mul(0xBF58_476D_1CE4_E5B9);
    x ^= x >> 27;
    x = x.wrapping_mul(0x94D0_49BB_1331_11EB);
    x ^= x >> 31;
    x
}

/// The id for a clock reading in nanoseconds and an address: the mixed value
/// as 16 lower-case hex digits.
pub fn id_from_entropy(nanos: u64, addr: u64) -> (id: String)
    ensures
        id@ == hex_digits(mix_entropy(nanos, addr) as nat, 16),
        id@.len() == 16,
{
    let x = mix64(nanos, addr);
    proof {
        lemma_hex_digits_len(x as nat, 16);
    }
    hex16(x)
}

/// How many characters of an id its short form keeps: four, or all when
/// fewer.
pub open spec fn short_id_len(id: Seq<char>) -> int {
    if id.len() < 4 {
        id.len() as int
    } else {
        4
    }
}

/// The first four characters of an id (or all of it when shorter), used to
/// tell apart peers that show the same name.
pub fn short_id(id: &str) -> (r: &str)
    ensures
        r@ == id@.take(short_id_len(id@)),
{
    let n = id.unicode_len();
    let k = if n < 4 {
        n
    } else {
        4
    };
    id.substring_char(0, k)
}

// ---------------------------------------------------------------------------
//  Different clock readings give different ids
// ---------------------------------------------------------------------------

pub proof fn lemma_hex_digits_len(x: nat, k: nat)
    ensures
        hex_digits(x, k).len() == k,
    decreases k,
{
    if k > 0 {
        lemma_hex_digits_len(x / 16, (k - 1) as nat);
    }
}

proof fn lemma_xorshift_injective(a: u64, b: u64)
    ensures
        (a ^ (a >> 30u64)) == (b ^ (b >> 30u64)) ==> a == b,
        (a ^ (a >> 27u64)) == (b ^ (b >> 27u64)) ==> a == b,
        (a ^ (a >> 31u64)) == (b ^ (b >> 31u64)) ==> a == b,
{
    assert((a ^ (a >> 30u64)) == (b ^ (b >> 30u64)) ==> a == b) by (bit_vector);
    assert((a ^ (a >> 27u64)) == (b ^ (b >> 27u64)) ==> a == b) by (bit_vector);
    assert((a ^ (a >> 31u64)) == (b ^ (b >> 31u64)) ==> a == b) by (bit_vector);
}

/// Multiplying by `c` modulo 2^64 is undone by multiplying by `c_inv` when
/// `c * c_inv` is 1 modulo 2^64.
proof fn lemma_wrapping_mul_undone(a: u64, c: u64, c_inv: u64)
    requires
        (c as nat * c_inv as nat) % 0x1_0000_0000_0000_0000nat == 1,
    ensures
        (a.wrapping_mul(c) as nat * c_inv as nat) % 0x1_0000_0000_0000_0000nat == a as nat,
{
    let m: int = 0x1_0000_0000_0000_0000int;
    let ac = (a as int * c as int);
    lemma_mul_mod_noop_left(ac, c_inv as int, m);
    assert((ac * c_inv) == a as int * (c as int * c_inv as int)) by (nonlinear_arith)
        requires
            ac == a as int * c as int,
    ;
    lemma_mul_mod_noop_right(a as int, c as int * c_inv as int, m);
    assert(a as int * 1 == a as int);
}

proof fn lemma_wrapping_mul_injective(a: u64, b: u64, c: u64, c_inv: u64)
    requires
        (c as nat * c_inv as nat) % 0x1_0000_0000_0000_0000nat == 1,
        a.wrapping_mul(c) == b.wrapping_mul(c),
    ensures
        a == b,
{
    lemma_wrapping_mul_undone(a, c, c_inv);
    lemma_wrapping_mul_undone(b, c, c_inv);
}

proof fn lemma_hex_char_injective(d1: int, d2: int)
    requires
        0 <= d1 < 16,
        0 <= d2 < 16,
        hex_char(d1) == hex_char(d2),
    ensures
        d1 == d2,
{
    assert(hex_char(d1) as u32 == if d1 < 10 { 48 + d1 } else { 87 + d1 });
    assert(hex_char(d2) as u32 == if d2 < 10 { 48 + d2 } else { 87 + d2 });
}

proof fn lemma_hex_digits_injective(x: nat, y: nat, k: nat, bound: int)
    requires
        bound == vstd::arithmetic::power::pow(16, k),
        x < bound,
        y < bound,
        hex_digits(x, k) == hex_digits(y, k),
    ensures
        x == y,
    decreases k,
{
    vstd::arithmetic::power::lemma_pow_positive(16, k);
    if k == 0 {
        vstd::arithmetic::power::lemma_pow0(16);
    } else {
        let b1 = vstd::arithmetic::power::pow(16, (k - 1) as nat);
        vstd::arithmetic::power::lemma_pow_positive(16, (k - 1) as nat);
        assert(bound == 16 * b1) by {
            vstd::arithmetic::power::lemma_pow_adds(16, 1, (k - 1) as nat);
            vstd::arithmetic::power::lemma_pow1(16);
        }
        let hx = hex_digits(x, k);
        let hy = hex_digits(y, k);
        assert(hx.last() == hex_char((x % 16) as int));
        assert(hy.last() == hex_char((y % 16) as int));
        lemma_hex_char_injective((x % 16) as int, (y % 16) as int);
        assert(hx.drop_last() == hex_digits(x / 16, (k - 1) as nat));
        assert(hy.drop_last() == hex_digits(y / 16, (k - 1) as nat));
        assert(x / 16 < b1) by (nonlinear_arith)
            requires
                x < 16 * b1,
        ;
        assert(y / 16 < b1) by (nonlinear_arith)
            requires
                y < 16 * b1,
        ;
        lemma_hex_digits_injective(x / 16, y / 16, (k - 1) as nat, b1);
        assert(x == 16 * (x / 16) + x % 16);
        assert(y == 16 * (y / 16) + y % 16);
    }
}

/// The value the clock reading and the address are first combined into,
/// before the finalizer mixes it.
pub open spec fn entropy_seed(nanos: u64, addr: u64) -> u64 {
    nanos.wrapping_mul(0x9E37_79B9_7F4A_7C15u64).wrapping_add(addr)
}

/// Ids drawn from two different seeds differ: after the seed, every step of
/// the mixing is one-to-one. So in a burst of ids whose clock readings and
/// addresses combine into distinct seeds (distinct readings at one address,
/// for one), no id comes twice.
pub proof fn law_ids_differ_for_different_seeds(n1: u64, a1: u64, n2: u64, a2: u64)
    requires
        entropy_seed(n1, a1) != entropy_seed(n2, a2),
    ensures
        hex_digits(mix_entropy(n1, a1) as nat, 16) != hex_digits(mix_entropy(n2, a2) as nat, 16),
{
    if hex_digits(mix_entropy(n1, a1) as nat, 16) == hex_digits(mix_entropy(n2, a2) as nat, 16) {
        assert(vstd::arithmetic::power::pow(16, 16) == 0x1_0000_0000_0000_0000int) by {
            vstd::arithmetic::power::lemma_pow1(16);
            vstd::arithmetic::power::lemma_pow_adds(16, 1, 1);
            assert(vstd::arithmetic::power::pow(16, 2) == 0x100);
            vstd::arithmetic::power::lemma_pow_adds(16, 2, 2);
            assert(vstd::arithmetic::power::pow(16, 4) == 0x1_0000);
            vstd::arithmetic::power::lemma_pow_adds(16, 4, 4);
            assert(vstd::arithmetic::power::pow(16, 8) == 0x1_0000_0000);
            vstd::arithmetic::power::lemma_pow_adds(16, 8, 8);
        }
        lemma_hex_digits_injective(
            mix_entropy(n1, a1) as nat,
            mix_entropy(n2, a2) as nat,
            16,
            0x1_0000_0000_0000_0000int,
        );
        let a_1 = entropy_seed(n1, a1);
        let b_1 = entropy_seed(n2, a2);
        let a2_ = a_1 ^ (a_1 >> 30u64);
        let b2_ = b_1 ^ (b_1 >> 30u64);
        let a3 = a2_.wrapping_mul(0xBF58_476D_1CE4_E5B9u64);
        let b3 = b2_.wrapping_mul(0xBF58_476D_1CE4_E5B9u64);
        let a4 = a3 ^ (a3 >> 27u64);
        let b4 = b3 ^ (b3 >> 27u64);
        let a5 = a4.wrapping_mul(0x94D0_49BB_1331_11EBu64);
        let b5 = b4.wrapping_mul(0x94D0_49BB_1331_11EBu64);
        lemma_xorshift_injective(a5, b5);
        lemma_wrapping_mul_injective(a4, b4, 0x94D0_49BB_1331_11EBu64, 0x3196_42B2_D24D_8EC3u64);
        lemma_xorshift_injective(a3, b3);
        lemma_wrapping_mul_injective(a2_, b2_, 0xBF58_476D_1CE4_E5B9u64, 0x96DE_1B17_3F11_9089u64);
        lemma_xorshift_injective(a_1, b_1);
    }
}

/// Ids made at two different clock readings with the same address differ.
pub proof fn law_ids_differ_for_different_clock_readings(n1: u64, n2: u64, addr: u64)
    requires
        n1 != n2,
    ensures
        hex_digits(mix_entropy(n1, addr) as nat, 16) != hex_digits(mix_entropy(n2, addr) as nat, 16),
{
    let a0 = n1.wrapping_mul(0x9E37_79B9_7F4A_7C15u64);
    let b0 = n2.wrapping_mul(0x9E37_79B9_7F4A_7C15u64);
    if entropy_seed(n1, addr) == entropy_seed(n2, addr) {
        assert(a0 == b0);
        lemma_wrapping_mul_injective(n1, n2, 0x9E37_79B9_7F4A_7C15u64, 0xF1DE_83E1_9937_733Du64);
    }
    law_ids_differ_for_different_seeds(n1, addr, n2, addr);
}

} // verus!
