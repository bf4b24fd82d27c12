//! Address prefixes: masks, networks and the bytes of an address in network order.
//!
//! An IPv4 address is the `u32` and an IPv6 address the `u128` whose most significant byte is the
//! first byte of the address.

use vstd::arithmetic::power2::pow2;
use vstd::prelude::*;

verus! {

/// The bytes of `x`, the most significant first.
pub open spec fn be_bytes4(x: u32) -> Seq<u8> {
    Seq::new(4, |i: int| (x >> ((24 - 8 * i) as u32)) as u8)
}

/// The bytes of `x`, the most significant first.
pub open spec fn be_bytes16(x: u128) -> Seq<u8> {
    Seq::new(16, |i: int| (x >> ((120 - 8 * i) as u128)) as u8)
}

/// The bytes of `x`, the least significant first.
pub open spec fn le_bytes4(x: u32) -> Seq<u8> {
    Seq::new(4, |i: int| (x >> ((8 * i) as u32)) as u8)
}

/// Whether two IPv4 addresses agree in their first `prefix` bits.
pub open spec fn same_subnet4(a: u32, b: u32, prefix: u8) -> bool {
    a as int / pow2((32 - prefix) as nat) as int == b as int / pow2((32 - prefix) as nat) as int
}

/// Whether two IPv6 addresses agree in their first `prefix` bits.
pub open spec fn same_subnet6(a: u128, b: u128, prefix: u8) -> bool {
    a as int / pow2((128 - prefix) as nat) as int == b as int / pow2((128 - prefix) as nat) as int
}

/// The mask with its first `prefix` bits set and the others clear.
pub open spec fn mask_of4(prefix: u8) -> u32 {
    (pow2(32) - pow2((32 - prefix) as nat)) as u32
}

/// The mask with its first `prefix` bits set and the others clear.
pub open spec fn mask_of6(prefix: u8) -> u128 {
    (pow2(128) - pow2((128 - prefix) as nat)) as u128
}


proof fn lemma_one_shifted4(k: u32)
    requires
        k < 32,
    ensures
        (1u32 << k) == pow2(k as nat),
    decreases k,
{
    if k == 0 {
        assert(1u32 << 0u32 == 1) by (bit_vector);
        vstd::arithmetic::power2::lemma2_to64();
    } else {
        let j: u32 = (k - 1) as u32;
        lemma_one_shifted4(j);
        assert(0 < k < 32 && j == k - 1 ==> (1u32 << k) == 2 * (1u32 << j)) by (bit_vector);
        vstd::arithmetic::power2::lemma_pow2_unfold(k as nat);
    }
}

proof fn lemma_all_bits4()
    ensures
        pow2(32) == u32::MAX + 1,
{
    vstd::arithmetic::power2::lemma2_to64();
    vstd::arithmetic::power2::lemma2_to64_rest();
    vstd::arithmetic::power2::lemma_pow2_adds(16, 16);
}

proof fn lemma_mask4(prefix: u8, k: u32)
    requires
        0 < prefix <= 32,
        k == 32 - prefix,
    ensures
        (!0u32 << k) == mask_of4(prefix),
{
    let m = !0u32 << k;
    let one = 1u32 << k;
    lemma_one_shifted4(k);
    lemma_all_bits4();
    assert(k < 32 ==> (!0u32 << k) + (1u32 << k) - 1 == !0u32) by (bit_vector);
    assert(!0u32 == u32::MAX) by (bit_vector);
    assert(m + one - 1 == u32::MAX);
}

/// Two addresses agree in their first bits exactly where they agree under the mask.
pub proof fn lemma_same_subnet4(a: u32, b: u32, prefix: u8)
    requires
        prefix <= 32,
    ensures
        same_subnet4(a, b, prefix) <==> (a & mask_of4(prefix)) == (b & mask_of4(prefix)),
{
    lemma_all_bits4();
    if prefix == 0 {
        assert(mask_of4(prefix) == 0);
        assert(a & 0 == b & 0) by (bit_vector);
        assert(a as int / pow2(32) as int == 0) by (nonlinear_arith)
            requires
                0 <= a < pow2(32),
        ;
        assert(b as int / pow2(32) as int == 0) by (nonlinear_arith)
            requires
                0 <= b < pow2(32),
        ;
    } else {
        let k: u32 = (32 - prefix) as u32;
        lemma_mask4(prefix, k);
        vstd::bits::lemma_u32_shr_is_div(a, k);
        vstd::bits::lemma_u32_shr_is_div(b, k);
        assert(k < 32 ==> ((a & (!0u32 << k)) == (b & (!0u32 << k)) <==> a >> k == b >> k))
            by (bit_vector);
    }
}

/// The mask of a prefix.
pub fn mask4(prefix: u8) -> (r: u32)
    requires
        prefix <= 32,
    ensures
        r == mask_of4(prefix),
{
    if prefix == 0 {
        proof {
            lemma_all_bits4();
        }
        0
    } else {
        let k: u32 = 32 - prefix as u32;
        proof {
            lemma_mask4(prefix, k);
        }
        !0u32 << k
    }
}

/// The bytes of an address in network order.
pub fn to_be_bytes4(x: u32) -> (r: Vec<u8>)
    ensures
        r@ == be_bytes4(x),
{
    let mut r: Vec<u8> = Vec::new();
    let mut i: u32 = 0;
    while i < 4
        invariant
            i <= 4,
            r@ == be_bytes4(x).take(i as int),
        decreases 4 - i,
    {
        r.push((x >> (24 - 8 * i)) as u8);
        i = i + 1;
        assert(r@ =~= be_bytes4(x).take(i as int));
    }
    assert(be_bytes4(x).take(i as int) =~= be_bytes4(x));
    r
}

proof fn lemma_one_shifted6(k: u128)
    requires
        k < 128,
    ensures
        (1u128 << k) == pow2(k as nat),
    decreases k,
{
    if k == 0 {
        assert(1u128 << 0u128 == 1) by (bit_vector);
        vstd::arithmetic::power2::lemma2_to64();
    } else {
        let j: u128 = (k - 1) as u128;
        lemma_one_shifted6(j);
        assert(0 < k < 128 && j == k - 1 ==> (1u128 << k) == 2 * (1u128 << j)) by (bit_vector);
        vstd::arithmetic::power2::lemma_pow2_unfold(k as nat);
    }
}

proof fn lemma_all_bits6()
    ensures
        pow2(128) == u128::MAX + 1,
{
    vstd::arithmetic::power2::lemma2_to64();
    vstd::arithmetic::power2::lemma2_to64_rest();
    vstd::arithmetic::power2::lemma_pow2_adds(64, 64);
}

proof fn lemma_mask6(prefix: u8, k: u128)
    requires
        0 < prefix <= 128,
        k == 128 - prefix,
    ensures
        (!0u128 << k) == mask_of6(prefix),
{
    let m = !0u128 << k;
    let one = 1u128 << k;
    lemma_one_shifted6(k);
    lemma_all_bits6();
    assert(k < 128 ==> (!0u128 << k) + (1u128 << k) - 1 == !0u128) by (bit_vector);
    assert(!0u128 == u128::MAX) by (bit_vector);
    assert(m + one - 1 == u128::MAX);
}

proof fn lemma_masked6(x: u128, k: u128)
    requires
        k < 128,
    ensures
        x & (!0u128 << k) == (x >> k) << k,
        (x & (!0u128 << k)) >> k == x >> k,
{
    assert(k < 128 ==> x & (!0u128 << k) == (x >> k) << k) by (bit_vector);
    assert(k < 128 ==> (x & (!0u128 << k)) >> k == x >> k) by (bit_vector);
}

/// Two addresses agree in their first bits exactly where they agree under the mask.
pub proof fn lemma_same_subnet6(a: u128, b: u128, prefix: u8)
    requires
        prefix <= 128,
    ensures
        same_subnet6(a, b, prefix) <==> (a & mask_of6(prefix)) == (b & mask_of6(prefix)),
{
    lemma_all_bits6();
    if prefix == 0 {
        assert(mask_of6(prefix) == 0);
        assert(a & 0 == b & 0) by (bit_vector);
        assert(a as int / pow2(128) as int == 0) by (nonlinear_arith)
            requires
                0 <= a < pow2(128),
        ;
        assert(b as int / pow2(128) as int == 0) by (nonlinear_arith)
            requires
                0 <= b < pow2(128),
        ;
    } else {
        let k: u128 = (128 - prefix) as u128;
        lemma_mask6(prefix, k);
        vstd::bits::lemma_u128_shr_is_div(a, k);
        vstd::bits::lemma_u128_shr_is_div(b, k);
        lemma_masked6(a, k);
        lemma_masked6(b, k);
    }
}

/// The mask of a prefix.
pub fn mask6(prefix: u8) -> (r: u128)
    requires
        prefix <= 128,
    ensures
        r == mask_of6(prefix),
{
    if prefix == 0 {
        proof {
            lemma_all_bits6();
        }
        0
    } else {
        let k: u128 = 128 - prefix as u128;
        proof {
            lemma_mask6(prefix, k);
        }
        !0u128 << k
    }
}

/// The bytes of an address in network order.
pub fn to_be_bytes16(x: u128) -> (r: Vec<u8>)
    ensures
        r@ == be_bytes16(x),
{
    let mut r: Vec<u8> = Vec::new();
    let mut i: u128 = 0;
    while i < 16
        invariant
            i <= 16,
            r@ == be_bytes16(x).take(i as int),
        decreases 16 - i,
    {
        r.push((x >> (120 - 8 * i)) as u8);
        i = i + 1;
        assert(r@ =~= be_bytes16(x).take(i as int));
    }
    assert(be_bytes16(x).take(i as int) =~= be_bytes16(x));
    r
}

/// The order in which a machine keeps the bytes of a number.
#[derive(Clone, Copy, Debug, PartialEq, Eq, Structural)]
pub enum ByteOrder {
    /// The least significant byte first.
    Little,
    /// The most significant byte first.
    Big,
}

/// The bytes of a number as a machine keeps them.
pub open spec fn machine_bytes4(x: u32, order: ByteOrder) -> Seq<u8> {
    match order {
        ByteOrder::Little => le_bytes4(x),
        ByteOrder::Big => be_bytes4(x),
    }
}

/// The bytes of a number as a machine keeps them.
pub fn to_machine_bytes4(x: u32, order: ByteOrder) -> (r: Vec<u8>)
    ensures
        r@ == machine_bytes4(x, order),
{
    match order {
        ByteOrder::Little => to_le_bytes4(x),
        ByteOrder::Big => to_be_bytes4(x),
    }
}

/// The bytes of a number, the least significant first.
pub fn to_le_bytes4(x: u32) -> (r: Vec<u8>)
    ensures
        r@ == le_bytes4(x),
{
    let mut r: Vec<u8> = Vec::new();
    let mut i: u32 = 0;
    while i < 4
        invariant
            i <= 4,
            r@ == le_bytes4(x).take(i as int),
        decreases 4 - i,
    {
        r.push((x >> (8 * i)) as u8);
        i = i + 1;
        assert(r@ =~= le_bytes4(x).take(i as int));
    }
    assert(le_bytes4(x).take(i as int) =~= le_bytes4(x));
    r
}

/// A mask has exactly the first `prefix` bits set: bit `i`, counted from the most significant, is set
/// where `i` is less than `prefix`.
pub proof fn law_mask4(prefix: u8, i: u32)
    requires
        prefix <= 32,
        i < 32,
    ensures
        (mask_of4(prefix) >> ((31 - i) as u32)) & 1 == 1 <==> i < prefix,
{
    lemma_all_bits4();
    let j: u32 = (31 - i) as u32;
    if prefix == 0 {
        assert((0u32 >> j) & 1 == 0) by (bit_vector);
    } else {
        let k: u32 = (32 - prefix) as u32;
        lemma_mask4(prefix, k);
        assert(k < 32 && j < 32 ==> (((!0u32 << k) >> j) & 1 == 1 <==> j >= k)) by (bit_vector);
    }
}

/// A mask has exactly the first `prefix` bits set: bit `i`, counted from the most significant, is set
/// where `i` is less than `prefix`.
pub proof fn law_mask6(prefix: u8, i: u128)
    requires
        prefix <= 128,
        i < 128,
    ensures
        (mask_of6(prefix) >> ((127 - i) as u128)) & 1 == 1 <==> i < prefix,
{
    lemma_all_bits6();
    let j: u128 = (127 - i) as u128;
    if prefix == 0 {
        assert((0u128 >> j) & 1 == 0) by (bit_vector);
    } else {
        let k: u128 = (128 - prefix) as u128;
        lemma_mask6(prefix, k);
        assert(k < 128 && j < 128 ==> (((!0u128 << k) >> j) & 1 == 1 <==> j >= k)) by (bit_vector);
    }
}

/// The bytes of a number, the most significant first, come to that number again, and the other order is
/// the reverse of it.
pub proof fn law_bytes4(x: u32)
    ensures
        be_bytes4(x).len() == 4,
        x == ((be_bytes4(x)[0] as u32) << 24) | ((be_bytes4(x)[1] as u32) << 16) | ((be_bytes4(
            x,
        )[2] as u32) << 8) | (be_bytes4(x)[3] as u32),
        le_bytes4(x) == be_bytes4(x).reverse(),
        machine_bytes4(x, ByteOrder::Big) == be_bytes4(x),
        machine_bytes4(x, ByteOrder::Little) == be_bytes4(x).reverse(),
{
    assert(x == (((x >> 24u32) as u8 as u32) << 24) | (((x >> 16u32) as u8 as u32) << 16) | (((x
        >> 8u32) as u8 as u32) << 8) | ((x >> 0u32) as u8 as u32)) by (bit_vector);
    assert(le_bytes4(x) =~= be_bytes4(x).reverse());
}

/// The bytes of a number, the most significant first, come to that number again.
pub proof fn law_bytes16(x: u128)
    ensures
        be_bytes16(x).len() == 16,
        ({
            let b = be_bytes16(x);
            x == ((b[0] as u128) << 120) | ((b[1] as u128) << 112) | ((b[2] as u128) << 104) | ((
            b[3] as u128) << 96) | ((b[4] as u128) << 88) | ((b[5] as u128) << 80) | ((b[6] as u128)
                << 72) | ((b[7] as u128) << 64) | ((b[8] as u128) << 56) | ((b[9] as u128) << 48) | ((
            b[10] as u128) << 40) | ((b[11] as u128) << 32) | ((b[12] as u128) << 24) | ((
            b[13] as u128) << 16) | ((b[14] as u128) << 8) | (b[15] as u128)
        }),
{
    assert(x == (((x >> 120u128) as u8 as u128) << 120) | (((x >> 112u128) as u8 as u128) << 112) | (((
    x >> 104u128) as u8 as u128) << 104) | (((x >> 96u128) as u8 as u128) << 96) | (((x
        >> 88u128) as u8 as u128) << 88) | (((x >> 80u128) as u8 as u128) << 80) | (((x
        >> 72u128) as u8 as u128) << 72) | (((x >> 64u128) as u8 as u128) << 64) | (((x
        >> 56u128) as u8 as u128) << 56) | (((x >> 48u128) as u8 as u128) << 48) | (((x
        >> 40u128) as u8 as u128) << 40) | (((x >> 32u128) as u8 as u128) << 32) | (((x
        >> 24u128) as u8 as u128) << 24) | (((x >> 16u128) as u8 as u128) << 16) | (((x
        >> 8u128) as u8 as u128) << 8) | ((x >> 0u128) as u8 as u128)) by (bit_vector);
}

} // verus!
