//! Lossy base-10 floating-point packing of fee amounts.
//!
//! A fee is stored in the public data as a 5-bit exponent followed by an
//! 11-bit mantissa, two bytes in all: the packed value `mantissa * 10^exponent`
//! may differ from the exact fee by rounding down, but packing is
//! idempotent — packing an already-packed value loses nothing.

use vstd::prelude::*;

verus! {

/// Largest mantissa the 11-bit field can hold.
pub const MAX_FEE_MANTISSA: u128 = 2047;

/// Largest exponent the 5-bit field can hold.
pub const MAX_FEE_EXPONENT: u32 = 31;

/// 10 raised to `e`.
pub open spec fn pow10(e: nat) -> nat
    decreases e,
{
    if e == 0 {
        1
    } else {
        10 * pow10((e - 1) as nat)
    }
}

/// Exponent chosen by the packer: the number of times the fee must be
/// divided by 10 (rounding down) before it fits the mantissa field.
pub open spec fn fee_exponent(fee: nat) -> nat
    decreases fee,
{
    if fee <= MAX_FEE_MANTISSA {
        0
    } else {
        1 + fee_exponent(fee / 10)
    }
}

/// Mantissa chosen by the packer: the fee after `fee_exponent(fee)`
/// divisions by 10.
pub open spec fn fee_mantissa(fee: nat) -> nat
    decreases fee,
{
    if fee <= MAX_FEE_MANTISSA {
        fee
    } else {
        fee_mantissa(fee / 10)
    }
}

/// The value the packed form stands for: what unpacking gives back.
pub open spec fn repacked_fee(fee: nat) -> nat {
    fee_mantissa(fee) * pow10(fee_exponent(fee))
}

/// A fee fits the packed form exactly when its exponent fits 5 bits.
pub open spec fn fee_packable(fee: nat) -> bool {
    fee_exponent(fee) <= MAX_FEE_EXPONENT
}

/// The packed form as one 16-bit value: exponent in the high 5 bits,
/// mantissa in the low 11.
pub open spec fn fee_packed_u16(fee: nat) -> nat {
    fee_exponent(fee) * 2048 + fee_mantissa(fee)
}

/// The two public-data bytes of the packed fee, big-endian.
pub open spec fn fee_packed_bytes(fee: nat) -> Seq<u8> {
    seq![(fee_packed_u16(fee) / 256) as u8, (fee_packed_u16(fee) % 256) as u8]
}

/// The value read back from two packed-fee bytes.
pub open spec fn fee_unpacked_from_bytes(b: Seq<u8>) -> nat {
    ((((b[0] * 256 + b[1]) % 2048) as nat) * pow10(((b[0] * 256 + b[1]) / 2048) as nat)) as nat
}

/// The mantissa never exceeds its field.
pub proof fn lemma_fee_mantissa_bound(fee: nat)
    ensures
        fee_mantissa(fee) <= MAX_FEE_MANTISSA,
    decreases fee,
{
    if fee > MAX_FEE_MANTISSA {
        lemma_fee_mantissa_bound(fee / 10);
    }
}

/// 10^e grows with e.
pub proof fn lemma_pow10_le(a: nat, b: nat)
    requires
        a <= b,
    ensures
        pow10(a) <= pow10(b),
    decreases b,
{
    if a < b && b > 0 {
        lemma_pow10_le(a, (b - 1) as nat);
        assert(pow10(b) == 10 * pow10((b - 1) as nat));
    }
}

/// Concrete value of the largest power the exponent field can call for.
pub proof fn lemma_pow10_31()
    ensures
        pow10(31) == 10_000_000_000_000_000_000_000_000_000_000,
{
    assert(pow10(31) == 10_000_000_000_000_000_000_000_000_000_000) by {
        reveal_with_fuel(pow10, 32);
    }
}

/// A value of the shape `m * 10^e` with a mantissa-sized `m` re-packs to
/// itself, with an exponent no larger than `e`.
pub proof fn lemma_repack_fixpoint(m: nat, e: nat)
    requires
        m <= MAX_FEE_MANTISSA,
    ensures
        fee_exponent(m * pow10(e)) <= e,
        repacked_fee(m * pow10(e)) == m * pow10(e),
    decreases e,
{
    let v = m * pow10(e);
    if v <= MAX_FEE_MANTISSA {
        assert(fee_exponent(v) == 0);
        assert(repacked_fee(v) == v * 1);
    } else {
        if e == 0 {
            assert(pow10(e) == 1);
            assert(v == m) by (nonlinear_arith)
                requires v == m * pow10(e), pow10(e) == 1;
            assert(false);
        }
        let e1 = (e - 1) as nat;
        assert(pow10(e) == 10 * pow10(e1));
        assert(v == (m * pow10(e1)) * 10) by (nonlinear_arith)
            requires pow10(e) == 10 * pow10(e1), v == m * pow10(e);
        assert(v / 10 == m * pow10(e1)) by (nonlinear_arith)
            requires v == (m * pow10(e1)) * 10;
        lemma_repack_fixpoint(m, e1);
        assert(fee_exponent(v) == 1 + fee_exponent(v / 10));
        assert(fee_mantissa(v) == fee_mantissa(v / 10));
        assert(pow10(fee_exponent(v)) == 10 * pow10(fee_exponent(v / 10)));
        assert(fee_mantissa(v) * pow10(fee_exponent(v))
            == (fee_mantissa(v / 10) * pow10(fee_exponent(v / 10))) * 10) by (nonlinear_arith)
            requires
                fee_mantissa(v) == fee_mantissa(v / 10),
                pow10(fee_exponent(v)) == 10 * pow10(fee_exponent(v / 10));
    }
}

/// Law: the lossy fee packing is idempotent. Packing the value read back
/// from a packed fee changes nothing: `unpack(pack(unpack(pack(f))))` equals
/// `unpack(pack(f))`, and the read-back value is itself packable.
pub proof fn lemma_fee_packing_idempotent(fee: nat)
    requires
        fee_packable(fee),
    ensures
        fee_packable(repacked_fee(fee)),
        repacked_fee(repacked_fee(fee)) == repacked_fee(fee),
{
    lemma_fee_mantissa_bound(fee);
    lemma_repack_fixpoint(fee_mantissa(fee), fee_exponent(fee));
}

/// Reading the two packed bytes back yields exactly the packed value.
pub proof fn lemma_fee_bytes_roundtrip(fee: nat)
    requires
        fee_packable(fee),
    ensures
        fee_unpacked_from_bytes(fee_packed_bytes(fee)) == repacked_fee(fee),
{
    lemma_fee_mantissa_bound(fee);
    let e = fee_exponent(fee);
    let m = fee_mantissa(fee);
    let p = fee_packed_u16(fee);
    assert(p == e * 2048 + m);
    assert(p < 65536);
    let b = fee_packed_bytes(fee);
    assert(b[0] == (p / 256) as u8 && b[1] == (p % 256) as u8);
    assert(p / 256 < 256);
    assert(b[0] * 256 + b[1] == p) by {
        vstd::arithmetic::div_mod::lemma_fundamental_div_mod(p as int, 256);
    }
    assert(p / 2048 == e && p % 2048 == m) by {
        vstd::arithmetic::div_mod::lemma_fundamental_div_mod_converse(
            p as int,
            2048,
            e as int,
            m as int,
        );
    }
}

/// A fee small enough for the mantissa field alone survives packing exactly.
pub proof fn lemma_small_fee_exact(fee: nat)
    requires
        fee <= MAX_FEE_MANTISSA,
    ensures
        fee_packable(fee),
        repacked_fee(fee) == fee,
{
    assert(repacked_fee(fee) == fee * 1);
}

/// 10 raised to `e`, as a machine integer.
pub fn pow10_u128(e: u32) -> (r: u128)
    requires
        e <= MAX_FEE_EXPONENT,
    ensures
        r == pow10(e as nat),
{
    let mut r: u128 = 1;
    let mut i: u32 = 0;
    while i < e
        invariant
            i <= e,
            e <= MAX_FEE_EXPONENT,
            r == pow10(i as nat),
        decreases e - i,
    {
        proof {
            lemma_pow10_le((i + 1) as nat, 31);
            lemma_pow10_31();
        }
        r = r * 10;
        i = i + 1;
    }
    r
}

/// The packed fee as one 16-bit value: the exponent in the high 5 bits, the
/// mantissa in the low 11. This value is also what the circuit receives as
/// the fee field element.
pub fn fee_packed_value(fee: u128) -> (r: u16)
    requires
        fee_packable(fee as nat),
    ensures
        r == fee_packed_u16(fee as nat),
{
    let mut mantissa: u128 = fee;
    let mut exponent: u32 = 0;
    while mantissa > MAX_FEE_MANTISSA
        invariant
            fee_exponent(fee as nat) == exponent + fee_exponent(mantissa as nat),
            fee_mantissa(fee as nat) == fee_mantissa(mantissa as nat),
            fee_packable(fee as nat),
        decreases mantissa,
    {
        mantissa = mantissa / 10;
        exponent = exponent + 1;
    }
    (exponent * 2048 + (mantissa as u32)) as u16
}

/// Pack a fee into its two public-data bytes: 5 bits of exponent, then 11
/// of mantissa, big-endian.
pub fn pack_fee_amount(fee: u128) -> (r: Vec<u8>)
    requires
        fee_packable(fee as nat),
    ensures
        r@ == fee_packed_bytes(fee as nat),
        r@.len() == 2,
{
    let packed = fee_packed_value(fee) as u32;
    let mut out: Vec<u8> = Vec::new();
    out.push((packed / 256) as u8);
    out.push((packed % 256) as u8);
    proof {
        assert(out@ =~= fee_packed_bytes(fee as nat));
    }
    out
}

/// Read a fee back from its two packed bytes. Returns `None` exactly when
/// the slice is not two bytes long; two bytes always decode, since the
/// largest encodable value fits a 128-bit integer.
pub fn unpack_fee_amount(data: &[u8]) -> (r: Option<u128>)
    ensures
        data@.len() == 2 ==> (r matches Some(f) && f == fee_unpacked_from_bytes(data@)),
        data@.len() != 2 ==> r is None,
{
    if data.len() != 2 {
        return None;
    }
    let hi = data[0] as u32;
    let lo = data[1] as u32;
    let packed: u32 = hi * 256 + lo;
    let exponent: u32 = packed / 2048;
    let mantissa: u128 = (packed % 2048) as u128;
    let mult = pow10_u128(exponent);
    proof {
        lemma_pow10_le(exponent as nat, 31);
        lemma_pow10_31();
        assert(mantissa * mult <= 2047 * pow10(31)) by (nonlinear_arith)
            requires
                mantissa <= 2047,
                mult <= pow10(31),
                0 <= mantissa,
                0 <= mult;
    }
    Some(mantissa * mult)
}

} // verus!
