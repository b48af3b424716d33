//! Big-endian byte encodings of the fixed-width integer fields that make up
//! the public data and the signing message.

use vstd::prelude::*;
use vstd::arithmetic::div_mod::lemma_div_denominator;

verus! {

/// 256 raised to `e`: the weight of a byte position.
pub open spec fn pow256(e: nat) -> nat
    decreases e,
{
    if e == 0 {
        1
    } else {
        256 * pow256((e - 1) as nat)
    }
}

/// The low `n` bytes of `x`, most significant first.
pub open spec fn be_bytes_n(x: nat, n: nat) -> Seq<u8>
    decreases n,
{
    if n == 0 {
        Seq::empty()
    } else {
        be_bytes_n(x / 256, (n - 1) as nat).push((x % 256) as u8)
    }
}

/// The unsigned big-endian value of a byte sequence.
pub open spec fn be_value(s: Seq<u8>) -> nat
    decreases s.len(),
{
    if s.len() == 0 {
        0
    } else {
        (be_value(s.drop_last()) * 256 + s.last()) as nat
    }
}

pub proof fn lemma_be_bytes_len(x: nat, n: nat)
    ensures
        be_bytes_n(x, n).len() == n,
    decreases n,
{
    if n > 0 {
        lemma_be_bytes_len(x / 256, (n - 1) as nat);
    }
}

/// Each byte of the encoding is the matching base-256 digit of `x`.
pub proof fn lemma_be_bytes_index(x: nat, n: nat, k: nat)
    requires
        k < n,
    ensures
        be_bytes_n(x, n).len() == n,
        be_bytes_n(x, n)[k as int] == ((x / pow256((n - 1 - k) as nat)) % 256) as u8,
    decreases n,
{
    lemma_be_bytes_len(x, n);
    lemma_be_bytes_len(x / 256, (n - 1) as nat);
    let inner = be_bytes_n(x / 256, (n - 1) as nat);
    assert(be_bytes_n(x, n) == inner.push((x % 256) as u8));
    if k == n - 1 {
        assert(be_bytes_n(x, n)[k as int] == (x % 256) as u8);
        assert(pow256((n - 1 - k) as nat) == 1);
        assert(x / 1 == x);
    } else {
        assert(be_bytes_n(x, n)[k as int] == inner[k as int]);
        lemma_be_bytes_index(x / 256, (n - 1) as nat, k);
        let m = (n - 2 - k) as nat;
        assert((n - 1 - k) as nat == m + 1);
        assert(pow256((m + 1) as nat) == 256 * pow256(m));
        lemma_pow256_pos(m);
        lemma_div_denominator(x as int, 256, pow256(m) as int);
        assert((x / 256) / pow256(m) == x / (256 * pow256(m)));
        assert(x / (256 * pow256(m)) == x / pow256((n - 1 - k) as nat));
    }
}

pub proof fn lemma_pow256_pos(e: nat)
    ensures
        pow256(e) >= 1,
    decreases e,
{
    if e > 0 {
        lemma_pow256_pos((e - 1) as nat);
    }
}

/// A value below `256^n` is reproduced exactly by decoding its `n`-byte
/// encoding.
pub proof fn lemma_be_roundtrip(x: nat, n: nat)
    requires
        x < pow256(n),
    ensures
        be_value(be_bytes_n(x, n)) == x,
    decreases n,
{
    lemma_be_bytes_len(x, n);
    if n == 0 {
        assert(be_bytes_n(x, n) =~= Seq::<u8>::empty());
    } else {
        let inner = be_bytes_n(x / 256, (n - 1) as nat);
        lemma_be_bytes_len(x / 256, (n - 1) as nat);
        assert(be_bytes_n(x, n).drop_last() =~= inner);
        assert(x / 256 < pow256((n - 1) as nat)) by {
            lemma_pow256_pos((n - 1) as nat);
            assert(pow256(n) == 256 * pow256((n - 1) as nat));
        }
        lemma_be_roundtrip(x / 256, (n - 1) as nat);
    }
}

/// The decoded value of `n` bytes is below `256^n`.
pub proof fn lemma_be_value_bound(s: Seq<u8>)
    ensures
        be_value(s) < pow256(s.len()),
    decreases s.len(),
{
    if s.len() > 0 {
        lemma_be_value_bound(s.drop_last());
    }
}

/// 256 raised to `e`, as a machine integer.
pub fn pow256_u128(e: u32) -> (r: u128)
    requires
        e <= 15,
    ensures
        r == pow256(e as nat),
{
    let mut r: u128 = 1;
    let mut i: u32 = 0;
    while i < e
        invariant
            i <= e,
            e <= 15,
            r == pow256(i as nat),
        decreases e - i,
    {
        proof {
            lemma_pow256_le((i + 1) as nat, 15);
            assert(pow256(15) == 0x1000000000000000000000000000000) by {
                reveal_with_fuel(pow256, 16);
            }
        }
        r = r * 256;
        i = i + 1;
    }
    r
}

pub proof fn lemma_pow256_le(a: nat, b: nat)
    requires
        a <= b,
    ensures
        pow256(a) <= pow256(b),
    decreases b,
{
    if a < b && b > 0 {
        lemma_pow256_le(a, (b - 1) as nat);
        lemma_pow256_pos((b - 1) as nat);
    }
}

/// The low `n` bytes of `x`, most significant first, `n` at most 16.
pub fn u128_to_be_bytes(x: u128, n: usize) -> (r: Vec<u8>)
    requires
        n <= 16,
    ensures
        r@ == be_bytes_n(x as nat, n as nat),
{
    let mut out: Vec<u8> = Vec::new();
    let mut i: usize = 0;
    while i < n
        invariant
            i <= n,
            n <= 16,
            out@.len() == i,
            forall|k: int|
                0 <= k < i ==> out@[k] == ((x as nat / pow256((n - 1 - k) as nat)) % 256) as u8,
        decreases n - i,
    {
        let p = pow256_u128((n - 1 - i) as u32);
        proof {
            lemma_pow256_pos((n - 1 - i) as nat);
        }
        out.push(((x / p) % 256) as u8);
        i = i + 1;
    }
    proof {
        lemma_be_bytes_len(x as nat, n as nat);
        assert forall|k: int| 0 <= k < n implies out@[k] == be_bytes_n(x as nat, n as nat)[k] by {
            lemma_be_bytes_index(x as nat, n as nat, k as nat);
        }
        assert(out@ =~= be_bytes_n(x as nat, n as nat));
    }
    out
}

/// The four big-endian bytes of a 32-bit value.
pub fn u32_to_be_bytes(x: u32) -> (r: Vec<u8>)
    ensures
        r@ == be_bytes_n(x as nat, 4),
        r@.len() == 4,
{
    let r = u128_to_be_bytes(x as u128, 4);
    proof {
        lemma_be_bytes_len(x as nat, 4);
    }
    r
}

/// The big-endian value of a slice of at most 16 bytes.
pub fn u128_from_be_slice(s: &[u8]) -> (r: u128)
    requires
        s@.len() <= 16,
    ensures
        r == be_value(s@),
{
    proof {
        assert(pow256(16) == 0x1_0000_0000_0000_0000_0000_0000_0000_0000) by {
            reveal_with_fuel(pow256, 17);
        }
    }
    let n = s.len();
    let mut acc: u128 = 0;
    let mut i: usize = 0;
    while i < n
        invariant
            i <= n,
            n == s@.len(),
            n <= 16,
            acc == be_value(s@.subrange(0, i as int)),
            pow256(16) == 0x1_0000_0000_0000_0000_0000_0000_0000_0000,
        decreases n - i,
    {
        proof {
            let pre = s@.subrange(0, i as int);
            let post = s@.subrange(0, i + 1 as int);
            assert(post.drop_last() =~= pre);
            assert(post.last() == s@[i as int]);
            lemma_be_value_bound(post);
            lemma_pow256_le(post.len() as nat, 16);
        }
        acc = acc * 256 + (*vstd::slice::slice_index_get(s, i) as u128);
        i = i + 1;
    }
    proof {
        assert(s@.subrange(0, n as int) =~= s@);
    }
    acc
}

/// Read a 32-bit value from a slice. Returns `None` exactly when the slice
/// is not four bytes long.
pub fn u32_from_be_slice(s: &[u8]) -> (r: Option<u32>)
    ensures
        s@.len() == 4 ==> r == Some(be_value(s@) as u32) && be_value(s@) < 0x1_0000_0000,
        s@.len() != 4 ==> r is None,
{
    if s.len() != 4 {
        return None;
    }
    let b0 = *vstd::slice::slice_index_get(s, 0);
    let b1 = *vstd::slice::slice_index_get(s, 1);
    let b2 = *vstd::slice::slice_index_get(s, 2);
    let b3 = *vstd::slice::slice_index_get(s, 3);
    let v: u32 = (b0 as u32) * 0x100_0000 + (b1 as u32) * 0x1_0000 + (b2 as u32) * 0x100 + (
    b3 as u32);
    proof {
        lemma_be_value_unfold4(s@);
        lemma_be_value_bound(s@);
        assert(pow256(4) == 0x1_0000_0000) by {
            reveal_with_fuel(pow256, 5);
        }
    }
    Some(v)
}

/// 2 raised to `e`: the weight of a bit position.
pub open spec fn pow2v(e: nat) -> nat
    decreases e,
{
    if e == 0 {
        1
    } else {
        2 * pow2v((e - 1) as nat)
    }
}

pub proof fn lemma_pow2v_pos(e: nat)
    ensures
        pow2v(e) >= 1,
    decreases e,
{
    if e > 0 {
        lemma_pow2v_pos((e - 1) as nat);
    }
}

pub proof fn lemma_pow2v_le(a: nat, b: nat)
    requires
        a <= b,
    ensures
        pow2v(a) <= pow2v(b),
    decreases b,
{
    if a < b && b > 0 {
        lemma_pow2v_le(a, (b - 1) as nat);
        lemma_pow2v_pos((b - 1) as nat);
    }
}

/// The low `w` bits of `x`, most significant first.
pub open spec fn be_bits(x: nat, w: nat) -> Seq<bool>
    decreases w,
{
    if w == 0 {
        Seq::empty()
    } else {
        be_bits(x / 2, (w - 1) as nat).push(x % 2 == 1)
    }
}

pub proof fn lemma_be_bits_len(x: nat, w: nat)
    ensures
        be_bits(x, w).len() == w,
    decreases w,
{
    if w > 0 {
        lemma_be_bits_len(x / 2, (w - 1) as nat);
    }
}

/// Each bit of the encoding is the matching base-2 digit of `x`.
pub proof fn lemma_be_bits_index(x: nat, w: nat, k: nat)
    requires
        k < w,
    ensures
        be_bits(x, w).len() == w,
        be_bits(x, w)[k as int] == ((x / pow2v((w - 1 - k) as nat)) % 2 == 1),
    decreases w,
{
    lemma_be_bits_len(x, w);
    lemma_be_bits_len(x / 2, (w - 1) as nat);
    let inner = be_bits(x / 2, (w - 1) as nat);
    assert(be_bits(x, w) == inner.push(x % 2 == 1));
    if k == w - 1 {
        assert(be_bits(x, w)[k as int] == (x % 2 == 1));
        assert(pow2v((w - 1 - k) as nat) == 1);
        assert(x / 1 == x);
    } else {
        assert(be_bits(x, w)[k as int] == inner[k as int]);
        lemma_be_bits_index(x / 2, (w - 1) as nat, k);
        let m = (w - 2 - k) as nat;
        assert((w - 1 - k) as nat == m + 1);
        assert(pow2v((m + 1) as nat) == 2 * pow2v(m));
        lemma_pow2v_pos(m);
        lemma_div_denominator(x as int, 2, pow2v(m) as int);
        assert((x / 2) / pow2v(m) == x / (2 * pow2v(m)));
        assert(x / (2 * pow2v(m)) == x / pow2v((w - 1 - k) as nat));
    }
}

/// 2 raised to `e`, as a machine integer.
pub fn pow2v_u64(e: u32) -> (r: u64)
    requires
        e <= 32,
    ensures
        r == pow2v(e as nat),
{
    proof {
        assert(pow2v(32) == 0x1_0000_0000) by {
            reveal_with_fuel(pow2v, 33);
        }
    }
    let mut r: u64 = 1;
    let mut i: u32 = 0;
    while i < e
        invariant
            i <= e,
            e <= 32,
            r == pow2v(i as nat),
            pow2v(32) == 0x1_0000_0000,
        decreases e - i,
    {
        proof {
            lemma_pow2v_le((i + 1) as nat, 32);
        }
        r = r * 2;
        i = i + 1;
    }
    r
}

/// The low `w` bits of a 32-bit value, most significant first.
pub fn u32_to_be_bits(x: u32, w: usize) -> (r: Vec<bool>)
    requires
        w <= 32,
    ensures
        r@ == be_bits(x as nat, w as nat),
{
    let mut out: Vec<bool> = Vec::new();
    let mut i: usize = 0;
    while i < w
        invariant
            i <= w,
            w <= 32,
            out@.len() == i,
            forall|k: int|
                0 <= k < i ==> out@[k] == ((x as nat / pow2v((w - 1 - k) as nat)) % 2 == 1),
        decreases w - i,
    {
        let p = pow2v_u64((w - 1 - i) as u32);
        proof {
            lemma_pow2v_pos((w - 1 - i) as nat);
        }
        out.push(((x as u64) / p) % 2 == 1);
        i = i + 1;
    }
    proof {
        lemma_be_bits_len(x as nat, w as nat);
        assert forall|k: int| 0 <= k < w implies out@[k] == be_bits(x as nat, w as nat)[k] by {
            lemma_be_bits_index(x as nat, w as nat, k as nat);
        }
        assert(out@ =~= be_bits(x as nat, w as nat));
    }
    out
}

/// The bits of a byte sequence, each byte most significant bit first.
pub open spec fn bytes_to_bits(s: Seq<u8>) -> Seq<bool>
    decreases s.len(),
{
    if s.len() == 0 {
        Seq::empty()
    } else {
        be_bits(s[0] as nat, 8) + bytes_to_bits(s.skip(1))
    }
}

/// Appending a byte appends its eight bits.
pub proof fn lemma_bytes_to_bits_push(s: Seq<u8>, b: u8)
    ensures
        bytes_to_bits(s.push(b)) == bytes_to_bits(s) + be_bits(b as nat, 8),
    decreases s.len(),
{
    lemma_be_bits_len(b as nat, 8);
    if s.len() == 0 {
        assert(s.push(b)[0] == b);
        assert(s.push(b).skip(1) =~= Seq::<u8>::empty());
        assert(bytes_to_bits(s.push(b)) == be_bits(b as nat, 8) + bytes_to_bits(
            Seq::<u8>::empty(),
        ));
        assert(be_bits(b as nat, 8) + bytes_to_bits(Seq::<u8>::empty()) =~= be_bits(b as nat, 8));
        assert(s =~= Seq::<u8>::empty());
        assert(bytes_to_bits(s) + be_bits(b as nat, 8) =~= be_bits(b as nat, 8));
    } else {
        assert(s.push(b)[0] == s[0]);
        assert(s.push(b).skip(1) =~= s.skip(1).push(b));
        lemma_bytes_to_bits_push(s.skip(1), b);
        assert(bytes_to_bits(s.push(b)) == be_bits(s[0] as nat, 8) + bytes_to_bits(
            s.skip(1).push(b),
        ));
        assert(bytes_to_bits(s.push(b)) == be_bits(s[0] as nat, 8) + (bytes_to_bits(s.skip(1))
            + be_bits(b as nat, 8)));
        assert(bytes_to_bits(s) == be_bits(s[0] as nat, 8) + bytes_to_bits(s.skip(1)));
        assert(bytes_to_bits(s.push(b)) =~= bytes_to_bits(s) + be_bits(b as nat, 8));
    }
}

/// The bits of a concatenation are the concatenated bits.
pub proof fn lemma_bytes_to_bits_concat(a: Seq<u8>, b: Seq<u8>)
    ensures
        bytes_to_bits(a + b) == bytes_to_bits(a) + bytes_to_bits(b),
    decreases a.len(),
{
    if a.len() == 0 {
        assert(a + b =~= b);
        assert(bytes_to_bits(a) =~= Seq::<bool>::empty());
        assert(bytes_to_bits(a) + bytes_to_bits(b) =~= bytes_to_bits(b));
    } else {
        assert((a + b)[0] == a[0]);
        assert((a + b).skip(1) =~= a.skip(1) + b);
        lemma_bytes_to_bits_concat(a.skip(1), b);
        assert(bytes_to_bits(a + b) =~= bytes_to_bits(a) + bytes_to_bits(b));
    }
}

/// The bit string of a value splits at any point into the bits of its high
/// part and the bits of its low part.
pub proof fn lemma_be_bits_split(x: nat, w: nat, m: nat)
    requires
        m <= w,
    ensures
        be_bits(x, w) == be_bits(x / pow2v(m), (w - m) as nat) + be_bits(x % pow2v(m), m),
    decreases m,
{
    if m == 0 {
        assert(pow2v(0) == 1);
        assert(x / 1 == x && x % 1 == 0);
        assert(be_bits(x % pow2v(0), 0) =~= Seq::<bool>::empty());
        assert(be_bits(x / pow2v(m), (w - m) as nat) + be_bits(x % pow2v(m), m) =~= be_bits(x, w));
    } else {
        let m1 = (m - 1) as nat;
        lemma_pow2v_pos(m1);
        lemma_be_bits_split(x / 2, (w - 1) as nat, m1);
        assert(pow2v(m) == 2 * pow2v(m1));
        lemma_div_denominator(x as int, 2, pow2v(m1) as int);
        assert((x / 2) / pow2v(m1) == x / (2 * pow2v(m1)));
        vstd::arithmetic::div_mod::lemma_mod_breakdown(x as int, 2, pow2v(m1) as int);
        assert(x % (2 * pow2v(m1)) == 2 * ((x / 2) % pow2v(m1)) + x % 2);
        vstd::arithmetic::div_mod::lemma_fundamental_div_mod_converse(
            (x % pow2v(m)) as int,
            2,
            ((x / 2) % pow2v(m1)) as int,
            (x % 2) as int,
        );
        assert((x % pow2v(m)) / 2 == (x / 2) % pow2v(m1));
        assert((x % pow2v(m)) % 2 == x % 2);
        assert(be_bits(x % pow2v(m), m) == be_bits((x / 2) % pow2v(m1), m1).push(x % 2 == 1));
        assert(be_bits(x, w) == be_bits(x / 2, (w - 1) as nat).push(x % 2 == 1));
        assert(be_bits(x / 2, (w - 1) as nat) == be_bits(x / pow2v(m), (w - m) as nat) + be_bits(
            (x / 2) % pow2v(m1),
            m1,
        ));
        assert(be_bits(x, w) =~= be_bits(x / pow2v(m), (w - m) as nat) + be_bits(
            x % pow2v(m),
            m,
        ));
    }
}

/// The bits of a value's byte encoding are its bit encoding.
pub proof fn lemma_bytes_bits_agree(x: nat, k: nat)
    ensures
        bytes_to_bits(be_bytes_n(x, k)) == be_bits(x, 8 * k),
    decreases k,
{
    if k == 0 {
        assert(bytes_to_bits(be_bytes_n(x, 0)) =~= be_bits(x, 0));
    } else {
        let k1 = (k - 1) as nat;
        assert(be_bytes_n(x, k) == be_bytes_n(x / 256, k1).push((x % 256) as u8));
        lemma_bytes_to_bits_push(be_bytes_n(x / 256, k1), (x % 256) as u8);
        lemma_bytes_bits_agree(x / 256, k1);
        lemma_be_bits_split(x, 8 * k, 8);
        assert(pow2v(8) == 256) by {
            reveal_with_fuel(pow2v, 9);
        }
        assert(8 * k - 8 == 8 * k1);
        assert(bytes_to_bits(be_bytes_n(x, k)) =~= be_bits(x, 8 * k));
    }
}

/// Zero encodes to zero bits at every width.
pub proof fn lemma_be_bits_zero(w: nat)
    ensures
        be_bits(0, w).len() == w,
        forall|k: int| 0 <= k < w ==> be_bits(0, w)[k] == false,
    decreases w,
{
    lemma_be_bits_len(0, w);
    if w > 0 {
        lemma_be_bits_zero((w - 1) as nat);
        assert(be_bits(0, w) == be_bits(0, (w - 1) as nat).push(false));
    }
}

/// The little-endian value of a bit sequence: bit `i` weighs `2^i`.
pub open spec fn le_bits_value(s: Seq<bool>) -> nat
    decreases s.len(),
{
    if s.len() == 0 {
        0
    } else {
        ((if s[0] {
            1nat
        } else {
            0nat
        }) + 2 * le_bits_value(s.skip(1))) as nat
    }
}

/// The value of `w` bits is below `2^w`.
pub proof fn lemma_le_bits_value_bound(s: Seq<bool>)
    ensures
        le_bits_value(s) < pow2v(s.len()),
    decreases s.len(),
{
    if s.len() > 0 {
        lemma_le_bits_value_bound(s.skip(1));
    }
}

/// The little-endian value of `bits[start .. start + width]`.
pub fn le_bits_to_u128(bits: &Vec<bool>, start: usize, width: usize) -> (r: u128)
    requires
        start + width <= bits@.len(),
        width <= 72,
    ensures
        r == le_bits_value(bits@.subrange(start as int, (start + width) as int)),
{
    proof {
        assert(pow2v(72) == 0x1000000000000000000) by {
            reveal_with_fuel(pow2v, 73);
        }
    }
    let n = bits.len();
    let ghost end = (start + width) as int;
    let mut acc: u128 = 0;
    let mut i: usize = width;
    while i > 0
        invariant
            i <= width,
            width <= 72,
            start + width <= n,
            n == bits@.len(),
            acc == le_bits_value(bits@.subrange((start + i) as int, end)),
            acc < pow2v((width - i) as nat),
            end == start + width,
            pow2v(72) == 0x1000000000000000000,
        decreases i,
    {
        i = i - 1;
        let b = bits[start + i];
        proof {
            let tail = bits@.subrange((start + i + 1) as int, end);
            let whole = bits@.subrange((start + i) as int, end);
            assert(whole[0] == bits@[(start + i) as int]);
            assert(whole.skip(1) =~= tail);
            lemma_le_bits_value_bound(whole);
            lemma_pow2v_le(whole.len() as nat, 72);
        }
        acc = acc * 2 + (if b {
            1
        } else {
            0
        });
    }
    acc
}

/// Spelled-out decoding of four bytes.
proof fn lemma_be_value_unfold4(s: Seq<u8>)
    requires
        s.len() == 4,
    ensures
        be_value(s) == s[0] * 0x100_0000 + s[1] * 0x1_0000 + s[2] * 0x100 + s[3],
{
    let d1 = s.drop_last();
    let d2 = d1.drop_last();
    let d3 = d2.drop_last();
    assert(d3.drop_last() =~= Seq::<u8>::empty());
    assert(d3.len() == 1 && d3.last() == s[0]);
    assert(d2.len() == 2 && d2.last() == s[1]);
    assert(d1.len() == 3 && d1.last() == s[2]);
    assert(be_value(d3) == be_value(d3.drop_last()) * 256 + d3.last());
    assert(be_value(d3) == s[0]);
    assert(be_value(d2) == be_value(d3) * 256 + s[1]);
    assert(be_value(d1) == be_value(d2) * 256 + s[2]);
    assert(be_value(s) == be_value(d1) * 256 + s[3]);
}

} // verus!
