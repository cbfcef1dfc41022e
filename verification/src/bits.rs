//! The mathematical model of a bit buffer.
//!
//! A buffer is a `Seq<u8>`; bit `pos` of the buffer is bit `pos % 8` of byte
//! `pos / 8`, with bit 0 of a byte its least-significant bit. The accessor
//! engine's contracts are stated over [`spec_read_bits`] and
//! [`spec_write_bits`], and the laws of the engine (round trip,
//! non-interference, idempotence) are proved here once and for all.

use vstd::prelude::*;

verus! {

use vstd::arithmetic::power2::pow2;

/// True when bit `i` of the natural number `v` is set.
pub open spec fn nth_bit(v: nat, i: nat) -> bool {
    v / pow2(i) % 2 == 1
}

/// True when bit `pos` of the buffer is set.
pub open spec fn bit_of(buf: Seq<u8>, pos: nat) -> bool {
    nth_bit(buf[(pos / 8) as int] as nat, pos % 8)
}

/// The byte equal to `b` except that bit `k` is `v`.
pub open spec fn spec_update_byte(b: u8, k: nat, v: bool) -> u8 {
    if v {
        b | (1u8 << (k as u8))
    } else {
        b & !(1u8 << (k as u8))
    }
}

/// The buffer equal to `buf` except that bit `pos` is `v`.
pub open spec fn spec_set_bit(buf: Seq<u8>, pos: nat, v: bool) -> Seq<u8> {
    buf.update((pos / 8) as int, spec_update_byte(buf[(pos / 8) as int], pos % 8, v))
}

/// The value of the `width` bits starting at bit `offset` of the buffer,
/// least-significant first.
pub open spec fn spec_read_bits(buf: Seq<u8>, offset: nat, width: nat) -> nat
    decreases width,
{
    if width == 0 {
        0
    } else {
        (if bit_of(buf, offset) {
            1nat
        } else {
            0nat
        }) + 2 * spec_read_bits(buf, offset + 1, (width - 1) as nat)
    }
}

/// The buffer equal to `buf` except that the `width` bits starting at bit
/// `offset` hold the low `width` bits of `value`.
pub open spec fn spec_write_bits(buf: Seq<u8>, offset: nat, width: nat, value: nat) -> Seq<u8>
    decreases width,
{
    if width == 0 {
        buf
    } else {
        spec_write_bits(spec_set_bit(buf, offset, value % 2 == 1), offset + 1, (width - 1) as nat,
            value / 2)
    }
}

/// Bit `k` of a byte, read arithmetically, agrees with the shift-and-mask
/// test that the executable engine performs.
proof fn lemma_u8_nth_bit(b: u8, k: u8)
    requires
        k < 8,
    ensures
        nth_bit(b as nat, k as nat) == ((b >> k) & 1 == 1),
{
    vstd::bits::lemma_u8_shr_is_div(b, k);
    let s = b >> k;
    assert((s & 1 == 1) == (s % 2 == 1)) by (bit_vector);
}

/// Setting or clearing bit `k` of a byte changes that bit alone.
proof fn lemma_update_byte(b: u8, k: u8, v: bool, j: u8)
    requires
        k < 8,
        j < 8,
    ensures
        nth_bit(spec_update_byte(b, k as nat, v) as nat, j as nat) == (if j == k {
            v
        } else {
            nth_bit(b as nat, j as nat)
        }),
{
    lemma_u8_nth_bit(b, j);
    lemma_u8_nth_bit(spec_update_byte(b, k as nat, v), j);
    if v {
        assert((((b | (1u8 << k)) >> j) & 1 == 1) == (if j == k {
            true
        } else {
            (b >> j) & 1 == 1
        })) by (bit_vector)
            requires
                k < 8 && j < 8,
        ;
    } else {
        assert((((b & !(1u8 << k)) >> j) & 1 == 1) == (if j == k {
            false
        } else {
            (b >> j) & 1 == 1
        })) by (bit_vector)
            requires
                k < 8 && j < 8,
        ;
    }
}

/// A byte's masked bit test agrees with the arithmetic reading of that bit.
pub(crate) proof fn lemma_u8_bit_test(b: u8, k: u8)
    requires
        k < 8,
    ensures
        (b & (1u8 << k) == 1u8 << k) == nth_bit(b as nat, k as nat),
{
    lemma_u8_nth_bit(b, k);
    assert(((b >> k) & 1 == 1) == (b & (1u8 << k) == 1u8 << k)) by (bit_vector)
        requires
            k < 8,
    ;
}

/// Bit `i` of a 64-bit value, read arithmetically, agrees with the
/// mask test that the executable engine performs.
pub(crate) proof fn lemma_u64_nth_bit(x: u64, i: u64)
    requires
        i < 64,
    ensures
        nth_bit(x as nat, i as nat) == (x & (1u64 << i) == 1u64 << i),
{
    vstd::bits::lemma_u64_shr_is_div(x, i);
    let s = x >> i;
    assert((s & 1 == 1) == (s % 2 == 1)) by (bit_vector);
    assert(((x >> i) & 1 == 1) == (x & (1u64 << i) == 1u64 << i)) by (bit_vector)
        requires
            i < 64,
    ;
}

/// Bitwise-or with a power of two above a value adds that power of two.
pub(crate) proof fn lemma_u64_set_high_bit(x: u64, i: u64)
    requires
        i < 64,
        (x as nat) < pow2(i as nat),
    ensures
        (x | (1u64 << i)) as nat == x as nat + pow2(i as nat),
{
    vstd::bits::lemma_u64_pow2_no_overflow(i as nat);
    vstd::bits::lemma_u64_shl_is_mul(1u64, i);
    assert(x < (1u64 << i) ==> (x | (1u64 << i)) == x + (1u64 << i)) by (bit_vector)
        requires
            i < 64,
    ;
}

/// Bit `i` of `v / 2` is bit `i + 1` of `v`.
proof fn lemma_nth_bit_div2(v: nat, i: nat)
    ensures
        nth_bit(v / 2, i) == nth_bit(v, i + 1),
{
    vstd::arithmetic::power2::lemma_pow2_pos(i);
    vstd::arithmetic::div_mod::lemma_div_denominator(v as int, 2, pow2(i) as int);
    vstd::arithmetic::power2::lemma_pow2_unfold(i + 1);
}

/// Bit 0 of `v` is its parity.
proof fn lemma_nth_bit_0(v: nat)
    ensures
        nth_bit(v, 0) == (v % 2 == 1),
{
    assert(pow2(0) == 1) by {
        vstd::arithmetic::power2::lemma2_to64();
    }
}

/// A bit position below `len * 8` decomposes into an in-range byte index
/// and a bit index within that byte.
pub(crate) proof fn lemma_pos_in_range(len: nat, pos: nat)
    requires
        pos < len * 8,
    ensures
        pos / 8 < len,
        pos % 8 < 8,
        pos == 8 * (pos / 8) + pos % 8,
{
    vstd::arithmetic::div_mod::lemma_multiply_divide_lt(pos as int, 8, len as int);
    vstd::arithmetic::div_mod::lemma_fundamental_div_mod(pos as int, 8);
}

/// Setting bit `pos` changes that bit of the buffer and no other.
proof fn lemma_set_bit_effect(buf: Seq<u8>, pos: nat, v: bool, q: nat)
    requires
        pos < buf.len() * 8,
        q < buf.len() * 8,
    ensures
        spec_set_bit(buf, pos, v).len() == buf.len(),
        bit_of(spec_set_bit(buf, pos, v), q) == (if q == pos {
            v
        } else {
            bit_of(buf, q)
        }),
{
    lemma_pos_in_range(buf.len(), pos);
    lemma_pos_in_range(buf.len(), q);
    if q / 8 == pos / 8 {
        lemma_update_byte(buf[(pos / 8) as int], (pos % 8) as u8, v, (q % 8) as u8);
    }
}

/// Writing a bit range preserves the buffer's length.
proof fn lemma_write_len(buf: Seq<u8>, offset: nat, width: nat, value: nat)
    requires
        offset + width <= buf.len() * 8,
    ensures
        spec_write_bits(buf, offset, width, value).len() == buf.len(),
    decreases width,
{
    if width > 0 {
        lemma_pos_in_range(buf.len(), offset);
        lemma_write_len(spec_set_bit(buf, offset, value % 2 == 1), offset + 1, (width - 1) as nat,
            value / 2);
    }
}

/// Writing a bit range sets exactly the bits of that range to the bits of
/// the value, least-significant first, and leaves every other bit alone.
pub proof fn lemma_write_effect(buf: Seq<u8>, offset: nat, width: nat, value: nat, q: nat)
    requires
        offset + width <= buf.len() * 8,
        q < buf.len() * 8,
    ensures
        spec_write_bits(buf, offset, width, value).len() == buf.len(),
        bit_of(spec_write_bits(buf, offset, width, value), q) == (if offset <= q < offset + width {
            nth_bit(value, (q - offset) as nat)
        } else {
            bit_of(buf, q)
        }),
    decreases width,
{
    lemma_write_len(buf, offset, width, value);
    if width > 0 {
        let b1 = spec_set_bit(buf, offset, value % 2 == 1);
        lemma_set_bit_effect(buf, offset, value % 2 == 1, q);
        lemma_write_effect(b1, offset + 1, (width - 1) as nat, value / 2, q);
        if q == offset {
            lemma_nth_bit_0(value);
        } else if offset < q && q < offset + width {
            lemma_nth_bit_div2(value, (q - offset - 1) as nat);
        }
    }
}

/// A read depends only on the bits of the range read.
proof fn lemma_read_agrees(c1: Seq<u8>, c2: Seq<u8>, offset: nat, width: nat)
    requires
        forall|p: nat| offset <= p < offset + width ==> bit_of(c1, p) == bit_of(c2, p),
    ensures
        spec_read_bits(c1, offset, width) == spec_read_bits(c2, offset, width),
    decreases width,
{
    if width > 0 {
        lemma_read_agrees(c1, c2, offset + 1, (width - 1) as nat);
    }
}

/// A range whose bits are the bits of `value` reads back as `value`
/// reduced to the range's width.
proof fn lemma_read_of_bits(c: Seq<u8>, offset: nat, width: nat, value: nat)
    requires
        forall|p: nat|
            offset <= p < offset + width ==> bit_of(c, p) == nth_bit(value, (p - offset) as nat),
    ensures
        spec_read_bits(c, offset, width) == value % pow2(width),
    decreases width,
{
    if width == 0 {
        assert(pow2(0) == 1) by {
            vstd::arithmetic::power2::lemma2_to64();
        }
    } else {
        assert forall|p: nat|
            offset + 1 <= p < (offset + 1) + ((width - 1) as nat) implies bit_of(c, p) == nth_bit(
            value / 2,
            (p - (offset + 1)) as nat,
        ) by {
            lemma_nth_bit_div2(value, (p - offset - 1) as nat);
        }
        lemma_read_of_bits(c, offset + 1, (width - 1) as nat, value / 2);
        lemma_nth_bit_0(value);
        vstd::arithmetic::power2::lemma_pow2_pos((width - 1) as nat);
        vstd::arithmetic::div_mod::lemma_breakdown(value as int, 2, pow2((width - 1) as nat) as int);
        vstd::arithmetic::power2::lemma_pow2_unfold(width);
    }
}

/// Reading one more bit adds that bit at the top of the value.
pub(crate) proof fn lemma_read_snoc(c: Seq<u8>, offset: nat, width: nat)
    ensures
        spec_read_bits(c, offset, width + 1) == spec_read_bits(c, offset, width) + (if bit_of(
            c,
            offset + width,
        ) {
            pow2(width)
        } else {
            0nat
        }),
    decreases width,
{
    if width == 0 {
        assert(pow2(0) == 1) by {
            vstd::arithmetic::power2::lemma2_to64();
        }
        assert(spec_read_bits(c, offset + 1, 0) == 0);
    } else {
        lemma_read_snoc(c, offset + 1, (width - 1) as nat);
        vstd::arithmetic::power2::lemma_pow2_unfold(width);
    }
}

/// Writing one more bit sets that bit on top of the shorter write.
pub(crate) proof fn lemma_write_snoc(buf: Seq<u8>, offset: nat, width: nat, value: nat)
    ensures
        spec_write_bits(buf, offset, width + 1, value) == spec_set_bit(
            spec_write_bits(buf, offset, width, value),
            offset + width,
            nth_bit(value, width),
        ),
    decreases width,
{
    if width == 0 {
        lemma_nth_bit_0(value);
        let b1 = spec_set_bit(buf, offset, value % 2 == 1);
        assert(spec_write_bits(b1, offset + 1, 0, value / 2) == b1);
    } else {
        let b1 = spec_set_bit(buf, offset, value % 2 == 1);
        lemma_write_snoc(b1, offset + 1, (width - 1) as nat, value / 2);
        lemma_nth_bit_div2(value, (width - 1) as nat);
    }
}

/// Two bytes with the same eight bits are the same byte.
proof fn lemma_u8_bit_ext(x: u8, y: u8)
    requires
        forall|k: nat| k < 8 ==> nth_bit(x as nat, k) == nth_bit(y as nat, k),
    ensures
        x == y,
{
    lemma_u8_nth_bit(x, 0);
    lemma_u8_nth_bit(y, 0);
    lemma_u8_nth_bit(x, 1);
    lemma_u8_nth_bit(y, 1);
    lemma_u8_nth_bit(x, 2);
    lemma_u8_nth_bit(y, 2);
    lemma_u8_nth_bit(x, 3);
    lemma_u8_nth_bit(y, 3);
    lemma_u8_nth_bit(x, 4);
    lemma_u8_nth_bit(y, 4);
    lemma_u8_nth_bit(x, 5);
    lemma_u8_nth_bit(y, 5);
    lemma_u8_nth_bit(x, 6);
    lemma_u8_nth_bit(y, 6);
    lemma_u8_nth_bit(x, 7);
    lemma_u8_nth_bit(y, 7);
    assert(x == y) by (bit_vector)
        requires
            ((x >> 0u8) & 1 == 1) == ((y >> 0u8) & 1 == 1),
            ((x >> 1u8) & 1 == 1) == ((y >> 1u8) & 1 == 1),
            ((x >> 2u8) & 1 == 1) == ((y >> 2u8) & 1 == 1),
            ((x >> 3u8) & 1 == 1) == ((y >> 3u8) & 1 == 1),
            ((x >> 4u8) & 1 == 1) == ((y >> 4u8) & 1 == 1),
            ((x >> 5u8) & 1 == 1) == ((y >> 5u8) & 1 == 1),
            ((x >> 6u8) & 1 == 1) == ((y >> 6u8) & 1 == 1),
            ((x >> 7u8) & 1 == 1) == ((y >> 7u8) & 1 == 1),
    ;
}

/// Two buffers of the same length with the same bits are the same buffer.
proof fn lemma_bit_ext(c1: Seq<u8>, c2: Seq<u8>)
    requires
        c1.len() == c2.len(),
        forall|p: nat| p < c1.len() * 8 ==> bit_of(c1, p) == bit_of(c2, p),
    ensures
        c1 == c2,
{
    assert forall|bi: int| 0 <= bi < c1.len() implies c1[bi] == c2[bi] by {
        assert forall|k: nat| k < 8 implies nth_bit(c1[bi] as nat, k) == nth_bit(
            c2[bi] as nat,
            k,
        ) by {
            let p = (8 * bi + k) as nat;
            vstd::arithmetic::div_mod::lemma_fundamental_div_mod_converse(
                p as int,
                8,
                bi,
                k as int,
            );
            assert(p < c1.len() * 8);
            assert(bit_of(c1, p) == bit_of(c2, p));
        }
        lemma_u8_bit_ext(c1[bi], c2[bi]);
    }
    assert(c1 =~= c2);
}

/// Round trip: reading a bit range just written returns the written value,
/// reduced to the range's width, whatever the buffer held before. A value
/// that fits in the range comes back unchanged.
pub proof fn lemma_write_read_round_trip(buf: Seq<u8>, offset: nat, width: nat, value: nat)
    requires
        offset + width <= buf.len() * 8,
    ensures
        spec_read_bits(spec_write_bits(buf, offset, width, value), offset, width) == value % pow2(
            width,
        ),
        value < pow2(width) ==> spec_read_bits(spec_write_bits(buf, offset, width, value), offset,
            width,
        ) == value,
{
    let w = spec_write_bits(buf, offset, width, value);
    assert forall|p: nat| offset <= p < offset + width implies bit_of(w, p) == nth_bit(
        value,
        (p - offset) as nat,
    ) by {
        lemma_write_effect(buf, offset, width, value, p);
    }
    lemma_read_of_bits(w, offset, width, value);
    vstd::arithmetic::power2::lemma_pow2_pos(width);
    if value < pow2(width) {
        vstd::arithmetic::div_mod::lemma_small_mod(value, pow2(width));
    }
}

/// Non-interference: writing one bit range never changes what any
/// disjoint bit range reads.
pub proof fn lemma_write_non_interference(
    buf: Seq<u8>,
    offset: nat,
    width: nat,
    value: nat,
    offset2: nat,
    width2: nat,
)
    requires
        offset + width <= buf.len() * 8,
        offset2 + width2 <= buf.len() * 8,
        offset + width <= offset2 || offset2 + width2 <= offset,
    ensures
        spec_read_bits(spec_write_bits(buf, offset, width, value), offset2, width2)
            == spec_read_bits(buf, offset2, width2),
{
    let w = spec_write_bits(buf, offset, width, value);
    assert forall|p: nat| offset2 <= p < offset2 + width2 implies bit_of(w, p) == bit_of(
        buf,
        p,
    ) by {
        lemma_write_effect(buf, offset, width, value, p);
    }
    lemma_read_agrees(w, buf, offset2, width2);
}

/// Idempotence: writing the same value to the same range twice leaves the
/// buffer exactly as writing it once does.
pub proof fn lemma_write_idempotent(buf: Seq<u8>, offset: nat, width: nat, value: nat)
    requires
        offset + width <= buf.len() * 8,
    ensures
        spec_write_bits(spec_write_bits(buf, offset, width, value), offset, width, value)
            == spec_write_bits(buf, offset, width, value),
{
    let w1 = spec_write_bits(buf, offset, width, value);
    let w2 = spec_write_bits(w1, offset, width, value);
    lemma_write_len(buf, offset, width, value);
    lemma_write_len(w1, offset, width, value);
    assert forall|p: nat| p < w2.len() * 8 implies bit_of(w2, p) == bit_of(w1, p) by {
        lemma_write_effect(buf, offset, width, value, p);
        lemma_write_effect(w1, offset, width, value, p);
    }
    lemma_bit_ext(w2, w1);
}

} // verus!
