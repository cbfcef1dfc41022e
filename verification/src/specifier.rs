//! Field specifiers: the width and logical type of one field.
//!
//! A specifier ties a bit width to a logical type and translates between
//! raw unsigned integers and logical values. The [`Specifier`] trait serves
//! statically typed fields (a boolean, a closed enumeration type); the
//! [`FieldSpecifier`] value serves layouts assembled at run time. An
//! enumeration is backed by `b` bits exactly when it has `pow2(b)` variants,
//! each with a discriminant below `pow2(b)`.

use vstd::prelude::*;

verus! {

use vstd::arithmetic::power2::pow2;
use crate::BitfieldError;

/// Width and conversions of one statically typed field.
///
/// `UTYPE` is the logical type handed to callers; `spec_to_raw` and
/// `spec_from_raw` say what the conversions return. Every implementation
/// proves that an encoded value fits the field's width and decodes back to
/// itself.
pub trait Specifier: Sized {
    type UTYPE;

    /// The field's width in bits.
    spec fn spec_bits() -> nat;

    /// The raw encoding of a logical value.
    spec fn spec_to_raw(v: Self::UTYPE) -> u64;

    /// The logical value encoded by a raw integer, when there is one.
    spec fn spec_from_raw(raw: u64) -> Option<Self::UTYPE>;

    /// The field's width in bits.
    fn bits() -> (r: usize)
        ensures
            1 <= r <= 64,
            r as nat == Self::spec_bits(),
    ;

    /// Encodes a logical value as a raw integer. The encoding fits the
    /// field's width and decodes back to the value it encodes.
    fn to_raw(v: Self::UTYPE) -> (r: u64)
        ensures
            r == Self::spec_to_raw(v),
            (r as nat) < pow2(Self::spec_bits()),
            Self::spec_from_raw(r) == Some(v),
    ;

    /// Decodes a raw integer, reporting [`BitfieldError::DecodeError`] when
    /// it encodes no logical value.
    fn from_raw(raw: u64) -> (r: Result<Self::UTYPE, BitfieldError>)
        ensures
            match Self::spec_from_raw(raw) {
                Some(v) => r == Ok::<Self::UTYPE, BitfieldError>(v),
                None => r == Err::<Self::UTYPE, BitfieldError>(BitfieldError::DecodeError),
            },
    ;
}

impl Specifier for bool {
    type UTYPE = bool;

    open spec fn spec_bits() -> nat {
        1
    }

    open spec fn spec_to_raw(v: bool) -> u64 {
        if v {
            1
        } else {
            0
        }
    }

    open spec fn spec_from_raw(raw: u64) -> Option<bool> {
        if raw == 0 {
            Some(false)
        } else if raw == 1 {
            Some(true)
        } else {
            None
        }
    }

    fn bits() -> usize {
        1
    }

    fn to_raw(v: bool) -> u64 {
        proof {
            assert(pow2(1) == 2) by {
                vstd::arithmetic::power2::lemma2_to64();
            }
        }
        if v {
            1
        } else {
            0
        }
    }

    fn from_raw(raw: u64) -> Result<bool, BitfieldError> {
        if raw == 0 {
            Ok(false)
        } else if raw == 1 {
            Ok(true)
        } else {
            Err(BitfieldError::DecodeError)
        }
    }
}

/// The logical type of one run-time field.
pub enum FieldKind {
    /// A plain unsigned integer of the field's width.
    Unsigned,
    /// A one-bit field read as `false` or `true`.
    Boolean,
    /// A closed enumeration; the vector holds each variant's discriminant
    /// in declaration order.
    Enumeration(Vec<u64>),
}

/// A logical value moved in or out of a run-time field.
#[derive(Clone, Copy, Debug, PartialEq, Eq, Structural)]
pub enum FieldValue {
    /// The value of an unsigned-integer field.
    Unsigned(u64),
    /// The value of a boolean field.
    Boolean(bool),
    /// The index, in declaration order, of an enumeration field's variant.
    Variant(usize),
}

/// True when `n` is a power of two admissible as an enumeration's variant
/// count: `pow2(b)` for some width `b >= 1`.
pub open spec fn valid_variant_count(n: nat) -> bool {
    exists|b: nat| 1 <= b && n == pow2(b)
}

/// The width backing an enumeration of `n` variants, for an admissible `n`.
pub open spec fn count_bits(n: nat) -> nat {
    choose|b: nat| 1 <= b && n == pow2(b)
}

/// Powers of two are distinct.
proof fn lemma_pow2_injective(a: nat, b: nat)
    requires
        pow2(a) == pow2(b),
    ensures
        a == b,
{
    if a < b {
        vstd::arithmetic::power2::lemma_pow2_strictly_increases(a, b);
    }
    if b < a {
        vstd::arithmetic::power2::lemma_pow2_strictly_increases(b, a);
    }
}

/// A number with an odd factor above one is no power of two.
proof fn lemma_odd_factor_not_pow2(d: nat, k: nat, b: nat)
    requires
        d % 2 == 1,
        d > 1,
    ensures
        d * pow2(k) != pow2(b),
{
    vstd::arithmetic::power2::lemma_pow2_pos(k);
    if d * pow2(k) == pow2(b) {
        if b >= k {
            vstd::arithmetic::power2::lemma_pow2_adds((b - k) as nat, k);
            assert(d == pow2((b - k) as nat)) by (nonlinear_arith)
                requires
                    d * pow2(k) == pow2((b - k) as nat) * pow2(k),
                    pow2(k) > 0,
            ;
            if b == k {
                assert(pow2(0) == 1) by {
                    vstd::arithmetic::power2::lemma2_to64();
                }
            } else {
                vstd::arithmetic::power2::lemma_pow2_unfold((b - k) as nat);
                let h = pow2((b - k - 1) as nat);
                assert((2 * h) % 2 == 0) by (nonlinear_arith);
            }
        } else {
            vstd::arithmetic::power2::lemma_pow2_strictly_increases(b, k);
            vstd::arithmetic::mul::lemma_mul_inequality(1, d as int, pow2(k) as int);
        }
    }
}

/// A field specifier assembled at run time.
pub struct FieldSpecifier {
    bits: usize,
    kind: FieldKind,
}

impl FieldSpecifier {
    /// The field's width in bits.
    pub closed spec fn spec_bits(&self) -> nat {
        self.bits as nat
    }

    /// The field's logical type.
    pub closed spec fn spec_kind(&self) -> FieldKind {
        self.kind
    }

    /// The discriminants of an enumeration field, in declaration order.
    pub open spec fn spec_variants(&self) -> Seq<u64> {
        match self.spec_kind() {
            FieldKind::Enumeration(vs) => vs@,
            _ => Seq::empty(),
        }
    }

    /// Well-formedness: the width is 1 to 64 bits; a boolean field is one
    /// bit; an enumeration of width `b` has exactly `pow2(b)` variants,
    /// each with a discriminant below `pow2(b)`.
    pub open spec fn wf(&self) -> bool {
        &&& 1 <= self.spec_bits() <= 64
        &&& match self.spec_kind() {
            FieldKind::Unsigned => true,
            FieldKind::Boolean => self.spec_bits() == 1,
            FieldKind::Enumeration(vs) => {
                &&& vs@.len() == pow2(self.spec_bits())
                &&& forall|i: int|
                    0 <= i < vs@.len() ==> (vs@[i] as nat) < pow2(self.spec_bits())
            },
        }
    }

    /// A plain unsigned-integer field of `bits` bits.
    pub fn unsigned(bits: usize) -> (r: FieldSpecifier)
        requires
            1 <= bits <= 64,
        ensures
            r.wf(),
            r.spec_bits() == bits as nat,
            r.spec_kind() == FieldKind::Unsigned,
    {
        FieldSpecifier { bits, kind: FieldKind::Unsigned }
    }

    /// A one-bit boolean field.
    pub fn boolean() -> (r: FieldSpecifier)
        ensures
            r.wf(),
            r.spec_bits() == 1,
            r.spec_kind() == FieldKind::Boolean,
    {
        FieldSpecifier { bits: 1, kind: FieldKind::Boolean }
    }

    /// An enumeration field whose variants carry the given discriminants in
    /// declaration order. The variant count must be a power of two of at
    /// least 2 — it then fixes the field's width — and every discriminant
    /// must fit that width.
    pub fn enumeration(discriminants: Vec<u64>) -> (r: Result<FieldSpecifier, BitfieldError>)
        ensures
            match r {
                Ok(s) => {
                    &&& s.wf()
                    &&& s.spec_variants() == discriminants@
                    &&& s.spec_kind() matches FieldKind::Enumeration(_)
                    &&& pow2(s.spec_bits()) == discriminants@.len()
                },
                Err(e) => if e == BitfieldError::InvalidVariantCount {
                    !valid_variant_count(discriminants@.len())
                } else if e == BitfieldError::DiscriminantOverflow {
                    &&& valid_variant_count(discriminants@.len())
                    &&& exists|i: int|
                        0 <= i < discriminants@.len() && (discriminants@[i] as nat) >= pow2(
                            count_bits(discriminants@.len()),
                        )
                } else {
                    false
                },
            },
    {
        let n = discriminants.len();
        if n < 2 {
            proof {
                if valid_variant_count(n as nat) {
                    let b = choose|b: nat| 1 <= b && n as nat == pow2(b);
                    assert(pow2(1) == 2) by {
                        vstd::arithmetic::power2::lemma2_to64();
                    }
                    if b > 1 {
                        vstd::arithmetic::power2::lemma_pow2_strictly_increases(1, b);
                    }
                }
            }
            return Err(BitfieldError::InvalidVariantCount);
        }
        let mut div: usize = n;
        let mut bits: usize = 0;
        proof {
            assert(pow2(0) == 1) by {
                vstd::arithmetic::power2::lemma2_to64();
            }
        }
        while div > 1
            invariant
                1 <= div <= n,
                n == discriminants@.len(),
                bits < 64,
                n as nat == div as nat * pow2(bits as nat),
                pow2(bits as nat) <= n as nat,
            decreases div,
        {
            if div % 2 == 1 {
                proof {
                    if valid_variant_count(n as nat) {
                        let b = choose|b: nat| 1 <= b && n as nat == pow2(b);
                        lemma_odd_factor_not_pow2(div as nat, bits as nat, b);
                    }
                }
                return Err(BitfieldError::InvalidVariantCount);
            }
            proof {
                vstd::arithmetic::power2::lemma_pow2_unfold((bits + 1) as nat);
                assert(div as nat * pow2(bits as nat) == (div as nat / 2) * (2 * pow2(
                    bits as nat,
                ))) by (nonlinear_arith)
                    requires
                        div as nat % 2 == 0,
                ;
                vstd::arithmetic::mul::lemma_mul_inequality(
                    1,
                    (div as nat / 2) as int,
                    (2 * pow2(bits as nat)) as int,
                );
                assert(bits + 1 < 64) by {
                    vstd::arithmetic::power2::lemma2_to64_rest();
                    if bits + 1 >= 64 {
                        if bits + 1 > 64 {
                            vstd::arithmetic::power2::lemma_pow2_strictly_increases(
                                64,
                                (bits + 1) as nat,
                            );
                        }
                        assert(pow2(64) == 0x10000000000000000);
                    }
                }
            }
            div = div / 2;
            bits = bits + 1;
        }
        proof {
            assert(n as nat == pow2(bits as nat));
            assert(bits >= 1) by {
                if bits == 0 {
                    assert(pow2(0) == 1) by {
                        vstd::arithmetic::power2::lemma2_to64();
                    }
                }
            }
        }
        let mut j: usize = 0;
        while j < discriminants.len()
            invariant
                j <= discriminants@.len(),
                1 <= bits < 64,
                n as nat == pow2(bits as nat),
                n == discriminants@.len(),
                forall|i: int| 0 <= i < j ==> (discriminants@[i] as nat) < pow2(bits as nat),
            decreases discriminants@.len() - j,
        {
            let d = discriminants[j];
            proof {
                vstd::bits::lemma_u64_pow2_no_overflow(bits as nat);
                vstd::bits::lemma_u64_shl_is_mul(1u64, bits as u64);
            }
            if d >= (1u64 << (bits as u64)) {
                proof {
                    assert(1 <= bits as nat && n as nat == pow2(bits as nat));
                    assert(valid_variant_count(n as nat));
                    let b = count_bits(n as nat);
                    assert(1 <= b && n as nat == pow2(b));
                    lemma_pow2_injective(b, bits as nat);
                }
                return Err(BitfieldError::DiscriminantOverflow);
            }
            j = j + 1;
        }
        Ok(FieldSpecifier { bits, kind: FieldKind::Enumeration(discriminants) })
    }

    /// The field's width in bits.
    pub fn bits(&self) -> (r: usize)
        ensures
            r as nat == self.spec_bits(),
    {
        self.bits
    }

    /// True when `value`'s shape matches the field's kind and, for an
    /// enumeration, names an existing variant.
    pub open spec fn value_fits(&self, value: FieldValue) -> bool {
        match value {
            FieldValue::Unsigned(_) => self.spec_kind() matches FieldKind::Unsigned,
            FieldValue::Boolean(_) => self.spec_kind() matches FieldKind::Boolean,
            FieldValue::Variant(j) => self.spec_kind() matches FieldKind::Enumeration(vs) && (
            j as int) < vs@.len(),
        }
    }

    /// The raw encoding of a matching logical value: the integer itself,
    /// 0 or 1 for a boolean, the named variant's discriminant.
    pub open spec fn spec_value_raw(&self, value: FieldValue) -> nat {
        match value {
            FieldValue::Unsigned(v) => v as nat,
            FieldValue::Boolean(b) => if b {
                1nat
            } else {
                0nat
            },
            FieldValue::Variant(j) => self.spec_variants()[j as int] as nat,
        }
    }

    /// Encodes a matching logical value as a raw integer. Every encoding
    /// but an unsigned integer's fits the field's width; an unsigned
    /// integer is reduced to the width by the write that stores it.
    pub fn to_raw(&self, value: FieldValue) -> (r: u64)
        requires
            self.wf(),
            self.value_fits(value),
        ensures
            r as nat == self.spec_value_raw(value),
            !(value matches FieldValue::Unsigned(_)) ==> (r as nat) < pow2(self.spec_bits()),
    {
        proof {
            assert(pow2(self.spec_bits()) >= 2) by {
                assert(pow2(1) == 2) by {
                    vstd::arithmetic::power2::lemma2_to64();
                }
                if self.spec_bits() > 1 {
                    vstd::arithmetic::power2::lemma_pow2_strictly_increases(1, self.spec_bits());
                }
            }
        }
        match value {
            FieldValue::Unsigned(v) => v,
            FieldValue::Boolean(b) => if b {
                1
            } else {
                0
            },
            FieldValue::Variant(j) => match &self.kind {
                FieldKind::Enumeration(vs) => vs[j],
                _ => vstd::pervasive::unreached(),
            },
        }
    }

    /// What decoding a raw integer must return: the integer itself for an
    /// unsigned field; the bit test `raw == 1` for a boolean field; for an
    /// enumeration, the first variant whose discriminant is `raw`, or
    /// [`BitfieldError::DecodeError`] when no discriminant matches.
    pub open spec fn spec_decodes(&self, raw: u64, r: Result<FieldValue, BitfieldError>) -> bool {
        match self.spec_kind() {
            FieldKind::Unsigned => r == Ok::<FieldValue, BitfieldError>(FieldValue::Unsigned(raw)),
            FieldKind::Boolean => r == Ok::<FieldValue, BitfieldError>(
                FieldValue::Boolean(raw == 1),
            ),
            FieldKind::Enumeration(vs) => match r {
                Ok(FieldValue::Variant(j)) => {
                    &&& (j as int) < vs@.len()
                    &&& vs@[j as int] == raw
                    &&& forall|k: int| 0 <= k < j ==> vs@[k] != raw
                },
                Err(e) => {
                    &&& e == BitfieldError::DecodeError
                    &&& forall|k: int| 0 <= k < vs@.len() ==> vs@[k] != raw
                },
                _ => false,
            },
        }
    }

    /// Decodes a raw integer read from the field. An unsigned field hands
    /// the integer back; a boolean field reads 1 as `true` and anything
    /// else as `false`; an enumeration field names the first variant whose
    /// discriminant matches, or reports [`BitfieldError::DecodeError`] when
    /// none does.
    pub fn from_raw(&self, raw: u64) -> (r: Result<FieldValue, BitfieldError>)
        ensures
            self.spec_decodes(raw, r),
    {
        match &self.kind {
            FieldKind::Unsigned => Ok(FieldValue::Unsigned(raw)),
            FieldKind::Boolean => Ok(FieldValue::Boolean(raw == 1)),
            FieldKind::Enumeration(vs) => {
                let mut j: usize = 0;
                while j < vs.len()
                    invariant
                        j <= vs@.len(),
                        self.spec_kind() matches FieldKind::Enumeration(v) && v@ == vs@,
                        forall|k: int| 0 <= k < j ==> vs@[k] != raw,
                    decreases vs@.len() - j,
                {
                    if vs[j] == raw {
                        return Ok(FieldValue::Variant(j));
                    }
                    j = j + 1;
                }
                Err(BitfieldError::DecodeError)
            },
        }
    }
}

/// The width in bits of the smallest native unsigned container (8, 16, 32
/// or 64 bits) that holds a field of `bits` bits.
pub open spec fn spec_container_width(bits: nat) -> nat {
    if bits <= 8 {
        8
    } else if bits <= 16 {
        16
    } else if bits <= 32 {
        32
    } else {
        64
    }
}

/// Maps a field's width to the smallest native unsigned container that
/// holds it. The choice affects only the values handed to callers, never
/// the packed layout.
pub fn container_width(bits: usize) -> (r: usize)
    requires
        1 <= bits <= 64,
    ensures
        r as nat == spec_container_width(bits as nat),
{
    if bits <= 8 {
        8
    } else if bits <= 16 {
        16
    } else if bits <= 32 {
        32
    } else {
        64
    }
}

} // verus!
