//! Packed record layouts.
//!
//! Given an ordered list of named field specifiers, [`RecordLayout::new`]
//! computes each field's bit offset as the sum of the widths of the fields
//! declared before it, sums the total width, and rejects a total that is
//! not a whole number of bytes with [`BitfieldError::MisalignedLayout`].
//! Field order is declaration order; no padding is inserted and fields may
//! straddle byte boundaries freely.

use vstd::prelude::*;

verus! {

use crate::BitfieldError;
use crate::specifier::FieldSpecifier;

/// The sum of the widths of the given specifiers, in bits.
pub open spec fn total_width(specs: Seq<FieldSpecifier>) -> nat
    decreases specs.len(),
{
    if specs.len() == 0 {
        0
    } else {
        total_width(specs.drop_last()) + specs.last().spec_bits()
    }
}

/// The bit offset of field `i`: the sum of the widths of the fields
/// before it.
pub open spec fn offset_of(specs: Seq<FieldSpecifier>, i: int) -> nat {
    total_width(specs.take(i))
}

/// Appending one field adds its width to the prefix sum.
proof fn lemma_total_width_take_succ(specs: Seq<FieldSpecifier>, i: int)
    requires
        0 <= i < specs.len(),
    ensures
        total_width(specs.take(i + 1)) == total_width(specs.take(i)) + specs[i].spec_bits(),
{
    assert(specs.take(i + 1).drop_last() =~= specs.take(i));
    assert(specs.take(i + 1).last() == specs[i]);
}

/// A prefix of the fields is no wider than all of them.
proof fn lemma_prefix_le(specs: Seq<FieldSpecifier>, i: int)
    requires
        0 <= i <= specs.len(),
    ensures
        total_width(specs.take(i)) <= total_width(specs),
    decreases specs.len() - i,
{
    if i == specs.len() {
        assert(specs.take(i) =~= specs);
    } else {
        lemma_total_width_take_succ(specs, i);
        lemma_prefix_le(specs, i + 1);
    }
}

/// Offsets do not decrease between fields.
proof fn lemma_offset_mono(specs: Seq<FieldSpecifier>, a: int, b: int)
    requires
        0 <= a <= b <= specs.len(),
    ensures
        total_width(specs.take(a)) <= total_width(specs.take(b)),
    decreases b - a,
{
    if a < b {
        lemma_total_width_take_succ(specs, a);
        lemma_offset_mono(specs, a + 1, b);
    }
}

/// Every field's bit range lies within the record's total width.
pub proof fn lemma_offset_bound(specs: Seq<FieldSpecifier>, i: int)
    requires
        0 <= i < specs.len(),
    ensures
        offset_of(specs, i) + specs[i].spec_bits() <= total_width(specs),
{
    lemma_total_width_take_succ(specs, i);
    lemma_prefix_le(specs, i + 1);
}

/// Distinct fields occupy disjoint bit ranges: an earlier field's range
/// ends at or before a later field's range begins.
pub proof fn lemma_fields_disjoint(specs: Seq<FieldSpecifier>, i: int, j: int)
    requires
        0 <= i < j < specs.len(),
    ensures
        offset_of(specs, i) + specs[i].spec_bits() <= offset_of(specs, j),
{
    lemma_total_width_take_succ(specs, i);
    lemma_offset_mono(specs, i + 1, j);
}

/// One field of a packed record: its name, its specifier, and its
/// computed bit offset.
pub struct FieldDescriptor {
    name: String,
    specifier: FieldSpecifier,
    bit_offset: usize,
}

impl FieldDescriptor {
    /// The field's name.
    pub closed spec fn spec_name(&self) -> Seq<char> {
        self.name@
    }

    /// The field's specifier.
    pub closed spec fn spec_specifier(&self) -> FieldSpecifier {
        self.specifier
    }

    /// The field's bit offset within the record.
    pub closed spec fn spec_bit_offset(&self) -> nat {
        self.bit_offset as nat
    }

    /// The field's name.
    pub fn name(&self) -> (r: &String)
        ensures
            r@ == self.spec_name(),
    {
        &self.name
    }

    /// The field's specifier.
    pub fn specifier(&self) -> (r: &FieldSpecifier)
        ensures
            *r == self.spec_specifier(),
    {
        &self.specifier
    }

    /// The field's bit offset within the record.
    pub fn bit_offset(&self) -> (r: usize)
        ensures
            r as nat == self.spec_bit_offset(),
    {
        self.bit_offset
    }
}

/// The specifiers of a sequence of descriptors, in order.
pub open spec fn specs_of(fields: Seq<FieldDescriptor>) -> Seq<FieldSpecifier> {
    fields.map_values(|fd: FieldDescriptor| fd.spec_specifier())
}

/// The specifiers of a sequence of `(name, specifier)` pairs, in order.
pub open spec fn specs_of_pairs(pairs: Seq<(String, FieldSpecifier)>) -> Seq<FieldSpecifier> {
    pairs.map_values(|p: (String, FieldSpecifier)| p.1)
}

/// The computed, immutable layout of one record shape: every field with
/// its offset, the total bit width, and the backing size in bytes.
pub struct RecordLayout {
    fields: Vec<FieldDescriptor>,
    total_bits: usize,
    total_bytes: usize,
}

impl RecordLayout {
    /// The record's fields, in declaration order.
    pub closed spec fn spec_fields(&self) -> Seq<FieldDescriptor> {
        self.fields@
    }

    /// The record's total width in bits.
    pub closed spec fn spec_total_bits(&self) -> nat {
        self.total_bits as nat
    }

    /// The record's backing size in bytes.
    pub closed spec fn spec_total_bytes(&self) -> nat {
        self.total_bytes as nat
    }

    /// The record's field specifiers, in declaration order.
    pub open spec fn spec_specs(&self) -> Seq<FieldSpecifier> {
        specs_of(self.spec_fields())
    }

    /// Well-formedness: the stored totals are the sums they claim to be,
    /// the total width is a whole number of bytes, every specifier is
    /// well-formed, and every stored offset is the prefix sum of the
    /// widths before it.
    pub open spec fn wf(&self) -> bool {
        &&& self.spec_total_bits() <= usize::MAX
        &&& self.spec_total_bits() == total_width(self.spec_specs())
        &&& self.spec_total_bits() % 8 == 0
        &&& self.spec_total_bytes() * 8 == self.spec_total_bits()
        &&& forall|i: int|
            0 <= i < self.spec_fields().len() ==> {
                &&& (#[trigger] self.spec_fields()[i]).spec_specifier().wf()
                &&& self.spec_fields()[i].spec_bit_offset() == offset_of(self.spec_specs(), i)
            }
    }

    /// Computes the layout of the given fields, in declaration order.
    /// Each field's offset is the sum of the widths of the fields before
    /// it; a total width that is not a multiple of 8 bits is rejected
    /// with [`BitfieldError::MisalignedLayout`].
    pub fn new(fields: Vec<(String, FieldSpecifier)>) -> (r: Result<RecordLayout, BitfieldError>)
        requires
            forall|i: int| 0 <= i < fields@.len() ==> (#[trigger] fields@[i]).1.wf(),
            total_width(specs_of_pairs(fields@)) <= usize::MAX,
        ensures
            match r {
                Ok(layout) => {
                    &&& layout.wf()
                    &&& layout.spec_fields().len() == fields@.len()
                    &&& forall|i: int|
                        0 <= i < fields@.len() ==> {
                            &&& (#[trigger] layout.spec_fields()[i]).spec_name()
                                == fields@[i].0@
                            &&& layout.spec_fields()[i].spec_specifier() == fields@[i].1
                        }
                    &&& layout.spec_total_bits() == total_width(specs_of_pairs(fields@))
                    &&& layout.spec_total_bits() % 8 == 0
                },
                Err(e) => {
                    &&& e == BitfieldError::MisalignedLayout
                    &&& total_width(specs_of_pairs(fields@)) % 8 != 0
                },
            },
    {
        let ghost orig: Seq<(String, FieldSpecifier)> = fields@;
        let ghost orig_specs: Seq<FieldSpecifier> = specs_of_pairs(orig);
        let mut fields = fields;
        let mut out: Vec<FieldDescriptor> = Vec::new();
        let mut acc: usize = 0;
        proof {
            assert(orig_specs.take(0) =~= Seq::<FieldSpecifier>::empty());
        }
        while fields.len() > 0
            invariant
                out@.len() <= orig.len(),
                fields@ == orig.skip(out@.len() as int),
                orig_specs == specs_of_pairs(orig),
                orig_specs.len() == orig.len(),
                forall|k: int| 0 <= k < orig.len() ==> (#[trigger] orig[k]).1.wf(),
                total_width(orig_specs) <= usize::MAX,
                acc as nat == total_width(orig_specs.take(out@.len() as int)),
                forall|k: int|
                    0 <= k < out@.len() ==> {
                        &&& (#[trigger] out@[k]).spec_name() == orig[k].0@
                        &&& out@[k].spec_specifier() == orig[k].1
                        &&& out@[k].spec_bit_offset() == offset_of(orig_specs, k)
                    },
            decreases fields@.len(),
        {
            let ghost i: int = out@.len() as int;
            let (field_name, field_spec) = fields.remove(0);
            let width = field_spec.bits();
            proof {
                assert(orig.skip(i)[0] == orig[i]);
                assert(orig.skip(i).remove(0) =~= orig.skip(i + 1));
                lemma_total_width_take_succ(orig_specs, i);
                lemma_prefix_le(orig_specs, i + 1);
            }
            let descriptor = FieldDescriptor {
                name: field_name,
                specifier: field_spec,
                bit_offset: acc,
            };
            out.push(descriptor);
            acc = acc + width;
        }
        proof {
            assert(orig_specs.take(out@.len() as int) =~= orig_specs);
        }
        if acc % 8 != 0 {
            return Err(BitfieldError::MisalignedLayout);
        }
        let total_bytes = acc / 8;
        proof {
            vstd::arithmetic::div_mod::lemma_fundamental_div_mod(acc as int, 8);
            assert(specs_of(out@) =~= orig_specs);
        }
        Ok(RecordLayout { fields: out, total_bits: acc, total_bytes })
    }

    /// The number of fields.
    pub fn field_count(&self) -> (r: usize)
        ensures
            r as nat == self.spec_fields().len(),
    {
        self.fields.len()
    }

    /// The descriptor of field `index`, in declaration order.
    pub fn field(&self, index: usize) -> (r: &FieldDescriptor)
        requires
            index < self.spec_fields().len(),
        ensures
            *r == self.spec_fields()[index as int],
    {
        &self.fields[index]
    }

    /// The record's total width in bits.
    pub fn total_bits(&self) -> (r: usize)
        ensures
            r as nat == self.spec_total_bits(),
    {
        self.total_bits
    }

    /// The record's backing size in bytes.
    pub fn total_bytes(&self) -> (r: usize)
        ensures
            r as nat == self.spec_total_bytes(),
    {
        self.total_bytes
    }
}

} // verus!
