//! Record instances.
//!
//! A [`Record`] owns a byte buffer sized by its [`RecordLayout`] and
//! zeroed at creation. Per-field access composes the accessor engine with
//! the field's specifier: a getter reads the field's bit range and decodes
//! it, a setter encodes the value and writes the range, leaving every
//! other field's bits untouched.

use vstd::prelude::*;

verus! {

use vstd::arithmetic::power2::pow2;
use crate::BitfieldError;
use crate::accessor::read_bits;
use crate::accessor::write_bits;
use crate::bits::spec_read_bits;
use crate::bits::spec_write_bits;
use crate::bits::lemma_write_non_interference;
use crate::layout::RecordLayout;
use crate::layout::lemma_fields_disjoint;
use crate::layout::lemma_offset_bound;
use crate::layout::offset_of;
use crate::specifier::FieldValue;

/// One record instance: immutable layout metadata and an exclusively
/// owned backing buffer.
pub struct Record {
    layout: RecordLayout,
    raw: Vec<u8>,
}

impl Record {
    /// The record's layout.
    pub closed spec fn spec_layout(&self) -> RecordLayout {
        self.layout
    }

    /// The record's backing bytes.
    pub closed spec fn spec_raw(&self) -> Seq<u8> {
        self.raw@
    }

    /// Well-formedness: the layout is well-formed and the buffer has
    /// exactly the layout's byte size.
    pub open spec fn wf(&self) -> bool {
        &&& self.spec_layout().wf()
        &&& self.spec_raw().len() == self.spec_layout().spec_total_bytes()
    }

    /// The bit offset of field `i`.
    pub open spec fn spec_field_offset(&self, i: int) -> nat {
        self.spec_layout().spec_fields()[i].spec_bit_offset()
    }

    /// The bit width of field `i`.
    pub open spec fn spec_field_width(&self, i: int) -> nat {
        self.spec_layout().spec_specs()[i].spec_bits()
    }

    /// The raw bits currently stored in field `i`.
    pub open spec fn spec_field_raw(&self, i: int) -> nat {
        spec_read_bits(self.spec_raw(), self.spec_field_offset(i), self.spec_field_width(i))
    }

    /// A new instance of the given record shape, with every bit zero.
    pub fn new(layout: RecordLayout) -> (r: Record)
        requires
            layout.wf(),
        ensures
            r.wf(),
            r.spec_layout() == layout,
            r.spec_raw().len() == layout.spec_total_bytes(),
            forall|i: int| 0 <= i < r.spec_raw().len() ==> r.spec_raw()[i] == 0u8,
    {
        let n = layout.total_bytes();
        let raw: Vec<u8> = vec![0u8; n];
        Record { layout, raw }
    }

    /// The record's layout.
    pub fn layout(&self) -> (r: &RecordLayout)
        ensures
            *r == self.spec_layout(),
    {
        &self.layout
    }

    /// The record's backing bytes, for whole-record serialization.
    pub fn raw_bytes(&self) -> (r: &Vec<u8>)
        ensures
            r@ == self.spec_raw(),
    {
        &self.raw
    }

    /// Brings the bounds of field `index` into scope.
    proof fn lemma_field_in_range(&self, i: int)
        requires
            self.wf(),
            0 <= i < self.spec_layout().spec_fields().len(),
        ensures
            self.spec_field_offset(i) == offset_of(self.spec_layout().spec_specs(), i),
            1 <= self.spec_field_width(i) <= 64,
            self.spec_field_offset(i) + self.spec_field_width(i)
                <= self.spec_layout().spec_total_bits(),
            self.spec_layout().spec_total_bits() <= usize::MAX,
            self.spec_raw().len() * 8 == self.spec_layout().spec_total_bits(),
    {
        assert(self.spec_layout().spec_fields()[i].spec_specifier().wf());
        lemma_offset_bound(self.spec_layout().spec_specs(), i);
    }

    /// The raw bits of field `index`, exactly as stored.
    pub fn get_field_raw(&self, index: usize) -> (r: u64)
        requires
            self.wf(),
            (index as int) < self.spec_layout().spec_fields().len(),
        ensures
            r as nat == self.spec_field_raw(index as int),
            (r as nat) < pow2(self.spec_field_width(index as int)),
    {
        proof {
            self.lemma_field_in_range(index as int);
        }
        let fd = self.layout.field(index);
        let off = fd.bit_offset();
        let width = fd.specifier().bits();
        read_bits(&self.raw, off, width)
    }

    /// Stores the low bits of `raw` as field `index`'s bits; bits of `raw`
    /// above the field's width are ignored, and no other field's bits
    /// change. This is the raw escape hatch that per-field setters build
    /// on; it can also plant an undecodable value in an enumeration field.
    pub fn set_field_raw(&mut self, index: usize, raw: u64)
        requires
            old(self).wf(),
            (index as int) < old(self).spec_layout().spec_fields().len(),
        ensures
            final(self).wf(),
            final(self).spec_layout() == old(self).spec_layout(),
            final(self).spec_raw() == spec_write_bits(
                old(self).spec_raw(),
                old(self).spec_field_offset(index as int),
                old(self).spec_field_width(index as int),
                raw as nat,
            ),
    {
        proof {
            self.lemma_field_in_range(index as int);
        }
        let fd = self.layout.field(index);
        let off = fd.bit_offset();
        let width = fd.specifier().bits();
        write_bits(&mut self.raw, off, width, raw)
    }

    /// The decoded value of field `index`. An enumeration field whose bits
    /// match no discriminant reports [`BitfieldError::DecodeError`]; every
    /// other field always decodes.
    pub fn get_field(&self, index: usize) -> (r: Result<FieldValue, BitfieldError>)
        requires
            self.wf(),
            (index as int) < self.spec_layout().spec_fields().len(),
        ensures
            self.spec_field_raw(index as int) < pow2(self.spec_field_width(index as int)),
            self.spec_layout().spec_specs()[index as int].spec_decodes(
                self.spec_field_raw(index as int) as u64,
                r,
            ),
    {
        let raw = self.get_field_raw(index);
        let fd = self.layout.field(index);
        fd.specifier().from_raw(raw)
    }

    /// Sets field `index` to the given logical value: the value is encoded
    /// by the field's specifier and its bits are written to the field's
    /// range; no other field's bits change.
    pub fn set_field(&mut self, index: usize, value: FieldValue)
        requires
            old(self).wf(),
            (index as int) < old(self).spec_layout().spec_fields().len(),
            old(self).spec_layout().spec_specs()[index as int].value_fits(value),
        ensures
            final(self).wf(),
            final(self).spec_layout() == old(self).spec_layout(),
            final(self).spec_raw() == spec_write_bits(
                old(self).spec_raw(),
                old(self).spec_field_offset(index as int),
                old(self).spec_field_width(index as int),
                old(self).spec_layout().spec_specs()[index as int].spec_value_raw(value),
            ),
    {
        proof {
            assert(self.spec_layout().spec_fields()[index as int].spec_specifier().wf());
        }
        let raw = self.layout.field(index).specifier().to_raw(value);
        self.set_field_raw(index, raw)
    }

    /// Round trip: after a write of `value` to field `i`, the field holds
    /// `value` reduced to the field's width; a value that fits the width
    /// is held unchanged.
    pub proof fn lemma_set_field_round_trip(old_rec: Record, new_rec: Record, i: int, value: nat)
        requires
            old_rec.wf(),
            new_rec.spec_layout() == old_rec.spec_layout(),
            0 <= i < old_rec.spec_layout().spec_fields().len(),
            new_rec.spec_raw() == spec_write_bits(
                old_rec.spec_raw(),
                old_rec.spec_field_offset(i),
                old_rec.spec_field_width(i),
                value,
            ),
        ensures
            new_rec.spec_field_raw(i) == value % pow2(old_rec.spec_field_width(i)),
            value < pow2(old_rec.spec_field_width(i)) ==> new_rec.spec_field_raw(i) == value,
    {
        old_rec.lemma_field_in_range(i);
        crate::bits::lemma_write_read_round_trip(
            old_rec.spec_raw(),
            old_rec.spec_field_offset(i),
            old_rec.spec_field_width(i),
            value,
        );
    }

    /// Non-interference: writing field `i` never changes the raw bits any
    /// other field `j` reads, whatever value is written.
    pub proof fn lemma_set_field_preserves_others(
        old_rec: Record,
        new_rec: Record,
        i: int,
        value: nat,
        j: int,
    )
        requires
            old_rec.wf(),
            new_rec.spec_layout() == old_rec.spec_layout(),
            0 <= i < old_rec.spec_layout().spec_fields().len(),
            0 <= j < old_rec.spec_layout().spec_fields().len(),
            i != j,
            new_rec.spec_raw() == spec_write_bits(
                old_rec.spec_raw(),
                old_rec.spec_field_offset(i),
                old_rec.spec_field_width(i),
                value,
            ),
        ensures
            new_rec.spec_field_raw(j) == old_rec.spec_field_raw(j),
    {
        let specs = old_rec.spec_layout().spec_specs();
        old_rec.lemma_field_in_range(i);
        old_rec.lemma_field_in_range(j);
        if i < j {
            lemma_fields_disjoint(specs, i, j);
        } else {
            lemma_fields_disjoint(specs, j, i);
        }
        lemma_write_non_interference(
            old_rec.spec_raw(),
            old_rec.spec_field_offset(i),
            old_rec.spec_field_width(i),
            value,
            old_rec.spec_field_offset(j),
            old_rec.spec_field_width(j),
        );
    }
}

} // verus!
