//! The migration registry: the complete, statically ordered catalog of
//! migration descriptors this build knows about.
//!
//! Serial numbers start at one and increase strictly; a descriptor is never
//! mutated or reordered once shipped, so every deployment reproduces the same
//! sequence of schema changes.

use vstd::prelude::*;

verus! {

/// An immutable unit of schema change: a strictly ordered serial number, the
/// schema-change statements run inside one transaction, and whether a data
/// backfill must follow the committed change.
#[derive(Debug, Clone, PartialEq, Eq)]
pub struct Descriptor {
    pub serial_number: i64,
    pub statements: Vec<String>,
    pub needs_backfill: bool,
}

/// The mathematical shape of a descriptor.
#[verifier::ext_equal]
pub struct DescriptorModel {
    pub serial_number: i64,
    pub statements: Seq<Seq<char>>,
    pub needs_backfill: bool,
}

impl View for Descriptor {
    type V = DescriptorModel;

    open spec fn view(&self) -> DescriptorModel {
        DescriptorModel {
            serial_number: self.serial_number,
            statements: self.statements.deep_view(),
            needs_backfill: self.needs_backfill,
        }
    }
}

/// The descriptors of a registry, as their mathematical shapes.
pub open spec fn descriptor_models(ds: Seq<Descriptor>) -> Seq<DescriptorModel> {
    ds.map_values(|d: Descriptor| d@)
}

/// A well-formed registry: serial numbers are positive and strictly
/// increasing, so application order and identity coincide.
pub open spec fn wf_registry(reg: Seq<DescriptorModel>) -> bool {
    &&& forall|i: int| 0 <= i < reg.len() ==> #[trigger] reg[i].serial_number > 0
    &&& forall|i: int, j: int|
        0 <= i < j < reg.len() ==> reg[i].serial_number < reg[j].serial_number
}

/// The mathematical shape of this build's registry: the four descriptors in
/// ascending serial order, each with its exact statement text.
pub open spec fn spec_registry() -> Seq<DescriptorModel> {
    seq![
        crate::m001::spec_migration(),
        crate::m002::spec_migration(),
        crate::m003::spec_migration(),
        crate::m004::spec_migration(),
    ]
}

/// The registry's shape: serial numbers one through four in order, the
/// tag-representation change (serial two) alone flagged for the backfill.
pub proof fn lemma_registry_shape()
    ensures
        spec_registry().len() == 4,
        forall|i: int| 0 <= i < 4 ==> (#[trigger] spec_registry()[i]).serial_number == i + 1,
        forall|i: int| 0 <= i < 4 ==> ((#[trigger] spec_registry()[i]).needs_backfill <==> i == 1),
        wf_registry(spec_registry()),
{
    assert(spec_registry()[0] == crate::m001::spec_migration());
    assert(spec_registry()[1] == crate::m002::spec_migration());
    assert(spec_registry()[2] == crate::m003::spec_migration());
    assert(spec_registry()[3] == crate::m004::spec_migration());
}

/// The complete ordered list of migration descriptors known to this build:
/// serial numbers one through four, the tag-representation change (serial
/// two) flagged as requiring the backfill. Every call returns the same
/// descriptors, statement texts included.
pub fn registry() -> (r: Vec<Descriptor>)
    ensures
        descriptor_models(r@) == spec_registry(),
        r@.len() == 4,
        forall|i: int| 0 <= i < 4 ==> (#[trigger] r@[i])@.serial_number == i + 1,
        forall|i: int| 0 <= i < 4 ==> ((#[trigger] r@[i])@.needs_backfill <==> i == 1),
        wf_registry(descriptor_models(r@)),
{
    let mut r: Vec<Descriptor> = Vec::new();
    r.push(crate::m001::migration());
    r.push(crate::m002::migration());
    r.push(crate::m003::migration());
    r.push(crate::m004::migration());
    proof {
        assert(descriptor_models(r@) =~= spec_registry());
        lemma_registry_shape();
    }
    r
}

} // verus!
