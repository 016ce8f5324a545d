//! The output data model: flat record and union definitions whose slot types
//! are all plain external references, in dependency order.

use vstd::prelude::*;

use crate::schema::{Cardinality, DefaultSpec, DefaultSpecV, TypeRef, TypeRefV};

verus! {

/// One field of a flat record, or of a fielded variant of a flat union.
#[derive(Debug)]
pub struct FlatField {
    pub name: String,
    pub ty: TypeRef,
    pub card: Cardinality,
    pub default: DefaultSpec,
    pub annotations: Vec<String>,
}

/// One positional slot of a flat union variant.
#[derive(Debug)]
pub struct FlatSlot {
    pub ty: TypeRef,
    pub card: Cardinality,
}

/// The shape of a flat union variant.
#[derive(Debug)]
pub enum FlatShape {
    Empty,
    Positional(Vec<FlatSlot>),
    Fielded(Vec<FlatField>),
}

/// One variant of a flat union definition.
#[derive(Debug)]
pub struct FlatVariant {
    pub name: String,
    pub shape: FlatShape,
    pub annotations: Vec<String>,
}

/// A flat record definition.
#[derive(Debug)]
pub struct FlatRecord {
    pub name: String,
    pub fields: Vec<FlatField>,
    pub annotations: Vec<String>,
}

/// A flat union definition.  `default_variant` is either absent or the fully
/// qualified constructor path of the default variant.
#[derive(Debug)]
pub struct FlatUnion {
    pub name: String,
    pub variants: Vec<FlatVariant>,
    pub default_variant: DefaultSpec,
    pub annotations: Vec<String>,
}

/// One entry of the flat output list.
#[derive(Debug)]
pub enum FlatDef {
    Record(FlatRecord),
    Union(FlatUnion),
}

// ---------------------------------------------------------------------------
// Spec-level twins and deep views.
// ---------------------------------------------------------------------------

pub struct FlatFieldV {
    pub name: Seq<char>,
    pub ty: TypeRefV,
    pub card: Cardinality,
    pub default: DefaultSpecV,
    pub annotations: Seq<Seq<char>>,
}

pub struct FlatSlotV {
    pub ty: TypeRefV,
    pub card: Cardinality,
}

pub enum FlatShapeV {
    Empty,
    Positional(Seq<FlatSlotV>),
    Fielded(Seq<FlatFieldV>),
}

pub struct FlatVariantV {
    pub name: Seq<char>,
    pub shape: FlatShapeV,
    pub annotations: Seq<Seq<char>>,
}

pub struct FlatRecordV {
    pub name: Seq<char>,
    pub fields: Seq<FlatFieldV>,
    pub annotations: Seq<Seq<char>>,
}

pub struct FlatUnionV {
    pub name: Seq<char>,
    pub variants: Seq<FlatVariantV>,
    pub default_variant: DefaultSpecV,
    pub annotations: Seq<Seq<char>>,
}

pub enum FlatDefV {
    Record(FlatRecordV),
    Union(FlatUnionV),
}

impl FlatField {
    pub open spec fn dv(&self) -> FlatFieldV
        decreases self,
    {
        FlatFieldV {
            name: self.name@,
            ty: self.ty.dv(),
            card: self.card,
            default: self.default.dv(),
            annotations: self.annotations.deep_view(),
        }
    }
}

impl FlatSlot {
    pub open spec fn dv(&self) -> FlatSlotV
        decreases self,
    {
        FlatSlotV { ty: self.ty.dv(), card: self.card }
    }
}

pub open spec fn flat_fields_dv(fields: Seq<FlatField>) -> Seq<FlatFieldV>
    decreases fields,
{
    if fields.len() == 0 {
        Seq::empty()
    } else {
        flat_fields_dv(fields.drop_last()).push(fields.last().dv())
    }
}

pub broadcast proof fn lemma_flat_fields_dv(fields: Seq<FlatField>)
    ensures
        (#[trigger] flat_fields_dv(fields)).len() == fields.len(),
        forall|i: int| 0 <= i < fields.len() ==> flat_fields_dv(fields)[i] == fields[i].dv(),
    decreases fields,
{
    if fields.len() > 0 {
        lemma_flat_fields_dv(fields.drop_last());
    }
}

pub open spec fn flat_slots_dv(slots: Seq<FlatSlot>) -> Seq<FlatSlotV>
    decreases slots,
{
    if slots.len() == 0 {
        Seq::empty()
    } else {
        flat_slots_dv(slots.drop_last()).push(slots.last().dv())
    }
}

pub broadcast proof fn lemma_flat_slots_dv(slots: Seq<FlatSlot>)
    ensures
        (#[trigger] flat_slots_dv(slots)).len() == slots.len(),
        forall|i: int| 0 <= i < slots.len() ==> flat_slots_dv(slots)[i] == slots[i].dv(),
    decreases slots,
{
    if slots.len() > 0 {
        lemma_flat_slots_dv(slots.drop_last());
    }
}

impl FlatShape {
    pub open spec fn dv(&self) -> FlatShapeV
        decreases self,
    {
        match self {
            FlatShape::Empty => FlatShapeV::Empty,
            FlatShape::Positional(slots) => FlatShapeV::Positional(flat_slots_dv(slots@)),
            FlatShape::Fielded(fields) => FlatShapeV::Fielded(flat_fields_dv(fields@)),
        }
    }
}

impl FlatVariant {
    pub open spec fn dv(&self) -> FlatVariantV
        decreases self,
    {
        FlatVariantV {
            name: self.name@,
            shape: self.shape.dv(),
            annotations: self.annotations.deep_view(),
        }
    }
}

pub open spec fn flat_variants_dv(variants: Seq<FlatVariant>) -> Seq<FlatVariantV>
    decreases variants,
{
    if variants.len() == 0 {
        Seq::empty()
    } else {
        flat_variants_dv(variants.drop_last()).push(variants.last().dv())
    }
}

pub broadcast proof fn lemma_flat_variants_dv(variants: Seq<FlatVariant>)
    ensures
        (#[trigger] flat_variants_dv(variants)).len() == variants.len(),
        forall|i: int|
            0 <= i < variants.len() ==> flat_variants_dv(variants)[i] == variants[i].dv(),
    decreases variants,
{
    if variants.len() > 0 {
        lemma_flat_variants_dv(variants.drop_last());
    }
}

impl FlatRecord {
    pub open spec fn dv(&self) -> FlatRecordV
        decreases self,
    {
        FlatRecordV {
            name: self.name@,
            fields: flat_fields_dv(self.fields@),
            annotations: self.annotations.deep_view(),
        }
    }
}

impl FlatUnion {
    pub open spec fn dv(&self) -> FlatUnionV
        decreases self,
    {
        FlatUnionV {
            name: self.name@,
            variants: flat_variants_dv(self.variants@),
            default_variant: self.default_variant.dv(),
            annotations: self.annotations.deep_view(),
        }
    }
}

impl FlatDef {
    pub open spec fn dv(&self) -> FlatDefV
        decreases self,
    {
        match self {
            FlatDef::Record(r) => FlatDefV::Record(r.dv()),
            FlatDef::Union(u) => FlatDefV::Union(u.dv()),
        }
    }
}

pub open spec fn flat_defs_dv(defs: Seq<FlatDef>) -> Seq<FlatDefV>
    decreases defs,
{
    if defs.len() == 0 {
        Seq::empty()
    } else {
        flat_defs_dv(defs.drop_last()).push(defs.last().dv())
    }
}

pub broadcast proof fn lemma_flat_defs_dv(defs: Seq<FlatDef>)
    ensures
        (#[trigger] flat_defs_dv(defs)).len() == defs.len(),
        forall|i: int| 0 <= i < defs.len() ==> flat_defs_dv(defs)[i] == defs[i].dv(),
    decreases defs,
{
    if defs.len() > 0 {
        lemma_flat_defs_dv(defs.drop_last());
    }
}

pub proof fn lemma_flat_defs_dv_concat(a: Seq<FlatDef>, b: Seq<FlatDef>)
    ensures
        flat_defs_dv(a + b) == flat_defs_dv(a) + flat_defs_dv(b),
{
    lemma_flat_defs_dv(a);
    lemma_flat_defs_dv(b);
    lemma_flat_defs_dv(a + b);
    assert(flat_defs_dv(a + b) =~= flat_defs_dv(a) + flat_defs_dv(b));
}

pub proof fn lemma_flat_fields_dv_concat(a: Seq<FlatField>, b: Seq<FlatField>)
    ensures
        flat_fields_dv(a + b) == flat_fields_dv(a) + flat_fields_dv(b),
{
    lemma_flat_fields_dv(a);
    lemma_flat_fields_dv(b);
    lemma_flat_fields_dv(a + b);
    assert(flat_fields_dv(a + b) =~= flat_fields_dv(a) + flat_fields_dv(b));
}

pub proof fn lemma_flat_slots_dv_concat(a: Seq<FlatSlot>, b: Seq<FlatSlot>)
    ensures
        flat_slots_dv(a + b) == flat_slots_dv(a) + flat_slots_dv(b),
{
    lemma_flat_slots_dv(a);
    lemma_flat_slots_dv(b);
    lemma_flat_slots_dv(a + b);
    assert(flat_slots_dv(a + b) =~= flat_slots_dv(a) + flat_slots_dv(b));
}

pub proof fn lemma_flat_variants_dv_concat(a: Seq<FlatVariant>, b: Seq<FlatVariant>)
    ensures
        flat_variants_dv(a + b) == flat_variants_dv(a) + flat_variants_dv(b),
{
    lemma_flat_variants_dv(a);
    lemma_flat_variants_dv(b);
    lemma_flat_variants_dv(a + b);
    assert(flat_variants_dv(a + b) =~= flat_variants_dv(a) + flat_variants_dv(b));
}

pub proof fn lemma_flat_defs_dv_push(s: Seq<FlatDef>, d: FlatDef)
    ensures
        flat_defs_dv(s.push(d)) == flat_defs_dv(s).push(d.dv()),
{
    assert(s.push(d).drop_last() =~= s);
    assert(s.push(d).last() == d);
}

pub proof fn lemma_flat_fields_dv_push(s: Seq<FlatField>, f: FlatField)
    ensures
        flat_fields_dv(s.push(f)) == flat_fields_dv(s).push(f.dv()),
{
    assert(s.push(f).drop_last() =~= s);
    assert(s.push(f).last() == f);
}

pub proof fn lemma_flat_slots_dv_push(s: Seq<FlatSlot>, x: FlatSlot)
    ensures
        flat_slots_dv(s.push(x)) == flat_slots_dv(s).push(x.dv()),
{
    assert(s.push(x).drop_last() =~= s);
    assert(s.push(x).last() == x);
}

pub proof fn lemma_flat_variants_dv_push(s: Seq<FlatVariant>, x: FlatVariant)
    ensures
        flat_variants_dv(s.push(x)) == flat_variants_dv(s).push(x.dv()),
{
    assert(s.push(x).drop_last() =~= s);
    assert(s.push(x).last() == x);
}

// ---------------------------------------------------------------------------
// Well-formedness: no nesting survives flattening.
// ---------------------------------------------------------------------------

pub open spec fn field_external(f: FlatFieldV) -> bool {
    f.ty is External
}

pub open spec fn all_fields_external(fields: Seq<FlatFieldV>) -> bool {
    forall|i: int| 0 <= i < fields.len() ==> field_external(#[trigger] fields[i])
}

pub open spec fn all_slots_external(slots: Seq<FlatSlotV>) -> bool {
    forall|i: int| 0 <= i < slots.len() ==> (#[trigger] slots[i]).ty is External
}

pub open spec fn shape_external(s: FlatShapeV) -> bool {
    match s {
        FlatShapeV::Empty => true,
        FlatShapeV::Positional(slots) => all_slots_external(slots),
        FlatShapeV::Fielded(fields) => all_fields_external(fields),
    }
}

pub open spec fn all_variants_external(variants: Seq<FlatVariantV>) -> bool {
    forall|i: int| 0 <= i < variants.len() ==> shape_external((#[trigger] variants[i]).shape)
}

/// Every field and variant slot of the definition is a plain external
/// reference: no inline schema survives flattening.
pub open spec fn def_external(d: FlatDefV) -> bool {
    match d {
        FlatDefV::Record(r) => all_fields_external(r.fields),
        FlatDefV::Union(u) => all_variants_external(u.variants),
    }
}

pub open spec fn defs_external(defs: Seq<FlatDefV>) -> bool {
    forall|i: int| 0 <= i < defs.len() ==> def_external(#[trigger] defs[i])
}

// ---------------------------------------------------------------------------
// Names defined and names referenced, for the dependency-order law.
// ---------------------------------------------------------------------------

pub open spec fn def_name(d: FlatDefV) -> Seq<char> {
    match d {
        FlatDefV::Record(r) => r.name,
        FlatDefV::Union(u) => u.name,
    }
}

pub open spec fn fields_reference(fields: Seq<FlatFieldV>, x: Seq<char>) -> bool {
    exists|i: int| 0 <= i < fields.len() && (#[trigger] fields[i]).ty == TypeRefV::External(x)
}

pub open spec fn slots_reference(slots: Seq<FlatSlotV>, x: Seq<char>) -> bool {
    exists|i: int| 0 <= i < slots.len() && (#[trigger] slots[i]).ty == TypeRefV::External(x)
}

pub open spec fn shape_references(s: FlatShapeV, x: Seq<char>) -> bool {
    match s {
        FlatShapeV::Empty => false,
        FlatShapeV::Positional(slots) => slots_reference(slots, x),
        FlatShapeV::Fielded(fields) => fields_reference(fields, x),
    }
}

pub open spec fn variants_reference(variants: Seq<FlatVariantV>, x: Seq<char>) -> bool {
    exists|i: int|
        0 <= i < variants.len() && shape_references((#[trigger] variants[i]).shape, x)
}

/// Whether the definition refers to the type name `x` in any of its slots.
pub open spec fn def_references(d: FlatDefV, x: Seq<char>) -> bool {
    match d {
        FlatDefV::Record(r) => fields_reference(r.fields, x),
        FlatDefV::Union(u) => variants_reference(u.variants, x),
    }
}

pub open spec fn defs_define(defs: Seq<FlatDefV>, x: Seq<char>) -> bool {
    exists|j: int| 0 <= j < defs.len() && def_name(#[trigger] defs[j]) == x
}

/// Every reference to a name that the list defines at all is satisfied by an
/// entry strictly before the referencing one.
pub open spec fn dependency_ordered(defs: Seq<FlatDefV>) -> bool {
    forall|i: int, x: Seq<char>|
        0 <= i < defs.len() && #[trigger] def_references(defs[i], x) && defs_define(defs, x)
            ==> exists|j: int| 0 <= j < i && def_name(#[trigger] defs[j]) == x
}

} // verus!
