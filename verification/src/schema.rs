//! The input data model: a recursive description of record and tagged-union
//! schemas, together with its mathematical (spec-level) counterpart and the
//! size measure that bounds every traversal of a tree.

use vstd::prelude::*;

verus! {

/// Visibility of a flattened union definition.
#[derive(Debug, Clone, Copy, PartialEq, Eq, Structural)]
pub enum DeriveVisibility {
    Public,
    PublicOnCrate,
}

/// Visibility of a flattened record definition.
#[derive(Debug, Clone, Copy, PartialEq, Eq, Structural)]
pub enum DeriveStructVisibility {
    Public,
    PublicOnCrate,
}

/// Visibility of the literal-builder rule sets that accompany a definition.
#[derive(Debug, Clone, Copy, PartialEq, Eq, Structural)]
pub enum DeriveAutoMacrosVisibility {
    Public,
    PublicOnCrate,
}

/// The name of a schema node: given by the user, not yet given, or
/// synthesised as the `n`-th anonymous schema under a root.
#[derive(Debug, Clone, PartialEq, Eq)]
pub enum SchemaName {
    Named(String),
    Anonymous,
    Assigned(String, u64),
}

/// Optionality and collection wrapping applied to a slot's type.
#[derive(Debug, Clone, Copy, PartialEq, Eq, Structural)]
pub enum Cardinality {
    Plain,
    Optional,
    Collection,
    OptionalCollection,
}

/// The two annotation buckets of a node: tags that apply to the node alone,
/// and tags that are re-injected into every descendant during flattening.
#[derive(Debug, Clone, PartialEq, Eq)]
pub struct Annotations {
    pub self_only: Vec<String>,
    pub recursive: Vec<String>,
}

/// A field's default: absent, a single expression, or a list of expressions
/// forming a collection literal.  Expressions are opaque handles.
#[derive(Debug, Clone, PartialEq, Eq)]
pub enum DefaultSpec {
    Absent,
    Single(String),
    Array(Vec<String>),
}

/// A reference to the type of a field or variant slot: either an existing
/// external type used verbatim, or an anonymous inline schema, used as a
/// single value or as an ordered collection.
#[derive(Debug)]
pub enum TypeRef {
    External(String),
    InlineRecord(Box<RecordSchema>),
    InlineRecordCollection(Box<RecordSchema>),
    InlineUnion(Box<UnionSchema>),
    InlineUnionCollection(Box<UnionSchema>),
}

/// One record field.
#[derive(Debug)]
pub struct FieldDef {
    pub name: String,
    pub ty: TypeRef,
    pub card: Cardinality,
    pub default: DefaultSpec,
    pub annotations: Annotations,
}

/// One positional slot of a union variant.
#[derive(Debug)]
pub struct SlotDef {
    pub ty: TypeRef,
    pub card: Cardinality,
}

/// The shape of a union variant: empty, positional slots, or named fields.
#[derive(Debug)]
pub enum VariantShape {
    Empty,
    Positional(Vec<SlotDef>),
    Fielded(Vec<FieldDef>),
}

/// One union variant.
#[derive(Debug)]
pub struct VariantDef {
    pub name: String,
    pub shape: VariantShape,
    pub annotations: Annotations,
}

/// A record schema: an ordered list of fields.
#[derive(Debug)]
pub struct RecordSchema {
    pub name: SchemaName,
    pub visibility: DeriveStructVisibility,
    pub macros_visibility: DeriveAutoMacrosVisibility,
    pub fields: Vec<FieldDef>,
    pub annotations: Annotations,
}

/// A union schema: an ordered list of variants and an optional default
/// variant expression.
#[derive(Debug)]
pub struct UnionSchema {
    pub name: SchemaName,
    pub visibility: DeriveVisibility,
    pub macros_visibility: DeriveAutoMacrosVisibility,
    pub variants: Vec<VariantDef>,
    pub default_variant: Option<String>,
    pub annotations: Annotations,
}

// ---------------------------------------------------------------------------
// Spec-level twins.
// ---------------------------------------------------------------------------

pub enum SchemaNameV {
    Named(Seq<char>),
    Anonymous,
    Assigned(Seq<char>, u64),
}

pub struct AnnotationsV {
    pub self_only: Seq<Seq<char>>,
    pub recursive: Seq<Seq<char>>,
}

pub enum DefaultSpecV {
    Absent,
    Single(Seq<char>),
    Array(Seq<Seq<char>>),
}

pub enum TypeRefV {
    External(Seq<char>),
    InlineRecord(RecordSchemaV),
    InlineRecordCollection(RecordSchemaV),
    InlineUnion(UnionSchemaV),
    InlineUnionCollection(UnionSchemaV),
}

pub struct FieldDefV {
    pub name: Seq<char>,
    pub ty: TypeRefV,
    pub card: Cardinality,
    pub default: DefaultSpecV,
    pub annotations: AnnotationsV,
}

pub struct SlotDefV {
    pub ty: TypeRefV,
    pub card: Cardinality,
}

pub enum VariantShapeV {
    Empty,
    Positional(Seq<SlotDefV>),
    Fielded(Seq<FieldDefV>),
}

pub struct VariantDefV {
    pub name: Seq<char>,
    pub shape: VariantShapeV,
    pub annotations: AnnotationsV,
}

pub struct RecordSchemaV {
    pub name: SchemaNameV,
    pub visibility: DeriveStructVisibility,
    pub macros_visibility: DeriveAutoMacrosVisibility,
    pub fields: Seq<FieldDefV>,
    pub annotations: AnnotationsV,
}

pub struct UnionSchemaV {
    pub name: SchemaNameV,
    pub visibility: DeriveVisibility,
    pub macros_visibility: DeriveAutoMacrosVisibility,
    pub variants: Seq<VariantDefV>,
    pub default_variant: Option<Seq<char>>,
    pub annotations: AnnotationsV,
}

// ---------------------------------------------------------------------------
// Deep views from the executable model into the spec-level twins.
// ---------------------------------------------------------------------------

impl SchemaName {
    pub open spec fn dv(&self) -> SchemaNameV {
        match self {
            SchemaName::Named(s) => SchemaNameV::Named(s@),
            SchemaName::Anonymous => SchemaNameV::Anonymous,
            SchemaName::Assigned(r, n) => SchemaNameV::Assigned(r@, *n),
        }
    }
}

impl Annotations {
    pub open spec fn dv(&self) -> AnnotationsV {
        AnnotationsV { self_only: self.self_only.deep_view(), recursive: self.recursive.deep_view() }
    }
}

impl DefaultSpec {
    pub open spec fn dv(&self) -> DefaultSpecV {
        match self {
            DefaultSpec::Absent => DefaultSpecV::Absent,
            DefaultSpec::Single(e) => DefaultSpecV::Single(e@),
            DefaultSpec::Array(es) => DefaultSpecV::Array(es.deep_view()),
        }
    }
}

impl TypeRef {
    pub open spec fn dv(&self) -> TypeRefV
        decreases self,
    {
        match self {
            TypeRef::External(s) => TypeRefV::External(s@),
            TypeRef::InlineRecord(r) => TypeRefV::InlineRecord(r.dv()),
            TypeRef::InlineRecordCollection(r) => TypeRefV::InlineRecordCollection(r.dv()),
            TypeRef::InlineUnion(u) => TypeRefV::InlineUnion(u.dv()),
            TypeRef::InlineUnionCollection(u) => TypeRefV::InlineUnionCollection(u.dv()),
        }
    }
}

impl FieldDef {
    pub open spec fn dv(&self) -> FieldDefV
        decreases self,
    {
        FieldDefV {
            name: self.name@,
            ty: self.ty.dv(),
            card: self.card,
            default: self.default.dv(),
            annotations: self.annotations.dv(),
        }
    }
}

impl SlotDef {
    pub open spec fn dv(&self) -> SlotDefV
        decreases self,
    {
        SlotDefV { ty: self.ty.dv(), card: self.card }
    }
}

pub open spec fn fields_dv(fields: Seq<FieldDef>) -> Seq<FieldDefV>
    decreases fields,
{
    if fields.len() == 0 {
        Seq::empty()
    } else {
        fields_dv(fields.drop_last()).push(fields.last().dv())
    }
}

pub broadcast proof fn lemma_fields_dv(fields: Seq<FieldDef>)
    ensures
        (#[trigger] fields_dv(fields)).len() == fields.len(),
        forall|i: int| 0 <= i < fields.len() ==> fields_dv(fields)[i] == fields[i].dv(),
    decreases fields,
{
    if fields.len() > 0 {
        lemma_fields_dv(fields.drop_last());
    }
}

pub open spec fn slots_dv(slots: Seq<SlotDef>) -> Seq<SlotDefV>
    decreases slots,
{
    if slots.len() == 0 {
        Seq::empty()
    } else {
        slots_dv(slots.drop_last()).push(slots.last().dv())
    }
}

pub broadcast proof fn lemma_slots_dv(slots: Seq<SlotDef>)
    ensures
        (#[trigger] slots_dv(slots)).len() == slots.len(),
        forall|i: int| 0 <= i < slots.len() ==> slots_dv(slots)[i] == slots[i].dv(),
    decreases slots,
{
    if slots.len() > 0 {
        lemma_slots_dv(slots.drop_last());
    }
}

impl VariantShape {
    pub open spec fn dv(&self) -> VariantShapeV
        decreases self,
    {
        match self {
            VariantShape::Empty => VariantShapeV::Empty,
            VariantShape::Positional(slots) => VariantShapeV::Positional(slots_dv(slots@)),
            VariantShape::Fielded(fields) => VariantShapeV::Fielded(fields_dv(fields@)),
        }
    }
}

impl VariantDef {
    pub open spec fn dv(&self) -> VariantDefV
        decreases self,
    {
        VariantDefV { name: self.name@, shape: self.shape.dv(), annotations: self.annotations.dv() }
    }
}

pub open spec fn variants_dv(variants: Seq<VariantDef>) -> Seq<VariantDefV>
    decreases variants,
{
    if variants.len() == 0 {
        Seq::empty()
    } else {
        variants_dv(variants.drop_last()).push(variants.last().dv())
    }
}

pub broadcast proof fn lemma_variants_dv(variants: Seq<VariantDef>)
    ensures
        (#[trigger] variants_dv(variants)).len() == variants.len(),
        forall|i: int| 0 <= i < variants.len() ==> variants_dv(variants)[i] == variants[i].dv(),
    decreases variants,
{
    if variants.len() > 0 {
        lemma_variants_dv(variants.drop_last());
    }
}

impl RecordSchema {
    pub open spec fn dv(&self) -> RecordSchemaV
        decreases self,
    {
        RecordSchemaV {
            name: self.name.dv(),
            visibility: self.visibility,
            macros_visibility: self.macros_visibility,
            fields: fields_dv(self.fields@),
            annotations: self.annotations.dv(),
        }
    }
}

impl UnionSchema {
    pub open spec fn dv(&self) -> UnionSchemaV
        decreases self,
    {
        UnionSchemaV {
            name: self.name.dv(),
            visibility: self.visibility,
            macros_visibility: self.macros_visibility,
            variants: variants_dv(self.variants@),
            default_variant: match self.default_variant {
                Option::Some(e) => Option::Some(e@),
                Option::None => Option::None,
            },
            annotations: self.annotations.dv(),
        }
    }
}

// ---------------------------------------------------------------------------
// The size measure.  Every node weighs at least one; a tree's weight bounds
// both the number of identities the flattening pass can assign below it and
// the nesting depth it can reach, so a single machine-limit precondition on
// the entry operations covers every counter in the pass.
// ---------------------------------------------------------------------------

pub open spec fn weight_type_ref(t: TypeRefV) -> nat
    decreases t,
{
    match t {
        TypeRefV::External(_) => 1,
        TypeRefV::InlineRecord(r) => 1 + weight_record(r),
        TypeRefV::InlineRecordCollection(r) => 1 + weight_record(r),
        TypeRefV::InlineUnion(u) => 1 + weight_union(u),
        TypeRefV::InlineUnionCollection(u) => 1 + weight_union(u),
    }
}

pub open spec fn weight_fields_from(fields: Seq<FieldDefV>, i: int) -> nat
    decreases fields, fields.len() - i,
{
    if i < 0 || i >= fields.len() {
        0
    } else {
        1 + weight_type_ref(fields[i].ty) + weight_fields_from(fields, i + 1)
    }
}

pub open spec fn weight_slots_from(slots: Seq<SlotDefV>, i: int) -> nat
    decreases slots, slots.len() - i,
{
    if i < 0 || i >= slots.len() {
        0
    } else {
        1 + weight_type_ref(slots[i].ty) + weight_slots_from(slots, i + 1)
    }
}

pub open spec fn weight_shape(shape: VariantShapeV) -> nat
    decreases shape,
{
    match shape {
        VariantShapeV::Empty => 1,
        VariantShapeV::Positional(slots) => 1 + weight_slots_from(slots, 0),
        VariantShapeV::Fielded(fields) => 1 + weight_fields_from(fields, 0),
    }
}

pub open spec fn weight_variants_from(variants: Seq<VariantDefV>, i: int) -> nat
    decreases variants, variants.len() - i,
{
    if i < 0 || i >= variants.len() {
        0
    } else {
        1 + weight_shape(variants[i].shape) + weight_variants_from(variants, i + 1)
    }
}

pub open spec fn weight_record(r: RecordSchemaV) -> nat
    decreases r,
{
    1 + weight_fields_from(r.fields, 0)
}

pub open spec fn weight_union(u: UnionSchemaV) -> nat
    decreases u,
{
    1 + weight_variants_from(u.variants, 0)
}

} // verus!
