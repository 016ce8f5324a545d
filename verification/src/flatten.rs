//! The flattening engine.
//!
//! A schema tree is rewritten, depth first and in declaration order, into an
//! ordered list of flat definitions.  Identities are assigned pre-order: a
//! node receives its identity before any of its descendants.  Definitions
//! are emitted post-order: the definitions of a node's inline children are
//! appended before the node's own definition, which yields
//! dependency-before-use ordering of the output list.  Structural errors
//! (anonymous root, duplicate names within one level, collection-of-
//! collection cardinality) abort the whole pass.
//!
//! The executable functions mirror, step for step, the spec-level functions
//! `flat_record_spec` and `flat_union_spec` below, which are the reference
//! semantics of the pass.

use vstd::prelude::*;
use vstd::string::StringExecFns;

use crate::annotate::{
    append_strings, child_inherited, child_inherited_spec, copy_strings, effective_annotations,
    effective_spec, first_duplicate, first_duplicate_spec,
};
use crate::flat::{
    flat_defs_dv, flat_fields_dv, flat_slots_dv, flat_variants_dv, lemma_flat_defs_dv,
    lemma_flat_fields_dv, lemma_flat_slots_dv, lemma_flat_variants_dv, FlatDef, FlatDefV,
    FlatField, FlatFieldV, FlatRecord, FlatRecordV, FlatShape, FlatShapeV, FlatSlot, FlatSlotV,
    FlatUnion, FlatUnionV, FlatVariant, FlatVariantV,
};
use crate::names::{assign_name, assign_spec, identity_of, FlattenError, FlattenErrorV};
use crate::schema::{
    fields_dv, lemma_fields_dv, lemma_slots_dv, lemma_variants_dv, slots_dv, variants_dv,
    weight_fields_from, weight_record, weight_shape, weight_slots_from, weight_type_ref,
    weight_union, weight_variants_from, Annotations, AnnotationsV, Cardinality, DefaultSpec,
    DefaultSpecV, FieldDef, FieldDefV, RecordSchema, RecordSchemaV, SlotDef, SlotDefV, TypeRef,
    TypeRefV, UnionSchema, UnionSchemaV, VariantDef, VariantDefV, VariantShape, VariantShapeV,
};

verus! {

broadcast use lemma_fields_dv, lemma_slots_dv, lemma_variants_dv, lemma_flat_defs_dv,
    lemma_flat_fields_dv, lemma_flat_slots_dv, lemma_flat_variants_dv;

// ---------------------------------------------------------------------------
// Cardinality composition.
// ---------------------------------------------------------------------------

/// Composes a slot's declared cardinality with the collection-ness of its
/// inline schema.  The collection wrapper comes from the inline position,
/// the optional wrapper from the declared cardinality; a declared
/// cardinality that carries its own collection wrapper on top of a
/// collection position would nest two collections, which is malformed.
pub open spec fn compose_card_spec(card: Cardinality, inner_collection: bool) -> Option<
    Cardinality,
> {
    if !inner_collection {
        Option::Some(card)
    } else {
        match card {
            Cardinality::Plain => Option::Some(Cardinality::Collection),
            Cardinality::Optional => Option::Some(Cardinality::OptionalCollection),
            Cardinality::Collection => Option::None,
            Cardinality::OptionalCollection => Option::None,
        }
    }
}

pub fn compose_card(card: Cardinality, inner_collection: bool) -> (r: Option<Cardinality>)
    ensures
        r == compose_card_spec(card, inner_collection),
{
    if !inner_collection {
        Some(card)
    } else {
        match card {
            Cardinality::Plain => Some(Cardinality::Collection),
            Cardinality::Optional => Some(Cardinality::OptionalCollection),
            Cardinality::Collection => None,
            Cardinality::OptionalCollection => None,
        }
    }
}

// ---------------------------------------------------------------------------
// Names of one level, for duplicate detection.
// ---------------------------------------------------------------------------

pub open spec fn field_names(fields: Seq<FieldDefV>) -> Seq<Seq<char>> {
    Seq::new(fields.len(), |i: int| fields[i].name)
}

pub open spec fn variant_names(variants: Seq<VariantDefV>) -> Seq<Seq<char>> {
    Seq::new(variants.len(), |i: int| variants[i].name)
}

// ---------------------------------------------------------------------------
// The reference semantics of the pass.
// ---------------------------------------------------------------------------

/// Flattens one slot type.  An external reference passes through unchanged
/// with its declared cardinality; an inline schema is assigned an identity,
/// flattened recursively (its definitions come first), and the slot is
/// rewritten to an external reference to that identity with the composed
/// cardinality.
pub open spec fn flat_slot_ty_spec(
    ty: TypeRefV,
    card: Cardinality,
    slot_name: Seq<char>,
    site: AnnotationsV,
    root: Seq<char>,
    ctr: nat,
    inh: Seq<Seq<char>>,
    depth: nat,
) -> Result<(Seq<FlatDefV>, TypeRefV, Cardinality, nat), FlattenErrorV>
    decreases weight_type_ref(ty),
{
    match ty {
        TypeRefV::External(s) => Result::Ok((Seq::empty(), TypeRefV::External(s), card, ctr)),
        TypeRefV::InlineRecord(r) => match flat_record_spec(r, root, ctr, inh, site, depth + 1) {
            Result::Ok((defs, id, c1)) => Result::Ok((defs, TypeRefV::External(id), card, c1)),
            Result::Err(e) => Result::Err(e),
        },
        TypeRefV::InlineRecordCollection(r) => match compose_card_spec(card, true) {
            Option::None => Result::Err(
                FlattenErrorV::MalformedCardinality { name: slot_name, depth: depth as u64 },
            ),
            Option::Some(c) => match flat_record_spec(r, root, ctr, inh, site, depth + 1) {
                Result::Ok((defs, id, c1)) => Result::Ok((defs, TypeRefV::External(id), c, c1)),
                Result::Err(e) => Result::Err(e),
            },
        },
        TypeRefV::InlineUnion(u) => match flat_union_spec(u, root, ctr, inh, site, depth + 1) {
            Result::Ok((defs, id, c1)) => Result::Ok((defs, TypeRefV::External(id), card, c1)),
            Result::Err(e) => Result::Err(e),
        },
        TypeRefV::InlineUnionCollection(u) => match compose_card_spec(card, true) {
            Option::None => Result::Err(
                FlattenErrorV::MalformedCardinality { name: slot_name, depth: depth as u64 },
            ),
            Option::Some(c) => match flat_union_spec(u, root, ctr, inh, site, depth + 1) {
                Result::Ok((defs, id, c1)) => Result::Ok((defs, TypeRefV::External(id), c, c1)),
                Result::Err(e) => Result::Err(e),
            },
        },
    }
}

/// Flattens the fields of one level from index `i` on.  Each field's inline
/// definitions are emitted before those of the fields after it.
pub open spec fn flat_fields_spec(
    fields: Seq<FieldDefV>,
    i: int,
    root: Seq<char>,
    ctr: nat,
    inh: Seq<Seq<char>>,
    depth: nat,
) -> Result<(Seq<FlatDefV>, Seq<FlatFieldV>, nat), FlattenErrorV>
    decreases weight_fields_from(fields, i),
{
    if i < 0 || i >= fields.len() {
        Result::Ok((Seq::empty(), Seq::empty(), ctr))
    } else {
        let f = fields[i];
        match flat_slot_ty_spec(f.ty, f.card, f.name, f.annotations, root, ctr, inh, depth) {
            Result::Err(e) => Result::Err(e),
            Result::Ok((sub_defs, rty, rcard, c1)) => {
                let ff = FlatFieldV {
                    name: f.name,
                    ty: rty,
                    card: rcard,
                    default: f.default,
                    annotations: f.annotations.self_only,
                };
                match flat_fields_spec(fields, i + 1, root, c1, inh, depth) {
                    Result::Err(e) => Result::Err(e),
                    Result::Ok((rest_defs, rest_ffs, c2)) => Result::Ok(
                        (sub_defs + rest_defs, seq![ff] + rest_ffs, c2),
                    ),
                }
            },
        }
    }
}

/// Flattens the positional slots of one variant from index `i` on.
pub open spec fn flat_slots_spec(
    slots: Seq<SlotDefV>,
    i: int,
    vname: Seq<char>,
    site: AnnotationsV,
    root: Seq<char>,
    ctr: nat,
    inh: Seq<Seq<char>>,
    depth: nat,
) -> Result<(Seq<FlatDefV>, Seq<FlatSlotV>, nat), FlattenErrorV>
    decreases weight_slots_from(slots, i),
{
    if i < 0 || i >= slots.len() {
        Result::Ok((Seq::empty(), Seq::empty(), ctr))
    } else {
        let s = slots[i];
        match flat_slot_ty_spec(s.ty, s.card, vname, site, root, ctr, inh, depth) {
            Result::Err(e) => Result::Err(e),
            Result::Ok((sub_defs, rty, rcard, c1)) => {
                let fs = FlatSlotV { ty: rty, card: rcard };
                match flat_slots_spec(slots, i + 1, vname, site, root, c1, inh, depth) {
                    Result::Err(e) => Result::Err(e),
                    Result::Ok((rest_defs, rest_fss, c2)) => Result::Ok(
                        (sub_defs + rest_defs, seq![fs] + rest_fss, c2),
                    ),
                }
            },
        }
    }
}

/// Flattens the shape of one variant.
pub open spec fn flat_shape_spec(
    shape: VariantShapeV,
    vname: Seq<char>,
    vann: AnnotationsV,
    root: Seq<char>,
    ctr: nat,
    inh: Seq<Seq<char>>,
    depth: nat,
) -> Result<(Seq<FlatDefV>, FlatShapeV, nat), FlattenErrorV>
    decreases weight_shape(shape),
{
    match shape {
        VariantShapeV::Empty => Result::Ok((Seq::empty(), FlatShapeV::Empty, ctr)),
        VariantShapeV::Positional(slots) => match flat_slots_spec(
            slots,
            0,
            vname,
            vann,
            root,
            ctr,
            inh,
            depth,
        ) {
            Result::Err(e) => Result::Err(e),
            Result::Ok((defs, fss, c1)) => Result::Ok((defs, FlatShapeV::Positional(fss), c1)),
        },
        VariantShapeV::Fielded(fields) => match first_duplicate_spec(field_names(fields)) {
            Option::Some(n) => Result::Err(
                FlattenErrorV::DuplicateField { name: n, depth: depth as u64 },
            ),
            Option::None => match flat_fields_spec(fields, 0, root, ctr, inh, depth) {
                Result::Err(e) => Result::Err(e),
                Result::Ok((defs, ffs, c1)) => Result::Ok((defs, FlatShapeV::Fielded(ffs), c1)),
            },
        },
    }
}

/// Flattens the variants of a union from index `i` on.  A variant's own
/// recursive tags are handed down to the schemas nested inside it.
pub open spec fn flat_variants_spec(
    variants: Seq<VariantDefV>,
    i: int,
    root: Seq<char>,
    ctr: nat,
    inh: Seq<Seq<char>>,
    depth: nat,
) -> Result<(Seq<FlatDefV>, Seq<FlatVariantV>, nat), FlattenErrorV>
    decreases weight_variants_from(variants, i),
{
    if i < 0 || i >= variants.len() {
        Result::Ok((Seq::empty(), Seq::empty(), ctr))
    } else {
        let v = variants[i];
        let inh_v = inh + v.annotations.recursive;
        let step = flat_shape_spec(v.shape, v.name, v.annotations, root, ctr, inh_v, depth);
        match step {
            Result::Err(e) => Result::Err(e),
            Result::Ok((sub_defs, shape, c1)) => {
                let fv = FlatVariantV {
                    name: v.name,
                    shape: shape,
                    annotations: v.annotations.self_only,
                };
                match flat_variants_spec(variants, i + 1, root, c1, inh, depth) {
                    Result::Err(e) => Result::Err(e),
                    Result::Ok((rest_defs, rest_fvs, c2)) => Result::Ok(
                        (sub_defs + rest_defs, seq![fv] + rest_fvs, c2),
                    ),
                }
            },
        }
    }
}

/// Flattens a record schema: assigns its identity, rejects duplicate field
/// names at this level, flattens every field, and appends the record's own
/// flat definition after those of its inline children.
pub open spec fn flat_record_spec(
    r: RecordSchemaV,
    root: Seq<char>,
    ctr: nat,
    inh: Seq<Seq<char>>,
    site: AnnotationsV,
    depth: nat,
) -> Result<(Seq<FlatDefV>, Seq<char>, nat), FlattenErrorV>
    decreases weight_record(r),
{
    let (name1, c1) = assign_spec(r.name, root, ctr);
    let identity = identity_of(name1);
    match first_duplicate_spec(field_names(r.fields)) {
        Option::Some(n) => Result::Err(
            FlattenErrorV::DuplicateField { name: n, depth: depth as u64 },
        ),
        Option::None => {
            let eff = effective_spec(site, r.annotations, inh);
            let inh1 = child_inherited_spec(site, r.annotations, inh);
            match flat_fields_spec(r.fields, 0, root, c1, inh1, depth) {
                Result::Err(e) => Result::Err(e),
                Result::Ok((defs, ffs, c2)) => Result::Ok(
                    (
                        defs.push(
                            FlatDefV::Record(
                                FlatRecordV { name: identity, fields: ffs, annotations: eff },
                            ),
                        ),
                        identity,
                        c2,
                    ),
                ),
            }
        },
    }
}

/// The fully qualified constructor path of a union's default variant.
pub open spec fn default_path_spec(expr: Seq<char>) -> Seq<char> {
    "Self::"@ + expr
}

/// Flattens a union schema, as `flat_record_spec` does for records.  The
/// default-variant expression, if present, is rewritten into a fully
/// qualified constructor path.
pub open spec fn flat_union_spec(
    u: UnionSchemaV,
    root: Seq<char>,
    ctr: nat,
    inh: Seq<Seq<char>>,
    site: AnnotationsV,
    depth: nat,
) -> Result<(Seq<FlatDefV>, Seq<char>, nat), FlattenErrorV>
    decreases weight_union(u),
{
    let (name1, c1) = assign_spec(u.name, root, ctr);
    let identity = identity_of(name1);
    match first_duplicate_spec(variant_names(u.variants)) {
        Option::Some(n) => Result::Err(
            FlattenErrorV::DuplicateVariant { name: n, depth: depth as u64 },
        ),
        Option::None => {
            let eff = effective_spec(site, u.annotations, inh);
            let inh1 = child_inherited_spec(site, u.annotations, inh);
            match flat_variants_spec(u.variants, 0, root, c1, inh1, depth) {
                Result::Err(e) => Result::Err(e),
                Result::Ok((defs, fvs, c2)) => {
                    let dflt = match u.default_variant {
                        Option::Some(e) => DefaultSpecV::Single(default_path_spec(e)),
                        Option::None => DefaultSpecV::Absent,
                    };
                    Result::Ok(
                        (
                            defs.push(
                                FlatDefV::Union(
                                    FlatUnionV {
                                        name: identity,
                                        variants: fvs,
                                        default_variant: dflt,
                                        annotations: eff,
                                    },
                                ),
                            ),
                            identity,
                            c2,
                        ),
                    )
                },
            }
        },
    }
}

// ---------------------------------------------------------------------------
// The counter never moves backwards, and advances by at most the weight of
// the subtree it traverses: one per anonymous schema, none for named ones.
// ---------------------------------------------------------------------------

pub proof fn lemma_ctr_slot_ty(
    ty: TypeRefV,
    card: Cardinality,
    slot_name: Seq<char>,
    site: AnnotationsV,
    root: Seq<char>,
    ctr: nat,
    inh: Seq<Seq<char>>,
    depth: nat,
)
    ensures
        flat_slot_ty_spec(ty, card, slot_name, site, root, ctr, inh, depth) matches Result::Ok(o)
            ==> ctr <= o.3 <= ctr + weight_type_ref(ty),
    decreases weight_type_ref(ty),
{
    match ty {
        TypeRefV::External(_) => {},
        TypeRefV::InlineRecord(r) => {
            lemma_ctr_record(r, root, ctr, inh, site, depth + 1);
        },
        TypeRefV::InlineRecordCollection(r) => {
            lemma_ctr_record(r, root, ctr, inh, site, depth + 1);
        },
        TypeRefV::InlineUnion(u) => {
            lemma_ctr_union(u, root, ctr, inh, site, depth + 1);
        },
        TypeRefV::InlineUnionCollection(u) => {
            lemma_ctr_union(u, root, ctr, inh, site, depth + 1);
        },
    }
}

pub proof fn lemma_ctr_fields(
    fields: Seq<FieldDefV>,
    i: int,
    root: Seq<char>,
    ctr: nat,
    inh: Seq<Seq<char>>,
    depth: nat,
)
    ensures
        flat_fields_spec(fields, i, root, ctr, inh, depth) matches Result::Ok(o) ==> ctr <= o.2
            <= ctr + weight_fields_from(fields, i),
    decreases weight_fields_from(fields, i),
{
    if 0 <= i < fields.len() {
        let f = fields[i];
        lemma_ctr_slot_ty(f.ty, f.card, f.name, f.annotations, root, ctr, inh, depth);
        match flat_slot_ty_spec(f.ty, f.card, f.name, f.annotations, root, ctr, inh, depth) {
            Result::Ok(o) => {
                lemma_ctr_fields(fields, i + 1, root, o.3, inh, depth);
            },
            Result::Err(_) => {},
        }
    }
}

pub proof fn lemma_ctr_slots(
    slots: Seq<SlotDefV>,
    i: int,
    vname: Seq<char>,
    site: AnnotationsV,
    root: Seq<char>,
    ctr: nat,
    inh: Seq<Seq<char>>,
    depth: nat,
)
    ensures
        flat_slots_spec(slots, i, vname, site, root, ctr, inh, depth) matches Result::Ok(o)
            ==> ctr <= o.2 <= ctr + weight_slots_from(slots, i),
    decreases weight_slots_from(slots, i),
{
    if 0 <= i < slots.len() {
        let s = slots[i];
        lemma_ctr_slot_ty(s.ty, s.card, vname, site, root, ctr, inh, depth);
        match flat_slot_ty_spec(s.ty, s.card, vname, site, root, ctr, inh, depth) {
            Result::Ok(o) => {
                lemma_ctr_slots(slots, i + 1, vname, site, root, o.3, inh, depth);
            },
            Result::Err(_) => {},
        }
    }
}

pub proof fn lemma_ctr_shape(
    shape: VariantShapeV,
    vname: Seq<char>,
    vann: AnnotationsV,
    root: Seq<char>,
    ctr: nat,
    inh: Seq<Seq<char>>,
    depth: nat,
)
    ensures
        flat_shape_spec(shape, vname, vann, root, ctr, inh, depth) matches Result::Ok(o) ==> ctr
            <= o.2 <= ctr + weight_shape(shape),
    decreases weight_shape(shape),
{
    match shape {
        VariantShapeV::Empty => {},
        VariantShapeV::Positional(slots) => {
            lemma_ctr_slots(slots, 0, vname, vann, root, ctr, inh, depth);
        },
        VariantShapeV::Fielded(fields) => {
            lemma_ctr_fields(fields, 0, root, ctr, inh, depth);
        },
    }
}

pub proof fn lemma_ctr_variants(
    variants: Seq<VariantDefV>,
    i: int,
    root: Seq<char>,
    ctr: nat,
    inh: Seq<Seq<char>>,
    depth: nat,
)
    ensures
        flat_variants_spec(variants, i, root, ctr, inh, depth) matches Result::Ok(o) ==> ctr
            <= o.2 <= ctr + weight_variants_from(variants, i),
    decreases weight_variants_from(variants, i),
{
    if 0 <= i < variants.len() {
        let v = variants[i];
        let inh_v = inh + v.annotations.recursive;
        lemma_ctr_shape(v.shape, v.name, v.annotations, root, ctr, inh_v, depth);
        match flat_shape_spec(v.shape, v.name, v.annotations, root, ctr, inh_v, depth) {
            Result::Ok(o) => {
                lemma_ctr_variants(variants, i + 1, root, o.2, inh, depth);
            },
            Result::Err(_) => {},
        }
    }
}

pub proof fn lemma_ctr_record(
    r: RecordSchemaV,
    root: Seq<char>,
    ctr: nat,
    inh: Seq<Seq<char>>,
    site: AnnotationsV,
    depth: nat,
)
    ensures
        flat_record_spec(r, root, ctr, inh, site, depth) matches Result::Ok(o) ==> ctr <= o.2
            <= ctr + weight_record(r),
    decreases weight_record(r),
{
    let (name1, c1) = assign_spec(r.name, root, ctr);
    let inh1 = child_inherited_spec(site, r.annotations, inh);
    lemma_ctr_fields(r.fields, 0, root, c1, inh1, depth);
}

pub proof fn lemma_ctr_union(
    u: UnionSchemaV,
    root: Seq<char>,
    ctr: nat,
    inh: Seq<Seq<char>>,
    site: AnnotationsV,
    depth: nat,
)
    ensures
        flat_union_spec(u, root, ctr, inh, site, depth) matches Result::Ok(o) ==> ctr <= o.2
            <= ctr + weight_union(u),
    decreases weight_union(u),
{
    let (name1, c1) = assign_spec(u.name, root, ctr);
    let inh1 = child_inherited_spec(site, u.annotations, inh);
    lemma_ctr_variants(u.variants, 0, root, c1, inh1, depth);
}

// ---------------------------------------------------------------------------
// Executable helpers.
// ---------------------------------------------------------------------------

/// Clones a default descriptor.
pub fn clone_default(d: &DefaultSpec) -> (r: DefaultSpec)
    ensures
        r.dv() == d.dv(),
{
    match d {
        DefaultSpec::Absent => DefaultSpec::Absent,
        DefaultSpec::Single(e) => DefaultSpec::Single(e.clone()),
        DefaultSpec::Array(es) => DefaultSpec::Array(copy_strings(es)),
    }
}

fn collect_field_names(fields: &Vec<FieldDef>) -> (r: Vec<String>)
    ensures
        r.deep_view() == field_names(fields_dv(fields@)),
{
    let mut out: Vec<String> = Vec::new();
    let mut i: usize = 0;
    while i < fields.len()
        invariant
            i <= fields.len(),
            out.deep_view().len() == i,
            forall|k: int| 0 <= k < i ==> out.deep_view()[k] == fields@[k].name@,
        decreases fields.len() - i,
    {
        crate::annotate::push_string(&mut out, fields[i].name.clone());
        i += 1;
    }
    proof {
        assert(out.deep_view() =~= field_names(fields_dv(fields@)));
    }
    out
}

fn collect_variant_names(variants: &Vec<VariantDef>) -> (r: Vec<String>)
    ensures
        r.deep_view() == variant_names(variants_dv(variants@)),
{
    let mut out: Vec<String> = Vec::new();
    let mut i: usize = 0;
    while i < variants.len()
        invariant
            i <= variants.len(),
            out.deep_view().len() == i,
            forall|k: int| 0 <= k < i ==> out.deep_view()[k] == variants@[k].name@,
        decreases variants.len() - i,
    {
        crate::annotate::push_string(&mut out, variants[i].name.clone());
        i += 1;
    }
    proof {
        assert(out.deep_view() =~= variant_names(variants_dv(variants@)));
    }
    out
}

/// Builds the fully qualified constructor path of a default variant.
pub fn default_path(expr: &String) -> (s: String)
    ensures
        s@ == default_path_spec(expr@),
{
    let mut out = String::new();
    out.append("Self::");
    out.append(expr.as_str());
    proof {
        assert(out@ =~= default_path_spec(expr@));
    }
    out
}

// ---------------------------------------------------------------------------
// The executable engine.
// ---------------------------------------------------------------------------

/// Flattens one slot type; see `flat_slot_ty_spec`.
pub(crate) fn flatten_slot_ty(
    ty: &TypeRef,
    card: Cardinality,
    slot_name: &String,
    site: &Annotations,
    root: &String,
    ctr: u64,
    inh: &Vec<String>,
    depth: u64,
) -> (r: Result<(Vec<FlatDef>, TypeRef, Cardinality, u64), FlattenError>)
    requires
        ctr as nat + weight_type_ref(ty.dv()) <= u64::MAX,
        depth as nat + weight_type_ref(ty.dv()) <= u64::MAX,
    ensures
        ({
            let s = flat_slot_ty_spec(
                ty.dv(),
                card,
                slot_name@,
                site.dv(),
                root@,
                ctr as nat,
                inh.deep_view(),
                depth as nat,
            );
            match r {
                Result::Ok(o) => s matches Result::Ok(so) && flat_defs_dv(o.0@) == so.0 && o.1.dv()
                    == so.1 && o.2 == so.2 && o.3 as nat == so.3,
                Result::Err(e) => s matches Result::Err(se) && e.dv() == se,
            }
        }),
    decreases weight_type_ref(ty.dv()),
{
    match ty {
        TypeRef::External(s) => {
            let r = Ok((Vec::new(), TypeRef::External(s.clone()), card, ctr));
            proof {
                assert(flat_defs_dv(Seq::<FlatDef>::empty()) =~= Seq::<FlatDefV>::empty());
            }
            r
        },
        TypeRef::InlineRecord(rb) => {
            match flatten_record(rb, root, ctr, inh, site, depth + 1) {
                Err(e) => Err(e),
                Ok((defs, id, c1)) => Ok((defs, TypeRef::External(id), card, c1)),
            }
        },
        TypeRef::InlineRecordCollection(rb) => {
            match compose_card(card, true) {
                None => Err(
                    FlattenError::MalformedCardinality { name: slot_name.clone(), depth },
                ),
                Some(c) => match flatten_record(rb, root, ctr, inh, site, depth + 1) {
                    Err(e) => Err(e),
                    Ok((defs, id, c1)) => Ok((defs, TypeRef::External(id), c, c1)),
                },
            }
        },
        TypeRef::InlineUnion(ub) => {
            match flatten_union(ub, root, ctr, inh, site, depth + 1) {
                Err(e) => Err(e),
                Ok((defs, id, c1)) => Ok((defs, TypeRef::External(id), card, c1)),
            }
        },
        TypeRef::InlineUnionCollection(ub) => {
            match compose_card(card, true) {
                None => Err(
                    FlattenError::MalformedCardinality { name: slot_name.clone(), depth },
                ),
                Some(c) => match flatten_union(ub, root, ctr, inh, site, depth + 1) {
                    Err(e) => Err(e),
                    Ok((defs, id, c1)) => Ok((defs, TypeRef::External(id), c, c1)),
                },
            }
        },
    }
}

/// Flattens the fields of one level from index `i` on; see
/// `flat_fields_spec`.
pub(crate) fn flatten_fields(
    fields: &Vec<FieldDef>,
    i: usize,
    root: &String,
    ctr: u64,
    inh: &Vec<String>,
    depth: u64,
) -> (r: Result<(Vec<FlatDef>, Vec<FlatField>, u64), FlattenError>)
    requires
        i <= fields.len(),
        ctr as nat + weight_fields_from(fields_dv(fields@), i as int) <= u64::MAX,
        depth as nat + weight_fields_from(fields_dv(fields@), i as int) <= u64::MAX,
    ensures
        ({
            let s = flat_fields_spec(
                fields_dv(fields@),
                i as int,
                root@,
                ctr as nat,
                inh.deep_view(),
                depth as nat,
            );
            match r {
                Result::Ok(o) => s matches Result::Ok(so) && flat_defs_dv(o.0@) == so.0
                    && flat_fields_dv(o.1@) == so.1 && o.2 as nat == so.2,
                Result::Err(e) => s matches Result::Err(se) && e.dv() == se,
            }
        }),
    decreases weight_fields_from(fields_dv(fields@), i as int),
{
    let ghost sfields = fields_dv(fields@);
    if i == fields.len() {
        let r = Ok((Vec::new(), Vec::new(), ctr));
        proof {
            assert(flat_defs_dv(Seq::<FlatDef>::empty()) =~= Seq::<FlatDefV>::empty());
            assert(flat_fields_dv(Seq::<FlatField>::empty()) =~= Seq::<FlatFieldV>::empty());
        }
        r
    } else {
        let f = &fields[i];
        proof {
            assert(sfields[i as int] == fields@[i as int].dv());
        }
        match flatten_slot_ty(&f.ty, f.card, &f.name, &f.annotations, root, ctr, inh, depth) {
            Err(e) => Err(e),
            Ok((mut sub_defs, rty, rcard, c1)) => {
                let ff = FlatField {
                    name: f.name.clone(),
                    ty: rty,
                    card: rcard,
                    default: clone_default(&f.default),
                    annotations: copy_strings(&f.annotations.self_only),
                };
                proof {
                    lemma_ctr_slot_ty(
                        sfields[i as int].ty,
                        f.card,
                        f.name@,
                        f.annotations.dv(),
                        root@,
                        ctr as nat,
                        inh.deep_view(),
                        depth as nat,
                    );
                }
                match flatten_fields(fields, i + 1, root, c1, inh, depth) {
                    Err(e) => Err(e),
                    Ok((mut rest_defs, mut rest_ffs, c2)) => {
                        let ghost sub_seq = sub_defs@;
                        let ghost rest_seq = rest_defs@;
                        let ghost sub_defs_v = flat_defs_dv(sub_defs@);
                        let ghost rest_defs_v = flat_defs_dv(rest_defs@);
                        let ghost rest_ffs_v = flat_fields_dv(rest_ffs@);
                        let ghost ffv = ff.dv();
                        sub_defs.append(&mut rest_defs);
                        let mut ffs: Vec<FlatField> = Vec::new();
                        ffs.push(ff);
                        ffs.append(&mut rest_ffs);
                        proof {
                            crate::flat::lemma_flat_defs_dv_concat(sub_seq, rest_seq);
                            assert(sub_defs@ == sub_seq + rest_seq);
                            assert(flat_defs_dv(sub_defs@) == sub_defs_v + rest_defs_v);
                            crate::flat::lemma_flat_fields_dv_push(Seq::empty(), ffs@[0]);
                            crate::flat::lemma_flat_fields_dv_concat(
                                Seq::empty().push(ffs@[0]),
                                rest_ffs@,
                            );
                            assert(flat_fields_dv(ffs@) =~= seq![ffv] + rest_ffs_v);
                        }
                        Ok((sub_defs, ffs, c2))
                    },
                }
            },
        }
    }
}

/// Flattens the positional slots of one variant from index `i` on; see
/// `flat_slots_spec`.
pub(crate) fn flatten_slots(
    slots: &Vec<SlotDef>,
    i: usize,
    vname: &String,
    site: &Annotations,
    root: &String,
    ctr: u64,
    inh: &Vec<String>,
    depth: u64,
) -> (r: Result<(Vec<FlatDef>, Vec<FlatSlot>, u64), FlattenError>)
    requires
        i <= slots.len(),
        ctr as nat + weight_slots_from(slots_dv(slots@), i as int) <= u64::MAX,
        depth as nat + weight_slots_from(slots_dv(slots@), i as int) <= u64::MAX,
    ensures
        ({
            let s = flat_slots_spec(
                slots_dv(slots@),
                i as int,
                vname@,
                site.dv(),
                root@,
                ctr as nat,
                inh.deep_view(),
                depth as nat,
            );
            match r {
                Result::Ok(o) => s matches Result::Ok(so) && flat_defs_dv(o.0@) == so.0
                    && flat_slots_dv(o.1@) == so.1 && o.2 as nat == so.2,
                Result::Err(e) => s matches Result::Err(se) && e.dv() == se,
            }
        }),
    decreases weight_slots_from(slots_dv(slots@), i as int),
{
    let ghost sslots = slots_dv(slots@);
    if i == slots.len() {
        let r = Ok((Vec::new(), Vec::new(), ctr));
        proof {
            assert(flat_defs_dv(Seq::<FlatDef>::empty()) =~= Seq::<FlatDefV>::empty());
            assert(flat_slots_dv(Seq::<FlatSlot>::empty()) =~= Seq::<FlatSlotV>::empty());
        }
        r
    } else {
        let sl = &slots[i];
        proof {
            assert(sslots[i as int] == slots@[i as int].dv());
        }
        match flatten_slot_ty(&sl.ty, sl.card, vname, site, root, ctr, inh, depth) {
            Err(e) => Err(e),
            Ok((mut sub_defs, rty, rcard, c1)) => {
                let fs = FlatSlot { ty: rty, card: rcard };
                proof {
                    lemma_ctr_slot_ty(
                        sslots[i as int].ty,
                        sl.card,
                        vname@,
                        site.dv(),
                        root@,
                        ctr as nat,
                        inh.deep_view(),
                        depth as nat,
                    );
                }
                match flatten_slots(slots, i + 1, vname, site, root, c1, inh, depth) {
                    Err(e) => Err(e),
                    Ok((mut rest_defs, mut rest_fss, c2)) => {
                        let ghost sub_seq = sub_defs@;
                        let ghost rest_seq = rest_defs@;
                        let ghost sub_defs_v = flat_defs_dv(sub_defs@);
                        let ghost rest_defs_v = flat_defs_dv(rest_defs@);
                        let ghost rest_fss_v = flat_slots_dv(rest_fss@);
                        let ghost fsv = fs.dv();
                        sub_defs.append(&mut rest_defs);
                        let mut fss: Vec<FlatSlot> = Vec::new();
                        fss.push(fs);
                        fss.append(&mut rest_fss);
                        proof {
                            crate::flat::lemma_flat_defs_dv_concat(sub_seq, rest_seq);
                            assert(sub_defs@ == sub_seq + rest_seq);
                            assert(flat_defs_dv(sub_defs@) == sub_defs_v + rest_defs_v);
                            crate::flat::lemma_flat_slots_dv_push(Seq::empty(), fss@[0]);
                            crate::flat::lemma_flat_slots_dv_concat(
                                Seq::empty().push(fss@[0]),
                                rest_fss@,
                            );
                            assert(flat_slots_dv(fss@) =~= seq![fsv] + rest_fss_v);
                        }
                        Ok((sub_defs, fss, c2))
                    },
                }
            },
        }
    }
}

/// Flattens the shape of one variant; see `flat_shape_spec`.
pub(crate) fn flatten_shape(
    shape: &VariantShape,
    vname: &String,
    vann: &Annotations,
    root: &String,
    ctr: u64,
    inh: &Vec<String>,
    depth: u64,
) -> (r: Result<(Vec<FlatDef>, FlatShape, u64), FlattenError>)
    requires
        ctr as nat + weight_shape(shape.dv()) <= u64::MAX,
        depth as nat + weight_shape(shape.dv()) <= u64::MAX,
    ensures
        ({
            let s = flat_shape_spec(
                shape.dv(),
                vname@,
                vann.dv(),
                root@,
                ctr as nat,
                inh.deep_view(),
                depth as nat,
            );
            match r {
                Result::Ok(o) => s matches Result::Ok(so) && flat_defs_dv(o.0@) == so.0 && o.1.dv()
                    == so.1 && o.2 as nat == so.2,
                Result::Err(e) => s matches Result::Err(se) && e.dv() == se,
            }
        }),
    decreases weight_shape(shape.dv()),
{
    match shape {
        VariantShape::Empty => {
            let r = Ok((Vec::new(), FlatShape::Empty, ctr));
            proof {
                assert(flat_defs_dv(Seq::<FlatDef>::empty()) =~= Seq::<FlatDefV>::empty());
            }
            r
        },
        VariantShape::Positional(slots) => {
            match flatten_slots(slots, 0, vname, vann, root, ctr, inh, depth) {
                Err(e) => Err(e),
                Ok((defs, fss, c1)) => Ok((defs, FlatShape::Positional(fss), c1)),
            }
        },
        VariantShape::Fielded(fields) => {
            let names = collect_field_names(fields);
            match first_duplicate(&names) {
                Some(n) => Err(FlattenError::DuplicateField { name: n, depth }),
                None => match flatten_fields(fields, 0, root, ctr, inh, depth) {
                    Err(e) => Err(e),
                    Ok((defs, ffs, c1)) => Ok((defs, FlatShape::Fielded(ffs), c1)),
                },
            }
        },
    }
}

/// Flattens the variants of a union from index `i` on; see
/// `flat_variants_spec`.
pub(crate) fn flatten_variants(
    variants: &Vec<VariantDef>,
    i: usize,
    root: &String,
    ctr: u64,
    inh: &Vec<String>,
    depth: u64,
) -> (r: Result<(Vec<FlatDef>, Vec<FlatVariant>, u64), FlattenError>)
    requires
        i <= variants.len(),
        ctr as nat + weight_variants_from(variants_dv(variants@), i as int) <= u64::MAX,
        depth as nat + weight_variants_from(variants_dv(variants@), i as int) <= u64::MAX,
    ensures
        ({
            let s = flat_variants_spec(
                variants_dv(variants@),
                i as int,
                root@,
                ctr as nat,
                inh.deep_view(),
                depth as nat,
            );
            match r {
                Result::Ok(o) => s matches Result::Ok(so) && flat_defs_dv(o.0@) == so.0
                    && flat_variants_dv(o.1@) == so.1 && o.2 as nat == so.2,
                Result::Err(e) => s matches Result::Err(se) && e.dv() == se,
            }
        }),
    decreases weight_variants_from(variants_dv(variants@), i as int),
{
    let ghost svariants = variants_dv(variants@);
    if i == variants.len() {
        let r = Ok((Vec::new(), Vec::new(), ctr));
        proof {
            assert(flat_defs_dv(Seq::<FlatDef>::empty()) =~= Seq::<FlatDefV>::empty());
            assert(flat_variants_dv(Seq::<FlatVariant>::empty()) =~= Seq::<FlatVariantV>::empty());
        }
        r
    } else {
        let v = &variants[i];
        proof {
            assert(svariants[i as int] == variants@[i as int].dv());
        }
        let mut inh_v = copy_strings(inh);
        append_strings(&mut inh_v, &v.annotations.recursive);
        match flatten_shape(&v.shape, &v.name, &v.annotations, root, ctr, &inh_v, depth) {
            Err(e) => Err(e),
            Ok((mut sub_defs, shape, c1)) => {
                let fv = FlatVariant {
                    name: v.name.clone(),
                    shape: shape,
                    annotations: copy_strings(&v.annotations.self_only),
                };
                proof {
                    lemma_ctr_shape(
                        svariants[i as int].shape,
                        v.name@,
                        v.annotations.dv(),
                        root@,
                        ctr as nat,
                        inh_v.deep_view(),
                        depth as nat,
                    );
                }
                match flatten_variants(variants, i + 1, root, c1, inh, depth) {
                    Err(e) => Err(e),
                    Ok((mut rest_defs, mut rest_fvs, c2)) => {
                        let ghost sub_seq = sub_defs@;
                        let ghost rest_seq = rest_defs@;
                        let ghost sub_defs_v = flat_defs_dv(sub_defs@);
                        let ghost rest_defs_v = flat_defs_dv(rest_defs@);
                        let ghost rest_fvs_v = flat_variants_dv(rest_fvs@);
                        let ghost fvv = fv.dv();
                        sub_defs.append(&mut rest_defs);
                        let mut fvs: Vec<FlatVariant> = Vec::new();
                        fvs.push(fv);
                        fvs.append(&mut rest_fvs);
                        proof {
                            crate::flat::lemma_flat_defs_dv_concat(sub_seq, rest_seq);
                            assert(sub_defs@ == sub_seq + rest_seq);
                            assert(flat_defs_dv(sub_defs@) == sub_defs_v + rest_defs_v);
                            crate::flat::lemma_flat_variants_dv_push(Seq::empty(), fvs@[0]);
                            crate::flat::lemma_flat_variants_dv_concat(
                                Seq::empty().push(fvs@[0]),
                                rest_fvs@,
                            );
                            assert(flat_variants_dv(fvs@) =~= seq![fvv] + rest_fvs_v);
                        }
                        Ok((sub_defs, fvs, c2))
                    },
                }
            },
        }
    }
}

/// Flattens one record schema into the ordered definition list; see
/// `flat_record_spec`.  Returns the emitted definitions, the record's own
/// identity, and the advanced counter.
pub fn flatten_record(
    rec: &RecordSchema,
    root: &String,
    ctr: u64,
    inh: &Vec<String>,
    site: &Annotations,
    depth: u64,
) -> (r: Result<(Vec<FlatDef>, String, u64), FlattenError>)
    requires
        ctr as nat + weight_record(rec.dv()) <= u64::MAX,
        depth as nat + weight_record(rec.dv()) <= u64::MAX,
    ensures
        ({
            let s = flat_record_spec(
                rec.dv(),
                root@,
                ctr as nat,
                inh.deep_view(),
                site.dv(),
                depth as nat,
            );
            match r {
                Result::Ok(o) => s matches Result::Ok(so) && flat_defs_dv(o.0@) == so.0 && o.1@
                    == so.1 && o.2 as nat == so.2,
                Result::Err(e) => s matches Result::Err(se) && e.dv() == se,
            }
        }),
    decreases weight_record(rec.dv()),
{
    let (name1, c1) = assign_name(&rec.name, root, ctr);
    let identity = crate::names::identity_string(&name1);
    let names = collect_field_names(&rec.fields);
    match first_duplicate(&names) {
        Some(n) => Err(FlattenError::DuplicateField { name: n, depth }),
        None => {
            let eff = effective_annotations(site, &rec.annotations, inh);
            let inh1 = child_inherited(site, &rec.annotations, inh);
            match flatten_fields(&rec.fields, 0, root, c1, &inh1, depth) {
                Err(e) => Err(e),
                Ok((mut defs, ffs, c2)) => {
                    let ghost defs_v = flat_defs_dv(defs@);
                    let own = FlatDef::Record(
                        FlatRecord { name: identity.clone(), fields: ffs, annotations: eff },
                    );
                    let ghost own_v = own.dv();
                    let ghost defs_seq = defs@;
                    defs.push(own);
                    proof {
                        crate::flat::lemma_flat_defs_dv_push(defs_seq, defs@.last());
                        assert(flat_defs_dv(defs@) == defs_v.push(own_v));
                    }
                    Ok((defs, identity, c2))
                },
            }
        },
    }
}

/// Flattens one union schema into the ordered definition list; see
/// `flat_union_spec`.
pub fn flatten_union(
    un: &UnionSchema,
    root: &String,
    ctr: u64,
    inh: &Vec<String>,
    site: &Annotations,
    depth: u64,
) -> (r: Result<(Vec<FlatDef>, String, u64), FlattenError>)
    requires
        ctr as nat + weight_union(un.dv()) <= u64::MAX,
        depth as nat + weight_union(un.dv()) <= u64::MAX,
    ensures
        ({
            let s = flat_union_spec(
                un.dv(),
                root@,
                ctr as nat,
                inh.deep_view(),
                site.dv(),
                depth as nat,
            );
            match r {
                Result::Ok(o) => s matches Result::Ok(so) && flat_defs_dv(o.0@) == so.0 && o.1@
                    == so.1 && o.2 as nat == so.2,
                Result::Err(e) => s matches Result::Err(se) && e.dv() == se,
            }
        }),
    decreases weight_union(un.dv()),
{
    let (name1, c1) = assign_name(&un.name, root, ctr);
    let identity = crate::names::identity_string(&name1);
    let names = collect_variant_names(&un.variants);
    match first_duplicate(&names) {
        Some(n) => Err(FlattenError::DuplicateVariant { name: n, depth }),
        None => {
            let eff = effective_annotations(site, &un.annotations, inh);
            let inh1 = child_inherited(site, &un.annotations, inh);
            match flatten_variants(&un.variants, 0, root, c1, &inh1, depth) {
                Err(e) => Err(e),
                Ok((mut defs, fvs, c2)) => {
                    let dflt = match &un.default_variant {
                        Some(e) => DefaultSpec::Single(default_path(e)),
                        None => DefaultSpec::Absent,
                    };
                    let ghost defs_v = flat_defs_dv(defs@);
                    let own = FlatDef::Union(
                        FlatUnion {
                            name: identity.clone(),
                            variants: fvs,
                            default_variant: dflt,
                            annotations: eff,
                        },
                    );
                    let ghost own_v = own.dv();
                    let ghost defs_seq = defs@;
                    defs.push(own);
                    proof {
                        crate::flat::lemma_flat_defs_dv_push(defs_seq, defs@.last());
                        assert(flat_defs_dv(defs@) == defs_v.push(own_v));
                    }
                    Ok((defs, identity, c2))
                },
            }
        },
    }
}

} // verus!
