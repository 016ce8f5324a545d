//! Laws of the flattening pass.
//!
//! Each public proof function here states one guarantee of the library over
//! the reference semantics in `flatten`: flattening leaves no nested type
//! reference behind, and cardinality wrapping is invertible.

use vstd::prelude::*;

use crate::flat::{
    all_fields_external, all_slots_external, all_variants_external, def_external, defs_external,
    shape_external, FlatDefV,
};
use crate::flatten::{
    compose_card_spec, flat_fields_spec, flat_record_spec, flat_shape_spec, flat_slot_ty_spec,
    flat_slots_spec, flat_union_spec, flat_variants_spec,
};
use crate::names::assign_spec;
use crate::annotate::child_inherited_spec;
use crate::schema::{
    weight_fields_from, weight_record, weight_shape, weight_slots_from, weight_type_ref,
    weight_union, weight_variants_from, AnnotationsV, Cardinality, FieldDefV, RecordSchemaV,
    SlotDefV, TypeRefV, UnionSchemaV, VariantDefV, VariantShapeV,
};

verus! {

// ---------------------------------------------------------------------------
// Flattening produces no nested type references: every field and variant
// slot of every emitted definition is a plain external reference.
// ---------------------------------------------------------------------------

pub proof fn lemma_external_slot_ty(
    ty: TypeRefV,
    card: Cardinality,
    slot_name: Seq<char>,
    site: AnnotationsV,
    root: Seq<char>,
    ctr: nat,
    inh: Seq<Seq<char>>,
    depth: nat,
)
    ensures
        flat_slot_ty_spec(ty, card, slot_name, site, root, ctr, inh, depth) matches Result::Ok(o)
            ==> defs_external(o.0) && o.1 is External,
    decreases weight_type_ref(ty),
{
    match ty {
        TypeRefV::External(_) => {},
        TypeRefV::InlineRecord(r) => {
            lemma_record_external(r, root, ctr, inh, site, depth + 1);
        },
        TypeRefV::InlineRecordCollection(r) => {
            lemma_record_external(r, root, ctr, inh, site, depth + 1);
        },
        TypeRefV::InlineUnion(u) => {
            lemma_union_external(u, root, ctr, inh, site, depth + 1);
        },
        TypeRefV::InlineUnionCollection(u) => {
            lemma_union_external(u, root, ctr, inh, site, depth + 1);
        },
    }
}

pub proof fn lemma_external_fields(
    fields: Seq<FieldDefV>,
    i: int,
    root: Seq<char>,
    ctr: nat,
    inh: Seq<Seq<char>>,
    depth: nat,
)
    ensures
        flat_fields_spec(fields, i, root, ctr, inh, depth) matches Result::Ok(o) ==> defs_external(
            o.0,
        ) && all_fields_external(o.1),
    decreases weight_fields_from(fields, i),
{
    if 0 <= i < fields.len() {
        let f = fields[i];
        lemma_external_slot_ty(f.ty, f.card, f.name, f.annotations, root, ctr, inh, depth);
        match flat_slot_ty_spec(f.ty, f.card, f.name, f.annotations, root, ctr, inh, depth) {
            Result::Ok(o) => {
                lemma_external_fields(fields, i + 1, root, o.3, inh, depth);
                match flat_fields_spec(fields, i + 1, root, o.3, inh, depth) {
                    Result::Ok(rest) => {
                        assert forall|k: int|
                            0 <= k < (o.0 + rest.0).len() implies def_external(
                            #[trigger] (o.0 + rest.0)[k],
                        ) by {
                            if k < o.0.len() {
                                assert((o.0 + rest.0)[k] == o.0[k]);
                            } else {
                                assert((o.0 + rest.0)[k] == rest.0[k - o.0.len()]);
                            }
                        }
                    },
                    Result::Err(_) => {},
                }
            },
            Result::Err(_) => {},
        }
    }
}

pub proof fn lemma_external_slots(
    slots: Seq<SlotDefV>,
    i: int,
    vname: Seq<char>,
    site: AnnotationsV,
    root: Seq<char>,
    ctr: nat,
    inh: Seq<Seq<char>>,
    depth: nat,
)
    ensures
        flat_slots_spec(slots, i, vname, site, root, ctr, inh, depth) matches Result::Ok(o)
            ==> defs_external(o.0) && all_slots_external(o.1),
    decreases weight_slots_from(slots, i),
{
    if 0 <= i < slots.len() {
        let s = slots[i];
        lemma_external_slot_ty(s.ty, s.card, vname, site, root, ctr, inh, depth);
        match flat_slot_ty_spec(s.ty, s.card, vname, site, root, ctr, inh, depth) {
            Result::Ok(o) => {
                lemma_external_slots(slots, i + 1, vname, site, root, o.3, inh, depth);
                match flat_slots_spec(slots, i + 1, vname, site, root, o.3, inh, depth) {
                    Result::Ok(rest) => {
                        assert forall|k: int|
                            0 <= k < (o.0 + rest.0).len() implies def_external(
                            #[trigger] (o.0 + rest.0)[k],
                        ) by {
                            if k < o.0.len() {
                                assert((o.0 + rest.0)[k] == o.0[k]);
                            } else {
                                assert((o.0 + rest.0)[k] == rest.0[k - o.0.len()]);
                            }
                        }
                    },
                    Result::Err(_) => {},
                }
            },
            Result::Err(_) => {},
        }
    }
}

pub proof fn lemma_external_shape(
    shape: VariantShapeV,
    vname: Seq<char>,
    vann: AnnotationsV,
    root: Seq<char>,
    ctr: nat,
    inh: Seq<Seq<char>>,
    depth: nat,
)
    ensures
        flat_shape_spec(shape, vname, vann, root, ctr, inh, depth) matches Result::Ok(o)
            ==> defs_external(o.0) && shape_external(o.1),
    decreases weight_shape(shape),
{
    match shape {
        VariantShapeV::Empty => {},
        VariantShapeV::Positional(slots) => {
            lemma_external_slots(slots, 0, vname, vann, root, ctr, inh, depth);
        },
        VariantShapeV::Fielded(fields) => {
            lemma_external_fields(fields, 0, root, ctr, inh, depth);
        },
    }
}

pub proof fn lemma_external_variants(
    variants: Seq<VariantDefV>,
    i: int,
    root: Seq<char>,
    ctr: nat,
    inh: Seq<Seq<char>>,
    depth: nat,
)
    ensures
        flat_variants_spec(variants, i, root, ctr, inh, depth) matches Result::Ok(o)
            ==> defs_external(o.0) && all_variants_external(o.1),
    decreases weight_variants_from(variants, i),
{
    if 0 <= i < variants.len() {
        let v = variants[i];
        let inh_v = inh + v.annotations.recursive;
        lemma_external_shape(v.shape, v.name, v.annotations, root, ctr, inh_v, depth);
        match flat_shape_spec(v.shape, v.name, v.annotations, root, ctr, inh_v, depth) {
            Result::Ok(o) => {
                lemma_external_variants(variants, i + 1, root, o.2, inh, depth);
                match flat_variants_spec(variants, i + 1, root, o.2, inh, depth) {
                    Result::Ok(rest) => {
                        assert forall|k: int|
                            0 <= k < (o.0 + rest.0).len() implies def_external(
                            #[trigger] (o.0 + rest.0)[k],
                        ) by {
                            if k < o.0.len() {
                                assert((o.0 + rest.0)[k] == o.0[k]);
                            } else {
                                assert((o.0 + rest.0)[k] == rest.0[k - o.0.len()]);
                            }
                        }
                    },
                    Result::Err(_) => {},
                }
            },
            Result::Err(_) => {},
        }
    }
}

/// Law: flattening a record leaves no nested type reference.  Every field
/// and variant slot of every emitted definition is a plain external
/// reference.
pub proof fn lemma_record_external(
    r: RecordSchemaV,
    root: Seq<char>,
    ctr: nat,
    inh: Seq<Seq<char>>,
    site: AnnotationsV,
    depth: nat,
)
    ensures
        flat_record_spec(r, root, ctr, inh, site, depth) matches Result::Ok(o) ==> defs_external(
            o.0,
        ),
    decreases weight_record(r),
{
    let (name1, c1) = assign_spec(r.name, root, ctr);
    let inh1 = child_inherited_spec(site, r.annotations, inh);
    lemma_external_fields(r.fields, 0, root, c1, inh1, depth);
    match flat_record_spec(r, root, ctr, inh, site, depth) {
        Result::Ok(o) => {
            match flat_fields_spec(r.fields, 0, root, c1, inh1, depth) {
                Result::Ok(body) => {
                    assert forall|k: int| 0 <= k < o.0.len() implies def_external(
                        #[trigger] o.0[k],
                    ) by {
                        if k < o.0.len() - 1 {
                            assert(o.0[k] == body.0[k]);
                        } else {
                            assert(o.0[k] == o.0.last());
                        }
                    }
                },
                Result::Err(_) => {},
            }
        },
        Result::Err(_) => {},
    }
}

/// Law: flattening a union leaves no nested type reference, as
/// `lemma_record_external` states for records.
pub proof fn lemma_union_external(
    u: UnionSchemaV,
    root: Seq<char>,
    ctr: nat,
    inh: Seq<Seq<char>>,
    site: AnnotationsV,
    depth: nat,
)
    ensures
        flat_union_spec(u, root, ctr, inh, site, depth) matches Result::Ok(o) ==> defs_external(
            o.0,
        ),
    decreases weight_union(u),
{
    let (name1, c1) = assign_spec(u.name, root, ctr);
    let inh1 = child_inherited_spec(site, u.annotations, inh);
    lemma_external_variants(u.variants, 0, root, c1, inh1, depth);
    match flat_union_spec(u, root, ctr, inh, site, depth) {
        Result::Ok(o) => {
            match flat_variants_spec(u.variants, 0, root, c1, inh1, depth) {
                Result::Ok(body) => {
                    assert forall|k: int| 0 <= k < o.0.len() implies def_external(
                        #[trigger] o.0[k],
                    ) by {
                        if k < o.0.len() - 1 {
                            assert(o.0[k] == body.0[k]);
                        } else {
                            assert(o.0[k] == o.0.last());
                        }
                    }
                },
                Result::Err(_) => {},
            }
        },
        Result::Err(_) => {},
    }
}

// ---------------------------------------------------------------------------
// Cardinality wrapping is invertible.
// ---------------------------------------------------------------------------

/// The denotation of a flat slot: its base type name under the optional and
/// collection wrappers that its cardinality stands for.
pub enum WrappedType {
    Base(Seq<char>),
    Opt(Box<WrappedType>),
    Coll(Box<WrappedType>),
}

/// The wrapping rule: how a cardinality wraps a base type name.
pub open spec fn apply_card(card: Cardinality, base: Seq<char>) -> WrappedType {
    match card {
        Cardinality::Plain => WrappedType::Base(base),
        Cardinality::Optional => WrappedType::Opt(Box::new(WrappedType::Base(base))),
        Cardinality::Collection => WrappedType::Coll(Box::new(WrappedType::Base(base))),
        Cardinality::OptionalCollection => WrappedType::Opt(
            Box::new(WrappedType::Coll(Box::new(WrappedType::Base(base)))),
        ),
    }
}

/// Strips all wrappers, recovering the base type name.
pub open spec fn unwrap_base(t: WrappedType) -> Seq<char>
    decreases t,
{
    match t {
        WrappedType::Base(s) => s,
        WrappedType::Opt(b) => unwrap_base(*b),
        WrappedType::Coll(b) => unwrap_base(*b),
    }
}

/// Reads the cardinality back off a wrapped type of the shapes the wrapping
/// rule produces.
pub open spec fn card_of(t: WrappedType) -> Option<Cardinality> {
    match t {
        WrappedType::Base(_) => Option::Some(Cardinality::Plain),
        WrappedType::Opt(b) => match *b {
            WrappedType::Base(_) => Option::Some(Cardinality::Optional),
            WrappedType::Coll(c) => match *c {
                WrappedType::Base(_) => Option::Some(Cardinality::OptionalCollection),
                _ => Option::None,
            },
            _ => Option::None,
        },
        WrappedType::Coll(b) => match *b {
            WrappedType::Base(_) => Option::Some(Cardinality::Collection),
            _ => Option::None,
        },
    }
}

/// Law: cardinality wrapping is invertible.  Unwrapping a wrapped type by
/// the known rule yields exactly the base type and the cardinality that
/// produced it; in particular an optional collection of `T` unwraps to `T`.
pub proof fn lemma_cardinality_round_trip(card: Cardinality, base: Seq<char>)
    ensures
        unwrap_base(apply_card(card, base)) == base,
        card_of(apply_card(card, base)) == Option::Some(card),
{
    reveal_with_fuel(unwrap_base, 4);
}

/// Law: composing a declared cardinality with a collection position keeps
/// the round trip exact: the composed cardinality still unwraps to the same
/// base type, and an optional slot holding a collection of `T` composes to
/// an optional collection whose unwrapping yields exactly `T`.
pub proof fn lemma_compose_round_trip(card: Cardinality, inner_collection: bool, base: Seq<char>)
    ensures
        compose_card_spec(card, inner_collection) matches Option::Some(c) ==> unwrap_base(
            apply_card(c, base),
        ) == base,
        compose_card_spec(Cardinality::Optional, true) == Option::Some(
            Cardinality::OptionalCollection,
        ),
        apply_card(Cardinality::OptionalCollection, base) == WrappedType::Opt(
            Box::new(WrappedType::Coll(Box::new(WrappedType::Base(base)))),
        ),
{
    reveal_with_fuel(unwrap_base, 4);
}

} // verus!
