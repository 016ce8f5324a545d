//! The dependency-before-use law.
//!
//! The flat output list is ordered: whenever an entry references a type
//! name that the list defines at all, the definition of that name stands
//! strictly before the referencing entry.  This holds for every input tree
//! whose verbatim external references stay clear of the names that the pass
//! emits: a tree that refers to `Foo` by name in one branch while defining
//! an inline schema named `Foo` in a later branch, such as a record with a
//! field `a: Foo` before a field `b: Foo { .. }`, genuinely breaks the
//! ordering, and such inputs are excluded by precondition.

use vstd::prelude::*;

use crate::flat::{
    def_name, def_references, defs_define, dependency_ordered, fields_reference, shape_references,
    FlatDefV, FlatFieldV, FlatSlotV, FlatVariantV,
};
use crate::names::assigned_identity;
use crate::schema::{
    weight_fields_from, weight_record, weight_shape, weight_slots_from, weight_type_ref,
    weight_union, weight_variants_from, FieldDefV, RecordSchemaV, SchemaNameV, SlotDefV, TypeRefV,
    UnionSchemaV, VariantDefV, VariantShapeV,
};

verus! {

// ---------------------------------------------------------------------------
// Verbatim external references and user-given names of an input tree.
// ---------------------------------------------------------------------------

pub open spec fn ext_in_ty(t: TypeRefV, x: Seq<char>) -> bool
    decreases weight_type_ref(t),
{
    match t {
        TypeRefV::External(s) => s == x,
        TypeRefV::InlineRecord(r) => ext_in_record(r, x),
        TypeRefV::InlineRecordCollection(r) => ext_in_record(r, x),
        TypeRefV::InlineUnion(u) => ext_in_union(u, x),
        TypeRefV::InlineUnionCollection(u) => ext_in_union(u, x),
    }
}

pub open spec fn ext_in_fields(fields: Seq<FieldDefV>, i: int, x: Seq<char>) -> bool
    decreases weight_fields_from(fields, i),
{
    if i < 0 || i >= fields.len() {
        false
    } else {
        ext_in_ty(fields[i].ty, x) || ext_in_fields(fields, i + 1, x)
    }
}

pub open spec fn ext_in_slots(slots: Seq<SlotDefV>, i: int, x: Seq<char>) -> bool
    decreases weight_slots_from(slots, i),
{
    if i < 0 || i >= slots.len() {
        false
    } else {
        ext_in_ty(slots[i].ty, x) || ext_in_slots(slots, i + 1, x)
    }
}

pub open spec fn ext_in_shape(shape: VariantShapeV, x: Seq<char>) -> bool
    decreases weight_shape(shape),
{
    match shape {
        VariantShapeV::Empty => false,
        VariantShapeV::Positional(slots) => ext_in_slots(slots, 0, x),
        VariantShapeV::Fielded(fields) => ext_in_fields(fields, 0, x),
    }
}

pub open spec fn ext_in_variants(variants: Seq<VariantDefV>, i: int, x: Seq<char>) -> bool
    decreases weight_variants_from(variants, i),
{
    if i < 0 || i >= variants.len() {
        false
    } else {
        ext_in_shape(variants[i].shape, x) || ext_in_variants(variants, i + 1, x)
    }
}

/// Whether `x` occurs as a verbatim external reference anywhere in `r`.
pub open spec fn ext_in_record(r: RecordSchemaV, x: Seq<char>) -> bool
    decreases weight_record(r),
{
    ext_in_fields(r.fields, 0, x)
}

pub open spec fn ext_in_union(u: UnionSchemaV, x: Seq<char>) -> bool
    decreases weight_union(u),
{
    ext_in_variants(u.variants, 0, x)
}

/// Whether `x` is the rendered identity of a node that already carries a
/// name: a user-given name renders as itself, an already assigned identity
/// as its synthetic form.
pub open spec fn named_as(name: SchemaNameV, x: Seq<char>) -> bool {
    match name {
        SchemaNameV::Named(s) => s == x,
        SchemaNameV::Assigned(r, n) => x == assigned_identity(r, n as nat),
        SchemaNameV::Anonymous => false,
    }
}

pub open spec fn named_in_ty(t: TypeRefV, x: Seq<char>) -> bool
    decreases weight_type_ref(t),
{
    match t {
        TypeRefV::External(_) => false,
        TypeRefV::InlineRecord(r) => named_in_record(r, x),
        TypeRefV::InlineRecordCollection(r) => named_in_record(r, x),
        TypeRefV::InlineUnion(u) => named_in_union(u, x),
        TypeRefV::InlineUnionCollection(u) => named_in_union(u, x),
    }
}

pub open spec fn named_in_fields(fields: Seq<FieldDefV>, i: int, x: Seq<char>) -> bool
    decreases weight_fields_from(fields, i),
{
    if i < 0 || i >= fields.len() {
        false
    } else {
        named_in_ty(fields[i].ty, x) || named_in_fields(fields, i + 1, x)
    }
}

pub open spec fn named_in_slots(slots: Seq<SlotDefV>, i: int, x: Seq<char>) -> bool
    decreases weight_slots_from(slots, i),
{
    if i < 0 || i >= slots.len() {
        false
    } else {
        named_in_ty(slots[i].ty, x) || named_in_slots(slots, i + 1, x)
    }
}

pub open spec fn named_in_shape(shape: VariantShapeV, x: Seq<char>) -> bool
    decreases weight_shape(shape),
{
    match shape {
        VariantShapeV::Empty => false,
        VariantShapeV::Positional(slots) => named_in_slots(slots, 0, x),
        VariantShapeV::Fielded(fields) => named_in_fields(fields, 0, x),
    }
}

pub open spec fn named_in_variants(variants: Seq<VariantDefV>, i: int, x: Seq<char>) -> bool
    decreases weight_variants_from(variants, i),
{
    if i < 0 || i >= variants.len() {
        false
    } else {
        named_in_shape(variants[i].shape, x) || named_in_variants(variants, i + 1, x)
    }
}

/// Whether `x` is the user-given name of `r` or of any schema nested in it.
pub open spec fn named_in_record(r: RecordSchemaV, x: Seq<char>) -> bool
    decreases weight_record(r),
{
    named_as(r.name, x) || named_in_fields(r.fields, 0, x)
}

pub open spec fn named_in_union(u: UnionSchemaV, x: Seq<char>) -> bool
    decreases weight_union(u),
{
    named_as(u.name, x) || named_in_variants(u.variants, 0, x)
}

// ---------------------------------------------------------------------------
// The reserved name set and the strengthened ordering invariant.
// ---------------------------------------------------------------------------

/// Every name the pass may emit: user-given names of the tree and every
/// synthetic identity under the root.
pub open spec fn reserved_of_record(r: RecordSchemaV, root: Seq<char>) -> Set<Seq<char>> {
    Set::new(|x: Seq<char>| named_in_record(r, x) || exists|n: nat| x == assigned_identity(root, n))
}

pub open spec fn reserved_of_union(u: UnionSchemaV, root: Seq<char>) -> Set<Seq<char>> {
    Set::new(|x: Seq<char>| named_in_union(u, x) || exists|n: nat| x == assigned_identity(root, n))
}

/// Every definition's name lies in the reserved set.
pub open spec fn names_reserved(defs: Seq<FlatDefV>, reserved: Set<Seq<char>>) -> bool {
    forall|j: int| 0 <= j < defs.len() ==> reserved.contains(def_name(#[trigger] defs[j]))
}

/// Every reference to a reserved name is satisfied by an earlier entry.
pub open spec fn ordered_strong(defs: Seq<FlatDefV>, reserved: Set<Seq<char>>) -> bool {
    forall|i: int, x: Seq<char>|
        0 <= i < defs.len() && #[trigger] def_references(defs[i], x) && reserved.contains(x)
            ==> defs_define(defs.take(i), x)
}

/// Every external name among the produced flat fields that is reserved is
/// defined in the accompanying definition list.
pub open spec fn fields_covered(ffs: Seq<FlatFieldV>, defs: Seq<FlatDefV>, reserved: Set<Seq<char>>) -> bool {
    forall|x: Seq<char>| #[trigger] fields_reference(ffs, x) && reserved.contains(x) ==> defs_define(defs, x)
}

pub open spec fn slots_covered(fss: Seq<FlatSlotV>, defs: Seq<FlatDefV>, reserved: Set<Seq<char>>) -> bool {
    forall|x: Seq<char>| #[trigger] crate::flat::slots_reference(fss, x) && reserved.contains(x)
        ==> defs_define(defs, x)
}

pub open spec fn variants_covered(
    fvs: Seq<FlatVariantV>,
    defs: Seq<FlatDefV>,
    reserved: Set<Seq<char>>,
) -> bool {
    forall|x: Seq<char>| #[trigger] crate::flat::variants_reference(fvs, x) && reserved.contains(x)
        ==> defs_define(defs, x)
}

// ---------------------------------------------------------------------------
// Helper lemmas about order under concatenation and extension.
// ---------------------------------------------------------------------------

pub proof fn lemma_defs_define_concat_left(a: Seq<FlatDefV>, b: Seq<FlatDefV>, x: Seq<char>)
    requires
        defs_define(a, x),
    ensures
        defs_define(a + b, x),
{
    let j = choose|j: int| 0 <= j < a.len() && def_name(#[trigger] a[j]) == x;
    assert((a + b)[j] == a[j]);
    assert(defs_define(a + b, x));
}

pub proof fn lemma_defs_define_concat_right(a: Seq<FlatDefV>, b: Seq<FlatDefV>, x: Seq<char>)
    requires
        defs_define(b, x),
    ensures
        defs_define(a + b, x),
{
    let j = choose|j: int| 0 <= j < b.len() && def_name(#[trigger] b[j]) == x;
    assert((a + b)[a.len() + j] == b[j]);
    assert(defs_define(a + b, x));
}

pub proof fn lemma_ordered_concat(a: Seq<FlatDefV>, b: Seq<FlatDefV>, reserved: Set<Seq<char>>)
    requires
        ordered_strong(a, reserved),
        ordered_strong(b, reserved),
    ensures
        ordered_strong(a + b, reserved),
{
    assert forall|i: int, x: Seq<char>|
        0 <= i < (a + b).len() && #[trigger] def_references((a + b)[i], x) && reserved.contains(x)
        implies defs_define((a + b).take(i), x) by {
        if i < a.len() {
            assert((a + b)[i] == a[i]);
            assert(defs_define(a.take(i), x));
            let sub = a.take(i);
            let j = choose|j: int| 0 <= j < sub.len() && def_name(#[trigger] sub[j]) == x;
            assert((a + b).take(i)[j] == a[j]);
            assert(defs_define((a + b).take(i), x));
        } else {
            assert((a + b)[i] == b[i - a.len()]);
            assert(defs_define(b.take(i - a.len()), x));
            let sub = b.take(i - a.len());
            let j = choose|j: int| 0 <= j < sub.len() && def_name(#[trigger] sub[j]) == x;
            assert((a + b).take(i)[a.len() + j] == b[j]);
            assert(defs_define((a + b).take(i), x));
        }
    }
}

pub proof fn lemma_names_reserved_concat(a: Seq<FlatDefV>, b: Seq<FlatDefV>, reserved: Set<Seq<char>>)
    requires
        names_reserved(a, reserved),
        names_reserved(b, reserved),
    ensures
        names_reserved(a + b, reserved),
{
    assert forall|j: int| 0 <= j < (a + b).len() implies reserved.contains(
        def_name(#[trigger] (a + b)[j]),
    ) by {
        if j < a.len() {
            assert((a + b)[j] == a[j]);
        } else {
            assert((a + b)[j] == b[j - a.len()]);
        }
    }
}

/// Appending a definition whose reserved references are all defined in the
/// list keeps the strengthened order.
pub proof fn lemma_ordered_push(defs: Seq<FlatDefV>, d: FlatDefV, reserved: Set<Seq<char>>)
    requires
        ordered_strong(defs, reserved),
        forall|x: Seq<char>| #[trigger] def_references(d, x) && reserved.contains(x)
            ==> defs_define(defs, x),
    ensures
        ordered_strong(defs.push(d), reserved),
{
    assert forall|i: int, x: Seq<char>|
        0 <= i < defs.push(d).len() && #[trigger] def_references(defs.push(d)[i], x)
            && reserved.contains(x) implies defs_define(defs.push(d).take(i), x) by {
        if i < defs.len() {
            assert(defs.push(d)[i] == defs[i]);
            assert(defs_define(defs.take(i), x));
            let sub = defs.take(i);
            let j = choose|j: int| 0 <= j < sub.len() && def_name(#[trigger] sub[j]) == x;
            assert(defs.push(d).take(i)[j] == defs[j]);
            assert(defs_define(defs.push(d).take(i), x));
        } else {
            assert(defs.push(d)[i] == d);
            assert(defs_define(defs, x));
            let j = choose|j: int| 0 <= j < defs.len() && def_name(#[trigger] defs[j]) == x;
            assert(defs.push(d).take(i)[j] == defs[j]);
            assert(defs_define(defs.push(d).take(i), x));
        }
    }
}

// ---------------------------------------------------------------------------
// The induction: flattening emits definitions in dependency order.
// ---------------------------------------------------------------------------

pub proof fn lemma_order_slot_ty(
    ty: TypeRefV,
    card: crate::schema::Cardinality,
    slot_name: Seq<char>,
    site: crate::schema::AnnotationsV,
    root: Seq<char>,
    ctr: nat,
    inh: Seq<Seq<char>>,
    depth: nat,
    reserved: Set<Seq<char>>,
)
    requires
        forall|x: Seq<char>| #[trigger] ext_in_ty(ty, x) ==> !reserved.contains(x),
        forall|x: Seq<char>| #[trigger] named_in_ty(ty, x) ==> reserved.contains(x),
        forall|n: nat| reserved.contains(#[trigger] assigned_identity(root, n)),
    ensures
        crate::flatten::flat_slot_ty_spec(ty, card, slot_name, site, root, ctr, inh, depth)
            matches Result::Ok(o) ==> {
            &&& names_reserved(o.0, reserved)
            &&& ordered_strong(o.0, reserved)
            &&& forall|x: Seq<char>|
                o.1 == TypeRefV::External(x) && reserved.contains(x) ==> defs_define(o.0, x)
        },
    decreases weight_type_ref(ty),
{
    match ty {
        TypeRefV::External(s) => {
            assert(ext_in_ty(ty, s));
        },
        TypeRefV::InlineRecord(r) => {
            assert forall|x: Seq<char>| #[trigger] ext_in_record(r, x) implies !reserved.contains(
                x,
            ) by {
                assert(ext_in_ty(ty, x));
            }
            assert forall|x: Seq<char>| #[trigger] named_in_record(r, x) implies reserved.contains(
                x,
            ) by {
                assert(named_in_ty(ty, x));
            }
            lemma_order_record(r, root, ctr, inh, site, depth + 1, reserved);
        },
        TypeRefV::InlineRecordCollection(r) => {
            assert forall|x: Seq<char>| #[trigger] ext_in_record(r, x) implies !reserved.contains(
                x,
            ) by {
                assert(ext_in_ty(ty, x));
            }
            assert forall|x: Seq<char>| #[trigger] named_in_record(r, x) implies reserved.contains(
                x,
            ) by {
                assert(named_in_ty(ty, x));
            }
            lemma_order_record(r, root, ctr, inh, site, depth + 1, reserved);
        },
        TypeRefV::InlineUnion(u) => {
            assert forall|x: Seq<char>| #[trigger] ext_in_union(u, x) implies !reserved.contains(
                x,
            ) by {
                assert(ext_in_ty(ty, x));
            }
            assert forall|x: Seq<char>| #[trigger] named_in_union(u, x) implies reserved.contains(
                x,
            ) by {
                assert(named_in_ty(ty, x));
            }
            lemma_order_union(u, root, ctr, inh, site, depth + 1, reserved);
        },
        TypeRefV::InlineUnionCollection(u) => {
            assert forall|x: Seq<char>| #[trigger] ext_in_union(u, x) implies !reserved.contains(
                x,
            ) by {
                assert(ext_in_ty(ty, x));
            }
            assert forall|x: Seq<char>| #[trigger] named_in_union(u, x) implies reserved.contains(
                x,
            ) by {
                assert(named_in_ty(ty, x));
            }
            lemma_order_union(u, root, ctr, inh, site, depth + 1, reserved);
        },
    }
}

pub proof fn lemma_order_fields(
    fields: Seq<FieldDefV>,
    i: int,
    root: Seq<char>,
    ctr: nat,
    inh: Seq<Seq<char>>,
    depth: nat,
    reserved: Set<Seq<char>>,
)
    requires
        forall|x: Seq<char>| #[trigger] ext_in_fields(fields, i, x) ==> !reserved.contains(x),
        forall|x: Seq<char>| #[trigger] named_in_fields(fields, i, x) ==> reserved.contains(x),
        forall|n: nat| reserved.contains(#[trigger] assigned_identity(root, n)),
    ensures
        crate::flatten::flat_fields_spec(fields, i, root, ctr, inh, depth) matches Result::Ok(o)
            ==> {
            &&& names_reserved(o.0, reserved)
            &&& ordered_strong(o.0, reserved)
            &&& fields_covered(o.1, o.0, reserved)
        },
    decreases weight_fields_from(fields, i),
{
    if 0 <= i < fields.len() {
        let f = fields[i];
        assert forall|x: Seq<char>| #[trigger] ext_in_ty(f.ty, x) implies !reserved.contains(x) by {
            assert(ext_in_fields(fields, i, x));
        }
        assert forall|x: Seq<char>| #[trigger] named_in_ty(f.ty, x) implies reserved.contains(x) by {
            assert(named_in_fields(fields, i, x));
        }
        lemma_order_slot_ty(f.ty, f.card, f.name, f.annotations, root, ctr, inh, depth, reserved);
        match crate::flatten::flat_slot_ty_spec(
            f.ty,
            f.card,
            f.name,
            f.annotations,
            root,
            ctr,
            inh,
            depth,
        ) {
            Result::Ok(os) => {
                assert forall|x: Seq<char>| #[trigger] ext_in_fields(fields, i + 1, x)
                    implies !reserved.contains(x) by {
                    assert(ext_in_fields(fields, i, x));
                }
                assert forall|x: Seq<char>| #[trigger] named_in_fields(fields, i + 1, x)
                    implies reserved.contains(x) by {
                    assert(named_in_fields(fields, i, x));
                }
                lemma_order_fields(fields, i + 1, root, os.3, inh, depth, reserved);
                match crate::flatten::flat_fields_spec(fields, i + 1, root, os.3, inh, depth) {
                    Result::Ok(rest) => {
                        let ff = FlatFieldV {
                            name: f.name,
                            ty: os.1,
                            card: os.2,
                            default: f.default,
                            annotations: f.annotations.self_only,
                        };
                        lemma_names_reserved_concat(os.0, rest.0, reserved);
                        lemma_ordered_concat(os.0, rest.0, reserved);
                        let combined = os.0 + rest.0;
                        let ffs = seq![ff] + rest.1;
                        assert forall|x: Seq<char>|
                            #[trigger] fields_reference(ffs, x) && reserved.contains(x)
                            implies defs_define(combined, x) by {
                            let k = choose|k: int|
                                0 <= k < ffs.len() && (#[trigger] ffs[k]).ty
                                    == TypeRefV::External(x);
                            if k == 0 {
                                assert(os.1 == TypeRefV::External(x));
                                assert(defs_define(os.0, x));
                                lemma_defs_define_concat_left(os.0, rest.0, x);
                            } else {
                                assert(ffs[k] == rest.1[k - 1]);
                                assert(fields_reference(rest.1, x));
                                assert(defs_define(rest.0, x));
                                lemma_defs_define_concat_right(os.0, rest.0, x);
                            }
                        }
                    },
                    Result::Err(_) => {},
                }
            },
            Result::Err(_) => {},
        }
    }
}

pub proof fn lemma_order_slots(
    slots: Seq<SlotDefV>,
    i: int,
    vname: Seq<char>,
    site: crate::schema::AnnotationsV,
    root: Seq<char>,
    ctr: nat,
    inh: Seq<Seq<char>>,
    depth: nat,
    reserved: Set<Seq<char>>,
)
    requires
        forall|x: Seq<char>| #[trigger] ext_in_slots(slots, i, x) ==> !reserved.contains(x),
        forall|x: Seq<char>| #[trigger] named_in_slots(slots, i, x) ==> reserved.contains(x),
        forall|n: nat| reserved.contains(#[trigger] assigned_identity(root, n)),
    ensures
        crate::flatten::flat_slots_spec(slots, i, vname, site, root, ctr, inh, depth)
            matches Result::Ok(o) ==> {
            &&& names_reserved(o.0, reserved)
            &&& ordered_strong(o.0, reserved)
            &&& slots_covered(o.1, o.0, reserved)
        },
    decreases weight_slots_from(slots, i),
{
    if 0 <= i < slots.len() {
        let sl = slots[i];
        assert forall|x: Seq<char>| #[trigger] ext_in_ty(sl.ty, x) implies !reserved.contains(x) by {
            assert(ext_in_slots(slots, i, x));
        }
        assert forall|x: Seq<char>| #[trigger] named_in_ty(sl.ty, x) implies reserved.contains(
            x,
        ) by {
            assert(named_in_slots(slots, i, x));
        }
        lemma_order_slot_ty(sl.ty, sl.card, vname, site, root, ctr, inh, depth, reserved);
        match crate::flatten::flat_slot_ty_spec(sl.ty, sl.card, vname, site, root, ctr, inh, depth) {
            Result::Ok(os) => {
                assert forall|x: Seq<char>| #[trigger] ext_in_slots(slots, i + 1, x)
                    implies !reserved.contains(x) by {
                    assert(ext_in_slots(slots, i, x));
                }
                assert forall|x: Seq<char>| #[trigger] named_in_slots(slots, i + 1, x)
                    implies reserved.contains(x) by {
                    assert(named_in_slots(slots, i, x));
                }
                lemma_order_slots(slots, i + 1, vname, site, root, os.3, inh, depth, reserved);
                match crate::flatten::flat_slots_spec(
                    slots,
                    i + 1,
                    vname,
                    site,
                    root,
                    os.3,
                    inh,
                    depth,
                ) {
                    Result::Ok(rest) => {
                        let fs = crate::flat::FlatSlotV { ty: os.1, card: os.2 };
                        lemma_names_reserved_concat(os.0, rest.0, reserved);
                        lemma_ordered_concat(os.0, rest.0, reserved);
                        let combined = os.0 + rest.0;
                        let fss = seq![fs] + rest.1;
                        assert forall|x: Seq<char>|
                            #[trigger] crate::flat::slots_reference(fss, x) && reserved.contains(x)
                            implies defs_define(combined, x) by {
                            let k = choose|k: int|
                                0 <= k < fss.len() && (#[trigger] fss[k]).ty
                                    == TypeRefV::External(x);
                            if k == 0 {
                                assert(os.1 == TypeRefV::External(x));
                                assert(defs_define(os.0, x));
                                lemma_defs_define_concat_left(os.0, rest.0, x);
                            } else {
                                assert(fss[k] == rest.1[k - 1]);
                                assert(crate::flat::slots_reference(rest.1, x));
                                assert(defs_define(rest.0, x));
                                lemma_defs_define_concat_right(os.0, rest.0, x);
                            }
                        }
                    },
                    Result::Err(_) => {},
                }
            },
            Result::Err(_) => {},
        }
    }
}

pub proof fn lemma_order_shape(
    shape: VariantShapeV,
    vname: Seq<char>,
    vann: crate::schema::AnnotationsV,
    root: Seq<char>,
    ctr: nat,
    inh: Seq<Seq<char>>,
    depth: nat,
    reserved: Set<Seq<char>>,
)
    requires
        forall|x: Seq<char>| #[trigger] ext_in_shape(shape, x) ==> !reserved.contains(x),
        forall|x: Seq<char>| #[trigger] named_in_shape(shape, x) ==> reserved.contains(x),
        forall|n: nat| reserved.contains(#[trigger] assigned_identity(root, n)),
    ensures
        crate::flatten::flat_shape_spec(shape, vname, vann, root, ctr, inh, depth)
            matches Result::Ok(o) ==> {
            &&& names_reserved(o.0, reserved)
            &&& ordered_strong(o.0, reserved)
            &&& forall|x: Seq<char>|
                #[trigger] shape_references(o.1, x) && reserved.contains(x) ==> defs_define(
                    o.0,
                    x,
                )
        },
    decreases weight_shape(shape),
{
    match shape {
        VariantShapeV::Empty => {},
        VariantShapeV::Positional(slots) => {
            assert forall|x: Seq<char>| #[trigger] ext_in_slots(slots, 0, x)
                implies !reserved.contains(x) by {
                assert(ext_in_shape(shape, x));
            }
            assert forall|x: Seq<char>| #[trigger] named_in_slots(slots, 0, x)
                implies reserved.contains(x) by {
                assert(named_in_shape(shape, x));
            }
            lemma_order_slots(slots, 0, vname, vann, root, ctr, inh, depth, reserved);
        },
        VariantShapeV::Fielded(fields) => {
            assert forall|x: Seq<char>| #[trigger] ext_in_fields(fields, 0, x)
                implies !reserved.contains(x) by {
                assert(ext_in_shape(shape, x));
            }
            assert forall|x: Seq<char>| #[trigger] named_in_fields(fields, 0, x)
                implies reserved.contains(x) by {
                assert(named_in_shape(shape, x));
            }
            lemma_order_fields(fields, 0, root, ctr, inh, depth, reserved);
        },
    }
}

pub proof fn lemma_order_variants(
    variants: Seq<VariantDefV>,
    i: int,
    root: Seq<char>,
    ctr: nat,
    inh: Seq<Seq<char>>,
    depth: nat,
    reserved: Set<Seq<char>>,
)
    requires
        forall|x: Seq<char>| #[trigger] ext_in_variants(variants, i, x) ==> !reserved.contains(x),
        forall|x: Seq<char>| #[trigger] named_in_variants(variants, i, x) ==> reserved.contains(x),
        forall|n: nat| reserved.contains(#[trigger] assigned_identity(root, n)),
    ensures
        crate::flatten::flat_variants_spec(variants, i, root, ctr, inh, depth)
            matches Result::Ok(o) ==> {
            &&& names_reserved(o.0, reserved)
            &&& ordered_strong(o.0, reserved)
            &&& variants_covered(o.1, o.0, reserved)
        },
    decreases weight_variants_from(variants, i),
{
    if 0 <= i < variants.len() {
        let v = variants[i];
        let inh_v = inh + v.annotations.recursive;
        assert forall|x: Seq<char>| #[trigger] ext_in_shape(v.shape, x) implies !reserved.contains(
            x,
        ) by {
            assert(ext_in_variants(variants, i, x));
        }
        assert forall|x: Seq<char>| #[trigger] named_in_shape(v.shape, x)
            implies reserved.contains(x) by {
            assert(named_in_variants(variants, i, x));
        }
        lemma_order_shape(v.shape, v.name, v.annotations, root, ctr, inh_v, depth, reserved);
        match crate::flatten::flat_shape_spec(
            v.shape,
            v.name,
            v.annotations,
            root,
            ctr,
            inh_v,
            depth,
        ) {
            Result::Ok(os) => {
                assert forall|x: Seq<char>| #[trigger] ext_in_variants(variants, i + 1, x)
                    implies !reserved.contains(x) by {
                    assert(ext_in_variants(variants, i, x));
                }
                assert forall|x: Seq<char>| #[trigger] named_in_variants(variants, i + 1, x)
                    implies reserved.contains(x) by {
                    assert(named_in_variants(variants, i, x));
                }
                lemma_order_variants(variants, i + 1, root, os.2, inh, depth, reserved);
                match crate::flatten::flat_variants_spec(variants, i + 1, root, os.2, inh, depth) {
                    Result::Ok(rest) => {
                        let fv = FlatVariantV {
                            name: v.name,
                            shape: os.1,
                            annotations: v.annotations.self_only,
                        };
                        lemma_names_reserved_concat(os.0, rest.0, reserved);
                        lemma_ordered_concat(os.0, rest.0, reserved);
                        let combined = os.0 + rest.0;
                        let fvs = seq![fv] + rest.1;
                        assert forall|x: Seq<char>|
                            #[trigger] crate::flat::variants_reference(fvs, x) && reserved.contains(
                                x,
                            ) implies defs_define(combined, x) by {
                            let k = choose|k: int|
                                0 <= k < fvs.len() && shape_references(
                                    (#[trigger] fvs[k]).shape,
                                    x,
                                );
                            if k == 0 {
                                assert(shape_references(os.1, x));
                                assert(defs_define(os.0, x));
                                lemma_defs_define_concat_left(os.0, rest.0, x);
                            } else {
                                assert(fvs[k] == rest.1[k - 1]);
                                assert(crate::flat::variants_reference(rest.1, x));
                                assert(defs_define(rest.0, x));
                                lemma_defs_define_concat_right(os.0, rest.0, x);
                            }
                        }
                    },
                    Result::Err(_) => {},
                }
            },
            Result::Err(_) => {},
        }
    }
}

pub proof fn lemma_order_record(
    r: RecordSchemaV,
    root: Seq<char>,
    ctr: nat,
    inh: Seq<Seq<char>>,
    site: crate::schema::AnnotationsV,
    depth: nat,
    reserved: Set<Seq<char>>,
)
    requires
        forall|x: Seq<char>| #[trigger] ext_in_record(r, x) ==> !reserved.contains(x),
        forall|x: Seq<char>| #[trigger] named_in_record(r, x) ==> reserved.contains(x),
        forall|n: nat| reserved.contains(#[trigger] assigned_identity(root, n)),
    ensures
        crate::flatten::flat_record_spec(r, root, ctr, inh, site, depth) matches Result::Ok(o)
            ==> {
            &&& names_reserved(o.0, reserved)
            &&& ordered_strong(o.0, reserved)
            &&& o.0.len() >= 1
            &&& def_name(o.0.last()) == o.1
        },
    decreases weight_record(r),
{
    let (name1, c1) = crate::names::assign_spec(r.name, root, ctr);
    let identity = crate::names::identity_of(name1);
    let inh1 = crate::annotate::child_inherited_spec(site, r.annotations, inh);
    assert forall|x: Seq<char>| #[trigger] ext_in_fields(r.fields, 0, x) implies !reserved.contains(
        x,
    ) by {
        assert(ext_in_record(r, x));
    }
    assert forall|x: Seq<char>| #[trigger] named_in_fields(r.fields, 0, x)
        implies reserved.contains(x) by {
        assert(named_in_record(r, x));
    }
    lemma_order_fields(r.fields, 0, root, c1, inh1, depth, reserved);
    match crate::flatten::flat_record_spec(r, root, ctr, inh, site, depth) {
        Result::Ok(o) => {
            match crate::flatten::flat_fields_spec(r.fields, 0, root, c1, inh1, depth) {
                Result::Ok(body) => {
                    assert(reserved.contains(identity)) by {
                        match r.name {
                            SchemaNameV::Named(s) => {
                                assert(named_as(r.name, s));
                                assert(named_in_record(r, s));
                            },
                            SchemaNameV::Anonymous => {
                                assert(identity == assigned_identity(root, (ctr as u64) as nat));
                            },
                            SchemaNameV::Assigned(rt, n) => {
                                assert(named_as(r.name, assigned_identity(rt, n as nat)));
                                assert(named_in_record(r, assigned_identity(rt, n as nat)));
                            },
                        }
                    }
                    let own = o.0.last();
                    assert forall|x: Seq<char>|
                        #[trigger] def_references(own, x) && reserved.contains(x)
                        implies defs_define(body.0, x) by {
                        assert(fields_reference(body.1, x));
                    }
                    lemma_ordered_push(body.0, own, reserved);
                    assert(o.0 == body.0.push(own));
                    assert forall|j: int| 0 <= j < o.0.len() implies reserved.contains(
                        def_name(#[trigger] o.0[j]),
                    ) by {
                        if j < o.0.len() - 1 {
                            assert(o.0[j] == body.0[j]);
                        } else {
                            assert(o.0[j] == own);
                        }
                    }
                },
                Result::Err(_) => {},
            }
        },
        Result::Err(_) => {},
    }
}

pub proof fn lemma_order_union(
    u: UnionSchemaV,
    root: Seq<char>,
    ctr: nat,
    inh: Seq<Seq<char>>,
    site: crate::schema::AnnotationsV,
    depth: nat,
    reserved: Set<Seq<char>>,
)
    requires
        forall|x: Seq<char>| #[trigger] ext_in_union(u, x) ==> !reserved.contains(x),
        forall|x: Seq<char>| #[trigger] named_in_union(u, x) ==> reserved.contains(x),
        forall|n: nat| reserved.contains(#[trigger] assigned_identity(root, n)),
    ensures
        crate::flatten::flat_union_spec(u, root, ctr, inh, site, depth) matches Result::Ok(o)
            ==> {
            &&& names_reserved(o.0, reserved)
            &&& ordered_strong(o.0, reserved)
            &&& o.0.len() >= 1
            &&& def_name(o.0.last()) == o.1
        },
    decreases weight_union(u),
{
    let (name1, c1) = crate::names::assign_spec(u.name, root, ctr);
    let identity = crate::names::identity_of(name1);
    let inh1 = crate::annotate::child_inherited_spec(site, u.annotations, inh);
    assert forall|x: Seq<char>| #[trigger] ext_in_variants(u.variants, 0, x)
        implies !reserved.contains(x) by {
        assert(ext_in_union(u, x));
    }
    assert forall|x: Seq<char>| #[trigger] named_in_variants(u.variants, 0, x)
        implies reserved.contains(x) by {
        assert(named_in_union(u, x));
    }
    lemma_order_variants(u.variants, 0, root, c1, inh1, depth, reserved);
    match crate::flatten::flat_union_spec(u, root, ctr, inh, site, depth) {
        Result::Ok(o) => {
            match crate::flatten::flat_variants_spec(u.variants, 0, root, c1, inh1, depth) {
                Result::Ok(body) => {
                    assert(reserved.contains(identity)) by {
                        match u.name {
                            SchemaNameV::Named(s) => {
                                assert(named_as(u.name, s));
                                assert(named_in_union(u, s));
                            },
                            SchemaNameV::Anonymous => {
                                assert(identity == assigned_identity(root, (ctr as u64) as nat));
                            },
                            SchemaNameV::Assigned(rt, n) => {
                                assert(named_as(u.name, assigned_identity(rt, n as nat)));
                                assert(named_in_union(u, assigned_identity(rt, n as nat)));
                            },
                        }
                    }
                    let own = o.0.last();
                    assert forall|x: Seq<char>|
                        #[trigger] def_references(own, x) && reserved.contains(x)
                        implies defs_define(body.0, x) by {
                        assert(crate::flat::variants_reference(body.1, x));
                    }
                    lemma_ordered_push(body.0, own, reserved);
                    assert(o.0 == body.0.push(own));
                    assert forall|j: int| 0 <= j < o.0.len() implies reserved.contains(
                        def_name(#[trigger] o.0[j]),
                    ) by {
                        if j < o.0.len() - 1 {
                            assert(o.0[j] == body.0[j]);
                        } else {
                            assert(o.0[j] == own);
                        }
                    }
                },
                Result::Err(_) => {},
            }
        },
        Result::Err(_) => {},
    }
}

// ---------------------------------------------------------------------------
// The law itself.
// ---------------------------------------------------------------------------

/// Law: dependency-before-use ordering.  For any entry of the flat output
/// referencing a name that the output defines at all, the definition of
/// that name stands strictly earlier in the list.  The input's verbatim
/// external references must not collide with a user-given inline name or
/// with a synthetic identity of this root; an input such as a record with a
/// field `a: Foo` followed by an inline definition named `Foo` breaks the
/// ordering and is excluded.
pub proof fn lemma_dependency_before_use_record(r: RecordSchemaV, root: Seq<char>)
    requires
        r.name == SchemaNameV::Named(root),
        forall|x: Seq<char>| #[trigger] ext_in_record(r, x) ==> !named_in_record(r, x) && !(exists|
            n: nat,
        | x == assigned_identity(root, n)),
    ensures
        crate::define_record_spec(r) matches Result::Ok(o) ==> dependency_ordered(o.0),
{
    let reserved = reserved_of_record(r, root);
    assert forall|x: Seq<char>| #[trigger] ext_in_record(r, x) implies !reserved.contains(x) by {}
    assert forall|x: Seq<char>| #[trigger] named_in_record(r, x) implies reserved.contains(x) by {}
    assert forall|n: nat| reserved.contains(#[trigger] assigned_identity(root, n)) by {}
    let site = crate::schema::AnnotationsV { self_only: Seq::empty(), recursive: Seq::empty() };
    lemma_order_record(r, root, 0, Seq::empty(), site, 0, reserved);
    match crate::flatten::flat_record_spec(r, root, 0, Seq::empty(), site, 0) {
        Result::Ok(o) => {
            lemma_ordered_implies_dependency(o.0, reserved);
        },
        Result::Err(_) => {},
    }
}

/// The union counterpart of `lemma_dependency_before_use_record`.
pub proof fn lemma_dependency_before_use_union(u: UnionSchemaV, root: Seq<char>)
    requires
        u.name == SchemaNameV::Named(root),
        forall|x: Seq<char>| #[trigger] ext_in_union(u, x) ==> !named_in_union(u, x) && !(exists|
            n: nat,
        | x == assigned_identity(root, n)),
    ensures
        crate::define_union_spec(u) matches Result::Ok(o) ==> dependency_ordered(o.0),
{
    let reserved = reserved_of_union(u, root);
    assert forall|x: Seq<char>| #[trigger] ext_in_union(u, x) implies !reserved.contains(x) by {}
    assert forall|x: Seq<char>| #[trigger] named_in_union(u, x) implies reserved.contains(x) by {}
    assert forall|n: nat| reserved.contains(#[trigger] assigned_identity(root, n)) by {}
    let site = crate::schema::AnnotationsV { self_only: Seq::empty(), recursive: Seq::empty() };
    lemma_order_union(u, root, 0, Seq::empty(), site, 0, reserved);
    match crate::flatten::flat_union_spec(u, root, 0, Seq::empty(), site, 0) {
        Result::Ok(o) => {
            lemma_ordered_implies_dependency(o.0, reserved);
        },
        Result::Err(_) => {},
    }
}

proof fn lemma_ordered_implies_dependency(defs: Seq<FlatDefV>, reserved: Set<Seq<char>>)
    requires
        names_reserved(defs, reserved),
        ordered_strong(defs, reserved),
    ensures
        dependency_ordered(defs),
{
    assert forall|i: int, x: Seq<char>|
        0 <= i < defs.len() && #[trigger] def_references(defs[i], x) && defs_define(defs, x)
        implies exists|j: int| 0 <= j < i && def_name(#[trigger] defs[j]) == x by {
        let j0 = choose|j: int| 0 <= j < defs.len() && def_name(#[trigger] defs[j]) == x;
        assert(reserved.contains(x));
        assert(defs_define(defs.take(i), x));
        let sub = defs.take(i);
        let j = choose|j: int| 0 <= j < sub.len() && def_name(#[trigger] sub[j]) == x;
        assert(def_name(defs[j]) == x);
    }
}

} // verus!
