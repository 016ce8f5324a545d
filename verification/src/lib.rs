//! A schema-flattening library.
//!
//! The input is a description of record and tagged-union types whose fields
//! and variant slots may themselves hold anonymous inline schemas, nested to
//! any depth.  The library rewrites such a tree into a flat, ordered list of
//! independent type definitions (every slot type a plain external reference),
//! assigns every anonymous schema a stable synthetic identity, propagates
//! self-scoped and recursive-scoped annotations down the tree, resolves
//! three-state default values into constructor plans, and derives, per
//! flattened definition, a literal-builder rule set that expands a literal
//! written in the original nested shape into constructor calls against the
//! flattened types.

use vstd::prelude::*;

pub mod annotate;
pub mod builder;
pub mod defaults;
pub mod flat;
pub mod flatten;
pub mod laws;
pub mod names;
pub mod order;
pub mod schema;

use crate::annotate::no_annotations;
use crate::builder::{rule_sets_dv, rule_sets_for, rule_sets_of, RuleSet};
use crate::flat::{flat_defs_dv, FlatDef, FlatDefV};
use crate::flatten::{flat_record_spec, flat_union_spec, flatten_record, flatten_union};
use crate::names::{FlattenError, FlattenErrorV};
use crate::schema::{
    weight_record, weight_union, AnnotationsV, RecordSchema, RecordSchemaV, SchemaNameV,
    UnionSchema, UnionSchemaV,
};

verus! {

/// The reference semantics of `define_record`: the root schema must carry a
/// user-given name, which seeds the identities of its anonymous
/// descendants; the tree is flattened with a fresh counter and no inherited
/// annotations, and one builder rule set accompanies each flat definition.
pub open spec fn define_record_spec(r: RecordSchemaV) -> Result<
    (Seq<FlatDefV>, Seq<crate::builder::RuleSetV>),
    FlattenErrorV,
> {
    match r.name {
        SchemaNameV::Named(root) => match flat_record_spec(
            r,
            root,
            0,
            Seq::empty(),
            AnnotationsV { self_only: Seq::empty(), recursive: Seq::empty() },
            0,
        ) {
            Result::Ok((defs, id, c)) => Result::Ok((defs, rule_sets_of(defs))),
            Result::Err(e) => Result::Err(e),
        },
        _ => Result::Err(FlattenErrorV::AnonymousRoot),
    }
}

/// The reference semantics of `define_union`.
pub open spec fn define_union_spec(u: UnionSchemaV) -> Result<
    (Seq<FlatDefV>, Seq<crate::builder::RuleSetV>),
    FlattenErrorV,
> {
    match u.name {
        SchemaNameV::Named(root) => match flat_union_spec(
            u,
            root,
            0,
            Seq::empty(),
            AnnotationsV { self_only: Seq::empty(), recursive: Seq::empty() },
            0,
        ) {
            Result::Ok((defs, id, c)) => Result::Ok((defs, rule_sets_of(defs))),
            Result::Err(e) => Result::Err(e),
        },
        _ => Result::Err(FlattenErrorV::AnonymousRoot),
    }
}

/// Flattens one root record schema into the ordered list of flat
/// definitions and their builder rule sets.
pub fn define_record(schema: &RecordSchema) -> (r: Result<
    (Vec<FlatDef>, Vec<RuleSet>),
    FlattenError,
>)
    requires
        weight_record(schema.dv()) <= u64::MAX,
    ensures
        ({
            let s = define_record_spec(schema.dv());
            match r {
                Result::Ok(o) => s matches Result::Ok(so) && flat_defs_dv(o.0@) == so.0
                    && rule_sets_dv(o.1@) == so.1 && crate::flat::defs_external(
                    flat_defs_dv(o.0@),
                ),
                Result::Err(e) => s matches Result::Err(se) && e.dv() == se,
            }
        }),
{
    match &schema.name {
        crate::schema::SchemaName::Named(root) => {
            let site = no_annotations();
            let inh: Vec<String> = Vec::new();
            proof {
                assert(inh.deep_view() =~= Seq::<Seq<char>>::empty());
                assert(site.dv() == (AnnotationsV {
                    self_only: Seq::<Seq<char>>::empty(),
                    recursive: Seq::<Seq<char>>::empty(),
                }));
            }
            match flatten_record(schema, root, 0, &inh, &site, 0) {
                Err(e) => Err(e),
                Ok((defs, _identity, _ctr)) => {
                    proof {
                        crate::laws::lemma_record_external(
                            schema.dv(),
                            root@,
                            0,
                            Seq::empty(),
                            site.dv(),
                            0,
                        );
                    }
                    let rules = rule_sets_for(&defs);
                    Ok((defs, rules))
                },
            }
        },
        _ => Err(FlattenError::AnonymousRoot),
    }
}

/// Flattens one root union schema into the ordered list of flat
/// definitions and their builder rule sets.
pub fn define_union(schema: &UnionSchema) -> (r: Result<
    (Vec<FlatDef>, Vec<RuleSet>),
    FlattenError,
>)
    requires
        weight_union(schema.dv()) <= u64::MAX,
    ensures
        ({
            let s = define_union_spec(schema.dv());
            match r {
                Result::Ok(o) => s matches Result::Ok(so) && flat_defs_dv(o.0@) == so.0
                    && rule_sets_dv(o.1@) == so.1 && crate::flat::defs_external(
                    flat_defs_dv(o.0@),
                ),
                Result::Err(e) => s matches Result::Err(se) && e.dv() == se,
            }
        }),
{
    match &schema.name {
        crate::schema::SchemaName::Named(root) => {
            let site = no_annotations();
            let inh: Vec<String> = Vec::new();
            proof {
                assert(inh.deep_view() =~= Seq::<Seq<char>>::empty());
                assert(site.dv() == (AnnotationsV {
                    self_only: Seq::<Seq<char>>::empty(),
                    recursive: Seq::<Seq<char>>::empty(),
                }));
            }
            match flatten_union(schema, root, 0, &inh, &site, 0) {
                Err(e) => Err(e),
                Ok((defs, _identity, _ctr)) => {
                    proof {
                        crate::laws::lemma_union_external(
                            schema.dv(),
                            root@,
                            0,
                            Seq::empty(),
                            site.dv(),
                            0,
                        );
                    }
                    let rules = rule_sets_for(&defs);
                    Ok((defs, rules))
                },
            }
        },
        _ => Err(FlattenError::AnonymousRoot),
    }
}

} // verus!
