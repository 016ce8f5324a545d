//! The default resolver: turns the three-state default descriptors of a flat
//! definition into a constructor plan.
//!
//! A record whose fields all lack a default gets the trivial zero-value
//! constructor; otherwise an explicit constructor fills every field, from
//! its own expression, from a collection literal, or with the zero value of
//! its type.  A union's plan names its default variant if one was declared;
//! if none was, constructing a default is a deferred defect that surfaces
//! only at the point of use, never during flattening.

use vstd::prelude::*;

use crate::flat::{flat_fields_dv, lemma_flat_fields_dv, FlatField, FlatFieldV, FlatUnion, FlatUnionV};
use crate::schema::{DefaultSpec, DefaultSpecV};
use crate::annotate::copy_strings;

verus! {

broadcast use lemma_flat_fields_dv;

/// How one field of an explicit constructor is filled.
#[derive(Debug, Clone, PartialEq, Eq)]
pub enum FieldInit {
    Zero,
    Expr(String),
    CollectionLit(Vec<String>),
}

/// One field of an explicit constructor plan.
#[derive(Debug, Clone, PartialEq, Eq)]
pub struct FieldPlan {
    pub field: String,
    pub init: FieldInit,
}

/// The constructor plan of a record definition.
#[derive(Debug, Clone, PartialEq, Eq)]
pub enum ConstructorPlan {
    DeriveTrivial,
    Explicit(Vec<FieldPlan>),
}

/// The constructor plan of a union definition.
#[derive(Debug, Clone, PartialEq, Eq)]
pub enum UnionPlan {
    UseVariant(String),
    DeferredFailure,
}

/// The deferred defect of invoking the default constructor of a union that
/// declared no default variant.
#[derive(Debug, Clone, Copy, PartialEq, Eq, Structural)]
pub enum DefaultError {
    NoDefaultVariant,
}

pub enum FieldInitV {
    Zero,
    Expr(Seq<char>),
    CollectionLit(Seq<Seq<char>>),
}

pub struct FieldPlanV {
    pub field: Seq<char>,
    pub init: FieldInitV,
}

pub enum ConstructorPlanV {
    DeriveTrivial,
    Explicit(Seq<FieldPlanV>),
}

pub enum UnionPlanV {
    UseVariant(Seq<char>),
    DeferredFailure,
}

impl FieldInit {
    pub open spec fn dv(&self) -> FieldInitV {
        match self {
            FieldInit::Zero => FieldInitV::Zero,
            FieldInit::Expr(e) => FieldInitV::Expr(e@),
            FieldInit::CollectionLit(es) => FieldInitV::CollectionLit(es.deep_view()),
        }
    }
}

impl FieldPlan {
    pub open spec fn dv(&self) -> FieldPlanV {
        FieldPlanV { field: self.field@, init: self.init.dv() }
    }
}

pub open spec fn plans_dv(plans: Seq<FieldPlan>) -> Seq<FieldPlanV>
    decreases plans,
{
    if plans.len() == 0 {
        Seq::empty()
    } else {
        plans_dv(plans.drop_last()).push(plans.last().dv())
    }
}

pub broadcast proof fn lemma_plans_dv(plans: Seq<FieldPlan>)
    ensures
        (#[trigger] plans_dv(plans)).len() == plans.len(),
        forall|i: int| 0 <= i < plans.len() ==> plans_dv(plans)[i] == plans[i].dv(),
    decreases plans,
{
    if plans.len() > 0 {
        lemma_plans_dv(plans.drop_last());
    }
}

impl ConstructorPlan {
    pub open spec fn dv(&self) -> ConstructorPlanV {
        match self {
            ConstructorPlan::DeriveTrivial => ConstructorPlanV::DeriveTrivial,
            ConstructorPlan::Explicit(plans) => ConstructorPlanV::Explicit(plans_dv(plans@)),
        }
    }
}

impl UnionPlan {
    pub open spec fn dv(&self) -> UnionPlanV {
        match self {
            UnionPlan::UseVariant(p) => UnionPlanV::UseVariant(p@),
            UnionPlan::DeferredFailure => UnionPlanV::DeferredFailure,
        }
    }
}

// ---------------------------------------------------------------------------
// The resolution rule.
// ---------------------------------------------------------------------------

pub open spec fn all_absent(fields: Seq<FlatFieldV>) -> bool {
    forall|i: int| 0 <= i < fields.len() ==> (#[trigger] fields[i].default) is Absent
}

/// What one field's default resolves to in an explicit constructor.
pub open spec fn init_of(d: DefaultSpecV) -> FieldInitV {
    match d {
        DefaultSpecV::Absent => FieldInitV::Zero,
        DefaultSpecV::Single(e) => FieldInitV::Expr(e),
        DefaultSpecV::Array(es) => FieldInitV::CollectionLit(es),
    }
}

/// The constructor plan of a field list: trivial when no field declares a
/// default, otherwise explicit with every field filled.
pub open spec fn resolve_spec(fields: Seq<FlatFieldV>) -> ConstructorPlanV {
    if all_absent(fields) {
        ConstructorPlanV::DeriveTrivial
    } else {
        ConstructorPlanV::Explicit(
            Seq::new(
                fields.len(),
                |i: int| FieldPlanV { field: fields[i].name, init: init_of(fields[i].default) },
            ),
        )
    }
}

/// Resolves the defaults of a flat field list into a constructor plan.
pub fn resolve_defaults(fields: &Vec<FlatField>) -> (r: ConstructorPlan)
    ensures
        r.dv() == resolve_spec(flat_fields_dv(fields@)),
{
    let ghost sfields = flat_fields_dv(fields@);
    let mut trivial = true;
    let mut i: usize = 0;
    while i < fields.len()
        invariant
            i <= fields.len(),
            trivial == forall|k: int| 0 <= k < i ==> (#[trigger] sfields[k].default) is Absent,
            sfields == flat_fields_dv(fields@),
        decreases fields.len() - i,
    {
        match &fields[i].default {
            DefaultSpec::Absent => {},
            _ => {
                trivial = false;
                proof {
                    assert(!((sfields[i as int].default) is Absent));
                }
            },
        }
        i += 1;
    }
    if trivial {
        proof {
            assert(all_absent(sfields));
        }
        ConstructorPlan::DeriveTrivial
    } else {
        let mut plans: Vec<FieldPlan> = Vec::new();
        let mut j: usize = 0;
        while j < fields.len()
            invariant
                j <= fields.len(),
                plans@.len() == j,
                forall|k: int|
                    0 <= k < j ==> (#[trigger] plans@[k]).dv() == (FieldPlanV {
                        field: sfields[k].name,
                        init: init_of(sfields[k].default),
                    }),
                sfields == flat_fields_dv(fields@),
            decreases fields.len() - j,
        {
            let f = &fields[j];
            let init = match &f.default {
                DefaultSpec::Absent => FieldInit::Zero,
                DefaultSpec::Single(e) => FieldInit::Expr(e.clone()),
                DefaultSpec::Array(es) => FieldInit::CollectionLit(copy_strings(es)),
            };
            plans.push(FieldPlan { field: f.name.clone(), init });
            j += 1;
        }
        proof {
            lemma_plans_dv(plans@);
            assert(!all_absent(sfields));
            assert(plans_dv(plans@) =~= Seq::new(
                sfields.len(),
                |i: int| FieldPlanV { field: sfields[i].name, init: init_of(sfields[i].default) },
            ));
        }
        ConstructorPlan::Explicit(plans)
    }
}

/// Law: default resolution is complete.  For any mix of absent, single and
/// collection defaults, the explicit constructor plan fills every field of
/// the definition exactly once, in declaration order, and the trivial plan
/// is produced exactly when no field declares a default.
pub proof fn lemma_default_completeness(fields: Seq<FlatFieldV>)
    ensures
        resolve_spec(fields) is DeriveTrivial <==> all_absent(fields),
        resolve_spec(fields) matches ConstructorPlanV::Explicit(inits) ==> inits.len()
            == fields.len() && forall|i: int|
            0 <= i < fields.len() ==> (#[trigger] inits[i]).field == fields[i].name && inits[i].init
                == init_of(fields[i].default),
{
}

// ---------------------------------------------------------------------------
// Union defaults.
// ---------------------------------------------------------------------------

pub open spec fn union_plan_spec(u: FlatUnionV) -> UnionPlanV {
    match u.default_variant {
        DefaultSpecV::Single(p) => UnionPlanV::UseVariant(p),
        _ => UnionPlanV::DeferredFailure,
    }
}

/// The constructor plan of a union: its declared default variant, or a
/// deliberately deferred failure.
pub fn resolve_union_default(u: &FlatUnion) -> (r: UnionPlan)
    ensures
        r.dv() == union_plan_spec(u.dv()),
{
    match &u.default_variant {
        DefaultSpec::Single(p) => UnionPlan::UseVariant(p.clone()),
        _ => UnionPlan::DeferredFailure,
    }
}

/// Invokes the default constructor of a flat union: the point of use at
/// which a missing default variant finally surfaces as an error.  Returns
/// the constructor path exactly when the union declared a default variant.
pub fn invoke_union_default(u: &FlatUnion) -> (r: Result<String, DefaultError>)
    ensures
        r matches Ok(p) ==> union_plan_spec(u.dv()) == UnionPlanV::UseVariant(p@),
        r is Err <==> union_plan_spec(u.dv()) is DeferredFailure,
        r matches Err(e) ==> e == DefaultError::NoDefaultVariant,
{
    match &u.default_variant {
        DefaultSpec::Single(p) => Ok(p.clone()),
        _ => Err(DefaultError::NoDefaultVariant),
    }
}

} // verus!
