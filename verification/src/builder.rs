//! The literal-builder rule sets and their expander.
//!
//! For every flat definition the library derives a rule set, keyed by the
//! definition's identity, that records for each field or variant slot the
//! base type it dispatches to.  A generic expander interprets these rule
//! sets against a literal written in the original nested shape — record
//! bodies, empty, positional and fielded variants, and chained variant
//! paths through nested anonymous unions — and produces the constructor
//! invocation against the flattened types.  A literal that could only fail
//! later, inside the emitted code, is rejected during expansion instead.

use vstd::prelude::*;

use crate::annotate::{contains_string, first_duplicate, first_duplicate_spec, push_string};
use crate::flat::{
    all_fields_external, all_slots_external, all_variants_external, def_external, field_external,
    flat_defs_dv, flat_fields_dv, flat_slots_dv, flat_variants_dv, lemma_flat_defs_dv,
    lemma_flat_fields_dv, lemma_flat_slots_dv, lemma_flat_variants_dv, shape_external, FlatDef,
    FlatDefV, FlatField, FlatFieldV, FlatShape, FlatShapeV, FlatSlot, FlatSlotV, FlatVariant,
    FlatVariantV,
};
use crate::schema::{Cardinality, TypeRef, TypeRefV};

verus! {

broadcast use lemma_flat_defs_dv, lemma_flat_fields_dv, lemma_flat_slots_dv,
    lemma_flat_variants_dv;

// ---------------------------------------------------------------------------
// Rule sets.
// ---------------------------------------------------------------------------

/// The dispatch rule of one record or fielded-variant field: a nested
/// literal under this field expands against `base`, provided the field is
/// plain (a wrapped field cannot take a nested literal directly).
#[derive(Debug, Clone, PartialEq, Eq)]
pub struct FieldRule {
    pub field: String,
    pub base: String,
    pub card: Cardinality,
}

/// The dispatch rule of one positional slot.
#[derive(Debug, Clone, PartialEq, Eq)]
pub struct SlotRule {
    pub base: String,
    pub card: Cardinality,
}

/// The rule of one union variant.
#[derive(Debug, Clone, PartialEq, Eq)]
pub enum VariantRule {
    Empty,
    Positional(Vec<SlotRule>),
    Fielded(Vec<FieldRule>),
}

#[derive(Debug, Clone, PartialEq, Eq)]
pub struct VariantRuleEntry {
    pub variant: String,
    pub rule: VariantRule,
}

#[derive(Debug, Clone, PartialEq, Eq)]
pub enum RuleKind {
    Record(Vec<FieldRule>),
    Union(Vec<VariantRuleEntry>),
}

/// The builder rule set of one flat definition.
#[derive(Debug, Clone, PartialEq, Eq)]
pub struct RuleSet {
    pub identity: String,
    pub kind: RuleKind,
}

pub struct FieldRuleV {
    pub field: Seq<char>,
    pub base: Seq<char>,
    pub card: Cardinality,
}

pub struct SlotRuleV {
    pub base: Seq<char>,
    pub card: Cardinality,
}

pub enum VariantRuleV {
    Empty,
    Positional(Seq<SlotRuleV>),
    Fielded(Seq<FieldRuleV>),
}

pub struct VariantRuleEntryV {
    pub variant: Seq<char>,
    pub rule: VariantRuleV,
}

pub enum RuleKindV {
    Record(Seq<FieldRuleV>),
    Union(Seq<VariantRuleEntryV>),
}

pub struct RuleSetV {
    pub identity: Seq<char>,
    pub kind: RuleKindV,
}

impl FieldRule {
    pub open spec fn dv(&self) -> FieldRuleV {
        FieldRuleV { field: self.field@, base: self.base@, card: self.card }
    }
}

impl SlotRule {
    pub open spec fn dv(&self) -> SlotRuleV {
        SlotRuleV { base: self.base@, card: self.card }
    }
}

pub open spec fn field_rules_dv(rules: Seq<FieldRule>) -> Seq<FieldRuleV>
    decreases rules,
{
    if rules.len() == 0 {
        Seq::empty()
    } else {
        field_rules_dv(rules.drop_last()).push(rules.last().dv())
    }
}

pub broadcast proof fn lemma_field_rules_dv(rules: Seq<FieldRule>)
    ensures
        (#[trigger] field_rules_dv(rules)).len() == rules.len(),
        forall|i: int| 0 <= i < rules.len() ==> field_rules_dv(rules)[i] == rules[i].dv(),
    decreases rules,
{
    if rules.len() > 0 {
        lemma_field_rules_dv(rules.drop_last());
    }
}

pub open spec fn slot_rules_dv(rules: Seq<SlotRule>) -> Seq<SlotRuleV>
    decreases rules,
{
    if rules.len() == 0 {
        Seq::empty()
    } else {
        slot_rules_dv(rules.drop_last()).push(rules.last().dv())
    }
}

pub broadcast proof fn lemma_slot_rules_dv(rules: Seq<SlotRule>)
    ensures
        (#[trigger] slot_rules_dv(rules)).len() == rules.len(),
        forall|i: int| 0 <= i < rules.len() ==> slot_rules_dv(rules)[i] == rules[i].dv(),
    decreases rules,
{
    if rules.len() > 0 {
        lemma_slot_rules_dv(rules.drop_last());
    }
}

impl VariantRule {
    pub open spec fn dv(&self) -> VariantRuleV {
        match self {
            VariantRule::Empty => VariantRuleV::Empty,
            VariantRule::Positional(s) => VariantRuleV::Positional(slot_rules_dv(s@)),
            VariantRule::Fielded(f) => VariantRuleV::Fielded(field_rules_dv(f@)),
        }
    }
}

impl VariantRuleEntry {
    pub open spec fn dv(&self) -> VariantRuleEntryV {
        VariantRuleEntryV { variant: self.variant@, rule: self.rule.dv() }
    }
}

pub open spec fn entries_dv(entries: Seq<VariantRuleEntry>) -> Seq<VariantRuleEntryV>
    decreases entries,
{
    if entries.len() == 0 {
        Seq::empty()
    } else {
        entries_dv(entries.drop_last()).push(entries.last().dv())
    }
}

pub broadcast proof fn lemma_entries_dv(entries: Seq<VariantRuleEntry>)
    ensures
        (#[trigger] entries_dv(entries)).len() == entries.len(),
        forall|i: int| 0 <= i < entries.len() ==> entries_dv(entries)[i] == entries[i].dv(),
    decreases entries,
{
    if entries.len() > 0 {
        lemma_entries_dv(entries.drop_last());
    }
}

impl RuleSet {
    pub open spec fn dv(&self) -> RuleSetV {
        RuleSetV {
            identity: self.identity@,
            kind: match self.kind {
                RuleKind::Record(f) => RuleKindV::Record(field_rules_dv(f@)),
                RuleKind::Union(e) => RuleKindV::Union(entries_dv(e@)),
            },
        }
    }
}

pub open spec fn rule_sets_dv(sets: Seq<RuleSet>) -> Seq<RuleSetV>
    decreases sets,
{
    if sets.len() == 0 {
        Seq::empty()
    } else {
        rule_sets_dv(sets.drop_last()).push(sets.last().dv())
    }
}

pub broadcast proof fn lemma_rule_sets_dv(sets: Seq<RuleSet>)
    ensures
        (#[trigger] rule_sets_dv(sets)).len() == sets.len(),
        forall|i: int| 0 <= i < sets.len() ==> rule_sets_dv(sets)[i] == sets[i].dv(),
    decreases sets,
{
    if sets.len() > 0 {
        lemma_rule_sets_dv(sets.drop_last());
    }
}

// ---------------------------------------------------------------------------
// Rule generation: a projection of the flat definitions.
// ---------------------------------------------------------------------------

pub open spec fn external_base(t: TypeRefV) -> Seq<char> {
    match t {
        TypeRefV::External(s) => s,
        _ => Seq::empty(),
    }
}

pub open spec fn field_rule_of(f: FlatFieldV) -> FieldRuleV {
    FieldRuleV { field: f.name, base: external_base(f.ty), card: f.card }
}

pub open spec fn field_rules_of(fields: Seq<FlatFieldV>) -> Seq<FieldRuleV> {
    Seq::new(fields.len(), |i: int| field_rule_of(fields[i]))
}

pub open spec fn slot_rules_of(slots: Seq<FlatSlotV>) -> Seq<SlotRuleV> {
    Seq::new(slots.len(), |i: int| SlotRuleV { base: external_base(slots[i].ty), card: slots[i].card })
}

pub open spec fn variant_rule_of(v: FlatVariantV) -> VariantRuleV {
    match v.shape {
        FlatShapeV::Empty => VariantRuleV::Empty,
        FlatShapeV::Positional(slots) => VariantRuleV::Positional(slot_rules_of(slots)),
        FlatShapeV::Fielded(fields) => VariantRuleV::Fielded(field_rules_of(fields)),
    }
}

pub open spec fn variant_entries_of(variants: Seq<FlatVariantV>) -> Seq<VariantRuleEntryV> {
    Seq::new(
        variants.len(),
        |i: int| VariantRuleEntryV { variant: variants[i].name, rule: variant_rule_of(variants[i]) },
    )
}

/// The builder rule set of one flat definition.
pub open spec fn rule_set_of(d: FlatDefV) -> RuleSetV {
    match d {
        FlatDefV::Record(r) => RuleSetV {
            identity: r.name,
            kind: RuleKindV::Record(field_rules_of(r.fields)),
        },
        FlatDefV::Union(u) => RuleSetV {
            identity: u.name,
            kind: RuleKindV::Union(variant_entries_of(u.variants)),
        },
    }
}

/// One rule set per flat definition, in the same order.
pub open spec fn rule_sets_of(defs: Seq<FlatDefV>) -> Seq<RuleSetV> {
    Seq::new(defs.len(), |i: int| rule_set_of(defs[i]))
}

fn external_base_exec(t: &TypeRef) -> (r: String)
    requires
        t.dv() is External,
    ensures
        r@ == external_base(t.dv()),
{
    match t {
        TypeRef::External(s) => s.clone(),
        _ => {
            // excluded by the precondition
            proof {
                assert(false);
            }
            String::new()
        },
    }
}

fn field_rules_exec(fields: &Vec<FlatField>) -> (r: Vec<FieldRule>)
    requires
        all_fields_external(flat_fields_dv(fields@)),
    ensures
        field_rules_dv(r@) == field_rules_of(flat_fields_dv(fields@)),
{
    let ghost sfields = flat_fields_dv(fields@);
    let mut out: Vec<FieldRule> = Vec::new();
    let mut i: usize = 0;
    while i < fields.len()
        invariant
            i <= fields.len(),
            out@.len() == i,
            forall|k: int| 0 <= k < i ==> (#[trigger] out@[k]).dv() == field_rule_of(sfields[k]),
            sfields == flat_fields_dv(fields@),
            all_fields_external(sfields),
        decreases fields.len() - i,
    {
        let f = &fields[i];
        proof {
            assert(field_external(sfields[i as int]));
        }
        out.push(
            FieldRule { field: f.name.clone(), base: external_base_exec(&f.ty), card: f.card },
        );
        i += 1;
    }
    proof {
        lemma_field_rules_dv(out@);
        assert(field_rules_dv(out@) =~= field_rules_of(sfields));
    }
    out
}

fn slot_rules_exec(slots: &Vec<FlatSlot>) -> (r: Vec<SlotRule>)
    requires
        all_slots_external(flat_slots_dv(slots@)),
    ensures
        slot_rules_dv(r@) == slot_rules_of(flat_slots_dv(slots@)),
{
    let ghost sslots = flat_slots_dv(slots@);
    let mut out: Vec<SlotRule> = Vec::new();
    let mut i: usize = 0;
    while i < slots.len()
        invariant
            i <= slots.len(),
            out@.len() == i,
            forall|k: int|
                0 <= k < i ==> (#[trigger] out@[k]).dv() == (SlotRuleV {
                    base: external_base(sslots[k].ty),
                    card: sslots[k].card,
                }),
            sslots == flat_slots_dv(slots@),
            all_slots_external(sslots),
        decreases slots.len() - i,
    {
        let s = &slots[i];
        proof {
            assert(sslots[i as int].ty is External);
        }
        out.push(SlotRule { base: external_base_exec(&s.ty), card: s.card });
        i += 1;
    }
    proof {
        lemma_slot_rules_dv(out@);
        assert(slot_rules_dv(out@) =~= slot_rules_of(sslots));
    }
    out
}

fn variant_entries_exec(variants: &Vec<FlatVariant>) -> (r: Vec<VariantRuleEntry>)
    requires
        all_variants_external(flat_variants_dv(variants@)),
    ensures
        entries_dv(r@) == variant_entries_of(flat_variants_dv(variants@)),
{
    let ghost svariants = flat_variants_dv(variants@);
    let mut out: Vec<VariantRuleEntry> = Vec::new();
    let mut i: usize = 0;
    while i < variants.len()
        invariant
            i <= variants.len(),
            out@.len() == i,
            forall|k: int|
                0 <= k < i ==> (#[trigger] out@[k]).dv() == (VariantRuleEntryV {
                    variant: svariants[k].name,
                    rule: variant_rule_of(svariants[k]),
                }),
            svariants == flat_variants_dv(variants@),
            all_variants_external(svariants),
        decreases variants.len() - i,
    {
        let v = &variants[i];
        proof {
            assert(shape_external(svariants[i as int].shape));
        }
        let rule = match &v.shape {
            FlatShape::Empty => VariantRule::Empty,
            FlatShape::Positional(slots) => {
                proof {
                    assert(svariants[i as int].shape == FlatShapeV::Positional(
                        flat_slots_dv(slots@),
                    ));
                }
                VariantRule::Positional(slot_rules_exec(slots))
            },
            FlatShape::Fielded(fields) => {
                proof {
                    assert(svariants[i as int].shape == FlatShapeV::Fielded(
                        flat_fields_dv(fields@),
                    ));
                }
                VariantRule::Fielded(field_rules_exec(fields))
            },
        };
        out.push(VariantRuleEntry { variant: v.name.clone(), rule });
        i += 1;
    }
    proof {
        lemma_entries_dv(out@);
        assert(entries_dv(out@) =~= variant_entries_of(svariants));
    }
    out
}

/// Derives the builder rule set of one flat definition.
pub fn rule_set_for(d: &FlatDef) -> (r: RuleSet)
    requires
        def_external(d.dv()),
    ensures
        r.dv() == rule_set_of(d.dv()),
{
    match d {
        FlatDef::Record(rec) => RuleSet {
            identity: rec.name.clone(),
            kind: RuleKind::Record(field_rules_exec(&rec.fields)),
        },
        FlatDef::Union(un) => RuleSet {
            identity: un.name.clone(),
            kind: RuleKind::Union(variant_entries_exec(&un.variants)),
        },
    }
}

/// Derives one builder rule set per flat definition, in order.
pub fn rule_sets_for(defs: &Vec<FlatDef>) -> (r: Vec<RuleSet>)
    requires
        crate::flat::defs_external(flat_defs_dv(defs@)),
    ensures
        rule_sets_dv(r@) == rule_sets_of(flat_defs_dv(defs@)),
{
    let ghost sdefs = flat_defs_dv(defs@);
    let mut out: Vec<RuleSet> = Vec::new();
    let mut i: usize = 0;
    while i < defs.len()
        invariant
            i <= defs.len(),
            out@.len() == i,
            forall|k: int| 0 <= k < i ==> (#[trigger] out@[k]).dv() == rule_set_of(sdefs[k]),
            sdefs == flat_defs_dv(defs@),
            crate::flat::defs_external(sdefs),
        decreases defs.len() - i,
    {
        proof {
            assert(def_external(sdefs[i as int]));
        }
        let rs = rule_set_for(&defs[i]);
        out.push(rs);
        i += 1;
    }
    proof {
        lemma_rule_sets_dv(out@);
        assert(rule_sets_dv(out@) =~= rule_sets_of(sdefs));
    }
    out
}

// ---------------------------------------------------------------------------
// Literals: the original nested shape, as the caller wrote it.
// ---------------------------------------------------------------------------

/// A literal in the original nested shape.  `Value` is an opaque expression
/// passed through unchanged; `Record` and `Fields` carry named fields and an
/// optional spread tail applied over a base value; `Path` chains through a
/// single-slot positional variant into the next level's literal.
#[derive(Debug)]
pub enum Literal {
    Value(String),
    Record { fields: Vec<LitField>, spread: Option<String> },
    Unit { variant: String },
    Tuple { variant: String, args: Vec<Literal> },
    Fields { variant: String, fields: Vec<LitField>, spread: Option<String> },
    Path { variant: String, rest: Box<Literal> },
}

#[derive(Debug)]
pub struct LitField {
    pub name: String,
    pub value: Literal,
}

pub enum LiteralV {
    Value(Seq<char>),
    Record { fields: Seq<LitFieldV>, spread: Option<Seq<char>> },
    Unit { variant: Seq<char> },
    Tuple { variant: Seq<char>, args: Seq<LiteralV> },
    Fields { variant: Seq<char>, fields: Seq<LitFieldV>, spread: Option<Seq<char>> },
    Path { variant: Seq<char>, rest: Box<LiteralV> },
}

pub struct LitFieldV {
    pub name: Seq<char>,
    pub value: LiteralV,
}

impl Literal {
    pub open spec fn dv(&self) -> LiteralV
        decreases self,
    {
        match self {
            Literal::Value(e) => LiteralV::Value(e@),
            Literal::Record { fields, spread } => LiteralV::Record {
                fields: lit_fields_dv(fields@),
                spread: match spread {
                    Option::Some(b) => Option::Some(b@),
                    Option::None => Option::None,
                },
            },
            Literal::Unit { variant } => LiteralV::Unit { variant: variant@ },
            Literal::Tuple { variant, args } => LiteralV::Tuple {
                variant: variant@,
                args: lits_dv(args@),
            },
            Literal::Fields { variant, fields, spread } => LiteralV::Fields {
                variant: variant@,
                fields: lit_fields_dv(fields@),
                spread: match spread {
                    Option::Some(b) => Option::Some(b@),
                    Option::None => Option::None,
                },
            },
            Literal::Path { variant, rest } => LiteralV::Path {
                variant: variant@,
                rest: Box::new(rest.dv()),
            },
        }
    }
}

impl LitField {
    pub open spec fn dv(&self) -> LitFieldV
        decreases self,
    {
        LitFieldV { name: self.name@, value: self.value.dv() }
    }
}

pub open spec fn lit_fields_dv(fields: Seq<LitField>) -> Seq<LitFieldV>
    decreases fields,
{
    if fields.len() == 0 {
        Seq::empty()
    } else {
        lit_fields_dv(fields.drop_last()).push(fields.last().dv())
    }
}

pub broadcast proof fn lemma_lit_fields_dv(fields: Seq<LitField>)
    ensures
        (#[trigger] lit_fields_dv(fields)).len() == fields.len(),
        forall|i: int| 0 <= i < fields.len() ==> lit_fields_dv(fields)[i] == fields[i].dv(),
    decreases fields,
{
    if fields.len() > 0 {
        lemma_lit_fields_dv(fields.drop_last());
    }
}

pub open spec fn lits_dv(lits: Seq<Literal>) -> Seq<LiteralV>
    decreases lits,
{
    if lits.len() == 0 {
        Seq::empty()
    } else {
        lits_dv(lits.drop_last()).push(lits.last().dv())
    }
}

pub broadcast proof fn lemma_lits_dv(lits: Seq<Literal>)
    ensures
        (#[trigger] lits_dv(lits)).len() == lits.len(),
        forall|i: int| 0 <= i < lits.len() ==> lits_dv(lits)[i] == lits[i].dv(),
    decreases lits,
{
    if lits.len() > 0 {
        lemma_lits_dv(lits.drop_last());
    }
}

// ---------------------------------------------------------------------------
// Constructor invocations: the expander's output.
// ---------------------------------------------------------------------------

/// A constructor invocation against the flattened types.
#[derive(Debug)]
pub enum CExpr {
    Raw(String),
    MakeRecord { ty: String, fields: Vec<CField>, base: Option<String> },
    MakeUnit { ty: String, variant: String },
    MakeTuple { ty: String, variant: String, args: Vec<CExpr> },
    MakeFields { ty: String, variant: String, fields: Vec<CField>, base: Option<String> },
}

#[derive(Debug)]
pub struct CField {
    pub name: String,
    pub value: CExpr,
}

pub enum CExprV {
    Raw(Seq<char>),
    MakeRecord { ty: Seq<char>, fields: Seq<CFieldV>, base: Option<Seq<char>> },
    MakeUnit { ty: Seq<char>, variant: Seq<char> },
    MakeTuple { ty: Seq<char>, variant: Seq<char>, args: Seq<CExprV> },
    MakeFields { ty: Seq<char>, variant: Seq<char>, fields: Seq<CFieldV>, base: Option<Seq<char>> },
}

pub struct CFieldV {
    pub name: Seq<char>,
    pub value: CExprV,
}

impl CExpr {
    pub open spec fn dv(&self) -> CExprV
        decreases self,
    {
        match self {
            CExpr::Raw(e) => CExprV::Raw(e@),
            CExpr::MakeRecord { ty, fields, base } => CExprV::MakeRecord {
                ty: ty@,
                fields: cfields_dv(fields@),
                base: match base {
                    Option::Some(b) => Option::Some(b@),
                    Option::None => Option::None,
                },
            },
            CExpr::MakeUnit { ty, variant } => CExprV::MakeUnit { ty: ty@, variant: variant@ },
            CExpr::MakeTuple { ty, variant, args } => CExprV::MakeTuple {
                ty: ty@,
                variant: variant@,
                args: cexprs_dv(args@),
            },
            CExpr::MakeFields { ty, variant, fields, base } => CExprV::MakeFields {
                ty: ty@,
                variant: variant@,
                fields: cfields_dv(fields@),
                base: match base {
                    Option::Some(b) => Option::Some(b@),
                    Option::None => Option::None,
                },
            },
        }
    }
}

impl CField {
    pub open spec fn dv(&self) -> CFieldV
        decreases self,
    {
        CFieldV { name: self.name@, value: self.value.dv() }
    }
}

pub open spec fn cfields_dv(fields: Seq<CField>) -> Seq<CFieldV>
    decreases fields,
{
    if fields.len() == 0 {
        Seq::empty()
    } else {
        cfields_dv(fields.drop_last()).push(fields.last().dv())
    }
}

pub broadcast proof fn lemma_cfields_dv(fields: Seq<CField>)
    ensures
        (#[trigger] cfields_dv(fields)).len() == fields.len(),
        forall|i: int| 0 <= i < fields.len() ==> cfields_dv(fields)[i] == fields[i].dv(),
    decreases fields,
{
    if fields.len() > 0 {
        lemma_cfields_dv(fields.drop_last());
    }
}

pub open spec fn cexprs_dv(exprs: Seq<CExpr>) -> Seq<CExprV>
    decreases exprs,
{
    if exprs.len() == 0 {
        Seq::empty()
    } else {
        cexprs_dv(exprs.drop_last()).push(exprs.last().dv())
    }
}

pub broadcast proof fn lemma_cexprs_dv(exprs: Seq<CExpr>)
    ensures
        (#[trigger] cexprs_dv(exprs)).len() == exprs.len(),
        forall|i: int| 0 <= i < exprs.len() ==> cexprs_dv(exprs)[i] == exprs[i].dv(),
    decreases exprs,
{
    if exprs.len() > 0 {
        lemma_cexprs_dv(exprs.drop_last());
    }
}

proof fn lemma_cfields_dv_cons(head: CField, rest: Seq<CField>)
    ensures
        cfields_dv(Seq::empty().push(head) + rest) == seq![head.dv()] + cfields_dv(rest),
{
    lemma_cfields_dv(Seq::empty().push(head) + rest);
    lemma_cfields_dv(rest);
    assert(cfields_dv(Seq::empty().push(head) + rest) =~= seq![head.dv()] + cfields_dv(rest));
}

proof fn lemma_cexprs_dv_cons(head: CExpr, rest: Seq<CExpr>)
    ensures
        cexprs_dv(Seq::empty().push(head) + rest) == seq![head.dv()] + cexprs_dv(rest),
{
    lemma_cexprs_dv(Seq::empty().push(head) + rest);
    lemma_cexprs_dv(rest);
    assert(cexprs_dv(Seq::empty().push(head) + rest) =~= seq![head.dv()] + cexprs_dv(rest));
}

// ---------------------------------------------------------------------------
// Expansion errors.
// ---------------------------------------------------------------------------

/// Why a literal was rejected.  Each variant carries the identity, field or
/// variant name at fault.
#[derive(Debug, Clone, PartialEq, Eq)]
pub enum BuildError {
    NoRuleSet(String),
    ShapeMismatch(String),
    UnknownField(String),
    UnknownVariant(String),
    DuplicateEntry(String),
    MissingField(String),
    ArityMismatch(String),
}

pub enum BuildErrorV {
    NoRuleSet(Seq<char>),
    ShapeMismatch(Seq<char>),
    UnknownField(Seq<char>),
    UnknownVariant(Seq<char>),
    DuplicateEntry(Seq<char>),
    MissingField(Seq<char>),
    ArityMismatch(Seq<char>),
}

impl BuildError {
    pub open spec fn dv(&self) -> BuildErrorV {
        match self {
            BuildError::NoRuleSet(s) => BuildErrorV::NoRuleSet(s@),
            BuildError::ShapeMismatch(s) => BuildErrorV::ShapeMismatch(s@),
            BuildError::UnknownField(s) => BuildErrorV::UnknownField(s@),
            BuildError::UnknownVariant(s) => BuildErrorV::UnknownVariant(s@),
            BuildError::DuplicateEntry(s) => BuildErrorV::DuplicateEntry(s@),
            BuildError::MissingField(s) => BuildErrorV::MissingField(s@),
            BuildError::ArityMismatch(s) => BuildErrorV::ArityMismatch(s@),
        }
    }
}

// ---------------------------------------------------------------------------
// Lookups.
// ---------------------------------------------------------------------------

pub open spec fn find_rules_from(rules: Seq<RuleSetV>, id: Seq<char>, i: int) -> Option<RuleSetV>
    decreases rules.len() - i,
{
    if i < 0 || i >= rules.len() {
        Option::None
    } else if rules[i].identity == id {
        Option::Some(rules[i])
    } else {
        find_rules_from(rules, id, i + 1)
    }
}

pub open spec fn find_field_rule_from(frs: Seq<FieldRuleV>, name: Seq<char>, i: int) -> Option<
    FieldRuleV,
>
    decreases frs.len() - i,
{
    if i < 0 || i >= frs.len() {
        Option::None
    } else if frs[i].field == name {
        Option::Some(frs[i])
    } else {
        find_field_rule_from(frs, name, i + 1)
    }
}

pub open spec fn find_entry_from(entries: Seq<VariantRuleEntryV>, name: Seq<char>, i: int) -> Option<
    VariantRuleEntryV,
>
    decreases entries.len() - i,
{
    if i < 0 || i >= entries.len() {
        Option::None
    } else if entries[i].variant == name {
        Option::Some(entries[i])
    } else {
        find_entry_from(entries, name, i + 1)
    }
}

fn find_rule_set(rules: &Vec<RuleSet>, id: &String) -> (r: Option<usize>)
    ensures
        match r {
            Option::Some(k) => k < rules@.len() && find_rules_from(rule_sets_dv(rules@), id@, 0)
                == Option::Some(rules@[k as int].dv()),
            Option::None => find_rules_from(rule_sets_dv(rules@), id@, 0) is None,
        },
{
    let ghost srules = rule_sets_dv(rules@);
    let mut i: usize = 0;
    while i < rules.len()
        invariant
            i <= rules.len(),
            srules == rule_sets_dv(rules@),
            find_rules_from(srules, id@, 0) == find_rules_from(srules, id@, i as int),
        decreases rules.len() - i,
    {
        proof {
            lemma_rule_sets_dv(rules@);
        }
        if rules[i].identity.eq(id) {
            return Some(i);
        }
        i += 1;
    }
    proof {
        lemma_rule_sets_dv(rules@);
    }
    None
}

fn find_field_rule(frs: &Vec<FieldRule>, name: &String) -> (r: Option<usize>)
    ensures
        match r {
            Option::Some(k) => k < frs@.len() && find_field_rule_from(field_rules_dv(frs@), name@, 0)
                == Option::Some(frs@[k as int].dv()),
            Option::None => find_field_rule_from(field_rules_dv(frs@), name@, 0) is None,
        },
{
    let ghost sfrs = field_rules_dv(frs@);
    let mut i: usize = 0;
    while i < frs.len()
        invariant
            i <= frs.len(),
            sfrs == field_rules_dv(frs@),
            find_field_rule_from(sfrs, name@, 0) == find_field_rule_from(sfrs, name@, i as int),
        decreases frs.len() - i,
    {
        proof {
            lemma_field_rules_dv(frs@);
        }
        if frs[i].field.eq(name) {
            return Some(i);
        }
        i += 1;
    }
    proof {
        lemma_field_rules_dv(frs@);
    }
    None
}

fn find_entry(entries: &Vec<VariantRuleEntry>, name: &String) -> (r: Option<usize>)
    ensures
        match r {
            Option::Some(k) => k < entries@.len() && find_entry_from(entries_dv(entries@), name@, 0)
                == Option::Some(entries@[k as int].dv()),
            Option::None => find_entry_from(entries_dv(entries@), name@, 0) is None,
        },
{
    let ghost sentries = entries_dv(entries@);
    let mut i: usize = 0;
    while i < entries.len()
        invariant
            i <= entries.len(),
            sentries == entries_dv(entries@),
            find_entry_from(sentries, name@, 0) == find_entry_from(sentries, name@, i as int),
        decreases entries.len() - i,
    {
        proof {
            lemma_entries_dv(entries@);
        }
        if entries[i].variant.eq(name) {
            return Some(i);
        }
        i += 1;
    }
    proof {
        lemma_entries_dv(entries@);
    }
    None
}

// ---------------------------------------------------------------------------
// The expansion measure.
// ---------------------------------------------------------------------------

pub open spec fn weight_lit(l: LiteralV) -> nat
    decreases l,
{
    match l {
        LiteralV::Value(_) => 1,
        LiteralV::Record { fields, .. } => 1 + weight_lit_fields(fields, 0),
        LiteralV::Unit { .. } => 1,
        LiteralV::Tuple { args, .. } => 1 + weight_lits(args, 0),
        LiteralV::Fields { fields, .. } => 1 + weight_lit_fields(fields, 0),
        LiteralV::Path { rest, .. } => 1 + weight_lit(*rest),
    }
}

pub open spec fn weight_lit_fields(fields: Seq<LitFieldV>, i: int) -> nat
    decreases fields, fields.len() - i,
{
    if i < 0 || i >= fields.len() {
        0
    } else {
        1 + weight_lit(fields[i].value) + weight_lit_fields(fields, i + 1)
    }
}

pub open spec fn weight_lits(lits: Seq<LiteralV>, i: int) -> nat
    decreases lits, lits.len() - i,
{
    if i < 0 || i >= lits.len() {
        0
    } else {
        1 + weight_lit(lits[i]) + weight_lits(lits, i + 1)
    }
}

// ---------------------------------------------------------------------------
// The expander's reference semantics.
// ---------------------------------------------------------------------------

pub open spec fn lit_field_names(fields: Seq<LitFieldV>) -> Seq<Seq<char>> {
    Seq::new(fields.len(), |i: int| fields[i].name)
}

/// The first rule field that the literal leaves unset, if any.
pub open spec fn missing_from(frs: Seq<FieldRuleV>, names: Seq<Seq<char>>, j: int) -> Option<
    Seq<char>,
>
    decreases frs.len() - j,
{
    if j < 0 || j >= frs.len() {
        Option::None
    } else if !names.contains(frs[j].field) {
        Option::Some(frs[j].field)
    } else {
        missing_from(frs, names, j + 1)
    }
}

/// Looks up the variant entries of a union target.
pub open spec fn union_entries_spec(rules: Seq<RuleSetV>, target: Seq<char>) -> Result<
    Seq<VariantRuleEntryV>,
    BuildErrorV,
> {
    match find_rules_from(rules, target, 0) {
        Option::None => Result::Err(BuildErrorV::NoRuleSet(target)),
        Option::Some(rs) => match rs.kind {
            RuleKindV::Record(_) => Result::Err(BuildErrorV::ShapeMismatch(target)),
            RuleKindV::Union(entries) => Result::Ok(entries),
        },
    }
}

/// Expands one literal against the rule set of `target`.  A plain value
/// passes through; a nested shape dispatches through the matching rule.
pub open spec fn expand_spec(rules: Seq<RuleSetV>, target: Seq<char>, lit: LiteralV) -> Result<
    CExprV,
    BuildErrorV,
>
    decreases weight_lit(lit), 2int,
{
    match lit {
        LiteralV::Value(e) => Result::Ok(CExprV::Raw(e)),
        LiteralV::Record { fields, spread } => match find_rules_from(rules, target, 0) {
            Option::None => Result::Err(BuildErrorV::NoRuleSet(target)),
            Option::Some(rs) => match rs.kind {
                RuleKindV::Union(_) => Result::Err(BuildErrorV::ShapeMismatch(target)),
                RuleKindV::Record(frs) => match expand_body_spec(
                    rules,
                    frs,
                    fields,
                    spread is Some,
                ) {
                    Result::Err(e) => Result::Err(e),
                    Result::Ok(cfs) => Result::Ok(
                        CExprV::MakeRecord { ty: target, fields: cfs, base: spread },
                    ),
                },
            },
        },
        LiteralV::Unit { variant } => match union_entries_spec(rules, target) {
            Result::Err(e) => Result::Err(e),
            Result::Ok(entries) => match find_entry_from(entries, variant, 0) {
                Option::None => Result::Err(BuildErrorV::UnknownVariant(variant)),
                Option::Some(en) => match en.rule {
                    VariantRuleV::Empty => Result::Ok(
                        CExprV::MakeUnit { ty: target, variant: variant },
                    ),
                    _ => Result::Err(BuildErrorV::ShapeMismatch(variant)),
                },
            },
        },
        LiteralV::Tuple { variant, args } => match union_entries_spec(rules, target) {
            Result::Err(e) => Result::Err(e),
            Result::Ok(entries) => match find_entry_from(entries, variant, 0) {
                Option::None => Result::Err(BuildErrorV::UnknownVariant(variant)),
                Option::Some(en) => match en.rule {
                    VariantRuleV::Positional(srs) => if args.len() != srs.len() {
                        Result::Err(BuildErrorV::ArityMismatch(variant))
                    } else {
                        match expand_args_spec(rules, srs, args, 0, variant) {
                            Result::Err(e) => Result::Err(e),
                            Result::Ok(ces) => Result::Ok(
                                CExprV::MakeTuple { ty: target, variant: variant, args: ces },
                            ),
                        }
                    },
                    _ => Result::Err(BuildErrorV::ShapeMismatch(variant)),
                },
            },
        },
        LiteralV::Fields { variant, fields, spread } => match union_entries_spec(rules, target) {
            Result::Err(e) => Result::Err(e),
            Result::Ok(entries) => match find_entry_from(entries, variant, 0) {
                Option::None => Result::Err(BuildErrorV::UnknownVariant(variant)),
                Option::Some(en) => match en.rule {
                    VariantRuleV::Fielded(frs) => match expand_body_spec(
                        rules,
                        frs,
                        fields,
                        spread is Some,
                    ) {
                        Result::Err(e) => Result::Err(e),
                        Result::Ok(cfs) => Result::Ok(
                            CExprV::MakeFields {
                                ty: target,
                                variant: variant,
                                fields: cfs,
                                base: spread,
                            },
                        ),
                    },
                    _ => Result::Err(BuildErrorV::ShapeMismatch(variant)),
                },
            },
        },
        LiteralV::Path { variant, rest } => match union_entries_spec(rules, target) {
            Result::Err(e) => Result::Err(e),
            Result::Ok(entries) => match find_entry_from(entries, variant, 0) {
                Option::None => Result::Err(BuildErrorV::UnknownVariant(variant)),
                Option::Some(en) => match en.rule {
                    VariantRuleV::Positional(srs) => if srs.len() != 1 {
                        Result::Err(BuildErrorV::ArityMismatch(variant))
                    } else if !(srs[0].card is Plain) {
                        Result::Err(BuildErrorV::ShapeMismatch(variant))
                    } else {
                        match expand_spec(rules, srs[0].base, *rest) {
                            Result::Err(e) => Result::Err(e),
                            Result::Ok(sub) => Result::Ok(
                                CExprV::MakeTuple {
                                    ty: target,
                                    variant: variant,
                                    args: seq![sub],
                                },
                            ),
                        }
                    },
                    _ => Result::Err(BuildErrorV::ShapeMismatch(variant)),
                },
            },
        },
    }
}

/// Expands a record or fielded-variant body: rejects repeated fields, and,
/// when no spread tail supplies the rest, rejects a body that leaves a field
/// of the definition unset.
pub open spec fn expand_body_spec(
    rules: Seq<RuleSetV>,
    frs: Seq<FieldRuleV>,
    fields: Seq<LitFieldV>,
    has_spread: bool,
) -> Result<Seq<CFieldV>, BuildErrorV>
    decreases weight_lit_fields(fields, 0), 1int,
{
    match first_duplicate_spec(lit_field_names(fields)) {
        Option::Some(n) => Result::Err(BuildErrorV::DuplicateEntry(n)),
        Option::None => match (
        if has_spread {
            Option::<Seq<char>>::None
        } else {
            missing_from(frs, lit_field_names(fields), 0)
        }) {
            Option::Some(m) => Result::Err(BuildErrorV::MissingField(m)),
            Option::None => expand_lit_fields_spec(rules, frs, fields, 0),
        },
    }
}

pub open spec fn expand_lit_fields_spec(
    rules: Seq<RuleSetV>,
    frs: Seq<FieldRuleV>,
    fields: Seq<LitFieldV>,
    i: int,
) -> Result<Seq<CFieldV>, BuildErrorV>
    decreases weight_lit_fields(fields, i), 0int,
{
    if i < 0 || i >= fields.len() {
        Result::Ok(Seq::empty())
    } else {
        let lf = fields[i];
        match find_field_rule_from(frs, lf.name, 0) {
            Option::None => Result::Err(BuildErrorV::UnknownField(lf.name)),
            Option::Some(fr) => {
                let step: Result<CExprV, BuildErrorV> = match lf.value {
                    LiteralV::Value(e) => Result::Ok(CExprV::Raw(e)),
                    _ => if !(fr.card is Plain) {
                        Result::Err(BuildErrorV::ShapeMismatch(lf.name))
                    } else {
                        expand_spec(rules, fr.base, lf.value)
                    },
                };
                match step {
                    Result::Err(e) => Result::Err(e),
                    Result::Ok(ce) => match expand_lit_fields_spec(rules, frs, fields, i + 1) {
                        Result::Err(e) => Result::Err(e),
                        Result::Ok(rest) => Result::Ok(
                            seq![CFieldV { name: lf.name, value: ce }] + rest,
                        ),
                    },
                }
            },
        }
    }
}

pub open spec fn expand_args_spec(
    rules: Seq<RuleSetV>,
    srs: Seq<SlotRuleV>,
    args: Seq<LiteralV>,
    i: int,
    variant: Seq<char>,
) -> Result<Seq<CExprV>, BuildErrorV>
    decreases weight_lits(args, i), 0int,
{
    if i < 0 || i >= args.len() || i >= srs.len() {
        Result::Ok(Seq::empty())
    } else {
        let step: Result<CExprV, BuildErrorV> = match args[i] {
            LiteralV::Value(e) => Result::Ok(CExprV::Raw(e)),
            _ => if !(srs[i].card is Plain) {
                Result::Err(BuildErrorV::ShapeMismatch(variant))
            } else {
                expand_spec(rules, srs[i].base, args[i])
            },
        };
        match step {
            Result::Err(e) => Result::Err(e),
            Result::Ok(ce) => match expand_args_spec(rules, srs, args, i + 1, variant) {
                Result::Err(e) => Result::Err(e),
                Result::Ok(rest) => Result::Ok(seq![ce] + rest),
            },
        }
    }
}

// ---------------------------------------------------------------------------
// The executable expander.
// ---------------------------------------------------------------------------

fn collect_lit_field_names(fields: &Vec<LitField>) -> (r: Vec<String>)
    ensures
        r.deep_view() == lit_field_names(lit_fields_dv(fields@)),
{
    let mut out: Vec<String> = Vec::new();
    let mut i: usize = 0;
    while i < fields.len()
        invariant
            i <= fields.len(),
            out.deep_view().len() == i,
            forall|k: int| 0 <= k < i ==> out.deep_view()[k] == fields@[k].name@,
        decreases fields.len() - i,
    {
        push_string(&mut out, fields[i].name.clone());
        i += 1;
    }
    proof {
        lemma_lit_fields_dv(fields@);
        assert(out.deep_view() =~= lit_field_names(lit_fields_dv(fields@)));
    }
    out
}

fn find_missing(frs: &Vec<FieldRule>, names: &Vec<String>) -> (r: Option<String>)
    ensures
        match r {
            Option::Some(m) => missing_from(field_rules_dv(frs@), names.deep_view(), 0)
                == Option::Some(m@),
            Option::None => missing_from(field_rules_dv(frs@), names.deep_view(), 0) is None,
        },
{
    let ghost sfrs = field_rules_dv(frs@);
    let mut j: usize = 0;
    while j < frs.len()
        invariant
            j <= frs.len(),
            sfrs == field_rules_dv(frs@),
            missing_from(sfrs, names.deep_view(), 0) == missing_from(sfrs, names.deep_view(), j as int),
        decreases frs.len() - j,
    {
        proof {
            lemma_field_rules_dv(frs@);
        }
        if !contains_string(names, &frs[j].field) {
            return Some(frs[j].field.clone());
        }
        j += 1;
    }
    proof {
        lemma_field_rules_dv(frs@);
    }
    None
}

fn clone_spread(spread: &Option<String>) -> (r: Option<String>)
    ensures
        r is Some <==> spread is Some,
        r matches Option::Some(b) ==> spread matches Option::Some(sb) && b@ == sb@,
{
    match spread {
        Option::Some(b) => Option::Some(b.clone()),
        Option::None => Option::None,
    }
}

fn union_entries<'a>(rules: &'a Vec<RuleSet>, target: &String) -> (r: Result<
    &'a Vec<VariantRuleEntry>,
    BuildError,
>)
    ensures
        match r {
            Result::Ok(es) => union_entries_spec(rule_sets_dv(rules@), target@) == Result::<
                Seq<VariantRuleEntryV>,
                BuildErrorV,
            >::Ok(entries_dv(es@)),
            Result::Err(e) => union_entries_spec(rule_sets_dv(rules@), target@) matches Result::Err(
                se,
            ) && e.dv() == se,
        },
{
    match find_rule_set(rules, target) {
        None => Err(BuildError::NoRuleSet(target.clone())),
        Some(k) => match &rules[k].kind {
            RuleKind::Record(_) => Err(BuildError::ShapeMismatch(target.clone())),
            RuleKind::Union(es) => {
                proof {
                    assert(rules@[k as int].dv().kind == RuleKindV::Union(entries_dv(es@)));
                }
                Ok(es)
            },
        },
    }
}

/// Expands a literal written in the original nested shape into a
/// constructor invocation against the flattened types, by interpreting the
/// rule set of `target`; see `expand_spec`.
pub fn build_literal(rules: &Vec<RuleSet>, target: &String, lit: &Literal) -> (r: Result<
    CExpr,
    BuildError,
>)
    ensures
        ({
            let s = expand_spec(rule_sets_dv(rules@), target@, lit.dv());
            match r {
                Result::Ok(e) => s matches Result::Ok(se) && e.dv() == se,
                Result::Err(e) => s matches Result::Err(se) && e.dv() == se,
            }
        }),
    decreases weight_lit(lit.dv()), 2int,
{
    match lit {
        Literal::Value(e) => Ok(CExpr::Raw(e.clone())),
        Literal::Record { fields, spread } => match find_rule_set(rules, target) {
            None => Err(BuildError::NoRuleSet(target.clone())),
            Some(k) => match &rules[k].kind {
                RuleKind::Union(_) => {
                    proof {
                        assert(rules@[k as int].dv().kind is Union);
                    }
                    Err(BuildError::ShapeMismatch(target.clone()))
                },
                RuleKind::Record(frs) => {
                    proof {
                        assert(rules@[k as int].dv().kind == RuleKindV::Record(
                            field_rules_dv(frs@),
                        ));
                    }
                    match expand_body(rules, frs, fields, spread.is_some()) {
                        Err(e) => Err(e),
                        Ok(cfs) => Ok(
                            CExpr::MakeRecord {
                                ty: target.clone(),
                                fields: cfs,
                                base: clone_spread(spread),
                            },
                        ),
                    }
                },
            },
        },
        Literal::Unit { variant } => match union_entries(rules, target) {
            Err(e) => Err(e),
            Ok(entries) => match find_entry(entries, variant) {
                None => Err(BuildError::UnknownVariant(variant.clone())),
                Some(k) => match &entries[k].rule {
                    VariantRule::Empty => {
                        proof {
                            assert(entries@[k as int].dv().rule is Empty);
                        }
                        Ok(CExpr::MakeUnit { ty: target.clone(), variant: variant.clone() })
                    },
                    _ => {
                        proof {
                            assert(!(entries@[k as int].dv().rule is Empty));
                        }
                        Err(BuildError::ShapeMismatch(variant.clone()))
                    },
                },
            },
        },
        Literal::Tuple { variant, args } => match union_entries(rules, target) {
            Err(e) => Err(e),
            Ok(entries) => match find_entry(entries, variant) {
                None => Err(BuildError::UnknownVariant(variant.clone())),
                Some(k) => match &entries[k].rule {
                    VariantRule::Positional(srs) => {
                        proof {
                            assert(entries@[k as int].dv().rule == VariantRuleV::Positional(
                                slot_rules_dv(srs@),
                            ));
                            lemma_slot_rules_dv(srs@);
                            lemma_lits_dv(args@);
                        }
                        if args.len() != srs.len() {
                            Err(BuildError::ArityMismatch(variant.clone()))
                        } else {
                            match expand_args(rules, srs, args, variant) {
                                Err(e) => Err(e),
                                Ok(ces) => Ok(
                                    CExpr::MakeTuple {
                                        ty: target.clone(),
                                        variant: variant.clone(),
                                        args: ces,
                                    },
                                ),
                            }
                        }
                    },
                    _ => {
                        proof {
                            assert(!(entries@[k as int].dv().rule is Positional));
                        }
                        Err(BuildError::ShapeMismatch(variant.clone()))
                    },
                },
            },
        },
        Literal::Fields { variant, fields, spread } => match union_entries(rules, target) {
            Err(e) => Err(e),
            Ok(entries) => match find_entry(entries, variant) {
                None => Err(BuildError::UnknownVariant(variant.clone())),
                Some(k) => match &entries[k].rule {
                    VariantRule::Fielded(frs) => {
                        proof {
                            assert(entries@[k as int].dv().rule == VariantRuleV::Fielded(
                                field_rules_dv(frs@),
                            ));
                        }
                        match expand_body(rules, frs, fields, spread.is_some()) {
                            Err(e) => Err(e),
                            Ok(cfs) => Ok(
                                CExpr::MakeFields {
                                    ty: target.clone(),
                                    variant: variant.clone(),
                                    fields: cfs,
                                    base: clone_spread(spread),
                                },
                            ),
                        }
                    },
                    _ => {
                        proof {
                            assert(!(entries@[k as int].dv().rule is Fielded));
                        }
                        Err(BuildError::ShapeMismatch(variant.clone()))
                    },
                },
            },
        },
        Literal::Path { variant, rest } => match union_entries(rules, target) {
            Err(e) => Err(e),
            Ok(entries) => match find_entry(entries, variant) {
                None => Err(BuildError::UnknownVariant(variant.clone())),
                Some(k) => match &entries[k].rule {
                    VariantRule::Positional(srs) => {
                        proof {
                            assert(entries@[k as int].dv().rule == VariantRuleV::Positional(
                                slot_rules_dv(srs@),
                            ));
                            lemma_slot_rules_dv(srs@);
                        }
                        if srs.len() != 1 {
                            Err(BuildError::ArityMismatch(variant.clone()))
                        } else {
                            let plain = match srs[0].card {
                                Cardinality::Plain => true,
                                _ => false,
                            };
                            if !plain {
                                Err(BuildError::ShapeMismatch(variant.clone()))
                            } else {
                                match build_literal(rules, &srs[0].base, rest) {
                                    Err(e) => Err(e),
                                    Ok(sub) => {
                                        let ghost subv = sub.dv();
                                        let mut args: Vec<CExpr> = Vec::new();
                                        args.push(sub);
                                        proof {
                                            lemma_cexprs_dv(args@);
                                            assert(cexprs_dv(args@) =~= seq![subv]);
                                        }
                                        Ok(
                                            CExpr::MakeTuple {
                                                ty: target.clone(),
                                                variant: variant.clone(),
                                                args,
                                            },
                                        )
                                    },
                                }
                            }
                        }
                    },
                    _ => {
                        proof {
                            assert(!(entries@[k as int].dv().rule is Positional));
                        }
                        Err(BuildError::ShapeMismatch(variant.clone()))
                    },
                },
            },
        },
    }
}

fn expand_body(rules: &Vec<RuleSet>, frs: &Vec<FieldRule>, fields: &Vec<LitField>, has_spread: bool) -> (r:
    Result<Vec<CField>, BuildError>)
    ensures
        ({
            let s = expand_body_spec(
                rule_sets_dv(rules@),
                field_rules_dv(frs@),
                lit_fields_dv(fields@),
                has_spread,
            );
            match r {
                Result::Ok(o) => s matches Result::Ok(so) && cfields_dv(o@) == so,
                Result::Err(e) => s matches Result::Err(se) && e.dv() == se,
            }
        }),
    decreases weight_lit_fields(lit_fields_dv(fields@), 0), 1int,
{
    let names = collect_lit_field_names(fields);
    match first_duplicate(&names) {
        Some(n) => Err(BuildError::DuplicateEntry(n)),
        None => {
            let missing = if has_spread {
                None
            } else {
                find_missing(frs, &names)
            };
            match missing {
                Some(m) => Err(BuildError::MissingField(m)),
                None => expand_lit_fields(rules, frs, fields, 0),
            }
        },
    }
}

fn expand_lit_fields(rules: &Vec<RuleSet>, frs: &Vec<FieldRule>, fields: &Vec<LitField>, i: usize) -> (r:
    Result<Vec<CField>, BuildError>)
    requires
        i <= fields.len(),
    ensures
        ({
            let s = expand_lit_fields_spec(
                rule_sets_dv(rules@),
                field_rules_dv(frs@),
                lit_fields_dv(fields@),
                i as int,
            );
            match r {
                Result::Ok(o) => s matches Result::Ok(so) && cfields_dv(o@) == so,
                Result::Err(e) => s matches Result::Err(se) && e.dv() == se,
            }
        }),
    decreases weight_lit_fields(lit_fields_dv(fields@), i as int), 0int,
{
    let ghost sfields = lit_fields_dv(fields@);
    proof {
        lemma_lit_fields_dv(fields@);
    }
    if i == fields.len() {
        let r = Ok(Vec::new());
        proof {
            assert(cfields_dv(Seq::<CField>::empty()) =~= Seq::<CFieldV>::empty());
        }
        r
    } else {
        let lf = &fields[i];
        proof {
            assert(sfields[i as int] == fields@[i as int].dv());
        }
        match find_field_rule(frs, &lf.name) {
            None => Err(BuildError::UnknownField(lf.name.clone())),
            Some(k) => {
                let fr = &frs[k];
                let step = match &lf.value {
                    Literal::Value(e) => Ok(CExpr::Raw(e.clone())),
                    _ => {
                        let plain = match fr.card {
                            Cardinality::Plain => true,
                            _ => false,
                        };
                        if !plain {
                            Err(BuildError::ShapeMismatch(lf.name.clone()))
                        } else {
                            build_literal(rules, &fr.base, &lf.value)
                        }
                    },
                };
                match step {
                    Err(e) => Err(e),
                    Ok(ce) => match expand_lit_fields(rules, frs, fields, i + 1) {
                        Err(e) => Err(e),
                        Ok(mut rest) => {
                            let ghost rest_seq = rest@;
                            let ghost rest_v = cfields_dv(rest@);
                            let cf = CField { name: lf.name.clone(), value: ce };
                            let ghost cfv = cf.dv();
                            let mut out: Vec<CField> = Vec::new();
                            out.push(cf);
                            out.append(&mut rest);
                            proof {
                                lemma_cfields_dv(rest_seq);
                                lemma_cfields_dv(out@);
                                assert(out@ == Seq::empty().push(cf) + rest_seq);
                                assert(cfields_dv(out@) =~= seq![cfv] + rest_v);
                            }
                            Ok(out)
                        },
                    },
                }
            },
        }
    }
}

fn expand_args(rules: &Vec<RuleSet>, srs: &Vec<SlotRule>, args: &Vec<Literal>, variant: &String) -> (r:
    Result<Vec<CExpr>, BuildError>)
    ensures
        ({
            let s = expand_args_spec(
                rule_sets_dv(rules@),
                slot_rules_dv(srs@),
                lits_dv(args@),
                0,
                variant@,
            );
            match r {
                Result::Ok(o) => s matches Result::Ok(so) && cexprs_dv(o@) == so,
                Result::Err(e) => s matches Result::Err(se) && e.dv() == se,
            }
        }),
    decreases weight_lits(lits_dv(args@), 0int), 1int,
{
    expand_args_from(rules, srs, args, 0, variant)
}

fn expand_args_from(
    rules: &Vec<RuleSet>,
    srs: &Vec<SlotRule>,
    args: &Vec<Literal>,
    i: usize,
    variant: &String,
) -> (r: Result<Vec<CExpr>, BuildError>)
    requires
        i <= args.len(),
    ensures
        ({
            let s = expand_args_spec(
                rule_sets_dv(rules@),
                slot_rules_dv(srs@),
                lits_dv(args@),
                i as int,
                variant@,
            );
            match r {
                Result::Ok(o) => s matches Result::Ok(so) && cexprs_dv(o@) == so,
                Result::Err(e) => s matches Result::Err(se) && e.dv() == se,
            }
        }),
    decreases weight_lits(lits_dv(args@), i as int), 0int,
{
    let ghost sargs = lits_dv(args@);
    proof {
        lemma_lits_dv(args@);
        lemma_slot_rules_dv(srs@);
    }
    if i == args.len() || i >= srs.len() {
        let r = Ok(Vec::new());
        proof {
            assert(cexprs_dv(Seq::<CExpr>::empty()) =~= Seq::<CExprV>::empty());
        }
        r
    } else {
        let a = &args[i];
        proof {
            assert(sargs[i as int] == args@[i as int].dv());
        }
        let step = match a {
            Literal::Value(e) => Ok(CExpr::Raw(e.clone())),
            _ => {
                let plain = match srs[i].card {
                    Cardinality::Plain => true,
                    _ => false,
                };
                if !plain {
                    Err(BuildError::ShapeMismatch(variant.clone()))
                } else {
                    build_literal(rules, &srs[i].base, a)
                }
            },
        };
        match step {
            Err(e) => Err(e),
            Ok(ce) => match expand_args_from(rules, srs, args, i + 1, variant) {
                Err(e) => Err(e),
                Ok(mut rest) => {
                    let ghost rest_seq = rest@;
                    let ghost rest_v = cexprs_dv(rest@);
                    let ghost cev = ce.dv();
                    let mut out: Vec<CExpr> = Vec::new();
                    out.push(ce);
                    out.append(&mut rest);
                    proof {
                        lemma_cexprs_dv(rest_seq);
                        lemma_cexprs_dv(out@);
                        assert(out@ == Seq::empty().push(ce) + rest_seq);
                        assert(cexprs_dv(out@) =~= seq![cev] + rest_v);
                    }
                    Ok(out)
                },
            },
        }
    }
}

// ---------------------------------------------------------------------------
// Well-typedness of constructor invocations against the flat definitions.
// ---------------------------------------------------------------------------

/// The first definition with the given name, if any.
pub open spec fn lookup_def_from(defs: Seq<FlatDefV>, name: Seq<char>, i: int) -> Option<FlatDefV>
    decreases defs.len() - i,
{
    if i < 0 || i >= defs.len() {
        Option::None
    } else if crate::flat::def_name(defs[i]) == name {
        Option::Some(defs[i])
    } else {
        lookup_def_from(defs, name, i + 1)
    }
}

pub open spec fn cfield_names(fields: Seq<CFieldV>) -> Seq<Seq<char>> {
    Seq::new(fields.len(), |i: int| fields[i].name)
}

pub open spec fn rule_field_names(frs: Seq<FieldRuleV>) -> Seq<Seq<char>> {
    Seq::new(frs.len(), |i: int| frs[i].field)
}

pub open spec fn distinct_names(names: Seq<Seq<char>>) -> bool {
    forall|i: int, j: int| 0 <= i < j < names.len() ==> names[i] != names[j]
}

pub open spec fn names_subset(a: Seq<Seq<char>>, b: Seq<Seq<char>>) -> bool {
    forall|i: int| 0 <= i < a.len() ==> b.contains(#[trigger] a[i])
}

/// The flat type a constructor invocation constructs, if it is one.
pub open spec fn ctype_of(e: CExprV) -> Option<Seq<char>> {
    match e {
        CExprV::Raw(_) => Option::None,
        CExprV::MakeRecord { ty, .. } => Option::Some(ty),
        CExprV::MakeUnit { ty, .. } => Option::Some(ty),
        CExprV::MakeTuple { ty, .. } => Option::Some(ty),
        CExprV::MakeFields { ty, .. } => Option::Some(ty),
    }
}

/// An opaque expression fits any slot; a constructor must construct the
/// slot's base type.
pub open spec fn value_fits(e: CExprV, base: Seq<char>) -> bool {
    match ctype_of(e) {
        Option::Some(t) => t == base,
        Option::None => true,
    }
}

/// One output field is well typed when the definition has a field of that
/// name whose base type its value fits.
pub open spec fn wt_cfield(cf: CFieldV, frs: Seq<FieldRuleV>, defs: Seq<FlatDefV>) -> bool
    decreases cf, 1int,
{
    match find_field_rule_from(frs, cf.name, 0) {
        Option::Some(fr) => wt_expr(cf.value, defs) && value_fits(cf.value, fr.base),
        Option::None => false,
    }
}

pub open spec fn wt_cfields(cfs: Seq<CFieldV>, frs: Seq<FieldRuleV>, defs: Seq<FlatDefV>) -> bool
    decreases cfs, 0int,
{
    if cfs.len() == 0 {
        true
    } else {
        wt_cfields(cfs.drop_last(), frs, defs) && wt_cfield(cfs.last(), frs, defs)
    }
}

pub open spec fn wt_args(args: Seq<CExprV>, srs: Seq<SlotRuleV>, defs: Seq<FlatDefV>) -> bool
    decreases args, 1int,
{
    if args.len() == 0 {
        true
    } else {
        wt_args(args.drop_last(), srs, defs) && wt_expr(args.last(), defs) && (args.len() - 1
            < srs.len() ==> value_fits(args.last(), srs[args.len() - 1].base))
    }
}

/// A record or fielded-variant body is well typed when its field names are
/// distinct names of the definition, every value fits, and, unless a spread
/// tail supplies the rest, every field of the definition is set.
pub open spec fn wt_body(
    cfs: Seq<CFieldV>,
    frs: Seq<FieldRuleV>,
    has_spread: bool,
    defs: Seq<FlatDefV>,
) -> bool
    decreases cfs, 1int,
{
    &&& distinct_names(cfield_names(cfs))
    &&& wt_cfields(cfs, frs, defs)
    &&& (!has_spread ==> names_subset(rule_field_names(frs), cfield_names(cfs)))
}

/// A constructor invocation type-checks against the flat definitions: every
/// constructed type is defined, every variant exists with the right shape
/// and arity, every field name names a field of its definition exactly
/// once, and every nested value fits the slot it fills.
pub open spec fn wt_expr(e: CExprV, defs: Seq<FlatDefV>) -> bool
    decreases e, 0int,
{
    match e {
        CExprV::Raw(_) => true,
        CExprV::MakeRecord { ty, fields, base } => match lookup_def_from(defs, ty, 0) {
            Option::Some(FlatDefV::Record(r)) => wt_body(
                fields,
                field_rules_of(r.fields),
                base is Some,
                defs,
            ),
            _ => false,
        },
        CExprV::MakeUnit { ty, variant } => match lookup_def_from(defs, ty, 0) {
            Option::Some(FlatDefV::Union(u)) => match find_entry_from(
                variant_entries_of(u.variants),
                variant,
                0,
            ) {
                Option::Some(en) => en.rule is Empty,
                Option::None => false,
            },
            _ => false,
        },
        CExprV::MakeTuple { ty, variant, args } => match lookup_def_from(defs, ty, 0) {
            Option::Some(FlatDefV::Union(u)) => match find_entry_from(
                variant_entries_of(u.variants),
                variant,
                0,
            ) {
                Option::Some(en) => match en.rule {
                    VariantRuleV::Positional(srs) => args.len() == srs.len() && wt_args(
                        args,
                        srs,
                        defs,
                    ),
                    _ => false,
                },
                Option::None => false,
            },
            _ => false,
        },
        CExprV::MakeFields { ty, variant, fields, base } => match lookup_def_from(defs, ty, 0) {
            Option::Some(FlatDefV::Union(u)) => match find_entry_from(
                variant_entries_of(u.variants),
                variant,
                0,
            ) {
                Option::Some(en) => match en.rule {
                    VariantRuleV::Fielded(frs) => wt_body(fields, frs, base is Some, defs),
                    _ => false,
                },
                Option::None => false,
            },
            _ => false,
        },
    }
}

// ---------------------------------------------------------------------------
// Expansion yields only well-typed constructor invocations.
// ---------------------------------------------------------------------------

/// Looking a name up in the projected rule sets is looking it up among the
/// definitions.
proof fn lemma_find_rules_projection(defs: Seq<FlatDefV>, target: Seq<char>, i: int)
    ensures
        find_rules_from(rule_sets_of(defs), target, i) == match lookup_def_from(defs, target, i) {
            Option::Some(d) => Option::Some(rule_set_of(d)),
            Option::None => Option::<RuleSetV>::None,
        },
    decreases defs.len() - i,
{
    if 0 <= i < defs.len() {
        lemma_find_rules_projection(defs, target, i + 1);
        assert(rule_sets_of(defs)[i] == rule_set_of(defs[i]));
        match defs[i] {
            FlatDefV::Record(r) => {},
            FlatDefV::Union(u) => {},
        }
    }
}

/// A body that passed the absence-of-missing-fields check sets every field.
proof fn lemma_missing_none(frs: Seq<FieldRuleV>, names: Seq<Seq<char>>, j: int)
    requires
        0 <= j <= frs.len(),
        missing_from(frs, names, j) is None,
    ensures
        forall|k: int| j <= k < frs.len() ==> names.contains((#[trigger] frs[k]).field),
    decreases frs.len() - j,
{
    if j < frs.len() {
        lemma_missing_none(frs, names, j + 1);
    }
}

/// Law: builder expansion is sound.  For any literal that a rule set
/// derived from a list of flat definitions accepts, the expansion is a
/// constructor invocation that type-checks against those definitions; and
/// an expansion of a nested literal constructs exactly the target type.
pub proof fn lemma_expand_wt(
    defs: Seq<FlatDefV>,
    target: Seq<char>,
    lit: LiteralV,
)
    ensures
        expand_spec(rule_sets_of(defs), target, lit) matches Result::Ok(e) ==> wt_expr(e, defs)
            && value_fits(e, target),
    decreases weight_lit(lit), 2int,
{
    let rules = rule_sets_of(defs);
    lemma_find_rules_projection(defs, target, 0);
    match lit {
        LiteralV::Value(_) => {},
        LiteralV::Record { fields, spread } => {
            match lookup_def_from(defs, target, 0) {
                Option::Some(d) => match d {
                    FlatDefV::Record(r) => {
                        lemma_expand_body_wt(defs, field_rules_of(r.fields), fields, spread is Some);
                        match expand_body_spec(
                            rules,
                            field_rules_of(r.fields),
                            fields,
                            spread is Some,
                        ) {
                            Result::Ok(cfs) => {
                                assert(lookup_def_from(defs, target, 0) == Option::Some(d));
                            },
                            Result::Err(_) => {},
                        }
                    },
                    FlatDefV::Union(_) => {},
                },
                Option::None => {},
            }
        },
        LiteralV::Unit { variant } => {},
        LiteralV::Tuple { variant, args } => {
            match union_entries_spec(rules, target) {
                Result::Ok(entries) => match find_entry_from(entries, variant, 0) {
                    Option::Some(en) => match en.rule {
                        VariantRuleV::Positional(srs) => {
                            if args.len() == srs.len() {
                                lemma_expand_args_wt(defs, srs, args, 0, variant);
                                match expand_args_spec(rules, srs, args, 0, variant) {
                                    Result::Ok(ces) => {
                                        lemma_wt_args_from_zero(ces, srs, defs);
                                    },
                                    Result::Err(_) => {},
                                }
                            }
                        },
                        _ => {},
                    },
                    Option::None => {},
                },
                Result::Err(_) => {},
            }
        },
        LiteralV::Fields { variant, fields, spread } => {
            match union_entries_spec(rules, target) {
                Result::Ok(entries) => match find_entry_from(entries, variant, 0) {
                    Option::Some(en) => match en.rule {
                        VariantRuleV::Fielded(frs) => {
                            lemma_expand_body_wt(defs, frs, fields, spread is Some);
                        },
                        _ => {},
                    },
                    Option::None => {},
                },
                Result::Err(_) => {},
            }
        },
        LiteralV::Path { variant, rest } => {
            match union_entries_spec(rules, target) {
                Result::Ok(entries) => match find_entry_from(entries, variant, 0) {
                    Option::Some(en) => match en.rule {
                        VariantRuleV::Positional(srs) => {
                            if srs.len() == 1 && srs[0].card is Plain {
                                lemma_expand_wt(defs, srs[0].base, *rest);
                                match expand_spec(rules, srs[0].base, *rest) {
                                    Result::Ok(sub) => {
                                        reveal_with_fuel(wt_args, 2);
                                        assert(seq![sub].drop_last() =~= Seq::<CExprV>::empty());
                                        assert(seq![sub].last() == sub);
                                        assert(wt_args(seq![sub].drop_last(), srs, defs));
                                        assert(wt_args(seq![sub], srs, defs));
                                    },
                                    Result::Err(_) => {},
                                }
                            }
                        },
                        _ => {},
                    },
                    Option::None => {},
                },
                Result::Err(_) => {},
            }
        },
    }
}

/// A body the expander accepts is well typed: its names were checked
/// distinct, its coverage was checked when no spread is present, and every
/// value was dispatched through the field's own rule.
proof fn lemma_expand_body_wt(
    defs: Seq<FlatDefV>,
    frs: Seq<FieldRuleV>,
    fields: Seq<LitFieldV>,
    has_spread: bool,
)
    ensures
        expand_body_spec(rule_sets_of(defs), frs, fields, has_spread) matches Result::Ok(cfs)
            ==> wt_body(cfs, frs, has_spread, defs) && cfield_names(cfs) == lit_field_names(
            fields,
        ),
    decreases weight_lit_fields(fields, 0), 1int,
{
    let rules = rule_sets_of(defs);
    match first_duplicate_spec(lit_field_names(fields)) {
        Option::Some(_) => {},
        Option::None => {
            crate::annotate::lemma_first_duplicate_iff(lit_field_names(fields));
            let missing = if has_spread {
                Option::<Seq<char>>::None
            } else {
                missing_from(frs, lit_field_names(fields), 0)
            };
            match missing {
                Option::Some(_) => {},
                Option::None => {
                    lemma_expand_fields_wt(defs, frs, fields, 0);
                    match expand_lit_fields_spec(rules, frs, fields, 0) {
                        Result::Ok(cfs) => {
                            assert(cfield_names(cfs) =~= lit_field_names(fields));
                            if !has_spread {
                                lemma_missing_none(frs, lit_field_names(fields), 0);
                                assert(names_subset(rule_field_names(frs), cfield_names(cfs)))
                                    by {
                                    assert forall|i: int|
                                        0 <= i < rule_field_names(frs).len() implies cfield_names(
                                        cfs,
                                    ).contains(#[trigger] rule_field_names(frs)[i]) by {
                                        assert(rule_field_names(frs)[i] == frs[i].field);
                                        assert(lit_field_names(fields).contains(frs[i].field));
                                    }
                                }
                            }
                        },
                        Result::Err(_) => {},
                    }
                },
            }
        },
    }
}

/// Every expanded field list is well typed, and its names are the literal's
/// field names from the given index on.
proof fn lemma_expand_fields_wt(
    defs: Seq<FlatDefV>,
    frs: Seq<FieldRuleV>,
    fields: Seq<LitFieldV>,
    i: int,
)
    ensures
        expand_lit_fields_spec(rule_sets_of(defs), frs, fields, i) matches Result::Ok(cfs) ==> {
            &&& wt_cfields(cfs, frs, defs)
            &&& cfs.len() as int == (if 0 <= i <= fields.len() {
                fields.len() - i
            } else {
                0int
            })
            &&& forall|k: int| 0 <= k < cfs.len() ==> (#[trigger] cfs[k]).name == fields[i + k].name
        },
    decreases weight_lit_fields(fields, i), 0int,
{
    let rules = rule_sets_of(defs);
    if 0 <= i < fields.len() {
        let lf = fields[i];
        match find_field_rule_from(frs, lf.name, 0) {
            Option::None => {},
            Option::Some(fr) => {
                let step: Result<CExprV, BuildErrorV> = match lf.value {
                    LiteralV::Value(e) => Result::Ok(CExprV::Raw(e)),
                    _ => if !(fr.card is Plain) {
                        Result::Err(BuildErrorV::ShapeMismatch(lf.name))
                    } else {
                        expand_spec(rules, fr.base, lf.value)
                    },
                };
                match lf.value {
                    LiteralV::Value(_) => {},
                    _ => {
                        if fr.card is Plain {
                            lemma_expand_wt(defs, fr.base, lf.value);
                        }
                    },
                }
                match step {
                    Result::Err(_) => {},
                    Result::Ok(ce) => {
                        lemma_expand_fields_wt(defs, frs, fields, i + 1);
                        match expand_lit_fields_spec(rules, frs, fields, i + 1) {
                            Result::Err(_) => {},
                            Result::Ok(rest) => {
                                let cf = CFieldV { name: lf.name, value: ce };
                                lemma_wt_cfields_cons(cf, rest, frs, defs);
                                let whole = seq![cf] + rest;
                                assert forall|k: int|
                                    0 <= k < whole.len() implies (#[trigger] whole[k]).name
                                    == fields[i + k].name by {
                                    if k == 0 {
                                        assert(whole[0] == cf);
                                    } else {
                                        assert(whole[k] == rest[k - 1]);
                                    }
                                }
                            },
                        }
                    },
                }
            },
        }
    }
}

proof fn lemma_wt_cfields_cons(cf: CFieldV, rest: Seq<CFieldV>, frs: Seq<FieldRuleV>, defs: Seq<FlatDefV>)
    requires
        wt_cfield(cf, frs, defs),
        wt_cfields(rest, frs, defs),
    ensures
        wt_cfields(seq![cf] + rest, frs, defs),
    decreases rest.len(),
{
    reveal_with_fuel(wt_cfields, 2);
    if rest.len() == 0 {
        assert((seq![cf] + rest).drop_last() =~= Seq::<CFieldV>::empty());
        assert((seq![cf] + rest).last() == cf);
        assert(wt_cfields((seq![cf] + rest).drop_last(), frs, defs));
    } else {
        lemma_wt_cfields_cons(cf, rest.drop_last(), frs, defs);
        assert((seq![cf] + rest).drop_last() =~= seq![cf] + rest.drop_last());
        assert((seq![cf] + rest).last() == rest.last());
        assert(wt_cfields((seq![cf] + rest).drop_last(), frs, defs));
    }
}

proof fn lemma_wt_args_cons(ce: CExprV, rest: Seq<CExprV>, srs: Seq<SlotRuleV>, defs: Seq<FlatDefV>, off: int)
    requires
        wt_expr(ce, defs),
        wt_args_from(rest, srs, defs, off + 1),
        off < srs.len() ==> value_fits(ce, srs[off].base),
    ensures
        wt_args_from(seq![ce] + rest, srs, defs, off),
    decreases rest.len(),
{
    reveal_with_fuel(wt_args_from, 2);
    if rest.len() == 0 {
        assert((seq![ce] + rest).drop_last() =~= Seq::<CExprV>::empty());
        assert((seq![ce] + rest).last() == ce);
        assert(wt_args_from((seq![ce] + rest).drop_last(), srs, defs, off));
    } else {
        lemma_wt_args_cons(ce, rest.drop_last(), srs, defs, off);
        assert((seq![ce] + rest).drop_last() =~= seq![ce] + rest.drop_last());
        assert((seq![ce] + rest).last() == rest.last());
        assert(wt_args_from((seq![ce] + rest).drop_last(), srs, defs, off));
    }
}

/// `wt_args` with the slot index shifted: `args[k]` fits slot `off + k`.
pub open spec fn wt_args_from(args: Seq<CExprV>, srs: Seq<SlotRuleV>, defs: Seq<FlatDefV>, off: int) -> bool
    decreases args, 1int,
{
    if args.len() == 0 {
        true
    } else {
        wt_args_from(args.drop_last(), srs, defs, off) && wt_expr(args.last(), defs) && (off
            + args.len() - 1 < srs.len() ==> value_fits(args.last(), srs[off + args.len() - 1].base))
    }
}

proof fn lemma_wt_args_from_zero(args: Seq<CExprV>, srs: Seq<SlotRuleV>, defs: Seq<FlatDefV>)
    ensures
        wt_args_from(args, srs, defs, 0) == wt_args(args, srs, defs),
    decreases args.len(),
{
    if args.len() > 0 {
        lemma_wt_args_from_zero(args.drop_last(), srs, defs);
    }
}

proof fn lemma_expand_args_wt(
    defs: Seq<FlatDefV>,
    srs: Seq<SlotRuleV>,
    args: Seq<LiteralV>,
    i: int,
    variant: Seq<char>,
)
    ensures
        expand_args_spec(rule_sets_of(defs), srs, args, i, variant) matches Result::Ok(ces)
            ==> wt_args_from(ces, srs, defs, i) && ces.len() as int == (if i < 0 || i > args.len()
            || i > srs.len() {
            0int
        } else if args.len() <= srs.len() {
            args.len() - i
        } else {
            srs.len() - i
        }),
    decreases weight_lits(args, i), 0int,
{
    let rules = rule_sets_of(defs);
    if 0 <= i < args.len() && i < srs.len() {
        let step: Result<CExprV, BuildErrorV> = match args[i] {
            LiteralV::Value(e) => Result::Ok(CExprV::Raw(e)),
            _ => if !(srs[i].card is Plain) {
                Result::Err(BuildErrorV::ShapeMismatch(variant))
            } else {
                expand_spec(rules, srs[i].base, args[i])
            },
        };
        match args[i] {
            LiteralV::Value(_) => {},
            _ => {
                if srs[i].card is Plain {
                    lemma_expand_wt(defs, srs[i].base, args[i]);
                }
            },
        }
        match step {
            Result::Err(_) => {},
            Result::Ok(ce) => {
                lemma_expand_args_wt(defs, srs, args, i + 1, variant);
                match expand_args_spec(rules, srs, args, i + 1, variant) {
                    Result::Err(_) => {},
                    Result::Ok(rest) => {
                        lemma_wt_args_cons(ce, rest, srs, defs, i);
                    },
                }
            },
        }
    }
}

} // verus!
