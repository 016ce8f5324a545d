#![allow(dead_code)]

use yuuka::define_record;
use yuuka::flat::{FlatDef};
use yuuka::schema::{
    Annotations, Cardinality, DefaultSpec, DeriveAutoMacrosVisibility, DeriveStructVisibility,
    DeriveVisibility, FieldDef, RecordSchema, SchemaName, SlotDef, TypeRef, UnionSchema,
    VariantDef, VariantShape,
};

fn ann() -> Annotations {
    Annotations { self_only: vec![], recursive: vec![] }
}

fn ext(name: &str) -> TypeRef {
    TypeRef::External(name.to_string())
}

fn fld(name: &str, ty: TypeRef) -> FieldDef {
    FieldDef {
        name: name.to_string(),
        ty,
        card: Cardinality::Plain,
        default: DefaultSpec::Absent,
        annotations: ann(),
    }
}

fn fld_card(name: &str, ty: TypeRef, card: Cardinality) -> FieldDef {
    FieldDef { name: name.to_string(), ty, card, default: DefaultSpec::Absent, annotations: ann() }
}

fn fld_dflt(name: &str, ty: TypeRef, default: DefaultSpec) -> FieldDef {
    FieldDef { name: name.to_string(), ty, card: Cardinality::Plain, default, annotations: ann() }
}

fn rec(name: &str, fields: Vec<FieldDef>) -> RecordSchema {
    RecordSchema {
        name: SchemaName::Named(name.to_string()),
        visibility: DeriveStructVisibility::PublicOnCrate,
        macros_visibility: DeriveAutoMacrosVisibility::PublicOnCrate,
        fields,
        annotations: ann(),
    }
}

fn rec_anon(fields: Vec<FieldDef>) -> RecordSchema {
    RecordSchema {
        name: SchemaName::Anonymous,
        visibility: DeriveStructVisibility::PublicOnCrate,
        macros_visibility: DeriveAutoMacrosVisibility::PublicOnCrate,
        fields,
        annotations: ann(),
    }
}

fn uni(name: &str, variants: Vec<VariantDef>) -> UnionSchema {
    UnionSchema {
        name: SchemaName::Named(name.to_string()),
        visibility: DeriveVisibility::PublicOnCrate,
        macros_visibility: DeriveAutoMacrosVisibility::PublicOnCrate,
        variants,
        default_variant: None,
        annotations: ann(),
    }
}

fn uni_anon(variants: Vec<VariantDef>, default_variant: Option<String>) -> UnionSchema {
    UnionSchema {
        name: SchemaName::Anonymous,
        visibility: DeriveVisibility::PublicOnCrate,
        macros_visibility: DeriveAutoMacrosVisibility::PublicOnCrate,
        variants,
        default_variant,
        annotations: ann(),
    }
}

fn empty_variant(name: &str) -> VariantDef {
    VariantDef { name: name.to_string(), shape: VariantShape::Empty, annotations: ann() }
}

fn rec_name(d: &FlatDef) -> &str {
    match d {
        FlatDef::Record(r) => &r.name,
        FlatDef::Union(u) => &u.name,
    }
}

fn as_record(d: &FlatDef) -> &yuuka::flat::FlatRecord {
    match d {
        FlatDef::Record(r) => r,
        _ => panic!("expected a record definition"),
    }
}

fn as_union(d: &FlatDef) -> &yuuka::flat::FlatUnion {
    match d {
        FlatDef::Union(u) => u,
        _ => panic!("expected a union definition"),
    }
}

fn base_of(ty: &TypeRef) -> &str {
    match ty {
        TypeRef::External(s) => s,
        _ => panic!("expected an external reference"),
    }
}


use yuuka::builder::build_literal;
use yuuka::builder::{BuildError, CExpr, Literal, LitField};
use yuuka::defaults::{invoke_union_default, resolve_defaults, ConstructorPlan, DefaultError, FieldInit};
use yuuka::names::{assign_name, FlattenError};

fn lf(name: &str, value: Literal) -> LitField {
    LitField { name: name.to_string(), value }
}

fn val(e: &str) -> Literal {
    Literal::Value(e.to_string())
}

#[test]
fn scenario_two_flat_records() {
    // a record holding an anonymous record flattens to two definitions, the
    // inner one first
    let schema = rec(
        "Root",
        vec![
            fld("a", ext("String")),
            fld("b", TypeRef::InlineRecord(Box::new(rec_anon(vec![fld("c", ext("i32"))])))),
        ],
    );
    let (defs, _rules) = define_record(&schema).unwrap();
    assert_eq!(defs.len(), 2);
    assert_eq!(rec_name(&defs[0]), "_Root_0_anonymous");
    assert_eq!(rec_name(&defs[1]), "Root");
    let root = as_record(&defs[1]);
    assert_eq!(base_of(&root.fields[0].ty), "String");
    assert_eq!(base_of(&root.fields[1].ty), "_Root_0_anonymous");
    let inner = as_record(&defs[0]);
    assert_eq!(inner.fields[0].name, "c");
    assert_eq!(base_of(&inner.fields[0].ty), "i32");
}

#[test]
fn scenario_union_three_variants() {
    let schema = uni(
        "Root",
        vec![
            empty_variant("A"),
            VariantDef {
                name: "B".to_string(),
                shape: VariantShape::Positional(vec![SlotDef {
                    ty: ext("i32"),
                    card: Cardinality::Plain,
                }]),
                annotations: ann(),
            },
            VariantDef {
                name: "C".to_string(),
                shape: VariantShape::Fielded(vec![fld("x", ext("String"))]),
                annotations: ann(),
            },
        ],
    );
    let (defs, rules) = yuuka::define_union(&schema).unwrap();
    assert_eq!(defs.len(), 1);
    assert_eq!(as_union(&defs[0]).variants.len(), 3);
    let root = "Root".to_string();
    let a = build_literal(&rules, &root, &Literal::Unit { variant: "A".to_string() }).unwrap();
    assert!(matches!(&a, CExpr::MakeUnit { variant, .. } if variant == "A"));
    let b = build_literal(
        &rules,
        &root,
        &Literal::Tuple { variant: "B".to_string(), args: vec![val("5")] },
    )
    .unwrap();
    assert!(matches!(&b, CExpr::MakeTuple { args, .. } if args.len() == 1));
    let c = build_literal(
        &rules,
        &root,
        &Literal::Fields {
            variant: "C".to_string(),
            fields: vec![lf("x", val("\"s\".to_string()"))],
            spread: None,
        },
    )
    .unwrap();
    assert!(matches!(&c, CExpr::MakeFields { variant, .. } if variant == "C"));
}

#[test]
fn scenario_collection_of_anonymous() {
    let schema = rec(
        "Root",
        vec![fld_card(
            "a",
            TypeRef::InlineRecordCollection(Box::new(rec_anon(vec![fld("b", ext("String"))]))),
            Cardinality::Plain,
        )],
    );
    let (defs, _rules) = define_record(&schema).unwrap();
    assert_eq!(rec_name(&defs[0]), "_Root_0_anonymous");
    let root = as_record(&defs[1]);
    assert_eq!(base_of(&root.fields[0].ty), "_Root_0_anonymous");
    assert_eq!(root.fields[0].card, Cardinality::Collection);
}

#[test]
fn scenario_explicit_constructor() {
    let schema = rec(
        "Root",
        vec![
            fld_dflt("a", ext("String"), DefaultSpec::Single("\"x\"".to_string())),
            fld("b", ext("i32")),
        ],
    );
    let (defs, _rules) = define_record(&schema).unwrap();
    match resolve_defaults(&as_record(&defs[0]).fields) {
        ConstructorPlan::Explicit(plans) => {
            assert_eq!(plans.len(), 2);
            assert_eq!(plans[0].field, "a");
            assert!(matches!(&plans[0].init, FieldInit::Expr(e) if e == "\"x\""));
            assert_eq!(plans[1].field, "b");
            assert!(matches!(&plans[1].init, FieldInit::Zero));
        },
        _ => panic!("a field with a default forces the explicit plan"),
    }
}

#[test]
fn scenario_deferred_default() {
    // a union without a default variant flattens without error; the defect
    // surfaces only when its default constructor is invoked
    let schema = uni("Root", vec![empty_variant("A"), empty_variant("B")]);
    let (defs, _rules) = yuuka::define_union(&schema).unwrap();
    let u = as_union(&defs[0]);
    assert_eq!(u.default_variant, DefaultSpec::Absent);
    assert_eq!(invoke_union_default(u), Err(DefaultError::NoDefaultVariant));
}

#[test]
fn duplicate_field_rejected() {
    let schema = rec("Root", vec![fld("a", ext("String")), fld("a", ext("i32"))]);
    match define_record(&schema) {
        Err(FlattenError::DuplicateField { name, depth }) => {
            assert_eq!(name, "a");
            assert_eq!(depth, 0);
        },
        _ => panic!("a repeated field name within one level is rejected"),
    }
}

#[test]
fn duplicate_variant_rejected() {
    let schema = uni("Root", vec![empty_variant("A"), empty_variant("A")]);
    match yuuka::define_union(&schema) {
        Err(FlattenError::DuplicateVariant { name, depth }) => {
            assert_eq!(name, "A");
            assert_eq!(depth, 0);
        },
        _ => panic!("a repeated variant name within one level is rejected"),
    }
}

#[test]
fn collection_of_collection_rejected() {
    let schema = rec(
        "Root",
        vec![fld_card(
            "a",
            TypeRef::InlineRecordCollection(Box::new(rec_anon(vec![fld("b", ext("String"))]))),
            Cardinality::Collection,
        )],
    );
    match define_record(&schema) {
        Err(FlattenError::MalformedCardinality { name, depth }) => {
            assert_eq!(name, "a");
            assert_eq!(depth, 0);
        },
        _ => panic!("a collection of a collection is rejected"),
    }
}

#[test]
fn anonymous_root_rejected() {
    let schema = rec_anon(vec![fld("a", ext("String"))]);
    assert_eq!(define_record(&schema).unwrap_err(), FlattenError::AnonymousRoot);
}

#[test]
fn identity_assignment_idempotent() {
    let root = "Root".to_string();
    let (assigned, ctr) = assign_name(&yuuka::schema::SchemaName::Anonymous, &root, 0);
    assert_eq!(ctr, 1);
    let (again, ctr2) = assign_name(&assigned, &root, ctr);
    assert_eq!(ctr2, 1);
    assert_eq!(again, assigned);
    assert_eq!(yuuka::names::to_identity(&assigned).unwrap(), "_Root_0_anonymous");
}

#[test]
fn annotations_deduplicated() {
    // the same tag arriving through the use site and through recursive
    // inheritance appears once on the flattened definition
    let mut root_ann = ann();
    root_ann.recursive.push("serde".to_string());
    let mut site_ann = ann();
    site_ann.self_only.push("serde".to_string());
    let inner = rec_anon(vec![fld("b", ext("String"))]);
    let schema = RecordSchema {
        name: SchemaName::Named("Root".to_string()),
        visibility: DeriveStructVisibility::PublicOnCrate,
        macros_visibility: DeriveAutoMacrosVisibility::PublicOnCrate,
        fields: vec![FieldDef {
            name: "a".to_string(),
            ty: TypeRef::InlineRecord(Box::new(inner)),
            card: Cardinality::Plain,
            default: DefaultSpec::Absent,
            annotations: site_ann,
        }],
        annotations: root_ann,
    };
    let (defs, _rules) = define_record(&schema).unwrap();
    let inner_def = as_record(&defs[0]);
    assert_eq!(inner_def.annotations, vec!["serde".to_string()]);
    let root_def = as_record(&defs[1]);
    assert_eq!(root_def.annotations, vec!["serde".to_string()]);
}

#[test]
fn expansion_unknown_variant() {
    let schema = uni("Root", vec![empty_variant("A")]);
    let (_defs, rules) = yuuka::define_union(&schema).unwrap();
    let r = build_literal(&rules, &"Root".to_string(), &Literal::Unit { variant: "Nope".to_string() });
    assert_eq!(r.unwrap_err(), BuildError::UnknownVariant("Nope".to_string()));
}

#[test]
fn expansion_missing_field() {
    let schema = rec("Root", vec![fld("a", ext("String")), fld("b", ext("i32"))]);
    let (_defs, rules) = define_record(&schema).unwrap();
    let r = build_literal(
        &rules,
        &"Root".to_string(),
        &Literal::Record { fields: vec![lf("a", val("\"x\""))], spread: None },
    );
    assert_eq!(r.unwrap_err(), BuildError::MissingField("b".to_string()));
}

#[test]
fn expansion_spread_allows_missing() {
    let schema = rec("Root", vec![fld("a", ext("String")), fld("b", ext("i32"))]);
    let (_defs, rules) = define_record(&schema).unwrap();
    let r = build_literal(
        &rules,
        &"Root".to_string(),
        &Literal::Record {
            fields: vec![lf("a", val("\"x\""))],
            spread: Some("Default::default()".to_string()),
        },
    )
    .unwrap();
    assert!(matches!(&r, CExpr::MakeRecord { base: Some(b), .. } if b == "Default::default()"));
}

#[test]
fn wrapped_field_rejects_nested_literal() {
    let schema = rec(
        "Root",
        vec![fld_card(
            "a",
            TypeRef::InlineRecordCollection(Box::new(rec_anon(vec![fld("b", ext("String"))]))),
            Cardinality::Plain,
        )],
    );
    let (_defs, rules) = define_record(&schema).unwrap();
    let r = build_literal(
        &rules,
        &"Root".to_string(),
        &Literal::Record {
            fields: vec![lf(
                "a",
                Literal::Record { fields: vec![lf("b", val("\"x\""))], spread: None },
            )],
            spread: None,
        },
    );
    assert_eq!(r.unwrap_err(), BuildError::ShapeMismatch("a".to_string()));
}

#[test]
fn expansion_unknown_type() {
    let schema = rec("Root", vec![fld("a", ext("String"))]);
    let (_defs, rules) = define_record(&schema).unwrap();
    let r = build_literal(
        &rules,
        &"Other".to_string(),
        &Literal::Record { fields: vec![lf("a", val("1"))], spread: None },
    );
    assert_eq!(r.unwrap_err(), BuildError::NoRuleSet("Other".to_string()));
}

#[test]
fn expansion_unknown_field() {
    let schema = rec("Root", vec![fld("a", ext("String"))]);
    let (_defs, rules) = define_record(&schema).unwrap();
    let inner = rec("Inner", vec![fld("x", ext("i32"))]);
    let (_d2, _r2) = define_record(&inner).unwrap();
    let r = build_literal(
        &rules,
        &"Root".to_string(),
        &Literal::Record {
            fields: vec![lf(
                "nope",
                Literal::Record { fields: vec![], spread: Some("b".to_string()) },
            )],
            spread: Some("base".to_string()),
        },
    );
    assert_eq!(r.unwrap_err(), BuildError::UnknownField("nope".to_string()));
}

#[test]
fn expansion_duplicate_entry() {
    let schema = rec("Root", vec![fld("a", ext("String"))]);
    let (_defs, rules) = define_record(&schema).unwrap();
    let r = build_literal(
        &rules,
        &"Root".to_string(),
        &Literal::Record { fields: vec![lf("a", val("1")), lf("a", val("2"))], spread: None },
    );
    assert_eq!(r.unwrap_err(), BuildError::DuplicateEntry("a".to_string()));
}

#[test]
fn expansion_arity_mismatch() {
    let schema = uni(
        "Root",
        vec![VariantDef {
            name: "B".to_string(),
            shape: VariantShape::Positional(vec![
                SlotDef { ty: ext("i32"), card: Cardinality::Plain },
                SlotDef { ty: ext("i32"), card: Cardinality::Plain },
            ]),
            annotations: ann(),
        }],
    );
    let (_defs, rules) = yuuka::define_union(&schema).unwrap();
    let r = build_literal(
        &rules,
        &"Root".to_string(),
        &Literal::Tuple { variant: "B".to_string(), args: vec![val("1")] },
    );
    assert_eq!(r.unwrap_err(), BuildError::ArityMismatch("B".to_string()));
}

#[test]
fn identity_rendering_multi_digit() {
    // twelve anonymous schemas force a two-digit sequence number
    let mut fields = vec![];
    let names = ["a", "b", "c", "d", "e", "f", "g", "h", "i", "j", "k", "l"];
    for n in names.iter() {
        fields.push(fld(
            n,
            TypeRef::InlineRecord(Box::new(rec_anon(vec![fld("x", ext("i32"))]))),
        ));
    }
    let schema = rec("Root", fields);
    let (defs, _rules) = define_record(&schema).unwrap();
    assert_eq!(defs.len(), 13);
    assert_eq!(rec_name(&defs[9]), "_Root_9_anonymous");
    assert_eq!(rec_name(&defs[10]), "_Root_10_anonymous");
    assert_eq!(rec_name(&defs[11]), "_Root_11_anonymous");
}
