#![allow(dead_code)]

use yuuka::define_record;
use yuuka::flat::{FlatDef, FlatShape};
use yuuka::schema::{Annotations, Cardinality, DefaultSpec, DeriveAutoMacrosVisibility, DeriveStructVisibility, DeriveVisibility, FieldDef, RecordSchema, SchemaName, TypeRef, UnionSchema, VariantDef, VariantShape};

fn ann() -> Annotations {
    Annotations { self_only: vec![], recursive: vec![] }
}

fn ext(name: &str) -> TypeRef {
    TypeRef::External(name.to_string())
}

fn fld(name: &str, ty: TypeRef) -> FieldDef {
    FieldDef {
        name: name.to_string(),
        ty,
        card: Cardinality::Plain,
        default: DefaultSpec::Absent,
        annotations: ann(),
    }
}

fn fld_card(name: &str, ty: TypeRef, card: Cardinality) -> FieldDef {
    FieldDef { name: name.to_string(), ty, card, default: DefaultSpec::Absent, annotations: ann() }
}

fn fld_dflt(name: &str, ty: TypeRef, default: DefaultSpec) -> FieldDef {
    FieldDef { name: name.to_string(), ty, card: Cardinality::Plain, default, annotations: ann() }
}

fn rec(name: &str, fields: Vec<FieldDef>) -> RecordSchema {
    RecordSchema {
        name: SchemaName::Named(name.to_string()),
        visibility: DeriveStructVisibility::PublicOnCrate,
        macros_visibility: DeriveAutoMacrosVisibility::PublicOnCrate,
        fields,
        annotations: ann(),
    }
}

fn rec_anon(fields: Vec<FieldDef>) -> RecordSchema {
    RecordSchema {
        name: SchemaName::Anonymous,
        visibility: DeriveStructVisibility::PublicOnCrate,
        macros_visibility: DeriveAutoMacrosVisibility::PublicOnCrate,
        fields,
        annotations: ann(),
    }
}

fn uni(name: &str, variants: Vec<VariantDef>) -> UnionSchema {
    UnionSchema {
        name: SchemaName::Named(name.to_string()),
        visibility: DeriveVisibility::PublicOnCrate,
        macros_visibility: DeriveAutoMacrosVisibility::PublicOnCrate,
        variants,
        default_variant: None,
        annotations: ann(),
    }
}

fn uni_anon(variants: Vec<VariantDef>, default_variant: Option<String>) -> UnionSchema {
    UnionSchema {
        name: SchemaName::Anonymous,
        visibility: DeriveVisibility::PublicOnCrate,
        macros_visibility: DeriveAutoMacrosVisibility::PublicOnCrate,
        variants,
        default_variant,
        annotations: ann(),
    }
}

fn empty_variant(name: &str) -> VariantDef {
    VariantDef { name: name.to_string(), shape: VariantShape::Empty, annotations: ann() }
}

fn rec_name(d: &FlatDef) -> &str {
    match d {
        FlatDef::Record(r) => &r.name,
        FlatDef::Union(u) => &u.name,
    }
}

fn as_record(d: &FlatDef) -> &yuuka::flat::FlatRecord {
    match d {
        FlatDef::Record(r) => r,
        _ => panic!("expected a record definition"),
    }
}

fn as_union(d: &FlatDef) -> &yuuka::flat::FlatUnion {
    match d {
        FlatDef::Union(u) => u,
        _ => panic!("expected a union definition"),
    }
}

fn base_of(ty: &TypeRef) -> &str {
    match ty {
        TypeRef::External(s) => s,
        _ => panic!("expected an external reference"),
    }
}

#[test]
fn option_type_basic() {
    let schema = rec("Root", vec![fld_card("a", ext("String"), Cardinality::Optional)]);
    let (defs, _rules) = define_record(&schema).unwrap();
    let root = as_record(&defs[0]);
    assert_eq!(root.fields[0].card, Cardinality::Optional);
    assert_eq!(base_of(&root.fields[0].ty), "String");
}

#[test]
fn option_type_struct() {
    let schema = rec(
        "Root",
        vec![fld_card(
            "a",
            TypeRef::InlineRecord(Box::new(rec("A", vec![fld("b", ext("String"))]))),
            Cardinality::Optional,
        )],
    );
    let (defs, _rules) = define_record(&schema).unwrap();
    assert_eq!(defs.len(), 2);
    let root = as_record(&defs[1]);
    assert_eq!(root.fields[0].card, Cardinality::Optional);
    assert_eq!(base_of(&root.fields[0].ty), "A");
}

#[test]
fn option_type_struct_with_enum() {
    let schema = rec(
        "Root",
        vec![
            fld_card(
                "a",
                TypeRef::InlineRecord(Box::new(rec("A", vec![fld("b", ext("String"))]))),
                Cardinality::Optional,
            ),
            fld_card(
                "b",
                TypeRef::InlineUnion(Box::new(uni(
                    "AttackType",
                    vec![
                        empty_variant("Momoi"),
                        empty_variant("Midori"),
                        empty_variant("Yuzu"),
                        empty_variant("Arisu"),
                    ],
                ))),
                Cardinality::Optional,
            ),
        ],
    );
    let (defs, _rules) = define_record(&schema).unwrap();
    assert_eq!(defs.len(), 3);
    let root = as_record(&defs[2]);
    assert_eq!(root.fields[1].card, Cardinality::Optional);
    assert_eq!(base_of(&root.fields[1].ty), "AttackType");
}

#[test]
fn option_type_struct_anonymous() {
    let schema = rec(
        "Root",
        vec![fld_card(
            "a",
            TypeRef::InlineRecord(Box::new(rec_anon(vec![fld("b", ext("String"))]))),
            Cardinality::Optional,
        )],
    );
    let (defs, _rules) = define_record(&schema).unwrap();
    assert_eq!(defs.len(), 2);
    assert_eq!(rec_name(&defs[0]), "_Root_0_anonymous");
    let root = as_record(&defs[1]);
    assert_eq!(base_of(&root.fields[0].ty), "_Root_0_anonymous");
    assert_eq!(root.fields[0].card, Cardinality::Optional);
}

#[test]
fn option_type_enum_with_keys() {
    let midori = VariantDef {
        name: "Midori".to_string(),
        shape: VariantShape::Fielded(vec![fld_card("b", ext("String"), Cardinality::Optional)]),
        annotations: ann(),
    };
    let schema = rec(
        "Root",
        vec![fld_card(
            "a",
            TypeRef::InlineUnion(Box::new(uni(
                "AttackType",
                vec![
                    empty_variant("Momoi"),
                    midori,
                    empty_variant("Yuzu"),
                    empty_variant("Arisu"),
                ],
            ))),
            Cardinality::Optional,
        )],
    );
    let (defs, _rules) = define_record(&schema).unwrap();
    let at = as_union(&defs[0]);
    match &at.variants[1].shape {
        FlatShape::Fielded(fields) => {
            assert_eq!(fields[0].name, "b");
            assert_eq!(fields[0].card, Cardinality::Optional);
        },
        _ => panic!("expected a fielded variant"),
    }
}
