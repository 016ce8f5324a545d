#![allow(dead_code)]

use yuuka::define_record;
use yuuka::flat::{FlatDef};
use yuuka::schema::{Annotations, Cardinality, DefaultSpec, DeriveAutoMacrosVisibility, DeriveStructVisibility, DeriveVisibility, FieldDef, RecordSchema, SchemaName, TypeRef, UnionSchema, VariantDef, VariantShape};

fn ann() -> Annotations {
    Annotations { self_only: vec![], recursive: vec![] }
}

fn ext(name: &str) -> TypeRef {
    TypeRef::External(name.to_string())
}

fn fld(name: &str, ty: TypeRef) -> FieldDef {
    FieldDef {
        name: name.to_string(),
        ty,
        card: Cardinality::Plain,
        default: DefaultSpec::Absent,
        annotations: ann(),
    }
}

fn fld_card(name: &str, ty: TypeRef, card: Cardinality) -> FieldDef {
    FieldDef { name: name.to_string(), ty, card, default: DefaultSpec::Absent, annotations: ann() }
}

fn fld_dflt(name: &str, ty: TypeRef, default: DefaultSpec) -> FieldDef {
    FieldDef { name: name.to_string(), ty, card: Cardinality::Plain, default, annotations: ann() }
}

fn rec(name: &str, fields: Vec<FieldDef>) -> RecordSchema {
    RecordSchema {
        name: SchemaName::Named(name.to_string()),
        visibility: DeriveStructVisibility::PublicOnCrate,
        macros_visibility: DeriveAutoMacrosVisibility::PublicOnCrate,
        fields,
        annotations: ann(),
    }
}

fn rec_anon(fields: Vec<FieldDef>) -> RecordSchema {
    RecordSchema {
        name: SchemaName::Anonymous,
        visibility: DeriveStructVisibility::PublicOnCrate,
        macros_visibility: DeriveAutoMacrosVisibility::PublicOnCrate,
        fields,
        annotations: ann(),
    }
}

fn uni(name: &str, variants: Vec<VariantDef>) -> UnionSchema {
    UnionSchema {
        name: SchemaName::Named(name.to_string()),
        visibility: DeriveVisibility::PublicOnCrate,
        macros_visibility: DeriveAutoMacrosVisibility::PublicOnCrate,
        variants,
        default_variant: None,
        annotations: ann(),
    }
}

fn uni_anon(variants: Vec<VariantDef>, default_variant: Option<String>) -> UnionSchema {
    UnionSchema {
        name: SchemaName::Anonymous,
        visibility: DeriveVisibility::PublicOnCrate,
        macros_visibility: DeriveAutoMacrosVisibility::PublicOnCrate,
        variants,
        default_variant,
        annotations: ann(),
    }
}

fn empty_variant(name: &str) -> VariantDef {
    VariantDef { name: name.to_string(), shape: VariantShape::Empty, annotations: ann() }
}

fn rec_name(d: &FlatDef) -> &str {
    match d {
        FlatDef::Record(r) => &r.name,
        FlatDef::Union(u) => &u.name,
    }
}

fn as_record(d: &FlatDef) -> &yuuka::flat::FlatRecord {
    match d {
        FlatDef::Record(r) => r,
        _ => panic!("expected a record definition"),
    }
}

fn as_union(d: &FlatDef) -> &yuuka::flat::FlatUnion {
    match d {
        FlatDef::Union(u) => u,
        _ => panic!("expected a union definition"),
    }
}

fn base_of(ty: &TypeRef) -> &str {
    match ty {
        TypeRef::External(s) => s,
        _ => panic!("expected an external reference"),
    }
}


#[test]
fn complex_type_struct() {
    let schema = rec(
        "Root",
        vec![fld("a", ext("String")), fld("b", ext("i32")), fld("c", ext("super::C"))],
    );
    let (defs, _rules) = define_record(&schema).unwrap();
    assert_eq!(defs.len(), 1);
    let root = as_record(&defs[0]);
    assert_eq!(root.fields.len(), 3);
    assert_eq!(base_of(&root.fields[2].ty), "super::C");
}
