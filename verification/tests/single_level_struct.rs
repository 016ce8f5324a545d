#![allow(dead_code)]

use yuuka::define_record;
use yuuka::define_union;
use yuuka::flat::FlatDef;
use yuuka::schema::{
    Annotations, Cardinality, DefaultSpec, DeriveAutoMacrosVisibility, DeriveStructVisibility,
    DeriveVisibility, FieldDef, RecordSchema, SchemaName, TypeRef, UnionSchema, VariantDef,
    VariantShape,
};

fn ann() -> Annotations {
    Annotations { self_only: vec![], recursive: vec![] }
}

fn ext(name: &str) -> TypeRef {
    TypeRef::External(name.to_string())
}

fn fld(name: &str, ty: TypeRef) -> FieldDef {
    FieldDef {
        name: name.to_string(),
        ty,
        card: Cardinality::Plain,
        default: DefaultSpec::Absent,
        annotations: ann(),
    }
}

fn rec(name: &str, fields: Vec<FieldDef>) -> RecordSchema {
    RecordSchema {
        name: SchemaName::Named(name.to_string()),
        visibility: DeriveStructVisibility::PublicOnCrate,
        macros_visibility: DeriveAutoMacrosVisibility::PublicOnCrate,
        fields,
        annotations: ann(),
    }
}

fn empty_variant(name: &str) -> VariantDef {
    VariantDef { name: name.to_string(), shape: VariantShape::Empty, annotations: ann() }
}

#[test]
fn single_level_struct() {
    let schema = rec("Root", vec![fld("a", ext("String")), fld("b", ext("i32"))]);
    let (defs, rules) = define_record(&schema).unwrap();
    assert_eq!(defs.len(), 1);
    assert_eq!(rules.len(), 1);
    match &defs[0] {
        FlatDef::Record(r) => {
            assert_eq!(r.name, "Root");
            assert_eq!(r.fields.len(), 2);
            assert_eq!(r.fields[0].name, "a");
            assert!(matches!(&r.fields[0].ty, TypeRef::External(s) if s == "String"));
            assert_eq!(r.fields[1].name, "b");
            assert!(matches!(&r.fields[1].ty, TypeRef::External(s) if s == "i32"));
        },
        _ => panic!("expected a record definition"),
    }
}

#[test]
fn single_level_enum() {
    let schema = UnionSchema {
        name: SchemaName::Named("Root".to_string()),
        visibility: DeriveVisibility::PublicOnCrate,
        macros_visibility: DeriveAutoMacrosVisibility::PublicOnCrate,
        variants: vec![empty_variant("A"), empty_variant("B")],
        default_variant: None,
        annotations: ann(),
    };
    let (defs, _rules) = define_union(&schema).unwrap();
    assert_eq!(defs.len(), 1);
    match &defs[0] {
        FlatDef::Union(u) => {
            assert_eq!(u.name, "Root");
            assert_eq!(u.variants.len(), 2);
            assert_eq!(u.variants[0].name, "A");
            assert_eq!(u.variants[1].name, "B");
            assert!(matches!(u.variants[0].shape, yuuka::flat::FlatShape::Empty));
        },
        _ => panic!("expected a union definition"),
    }
}

#[test]
fn single_level_struct_single_level_struct() {
    single_level_struct();
}
