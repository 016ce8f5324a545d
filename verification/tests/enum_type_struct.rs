#![allow(dead_code)]

use yuuka::define_record;
use yuuka::flat::{FlatDef, FlatShape};
use yuuka::schema::{
    Annotations, Cardinality, DefaultSpec, DeriveAutoMacrosVisibility, DeriveStructVisibility,
    DeriveVisibility, FieldDef, RecordSchema, SchemaName, SlotDef, TypeRef, UnionSchema,
    VariantDef, VariantShape,
};

fn ann() -> Annotations {
    Annotations { self_only: vec![], recursive: vec![] }
}

fn ext(name: &str) -> TypeRef {
    TypeRef::External(name.to_string())
}

fn fld(name: &str, ty: TypeRef) -> FieldDef {
    FieldDef {
        name: name.to_string(),
        ty,
        card: Cardinality::Plain,
        default: DefaultSpec::Absent,
        annotations: ann(),
    }
}

fn fld_card(name: &str, ty: TypeRef, card: Cardinality) -> FieldDef {
    FieldDef { name: name.to_string(), ty, card, default: DefaultSpec::Absent, annotations: ann() }
}

fn fld_dflt(name: &str, ty: TypeRef, default: DefaultSpec) -> FieldDef {
    FieldDef { name: name.to_string(), ty, card: Cardinality::Plain, default, annotations: ann() }
}

fn rec(name: &str, fields: Vec<FieldDef>) -> RecordSchema {
    RecordSchema {
        name: SchemaName::Named(name.to_string()),
        visibility: DeriveStructVisibility::PublicOnCrate,
        macros_visibility: DeriveAutoMacrosVisibility::PublicOnCrate,
        fields,
        annotations: ann(),
    }
}

fn rec_anon(fields: Vec<FieldDef>) -> RecordSchema {
    RecordSchema {
        name: SchemaName::Anonymous,
        visibility: DeriveStructVisibility::PublicOnCrate,
        macros_visibility: DeriveAutoMacrosVisibility::PublicOnCrate,
        fields,
        annotations: ann(),
    }
}

fn uni(name: &str, variants: Vec<VariantDef>) -> UnionSchema {
    UnionSchema {
        name: SchemaName::Named(name.to_string()),
        visibility: DeriveVisibility::PublicOnCrate,
        macros_visibility: DeriveAutoMacrosVisibility::PublicOnCrate,
        variants,
        default_variant: None,
        annotations: ann(),
    }
}

fn uni_anon(variants: Vec<VariantDef>, default_variant: Option<String>) -> UnionSchema {
    UnionSchema {
        name: SchemaName::Anonymous,
        visibility: DeriveVisibility::PublicOnCrate,
        macros_visibility: DeriveAutoMacrosVisibility::PublicOnCrate,
        variants,
        default_variant,
        annotations: ann(),
    }
}

fn empty_variant(name: &str) -> VariantDef {
    VariantDef { name: name.to_string(), shape: VariantShape::Empty, annotations: ann() }
}

fn rec_name(d: &FlatDef) -> &str {
    match d {
        FlatDef::Record(r) => &r.name,
        FlatDef::Union(u) => &u.name,
    }
}

fn as_record(d: &FlatDef) -> &yuuka::flat::FlatRecord {
    match d {
        FlatDef::Record(r) => r,
        _ => panic!("expected a record definition"),
    }
}

fn as_union(d: &FlatDef) -> &yuuka::flat::FlatUnion {
    match d {
        FlatDef::Union(u) => u,
        _ => panic!("expected a union definition"),
    }
}

fn base_of(ty: &TypeRef) -> &str {
    match ty {
        TypeRef::External(s) => s,
        _ => panic!("expected an external reference"),
    }
}


fn tuple_variant(name: &str, slots: Vec<SlotDef>) -> VariantDef {
    VariantDef { name: name.to_string(), shape: VariantShape::Positional(slots), annotations: ann() }
}

fn fielded_variant(name: &str, fields: Vec<FieldDef>) -> VariantDef {
    VariantDef { name: name.to_string(), shape: VariantShape::Fielded(fields), annotations: ann() }
}

fn slot(ty: TypeRef) -> SlotDef {
    SlotDef { ty, card: Cardinality::Plain }
}

#[test]
fn enum_type_struct() {
    let schema = rec(
        "Root",
        vec![fld(
            "a",
            TypeRef::InlineUnion(Box::new(uni(
                "Member",
                vec![
                    empty_variant("Momoi"),
                    empty_variant("Midori"),
                    empty_variant("Yuzu"),
                    empty_variant("Arisu"),
                ],
            ))),
        )],
    );
    let (defs, _rules) = define_record(&schema).unwrap();
    assert_eq!(defs.len(), 2);
    assert_eq!(rec_name(&defs[0]), "Member");
    assert_eq!(base_of(&as_record(&defs[1]).fields[0].ty), "Member");
}

#[test]
fn enum_type_struct_with_braces() {
    let member = uni(
        "Member",
        vec![
            fielded_variant(
                "Momoi",
                vec![fld(
                    "skill",
                    TypeRef::InlineRecord(Box::new(rec("Skill", vec![fld("name", ext("String"))]))),
                )],
            ),
            fielded_variant(
                "Midori",
                vec![fld_card("skills", ext("String"), Cardinality::Collection), fld("level", ext("usize"))],
            ),
            fielded_variant(
                "Yuzu",
                vec![
                    fld(
                        "skill",
                        TypeRef::InlineRecord(Box::new(rec(
                            "Skill2",
                            vec![fld("name", ext("String"))],
                        ))),
                    ),
                    fld("level", ext("usize")),
                ],
            ),
            fielded_variant("Arisu", vec![fld("level", ext("usize"))]),
        ],
    );
    let schema = rec("Root", vec![fld("a", TypeRef::InlineUnion(Box::new(member)))]);
    let (defs, _rules) = define_record(&schema).unwrap();
    assert_eq!(defs.len(), 4);
    assert_eq!(rec_name(&defs[0]), "Skill");
    assert_eq!(rec_name(&defs[1]), "Skill2");
    assert_eq!(rec_name(&defs[2]), "Member");
    let member = as_union(&defs[2]);
    match &member.variants[0].shape {
        FlatShape::Fielded(fields) => assert_eq!(base_of(&fields[0].ty), "Skill"),
        _ => panic!("expected a fielded variant"),
    }
}

#[test]
fn enum_type_struct_with_parentheses() {
    let member = uni(
        "Member",
        vec![
            tuple_variant(
                "Momoi",
                vec![slot(TypeRef::InlineRecord(Box::new(rec(
                    "Skill",
                    vec![fld("name", ext("String"))],
                ))))],
            ),
            tuple_variant(
                "Midori",
                vec![
                    SlotDef { ty: ext("String"), card: Cardinality::Collection },
                    slot(ext("usize")),
                ],
            ),
            tuple_variant(
                "Yuzu",
                vec![
                    slot(TypeRef::InlineRecord(Box::new(rec(
                        "Skill2",
                        vec![fld("name", ext("String"))],
                    )))),
                    slot(ext("usize")),
                ],
            ),
            tuple_variant("Arisu", vec![slot(ext("usize"))]),
        ],
    );
    let schema = rec("Root", vec![fld("a", TypeRef::InlineUnion(Box::new(member)))]);
    let (defs, _rules) = define_record(&schema).unwrap();
    assert_eq!(defs.len(), 4);
    let member = as_union(&defs[2]);
    match &member.variants[1].shape {
        FlatShape::Positional(slots) => {
            assert_eq!(base_of(&slots[0].ty), "String");
            assert_eq!(slots[0].card, Cardinality::Collection);
            assert_eq!(base_of(&slots[1].ty), "usize");
        },
        _ => panic!("expected a positional variant"),
    }
}

#[test]
fn enum_type_struct_with_enum_in_braces() {
    let arisu_ty = uni("ArisuType", vec![empty_variant("Arisu"), empty_variant("Key")]);
    let member = uni(
        "Member",
        vec![
            empty_variant("Momoi"),
            empty_variant("Midori"),
            empty_variant("Yuzu"),
            fielded_variant("Arisu", vec![fld("ty", TypeRef::InlineUnion(Box::new(arisu_ty)))]),
        ],
    );
    let schema = rec("Root", vec![fld("a", TypeRef::InlineUnion(Box::new(member)))]);
    let (defs, _rules) = define_record(&schema).unwrap();
    assert_eq!(defs.len(), 3);
    assert_eq!(rec_name(&defs[0]), "ArisuType");
    assert_eq!(rec_name(&defs[1]), "Member");
}

#[test]
fn enum_type_struct_with_enum_in_parentheses() {
    let arisu_ty = uni("ArisuType", vec![empty_variant("Arisu"), empty_variant("Key")]);
    let member = uni(
        "Member",
        vec![
            empty_variant("Momoi"),
            empty_variant("Midori"),
            empty_variant("Yuzu"),
            tuple_variant("Arisu", vec![slot(TypeRef::InlineUnion(Box::new(arisu_ty)))]),
        ],
    );
    let schema = rec("Root", vec![fld("a", TypeRef::InlineUnion(Box::new(member)))]);
    let (defs, _rules) = define_record(&schema).unwrap();
    assert_eq!(defs.len(), 3);
    let member = as_union(&defs[1]);
    match &member.variants[3].shape {
        FlatShape::Positional(slots) => assert_eq!(base_of(&slots[0].ty), "ArisuType"),
        _ => panic!("expected a positional variant"),
    }
}
