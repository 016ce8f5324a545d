#![allow(dead_code)]

use yuuka::define_record;
use yuuka::flat::{FlatDef};
use yuuka::schema::{
    Annotations, Cardinality, DefaultSpec, DeriveAutoMacrosVisibility, DeriveStructVisibility,
    DeriveVisibility, FieldDef, RecordSchema, SchemaName, SlotDef, TypeRef, UnionSchema,
    VariantDef, VariantShape,
};

fn ann() -> Annotations {
    Annotations { self_only: vec![], recursive: vec![] }
}

fn ext(name: &str) -> TypeRef {
    TypeRef::External(name.to_string())
}

fn fld(name: &str, ty: TypeRef) -> FieldDef {
    FieldDef {
        name: name.to_string(),
        ty,
        card: Cardinality::Plain,
        default: DefaultSpec::Absent,
        annotations: ann(),
    }
}

fn fld_card(name: &str, ty: TypeRef, card: Cardinality) -> FieldDef {
    FieldDef { name: name.to_string(), ty, card, default: DefaultSpec::Absent, annotations: ann() }
}

fn fld_dflt(name: &str, ty: TypeRef, default: DefaultSpec) -> FieldDef {
    FieldDef { name: name.to_string(), ty, card: Cardinality::Plain, default, annotations: ann() }
}

fn rec(name: &str, fields: Vec<FieldDef>) -> RecordSchema {
    RecordSchema {
        name: SchemaName::Named(name.to_string()),
        visibility: DeriveStructVisibility::PublicOnCrate,
        macros_visibility: DeriveAutoMacrosVisibility::PublicOnCrate,
        fields,
        annotations: ann(),
    }
}

fn rec_anon(fields: Vec<FieldDef>) -> RecordSchema {
    RecordSchema {
        name: SchemaName::Anonymous,
        visibility: DeriveStructVisibility::PublicOnCrate,
        macros_visibility: DeriveAutoMacrosVisibility::PublicOnCrate,
        fields,
        annotations: ann(),
    }
}

fn uni(name: &str, variants: Vec<VariantDef>) -> UnionSchema {
    UnionSchema {
        name: SchemaName::Named(name.to_string()),
        visibility: DeriveVisibility::PublicOnCrate,
        macros_visibility: DeriveAutoMacrosVisibility::PublicOnCrate,
        variants,
        default_variant: None,
        annotations: ann(),
    }
}

fn uni_anon(variants: Vec<VariantDef>, default_variant: Option<String>) -> UnionSchema {
    UnionSchema {
        name: SchemaName::Anonymous,
        visibility: DeriveVisibility::PublicOnCrate,
        macros_visibility: DeriveAutoMacrosVisibility::PublicOnCrate,
        variants,
        default_variant,
        annotations: ann(),
    }
}

fn empty_variant(name: &str) -> VariantDef {
    VariantDef { name: name.to_string(), shape: VariantShape::Empty, annotations: ann() }
}

fn rec_name(d: &FlatDef) -> &str {
    match d {
        FlatDef::Record(r) => &r.name,
        FlatDef::Union(u) => &u.name,
    }
}

fn as_record(d: &FlatDef) -> &yuuka::flat::FlatRecord {
    match d {
        FlatDef::Record(r) => r,
        _ => panic!("expected a record definition"),
    }
}

fn as_union(d: &FlatDef) -> &yuuka::flat::FlatUnion {
    match d {
        FlatDef::Union(u) => u,
        _ => panic!("expected a union definition"),
    }
}

fn base_of(ty: &TypeRef) -> &str {
    match ty {
        TypeRef::External(s) => s,
        _ => panic!("expected an external reference"),
    }
}


use yuuka::builder::build_literal;
use yuuka::builder::{CExpr, CField, Literal, LitField};

fn lf(name: &str, value: Literal) -> LitField {
    LitField { name: name.to_string(), value }
}

fn val(e: &str) -> Literal {
    Literal::Value(e.to_string())
}

fn expr_eq(a: &CExpr, b: &CExpr) -> bool {
    match (a, b) {
        (CExpr::Raw(x), CExpr::Raw(y)) => x == y,
        (
            CExpr::MakeRecord { ty: t1, fields: f1, base: b1 },
            CExpr::MakeRecord { ty: t2, fields: f2, base: b2 },
        ) => t1 == t2 && b1 == b2 && cfields_eq(f1, f2),
        (
            CExpr::MakeUnit { ty: t1, variant: v1 },
            CExpr::MakeUnit { ty: t2, variant: v2 },
        ) => t1 == t2 && v1 == v2,
        (
            CExpr::MakeTuple { ty: t1, variant: v1, args: a1 },
            CExpr::MakeTuple { ty: t2, variant: v2, args: a2 },
        ) => {
            t1 == t2 && v1 == v2 && a1.len() == a2.len()
                && a1.iter().zip(a2.iter()).all(|(x, y)| expr_eq(x, y))
        },
        (
            CExpr::MakeFields { ty: t1, variant: v1, fields: f1, base: b1 },
            CExpr::MakeFields { ty: t2, variant: v2, fields: f2, base: b2 },
        ) => t1 == t2 && v1 == v2 && b1 == b2 && cfields_eq(f1, f2),
        _ => false,
    }
}

fn cfields_eq(a: &[CField], b: &[CField]) -> bool {
    a.len() == b.len()
        && a.iter().zip(b.iter()).all(|(x, y)| x.name == y.name && expr_eq(&x.value, &y.value))
}

fn tuple_variant(name: &str, slots: Vec<SlotDef>) -> VariantDef {
    VariantDef { name: name.to_string(), shape: VariantShape::Positional(slots), annotations: ann() }
}

fn fielded_variant(name: &str, fields: Vec<FieldDef>) -> VariantDef {
    VariantDef { name: name.to_string(), shape: VariantShape::Fielded(fields), annotations: ann() }
}

fn slot(ty: TypeRef) -> SlotDef {
    SlotDef { ty, card: Cardinality::Plain }
}

fn single(e: &str) -> DefaultSpec {
    DefaultSpec::Single(e.to_string())
}

fn basic_struct_schema() -> RecordSchema {
    rec(
        "Root",
        vec![
            fld("a", ext("String")),
            fld("b", ext("i32")),
            fld("c", ext("f64")),
            fld(
                "d",
                TypeRef::InlineRecord(Box::new(rec_anon(vec![
                    fld_dflt("e", ext("String"), single("\"world\".to_string()")),
                    fld("f", ext("i32")),
                ]))),
            ),
        ],
    )
}

fn basic_struct_literal() -> Literal {
    Literal::Record {
        fields: vec![
            lf("a", val("\"hello\".to_string()")),
            lf("b", val("42")),
            lf("c", val("std::f64::consts::PI")),
            lf(
                "d",
                Literal::Record {
                    fields: vec![lf("f", val("24"))],
                    spread: Some("Default::default()".to_string()),
                },
            ),
        ],
        spread: None,
    }
}

#[test]
fn basic_struct() {
    let (defs, rules) = define_record(&basic_struct_schema()).unwrap();
    assert_eq!(rec_name(&defs[0]), "_Root_0_anonymous");
    let obj = build_literal(&rules, &"Root".to_string(), &basic_struct_literal()).unwrap();
    let expected = CExpr::MakeRecord {
        ty: "Root".to_string(),
        fields: vec![
            CField { name: "a".to_string(), value: CExpr::Raw("\"hello\".to_string()".to_string()) },
            CField { name: "b".to_string(), value: CExpr::Raw("42".to_string()) },
            CField { name: "c".to_string(), value: CExpr::Raw("std::f64::consts::PI".to_string()) },
            CField {
                name: "d".to_string(),
                value: CExpr::MakeRecord {
                    ty: "_Root_0_anonymous".to_string(),
                    fields: vec![
                        CField { name: "f".to_string(), value: CExpr::Raw("24".to_string()) },
                    ],
                    base: Some("Default::default()".to_string()),
                },
            },
        ],
        base: None,
    };
    assert!(expr_eq(&obj, &expected));
    // the omitted field e is filled from its declared default
    let inner = as_record(&defs[0]);
    match yuuka::defaults::resolve_defaults(&inner.fields) {
        yuuka::defaults::ConstructorPlan::Explicit(plans) => {
            assert_eq!(plans[0].field, "e");
            assert!(matches!(
                &plans[0].init,
                yuuka::defaults::FieldInit::Expr(e) if e == "\"world\".to_string()"
            ));
        },
        _ => panic!("expected an explicit constructor plan"),
    }
}

fn basic_enum_schema() -> UnionSchema {
    uni(
        "Root",
        vec![
            empty_variant("A"),
            tuple_variant("B", vec![slot(ext("i32"))]),
            fielded_variant("C", vec![fld("a", ext("String")), fld("b", ext("i32"))]),
            tuple_variant(
                "D",
                vec![slot(TypeRef::InlineUnion(Box::new(uni_anon(
                    vec![
                        empty_variant("E"),
                        tuple_variant("F", vec![slot(ext("i32"))]),
                        fielded_variant("G", vec![fld("a", ext("String")), fld("b", ext("i32"))]),
                    ],
                    None,
                ))))],
            ),
        ],
    )
}

#[test]
fn basic_enum() {
    let (defs, rules) = yuuka::define_union(&basic_enum_schema()).unwrap();
    assert_eq!(rec_name(&defs[0]), "_Root_0_anonymous");
    let root = "Root".to_string();

    let e1 = build_literal(&rules, &root, &Literal::Unit { variant: "A".to_string() }).unwrap();
    assert!(expr_eq(&e1, &CExpr::MakeUnit { ty: "Root".to_string(), variant: "A".to_string() }));

    let e2 = build_literal(
        &rules,
        &root,
        &Literal::Tuple { variant: "B".to_string(), args: vec![val("42")] },
    )
    .unwrap();
    assert!(expr_eq(
        &e2,
        &CExpr::MakeTuple {
            ty: "Root".to_string(),
            variant: "B".to_string(),
            args: vec![CExpr::Raw("42".to_string())],
        }
    ));

    let e3 = build_literal(
        &rules,
        &root,
        &Literal::Fields {
            variant: "C".to_string(),
            fields: vec![lf("a", val("\"hello\".to_string()")), lf("b", val("42"))],
            spread: None,
        },
    )
    .unwrap();
    assert!(matches!(&e3, CExpr::MakeFields { ty, variant, .. } if ty == "Root" && variant == "C"));

    let e4 = build_literal(
        &rules,
        &root,
        &Literal::Path {
            variant: "D".to_string(),
            rest: Box::new(Literal::Unit { variant: "E".to_string() }),
        },
    )
    .unwrap();
    assert!(expr_eq(
        &e4,
        &CExpr::MakeTuple {
            ty: "Root".to_string(),
            variant: "D".to_string(),
            args: vec![CExpr::MakeUnit {
                ty: "_Root_0_anonymous".to_string(),
                variant: "E".to_string(),
            }],
        }
    ));

    let e5 = build_literal(
        &rules,
        &root,
        &Literal::Path {
            variant: "D".to_string(),
            rest: Box::new(Literal::Tuple { variant: "F".to_string(), args: vec![val("42")] }),
        },
    )
    .unwrap();
    assert!(expr_eq(
        &e5,
        &CExpr::MakeTuple {
            ty: "Root".to_string(),
            variant: "D".to_string(),
            args: vec![CExpr::MakeTuple {
                ty: "_Root_0_anonymous".to_string(),
                variant: "F".to_string(),
                args: vec![CExpr::Raw("42".to_string())],
            }],
        }
    ));

    let e6 = build_literal(
        &rules,
        &root,
        &Literal::Path {
            variant: "D".to_string(),
            rest: Box::new(Literal::Fields {
                variant: "G".to_string(),
                fields: vec![lf("a", val("\"hello\".to_string()")), lf("b", val("42"))],
                spread: None,
            }),
        },
    )
    .unwrap();
    assert!(matches!(&e6, CExpr::MakeTuple { ty, variant, args } if ty == "Root" && variant == "D" && args.len() == 1));
}

#[test]
fn multi_level_enum() {
    let level3 = uni_anon(
        vec![
            empty_variant("F"),
            tuple_variant("G", vec![slot(ext("String"))]),
        ],
        None,
    );
    let level2 = uni_anon(
        vec![tuple_variant("E", vec![slot(TypeRef::InlineUnion(Box::new(level3)))])],
        None,
    );
    let level1 = uni_anon(
        vec![tuple_variant("D", vec![slot(TypeRef::InlineUnion(Box::new(level2)))])],
        None,
    );
    let level0 = uni_anon(
        vec![tuple_variant("C", vec![slot(TypeRef::InlineUnion(Box::new(level1)))])],
        None,
    );
    let schema = uni(
        "A",
        vec![tuple_variant("B", vec![slot(TypeRef::InlineUnion(Box::new(level0)))])],
    );
    let (defs, rules) = yuuka::define_union(&schema).unwrap();
    assert_eq!(defs.len(), 5);
    assert_eq!(rec_name(&defs[0]), "_A_3_anonymous");
    assert_eq!(rec_name(&defs[1]), "_A_2_anonymous");
    assert_eq!(rec_name(&defs[2]), "_A_1_anonymous");
    assert_eq!(rec_name(&defs[3]), "_A_0_anonymous");
    assert_eq!(rec_name(&defs[4]), "A");

    // chained dispatch through the anonymous levels equals the manually
    // written constructor over the flattened path
    let lit = Literal::Path {
        variant: "B".to_string(),
        rest: Box::new(Literal::Path {
            variant: "C".to_string(),
            rest: Box::new(Literal::Path {
                variant: "D".to_string(),
                rest: Box::new(Literal::Path {
                    variant: "E".to_string(),
                    rest: Box::new(Literal::Unit { variant: "F".to_string() }),
                }),
            }),
        }),
    };
    let got = build_literal(&rules, &"A".to_string(), &lit).unwrap();
    let expected = CExpr::MakeTuple {
        ty: "A".to_string(),
        variant: "B".to_string(),
        args: vec![CExpr::MakeTuple {
            ty: "_A_0_anonymous".to_string(),
            variant: "C".to_string(),
            args: vec![CExpr::MakeTuple {
                ty: "_A_1_anonymous".to_string(),
                variant: "D".to_string(),
                args: vec![CExpr::MakeTuple {
                    ty: "_A_2_anonymous".to_string(),
                    variant: "E".to_string(),
                    args: vec![CExpr::MakeUnit {
                        ty: "_A_3_anonymous".to_string(),
                        variant: "F".to_string(),
                    }],
                }],
            }],
        }],
    };
    assert!(expr_eq(&got, &expected));

    let lit2 = Literal::Path {
        variant: "B".to_string(),
        rest: Box::new(Literal::Path {
            variant: "C".to_string(),
            rest: Box::new(Literal::Path {
                variant: "D".to_string(),
                rest: Box::new(Literal::Path {
                    variant: "E".to_string(),
                    rest: Box::new(Literal::Tuple {
                        variant: "G".to_string(),
                        args: vec![val("\"いいよ！こいよ！\".to_string()")],
                    }),
                }),
            }),
        }),
    };
    let got2 = build_literal(&rules, &"A".to_string(), &lit2).unwrap();
    assert!(matches!(&got2, CExpr::MakeTuple { ty, variant, .. } if ty == "A" && variant == "B"));
}

#[test]
fn mixed_auto() {
    let b = uni(
        "B",
        vec![fielded_variant("C", vec![fld("c", ext("i32")), fld("d", ext("f64"))])],
    );
    let outer = rec_anon(vec![fld("a", TypeRef::InlineUnion(Box::new(b)))]);
    let schema = rec("Root", vec![fld("outer", TypeRef::InlineRecord(Box::new(outer)))]);
    let (defs, rules) = define_record(&schema).unwrap();
    assert_eq!(rec_name(&defs[0]), "B");
    assert_eq!(rec_name(&defs[1]), "_Root_0_anonymous");
    assert_eq!(rec_name(&defs[2]), "Root");

    let inner = build_literal(
        &rules,
        &"B".to_string(),
        &Literal::Fields {
            variant: "C".to_string(),
            fields: vec![lf("c", val("42")), lf("d", val("std::f64::consts::PI"))],
            spread: None,
        },
    )
    .unwrap();
    assert!(matches!(&inner, CExpr::MakeFields { ty, variant, .. } if ty == "B" && variant == "C"));

    let whole = build_literal(
        &rules,
        &"Root".to_string(),
        &Literal::Record {
            fields: vec![lf(
                "outer",
                Literal::Record {
                    fields: vec![lf("a", val("B::C { c: 42, d: std::f64::consts::PI }"))],
                    spread: None,
                },
            )],
            spread: None,
        },
    )
    .unwrap();
    match &whole {
        CExpr::MakeRecord { ty, fields, .. } => {
            assert_eq!(ty, "Root");
            assert!(matches!(
                &fields[0].value,
                CExpr::MakeRecord { ty, .. } if ty == "_Root_0_anonymous"
            ));
        },
        _ => panic!("expected a record constructor"),
    }
}

#[test]
fn default_struct_auto() {
    let (defs, rules) = define_record(&basic_struct_schema()).unwrap();
    let obj = build_literal(&rules, &"Root".to_string(), &basic_struct_literal()).unwrap();
    match &obj {
        CExpr::MakeRecord { ty, fields, base } => {
            assert_eq!(ty, "Root");
            assert_eq!(fields.len(), 4);
            assert!(base.is_none());
            match &fields[3].value {
                CExpr::MakeRecord { ty, fields, base } => {
                    assert_eq!(ty, "_Root_0_anonymous");
                    assert_eq!(fields.len(), 1);
                    assert_eq!(base.as_deref(), Some("Default::default()"));
                },
                _ => panic!("expected a nested record constructor"),
            }
        },
        _ => panic!("expected a record constructor"),
    }
    assert_eq!(defs.len(), 2);
}

#[test]
fn test() {
    let schema = rec(
        "Root",
        vec![fld("a", TypeRef::InlineRecord(Box::new(rec_anon(vec![fld("b", ext("String"))]))))],
    );
    let (_defs, rules) = define_record(&schema).unwrap();
    let v = build_literal(
        &rules,
        &"Root".to_string(),
        &Literal::Record {
            fields: vec![lf(
                "a",
                Literal::Record {
                    fields: vec![lf("b", val("\"hello\".to_string()"))],
                    spread: None,
                },
            )],
            spread: None,
        },
    )
    .unwrap();
    match &v {
        CExpr::MakeRecord { fields, .. } => match &fields[0].value {
            CExpr::MakeRecord { ty, fields, .. } => {
                assert_eq!(ty, "_Root_0_anonymous");
                assert_eq!(fields[0].name, "b");
                assert!(matches!(&fields[0].value, CExpr::Raw(e) if e == "\"hello\".to_string()"));
            },
            _ => panic!("expected a nested record constructor"),
        },
        _ => panic!("expected a record constructor"),
    }
}

#[test]
fn auto_macros_basic_struct() {
    basic_struct();
}

#[test]
fn auto_macros_basic_enum() {
    basic_enum();
}
