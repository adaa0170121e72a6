use avro_schema_core::attributes::{
    AttributeEntry, AttributeSet, AttributeValue, DefaultValue, SchemaError,
};
use avro_schema_core::builder::build_schema;
use avro_schema_core::names::resolve;
use avro_schema_core::render::serialize;
use avro_schema_core::schema::{check_default, SchemaNode};
use avro_schema_core::shape::{
    ContainerKind, FieldSpec, PrimitiveKind, TypeDef, TypeGraph, TypeShape, VariantSpec,
};

fn path(segs: &[&str]) -> Vec<String> {
    segs.iter().map(|s| s.to_string()).collect()
}

fn field(name: &str, t: TypeShape) -> FieldSpec {
    FieldSpec { source_name: name.to_string(), declared_type: t, overrides: AttributeSet::none() }
}

fn record(p: &[&str], fields: Vec<FieldSpec>) -> TypeDef {
    TypeDef::Record { declared_path: path(p), overrides: AttributeSet::none(), fields }
}

fn prim(k: PrimitiveKind) -> TypeShape {
    TypeShape::Primitive(k)
}

fn optional(t: TypeShape) -> TypeShape {
    TypeShape::Container { kind: ContainerKind::Optional, element: Box::new(t) }
}

fn array(t: TypeShape) -> TypeShape {
    TypeShape::Container { kind: ContainerKind::Array, element: Box::new(t) }
}

#[test]
fn nested_record_inlines_once() {
    let graph = TypeGraph {
        defs: vec![
            record(&["demo", "Foo"], vec![field("bar", TypeShape::Named(1))]),
            record(
                &["demo", "Bar"],
                vec![field("a", prim(PrimitiveKind::Int32)), field("b", prim(PrimitiveKind::Str))],
            ),
        ],
    };
    let node = build_schema(&graph, &TypeShape::Named(0)).unwrap();
    let text = serialize(&node);
    assert_eq!(
        text,
        "{\"type\":\"record\",\"name\":\"Foo\",\"namespace\":\"demo\",\"fields\":[\
         {\"name\":\"bar\",\"type\":{\"type\":\"record\",\"name\":\"Bar\",\"namespace\":\"demo\",\
         \"fields\":[{\"name\":\"a\",\"type\":\"int\"},{\"name\":\"b\",\"type\":\"string\"}]}}]}"
    );
}

#[test]
fn serialization_is_deterministic() {
    let graph = TypeGraph {
        defs: vec![record(
            &["app", "Row"],
            vec![
                field("id", prim(PrimitiveKind::Int64)),
                field("label", optional(prim(PrimitiveKind::Str))),
            ],
        )],
    };
    let node = build_schema(&graph, &TypeShape::Named(0)).unwrap();
    let once = serialize(&node);
    let twice = serialize(&node);
    assert_eq!(once, twice);
    let rebuilt = build_schema(&graph, &TypeShape::Named(0)).unwrap();
    assert_eq!(serialize(&rebuilt), once);
}

#[test]
fn self_referential_record_terminates_with_reference() {
    let graph = TypeGraph {
        defs: vec![record(
            &["tree", "Node"],
            vec![
                field("value", prim(PrimitiveKind::Int32)),
                field("children", array(TypeShape::Named(0))),
            ],
        )],
    };
    let node = build_schema(&graph, &TypeShape::Named(0)).unwrap();
    let text = serialize(&node);
    assert_eq!(
        text,
        "{\"type\":\"record\",\"name\":\"Node\",\"namespace\":\"tree\",\"fields\":[\
         {\"name\":\"value\",\"type\":\"int\"},\
         {\"name\":\"children\",\"type\":{\"type\":\"array\",\"items\":\"tree.Node\"}}]}"
    );
    assert_eq!(text.matches("{\"type\":\"record\"").count(), 1);
}

#[test]
fn mutually_referential_records_define_each_once() {
    let graph = TypeGraph {
        defs: vec![
            record(&["m", "A"], vec![field("b", TypeShape::Named(1))]),
            record(&["m", "B"], vec![field("a", optional(TypeShape::Named(0)))]),
        ],
    };
    let from_a = serialize(&build_schema(&graph, &TypeShape::Named(0)).unwrap());
    assert_eq!(from_a.matches("{\"type\":\"record\"").count(), 2);
    assert!(from_a.contains("\"m.A\""));
    let from_b = serialize(&build_schema(&graph, &TypeShape::Named(1)).unwrap());
    assert_eq!(from_b.matches("{\"type\":\"record\"").count(), 2);
    assert!(from_b.contains("\"m.B\""));
}

#[test]
fn rename_and_namespace_overrides_take_precedence() {
    let mut type_overrides = AttributeSet::none();
    type_overrides.rename = Some("Renamed".to_string());
    type_overrides.namespace = Some("other.ns".to_string());
    let mut field_overrides = AttributeSet::none();
    field_overrides.rename = Some("renamed_field".to_string());
    let graph = TypeGraph {
        defs: vec![TypeDef::Record {
            declared_path: path(&["orig", "Name"]),
            overrides: type_overrides,
            fields: vec![FieldSpec {
                source_name: "orig_field".to_string(),
                declared_type: prim(PrimitiveKind::Boolean),
                overrides: field_overrides,
            }],
        }],
    };
    let text = serialize(&build_schema(&graph, &TypeShape::Named(0)).unwrap());
    assert_eq!(
        text,
        "{\"type\":\"record\",\"name\":\"Renamed\",\"namespace\":\"other.ns\",\"fields\":[\
         {\"name\":\"renamed_field\",\"type\":\"boolean\"}]}"
    );
}

#[test]
fn omitted_overrides_reproduce_structural_defaults() {
    let rn = resolve(&path(&["a", "b", "Widget"]), &AttributeSet::none()).unwrap();
    assert_eq!(rn.namespace, "a.b");
    assert_eq!(rn.name, "Widget");
    assert_eq!(rn.full_name(), "a.b.Widget");
    let top = resolve(&path(&["Solo"]), &AttributeSet::none()).unwrap();
    assert_eq!(top.namespace, "");
    assert_eq!(top.name, "Solo");
    assert_eq!(top.full_name(), "Solo");
}

#[test]
fn optional_string_is_null_first_union() {
    let graph = TypeGraph {
        defs: vec![record(&["u", "Opt"], vec![field("s", optional(prim(PrimitiveKind::Str)))])],
    };
    let text = serialize(&build_schema(&graph, &TypeShape::Named(0)).unwrap());
    assert_eq!(
        text,
        "{\"type\":\"record\",\"name\":\"Opt\",\"namespace\":\"u\",\"fields\":[\
         {\"name\":\"s\",\"type\":[\"null\",\"string\"]}]}"
    );
}

#[test]
fn nested_optionals_flatten_instead_of_nesting_unions() {
    let graph = TypeGraph {
        defs: vec![record(
            &["u", "OptOpt"],
            vec![field("s", optional(optional(prim(PrimitiveKind::Str))))],
        )],
    };
    let text = serialize(&build_schema(&graph, &TypeShape::Named(0)).unwrap());
    assert!(text.contains("\"type\":[\"null\",\"string\"]"));
    assert!(!text.contains("[["));
}

#[test]
fn structurally_different_duplicates_are_rejected() {
    let mut to_same_a = AttributeSet::none();
    to_same_a.rename = Some("Same".to_string());
    to_same_a.namespace = Some("n".to_string());
    let mut to_same_b = AttributeSet::none();
    to_same_b.rename = Some("Same".to_string());
    to_same_b.namespace = Some("n".to_string());
    let graph = TypeGraph {
        defs: vec![
            record(
                &["root", "R"],
                vec![field("x", TypeShape::Named(1)), field("y", TypeShape::Named(2))],
            ),
            TypeDef::Record {
                declared_path: path(&["p", "One"]),
                overrides: to_same_a,
                fields: vec![field("f", prim(PrimitiveKind::Int32))],
            },
            TypeDef::Record {
                declared_path: path(&["p", "Two"]),
                overrides: to_same_b,
                fields: vec![field("f", prim(PrimitiveKind::Str))],
            },
        ],
    };
    let err = build_schema(&graph, &TypeShape::Named(0)).unwrap_err();
    match err {
        SchemaError::DuplicateName { namespace, name } => {
            assert_eq!(namespace, "n");
            assert_eq!(name, "Same");
        },
        other => panic!("expected a duplicate-name error, got {:?}", other),
    }
}

#[test]
fn identical_structure_under_one_name_is_a_reference_not_an_error() {
    // A diamond: both fields reuse the one shared definition.
    let graph = TypeGraph {
        defs: vec![
            record(
                &["root", "R"],
                vec![field("x", TypeShape::Named(1)), field("y", TypeShape::Named(1))],
            ),
            record(&["p", "Shared"], vec![field("f", prim(PrimitiveKind::Int32))]),
        ],
    };
    let text = serialize(&build_schema(&graph, &TypeShape::Named(0)).unwrap());
    assert_eq!(text.matches("\"name\":\"Shared\"").count(), 1);
    assert!(text.contains("{\"name\":\"y\",\"type\":\"p.Shared\"}"));
    // Two distinct but structurally identical definitions under one name.
    let graph2 = TypeGraph {
        defs: vec![
            record(
                &["root", "R"],
                vec![field("x", TypeShape::Named(1)), field("y", TypeShape::Named(2))],
            ),
            record(&["p", "Twin"], vec![field("f", prim(PrimitiveKind::Int32))]),
            record(&["p", "Twin"], vec![field("f", prim(PrimitiveKind::Int32))]),
        ],
    };
    let text2 = serialize(&build_schema(&graph2, &TypeShape::Named(0)).unwrap());
    assert_eq!(text2.matches("\"name\":\"Twin\"").count(), 1);
    assert!(text2.contains("{\"name\":\"y\",\"type\":\"p.Twin\"}"));
    // Distinct declaration sites renamed onto one key, identical fields:
    // the declaration path does not make them collide.
    let mut onto_k_a = AttributeSet::none();
    onto_k_a.rename = Some("K".to_string());
    onto_k_a.namespace = Some("n".to_string());
    let mut onto_k_b = AttributeSet::none();
    onto_k_b.rename = Some("K".to_string());
    onto_k_b.namespace = Some("n".to_string());
    let graph3 = TypeGraph {
        defs: vec![
            record(
                &["root", "R"],
                vec![field("x", TypeShape::Named(1)), field("y", TypeShape::Named(2))],
            ),
            TypeDef::Record {
                declared_path: path(&["p", "One"]),
                overrides: onto_k_a,
                fields: vec![field("f", prim(PrimitiveKind::Int32))],
            },
            TypeDef::Record {
                declared_path: path(&["q", "Two"]),
                overrides: onto_k_b,
                fields: vec![field("f", prim(PrimitiveKind::Int32))],
            },
        ],
    };
    let text3 = serialize(&build_schema(&graph3, &TypeShape::Named(0)).unwrap());
    assert_eq!(text3.matches("\"name\":\"K\"").count(), 1);
    assert!(text3.contains("{\"name\":\"y\",\"type\":\"n.K\"}"));
}

#[test]
fn skipped_field_is_absent_and_siblings_keep_their_order() {
    let mut skip = AttributeSet::none();
    skip.skip = true;
    let graph = TypeGraph {
        defs: vec![TypeDef::Record {
            declared_path: path(&["s", "Rec"]),
            overrides: AttributeSet::none(),
            fields: vec![
                field("a", prim(PrimitiveKind::Int32)),
                FieldSpec {
                    source_name: "b".to_string(),
                    declared_type: prim(PrimitiveKind::Str),
                    overrides: skip,
                },
                field("c", prim(PrimitiveKind::Boolean)),
            ],
        }],
    };
    let text = serialize(&build_schema(&graph, &TypeShape::Named(0)).unwrap());
    assert_eq!(
        text,
        "{\"type\":\"record\",\"name\":\"Rec\",\"namespace\":\"s\",\"fields\":[\
         {\"name\":\"a\",\"type\":\"int\"},{\"name\":\"c\",\"type\":\"boolean\"}]}"
    );
}

#[test]
fn enum_symbols_render_in_order() {
    let mut renamed = AttributeSet::none();
    renamed.rename = Some("BLUE".to_string());
    let graph = TypeGraph {
        defs: vec![TypeDef::Enum {
            declared_path: path(&["c", "Color"]),
            overrides: AttributeSet::none(),
            variants: vec![
                VariantSpec { source_name: "Red".to_string(), overrides: AttributeSet::none() },
                VariantSpec { source_name: "Green".to_string(), overrides: AttributeSet::none() },
                VariantSpec { source_name: "Azure".to_string(), overrides: renamed },
            ],
        }],
    };
    let text = serialize(&build_schema(&graph, &TypeShape::Named(0)).unwrap());
    assert_eq!(
        text,
        "{\"type\":\"enum\",\"name\":\"Color\",\"namespace\":\"c\",\
         \"symbols\":[\"Red\",\"Green\",\"BLUE\"]}"
    );
}

#[test]
fn invalid_resolved_name_is_a_naming_error() {
    let mut bad = AttributeSet::none();
    bad.rename = Some("9bad".to_string());
    let graph = TypeGraph {
        defs: vec![TypeDef::Record {
            declared_path: path(&["x", "Ok"]),
            overrides: bad,
            fields: vec![],
        }],
    };
    match build_schema(&graph, &TypeShape::Named(0)).unwrap_err() {
        SchemaError::Naming { name } => assert_eq!(name, "9bad"),
        other => panic!("expected a naming error, got {:?}", other),
    }
}

#[test]
fn empty_resolved_name_is_a_naming_error() {
    let graph = TypeGraph {
        defs: vec![record(&[], vec![])],
    };
    assert!(matches!(
        build_schema(&graph, &TypeShape::Named(0)),
        Err(SchemaError::Naming { .. })
    ));
}

#[test]
fn dangling_reference_is_unsupported() {
    let graph = TypeGraph { defs: vec![] };
    match build_schema(&graph, &TypeShape::Named(5)).unwrap_err() {
        SchemaError::UnsupportedType { index } => assert_eq!(index, 5),
        other => panic!("expected an unsupported-type error, got {:?}", other),
    }
}

#[test]
fn mismatched_default_is_rejected() {
    let mut with_default = AttributeSet::none();
    with_default.default = Some(DefaultValue::Text("oops".to_string()));
    let graph = TypeGraph {
        defs: vec![TypeDef::Record {
            declared_path: path(&["d", "Rec"]),
            overrides: AttributeSet::none(),
            fields: vec![FieldSpec {
                source_name: "n".to_string(),
                declared_type: prim(PrimitiveKind::Int32),
                overrides: with_default,
            }],
        }],
    };
    match build_schema(&graph, &TypeShape::Named(0)).unwrap_err() {
        SchemaError::InvalidDefault { field } => assert_eq!(field, "n"),
        other => panic!("expected an invalid-default error, got {:?}", other),
    }
}

#[test]
fn defaults_doc_and_aliases_render() {
    let mut with_default = AttributeSet::none();
    with_default.default = Some(DefaultValue::Integer(-42));
    with_default.doc = Some("count of \"things\"\n".to_string());
    with_default.aliases = vec!["old_n".to_string()];
    let mut opt_default = AttributeSet::none();
    opt_default.default = Some(DefaultValue::Null);
    let graph = TypeGraph {
        defs: vec![TypeDef::Record {
            declared_path: path(&["d", "Rec"]),
            overrides: AttributeSet::none(),
            fields: vec![
                FieldSpec {
                    source_name: "n".to_string(),
                    declared_type: prim(PrimitiveKind::Int64),
                    overrides: with_default,
                },
                FieldSpec {
                    source_name: "s".to_string(),
                    declared_type: optional(prim(PrimitiveKind::Str)),
                    overrides: opt_default,
                },
            ],
        }],
    };
    let text = serialize(&build_schema(&graph, &TypeShape::Named(0)).unwrap());
    assert_eq!(
        text,
        "{\"type\":\"record\",\"name\":\"Rec\",\"namespace\":\"d\",\"fields\":[\
         {\"name\":\"n\",\"type\":\"long\",\"doc\":\"count of \\\"things\\\"\\n\",\
         \"default\":-42,\"aliases\":[\"old_n\"]},\
         {\"name\":\"s\",\"type\":[\"null\",\"string\"],\"default\":null}]}"
    );
}

#[test]
fn map_of_primitive_renders_values() {
    let graph = TypeGraph {
        defs: vec![record(
            &["m", "Counts"],
            vec![field(
                "by_key",
                TypeShape::Container {
                    kind: ContainerKind::Mapping,
                    element: Box::new(prim(PrimitiveKind::Int64)),
                },
            )],
        )],
    };
    let text = serialize(&build_schema(&graph, &TypeShape::Named(0)).unwrap());
    assert!(text.contains("{\"name\":\"by_key\",\"type\":{\"type\":\"map\",\"values\":\"long\"}}"));
}

#[test]
fn primitives_render_as_bare_names() {
    let graph = TypeGraph { defs: vec![] };
    let cases = [
        (PrimitiveKind::Null, "\"null\""),
        (PrimitiveKind::Boolean, "\"boolean\""),
        (PrimitiveKind::Int32, "\"int\""),
        (PrimitiveKind::Int64, "\"long\""),
        (PrimitiveKind::Float32, "\"float\""),
        (PrimitiveKind::Float64, "\"double\""),
        (PrimitiveKind::Bytes, "\"bytes\""),
        (PrimitiveKind::Str, "\"string\""),
    ];
    for (kind, expected) in cases {
        let node = build_schema(&graph, &prim(kind)).unwrap();
        assert_eq!(serialize(&node), expected);
    }
}

#[test]
fn unknown_attribute_key_is_an_error() {
    let entries = vec![
        AttributeEntry {
            key: "rename".to_string(),
            value: AttributeValue::Text("Good".to_string()),
        },
        AttributeEntry { key: "colour".to_string(), value: AttributeValue::Flag(true) },
    ];
    match avro_schema_core::attributes::apply_entries(AttributeSet::none(), &entries).unwrap_err()
    {
        SchemaError::UnknownAttribute { key } => assert_eq!(key, "colour"),
        other => panic!("expected an unknown-attribute error, got {:?}", other),
    }
}

#[test]
fn wrongly_typed_attribute_value_is_an_error() {
    let entries = vec![AttributeEntry {
        key: "skip".to_string(),
        value: AttributeValue::Text("yes".to_string()),
    }];
    assert!(matches!(
        avro_schema_core::attributes::apply_entries(AttributeSet::none(), &entries),
        Err(SchemaError::UnknownAttribute { .. })
    ));
}

#[test]
fn recognised_attribute_entries_apply_in_order() {
    let entries = vec![
        AttributeEntry {
            key: "rename".to_string(),
            value: AttributeValue::Text("First".to_string()),
        },
        AttributeEntry {
            key: "namespace".to_string(),
            value: AttributeValue::Text("ns.x".to_string()),
        },
        AttributeEntry { key: "skip".to_string(), value: AttributeValue::Flag(true) },
        AttributeEntry {
            key: "rename".to_string(),
            value: AttributeValue::Text("Second".to_string()),
        },
        AttributeEntry {
            key: "aliases".to_string(),
            value: AttributeValue::TextList(vec!["other".to_string()]),
        },
        AttributeEntry {
            key: "default".to_string(),
            value: AttributeValue::Literal(DefaultValue::Boolean(false)),
        },
        AttributeEntry {
            key: "doc".to_string(),
            value: AttributeValue::Text("described".to_string()),
        },
    ];
    let a = avro_schema_core::attributes::apply_entries(AttributeSet::none(), &entries).unwrap();
    assert_eq!(a.rename.as_deref(), Some("Second"));
    assert_eq!(a.namespace.as_deref(), Some("ns.x"));
    assert!(a.skip);
    assert_eq!(a.aliases, vec!["other".to_string()]);
    assert!(matches!(a.default, Some(DefaultValue::Boolean(false))));
    assert_eq!(a.doc.as_deref(), Some("described"));
}

#[test]
fn independent_builds_do_not_suppress_each_other() {
    // The seen set is scoped to one document: a second synthesis of the
    // same type inlines the full definition again.
    let graph = TypeGraph {
        defs: vec![record(&["i", "Solo"], vec![field("v", prim(PrimitiveKind::Int32))])],
    };
    let first = serialize(&build_schema(&graph, &TypeShape::Named(0)).unwrap());
    let second = serialize(&build_schema(&graph, &TypeShape::Named(0)).unwrap());
    assert_eq!(first, second);
    assert!(first.contains("\"type\":\"record\""));
}

#[test]
fn invalid_field_name_is_a_naming_error() {
    let mut bad = AttributeSet::none();
    bad.rename = Some("not a name".to_string());
    let graph = TypeGraph {
        defs: vec![TypeDef::Record {
            declared_path: path(&["x", "Rec"]),
            overrides: AttributeSet::none(),
            fields: vec![FieldSpec {
                source_name: "ok_field".to_string(),
                declared_type: prim(PrimitiveKind::Int32),
                overrides: bad,
            }],
        }],
    };
    match build_schema(&graph, &TypeShape::Named(0)).unwrap_err() {
        SchemaError::Naming { name } => assert_eq!(name, "not a name"),
        other => panic!("expected a naming error, got {:?}", other),
    }
}

#[test]
fn invalid_enum_symbol_is_a_naming_error() {
    let graph = TypeGraph {
        defs: vec![TypeDef::Enum {
            declared_path: path(&["x", "Colour"]),
            overrides: AttributeSet::none(),
            variants: vec![VariantSpec {
                source_name: "1st".to_string(),
                overrides: AttributeSet::none(),
            }],
        }],
    };
    match build_schema(&graph, &TypeShape::Named(0)).unwrap_err() {
        SchemaError::Naming { name } => assert_eq!(name, "1st"),
        other => panic!("expected a naming error, got {:?}", other),
    }
}

#[test]
fn skipped_field_defects_do_not_fail_the_build() {
    // A skipped field is absent from the schema, so neither its name
    // nor its dangling type can fail the synthesis.
    let mut skip = AttributeSet::none();
    skip.skip = true;
    skip.rename = Some("not a name".to_string());
    let graph = TypeGraph {
        defs: vec![TypeDef::Record {
            declared_path: path(&["s", "Rec"]),
            overrides: AttributeSet::none(),
            fields: vec![
                field("a", prim(PrimitiveKind::Int32)),
                FieldSpec {
                    source_name: "b".to_string(),
                    declared_type: TypeShape::Named(7),
                    overrides: skip,
                },
            ],
        }],
    };
    let text = serialize(&build_schema(&graph, &TypeShape::Named(0)).unwrap());
    assert_eq!(
        text,
        "{\"type\":\"record\",\"name\":\"Rec\",\"namespace\":\"s\",\"fields\":[\
         {\"name\":\"a\",\"type\":\"int\"}]}"
    );
}

#[test]
fn default_literal_check_against_a_node() {
    assert!(check_default(&SchemaNode::Long, &DefaultValue::Integer(7)));
    assert!(!check_default(&SchemaNode::Int, &DefaultValue::Integer(1 << 40)));
    assert!(!check_default(&SchemaNode::Str, &DefaultValue::Boolean(true)));
}
