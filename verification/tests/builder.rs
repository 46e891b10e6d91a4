use configurator::builder::schema_object_to_node;
use configurator::error::BuildError;
use configurator::literal::{Literal, NumberLiteral};
use configurator::node::{
    Node, NodeArray, NodeArrayTemplate, NodeContainer, NodeEnum, NodeObject, NodeValue, NumberKind,
};
use configurator::reference::{definition_name, lookup_definition, resolve_reference};
use configurator::schema::{
    ArrayValidation, InstanceType, InstanceTypes, Items, Metadata, ObjectCow, ObjectValidation,
    RootSchema, Schema, SchemaObject, SubschemaValidation, ToSchemaObject,
};

fn plain(node: Node) -> NodeContainer {
    NodeContainer::from_node(node)
}

fn typed(instance_type: InstanceType) -> SchemaObject {
    SchemaObject {
        instance_type: Some(InstanceTypes::Single(instance_type)),
        ..SchemaObject::default()
    }
}

fn schema(instance_type: InstanceType) -> Schema {
    Schema::Object(typed(instance_type))
}

fn number(n: u64) -> Literal {
    Literal::Number(NumberLiteral::Unsigned(n))
}

fn value(n: u64) -> NodeContainer {
    plain(Node::Value(NodeValue { value: number(n) }))
}

fn reference(name: &str) -> SchemaObject {
    SchemaObject { reference: Some(format!("#/definitions/{name}")), ..SchemaObject::default() }
}

fn subschemas() -> SubschemaValidation {
    SubschemaValidation { all_of: None, any_of: None, one_of: None, not: None }
}

fn build(object: &SchemaObject) -> Result<NodeContainer, BuildError> {
    schema_object_to_node("root", &Vec::new(), object)
}

fn any_array() -> Node {
    Node::Array(NodeArray {
        template: NodeArrayTemplate::All(Box::new(plain(Node::Any))),
        min: None,
        max: None,
    })
}

#[test]
fn type_string_gives_a_bare_string() {
    assert_eq!(build(&typed(InstanceType::String)), Ok(plain(Node::String)));
}

#[test]
fn each_type_name_gives_its_node() {
    assert_eq!(build(&typed(InstanceType::Null)), Ok(plain(Node::Null)));
    assert_eq!(build(&typed(InstanceType::Boolean)), Ok(plain(Node::Bool)));
    assert_eq!(
        build(&typed(InstanceType::Object)),
        Ok(plain(Node::Object(NodeObject { nodes: Vec::new(), additional: None })))
    );
    assert_eq!(build(&typed(InstanceType::Array)), Ok(plain(any_array())));
    assert_eq!(build(&typed(InstanceType::Number)), Ok(plain(Node::Number(NumberKind::F64))));
    assert_eq!(build(&typed(InstanceType::Integer)), Ok(plain(Node::Number(NumberKind::I128))));
}

#[test]
fn format_selects_the_numeric_subkind() {
    let with = |instance_type, format: &str| SchemaObject {
        format: Some(format.to_string()),
        ..typed(instance_type)
    };
    assert_eq!(
        build(&with(InstanceType::Integer, "uint32")),
        Ok(plain(Node::Number(NumberKind::U64)))
    );
    assert_eq!(
        build(&with(InstanceType::Integer, "int64")),
        Ok(plain(Node::Number(NumberKind::I64)))
    );
    assert_eq!(
        build(&with(InstanceType::Number, "double")),
        Ok(plain(Node::Number(NumberKind::F64)))
    );
    assert_eq!(
        build(&with(InstanceType::Number, "int8")),
        Ok(plain(Node::Number(NumberKind::I64)))
    );
    assert_eq!(
        build(&with(InstanceType::Integer, "date-time")),
        Ok(plain(Node::Number(NumberKind::I128)))
    );
    assert_eq!(
        build(&with(InstanceType::Number, "date-time")),
        Ok(plain(Node::Number(NumberKind::F64)))
    );
    assert_eq!(build(&with(InstanceType::String, "uint8")), Ok(plain(Node::String)));
}

#[test]
fn kind_from_str_knows_the_format_names() {
    for name in ["uint8", "uint16", "uint32", "uint64", "uint"] {
        assert_eq!(NumberKind::kind_from_str(name), Some(NumberKind::U64));
    }
    for name in ["int8", "int16", "int32", "int64", "int"] {
        assert_eq!(NumberKind::kind_from_str(name), Some(NumberKind::I64));
    }
    assert_eq!(NumberKind::kind_from_str("int128"), Some(NumberKind::I128));
    assert_eq!(NumberKind::kind_from_str("float"), Some(NumberKind::F64));
    assert_eq!(NumberKind::kind_from_str("double"), Some(NumberKind::F64));
    for name in ["", "uint128", "Uint8", "uint8 ", "int1", "string"] {
        assert_eq!(NumberKind::kind_from_str(name), None);
    }
}

#[test]
fn list_of_type_names_gives_an_enum() {
    let object = SchemaObject {
        instance_type: Some(InstanceTypes::Vec(vec![InstanceType::String, InstanceType::Null])),
        ..SchemaObject::default()
    };
    assert_eq!(
        build(&object),
        Ok(plain(Node::Enum(NodeEnum { nodes: vec![plain(Node::String), plain(Node::Null)] })))
    );
}

#[test]
fn list_of_one_type_name_gives_an_enum_of_one() {
    let object = SchemaObject {
        instance_type: Some(InstanceTypes::Vec(vec![InstanceType::Integer])),
        format: Some("uint8".to_string()),
        ..SchemaObject::default()
    };
    assert_eq!(
        build(&object),
        Ok(plain(Node::Enum(NodeEnum { nodes: vec![plain(Node::Number(NumberKind::U64))] })))
    );
}

#[test]
fn enum_of_one_literal_gives_the_literal() {
    let object = SchemaObject { enum_values: Some(vec![number(1)]), ..SchemaObject::default() };
    assert_eq!(build(&object), Ok(value(1)));
}

#[test]
fn enum_of_three_literals_gives_three_alternatives_in_order() {
    let object = SchemaObject {
        enum_values: Some(vec![number(1), number(2), number(3)]),
        ..SchemaObject::default()
    };
    assert_eq!(
        build(&object),
        Ok(plain(Node::Enum(NodeEnum { nodes: vec![value(1), value(2), value(3)] })))
    );
}

#[test]
fn enum_of_no_literal_gives_an_empty_enum() {
    let object = SchemaObject { enum_values: Some(Vec::new()), ..SchemaObject::default() };
    assert_eq!(build(&object), Ok(plain(Node::Enum(NodeEnum { nodes: Vec::new() }))));
}

#[test]
fn type_and_single_literal_give_the_literal() {
    let object = SchemaObject {
        enum_values: Some(vec![Literal::String("on".to_string())]),
        ..typed(InstanceType::String)
    };
    assert_eq!(
        build(&object),
        Ok(plain(Node::Value(NodeValue { value: Literal::String("on".to_string()) })))
    );
}

#[test]
fn properties_take_precedence_over_additional_properties() {
    let object = SchemaObject {
        object: Some(ObjectValidation {
            properties: vec![("a".to_string(), schema(InstanceType::Boolean))],
            additional_properties: Some(Box::new(schema(InstanceType::String))),
        }),
        ..typed(InstanceType::Object)
    };
    assert_eq!(
        build(&object),
        Ok(plain(Node::Object(NodeObject {
            nodes: vec![("a".to_string(), plain(Node::Bool))],
            additional: None,
        })))
    );
}

#[test]
fn object_with_one_property_and_no_additional_properties() {
    let object = SchemaObject {
        object: Some(ObjectValidation {
            properties: vec![("a".to_string(), schema(InstanceType::Boolean))],
            additional_properties: None,
        }),
        ..typed(InstanceType::Object)
    };
    assert_eq!(
        build(&object),
        Ok(plain(Node::Object(NodeObject {
            nodes: vec![("a".to_string(), plain(Node::Bool))],
            additional: None,
        })))
    );
}

#[test]
fn additional_properties_are_read_where_no_property_is_declared() {
    let object = SchemaObject {
        object: Some(ObjectValidation {
            properties: Vec::new(),
            additional_properties: Some(Box::new(schema(InstanceType::String))),
        }),
        ..SchemaObject::default()
    };
    assert_eq!(
        build(&object),
        Ok(plain(Node::Object(NodeObject {
            nodes: Vec::new(),
            additional: Some(Box::new(plain(Node::String))),
        })))
    );
}

#[test]
fn properties_keep_the_order_of_their_declaration() {
    let object = SchemaObject {
        object: Some(ObjectValidation {
            properties: vec![
                ("z".to_string(), schema(InstanceType::Boolean)),
                ("a".to_string(), schema(InstanceType::String)),
                ("m".to_string(), Schema::Bool(true)),
            ],
            additional_properties: None,
        }),
        ..SchemaObject::default()
    };
    assert_eq!(
        build(&object),
        Ok(plain(Node::Object(NodeObject {
            nodes: vec![
                ("z".to_string(), plain(Node::Bool)),
                ("a".to_string(), plain(Node::String)),
                ("m".to_string(), plain(Node::Any)),
            ],
            additional: None,
        })))
    );
}

#[test]
fn property_declared_twice_keeps_its_first_place() {
    let object = SchemaObject {
        object: Some(ObjectValidation {
            properties: vec![
                ("a".to_string(), schema(InstanceType::Boolean)),
                ("b".to_string(), schema(InstanceType::String)),
                ("a".to_string(), schema(InstanceType::Null)),
            ],
            additional_properties: None,
        }),
        ..SchemaObject::default()
    };
    assert_eq!(
        build(&object),
        Ok(plain(Node::Object(NodeObject {
            nodes: vec![
                ("a".to_string(), plain(Node::Null)),
                ("b".to_string(), plain(Node::String)),
            ],
            additional: None,
        })))
    );
}

#[test]
fn array_of_numbers_with_a_minimum_length() {
    let object = SchemaObject {
        array: Some(ArrayValidation {
            items: Some(Items::Single(Box::new(schema(InstanceType::Number)))),
            min_items: Some(1),
            max_items: None,
        }),
        ..typed(InstanceType::Array)
    };
    assert_eq!(
        build(&object),
        Ok(plain(Node::Array(NodeArray {
            template: NodeArrayTemplate::All(Box::new(plain(Node::Number(NumberKind::F64)))),
            min: Some(1),
            max: None,
        })))
    );
}

#[test]
fn array_with_one_schema_per_position() {
    let object = SchemaObject {
        array: Some(ArrayValidation {
            items: Some(Items::Vec(vec![
                schema(InstanceType::String),
                schema(InstanceType::Integer),
            ])),
            min_items: Some(2),
            max_items: Some(2),
        }),
        ..SchemaObject::default()
    };
    assert_eq!(
        build(&object),
        Ok(plain(Node::Array(NodeArray {
            template: NodeArrayTemplate::FirstN(vec![
                plain(Node::String),
                plain(Node::Number(NumberKind::I128)),
            ]),
            min: Some(2),
            max: Some(2),
        })))
    );
}

#[test]
fn array_without_items_matches_any_element() {
    let object = SchemaObject {
        array: Some(ArrayValidation { items: None, min_items: None, max_items: Some(4) }),
        ..SchemaObject::default()
    };
    assert_eq!(
        build(&object),
        Ok(plain(Node::Array(NodeArray {
            template: NodeArrayTemplate::All(Box::new(plain(Node::Any))),
            min: None,
            max: Some(4),
        })))
    );
}

#[test]
fn all_of_with_one_branch_is_that_branch() {
    let object = SchemaObject {
        subschemas: Some(SubschemaValidation {
            all_of: Some(vec![schema(InstanceType::String)]),
            ..subschemas()
        }),
        ..SchemaObject::default()
    };
    assert_eq!(build(&object), Ok(plain(Node::String)));
}

#[test]
fn all_of_with_two_branches_is_unsupported() {
    let object = SchemaObject {
        subschemas: Some(SubschemaValidation {
            all_of: Some(vec![schema(InstanceType::String), schema(InstanceType::String)]),
            ..subschemas()
        }),
        ..SchemaObject::default()
    };
    assert_eq!(
        build(&object),
        Err(BuildError::UnsupportedComposition { from: "root".to_string() })
    );
}

#[test]
fn all_of_without_a_branch_is_unsupported() {
    let object = SchemaObject {
        subschemas: Some(SubschemaValidation { all_of: Some(Vec::new()), ..subschemas() }),
        ..SchemaObject::default()
    };
    assert_eq!(
        build(&object),
        Err(BuildError::UnsupportedComposition { from: "root".to_string() })
    );
}

#[test]
fn all_of_reports_a_failing_branch_before_its_own_count() {
    let object = SchemaObject {
        subschemas: Some(SubschemaValidation {
            all_of: Some(vec![Schema::Object(reference("Missing")), schema(InstanceType::String)]),
            ..subschemas()
        }),
        ..SchemaObject::default()
    };
    assert_eq!(
        build(&object),
        Err(BuildError::UnresolvedReference {
            from: "all_of".to_string(),
            name: "Missing".to_string()
        })
    );
}

#[test]
fn one_of_and_any_of_give_an_enum_of_their_branches() {
    let branches = || vec![schema(InstanceType::String), schema(InstanceType::Null)];
    let expected =
        plain(Node::Enum(NodeEnum { nodes: vec![plain(Node::String), plain(Node::Null)] }));
    let one_of = SchemaObject {
        subschemas: Some(SubschemaValidation { one_of: Some(branches()), ..subschemas() }),
        ..SchemaObject::default()
    };
    assert_eq!(build(&one_of), Ok(expected.clone()));
    let any_of = SchemaObject {
        subschemas: Some(SubschemaValidation { any_of: Some(branches()), ..subschemas() }),
        ..SchemaObject::default()
    };
    assert_eq!(build(&any_of), Ok(expected));
}

#[test]
fn one_of_and_any_of_together_are_unsupported() {
    let branches = || vec![schema(InstanceType::String), schema(InstanceType::Null)];
    let object = SchemaObject {
        subschemas: Some(SubschemaValidation {
            one_of: Some(branches()),
            any_of: Some(branches()),
            ..subschemas()
        }),
        ..SchemaObject::default()
    };
    assert_eq!(
        build(&object),
        Err(BuildError::UnsupportedComposition { from: "root".to_string() })
    );
}

#[test]
fn type_is_merged_into_the_first_branch_that_takes_it() {
    let object = SchemaObject {
        subschemas: Some(SubschemaValidation {
            one_of: Some(vec![schema(InstanceType::Null), schema(InstanceType::Integer)]),
            ..subschemas()
        }),
        format: Some("uint8".to_string()),
        ..typed(InstanceType::Integer)
    };
    // The alternative is the left operand of the inner merge, so the typed
    // fragment of this schema, with its format, replaces the branch.
    assert_eq!(
        build(&object),
        Ok(plain(Node::Enum(NodeEnum {
            nodes: vec![plain(Node::Null), plain(Node::Number(NumberKind::U64))]
        })))
    );
}

#[test]
fn boolean_schemas_match_anything() {
    let object = SchemaObject {
        array: Some(ArrayValidation {
            items: Some(Items::Vec(vec![Schema::Bool(true), Schema::Bool(false)])),
            min_items: None,
            max_items: None,
        }),
        ..SchemaObject::default()
    };
    assert_eq!(
        build(&object),
        Ok(plain(Node::Array(NodeArray {
            template: NodeArrayTemplate::FirstN(vec![plain(Node::Any), plain(Node::Any)]),
            min: None,
            max: None,
        })))
    );
}

#[test]
fn empty_fragment_matches_anything() {
    assert_eq!(build(&SchemaObject::default()), Ok(plain(Node::Any)));
}

#[test]
fn to_object_borrows_a_fragment_and_makes_one_for_a_boolean() {
    let fragment = schema(InstanceType::String);
    match fragment.to_object() {
        ObjectCow::Borrowed(object) => assert_eq!(*object, typed(InstanceType::String)),
        ObjectCow::Owned(_) => panic!("a fragment is borrowed"),
    }
    assert_eq!(*fragment.to_object().get(), typed(InstanceType::String));
    assert_eq!(Schema::Bool(true).to_object(), ObjectCow::Owned(SchemaObject::default()));
    let never = SchemaObject {
        subschemas: Some(SubschemaValidation {
            not: Some(Box::new(Schema::Object(SchemaObject::default()))),
            ..subschemas()
        }),
        ..SchemaObject::default()
    };
    assert_eq!(Schema::Bool(false).to_object(), ObjectCow::Owned(never));
}

#[test]
fn default_fragment_has_no_keyword() {
    let object = SchemaObject::default();
    assert_eq!(object.metadata, None);
    assert_eq!(object.instance_type, None);
    assert_eq!(object.format, None);
    assert_eq!(object.enum_values, None);
    assert_eq!(object.subschemas, None);
    assert_eq!(object.array, None);
    assert_eq!(object.object, None);
    assert_eq!(object.reference, None);
}

#[test]
fn reference_gives_the_tree_of_its_definition() {
    let definitions = vec![("Count".to_string(), schema(InstanceType::Integer))];
    let direct = schema_object_to_node("root", &definitions, &typed(InstanceType::Integer));
    let through = schema_object_to_node("root", &definitions, &reference("Count"));
    assert_eq!(direct, Ok(plain(Node::Number(NumberKind::I128))));
    assert_eq!(through, direct);
}

#[test]
fn reference_keeps_the_metadata_of_its_definition() {
    let described = SchemaObject {
        metadata: Some(Metadata { title: Some("Count".to_string()), description: None }),
        ..typed(InstanceType::Integer)
    };
    let definitions = vec![("Count".to_string(), Schema::Object(described))];
    assert_eq!(
        schema_object_to_node("root", &definitions, &reference("Count")),
        Ok(NodeContainer {
            node: Node::Number(NumberKind::I128),
            title: Some("Count".to_string()),
            desc: None,
        })
    );
}

#[test]
fn reference_takes_the_first_definition_of_a_name() {
    let definitions = vec![
        ("Other".to_string(), schema(InstanceType::Null)),
        ("Count".to_string(), schema(InstanceType::Integer)),
        ("Count".to_string(), schema(InstanceType::String)),
    ];
    assert_eq!(
        schema_object_to_node("root", &definitions, &reference("Count")),
        Ok(plain(Node::Number(NumberKind::I128)))
    );
    assert_eq!(lookup_definition("Count", &definitions), Some(1));
    assert_eq!(lookup_definition("Other", &definitions), Some(0));
    assert_eq!(lookup_definition("count", &definitions), None);
    assert_eq!(lookup_definition("", &definitions), None);
}

#[test]
fn reference_through_a_chain_of_definitions() {
    let definitions = vec![
        ("A".to_string(), Schema::Object(reference("B"))),
        ("B".to_string(), Schema::Object(reference("C"))),
        ("C".to_string(), schema(InstanceType::Boolean)),
    ];
    assert_eq!(schema_object_to_node("root", &definitions, &reference("A")), Ok(plain(Node::Bool)));
}

#[test]
fn definition_used_twice_is_no_cycle() {
    let definitions = vec![("Flag".to_string(), schema(InstanceType::Boolean))];
    let object = SchemaObject {
        object: Some(ObjectValidation {
            properties: vec![
                ("a".to_string(), Schema::Object(reference("Flag"))),
                ("b".to_string(), Schema::Object(reference("Flag"))),
            ],
            additional_properties: None,
        }),
        ..SchemaObject::default()
    };
    assert_eq!(
        schema_object_to_node("root", &definitions, &object),
        Ok(plain(Node::Object(NodeObject {
            nodes: vec![
                ("a".to_string(), plain(Node::Bool)),
                ("b".to_string(), plain(Node::Bool)),
            ],
            additional: None,
        })))
    );
}

#[test]
fn unresolved_reference_names_what_is_missing() {
    let definitions = vec![("Count".to_string(), schema(InstanceType::Integer))];
    assert_eq!(
        schema_object_to_node("root", &definitions, &reference("Missing")),
        Err(BuildError::UnresolvedReference {
            from: "root".to_string(),
            name: "Missing".to_string()
        })
    );
}

#[test]
fn unresolved_reference_in_a_property_is_reported_from_there() {
    let object = SchemaObject {
        object: Some(ObjectValidation {
            properties: vec![("a".to_string(), Schema::Object(reference("Missing")))],
            additional_properties: None,
        }),
        ..SchemaObject::default()
    };
    assert_eq!(
        build(&object),
        Err(BuildError::UnresolvedReference {
            from: "object".to_string(),
            name: "Missing".to_string()
        })
    );
}

#[test]
fn self_reference_is_a_cycle() {
    let definitions = vec![("Loop".to_string(), Schema::Object(reference("Loop")))];
    assert_eq!(
        schema_object_to_node("root", &definitions, &reference("Loop")),
        Err(BuildError::CyclicReference {
            from: "definition".to_string(),
            name: "Loop".to_string()
        })
    );
}

#[test]
fn mutual_reference_is_a_cycle() {
    let list = SchemaObject {
        array: Some(ArrayValidation {
            items: Some(Items::Single(Box::new(Schema::Object(reference("B"))))),
            min_items: None,
            max_items: None,
        }),
        ..SchemaObject::default()
    };
    let definitions = vec![
        ("A".to_string(), Schema::Object(list)),
        ("B".to_string(), Schema::Object(reference("A"))),
    ];
    assert_eq!(
        schema_object_to_node("root", &definitions, &reference("A")),
        Err(BuildError::CyclicReference { from: "definition".to_string(), name: "A".to_string() })
    );
}

#[test]
fn reference_of_another_form_is_not_read() {
    let object = SchemaObject {
        reference: Some("#/$defs/Count".to_string()),
        ..typed(InstanceType::String)
    };
    assert_eq!(build(&object), Ok(plain(Node::String)));
    let short = SchemaObject { reference: Some("#/def".to_string()), ..SchemaObject::default() };
    assert_eq!(build(&short), Ok(plain(Node::Any)));
}

#[test]
fn definition_name_strips_the_prefix() {
    assert_eq!(definition_name("#/definitions/Count"), Some("Count"));
    assert_eq!(definition_name("#/definitions/"), Some(""));
    assert_eq!(definition_name("#/definitions/a/b"), Some("a/b"));
    assert_eq!(definition_name("#/definitions/\u{e9}t\u{e9}"), Some("\u{e9}t\u{e9}"));
    assert_eq!(definition_name("#/definitions"), None);
    assert_eq!(definition_name("#/Definitions/Count"), None);
    assert_eq!(definition_name("x#/definitions/Count"), None);
    assert_eq!(definition_name(""), None);
    assert_eq!(definition_name("\u{e9}\u{e9}\u{e9}\u{e9}\u{e9}\u{e9}\u{e9}\u{e9}"), None);
}

#[test]
fn conflicting_keywords_fail_the_build() {
    let object = SchemaObject {
        array: Some(ArrayValidation { items: None, min_items: None, max_items: None }),
        ..typed(InstanceType::String)
    };
    assert_eq!(build(&object), Err(BuildError::MergeConflict { from: "root".to_string() }));
}

#[test]
fn conflict_in_a_branch_fails_the_whole_build() {
    let bad = SchemaObject {
        array: Some(ArrayValidation { items: None, min_items: None, max_items: None }),
        ..typed(InstanceType::String)
    };
    let object = SchemaObject {
        object: Some(ObjectValidation {
            properties: vec![
                ("good".to_string(), schema(InstanceType::Boolean)),
                ("bad".to_string(), Schema::Object(bad)),
            ],
            additional_properties: None,
        }),
        ..SchemaObject::default()
    };
    assert_eq!(build(&object), Err(BuildError::MergeConflict { from: "object".to_string() }));
}

#[test]
fn metadata_goes_on_the_result() {
    let object = SchemaObject {
        metadata: Some(Metadata {
            title: Some("Name".to_string()),
            description: Some("The name.".to_string()),
        }),
        ..typed(InstanceType::String)
    };
    assert_eq!(
        build(&object),
        Ok(NodeContainer {
            node: Node::String,
            title: Some("Name".to_string()),
            desc: Some("The name.".to_string()),
        })
    );
}

#[test]
fn metadata_of_the_fragment_replaces_that_of_the_definition() {
    let described = SchemaObject {
        metadata: Some(Metadata {
            title: Some("Count".to_string()),
            description: Some("A count.".to_string()),
        }),
        ..typed(InstanceType::Integer)
    };
    let definitions = vec![("Count".to_string(), Schema::Object(described))];
    let object = SchemaObject {
        metadata: Some(Metadata { title: None, description: Some("How many.".to_string()) }),
        ..reference("Count")
    };
    assert_eq!(
        schema_object_to_node("root", &definitions, &object),
        Ok(NodeContainer {
            node: Node::Number(NumberKind::I128),
            title: None,
            desc: Some("How many.".to_string()),
        })
    );
}

#[test]
fn metadata_method_sets_or_leaves_the_metadata() {
    let tree = NodeContainer {
        node: Node::Bool,
        title: Some("old".to_string()),
        desc: Some("old".to_string()),
    };
    assert_eq!(tree.clone().metadata(&None), tree);
    assert_eq!(
        tree.metadata(&Some(Metadata { title: Some("new".to_string()), description: None })),
        NodeContainer { node: Node::Bool, title: Some("new".to_string()), desc: None }
    );
}

#[test]
fn label_is_only_used_for_errors() {
    let object = typed(InstanceType::String);
    assert_eq!(
        schema_object_to_node("one", &Vec::new(), &object),
        schema_object_to_node("another", &Vec::new(), &object)
    );
    assert_eq!(
        schema_object_to_node("here", &Vec::new(), &reference("Missing")),
        Err(BuildError::UnresolvedReference {
            from: "here".to_string(),
            name: "Missing".to_string()
        })
    );
}

#[test]
fn from_json_schema_builds_the_root_with_its_definitions() {
    let root = RootSchema {
        schema: SchemaObject {
            object: Some(ObjectValidation {
                properties: vec![
                    ("count".to_string(), Schema::Object(reference("Count"))),
                    ("tags".to_string(), Schema::Object(SchemaObject {
                        array: Some(ArrayValidation {
                            items: Some(Items::Single(Box::new(schema(InstanceType::String)))),
                            min_items: None,
                            max_items: None,
                        }),
                        ..typed(InstanceType::Array)
                    })),
                ],
                additional_properties: None,
            }),
            metadata: Some(Metadata { title: Some("Config".to_string()), description: None }),
            ..typed(InstanceType::Object)
        },
        definitions: vec![("Count".to_string(), Schema::Object(SchemaObject {
            format: Some("uint32".to_string()),
            ..typed(InstanceType::Integer)
        }))],
    };
    assert_eq!(
        NodeContainer::from_json_schema(&root),
        Ok(NodeContainer {
            node: Node::Object(NodeObject {
                nodes: vec![
                    ("count".to_string(), plain(Node::Number(NumberKind::U64))),
                    ("tags".to_string(), plain(Node::Array(NodeArray {
                        template: NodeArrayTemplate::All(Box::new(plain(Node::String))),
                        min: None,
                        max: None,
                    }))),
                ],
                additional: None,
            }),
            title: Some("Config".to_string()),
            desc: None,
        })
    );
}

#[test]
fn from_json_schema_reports_failures_from_the_root() {
    let root = RootSchema { schema: reference("Missing"), definitions: Vec::new() };
    assert_eq!(
        NodeContainer::from_json_schema(&root),
        Err(BuildError::UnresolvedReference {
            from: "root".to_string(),
            name: "Missing".to_string()
        })
    );
}

#[test]
fn resolve_reference_finds_the_entry_or_names_what_is_missing() {
    let definitions = vec![
        ("A".to_string(), schema(InstanceType::Null)),
        ("B".to_string(), schema(InstanceType::String)),
    ];
    assert_eq!(resolve_reference("root", "B", &definitions), Ok(1));
    assert_eq!(resolve_reference("root", "A", &definitions), Ok(0));
    assert_eq!(
        resolve_reference("object", "C", &definitions),
        Err(BuildError::UnresolvedReference { from: "object".to_string(), name: "C".to_string() })
    );
    assert_eq!(
        resolve_reference("root", "A", &Vec::new()),
        Err(BuildError::UnresolvedReference { from: "root".to_string(), name: "A".to_string() })
    );
}
