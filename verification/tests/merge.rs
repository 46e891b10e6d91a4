use configurator::literal::{Literal, NumberLiteral};
use configurator::merge::MergeError;
use configurator::node::{
    Node, NodeArray, NodeArrayTemplate, NodeContainer, NodeEnum, NodeObject, NodeValue, NumberKind,
};

fn plain(node: Node) -> NodeContainer {
    NodeContainer::from_node(node)
}

fn titled(node: Node, title: &str) -> NodeContainer {
    NodeContainer { node, title: Some(title.to_string()), desc: None }
}

fn literal(n: u64) -> Node {
    Node::Value(NodeValue { value: Literal::Number(NumberLiteral::Unsigned(n)) })
}

fn object(names: &[&str]) -> Node {
    Node::Object(NodeObject {
        nodes: names.iter().map(|name| (name.to_string(), plain(Node::Bool))).collect(),
        additional: None,
    })
}

fn array(min: Option<u32>) -> Node {
    Node::Array(NodeArray {
        template: NodeArrayTemplate::All(Box::new(plain(Node::Any))),
        min,
        max: None,
    })
}

fn choice(nodes: Vec<NodeContainer>) -> Node {
    Node::Enum(NodeEnum { nodes })
}

fn every_kind() -> Vec<NodeContainer> {
    vec![
        titled(Node::Any, "any"),
        titled(Node::Null, "null"),
        titled(Node::Bool, "bool"),
        titled(Node::String, "string"),
        titled(Node::Number(NumberKind::I64), "number"),
        titled(object(&["a"]), "object"),
        titled(array(Some(2)), "array"),
        titled(choice(vec![plain(Node::Null), plain(Node::String)]), "enum"),
        titled(literal(7), "value"),
    ]
}

#[test]
fn any_on_the_left_gives_the_right_operand() {
    let any = titled(Node::Any, "left");
    for tree in every_kind() {
        assert_eq!(any.merge(&tree), Ok(tree.clone()));
    }
}

#[test]
fn any_on_the_right_gives_the_left_operand() {
    let any = titled(Node::Any, "right");
    for tree in every_kind() {
        let merged = any_free(tree.merge(&any));
        assert_eq!(merged.node, tree.node);
        if tree.node != Node::Any {
            assert_eq!(merged, tree);
        }
    }
}

fn any_free(merged: Result<NodeContainer, MergeError>) -> NodeContainer {
    match merged {
        Ok(tree) => tree,
        Err(error) => panic!("no merge: {:?}", error),
    }
}

#[test]
fn any_with_any_gives_the_right_metadata() {
    let left = titled(Node::Any, "left");
    let right = titled(Node::Any, "right");
    assert_eq!(left.merge(&right), Ok(right.clone()));
}

#[test]
fn same_kind_gives_the_right_operand() {
    let pairs = vec![
        (titled(Node::Null, "l"), titled(Node::Null, "r")),
        (titled(Node::Bool, "l"), titled(Node::Bool, "r")),
        (titled(Node::String, "l"), titled(Node::String, "r")),
        (titled(Node::Number(NumberKind::U64), "l"), titled(Node::Number(NumberKind::F64), "r")),
        (titled(object(&["a", "b"]), "l"), titled(object(&["c"]), "r")),
        (titled(array(Some(1)), "l"), titled(array(None), "r")),
    ];
    for (left, right) in pairs {
        assert_eq!(left.merge(&right), Ok(right.clone()));
    }
}

#[test]
fn objects_are_not_merged_field_by_field() {
    let left = plain(object(&["a", "b"]));
    let right = plain(object(&["c"]));
    let merged = any_free(left.merge(&right));
    match merged.node {
        Node::Object(object) => {
            assert_eq!(object.nodes.len(), 1);
            assert_eq!(object.nodes[0].0, "c");
        }
        other => panic!("not an object: {:?}", other),
    }
}

#[test]
fn literal_on_the_right_wins_over_everything() {
    let value = titled(literal(3), "right");
    for tree in every_kind() {
        assert_eq!(tree.merge(&value), Ok(value.clone()));
    }
}

#[test]
fn literal_on_the_left_wins_over_all_but_a_literal() {
    let value = titled(literal(3), "left");
    for tree in every_kind() {
        let merged = value.merge(&tree);
        if matches!(tree.node, Node::Value(_)) {
            assert_eq!(merged, Ok(tree.clone()));
        } else {
            assert_eq!(merged, Ok(value.clone()));
        }
    }
}

#[test]
fn literal_against_literal_gives_the_right_one() {
    let left = plain(literal(1));
    let right = plain(literal(2));
    assert_eq!(left.merge(&right), Ok(plain(literal(2))));
}

#[test]
fn mismatched_kinds_conflict() {
    assert_eq!(plain(Node::String).merge(&plain(Node::Null)), Err(MergeError::Conflict));
    assert_eq!(plain(Node::Bool).merge(&plain(Node::Null)), Err(MergeError::Conflict));
    assert_eq!(plain(Node::Null).merge(&plain(Node::Bool)), Err(MergeError::Conflict));
    assert_eq!(
        plain(Node::Number(NumberKind::I128)).merge(&plain(Node::String)),
        Err(MergeError::Conflict)
    );
    assert_eq!(plain(object(&[])).merge(&plain(array(None))), Err(MergeError::Conflict));
}

#[test]
fn two_enums_are_unsupported() {
    let left = plain(choice(vec![plain(Node::Null), plain(Node::Bool)]));
    let right = plain(choice(vec![plain(Node::Null), plain(Node::String)]));
    assert_eq!(left.merge(&right), Err(MergeError::Unsupported));
}

#[test]
fn enum_on_the_left_takes_the_right_into_its_first_match() {
    // A = null, B = number: a number merges with B only.
    let a = titled(Node::Null, "a");
    let b = titled(Node::Number(NumberKind::U64), "b");
    let c = titled(Node::Number(NumberKind::F64), "c");
    let left = titled(choice(vec![a.clone(), b.clone()]), "choice");
    assert_eq!(a.merge(&c), Err(MergeError::Conflict));
    let b_and_c = any_free(b.merge(&c));
    assert_eq!(b_and_c, c);
    assert_eq!(left.merge(&c), Ok(titled(choice(vec![a, b_and_c]), "choice")));
}

#[test]
fn enum_on_the_left_replaces_only_the_first_of_two_matches() {
    let first = titled(Node::String, "first");
    let second = titled(Node::String, "second");
    let other = titled(Node::String, "other");
    let left = plain(choice(vec![plain(Node::Null), first, second.clone()]));
    assert_eq!(
        left.merge(&other),
        Ok(plain(choice(vec![plain(Node::Null), other.clone(), second])))
    );
}

#[test]
fn enum_on_the_left_without_a_match_conflicts() {
    let left = plain(choice(vec![plain(Node::Null), plain(Node::Bool)]));
    assert_eq!(left.merge(&plain(Node::String)), Err(MergeError::Conflict));
}

#[test]
fn enum_on_the_right_takes_the_left_into_its_first_match() {
    let left = titled(Node::String, "left");
    let right = titled(choice(vec![plain(Node::Null), titled(Node::String, "alt")]), "choice");
    // The alternative is the left operand of the inner merge: the outer left wins.
    assert_eq!(
        left.merge(&right),
        Ok(titled(choice(vec![plain(Node::Null), left.clone()]), "choice"))
    );
}

#[test]
fn enum_on_the_right_without_a_match_conflicts() {
    let right = plain(choice(vec![plain(Node::Null), plain(Node::Bool)]));
    assert_eq!(plain(Node::String).merge(&right), Err(MergeError::Conflict));
}

#[test]
fn alternatives_that_are_literals_or_any_accept_everything() {
    let left = plain(choice(vec![plain(literal(1)), plain(Node::Any)]));
    // A literal on the left wins over a string.
    assert_eq!(left.merge(&plain(Node::String)), Ok(left.clone()));
    let left = plain(choice(vec![plain(Node::Any), plain(literal(1))]));
    assert_eq!(
        left.merge(&plain(Node::String)),
        Ok(plain(choice(vec![plain(Node::String), plain(literal(1))])))
    );
}

#[test]
fn nested_enum_is_searched_in_depth() {
    let inner = plain(choice(vec![plain(Node::Null), plain(Node::Bool)]));
    let left = plain(choice(vec![plain(Node::String), inner]));
    let other = titled(Node::Bool, "other");
    let merged_inner = plain(choice(vec![plain(Node::Null), other.clone()]));
    assert_eq!(left.merge(&other), Ok(plain(choice(vec![plain(Node::String), merged_inner]))));
}

#[test]
fn empty_enum_conflicts_with_a_primitive() {
    let left = plain(choice(vec![]));
    assert_eq!(left.merge(&plain(Node::String)), Err(MergeError::Conflict));
    assert_eq!(plain(Node::String).merge(&left), Err(MergeError::Conflict));
}

#[test]
fn merge_leaves_its_operands_unchanged() {
    let left = titled(choice(vec![plain(Node::Null), plain(Node::String)]), "choice");
    let right = titled(Node::String, "right");
    let left_before = left.clone();
    let right_before = right.clone();
    let _ = left.merge(&right);
    assert_eq!(left, left_before);
    assert_eq!(right, right_before);
}

#[test]
fn clone_copies_the_whole_tree() {
    for tree in every_kind() {
        assert_eq!(tree.clone(), tree);
    }
    let deep = NodeContainer {
        node: Node::Object(NodeObject {
            nodes: vec![
                ("list".to_string(), plain(Node::Array(NodeArray {
                    template: NodeArrayTemplate::FirstN(vec![plain(Node::Bool), plain(literal(4))]),
                    min: Some(1),
                    max: Some(9),
                }))),
            ],
            additional: Some(Box::new(titled(Node::String, "rest"))),
        }),
        title: Some("t".to_string()),
        desc: Some("d".to_string()),
    };
    assert_eq!(deep.clone(), deep);
    assert_eq!(deep.node.clone(), deep.node);
}

#[test]
fn insert_keeps_the_place_of_a_known_name() {
    let mut object = NodeObject { nodes: Vec::new(), additional: None };
    object.insert("a".to_string(), plain(Node::Bool));
    object.insert("b".to_string(), plain(Node::String));
    object.insert("a".to_string(), plain(Node::Null));
    assert_eq!(
        object.nodes,
        vec![("a".to_string(), plain(Node::Null)), ("b".to_string(), plain(Node::String))]
    );
    assert_eq!(object.additional, None);
}
