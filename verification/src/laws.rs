//! What holds of every tree that the builder gives.

use crate::builder::{
    all_of_part, any_of_part, array_part, build_array_shape, build_list, build_object,
    build_object_shape, build_properties, build_schema, fold_part, fragment_rank,
    lemma_unexpanded_shrinks, literals_part, literals_tree, object_part, one_of_part,
    reference_part, type_node, type_tree, types_part, unexpanded, Built,
};
use crate::error::BuildErrorView;
use crate::literal::LiteralView;
use crate::merge::{lemma_merge_keeps_well_formed, merge_spec};
use crate::node::{
    all_well_formed, distinct_names, lemma_insert_keeps_names_distinct, well_formed, NodeView,
    TreeView,
};
use crate::reference::{find_definition, reference_target};
use crate::schema::{
    empty_object, fragment_of, ArrayValidationView, InstanceType, InstanceTypesView, ItemsView,
    ObjectValidationView, SchemaObjectView, SchemaView,
};
use vstd::prelude::*;

verus! {

/// A schema that is a plain boolean matches anything: `true` has no
/// keyword, and the negation that stands for `false` is not read.
pub proof fn lemma_boolean_schema_matches_anything(
    from: Seq<char>,
    definitions: Seq<(Seq<char>, SchemaView)>,
    accepts: bool,
    expanding: Set<int>,
)
    ensures
        build_schema(from, definitions, SchemaView::Bool(accepts), expanding) == Ok::<
            TreeView,
            BuildErrorView,
        >(TreeView::plain(NodeView::Any)),
{
}

/// A single literal gives the literal itself, and a list of literals never
/// gives a set of one alternative.
pub proof fn lemma_single_literal_is_no_enum(literals: Seq<LiteralView>)
    ensures
        literals.len() == 1 ==> literals_tree(literals) == TreeView::plain(
            NodeView::Value(literals[0]),
        ),
        literals.len() != 1 ==> literals_tree(literals).node is Enum && literals_tree(
            literals,
        ).node->Enum_0.len() == literals.len(),
        forall|i: int|
            0 <= i < literals.len() && literals.len() != 1 ==> (#[trigger] literals_tree(
                literals,
            ).node->Enum_0[i]) == TreeView::plain(NodeView::Value(literals[i])),
{
}

/// Where an object declares properties, the schema of its additional
/// properties is not read: the record has the declared properties alone.
pub proof fn lemma_properties_hide_additional(
    definitions: Seq<(Seq<char>, SchemaView)>,
    shape: ObjectValidationView,
    expanding: Set<int>,
)
    requires
        shape.properties.len() > 0,
    ensures
        build_object_shape(definitions, shape, expanding) matches Ok(tree) ==> tree.node is Object
            && tree.node->additional is None,
{
}

/// A fragment whose only keyword is a reference to a definition that the
/// table holds, and that is not being expanded, gives what that definition
/// gives when it is built as a definition, marked as being expanded.
pub proof fn lemma_reference_gives_its_definition(
    from: Seq<char>,
    definitions: Seq<(Seq<char>, SchemaView)>,
    object: SchemaObjectView,
    expanding: Set<int>,
    name: Seq<char>,
    at: int,
)
    requires
        object.reference is Some,
        object == (SchemaObjectView { reference: object.reference, ..empty_object() }),
        reference_target(object.reference->Some_0) == Some(name),
        find_definition(definitions, name) == Some(at),
        !expanding.contains(at),
    ensures
        build_object(from, definitions, object, expanding) == build_schema(
            "definition"@,
            definitions,
            definitions[at].1,
            expanding.insert(at),
        ),
{
}

/// Folding a well-formed tree into a well-formed tree gives a well-formed
/// tree.
proof fn lemma_fold_keeps_well_formed(from: Seq<char>, so_far: Built, part: Option<Built>)
    requires
        so_far matches Ok(tree) ==> well_formed(tree),
        part matches Some(Ok(tree)) ==> well_formed(tree),
    ensures
        fold_part(from, so_far, part) matches Ok(tree) ==> well_formed(tree),
{
    if let Ok(tree) = so_far {
        if let Some(Ok(other)) = part {
            if merge_spec(tree, other) is Ok {
                lemma_merge_keeps_well_formed(tree, other);
            }
        }
    }
}

/// The tree of a `type` keyword is well formed.
proof fn lemma_type_tree_is_well_formed(types: InstanceTypesView, format: Option<Seq<char>>)
    ensures
        well_formed(type_tree(types, format)),
{
    assert(well_formed(TreeView::plain(NodeView::Any)));
    assert forall|instance_type: InstanceType|
        well_formed(TreeView::plain(#[trigger] type_node(instance_type, format))) by {}
    if let InstanceTypesView::Vec(names) = types {
        let alternatives = type_tree(types, format).node->Enum_0;
        assert forall|i: int| 0 <= i < alternatives.len() implies well_formed(
            #[trigger] alternatives[i],
        ) by {
            assert(alternatives[i] == TreeView::plain(type_node(names[i], format)));
        }
        assert(all_well_formed(alternatives));
    }
}

/// The tree of an `enum` keyword is well formed.
proof fn lemma_literals_tree_is_well_formed(literals: Seq<LiteralView>)
    ensures
        well_formed(literals_tree(literals)),
{
    if literals.len() != 1 {
        let alternatives = literals_tree(literals).node->Enum_0;
        assert forall|i: int| 0 <= i < alternatives.len() implies well_formed(
            #[trigger] alternatives[i],
        ) by {
            assert(alternatives[i] == TreeView::plain(NodeView::Value(literals[i])));
        }
        assert(all_well_formed(alternatives));
    }
}

/// Every tree that a schema gives is well formed: each of its records, at
/// any depth, names each of its properties once.
pub proof fn lemma_schema_is_well_formed(
    from: Seq<char>,
    definitions: Seq<(Seq<char>, SchemaView)>,
    schema: SchemaView,
    expanding: Set<int>,
)
    ensures
        build_schema(from, definitions, schema, expanding) matches Ok(tree) ==> well_formed(tree),
    decreases unexpanded(definitions.len() as int, expanding).len(), 1int, schema, 0int,
{
    lemma_object_is_well_formed(from, definitions, fragment_of(schema), expanding);
}

/// Every tree of a list of schemas is well formed.
pub proof fn lemma_list_is_well_formed(
    from: Seq<char>,
    definitions: Seq<(Seq<char>, SchemaView)>,
    schemas: Seq<SchemaView>,
    expanding: Set<int>,
    count: int,
)
    ensures
        build_list(from, definitions, schemas, expanding, count) matches Ok(trees)
            ==> all_well_formed(trees),
    decreases unexpanded(definitions.len() as int, expanding).len(), 1int, schemas, count,
{
    if 0 < count <= schemas.len() {
        lemma_list_is_well_formed(from, definitions, schemas, expanding, count - 1);
        lemma_schema_is_well_formed(from, definitions, schemas[count - 1], expanding);
    }
}

/// The properties that an object's declarations give have distinct names
/// and well-formed trees.
pub proof fn lemma_properties_are_well_formed(
    definitions: Seq<(Seq<char>, SchemaView)>,
    properties: Seq<(Seq<char>, SchemaView)>,
    expanding: Set<int>,
    count: int,
)
    ensures
        build_properties(definitions, properties, expanding, count) matches Ok(built) ==> {
            &&& distinct_names(built)
            &&& forall|i: int| 0 <= i < built.len() ==> well_formed((#[trigger] built[i]).1)
        },
    decreases unexpanded(definitions.len() as int, expanding).len(), 1int, properties, count,
{
    if 0 < count <= properties.len() {
        lemma_properties_are_well_formed(definitions, properties, expanding, count - 1);
        lemma_schema_is_well_formed("object"@, definitions, properties[count - 1].1, expanding);
        if let Ok(built) = build_properties(definitions, properties, expanding, count - 1) {
            if let Ok(tree) = build_schema(
                "object"@,
                definitions,
                properties[count - 1].1,
                expanding,
            ) {
                lemma_insert_keeps_names_distinct(built, properties[count - 1].0, tree);
            }
        }
    }
}

/// The tree of the keywords on the shape of an object is well formed.
pub proof fn lemma_object_shape_is_well_formed(
    definitions: Seq<(Seq<char>, SchemaView)>,
    shape: ObjectValidationView,
    expanding: Set<int>,
)
    ensures
        build_object_shape(definitions, shape, expanding) matches Ok(tree) ==> well_formed(tree),
    decreases unexpanded(definitions.len() as int, expanding).len(), 1int, shape, 0int,
{
    lemma_properties_are_well_formed(
        definitions,
        shape.properties,
        expanding,
        shape.properties.len() as int,
    );
    if let Some(schema) = shape.additional_properties {
        lemma_schema_is_well_formed("object"@, definitions, *schema, expanding);
    }
}

/// The tree of the keywords on the shape of an array is well formed.
pub proof fn lemma_array_shape_is_well_formed(
    definitions: Seq<(Seq<char>, SchemaView)>,
    shape: ArrayValidationView,
    expanding: Set<int>,
)
    ensures
        build_array_shape(definitions, shape, expanding) matches Ok(tree) ==> well_formed(tree),
    decreases unexpanded(definitions.len() as int, expanding).len(), 1int, shape, 0int,
{
    match shape.items {
        Some(ItemsView::Single(schema)) => {
            lemma_schema_is_well_formed("array single"@, definitions, *schema, expanding);
        },
        Some(ItemsView::Vec(schemas)) => {
            lemma_list_is_well_formed(
                "array multiple"@,
                definitions,
                schemas,
                expanding,
                schemas.len() as int,
            );
        },
        None => {
            assert(well_formed(TreeView::plain(NodeView::Any)));
        },
    }
}

/// Every tree that a fragment gives is well formed: each of its records, at
/// any depth, names each of its properties once.
pub proof fn lemma_object_is_well_formed(
    from: Seq<char>,
    definitions: Seq<(Seq<char>, SchemaView)>,
    object: SchemaObjectView,
    expanding: Set<int>,
)
    ensures
        build_object(from, definitions, object, expanding) matches Ok(tree) ==> well_formed(tree),
    decreases unexpanded(definitions.len() as int, expanding).len(), fragment_rank(object), object,
        1int,
{
    if let Some(types) = object.instance_type {
        lemma_type_tree_is_well_formed(types, object.format);
    }
    if let Some(shape) = object.object {
        lemma_object_shape_is_well_formed(definitions, shape, expanding);
    }
    if let Some(literals) = object.enum_values {
        lemma_literals_tree_is_well_formed(literals);
    }
    if let Some(shape) = object.array {
        lemma_array_shape_is_well_formed(definitions, shape, expanding);
    }
    if let Some(subschemas) = object.subschemas {
        if let Some(branches) = subschemas.all_of {
            lemma_list_is_well_formed(
                "all_of"@,
                definitions,
                branches,
                expanding,
                branches.len() as int,
            );
        }
        if let Some(branches) = subschemas.one_of {
            lemma_list_is_well_formed(
                "one_of"@,
                definitions,
                branches,
                expanding,
                branches.len() as int,
            );
        }
        if let Some(branches) = subschemas.any_of {
            lemma_list_is_well_formed(
                "any_of"@,
                definitions,
                branches,
                expanding,
                branches.len() as int,
            );
        }
    }
    if let Some(reference) = object.reference {
        if let Some(name) = reference_target(reference) {
            if let Some(at) = find_definition(definitions, name) {
                if !expanding.contains(at) {
                    lemma_unexpanded_shrinks(definitions.len() as int, expanding, at);
                    lemma_schema_is_well_formed(
                        "definition"@,
                        definitions,
                        definitions[at].1,
                        expanding.insert(at),
                    );
                }
            }
        }
    }
    let tree = Ok(TreeView::plain(NodeView::Any));
    let part = types_part(object);
    lemma_fold_keeps_well_formed(from, tree, part);
    let tree = fold_part(from, tree, part);
    let part = object_part(definitions, object, expanding);
    lemma_fold_keeps_well_formed(from, tree, part);
    let tree = fold_part(from, tree, part);
    let part = literals_part(object);
    lemma_fold_keeps_well_formed(from, tree, part);
    let tree = fold_part(from, tree, part);
    let part = array_part(definitions, object, expanding);
    lemma_fold_keeps_well_formed(from, tree, part);
    let tree = fold_part(from, tree, part);
    let part = all_of_part(from, definitions, object, expanding);
    lemma_fold_keeps_well_formed(from, tree, part);
    let tree = fold_part(from, tree, part);
    let part = one_of_part(definitions, object, expanding);
    lemma_fold_keeps_well_formed(from, tree, part);
    let tree = fold_part(from, tree, part);
    let part = any_of_part(definitions, object, expanding);
    lemma_fold_keeps_well_formed(from, tree, part);
    let tree = fold_part(from, tree, part);
    let part = reference_part(from, definitions, object, expanding);
    lemma_fold_keeps_well_formed(from, tree, part);
}

/// The tree that a schema gives does not depend on the label under which
/// it is built, nor on a definition that is marked as being expanded and
/// that the build does not meet: where a build succeeds, the build under
/// any other label and with fewer definitions marked gives the same tree.
pub proof fn lemma_schema_is_stable(
    from: Seq<char>,
    other: Seq<char>,
    definitions: Seq<(Seq<char>, SchemaView)>,
    schema: SchemaView,
    expanding: Set<int>,
    fewer: Set<int>,
)
    requires
        fewer.subset_of(expanding),
    ensures
        build_schema(from, definitions, schema, expanding) is Ok ==> build_schema(
            other,
            definitions,
            schema,
            fewer,
        ) == build_schema(from, definitions, schema, expanding),
    decreases unexpanded(definitions.len() as int, expanding).len(), 1int, schema, 0int,
{
    lemma_object_is_stable(from, other, definitions, fragment_of(schema), expanding, fewer);
}

/// The trees of a list of schemas depend neither on the label nor on the
/// marks that the build does not meet.
pub proof fn lemma_list_is_stable(
    from: Seq<char>,
    other: Seq<char>,
    definitions: Seq<(Seq<char>, SchemaView)>,
    schemas: Seq<SchemaView>,
    expanding: Set<int>,
    fewer: Set<int>,
    count: int,
)
    requires
        fewer.subset_of(expanding),
    ensures
        build_list(from, definitions, schemas, expanding, count) is Ok ==> build_list(
            other,
            definitions,
            schemas,
            fewer,
            count,
        ) == build_list(from, definitions, schemas, expanding, count),
    decreases unexpanded(definitions.len() as int, expanding).len(), 1int, schemas, count,
{
    if 0 < count <= schemas.len() {
        lemma_list_is_stable(from, other, definitions, schemas, expanding, fewer, count - 1);
        lemma_schema_is_stable(from, other, definitions, schemas[count - 1], expanding, fewer);
    }
}

/// The properties of an object do not depend on the marks that the build
/// does not meet.
pub proof fn lemma_properties_are_stable(
    definitions: Seq<(Seq<char>, SchemaView)>,
    properties: Seq<(Seq<char>, SchemaView)>,
    expanding: Set<int>,
    fewer: Set<int>,
    count: int,
)
    requires
        fewer.subset_of(expanding),
    ensures
        build_properties(definitions, properties, expanding, count) is Ok ==> build_properties(
            definitions,
            properties,
            fewer,
            count,
        ) == build_properties(definitions, properties, expanding, count),
    decreases unexpanded(definitions.len() as int, expanding).len(), 1int, properties, count,
{
    if 0 < count <= properties.len() {
        lemma_properties_are_stable(definitions, properties, expanding, fewer, count - 1);
        lemma_schema_is_stable(
            "object"@,
            "object"@,
            definitions,
            properties[count - 1].1,
            expanding,
            fewer,
        );
    }
}

/// The tree of the shape of an object does not depend on the marks that
/// the build does not meet.
pub proof fn lemma_object_shape_is_stable(
    definitions: Seq<(Seq<char>, SchemaView)>,
    shape: ObjectValidationView,
    expanding: Set<int>,
    fewer: Set<int>,
)
    requires
        fewer.subset_of(expanding),
    ensures
        build_object_shape(definitions, shape, expanding) is Ok ==> build_object_shape(
            definitions,
            shape,
            fewer,
        ) == build_object_shape(definitions, shape, expanding),
    decreases unexpanded(definitions.len() as int, expanding).len(), 1int, shape, 0int,
{
    lemma_properties_are_stable(
        definitions,
        shape.properties,
        expanding,
        fewer,
        shape.properties.len() as int,
    );
    if let Some(schema) = shape.additional_properties {
        lemma_schema_is_stable("object"@, "object"@, definitions, *schema, expanding, fewer);
    }
}

/// The tree of the shape of an array does not depend on the marks that the
/// build does not meet.
pub proof fn lemma_array_shape_is_stable(
    definitions: Seq<(Seq<char>, SchemaView)>,
    shape: ArrayValidationView,
    expanding: Set<int>,
    fewer: Set<int>,
)
    requires
        fewer.subset_of(expanding),
    ensures
        build_array_shape(definitions, shape, expanding) is Ok ==> build_array_shape(
            definitions,
            shape,
            fewer,
        ) == build_array_shape(definitions, shape, expanding),
    decreases unexpanded(definitions.len() as int, expanding).len(), 1int, shape, 0int,
{
    match shape.items {
        Some(ItemsView::Single(schema)) => {
            lemma_schema_is_stable(
                "array single"@,
                "array single"@,
                definitions,
                *schema,
                expanding,
                fewer,
            );
        },
        Some(ItemsView::Vec(schemas)) => {
            lemma_list_is_stable(
                "array multiple"@,
                "array multiple"@,
                definitions,
                schemas,
                expanding,
                fewer,
                schemas.len() as int,
            );
        },
        None => {},
    }
}

/// The tree that a fragment gives does not depend on the label under which
/// it is built, nor on a definition that is marked as being expanded and
/// that the build does not meet: where a build succeeds, the build under
/// any other label and with fewer definitions marked gives the same tree.
pub proof fn lemma_object_is_stable(
    from: Seq<char>,
    other: Seq<char>,
    definitions: Seq<(Seq<char>, SchemaView)>,
    object: SchemaObjectView,
    expanding: Set<int>,
    fewer: Set<int>,
)
    requires
        fewer.subset_of(expanding),
    ensures
        build_object(from, definitions, object, expanding) is Ok ==> build_object(
            other,
            definitions,
            object,
            fewer,
        ) == build_object(from, definitions, object, expanding),
    decreases unexpanded(definitions.len() as int, expanding).len(), fragment_rank(object), object,
        1int,
{
    if let Some(shape) = object.object {
        lemma_object_shape_is_stable(definitions, shape, expanding, fewer);
    }
    if let Some(shape) = object.array {
        lemma_array_shape_is_stable(definitions, shape, expanding, fewer);
    }
    if let Some(subschemas) = object.subschemas {
        if let Some(branches) = subschemas.all_of {
            lemma_list_is_stable(
                "all_of"@,
                "all_of"@,
                definitions,
                branches,
                expanding,
                fewer,
                branches.len() as int,
            );
        }
        if let Some(branches) = subschemas.one_of {
            lemma_list_is_stable(
                "one_of"@,
                "one_of"@,
                definitions,
                branches,
                expanding,
                fewer,
                branches.len() as int,
            );
        }
        if let Some(branches) = subschemas.any_of {
            lemma_list_is_stable(
                "any_of"@,
                "any_of"@,
                definitions,
                branches,
                expanding,
                fewer,
                branches.len() as int,
            );
        }
    }
    if let Some(reference) = object.reference {
        if let Some(name) = reference_target(reference) {
            if let Some(at) = find_definition(definitions, name) {
                if !expanding.contains(at) {
                    lemma_unexpanded_shrinks(definitions.len() as int, expanding, at);
                    lemma_schema_is_stable(
                        "definition"@,
                        "definition"@,
                        definitions,
                        definitions[at].1,
                        expanding.insert(at),
                        fewer.insert(at),
                    );
                }
            }
        }
    }
}

/// Reference transparency: a fragment whose only keyword is a reference to
/// a definition gives, where its build succeeds, the tree that the
/// definition gives when it is built directly, under whatever label.
pub proof fn lemma_reference_is_transparent(
    from: Seq<char>,
    other: Seq<char>,
    definitions: Seq<(Seq<char>, SchemaView)>,
    object: SchemaObjectView,
    expanding: Set<int>,
    name: Seq<char>,
    at: int,
)
    requires
        object.reference is Some,
        object == (SchemaObjectView { reference: object.reference, ..empty_object() }),
        reference_target(object.reference->Some_0) == Some(name),
        find_definition(definitions, name) == Some(at),
        build_object(from, definitions, object, expanding) is Ok,
    ensures
        build_schema(other, definitions, definitions[at].1, expanding) == build_object(
            from,
            definitions,
            object,
            expanding,
        ),
{
    lemma_reference_gives_its_definition(from, definitions, object, expanding, name, at);
    lemma_schema_is_stable(
        "definition"@,
        other,
        definitions,
        definitions[at].1,
        expanding.insert(at),
        expanding,
    );
}

} // verus!
