//! The builder: from a schema document to a node tree.

use crate::error::{BuildError, BuildErrorView};
use crate::laws::lemma_object_is_well_formed;
use crate::literal::{Literal, LiteralView};
use crate::merge::{merge_spec, MergeError};
use crate::node::{
    insert_property, kind_of_format, properties_view, trees_view, well_formed, Node, NodeArray,
    NodeArrayTemplate, NodeContainer, NodeEnum, NodeObject, NodeValue, NodeView, NumberKind,
    TemplateView, TreeView,
};
use crate::reference::{definition_name, find_definition, reference_target, resolve_reference};
use crate::schema::{
    fragment_of, literals_view, named_schemas_view, optional_metadata_view, schemas_view,
    ArrayValidation,
    ArrayValidationView, InstanceType, InstanceTypes, InstanceTypesView, Items, ItemsView,
    Metadata, MetadataView, ObjectValidation, ObjectValidationView, RootSchema, RootSchemaView,
    Schema, SchemaObject, SchemaObjectView, SchemaView, SubschemaValidation,
    SubschemaValidationView, ToSchemaObject,
};
use crate::text::{clone_text, text_view};
use vstd::prelude::*;
use vstd::string::StringExecFns;

verus! {

/// What a build gives: a tree, or the reason why there is none.
pub type Built = Result<TreeView, BuildErrorView>;

/// The numeric subkind that `format` selects, `default` where it selects
/// none.
pub open spec fn number_kind(format: Option<Seq<char>>, default: NumberKind) -> NumberKind {
    match format {
        Some(hint) => match kind_of_format(hint) {
            Some(kind) => kind,
            None => default,
        },
        None => default,
    }
}

/// The node of a single type name.
pub open spec fn type_node(instance_type: InstanceType, format: Option<Seq<char>>) -> NodeView {
    match instance_type {
        InstanceType::Null => NodeView::Null,
        InstanceType::Boolean => NodeView::Bool,
        InstanceType::Object => NodeView::Object { properties: Seq::empty(), additional: None },
        InstanceType::Array => NodeView::Array {
            template: TemplateView::All(Box::new(TreeView::plain(NodeView::Any))),
            min: None,
            max: None,
        },
        InstanceType::Number => NodeView::Number(number_kind(format, NumberKind::F64)),
        InstanceType::String => NodeView::String,
        InstanceType::Integer => NodeView::Number(number_kind(format, NumberKind::I128)),
    }
}

/// The tree of the `type` keyword: the node of a single name, or one
/// alternative for each name of a list.
pub open spec fn type_tree(types: InstanceTypesView, format: Option<Seq<char>>) -> TreeView {
    match types {
        InstanceTypesView::Single(instance_type) => TreeView::plain(
            type_node(instance_type, format),
        ),
        InstanceTypesView::Vec(names) => TreeView::plain(
            NodeView::Enum(
                Seq::new(names.len(), |i: int| TreeView::plain(type_node(names[i], format))),
            ),
        ),
    }
}

/// The tree of the `enum` keyword: the literal itself where there is one,
/// else one alternative for each literal, in order.
pub open spec fn literals_tree(literals: Seq<LiteralView>) -> TreeView {
    if literals.len() == 1 {
        TreeView::plain(NodeView::Value(literals[0]))
    } else {
        TreeView::plain(
            NodeView::Enum(
                Seq::new(literals.len(), |i: int| TreeView::plain(NodeView::Value(literals[i]))),
            ),
        )
    }
}

/// The error of the fragment `from` for a merge that failed.
pub open spec fn merge_failure(from: Seq<char>, error: MergeError) -> BuildErrorView {
    match error {
        MergeError::Conflict => BuildErrorView::MergeConflict { from },
        MergeError::Unsupported => BuildErrorView::UnsupportedComposition { from },
    }
}

/// Folds the tree of one keyword into what the keywords before it gave. A
/// keyword that is absent changes nothing; the first failure is kept.
pub open spec fn fold_part(from: Seq<char>, so_far: Built, part: Option<Built>) -> Built {
    match so_far {
        Err(error) => Err(error),
        Ok(tree) => match part {
            None => Ok(tree),
            Some(Err(error)) => Err(error),
            Some(Ok(other)) => match merge_spec(tree, other) {
                Ok(merged) => Ok(merged),
                Err(error) => Err(merge_failure(from, error)),
            },
        },
    }
}

/// `tree` with the metadata of a fragment: a fragment that has metadata
/// gives its title and description, one that has none leaves the tree's.
pub open spec fn with_metadata(tree: TreeView, metadata: Option<MetadataView>) -> TreeView {
    match metadata {
        Some(metadata) => TreeView {
            node: tree.node,
            title: metadata.title,
            description: metadata.description,
        },
        None => tree,
    }
}

/// The tree of an `allOf`: that of its only branch.
pub open spec fn only_branch(from: Seq<char>, branches: Result<Seq<TreeView>, BuildErrorView>)
    -> Built {
    match branches {
        Err(error) => Err(error),
        Ok(trees) => if trees.len() == 1 {
            Ok(trees[0])
        } else {
            Err(BuildErrorView::UnsupportedComposition { from })
        },
    }
}

/// The tree of a `oneOf` or an `anyOf`: one alternative for each branch.
pub open spec fn any_branch(branches: Result<Seq<TreeView>, BuildErrorView>) -> Built {
    match branches {
        Err(error) => Err(error),
        Ok(trees) => Ok(TreeView::plain(NodeView::Enum(trees))),
    }
}

/// The definitions, by index, that are not being expanded.
pub open spec fn unexpanded(definitions: int, expanding: Set<int>) -> Set<int> {
    Set::new(|i: int| 0 <= i < definitions && !expanding.contains(i))
}

/// Expanding one more definition leaves fewer to expand.
pub proof fn lemma_unexpanded_shrinks(definitions: int, expanding: Set<int>, at: int)
    requires
        0 <= at < definitions,
        !expanding.contains(at),
    ensures
        unexpanded(definitions, expanding).finite(),
        unexpanded(definitions, expanding.insert(at)).len() < unexpanded(
            definitions,
            expanding,
        ).len(),
{
    let all = vstd::set_lib::set_int_range(0, definitions);
    vstd::set_lib::lemma_int_range(0, definitions);
    vstd::set_lib::lemma_len_subset(unexpanded(definitions, expanding), all);
    assert(unexpanded(definitions, expanding.insert(at)) =~= unexpanded(
        definitions,
        expanding,
    ).remove(at));
    assert(unexpanded(definitions, expanding).contains(at));
}

/// 1 for a fragment with a keyword that holds or names further schemas, 0
/// for any other.
pub open spec fn fragment_rank(object: SchemaObjectView) -> int {
    if object.object is Some || object.array is Some || object.reference is Some || (
    object.subschemas matches Some(subschemas) && (subschemas.all_of is Some
        || subschemas.one_of is Some || subschemas.any_of is Some)) {
        1
    } else {
        0
    }
}

/// The tree of a schema: that of the fragment that it stands for.
pub open spec fn build_schema(
    from: Seq<char>,
    definitions: Seq<(Seq<char>, SchemaView)>,
    schema: SchemaView,
    expanding: Set<int>,
) -> Built
    decreases unexpanded(definitions.len() as int, expanding).len(), 1int, schema, 0int,
{
    build_object(from, definitions, fragment_of(schema), expanding)
}

/// The trees of the first `count` of `schemas`, in order, each built under
/// the label `from`; the first failure among them where there is one.
pub open spec fn build_list(
    from: Seq<char>,
    definitions: Seq<(Seq<char>, SchemaView)>,
    schemas: Seq<SchemaView>,
    expanding: Set<int>,
    count: int,
) -> Result<Seq<TreeView>, BuildErrorView>
    decreases unexpanded(definitions.len() as int, expanding).len(), 1int, schemas, count,
{
    if 0 < count <= schemas.len() {
        match build_list(from, definitions, schemas, expanding, count - 1) {
            Err(error) => Err(error),
            Ok(trees) => match build_schema(from, definitions, schemas[count - 1], expanding) {
                Err(error) => Err(error),
                Ok(tree) => Ok(trees.push(tree)),
            },
        }
    } else {
        Ok(Seq::empty())
    }
}

/// The properties that the first `count` of the declared `properties` give,
/// inserted in the order of their declaration; the first failure among
/// them where there is one.
pub open spec fn build_properties(
    definitions: Seq<(Seq<char>, SchemaView)>,
    properties: Seq<(Seq<char>, SchemaView)>,
    expanding: Set<int>,
    count: int,
) -> Result<Seq<(Seq<char>, TreeView)>, BuildErrorView>
    decreases unexpanded(definitions.len() as int, expanding).len(), 1int, properties, count,
{
    if 0 < count <= properties.len() {
        match build_properties(definitions, properties, expanding, count - 1) {
            Err(error) => Err(error),
            Ok(built) => match build_schema(
                "object"@,
                definitions,
                properties[count - 1].1,
                expanding,
            ) {
                Err(error) => Err(error),
                Ok(tree) => Ok(insert_property(built, properties[count - 1].0, tree)),
            },
        }
    } else {
        Ok(Seq::empty())
    }
}

/// The tree of the keywords on the shape of an object. Where properties are
/// declared, the schema of the additional ones is not read.
pub open spec fn build_object_shape(
    definitions: Seq<(Seq<char>, SchemaView)>,
    shape: ObjectValidationView,
    expanding: Set<int>,
) -> Built
    decreases unexpanded(definitions.len() as int, expanding).len(), 1int, shape, 0int,
{
    match build_properties(
        definitions,
        shape.properties,
        expanding,
        shape.properties.len() as int,
    ) {
        Err(error) => Err(error),
        Ok(properties) => if shape.properties.len() > 0 {
            Ok(TreeView::plain(NodeView::Object { properties, additional: None }))
        } else {
            match shape.additional_properties {
                None => Ok(TreeView::plain(NodeView::Object { properties, additional: None })),
                Some(schema) => match build_schema("object"@, definitions, *schema, expanding) {
                    Err(error) => Err(error),
                    Ok(tree) => Ok(
                        TreeView::plain(
                            NodeView::Object { properties, additional: Some(Box::new(tree)) },
                        ),
                    ),
                },
            }
        },
    }
}

/// The tree of the keywords on the shape of an array.
pub open spec fn build_array_shape(
    definitions: Seq<(Seq<char>, SchemaView)>,
    shape: ArrayValidationView,
    expanding: Set<int>,
) -> Built
    decreases unexpanded(definitions.len() as int, expanding).len(), 1int, shape, 0int,
{
    let template: Result<TemplateView, BuildErrorView> = match shape.items {
        Some(ItemsView::Single(schema)) => match build_schema(
            "array single"@,
            definitions,
            *schema,
            expanding,
        ) {
            Err(error) => Err(error),
            Ok(tree) => Ok(TemplateView::All(Box::new(tree))),
        },
        Some(ItemsView::Vec(schemas)) => match build_list(
            "array multiple"@,
            definitions,
            schemas,
            expanding,
            schemas.len() as int,
        ) {
            Err(error) => Err(error),
            Ok(trees) => Ok(TemplateView::FirstN(trees)),
        },
        None => Ok(TemplateView::All(Box::new(TreeView::plain(NodeView::Any)))),
    };
    match template {
        Err(error) => Err(error),
        Ok(template) => Ok(
            TreeView::plain(
                NodeView::Array { template, min: shape.min_items, max: shape.max_items },
            ),
        ),
    }
}

/// What the `type` keyword gives.
pub open spec fn types_part(object: SchemaObjectView) -> Option<Built> {
    match object.instance_type {
        Some(types) => Some(Ok(type_tree(types, object.format))),
        None => None,
    }
}

/// What the `enum` keyword gives.
pub open spec fn literals_part(object: SchemaObjectView) -> Option<Built> {
    match object.enum_values {
        Some(literals) => Some(Ok(literals_tree(literals))),
        None => None,
    }
}

/// What the keywords on the shape of an object give.
pub open spec fn object_part(
    definitions: Seq<(Seq<char>, SchemaView)>,
    object: SchemaObjectView,
    expanding: Set<int>,
) -> Option<Built>
    decreases unexpanded(definitions.len() as int, expanding).len(), fragment_rank(object), object,
        0int,
{
    match object.object {
        Some(shape) => Some(build_object_shape(definitions, shape, expanding)),
        None => None,
    }
}

/// What the keywords on the shape of an array give.
pub open spec fn array_part(
    definitions: Seq<(Seq<char>, SchemaView)>,
    object: SchemaObjectView,
    expanding: Set<int>,
) -> Option<Built>
    decreases unexpanded(definitions.len() as int, expanding).len(), fragment_rank(object), object,
        0int,
{
    match object.array {
        Some(shape) => Some(build_array_shape(definitions, shape, expanding)),
        None => None,
    }
}

/// What `allOf` gives: the tree of its only branch. With another number of
/// branches it is not supported.
pub open spec fn all_of_part(
    from: Seq<char>,
    definitions: Seq<(Seq<char>, SchemaView)>,
    object: SchemaObjectView,
    expanding: Set<int>,
) -> Option<Built>
    decreases unexpanded(definitions.len() as int, expanding).len(), fragment_rank(object), object,
        0int,
{
    match object.subschemas {
        Some(SubschemaValidationView { all_of: Some(branches), .. }) => Some(
            only_branch(
                from,
                build_list("all_of"@, definitions, branches, expanding, branches.len() as int),
            ),
        ),
        _ => None,
    }
}

/// What `oneOf` gives: one alternative for each branch.
pub open spec fn one_of_part(
    definitions: Seq<(Seq<char>, SchemaView)>,
    object: SchemaObjectView,
    expanding: Set<int>,
) -> Option<Built>
    decreases unexpanded(definitions.len() as int, expanding).len(), fragment_rank(object), object,
        0int,
{
    match object.subschemas {
        Some(SubschemaValidationView { one_of: Some(branches), .. }) => Some(
            any_branch(
                build_list("one_of"@, definitions, branches, expanding, branches.len() as int),
            ),
        ),
        _ => None,
    }
}

/// What `anyOf` gives: one alternative for each branch, as for `oneOf`.
pub open spec fn any_of_part(
    definitions: Seq<(Seq<char>, SchemaView)>,
    object: SchemaObjectView,
    expanding: Set<int>,
) -> Option<Built>
    decreases unexpanded(definitions.len() as int, expanding).len(), fragment_rank(object), object,
        0int,
{
    match object.subschemas {
        Some(SubschemaValidationView { any_of: Some(branches), .. }) => Some(
            any_branch(
                build_list("any_of"@, definitions, branches, expanding, branches.len() as int),
            ),
        ),
        _ => None,
    }
}

/// What `$ref` gives: the tree of the definition that it names, built with
/// that definition marked as being expanded. A name that the table does
/// not hold, and one that is being expanded already, are failures. A
/// reference of another form than `#/definitions/<name>` is not read.
pub open spec fn reference_part(
    from: Seq<char>,
    definitions: Seq<(Seq<char>, SchemaView)>,
    object: SchemaObjectView,
    expanding: Set<int>,
) -> Option<Built>
    decreases unexpanded(definitions.len() as int, expanding).len(), fragment_rank(object), object,
        0int,
{
    match object.reference {
        Some(reference) => match reference_target(reference) {
            Some(name) => Some(
                match find_definition(definitions, name) {
                    None => Err(BuildErrorView::UnresolvedReference { from, name }),
                    Some(at) => if expanding.contains(at) {
                        Err(BuildErrorView::CyclicReference { from, name })
                    } else {
                        proof {
                            lemma_unexpanded_shrinks(definitions.len() as int, expanding, at);
                        }
                        build_schema(
                            "definition"@,
                            definitions,
                            definitions[at].1,
                            expanding.insert(at),
                        )
                    },
                },
            ),
            None => None,
        },
        None => None,
    }
}

/// The tree of a fragment. Each keyword that is present gives a tree of its
/// own, and these are merged one after the other into an unconstrained
/// tree, in the order `type`, the shape of an object, `enum`, the shape of
/// an array, `allOf`, `oneOf`, `anyOf`, `$ref`. The first failure ends the
/// build. The fragment's metadata goes on the result.
///
/// `from` is the label under which a failure of this fragment is reported,
/// and `expanding` holds the definitions, by index, in whose expansion the
/// fragment stands.
pub open spec fn build_object(
    from: Seq<char>,
    definitions: Seq<(Seq<char>, SchemaView)>,
    object: SchemaObjectView,
    expanding: Set<int>,
) -> Built
    decreases unexpanded(definitions.len() as int, expanding).len(), fragment_rank(object), object,
        1int,
{
    let tree = Ok(TreeView::plain(NodeView::Any));
    let tree = fold_part(from, tree, types_part(object));
    let tree = fold_part(from, tree, object_part(definitions, object, expanding));
    let tree = fold_part(from, tree, literals_part(object));
    let tree = fold_part(from, tree, array_part(definitions, object, expanding));
    let tree = fold_part(from, tree, all_of_part(from, definitions, object, expanding));
    let tree = fold_part(from, tree, one_of_part(definitions, object, expanding));
    let tree = fold_part(from, tree, any_of_part(definitions, object, expanding));
    let tree = fold_part(from, tree, reference_part(from, definitions, object, expanding));
    match tree {
        Ok(tree) => Ok(with_metadata(tree, object.metadata)),
        Err(error) => Err(error),
    }
}

/// The tree of a schema document: that of its root fragment, built under
/// the label `root` with no definition being expanded.
pub open spec fn build_root(root: RootSchemaView) -> Built {
    build_object("root"@, root.definitions, root.schema, Set::empty())
}

/// The view of what a build returns.
pub open spec fn built_view(built: Result<NodeContainer, BuildError>) -> Built {
    match built {
        Ok(tree) => Ok(tree@),
        Err(error) => Err(error@),
    }
}

/// The indices that a mask marks.
pub open spec fn mask_set(mask: Seq<bool>) -> Set<int> {
    Set::new(|i: int| 0 <= i < mask.len() && mask[i])
}

/// Once one of the schemas has failed, the schemas after it are not built:
/// the failure is that of the whole list.
proof fn lemma_list_failure_stays(
    from: Seq<char>,
    definitions: Seq<(Seq<char>, SchemaView)>,
    schemas: Seq<SchemaView>,
    expanding: Set<int>,
    failed: int,
    count: int,
)
    requires
        0 <= failed <= count <= schemas.len(),
        build_list(from, definitions, schemas, expanding, failed) is Err,
    ensures
        build_list(from, definitions, schemas, expanding, count) == build_list(
            from,
            definitions,
            schemas,
            expanding,
            failed,
        ),
    decreases count - failed,
{
    if failed < count {
        lemma_list_failure_stays(from, definitions, schemas, expanding, failed, count - 1);
    }
}

/// Once one of the properties has failed, the properties after it are not
/// built: the failure is that of them all.
proof fn lemma_properties_failure_stays(
    definitions: Seq<(Seq<char>, SchemaView)>,
    properties: Seq<(Seq<char>, SchemaView)>,
    expanding: Set<int>,
    failed: int,
    count: int,
)
    requires
        0 <= failed <= count <= properties.len(),
        build_properties(definitions, properties, expanding, failed) is Err,
    ensures
        build_properties(definitions, properties, expanding, count) == build_properties(
            definitions,
            properties,
            expanding,
            failed,
        ),
    decreases count - failed,
{
    if failed < count {
        lemma_properties_failure_stays(definitions, properties, expanding, failed, count - 1);
    }
}

impl NodeContainer {
    /// `self` with the metadata of a fragment: a fragment that has metadata
    /// gives its title and description, one that has none leaves the tree's.
    pub fn metadata(self, metadata: &Option<Metadata>) -> (tree: NodeContainer)
        ensures
            tree@ == with_metadata(self@, optional_metadata_view(*metadata)),
    {
        match metadata {
            Some(metadata) => NodeContainer {
                node: self.node,
                title: clone_text(&metadata.title),
                desc: clone_text(&metadata.description),
            },
            None => self,
        }
    }

    /// Builds the node tree of a schema document: that of its root
    /// fragment, under the label `root`, with no definition being expanded.
    /// The tree is well formed.
    pub fn from_json_schema(schema: &RootSchema) -> (built: Result<NodeContainer, BuildError>)
        ensures
            built_view(built) == build_root(schema@),
            built matches Ok(tree) ==> well_formed(tree@),
    {
        schema_object_to_node("root", &schema.definitions, &schema.schema)
    }
}

/// Builds the node tree of the fragment `schema_object`, with `def` as the
/// table of definitions and no definition being expanded. `from` is the
/// label under which a failure in this fragment is reported. The tree is
/// well formed.
pub fn schema_object_to_node(from: &str, def: &Vec<(String, Schema)>, schema_object: &SchemaObject)
    -> (built: Result<NodeContainer, BuildError>)
    ensures
        built_view(built) == build_object(
            from@,
            named_schemas_view(*def),
            schema_object@,
            Set::empty(),
        ),
        built matches Ok(tree) ==> well_formed(tree@),
{
    proof {
        lemma_object_is_well_formed(
            from@,
            named_schemas_view(*def),
            schema_object@,
            Set::empty(),
        );
    }
    let mut expanding: Vec<bool> = Vec::new();
    while expanding.len() < def.len()
        invariant
            expanding.len() <= def.len(),
            forall|i: int| 0 <= i < expanding.len() ==> !expanding[i],
        decreases def.len() - expanding.len(),
    {
        expanding.push(false);
    }
    assert(mask_set(expanding@) =~= Set::empty());
    expand_object(from, def, schema_object, &expanding)
}

/// The numeric subkind that `format` selects, `default` where it selects
/// none.
fn number_kind_of(format: &Option<String>, default: NumberKind) -> (kind: NumberKind)
    ensures
        kind == number_kind(text_view(*format), default),
{
    match format {
        Some(hint) => match NumberKind::kind_from_str(hint.as_str()) {
            Some(kind) => kind,
            None => default,
        },
        None => default,
    }
}

/// The node of a single type name.
fn instance_type_to_node(instance_type: InstanceType, format: &Option<String>) -> (node: Node)
    ensures
        node@ == type_node(instance_type, text_view(*format)),
{
    match instance_type {
        InstanceType::Null => Node::Null,
        InstanceType::Boolean => Node::Bool,
        InstanceType::Object => {
            let node = Node::Object(NodeObject { nodes: Vec::new(), additional: None });
            assert(node@->properties =~= Seq::empty());
            node
        },
        InstanceType::Array => Node::Array(
            NodeArray {
                template: NodeArrayTemplate::All(Box::new(NodeContainer::from_node(Node::Any))),
                min: None,
                max: None,
            },
        ),
        InstanceType::Number => Node::Number(number_kind_of(format, NumberKind::F64)),
        InstanceType::String => Node::String,
        InstanceType::Integer => Node::Number(number_kind_of(format, NumberKind::I128)),
    }
}

/// The tree of the `type` keyword.
fn types_to_tree(types: &InstanceTypes, format: &Option<String>) -> (tree: NodeContainer)
    ensures
        tree@ == type_tree(types@, text_view(*format)),
{
    match types {
        InstanceTypes::Single(instance_type) => NodeContainer::from_node(
            instance_type_to_node(*instance_type, format),
        ),
        InstanceTypes::Vec(names) => {
            let mut nodes: Vec<NodeContainer> = Vec::new();
            let mut i: usize = 0;
            while i < names.len()
                invariant
                    i <= names.len(),
                    nodes.len() == i,
                    forall|j: int|
                        0 <= j < i ==> nodes[j]@ == TreeView::plain(
                            type_node(names[j], text_view(*format)),
                        ),
                decreases names.len() - i,
            {
                nodes.push(NodeContainer::from_node(instance_type_to_node(names[i], format)));
                i += 1;
            }
            let tree = NodeContainer::from_node(Node::Enum(NodeEnum { nodes }));
            assert(tree@.node->Enum_0 =~= type_tree(types@, text_view(*format)).node->Enum_0);
            tree
        },
    }
}

/// The tree of the `enum` keyword.
fn literals_to_tree(literals: &Vec<Literal>) -> (tree: NodeContainer)
    ensures
        tree@ == literals_tree(literals_view(*literals)),
{
    if literals.len() == 1 {
        NodeContainer::from_node(Node::Value(NodeValue { value: literals[0].clone() }))
    } else {
        let mut nodes: Vec<NodeContainer> = Vec::new();
        let mut i: usize = 0;
        while i < literals.len()
            invariant
                i <= literals.len(),
                nodes.len() == i,
                forall|j: int|
                    0 <= j < i ==> nodes[j]@ == TreeView::plain(NodeView::Value(literals[j]@)),
            decreases literals.len() - i,
        {
            nodes.push(
                NodeContainer::from_node(Node::Value(NodeValue { value: literals[i].clone() })),
            );
            i += 1;
        }
        let tree = NodeContainer::from_node(Node::Enum(NodeEnum { nodes }));
        assert(tree@.node->Enum_0 =~= literals_tree(literals_view(*literals)).node->Enum_0);
        tree
    }
}

/// What the `type` keyword gives.
fn types_to_part(schema_object: &SchemaObject) -> (part: Option<Result<NodeContainer, BuildError>>)
    ensures
        part_view(part) == types_part(schema_object@),
{
    match &schema_object.instance_type {
        Some(types) => Some(Ok(types_to_tree(types, &schema_object.format))),
        None => None,
    }
}

/// What the `enum` keyword gives.
fn literals_to_part(schema_object: &SchemaObject) -> (part: Option<
    Result<NodeContainer, BuildError>,
>)
    ensures
        part_view(part) == literals_part(schema_object@),
{
    match &schema_object.enum_values {
        Some(literals) => Some(Ok(literals_to_tree(literals))),
        None => None,
    }
}

/// Merges the tree of one keyword into the tree of the keywords before it.
fn merge_part(from: &str, tree: NodeContainer, part: &NodeContainer) -> (merged: Result<
    NodeContainer,
    BuildError,
>)
    ensures
        built_view(merged) == fold_part(from@, Ok(tree@), Some(Ok(part@))),
{
    match tree.merge(part) {
        Ok(merged) => Ok(merged),
        Err(MergeError::Conflict) => Err(
            BuildError::MergeConflict { from: String::from_str(from) },
        ),
        Err(MergeError::Unsupported) => Err(
            BuildError::UnsupportedComposition { from: String::from_str(from) },
        ),
    }
}

/// A copy of the mask `expanding` that marks `at` too.
fn mark_expanding(expanding: &Vec<bool>, at: usize) -> (marked: Vec<bool>)
    requires
        at < expanding.len(),
    ensures
        marked.len() == expanding.len(),
        mask_set(marked@) == mask_set(expanding@).insert(at as int),
{
    let mut marked: Vec<bool> = Vec::new();
    let mut i: usize = 0;
    while i < expanding.len()
        invariant
            i <= expanding.len(),
            marked.len() == i,
            forall|j: int| 0 <= j < i ==> marked[j] == (expanding[j] || j == at),
        decreases expanding.len() - i,
    {
        marked.push(expanding[i] || i == at);
        i += 1;
    }
    assert(mask_set(marked@) =~= mask_set(expanding@).insert(at as int));
    marked
}

/// Builds the tree of a schema, with `expanding` as the mask of the
/// definitions in whose expansion it stands.
fn expand_schema(from: &str, def: &Vec<(String, Schema)>, schema: &Schema, expanding: &Vec<bool>)
    -> (built: Result<NodeContainer, BuildError>)
    requires
        expanding.len() == def.len(),
    ensures
        built_view(built) == build_schema(
            from@,
            named_schemas_view(*def),
            schema@,
            mask_set(expanding@),
        ),
    decreases unexpanded(def.len() as int, mask_set(expanding@)).len(), 1int, schema, 0int,
{
    let object = schema.to_object();
    expand_object(from, def, object.get(), expanding)
}

/// Builds the trees of `schemas`, in order, up to the first that fails.
fn expand_list(
    from: &str,
    def: &Vec<(String, Schema)>,
    schemas: &Vec<Schema>,
    expanding: &Vec<bool>,
) -> (built: Result<Vec<NodeContainer>, BuildError>)
    requires
        expanding.len() == def.len(),
    ensures
        match built {
            Ok(trees) => build_list(
                from@,
                named_schemas_view(*def),
                schemas_view(*schemas),
                mask_set(expanding@),
                schemas.len() as int,
            ) == Ok::<Seq<TreeView>, BuildErrorView>(trees_view(trees)),
            Err(error) => build_list(
                from@,
                named_schemas_view(*def),
                schemas_view(*schemas),
                mask_set(expanding@),
                schemas.len() as int,
            ) == Err::<Seq<TreeView>, BuildErrorView>(error@),
        },
    decreases unexpanded(def.len() as int, mask_set(expanding@)).len(), 1int, schemas, 0int,
{
    let mut trees: Vec<NodeContainer> = Vec::new();
    let mut i: usize = 0;
    assert(trees_view(trees) =~= Seq::empty());
    while i < schemas.len()
        invariant
            expanding.len() == def.len(),
            i <= schemas.len(),
            build_list(
                from@,
                named_schemas_view(*def),
                schemas_view(*schemas),
                mask_set(expanding@),
                i as int,
            ) == Ok::<
                Seq<TreeView>,
                BuildErrorView,
            >(trees_view(trees)),
        decreases schemas.len() - i,
    {
        let ghost before = trees_view(trees);
        match expand_schema(from, def, &schemas[i], expanding) {
            Ok(tree) => {
                trees.push(tree);
                assert(trees_view(trees) =~= before.push(tree@));
            },
            Err(error) => {
                proof {
                    lemma_list_failure_stays(
                        from@,
                        named_schemas_view(*def),
                        schemas_view(*schemas),
                        mask_set(expanding@),
                        i + 1,
                        schemas.len() as int,
                    );
                }
                return Err(error);
            },
        }
        i += 1;
    }
    Ok(trees)
}

/// Builds the declared properties of an object, in order, up to the first
/// that fails.
fn expand_properties(
    def: &Vec<(String, Schema)>,
    properties: &Vec<(String, Schema)>,
    expanding: &Vec<bool>,
) -> (built: Result<NodeObject, BuildError>)
    requires
        expanding.len() == def.len(),
    ensures
        match built {
            Ok(object) => object.additional is None && build_properties(
                named_schemas_view(*def),
                named_schemas_view(*properties),
                mask_set(expanding@),
                properties.len() as int,
            ) == Ok::<Seq<(Seq<char>, TreeView)>, BuildErrorView>(properties_view(object.nodes)),
            Err(error) => build_properties(
                named_schemas_view(*def),
                named_schemas_view(*properties),
                mask_set(expanding@),
                properties.len() as int,
            ) == Err::<Seq<(Seq<char>, TreeView)>, BuildErrorView>(error@),
        },
    decreases unexpanded(def.len() as int, mask_set(expanding@)).len(), 1int, properties, 0int,
{
    let mut object = NodeObject { nodes: Vec::new(), additional: None };
    let mut i: usize = 0;
    assert(properties_view(object.nodes) =~= Seq::empty());
    while i < properties.len()
        invariant
            expanding.len() == def.len(),
            i <= properties.len(),
            object.additional is None,
            build_properties(
                named_schemas_view(*def),
                named_schemas_view(*properties),
                mask_set(expanding@),
                i as int,
            ) == Ok::<
                Seq<(Seq<char>, TreeView)>,
                BuildErrorView,
            >(properties_view(object.nodes)),
        decreases properties.len() - i,
    {
        match expand_schema("object", def, &properties[i].1, expanding) {
            Ok(tree) => {
                object.insert(properties[i].0.clone(), tree);
            },
            Err(error) => {
                proof {
                    lemma_properties_failure_stays(
                        named_schemas_view(*def),
                        named_schemas_view(*properties),
                        mask_set(expanding@),
                        i + 1,
                        properties.len() as int,
                    );
                }
                return Err(error);
            },
        }
        i += 1;
    }
    Ok(object)
}

/// Builds the tree of the keywords on the shape of an object.
fn expand_object_shape(
    def: &Vec<(String, Schema)>,
    shape: &ObjectValidation,
    expanding: &Vec<bool>,
) -> (built: Result<NodeContainer, BuildError>)
    requires
        expanding.len() == def.len(),
    ensures
        built_view(built) == build_object_shape(
            named_schemas_view(*def),
            shape@,
            mask_set(expanding@),
        ),
    decreases unexpanded(def.len() as int, mask_set(expanding@)).len(), 1int, shape, 0int,
{
    let mut object = expand_properties(def, &shape.properties, expanding)?;
    if shape.properties.len() == 0 {
        if let Some(schema) = &shape.additional_properties {
            let tree = expand_schema("object", def, schema, expanding)?;
            object.additional = Some(Box::new(tree));
        }
    }
    Ok(NodeContainer::from_node(Node::Object(object)))
}

/// Builds the tree of the keywords on the shape of an array.
fn expand_array_shape(
    def: &Vec<(String, Schema)>,
    shape: &ArrayValidation,
    expanding: &Vec<bool>,
) -> (built: Result<NodeContainer, BuildError>)
    requires
        expanding.len() == def.len(),
    ensures
        built_view(built) == build_array_shape(
            named_schemas_view(*def),
            shape@,
            mask_set(expanding@),
        ),
    decreases unexpanded(def.len() as int, mask_set(expanding@)).len(), 1int, shape, 0int,
{
    let template = match &shape.items {
        Some(Items::Single(schema)) => {
            let tree = expand_schema("array single", def, schema, expanding)?;
            NodeArrayTemplate::All(Box::new(tree))
        },
        Some(Items::Vec(schemas)) => {
            let trees = expand_list("array multiple", def, schemas, expanding)?;
            NodeArrayTemplate::FirstN(trees)
        },
        None => NodeArrayTemplate::All(Box::new(NodeContainer::from_node(Node::Any))),
    };
    Ok(
        NodeContainer::from_node(
            Node::Array(NodeArray { template, min: shape.min_items, max: shape.max_items }),
        ),
    )
}

/// The view of what one keyword gives.
pub open spec fn part_view(part: Option<Result<NodeContainer, BuildError>>) -> Option<Built> {
    match part {
        Some(built) => Some(built_view(built)),
        None => None,
    }
}

/// Folds what one keyword gives into the tree of the keywords before it.
fn fold_tree(from: &str, tree: NodeContainer, part: Option<Result<NodeContainer, BuildError>>)
    -> (folded: Result<NodeContainer, BuildError>)
    ensures
        built_view(folded) == fold_part(from@, Ok(tree@), part_view(part)),
{
    match part {
        None => Ok(tree),
        Some(Err(error)) => Err(error),
        Some(Ok(other)) => merge_part(from, tree, &other),
    }
}

/// What the keywords on the shape of an object give.
fn expand_object_part(
    def: &Vec<(String, Schema)>,
    schema_object: &SchemaObject,
    expanding: &Vec<bool>,
) -> (part: Option<Result<NodeContainer, BuildError>>)
    requires
        expanding.len() == def.len(),
    ensures
        part_view(part) == object_part(
            named_schemas_view(*def),
            schema_object@,
            mask_set(expanding@),
        ),
    decreases unexpanded(def.len() as int, mask_set(expanding@)).len(),
        fragment_rank(schema_object@), schema_object, 0int,
{
    match &schema_object.object {
        Some(shape) => Some(expand_object_shape(def, shape, expanding)),
        None => None,
    }
}

/// What the keywords on the shape of an array give.
fn expand_array_part(
    def: &Vec<(String, Schema)>,
    schema_object: &SchemaObject,
    expanding: &Vec<bool>,
) -> (part: Option<Result<NodeContainer, BuildError>>)
    requires
        expanding.len() == def.len(),
    ensures
        part_view(part) == array_part(
            named_schemas_view(*def),
            schema_object@,
            mask_set(expanding@),
        ),
    decreases unexpanded(def.len() as int, mask_set(expanding@)).len(),
        fragment_rank(schema_object@), schema_object, 0int,
{
    match &schema_object.array {
        Some(shape) => Some(expand_array_shape(def, shape, expanding)),
        None => None,
    }
}

/// What `allOf` gives.
fn expand_all_of(
    from: &str,
    def: &Vec<(String, Schema)>,
    schema_object: &SchemaObject,
    expanding: &Vec<bool>,
) -> (part: Option<Result<NodeContainer, BuildError>>)
    requires
        expanding.len() == def.len(),
    ensures
        part_view(part) == all_of_part(
            from@,
            named_schemas_view(*def),
            schema_object@,
            mask_set(expanding@),
        ),
    decreases unexpanded(def.len() as int, mask_set(expanding@)).len(),
        fragment_rank(schema_object@), schema_object, 0int,
{
    match &schema_object.subschemas {
        Some(SubschemaValidation { all_of: Some(all_of), .. }) => {
            match expand_list("all_of", def, all_of, expanding) {
                Err(error) => Some(Err(error)),
                Ok(mut nodes) => {
                    if nodes.len() == 1 {
                        Some(Ok(nodes.remove(0)))
                    } else {
                        Some(
                            Err(
                                BuildError::UnsupportedComposition {
                                    from: String::from_str(from),
                                },
                            ),
                        )
                    }
                },
            }
        },
        _ => None,
    }
}

/// What `oneOf` gives.
fn expand_one_of(
    def: &Vec<(String, Schema)>,
    schema_object: &SchemaObject,
    expanding: &Vec<bool>,
) -> (part: Option<Result<NodeContainer, BuildError>>)
    requires
        expanding.len() == def.len(),
    ensures
        part_view(part) == one_of_part(
            named_schemas_view(*def),
            schema_object@,
            mask_set(expanding@),
        ),
    decreases unexpanded(def.len() as int, mask_set(expanding@)).len(),
        fragment_rank(schema_object@), schema_object, 0int,
{
    match &schema_object.subschemas {
        Some(SubschemaValidation { one_of: Some(one_of), .. }) => {
            match expand_list("one_of", def, one_of, expanding) {
                Err(error) => Some(Err(error)),
                Ok(nodes) => Some(Ok(NodeContainer::from_node(Node::Enum(NodeEnum { nodes })))),
            }
        },
        _ => None,
    }
}

/// What `anyOf` gives.
fn expand_any_of(
    def: &Vec<(String, Schema)>,
    schema_object: &SchemaObject,
    expanding: &Vec<bool>,
) -> (part: Option<Result<NodeContainer, BuildError>>)
    requires
        expanding.len() == def.len(),
    ensures
        part_view(part) == any_of_part(
            named_schemas_view(*def),
            schema_object@,
            mask_set(expanding@),
        ),
    decreases unexpanded(def.len() as int, mask_set(expanding@)).len(),
        fragment_rank(schema_object@), schema_object, 0int,
{
    match &schema_object.subschemas {
        Some(SubschemaValidation { any_of: Some(any_of), .. }) => {
            match expand_list("any_of", def, any_of, expanding) {
                Err(error) => Some(Err(error)),
                Ok(nodes) => Some(Ok(NodeContainer::from_node(Node::Enum(NodeEnum { nodes })))),
            }
        },
        _ => None,
    }
}

/// What `$ref` gives.
fn expand_reference(
    from: &str,
    def: &Vec<(String, Schema)>,
    schema_object: &SchemaObject,
    expanding: &Vec<bool>,
) -> (part: Option<Result<NodeContainer, BuildError>>)
    requires
        expanding.len() == def.len(),
    ensures
        part_view(part) == reference_part(
            from@,
            named_schemas_view(*def),
            schema_object@,
            mask_set(expanding@),
        ),
    decreases unexpanded(def.len() as int, mask_set(expanding@)).len(),
        fragment_rank(schema_object@), schema_object, 0int,
{
    let reference = match &schema_object.reference {
        Some(reference) => reference,
        None => {
            return None;
        },
    };
    let name = match definition_name(reference.as_str()) {
        Some(name) => name,
        None => {
            return None;
        },
    };
    let at = match resolve_reference(from, name, def) {
        Ok(at) => at,
        Err(error) => {
            return Some(Err(error));
        },
    };
    if expanding[at] {
        return Some(
            Err(
                BuildError::CyclicReference {
                    from: String::from_str(from),
                    name: String::from_str(name),
                },
            ),
        );
    }
    let marked = mark_expanding(expanding, at);
    proof {
        lemma_unexpanded_shrinks(def.len() as int, mask_set(expanding@), at as int);
    }
    Some(expand_schema("definition", def, &def[at].1, &marked))
}

/// Builds the tree of a fragment, with `expanding` as the mask of the
/// definitions in whose expansion it stands.
fn expand_object(
    from: &str,
    def: &Vec<(String, Schema)>,
    schema_object: &SchemaObject,
    expanding: &Vec<bool>,
) -> (built: Result<NodeContainer, BuildError>)
    requires
        expanding.len() == def.len(),
    ensures
        built_view(built) == build_object(
            from@,
            named_schemas_view(*def),
            schema_object@,
            mask_set(expanding@),
        ),
    decreases unexpanded(def.len() as int, mask_set(expanding@)).len(),
        fragment_rank(schema_object@), schema_object, 1int,
{
    let res = NodeContainer::from_node(Node::Any);
    let res = fold_tree(from, res, types_to_part(schema_object))?;
    let res = fold_tree(from, res, expand_object_part(def, schema_object, expanding))?;
    let res = fold_tree(from, res, literals_to_part(schema_object))?;
    let res = fold_tree(from, res, expand_array_part(def, schema_object, expanding))?;
    let res = fold_tree(from, res, expand_all_of(from, def, schema_object, expanding))?;
    let res = fold_tree(from, res, expand_one_of(def, schema_object, expanding))?;
    let res = fold_tree(from, res, expand_any_of(def, schema_object, expanding))?;
    let res = fold_tree(from, res, expand_reference(from, def, schema_object, expanding))?;
    Ok(res.metadata(&schema_object.metadata))
}

} // verus!
