//! The node algebra: the closed set of shapes that a value may be asked to have.

use crate::literal::{Literal, LiteralView};
use crate::text::{clone_text, same_text, text_view};
use vstd::prelude::*;

verus! {

/// The numeric subkind of a [`Node::Number`].
#[derive(Clone, Copy, Debug, PartialEq, Eq, Structural)]
pub enum NumberKind {
    /// An unsigned integer of 64 bits.
    U64,
    /// A signed integer of 64 bits.
    I64,
    /// A signed integer of 128 bits.
    I128,
    /// A double-precision floating-point number.
    F64,
}

/// The numeric subkind that a format hint names, if it names one: `uint8`,
/// `uint16`, `uint32`, `uint64` and `uint` name the unsigned integers,
/// `int8`, `int16`, `int32`, `int64` and `int` the signed ones, `int128` the
/// integers of 128 bits, and `float` and `double` the floating-point numbers.
pub open spec fn kind_of_format(format: Seq<char>) -> Option<NumberKind> {
    if format == "uint8"@ || format == "uint16"@ || format == "uint32"@ || format == "uint64"@
        || format == "uint"@ {
        Some(NumberKind::U64)
    } else if format == "int8"@ || format == "int16"@ || format == "int32"@ || format == "int64"@
        || format == "int"@ {
        Some(NumberKind::I64)
    } else if format == "int128"@ {
        Some(NumberKind::I128)
    } else if format == "float"@ || format == "double"@ {
        Some(NumberKind::F64)
    } else {
        None
    }
}

impl NumberKind {
    /// The numeric subkind that a format hint names, if it names one.
    pub fn kind_from_str(format: &str) -> (kind: Option<NumberKind>)
        ensures
            kind == kind_of_format(format@),
    {
        if same_text(format, "uint8")
            || same_text(format, "uint16")
            || same_text(format, "uint32")
            || same_text(format, "uint64")
            || same_text(format, "uint") {
            Some(NumberKind::U64)
        } else if same_text(format, "int8")
            || same_text(format, "int16")
            || same_text(format, "int32")
            || same_text(format, "int64")
            || same_text(format, "int") {
            Some(NumberKind::I64)
        } else if same_text(format, "int128") {
            Some(NumberKind::I128)
        } else if same_text(format, "float") || same_text(format, "double") {
            Some(NumberKind::F64)
        } else {
            None
        }
    }
}

/// One permissible shape of a value.
#[derive(Debug, PartialEq, Eq)]
pub enum Node {
    /// Unconstrained: anything matches.
    Any,
    /// Absent or null.
    Null,
    /// A boolean.
    Bool,
    /// A string.
    String,
    /// A number of the given subkind.
    Number(NumberKind),
    /// A keyed record.
    Object(NodeObject),
    /// A sequence.
    Array(NodeArray),
    /// A closed set of alternatives, any one of which may match.
    Enum(NodeEnum),
    /// A single literal that must match exactly.
    Value(NodeValue),
}

/// The shape of a keyed record.
#[derive(Debug, PartialEq, Eq)]
pub struct NodeObject {
    /// The listed properties, in the order in which they were first inserted.
    pub nodes: Vec<(String, NodeContainer)>,
    /// The shape of the properties that are not listed, if they are allowed.
    pub additional: Option<Box<NodeContainer>>,
}

/// What the elements of an array must match.
#[derive(Debug, PartialEq, Eq)]
pub enum NodeArrayTemplate {
    /// Every element matches one shared shape.
    All(Box<NodeContainer>),
    /// The first elements match the shapes given, position by position.
    FirstN(Vec<NodeContainer>),
}

/// The shape of a sequence.
#[derive(Debug, PartialEq, Eq)]
pub struct NodeArray {
    pub template: NodeArrayTemplate,
    /// The minimum length, if there is one.
    pub min: Option<u32>,
    /// The maximum length, if there is one.
    pub max: Option<u32>,
}

/// A closed set of alternatives.
#[derive(Debug, PartialEq, Eq)]
pub struct NodeEnum {
    pub nodes: Vec<NodeContainer>,
}

/// A literal constant.
#[derive(Debug, PartialEq, Eq)]
pub struct NodeValue {
    pub value: Literal,
}

/// A node tree: a [`Node`] with the metadata that describes it. The metadata
/// has no part in matching.
#[derive(Debug, PartialEq, Eq)]
pub struct NodeContainer {
    pub node: Node,
    pub title: Option<String>,
    pub desc: Option<String>,
}

/// The mathematical value of an array template.
pub enum TemplateView {
    All(Box<TreeView>),
    FirstN(Seq<TreeView>),
}

/// The mathematical value of a [`Node`].
pub enum NodeView {
    Any,
    Null,
    Bool,
    String,
    Number(NumberKind),
    Object { properties: Seq<(Seq<char>, TreeView)>, additional: Option<Box<TreeView>> },
    Array { template: TemplateView, min: Option<u32>, max: Option<u32> },
    Enum(Seq<TreeView>),
    Value(LiteralView),
}

/// The mathematical value of a [`NodeContainer`].
pub struct TreeView {
    pub node: NodeView,
    pub title: Option<Seq<char>>,
    pub description: Option<Seq<char>>,
}

impl TreeView {
    /// The tree that holds `node` and no metadata.
    pub open spec fn plain(node: NodeView) -> TreeView {
        TreeView { node, title: None, description: None }
    }
}

/// The views of the trees of `nodes`, in order.
pub open spec fn trees_view(nodes: Vec<NodeContainer>) -> Seq<TreeView>
    decreases nodes,
{
    Seq::new(
        nodes.len() as nat,
        |i: int|
            if 0 <= i < nodes.len() {
                tree_view(nodes[i])
            } else {
                TreeView::plain(NodeView::Any)
            },
    )
}

/// The views of the properties of a record, in order.
pub open spec fn properties_view(nodes: Vec<(String, NodeContainer)>) -> Seq<(Seq<char>, TreeView)>
    decreases nodes,
{
    Seq::new(
        nodes.len() as nat,
        |i: int|
            if 0 <= i < nodes.len() {
                (nodes[i].0@, tree_view(nodes[i].1))
            } else {
                (Seq::empty(), TreeView::plain(NodeView::Any))
            },
    )
}

/// No two of `properties` have the same name.
pub open spec fn distinct_names(properties: Seq<(Seq<char>, TreeView)>) -> bool {
    forall|i: int, j: int|
        0 <= i < j < properties.len() ==> (#[trigger] properties[i]).0 != (
        #[trigger] properties[j]).0
}

/// Every record in `tree`, at any depth, names each of its properties once.
pub open spec fn well_formed(tree: TreeView) -> bool
    decreases tree,
{
    match tree.node {
        NodeView::Object { properties, additional } => {
            &&& distinct_names(properties)
            &&& forall|i: int|
                0 <= i < properties.len() ==> well_formed((#[trigger] properties[i]).1)
            &&& additional matches Some(rest) ==> well_formed(*rest)
        },
        NodeView::Array { template, .. } => match template {
            TemplateView::All(shared) => well_formed(*shared),
            TemplateView::FirstN(trees) => all_well_formed(trees),
        },
        NodeView::Enum(alternatives) => all_well_formed(alternatives),
        _ => true,
    }
}

/// Every tree of `trees` is well formed.
pub open spec fn all_well_formed(trees: Seq<TreeView>) -> bool
    decreases trees,
{
    forall|i: int| 0 <= i < trees.len() ==> well_formed(#[trigger] trees[i])
}

/// `at` is the first of `properties` that is named `name`.
pub open spec fn is_property_at(properties: Seq<(Seq<char>, TreeView)>, name: Seq<char>, at: int)
    -> bool {
    &&& 0 <= at < properties.len()
    &&& properties[at].0 == name
    &&& forall|i: int| 0 <= i < at ==> (#[trigger] properties[i]).0 != name
}

/// The index of the first of `properties` that is named `name`, if there is
/// one.
pub open spec fn property_index(properties: Seq<(Seq<char>, TreeView)>, name: Seq<char>) -> Option<
    int,
> {
    if exists|at: int| is_property_at(properties, name, at) {
        Some(choose|at: int| is_property_at(properties, name, at))
    } else {
        None
    }
}

/// `properties` after the insertion of `tree` under `name`: a property of
/// that name keeps its place and takes the new tree, a new name goes to the
/// end.
pub open spec fn insert_property(
    properties: Seq<(Seq<char>, TreeView)>,
    name: Seq<char>,
    tree: TreeView,
) -> Seq<(Seq<char>, TreeView)> {
    match property_index(properties, name) {
        Some(at) => properties.update(at, (name, tree)),
        None => properties.push((name, tree)),
    }
}

/// Insertion keeps records well formed: the names stay distinct, and the
/// trees stay well formed where the new one is.
pub proof fn lemma_insert_keeps_names_distinct(
    properties: Seq<(Seq<char>, TreeView)>,
    name: Seq<char>,
    tree: TreeView,
)
    requires
        distinct_names(properties),
    ensures
        distinct_names(insert_property(properties, name, tree)),
        (well_formed(tree) && forall|i: int|
            0 <= i < properties.len() ==> well_formed((#[trigger] properties[i]).1)) ==> forall|
            i: int,
        |
            0 <= i < insert_property(properties, name, tree).len() ==> well_formed(
                (#[trigger] insert_property(properties, name, tree)[i]).1,
            ),
{
    let after = insert_property(properties, name, tree);
    match property_index(properties, name) {
        Some(at) => {
            assert(is_property_at(properties, name, at));
            assert forall|i: int, j: int| 0 <= i < j < after.len() implies (#[trigger] after[i]).0
                != (#[trigger] after[j]).0 by {
                assert(after[i].0 == properties[i].0);
                assert(after[j].0 == properties[j].0);
            }
        },
        None => {
            assert forall|i: int, j: int| 0 <= i < j < after.len() implies (#[trigger] after[i]).0
                != (#[trigger] after[j]).0 by {
                if j == properties.len() {
                    assert(after[i] == properties[i]);
                    if properties[i].0 == name {
                        lemma_named_property_has_index(properties, name, i);
                    }
                } else {
                    assert(after[i] == properties[i]);
                    assert(after[j] == properties[j]);
                }
            }
        },
    }
}

/// A name that some property has is found.
proof fn lemma_named_property_has_index(
    properties: Seq<(Seq<char>, TreeView)>,
    name: Seq<char>,
    at: int,
)
    requires
        0 <= at < properties.len(),
        properties[at].0 == name,
    ensures
        property_index(properties, name) is Some,
    decreases at,
{
    if forall|i: int| 0 <= i < at ==> (#[trigger] properties[i]).0 != name {
        assert(is_property_at(properties, name, at));
    } else {
        let earlier = choose|i: int| 0 <= i < at && (#[trigger] properties[i]).0 == name;
        lemma_named_property_has_index(properties, name, earlier);
    }
}

impl NodeObject {
    /// Inserts `node` under `name`: a property of that name keeps its place
    /// and takes the new tree, a new name goes to the end. Names that were
    /// distinct stay so.
    pub fn insert(&mut self, name: String, node: NodeContainer)
        ensures
            properties_view(final(self).nodes) == insert_property(
                properties_view(old(self).nodes),
                name@,
                node@,
            ),
            final(self).additional == old(self).additional,
            distinct_names(properties_view(old(self).nodes)) ==> distinct_names(
                properties_view(final(self).nodes),
            ),
    {
        let ghost before = properties_view(self.nodes);
        proof {
            if distinct_names(before) {
                lemma_insert_keeps_names_distinct(before, name@, node@);
            }
        }
        let mut i: usize = 0;
        while i < self.nodes.len()
            invariant
                i <= self.nodes.len(),
                *self == *old(self),
                before == properties_view(self.nodes),
                forall|j: int| 0 <= j < i ==> (#[trigger] before[j]).0 != name@,
            decreases self.nodes.len() - i,
        {
            if self.nodes[i].0 == name {
                assert(is_property_at(before, name@, i as int));
                self.nodes.set(i, (name, node));
                assert(properties_view(self.nodes) =~= before.update(i as int, (name@, node@)));
                return ;
            }
            i += 1;
        }
        assert(property_index(before, name@) is None);
        self.nodes.push((name, node));
        assert(properties_view(self.nodes) =~= before.push((name@, node@)));
    }
}

/// The view of a node.
pub open spec fn node_view(node: Node) -> NodeView
    decreases node,
{
    match node {
        Node::Any => NodeView::Any,
        Node::Null => NodeView::Null,
        Node::Bool => NodeView::Bool,
        Node::String => NodeView::String,
        Node::Number(kind) => NodeView::Number(kind),
        Node::Object(object) => NodeView::Object {
            properties: properties_view(object.nodes),
            additional: match object.additional {
                Some(tree) => Some(Box::new(tree_view(*tree))),
                None => None,
            },
        },
        Node::Array(array) => NodeView::Array {
            template: match array.template {
                NodeArrayTemplate::All(tree) => TemplateView::All(Box::new(tree_view(*tree))),
                NodeArrayTemplate::FirstN(trees) => TemplateView::FirstN(trees_view(trees)),
            },
            min: array.min,
            max: array.max,
        },
        Node::Enum(choice) => NodeView::Enum(trees_view(choice.nodes)),
        Node::Value(constant) => NodeView::Value(constant.value@),
    }
}

/// The view of a node tree.
pub open spec fn tree_view(tree: NodeContainer) -> TreeView
    decreases tree,
{
    TreeView {
        node: node_view(tree.node),
        title: text_view(tree.title),
        description: text_view(tree.desc),
    }
}

impl View for Node {
    type V = NodeView;

    open spec fn view(&self) -> NodeView {
        node_view(*self)
    }
}

impl View for NodeContainer {
    type V = TreeView;

    open spec fn view(&self) -> TreeView {
        tree_view(*self)
    }
}

/// Copies a list of trees, tree by tree.
pub(crate) fn clone_trees(trees: &Vec<NodeContainer>) -> (copies: Vec<NodeContainer>)
    ensures
        trees_view(copies) == trees_view(*trees),
    decreases trees,
{
    let mut copies: Vec<NodeContainer> = Vec::new();
    let mut i: usize = 0;
    while i < trees.len()
        invariant
            i <= trees.len(),
            copies.len() == i,
            forall|j: int| 0 <= j < i ==> copies[j]@ == trees[j]@,
        decreases trees.len() - i,
    {
        copies.push(clone_tree(&trees[i]));
        i += 1;
    }
    assert(trees_view(copies) =~= trees_view(*trees));
    copies
}

/// Copies a node with everything below it.
fn clone_node(node: &Node) -> (copy: Node)
    ensures
        copy@ == node@,
    decreases node,
{
    match node {
        Node::Any => Node::Any,
        Node::Null => Node::Null,
        Node::Bool => Node::Bool,
        Node::String => Node::String,
        Node::Number(kind) => Node::Number(*kind),
        Node::Object(object) => {
            let mut nodes: Vec<(String, NodeContainer)> = Vec::new();
            let mut i: usize = 0;
            while i < object.nodes.len()
                invariant
                    node is Object,
                    node->Object_0 == *object,
                    i <= object.nodes.len(),
                    nodes.len() == i,
                    forall|j: int|
                        0 <= j < i ==> nodes[j].0@ == object.nodes[j].0@ && nodes[j].1@
                            == object.nodes[j].1@,
                decreases object.nodes.len() - i,
            {
                nodes.push((object.nodes[i].0.clone(), clone_tree(&object.nodes[i].1)));
                i += 1;
            }
            let additional = match &object.additional {
                Some(tree) => Some(Box::new(clone_tree(tree))),
                None => None,
            };
            let copy = Node::Object(NodeObject { nodes, additional });
            assert(copy@->properties =~= node@->properties);
            copy
        },
        Node::Array(array) => {
            let template = match &array.template {
                NodeArrayTemplate::All(tree) => NodeArrayTemplate::All(Box::new(clone_tree(tree))),
                NodeArrayTemplate::FirstN(trees) => NodeArrayTemplate::FirstN(clone_trees(trees)),
            };
            Node::Array(NodeArray { template, min: array.min, max: array.max })
        },
        Node::Enum(choice) => Node::Enum(NodeEnum { nodes: clone_trees(&choice.nodes) }),
        Node::Value(constant) => Node::Value(NodeValue { value: constant.value.clone() }),
    }
}

/// Copies a tree with everything below it.
fn clone_tree(tree: &NodeContainer) -> (copy: NodeContainer)
    ensures
        copy@ == tree@,
    decreases tree,
{
    NodeContainer {
        node: clone_node(&tree.node),
        title: clone_text(&tree.title),
        desc: clone_text(&tree.desc),
    }
}

impl NodeContainer {
    /// The tree that holds `node` and no metadata.
    pub fn from_node(node: Node) -> (tree: NodeContainer)
        ensures
            tree@ == TreeView::plain(node@),
    {
        NodeContainer { node, title: None, desc: None }
    }
}

impl Clone for Node {
    fn clone(&self) -> (copy: Self)
        ensures
            copy@ == self@,
    {
        clone_node(self)
    }
}

impl Clone for NodeContainer {
    fn clone(&self) -> (copy: Self)
        ensures
            copy@ == self@,
    {
        clone_tree(self)
    }
}

} // verus!
