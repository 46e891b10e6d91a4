//! Unification of two node trees into one that satisfies both.

use crate::node::{
    all_well_formed, clone_trees, trees_view, well_formed, Node, NodeContainer, NodeEnum,
    NodeView, TreeView,
};
use crate::text::clone_text;
use vstd::prelude::*;

verus! {

/// Why two trees have no unified tree.
#[derive(Clone, Copy, Debug, PartialEq, Eq, Structural)]
pub enum MergeError {
    /// The two shapes cannot be reconciled.
    Conflict,
    /// Both sides are sets of alternatives: no rule unifies two of them.
    Unsupported,
}

/// Both nodes are of one kind among null, boolean, string, number, record
/// and sequence.
pub open spec fn same_kind(left: NodeView, right: NodeView) -> bool {
    ||| left is Null && right is Null
    ||| left is Bool && right is Bool
    ||| left is String && right is String
    ||| left is Number && right is Number
    ||| left is Object && right is Object
    ||| left is Array && right is Array
}

/// 1 for a set of alternatives, 0 for any other tree.
pub open spec fn enum_rank(tree: TreeView) -> int {
    if tree.node is Enum {
        1
    } else {
        0
    }
}

/// `tree` with the alternative at `at` replaced by `merged`.
pub open spec fn with_alternative(tree: TreeView, at: int, merged: TreeView) -> TreeView
    recommends
        tree.node is Enum,
{
    TreeView {
        node: NodeView::Enum(tree.node->Enum_0.update(at, merged)),
        title: tree.title,
        description: tree.description,
    }
}

/// The unified tree of `left` and `right`, by the first rule that applies:
///
/// 1. two nodes of the same kind give the right one;
/// 2. a literal on the right wins;
/// 3. a literal on the left wins over anything but a literal;
/// 4. an unconstrained left gives the right;
/// 5. an unconstrained right gives the left;
/// 6. two sets of alternatives are not supported;
/// 7. alternatives on the right: the first of them that unifies with `left`
///    (the alternative as the left operand) is replaced by the result;
/// 8. alternatives on the left: the first of them that unifies with `right`
///    is replaced by the result;
/// 9. anything else is a conflict.
pub open spec fn merge_spec(left: TreeView, right: TreeView) -> Result<TreeView, MergeError>
    decreases enum_rank(right), left, 0int,
{
    if same_kind(left.node, right.node) {
        Ok(right)
    } else if right.node is Value {
        Ok(right)
    } else if left.node is Value {
        Ok(left)
    } else if left.node is Any {
        Ok(right)
    } else if right.node is Any {
        Ok(left)
    } else if left.node is Enum && right.node is Enum {
        Err(MergeError::Unsupported)
    } else if right.node is Enum {
        match first_merge(right.node->Enum_0, left, 0) {
            Some((at, merged)) => Ok(with_alternative(right, at, merged)),
            None => Err(MergeError::Conflict),
        }
    } else if left.node is Enum {
        match first_merge(left.node->Enum_0, right, 0) {
            Some((at, merged)) => Ok(with_alternative(left, at, merged)),
            None => Err(MergeError::Conflict),
        }
    } else {
        Err(MergeError::Conflict)
    }
}

/// The first alternative at or after `from` that unifies with `other`, the
/// alternative as the left operand: its index and the unified tree.
pub open spec fn first_merge(alternatives: Seq<TreeView>, other: TreeView, from: int) -> Option<
    (int, TreeView),
>
    decreases enum_rank(other), alternatives, alternatives.len() - from,
{
    if 0 <= from < alternatives.len() {
        match merge_spec(alternatives[from], other) {
            Ok(merged) => Some((from, merged)),
            Err(_) => first_merge(alternatives, other, from + 1),
        }
    } else {
        None
    }
}

/// The view of what a merge returns.
pub open spec fn merged_view(merged: Result<NodeContainer, MergeError>) -> Result<
    TreeView,
    MergeError,
> {
    match merged {
        Ok(tree) => Ok(tree@),
        Err(error) => Err(error),
    }
}

/// Searches `alternatives` in order for the first that unifies with `other`.
fn merge_alternatives(alternatives: &Vec<NodeContainer>, other: &NodeContainer) -> (found: Option<
    (usize, NodeContainer),
>)
    requires
        !(other@.node is Enum),
    ensures
        match found {
            Some((at, merged)) => at < alternatives.len() && first_merge(
                trees_view(*alternatives),
                other@,
                0,
            ) == Some((at as int, merged@)),
            None => first_merge(trees_view(*alternatives), other@, 0) is None,
        },
    decreases enum_rank(other@), alternatives, 1int,
{
    let mut i: usize = 0;
    while i < alternatives.len()
        invariant
            !(other@.node is Enum),
            i <= alternatives.len(),
            first_merge(trees_view(*alternatives), other@, 0) == first_merge(
                trees_view(*alternatives),
                other@,
                i as int,
            ),
        decreases alternatives.len() - i,
    {
        match alternatives[i].merge(other) {
            Ok(merged) => {
                return Some((i, merged));
            },
            Err(_) => {},
        }
        i += 1;
    }
    None
}

impl NodeContainer {
    /// `self` with the alternative at `at` replaced by `merged`.
    fn replace_alternative(&self, at: usize, merged: NodeContainer) -> (tree: NodeContainer)
        requires
            self@.node is Enum,
            at < self@.node->Enum_0.len(),
        ensures
            tree@ == with_alternative(self@, at as int, merged@),
    {
        match &self.node {
            Node::Enum(choice) => {
                let mut nodes = clone_trees(&choice.nodes);
                nodes.set(at, merged);
                assert(trees_view(nodes) =~= trees_view(choice.nodes).update(at as int, merged@));
                NodeContainer {
                    node: Node::Enum(NodeEnum { nodes }),
                    title: clone_text(&self.title),
                    desc: clone_text(&self.desc),
                }
            },
            _ => self.clone(),
        }
    }

    /// Unifies `self` with `other`: the tree that satisfies both, or the
    /// reason why there is none. Neither operand is changed, and the tree
    /// of two well-formed operands is well formed.
    pub fn merge(&self, other: &NodeContainer) -> (merged: Result<NodeContainer, MergeError>)
        ensures
            merged_view(merged) == merge_spec(self@, other@),
            well_formed(self@) && well_formed(other@) ==> (merged matches Ok(tree) ==> well_formed(
                tree@,
            )),
        decreases enum_rank(other@), self, 0int,
    {
        proof {
            if well_formed(self@) && well_formed(other@) && merge_spec(self@, other@) is Ok {
                lemma_merge_keeps_well_formed(self@, other@);
            }
        }
        match (&self.node, &other.node) {
            (Node::Null, Node::Null)
            | (Node::Bool, Node::Bool)
            | (Node::String, Node::String)
            | (Node::Number(_), Node::Number(_))
            | (Node::Object(_), Node::Object(_))
            | (Node::Array(_), Node::Array(_)) => Ok(other.clone()),
            (_, Node::Value(_)) => Ok(other.clone()),
            (Node::Value(_), _) => Ok(self.clone()),
            (Node::Any, _) => Ok(other.clone()),
            (_, Node::Any) => Ok(self.clone()),
            (Node::Enum(_), Node::Enum(_)) => Err(MergeError::Unsupported),
            (_, Node::Enum(choice)) => {
                match merge_alternatives(&choice.nodes, self) {
                    Some((at, merged)) => Ok(other.replace_alternative(at, merged)),
                    None => Err(MergeError::Conflict),
                }
            },
            (Node::Enum(choice), _) => {
                match merge_alternatives(&choice.nodes, other) {
                    Some((at, merged)) => Ok(self.replace_alternative(at, merged)),
                    None => Err(MergeError::Conflict),
                }
            },
            _ => Err(MergeError::Conflict),
        }
    }
}

/// An unconstrained tree is the identity of the merge. On the left it gives
/// the right operand as it is. On the right it gives the left operand's
/// node, and the left operand as it is unless that one is unconstrained too.
pub proof fn lemma_any_is_identity(any: TreeView, tree: TreeView)
    requires
        any.node is Any,
    ensures
        merge_spec(any, tree) == Ok::<TreeView, MergeError>(tree),
        merge_spec(tree, any) is Ok,
        merge_spec(tree, any)->Ok_0.node == tree.node,
        !(tree.node is Any) ==> merge_spec(tree, any) == Ok::<TreeView, MergeError>(tree),
{
}

/// Two trees of the same kind among null, boolean, string, number, record
/// and sequence merge into the right one: nothing of the left one is kept.
pub proof fn lemma_same_kind_is_right_biased(left: TreeView, right: TreeView)
    requires
        same_kind(left.node, right.node),
    ensures
        merge_spec(left, right) == Ok::<TreeView, MergeError>(right),
{
}

/// A literal dominates: on the right it wins over every tree, on the left
/// over every tree that is no literal.
pub proof fn lemma_literal_dominates(literal: TreeView, tree: TreeView)
    requires
        literal.node is Value,
    ensures
        merge_spec(tree, literal) == Ok::<TreeView, MergeError>(literal),
        !(tree.node is Value) ==> merge_spec(literal, tree) == Ok::<TreeView, MergeError>(
            literal,
        ),
{
}

/// What `first_merge` finds is the least index whose alternative unifies
/// with `other`, together with that unified tree; it finds nothing exactly
/// when no alternative at or after `from` unifies.
pub proof fn lemma_first_merge_is_least(alternatives: Seq<TreeView>, other: TreeView, from: int)
    requires
        0 <= from,
    ensures
        match first_merge(alternatives, other, from) {
            Some((at, merged)) => {
                &&& from <= at < alternatives.len()
                &&& merge_spec(alternatives[at], other) == Ok::<TreeView, MergeError>(merged)
                &&& forall|i: int| from <= i < at ==> merge_spec(alternatives[i], other) is Err
            },
            None => forall|i: int|
                from <= i < alternatives.len() ==> merge_spec(alternatives[i], other) is Err,
        },
    decreases alternatives.len() - from,
{
    if from < alternatives.len() {
        lemma_first_merge_is_least(alternatives, other, from + 1);
    }
}

/// Alternatives on the left. Against a tree that is neither a literal, nor
/// unconstrained, nor a set of alternatives, the first alternative that
/// unifies with it is replaced by the unified tree; every other alternative
/// and the metadata stay as they are.
pub proof fn lemma_enum_takes_first_match(choice: TreeView, other: TreeView, at: int)
    requires
        choice.node is Enum,
        !(other.node is Value),
        !(other.node is Any),
        !(other.node is Enum),
        0 <= at < choice.node->Enum_0.len(),
        merge_spec(choice.node->Enum_0[at], other) is Ok,
        forall|i: int| 0 <= i < at ==> merge_spec(choice.node->Enum_0[i], other) is Err,
    ensures
        merge_spec(choice, other) == Ok::<TreeView, MergeError>(
            with_alternative(choice, at, merge_spec(choice.node->Enum_0[at], other)->Ok_0),
        ),
{
    lemma_first_merge_is_least(choice.node->Enum_0, other, 0);
}

/// Alternatives on the right. Against a tree that is neither a literal,
/// nor unconstrained, nor a set of alternatives, the first alternative that
/// unifies with it, the alternative as the left operand, is replaced by the
/// unified tree; every other alternative and the metadata stay as they are.
pub proof fn lemma_enum_on_the_right_takes_first_match(other: TreeView, choice: TreeView, at: int)
    requires
        choice.node is Enum,
        !(other.node is Value),
        !(other.node is Any),
        !(other.node is Enum),
        0 <= at < choice.node->Enum_0.len(),
        merge_spec(choice.node->Enum_0[at], other) is Ok,
        forall|i: int| 0 <= i < at ==> merge_spec(choice.node->Enum_0[i], other) is Err,
    ensures
        merge_spec(other, choice) == Ok::<TreeView, MergeError>(
            with_alternative(choice, at, merge_spec(choice.node->Enum_0[at], other)->Ok_0),
        ),
{
    lemma_first_merge_is_least(choice.node->Enum_0, other, 0);
}

/// A tree that is neither a literal, nor unconstrained, nor a set of
/// alternatives, and that unifies with none of the alternatives, conflicts
/// with the set, on whichever side the set stands.
pub proof fn lemma_enum_without_match_conflicts(choice: TreeView, other: TreeView)
    requires
        choice.node is Enum,
        !(other.node is Value),
        !(other.node is Any),
        !(other.node is Enum),
        forall|i: int|
            0 <= i < choice.node->Enum_0.len() ==> merge_spec(choice.node->Enum_0[i], other) is Err,
    ensures
        merge_spec(choice, other) == Err::<TreeView, MergeError>(MergeError::Conflict),
        merge_spec(other, choice) == Err::<TreeView, MergeError>(MergeError::Conflict),
{
    lemma_first_merge_is_least(choice.node->Enum_0, other, 0);
}

/// A set of two or more alternatives, merged with a tree that is no set of
/// alternatives and that unifies with exactly one of them: that
/// alternative is replaced by the unified tree, and the others are
/// untouched.
pub proof fn lemma_enum_takes_its_only_match(choice: TreeView, other: TreeView, at: int)
    requires
        choice.node is Enum,
        choice.node->Enum_0.len() >= 2,
        !(other.node is Enum),
        0 <= at < choice.node->Enum_0.len(),
        merge_spec(choice.node->Enum_0[at], other) is Ok,
        forall|i: int|
            0 <= i < choice.node->Enum_0.len() && i != at ==> merge_spec(
                choice.node->Enum_0[i],
                other,
            ) is Err,
    ensures
        merge_spec(choice, other) == Ok::<TreeView, MergeError>(
            with_alternative(choice, at, merge_spec(choice.node->Enum_0[at], other)->Ok_0),
        ),
        forall|i: int|
            0 <= i < choice.node->Enum_0.len() && i != at ==> merge_spec(
                choice,
                other,
            )->Ok_0.node->Enum_0[i] == choice.node->Enum_0[i],
{
    let elsewhere = if at == 0 {
        1int
    } else {
        0int
    };
    assert(merge_spec(choice.node->Enum_0[elsewhere], other) is Err);
    lemma_enum_takes_first_match(choice, other, at);
}

/// The merge of two well-formed trees is well formed.
pub proof fn lemma_merge_keeps_well_formed(left: TreeView, right: TreeView)
    requires
        well_formed(left),
        well_formed(right),
        merge_spec(left, right) is Ok,
    ensures
        well_formed(merge_spec(left, right)->Ok_0),
    decreases enum_rank(right), left, 0int,
{
    if same_kind(left.node, right.node) || right.node is Value || left.node is Value
        || left.node is Any || right.node is Any {
    } else if right.node is Enum {
        lemma_first_merge_keeps_well_formed(right.node->Enum_0, left, 0);
        let (at, merged) = first_merge(right.node->Enum_0, left, 0)->Some_0;
        lemma_update_keeps_well_formed(right.node->Enum_0, at, merged);
    } else if left.node is Enum {
        lemma_first_merge_keeps_well_formed(left.node->Enum_0, right, 0);
        let (at, merged) = first_merge(left.node->Enum_0, right, 0)->Some_0;
        lemma_update_keeps_well_formed(left.node->Enum_0, at, merged);
    }
}

/// Well-formed trees stay so when one of them gives way to another
/// well-formed tree.
proof fn lemma_update_keeps_well_formed(trees: Seq<TreeView>, at: int, tree: TreeView)
    requires
        all_well_formed(trees),
        well_formed(tree),
        0 <= at < trees.len(),
    ensures
        all_well_formed(trees.update(at, tree)),
{
    let updated = trees.update(at, tree);
    assert forall|i: int| 0 <= i < updated.len() implies well_formed(#[trigger] updated[i]) by {
        if i != at {
            assert(updated[i] == trees[i]);
        }
    }
}

/// The tree that `first_merge` gives for well-formed operands is well
/// formed.
pub proof fn lemma_first_merge_keeps_well_formed(
    alternatives: Seq<TreeView>,
    other: TreeView,
    from: int,
)
    requires
        all_well_formed(alternatives),
        well_formed(other),
    ensures
        first_merge(alternatives, other, from) matches Some((at, merged)) ==> 0 <= at
            < alternatives.len() && well_formed(merged),
    decreases enum_rank(other), alternatives, alternatives.len() - from,
{
    if 0 <= from < alternatives.len() {
        if merge_spec(alternatives[from], other) is Ok {
            lemma_merge_keeps_well_formed(alternatives[from], other);
        } else {
            lemma_first_merge_keeps_well_formed(alternatives, other, from + 1);
        }
    }
}

/// Two sets of alternatives are the only operands that the merge does not
/// support.
pub proof fn lemma_unsupported_only_for_two_enums(left: TreeView, right: TreeView)
    ensures
        merge_spec(left, right) == Err::<TreeView, MergeError>(MergeError::Unsupported) <==> (
        left.node is Enum && right.node is Enum),
{
}

} // verus!
