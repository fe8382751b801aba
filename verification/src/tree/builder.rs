//! Decision trees from branch points.

use crate::analysis::{BranchPoint, BranchPointView, ConditionExpr, ConditionView};
use crate::text::{concat2, concat3};
use crate::tree::labeler::{framed, labels, ConditionLabeler};
use vstd::prelude::*;

verus! {

/// Why a tree could not be built.
#[derive(Debug)]
pub enum TreeError {
    BuildError(String),
}

impl TreeError {
    /// The error as a message.
    pub fn to_string(&self) -> (r: String)
        ensures
            r@ == "Failed to build tree: "@ + self->BuildError_0@,
    {
        match self {
            TreeError::BuildError(m) => concat2("Failed to build tree: ", m.as_str()),
        }
    }
}

/// A node of the decision tree.
#[derive(Debug)]
pub enum TreeNode {
    /// The root: the function's name and the top-level nodes.
    Root { name: String, children: Vec<TreeNode> },
    /// One outcome of a guard, and what follows on it.
    Branch { label: String, children: Vec<TreeNode> },
    /// An outcome of the function.
    Leaf { label: String },
}

/// The mathematical value of a [`TreeNode`].
pub ghost enum TreeView {
    Root { name: Seq<char>, children: Seq<TreeView> },
    Branch { label: Seq<char>, children: Seq<TreeView> },
    Leaf { label: Seq<char> },
}

impl View for TreeNode {
    type V = TreeView;

    open spec fn view(&self) -> TreeView {
        node_view(*self)
    }
}

/// The view of one node.
pub open spec fn node_view(node: TreeNode) -> TreeView
    decreases node,
{
    match node {
        TreeNode::Root { name, children } => TreeView::Root {
            name: name@,
            children: views_of(children@),
        },
        TreeNode::Branch { label, children } => TreeView::Branch {
            label: label@,
            children: views_of(children@),
        },
        TreeNode::Leaf { label } => TreeView::Leaf { label: label@ },
    }
}

/// The views of a sequence of nodes, in order.
pub open spec fn views_of(nodes: Seq<TreeNode>) -> Seq<TreeView>
    decreases nodes,
{
    if nodes.len() == 0 {
        Seq::empty()
    } else {
        views_of(nodes.drop_last()).push(node_view(nodes.last()))
    }
}

impl DeepView for TreeNode {
    type V = TreeView;

    open spec fn deep_view(&self) -> TreeView {
        self@
    }
}

impl Clone for TreeNode {
    fn clone(&self) -> (r: Self)
        ensures
            r@ == self@,
        decreases self,
    {
        match self {
            TreeNode::Root { name, children } => TreeNode::Root {
                name: name.clone(),
                children: clone_nodes(children),
            },
            TreeNode::Branch { label, children } => TreeNode::Branch {
                label: label.clone(),
                children: clone_nodes(children),
            },
            TreeNode::Leaf { label } => TreeNode::Leaf { label: label.clone() },
        }
    }
}

/// A copy of a list of nodes.
pub fn clone_nodes(nodes: &Vec<TreeNode>) -> (r: Vec<TreeNode>)
    ensures
        views_of(r@) == views_of(nodes@),
    decreases nodes,
{
    let mut out: Vec<TreeNode> = Vec::new();
    let mut i: usize = 0;
    while i < nodes.len()
        invariant
            i <= nodes@.len(),
            out@.len() == i,
            forall|j: int| 0 <= j < i ==> (#[trigger] out@[j])@ == nodes@[j]@,
        decreases nodes@.len() - i,
    {
        proof {
            assert(decreases_to!(*nodes => nodes@));
            assert(decreases_to!(nodes@ => nodes@[i as int]));
        }
        out.push(nodes[i].clone());
        i += 1;
    }
    proof {
        lemma_views_of(out@);
        lemma_views_of(nodes@);
        assert(views_of(out@) =~= views_of(nodes@));
    }
    out
}

/// `views_of` views the nodes one by one.
pub proof fn lemma_views_of(nodes: Seq<TreeNode>)
    ensures
        views_of(nodes).len() == nodes.len(),
        forall|i: int| 0 <= i < nodes.len() ==> #[trigger] views_of(nodes)[i] == nodes[i]@,
    decreases nodes.len(),
{
    if nodes.len() > 0 {
        lemma_views_of(nodes.drop_last());
    }
}

/// The deep view of a vector of nodes is the sequence of their views.
pub proof fn lemma_children_view(children: Vec<TreeNode>)
    ensures
        children.deep_view() == views_of(children@),
{
    lemma_views_of(children@);
    assert(children.deep_view() =~= views_of(children@));
}

/// The label of the leaf on which the function reverts.
pub open spec fn revert_outcome() -> Seq<char> {
    "it should revert"@
}

/// The label of the leaf on which the function succeeds.
pub open spec fn success_outcome() -> Seq<char> {
    "it should succeed"@
}

/// The name under which an external-call branch point is shown.
pub open spec fn call_name(c: ConditionView) -> Seq<char> {
    match c {
        ConditionView::ExternalCall(name) => name,
        _ => "external call"@,
    }
}

/// The label of the branch on which a branch point reverts. For an external
/// call that is the call failing; for an `if`-style guard the condition
/// holding; for a `require`-style guard the condition not holding.
pub open spec fn revert_label(bp: BranchPointView) -> Seq<char> {
    if bp.is_external_call {
        "when "@ + call_name(bp.condition) + " fails"@
    } else if bp.is_if_revert {
        framed(bp.context, bp.is_loop, labels(bp.condition).0)
    } else {
        framed(bp.context, bp.is_loop, labels(bp.condition).1)
    }
}

/// The label of the branch on which execution continues past a branch point.
pub open spec fn continue_label(bp: BranchPointView) -> Seq<char> {
    if bp.is_external_call {
        "when "@ + call_name(bp.condition) + " succeeds"@
    } else if bp.is_if_revert {
        framed(bp.context, bp.is_loop, labels(bp.condition).1)
    } else {
        framed(bp.context, bp.is_loop, labels(bp.condition).0)
    }
}

/// The nodes for a sequence of branch points: for the first of them a revert
/// branch that ends in a single revert leaf and a continue branch that holds
/// the nodes for the rest; for no branch point the success leaf.
pub open spec fn decision_list(bps: Seq<BranchPointView>) -> Seq<TreeView>
    decreases bps.len(),
{
    if bps.len() == 0 {
        seq![TreeView::Leaf { label: success_outcome() }]
    } else {
        seq![
            TreeView::Branch {
                label: revert_label(bps[0]),
                children: seq![TreeView::Leaf { label: revert_outcome() }],
            },
            TreeView::Branch {
                label: continue_label(bps[0]),
                children: decision_list(bps.drop_first()),
            },
        ]
    }
}

/// The tree of a function: its name over the nodes for its branch points.
pub open spec fn decision_tree(name: Seq<char>, bps: Seq<BranchPointView>) -> TreeView {
    TreeView::Root { name, children: decision_list(bps) }
}

/// The number of leaves labelled `label` at `node` and below it.
pub open spec fn leaves_under(node: TreeView, label: Seq<char>) -> nat
    decreases node,
{
    match node {
        TreeView::Root { name, children } => leaves_among(children, label),
        TreeView::Branch { label: _, children } => leaves_among(children, label),
        TreeView::Leaf { label: l } => if l == label {
            1
        } else {
            0
        },
    }
}

/// The number of leaves labelled `label` at the nodes of `nodes` and below
/// them.
pub open spec fn leaves_among(nodes: Seq<TreeView>, label: Seq<char>) -> nat
    decreases nodes,
{
    if nodes.len() == 0 {
        0
    } else {
        leaves_among(nodes.drop_last(), label) + leaves_under(nodes.last(), label)
    }
}

/// The number of leaves labelled `label` that lie under exactly `depth`
/// branches, counted from `node` down. A root adds no depth.
pub open spec fn leaves_at(node: TreeView, label: Seq<char>, depth: nat) -> nat
    decreases node,
{
    match node {
        TreeView::Root { name, children } => leaves_at_among(children, label, depth),
        TreeView::Branch { label: _, children } => if depth == 0 {
            0
        } else {
            leaves_at_among(children, label, (depth - 1) as nat)
        },
        TreeView::Leaf { label: l } => if depth == 0 && l == label {
            1
        } else {
            0
        },
    }
}

/// The number of leaves labelled `label` that lie under exactly `depth`
/// branches, counted from the nodes of `nodes` down.
pub open spec fn leaves_at_among(nodes: Seq<TreeView>, label: Seq<char>, depth: nat) -> nat
    decreases nodes,
{
    if nodes.len() == 0 {
        0
    } else {
        leaves_at_among(nodes.drop_last(), label, depth) + leaves_at(nodes.last(), label, depth)
    }
}

/// The two outcome labels differ.
pub proof fn lemma_outcomes_differ()
    ensures
        revert_outcome() != success_outcome(),
{
    reveal_strlit("it should revert");
    reveal_strlit("it should succeed");
    assert(revert_outcome().len() != success_outcome().len());
}

proof fn lemma_count_one(node: TreeView, label: Seq<char>, depth: nat)
    ensures
        leaves_among(seq![node], label) == leaves_under(node, label),
        leaves_at_among(seq![node], label, depth) == leaves_at(node, label, depth),
{
    reveal_with_fuel(leaves_among, 2);
    reveal_with_fuel(leaves_at_among, 2);
    assert(seq![node].drop_last() =~= Seq::<TreeView>::empty());
    assert(seq![node].last() == node);
}

proof fn lemma_count_two(first: TreeView, second: TreeView, label: Seq<char>, depth: nat)
    ensures
        leaves_among(seq![first, second], label) == leaves_under(first, label) + leaves_under(
            second,
            label,
        ),
        leaves_at_among(seq![first, second], label, depth) == leaves_at(first, label, depth)
            + leaves_at(second, label, depth),
{
    assert(seq![first, second].drop_last() =~= seq![first]);
    assert(seq![first, second].last() == second);
    lemma_count_one(first, label, depth);
}

/// Where the success leaf of the nodes for `bps` lies: under as many branches
/// as there are branch points, and nowhere else.
pub proof fn lemma_success_depth(bps: Seq<BranchPointView>, depth: nat)
    ensures
        leaves_at_among(decision_list(bps), success_outcome(), depth) == if depth == bps.len() {
            1nat
        } else {
            0nat
        },
    decreases bps.len(),
{
    lemma_outcomes_differ();
    if bps.len() == 0 {
        let leaf = TreeView::Leaf { label: success_outcome() };
        lemma_count_one(leaf, success_outcome(), depth);
    } else {
        let rest = bps.drop_first();
        let leaf = TreeView::Leaf { label: revert_outcome() };
        let first = TreeView::Branch { label: revert_label(bps[0]), children: seq![leaf] };
        let second = TreeView::Branch {
            label: continue_label(bps[0]),
            children: decision_list(rest),
        };
        assert(decision_list(bps) == seq![first, second]);
        lemma_count_two(first, second, success_outcome(), depth);
        if depth > 0 {
            lemma_success_depth(rest, (depth - 1) as nat);
            lemma_count_one(leaf, success_outcome(), (depth - 1) as nat);
        }
    }
}

/// How many leaves the nodes for `bps` hold: one revert leaf for every branch
/// point, and one success leaf.
pub proof fn lemma_leaf_counts(bps: Seq<BranchPointView>)
    ensures
        leaves_among(decision_list(bps), revert_outcome()) == bps.len(),
        leaves_among(decision_list(bps), success_outcome()) == 1,
    decreases bps.len(),
{
    lemma_outcomes_differ();
    if bps.len() == 0 {
        let leaf = TreeView::Leaf { label: success_outcome() };
        lemma_count_one(leaf, revert_outcome(), 0);
        lemma_count_one(leaf, success_outcome(), 0);
    } else {
        let rest = bps.drop_first();
        lemma_leaf_counts(rest);
        let leaf = TreeView::Leaf { label: revert_outcome() };
        let first = TreeView::Branch { label: revert_label(bps[0]), children: seq![leaf] };
        let second = TreeView::Branch {
            label: continue_label(bps[0]),
            children: decision_list(rest),
        };
        assert(decision_list(bps) == seq![first, second]);
        lemma_count_one(leaf, revert_outcome(), 0);
        lemma_count_one(leaf, success_outcome(), 0);
        lemma_count_two(first, second, revert_outcome(), 0);
        lemma_count_two(first, second, success_outcome(), 0);
    }
}

/// Tree shape: the tree for `n` branch points has exactly `n` revert leaves
/// and exactly one success leaf, and the success leaf lies at depth `n`: it
/// is counted at that depth and at no other.
pub proof fn lemma_tree_shape(name: Seq<char>, bps: Seq<BranchPointView>)
    ensures
        leaves_under(decision_tree(name, bps), revert_outcome()) == bps.len(),
        leaves_under(decision_tree(name, bps), success_outcome()) == 1,
        leaves_at(decision_tree(name, bps), success_outcome(), bps.len()) == 1,
        forall|depth: nat|
            depth != bps.len() ==> #[trigger] leaves_at(
                decision_tree(name, bps),
                success_outcome(),
                depth,
            ) == 0,
{
    lemma_leaf_counts(bps);
    lemma_success_depth(bps, bps.len());
    assert forall|depth: nat| depth != bps.len() implies #[trigger] leaves_at(
        decision_tree(name, bps),
        success_outcome(),
        depth,
    ) == 0 by {
        lemma_success_depth(bps, depth);
    }
}

/// The labels that a branch point puts into the tree: the revert branch's and
/// the continue branch's.
pub open spec fn label_pair(bp: BranchPointView) -> (Seq<char>, Seq<char>) {
    (revert_label(bp), continue_label(bp))
}

/// The label pairs of a sequence of branch points, in order.
pub open spec fn label_pairs(bps: Seq<BranchPointView>) -> Seq<(Seq<char>, Seq<char>)> {
    Seq::new(bps.len(), |i: int| label_pair(bps[i]))
}

/// The nodes for a sequence of branch points hold its label pairs in order:
/// equal nodes come from equal sequences of label pairs.
pub proof fn lemma_decision_list_keeps_order(a: Seq<BranchPointView>, b: Seq<BranchPointView>)
    requires
        decision_list(a) == decision_list(b),
    ensures
        label_pairs(a) == label_pairs(b),
    decreases a.len(),
{
    if a.len() == 0 {
        if b.len() != 0 {
            assert(decision_list(a).len() == 1);
            assert(decision_list(b).len() == 2);
        }
        assert(label_pairs(a) =~= label_pairs(b));
    } else {
        if b.len() == 0 {
            assert(decision_list(a).len() == 2);
            assert(decision_list(b).len() == 1);
        }
        assert(decision_list(a)[0] == decision_list(b)[0]);
        assert(decision_list(a)[1] == decision_list(b)[1]);
        assert(decision_list(a.drop_first()) == decision_list(b.drop_first()));
        lemma_decision_list_keeps_order(a.drop_first(), b.drop_first());
        assert(label_pairs(a) =~= label_pairs(b)) by {
            assert(a.len() == b.len()) by {
                assert(label_pairs(a.drop_first()).len() == label_pairs(b.drop_first()).len());
            }
            assert forall|i: int| 0 <= i < a.len() implies label_pairs(a)[i] == label_pairs(
                b,
            )[i] by {
                if i > 0 {
                    assert(label_pairs(a.drop_first())[i - 1] == label_pairs(
                        b.drop_first(),
                    )[i - 1]);
                }
            }
        }
    }
}

/// Order preservation: two sequences of branch points whose label pairs
/// differ somewhere, in content or in order, give different trees.
pub proof fn lemma_tree_keeps_order(
    name: Seq<char>,
    a: Seq<BranchPointView>,
    b: Seq<BranchPointView>,
)
    requires
        label_pairs(a) != label_pairs(b),
    ensures
        decision_tree(name, a) != decision_tree(name, b),
{
    if decision_tree(name, a) == decision_tree(name, b) {
        lemma_decision_list_keeps_order(a, b);
    }
}

/// Reordering changes the tree: exchanging two branch points that do not
/// carry the same labels gives another tree.
pub proof fn lemma_reordering_changes_tree(
    name: Seq<char>,
    bps: Seq<BranchPointView>,
    i: int,
    j: int,
)
    requires
        0 <= i < bps.len(),
        0 <= j < bps.len(),
        label_pair(bps[i]) != label_pair(bps[j]),
    ensures
        decision_tree(name, bps.update(i, bps[j]).update(j, bps[i])) != decision_tree(name, bps),
{
    let swapped = bps.update(i, bps[j]).update(j, bps[i]);
    assert(label_pairs(swapped)[i] == label_pair(bps[j]));
    assert(label_pairs(bps)[i] == label_pair(bps[i]));
    lemma_tree_keeps_order(name, swapped, bps);
}

/// Builds decision trees from branch points.
pub struct TreeBuilder;

impl TreeBuilder {
    /// The tree of the function `function_name` with the given branch points,
    /// taken in order. Never fails.
    pub fn build(function_name: &str, branch_points: Vec<BranchPoint>) -> (r: Result<
        TreeNode,
        TreeError,
    >)
        ensures
            r is Ok,
            r->Ok_0@ == decision_tree(function_name@, branch_points.deep_view()),
            leaves_under(r->Ok_0@, revert_outcome()) == branch_points@.len(),
            leaves_under(r->Ok_0@, success_outcome()) == 1,
            leaves_at(r->Ok_0@, success_outcome(), branch_points@.len() as nat) == 1,
    {
        let labeler = ConditionLabeler::new();
        let points = branch_points.as_slice();
        let children = Self::build_branches(points, 0, &labeler);
        let tree = TreeNode::Root { name: String::from_str(function_name), children };
        proof {
            lemma_children_view(children);
            assert(branch_points.deep_view().skip(0) =~= branch_points.deep_view());
            assert(points.deep_view() =~= branch_points.deep_view());
            lemma_tree_shape(function_name@, branch_points.deep_view());
        }
        Ok(tree)
    }

    /// The nodes for the branch points from position `index` on.
    pub fn build_branches(
        branch_points: &[BranchPoint],
        index: usize,
        labeler: &ConditionLabeler,
    ) -> (r: Vec<TreeNode>)
        ensures
            r.deep_view() == decision_list(
                if index <= branch_points@.len() {
                    branch_points.deep_view().skip(index as int)
                } else {
                    Seq::empty()
                },
            ),
        decreases branch_points@.len() - index,
    {
        if index >= branch_points.len() {
            let leaf = TreeNode::Leaf { label: String::from_str("it should succeed") };
            let out = vec![leaf];
            proof {
                assert(out.deep_view() =~= seq![TreeView::Leaf { label: success_outcome() }]);
            }
            return out;
        }
        let bp = &branch_points[index];
        let ghost rest = branch_points.deep_view().skip(index as int);
        proof {
            assert(rest[0] == bp@);
            assert(rest.drop_first() =~= branch_points.deep_view().skip(index + 1));
        }
        let (fail_label, pass_label) = labeler.generate_labels(
            &bp.condition,
            bp.context,
            bp.is_loop,
        );
        let (revert_text, continue_text) = if bp.is_external_call {
            let name = match &bp.condition {
                ConditionExpr::ExternalCall(name) => name.clone(),
                _ => String::from_str("external call"),
            };
            (
                concat3("when ", name.as_str(), " fails"),
                concat3("when ", name.as_str(), " succeeds"),
            )
        } else if bp.is_if_revert {
            (pass_label, fail_label)
        } else {
            (fail_label, pass_label)
        };
        let revert_leaf = TreeNode::Leaf { label: String::from_str("it should revert") };
        let revert_children = vec![revert_leaf];
        let revert_branch = TreeNode::Branch { label: revert_text, children: revert_children };
        let continue_children = Self::build_branches(branch_points, index + 1, labeler);
        let continue_branch = TreeNode::Branch {
            label: continue_text,
            children: continue_children,
        };
        proof {
            lemma_children_view(revert_children);
            lemma_children_view(continue_children);
            assert(revert_children.deep_view() =~= seq![
                TreeView::Leaf { label: revert_outcome() },
            ]);
        }
        let out = vec![revert_branch, continue_branch];
        proof {
            assert(out.deep_view() =~= decision_list(rest));
        }
        out
    }
}

} // verus!
