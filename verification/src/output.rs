//! Trees as indented text outlines.

use crate::text::concat2;
use crate::tree::builder::{lemma_views_of, views_of, TreeNode, TreeView};
use vstd::prelude::*;

verus! {

/// Why an outline could not be written.
#[derive(Debug)]
pub enum OutputError {
    /// The writer failed, with its message.
    IoError(String),
}

impl OutputError {
    /// The error as a message.
    pub fn to_string(&self) -> (r: String)
        ensures
            r@ == "IO error: "@ + self->IoError_0@,
    {
        match self {
            OutputError::IoError(m) => concat2("IO error: ", m.as_str()),
        }
    }
}

/// The connector in front of a node's label.
pub open spec fn connector(is_last: bool) -> Seq<char> {
    if is_last {
        "└── "@
    } else {
        "├── "@
    }
}

/// What a node adds to the indentation of its children.
pub open spec fn child_indent(is_last: bool) -> Seq<char> {
    if is_last {
        "    "@
    } else {
        "│   "@
    }
}

/// The lines of a node and of everything below it. A root prints its name and
/// its children without indentation; any other node prints the indentation,
/// a connector and its label, and its children one step further in.
pub open spec fn outline_of(node: TreeView, prefix: Seq<char>, is_last: bool) -> Seq<char>
    decreases node, 0nat,
{
    match node {
        TreeView::Root { name, children } => name + "\n"@ + outline_of_first(
            children,
            Seq::empty(),
            children.len(),
        ),
        TreeView::Branch { label, children } => prefix + connector(is_last) + label + "\n"@
            + outline_of_first(children, prefix + child_indent(is_last), children.len()),
        TreeView::Leaf { label } => prefix + connector(is_last) + label + "\n"@,
    }
}

/// The lines of the first `count` nodes of `nodes`, siblings under one
/// parent: the last of `nodes` is drawn as the last sibling.
pub open spec fn outline_of_first(nodes: Seq<TreeView>, prefix: Seq<char>, count: nat) -> Seq<char>
    decreases nodes, count,
{
    if count == 0 || count > nodes.len() {
        Seq::empty()
    } else {
        outline_of_first(nodes, prefix, (count - 1) as nat) + outline_of(
            nodes[count - 1],
            prefix,
            count == nodes.len(),
        )
    }
}

/// The outline of a whole tree.
pub open spec fn outline(tree: TreeView) -> Seq<char> {
    outline_of(tree, Seq::empty(), true)
}

/// Renders a tree as an outline.
pub fn render_to_string(tree: &TreeNode) -> (r: String)
    ensures
        r@ == outline(tree@),
{
    let mut output = String::new();
    proof {
        reveal_strlit("");
        assert(""@ =~= Seq::<char>::empty());
    }
    render_node(tree, &mut output, "", true);
    assert(output@ =~= outline(tree@));
    output
}

/// Appends the lines of `node` and of everything below it to `output`.
pub fn render_node(node: &TreeNode, output: &mut String, prefix: &str, is_last: bool)
    ensures
        final(output)@ == old(output)@ + outline_of(node@, prefix@, is_last),
    decreases node,
{
    match node {
        TreeNode::Root { name, children } => {
            output.append(name.as_str());
            output.append("\n");
            proof {
                reveal_strlit("");
                assert(""@ =~= Seq::<char>::empty());
                lemma_views_of(children@);
            }
            let ghost start = output@;
            let mut i: usize = 0;
            while i < children.len()
                invariant
                    *node is Root,
                    node->Root_children == *children,
                    i <= children@.len(),
                    views_of(children@).len() == children@.len(),
                    forall|j: int|
                        0 <= j < children@.len() ==> #[trigger] views_of(children@)[j]
                            == children@[j]@,
                    ""@ == Seq::<char>::empty(),
                    output@ == start + outline_of_first(
                        views_of(children@),
                        Seq::empty(),
                        i as nat,
                    ),
                decreases children@.len() - i,
            {
                proof {
                    assert(decreases_to!(*node => node->Root_children));
                    assert(decreases_to!(*children => children@));
                    assert(decreases_to!(children@ => children@[i as int]));
                }
                render_node(&children[i], output, "", i == children.len() - 1);
                i += 1;
            }
            assert(output@ =~= old(output)@ + outline_of(node@, prefix@, is_last));
        },
        TreeNode::Branch { label, children } => {
            let connector = if is_last {
                "└── "
            } else {
                "├── "
            };
            output.append(prefix);
            output.append(connector);
            output.append(label.as_str());
            output.append("\n");
            let child_prefix = concat2(
                prefix,
                if is_last {
                    "    "
                } else {
                    "│   "
                },
            );
            proof {
                lemma_views_of(children@);
            }
            let ghost start = output@;
            let mut i: usize = 0;
            while i < children.len()
                invariant
                    *node is Branch,
                    node->Branch_children == *children,
                    i <= children@.len(),
                    views_of(children@).len() == children@.len(),
                    forall|j: int|
                        0 <= j < children@.len() ==> #[trigger] views_of(children@)[j]
                            == children@[j]@,
                    output@ == start + outline_of_first(
                        views_of(children@),
                        child_prefix@,
                        i as nat,
                    ),
                decreases children@.len() - i,
            {
                proof {
                    assert(decreases_to!(*node => node->Branch_children));
                    assert(decreases_to!(*children => children@));
                    assert(decreases_to!(children@ => children@[i as int]));
                }
                render_node(&children[i], output, child_prefix.as_str(), i == children.len() - 1);
                i += 1;
            }
            assert(output@ =~= old(output)@ + outline_of(node@, prefix@, is_last));
        },
        TreeNode::Leaf { label } => {
            let connector = if is_last {
                "└── "
            } else {
                "├── "
            };
            output.append(prefix);
            output.append(connector);
            output.append(label.as_str());
            output.append("\n");
            assert(output@ =~= old(output)@ + outline_of(node@, prefix@, is_last));
        },
    }
}

} // verus!
