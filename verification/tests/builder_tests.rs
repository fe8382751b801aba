//! Trees from branch points, and the end-to-end outlines.

use acacia::analysis::{BinaryOp, BranchPoint, ConditionContext, ConditionExpr};
use acacia::cli::render_function;
use acacia::output::render_to_string;
use acacia::output::OutputError;
use acacia::tree::{TreeBuilder, TreeError, TreeNode};

fn comparison(left: &str, op: BinaryOp, right: &str) -> ConditionExpr {
    ConditionExpr::Binary { left: left.to_string(), op, right: right.to_string() }
}

fn guard(condition: ConditionExpr, context: ConditionContext, is_if_revert: bool) -> BranchPoint {
    BranchPoint { condition, context, is_loop: false, is_external_call: false, is_if_revert }
}

fn count_leaves(node: &TreeNode, label: &str) -> usize {
    match node {
        TreeNode::Root { children, .. } | TreeNode::Branch { children, .. } => {
            children.iter().map(|c| count_leaves(c, label)).sum()
        }
        TreeNode::Leaf { label: l } => {
            if l == label {
                1
            } else {
                0
            }
        }
    }
}

/// The depths, counted in branches above, of the leaves labelled `label`.
fn leaf_depths(node: &TreeNode, label: &str, depth: usize, found: &mut Vec<usize>) {
    match node {
        TreeNode::Root { children, .. } => {
            for c in children {
                leaf_depths(c, label, depth, found);
            }
        }
        TreeNode::Branch { children, .. } => {
            for c in children {
                leaf_depths(c, label, depth + 1, found);
            }
        }
        TreeNode::Leaf { label: l } => {
            if l == label {
                found.push(depth);
            }
        }
    }
}

#[test]
fn require_guard_renders_failing_case_first() {
    let points = vec![guard(
        comparison("amount", BinaryOp::Gt, "0"),
        ConditionContext::External,
        false,
    )];
    let tree = TreeBuilder::build("transfer", points).unwrap();
    let expected = "\
transfer
├── when amount is at most zero
│   └── it should revert
└── when amount is greater than zero
    └── it should succeed
";
    assert_eq!(render_to_string(&tree), expected);
}

#[test]
fn if_revert_guard_reverts_on_the_true_case() {
    let points = vec![guard(
        comparison("amount", BinaryOp::Eq, "0"),
        ConditionContext::External,
        true,
    )];
    let tree = TreeBuilder::build("mint", points).unwrap();
    match &tree {
        TreeNode::Root { name, children } => {
            assert_eq!(name, "mint");
            assert_eq!(children.len(), 2);
            match &children[0] {
                TreeNode::Branch { label, children } => {
                    assert_eq!(label, "when amount is zero");
                    assert_eq!(children.len(), 1);
                    assert!(
                        matches!(&children[0], TreeNode::Leaf { label } if label == "it should revert")
                    );
                }
                other => panic!("unexpected node {:?}", other),
            }
            match &children[1] {
                TreeNode::Branch { label, children } => {
                    assert_eq!(label, "when amount is not zero");
                    assert_eq!(children.len(), 1);
                    assert!(
                        matches!(&children[0], TreeNode::Leaf { label } if label == "it should succeed")
                    );
                }
                other => panic!("unexpected node {:?}", other),
            }
        }
        other => panic!("unexpected node {:?}", other),
    }
}

#[test]
fn loop_guard_is_labelled_any() {
    let points = vec![BranchPoint {
        condition: comparison("amounts[...]", BinaryOp::Gt, "0"),
        context: ConditionContext::External,
        is_loop: true,
        is_external_call: false,
        is_if_revert: false,
    }];
    let text = render_function("batchTransfer", &points);
    let expected = "\
batchTransfer
├── when any amounts[...] is at most zero
│   └── it should revert
└── when any amounts[...] is greater than zero
    └── it should succeed
";
    assert_eq!(text, expected);
}

#[test]
fn external_call_gives_fails_and_succeeds() {
    for is_if_revert in [false, true] {
        let points = vec![BranchPoint {
            condition: ConditionExpr::ExternalCall("Address.sendValue(...)".to_string()),
            context: ConditionContext::External,
            is_loop: false,
            is_external_call: true,
            is_if_revert,
        }];
        let tree = TreeBuilder::build("pay", points).unwrap();
        let expected = "\
pay
├── when Address.sendValue(...) fails
│   └── it should revert
└── when Address.sendValue(...) succeeds
    └── it should succeed
";
        assert_eq!(render_to_string(&tree), expected);
        match tree {
            TreeNode::Root { children, .. } => assert_eq!(children.len(), 2),
            other => panic!("unexpected node {:?}", other),
        }
    }
}

#[test]
fn external_call_without_a_call_condition_has_a_generic_name() {
    let points = vec![BranchPoint {
        condition: ConditionExpr::Ident("ok".to_string()),
        context: ConditionContext::Storage,
        is_loop: true,
        is_external_call: true,
        is_if_revert: false,
    }];
    let expected = "\
f
├── when external call fails
│   └── it should revert
└── when external call succeeds
    └── it should succeed
";
    assert_eq!(render_function("f", &points), expected);
}

#[test]
fn no_branch_points_give_a_single_success_leaf() {
    let tree = TreeBuilder::build("noop", vec![]).unwrap();
    match &tree {
        TreeNode::Root { name, children } => {
            assert_eq!(name, "noop");
            assert_eq!(children.len(), 1);
            assert!(matches!(&children[0], TreeNode::Leaf { label } if label == "it should succeed"));
        }
        other => panic!("unexpected node {:?}", other),
    }
    assert_eq!(render_to_string(&tree), "noop\n└── it should succeed\n");
}

#[test]
fn tree_has_one_revert_leaf_per_branch_point_and_one_success_leaf() {
    for n in 0..6usize {
        let points: Vec<BranchPoint> = (0..n)
            .map(|i| {
                guard(
                    ConditionExpr::Ident(format!("flag{}", i)),
                    ConditionContext::External,
                    i % 2 == 0,
                )
            })
            .collect();
        let tree = TreeBuilder::build("f", points).unwrap();
        assert_eq!(count_leaves(&tree, "it should revert"), n);
        assert_eq!(count_leaves(&tree, "it should succeed"), 1);
        let mut depths = Vec::new();
        leaf_depths(&tree, "it should succeed", 0, &mut depths);
        assert_eq!(depths, vec![n]);
    }
}

#[test]
fn reordering_branch_points_changes_the_tree() {
    let first = || guard(ConditionExpr::Ident("a".to_string()), ConditionContext::External, false);
    let second = || guard(ConditionExpr::Ident("b".to_string()), ConditionContext::Storage, false);
    let forward = render_function("f", &vec![first(), second()]);
    let backward = render_function("f", &vec![second(), first()]);
    assert_ne!(forward, backward);
    assert_eq!(
        forward,
        "\
f
├── when a is false
│   └── it should revert
└── when a is true
    ├── given b is false
    │   └── it should revert
    └── given b is true
        └── it should succeed
"
    );
    assert_eq!(
        backward,
        "\
f
├── given b is false
│   └── it should revert
└── given b is true
    ├── when a is false
    │   └── it should revert
    └── when a is true
        └── it should succeed
"
    );
}

#[test]
fn equal_branch_points_are_all_kept() {
    let point = || guard(ConditionExpr::Ident("a".to_string()), ConditionContext::External, false);
    let tree = TreeBuilder::build("f", vec![point(), point(), point()]).unwrap();
    assert_eq!(count_leaves(&tree, "it should revert"), 3);
}

#[test]
fn rendering_twice_gives_the_same_text() {
    let points = || {
        vec![
            guard(comparison("amount", BinaryOp::Gt, "0"), ConditionContext::External, false),
            guard(comparison("balance", BinaryOp::Lt, "amount"), ConditionContext::Storage, true),
        ]
    };
    let once = render_function("withdraw", &points());
    let again = render_function("withdraw", &points());
    assert_eq!(once, again);
    let tree = TreeBuilder::build("withdraw", points()).unwrap();
    assert_eq!(render_to_string(&tree), once);
    assert_eq!(render_to_string(&tree), once);
}

#[test]
fn render_indents_below_a_branch_that_is_not_last() {
    let tree = TreeNode::Root {
        name: "f".to_string(),
        children: vec![
            TreeNode::Branch {
                label: "a".to_string(),
                children: vec![
                    TreeNode::Branch {
                        label: "b".to_string(),
                        children: vec![TreeNode::Leaf { label: "c".to_string() }],
                    },
                    TreeNode::Leaf { label: "d".to_string() },
                ],
            },
            TreeNode::Leaf { label: "e".to_string() },
        ],
    };
    let expected = "\
f
├── a
│   ├── b
│   │   └── c
│   └── d
└── e
";
    assert_eq!(render_to_string(&tree), expected);
}

#[test]
fn render_of_a_bare_leaf_and_branch() {
    assert_eq!(render_to_string(&TreeNode::Leaf { label: "x".to_string() }), "└── x\n");
    let branch = TreeNode::Branch { label: "b".to_string(), children: vec![] };
    assert_eq!(render_to_string(&branch), "└── b\n");
    let root = TreeNode::Root { name: "r".to_string(), children: vec![] };
    assert_eq!(render_to_string(&root), "r\n");
}

#[test]
fn a_copied_tree_renders_the_same() {
    let points = vec![
        guard(comparison("amount", BinaryOp::Gt, "0"), ConditionContext::External, false),
        guard(comparison("balance", BinaryOp::Lt, "amount"), ConditionContext::Storage, true),
    ];
    let tree = TreeBuilder::build("withdraw", points).unwrap();
    let copy = tree.clone();
    assert_eq!(render_to_string(&copy), render_to_string(&tree));
    assert_eq!(count_leaves(&copy, "it should revert"), 2);
}

#[test]
fn tree_and_output_errors_have_messages() {
    assert_eq!(
        TreeError::BuildError("no condition".to_string()).to_string(),
        "Failed to build tree: no condition"
    );
    assert_eq!(OutputError::IoError("disk full".to_string()).to_string(), "IO error: disk full");
}
