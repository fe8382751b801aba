//! Branch points and the conditions that guard them.

pub mod branch;

pub use branch::{
    condition_view, BinaryOp, BranchPoint, BranchPointView, ConditionContext, ConditionExpr,
    ConditionView,
};
