//! Tree construction.

pub mod builder;
pub mod labeler;

pub use builder::{TreeBuilder, TreeError, TreeNode, TreeView};
pub use labeler::ConditionLabeler;
