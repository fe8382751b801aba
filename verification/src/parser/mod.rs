//! Function analysis over parsed contract syntax.

pub mod resolver;
pub mod solar;
pub mod syntax;

pub use resolver::{InheritanceResolver, ModifierDef};
pub use solar::{FunctionContext, ParserError, SolarParser};
