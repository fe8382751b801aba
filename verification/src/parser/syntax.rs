//! The part of a parsed source file that the analysis reads.
//!
//! A front end that parses source text builds these values; everything the
//! analysis does not look at collapses into the `Other` variants.

use vstd::prelude::*;

verus! {

/// A binary operator.
#[derive(Debug, Clone, Copy, PartialEq, Eq, Structural)]
pub enum BinOpKind {
    /// `<`
    Lt,
    /// `<=`
    Le,
    /// `>`
    Gt,
    /// `>=`
    Ge,
    /// `==`
    Eq,
    /// `!=`
    Ne,
    /// `||`
    Or,
    /// `&&`
    And,
    /// `>>`
    Shr,
    /// `<<`
    Shl,
    /// `>>>`
    Sar,
    /// `&`
    BitAnd,
    /// `|`
    BitOr,
    /// `^`
    BitXor,
    /// `+`
    Add,
    /// `-`
    Sub,
    /// `**`
    Pow,
    /// `*`
    Mul,
    /// `/`
    Div,
    /// `%`
    Rem,
}

/// A unary operator.
#[derive(Debug, Clone, Copy, PartialEq, Eq, Structural)]
pub enum UnOpKind {
    /// `++x`
    PreInc,
    /// `--x`
    PreDec,
    /// `!x`
    Not,
    /// `-x`
    Neg,
    /// `~x`
    BitNot,
    /// `x++`
    PostInc,
    /// `x--`
    PostDec,
}

/// An expression.
#[derive(Debug)]
pub enum Expr {
    /// An identifier: `foo`.
    Ident(String),
    /// A literal, by its rendered text.
    Lit(String),
    /// Access of a named member: `base.member`.
    Member(Box<Expr>, String),
    /// An indexing expression, by its base: `base[..]`.
    Index(Box<Expr>),
    /// A call: the callee and the argument expressions in source order.
    Call(Box<Expr>, Vec<Expr>),
    /// A binary operation: `a + b`, `a >= b`.
    Binary(Box<Expr>, BinOpKind, Box<Expr>),
    /// A unary operation: `!x`, `x++`.
    Unary(UnOpKind, Box<Expr>),
    /// Any other expression.
    Other,
}

/// A statement.
#[derive(Debug)]
pub enum Stmt {
    /// An expression with a trailing semicolon.
    Expr(Expr),
    /// `if (test) taken else alternate`.
    If(Expr, Box<Stmt>, Option<Box<Stmt>>),
    /// A `for` loop, by its body.
    For(Box<Stmt>),
    /// A `while` loop, by its body.
    While(Box<Stmt>),
    /// A `do .. while` loop, by its body.
    DoWhile(Box<Stmt>),
    /// A `try` statement, by the call it guards.
    Try(Expr),
    /// A blocked scope: `{ ... }`.
    Block(Vec<Stmt>),
    /// An unchecked block: `unchecked { ... }`.
    UncheckedBlock(Vec<Stmt>),
    /// A revert statement: `revert Failure(..);`.
    Revert,
    /// Any other statement.
    Other,
}

/// A type name, as far as a parameter signature shows it.
#[derive(Debug)]
pub enum TypeName {
    /// An elementary type, by its source spelling: `uint256`.
    Elementary(String),
    /// A user-defined type, by the last segment of its path.
    Custom(String),
    /// An array of the element type.
    Array(Box<TypeName>),
    /// A function type.
    Function,
    /// A mapping type.
    Mapping,
    /// Any other type.
    Other,
}

/// What kind of function-like item a definition is.
#[derive(Debug, Clone, Copy, PartialEq, Eq, Structural)]
pub enum FunctionKind {
    Constructor,
    Function,
    Fallback,
    Receive,
    Modifier,
}

/// Declared visibility.
#[derive(Debug, Clone, Copy, PartialEq, Eq, Structural)]
pub enum Visibility {
    Private,
    Internal,
    Public,
    External,
}

/// One parameter of a function.
#[derive(Debug)]
pub struct Parameter {
    pub ty: TypeName,
    pub name: Option<String>,
}

/// A function, modifier, constructor, fallback or receive definition.
#[derive(Debug)]
pub struct FunctionDef {
    pub kind: FunctionKind,
    pub name: Option<String>,
    pub parameters: Vec<Parameter>,
    pub visibility: Option<Visibility>,
    /// The modifiers attached to the function, each by the last segment of
    /// its name, in the order they are attached.
    pub modifiers: Vec<String>,
    /// The statements of the body; `None` where the item has none.
    pub body: Option<Vec<Stmt>>,
}

/// An item in a contract body.
#[derive(Debug)]
pub enum ContractItem {
    Function(FunctionDef),
    /// A state variable, by its name.
    Variable(Option<String>),
    /// Any other item.
    Other,
}

/// A contract, interface or library definition.
#[derive(Debug)]
pub struct ContractDef {
    pub name: String,
    /// The inherited contracts, each by the last segment of its name.
    pub bases: Vec<String>,
    pub body: Vec<ContractItem>,
}

/// A top-level item of a source file.
#[derive(Debug)]
pub enum SourceItem {
    /// An import directive, by its path.
    Import(String),
    Contract(ContractDef),
    /// Any other item.
    Other,
}

/// A parsed source file.
#[derive(Debug)]
pub struct SourceUnit {
    pub items: Vec<SourceItem>,
}

/// The name of a binary operator.
pub open spec fn bin_op_name(kind: BinOpKind) -> Seq<char> {
    match kind {
        BinOpKind::Lt => "Lt"@,
        BinOpKind::Le => "Le"@,
        BinOpKind::Gt => "Gt"@,
        BinOpKind::Ge => "Ge"@,
        BinOpKind::Eq => "Eq"@,
        BinOpKind::Ne => "Ne"@,
        BinOpKind::Or => "Or"@,
        BinOpKind::And => "And"@,
        BinOpKind::Shr => "Shr"@,
        BinOpKind::Shl => "Shl"@,
        BinOpKind::Sar => "Sar"@,
        BinOpKind::BitAnd => "BitAnd"@,
        BinOpKind::BitOr => "BitOr"@,
        BinOpKind::BitXor => "BitXor"@,
        BinOpKind::Add => "Add"@,
        BinOpKind::Sub => "Sub"@,
        BinOpKind::Pow => "Pow"@,
        BinOpKind::Mul => "Mul"@,
        BinOpKind::Div => "Div"@,
        BinOpKind::Rem => "Rem"@,
    }
}

impl BinOpKind {
    /// The operator's name, as operand renderings spell it.
    pub fn name(&self) -> (r: &'static str)
        ensures
            r@ == bin_op_name(*self),
    {
        match self {
            BinOpKind::Lt => "Lt",
            BinOpKind::Le => "Le",
            BinOpKind::Gt => "Gt",
            BinOpKind::Ge => "Ge",
            BinOpKind::Eq => "Eq",
            BinOpKind::Ne => "Ne",
            BinOpKind::Or => "Or",
            BinOpKind::And => "And",
            BinOpKind::Shr => "Shr",
            BinOpKind::Shl => "Shl",
            BinOpKind::Sar => "Sar",
            BinOpKind::BitAnd => "BitAnd",
            BinOpKind::BitOr => "BitOr",
            BinOpKind::BitXor => "BitXor",
            BinOpKind::Add => "Add",
            BinOpKind::Sub => "Sub",
            BinOpKind::Pow => "Pow",
            BinOpKind::Mul => "Mul",
            BinOpKind::Div => "Div",
            BinOpKind::Rem => "Rem",
        }
    }
}

} // verus!
