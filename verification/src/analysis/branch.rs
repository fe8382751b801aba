//! Branch point data types.

use crate::text::concat3;
use vstd::prelude::*;

verus! {

/// Where a condition's truth comes from; decides between "given" and "when".
#[derive(Debug, Clone, Copy, PartialEq, Eq, Structural)]
pub enum ConditionContext {
    /// Persistent contract state: labelled "given".
    Storage,
    /// Caller input, block or transaction data, call results: labelled "when".
    External,
}

/// A comparison operator.
#[derive(Debug, Clone, Copy, PartialEq, Eq, Structural)]
pub enum BinaryOp {
    Eq,
    NotEq,
    Gt,
    Gte,
    Lt,
    Lte,
}

/// A boolean condition, as far as labels depend on it.
#[derive(Debug)]
pub enum ConditionExpr {
    /// A comparison of two rendered operands: `a == b`, `a > b`, ...
    Binary { left: String, op: BinaryOp, right: String },
    /// Negation: `!a`.
    Not(Box<ConditionExpr>),
    /// Conjunction: `a && b`.
    And(Box<ConditionExpr>, Box<ConditionExpr>),
    /// Disjunction: `a || b`.
    Or(Box<ConditionExpr>, Box<ConditionExpr>),
    /// Any other boolean-valued expression, by its rendered text.
    Ident(String),
    /// "This call succeeded", by the call's display name.
    ExternalCall(String),
}

/// The mathematical value of a [`ConditionExpr`].
pub ghost enum ConditionView {
    Binary { left: Seq<char>, op: BinaryOp, right: Seq<char> },
    Not(Box<ConditionView>),
    And(Box<ConditionView>, Box<ConditionView>),
    Or(Box<ConditionView>, Box<ConditionView>),
    Ident(Seq<char>),
    ExternalCall(Seq<char>),
}

/// One guard met while walking a function: a condition whose outcome decides
/// whether execution reverts.
#[derive(Debug)]
pub struct BranchPoint {
    /// The guard condition.
    pub condition: ConditionExpr,
    /// Whether the condition depends on contract state.
    pub context: ConditionContext,
    /// Whether the guard sits inside a loop ("any" labelling).
    pub is_loop: bool,
    /// Whether the guard is the outcome of an external call.
    pub is_external_call: bool,
    /// True where the condition holding causes the revert (`if (c) revert`),
    /// false where its failing does (`require(c)`).
    pub is_if_revert: bool,
}

/// The mathematical value of a [`BranchPoint`].
pub ghost struct BranchPointView {
    pub condition: ConditionView,
    pub context: ConditionContext,
    pub is_loop: bool,
    pub is_external_call: bool,
    pub is_if_revert: bool,
}

/// The source spelling of a comparison operator.
pub open spec fn op_symbol(op: BinaryOp) -> Seq<char> {
    match op {
        BinaryOp::Eq => "=="@,
        BinaryOp::NotEq => "!="@,
        BinaryOp::Gt => ">"@,
        BinaryOp::Gte => ">="@,
        BinaryOp::Lt => "<"@,
        BinaryOp::Lte => "<="@,
    }
}

/// A condition written back as source-like text.
pub open spec fn condition_text(c: ConditionView) -> Seq<char>
    decreases c,
{
    match c {
        ConditionView::Binary { left, op, right } => left + " "@ + op_symbol(op) + " "@ + right,
        ConditionView::Not(inner) => "!("@ + condition_text(*inner) + ")"@,
        ConditionView::And(l, r) => "("@ + condition_text(*l) + ") && ("@ + condition_text(*r)
            + ")"@,
        ConditionView::Or(l, r) => "("@ + condition_text(*l) + ") || ("@ + condition_text(*r)
            + ")"@,
        ConditionView::Ident(s) => s,
        ConditionView::ExternalCall(s) => s,
    }
}

impl BinaryOp {
    /// The operator's source spelling.
    pub fn symbol(&self) -> (r: &'static str)
        ensures
            r@ == op_symbol(*self),
    {
        match self {
            BinaryOp::Eq => "==",
            BinaryOp::NotEq => "!=",
            BinaryOp::Gt => ">",
            BinaryOp::Gte => ">=",
            BinaryOp::Lt => "<",
            BinaryOp::Lte => "<=",
        }
    }

    /// The operator's source spelling, owned.
    pub fn to_string(&self) -> (r: String)
        ensures
            r@ == op_symbol(*self),
    {
        String::from_str(self.symbol())
    }
}

/// The mathematical value of a condition.
pub open spec fn condition_view(c: ConditionExpr) -> ConditionView
    decreases c,
{
    match c {
        ConditionExpr::Binary { left, op, right } => ConditionView::Binary {
            left: left@,
            op,
            right: right@,
        },
        ConditionExpr::Not(inner) => ConditionView::Not(Box::new(condition_view(*inner))),
        ConditionExpr::And(l, r) => ConditionView::And(
            Box::new(condition_view(*l)),
            Box::new(condition_view(*r)),
        ),
        ConditionExpr::Or(l, r) => ConditionView::Or(
            Box::new(condition_view(*l)),
            Box::new(condition_view(*r)),
        ),
        ConditionExpr::Ident(s) => ConditionView::Ident(s@),
        ConditionExpr::ExternalCall(s) => ConditionView::ExternalCall(s@),
    }
}

impl View for ConditionExpr {
    type V = ConditionView;

    open spec fn view(&self) -> ConditionView {
        condition_view(*self)
    }
}

impl DeepView for ConditionExpr {
    type V = ConditionView;

    open spec fn deep_view(&self) -> ConditionView {
        self@
    }
}

impl Clone for ConditionExpr {
    fn clone(&self) -> (r: Self)
        ensures
            r@ == self@,
        decreases self,
    {
        match self {
            ConditionExpr::Binary { left, op, right } => ConditionExpr::Binary {
                left: left.clone(),
                op: *op,
                right: right.clone(),
            },
            ConditionExpr::Not(inner) => ConditionExpr::Not(Box::new((**inner).clone())),
            ConditionExpr::And(l, r) => ConditionExpr::And(
                Box::new((**l).clone()),
                Box::new((**r).clone()),
            ),
            ConditionExpr::Or(l, r) => ConditionExpr::Or(
                Box::new((**l).clone()),
                Box::new((**r).clone()),
            ),
            ConditionExpr::Ident(s) => ConditionExpr::Ident(s.clone()),
            ConditionExpr::ExternalCall(s) => ConditionExpr::ExternalCall(s.clone()),
        }
    }
}

impl ConditionExpr {
    /// The condition written back as source-like text.
    pub fn to_string(&self) -> (r: String)
        ensures
            r@ == condition_text(self@),
        decreases self,
    {
        match self {
            ConditionExpr::Binary { left, op, right } => {
                let mut out = concat3(left.as_str(), " ", op.symbol());
                out.append(" ");
                out.append(right.as_str());
                out
            },
            ConditionExpr::Not(inner) => {
                let body = inner.to_string();
                concat3("!(", body.as_str(), ")")
            },
            ConditionExpr::And(l, r) => {
                let left = l.to_string();
                let right = r.to_string();
                let mut out = concat3("(", left.as_str(), ") && (");
                out.append(right.as_str());
                out.append(")");
                out
            },
            ConditionExpr::Or(l, r) => {
                let left = l.to_string();
                let right = r.to_string();
                let mut out = concat3("(", left.as_str(), ") || (");
                out.append(right.as_str());
                out.append(")");
                out
            },
            ConditionExpr::Ident(s) => s.clone(),
            ConditionExpr::ExternalCall(s) => s.clone(),
        }
    }
}

impl View for BranchPoint {
    type V = BranchPointView;

    open spec fn view(&self) -> BranchPointView {
        BranchPointView {
            condition: self.condition@,
            context: self.context,
            is_loop: self.is_loop,
            is_external_call: self.is_external_call,
            is_if_revert: self.is_if_revert,
        }
    }
}

impl DeepView for BranchPoint {
    type V = BranchPointView;

    open spec fn deep_view(&self) -> BranchPointView {
        self@
    }
}

impl Clone for BranchPoint {
    fn clone(&self) -> (r: Self)
        ensures
            r@ == self@,
    {
        BranchPoint {
            condition: self.condition.clone(),
            context: self.context,
            is_loop: self.is_loop,
            is_external_call: self.is_external_call,
            is_if_revert: self.is_if_revert,
        }
    }
}

} // verus!
