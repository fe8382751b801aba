//! Branch-point extraction from parsed functions.

use crate::analysis::{
    BinaryOp, BranchPoint, BranchPointView, ConditionContext, ConditionExpr, ConditionView,
};
use crate::foundry::FoundryProject;
use crate::parser::syntax::{
    bin_op_name, BinOpKind, ContractDef, ContractItem, Expr, FunctionDef, FunctionKind, Parameter,
    SourceItem, SourceUnit, Stmt, TypeName, UnOpKind, Visibility,
};
use crate::text::{concat2, concat3, starts_with};
use vstd::prelude::*;

verus! {

/// How an expression is rendered as an operand of a condition. Shapes without
/// a rendering of their own degrade to the placeholder `expr`.
pub open spec fn expr_text(e: Expr) -> Seq<char>
    decreases e,
{
    match e {
        Expr::Ident(name) => name@,
        Expr::Lit(text) => text@,
        Expr::Member(base, member) => expr_text(*base) + "."@ + member@,
        Expr::Index(base) => expr_text(*base) + "[...]"@,
        Expr::Call(callee, _) => expr_text(*callee) + "(...)"@,
        Expr::Binary(left, op, right) => expr_text(*left) + " "@ + bin_op_name(op) + " "@
            + expr_text(*right),
        _ => "expr"@,
    }
}

/// The comparison that a binary operator stands for, if it is one.
pub open spec fn comparison_of(kind: BinOpKind) -> Option<BinaryOp> {
    match kind {
        BinOpKind::Eq => Some(BinaryOp::Eq),
        BinOpKind::Ne => Some(BinaryOp::NotEq),
        BinOpKind::Gt => Some(BinaryOp::Gt),
        BinOpKind::Ge => Some(BinaryOp::Gte),
        BinOpKind::Lt => Some(BinaryOp::Lt),
        BinOpKind::Le => Some(BinaryOp::Lte),
        _ => None,
    }
}

/// The condition that a boolean expression stands for. Comparisons map
/// directly, `&&`, `||` and `!` compose the conditions of their operands,
/// and every other shape, any other binary operation too, is an opaque
/// identifier carrying its rendering.
pub open spec fn condition_of(e: Expr) -> ConditionView
    decreases e,
{
    match e {
        Expr::Binary(left, op, right) => match op {
            BinOpKind::And => ConditionView::And(
                Box::new(condition_of(*left)),
                Box::new(condition_of(*right)),
            ),
            BinOpKind::Or => ConditionView::Or(
                Box::new(condition_of(*left)),
                Box::new(condition_of(*right)),
            ),
            _ => match comparison_of(op) {
                Some(comparison) => ConditionView::Binary {
                    left: expr_text(*left),
                    op: comparison,
                    right: expr_text(*right),
                },
                None => ConditionView::Ident(expr_text(e)),
            },
        },
        Expr::Unary(op, inner) => if op == UnOpKind::Not {
            ConditionView::Not(Box::new(condition_of(*inner)))
        } else {
            ConditionView::Ident(expr_text(e))
        },
        _ => ConditionView::Ident(expr_text(e)),
    }
}

/// Whether an expression is a call of the plain identifier `name`.
pub open spec fn calls_named(e: Expr, name: Seq<char>) -> bool {
    e matches Expr::Call(callee, _) && *callee matches Expr::Ident(id) && id@ == name
}

/// Whether a statement is revert-terminal, so that execution cannot get past
/// it: a revert statement, a call of `revert`, a block or unchecked block
/// that holds a revert-terminal statement, or an `if` with an alternate
/// whose two branches are both revert-terminal.
pub open spec fn reverts(s: Stmt) -> bool
    decreases s,
{
    match s {
        Stmt::Revert => true,
        Stmt::Expr(e) => calls_named(e, "revert"@),
        Stmt::Block(stmts) => any_reverts(stmts@),
        Stmt::UncheckedBlock(stmts) => any_reverts(stmts@),
        Stmt::If(_, taken, alternate) => match alternate {
            Some(other) => reverts(*taken) && reverts(*other),
            None => false,
        },
        _ => false,
    }
}

/// Whether one of `stmts` is revert-terminal.
pub open spec fn any_reverts(stmts: Seq<Stmt>) -> bool
    decreases stmts,
{
    exists|i: int| 0 <= i < stmts.len() && reverts(#[trigger] stmts[i])
}

/// Whether the text `s` is the name `name`, or a field or index access on it.
pub open spec fn refers_to(s: Seq<char>, name: Seq<char>) -> bool {
    s == name || (name + "."@).is_prefix_of(s) || (name + "["@).is_prefix_of(s)
}

/// Whether the text `s` refers to one of the storage names.
pub open spec fn is_storage_name(s: Seq<char>, state_vars: Seq<Seq<char>>) -> bool {
    exists|i: int| 0 <= i < state_vars.len() && #[trigger] refers_to(s, state_vars[i])
}

/// The context of a condition: storage as soon as one operand anywhere in it
/// refers to a storage name, external otherwise.
pub open spec fn classify(c: ConditionView, state_vars: Seq<Seq<char>>) -> ConditionContext
    decreases c,
{
    match c {
        ConditionView::Binary { left, op, right } => if is_storage_name(left, state_vars)
            || is_storage_name(right, state_vars) {
            ConditionContext::Storage
        } else {
            ConditionContext::External
        },
        ConditionView::Not(inner) => classify(*inner, state_vars),
        ConditionView::And(l, r) | ConditionView::Or(l, r) => if classify(*l, state_vars)
            == ConditionContext::Storage || classify(*r, state_vars)
            == ConditionContext::Storage {
            ConditionContext::Storage
        } else {
            ConditionContext::External
        },
        ConditionView::Ident(name) => if is_storage_name(name, state_vars) {
            ConditionContext::Storage
        } else {
            ConditionContext::External
        },
        ConditionView::ExternalCall(_) => ConditionContext::External,
    }
}

/// The branch point of a guard over condition `c`.
pub open spec fn guard_point(
    c: ConditionView,
    state_vars: Seq<Seq<char>>,
    in_loop: bool,
    is_if_revert: bool,
) -> BranchPointView {
    BranchPointView {
        condition: c,
        context: classify(c, state_vars),
        is_loop: in_loop,
        is_external_call: false,
        is_if_revert,
    }
}

/// The branch point of a guard over the expression `e`.
pub open spec fn expr_guard(
    e: Expr,
    state_vars: Seq<Seq<char>>,
    in_loop: bool,
    is_if_revert: bool,
) -> BranchPointView {
    guard_point(condition_of(e), state_vars, in_loop, is_if_revert)
}

/// The branch point of a guarded external call.
pub open spec fn call_point(name: Seq<char>, in_loop: bool) -> BranchPointView {
    BranchPointView {
        condition: ConditionView::ExternalCall(name),
        context: ConditionContext::External,
        is_loop: in_loop,
        is_external_call: true,
        is_if_revert: false,
    }
}

/// Whether an expression statement is a `require` or `assert` guard with at
/// least one argument.
pub open spec fn is_guard_call(e: Expr) -> bool {
    &&& calls_named(e, "require"@) || calls_named(e, "assert"@)
    &&& e->Call_1@.len() > 0
}

/// The branch points of one statement, in execution order.
pub open spec fn stmt_branch_points(
    s: Stmt,
    state_vars: Seq<Seq<char>>,
    in_loop: bool,
) -> Seq<BranchPointView>
    decreases s,
{
    match s {
        Stmt::Expr(e) => if is_guard_call(e) {
            seq![expr_guard(e->Call_1@[0], state_vars, in_loop, false)]
        } else {
            Seq::empty()
        },
        Stmt::If(test, taken, alternate) => {
            let first = if reverts(*taken) {
                seq![expr_guard(test, state_vars, in_loop, true)]
            } else {
                stmt_branch_points(*taken, state_vars, in_loop)
            };
            let rest = match alternate {
                Some(other) => stmt_branch_points(*other, state_vars, in_loop),
                None => Seq::empty(),
            };
            first + rest
        },
        Stmt::For(body) => stmt_branch_points(*body, state_vars, true),
        Stmt::While(body) => stmt_branch_points(*body, state_vars, true),
        Stmt::DoWhile(body) => stmt_branch_points(*body, state_vars, true),
        Stmt::Try(call) => seq![call_point(expr_text(call), in_loop)],
        Stmt::Block(stmts) => block_branch_points(stmts@, state_vars, in_loop),
        Stmt::UncheckedBlock(stmts) => block_branch_points(stmts@, state_vars, in_loop),
        _ => Seq::empty(),
    }
}

/// The branch points of a sequence of statements: those of each statement,
/// one after the other.
pub open spec fn block_branch_points(
    stmts: Seq<Stmt>,
    state_vars: Seq<Seq<char>>,
    in_loop: bool,
) -> Seq<BranchPointView>
    decreases stmts,
{
    if stmts.len() == 0 {
        Seq::empty()
    } else {
        block_branch_points(stmts.drop_last(), state_vars, in_loop) + stmt_branch_points(
            stmts.last(),
            state_vars,
            in_loop,
        )
    }
}

/// Statements keep their places: the branch points of two runs of statements
/// put together are the branch points of the first run followed by those of
/// the second, nothing reordered and nothing dropped.
pub proof fn lemma_block_points_concat(
    first: Seq<Stmt>,
    second: Seq<Stmt>,
    state_vars: Seq<Seq<char>>,
    in_loop: bool,
)
    ensures
        block_branch_points(first + second, state_vars, in_loop) == block_branch_points(
            first,
            state_vars,
            in_loop,
        ) + block_branch_points(second, state_vars, in_loop),
    decreases second.len(),
{
    if second.len() == 0 {
        assert(first + second =~= first);
    } else {
        assert((first + second).drop_last() =~= first + second.drop_last());
        assert((first + second).last() == second.last());
        lemma_block_points_concat(first, second.drop_last(), state_vars, in_loop);
    }
}

/// Why a function could not be analysed.
#[derive(Debug)]
pub enum ParserError {
    /// The source file could not be parsed.
    ParseError(String),
    /// The file holds no contract of this name.
    ContractNotFound(String),
    /// The contract (second) holds no function of this name (first).
    FunctionNotFound(String, String),
    /// The source file could not be read.
    IoError(String),
}

/// The mathematical value of a [`ParserError`].
pub ghost enum ParserErrorView {
    ParseError(Seq<char>),
    ContractNotFound(Seq<char>),
    FunctionNotFound(Seq<char>, Seq<char>),
    IoError(Seq<char>),
}

impl View for ParserError {
    type V = ParserErrorView;

    open spec fn view(&self) -> ParserErrorView {
        match self {
            ParserError::ParseError(m) => ParserErrorView::ParseError(m@),
            ParserError::ContractNotFound(c) => ParserErrorView::ContractNotFound(c@),
            ParserError::FunctionNotFound(f, c) => ParserErrorView::FunctionNotFound(f@, c@),
            ParserError::IoError(m) => ParserErrorView::IoError(m@),
        }
    }
}

/// The message of an error.
pub open spec fn error_message(e: ParserErrorView) -> Seq<char> {
    match e {
        ParserErrorView::ParseError(m) => "Failed to parse file: "@ + m,
        ParserErrorView::ContractNotFound(c) => "Contract '"@ + c + "' not found in file"@,
        ParserErrorView::FunctionNotFound(f, c) => "Function '"@ + f + "' not found in contract '"@
            + c + "'"@,
        ParserErrorView::IoError(m) => "IO error: "@ + m,
    }
}

impl ParserError {
    /// The error as a message.
    pub fn to_string(&self) -> (r: String)
        ensures
            r@ == error_message(self@),
    {
        match self {
            ParserError::ParseError(m) => concat2("Failed to parse file: ", m.as_str()),
            ParserError::ContractNotFound(c) => concat3(
                "Contract '",
                c.as_str(),
                "' not found in file",
            ),
            ParserError::FunctionNotFound(f, c) => {
                let mut out = concat3("Function '", f.as_str(), "' not found in contract '");
                out.append(c.as_str());
                out.append("'");
                out
            },
            ParserError::IoError(m) => concat2("IO error: ", m.as_str()),
        }
    }
}

/// What the analysis of one function gives.
#[derive(Debug)]
pub struct FunctionContext {
    pub function_name: String,
    /// The parameter types, joined by commas; tells overloads apart.
    pub signature: String,
    pub branch_points: Vec<BranchPoint>,
    pub parameters: Vec<String>,
    pub state_variables: Vec<String>,
}

/// The mathematical value of a [`FunctionContext`].
pub ghost struct FunctionContextView {
    pub function_name: Seq<char>,
    pub signature: Seq<char>,
    pub branch_points: Seq<BranchPointView>,
    pub parameters: Seq<Seq<char>>,
    pub state_variables: Seq<Seq<char>>,
}

impl View for FunctionContext {
    type V = FunctionContextView;

    open spec fn view(&self) -> FunctionContextView {
        FunctionContextView {
            function_name: self.function_name@,
            signature: self.signature@,
            branch_points: self.branch_points.deep_view(),
            parameters: self.parameters.deep_view(),
            state_variables: self.state_variables.deep_view(),
        }
    }
}

impl DeepView for FunctionContext {
    type V = FunctionContextView;

    open spec fn deep_view(&self) -> FunctionContextView {
        self@
    }
}

impl Clone for FunctionContext {
    fn clone(&self) -> (r: Self)
        ensures
            r@ == self@,
    {
        FunctionContext {
            function_name: self.function_name.clone(),
            signature: self.signature.clone(),
            branch_points: clone_points(&self.branch_points),
            parameters: clone_names(&self.parameters),
            state_variables: clone_names(&self.state_variables),
        }
    }
}

/// A copy of a list of branch points.
pub fn clone_points(points: &Vec<BranchPoint>) -> (r: Vec<BranchPoint>)
    ensures
        r.deep_view() == points.deep_view(),
{
    let mut out: Vec<BranchPoint> = Vec::new();
    let mut i: usize = 0;
    while i < points.len()
        invariant
            i <= points@.len(),
            out@.len() == i,
            forall|j: int| 0 <= j < i ==> out@[j]@ == points@[j]@,
        decreases points@.len() - i,
    {
        out.push(points[i].clone());
        i += 1;
    }
    assert(out.deep_view() =~= points.deep_view());
    out
}

/// A copy of a list of names.
pub fn clone_names(names: &Vec<String>) -> (r: Vec<String>)
    ensures
        r.deep_view() == names.deep_view(),
{
    let mut out: Vec<String> = Vec::new();
    let mut i: usize = 0;
    while i < names.len()
        invariant
            i <= names@.len(),
            out@.len() == i,
            forall|j: int| 0 <= j < i ==> out@[j]@ == names@[j]@,
        decreases names@.len() - i,
    {
        out.push(names[i].clone());
        i += 1;
    }
    assert(out.deep_view() =~= names.deep_view());
    out
}

/// A type name as it stands in a signature.
pub open spec fn type_text(t: TypeName) -> Seq<char>
    decreases t,
{
    match t {
        TypeName::Elementary(name) => name@,
        TypeName::Custom(name) => name@,
        TypeName::Array(element) => type_text(*element) + "[]"@,
        TypeName::Function => "function"@,
        TypeName::Mapping => "mapping"@,
        TypeName::Other => "unknown"@,
    }
}

/// The signature of a parameter list: the types, joined by commas.
pub open spec fn signature_text(params: Seq<Parameter>) -> Seq<char>
    decreases params.len(),
{
    if params.len() == 0 {
        Seq::empty()
    } else if params.len() == 1 {
        type_text(params[0].ty)
    } else {
        signature_text(params.drop_last()) + ","@ + type_text(params.last().ty)
    }
}

/// The names of the parameters that have one, in order.
pub open spec fn parameter_names(params: Seq<Parameter>) -> Seq<Seq<char>>
    decreases params.len(),
{
    if params.len() == 0 {
        Seq::empty()
    } else {
        parameter_names(params.drop_last()) + match params.last().name {
            Some(name) => seq![name@],
            None => Seq::empty(),
        }
    }
}

/// The names of a contract's state variables, in order.
pub open spec fn state_variable_names(body: Seq<ContractItem>) -> Seq<Seq<char>>
    decreases body.len(),
{
    if body.len() == 0 {
        Seq::empty()
    } else {
        state_variable_names(body.drop_last()) + match body.last() {
            ContractItem::Variable(Some(name)) => seq![name@],
            _ => Seq::empty(),
        }
    }
}

/// The named modifier definitions of a contract, in order.
pub open spec fn modifier_defs(body: Seq<ContractItem>) -> Seq<FunctionDef>
    decreases body.len(),
{
    if body.len() == 0 {
        Seq::empty()
    } else {
        modifier_defs(body.drop_last()) + match body.last() {
            ContractItem::Function(f) if f.kind == FunctionKind::Modifier && f.name is Some => seq![
                f,
            ],
            _ => Seq::empty(),
        }
    }
}

/// Whether a definition carries the name `name`.
pub open spec fn is_named(f: FunctionDef, name: Seq<char>) -> bool {
    f.name matches Some(n) && n@ == name
}

/// The first of `defs` that carries the name `name`.
pub open spec fn first_named(defs: Seq<FunctionDef>, name: Seq<char>) -> Option<FunctionDef>
    decreases defs.len(),
{
    if defs.len() == 0 {
        None
    } else if is_named(defs[0], name) {
        Some(defs[0])
    } else {
        first_named(defs.drop_first(), name)
    }
}

/// The first function-like item of a contract body that carries the name
/// `name`.
pub open spec fn function_named(body: Seq<ContractItem>, name: Seq<char>) -> Option<FunctionDef>
    decreases body.len(),
{
    if body.len() == 0 {
        None
    } else {
        match body[0] {
            ContractItem::Function(f) if is_named(f, name) => Some(f),
            _ => function_named(body.drop_first(), name),
        }
    }
}

/// The function-like items of a contract body that carry the name `name`, in
/// order: the overloads of that name.
pub open spec fn functions_named(body: Seq<ContractItem>, name: Seq<char>) -> Seq<FunctionDef>
    decreases body.len(),
{
    if body.len() == 0 {
        Seq::empty()
    } else {
        functions_named(body.drop_last(), name) + match body.last() {
            ContractItem::Function(f) if is_named(f, name) => seq![f],
            _ => Seq::empty(),
        }
    }
}

/// The first function-like item of a contract body that carries the name
/// `name` and has the signature `signature`.
pub open spec fn function_with_signature(
    body: Seq<ContractItem>,
    name: Seq<char>,
    signature: Seq<char>,
) -> Option<FunctionDef>
    decreases body.len(),
{
    if body.len() == 0 {
        None
    } else {
        match body[0] {
            ContractItem::Function(f) if is_named(f, name) && signature_text(f.parameters@)
                == signature => Some(f),
            _ => function_with_signature(body.drop_first(), name, signature),
        }
    }
}

/// Whether a function can be called from outside its contract: a named
/// function that is declared public or external.
pub open spec fn is_callable(f: FunctionDef) -> bool {
    f.kind == FunctionKind::Function && f.name is Some && (f.visibility == Some(Visibility::Public)
        || f.visibility == Some(Visibility::External))
}

/// The functions of a contract body that can be called from outside, in
/// order.
pub open spec fn callable_functions(body: Seq<ContractItem>) -> Seq<FunctionDef>
    decreases body.len(),
{
    if body.len() == 0 {
        Seq::empty()
    } else {
        callable_functions(body.drop_last()) + match body.last() {
            ContractItem::Function(f) if is_callable(f) => seq![f],
            _ => Seq::empty(),
        }
    }
}

/// The names of the contracts of a file, in order.
pub open spec fn contract_names(items: Seq<SourceItem>) -> Seq<Seq<char>>
    decreases items.len(),
{
    if items.len() == 0 {
        Seq::empty()
    } else {
        contract_names(items.drop_last()) + match items.last() {
            SourceItem::Contract(c) => seq![c.name@],
            _ => Seq::empty(),
        }
    }
}

/// The definitions behind a sequence of references.
pub open spec fn referents(refs: Seq<&FunctionDef>) -> Seq<FunctionDef> {
    Seq::new(refs.len(), |i: int| *refs[i])
}

/// The first contract named `name` among the items of a file.
pub open spec fn contract_named(items: Seq<SourceItem>, name: Seq<char>) -> Option<ContractDef>
    decreases items.len(),
{
    if items.len() == 0 {
        None
    } else {
        match items[0] {
            SourceItem::Contract(c) if c.name@ == name => Some(c),
            _ => contract_named(items.drop_first(), name),
        }
    }
}

/// The branch points that one attached modifier contributes: those of the
/// body of the first definition of that name, if there is one with a body.
pub open spec fn modifier_points(
    defs: Seq<FunctionDef>,
    name: Seq<char>,
    state_vars: Seq<Seq<char>>,
) -> Seq<BranchPointView> {
    match first_named(defs, name) {
        Some(def) => match def.body {
            Some(body) => block_branch_points(body@, state_vars, false),
            None => Seq::empty(),
        },
        None => Seq::empty(),
    }
}

/// The branch points that the attached modifiers contribute, in the order
/// the modifiers are attached.
pub open spec fn modifiers_points(
    defs: Seq<FunctionDef>,
    names: Seq<String>,
    state_vars: Seq<Seq<char>>,
) -> Seq<BranchPointView>
    decreases names.len(),
{
    if names.len() == 0 {
        Seq::empty()
    } else {
        modifiers_points(defs, names.drop_last(), state_vars) + modifier_points(
            defs,
            names.last()@,
            state_vars,
        )
    }
}

/// The branch points of a function of a contract: those of its modifiers,
/// then those of its own body.
pub open spec fn function_points(contract: ContractDef, function: FunctionDef) -> Seq<
    BranchPointView,
> {
    let state_vars = state_variable_names(contract.body@);
    modifiers_points(modifier_defs(contract.body@), function.modifiers@, state_vars)
        + match function.body {
        Some(body) => block_branch_points(body@, state_vars, false),
        None => Seq::empty(),
    }
}

/// What the analysis of a function of a contract gives, under the name and
/// the signature it was asked for.
pub open spec fn function_context(
    contract: ContractDef,
    function: FunctionDef,
    function_name: Seq<char>,
    signature: Seq<char>,
) -> FunctionContextView {
    FunctionContextView {
        function_name,
        signature,
        branch_points: function_points(contract, function),
        parameters: parameter_names(function.parameters@),
        state_variables: state_variable_names(contract.body@),
    }
}

/// What the analysis of every overload in `functions` gives, in order.
pub open spec fn function_contexts(
    contract: ContractDef,
    functions: Seq<FunctionDef>,
    function_name: Seq<char>,
) -> Seq<FunctionContextView> {
    Seq::new(
        functions.len(),
        |i: int|
            function_context(
                contract,
                functions[i],
                function_name,
                signature_text(functions[i].parameters@),
            ),
    )
}

/// What the analysis of each of `functions` gives under its own name, in
/// order.
pub open spec fn own_contexts(contract: ContractDef, functions: Seq<FunctionDef>) -> Seq<
    FunctionContextView,
> {
    Seq::new(
        functions.len(),
        |i: int|
            function_context(
                contract,
                functions[i],
                functions[i].name->0@,
                signature_text(functions[i].parameters@),
            ),
    )
}

/// The view of an analysis result.
pub open spec fn context_result(r: Result<FunctionContext, ParserError>) -> Result<
    FunctionContextView,
    ParserErrorView,
> {
    match r {
        Ok(c) => Ok(c@),
        Err(e) => Err(e@),
    }
}

/// The view of the result of analysing several functions.
pub open spec fn contexts_result(r: Result<Vec<FunctionContext>, ParserError>) -> Result<
    Seq<FunctionContextView>,
    ParserErrorView,
> {
    match r {
        Ok(c) => Ok(c.deep_view()),
        Err(e) => Err(e@),
    }
}

/// The analysis of the function `function_name` of the contract
/// `contract_name`: of the first function-like item of that name in the first
/// contract of that name.
pub open spec fn parsed_function(
    items: Seq<SourceItem>,
    contract_name: Seq<char>,
    function_name: Seq<char>,
) -> Result<FunctionContextView, ParserErrorView> {
    match contract_named(items, contract_name) {
        None => Err(ParserErrorView::ContractNotFound(contract_name)),
        Some(contract) => match function_named(contract.body@, function_name) {
            None => Err(ParserErrorView::FunctionNotFound(function_name, contract.name@)),
            Some(function) => Ok(
                function_context(
                    contract,
                    function,
                    function_name,
                    signature_text(function.parameters@),
                ),
            ),
        },
    }
}

/// The analysis of the overload of `function_name` with the signature
/// `signature`.
pub open spec fn parsed_function_by_signature(
    items: Seq<SourceItem>,
    contract_name: Seq<char>,
    function_name: Seq<char>,
    signature: Seq<char>,
) -> Result<FunctionContextView, ParserErrorView> {
    match contract_named(items, contract_name) {
        None => Err(ParserErrorView::ContractNotFound(contract_name)),
        Some(contract) => match function_with_signature(
            contract.body@,
            function_name,
            signature,
        ) {
            None => Err(
                ParserErrorView::FunctionNotFound(
                    function_name + "("@ + signature + ")"@,
                    contract.name@,
                ),
            ),
            Some(function) => Ok(function_context(contract, function, function_name, signature)),
        },
    }
}

/// The analyses of all overloads of `function_name`, in the order they are
/// defined; an error where there is none.
pub open spec fn parsed_overloads(
    items: Seq<SourceItem>,
    contract_name: Seq<char>,
    function_name: Seq<char>,
) -> Result<Seq<FunctionContextView>, ParserErrorView> {
    match contract_named(items, contract_name) {
        None => Err(ParserErrorView::ContractNotFound(contract_name)),
        Some(contract) => {
            let overloads = functions_named(contract.body@, function_name);
            if overloads.len() == 0 {
                Err(ParserErrorView::FunctionNotFound(function_name, contract_name))
            } else {
                Ok(function_contexts(contract, overloads, function_name))
            }
        },
    }
}

/// The analyses of all functions of a contract that can be called from
/// outside, in the order they are defined.
pub open spec fn parsed_public_functions(
    items: Seq<SourceItem>,
    contract_name: Seq<char>,
) -> Result<Seq<FunctionContextView>, ParserErrorView> {
    match contract_named(items, contract_name) {
        None => Err(ParserErrorView::ContractNotFound(contract_name)),
        Some(contract) => Ok(own_contexts(contract, callable_functions(contract.body@))),
    }
}

/// Analyses the functions of one project.
pub struct SolarParser<'a> {
    project: &'a FoundryProject,
}

impl<'a> SolarParser<'a> {
    /// A parser for the functions of `project`.
    pub fn new(project: &'a FoundryProject) -> (r: Self)
        ensures
            r.project() == project,
    {
        Self { project }
    }

    /// The project this parser belongs to.
    #[verifier::when_used_as_spec(spec_project)]
    pub fn project(&self) -> (r: &FoundryProject)
        ensures
            r == self.spec_project(),
    {
        self.project
    }

    /// The project this parser belongs to.
    pub closed spec fn spec_project(&self) -> &FoundryProject {
        self.project
    }

    /// Analyses the function `function_name` of the contract `contract_name`
    /// in a parsed file.
    pub fn parse_function(
        &self,
        source_unit: &SourceUnit,
        contract_name: &str,
        function_name: &str,
    ) -> (r: Result<FunctionContext, ParserError>)
        ensures
            context_result(r) == parsed_function(
                source_unit.items@,
                contract_name@,
                function_name@,
            ),
    {
        let contract = match self.find_contract(source_unit, contract_name) {
            Ok(c) => c,
            Err(e) => {
                return Err(e);
            },
        };
        let function = match self.find_function(contract, function_name) {
            Ok(f) => f,
            Err(e) => {
                return Err(e);
            },
        };
        let signature = self.get_function_signature(function);
        Ok(self.analyze(contract, function, function_name, signature))
    }

    /// Analyses the overload of `function_name` whose parameter types read
    /// `signature`, such as `address,uint256`.
    pub fn parse_function_by_signature(
        &self,
        source_unit: &SourceUnit,
        contract_name: &str,
        function_name: &str,
        signature: &str,
    ) -> (r: Result<FunctionContext, ParserError>)
        ensures
            context_result(r) == parsed_function_by_signature(
                source_unit.items@,
                contract_name@,
                function_name@,
                signature@,
            ),
    {
        let contract = match self.find_contract(source_unit, contract_name) {
            Ok(c) => c,
            Err(e) => {
                return Err(e);
            },
        };
        let function = match self.find_function_by_signature(contract, function_name, signature) {
            Ok(f) => f,
            Err(e) => {
                return Err(e);
            },
        };
        Ok(self.analyze(contract, function, function_name, String::from_str(signature)))
    }

    /// Analyses every overload of `function_name`, in the order they are
    /// defined.
    pub fn parse_all_functions(
        &self,
        source_unit: &SourceUnit,
        contract_name: &str,
        function_name: &str,
    ) -> (r: Result<Vec<FunctionContext>, ParserError>)
        ensures
            contexts_result(r) == parsed_overloads(
                source_unit.items@,
                contract_name@,
                function_name@,
            ),
    {
        let contract = match self.find_contract(source_unit, contract_name) {
            Ok(c) => c,
            Err(e) => {
                return Err(e);
            },
        };
        let functions = self.find_all_functions_by_name(contract, function_name);
        if functions.len() == 0 {
            return Err(
                ParserError::FunctionNotFound(
                    String::from_str(function_name),
                    String::from_str(contract_name),
                ),
            );
        }
        let ghost expected = function_contexts(*contract, referents(functions@), function_name@);
        let mut results: Vec<FunctionContext> = Vec::new();
        let mut i: usize = 0;
        while i < functions.len()
            invariant
                i <= functions@.len(),
                expected == function_contexts(*contract, referents(functions@), function_name@),
                results@.len() == i,
                forall|j: int| 0 <= j < i ==> (#[trigger] results@[j])@ == expected[j],
            decreases functions@.len() - i,
        {
            let function = functions[i];
            let signature = self.get_function_signature(function);
            results.push(self.analyze(contract, function, function_name, signature));
            i += 1;
        }
        assert(results.deep_view() =~= expected);
        Ok(results)
    }

    /// Analyses every function of the contract `contract_name` that can be
    /// called from outside, in the order they are defined.
    pub fn parse_all_public_functions(&self, source_unit: &SourceUnit, contract_name: &str) -> (r:
        Result<Vec<FunctionContext>, ParserError>)
        ensures
            contexts_result(r) == parsed_public_functions(source_unit.items@, contract_name@),
    {
        let contract = match self.find_contract(source_unit, contract_name) {
            Ok(c) => c,
            Err(e) => {
                return Err(e);
            },
        };
        let ghost expected = own_contexts(*contract, callable_functions(contract.body@));
        let mut results: Vec<FunctionContext> = Vec::new();
        let mut i: usize = 0;
        while i < contract.body.len()
            invariant
                i <= contract.body@.len(),
                results.deep_view() == own_contexts(
                    *contract,
                    callable_functions(contract.body@.take(i as int)),
                ),
            decreases contract.body@.len() - i,
        {
            proof {
                assert(contract.body@.take(i + 1).drop_last() == contract.body@.take(i as int));
            }
            let ghost before = results.deep_view();
            if let ContractItem::Function(function) = &contract.body[i] {
                if let Some(name) = &function.name {
                    if function.kind == FunctionKind::Function && is_public(&function.visibility) {
                        let signature = self.get_function_signature(function);
                        let context = self.analyze(contract, function, name.as_str(), signature);
                        results.push(context);
                        assert(results.deep_view() =~= before.push(context@));
                    }
                }
            }
            assert(results.deep_view() =~= own_contexts(
                *contract,
                callable_functions(contract.body@.take(i + 1)),
            ));
            i += 1;
        }
        assert(contract.body@.take(i as int) == contract.body@);
        Ok(results)
    }

    /// The names of the contracts of a parsed file, in order.
    pub fn get_contract_names(&self, source_unit: &SourceUnit) -> (r: Vec<String>)
        ensures
            r.deep_view() == contract_names(source_unit.items@),
    {
        let mut names: Vec<String> = Vec::new();
        let mut i: usize = 0;
        while i < source_unit.items.len()
            invariant
                i <= source_unit.items@.len(),
                names.deep_view() == contract_names(source_unit.items@.take(i as int)),
            decreases source_unit.items@.len() - i,
        {
            proof {
                assert(source_unit.items@.take(i + 1).drop_last() == source_unit.items@.take(
                    i as int,
                ));
            }
            let ghost before = names.deep_view();
            if let SourceItem::Contract(contract) = &source_unit.items[i] {
                names.push(contract.name.clone());
                assert(names.deep_view() =~= before.push(contract.name@));
            }
            i += 1;
        }
        assert(source_unit.items@.take(i as int) == source_unit.items@);
        names
    }

    /// The analysis of one function of a contract, under the given name and
    /// signature: the branch points of its modifiers in the order they are
    /// attached, then those of its own body.
    pub fn analyze(
        &self,
        contract: &ContractDef,
        function: &FunctionDef,
        function_name: &str,
        signature: String,
    ) -> (r: FunctionContext)
        ensures
            r@ == function_context(*contract, *function, function_name@, signature@),
    {
        let state_vars = self.extract_state_variables(contract);
        let params = self.extract_parameters(function);
        let definitions = self.extract_modifier_definitions(contract);
        let mut branch_points: Vec<BranchPoint> = Vec::new();
        let mut i: usize = 0;
        assert(function.modifiers@.take(0) =~= Seq::<String>::empty());
        assert(branch_points.deep_view() =~= Seq::<BranchPointView>::empty());
        while i < function.modifiers.len()
            invariant
                i <= function.modifiers@.len(),
                referents(definitions@) == modifier_defs(contract.body@),
                state_vars.deep_view() == state_variable_names(contract.body@),
                branch_points.deep_view() == modifiers_points(
                    referents(definitions@),
                    function.modifiers@.take(i as int),
                    state_vars.deep_view(),
                ),
            decreases function.modifiers@.len() - i,
        {
            proof {
                assert(function.modifiers@.take(i + 1).drop_last() == function.modifiers@.take(
                    i as int,
                ));
            }
            if let Some(def) = find_named(&definitions, function.modifiers[i].as_str()) {
                if let Some(body) = &def.body {
                    self.extract_branch_points_from_block(
                        body,
                        state_vars.as_slice(),
                        params.as_slice(),
                        &mut branch_points,
                        false,
                    );
                }
            }
            i += 1;
        }
        assert(function.modifiers@.take(i as int) == function.modifiers@);
        if let Some(body) = &function.body {
            self.extract_branch_points_from_block(
                body,
                state_vars.as_slice(),
                params.as_slice(),
                &mut branch_points,
                false,
            );
        }
        FunctionContext {
            function_name: String::from_str(function_name),
            signature,
            branch_points,
            parameters: params,
            state_variables: state_vars,
        }
    }

    /// The first contract named `name` in a parsed file.
    pub fn find_contract<'s>(&self, source_unit: &'s SourceUnit, name: &str) -> (r: Result<
        &'s ContractDef,
        ParserError,
    >)
        ensures
            match contract_named(source_unit.items@, name@) {
                Some(c) => r is Ok && *r->Ok_0 == c,
                None => r is Err && r->Err_0@ == ParserErrorView::ContractNotFound(name@),
            },
    {
        let mut i: usize = 0;
        assert(source_unit.items@.skip(0) =~= source_unit.items@);
        while i < source_unit.items.len()
            invariant
                i <= source_unit.items@.len(),
                contract_named(source_unit.items@, name@) == contract_named(
                    source_unit.items@.skip(i as int),
                    name@,
                ),
            decreases source_unit.items@.len() - i,
        {
            proof {
                assert(source_unit.items@.skip(i as int).drop_first() == source_unit.items@.skip(
                    i + 1,
                ));
            }
            if let SourceItem::Contract(contract) = &source_unit.items[i] {
                if contract.name.as_str().eq(name) {
                    return Ok(contract);
                }
            }
            i += 1;
        }
        Err(ParserError::ContractNotFound(String::from_str(name)))
    }

    /// The first function-like item named `name` in a contract.
    pub fn find_function<'s>(&self, contract: &'s ContractDef, name: &str) -> (r: Result<
        &'s FunctionDef,
        ParserError,
    >)
        ensures
            match function_named(contract.body@, name@) {
                Some(f) => r is Ok && *r->Ok_0 == f,
                None => r is Err && r->Err_0@ == ParserErrorView::FunctionNotFound(
                    name@,
                    contract.name@,
                ),
            },
    {
        let mut i: usize = 0;
        assert(contract.body@.skip(0) =~= contract.body@);
        while i < contract.body.len()
            invariant
                i <= contract.body@.len(),
                function_named(contract.body@, name@) == function_named(
                    contract.body@.skip(i as int),
                    name@,
                ),
            decreases contract.body@.len() - i,
        {
            proof {
                assert(contract.body@.skip(i as int).drop_first() == contract.body@.skip(i + 1));
            }
            if let ContractItem::Function(function) = &contract.body[i] {
                if has_name(function, name) {
                    return Ok(function);
                }
            }
            i += 1;
        }
        Err(ParserError::FunctionNotFound(String::from_str(name), contract.name.clone()))
    }

    /// Every function-like item named `name` in a contract, in order: the
    /// overloads of that name.
    pub fn find_all_functions_by_name<'s>(&self, contract: &'s ContractDef, name: &str) -> (r: Vec<
        &'s FunctionDef,
    >)
        ensures
            referents(r@) == functions_named(contract.body@, name@),
    {
        let mut functions: Vec<&FunctionDef> = Vec::new();
        let mut i: usize = 0;
        assert(referents(functions@) =~= functions_named(contract.body@.take(0), name@));
        while i < contract.body.len()
            invariant
                i <= contract.body@.len(),
                referents(functions@) == functions_named(contract.body@.take(i as int), name@),
            decreases contract.body@.len() - i,
        {
            proof {
                assert(contract.body@.take(i + 1).drop_last() == contract.body@.take(i as int));
            }
            let ghost before = referents(functions@);
            if let ContractItem::Function(function) = &contract.body[i] {
                if has_name(function, name) {
                    functions.push(function);
                    assert(referents(functions@) =~= before.push(*function));
                }
            }
            assert(referents(functions@) =~= functions_named(contract.body@.take(i + 1), name@));
            i += 1;
        }
        assert(contract.body@.take(i as int) == contract.body@);
        functions
    }

    /// The first function-like item named `name` whose parameter types read
    /// `signature`.
    pub fn find_function_by_signature<'s>(
        &self,
        contract: &'s ContractDef,
        name: &str,
        signature: &str,
    ) -> (r: Result<&'s FunctionDef, ParserError>)
        ensures
            match function_with_signature(contract.body@, name@, signature@) {
                Some(f) => r is Ok && *r->Ok_0 == f,
                None => r is Err && r->Err_0@ == ParserErrorView::FunctionNotFound(
                    name@ + "("@ + signature@ + ")"@,
                    contract.name@,
                ),
            },
    {
        let mut i: usize = 0;
        assert(contract.body@.skip(0) =~= contract.body@);
        while i < contract.body.len()
            invariant
                i <= contract.body@.len(),
                function_with_signature(contract.body@, name@, signature@)
                    == function_with_signature(contract.body@.skip(i as int), name@, signature@),
            decreases contract.body@.len() - i,
        {
            proof {
                assert(contract.body@.skip(i as int).drop_first() == contract.body@.skip(i + 1));
            }
            if let ContractItem::Function(function) = &contract.body[i] {
                if has_name(function, name) {
                    let function_signature = self.get_function_signature(function);
                    if function_signature.as_str().eq(signature) {
                        return Ok(function);
                    }
                }
            }
            i += 1;
        }
        let mut shown = concat3(name, "(", signature);
        shown.append(")");
        Err(ParserError::FunctionNotFound(shown, contract.name.clone()))
    }

    /// The signature of a function: its parameter types, joined by commas.
    pub fn get_function_signature(&self, function: &FunctionDef) -> (r: String)
        ensures
            r@ == signature_text(function.parameters@),
    {
        let mut out = String::new();
        let mut i: usize = 0;
        while i < function.parameters.len()
            invariant
                i <= function.parameters@.len(),
                out@ == signature_text(function.parameters@.take(i as int)),
            decreases function.parameters@.len() - i,
        {
            proof {
                assert(function.parameters@.take(i + 1).drop_last() == function.parameters@.take(
                    i as int,
                ));
            }
            if i > 0 {
                out.append(",");
            }
            let ty = self.type_to_string(&function.parameters[i].ty);
            out.append(ty.as_str());
            assert(out@ =~= signature_text(function.parameters@.take(i + 1)));
            i += 1;
        }
        assert(function.parameters@.take(i as int) == function.parameters@);
        out
    }

    /// A type name as it stands in a signature.
    pub fn type_to_string(&self, ty: &TypeName) -> (r: String)
        ensures
            r@ == type_text(*ty),
        decreases ty,
    {
        match ty {
            TypeName::Elementary(name) => name.clone(),
            TypeName::Custom(name) => name.clone(),
            TypeName::Array(element) => {
                let inner = self.type_to_string(element);
                concat2(inner.as_str(), "[]")
            },
            TypeName::Function => String::from_str("function"),
            TypeName::Mapping => String::from_str("mapping"),
            TypeName::Other => String::from_str("unknown"),
        }
    }

    /// The named modifier definitions of a contract, in order.
    pub fn extract_modifier_definitions<'s>(&self, contract: &'s ContractDef) -> (r: Vec<
        &'s FunctionDef,
    >)
        ensures
            referents(r@) == modifier_defs(contract.body@),
    {
        let mut modifiers: Vec<&FunctionDef> = Vec::new();
        let mut i: usize = 0;
        assert(referents(modifiers@) =~= modifier_defs(contract.body@.take(0)));
        while i < contract.body.len()
            invariant
                i <= contract.body@.len(),
                referents(modifiers@) == modifier_defs(contract.body@.take(i as int)),
            decreases contract.body@.len() - i,
        {
            proof {
                assert(contract.body@.take(i + 1).drop_last() == contract.body@.take(i as int));
            }
            let ghost before = referents(modifiers@);
            if let ContractItem::Function(function) = &contract.body[i] {
                if function.kind == FunctionKind::Modifier && function.name.is_some() {
                    modifiers.push(function);
                    assert(referents(modifiers@) =~= before.push(*function));
                }
            }
            assert(referents(modifiers@) =~= modifier_defs(contract.body@.take(i + 1)));
            i += 1;
        }
        assert(contract.body@.take(i as int) == contract.body@);
        modifiers
    }

    /// The names of a contract's state variables, in order.
    pub fn extract_state_variables(&self, contract: &ContractDef) -> (r: Vec<String>)
        ensures
            r.deep_view() == state_variable_names(contract.body@),
    {
        let mut vars: Vec<String> = Vec::new();
        let mut i: usize = 0;
        assert(vars.deep_view() =~= state_variable_names(contract.body@.take(0)));
        while i < contract.body.len()
            invariant
                i <= contract.body@.len(),
                vars.deep_view() == state_variable_names(contract.body@.take(i as int)),
            decreases contract.body@.len() - i,
        {
            proof {
                assert(contract.body@.take(i + 1).drop_last() == contract.body@.take(i as int));
            }
            let ghost before = vars.deep_view();
            if let ContractItem::Variable(Some(name)) = &contract.body[i] {
                vars.push(name.clone());
                assert(vars.deep_view() =~= before.push(name@));
            }
            assert(vars.deep_view() =~= state_variable_names(contract.body@.take(i + 1)));
            i += 1;
        }
        assert(contract.body@.take(i as int) == contract.body@);
        vars
    }

    /// The names of a function's parameters, in order; unnamed parameters
    /// are left out.
    pub fn extract_parameters(&self, function: &FunctionDef) -> (r: Vec<String>)
        ensures
            r.deep_view() == parameter_names(function.parameters@),
    {
        let mut names: Vec<String> = Vec::new();
        let mut i: usize = 0;
        assert(names.deep_view() =~= parameter_names(function.parameters@.take(0)));
        while i < function.parameters.len()
            invariant
                i <= function.parameters@.len(),
                names.deep_view() == parameter_names(function.parameters@.take(i as int)),
            decreases function.parameters@.len() - i,
        {
            proof {
                assert(function.parameters@.take(i + 1).drop_last() == function.parameters@.take(
                    i as int,
                ));
            }
            let ghost before = names.deep_view();
            if let Some(name) = &function.parameters[i].name {
                names.push(name.clone());
                assert(names.deep_view() =~= before.push(name@));
            }
            assert(names.deep_view() =~= parameter_names(function.parameters@.take(i + 1)));
            i += 1;
        }
        assert(function.parameters@.take(i as int) == function.parameters@);
        names
    }

    /// Renders an expression as an operand.
    pub fn expr_to_string(&self, expr: &Expr) -> (r: String)
        ensures
            r@ == expr_text(*expr),
        decreases expr,
    {
        match expr {
            Expr::Ident(name) => name.clone(),
            Expr::Lit(text) => text.clone(),
            Expr::Member(base, member) => {
                let b = self.expr_to_string(base);
                concat3(b.as_str(), ".", member.as_str())
            },
            Expr::Index(base) => {
                let b = self.expr_to_string(base);
                concat2(b.as_str(), "[...]")
            },
            Expr::Call(callee, _) => {
                let c = self.expr_to_string(callee);
                concat2(c.as_str(), "(...)")
            },
            Expr::Binary(left, op, right) => {
                let l = self.expr_to_string(left);
                let r = self.expr_to_string(right);
                let mut out = concat3(l.as_str(), " ", op.name());
                out.append(" ");
                out.append(r.as_str());
                out
            },
            _ => String::from_str("expr"),
        }
    }

    /// Reads a boolean expression as a condition. Every expression stands
    /// for one, so the result is never `None`.
    pub fn expr_to_condition(&self, expr: &Expr) -> (r: Option<ConditionExpr>)
        ensures
            r is Some,
            r->0@ == condition_of(*expr),
        decreases expr,
    {
        match expr {
            Expr::Binary(left, op, right) => {
                let comparison = match op {
                    BinOpKind::Eq => BinaryOp::Eq,
                    BinOpKind::Ne => BinaryOp::NotEq,
                    BinOpKind::Gt => BinaryOp::Gt,
                    BinOpKind::Ge => BinaryOp::Gte,
                    BinOpKind::Lt => BinaryOp::Lt,
                    BinOpKind::Le => BinaryOp::Lte,
                    BinOpKind::And => {
                        let l = self.expr_to_condition(left)?;
                        let r = self.expr_to_condition(right)?;
                        return Some(ConditionExpr::And(Box::new(l), Box::new(r)));
                    },
                    BinOpKind::Or => {
                        let l = self.expr_to_condition(left)?;
                        let r = self.expr_to_condition(right)?;
                        return Some(ConditionExpr::Or(Box::new(l), Box::new(r)));
                    },
                    _ => {
                        return Some(ConditionExpr::Ident(self.expr_to_string(expr)));
                    },
                };
                Some(
                    ConditionExpr::Binary {
                        left: self.expr_to_string(left),
                        op: comparison,
                        right: self.expr_to_string(right),
                    },
                )
            },
            Expr::Unary(op, inner) => {
                if *op == UnOpKind::Not {
                    let c = self.expr_to_condition(inner)?;
                    Some(ConditionExpr::Not(Box::new(c)))
                } else {
                    Some(ConditionExpr::Ident(self.expr_to_string(expr)))
                }
            },
            _ => Some(ConditionExpr::Ident(self.expr_to_string(expr))),
        }
    }

    /// Whether a statement is revert-terminal.
    pub fn stmt_contains_revert(&self, stmt: &Stmt) -> (r: bool)
        ensures
            r == reverts(*stmt),
        decreases stmt, 0nat,
    {
        match stmt {
            Stmt::Revert => true,
            Stmt::Expr(e) => is_call_of(e, "revert"),
            Stmt::Block(stmts) => self.block_contains_revert(stmts),
            Stmt::UncheckedBlock(stmts) => self.block_contains_revert(stmts),
            Stmt::If(_, taken, alternate) => match alternate {
                Some(other) => self.stmt_contains_revert(taken) && self.stmt_contains_revert(
                    other,
                ),
                None => false,
            },
            _ => false,
        }
    }

    /// Whether one of the statements of a block is revert-terminal.
    pub fn block_contains_revert(&self, stmts: &Vec<Stmt>) -> (r: bool)
        ensures
            r == any_reverts(stmts@),
        decreases stmts, 1nat,
    {
        let mut i: usize = 0;
        while i < stmts.len()
            invariant
                i <= stmts@.len(),
                forall|j: int| 0 <= j < i ==> !reverts(#[trigger] stmts@[j]),
            decreases stmts@.len() - i,
        {
            proof {
                assert(decreases_to!(*stmts => stmts@));
                assert(decreases_to!(stmts@ => stmts@[i as int]));
            }
            if self.stmt_contains_revert(&stmts[i]) {
                return true;
            }
            i += 1;
        }
        false
    }

    /// Whether the operand text `s` refers to a storage variable. Storage
    /// names are looked at first; block and transaction data, parameters and
    /// every unknown name are external.
    pub fn is_storage_ref(&self, s: &str, state_vars: &[String], params: &[String]) -> (r: bool)
        ensures
            r == is_storage_name(s@, state_vars.deep_view()),
    {
        let mut i: usize = 0;
        while i < state_vars.len()
            invariant
                i <= state_vars@.len(),
                forall|j: int| 0 <= j < i ==> !refers_to(s@, #[trigger] state_vars.deep_view()[j]),
            decreases state_vars@.len() - i,
        {
            let v = state_vars[i].as_str();
            if s.eq(v) || starts_with(s, concat2(v, ".").as_str()) || starts_with(
                s,
                concat2(v, "[").as_str(),
            ) {
                assert(refers_to(s@, state_vars.deep_view()[i as int]));
                return true;
            }
            i += 1;
        }
        if starts_with(s, "msg.") || starts_with(s, "block.") || starts_with(s, "tx.") {
            return false;
        }
        let mut k: usize = 0;
        while k < params.len()
            invariant
                k <= params@.len(),
                !is_storage_name(s@, state_vars.deep_view()),
            decreases params@.len() - k,
        {
            let p = params[k].as_str();
            if s.eq(p) || starts_with(s, concat2(p, ".").as_str()) {
                return false;
            }
            k += 1;
        }
        false
    }

    /// Classifies a condition as depending on contract state or not.
    pub fn classify_condition(
        &self,
        condition: &ConditionExpr,
        state_vars: &[String],
        params: &[String],
    ) -> (r: ConditionContext)
        ensures
            r == classify(condition@, state_vars.deep_view()),
        decreases condition,
    {
        match condition {
            ConditionExpr::Binary { left, op: _, right } => {
                if self.is_storage_ref(left.as_str(), state_vars, params) || self.is_storage_ref(
                    right.as_str(),
                    state_vars,
                    params,
                ) {
                    ConditionContext::Storage
                } else {
                    ConditionContext::External
                }
            },
            ConditionExpr::Not(inner) => self.classify_condition(inner, state_vars, params),
            ConditionExpr::And(left, right) | ConditionExpr::Or(left, right) => {
                if self.classify_condition(left, state_vars, params) == ConditionContext::Storage
                    || self.classify_condition(right, state_vars, params)
                    == ConditionContext::Storage {
                    ConditionContext::Storage
                } else {
                    ConditionContext::External
                }
            },
            ConditionExpr::Ident(name) => {
                if self.is_storage_ref(name.as_str(), state_vars, params) {
                    ConditionContext::Storage
                } else {
                    ConditionContext::External
                }
            },
            ConditionExpr::ExternalCall(_) => ConditionContext::External,
        }
    }

    /// Appends the branch points of a block's statements to `branch_points`.
    pub fn extract_branch_points_from_block(
        &self,
        block: &Vec<Stmt>,
        state_vars: &[String],
        params: &[String],
        branch_points: &mut Vec<BranchPoint>,
        in_loop: bool,
    )
        ensures
            final(branch_points).deep_view() == old(branch_points).deep_view()
                + block_branch_points(block@, state_vars.deep_view(), in_loop),
        decreases block,
    {
        let mut i: usize = 0;
        while i < block.len()
            invariant
                i <= block@.len(),
                branch_points.deep_view() == old(branch_points).deep_view() + block_branch_points(
                    block@.take(i as int),
                    state_vars.deep_view(),
                    in_loop,
                ),
            decreases block@.len() - i,
        {
            self.extract_branch_points_from_stmt(
                &block[i],
                state_vars,
                params,
                branch_points,
                in_loop,
            );
            proof {
                assert(block@.take(i + 1).drop_last() == block@.take(i as int));
            }
            i += 1;
        }
        proof {
            assert(block@.take(i as int) == block@);
        }
    }

    /// Appends the branch points of one statement to `branch_points`: a
    /// `require` or `assert` call and an `if` whose taken branch reverts give
    /// one each, a `try` gives one for its call, loops and blocks hand on what
    /// their bodies give, and any other statement gives none.
    pub fn extract_branch_points_from_stmt(
        &self,
        stmt: &Stmt,
        state_vars: &[String],
        params: &[String],
        branch_points: &mut Vec<BranchPoint>,
        in_loop: bool,
    )
        ensures
            final(branch_points).deep_view() == old(branch_points).deep_view()
                + stmt_branch_points(*stmt, state_vars.deep_view(), in_loop),
        decreases stmt,
    {
        match stmt {
            Stmt::Expr(e) => {
                if let Expr::Call(_, args) = e {
                    if (is_call_of(e, "require") || is_call_of(e, "assert")) && args.len() > 0 {
                        self.push_guard(
                            &args[0],
                            state_vars,
                            params,
                            branch_points,
                            in_loop,
                            false,
                        );
                    }
                }
            },
            Stmt::If(test, taken, alternate) => {
                if self.stmt_contains_revert(taken) {
                    self.push_guard(test, state_vars, params, branch_points, in_loop, true);
                } else {
                    self.extract_branch_points_from_stmt(
                        taken,
                        state_vars,
                        params,
                        branch_points,
                        in_loop,
                    );
                }
                if let Some(other) = alternate {
                    self.extract_branch_points_from_stmt(
                        other,
                        state_vars,
                        params,
                        branch_points,
                        in_loop,
                    );
                }
            },
            Stmt::For(body) => {
                self.extract_branch_points_from_stmt(body, state_vars, params, branch_points, true);
            },
            Stmt::While(body) => {
                self.extract_branch_points_from_stmt(body, state_vars, params, branch_points, true);
            },
            Stmt::DoWhile(body) => {
                self.extract_branch_points_from_stmt(body, state_vars, params, branch_points, true);
            },
            Stmt::Try(call) => {
                let call_name = self.expr_to_string(call);
                let point = BranchPoint {
                    condition: ConditionExpr::ExternalCall(call_name),
                    context: ConditionContext::External,
                    is_loop: in_loop,
                    is_external_call: true,
                    is_if_revert: false,
                };
                push_point(branch_points, point);
            },
            Stmt::Block(stmts) => {
                self.extract_branch_points_from_block(
                    stmts,
                    state_vars,
                    params,
                    branch_points,
                    in_loop,
                );
            },
            Stmt::UncheckedBlock(stmts) => {
                self.extract_branch_points_from_block(
                    stmts,
                    state_vars,
                    params,
                    branch_points,
                    in_loop,
                );
            },
            _ => {},
        }
    }

    /// Appends the branch point of a guard over `test`.
    fn push_guard(
        &self,
        test: &Expr,
        state_vars: &[String],
        params: &[String],
        branch_points: &mut Vec<BranchPoint>,
        in_loop: bool,
        is_if_revert: bool,
    )
        ensures
            final(branch_points).deep_view() == old(branch_points).deep_view() + seq![
                expr_guard(*test, state_vars.deep_view(), in_loop, is_if_revert),
            ],
    {
        if let Some(condition) = self.expr_to_condition(test) {
            let context = self.classify_condition(&condition, state_vars, params);
            let point = BranchPoint {
                condition,
                context,
                is_loop: in_loop,
                is_external_call: false,
                is_if_revert,
            };
            push_point(branch_points, point);
        }
    }
}

/// Whether a definition carries the name `name`.
fn has_name(function: &FunctionDef, name: &str) -> (r: bool)
    ensures
        r == is_named(*function, name@),
{
    match &function.name {
        Some(n) => n.as_str().eq(name),
        None => false,
    }
}

/// Whether a declared visibility is public or external.
fn is_public(visibility: &Option<Visibility>) -> (r: bool)
    ensures
        r == (*visibility == Some(Visibility::Public) || *visibility == Some(Visibility::External)),
{
    match visibility {
        Some(Visibility::Public) => true,
        Some(Visibility::External) => true,
        _ => false,
    }
}

/// The first of `defs` that carries the name `name`.
fn find_named<'s>(defs: &Vec<&'s FunctionDef>, name: &str) -> (r: Option<&'s FunctionDef>)
    ensures
        match first_named(referents(defs@), name@) {
            Some(f) => r is Some && *r->0 == f,
            None => r is None,
        },
{
    let mut i: usize = 0;
    assert(referents(defs@).skip(0) =~= referents(defs@));
    while i < defs.len()
        invariant
            i <= defs@.len(),
            first_named(referents(defs@), name@) == first_named(
                referents(defs@).skip(i as int),
                name@,
            ),
        decreases defs@.len() - i,
    {
        proof {
            assert(referents(defs@).skip(i as int).drop_first() == referents(defs@).skip(i + 1));
            assert(referents(defs@).skip(i as int)[0] == *defs@[i as int]);
        }
        if has_name(defs[i], name) {
            return Some(defs[i]);
        }
        i += 1;
    }
    None
}

/// Whether `e` is a call whose callee is the plain identifier `name`.
fn is_call_of(e: &Expr, name: &str) -> (r: bool)
    ensures
        r == calls_named(*e, name@),
{
    match e {
        Expr::Call(callee, _) => match &**callee {
            Expr::Ident(id) => id.as_str().eq(name),
            _ => false,
        },
        _ => false,
    }
}

/// Appends one branch point.
fn push_point(branch_points: &mut Vec<BranchPoint>, point: BranchPoint)
    ensures
        final(branch_points).deep_view() == old(branch_points).deep_view() + seq![point@],
{
    branch_points.push(point);
    assert(branch_points.deep_view() =~= old(branch_points).deep_view() + seq![point@]);
}

} // verus!
