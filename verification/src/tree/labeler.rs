//! Conditions as English labels.

use crate::analysis::{BinaryOp, ConditionContext, ConditionExpr, ConditionView};
use crate::text::{concat2, concat3, starts_with};
use vstd::prelude::*;

verus! {

/// A right operand made readable: a zero reads "zero", the zero address reads
/// "zero address", a wrapped number `Number(n)` reads as `n`, anything else
/// reads as it is.
pub open spec fn humanized(value: Seq<char>) -> Seq<char> {
    if value == "0"@ {
        "zero"@
    } else if value == "address(0)"@ {
        "zero address"@
    } else if "Number("@.is_prefix_of(value) && value.len() > "Number("@.len() && value.last()
        == ')' {
        let number = value.subrange("Number("@.len() as int, value.len() - 1);
        if number == "0"@ {
            "zero"@
        } else {
            number
        }
    } else {
        value
    }
}

/// The phrase for a comparison that holds.
pub open spec fn holds_phrase(op: BinaryOp) -> Seq<char> {
    match op {
        BinaryOp::Eq => " is "@,
        BinaryOp::NotEq => " is not "@,
        BinaryOp::Gt => " is greater than "@,
        BinaryOp::Gte => " is at least "@,
        BinaryOp::Lt => " is less than "@,
        BinaryOp::Lte => " is at most "@,
    }
}

/// The comparison that holds exactly when `op` does not.
pub open spec fn opposite(op: BinaryOp) -> BinaryOp {
    match op {
        BinaryOp::Eq => BinaryOp::NotEq,
        BinaryOp::NotEq => BinaryOp::Eq,
        BinaryOp::Gt => BinaryOp::Lte,
        BinaryOp::Gte => BinaryOp::Lt,
        BinaryOp::Lt => BinaryOp::Gte,
        BinaryOp::Lte => BinaryOp::Gt,
    }
}

/// The pair of phrases for a condition: first the phrase for the condition
/// holding, then the phrase for it not holding.
pub open spec fn labels(c: ConditionView) -> (Seq<char>, Seq<char>)
    decreases c,
{
    match c {
        ConditionView::Binary { left, op, right } => (
            left + holds_phrase(op) + humanized(right),
            left + holds_phrase(opposite(op)) + humanized(right),
        ),
        ConditionView::Not(inner) => (labels(*inner).1, labels(*inner).0),
        ConditionView::And(a, b) => (
            labels(*a).0 + " and "@ + labels(*b).0,
            labels(*a).1 + " or "@ + labels(*b).1,
        ),
        ConditionView::Or(a, b) => (
            labels(*a).0 + " or "@ + labels(*b).0,
            labels(*a).1 + " and "@ + labels(*b).1,
        ),
        ConditionView::Ident(name) => (name + " is true"@, name + " is false"@),
        ConditionView::ExternalCall(name) => (name + " succeeds"@, name + " fails"@),
    }
}

/// The word that opens a label: "given" for state, "when" for anything else.
pub open spec fn context_word(context: ConditionContext) -> Seq<char> {
    match context {
        ConditionContext::Storage => "given"@,
        ConditionContext::External => "when"@,
    }
}

/// The qualifier of a loop-scoped label.
pub open spec fn loop_word(is_loop: bool) -> Seq<char> {
    if is_loop {
        "any "@
    } else {
        Seq::empty()
    }
}

/// A complete label: the context word, a space, "any " inside a loop, and the
/// phrase.
pub open spec fn framed(context: ConditionContext, is_loop: bool, phrase: Seq<char>) -> Seq<char> {
    context_word(context) + " "@ + loop_word(is_loop) + phrase
}

/// Negating a condition swaps its pair of phrases.
pub proof fn lemma_negation_swaps(c: ConditionView)
    ensures
        labels(ConditionView::Not(Box::new(c))) == (labels(c).1, labels(c).0),
{
}

/// Negating twice gives the pair of phrases back.
pub proof fn lemma_double_negation(c: ConditionView)
    ensures
        labels(ConditionView::Not(Box::new(ConditionView::Not(Box::new(c))))) == labels(c),
{
    reveal_with_fuel(labels, 3);
}

/// De Morgan for a conjunction: the phrase for `a && b` not holding is the
/// phrase for `!a || !b` holding, and the phrase for `a && b` holding is the
/// phrase for `!a || !b` not holding.
pub proof fn lemma_de_morgan_and(a: ConditionView, b: ConditionView)
    ensures
        labels(ConditionView::And(Box::new(a), Box::new(b))).1 == labels(
            ConditionView::Or(
                Box::new(ConditionView::Not(Box::new(a))),
                Box::new(ConditionView::Not(Box::new(b))),
            ),
        ).0,
        labels(ConditionView::And(Box::new(a), Box::new(b))).0 == labels(
            ConditionView::Or(
                Box::new(ConditionView::Not(Box::new(a))),
                Box::new(ConditionView::Not(Box::new(b))),
            ),
        ).1,
{
    reveal_with_fuel(labels, 3);
}

/// De Morgan for a disjunction: the phrase for `a || b` not holding is the
/// phrase for `!a && !b` holding, and the phrase for `a || b` holding is the
/// phrase for `!a && !b` not holding.
pub proof fn lemma_de_morgan_or(a: ConditionView, b: ConditionView)
    ensures
        labels(ConditionView::Or(Box::new(a), Box::new(b))).1 == labels(
            ConditionView::And(
                Box::new(ConditionView::Not(Box::new(a))),
                Box::new(ConditionView::Not(Box::new(b))),
            ),
        ).0,
        labels(ConditionView::Or(Box::new(a), Box::new(b))).0 == labels(
            ConditionView::And(
                Box::new(ConditionView::Not(Box::new(a))),
                Box::new(ConditionView::Not(Box::new(b))),
            ),
        ).1,
{
    reveal_with_fuel(labels, 3);
}

/// Turns conditions into human-readable labels.
pub struct ConditionLabeler;

impl ConditionLabeler {
    pub fn new() -> Self {
        Self
    }

    /// The two labels of a guard: first the label of the branch on which the
    /// condition does not hold, then the label of the branch on which it does.
    pub fn generate_labels(
        &self,
        condition: &ConditionExpr,
        context: ConditionContext,
        is_loop: bool,
    ) -> (r: (String, String))
        ensures
            r.0@ == framed(context, is_loop, labels(condition@).1),
            r.1@ == framed(context, is_loop, labels(condition@).0),
    {
        let prefix = match context {
            ConditionContext::Storage => "given",
            ConditionContext::External => "when",
        };
        let loop_prefix = if is_loop {
            "any "
        } else {
            ""
        };
        proof {
            reveal_strlit("");
            assert(""@ =~= Seq::<char>::empty());
        }
        let (true_label, false_label) = self.expr_to_labels(condition);
        let mut fail_label = concat3(prefix, " ", loop_prefix);
        fail_label.append(false_label.as_str());
        let mut pass_label = concat3(prefix, " ", loop_prefix);
        pass_label.append(true_label.as_str());
        (fail_label, pass_label)
    }

    /// The pair of phrases for a condition: first for it holding, then for it
    /// not holding.
    pub fn expr_to_labels(&self, expr: &ConditionExpr) -> (r: (String, String))
        ensures
            r.0@ == labels(expr@).0,
            r.1@ == labels(expr@).1,
        decreases expr,
    {
        match expr {
            ConditionExpr::Binary { left, op, right } => {
                let value = self.humanize(right.as_str());
                let (holds, fails) = match op {
                    BinaryOp::Eq => (" is ", " is not "),
                    BinaryOp::NotEq => (" is not ", " is "),
                    BinaryOp::Gt => (" is greater than ", " is at most "),
                    BinaryOp::Gte => (" is at least ", " is less than "),
                    BinaryOp::Lt => (" is less than ", " is at least "),
                    BinaryOp::Lte => (" is at most ", " is greater than "),
                };
                (
                    concat3(left.as_str(), holds, value.as_str()),
                    concat3(left.as_str(), fails, value.as_str()),
                )
            },
            ConditionExpr::Not(inner) => {
                let (true_label, false_label) = self.expr_to_labels(inner);
                (false_label, true_label)
            },
            ConditionExpr::And(left, right) => {
                let (left_true, left_false) = self.expr_to_labels(left);
                let (right_true, right_false) = self.expr_to_labels(right);
                (
                    concat3(left_true.as_str(), " and ", right_true.as_str()),
                    concat3(left_false.as_str(), " or ", right_false.as_str()),
                )
            },
            ConditionExpr::Or(left, right) => {
                let (left_true, left_false) = self.expr_to_labels(left);
                let (right_true, right_false) = self.expr_to_labels(right);
                (
                    concat3(left_true.as_str(), " or ", right_true.as_str()),
                    concat3(left_false.as_str(), " and ", right_false.as_str()),
                )
            },
            ConditionExpr::Ident(name) => (
                concat2(name.as_str(), " is true"),
                concat2(name.as_str(), " is false"),
            ),
            ConditionExpr::ExternalCall(name) => (
                concat2(name.as_str(), " succeeds"),
                concat2(name.as_str(), " fails"),
            ),
        }
    }

    /// Makes a right operand readable.
    pub fn humanize(&self, value: &str) -> (r: String)
        ensures
            r@ == humanized(value@),
    {
        if value.eq("0") {
            return String::from_str("zero");
        }
        if value.eq("address(0)") {
            return String::from_str("zero address");
        }
        if starts_with(value, "Number(") {
            proof {
                reveal_strlit("Number(");
            }
            let n = value.unicode_len();
            if n > 7 && value.get_char(n - 1) == ')' {
                let number = value.substring_char(7, n - 1);
                if number.eq("0") {
                    return String::from_str("zero");
                }
                return String::from_str(number);
            }
        }
        String::from_str(value)
    }
}

impl Default for ConditionLabeler {
    fn default() -> Self {
        Self::new()
    }
}

} // verus!
