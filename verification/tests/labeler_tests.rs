//! Conditions as labels.

use acacia::analysis::{BinaryOp, ConditionContext, ConditionExpr};
use acacia::tree::ConditionLabeler;

fn ident(name: &str) -> ConditionExpr {
    ConditionExpr::Ident(name.to_string())
}

fn comparison(left: &str, op: BinaryOp, right: &str) -> ConditionExpr {
    ConditionExpr::Binary { left: left.to_string(), op, right: right.to_string() }
}

fn not(c: ConditionExpr) -> ConditionExpr {
    ConditionExpr::Not(Box::new(c))
}

fn and(a: ConditionExpr, b: ConditionExpr) -> ConditionExpr {
    ConditionExpr::And(Box::new(a), Box::new(b))
}

fn or(a: ConditionExpr, b: ConditionExpr) -> ConditionExpr {
    ConditionExpr::Or(Box::new(a), Box::new(b))
}

fn samples() -> Vec<ConditionExpr> {
    vec![
        ident("paused"),
        comparison("amount", BinaryOp::Gt, "0"),
        comparison("to", BinaryOp::NotEq, "address(0)"),
        ConditionExpr::ExternalCall("token.transfer(...)".to_string()),
        not(ident("ok")),
        and(ident("a"), comparison("b", BinaryOp::Lte, "Number(7)")),
        or(not(ident("a")), and(ident("b"), ident("c"))),
    ]
}

#[test]
fn each_operator_has_its_template() {
    let labeler = ConditionLabeler::new();
    let cases = [
        (BinaryOp::Eq, "x is y", "x is not y"),
        (BinaryOp::NotEq, "x is not y", "x is y"),
        (BinaryOp::Gt, "x is greater than y", "x is at most y"),
        (BinaryOp::Gte, "x is at least y", "x is less than y"),
        (BinaryOp::Lt, "x is less than y", "x is at least y"),
        (BinaryOp::Lte, "x is at most y", "x is greater than y"),
    ];
    for (op, holds, fails) in cases {
        let (t, f) = labeler.expr_to_labels(&comparison("x", op, "y"));
        assert_eq!(t, holds);
        assert_eq!(f, fails);
    }
}

#[test]
fn identifiers_and_calls_have_their_phrases() {
    let labeler = ConditionLabeler::new();
    assert_eq!(
        labeler.expr_to_labels(&ident("paused")),
        ("paused is true".to_string(), "paused is false".to_string())
    );
    assert_eq!(
        labeler.expr_to_labels(&ConditionExpr::ExternalCall("vault.pay(...)".to_string())),
        ("vault.pay(...) succeeds".to_string(), "vault.pay(...) fails".to_string())
    );
}

#[test]
fn connectives_compose_the_phrases() {
    let labeler = ConditionLabeler::new();
    assert_eq!(
        labeler.expr_to_labels(&and(ident("a"), ident("b"))),
        ("a is true and b is true".to_string(), "a is false or b is false".to_string())
    );
    assert_eq!(
        labeler.expr_to_labels(&or(ident("a"), ident("b"))),
        ("a is true or b is true".to_string(), "a is false and b is false".to_string())
    );
}

#[test]
fn negation_swaps_the_pair() {
    let labeler = ConditionLabeler::new();
    for c in samples() {
        let (t, f) = labeler.expr_to_labels(&c);
        let (nt, nf) = labeler.expr_to_labels(&not(c));
        assert_eq!((nt, nf), (f, t));
    }
}

#[test]
fn de_morgan_holds_between_and_and_or() {
    let labeler = ConditionLabeler::new();
    let all = samples();
    for a in all.iter() {
        for b in all.iter() {
            let conj = labeler.expr_to_labels(&and(a.clone(), b.clone()));
            let disj_of_negations = labeler.expr_to_labels(&or(not(a.clone()), not(b.clone())));
            assert_eq!(conj.1, disj_of_negations.0);
            assert_eq!(conj.0, disj_of_negations.1);
            let disj = labeler.expr_to_labels(&or(a.clone(), b.clone()));
            let conj_of_negations = labeler.expr_to_labels(&and(not(a.clone()), not(b.clone())));
            assert_eq!(disj.1, conj_of_negations.0);
            assert_eq!(disj.0, conj_of_negations.1);
        }
    }
}

#[test]
fn a_failed_conjunction_does_not_read_like_a_failed_disjunction_of_negations() {
    let labeler = ConditionLabeler::new();
    let conj = labeler.expr_to_labels(&and(ident("x"), ident("y")));
    let disj = labeler.expr_to_labels(&or(not(ident("x")), not(ident("y"))));
    assert_eq!(conj.1, "x is false or y is false");
    assert_eq!(disj.0, "x is false or y is false");
    assert_eq!(disj.1, "x is true and y is true");
    assert_ne!(conj.1, disj.1);
}

#[test]
fn right_operands_are_humanized() {
    let labeler = ConditionLabeler::new();
    assert_eq!(labeler.humanize("0"), "zero");
    assert_eq!(labeler.humanize("address(0)"), "zero address");
    assert_eq!(labeler.humanize("Number(0)"), "zero");
    assert_eq!(labeler.humanize("Number(42)"), "42");
    assert_eq!(labeler.humanize("Number()"), "");
    assert_eq!(labeler.humanize("Number("), "Number(");
    assert_eq!(labeler.humanize("Number(1"), "Number(1");
    assert_eq!(labeler.humanize("Number(1))"), "1)");
    assert_eq!(labeler.humanize("owner"), "owner");
    assert_eq!(labeler.humanize(""), "");
    assert_eq!(labeler.humanize("00"), "00");
    let (t, f) = labeler.expr_to_labels(&comparison("to", BinaryOp::Eq, "address(0)"));
    assert_eq!(t, "to is zero address");
    assert_eq!(f, "to is not zero address");
    let (t, _) = labeler.expr_to_labels(&comparison("0", BinaryOp::Eq, "x"));
    assert_eq!(t, "0 is x");
}

#[test]
fn labels_carry_context_and_loop_words() {
    let labeler = ConditionLabeler::default();
    let c = comparison("amount", BinaryOp::Gt, "0");
    assert_eq!(
        labeler.generate_labels(&c, ConditionContext::External, false),
        ("when amount is at most zero".to_string(), "when amount is greater than zero".to_string())
    );
    assert_eq!(
        labeler.generate_labels(&c, ConditionContext::Storage, false),
        ("given amount is at most zero".to_string(), "given amount is greater than zero".to_string())
    );
    assert_eq!(
        labeler.generate_labels(&c, ConditionContext::External, true),
        (
            "when any amount is at most zero".to_string(),
            "when any amount is greater than zero".to_string()
        )
    );
    assert_eq!(
        labeler.generate_labels(&c, ConditionContext::Storage, true),
        (
            "given any amount is at most zero".to_string(),
            "given any amount is greater than zero".to_string()
        )
    );
}

#[test]
fn conditions_read_back_as_source() {
    assert_eq!(comparison("a", BinaryOp::Gte, "b").to_string(), "a >= b");
    assert_eq!(not(ident("a")).to_string(), "!(a)");
    assert_eq!(and(ident("a"), ident("b")).to_string(), "(a) && (b)");
    assert_eq!(or(ident("a"), not(ident("b"))).to_string(), "(a) || (!(b))");
    assert_eq!(ConditionExpr::ExternalCall("f(...)".to_string()).to_string(), "f(...)");
    let symbols = [
        (BinaryOp::Eq, "=="),
        (BinaryOp::NotEq, "!="),
        (BinaryOp::Gt, ">"),
        (BinaryOp::Gte, ">="),
        (BinaryOp::Lt, "<"),
        (BinaryOp::Lte, "<="),
    ];
    for (op, symbol) in symbols {
        assert_eq!(op.to_string(), symbol);
        assert_eq!(op.symbol(), symbol);
    }
}

#[test]
fn clones_are_equal_in_content() {
    for c in samples() {
        assert_eq!(c.clone().to_string(), c.to_string());
    }
}
