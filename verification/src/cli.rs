//! What the command line asks for, and what is written for it.

use crate::analysis::{BranchPoint, BranchPointView};
use crate::output::{outline, render_to_string};
use crate::parser::solar::{clone_points, FunctionContext, FunctionContextView};
use crate::text::{
    ascii_lowercase, concat2, find, find_chars, is_lowercase, is_lowercase_char, is_uppercase,
    is_uppercase_char, lemma_find_from, push_char, to_ascii_lowercase, to_chars,
};
use crate::tree::builder::{decision_tree, TreeBuilder};
use vstd::prelude::*;

verus! {

/// What a target names.
#[derive(Debug)]
pub enum ParsedTarget {
    /// No target: every contract of the project.
    AllContracts,
    /// A contract: every function of it.
    Contract { contract_name: String },
    /// One function, or one overload of it where a signature is given.
    Function { contract_name: String, function_name: String, signature: Option<String> },
}

/// The mathematical value of a [`ParsedTarget`].
pub ghost enum ParsedTargetView {
    AllContracts,
    Contract { contract_name: Seq<char> },
    Function { contract_name: Seq<char>, function_name: Seq<char>, signature: Option<Seq<char>> },
}

impl View for ParsedTarget {
    type V = ParsedTargetView;

    open spec fn view(&self) -> ParsedTargetView {
        match self {
            ParsedTarget::AllContracts => ParsedTargetView::AllContracts,
            ParsedTarget::Contract { contract_name } => ParsedTargetView::Contract {
                contract_name: contract_name@,
            },
            ParsedTarget::Function {
                contract_name,
                function_name,
                signature,
            } => ParsedTargetView::Function {
                contract_name: contract_name@,
                function_name: function_name@,
                signature: match signature {
                    Some(s) => Some(s@),
                    None => None,
                },
            },
        }
    }
}

/// What the part of a target behind `::` names: `name(signature)` gives the
/// name and the signature, anything else is a name.
pub open spec fn function_target(contract_name: Seq<char>, part: Seq<char>) -> ParsedTargetView {
    match find(part, seq!['(']) {
        Some(open) if part.last() == ')' => ParsedTargetView::Function {
            contract_name,
            function_name: part.subrange(0, open),
            signature: Some(part.subrange(open + 1, part.len() - 1)),
        },
        _ => ParsedTargetView::Function { contract_name, function_name: part, signature: None },
    }
}

/// What a target names: nothing, `Contract`, `Contract::function` or
/// `Contract::function(signature)`.
pub open spec fn target_of(target: Seq<char>) -> ParsedTargetView {
    if target.len() == 0 {
        ParsedTargetView::AllContracts
    } else {
        match find(target, seq![':', ':']) {
            Some(at) => function_target(
                target.subrange(0, at),
                target.subrange(at + 2, target.len() as int),
            ),
            None => ParsedTargetView::Contract { contract_name: target },
        }
    }
}

/// Reads a target: empty for every contract, `Contract`,
/// `Contract::function`, or `Contract::function(signature)`.
pub fn parse_target(target: &str) -> (r: ParsedTarget)
    ensures
        r@ == target_of(target@),
{
    let chars = to_chars(target);
    let n = chars.len();
    if n == 0 {
        return ParsedTarget::AllContracts;
    }
    let separator = vec![':', ':'];
    assert(separator@ =~= seq![':', ':']);
    match find_chars(&chars, &separator) {
        Some(at) => {
            proof {
                lemma_find_from(target@, separator@, 0);
            }
            let contract_name = String::from_str(target.substring_char(0, at));
            let part = target.substring_char(at + 2, n);
            let part_chars = to_chars(part);
            let m = part_chars.len();
            let paren = vec!['('];
            assert(paren@ =~= seq!['(']);
            match find_chars(&part_chars, &paren) {
                Some(open) => {
                    proof {
                        lemma_find_from(part@, paren@, 0);
                    }
                    if part_chars[m - 1] == ')' {
                        assert(part@[open as int] == '(') by {
                            assert(part@.subrange(open as int, open + 1)[0] == paren@[0]);
                        }
                        return ParsedTarget::Function {
                            contract_name,
                            function_name: String::from_str(part.substring_char(0, open)),
                            signature: Some(String::from_str(part.substring_char(open + 1, m - 1))),
                        };
                    }
                    ParsedTarget::Function {
                        contract_name,
                        function_name: String::from_str(part),
                        signature: None,
                    }
                },
                None => ParsedTarget::Function {
                    contract_name,
                    function_name: String::from_str(part),
                    signature: None,
                },
            }
        },
        None => ParsedTarget::Contract { contract_name: String::from_str(target) },
    }
}

/// What a character becomes in snake case: an uppercase letter is lowered,
/// behind an underscore where it follows a lowercase letter; any other
/// character stays.
pub open spec fn snake_piece_of(c: char, is_upper: bool, follows_lower: bool) -> Seq<char> {
    if is_upper {
        if follows_lower {
            seq!['_', ascii_lowercase(c)]
        } else {
            seq![ascii_lowercase(c)]
        }
    } else {
        seq![c]
    }
}

/// What the character at position `i` of `s` becomes in snake case.
pub open spec fn snake_piece(s: Seq<char>, i: int) -> Seq<char> {
    snake_piece_of(s[i], is_uppercase_char(s[i]), i > 0 && is_lowercase_char(s[i - 1]))
}

/// The snake case of the first `count` characters of `s`.
pub open spec fn snake_case_of_first(s: Seq<char>, count: nat) -> Seq<char>
    decreases count,
{
    if count == 0 || count > s.len() {
        Seq::empty()
    } else {
        snake_case_of_first(s, (count - 1) as nat) + snake_piece(s, count - 1)
    }
}

/// The snake case of `s`.
pub open spec fn snake_case(s: Seq<char>) -> Seq<char> {
    snake_case_of_first(s, s.len())
}

/// Appends what the character `c` becomes in snake case, given whether it is
/// an uppercase letter and whether it follows a lowercase letter.
pub fn push_snake_piece(result: &mut String, c: char, is_upper: bool, follows_lower: bool)
    ensures
        final(result)@ == old(result)@ + snake_piece_of(c, is_upper, follows_lower),
{
    if is_upper {
        if follows_lower {
            push_char(result, '_');
        }
        push_char(result, to_ascii_lowercase(c));
    } else {
        push_char(result, c);
    }
    assert(result@ =~= old(result)@ + snake_piece_of(c, is_upper, follows_lower));
}

/// Converts `CamelCase` to `snake_case`: a new word starts at an uppercase
/// letter that follows a lowercase one.
pub fn to_snake_case(s: &str) -> (r: String)
    ensures
        r@ == snake_case(s@),
{
    let mut result = String::new();
    let chars = to_chars(s);
    let mut i: usize = 0;
    while i < chars.len()
        invariant
            chars@ == s@,
            i <= chars@.len(),
            result@ == snake_case_of_first(s@, i as nat),
        decreases chars@.len() - i,
    {
        let c = chars[i];
        let follows_lower = i > 0 && is_lowercase(chars[i - 1]);
        push_snake_piece(&mut result, c, is_uppercase(c), follows_lower);
        i += 1;
    }
    result
}

/// The outline of the function `name` with the branch points `bps`.
pub open spec fn function_outline(name: Seq<char>, bps: Seq<BranchPointView>) -> Seq<char> {
    outline(decision_tree(name, bps))
}

/// Builds and renders the tree of one function. The text depends on the name
/// and the branch points alone.
pub fn render_function(name: &str, branch_points: &Vec<BranchPoint>) -> (r: String)
    ensures
        r@ == function_outline(name@, branch_points.deep_view()),
{
    let tree = TreeBuilder::build(name, clone_points(branch_points)).unwrap();
    render_to_string(&tree)
}

/// Rendering is repeatable: whenever two names read the same and two lists
/// of branch points hold the same values in the same order, the outlines are
/// the same text.
pub proof fn lemma_same_input_same_outline(
    name_a: &str,
    points_a: Vec<BranchPoint>,
    name_b: &str,
    points_b: Vec<BranchPoint>,
)
    requires
        name_a@ == name_b@,
        points_a.deep_view() == points_b.deep_view(),
    ensures
        function_outline(name_a@, points_a.deep_view()) == function_outline(
            name_b@,
            points_b.deep_view(),
        ),
{
}

/// The name at the root of a function's tree: the function's name, followed
/// by the signature in parentheses where the name is overloaded.
pub open spec fn root_name(function_name: Seq<char>, signature: Seq<char>, overloaded: bool) -> Seq<
    char,
> {
    if overloaded {
        function_name + "("@ + signature + ")"@
    } else {
        function_name
    }
}

/// The outlines of the first `count` of a function's overloads, separated by
/// blank lines.
pub open spec fn overloads_outline_of_first(
    function_name: Seq<char>,
    contexts: Seq<FunctionContextView>,
    count: nat,
) -> Seq<char>
    decreases count,
{
    if count == 0 || count > contexts.len() {
        Seq::empty()
    } else {
        let context = contexts[count - 1];
        overloads_outline_of_first(function_name, contexts, (count - 1) as nat) + if count > 1 {
            "\n"@
        } else {
            Seq::empty()
        } + function_outline(
            root_name(function_name, context.signature, contexts.len() > 1),
            context.branch_points,
        )
    }
}

/// The text written for a function: the outlines of all its overloads,
/// separated by blank lines.
pub open spec fn overloads_outline(
    function_name: Seq<char>,
    contexts: Seq<FunctionContextView>,
) -> Seq<char> {
    overloads_outline_of_first(function_name, contexts, contexts.len())
}

/// Renders the overloads of one function into one text.
pub fn render_overloads(function_name: &str, contexts: &Vec<FunctionContext>) -> (r: String)
    ensures
        r@ == overloads_outline(function_name@, contexts.deep_view()),
{
    let overloaded = contexts.len() > 1;
    let mut combined = String::new();
    let mut i: usize = 0;
    while i < contexts.len()
        invariant
            i <= contexts@.len(),
            overloaded == (contexts@.len() > 1),
            combined@ == overloads_outline_of_first(
                function_name@,
                contexts.deep_view(),
                i as nat,
            ),
        decreases contexts@.len() - i,
    {
        let context = &contexts[i];
        let name = if overloaded {
            let mut shown = concat2(function_name, "(");
            shown.append(context.signature.as_str());
            shown.append(")");
            shown
        } else {
            String::from_str(function_name)
        };
        let text = render_function(name.as_str(), &context.branch_points);
        let ghost before = combined@;
        if i > 0 {
            combined.append("\n");
        }
        combined.append(text.as_str());
        proof {
            assert(contexts.deep_view()[i as int] == context@);
            assert(combined@ =~= overloads_outline_of_first(
                function_name@,
                contexts.deep_view(),
                (i + 1) as nat,
            ));
        }
        i += 1;
    }
    combined
}

/// The name of the file that holds a function's trees.
pub open spec fn tree_file_name_of(function_name: Seq<char>) -> Seq<char> {
    function_name + ".tree"@
}

/// The name of the file that holds a function's trees.
pub fn tree_file_name(function_name: &str) -> (r: String)
    ensures
        r@ == tree_file_name_of(function_name@),
{
    concat2(function_name, ".tree")
}

/// Those of `contexts` that belong to the function `name`, in order.
pub open spec fn contexts_named(contexts: Seq<FunctionContextView>, name: Seq<char>) -> Seq<
    FunctionContextView,
>
    decreases contexts.len(),
{
    if contexts.len() == 0 {
        Seq::empty()
    } else {
        contexts_named(contexts.drop_last(), name) + if contexts.last().function_name == name {
            seq![contexts.last()]
        } else {
            Seq::empty()
        }
    }
}

/// The function names of `contexts`, each once, in the order in which they
/// first occur.
pub open spec fn distinct_names(contexts: Seq<FunctionContextView>) -> Seq<Seq<char>>
    decreases contexts.len(),
{
    if contexts.len() == 0 {
        Seq::empty()
    } else {
        let earlier = distinct_names(contexts.drop_last());
        if earlier.contains(contexts.last().function_name) {
            earlier
        } else {
            earlier.push(contexts.last().function_name)
        }
    }
}

/// What is written for a contract: for each function name, in the order of
/// first definition, the name and the outlines of all functions of that name.
pub open spec fn contract_outlines_of(contexts: Seq<FunctionContextView>) -> Seq<
    (Seq<char>, Seq<char>),
> {
    let names = distinct_names(contexts);
    Seq::new(
        names.len(),
        |i: int| (names[i], overloads_outline(names[i], contexts_named(contexts, names[i]))),
    )
}

/// The function names of `contexts`, each once, in the order in which they
/// first occur.
pub fn function_names(contexts: &Vec<FunctionContext>) -> (r: Vec<String>)
    ensures
        r.deep_view() == distinct_names(contexts.deep_view()),
{
    let mut names: Vec<String> = Vec::new();
    let mut i: usize = 0;
    assert(names.deep_view() =~= distinct_names(contexts.deep_view().take(0)));
    while i < contexts.len()
        invariant
            i <= contexts@.len(),
            names.deep_view() == distinct_names(contexts.deep_view().take(i as int)),
        decreases contexts@.len() - i,
    {
        proof {
            assert(contexts.deep_view().take(i + 1).drop_last() == contexts.deep_view().take(
                i as int,
            ));
            assert(contexts.deep_view().take(i + 1).last() == contexts@[i as int]@);
        }
        let name = &contexts[i].function_name;
        let mut known = false;
        let mut k: usize = 0;
        while k < names.len() && !known
            invariant
                k <= names@.len(),
                known ==> names.deep_view().contains(name@),
                !known ==> forall|j: int| 0 <= j < k ==> names.deep_view()[j] != name@,
            decreases names@.len() - k + if known { 0int } else { 1int },
        {
            if names[k].as_str().eq(name.as_str()) {
                known = true;
                assert(names.deep_view()[k as int] == name@);
            } else {
                k += 1;
            }
        }
        let ghost before = names.deep_view();
        if !known {
            names.push(name.clone());
            assert(names.deep_view() =~= before.push(name@));
        }
        i += 1;
    }
    assert(contexts.deep_view().take(i as int) == contexts.deep_view());
    names
}

/// Those of `contexts` that belong to the function `name`, in order.
pub fn select_named(contexts: &Vec<FunctionContext>, name: &str) -> (r: Vec<FunctionContext>)
    ensures
        r.deep_view() == contexts_named(contexts.deep_view(), name@),
{
    let mut selected: Vec<FunctionContext> = Vec::new();
    let mut i: usize = 0;
    assert(selected.deep_view() =~= contexts_named(contexts.deep_view().take(0), name@));
    while i < contexts.len()
        invariant
            i <= contexts@.len(),
            selected.deep_view() == contexts_named(contexts.deep_view().take(i as int), name@),
        decreases contexts@.len() - i,
    {
        proof {
            assert(contexts.deep_view().take(i + 1).drop_last() == contexts.deep_view().take(
                i as int,
            ));
            assert(contexts.deep_view().take(i + 1).last() == contexts@[i as int]@);
        }
        let ghost before = selected.deep_view();
        if contexts[i].function_name.as_str().eq(name) {
            let copy = contexts[i].clone();
            selected.push(copy);
            assert(selected.deep_view() =~= before.push(copy@));
        }
        assert(selected.deep_view() =~= contexts_named(contexts.deep_view().take(i + 1), name@));
        i += 1;
    }
    assert(contexts.deep_view().take(i as int) == contexts.deep_view());
    selected
}

/// The texts written for a contract, from the analyses of its functions: one
/// pair of function name and text for each function name, overloads together.
pub fn contract_outlines(contexts: &Vec<FunctionContext>) -> (r: Vec<(String, String)>)
    ensures
        r.deep_view() == contract_outlines_of(contexts.deep_view()),
{
    let names = function_names(contexts);
    let ghost expected = contract_outlines_of(contexts.deep_view());
    let mut out: Vec<(String, String)> = Vec::new();
    let mut i: usize = 0;
    while i < names.len()
        invariant
            i <= names@.len(),
            names.deep_view() == distinct_names(contexts.deep_view()),
            expected == contract_outlines_of(contexts.deep_view()),
            out@.len() == i,
            forall|j: int| 0 <= j < i ==> (#[trigger] out@[j]).deep_view() == expected[j],
        decreases names@.len() - i,
    {
        let group = select_named(contexts, names[i].as_str());
        let text = render_overloads(names[i].as_str(), &group);
        proof {
            assert(names.deep_view()[i as int] == names@[i as int]@);
        }
        out.push((names[i].clone(), text));
        i += 1;
    }
    assert(out.deep_view() =~= expected);
    out
}

} // verus!
