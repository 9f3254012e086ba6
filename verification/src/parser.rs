use vstd::prelude::*;
use vstd::string::*;
use crate::diagnostic::{error_at, ParseError};
use crate::furthest::{
    far_args, far_args_rest, far_assignment, far_call, far_expr, far_item, far_monadic,
    far_operand, far_program, far_term, far_terms, spec_failure,
};
use crate::grammar::{
    dyadic_verb_of, monadic_verb_of, spec_args, spec_args_rest, spec_assignment, spec_call,
    spec_expr, spec_item, spec_monadic, spec_operand, spec_parse, spec_program,
    spec_skip, spec_term, spec_terms, spec_terms_rest,
};
use crate::scan::{
    dyadic_verb, eat1, ident, monadic_verb, number, skip, string, Furthest, Source, Token,
};
use crate::types::{
    view_nodes, AstNode, Dyadic, DyadicVerb, IdentifierLiteral, Monadic, MonadicVerb, Node,
};

verus! {

/// Every tree in `ns` is well formed.
pub open spec fn all_well_formed(ns: Seq<Node>) -> bool {
    forall|i: int| 0 <= i < ns.len() ==> (#[trigger] ns[i]).well_formed()
}

/// What a rule run at `p` hands back, `r`, is what the grammar gives, `m`:
/// the same tree and the same position, which lies after `p`.
pub open spec fn agrees(
    r: Option<(AstNode, usize)>,
    m: Option<(Node, int)>,
    s: Seq<char>,
    p: int,
) -> bool {
    match r {
        Some((n, e)) => m == Some((n@, e as int)) && p < e <= s.len() && n@.well_formed(),
        None => m is None,
    }
}

/// The same for a rule that gives a list of trees.
pub open spec fn agrees_list(
    r: Option<(Vec<AstNode>, usize)>,
    m: Option<(Seq<Node>, int)>,
    s: Seq<char>,
    p: int,
) -> bool {
    match r {
        Some((v, e)) => m == Some((view_nodes(v), e as int)) && p < e <= s.len()
            && all_well_formed(view_nodes(v)),
        None => m is None,
    }
}

/// `pre` put before the trees of `r`.
pub open spec fn after(pre: Seq<Node>, r: Option<(Seq<Node>, int)>) -> Option<(Seq<Node>, int)> {
    match r {
        Some((rest, e)) => Some((pre + rest, e)),
        None => None,
    }
}

/// A vector with one more node models the same trees and the new one.
pub proof fn lemma_view_push(before: Vec<AstNode>, now: Vec<AstNode>, n: AstNode)
    requires
        now@ == before@.push(n),
    ensures
        view_nodes(now) == view_nodes(before).push(n@),
{
    assert(view_nodes(now) =~= view_nodes(before).push(n@));
}

/// Whether `t` is the one character `c`.
pub fn text_is1(t: &str, c: char) -> (b: bool)
    ensures
        b == (t@ == seq![c]),
{
    let b = t.unicode_len() == 1 && t.get_char(0) == c;
    proof {
        if b {
            assert(t@ =~= seq![c]);
        }
    }
    b
}

/// Whether `t` is the two characters `c`, `d`.
pub fn text_is2(t: &str, c: char, d: char) -> (b: bool)
    ensures
        b == (t@ == seq![c, d]),
{
    let b = t.unicode_len() == 2 && t.get_char(0) == c && t.get_char(1) == d;
    proof {
        if b {
            assert(t@ =~= seq![c, d]);
        }
    }
    b
}

/// The prefix operator that `token` spells, if it spells one.
pub fn monadic_verb_from_text(token: &str) -> (v: Option<MonadicVerb>)
    ensures
        v == monadic_verb_of(token@),
{
    if text_is1(token, '-') {
        Some(MonadicVerb::Negate)
    } else if text_is2(token, '+', '+') {
        Some(MonadicVerb::Increment)
    } else if text_is2(token, '-', '-') {
        Some(MonadicVerb::Decrement)
    } else {
        None
    }
}

/// The infix operator that `token` spells, if it spells one.
pub fn dyadic_verb_from_text(token: &str) -> (v: Option<DyadicVerb>)
    ensures
        v == dyadic_verb_of(token@),
{
    if text_is1(token, '+') {
        Some(DyadicVerb::Add)
    } else if text_is1(token, '-') {
        Some(DyadicVerb::Subtract)
    } else if text_is1(token, '*') {
        Some(DyadicVerb::Multiply)
    } else if text_is1(token, '/') {
        Some(DyadicVerb::Divide)
    } else if text_is2(token, '=', '=') {
        Some(DyadicVerb::Equal)
    } else if text_is1(token, '<') {
        Some(DyadicVerb::LessThan)
    } else if text_is2(token, '<', '=') {
        Some(DyadicVerb::LessThanOrEqual)
    } else if text_is1(token, '>') {
        Some(DyadicVerb::GreaterThan)
    } else if text_is2(token, '>', '=') {
        Some(DyadicVerb::GreaterThanOrEqual)
    } else {
        None
    }
}

/// The node for the prefix operator spelled by `token`, applied to
/// `expression`. The token must spell a prefix operator.
pub fn parse_monadic_verb(token: &str, expression: AstNode) -> (node: AstNode)
    requires
        monadic_verb_of(token@) is Some,
    ensures
        node@ == Node::Monadic(monadic_verb_of(token@)->0, Box::new(expression@)),
{
    match monadic_verb_from_text(token) {
        Some(verb) => AstNode::Monadic(Monadic { verb, value: Box::new(expression) }),
        None => vstd::pervasive::unreached(),
    }
}

/// The node for the infix operator spelled by `token`, applied to `left` and
/// `right`. The token must spell an infix operator.
pub fn parse_dyadic_verb(token: &str, left: AstNode, right: AstNode) -> (node: AstNode)
    requires
        dyadic_verb_of(token@) is Some,
    ensures
        node@ == Node::Dyadic(dyadic_verb_of(token@)->0, Box::new(left@), Box::new(right@)),
{
    match dyadic_verb_from_text(token) {
        Some(verb) => AstNode::Dyadic(
            Dyadic { verb, left: Box::new(left), right: Box::new(right) },
        ),
        None => vstd::pervasive::unreached(),
    }
}

/// Recognises a term at `p`: a number, a string, an identifier or an
/// expression in parentheses, which stands for itself.
pub fn build_ast_from_term(src: &Source, p: usize, far: &mut Furthest) -> (r: Option<
    (AstNode, usize),
>)
    requires
        src.wf(),
        p <= src@.len(),
        old(far).pos <= src@.len(),
    ensures
        agrees(r, spec_term(src@, p as int), src@, p as int),
        *final(far) == far_term(src@, p as int, *old(far)),
        old(far).pos <= final(far).pos <= src@.len(),
    decreases src@.len() - p, 0int,
{
    if let Some((a, b)) = number(src, p, far) {
        Some((AstNode::NumberLiteral(src.slice(a, b)), b))
    } else if let Some((a, b)) = string(src, p, far) {
        Some((AstNode::StringLiteral(src.slice(a, b)), b))
    } else if let Some((a, b)) = ident(src, p, far) {
        Some((AstNode::IdentifierLiteral(src.slice(a, b)), b))
    } else {
        match eat1(src, p, '(', Token::OpenParen, far) {
            Some(q) => match build_ast_from_expression(src, q, far) {
                Some((inner, e)) => match eat1(src, e, ')', Token::CloseParen, far) {
                    Some(q2) => Some((inner, q2)),
                    None => None,
                },
                None => None,
            },
            None => None,
        }
    }
}

/// Recognises one or more terms at `p`. One term stands for itself; two or
/// more make a juxtaposition.
pub fn build_terms(src: &Source, p: usize, far: &mut Furthest) -> (r: Option<(AstNode, usize)>)
    requires
        src.wf(),
        p <= src@.len(),
        old(far).pos <= src@.len(),
    ensures
        agrees(r, spec_terms(src@, p as int), src@, p as int),
        *final(far) == far_terms(src@, p as int, *old(far)),
        old(far).pos <= final(far).pos <= src@.len(),
    decreases src@.len() - p, 1int,
{
    let ghost s = src@;
    let ghost start = *far;
    match build_ast_from_term(src, p, far) {
        None => None,
        Some((first, e)) => {
            let ghost whole = spec_terms_rest(s, e as int);
            let ghost first_view = first@;
            let mut items: Vec<AstNode> = Vec::new();
            items.push(first);
            assert(view_nodes(items) =~= seq![first_view]);
            let mut q: usize = e;
            loop
                invariant_except_break
                    far_terms(s, p as int, start) == far_terms(s, q as int, *far),
                invariant
                    src.wf(),
                    s == src@,
                    p < e <= q <= s.len(),
                    items.len() >= 1,
                    view_nodes(items)[0] == first_view,
                    all_well_formed(view_nodes(items)),
                    seq![first_view] + whole.0 == view_nodes(items) + spec_terms_rest(
                        s,
                        q as int,
                    ).0,
                    whole.1 == spec_terms_rest(s, q as int).1,
                    start.pos <= far.pos <= s.len(),
                ensures
                    far_terms(s, p as int, start) == *far,
                    seq![first_view] + whole.0 == view_nodes(items),
                    whole.1 == q,
                    p < q <= s.len(),
                    items.len() >= 1,
                    view_nodes(items)[0] == first_view,
                    all_well_formed(view_nodes(items)),
                    start.pos <= far.pos <= s.len(),
                decreases s.len() - q,
            {
                match build_ast_from_term(src, q, far) {
                    Some((next, e2)) => {
                        let ghost before = items;
                        let ghost rest = spec_terms_rest(s, e2 as int);
                        items.push(next);
                        proof {
                            lemma_view_push(before, items, next);
                            assert(view_nodes(before) + (seq![next@] + rest.0) =~= view_nodes(
                                items,
                            ) + rest.0);
                        }
                        q = e2;
                    },
                    None => {
                        assert(view_nodes(items) + Seq::<Node>::empty() =~= view_nodes(items));
                        break ;
                    },
                }
            }
            proof {
                assert(whole.0.len() + 1 == view_nodes(items).len()) by {
                    assert((seq![first_view] + whole.0).len() == whole.0.len() + 1);
                }
            }
            if items.len() == 1 {
                match items.pop() {
                    Some(only) => Some((only, q)),
                    None => None,
                }
            } else {
                Some((AstNode::Terms(items), q))
            }
        },
    }
}

/// Recognises what follows the opening parenthesis of a call: the
/// arguments, separated by commas, and the closing parenthesis.
pub fn build_args(src: &Source, p: usize, far: &mut Furthest) -> (r: Option<(Vec<AstNode>, usize)>)
    requires
        src.wf(),
        p <= src@.len(),
        old(far).pos <= src@.len(),
    ensures
        agrees_list(r, spec_args(src@, p as int), src@, p as int),
        *final(far) == far_args(src@, p as int, *old(far)),
        old(far).pos <= final(far).pos <= src@.len(),
    decreases src@.len() - p, 5int,
{
    let ghost s = src@;
    let ghost start = *far;
    let mut items: Vec<AstNode> = Vec::new();
    match build_ast_from_expression(src, p, far) {
        None => match eat1(src, p, ')', Token::CloseParen, far) {
            Some(q) => {
                assert(view_nodes(items) =~= Seq::<Node>::empty());
                Some((items, q))
            },
            None => None,
        },
        Some((first, e)) => {
            items.push(first);
            assert(view_nodes(items) =~= seq![first@]);
            let mut q: usize = e;
            loop
                invariant
                    src.wf(),
                    s == src@,
                    p < q <= s.len(),
                    all_well_formed(view_nodes(items)),
                    spec_args(s, p as int) == after(
                        view_nodes(items),
                        spec_args_rest(s, q as int),
                    ),
                    start == *old(far),
                    start.pos <= far.pos <= s.len(),
                    far_args(s, p as int, start) == far_args_rest(s, q as int, *far),
                decreases s.len() - q,
            {
                match eat1(src, q, ',', Token::Comma, far) {
                    Some(q1) => match build_ast_from_expression(src, q1, far) {
                        Some((next, e2)) => {
                            let ghost before = items;
                            let ghost rest = spec_args_rest(s, e2 as int);
                            items.push(next);
                            proof {
                                lemma_view_push(before, items, next);
                                if let Some((tail, z)) = rest {
                                    assert(view_nodes(before) + (seq![next@] + tail)
                                        =~= view_nodes(items) + tail);
                                }
                            }
                            q = e2;
                        },
                        None => {
                            return None;
                        },
                    },
                    None => match eat1(src, q, ')', Token::CloseParen, far) {
                        Some(q2) => {
                            assert(view_nodes(items) + Seq::<Node>::empty() =~= view_nodes(
                                items,
                            ));
                            return Some((items, q2));
                        },
                        None => {
                            return None;
                        },
                    },
                }
            }
        },
    }
}

/// Recognises `identifier "(" arguments ")"` at `p`.
pub fn build_call(src: &Source, p: usize, far: &mut Furthest) -> (r: Option<(AstNode, usize)>)
    requires
        src.wf(),
        p <= src@.len(),
        old(far).pos <= src@.len(),
    ensures
        agrees(r, spec_call(src@, p as int), src@, p as int),
        *final(far) == far_call(src@, p as int, *old(far)),
        old(far).pos <= final(far).pos <= src@.len(),
    decreases src@.len() - p, 1int,
{
    match ident(src, p, far) {
        Some((a, b)) => match eat1(src, b, '(', Token::OpenParen, far) {
            Some(q) => match build_args(src, q, far) {
                Some((args, e)) => {
                    let callee = AstNode::IdentifierLiteral(src.slice(a, b));
                    assert(callee@.well_formed());
                    Some((AstNode::FunctionCall(Box::new(callee), args), e))
                },
                None => None,
            },
            None => None,
        },
        None => None,
    }
}

/// Recognises `identifier "." identifier`, with or without arguments in
/// parentheses, at `p`. The member is the first child of the item.
pub fn build_item(src: &Source, p: usize, far: &mut Furthest) -> (r: Option<(AstNode, usize)>)
    requires
        src.wf(),
        p <= src@.len(),
        old(far).pos <= src@.len(),
    ensures
        agrees(r, spec_item(src@, p as int), src@, p as int),
        *final(far) == far_item(src@, p as int, *old(far)),
        old(far).pos <= final(far).pos <= src@.len(),
    decreases src@.len() - p, 1int,
{
    match ident(src, p, far) {
        Some((a, b)) => match eat1(src, b, '.', Token::Dot, far) {
            Some(q) => match ident(src, q, far) {
                Some((c, d)) => {
                    let head = IdentifierLiteral(src.slice(a, b));
                    let member = AstNode::IdentifierLiteral(src.slice(c, d));
                    let ghost member_view = member@;
                    assert(member_view.well_formed());
                    let mut found: Option<(Vec<AstNode>, usize)> = None;
                    if let Some(q2) = eat1(src, d, '(', Token::OpenParen, far) {
                        found = build_args(src, q2, far);
                    }
                    match found {
                        Some((mut args, e)) => {
                            let ghost given = view_nodes(args);
                            args.insert(0, member);
                            assert(view_nodes(args) =~= seq![member_view] + given);
                            Some((AstNode::Item(head, args), e))
                        },
                        None => {
                            let mut args: Vec<AstNode> = Vec::new();
                            args.push(member);
                            assert(view_nodes(args) =~= seq![member_view]);
                            Some((AstNode::Item(head, args), d))
                        },
                    }
                },
                None => None,
            },
            None => None,
        },
        None => None,
    }
}

/// Recognises a prefix operator and the expression it applies to, at `p`.
pub fn build_monadic(src: &Source, p: usize, far: &mut Furthest) -> (r: Option<(AstNode, usize)>)
    requires
        src.wf(),
        p <= src@.len(),
        old(far).pos <= src@.len(),
    ensures
        agrees(r, spec_monadic(src@, p as int), src@, p as int),
        *final(far) == far_monadic(src@, p as int, *old(far)),
        old(far).pos <= final(far).pos <= src@.len(),
    decreases src@.len() - p, 1int,
{
    match monadic_verb(src, p, far) {
        Some((verb, q)) => match build_ast_from_expression(src, q, far) {
            Some((v, e)) => Some((AstNode::Monadic(Monadic { verb, value: Box::new(v) }), e)),
            None => None,
        },
        None => None,
    }
}

/// Recognises an operand at `p`: a prefix operation, a call, an item or
/// terms, the first that matches.
pub fn build_operand(src: &Source, p: usize, far: &mut Furthest) -> (r: Option<(AstNode, usize)>)
    requires
        src.wf(),
        p <= src@.len(),
        old(far).pos <= src@.len(),
    ensures
        agrees(r, spec_operand(src@, p as int), src@, p as int),
        *final(far) == far_operand(src@, p as int, *old(far)),
        old(far).pos <= final(far).pos <= src@.len(),
    decreases src@.len() - p, 2int,
{
    if let Some(r) = build_monadic(src, p, far) {
        Some(r)
    } else if let Some(r) = build_call(src, p, far) {
        Some(r)
    } else if let Some(r) = build_item(src, p, far) {
        Some(r)
    } else {
        build_terms(src, p, far)
    }
}

/// Recognises `identifier "=" expression` at `p`.
pub fn build_assignment(src: &Source, p: usize, far: &mut Furthest) -> (r: Option<
    (AstNode, usize),
>)
    requires
        src.wf(),
        p <= src@.len(),
        old(far).pos <= src@.len(),
    ensures
        agrees(r, spec_assignment(src@, p as int), src@, p as int),
        *final(far) == far_assignment(src@, p as int, *old(far)),
        old(far).pos <= final(far).pos <= src@.len(),
    decreases src@.len() - p, 3int,
{
    match ident(src, p, far) {
        Some((a, b)) => match eat1(src, b, '=', Token::Assign, far) {
            Some(q) => match build_ast_from_expression(src, q, far) {
                Some((v, e)) => {
                    let name = IdentifierLiteral(src.slice(a, b));
                    Some((AstNode::Assignment(name, Box::new(v)), e))
                },
                None => None,
            },
            None => None,
        },
        None => None,
    }
}

/// Recognises an expression at `p`: an assignment, an infix operation or a
/// single operand, the first that matches. The left operand is read once:
/// where no operator and right operand follow it, it is the expression.
pub fn build_ast_from_expression(src: &Source, p: usize, far: &mut Furthest) -> (r: Option<
    (AstNode, usize),
>)
    requires
        src.wf(),
        p <= src@.len(),
        old(far).pos <= src@.len(),
    ensures
        agrees(r, spec_expr(src@, p as int), src@, p as int),
        *final(far) == far_expr(src@, p as int, *old(far)),
        old(far).pos <= final(far).pos <= src@.len(),
    decreases src@.len() - p, 4int,
{
    if let Some(r) = build_assignment(src, p, far) {
        return Some(r);
    }
    match build_operand(src, p, far) {
        None => None,
        Some((left, e)) => match dyadic_verb(src, e, far) {
            None => Some((left, e)),
            Some((verb, q)) => {
                match build_operand(src, q, far) {
                    Some((right, e2)) => Some(
                        (
                            AstNode::Dyadic(
                                Dyadic { verb, left: Box::new(left), right: Box::new(right) },
                            ),
                            e2,
                        ),
                    ),
                    None => Some((left, e)),
                }
            },
        },
    }
}

/// Parses a whole source text into the trees of its expressions.
///
/// The text is in the language exactly when its expressions, read one after
/// another from the start, leave nothing but whitespace. Otherwise the
/// error gives the furthest position at which a token was looked for and
/// not found, the kinds of token looked for there, and the line, column and
/// text of the line of that position. The position lies at or after the
/// place where reading stopped.
pub fn parse(source: &str) -> (r: Result<Vec<AstNode>, ParseError>)
    ensures
        match r {
            Ok(v) => spec_parse(source@) == Some(view_nodes(v)) && all_well_formed(
                view_nodes(v),
            ),
            Err(e) => spec_parse(source@) is None && e.offset == spec_failure(source@).pos
                && e.expected == spec_failure(source@).expected && e.locates(source@)
                && spec_skip(source@, spec_program(source@, 0).1) <= e.offset,
        },
{
    let src = Source::new(source);
    let ghost s = src@;
    let mut far = Furthest::new();
    let mut out: Vec<AstNode> = Vec::new();
    let mut p: usize = 0;
    assert(view_nodes(out) =~= Seq::<Node>::empty());
    assert(view_nodes(out) + spec_program(s, 0).0 =~= spec_program(s, 0).0);
    loop
        invariant_except_break
            far_program(s, 0, Furthest::clean()) == far_program(s, p as int, far),
        invariant
            src.wf(),
            s == src@,
            p <= s.len(),
            far.pos <= s.len(),
            all_well_formed(view_nodes(out)),
            spec_program(s, 0).0 == view_nodes(out) + spec_program(s, p as int).0,
            spec_program(s, 0).1 == spec_program(s, p as int).1,
        ensures
            far_program(s, 0, Furthest::clean()) == far,
            p <= s.len(),
            far.pos <= s.len(),
            all_well_formed(view_nodes(out)),
            spec_program(s, 0) == (view_nodes(out), p as int),
        decreases s.len() - p,
    {
        match build_ast_from_expression(&src, p, &mut far) {
            Some((node, e)) => {
                let ghost before = out;
                let ghost rest = spec_program(s, e as int);
                out.push(node);
                proof {
                    lemma_view_push(before, out, node);
                    assert(view_nodes(before) + (seq![node@] + rest.0) =~= view_nodes(out)
                        + rest.0);
                }
                p = e;
            },
            None => {
                assert(view_nodes(out) + Seq::<Node>::empty() =~= view_nodes(out));
                break ;
            },
        }
    }
    let q: usize = skip(&src, p);
    if q == src.len() {
        Ok(out)
    } else {
        far.note(q, Token::EndOfInput);
        Err(error_at(&src, far.pos, far.expected))
    }
}

} // verus!
