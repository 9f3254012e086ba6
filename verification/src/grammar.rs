use vstd::prelude::*;
use crate::types::{DyadicVerb, MonadicVerb, Node};

verus! {

/// Space, tab, line feed and carriage return separate tokens.
pub open spec fn is_space(c: char) -> bool {
    c == ' ' || c == '\t' || c == '\n' || c == '\r'
}

/// A text of whitespace only.
pub open spec fn blank(w: Seq<char>) -> bool {
    forall|j: int| 0 <= j < w.len() ==> is_space(#[trigger] w[j])
}

pub open spec fn is_digit(c: char) -> bool {
    '0' <= c && c <= '9'
}

pub open spec fn is_ident_start(c: char) -> bool {
    ('a' <= c && c <= 'z') || ('A' <= c && c <= 'Z') || c == '_'
}

pub open spec fn is_ident_char(c: char) -> bool {
    is_ident_start(c) || is_digit(c)
}

/// The first position at or after `p` that holds no whitespace.
pub open spec fn spec_skip(s: Seq<char>, p: int) -> int
    decreases s.len() - p,
{
    if 0 <= p < s.len() && is_space(s[p]) {
        spec_skip(s, p + 1)
    } else {
        p
    }
}

/// The end of the run of identifier characters that starts at `p`.
pub open spec fn spec_ident_end(s: Seq<char>, p: int) -> int
    decreases s.len() - p,
{
    if 0 <= p < s.len() && is_ident_char(s[p]) {
        spec_ident_end(s, p + 1)
    } else {
        p
    }
}

/// The end of the run of digits that starts at `p`.
pub open spec fn spec_digits_end(s: Seq<char>, p: int) -> int
    decreases s.len() - p,
{
    if 0 <= p < s.len() && is_digit(s[p]) {
        spec_digits_end(s, p + 1)
    } else {
        p
    }
}

/// The position just after the first double quote at or after `p`.
pub open spec fn spec_quote_end(s: Seq<char>, p: int) -> Option<int>
    decreases s.len() - p,
{
    if !(0 <= p < s.len()) {
        None
    } else if s[p] == '"' {
        Some(p + 1)
    } else {
        spec_quote_end(s, p + 1)
    }
}

/// One character `c` after optional whitespace: the position after it.
pub open spec fn spec_eat1(s: Seq<char>, p: int, c: char) -> Option<int> {
    let q = spec_skip(s, p);
    if 0 <= q < s.len() && s[q] == c {
        Some(q + 1)
    } else {
        None
    }
}

/// The two characters `c`, `d` after optional whitespace.
pub open spec fn spec_eat2(s: Seq<char>, p: int, c: char, d: char) -> Option<int> {
    let q = spec_skip(s, p);
    if 0 <= q && q + 1 < s.len() && s[q] == c && s[q + 1] == d {
        Some(q + 2)
    } else {
        None
    }
}

/// `identifier = [A-Za-z_] [A-Za-z0-9_]*`, after optional whitespace: where
/// it starts and where it ends.
pub open spec fn spec_ident(s: Seq<char>, p: int) -> Option<(int, int)> {
    let q = spec_skip(s, p);
    if 0 <= q < s.len() && is_ident_start(s[q]) {
        Some((q, spec_ident_end(s, q + 1)))
    } else {
        None
    }
}

/// `numberLiteral = [0-9]+ ("." [0-9]+)?`, after optional whitespace.
pub open spec fn spec_number(s: Seq<char>, p: int) -> Option<(int, int)> {
    let q = spec_skip(s, p);
    if 0 <= q < s.len() && is_digit(s[q]) {
        let e = spec_digits_end(s, q + 1);
        if e + 1 < s.len() && s[e] == '.' && is_digit(s[e + 1]) {
            Some((q, spec_digits_end(s, e + 2)))
        } else {
            Some((q, e))
        }
    } else {
        None
    }
}

/// `stringLiteral = '"' (any char except '"')* '"'`, after optional
/// whitespace. The span includes both quotes.
pub open spec fn spec_string(s: Seq<char>, p: int) -> Option<(int, int)> {
    let q = spec_skip(s, p);
    if 0 <= q < s.len() && s[q] == '"' {
        match spec_quote_end(s, q + 1) {
            Some(e) => Some((q, e)),
            None => None,
        }
    } else {
        None
    }
}

/// The verb that an operator text stands for, as a prefix operator.
pub open spec fn monadic_verb_of(t: Seq<char>) -> Option<MonadicVerb> {
    if t == seq!['-'] {
        Some(MonadicVerb::Negate)
    } else if t == seq!['+', '+'] {
        Some(MonadicVerb::Increment)
    } else if t == seq!['-', '-'] {
        Some(MonadicVerb::Decrement)
    } else {
        None
    }
}

/// The verb that an operator text stands for, as an infix operator.
pub open spec fn dyadic_verb_of(t: Seq<char>) -> Option<DyadicVerb> {
    if t == seq!['+'] {
        Some(DyadicVerb::Add)
    } else if t == seq!['-'] {
        Some(DyadicVerb::Subtract)
    } else if t == seq!['*'] {
        Some(DyadicVerb::Multiply)
    } else if t == seq!['/'] {
        Some(DyadicVerb::Divide)
    } else if t == seq!['=', '='] {
        Some(DyadicVerb::Equal)
    } else if t == seq!['<'] {
        Some(DyadicVerb::LessThan)
    } else if t == seq!['<', '='] {
        Some(DyadicVerb::LessThanOrEqual)
    } else if t == seq!['>'] {
        Some(DyadicVerb::GreaterThan)
    } else if t == seq!['>', '='] {
        Some(DyadicVerb::GreaterThanOrEqual)
    } else {
        None
    }
}

/// `monadicVerb = "++" | "--" | "-"`: the verb and the position after it.
pub open spec fn spec_monadic_verb(s: Seq<char>, p: int) -> Option<(MonadicVerb, int)> {
    if let Some(q) = spec_eat2(s, p, '+', '+') {
        Some((MonadicVerb::Increment, q))
    } else if let Some(q) = spec_eat2(s, p, '-', '-') {
        Some((MonadicVerb::Decrement, q))
    } else if let Some(q) = spec_eat1(s, p, '-') {
        Some((MonadicVerb::Negate, q))
    } else {
        None
    }
}

/// `dyadicVerb = "==" | "<=" | ">=" | "<" | ">" | "+" | "-" | "*" | "/"`.
pub open spec fn spec_dyadic_verb(s: Seq<char>, p: int) -> Option<(DyadicVerb, int)> {
    if let Some(q) = spec_eat2(s, p, '=', '=') {
        Some((DyadicVerb::Equal, q))
    } else if let Some(q) = spec_eat2(s, p, '<', '=') {
        Some((DyadicVerb::LessThanOrEqual, q))
    } else if let Some(q) = spec_eat2(s, p, '>', '=') {
        Some((DyadicVerb::GreaterThanOrEqual, q))
    } else if let Some(q) = spec_eat1(s, p, '<') {
        Some((DyadicVerb::LessThan, q))
    } else if let Some(q) = spec_eat1(s, p, '>') {
        Some((DyadicVerb::GreaterThan, q))
    } else if let Some(q) = spec_eat1(s, p, '+') {
        Some((DyadicVerb::Add, q))
    } else if let Some(q) = spec_eat1(s, p, '-') {
        Some((DyadicVerb::Subtract, q))
    } else if let Some(q) = spec_eat1(s, p, '*') {
        Some((DyadicVerb::Multiply, q))
    } else if let Some(q) = spec_eat1(s, p, '/') {
        Some((DyadicVerb::Divide, q))
    } else {
        None
    }
}

/// `q` lies after `p` and within `s`. Every position that a rule hands on
/// meets this; the rules test it so that their recursion is well founded.
pub open spec fn advances(s: Seq<char>, p: int, q: int) -> bool {
    p < q <= s.len()
}

/// `expression = assignment | dyadic | monadic | call | item | terms`.
///
/// Each rule gives the node it recognises at `p` and the position after it,
/// or `None`. Choice is ordered: the first alternative that matches wins.
pub open spec fn spec_expr(s: Seq<char>, p: int) -> Option<(Node, int)>
    decreases s.len() - p, 4int,
{
    if !(0 <= p <= s.len()) {
        None
    } else if let Some(r) = spec_assignment(s, p) {
        Some(r)
    } else if let Some(r) = spec_dyadic(s, p) {
        Some(r)
    } else {
        spec_operand(s, p)
    }
}

/// `assignment = identifier "=" expression`.
pub open spec fn spec_assignment(s: Seq<char>, p: int) -> Option<(Node, int)>
    decreases s.len() - p, 3int,
{
    match spec_ident(s, p) {
        Some((a, b)) => match spec_eat1(s, b, '=') {
            Some(q) => if advances(s, p, q) {
                match spec_expr(s, q) {
                    Some((v, e)) => Some((Node::Assignment(s.subrange(a, b), Box::new(v)), e)),
                    None => None,
                }
            } else {
                None
            },
            None => None,
        },
        None => None,
    }
}

/// `dyadic = dyadicOperand dyadicVerb dyadicOperand`.
pub open spec fn spec_dyadic(s: Seq<char>, p: int) -> Option<(Node, int)>
    decreases s.len() - p, 3int,
{
    if !(0 <= p <= s.len()) {
        None
    } else {
        match spec_operand(s, p) {
            Some((l, e)) => match spec_dyadic_verb(s, e) {
                Some((verb, q)) => if advances(s, p, q) {
                    match spec_operand(s, q) {
                        Some((r, e2)) => Some((Node::Dyadic(verb, Box::new(l), Box::new(r)), e2)),
                        None => None,
                    }
                } else {
                    None
                },
                None => None,
            },
            None => None,
        }
    }
}

/// `dyadicOperand = monadic | call | item | terms`.
pub open spec fn spec_operand(s: Seq<char>, p: int) -> Option<(Node, int)>
    decreases s.len() - p, 2int,
{
    if !(0 <= p <= s.len()) {
        None
    } else if let Some(r) = spec_monadic(s, p) {
        Some(r)
    } else if let Some(r) = spec_call(s, p) {
        Some(r)
    } else if let Some(r) = spec_item(s, p) {
        Some(r)
    } else {
        spec_terms(s, p)
    }
}

/// `monadic = monadicVerb expression`.
pub open spec fn spec_monadic(s: Seq<char>, p: int) -> Option<(Node, int)>
    decreases s.len() - p, 1int,
{
    match spec_monadic_verb(s, p) {
        Some((verb, q)) => if advances(s, p, q) {
            match spec_expr(s, q) {
                Some((v, e)) => Some((Node::Monadic(verb, Box::new(v)), e)),
                None => None,
            }
        } else {
            None
        },
        None => None,
    }
}

/// `call = identifier "(" arguments`.
pub open spec fn spec_call(s: Seq<char>, p: int) -> Option<(Node, int)>
    decreases s.len() - p, 1int,
{
    match spec_ident(s, p) {
        Some((a, b)) => match spec_eat1(s, b, '(') {
            Some(q) => if advances(s, p, q) {
                match spec_args(s, q) {
                    Some((args, e)) => Some(
                        (Node::FunctionCall(Box::new(Node::Ident(s.subrange(a, b))), args), e),
                    ),
                    None => None,
                }
            } else {
                None
            },
            None => None,
        },
        None => None,
    }
}

/// `item = identifier "." identifier ("(" arguments)?`. The member comes
/// first among the item's children, as an identifier node.
pub open spec fn spec_item(s: Seq<char>, p: int) -> Option<(Node, int)>
    decreases s.len() - p, 1int,
{
    match spec_ident(s, p) {
        Some((a, b)) => match spec_eat1(s, b, '.') {
            Some(q) => match spec_ident(s, q) {
                Some((c, d)) => {
                    let member = Node::Ident(s.subrange(c, d));
                    let bare = Some((Node::Item(s.subrange(a, b), seq![member]), d));
                    match spec_eat1(s, d, '(') {
                        Some(q2) => if advances(s, p, q2) {
                            match spec_args(s, q2) {
                                Some((args, e)) => Some(
                                    (Node::Item(s.subrange(a, b), seq![member] + args), e),
                                ),
                                None => bare,
                            }
                        } else {
                            bare
                        },
                        None => bare,
                    }
                },
                None => None,
            },
            None => None,
        },
        None => None,
    }
}

/// `arguments = (expression ("," expression)*)? ")"`: what follows the
/// opening parenthesis of a call.
pub open spec fn spec_args(s: Seq<char>, p: int) -> Option<(Seq<Node>, int)>
    decreases s.len() - p, 5int,
{
    match spec_expr(s, p) {
        Some((first, e)) => if advances(s, p, e) {
            match spec_args_rest(s, e) {
                Some((rest, q)) => Some((seq![first] + rest, q)),
                None => None,
            }
        } else {
            None
        },
        None => match spec_eat1(s, p, ')') {
            Some(q) => Some((Seq::empty(), q)),
            None => None,
        },
    }
}

/// `("," expression)* ")"`.
pub open spec fn spec_args_rest(s: Seq<char>, p: int) -> Option<(Seq<Node>, int)>
    decreases s.len() - p, 5int,
{
    match spec_eat1(s, p, ',') {
        Some(q) => if advances(s, p, q) {
            match spec_expr(s, q) {
                Some((next, e)) => if advances(s, p, e) {
                    match spec_args_rest(s, e) {
                        Some((rest, q2)) => Some((seq![next] + rest, q2)),
                        None => None,
                    }
                } else {
                    None
                },
                None => None,
            }
        } else {
            None
        },
        None => match spec_eat1(s, p, ')') {
            Some(q) => Some((Seq::empty(), q)),
            None => None,
        },
    }
}

/// `terms = term+`. One term alone stands for itself; two or more make a
/// juxtaposition.
pub open spec fn spec_terms(s: Seq<char>, p: int) -> Option<(Node, int)>
    decreases s.len() - p, 1int,
{
    match spec_term(s, p) {
        Some((first, e)) => if advances(s, p, e) {
            let (rest, q) = spec_terms_rest(s, e);
            if rest.len() == 0 {
                Some((first, q))
            } else {
                Some((Node::Terms(seq![first] + rest), q))
            }
        } else {
            None
        },
        None => None,
    }
}

/// `term*`: the terms found from `p` on and the position after the last.
pub open spec fn spec_terms_rest(s: Seq<char>, p: int) -> (Seq<Node>, int)
    decreases s.len() - p, 1int,
{
    match spec_term(s, p) {
        Some((next, e)) => if advances(s, p, e) {
            let (rest, q) = spec_terms_rest(s, e);
            (seq![next] + rest, q)
        } else {
            (Seq::empty(), p)
        },
        None => (Seq::empty(), p),
    }
}

/// `term = numberLiteral | stringLiteral | identifier | "(" expression ")"`.
pub open spec fn spec_term(s: Seq<char>, p: int) -> Option<(Node, int)>
    decreases s.len() - p, 0int,
{
    if let Some((a, b)) = spec_number(s, p) {
        Some((Node::Number(s.subrange(a, b)), b))
    } else if let Some((a, b)) = spec_string(s, p) {
        Some((Node::Text(s.subrange(a, b)), b))
    } else if let Some((a, b)) = spec_ident(s, p) {
        Some((Node::Ident(s.subrange(a, b)), b))
    } else {
        match spec_eat1(s, p, '(') {
            Some(q) => if advances(s, p, q) {
                match spec_expr(s, q) {
                    Some((inner, e)) => match spec_eat1(s, e, ')') {
                        Some(q2) => Some((inner, q2)),
                        None => None,
                    },
                    None => None,
                }
            } else {
                None
            },
            None => None,
        }
    }
}

/// `program = expression*`: the expressions found from `p` on and the
/// position after the last.
pub open spec fn spec_program(s: Seq<char>, p: int) -> (Seq<Node>, int)
    decreases s.len() - p,
{
    match spec_expr(s, p) {
        Some((first, e)) => if advances(s, p, e) {
            let (rest, q) = spec_program(s, e);
            (seq![first] + rest, q)
        } else {
            (Seq::empty(), p)
        },
        None => (Seq::empty(), p),
    }
}

/// The trees of a whole source text: its expressions, if nothing but
/// whitespace follows the last of them.
pub open spec fn spec_parse(s: Seq<char>) -> Option<Seq<Node>> {
    let (nodes, e) = spec_program(s, 0);
    if spec_skip(s, e) == s.len() {
        Some(nodes)
    } else {
        None
    }
}

/// The 1-based line of position `p`: one more than the line feeds before it.
pub open spec fn spec_line(s: Seq<char>, p: int) -> int
    decreases p,
{
    if p <= 0 || p > s.len() {
        1
    } else if s[p - 1] == '\n' {
        spec_line(s, p - 1) + 1
    } else {
        spec_line(s, p - 1)
    }
}

/// Where the line that holds position `p` starts.
pub open spec fn spec_line_start(s: Seq<char>, p: int) -> int
    decreases p,
{
    if p <= 0 || p > s.len() {
        0
    } else if s[p - 1] == '\n' {
        p
    } else {
        spec_line_start(s, p - 1)
    }
}

/// Where the line that holds position `p` ends: at the next line feed or at
/// the end of the text.
pub open spec fn spec_line_end(s: Seq<char>, p: int) -> int
    decreases s.len() - p,
{
    if 0 <= p < s.len() && s[p] != '\n' {
        spec_line_end(s, p + 1)
    } else {
        p
    }
}

} // verus!
