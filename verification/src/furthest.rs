use vstd::prelude::*;
use crate::grammar::{
    advances, spec_assignment, spec_call, spec_dyadic_verb, spec_eat1, spec_expr, spec_ident,
    spec_item, spec_monadic, spec_monadic_verb, spec_number, spec_operand, spec_program,
    spec_skip, spec_string, spec_term,
};
use crate::scan::{
    far_dyadic_verb, far_eat1, far_ident, far_monadic_verb, far_number, far_string, Furthest,
    Token,
};

verus! {

// Each function below gives the record of missed tokens after one rule has
// been tried at `p`, from the record `f` before it. The alternatives of a
// rule are tried in order, and each token that an alternative looks for and
// does not find is recorded, whether or not a later alternative matches.
// An infix operation and the single operand that it starts with share the
// reading of that operand.

/// The record after a term was looked for at `p`.
pub open spec fn far_term(s: Seq<char>, p: int, f: Furthest) -> Furthest
    decreases s.len() - p, 0int,
{
    let f1 = far_number(s, p, f);
    if spec_number(s, p) is Some {
        f1
    } else {
        let f2 = far_string(s, p, f1);
        if spec_string(s, p) is Some {
            f2
        } else {
            let f3 = far_ident(s, p, f2);
            if spec_ident(s, p) is Some {
                f3
            } else {
                let f4 = far_eat1(s, p, '(', Token::OpenParen, f3);
                match spec_eat1(s, p, '(') {
                    Some(q) => if advances(s, p, q) {
                        let f5 = far_expr(s, q, f4);
                        match spec_expr(s, q) {
                            Some((_, e)) => far_eat1(s, e, ')', Token::CloseParen, f5),
                            None => f5,
                        }
                    } else {
                        f4
                    },
                    None => f4,
                }
            }
        }
    }
}

/// The record after terms were looked for at `p`, one after another until
/// none is found.
pub open spec fn far_terms(s: Seq<char>, p: int, f: Furthest) -> Furthest
    decreases s.len() - p, 1int,
{
    let f1 = far_term(s, p, f);
    match spec_term(s, p) {
        Some((_, e)) => if advances(s, p, e) {
            far_terms(s, e, f1)
        } else {
            f1
        },
        None => f1,
    }
}

/// The record after the arguments of a call were looked for at `p`.
pub open spec fn far_args(s: Seq<char>, p: int, f: Furthest) -> Furthest
    decreases s.len() - p, 5int,
{
    let f1 = far_expr(s, p, f);
    match spec_expr(s, p) {
        Some((_, e)) => if advances(s, p, e) {
            far_args_rest(s, e, f1)
        } else {
            f1
        },
        None => far_eat1(s, p, ')', Token::CloseParen, f1),
    }
}

/// The record after further arguments and the closing parenthesis were
/// looked for at `p`.
pub open spec fn far_args_rest(s: Seq<char>, p: int, f: Furthest) -> Furthest
    decreases s.len() - p, 5int,
{
    let f1 = far_eat1(s, p, ',', Token::Comma, f);
    match spec_eat1(s, p, ',') {
        Some(q) => if advances(s, p, q) {
            let f2 = far_expr(s, q, f1);
            match spec_expr(s, q) {
                Some((_, e)) => if advances(s, p, e) {
                    far_args_rest(s, e, f2)
                } else {
                    f2
                },
                None => f2,
            }
        } else {
            f1
        },
        None => far_eat1(s, p, ')', Token::CloseParen, f1),
    }
}

/// The record after a call was looked for at `p`.
pub open spec fn far_call(s: Seq<char>, p: int, f: Furthest) -> Furthest
    decreases s.len() - p, 1int,
{
    let f1 = far_ident(s, p, f);
    match spec_ident(s, p) {
        Some((_, b)) => {
            let f2 = far_eat1(s, b, '(', Token::OpenParen, f1);
            match spec_eat1(s, b, '(') {
                Some(q) => if advances(s, p, q) {
                    far_args(s, q, f2)
                } else {
                    f2
                },
                None => f2,
            }
        },
        None => f1,
    }
}

/// The record after an item was looked for at `p`.
pub open spec fn far_item(s: Seq<char>, p: int, f: Furthest) -> Furthest
    decreases s.len() - p, 1int,
{
    let f1 = far_ident(s, p, f);
    match spec_ident(s, p) {
        Some((_, b)) => {
            let f2 = far_eat1(s, b, '.', Token::Dot, f1);
            match spec_eat1(s, b, '.') {
                Some(q) => {
                    let f3 = far_ident(s, q, f2);
                    match spec_ident(s, q) {
                        Some((_, d)) => {
                            let f4 = far_eat1(s, d, '(', Token::OpenParen, f3);
                            match spec_eat1(s, d, '(') {
                                Some(q2) => if advances(s, p, q2) {
                                    far_args(s, q2, f4)
                                } else {
                                    f4
                                },
                                None => f4,
                            }
                        },
                        None => f3,
                    }
                },
                None => f2,
            }
        },
        None => f1,
    }
}

/// The record after a prefix operation was looked for at `p`.
pub open spec fn far_monadic(s: Seq<char>, p: int, f: Furthest) -> Furthest
    decreases s.len() - p, 1int,
{
    let f1 = far_monadic_verb(s, p, f);
    match spec_monadic_verb(s, p) {
        Some((_, q)) => if advances(s, p, q) {
            far_expr(s, q, f1)
        } else {
            f1
        },
        None => f1,
    }
}

/// The record after an operand was looked for at `p`.
pub open spec fn far_operand(s: Seq<char>, p: int, f: Furthest) -> Furthest
    decreases s.len() - p, 2int,
{
    if !(0 <= p <= s.len()) {
        f
    } else {
        let f1 = far_monadic(s, p, f);
        if spec_monadic(s, p) is Some {
            f1
        } else {
            let f2 = far_call(s, p, f1);
            if spec_call(s, p) is Some {
                f2
            } else {
                let f3 = far_item(s, p, f2);
                if spec_item(s, p) is Some {
                    f3
                } else {
                    far_terms(s, p, f3)
                }
            }
        }
    }
}

/// The record after an assignment was looked for at `p`.
pub open spec fn far_assignment(s: Seq<char>, p: int, f: Furthest) -> Furthest
    decreases s.len() - p, 3int,
{
    let f1 = far_ident(s, p, f);
    match spec_ident(s, p) {
        Some((_, b)) => {
            let f2 = far_eat1(s, b, '=', Token::Assign, f1);
            match spec_eat1(s, b, '=') {
                Some(q) => if advances(s, p, q) {
                    far_expr(s, q, f2)
                } else {
                    f2
                },
                None => f2,
            }
        },
        None => f1,
    }
}

/// The record after an expression was looked for at `p`.
pub open spec fn far_expr(s: Seq<char>, p: int, f: Furthest) -> Furthest
    decreases s.len() - p, 4int,
{
    if !(0 <= p <= s.len()) {
        f
    } else {
        let f1 = far_assignment(s, p, f);
        if spec_assignment(s, p) is Some {
            f1
        } else {
            let f2 = far_operand(s, p, f1);
            match spec_operand(s, p) {
                Some((_, e)) => {
                    let f3 = far_dyadic_verb(s, e, f2);
                    match spec_dyadic_verb(s, e) {
                        Some((_, q)) => if advances(s, p, q) {
                            far_operand(s, q, f3)
                        } else {
                            f3
                        },
                        None => f3,
                    }
                },
                None => f2,
            }
        }
    }
}

/// The record after the expressions of a program were looked for from `p`
/// on, until none is found.
pub open spec fn far_program(s: Seq<char>, p: int, f: Furthest) -> Furthest
    decreases s.len() - p,
{
    let f1 = far_expr(s, p, f);
    match spec_expr(s, p) {
        Some((_, e)) => if advances(s, p, e) {
            far_program(s, e, f1)
        } else {
            f1
        },
        None => f1,
    }
}

/// The record of a whole source text that is not in the language: what was
/// missed while its expressions were read, and the end of the text, which
/// was looked for where reading stopped.
pub open spec fn spec_failure(s: Seq<char>) -> Furthest {
    far_program(s, 0, Furthest::clean()).join(
        Furthest::miss(spec_skip(s, spec_program(s, 0).1), Token::EndOfInput),
    )
}

} // verus!
