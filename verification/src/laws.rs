use vstd::prelude::*;
use crate::grammar::{
    is_space, spec_args, spec_args_rest, spec_assignment, spec_call, spec_digits_end,
    spec_dyadic, spec_dyadic_verb, spec_eat1, spec_expr, spec_ident, spec_ident_end, spec_item,
    spec_monadic, spec_monadic_verb, spec_operand, spec_parse, spec_program, spec_quote_end,
    spec_skip, spec_term, spec_terms, spec_terms_rest,
};
use crate::types::Node;

verus! {

/// Whitespace is passed over: a position is never moved back, nor past the
/// end of the text, and passing over it twice is passing over it once.
pub broadcast proof fn lemma_skip(s: Seq<char>, p: int)
    ensures
        0 <= p <= s.len() ==> p <= #[trigger] spec_skip(s, p) <= s.len(),
        spec_skip(s, spec_skip(s, p)) == spec_skip(s, p),
    decreases s.len() - p,
{
    if 0 <= p < s.len() && is_space(s[p]) {
        lemma_skip(s, p + 1);
    }
}

/// A run of identifier characters ends within the text.
pub broadcast proof fn lemma_ident_end(s: Seq<char>, p: int)
    ensures
        0 <= p <= s.len() ==> p <= #[trigger] spec_ident_end(s, p) <= s.len(),
    decreases s.len() - p,
{
    if 0 <= p < s.len() {
        lemma_ident_end(s, p + 1);
    }
}

/// A run of digits ends within the text.
pub broadcast proof fn lemma_digits_end(s: Seq<char>, p: int)
    ensures
        0 <= p <= s.len() ==> p <= #[trigger] spec_digits_end(s, p) <= s.len(),
    decreases s.len() - p,
{
    if 0 <= p < s.len() {
        lemma_digits_end(s, p + 1);
    }
}

/// A closing quote, where there is one, lies within the text.
pub broadcast proof fn lemma_quote_end(s: Seq<char>, p: int)
    ensures
        0 <= p <= s.len() ==> match #[trigger] spec_quote_end(s, p) {
            Some(e) => p < e <= s.len(),
            None => true,
        },
    decreases s.len() - p,
{
    if 0 <= p < s.len() {
        lemma_quote_end(s, p + 1);
    }
}

/// What a rule gives at `p` ends after the first character at or after `p`
/// that is no whitespace, within the text, and is well formed.
pub open spec fn sound(m: Option<(Node, int)>, s: Seq<char>, p: int) -> bool {
    match m {
        Some((n, e)) => spec_skip(s, p) < e <= s.len() && n.well_formed(),
        None => true,
    }
}

/// The same for a rule that gives a list of trees.
pub open spec fn sound_list(m: Option<(Seq<Node>, int)>, s: Seq<char>, p: int) -> bool {
    match m {
        Some((ns, e)) => spec_skip(s, p) < e <= s.len() && forall|i: int|
            0 <= i < ns.len() ==> (#[trigger] ns[i]).well_formed(),
        None => true,
    }
}

pub proof fn lemma_term_sound(s: Seq<char>, p: int)
    requires
        0 <= p <= s.len(),
    ensures
        sound(spec_term(s, p), s, p),
    decreases s.len() - p, 0int,
{
    broadcast use lemma_skip, lemma_ident_end, lemma_digits_end, lemma_quote_end;

    if let Some(q) = spec_eat1(s, p, '(') {
        lemma_expr_sound(s, q);
    }
}

pub proof fn lemma_terms_rest_sound(s: Seq<char>, p: int)
    requires
        0 <= p <= s.len(),
    ensures
        p <= spec_terms_rest(s, p).1 <= s.len(),
        spec_terms_rest(s, p).0.len() > 0 ==> spec_skip(s, p) < spec_terms_rest(s, p).1,
        forall|i: int|
            0 <= i < spec_terms_rest(s, p).0.len() ==> (#[trigger] spec_terms_rest(
                s,
                p,
            ).0[i]).well_formed(),
    decreases s.len() - p, 1int,
{
    broadcast use lemma_skip;

    lemma_term_sound(s, p);
    if let Some((_, e)) = spec_term(s, p) {
        lemma_terms_rest_sound(s, e);
    }
}

pub proof fn lemma_terms_sound(s: Seq<char>, p: int)
    requires
        0 <= p <= s.len(),
    ensures
        sound(spec_terms(s, p), s, p),
    decreases s.len() - p, 1int,
{
    broadcast use lemma_skip;

    lemma_term_sound(s, p);
    if let Some((_, e)) = spec_term(s, p) {
        lemma_terms_rest_sound(s, e);
    }
}

pub proof fn lemma_args_rest_sound(s: Seq<char>, p: int)
    requires
        0 <= p <= s.len(),
    ensures
        sound_list(spec_args_rest(s, p), s, p),
    decreases s.len() - p, 5int,
{
    broadcast use lemma_skip;

    if let Some(q) = spec_eat1(s, p, ',') {
        lemma_expr_sound(s, q);
        if let Some((_, e)) = spec_expr(s, q) {
            lemma_args_rest_sound(s, e);
        }
    }
}

pub proof fn lemma_args_sound(s: Seq<char>, p: int)
    requires
        0 <= p <= s.len(),
    ensures
        sound_list(spec_args(s, p), s, p),
    decreases s.len() - p, 5int,
{
    broadcast use lemma_skip;

    lemma_expr_sound(s, p);
    if let Some((_, e)) = spec_expr(s, p) {
        lemma_args_rest_sound(s, e);
    }
}

pub proof fn lemma_call_sound(s: Seq<char>, p: int)
    requires
        0 <= p <= s.len(),
    ensures
        sound(spec_call(s, p), s, p),
    decreases s.len() - p, 1int,
{
    broadcast use lemma_skip, lemma_ident_end;

    if let Some((a, b)) = spec_ident(s, p) {
        if let Some(q) = spec_eat1(s, b, '(') {
            lemma_args_sound(s, q);
            assert(Node::Ident(s.subrange(a, b)).well_formed());
        }
    }
}

pub proof fn lemma_item_sound(s: Seq<char>, p: int)
    requires
        0 <= p <= s.len(),
    ensures
        sound(spec_item(s, p), s, p),
    decreases s.len() - p, 1int,
{
    broadcast use lemma_skip, lemma_ident_end;

    if let Some((_, b)) = spec_ident(s, p) {
        if let Some(q) = spec_eat1(s, b, '.') {
            if let Some((c, d)) = spec_ident(s, q) {
                let member = Node::Ident(s.subrange(c, d));
                assert(member.well_formed());
                assert(seq![member][0] == member);
                if let Some(q2) = spec_eat1(s, d, '(') {
                    lemma_args_sound(s, q2);
                    if let Some((args, _)) = spec_args(s, q2) {
                        let all = seq![member] + args;
                        assert forall|i: int| 0 <= i < all.len() implies (#[trigger] all[i])
                            .well_formed() by {
                            if i > 0 {
                                assert(all[i] == args[i - 1]);
                            }
                        }
                    }
                }
            }
        }
    }
}

pub proof fn lemma_monadic_sound(s: Seq<char>, p: int)
    requires
        0 <= p <= s.len(),
    ensures
        sound(spec_monadic(s, p), s, p),
    decreases s.len() - p, 1int,
{
    broadcast use lemma_skip;

    if let Some((_, q)) = spec_monadic_verb(s, p) {
        lemma_expr_sound(s, q);
    }
}

pub proof fn lemma_operand_sound(s: Seq<char>, p: int)
    requires
        0 <= p <= s.len(),
    ensures
        sound(spec_operand(s, p), s, p),
    decreases s.len() - p, 2int,
{
    lemma_monadic_sound(s, p);
    lemma_call_sound(s, p);
    lemma_item_sound(s, p);
    lemma_terms_sound(s, p);
}

pub proof fn lemma_assignment_sound(s: Seq<char>, p: int)
    requires
        0 <= p <= s.len(),
    ensures
        sound(spec_assignment(s, p), s, p),
    decreases s.len() - p, 3int,
{
    broadcast use lemma_skip, lemma_ident_end;

    if let Some((_, b)) = spec_ident(s, p) {
        if let Some(q) = spec_eat1(s, b, '=') {
            lemma_expr_sound(s, q);
        }
    }
}

pub proof fn lemma_dyadic_sound(s: Seq<char>, p: int)
    requires
        0 <= p <= s.len(),
    ensures
        sound(spec_dyadic(s, p), s, p),
    decreases s.len() - p, 3int,
{
    broadcast use lemma_skip;

    lemma_operand_sound(s, p);
    if let Some((_, e)) = spec_operand(s, p) {
        if let Some((_, q)) = spec_dyadic_verb(s, e) {
            lemma_operand_sound(s, q);
        }
    }
}

/// Every expression that the grammar recognises ends within the text,
/// after the place where it starts, and holds no juxtaposition of fewer than
/// two terms.
pub proof fn lemma_expr_sound(s: Seq<char>, p: int)
    requires
        0 <= p <= s.len(),
    ensures
        sound(spec_expr(s, p), s, p),
    decreases s.len() - p, 4int,
{
    lemma_assignment_sound(s, p);
    lemma_dyadic_sound(s, p);
    lemma_operand_sound(s, p);
}

/// The expressions of a program lie within the text and are well formed.
pub proof fn lemma_program_sound(s: Seq<char>, p: int)
    requires
        0 <= p <= s.len(),
    ensures
        p <= spec_program(s, p).1 <= s.len(),
        forall|i: int|
            0 <= i < spec_program(s, p).0.len() ==> (#[trigger] spec_program(
                s,
                p,
            ).0[i]).well_formed(),
    decreases s.len() - p,
{
    broadcast use lemma_skip;

    lemma_expr_sound(s, p);
    if let Some((_, e)) = spec_expr(s, p) {
        lemma_program_sound(s, e);
    }
}

/// No tree of a parsed text holds a juxtaposition of fewer than two terms.
pub proof fn lemma_parse_well_formed(s: Seq<char>)
    ensures
        spec_parse(s) matches Some(ns) ==> forall|i: int|
            0 <= i < ns.len() ==> (#[trigger] ns[i]).well_formed(),
{
    lemma_program_sound(s, 0);
}

/// A term is read alike from `p` and from the first position at or after
/// `p` that holds no whitespace.
pub proof fn lemma_term_leading_space(s: Seq<char>, p: int)
    requires
        0 <= p <= s.len(),
    ensures
        spec_term(s, p) == spec_term(s, spec_skip(s, p)),
{
    broadcast use lemma_skip;

}

/// Terms are read alike from `p` and from the first position at or after
/// `p` that holds no whitespace.
pub proof fn lemma_terms_leading_space(s: Seq<char>, p: int)
    requires
        0 <= p <= s.len(),
    ensures
        spec_terms(s, p) == spec_terms(s, spec_skip(s, p)),
{
    broadcast use lemma_skip;

    lemma_term_leading_space(s, p);
    lemma_term_sound(s, p);
}

/// An operand is read alike from `p` and from the first position at or
/// after `p` that holds no whitespace.
pub proof fn lemma_operand_leading_space(s: Seq<char>, p: int)
    requires
        0 <= p <= s.len(),
    ensures
        spec_operand(s, p) == spec_operand(s, spec_skip(s, p)),
{
    broadcast use lemma_skip, lemma_ident_end;

    let k = spec_skip(s, p);
    lemma_terms_leading_space(s, p);
    assert(spec_monadic(s, p) == spec_monadic(s, k));
    assert(spec_call(s, p) == spec_call(s, k));
    assert(spec_item(s, p) == spec_item(s, k));
}

/// Whitespace before an expression does not matter: it is read alike from
/// `p` and from the first position at or after `p` that holds no whitespace.
pub proof fn lemma_expr_leading_space(s: Seq<char>, p: int)
    requires
        0 <= p <= s.len(),
    ensures
        spec_expr(s, p) == spec_expr(s, spec_skip(s, p)),
{
    broadcast use lemma_skip, lemma_ident_end;

    let k = spec_skip(s, p);
    lemma_operand_leading_space(s, p);
    lemma_operand_sound(s, p);
    assert(spec_assignment(s, p) == spec_assignment(s, k));
    assert(spec_dyadic(s, p) == spec_dyadic(s, k));
}

/// Whitespace before a program does not matter: the same expressions are
/// read from `p` and from the first position at or after `p` that holds no
/// whitespace, and the same text is left over.
pub proof fn lemma_program_leading_space(s: Seq<char>, p: int)
    requires
        0 <= p <= s.len(),
    ensures
        spec_program(s, p).0 == spec_program(s, spec_skip(s, p)).0,
        spec_skip(s, spec_program(s, p).1) == spec_skip(s, spec_program(s, spec_skip(s, p)).1),
{
    broadcast use lemma_skip;

    lemma_expr_leading_space(s, p);
    lemma_expr_sound(s, p);
}

/// Where an identifier stands, terms are found, so an expression and an
/// operand need no alternative of their own for a bare identifier.
pub proof fn lemma_identifier_is_terms(s: Seq<char>, p: int)
    requires
        0 <= p <= s.len(),
        spec_ident(s, p) is Some,
    ensures
        spec_terms(s, p) is Some,
        spec_operand(s, p) is Some,
        spec_expr(s, p) is Some,
{
    lemma_term_sound(s, p);
    broadcast use lemma_skip;

}

} // verus!
