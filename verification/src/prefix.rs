use vstd::prelude::*;
use crate::grammar::{
    blank, spec_args, spec_args_rest, spec_assignment, spec_call, spec_digits_end,
    spec_dyadic, spec_dyadic_verb, spec_eat1, spec_expr, spec_ident, spec_ident_end, spec_item,
    spec_monadic, spec_monadic_verb, spec_number, spec_operand, spec_parse, spec_program,
    spec_quote_end, spec_skip, spec_string, spec_term, spec_terms, spec_terms_rest,
};
use crate::laws::{
    lemma_digits_end, lemma_expr_sound, lemma_ident_end, lemma_operand_sound,
    lemma_program_leading_space, lemma_program_sound, lemma_quote_end, lemma_skip,
};
use crate::types::Node;

verus! {

/// The result of a rule, with its position moved on by `d`.
pub open spec fn moved(m: Option<(Node, int)>, d: int) -> Option<(Node, int)> {
    match m {
        Some((n, e)) => Some((n, e + d)),
        None => None,
    }
}

/// The same for a rule that gives a list of trees.
pub open spec fn moved_list(m: Option<(Seq<Node>, int)>, d: int) -> Option<(Seq<Node>, int)> {
    match m {
        Some((ns, e)) => Some((ns, e + d)),
        None => None,
    }
}

/// Whitespace is passed over in `s` as it is in `s` behind `w`.
pub broadcast proof fn lemma_skip_suffix(w: Seq<char>, s: Seq<char>, q: int)
    ensures
        w.len() <= q <= w.len() + s.len() ==> #[trigger] spec_skip(w + s, q) == spec_skip(
            s,
            q - w.len(),
        ) + w.len(),
    decreases w.len() + s.len() - q,
{
    if w.len() <= q < w.len() + s.len() {
        assert((w + s)[q] == s[q - w.len()]);
        lemma_skip_suffix(w, s, q + 1);
    }
}

/// Identifier characters are passed over in `s` as in `s` behind `w`.
pub broadcast proof fn lemma_ident_end_suffix(w: Seq<char>, s: Seq<char>, q: int)
    ensures
        w.len() <= q <= w.len() + s.len() ==> #[trigger] spec_ident_end(w + s, q)
            == spec_ident_end(s, q - w.len()) + w.len(),
    decreases w.len() + s.len() - q,
{
    if w.len() <= q < w.len() + s.len() {
        assert((w + s)[q] == s[q - w.len()]);
        lemma_ident_end_suffix(w, s, q + 1);
    }
}

/// Digits are passed over in `s` as in `s` behind `w`.
pub broadcast proof fn lemma_digits_end_suffix(w: Seq<char>, s: Seq<char>, q: int)
    ensures
        w.len() <= q <= w.len() + s.len() ==> #[trigger] spec_digits_end(w + s, q)
            == spec_digits_end(s, q - w.len()) + w.len(),
    decreases w.len() + s.len() - q,
{
    if w.len() <= q < w.len() + s.len() {
        assert((w + s)[q] == s[q - w.len()]);
        lemma_digits_end_suffix(w, s, q + 1);
    }
}

/// A closing quote is found in `s` as in `s` behind `w`.
pub broadcast proof fn lemma_quote_end_suffix(w: Seq<char>, s: Seq<char>, q: int)
    ensures
        w.len() <= q <= w.len() + s.len() ==> #[trigger] spec_quote_end(w + s, q) == (
        match spec_quote_end(s, q - w.len()) {
            Some(e) => Some(e + w.len()),
            None => None,
        }),
    decreases w.len() + s.len() - q,
{
    if w.len() <= q < w.len() + s.len() {
        assert((w + s)[q] == s[q - w.len()]);
        lemma_quote_end_suffix(w, s, q + 1);
    }
}

/// A piece of `s` is the same piece of `s` behind `w`.
pub broadcast proof fn lemma_text_suffix(w: Seq<char>, s: Seq<char>, x: int, y: int)
    ensures
        w.len() <= x <= y <= w.len() + s.len() ==> #[trigger] (w + s).subrange(x, y)
            == s.subrange(x - w.len(), y - w.len()),
{
    if w.len() <= x <= y <= w.len() + s.len() {
        assert((w + s).subrange(x, y) =~= s.subrange(x - w.len(), y - w.len()));
    }
}

pub broadcast group group_suffix {
    lemma_skip,
    lemma_ident_end,
    lemma_digits_end,
    lemma_quote_end,
    lemma_skip_suffix,
    lemma_ident_end_suffix,
    lemma_digits_end_suffix,
    lemma_quote_end_suffix,
    lemma_text_suffix,
}

/// A span of text, moved on by `d`.
pub open spec fn moved_span(m: Option<(int, int)>, d: int) -> Option<(int, int)> {
    match m {
        Some((a, b)) => Some((a + d, b + d)),
        None => None,
    }
}

/// A position, moved on by `d`.
pub open spec fn moved_pos(m: Option<int>, d: int) -> Option<int> {
    match m {
        Some(q) => Some(q + d),
        None => None,
    }
}

/// A single character is found in `s` as in `s` behind `w`.
pub proof fn lemma_eat1_suffix(w: Seq<char>, s: Seq<char>, p: int, c: char)
    requires
        0 <= p <= s.len(),
    ensures
        spec_eat1(w + s, p + w.len(), c) == moved_pos(spec_eat1(s, p, c), w.len() as int),
        spec_eat1(s, p, c) matches Some(q) ==> p < q <= s.len(),
{
    broadcast use group_suffix;

}

/// Identifiers, numbers, strings and operators are found in `s` as in `s`
/// behind `w`, and spell the same.
pub proof fn lemma_tokens_suffix(w: Seq<char>, s: Seq<char>, p: int)
    requires
        0 <= p <= s.len(),
    ensures
        spec_ident(w + s, p + w.len()) == moved_span(spec_ident(s, p), w.len() as int),
        spec_number(w + s, p + w.len()) == moved_span(spec_number(s, p), w.len() as int),
        spec_string(w + s, p + w.len()) == moved_span(spec_string(s, p), w.len() as int),
        spec_ident(s, p) matches Some((a, b)) ==> p <= a < b <= s.len() && (w + s).subrange(
            a + w.len(),
            b + w.len(),
        ) == s.subrange(a, b),
        spec_number(s, p) matches Some((a, b)) ==> p <= a < b <= s.len() && (w + s).subrange(
            a + w.len(),
            b + w.len(),
        ) == s.subrange(a, b),
        spec_string(s, p) matches Some((a, b)) ==> p <= a < b <= s.len() && (w + s).subrange(
            a + w.len(),
            b + w.len(),
        ) == s.subrange(a, b),
{
    broadcast use group_suffix;

}

/// Operators are found in `s` as in `s` behind `w`.
pub proof fn lemma_verbs_suffix(w: Seq<char>, s: Seq<char>, p: int)
    requires
        0 <= p <= s.len(),
    ensures
        spec_monadic_verb(w + s, p + w.len()) == (match spec_monadic_verb(s, p) {
            Some((v, q)) => Some((v, q + w.len())),
            None => None,
        }),
        spec_dyadic_verb(w + s, p + w.len()) == (match spec_dyadic_verb(s, p) {
            Some((v, q)) => Some((v, q + w.len())),
            None => None,
        }),
        spec_monadic_verb(s, p) matches Some((_, q)) ==> p < q <= s.len(),
        spec_dyadic_verb(s, p) matches Some((_, q)) ==> p < q <= s.len(),
{
    broadcast use group_suffix;

}

pub proof fn lemma_term_suffix(w: Seq<char>, s: Seq<char>, p: int)
    requires
        0 <= p <= s.len(),
    ensures
        spec_term(w + s, p + w.len()) == moved(spec_term(s, p), w.len() as int),
    decreases s.len() - p, 0int,
{
    broadcast use lemma_skip;

    lemma_tokens_suffix(w, s, p);
    lemma_eat1_suffix(w, s, p, '(');
    if let Some(q) = spec_eat1(s, p, '(') {
        lemma_expr_suffix(w, s, q);
        lemma_expr_sound(s, q);
        if let Some((_, e)) = spec_expr(s, q) {
            lemma_eat1_suffix(w, s, e, ')');
        }
    }
}

pub proof fn lemma_terms_rest_suffix(w: Seq<char>, s: Seq<char>, p: int)
    requires
        0 <= p <= s.len(),
    ensures
        spec_terms_rest(w + s, p + w.len()) == (
            spec_terms_rest(s, p).0,
            spec_terms_rest(s, p).1 + w.len(),
        ),
    decreases s.len() - p, 1int,
{
    lemma_term_suffix(w, s, p);
    if let Some((_, e)) = spec_term(s, p) {
        if p < e <= s.len() {
            lemma_terms_rest_suffix(w, s, e);
        }
    }
}

pub proof fn lemma_terms_suffix(w: Seq<char>, s: Seq<char>, p: int)
    requires
        0 <= p <= s.len(),
    ensures
        spec_terms(w + s, p + w.len()) == moved(spec_terms(s, p), w.len() as int),
    decreases s.len() - p, 1int,
{
    lemma_term_suffix(w, s, p);
    if let Some((_, e)) = spec_term(s, p) {
        if p < e <= s.len() {
            lemma_terms_rest_suffix(w, s, e);
        }
    }
}

pub proof fn lemma_args_rest_suffix(w: Seq<char>, s: Seq<char>, p: int)
    requires
        0 <= p <= s.len(),
    ensures
        spec_args_rest(w + s, p + w.len()) == moved_list(spec_args_rest(s, p), w.len() as int),
    decreases s.len() - p, 5int,
{
    lemma_eat1_suffix(w, s, p, ',');
    lemma_eat1_suffix(w, s, p, ')');
    if let Some(q) = spec_eat1(s, p, ',') {
        lemma_expr_suffix(w, s, q);
        if let Some((_, e)) = spec_expr(s, q) {
            if p < e <= s.len() {
                lemma_args_rest_suffix(w, s, e);
            }
        }
    }
}

pub proof fn lemma_args_suffix(w: Seq<char>, s: Seq<char>, p: int)
    requires
        0 <= p <= s.len(),
    ensures
        spec_args(w + s, p + w.len()) == moved_list(spec_args(s, p), w.len() as int),
    decreases s.len() - p, 5int,
{
    lemma_eat1_suffix(w, s, p, ')');
    lemma_expr_suffix(w, s, p);
    if let Some((_, e)) = spec_expr(s, p) {
        if p < e <= s.len() {
            lemma_args_rest_suffix(w, s, e);
        }
    }
}

pub proof fn lemma_call_suffix(w: Seq<char>, s: Seq<char>, p: int)
    requires
        0 <= p <= s.len(),
    ensures
        spec_call(w + s, p + w.len()) == moved(spec_call(s, p), w.len() as int),
    decreases s.len() - p, 1int,
{
    lemma_tokens_suffix(w, s, p);
    if let Some((_, b)) = spec_ident(s, p) {
        lemma_eat1_suffix(w, s, b, '(');
        if let Some(q) = spec_eat1(s, b, '(') {
            lemma_args_suffix(w, s, q);
        }
    }
}

pub proof fn lemma_item_suffix(w: Seq<char>, s: Seq<char>, p: int)
    requires
        0 <= p <= s.len(),
    ensures
        spec_item(w + s, p + w.len()) == moved(spec_item(s, p), w.len() as int),
    decreases s.len() - p, 1int,
{
    lemma_tokens_suffix(w, s, p);
    if let Some((_, b)) = spec_ident(s, p) {
        lemma_eat1_suffix(w, s, b, '.');
        if let Some(q) = spec_eat1(s, b, '.') {
            lemma_tokens_suffix(w, s, q);
            if let Some((_, d)) = spec_ident(s, q) {
                lemma_eat1_suffix(w, s, d, '(');
                if let Some(q2) = spec_eat1(s, d, '(') {
                    lemma_args_suffix(w, s, q2);
                }
            }
        }
    }
}

pub proof fn lemma_monadic_suffix(w: Seq<char>, s: Seq<char>, p: int)
    requires
        0 <= p <= s.len(),
    ensures
        spec_monadic(w + s, p + w.len()) == moved(spec_monadic(s, p), w.len() as int),
    decreases s.len() - p, 1int,
{
    lemma_verbs_suffix(w, s, p);
    if let Some((_, q)) = spec_monadic_verb(s, p) {
        lemma_expr_suffix(w, s, q);
    }
}

pub proof fn lemma_operand_suffix(w: Seq<char>, s: Seq<char>, p: int)
    requires
        0 <= p <= s.len(),
    ensures
        spec_operand(w + s, p + w.len()) == moved(spec_operand(s, p), w.len() as int),
    decreases s.len() - p, 2int,
{
    lemma_monadic_suffix(w, s, p);
    lemma_call_suffix(w, s, p);
    lemma_item_suffix(w, s, p);
    lemma_terms_suffix(w, s, p);
}

pub proof fn lemma_assignment_suffix(w: Seq<char>, s: Seq<char>, p: int)
    requires
        0 <= p <= s.len(),
    ensures
        spec_assignment(w + s, p + w.len()) == moved(spec_assignment(s, p), w.len() as int),
    decreases s.len() - p, 3int,
{
    lemma_tokens_suffix(w, s, p);
    if let Some((_, b)) = spec_ident(s, p) {
        lemma_eat1_suffix(w, s, b, '=');
        if let Some(q) = spec_eat1(s, b, '=') {
            lemma_expr_suffix(w, s, q);
        }
    }
}

pub proof fn lemma_dyadic_suffix(w: Seq<char>, s: Seq<char>, p: int)
    requires
        0 <= p <= s.len(),
    ensures
        spec_dyadic(w + s, p + w.len()) == moved(spec_dyadic(s, p), w.len() as int),
    decreases s.len() - p, 3int,
{
    broadcast use lemma_skip;

    lemma_operand_suffix(w, s, p);
    lemma_operand_sound(s, p);
    if let Some((_, e)) = spec_operand(s, p) {
        lemma_verbs_suffix(w, s, e);
        if let Some((_, q)) = spec_dyadic_verb(s, e) {
            lemma_operand_suffix(w, s, q);
        }
    }
}

/// What is read from a position of a text depends on nothing before that
/// position: behind any other text `w`, the same expression is read, moved
/// on by the length of `w`.
pub proof fn lemma_expr_suffix(w: Seq<char>, s: Seq<char>, p: int)
    requires
        0 <= p <= s.len(),
    ensures
        spec_expr(w + s, p + w.len()) == moved(spec_expr(s, p), w.len() as int),
    decreases s.len() - p, 4int,
{
    lemma_assignment_suffix(w, s, p);
    lemma_dyadic_suffix(w, s, p);
    lemma_operand_suffix(w, s, p);
}

/// The same for the expressions of a program.
pub proof fn lemma_program_suffix(w: Seq<char>, s: Seq<char>, p: int)
    requires
        0 <= p <= s.len(),
    ensures
        spec_program(w + s, p + w.len()) == (spec_program(s, p).0, spec_program(s, p).1 + w.len()),
    decreases s.len() - p,
{
    lemma_expr_suffix(w, s, p);
    if let Some((_, e)) = spec_expr(s, p) {
        if p < e <= s.len() {
            lemma_program_suffix(w, s, e);
        }
    }
}

/// Whitespace at the start of a text is passed over as a whole.
pub proof fn lemma_skip_prefix(w: Seq<char>, s: Seq<char>, i: int)
    requires
        blank(w),
        0 <= i <= w.len(),
    ensures
        spec_skip(w + s, i) == spec_skip(w + s, w.len() as int),
    decreases w.len() - i,
{
    if i < w.len() {
        assert((w + s)[i] == w[i]);
        lemma_skip_prefix(w, s, i + 1);
    }
}

/// Whitespace before a text does not matter: with any whitespace `w` put
/// before it, a text is in the language exactly when it was, and has the
/// same trees.
pub proof fn lemma_leading_whitespace(w: Seq<char>, s: Seq<char>)
    requires
        blank(w),
    ensures
        spec_parse(w + s) == spec_parse(s),
{
    broadcast use group_suffix;

    let t = w + s;
    let d = w.len() as int;
    lemma_skip_prefix(w, s, 0);
    lemma_program_leading_space(t, 0);
    lemma_program_leading_space(t, d);
    lemma_program_suffix(w, s, 0);
    lemma_program_sound(s, 0);
}

} // verus!
