use vstd::prelude::*;
use crate::grammar::{
    blank, is_space, spec_args, spec_args_rest, spec_assignment, spec_call, spec_digits_end,
    spec_dyadic, spec_dyadic_verb, spec_eat1, spec_expr, spec_ident, spec_ident_end, spec_item,
    spec_monadic, spec_monadic_verb, spec_number, spec_operand, spec_parse, spec_program,
    spec_quote_end, spec_skip, spec_string, spec_term, spec_terms, spec_terms_rest,
};
use crate::laws::{
    lemma_expr_sound, lemma_operand_sound, lemma_program_sound, lemma_quote_end, lemma_skip,
    lemma_term_sound,
};

verus! {

/// Before whitespace `w`, whitespace is passed over as at the end of `s`,
/// and then to the end of `w`.
pub proof fn lemma_skip_trailing(s: Seq<char>, w: Seq<char>, p: int)
    requires
        blank(w),
        0 <= p <= s.len() + w.len(),
    ensures
        p <= s.len() ==> spec_skip(s + w, p) == (if spec_skip(s, p) == s.len() {
            (s.len() + w.len()) as int
        } else {
            spec_skip(s, p)
        }),
        p >= s.len() ==> spec_skip(s + w, p) == s.len() + w.len(),
    decreases s.len() + w.len() - p,
{
    if p < s.len() {
        assert((s + w)[p] == s[p]);
        lemma_skip_trailing(s, w, p + 1);
    } else if p < s.len() + w.len() {
        assert((s + w)[p] == w[p - s.len()]);
        lemma_skip_trailing(s, w, p + 1);
    }
}

/// Identifier characters are passed over in `s` as in `s` before `w`.
pub proof fn lemma_ident_end_trailing(s: Seq<char>, w: Seq<char>, p: int)
    requires
        blank(w),
        0 <= p <= s.len(),
    ensures
        spec_ident_end(s + w, p) == spec_ident_end(s, p),
        p <= spec_ident_end(s, p) <= s.len(),
    decreases s.len() - p,
{
    if p < s.len() {
        assert((s + w)[p] == s[p]);
        lemma_ident_end_trailing(s, w, p + 1);
    } else if w.len() > 0 {
        assert((s + w)[p] == w[0]);
    }
}

/// Digits are passed over in `s` as in `s` before `w`.
pub proof fn lemma_digits_end_trailing(s: Seq<char>, w: Seq<char>, p: int)
    requires
        blank(w),
        0 <= p <= s.len(),
    ensures
        spec_digits_end(s + w, p) == spec_digits_end(s, p),
        p <= spec_digits_end(s, p) <= s.len(),
    decreases s.len() - p,
{
    if p < s.len() {
        assert((s + w)[p] == s[p]);
        lemma_digits_end_trailing(s, w, p + 1);
    } else if w.len() > 0 {
        assert((s + w)[p] == w[0]);
    }
}

/// A closing quote is found in `s` as in `s` before `w`.
pub proof fn lemma_quote_end_trailing(s: Seq<char>, w: Seq<char>, p: int)
    requires
        blank(w),
        0 <= p <= s.len() + w.len(),
    ensures
        p <= s.len() ==> spec_quote_end(s + w, p) == spec_quote_end(s, p),
        p >= s.len() ==> spec_quote_end(s + w, p) is None,
    decreases s.len() + w.len() - p,
{
    if p < s.len() {
        assert((s + w)[p] == s[p]);
        lemma_quote_end_trailing(s, w, p + 1);
    } else if p < s.len() + w.len() {
        assert((s + w)[p] == w[p - s.len()]);
        lemma_quote_end_trailing(s, w, p + 1);
    }
}

/// A character that is no whitespace is found in `s` as in `s` before `w`.
pub proof fn lemma_eat1_trailing(s: Seq<char>, w: Seq<char>, p: int, c: char)
    requires
        blank(w),
        !is_space(c),
        0 <= p <= s.len(),
    ensures
        spec_eat1(s + w, p, c) == spec_eat1(s, p, c),
        spec_eat1(s, p, c) matches Some(q) ==> p < q <= s.len(),
{
    broadcast use lemma_skip;

    lemma_skip_trailing(s, w, p);
}

/// Identifiers, numbers and strings are found in `s` as in `s` before `w`,
/// and spell the same.
pub proof fn lemma_tokens_trailing(s: Seq<char>, w: Seq<char>, p: int)
    requires
        blank(w),
        0 <= p <= s.len(),
    ensures
        spec_ident(s + w, p) == spec_ident(s, p),
        spec_number(s + w, p) == spec_number(s, p),
        spec_string(s + w, p) == spec_string(s, p),
        spec_ident(s, p) matches Some((a, b)) ==> p <= a < b <= s.len() && (s + w).subrange(a, b)
            == s.subrange(a, b),
        spec_number(s, p) matches Some((a, b)) ==> p <= a < b <= s.len() && (s + w).subrange(a, b)
            == s.subrange(a, b),
        spec_string(s, p) matches Some((a, b)) ==> p <= a < b <= s.len() && (s + w).subrange(a, b)
            == s.subrange(a, b),
{
    broadcast use lemma_skip, lemma_quote_end;

    lemma_skip_trailing(s, w, p);
    let q = spec_skip(s, p);
    if q < s.len() {
        assert((s + w)[q] == s[q]);
        lemma_ident_end_trailing(s, w, q + 1);
        lemma_digits_end_trailing(s, w, q + 1);
        lemma_quote_end_trailing(s, w, q + 1);
        let e = spec_digits_end(s, q + 1);
        if e + 1 < s.len() {
            assert((s + w)[e] == s[e]);
            assert((s + w)[e + 1] == s[e + 1]);
            lemma_digits_end_trailing(s, w, e + 2);
        } else if e + 1 < s.len() + w.len() {
            if e < s.len() {
                assert((s + w)[e] == s[e]);
                assert((s + w)[e + 1] == w[0]);
            } else {
                assert((s + w)[e] == w[0]);
            }
        }
        if let Some((a, b)) = spec_ident(s, p) {
            assert((s + w).subrange(a, b) =~= s.subrange(a, b));
        }
        if let Some((a, b)) = spec_number(s, p) {
            assert((s + w).subrange(a, b) =~= s.subrange(a, b));
        }
        if let Some((a, b)) = spec_string(s, p) {
            assert((s + w).subrange(a, b) =~= s.subrange(a, b));
        }
    }
}

/// Operators are found in `s` as in `s` before `w`.
pub proof fn lemma_verbs_trailing(s: Seq<char>, w: Seq<char>, p: int)
    requires
        blank(w),
        0 <= p <= s.len(),
    ensures
        spec_monadic_verb(s + w, p) == spec_monadic_verb(s, p),
        spec_dyadic_verb(s + w, p) == spec_dyadic_verb(s, p),
        spec_monadic_verb(s, p) matches Some((_, q)) ==> p < q <= s.len(),
        spec_dyadic_verb(s, p) matches Some((_, q)) ==> p < q <= s.len(),
{
    broadcast use lemma_skip;

    lemma_skip_trailing(s, w, p);
    let q = spec_skip(s, p);
    if q < s.len() {
        assert((s + w)[q] == s[q]);
        if q + 1 < s.len() {
            assert((s + w)[q + 1] == s[q + 1]);
        } else if w.len() > 0 {
            assert((s + w)[q + 1] == w[0]);
        }
    }
}

pub proof fn lemma_term_trailing(s: Seq<char>, w: Seq<char>, p: int)
    requires
        blank(w),
        0 <= p <= s.len(),
    ensures
        spec_term(s + w, p) == spec_term(s, p),
    decreases s.len() - p, 0int,
{
    broadcast use lemma_skip;

    lemma_tokens_trailing(s, w, p);
    lemma_eat1_trailing(s, w, p, '(');
    if let Some(q) = spec_eat1(s, p, '(') {
        lemma_expr_trailing(s, w, q);
        lemma_expr_sound(s, q);
        if let Some((_, e)) = spec_expr(s, q) {
            lemma_eat1_trailing(s, w, e, ')');
        }
    }
}

pub proof fn lemma_terms_rest_trailing(s: Seq<char>, w: Seq<char>, p: int)
    requires
        blank(w),
        0 <= p <= s.len(),
    ensures
        spec_terms_rest(s + w, p) == spec_terms_rest(s, p),
    decreases s.len() - p, 1int,
{
    broadcast use lemma_skip;

    lemma_term_trailing(s, w, p);
    lemma_term_sound(s, p);
    if let Some((_, e)) = spec_term(s, p) {
        if p < e <= s.len() {
            lemma_terms_rest_trailing(s, w, e);
        }
    }
}

pub proof fn lemma_terms_trailing(s: Seq<char>, w: Seq<char>, p: int)
    requires
        blank(w),
        0 <= p <= s.len(),
    ensures
        spec_terms(s + w, p) == spec_terms(s, p),
    decreases s.len() - p, 1int,
{
    broadcast use lemma_skip;

    lemma_term_trailing(s, w, p);
    lemma_term_sound(s, p);
    if let Some((_, e)) = spec_term(s, p) {
        if p < e <= s.len() {
            lemma_terms_rest_trailing(s, w, e);
        }
    }
}

pub proof fn lemma_args_rest_trailing(s: Seq<char>, w: Seq<char>, p: int)
    requires
        blank(w),
        0 <= p <= s.len(),
    ensures
        spec_args_rest(s + w, p) == spec_args_rest(s, p),
    decreases s.len() - p, 5int,
{
    broadcast use lemma_skip;

    lemma_eat1_trailing(s, w, p, ',');
    lemma_eat1_trailing(s, w, p, ')');
    if let Some(q) = spec_eat1(s, p, ',') {
        lemma_expr_trailing(s, w, q);
        lemma_expr_sound(s, q);
        if let Some((_, e)) = spec_expr(s, q) {
            if p < e <= s.len() {
                lemma_args_rest_trailing(s, w, e);
            }
        }
    }
}

pub proof fn lemma_args_trailing(s: Seq<char>, w: Seq<char>, p: int)
    requires
        blank(w),
        0 <= p <= s.len(),
    ensures
        spec_args(s + w, p) == spec_args(s, p),
    decreases s.len() - p, 5int,
{
    broadcast use lemma_skip;

    lemma_eat1_trailing(s, w, p, ')');
    lemma_expr_trailing(s, w, p);
    lemma_expr_sound(s, p);
    if let Some((_, e)) = spec_expr(s, p) {
        if p < e <= s.len() {
            lemma_args_rest_trailing(s, w, e);
        }
    }
}

pub proof fn lemma_call_trailing(s: Seq<char>, w: Seq<char>, p: int)
    requires
        blank(w),
        0 <= p <= s.len(),
    ensures
        spec_call(s + w, p) == spec_call(s, p),
    decreases s.len() - p, 1int,
{
    lemma_tokens_trailing(s, w, p);
    if let Some((_, b)) = spec_ident(s, p) {
        lemma_eat1_trailing(s, w, b, '(');
        if let Some(q) = spec_eat1(s, b, '(') {
            lemma_args_trailing(s, w, q);
        }
    }
}

pub proof fn lemma_item_trailing(s: Seq<char>, w: Seq<char>, p: int)
    requires
        blank(w),
        0 <= p <= s.len(),
    ensures
        spec_item(s + w, p) == spec_item(s, p),
    decreases s.len() - p, 1int,
{
    lemma_tokens_trailing(s, w, p);
    if let Some((_, b)) = spec_ident(s, p) {
        lemma_eat1_trailing(s, w, b, '.');
        if let Some(q) = spec_eat1(s, b, '.') {
            lemma_tokens_trailing(s, w, q);
            if let Some((_, d)) = spec_ident(s, q) {
                lemma_eat1_trailing(s, w, d, '(');
                if let Some(q2) = spec_eat1(s, d, '(') {
                    lemma_args_trailing(s, w, q2);
                }
            }
        }
    }
}

pub proof fn lemma_monadic_trailing(s: Seq<char>, w: Seq<char>, p: int)
    requires
        blank(w),
        0 <= p <= s.len(),
    ensures
        spec_monadic(s + w, p) == spec_monadic(s, p),
    decreases s.len() - p, 1int,
{
    lemma_verbs_trailing(s, w, p);
    if let Some((_, q)) = spec_monadic_verb(s, p) {
        lemma_expr_trailing(s, w, q);
    }
}

pub proof fn lemma_operand_trailing(s: Seq<char>, w: Seq<char>, p: int)
    requires
        blank(w),
        0 <= p <= s.len(),
    ensures
        spec_operand(s + w, p) == spec_operand(s, p),
    decreases s.len() - p, 2int,
{
    lemma_monadic_trailing(s, w, p);
    lemma_call_trailing(s, w, p);
    lemma_item_trailing(s, w, p);
    lemma_terms_trailing(s, w, p);
}

pub proof fn lemma_assignment_trailing(s: Seq<char>, w: Seq<char>, p: int)
    requires
        blank(w),
        0 <= p <= s.len(),
    ensures
        spec_assignment(s + w, p) == spec_assignment(s, p),
    decreases s.len() - p, 3int,
{
    lemma_tokens_trailing(s, w, p);
    if let Some((_, b)) = spec_ident(s, p) {
        lemma_eat1_trailing(s, w, b, '=');
        if let Some(q) = spec_eat1(s, b, '=') {
            lemma_expr_trailing(s, w, q);
        }
    }
}

pub proof fn lemma_dyadic_trailing(s: Seq<char>, w: Seq<char>, p: int)
    requires
        blank(w),
        0 <= p <= s.len(),
    ensures
        spec_dyadic(s + w, p) == spec_dyadic(s, p),
    decreases s.len() - p, 3int,
{
    broadcast use lemma_skip;

    lemma_operand_trailing(s, w, p);
    lemma_operand_sound(s, p);
    if let Some((_, e)) = spec_operand(s, p) {
        lemma_verbs_trailing(s, w, e);
        if let Some((_, q)) = spec_dyadic_verb(s, e) {
            lemma_operand_trailing(s, w, q);
        }
    }
}

/// What is read from a position of a text does not change when whitespace
/// is put behind the text.
pub proof fn lemma_expr_trailing(s: Seq<char>, w: Seq<char>, p: int)
    requires
        blank(w),
        0 <= p <= s.len(),
    ensures
        spec_expr(s + w, p) == spec_expr(s, p),
    decreases s.len() - p, 4int,
{
    lemma_assignment_trailing(s, w, p);
    lemma_dyadic_trailing(s, w, p);
    lemma_operand_trailing(s, w, p);
}

/// The same for the expressions of a program.
pub proof fn lemma_program_trailing(s: Seq<char>, w: Seq<char>, p: int)
    requires
        blank(w),
        0 <= p <= s.len(),
    ensures
        spec_program(s + w, p) == spec_program(s, p),
    decreases s.len() - p,
{
    broadcast use lemma_skip;

    lemma_expr_trailing(s, w, p);
    lemma_expr_sound(s, p);
    if let Some((_, e)) = spec_expr(s, p) {
        if p < e <= s.len() {
            lemma_program_trailing(s, w, e);
        }
    }
}

/// Whitespace behind a text does not matter: with any whitespace `w` put
/// behind it, a text is in the language exactly when it was, and has the
/// same trees.
pub proof fn lemma_trailing_whitespace(s: Seq<char>, w: Seq<char>)
    requires
        blank(w),
    ensures
        spec_parse(s + w) == spec_parse(s),
{
    broadcast use lemma_skip;

    lemma_program_trailing(s, w, 0);
    lemma_program_sound(s, 0);
    lemma_skip_trailing(s, w, spec_program(s, 0).1);
}

} // verus!
