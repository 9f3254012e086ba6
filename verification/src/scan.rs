use vstd::prelude::*;
use vstd::string::*;
use vstd::std_specs::iter::IteratorSpec;
use crate::grammar::{
    is_digit, is_ident_char, is_ident_start, is_space, spec_digits_end, spec_dyadic_verb,
    spec_eat1, spec_ident, spec_ident_end, spec_monadic_verb, spec_number, spec_quote_end,
    spec_skip, spec_string,
};
use crate::types::{DyadicVerb, MonadicVerb};

verus! {

/// A source text together with its characters, so that a position can be
/// read in constant time.
pub struct Source<'a> {
    pub text: &'a str,
    pub chars: Vec<char>,
}

impl<'a> View for Source<'a> {
    type V = Seq<char>;

    open spec fn view(&self) -> Seq<char> {
        self.chars@
    }
}

impl<'a> Source<'a> {
    /// The characters are those of the text.
    pub open spec fn wf(&self) -> bool {
        self.chars@ == self.text@
    }

    pub fn new(text: &'a str) -> (src: Source<'a>)
        ensures
            src.wf(),
            src@ == text@,
            src.text == text,
    {
        let mut chars: Vec<char> = Vec::new();
        let mut it = text.chars();
        proof {
            axiom_spec_iter(text);
        }
        loop
            invariant
                chars@ + it.remaining() == text@,
                it.obeys_prophetic_iter_laws(),
                it.decrease() is Some,
            ensures
                chars@ == text@,
            decreases it.decrease()->0,
        {
            broadcast use next_postcondition;

            match it.next() {
                Some(c) => {
                    chars.push(c);
                    assert(chars@ + it.remaining() =~= text@);
                },
                None => {
                    assert(it.remaining().len() == 0);
                    assert(chars@ =~= text@);
                    break ;
                },
            }
        }
        Source { text, chars }
    }

    pub fn len(&self) -> (n: usize)
        ensures
            n == self@.len(),
    {
        self.chars.len()
    }

    /// The characters from `a` up to `b`, as a string.
    pub fn slice(&self, a: usize, b: usize) -> (t: String)
        requires
            self.wf(),
            a <= b <= self@.len(),
        ensures
            t@ == self@.subrange(a as int, b as int),
    {
        String::from_str(self.text.substring_char(a, b))
    }
}

/// A kind of token that the grammar may ask for.
#[derive(Debug, Clone, Copy, PartialEq, Eq)]
pub enum Token {
    Identifier,
    Number,
    Text,
    OpenParen,
    CloseParen,
    Comma,
    Dot,
    Assign,
    Operator,
    EndOfInput,
}

/// The kinds of token that were looked for at one position and not found.
#[derive(Debug, Clone, Copy, PartialEq, Eq)]
pub struct Expected {
    pub identifier: bool,
    pub number: bool,
    pub text: bool,
    pub open_paren: bool,
    pub close_paren: bool,
    pub comma: bool,
    pub dot: bool,
    pub assign: bool,
    pub operator: bool,
    pub end_of_input: bool,
}

impl Expected {
    pub open spec fn spec_nothing() -> Expected {
        Expected {
            identifier: false,
            number: false,
            text: false,
            open_paren: false,
            close_paren: false,
            comma: false,
            dot: false,
            assign: false,
            operator: false,
            end_of_input: false,
        }
    }

    pub open spec fn spec_with(self, t: Token) -> Expected {
        match t {
            Token::Identifier => Expected { identifier: true, ..self },
            Token::Number => Expected { number: true, ..self },
            Token::Text => Expected { text: true, ..self },
            Token::OpenParen => Expected { open_paren: true, ..self },
            Token::CloseParen => Expected { close_paren: true, ..self },
            Token::Comma => Expected { comma: true, ..self },
            Token::Dot => Expected { dot: true, ..self },
            Token::Assign => Expected { assign: true, ..self },
            Token::Operator => Expected { operator: true, ..self },
            Token::EndOfInput => Expected { end_of_input: true, ..self },
        }
    }

    /// The kinds of either.
    pub open spec fn union(self, o: Expected) -> Expected {
        Expected {
            identifier: self.identifier || o.identifier,
            number: self.number || o.number,
            text: self.text || o.text,
            open_paren: self.open_paren || o.open_paren,
            close_paren: self.close_paren || o.close_paren,
            comma: self.comma || o.comma,
            dot: self.dot || o.dot,
            assign: self.assign || o.assign,
            operator: self.operator || o.operator,
            end_of_input: self.end_of_input || o.end_of_input,
        }
    }

    /// No kind at all.
    pub fn nothing() -> (e: Expected)
        ensures
            e == Expected::spec_nothing(),
    {
        Expected {
            identifier: false,
            number: false,
            text: false,
            open_paren: false,
            close_paren: false,
            comma: false,
            dot: false,
            assign: false,
            operator: false,
            end_of_input: false,
        }
    }

    /// The same kinds and `t`.
    pub fn with(self, t: Token) -> (e: Expected)
        ensures
            e == self.spec_with(t),
    {
        let mut e = self;
        match t {
            Token::Identifier => { e.identifier = true; },
            Token::Number => { e.number = true; },
            Token::Text => { e.text = true; },
            Token::OpenParen => { e.open_paren = true; },
            Token::CloseParen => { e.close_paren = true; },
            Token::Comma => { e.comma = true; },
            Token::Dot => { e.dot = true; },
            Token::Assign => { e.assign = true; },
            Token::Operator => { e.operator = true; },
            Token::EndOfInput => { e.end_of_input = true; },
        }
        e
    }
}

/// The furthest position at which a token was looked for and not found, with
/// the kinds of token that were looked for there.
#[derive(Debug, Clone, Copy, PartialEq, Eq)]
pub struct Furthest {
    pub pos: usize,
    pub expected: Expected,
}

impl Furthest {
    /// The record of a run in which nothing was missed.
    pub open spec fn clean() -> Furthest {
        Furthest { pos: 0, expected: Expected::spec_nothing() }
    }

    /// The record of one token of kind `t` that was not found at `q`.
    pub open spec fn miss(q: int, t: Token) -> Furthest {
        Furthest { pos: q as usize, expected: Expected::spec_nothing().spec_with(t) }
    }

    /// The record of two runs together: the further position, and where
    /// both stopped at the same one, what either looked for there.
    #[verifier::opaque]
    pub open spec fn join(self, o: Furthest) -> Furthest {
        if o.pos > self.pos {
            o
        } else if o.pos == self.pos {
            Furthest { pos: self.pos, expected: self.expected.union(o.expected) }
        } else {
            self
        }
    }

    pub fn new() -> (f: Furthest)
        ensures
            f == Furthest::clean(),
    {
        Furthest { pos: 0, expected: Expected::nothing() }
    }

    pub fn note(&mut self, q: usize, t: Token)
        ensures
            *final(self) == old(self).join(Furthest::miss(q as int, t)),
            final(self).pos == if q > old(self).pos {
                q
            } else {
                old(self).pos
            },
    {
        reveal(Furthest::join);
        if q > self.pos {
            self.pos = q;
            self.expected = Expected::nothing().with(t);
        } else if q == self.pos {
            self.expected = self.expected.with(t);
        }
    }
}

pub fn space(c: char) -> (b: bool)
    ensures
        b == is_space(c),
{
    c == ' ' || c == '\t' || c == '\n' || c == '\r'
}

pub fn digit(c: char) -> (b: bool)
    ensures
        b == is_digit(c),
{
    '0' <= c && c <= '9'
}

pub fn ident_start(c: char) -> (b: bool)
    ensures
        b == is_ident_start(c),
{
    ('a' <= c && c <= 'z') || ('A' <= c && c <= 'Z') || c == '_'
}

pub fn ident_char(c: char) -> (b: bool)
    ensures
        b == is_ident_char(c),
{
    ident_start(c) || digit(c)
}

/// Passes over whitespace from `p` on.
pub fn skip(src: &Source, p: usize) -> (q: usize)
    requires
        p <= src@.len(),
    ensures
        q == spec_skip(src@, p as int),
        p <= q <= src@.len(),
{
    let mut q: usize = p;
    while q < src.chars.len() && space(src.chars[q])
        invariant
            p <= q <= src@.len(),
            spec_skip(src@, q as int) == spec_skip(src@, p as int),
        decreases src@.len() - q,
    {
        q += 1;
    }
    q
}

/// Passes over identifier characters from `p` on.
pub fn ident_end(src: &Source, p: usize) -> (q: usize)
    requires
        p <= src@.len(),
    ensures
        q == spec_ident_end(src@, p as int),
        p <= q <= src@.len(),
{
    let mut q: usize = p;
    while q < src.chars.len() && ident_char(src.chars[q])
        invariant
            p <= q <= src@.len(),
            spec_ident_end(src@, q as int) == spec_ident_end(src@, p as int),
        decreases src@.len() - q,
    {
        q += 1;
    }
    q
}

/// Passes over digits from `p` on.
pub fn digits_end(src: &Source, p: usize) -> (q: usize)
    requires
        p <= src@.len(),
    ensures
        q == spec_digits_end(src@, p as int),
        p <= q <= src@.len(),
{
    let mut q: usize = p;
    while q < src.chars.len() && digit(src.chars[q])
        invariant
            p <= q <= src@.len(),
            spec_digits_end(src@, q as int) == spec_digits_end(src@, p as int),
        decreases src@.len() - q,
    {
        q += 1;
    }
    q
}

/// Looks for the next double quote from `p` on.
pub fn quote_end(src: &Source, p: usize) -> (r: Option<usize>)
    requires
        p <= src@.len(),
    ensures
        r matches Some(q) ==> spec_quote_end(src@, p as int) == Some(q as int) && p < q
            <= src@.len(),
        r is None ==> spec_quote_end(src@, p as int) is None,
{
    let mut q: usize = p;
    while q < src.chars.len() && src.chars[q] != '"'
        invariant
            p <= q <= src@.len(),
            spec_quote_end(src@, q as int) == spec_quote_end(src@, p as int),
        decreases src@.len() - q,
    {
        q += 1;
    }
    if q < src.chars.len() {
        Some(q + 1)
    } else {
        None
    }
}

/// Looks for the character `c` after optional whitespace.
pub fn eat1(src: &Source, p: usize, c: char, kind: Token, far: &mut Furthest) -> (r: Option<
    usize,
>)
    requires
        p <= src@.len(),
    ensures
        r matches Some(q) ==> spec_eat1(src@, p as int, c) == Some(q as int) && p < q
            <= src@.len(),
        r is None ==> spec_eat1(src@, p as int, c) is None,
        *final(far) == far_eat1(src@, p as int, c, kind, *old(far)),
        old(far).pos <= final(far).pos,
        old(far).pos <= src@.len() ==> final(far).pos <= src@.len(),
{
    let q: usize = skip(src, p);
    if q < src.chars.len() && src.chars[q] == c {
        Some(q + 1)
    } else {
        far.note(q, kind);
        None
    }
}

/// Looks for an identifier after optional whitespace.
pub fn ident(src: &Source, p: usize, far: &mut Furthest) -> (r: Option<(usize, usize)>)
    requires
        p <= src@.len(),
    ensures
        r matches Some((a, b)) ==> spec_ident(src@, p as int) == Some((a as int, b as int)) && p
            <= a < b <= src@.len(),
        r is None ==> spec_ident(src@, p as int) is None,
        *final(far) == far_ident(src@, p as int, *old(far)),
        old(far).pos <= final(far).pos,
        old(far).pos <= src@.len() ==> final(far).pos <= src@.len(),
{
    let q: usize = skip(src, p);
    if q < src.chars.len() && ident_start(src.chars[q]) {
        Some((q, ident_end(src, q + 1)))
    } else {
        far.note(q, Token::Identifier);
        None
    }
}

/// Looks for a number after optional whitespace.
pub fn number(src: &Source, p: usize, far: &mut Furthest) -> (r: Option<(usize, usize)>)
    requires
        p <= src@.len(),
    ensures
        r matches Some((a, b)) ==> spec_number(src@, p as int) == Some((a as int, b as int)) && p
            <= a < b <= src@.len(),
        r is None ==> spec_number(src@, p as int) is None,
        *final(far) == far_number(src@, p as int, *old(far)),
        old(far).pos <= final(far).pos,
        old(far).pos <= src@.len() ==> final(far).pos <= src@.len(),
{
    let q: usize = skip(src, p);
    if q < src.chars.len() && digit(src.chars[q]) {
        let e: usize = digits_end(src, q + 1);
        if e < src.chars.len() && src.chars.len() - e >= 2 && src.chars[e] == '.' && digit(
            src.chars[e + 1],
        ) {
            Some((q, digits_end(src, e + 2)))
        } else {
            Some((q, e))
        }
    } else {
        far.note(q, Token::Number);
        None
    }
}

/// Looks for a string literal after optional whitespace. One that is not
/// closed is not found.
pub fn string(src: &Source, p: usize, far: &mut Furthest) -> (r: Option<(usize, usize)>)
    requires
        p <= src@.len(),
    ensures
        r matches Some((a, b)) ==> spec_string(src@, p as int) == Some((a as int, b as int)) && p
            <= a < b <= src@.len(),
        r is None ==> spec_string(src@, p as int) is None,
        *final(far) == far_string(src@, p as int, *old(far)),
        old(far).pos <= final(far).pos,
        old(far).pos <= src@.len() ==> final(far).pos <= src@.len(),
{
    let q: usize = skip(src, p);
    if q < src.chars.len() && src.chars[q] == '"' {
        match quote_end(src, q + 1) {
            Some(e) => Some((q, e)),
            None => {
                far.note(q, Token::Text);
                None
            },
        }
    } else {
        far.note(q, Token::Text);
        None
    }
}

/// The record `f` after a search for the character `c` at `p`.
pub open spec fn far_eat1(s: Seq<char>, p: int, c: char, kind: Token, f: Furthest) -> Furthest {
    if spec_eat1(s, p, c) is Some {
        f
    } else {
        f.join(Furthest::miss(spec_skip(s, p), kind))
    }
}

/// The record `f` after a search for an identifier at `p`.
pub open spec fn far_ident(s: Seq<char>, p: int, f: Furthest) -> Furthest {
    if spec_ident(s, p) is Some {
        f
    } else {
        f.join(Furthest::miss(spec_skip(s, p), Token::Identifier))
    }
}

/// The record `f` after a search for a number at `p`.
pub open spec fn far_number(s: Seq<char>, p: int, f: Furthest) -> Furthest {
    if spec_number(s, p) is Some {
        f
    } else {
        f.join(Furthest::miss(spec_skip(s, p), Token::Number))
    }
}

/// The record `f` after a search for a string literal at `p`.
pub open spec fn far_string(s: Seq<char>, p: int, f: Furthest) -> Furthest {
    if spec_string(s, p) is Some {
        f
    } else {
        f.join(Furthest::miss(spec_skip(s, p), Token::Text))
    }
}

/// The record `f` after a search for a prefix operator at `p`.
pub open spec fn far_monadic_verb(s: Seq<char>, p: int, f: Furthest) -> Furthest {
    if spec_monadic_verb(s, p) is Some {
        f
    } else {
        f.join(Furthest::miss(spec_skip(s, p), Token::Operator))
    }
}

/// The record `f` after a search for an infix operator at `p`.
pub open spec fn far_dyadic_verb(s: Seq<char>, p: int, f: Furthest) -> Furthest {
    if spec_dyadic_verb(s, p) is Some {
        f
    } else {
        f.join(Furthest::miss(spec_skip(s, p), Token::Operator))
    }
}

/// Looks for a prefix operator after optional whitespace.
pub fn monadic_verb(src: &Source, p: usize, far: &mut Furthest) -> (r: Option<
    (MonadicVerb, usize),
>)
    requires
        p <= src@.len(),
        old(far).pos <= src@.len(),
    ensures
        r matches Some((v, q)) ==> spec_monadic_verb(src@, p as int) == Some((v, q as int)) && p
            < q <= src@.len(),
        r is None ==> spec_monadic_verb(src@, p as int) is None,
        *final(far) == far_monadic_verb(src@, p as int, *old(far)),
        old(far).pos <= final(far).pos <= src@.len(),
{
    let q: usize = skip(src, p);
    let n: usize = src.chars.len();
    let mut found: Option<(MonadicVerb, usize)> = None;
    if q < n {
        let c = src.chars[q];
        let twice: bool = n - q >= 2 && src.chars[q + 1] == c;
        if c == '+' && twice {
            found = Some((MonadicVerb::Increment, q + 2));
        } else if c == '-' && twice {
            found = Some((MonadicVerb::Decrement, q + 2));
        } else if c == '-' {
            found = Some((MonadicVerb::Negate, q + 1));
        }
    }
    if found.is_none() {
        far.note(q, Token::Operator);
    }
    found
}

/// Looks for an infix operator after optional whitespace.
pub fn dyadic_verb(src: &Source, p: usize, far: &mut Furthest) -> (r: Option<(DyadicVerb, usize)>)
    requires
        p <= src@.len(),
        old(far).pos <= src@.len(),
    ensures
        r matches Some((v, q)) ==> spec_dyadic_verb(src@, p as int) == Some((v, q as int)) && p
            < q <= src@.len(),
        r is None ==> spec_dyadic_verb(src@, p as int) is None,
        *final(far) == far_dyadic_verb(src@, p as int, *old(far)),
        old(far).pos <= final(far).pos <= src@.len(),
{
    let q: usize = skip(src, p);
    let n: usize = src.chars.len();
    let mut found: Option<(DyadicVerb, usize)> = None;
    if q < n {
        let c = src.chars[q];
        let equals: bool = n - q >= 2 && src.chars[q + 1] == '=';
        if c == '=' && equals {
            found = Some((DyadicVerb::Equal, q + 2));
        } else if c == '<' && equals {
            found = Some((DyadicVerb::LessThanOrEqual, q + 2));
        } else if c == '>' && equals {
            found = Some((DyadicVerb::GreaterThanOrEqual, q + 2));
        } else if c == '<' {
            found = Some((DyadicVerb::LessThan, q + 1));
        } else if c == '>' {
            found = Some((DyadicVerb::GreaterThan, q + 1));
        } else if c == '+' {
            found = Some((DyadicVerb::Add, q + 1));
        } else if c == '-' {
            found = Some((DyadicVerb::Subtract, q + 1));
        } else if c == '*' {
            found = Some((DyadicVerb::Multiply, q + 1));
        } else if c == '/' {
            found = Some((DyadicVerb::Divide, q + 1));
        }
    }
    if found.is_none() {
        far.note(q, Token::Operator);
    }
    found
}

} // verus!
