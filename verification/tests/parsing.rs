use flora::diagnostic::ParseError;
use flora::parser::{
    dyadic_verb_from_text, monadic_verb_from_text, parse, parse_dyadic_verb, parse_monadic_verb,
};
use flora::types::{AstNode, Dyadic, DyadicVerb, IdentifierLiteral, Monadic, MonadicVerb};

fn num(text: &str) -> AstNode {
    AstNode::NumberLiteral(text.to_string())
}

fn id(text: &str) -> AstNode {
    AstNode::IdentifierLiteral(text.to_string())
}

fn text(t: &str) -> AstNode {
    AstNode::StringLiteral(t.to_string())
}

fn name(t: &str) -> IdentifierLiteral {
    IdentifierLiteral(t.to_string())
}

fn monadic(verb: MonadicVerb, value: AstNode) -> AstNode {
    AstNode::Monadic(Monadic { verb, value: Box::new(value) })
}

fn dyadic(verb: DyadicVerb, left: AstNode, right: AstNode) -> AstNode {
    AstNode::Dyadic(Dyadic { verb, left: Box::new(left), right: Box::new(right) })
}

fn call(callee: &str, arguments: Vec<AstNode>) -> AstNode {
    AstNode::FunctionCall(Box::new(id(callee)), arguments)
}

fn value_of(node: &AstNode) -> f64 {
    match node {
        AstNode::NumberLiteral(t) => t.parse::<f64>().unwrap(),
        other => panic!("not a number: {:?}", other),
    }
}

fn failure(source: &str) -> ParseError {
    match parse(source) {
        Ok(ast) => panic!("parsed: {:?}", ast),
        Err(e) => e,
    }
}

#[test]
fn adds_two_numbers() {
    let ast = parse("1 + 2").unwrap();
    assert_eq!(ast, vec![dyadic(DyadicVerb::Add, num("1"), num("2"))]);
    match &ast[0] {
        AstNode::Dyadic(d) => {
            assert_eq!(value_of(&d.left), 1.0);
            assert_eq!(value_of(&d.right), 2.0);
        }
        other => panic!("not dyadic: {:?}", other),
    }
}

#[test]
fn assigns_a_number() {
    let ast = parse("x = 3").unwrap();
    assert_eq!(ast, vec![AstNode::Assignment(name("x"), Box::new(num("3")))]);
    match &ast[0] {
        AstNode::Assignment(_, v) => assert_eq!(value_of(v), 3.0),
        other => panic!("not an assignment: {:?}", other),
    }
}

#[test]
fn negates_a_number() {
    let ast = parse("-5").unwrap();
    assert_eq!(ast, vec![monadic(MonadicVerb::Negate, num("5"))]);
    match &ast[0] {
        AstNode::Monadic(m) => assert_eq!(value_of(&m.value), 5.0),
        other => panic!("not monadic: {:?}", other),
    }
}

#[test]
fn calls_with_two_arguments() {
    assert_eq!(parse("f(1, 2)").unwrap(), vec![call("f", vec![num("1"), num("2")])]);
}

#[test]
fn item_with_argument() {
    assert_eq!(
        parse("io.print(\"hi\")").unwrap(),
        vec![AstNode::Item(name("io"), vec![id("print"), text("\"hi\"")])]
    );
}

#[test]
fn item_without_arguments() {
    assert_eq!(
        parse("io.system_name").unwrap(),
        vec![AstNode::Item(name("io"), vec![id("system_name")])]
    );
    assert_eq!(parse("io.flush()").unwrap(), vec![AstNode::Item(name("io"), vec![id("flush")])]);
}

#[test]
fn item_with_unclosed_arguments_keeps_the_bare_item() {
    let e = failure("io.print(1");
    assert_eq!(e.offset, 10);
    assert!(e.expected.close_paren);
    assert!(e.expected.comma);
}

#[test]
fn juxtaposes_three_identifiers() {
    assert_eq!(parse("a b c").unwrap(), vec![AstNode::Terms(vec![id("a"), id("b"), id("c")])]);
}

#[test]
fn dangling_operator_fails_past_the_operator() {
    let e = failure("1 +");
    assert_eq!(e.offset, 3);
    assert_eq!(e.line, 1);
    assert_eq!(e.column, 4);
    assert_eq!(e.snippet, "1 +");
    assert!(e.expected.number);
    assert!(e.expected.identifier);
    assert!(e.expected.text);
    assert!(e.expected.open_paren);
    assert!(e.expected.operator);
    assert!(!e.expected.comma);
}

#[test]
fn every_monadic_verb() {
    assert_eq!(parse("-x").unwrap(), vec![monadic(MonadicVerb::Negate, id("x"))]);
    assert_eq!(parse("++x").unwrap(), vec![monadic(MonadicVerb::Increment, id("x"))]);
    assert_eq!(parse("--x").unwrap(), vec![monadic(MonadicVerb::Decrement, id("x"))]);
}

#[test]
fn every_dyadic_verb() {
    let cases = [
        ("a + b", DyadicVerb::Add),
        ("a - b", DyadicVerb::Subtract),
        ("a * b", DyadicVerb::Multiply),
        ("a / b", DyadicVerb::Divide),
        ("a == b", DyadicVerb::Equal),
        ("a < b", DyadicVerb::LessThan),
        ("a <= b", DyadicVerb::LessThanOrEqual),
        ("a > b", DyadicVerb::GreaterThan),
        ("a >= b", DyadicVerb::GreaterThanOrEqual),
    ];
    for (source, verb) in cases {
        assert_eq!(parse(source).unwrap(), vec![dyadic(verb, id("a"), id("b"))]);
    }
}

#[test]
fn call_without_arguments() {
    assert_eq!(parse("f()").unwrap(), vec![call("f", vec![])]);
    assert_eq!(parse("f ( )").unwrap(), vec![call("f", vec![])]);
}

#[test]
fn nested_calls() {
    assert_eq!(
        parse("f(g(1), h())").unwrap(),
        vec![call("f", vec![call("g", vec![num("1")]), call("h", vec![])])]
    );
}

#[test]
fn assignment_of_a_sum() {
    assert_eq!(
        parse("x = y + 1").unwrap(),
        vec![AstNode::Assignment(
            name("x"),
            Box::new(dyadic(DyadicVerb::Add, id("y"), num("1")))
        )]
    );
}

#[test]
fn equality_is_not_assignment() {
    assert_eq!(parse("x == y").unwrap(), vec![dyadic(DyadicVerb::Equal, id("x"), id("y"))]);
}

#[test]
fn dyadic_takes_two_operands_only() {
    let e = failure("1 + 2 + 3");
    assert_eq!(e.offset, 6);
}

#[test]
fn operand_may_be_monadic_or_call() {
    assert_eq!(
        parse("a - -b").unwrap(),
        vec![dyadic(DyadicVerb::Subtract, id("a"), monadic(MonadicVerb::Negate, id("b")))]
    );
    assert_eq!(
        parse("f(1) * g(2)").unwrap(),
        vec![dyadic(DyadicVerb::Multiply, call("f", vec![num("1")]), call("g", vec![num("2")]))]
    );
}

#[test]
fn monadic_applies_to_the_whole_expression() {
    assert_eq!(
        parse("-a + b").unwrap(),
        vec![monadic(MonadicVerb::Negate, dyadic(DyadicVerb::Add, id("a"), id("b")))]
    );
}

#[test]
fn parentheses_stand_for_their_expression() {
    assert_eq!(parse("(1)").unwrap(), vec![num("1")]);
    assert_eq!(
        parse("(1 + 2) (3)").unwrap(),
        vec![AstNode::Terms(vec![dyadic(DyadicVerb::Add, num("1"), num("2")), num("3")])]
    );
    assert_eq!(
        parse("(a + b) * c").unwrap(),
        vec![dyadic(DyadicVerb::Multiply, dyadic(DyadicVerb::Add, id("a"), id("b")), id("c"))]
    );
}

#[test]
fn single_term_is_not_wrapped() {
    assert_eq!(parse("a").unwrap(), vec![id("a")]);
    assert_eq!(parse("42").unwrap(), vec![num("42")]);
    assert_eq!(parse("\"s\"").unwrap(), vec![text("\"s\"")]);
}

fn terms_are_long(node: &AstNode) -> bool {
    match node {
        AstNode::NumberLiteral(_) | AstNode::StringLiteral(_) | AstNode::IdentifierLiteral(_) => {
            true
        }
        AstNode::Monadic(m) => terms_are_long(&m.value),
        AstNode::Dyadic(d) => terms_are_long(&d.left) && terms_are_long(&d.right),
        AstNode::FunctionCall(f, args) | AstNode::Call(f, args) => {
            terms_are_long(f) && args.iter().all(terms_are_long)
        }
        AstNode::Terms(ts) => ts.len() >= 2 && ts.iter().all(terms_are_long),
        AstNode::Assignment(_, v) => terms_are_long(v),
        AstNode::Item(_, args) => args.iter().all(terms_are_long),
    }
}

#[test]
fn juxtapositions_hold_two_terms_or_more() {
    for source in ["a", "a b", "f(a, b c, (d))", "x = (a) (b) c", "-(a)", "io.put(a b, c)"] {
        let ast = parse(source).unwrap();
        assert!(ast.iter().all(terms_are_long), "{}", source);
    }
}

#[test]
fn number_with_fraction() {
    let ast = parse("3.25").unwrap();
    assert_eq!(ast, vec![num("3.25")]);
    assert_eq!(value_of(&ast[0]), 3.25);
}

#[test]
fn number_needs_digits_after_the_dot() {
    let e = failure("3.");
    assert_eq!(e.offset, 1);
    assert!(e.expected.end_of_input);
}

#[test]
fn string_keeps_quotes_spaces_and_other_scripts() {
    assert_eq!(parse("\"a  b\"").unwrap(), vec![text("\"a  b\"")]);
    assert_eq!(parse("x = \"héllo wörld\"").unwrap(), vec![AstNode::Assignment(
        name("x"),
        Box::new(text("\"héllo wörld\""))
    )]);
    assert_eq!(parse("\"\"").unwrap(), vec![text("\"\"")]);
}

#[test]
fn unclosed_string_fails() {
    let e = failure("\"abc");
    assert_eq!(e.offset, 0);
    assert!(e.expected.text);
}

#[test]
fn identifier_shapes() {
    assert_eq!(parse("_a1").unwrap(), vec![id("_a1")]);
    assert_eq!(parse("1a").unwrap(), vec![AstNode::Terms(vec![num("1"), id("a")])]);
}

#[test]
fn empty_and_blank_sources() {
    assert_eq!(parse("").unwrap(), vec![]);
    assert_eq!(parse(" \t\r\n ").unwrap(), vec![]);
}

#[test]
fn several_expressions() {
    assert_eq!(parse("f() g()").unwrap(), vec![call("f", vec![]), call("g", vec![])]);
    assert_eq!(
        parse("x = 1 ++y").unwrap(),
        vec![
            AstNode::Assignment(name("x"), Box::new(num("1"))),
            monadic(MonadicVerb::Increment, id("y")),
        ]
    );
}

#[test]
fn line_feeds_do_not_end_an_expression() {
    assert_eq!(parse("a\nb").unwrap(), vec![AstNode::Terms(vec![id("a"), id("b")])]);
}

#[test]
fn whitespace_between_tokens_does_not_matter() {
    let pairs = [
        ("1+2", " 1 \t+\n 2 "),
        ("x=3", "x\n=\r\n3"),
        ("f(1,2)", "f ( 1 , 2 )"),
        ("io.print(\"a b\")", "io . print ( \"a b\" )"),
        ("x=y<=1", "x = y <= 1"),
        ("-5", " - 5"),
    ];
    for (tight, loose) in pairs {
        assert_eq!(parse(tight).unwrap(), parse(loose).unwrap());
    }
}

#[test]
fn whitespace_inside_a_string_matters() {
    assert_ne!(parse("\"a b\"").unwrap(), parse("\"a  b\"").unwrap());
}

#[test]
fn parsing_twice_gives_the_same() {
    for source in ["1 + 2", "a b c", "f(1, 2", "1 +", "", ")"] {
        assert_eq!(parse(source), parse(source));
    }
}

#[test]
fn malformed_inputs() {
    assert_eq!(failure("x =").offset, 3);
    assert_eq!(failure("f(1,").offset, 4);
    assert_eq!(failure("f(1 2").offset, 5);
    assert_eq!(failure("io.").offset, 3);
    assert_eq!(failure("(1").offset, 2);
    assert_eq!(failure(")").offset, 0);
    assert_eq!(failure("++").offset, 2);
    assert_eq!(failure("a $ b").offset, 2);
}

#[test]
fn error_names_line_column_and_snippet() {
    let e = failure("x = 1 +\n(y");
    assert_eq!(e.offset, 10);
    assert_eq!(e.line, 2);
    assert_eq!(e.column, 3);
    assert_eq!(e.snippet, "(y");
    assert!(e.expected.close_paren);
    let e = failure("a\n  b $ c\nd");
    assert_eq!((e.line, e.column), (2, 5));
    assert_eq!(e.snippet, "  b $ c");
    assert!(e.expected.end_of_input);
}

#[test]
fn verbs_from_text() {
    assert_eq!(monadic_verb_from_text("-"), Some(MonadicVerb::Negate));
    assert_eq!(monadic_verb_from_text("++"), Some(MonadicVerb::Increment));
    assert_eq!(monadic_verb_from_text("--"), Some(MonadicVerb::Decrement));
    assert_eq!(monadic_verb_from_text("+"), None);
    assert_eq!(monadic_verb_from_text(""), None);
    assert_eq!(dyadic_verb_from_text("+"), Some(DyadicVerb::Add));
    assert_eq!(dyadic_verb_from_text("-"), Some(DyadicVerb::Subtract));
    assert_eq!(dyadic_verb_from_text("*"), Some(DyadicVerb::Multiply));
    assert_eq!(dyadic_verb_from_text("/"), Some(DyadicVerb::Divide));
    assert_eq!(dyadic_verb_from_text("=="), Some(DyadicVerb::Equal));
    assert_eq!(dyadic_verb_from_text("<"), Some(DyadicVerb::LessThan));
    assert_eq!(dyadic_verb_from_text("<="), Some(DyadicVerb::LessThanOrEqual));
    assert_eq!(dyadic_verb_from_text(">"), Some(DyadicVerb::GreaterThan));
    assert_eq!(dyadic_verb_from_text(">="), Some(DyadicVerb::GreaterThanOrEqual));
    assert_eq!(dyadic_verb_from_text("="), None);
    assert_eq!(dyadic_verb_from_text("++"), None);
}

#[test]
fn nodes_from_verb_text() {
    assert_eq!(parse_monadic_verb("--", id("x")), monadic(MonadicVerb::Decrement, id("x")));
    assert_eq!(
        parse_dyadic_verb(">=", id("x"), num("1")),
        dyadic(DyadicVerb::GreaterThanOrEqual, id("x"), num("1"))
    );
}

#[test]
fn whitespace_around_a_text_does_not_matter() {
    for source in ["1 + 2", "x = f(a, \"b c\")", "a b c", "io.print(\"hi\")", ""] {
        let plain = parse(source).unwrap();
        assert_eq!(parse(&format!(" \t\r\n{}", source)).unwrap(), plain);
        assert_eq!(parse(&format!("{}\n \t", source)).unwrap(), plain);
        assert_eq!(parse(&format!("\n\n{}  ", source)).unwrap(), plain);
    }
    assert!(parse("  1 +").is_err());
    assert!(parse("1 +  ").is_err());
}

#[test]
fn removing_whitespace_may_join_tokens() {
    assert_eq!(parse("a b").unwrap(), vec![AstNode::Terms(vec![id("a"), id("b")])]);
    assert_eq!(parse("ab").unwrap(), vec![id("ab")]);
}

#[test]
fn operators_are_read_greedily() {
    assert_eq!(
        parse("a--b").unwrap(),
        vec![dyadic(DyadicVerb::Subtract, id("a"), monadic(MonadicVerb::Negate, id("b")))]
    );
    assert_eq!(
        parse("a<=b").unwrap(),
        vec![dyadic(DyadicVerb::LessThanOrEqual, id("a"), id("b"))]
    );
    assert!(parse("a < = b").is_err());
}

#[test]
fn clone_gives_an_equal_tree() {
    for source in ["x = f(a, -b) + 1", "io.print(\"hi\", 2.5)", "a (b c) d"] {
        let ast = parse(source).unwrap();
        let copy: Vec<AstNode> = ast.iter().map(|n| n.clone()).collect();
        assert_eq!(copy, ast);
    }
}

#[test]
fn the_furthest_miss_is_reported() {
    let e = failure("f(1, 2");
    assert_eq!(e.offset, 6);
    assert!(e.expected.comma);
    assert!(e.expected.close_paren);
    assert!(e.expected.operator);
    assert!(!e.expected.end_of_input);
    let e = failure("x = ");
    assert_eq!((e.offset, e.line, e.column), (4, 1, 5));
    assert_eq!(e.snippet, "x = ");
}
