use vstd::prelude::*;

verus! {

/// A numeric literal, kept as the decimal text that was written: one or more
/// digits, optionally followed by a dot and one or more digits.
#[derive(PartialEq, Debug, Clone)]
pub struct NumberLiteral(pub String);

/// A string literal, verbatim, with its surrounding quotes.
#[derive(PartialEq, Debug, Clone)]
pub struct StringLiteral(pub String);

/// The name of an identifier.
#[derive(PartialEq, Debug, Clone)]
pub struct IdentifierLiteral(pub String);

/// A literal or a name.
#[derive(PartialEq, Debug, Clone)]
pub enum Value {
    NumberLiteral(NumberLiteral),
    StringLiteral(StringLiteral),
    IdentifierLiteral(IdentifierLiteral),
}

/// A call by name on plain values.
pub struct Call {
    pub name: IdentifierLiteral,
    pub arguments: Vec<Value>,
}

/// Prefix operators.
#[derive(PartialEq, Eq, Debug, Clone, Copy)]
pub enum MonadicVerb {
    Negate,
    Increment,
    Decrement,
}

/// A prefix operator applied to an expression.
#[derive(PartialEq, Debug, Clone)]
pub struct Monadic {
    pub verb: MonadicVerb,
    pub value: Box<AstNode>,
}

/// Infix operators. `Assign` is never produced by the parser: an assignment
/// is a node of its own.
#[derive(PartialEq, Eq, Debug, Clone, Copy)]
pub enum DyadicVerb {
    Assign,
    Equal,
    LessThan,
    LessThanOrEqual,
    GreaterThan,
    GreaterThanOrEqual,
    Add,
    Subtract,
    Multiply,
    Divide,
}

/// An infix operator applied to two operands.
#[derive(PartialEq, Debug, Clone)]
pub struct Dyadic {
    pub verb: DyadicVerb,
    pub left: Box<AstNode>,
    pub right: Box<AstNode>,
}

/// A callee with its arguments.
#[derive(PartialEq, Debug, Clone)]
pub struct FunctionCall {
    pub reference: Box<AstNode>,
    pub arguments: Vec<AstNode>,
}

/// A node of the syntax tree.
#[derive(PartialEq, Debug)]
pub enum AstNode {
    /// The decimal text of a number.
    NumberLiteral(String),
    /// A quoted string, quotes included.
    StringLiteral(String),
    /// A bare name.
    IdentifierLiteral(String),
    Monadic(Monadic),
    Dyadic(Dyadic),
    /// `f(a, b)`: the callee and its arguments.
    FunctionCall(Box<AstNode>, Vec<AstNode>),
    /// Two or more terms written side by side.
    Terms(Vec<AstNode>),
    /// `name = value`.
    Assignment(IdentifierLiteral, Box<AstNode>),
    /// `head.member` or `head.member(a, b)`: the head, then the member as an
    /// identifier node followed by the arguments.
    Item(IdentifierLiteral, Vec<AstNode>),
    Call(Box<AstNode>, Vec<AstNode>),
}

/// The mathematical model of a syntax tree.
pub enum Node {
    Number(Seq<char>),
    Text(Seq<char>),
    Ident(Seq<char>),
    Monadic(MonadicVerb, Box<Node>),
    Dyadic(DyadicVerb, Box<Node>, Box<Node>),
    FunctionCall(Box<Node>, Seq<Node>),
    Terms(Seq<Node>),
    Assignment(Seq<char>, Box<Node>),
    Item(Seq<char>, Seq<Node>),
    Call(Box<Node>, Seq<Node>),
}

impl Node {
    /// No juxtaposition anywhere in the tree has fewer than two terms.
    pub open spec fn well_formed(self) -> bool
        decreases self,
    {
        match self {
            Node::Number(_) => true,
            Node::Text(_) => true,
            Node::Ident(_) => true,
            Node::Monadic(_, v) => v.well_formed(),
            Node::Dyadic(_, l, r) => l.well_formed() && r.well_formed(),
            Node::FunctionCall(f, args) => f.well_formed() && forall|i: int|
                0 <= i < args.len() ==> (#[trigger] args[i]).well_formed(),
            Node::Terms(ts) => ts.len() >= 2 && forall|i: int|
                0 <= i < ts.len() ==> (#[trigger] ts[i]).well_formed(),
            Node::Assignment(_, v) => v.well_formed(),
            Node::Item(_, args) => forall|i: int|
                0 <= i < args.len() ==> (#[trigger] args[i]).well_formed(),
            Node::Call(f, args) => f.well_formed() && forall|i: int|
                0 <= i < args.len() ==> (#[trigger] args[i]).well_formed(),
        }
    }
}

/// The models of a vector of nodes, in order.
pub open spec fn view_nodes(v: Vec<AstNode>) -> Seq<Node>
    decreases v, 1int,
{
    Seq::new(v.len() as nat, |i: int| if 0 <= i < v.len() { v[i].view() } else { arbitrary() })
}

impl View for AstNode {
    type V = Node;

    open spec fn view(&self) -> Node
        decreases *self, 0int,
    {
        match *self {
            AstNode::NumberLiteral(t) => Node::Number(t@),
            AstNode::StringLiteral(t) => Node::Text(t@),
            AstNode::IdentifierLiteral(t) => Node::Ident(t@),
            AstNode::Monadic(m) => Node::Monadic(m.verb, Box::new((*m.value).view())),
            AstNode::Dyadic(d) => Node::Dyadic(
                d.verb,
                Box::new((*d.left).view()),
                Box::new((*d.right).view()),
            ),
            AstNode::FunctionCall(f, args) => Node::FunctionCall(
                Box::new((*f).view()),
                view_nodes(args),
            ),
            AstNode::Terms(ts) => Node::Terms(view_nodes(ts)),
            AstNode::Assignment(name, v) => Node::Assignment(name.0@, Box::new((*v).view())),
            AstNode::Item(head, args) => Node::Item(head.0@, view_nodes(args)),
            AstNode::Call(f, args) => Node::Call(Box::new((*f).view()), view_nodes(args)),
        }
    }
}

/// A copy of each node of `v`, in order.
pub fn clone_nodes(v: &Vec<AstNode>) -> (r: Vec<AstNode>)
    ensures
        view_nodes(r) == view_nodes(*v),
    decreases *v, 1int,
{
    let mut r: Vec<AstNode> = Vec::new();
    let mut i: usize = 0;
    while i < v.len()
        invariant
            i <= v.len(),
            r.len() == i,
            forall|j: int| 0 <= j < i ==> (#[trigger] r[j])@ == v[j]@,
        decreases v.len() - i,
    {
        let n = v[i].clone();
        r.push(n);
        i += 1;
    }
    assert(view_nodes(r) =~= view_nodes(*v));
    r
}

impl Clone for AstNode {
    /// A copy with the same model.
    fn clone(&self) -> (r: AstNode)
        ensures
            r@ == self@,
        decreases *self, 0int,
    {
        match self {
            AstNode::NumberLiteral(t) => AstNode::NumberLiteral(t.clone()),
            AstNode::StringLiteral(t) => AstNode::StringLiteral(t.clone()),
            AstNode::IdentifierLiteral(t) => AstNode::IdentifierLiteral(t.clone()),
            AstNode::Monadic(m) => AstNode::Monadic(
                Monadic { verb: m.verb, value: Box::new((*m.value).clone()) },
            ),
            AstNode::Dyadic(d) => AstNode::Dyadic(
                Dyadic {
                    verb: d.verb,
                    left: Box::new((*d.left).clone()),
                    right: Box::new((*d.right).clone()),
                },
            ),
            AstNode::FunctionCall(f, args) => AstNode::FunctionCall(
                Box::new((**f).clone()),
                clone_nodes(args),
            ),
            AstNode::Terms(ts) => AstNode::Terms(clone_nodes(ts)),
            AstNode::Assignment(name, v) => AstNode::Assignment(
                IdentifierLiteral(name.0.clone()),
                Box::new((**v).clone()),
            ),
            AstNode::Item(head, args) => AstNode::Item(
                IdentifierLiteral(head.0.clone()),
                clone_nodes(args),
            ),
            AstNode::Call(f, args) => AstNode::Call(Box::new((**f).clone()), clone_nodes(args)),
        }
    }
}

} // verus!
