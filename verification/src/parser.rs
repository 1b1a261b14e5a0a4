//! The recursive-descent parser: a forward-only cursor over the token
//! sequence, building one abstract syntax tree node per statement.
//!
//! Grammar, lowest to highest precedence, all binary operators
//! left-associative:
//! ```text
//! program    := (statement terminator)*
//! statement  := addExpr
//! addExpr    := mulExpr (('+'|'-') mulExpr)*
//! mulExpr    := powExpr (('*'|'/') powExpr)*
//! powExpr    := term ('^' term)*
//! term       := NUMBER | IDENT | IDENT '=' statement
//!             | ('+'|'-') term | '(' statement ')'
//! ```
//! Assignment is recognized at `term` level: an identifier immediately
//! followed by `=` opens an assignment whose right-hand side is a full
//! statement, so assignment is right-associative and usable as a
//! sub-expression.  The spec functions `sp_term` .. `sp_stmts` are the
//! functional model the executable parser is proved to implement.
use vstd::prelude::*;

verus! {

use crate::lexer::{Token, TokenV, Tokens, spec_peek};
use crate::numeric::{
    decimal_to_bits,
    float_of_decimal,
    is_digit_or_dot,
    spec_valid_number,
};

/// An arithmetic operator, unary (`Plus` as identity, `Minus` as negation)
/// or binary.
#[derive(Clone, Copy, PartialEq, Eq, Structural, Debug)]
pub enum Operator {
    Plus,
    Minus,
    Multiply,
    Divide,
    Power,
}

/// The ghost mirror of a [`Node`]: names as character sequences, numbers
/// as double bit patterns.
pub enum NodeV {
    Num(u64),
    Ident(Seq<char>),
    UnaryExpr { op: Operator, value: Box<NodeV> },
    BinaryExpr { op: Operator, left: Box<NodeV>, right: Box<NodeV> },
    AssignExpr { name: Seq<char>, value: Box<NodeV> },
}

/// One node of the abstract syntax tree.  Each node exclusively owns its
/// children; an assignment's target carries the identifier's name, so an
/// assignment to anything but an identifier cannot be constructed.
#[derive(Debug)]
pub enum Node {
    Num(u64),
    Ident(String),
    UnaryExpr { op: Operator, value: Box<Node> },
    BinaryExpr { op: Operator, left: Box<Node>, right: Box<Node> },
    AssignExpr { name: String, value: Box<Node> },
}

/// The ghost mirror of a node.
pub open spec fn node_view(n: Node) -> NodeV
    decreases n,
{
    match n {
        Node::Num(b) => NodeV::Num(b),
        Node::Ident(s) => NodeV::Ident(s@),
        Node::UnaryExpr { op, value } => NodeV::UnaryExpr {
            op,
            value: Box::new(node_view(*value)),
        },
        Node::BinaryExpr { op, left, right } => NodeV::BinaryExpr {
            op,
            left: Box::new(node_view(*left)),
            right: Box::new(node_view(*right)),
        },
        Node::AssignExpr { name, value } => NodeV::AssignExpr {
            name: name@,
            value: Box::new(node_view(*value)),
        },
    }
}

impl DeepView for Node {
    type V = NodeV;

    open spec fn deep_view(&self) -> NodeV {
        node_view(*self)
    }
}

fn clone_node(n: &Node) -> (r: Node)
    ensures
        r.deep_view() == n.deep_view(),
    decreases n,
{
    match n {
        Node::Num(b) => Node::Num(*b),
        Node::Ident(s) => Node::Ident(s.clone()),
        Node::UnaryExpr { op, value } => Node::UnaryExpr {
            op: *op,
            value: Box::new(clone_node(&**value)),
        },
        Node::BinaryExpr { op, left, right } => Node::BinaryExpr {
            op: *op,
            left: Box::new(clone_node(&**left)),
            right: Box::new(clone_node(&**right)),
        },
        Node::AssignExpr { name, value } => Node::AssignExpr {
            name: name.clone(),
            value: Box::new(clone_node(&**value)),
        },
    }
}

impl Clone for Node {
    fn clone(&self) -> (r: Self)
        ensures
            r.deep_view() == self.deep_view(),
    {
        clone_node(self)
    }
}

impl Node {
    /// A binary expression node over `left` and `right`.
    fn make_binary_expr(op: Operator, left: Node, right: Node) -> (r: Node)
        ensures
            r.deep_view() == (NodeV::BinaryExpr {
                op,
                left: Box::new(left.deep_view()),
                right: Box::new(right.deep_view()),
            }),
    {
        Node::BinaryExpr { op, left: Box::new(left), right: Box::new(right) }
    }
}

/// The ghost mirror of a [`ParseError`].
pub enum ParseErrorV {
    UnexpectedToken(TokenV),
    NumberFormat(Seq<char>),
    InvalidOperator(TokenV),
    UnclosedParenthesis,
    EmptyParenthesis,
}

/// Why parsing a line failed.  Every error aborts the whole line: no
/// partial syntax tree is kept.
#[derive(Debug)]
pub enum ParseError {
    /// A token where the grammar allows none such, including a missing
    /// statement separator and a parenthesis closed with more than the
    /// grammar allows.
    UnexpectedToken(Token),
    /// A numeric literal whose text does not convert to a double.
    NumberFormat(String),
    /// A token that is no operator reached operator construction;
    /// defensive, unreachable through the grammar above.
    InvalidOperator(Token),
    /// The input ended inside a parenthesized expression.
    UnclosedParenthesis,
    /// A `)` where an expression was expected.
    EmptyParenthesis,
}

impl DeepView for ParseError {
    type V = ParseErrorV;

    open spec fn deep_view(&self) -> ParseErrorV {
        match self {
            ParseError::UnexpectedToken(t) => ParseErrorV::UnexpectedToken(t@),
            ParseError::NumberFormat(s) => ParseErrorV::NumberFormat(s@),
            ParseError::InvalidOperator(t) => ParseErrorV::InvalidOperator(t@),
            ParseError::UnclosedParenthesis => ParseErrorV::UnclosedParenthesis,
            ParseError::EmptyParenthesis => ParseErrorV::EmptyParenthesis,
        }
    }
}

impl Operator {
    /// The operator a token denotes, or `InvalidOperator` for any token
    /// that denotes none.
    pub fn from(token: Token) -> (r: Result<Operator, ParseError>)
        ensures
            match r {
                Ok(op) => spec_operator_from(token@) == Ok::<Operator, ParseErrorV>(op),
                Err(e) => spec_operator_from(token@) == Err::<Operator, ParseErrorV>(
                    e.deep_view(),
                ),
            },
    {
        match token {
            Token::Plus => Ok(Operator::Plus),
            Token::Minus => Ok(Operator::Minus),
            Token::Divide => Ok(Operator::Divide),
            Token::Multiply => Ok(Operator::Multiply),
            Token::Power => Ok(Operator::Power),
            any => Err(ParseError::InvalidOperator(any)),
        }
    }
}

/// The operator a token denotes.
pub open spec fn spec_operator_from(t: TokenV) -> Result<Operator, ParseErrorV> {
    match t {
        TokenV::Plus => Ok(Operator::Plus),
        TokenV::Minus => Ok(Operator::Minus),
        TokenV::Divide => Ok(Operator::Divide),
        TokenV::Multiply => Ok(Operator::Multiply),
        TokenV::Power => Ok(Operator::Power),
        _ => Err(ParseErrorV::InvalidOperator(t)),
    }
}

/// The cursor position after consuming one token; at the end it stays put.
pub open spec fn spec_adv(toks: Seq<TokenV>, p: int) -> int {
    if p < toks.len() {
        p + 1
    } else {
        p
    }
}

/// Parses a `term` at position `p`: a number, an identifier or an
/// assignment it opens, a unary `+`/`-`, or a parenthesized statement.
/// On success, the node and the position after it.
pub open spec fn sp_term(toks: Seq<TokenV>, p: int) -> Result<(NodeV, int), ParseErrorV>
    decreases toks.len() - p, 0int
        when 0 <= p <= toks.len()
{
    let t = spec_peek(toks, p);
    let p1 = spec_adv(toks, p);
    match t {
        TokenV::Number(txt) => if !spec_valid_number(txt) {
            Err(ParseErrorV::NumberFormat(txt))
        } else {
            Ok((NodeV::Num(float_of_decimal(txt)), p1))
        },
        TokenV::Identifier(name) => if spec_peek(toks, p1) == TokenV::Assign {
            match sp_node(toks, spec_adv(toks, p1)) {
                Ok((v, p3)) => Ok(
                    (NodeV::AssignExpr { name, value: Box::new(v) }, p3),
                ),
                Err(e) => Err(e),
            }
        } else {
            Ok((NodeV::Ident(name), p1))
        },
        TokenV::Minus => match sp_term(toks, p1) {
            Ok((v, p2)) => Ok((NodeV::UnaryExpr { op: Operator::Minus, value: Box::new(v) }, p2)),
            Err(e) => Err(e),
        },
        TokenV::Plus => match sp_term(toks, p1) {
            Ok((v, p2)) => Ok((NodeV::UnaryExpr { op: Operator::Plus, value: Box::new(v) }, p2)),
            Err(e) => Err(e),
        },
        TokenV::LParen => match sp_node(toks, p1) {
            Ok((inner, p2)) => {
                let t2 = spec_peek(toks, p2);
                if t2 == TokenV::RParen {
                    Ok((inner, spec_adv(toks, p2)))
                } else if t2 == TokenV::EndOfInput {
                    Err(ParseErrorV::UnclosedParenthesis)
                } else {
                    Err(ParseErrorV::UnexpectedToken(t2))
                }
            },
            Err(e) => Err(e),
        },
        TokenV::RParen => Err(ParseErrorV::EmptyParenthesis),
        _ => Err(ParseErrorV::UnexpectedToken(t)),
    }
}

/// Parses the `('^' term)*` tail of a power expression, folding left onto
/// `left`.
pub open spec fn sp_pow_rest(toks: Seq<TokenV>, p: int, left: NodeV) -> Result<
    (NodeV, int),
    ParseErrorV,
>
    decreases toks.len() - p, 1int
        when 0 <= p <= toks.len()
{
    let t = spec_peek(toks, p);
    if t == TokenV::Power {
        match sp_term(toks, spec_adv(toks, p)) {
            Ok((right, p2)) => if p < p2 <= toks.len() {
                sp_pow_rest(
                    toks,
                    p2,
                    NodeV::BinaryExpr {
                        op: Operator::Power,
                        left: Box::new(left),
                        right: Box::new(right),
                    },
                )
            } else {
                Err(ParseErrorV::InvalidOperator(t))
            },
            Err(e) => Err(e),
        }
    } else {
        Ok((left, p))
    }
}

/// Parses a power expression (`term ('^' term)*`) at position `p`.
pub open spec fn sp_pow(toks: Seq<TokenV>, p: int) -> Result<(NodeV, int), ParseErrorV>
    decreases toks.len() - p, 2int
        when 0 <= p <= toks.len()
{
    match sp_term(toks, p) {
        Ok((left, p1)) => if p <= p1 <= toks.len() {
            sp_pow_rest(toks, p1, left)
        } else {
            Err(ParseErrorV::InvalidOperator(spec_peek(toks, p)))
        },
        Err(e) => Err(e),
    }
}

/// Parses the `(('*'|'/') powExpr)*` tail of a product, folding left onto
/// `left`.
pub open spec fn sp_mul_rest(toks: Seq<TokenV>, p: int, left: NodeV) -> Result<
    (NodeV, int),
    ParseErrorV,
>
    decreases toks.len() - p, 3int
        when 0 <= p <= toks.len()
{
    let t = spec_peek(toks, p);
    if t == TokenV::Multiply || t == TokenV::Divide {
        let op = if t == TokenV::Multiply {
            Operator::Multiply
        } else {
            Operator::Divide
        };
        match sp_pow(toks, spec_adv(toks, p)) {
            Ok((right, p2)) => if p < p2 <= toks.len() {
                sp_mul_rest(
                    toks,
                    p2,
                    NodeV::BinaryExpr { op, left: Box::new(left), right: Box::new(right) },
                )
            } else {
                Err(ParseErrorV::InvalidOperator(t))
            },
            Err(e) => Err(e),
        }
    } else {
        Ok((left, p))
    }
}

/// Parses a product (`powExpr (('*'|'/') powExpr)*`) at position `p`.
pub open spec fn sp_mul(toks: Seq<TokenV>, p: int) -> Result<(NodeV, int), ParseErrorV>
    decreases toks.len() - p, 4int
        when 0 <= p <= toks.len()
{
    match sp_pow(toks, p) {
        Ok((left, p1)) => if p <= p1 <= toks.len() {
            sp_mul_rest(toks, p1, left)
        } else {
            Err(ParseErrorV::InvalidOperator(spec_peek(toks, p)))
        },
        Err(e) => Err(e),
    }
}

/// Parses the `(('+'|'-') mulExpr)*` tail of a sum, folding left onto
/// `left`.
pub open spec fn sp_add_rest(toks: Seq<TokenV>, p: int, left: NodeV) -> Result<
    (NodeV, int),
    ParseErrorV,
>
    decreases toks.len() - p, 5int
        when 0 <= p <= toks.len()
{
    let t = spec_peek(toks, p);
    if t == TokenV::Plus || t == TokenV::Minus {
        let op = if t == TokenV::Plus {
            Operator::Plus
        } else {
            Operator::Minus
        };
        match sp_mul(toks, spec_adv(toks, p)) {
            Ok((right, p2)) => if p < p2 <= toks.len() {
                sp_add_rest(
                    toks,
                    p2,
                    NodeV::BinaryExpr { op, left: Box::new(left), right: Box::new(right) },
                )
            } else {
                Err(ParseErrorV::InvalidOperator(t))
            },
            Err(e) => Err(e),
        }
    } else {
        Ok((left, p))
    }
}

/// Parses a sum (`mulExpr (('+'|'-') mulExpr)*`) at position `p`.
pub open spec fn sp_add(toks: Seq<TokenV>, p: int) -> Result<(NodeV, int), ParseErrorV>
    decreases toks.len() - p, 6int
        when 0 <= p <= toks.len()
{
    match sp_mul(toks, p) {
        Ok((left, p1)) => if p <= p1 <= toks.len() {
            sp_add_rest(toks, p1, left)
        } else {
            Err(ParseErrorV::InvalidOperator(spec_peek(toks, p)))
        },
        Err(e) => Err(e),
    }
}

/// Parses one statement at position `p`.
pub open spec fn sp_node(toks: Seq<TokenV>, p: int) -> Result<(NodeV, int), ParseErrorV>
    decreases toks.len() - p, 7int
        when 0 <= p <= toks.len()
{
    sp_add(toks, p)
}

/// Parses the whole program from position `p`: statements, each followed
/// by a statement separator or by the end of the input, which closes the
/// program.
pub open spec fn sp_stmts(toks: Seq<TokenV>, p: int) -> Result<Seq<NodeV>, ParseErrorV>
    decreases toks.len() - p, 8int
        when 0 <= p <= toks.len()
{
    if spec_peek(toks, p) == TokenV::EndOfInput {
        Ok(Seq::empty())
    } else {
        match sp_node(toks, p) {
            Ok((n, p1)) => if p < p1 <= toks.len() {
                let t1 = spec_peek(toks, p1);
                if t1 == TokenV::EndOfInput {
                    Ok(seq![n])
                } else if t1 == TokenV::StatementEnd {
                    match sp_stmts(toks, spec_adv(toks, p1)) {
                        Ok(rest) => Ok(seq![n] + rest),
                        Err(e) => Err(e),
                    }
                } else {
                    Err(ParseErrorV::UnexpectedToken(t1))
                }
            } else {
                Err(ParseErrorV::InvalidOperator(spec_peek(toks, p)))
            },
            Err(e) => Err(e),
        }
    }
}

/// The parsed program: one syntax tree node per statement, in source
/// order.
#[derive(Debug)]
pub struct Ast(Vec<Node>);

impl View for Ast {
    type V = Seq<NodeV>;

    closed spec fn view(&self) -> Seq<NodeV> {
        self.0.deep_view()
    }
}

impl Ast {
    /// An empty program.
    pub fn new() -> (r: Ast)
        ensures
            r@ == Seq::<NodeV>::empty(),
    {
        Ast(Vec::new())
    }

    /// Appends one statement node.
    pub fn push(&mut self, node: Node)
        ensures
            final(self)@ == old(self)@.push(node.deep_view()),
    {
        let ghost before = self@;
        let ghost nv = node.deep_view();
        self.0.push(node);
        proof {
            assert(self@ =~= before.push(nv));
        }
    }

    /// A copy of the statement nodes, in order.
    pub fn nodes(&self) -> (r: Vec<Node>)
        ensures
            r.deep_view() == self@,
    {
        let mut v: Vec<Node> = Vec::new();
        let mut i: usize = 0;
        while i < self.0.len()
            invariant
                i <= self.0.len(),
                v.deep_view() =~= self@.take(i as int),
            decreases self.0.len() - i,
        {
            let ghost before = v.deep_view();
            v.push(clone_node(&self.0[i]));
            proof {
                assert(v.deep_view() =~= before.push(self@[i as int]));
                assert(self@.take(i as int + 1) =~= self@.take(i as int).push(self@[i as int]));
            }
            i = i + 1;
        }
        proof {
            assert(v.deep_view() =~= self@);
        }
        v
    }
}

impl Clone for Ast {
    fn clone(&self) -> (r: Self)
        ensures
            r@ == self@,
    {
        Ast(self.nodes())
    }
}

/// The parser: an owned token sequence, a forward-only cursor into it,
/// and the nodes parsed so far.
pub struct Parser {
    tokens: Tokens,
    nodes: Ast,
    pos: usize,
}

impl Parser {
    /// The token sequence being parsed.
    pub closed spec fn toks(&self) -> Seq<TokenV> {
        self.tokens@
    }

    /// The cursor's position.
    pub closed spec fn at(&self) -> int {
        self.pos as int
    }

    /// The nodes parsed so far.
    pub closed spec fn ast(&self) -> Seq<NodeV> {
        self.nodes@
    }

    /// The cursor lies within the token sequence.
    pub closed spec fn wf(&self) -> bool {
        self.pos <= self.tokens@.len()
    }

    /// A parser over a copy of `tokens`, at its start, with no nodes.
    pub fn new(tokens: &Tokens) -> (r: Parser)
        ensures
            r.wf(),
            r.toks() == tokens@,
            r.at() == 0,
            r.ast() == Seq::<NodeV>::empty(),
    {
        Parser { tokens: tokens.clone(), nodes: Ast::new(), pos: 0 }
    }

    /// A copy of the program parsed so far.
    pub fn get_ast(&self) -> (r: Ast)
        ensures
            r@ == self.ast(),
    {
        self.nodes.clone()
    }

    /// Consumes one token: past the last token the cursor stays put.
    fn advance(&mut self)
        requires
            old(self).wf(),
        ensures
            final(self).wf(),
            final(self).toks() == old(self).toks(),
            final(self).ast() == old(self).ast(),
            final(self).at() == spec_adv(old(self).toks(), old(self).at()),
    {
        if self.pos < self.tokens.len() {
            self.pos = self.pos + 1;
        }
    }

    /// Parses every statement of the token sequence, appending the nodes;
    /// on an error the parsed nodes are discarded and the error returned.
    pub fn parse(&mut self) -> (r: Result<(), ParseError>)
        requires
            old(self).wf(),
        ensures
            final(self).wf(),
            final(self).toks() == old(self).toks(),
            match r {
                Ok(_) => sp_stmts(old(self).toks(), old(self).at()) matches Ok(ns) && final(self).ast() == old(self).ast() + ns,
                Err(e) => sp_stmts(old(self).toks(), old(self).at()) == Err::<
                    Seq<NodeV>,
                    ParseErrorV,
                >(e.deep_view()) && final(self).ast() == old(self).ast(),
            },
    {
        let ghost t = self.toks();
        let ghost start = self.at();
        let mut acc: Vec<Node> = Vec::new();
        loop
            invariant_except_break
                sp_stmts(t, start) == (match sp_stmts(t, self.at()) {
                    Ok(rest) => Ok::<Seq<NodeV>, ParseErrorV>(acc.deep_view() + rest),
                    Err(e) => Err::<Seq<NodeV>, ParseErrorV>(e),
                }),
            invariant
                self.wf(),
                self.toks() == t,
                t == old(self).toks(),
                start == old(self).at(),
                self.ast() == old(self).ast(),
                0 <= start <= t.len(),
                self.at() <= t.len(),
            ensures
                sp_stmts(t, start) == Ok::<Seq<NodeV>, ParseErrorV>(acc.deep_view()),
                self.wf(),
                self.toks() == t,
                self.ast() == old(self).ast(),
            decreases t.len() - self.at(),
        {
            let cur = self.tokens.get_at(self.pos);
            if !cur.is_not(Token::EndOfInput) {
                proof {
                    assert(spec_peek(t, self.at()) == TokenV::EndOfInput);
                    assert(sp_stmts(t, self.at()) == Ok::<Seq<NodeV>, ParseErrorV>(Seq::empty()));
                    assert(acc.deep_view() + Seq::<NodeV>::empty() =~= acc.deep_view());
                }
                break ;
            }
            let ghost p_before = self.at();
            let node = match self.get_node() {
                Ok(n) => n,
                Err(e) => {
                    return Err(e);
                },
            };
            let after = self.tokens.get_at(self.pos);
            if after.is_not(Token::StatementEnd) && after.is_not(Token::EndOfInput) {
                return Err(ParseError::UnexpectedToken(after));
            }
            let ended = after.is(Token::EndOfInput);
            self.advance();
            let ghost acc_before = acc.deep_view();
            let ghost nv = node.deep_view();
            acc.push(node);
            proof {
                assert(acc.deep_view() =~= acc_before.push(nv));
            }
            if ended {
                proof {
                    assert(sp_stmts(t, p_before) == Ok::<Seq<NodeV>, ParseErrorV>(seq![nv]));
                    assert(acc_before + seq![nv] =~= acc.deep_view());
                }
                break ;
            }
            proof {
                assert(spec_peek(t, self.at() - 1) == TokenV::StatementEnd);
                assert(sp_stmts(t, p_before) == (match sp_stmts(t, self.at()) {
                    Ok(rest) => Ok::<Seq<NodeV>, ParseErrorV>(seq![nv] + rest),
                    Err(e) => Err::<Seq<NodeV>, ParseErrorV>(e),
                }));
                assert(forall|rest: Seq<NodeV>|
                    acc_before + (seq![nv] + rest) =~= (acc_before.push(nv)) + rest);
            }
        }
        let mut i: usize = 0;
        while i < acc.len()
            invariant
                i <= acc.len(),
                self.wf(),
                self.toks() == t,
                t == old(self).toks(),
                start == old(self).at(),
                0 <= start <= t.len(),
                sp_stmts(t, start) == Ok::<Seq<NodeV>, ParseErrorV>(acc.deep_view()),
                self.ast() =~= old(self).ast() + acc.deep_view().take(i as int),
            decreases acc.len() - i,
        {
            self.nodes.push(clone_node(&acc[i]));
            proof {
                assert(old(self).ast() + acc.deep_view().take(i as int + 1) =~= (old(self).ast()
                    + acc.deep_view().take(i as int)).push(acc.deep_view()[i as int]));
            }
            i = i + 1;
        }
        proof {
            assert(acc.deep_view().take(acc.deep_view().len() as int) =~= acc.deep_view());
        }
        Ok(())
    }

    /// Parses one statement.
    fn get_node(&mut self) -> (r: Result<Node, ParseError>)
        requires
            old(self).wf(),
        ensures
            final(self).wf(),
            final(self).toks() == old(self).toks(),
            final(self).ast() == old(self).ast(),
            match r {
                Ok(n) => sp_node(old(self).toks(), old(self).at()) == Ok::<(NodeV, int), ParseErrorV>(
                    (n.deep_view(), final(self).at()),
                ) && old(self).at() < final(self).at() <= old(self).toks().len(),
                Err(e) => sp_node(old(self).toks(), old(self).at()) == Err::<
                    (NodeV, int),
                    ParseErrorV,
                >(e.deep_view()),
            },
        decreases old(self).toks().len() - old(self).at(), 7int,
    {
        self.get_add_expr()
    }

    /// Parses a sum of products.
    fn get_add_expr(&mut self) -> (r: Result<Node, ParseError>)
        requires
            old(self).wf(),
        ensures
            final(self).wf(),
            final(self).toks() == old(self).toks(),
            final(self).ast() == old(self).ast(),
            match r {
                Ok(n) => sp_add(old(self).toks(), old(self).at()) == Ok::<(NodeV, int), ParseErrorV>(
                    (n.deep_view(), final(self).at()),
                ) && old(self).at() < final(self).at() <= old(self).toks().len(),
                Err(e) => sp_add(old(self).toks(), old(self).at()) == Err::<
                    (NodeV, int),
                    ParseErrorV,
                >(e.deep_view()),
            },
        decreases old(self).toks().len() - old(self).at(), 6int,
    {
        let ghost t = self.toks();
        let ghost start = self.at();
        let mut left = match self.get_mult_expr() {
            Ok(n) => n,
            Err(e) => {
                return Err(e);
            },
        };
        loop
            invariant_except_break
                sp_add(t, start) == sp_add_rest(t, self.at(), left.deep_view()),
            invariant
                self.wf(),
                self.toks() == t,
                t == old(self).toks(),
                start == old(self).at(),
                self.ast() == old(self).ast(),
                0 <= start < self.at() <= t.len(),
            ensures
                self.wf(),
                self.toks() == t,
                self.ast() == old(self).ast(),
                sp_add(t, start) == Ok::<(NodeV, int), ParseErrorV>(
                    (left.deep_view(), self.at()),
                ),
                start < self.at() <= t.len(),
            decreases t.len() - self.at(),
        {
            let cur = self.tokens.get_at(self.pos);
            if !cur.is_in(&vec![Token::Plus, Token::Minus]) {
                proof {
                    assert(sp_add_rest(t, self.at(), left.deep_view()) == Ok::<
                        (NodeV, int),
                        ParseErrorV,
                    >((left.deep_view(), self.at())));
                }
                break ;
            }
            let ghost p = self.at();
            let tok = self.tokens.get_at(self.pos);
            self.advance();
            let op = match Operator::from(tok) {
                Ok(o) => o,
                Err(e) => {
                    return Err(e);
                },
            };
            let right = match self.get_mult_expr() {
                Ok(n) => n,
                Err(e) => {
                    return Err(e);
                },
            };
            left = Node::make_binary_expr(op, left, right);
        }
        Ok(left)
    }

    /// Parses a product of power expressions.
    fn get_mult_expr(&mut self) -> (r: Result<Node, ParseError>)
        requires
            old(self).wf(),
        ensures
            final(self).wf(),
            final(self).toks() == old(self).toks(),
            final(self).ast() == old(self).ast(),
            match r {
                Ok(n) => sp_mul(old(self).toks(), old(self).at()) == Ok::<(NodeV, int), ParseErrorV>(
                    (n.deep_view(), final(self).at()),
                ) && old(self).at() < final(self).at() <= old(self).toks().len(),
                Err(e) => sp_mul(old(self).toks(), old(self).at()) == Err::<
                    (NodeV, int),
                    ParseErrorV,
                >(e.deep_view()),
            },
        decreases old(self).toks().len() - old(self).at(), 4int,
    {
        let ghost t = self.toks();
        let ghost start = self.at();
        let mut left = match self.get_exponential_expr() {
            Ok(n) => n,
            Err(e) => {
                return Err(e);
            },
        };
        loop
            invariant_except_break
                sp_mul(t, start) == sp_mul_rest(t, self.at(), left.deep_view()),
            invariant
                self.wf(),
                self.toks() == t,
                t == old(self).toks(),
                start == old(self).at(),
                self.ast() == old(self).ast(),
                0 <= start < self.at() <= t.len(),
            ensures
                self.wf(),
                self.toks() == t,
                self.ast() == old(self).ast(),
                sp_mul(t, start) == Ok::<(NodeV, int), ParseErrorV>(
                    (left.deep_view(), self.at()),
                ),
                start < self.at() <= t.len(),
            decreases t.len() - self.at(),
        {
            let cur = self.tokens.get_at(self.pos);
            if !cur.is_in(&vec![Token::Multiply, Token::Divide]) {
                proof {
                    assert(sp_mul_rest(t, self.at(), left.deep_view()) == Ok::<
                        (NodeV, int),
                        ParseErrorV,
                    >((left.deep_view(), self.at())));
                }
                break ;
            }
            let tok = self.tokens.get_at(self.pos);
            self.advance();
            let op = match Operator::from(tok) {
                Ok(o) => o,
                Err(e) => {
                    return Err(e);
                },
            };
            let right = match self.get_exponential_expr() {
                Ok(n) => n,
                Err(e) => {
                    return Err(e);
                },
            };
            left = Node::make_binary_expr(op, left, right);
        }
        Ok(left)
    }

    /// Parses a power expression; `^` folds to the left.
    fn get_exponential_expr(&mut self) -> (r: Result<Node, ParseError>)
        requires
            old(self).wf(),
        ensures
            final(self).wf(),
            final(self).toks() == old(self).toks(),
            final(self).ast() == old(self).ast(),
            match r {
                Ok(n) => sp_pow(old(self).toks(), old(self).at()) == Ok::<(NodeV, int), ParseErrorV>(
                    (n.deep_view(), final(self).at()),
                ) && old(self).at() < final(self).at() <= old(self).toks().len(),
                Err(e) => sp_pow(old(self).toks(), old(self).at()) == Err::<
                    (NodeV, int),
                    ParseErrorV,
                >(e.deep_view()),
            },
        decreases old(self).toks().len() - old(self).at(), 2int,
    {
        let ghost t = self.toks();
        let ghost start = self.at();
        let mut left = match self.get_term() {
            Ok(n) => n,
            Err(e) => {
                return Err(e);
            },
        };
        loop
            invariant_except_break
                sp_pow(t, start) == sp_pow_rest(t, self.at(), left.deep_view()),
            invariant
                self.wf(),
                self.toks() == t,
                t == old(self).toks(),
                start == old(self).at(),
                self.ast() == old(self).ast(),
                0 <= start < self.at() <= t.len(),
            ensures
                self.wf(),
                self.toks() == t,
                self.ast() == old(self).ast(),
                sp_pow(t, start) == Ok::<(NodeV, int), ParseErrorV>(
                    (left.deep_view(), self.at()),
                ),
                start < self.at() <= t.len(),
            decreases t.len() - self.at(),
        {
            let cur = self.tokens.get_at(self.pos);
            if cur.is_not(Token::Power) {
                proof {
                    assert(sp_pow_rest(t, self.at(), left.deep_view()) == Ok::<
                        (NodeV, int),
                        ParseErrorV,
                    >((left.deep_view(), self.at())));
                }
                break ;
            }
            let tok = self.tokens.get_at(self.pos);
            self.advance();
            let op = match Operator::from(tok) {
                Ok(o) => o,
                Err(e) => {
                    return Err(e);
                },
            };
            let right = match self.get_term() {
                Ok(n) => n,
                Err(e) => {
                    return Err(e);
                },
            };
            left = Node::make_binary_expr(op, left, right);
        }
        Ok(left)
    }

    /// Parses a single term.
    fn get_term(&mut self) -> (r: Result<Node, ParseError>)
        requires
            old(self).wf(),
        ensures
            final(self).wf(),
            final(self).toks() == old(self).toks(),
            final(self).ast() == old(self).ast(),
            match r {
                Ok(n) => sp_term(old(self).toks(), old(self).at()) == Ok::<
                    (NodeV, int),
                    ParseErrorV,
                >((n.deep_view(), final(self).at())) && old(self).at() < final(self).at() <= old(
                    self).toks().len(),
                Err(e) => sp_term(old(self).toks(), old(self).at()) == Err::<
                    (NodeV, int),
                    ParseErrorV,
                >(e.deep_view()),
            },
        decreases old(self).toks().len() - old(self).at(), 0int,
    {
        let ghost t = self.toks();
        let ghost p = self.at();
        let token = self.tokens.get_at(self.pos);
        self.advance();
        match token {
            Token::Number(n) => {
                if !all_digit_or_dot(&n) {
                    return Err(ParseError::NumberFormat(n));
                }
                match decimal_to_bits(n.as_str()) {
                    Some(b) => Ok(Node::Num(b)),
                    None => Err(ParseError::NumberFormat(n)),
                }
            },
            Token::Identifier(i) => {
                let nxt = self.tokens.get_at(self.pos);
                if nxt.is(Token::Assign) {
                    proof {
                        assert(spec_peek(t, self.at()) == TokenV::Assign);
                    }
                    self.advance();
                    match self.get_node() {
                        Ok(v) => Ok(Node::AssignExpr { name: i, value: Box::new(v) }),
                        Err(e) => Err(e),
                    }
                } else {
                    Ok(Node::Ident(i))
                }
            },
            Token::Minus => {
                match self.get_term() {
                    Ok(v) => Ok(Node::UnaryExpr { op: Operator::Minus, value: Box::new(v) }),
                    Err(e) => Err(e),
                }
            },
            Token::Plus => {
                match self.get_term() {
                    Ok(v) => Ok(Node::UnaryExpr { op: Operator::Plus, value: Box::new(v) }),
                    Err(e) => Err(e),
                }
            },
            Token::LParen => {
                match self.get_node() {
                    Ok(content) => {
                        let closing = self.tokens.get_at(self.pos);
                        if closing.is(Token::RParen) {
                            self.advance();
                            Ok(content)
                        } else if closing.is(Token::EndOfInput) {
                            Err(ParseError::UnclosedParenthesis)
                        } else {
                            Err(ParseError::UnexpectedToken(closing))
                        }
                    },
                    Err(e) => Err(e),
                }
            },
            Token::RParen => Err(ParseError::EmptyParenthesis),
            other => Err(ParseError::UnexpectedToken(other)),
        }
    }
}

/// Whether every character of `s` is an ASCII digit or the dot.
fn all_digit_or_dot(s: &String) -> (r: bool)
    ensures
        r == forall|i: int| 0 <= i < s@.len() ==> is_digit_or_dot(#[trigger] s@[i]),
{
    let n = s.as_str().unicode_len();
    let mut i: usize = 0;
    while i < n
        invariant
            i <= n,
            n == s@.len(),
            forall|k: int| 0 <= k < i ==> is_digit_or_dot(#[trigger] s@[k]),
        decreases n - i,
    {
        let c = s.as_str().get_char(i);
        if !(c as u32 == 46 || (48 <= c as u32 && c as u32 <= 57)) {
            return false;
        }
        i = i + 1;
    }
    true
}

} // verus!
