//! The interpreter: a tree-walking evaluator over a persistent variable
//! environment, and the facade that runs tokenizer, parser and evaluator
//! over one line of text.
//!
//! Reading an unbound variable is not an error: the value zero is
//! substituted and the name is reported back to the caller, so evaluation
//! continues.  A line that fails to parse leaves the environment
//! untouched; a line of several statements commits the bindings of the
//! statements in order.
use vstd::prelude::*;

verus! {

use crate::lexer::{Lexer, spec_tokenize};
use crate::numeric::{
    ZERO_BITS,
    add_bits,
    div_bits,
    fadd,
    fdiv,
    fmul,
    fneg,
    fpow,
    fsub,
    mul_bits,
    neg_bits,
    pow_bits,
    sub_bits,
};
use crate::parser::{Node, NodeV, Operator, ParseError, ParseErrorV, Parser, sp_stmts};
use vstd::hash_map::StringHashMap;

/// The value of applying the binary operator `op` to the doubles with bit
/// patterns `a` and `b`.
pub open spec fn spec_apply(op: Operator, a: u64, b: u64) -> u64 {
    match op {
        Operator::Plus => fadd(a, b),
        Operator::Minus => fsub(a, b),
        Operator::Multiply => fmul(a, b),
        Operator::Divide => fdiv(a, b),
        Operator::Power => fpow(a, b),
    }
}

/// Evaluating `n` in environment `env`: the value's bits, the environment
/// after evaluation, and the unbound names read (each substituted by
/// zero), in reading order.  The left operand of a binary expression is
/// evaluated fully before the right one.
pub open spec fn spec_eval(n: NodeV, env: Map<Seq<char>, u64>) -> (
    u64,
    Map<Seq<char>, u64>,
    Seq<Seq<char>>,
)
    decreases n,
{
    match n {
        NodeV::Num(b) => (b, env, Seq::empty()),
        NodeV::Ident(name) => if env.contains_key(name) {
            (env[name], env, Seq::empty())
        } else {
            (ZERO_BITS, env, seq![name])
        },
        NodeV::UnaryExpr { op, value } => {
            let r = spec_eval(*value, env);
            ((if op == Operator::Minus {
                fneg(r.0)
            } else {
                r.0
            }), r.1, r.2)
        },
        NodeV::BinaryExpr { op, left, right } => {
            let l = spec_eval(*left, env);
            let r = spec_eval(*right, l.1);
            (spec_apply(op, l.0, r.0), r.1, l.2 + r.2)
        },
        NodeV::AssignExpr { name, value } => {
            let r = spec_eval(*value, env);
            (r.0, r.1.insert(name, r.0), r.2)
        },
    }
}

/// Evaluating the statements of a program left to right: the value of the
/// final statement (if any), the environment after all of them, and every
/// unbound name read, in order.
pub open spec fn spec_run(nodes: Seq<NodeV>, env: Map<Seq<char>, u64>) -> (
    Option<u64>,
    Map<Seq<char>, u64>,
    Seq<Seq<char>>,
)
    decreases nodes.len(),
{
    if nodes.len() == 0 {
        (None, env, Seq::empty())
    } else {
        let r = spec_eval(nodes[0], env);
        let rest = spec_run(nodes.drop_first(), r.1);
        ((if rest.0 is Some {
            rest.0
        } else {
            Some(r.0)
        }), rest.1, r.2 + rest.2)
    }
}

/// Reading one line in environment `env`: tokenize, parse, then evaluate
/// every statement; a parse error aborts the line before any evaluation.
pub open spec fn spec_read(src: Seq<char>, env: Map<Seq<char>, u64>) -> Result<
    (Option<u64>, Map<Seq<char>, u64>, Seq<Seq<char>>),
    ParseErrorV,
> {
    match sp_stmts(spec_tokenize(src, 0), 0) {
        Ok(nodes) => Ok(spec_run(nodes, env)),
        Err(e) => Err(e),
    }
}

/// What one successful `read` produced: the value of the line's final
/// statement, if the line held any, and the unbound variable names that
/// were read (each substituted by zero), in reading order.
pub struct ReadOutcome {
    pub value: Option<u64>,
    pub unbound: Vec<String>,
}

/// The calculator: a variable environment that persists across lines.
pub struct MathIntepreter {
    variables: StringHashMap<u64>,
    names: Vec<String>,
}

impl View for MathIntepreter {
    type V = Map<Seq<char>, u64>;

    closed spec fn view(&self) -> Map<Seq<char>, u64> {
        self.variables@
    }
}

impl MathIntepreter {
    /// The recorded names list each bound variable exactly once.
    pub closed spec fn wf(&self) -> bool {
        &&& forall|i: int, j: int|
            0 <= i < j < self.names.deep_view().len() ==> self.names.deep_view()[i]
                != self.names.deep_view()[j]
        &&& forall|i: int|
            0 <= i < self.names.deep_view().len() ==> self.variables@.contains_key(
                #[trigger] self.names.deep_view()[i],
            )
        &&& forall|k: Seq<char>|
            self.variables@.contains_key(k) ==> self.names.deep_view().contains(k)
    }

    /// A fresh interpreter with an empty environment.
    pub fn new() -> (r: MathIntepreter)
        ensures
            r.wf(),
            r@ == Map::<Seq<char>, u64>::empty(),
    {
        let r = MathIntepreter { variables: StringHashMap::new(), names: Vec::new() };
        proof {
            assert(r.names.deep_view().len() == 0);
        }
        r
    }

    /// The current bindings, each variable's name mapped to its value's
    /// bits.
    pub fn get_vars(&self) -> (r: &StringHashMap<u64>)
        ensures
            r@ == self@,
    {
        &self.variables
    }

    /// The bound variable names, in first-binding order, each exactly
    /// once.
    pub fn var_names(&self) -> (r: &Vec<String>)
        requires
            self.wf(),
        ensures
            forall|i: int, j: int|
                0 <= i < j < r.deep_view().len() ==> r.deep_view()[i] != r.deep_view()[j],
            forall|i: int|
                0 <= i < r.deep_view().len() ==> self@.contains_key(#[trigger] r.deep_view()[i]),
            forall|k: Seq<char>| self@.contains_key(k) ==> r.deep_view().contains(k),
    {
        &self.names
    }

    /// The variable's value; unbound, zero, recording the name in `notes`.
    fn get_variable(&self, name: &String, notes: &mut Vec<String>) -> (v: u64)
        ensures
            self@.contains_key(name@) ==> v == self@[name@] && final(notes).deep_view() == old(
                notes,
            ).deep_view(),
            !self@.contains_key(name@) ==> v == ZERO_BITS && final(notes).deep_view() == old(
                notes,
            ).deep_view().push(name@),
    {
        match self.variables.get(name.as_str()) {
            Some(v) => *v,
            None => {
                let ghost before = notes.deep_view();
                notes.push(name.clone());
                proof {
                    assert(notes.deep_view() =~= before.push(name@));
                }
                0
            },
        }
    }

    /// Binds `name` to `value`, overwriting any earlier binding.
    fn register_variable(&mut self, name: String, value: u64)
        requires
            old(self).wf(),
        ensures
            final(self).wf(),
            final(self)@ == old(self)@.insert(name@, value),
    {
        let ghost names_before = self.names.deep_view();
        if !self.variables.contains_key(name.as_str()) {
            self.names.push(name.clone());
            proof {
                assert(self.names.deep_view() =~= names_before.push(name@));
            }
        }
        self.variables.insert(name, value);
        proof {
            let nv = self.names.deep_view();
            assert forall|k: Seq<char>| self.variables@.contains_key(k) implies nv.contains(
                k,
            ) by {
                if old(self)@.contains_key(k) {
                    assert(names_before.contains(k));
                    let i = choose|i: int| 0 <= i < names_before.len() && names_before[i] == k;
                    assert(nv[i] == k);
                    assert(nv.contains(k));
                } else {
                    assert(nv[nv.len() - 1] == k);
                    assert(nv.contains(k));
                }
            }
        }
    }

    /// Evaluates one syntax tree node: exactly `spec_eval` of the node in
    /// the current environment, appending the unbound names it reads to
    /// `notes`.
    fn eval(&mut self, node: &Node, notes: &mut Vec<String>) -> (v: u64)
        requires
            old(self).wf(),
        ensures
            final(self).wf(),
            v == spec_eval(node.deep_view(), old(self)@).0,
            final(self)@ == spec_eval(node.deep_view(), old(self)@).1,
            final(notes).deep_view() == old(notes).deep_view() + spec_eval(
                node.deep_view(),
                old(self)@,
            ).2,
        decreases node,
    {
        let ghost nv = node.deep_view();
        let ghost env0 = self@;
        let ghost notes0 = notes.deep_view();
        match node {
            Node::Num(i) => {
                proof {
                    assert(notes.deep_view() =~= notes0 + spec_eval(nv, env0).2);
                }
                *i
            },
            Node::Ident(name) => {
                let v = self.get_variable(name, notes);
                proof {
                    if env0.contains_key(name@) {
                        assert(notes.deep_view() =~= notes0 + spec_eval(nv, env0).2);
                    } else {
                        assert(notes0.push(name@) =~= notes0 + seq![name@]);
                    }
                }
                v
            },
            Node::UnaryExpr { op, value } => {
                let v = self.eval(&**value, notes);
                if let Operator::Minus = op {
                    neg_bits(v)
                } else {
                    v
                }
            },
            Node::BinaryExpr { op, left, right } => {
                let a = self.eval(&**left, notes);
                let b = self.eval(&**right, notes);
                proof {
                    let l = spec_eval(left.deep_view(), env0);
                    let r = spec_eval(right.deep_view(), l.1);
                    assert((notes0 + l.2) + r.2 =~= notes0 + (l.2 + r.2));
                }
                match op {
                    Operator::Plus => add_bits(a, b),
                    Operator::Minus => sub_bits(a, b),
                    Operator::Multiply => mul_bits(a, b),
                    Operator::Divide => div_bits(a, b),
                    Operator::Power => pow_bits(a, b),
                }
            },
            Node::AssignExpr { name, value } => {
                let v = self.eval(&**value, notes);
                self.register_variable(name.clone(), v);
                v
            },
        }
    }

    /// Reads one line: tokenizes, parses, then evaluates each statement in
    /// order.  On success the outcome holds the final statement's value
    /// (none for an empty line) and the unbound names read; on a parse
    /// error the environment is exactly as it was.
    pub fn read(&mut self, code: &str) -> (r: Result<ReadOutcome, ParseError>)
        requires
            old(self).wf(),
        ensures
            final(self).wf(),
            match r {
                Ok(out) => spec_read(code@, old(self)@) matches Ok(o) && out.value == o.0 && final(
                    self)@ == o.1 && out.unbound.deep_view() == o.2,
                Err(e) => spec_read(code@, old(self)@) == Err::<
                    (Option<u64>, Map<Seq<char>, u64>, Seq<Seq<char>>),
                    ParseErrorV,
                >(e.deep_view()) && final(self)@ == old(self)@,
            },
    {
        let mut lexer = Lexer::new(code);
        let tokens = lexer.tokenize();
        let mut p = Parser::new(&tokens);
        match p.parse() {
            Ok(_) => {},
            Err(e) => {
                return Err(e);
            },
        }
        let ast = p.get_ast();
        let nodes = ast.nodes();
        let ghost nodesv = nodes.deep_view();
        let ghost env0 = self@;
        let ghost target = spec_run(nodesv, env0);
        let mut notes: Vec<String> = Vec::new();
        let mut value: Option<u64> = None;
        let mut i: usize = 0;
        proof {
            assert(notes.deep_view() =~= Seq::<Seq<char>>::empty());
            assert(nodesv.skip(0) =~= nodesv);
            assert(Seq::<Seq<char>>::empty() + target.2 =~= target.2);
        }
        while i < nodes.len()
            invariant
                old(self).wf(),
                self.wf(),
                i <= nodes.len(),
                nodesv == nodes.deep_view(),
                env0 == old(self)@,
                target == spec_run(nodesv, env0),
                ({
                    let rest = spec_run(nodesv.skip(i as int), self@);
                    target == ((if rest.0 is Some {
                        rest.0
                    } else {
                        value
                    }), rest.1, notes.deep_view() + rest.2)
                }),
            decreases nodes.len() - i,
        {
            proof {
                assert(nodesv.skip(i as int).len() > 0);
                assert(nodesv.skip(i as int)[0] == nodesv[i as int]);
                assert(nodesv.skip(i as int).drop_first() =~= nodesv.skip(i as int + 1));
            }
            let ghost env_before = self@;
            let ghost notes_before = notes.deep_view();
            let v = self.eval(&nodes[i], &mut notes);
            value = Some(v);
            proof {
                let l = spec_eval(nodesv[i as int], env_before);
                let rest2 = spec_run(nodesv.skip(i as int + 1), self@);
                assert((notes_before + l.2) + rest2.2 =~= notes_before + (l.2 + rest2.2));
            }
            i = i + 1;
        }
        proof {
            assert(nodesv.skip(nodes.len() as int) =~= Seq::<NodeV>::empty());
            assert(notes.deep_view() + Seq::<Seq<char>>::empty() =~= notes.deep_view());
        }
        Ok(ReadOutcome { value, unbound: notes })
    }
}

/// Law: reading an empty line evaluates nothing, changes nothing, and is
/// no error.
pub proof fn lemma_read_empty(env: Map<Seq<char>, u64>)
    ensures
        spec_read(Seq::<char>::empty(), env) == Ok::<
            (Option<u64>, Map<Seq<char>, u64>, Seq<Seq<char>>),
            ParseErrorV,
        >((None, env, Seq::empty())),
{
    crate::lexer::lemma_tokenize_empty();
    let toks = spec_tokenize(Seq::<char>::empty(), 0);
    assert(sp_stmts(toks, 0) == Ok::<Seq<NodeV>, ParseErrorV>(Seq::empty()));
    assert(spec_run(Seq::<NodeV>::empty(), env) == (
        None::<u64>,
        env,
        Seq::<Seq<char>>::empty(),
    ));
}

/// Law: binding a name twice keeps one binding with the later value;
/// bindings overwrite, they do not accumulate.
pub proof fn lemma_assign_overwrites(name: Seq<char>, b1: u64, b2: u64, env: Map<Seq<char>, u64>)
    ensures
        ({
            let once = spec_eval(NodeV::AssignExpr { name, value: Box::new(NodeV::Num(b1)) }, env).1;
            let twice = spec_eval(
                NodeV::AssignExpr { name, value: Box::new(NodeV::Num(b2)) },
                once,
            ).1;
            twice == env.insert(name, b2)
        }),
{
    let once = spec_eval(NodeV::AssignExpr { name, value: Box::new(NodeV::Num(b1)) }, env).1;
    let twice = spec_eval(NodeV::AssignExpr { name, value: Box::new(NodeV::Num(b2)) }, once).1;
    assert(spec_eval(NodeV::Num(b1), env) == (b1, env, Seq::<Seq<char>>::empty()));
    assert(once == env.insert(name, b1));
    assert(spec_eval(NodeV::Num(b2), once) == (b2, once, Seq::<Seq<char>>::empty()));
    assert(twice == once.insert(name, b2));
    assert(twice =~= env.insert(name, b2));
}

} // verus!
