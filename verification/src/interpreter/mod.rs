//! The interpreter: it walks the statements in order and evaluates their
//! expressions against one flat table of variables.
//!
//! What a statement prints and what it reports is not written anywhere: it
//! is appended to the interpreter's output, for the embedding program to
//! show.

pub mod determinism;
pub mod environment;
pub mod file_resolver;
pub mod laws;
pub mod run;
pub mod semantics;
pub mod value;

use vstd::prelude::*;
use vstd::string::StringExecFns;
use crate::ast::expressions::Expr;
use crate::ast::statements::{stmt_views, Stmt, StmtView};
use crate::errors::runtime_error::RuntimeError;
use crate::number::NumberOp;
use crate::syntax::token::{Literal, TokenType};
use crate::text::quoted;
use environment::Environment;
use file_resolver::reads_all;
use crate::logic::witness;
use semantics::{computed, evaluates, executes, import_failure, runs, Outcome, State};
use value::{answers_all, option_view, Value};

verus! {

/// How deep imports may nest. A file that imports itself, directly or through
/// others, fails at this depth.
pub const MAX_IMPORT_DEPTH: usize = 64;

/// The view of what a statement has shown.
pub open spec fn outcome_view(outcome: Result<Value, RuntimeError>) -> Outcome {
    match outcome {
        Ok(value) => Ok(value@),
        Err(error) => Err(error@),
    }
}

/// The views of what a program has shown.
pub open spec fn outcome_views(output: Seq<Result<Value, RuntimeError>>) -> Seq<Outcome> {
    output.map_values(|o: Result<Value, RuntimeError>| outcome_view(o))
}

/// An interpreter with its variables, its output so far, and the two
/// services of the embedding program: `numbers`, which reads numerals and
/// does arithmetic, and `read`, which reads the files that are imported.
pub struct Interpreter<N, R> {
    env: Environment,
    numbers: N,
    read: R,
    output: Vec<Result<Value, RuntimeError>>,
    depth: usize,
}

impl<N: Fn(NumberOp) -> u64, R: Fn(String) -> Option<String>> Interpreter<N, R> {
    /// The variables and the output so far.
    pub closed spec fn state(&self) -> State {
        State { bindings: self.env@, output: outcome_views(self.output@) }
    }

    /// The arithmetic of the embedding program.
    pub closed spec fn arithmetic(&self) -> N {
        self.numbers
    }

    /// The file reader of the embedding program.
    pub closed spec fn reader(&self) -> R {
        self.read
    }

    /// How deep imports may still nest.
    pub closed spec fn depth(&self) -> nat {
        self.depth as nat
    }

    /// Both services answer every request.
    pub closed spec fn ready(&self) -> bool {
        answers_all(self.numbers) && reads_all(self.read)
    }

    /// An interpreter without variables or output.
    pub fn new(numbers: N, read: R) -> (out: Self)
        requires
            answers_all(numbers),
            reads_all(read),
        ensures
            out.ready(),
            out.state() == State::start(),
            out.arithmetic() == numbers,
            out.reader() == read,
            out.depth() == MAX_IMPORT_DEPTH,
    {
        let out = Self {
            env: Environment::new(),
            numbers,
            read,
            output: Vec::new(),
            depth: MAX_IMPORT_DEPTH,
        };
        assert(out.state().output =~= State::start().output);
        out
    }

    /// What the program has shown so far: the values printed and the errors
    /// reported, in order.
    pub fn output(&self) -> (out: &Vec<Result<Value, RuntimeError>>)
        ensures
            outcome_views(out@) == self.state().output,
    {
        &self.output
    }

    /// Ends the interpreter and hands out what the program has shown.
    pub fn into_output(self) -> (out: Vec<Result<Value, RuntimeError>>)
        ensures
            outcome_views(out@) == self.state().output,
    {
        self.output
    }

    /// Executes `statements` in order, each to its end before the next.
    pub fn interpret_statements(&mut self, statements: Vec<Stmt>)
        requires
            old(self).ready(),
        ensures
            final(self).ready(),
            final(self).arithmetic() == old(self).arithmetic(),
            final(self).reader() == old(self).reader(),
            final(self).depth() == old(self).depth(),
            runs(
                stmt_views(statements@),
                old(self).arithmetic(),
                old(self).reader(),
                old(self).depth(),
                old(self).state(),
                final(self).state(),
            ),
        decreases old(self).depth(), 2nat,
    {
        let ghost all = stmt_views(statements@);
        let mut i: usize = 0;
        assert(all.take(0) =~= Seq::empty());
        while i < statements.len()
            invariant
                i <= statements@.len(),
                all == stmt_views(statements@),
                self.ready(),
                self.numbers == old(self).numbers,
                self.read == old(self).read,
                self.depth == old(self).depth,
                runs(
                    all.take(i as int),
                    self.numbers,
                    self.read,
                    self.depth as nat,
                    old(self).state(),
                    self.state(),
                ),
            decreases statements@.len() - i,
        {
            let ghost mid = self.state();
            self.interpret_statement(&statements[i]);
            proof {
                let done = all.take(i + 1);
                assert(done.drop_last() =~= all.take(i as int));
                assert(done.last() == statements@[i as int]@);
                assert(witness(mid));
            }
            i += 1;
        }
        assert(all.take(statements@.len() as int) =~= all);
    }

    fn interpret_statement(&mut self, statement: &Stmt)
        requires
            old(self).ready(),
        ensures
            final(self).ready(),
            final(self).numbers == old(self).numbers,
            final(self).read == old(self).read,
            final(self).depth == old(self).depth,
            executes(
                statement@,
                old(self).numbers,
                old(self).read,
                old(self).depth as nat,
                old(self).state(),
                final(self).state(),
            ),
        decreases old(self).depth(), 1nat,
    {
        let ghost before = self.state();
        match statement {
            Stmt::Expression(e) => {
                let result = self.interpret_expression(&e.expression);
                let ghost r = outcome_view(result);
                assert(evaluates(e.expression@, before.bindings, self.numbers, r));
                match result {
                    Ok(_) => {},
                    Err(error) => {
                        self.output.push(Err(error));
                        assert(self.state().output =~= before.shows(Err(error@)).output);
                    },
                }
            },
            Stmt::Print(val) => {
                let output = self.interpret_expression(&val.expression);
                let ghost r = outcome_view(output);
                assert(evaluates(val.expression@, before.bindings, self.numbers, r));
                self.output.push(output);
                assert(self.state().output =~= before.shows(outcome_view(output)).output);
            },
            Stmt::Let(v) => {
                let result = self.interpret_expression(&v.initialiser);
                let ghost r = outcome_view(result);
                assert(evaluates(v.initialiser@, before.bindings, self.numbers, r));
                match result {
                    Ok(value) => {
                        self.env.define(v.name.lexeme.clone(), value);
                    },
                    Err(error) => {
                        self.output.push(Err(error));
                        assert(self.state().output =~= before.shows(Err(error@)).output);
                    },
                }
            },
            Stmt::Import(import) => {
                self.handle_import(&import.file_name, import.line);
            },
        }
    }

    fn handle_import(&mut self, file_name: &String, line: usize)
        requires
            old(self).ready(),
        ensures
            final(self).ready(),
            final(self).numbers == old(self).numbers,
            final(self).read == old(self).read,
            final(self).depth == old(self).depth,
            executes(
                StmtView::Import { file_name: file_name@, line },
                old(self).numbers,
                old(self).read,
                old(self).depth as nat,
                old(self).state(),
                final(self).state(),
            ),
        decreases old(self).depth(), 0nat,
    {
        let ghost before = self.state();
        if self.depth > 0 {
            match file_resolver::create_statement_stream(file_name.as_str(), &self.read) {
                Ok(stmts) => {
                    self.depth = self.depth - 1;
                    self.interpret_statements(stmts);
                    self.depth = self.depth + 1;
                    return ;
                },
                Err(_) => {},
            }
        }
        let mut msg = "Could not resolve file import: ".to_string();
        msg.append(quoted(file_name.as_str()).as_str());
        let error = RuntimeError { line, msg };
        self.output.push(Err(error));
        assert(self.state().output =~= before.shows(import_failure(file_name@, line)).output);
    }

    fn interpret_expression(&self, expr: &Expr) -> (out: Result<Value, RuntimeError>)
        requires
            self.ready(),
        ensures
            evaluates(expr@, self.env@, self.numbers, outcome_view(out)),
        decreases expr,
    {
        match expr {
            Expr::Literal(literal) => match &literal.value {
                Literal::String(s) => Ok(Value::String(s.clone())),
                Literal::Number(n) => {
                    let numeral = n.clone();
                    let ghost asked = numeral;
                    let bits = (self.numbers)(NumberOp::Read(numeral));
                    assert(value::answers(self.numbers, NumberOp::Read(asked), bits));
                    Ok(Value::Number(bits))
                },
                Literal::Bool(b) => Ok(Value::Bool(*b)),
                Literal::Null => Ok(Value::Null),
            },
            Expr::Grouping(grouping) => self.interpret_expression(&grouping.expression),
            Expr::Unary(unary) => {
                let evaluated = self.interpret_expression(&unary.right);
                assert(witness(outcome_view(evaluated)));
                let right = match evaluated {
                    Ok(value) => value,
                    Err(error) => {
                        return Err(error);
                    },
                };
                let line = unary.operator.line;
                match unary.operator.token_type {
                    TokenType::Minus => {
                        if let Some(num) = right.neg() {
                            return Ok(num);
                        } else {
                            let msg = "Invalid negation, can only negate type Number.";
                            Err(RuntimeError { line, msg: msg.to_string() })
                        }
                    },
                    TokenType::Bang => Ok(right.not()),
                    _ => Err(RuntimeError { line, msg: "Invalid unary operation".to_string() }),
                }
            },
            Expr::Binary(binary) => {
                let evaluated = self.interpret_expression(&binary.left);
                assert(witness(outcome_view(evaluated)));
                let left = match evaluated {
                    Ok(value) => value,
                    Err(error) => {
                        return Err(error);
                    },
                };
                let evaluated = self.interpret_expression(&binary.right);
                assert(witness(outcome_view(evaluated)));
                let right = match evaluated {
                    Ok(value) => value,
                    Err(error) => {
                        return Err(error);
                    },
                };
                let line = binary.operator.line;
                match binary.operator.token_type {
                    TokenType::Minus => {
                        compute(
                            left.sub(right, &self.numbers),
                            line,
                            "Can only subtract type Number".to_string(),
                        )
                    },
                    TokenType::Plus => {
                        let msg =
                            "Can only add literals of same type. Supported types: Number, String";
                        compute(left.add(right, &self.numbers), line, msg.to_string())
                    },
                    TokenType::Slash => compute(
                        left.div(right, &self.numbers),
                        line,
                        "Division error.".to_string(),
                    ),
                    TokenType::Star => {
                        compute(
                            left.mul(right, &self.numbers),
                            line,
                            "Can only multiply type Number".to_string(),
                        )
                    },
                    TokenType::Greater => Ok(Value::Bool(left > right)),
                    TokenType::GreaterEqual => Ok(Value::Bool(left >= right)),
                    TokenType::Less => Ok(Value::Bool(left < right)),
                    TokenType::LessEqual => Ok(Value::Bool(left <= right)),
                    TokenType::EqualEqual => Ok(Value::Bool(left == right)),
                    TokenType::BangEqual => Ok(Value::Bool(left != right)),
                    _ => Err(RuntimeError { line, msg: "dont have that feature yet".to_string() }),
                }
            },
            Expr::Variable(var) => {
                if let Some(value) = self.env.get_value(var.name.clone()) {
                    Ok(value)
                } else {
                    Err(RuntimeError { line: var.name.line, msg: "Undefined variable".to_string() })
                }
            },
        }
    }
}

/// The value that an operator yielded, or the error `msg` on line `line`
/// where it yielded none.
pub fn compute(result: Option<Value>, line: usize, msg: String) -> (out: Result<
    Value,
    RuntimeError,
>)
    ensures
        outcome_view(out) == computed(option_view(result), line, msg@),
{
    match result {
        Some(res) => Ok(res),
        None => Err(RuntimeError { line, msg }),
    }
}

} // verus!
