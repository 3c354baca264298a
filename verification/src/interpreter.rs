//! The evaluator: one step of the machine at a time.

use vstd::prelude::*;
use crate::ast::{copy_stmts, exprs_view, stmts_view, BinOp, Expr, Stmt, StmtView, UnarioOp};
use crate::environment::Environment;
use crate::errors::{Builtin, RuntimeError, SyntaxError, SyntaxErrorView};
use crate::grammar::{program, program_failure};
use crate::lexer::{Lexer, LexerView};
use crate::machine::{ActionView, InterpreterView, ReplyView, TaskView};
use crate::number::{
    is_beyond_integers, is_zero, less, less_eq, near_zero, negate, truncate, whole,
};
use crate::parser::{recorded, spec_syntax_error, Parser};
use crate::semantics::builtin_named;
use crate::text::{char_text, join_texts, push_signed_decimal, text_of};
use crate::value::EnvRef;

pub use crate::machine::{Action, Interpreter, NumberRequest, Reply, Task};
pub use crate::value::{FlowControl, Function, Heap, Value};

verus! {

/// A copy of a vector of values.
pub fn clone_values(v: &Vec<Value>) -> (r: Vec<Value>)
    ensures
        r.deep_view() == v.deep_view(),
{
    let mut r: Vec<Value> = Vec::new();
    let mut i: usize = 0;
    while i < v.len()
        invariant
            i <= v.len(),
            r.len() == i,
            forall|j: int| 0 <= j < i ==> r[j]@ == v[j]@,
        decreases v.len() - i,
    {
        r.push(v[i].clone());
        i += 1;
    }
    assert(r.deep_view() =~= v.deep_view());
    r
}

impl Interpreter {
    /// Takes the topmost values off, as many as given, bottom first.
    fn take_values(&mut self, n: usize) -> (r: Vec<Value>)
        requires
            n <= old(self)@.values.len(),
        ensures
            final(self)@ == old(self)@.drop_values(n as int),
            r.deep_view() == old(self)@.top_values(n as int),
    {
        let at = self.values.len() - n;
        let r = self.values.split_off(at);
        assert(self.values.deep_view() =~= old(self)@.values.take(at as int));
        assert(r.deep_view() =~= old(self)@.top_values(n as int));
        r
    }

    /// Takes the topmost texts off, as many as given, bottom first.
    fn take_texts(&mut self, n: usize) -> (r: Vec<String>)
        requires
            n <= old(self)@.texts.len(),
        ensures
            final(self)@ == old(self)@.drop_texts(n as int),
            r.deep_view() == old(self)@.top_texts(n as int),
    {
        let at = self.texts.len() - n;
        let r = self.texts.split_off(at);
        assert(self.texts.deep_view() =~= old(self)@.texts.take(at as int));
        assert(r.deep_view() =~= old(self)@.top_texts(n as int));
        r
    }

    /// Leaves tasks to evaluate the expressions, the first of them on top.
    fn push_evals(&mut self, exprs: Vec<Expr>)
        ensures
            final(self)@ == old(self)@.push_evals(exprs_view(exprs@)),
    {
        let mut rest = exprs;
        while rest.len() > 0
            invariant
                self@.push_evals(exprs_view(rest@)) == old(self)@.push_evals(exprs_view(exprs@)),
            decreases rest.len(),
        {
            let ghost before = rest@;
            let e = rest.pop().unwrap();
            assert(exprs_view(rest@) =~= exprs_view(before).drop_last());
            assert(e@ == exprs_view(before).last());
            self.push_task(Task::Eval(e));
        }
    }

    /// Leaves tasks to execute the statements, the first of them on top.
    fn push_execs(&mut self, stmts: Vec<Stmt>)
        ensures
            final(self)@ == old(self)@.push_execs(stmts_view(stmts@)),
    {
        let mut rest = stmts;
        while rest.len() > 0
            invariant
                self@.push_execs(stmts_view(rest@)) == old(self)@.push_execs(stmts_view(stmts@)),
            decreases rest.len(),
        {
            let ghost before = rest@;
            let s = rest.pop().unwrap();
            assert(stmts_view(rest@) =~= stmts_view(before).drop_last());
            assert(s@ == stmts_view(before).last());
            self.push_task(Task::Exec(s));
        }
    }

    /// Leaves tasks to run the statements as a program.
    fn push_program(&mut self, stmts: Vec<Stmt>)
        ensures
            final(self)@ == old(self)@.push_program(stmts_view(stmts@)),
    {
        let mut rest = stmts;
        while rest.len() > 0
            invariant
                self@.push_program(stmts_view(rest@)) == old(self)@.push_program(
                    stmts_view(stmts@),
                ),
            decreases rest.len(),
        {
            let ghost before = rest@;
            let s = rest.pop().unwrap();
            assert(stmts_view(rest@) =~= stmts_view(before).drop_last());
            assert(s@ == stmts_view(before).last());
            self.push_task(Task::EndStatement);
            self.push_task(Task::Exec(s));
        }
    }

    /// Pushes the values so that the first of them ends up on top.
    fn push_values_reversed(&mut self, vals: Vec<Value>)
        ensures
            final(self)@ == old(self)@.push_values_reversed(vals.deep_view()),
    {
        let mut rest = vals;
        while rest.len() > 0
            invariant
                self@.push_values_reversed(rest.deep_view()) == old(self)@.push_values_reversed(
                    vals.deep_view(),
                ),
            decreases rest.len(),
        {
            let ghost before = rest.deep_view();
            let v = rest.pop().unwrap();
            assert(rest.deep_view() =~= before.drop_last());
            assert(v@ == before.last());
            self.push_value(v);
        }
    }

    /// Leaves as many tasks to turn a value into text as given.
    fn push_stringify(&mut self, n: usize)
        ensures
            final(self)@ == old(self)@.push_stringify(n as nat),
    {
        let mut i: usize = n;
        while i > 0
            invariant
                self@.push_stringify(i as nat) == old(self)@.push_stringify(n as nat),
            decreases i,
        {
            self.push_task(Task::Stringify);
            i -= 1;
        }
    }

    /// Makes a fresh scope, enclosed by `enclosing`, the current one.
    fn enter_scope(&mut self, enclosing: usize)
        ensures
            final(self)@ == old(self)@.enter_scope(enclosing),
    {
        let child = self.environment.with_enclosing(enclosing);
        self.env = child;
    }

    /// Sends a signal down the tasks until something takes it.
    fn unwind(&mut self, signal: FlowControl) -> (r: Action)
        ensures
            (final(self)@, r@) == old(self)@.unwind(signal@),
    {
        loop
            invariant
                self@.unwind(signal@) == old(self)@.unwind(signal@),
            decreases self.tasks.len(),
        {
            if self.tasks.len() == 0 {
                return self.fail(RuntimeError::Protocol);
            }
            let ghost before = self@;
            let t = self.pop_task();
            match t {
                Task::Restore(e) => {
                    self.env = e;
                },
                Task::CallEnd(e) => {
                    match signal {
                        FlowControl::Return(v) => {
                            self.env = e;
                            self.push_value(v);
                            return Action::Continue;
                        },
                        _ => {
                            self.env = e;
                            return self.fail(RuntimeError::LoopSignalInFunction);
                        },
                    }
                },
                Task::While(c, b) => {
                    match signal {
                        FlowControl::Break => {
                            return Action::Continue;
                        },
                        FlowControl::Continue => {
                            self.push_task(Task::While(c, b));
                            assert(self@.tasks =~= before.tasks);
                            return Action::Continue;
                        },
                        _ => {},
                    }
                },
                Task::ForNext(c, n, b) => {
                    match signal {
                        FlowControl::Break => {
                            return Action::Continue;
                        },
                        FlowControl::Continue => {
                            self.push_task(Task::ForNext(c, n, b));
                            assert(self@.tasks =~= before.tasks);
                            return Action::Continue;
                        },
                        _ => {},
                    }
                },
                Task::EndStatement => {
                    return Action::Continue;
                },
                Task::FinishExec => {
                    return Action::Executed(signal);
                },
                Task::FinishEval => {
                    return Action::Executed(signal);
                },
                Task::FinishText => {
                    return Action::Executed(signal);
                },
                _ => {},
            }
        }
    }

    /// Begins the evaluation of an expression.
    fn eval(&mut self, e: Expr) -> (r: Action)
        ensures
            (final(self)@, r@) == old(self)@.eval(e@),
    {
        match e {
            Expr::Numero(t) => {
                self.push_task(Task::AwaitNumber);
                Action::Ask(NumberRequest::Parse(t))
            },
            Expr::Texto(s) => {
                self.push_value(Value::Text(s));
                Action::Continue
            },
            Expr::Bool(b) => {
                self.push_value(Value::Bool(b));
                Action::Continue
            },
            Expr::Nulo => {
                self.push_value(Value::Nil);
                Action::Continue
            },
            Expr::Var(name) => {
                match self.environment.get(self.env, &name) {
                    Ok(v) => {
                        self.push_value(v);
                        Action::Continue
                    },
                    Err(err) => self.fail(err),
                }
            },
            Expr::Array(elems) => {
                self.push_task(Task::MakeArray(elems.len()));
                self.push_evals(elems);
                Action::Continue
            },
            Expr::Index(a, i) => {
                self.push_task(Task::LoadIndex);
                self.push_task(Task::Eval(*i));
                self.push_task(Task::Eval(*a));
                Action::Continue
            },
            Expr::Atribuir(n, v) => {
                self.push_task(Task::Assign(n));
                self.push_task(Task::Eval(*v));
                Action::Continue
            },
            Expr::AtribuirIndex(a, i, v) => {
                self.push_task(Task::StoreIndex);
                self.push_task(Task::Eval(*v));
                self.push_task(Task::Eval(*i));
                self.push_task(Task::Eval(*a));
                Action::Continue
            },
            Expr::Unario(op, r) => {
                self.push_task(Task::Unary(op));
                self.push_task(Task::Eval(*r));
                Action::Continue
            },
            Expr::Binario(l, op, r) => {
                self.push_task(Task::Binary(op));
                self.push_task(Task::Eval(*r));
                self.push_task(Task::Eval(*l));
                Action::Continue
            },
            Expr::Chamada(c, args) => {
                self.push_task(Task::Call(args.len()));
                self.push_evals(args);
                self.push_task(Task::Eval(*c));
                Action::Continue
            },
        }
    }

    /// Begins the execution of a statement.
    fn exec(&mut self, s: Stmt) -> (r: Action)
        ensures
            (final(self)@, r@) == old(self)@.exec(s@),
    {
        match s {
            Stmt::ExprStmt(e) => {
                self.push_task(Task::Discard);
                self.push_task(Task::Eval(e));
                Action::Continue
            },
            Stmt::Imprimir(e) => {
                self.push_task(Task::PrintLine);
                self.push_task(Task::Stringify);
                self.push_task(Task::Eval(e));
                Action::Continue
            },
            Stmt::VarDecl(n, e) => {
                self.push_task(Task::Define(n));
                self.push_task(Task::Eval(e));
                Action::Continue
            },
            Stmt::Bloco(stmts) => {
                let outer = self.env;
                self.enter_scope(outer);
                self.push_task(Task::Restore(outer));
                self.push_execs(stmts);
                Action::Continue
            },
            Stmt::If(c, t, e) => {
                let other = match e {
                    Some(b) => Some(*b),
                    None => None,
                };
                self.push_task(Task::Branch(*t, other));
                self.push_task(Task::Eval(c));
                Action::Continue
            },
            Stmt::While(c, b) => {
                self.push_task(Task::While(c, *b));
                Action::Continue
            },
            Stmt::For(i, c, n, b) => {
                let outer = self.env;
                self.enter_scope(outer);
                self.push_task(Task::Restore(outer));
                self.push_task(Task::For(c, n, *b));
                match i {
                    Some(init) => {
                        self.push_task(Task::Exec(*init));
                    },
                    None => {},
                }
                Action::Continue
            },
            Stmt::FuncDecl(name, params, body) => {
                let id = self.heap.functions.len();
                let f = Function { name: name.clone(), params, body, closure: self.env };
                self.heap.functions.push(f);
                assert(self.heap.functions.deep_view() =~= old(self).heap.functions.deep_view().push(
                    f@,
                ));
                self.environment.define(self.env, name, Value::Function(id));
                Action::Continue
            },
            Stmt::Return(e) => {
                self.push_task(Task::Return);
                match e {
                    Some(e) => {
                        self.push_task(Task::Eval(e));
                    },
                    None => {
                        self.push_value(Value::Nil);
                    },
                }
                Action::Continue
            },
            Stmt::Break => self.unwind(FlowControl::Break),
            Stmt::Continue => self.unwind(FlowControl::Continue),
        }
    }

    /// Applies a prefix operator to the topmost value.
    fn unary(&mut self, op: UnarioOp) -> (r: Action)
        ensures
            (final(self)@, r@) == old(self)@.unary(op),
    {
        if self.values.len() < 1 {
            return self.fail(RuntimeError::Protocol);
        }
        let v = self.pop_value();
        match op {
            UnarioOp::Neg => match v {
                Value::Number(n) => {
                    self.push_value(Value::Number(negate(n)));
                    Action::Continue
                },
                _ => self.fail(RuntimeError::NegateOperand),
            },
            UnarioOp::Nao => {
                let b = !v.is_truthy(&self.heap);
                self.push_value(Value::Bool(b));
                Action::Continue
            },
        }
    }

    /// Asks the host for the result of an operation on two numbers.
    fn ask_number(&mut self, request: NumberRequest) -> (r: Action)
        ensures
            final(self)@ == old(self)@.push_task(TaskView::AwaitNumber),
            r@ == ActionView::Ask(request@),
    {
        self.push_task(Task::AwaitNumber);
        Action::Ask(request)
    }

    /// Applies an infix operator to the two topmost values.
    fn binary(&mut self, op: BinOp) -> (r: Action)
        ensures
            (final(self)@, r@) == old(self)@.binary(op),
    {
        if self.values.len() < 2 {
            return self.fail(RuntimeError::Protocol);
        }
        let r = self.pop_value();
        let l = self.pop_value();
        assert(self@ == old(self)@.drop_values(2)) by {
            assert(self@.values =~= old(self)@.drop_values(2).values);
        }
        match op {
            BinOp::Add => match (&l, &r) {
                (Value::Number(a), Value::Number(b)) => self.ask_number(NumberRequest::Add(*a, *b)),
                (Value::Text(a), Value::Text(b)) => {
                    let mut s = a.clone();
                    s.append(b.as_str());
                    self.push_value(Value::Text(s));
                    Action::Continue
                },
                (Value::Text(_), _) => {
                    self.push_value(l);
                    self.push_value(r);
                    self.push_task(Task::ConcatLeft);
                    self.push_task(Task::Stringify);
                    Action::Continue
                },
                (_, Value::Text(_)) => {
                    self.push_value(r);
                    self.push_value(l);
                    self.push_task(Task::ConcatRight);
                    self.push_task(Task::Stringify);
                    Action::Continue
                },
                _ => self.fail(RuntimeError::AddOperands),
            },
            BinOp::Sub => match (&l, &r) {
                (Value::Number(a), Value::Number(b)) => self.ask_number(NumberRequest::Sub(*a, *b)),
                _ => self.fail(RuntimeError::NumberOperands(op)),
            },
            BinOp::Mul => match (&l, &r) {
                (Value::Number(a), Value::Number(b)) => self.ask_number(NumberRequest::Mul(*a, *b)),
                _ => self.fail(RuntimeError::NumberOperands(op)),
            },
            BinOp::Div => match (&l, &r) {
                (Value::Number(a), Value::Number(b)) => {
                    if is_zero(*b) {
                        self.fail(RuntimeError::DivisionByZero)
                    } else {
                        self.ask_number(NumberRequest::Div(*a, *b))
                    }
                },
                _ => self.fail(RuntimeError::NumberOperands(op)),
            },
            BinOp::Eq | BinOp::Neq => {
                let negated = match op {
                    BinOp::Neq => true,
                    _ => false,
                };
                match (&l, &r) {
                    (Value::Number(a), Value::Number(b)) => {
                        self.push_task(Task::AwaitDifference(negated));
                        Action::Ask(NumberRequest::Sub(*a, *b))
                    },
                    _ => {
                        let same = l.equals_exactly(&r);
                        self.push_value(Value::Bool(same != negated));
                        Action::Continue
                    },
                }
            },
            BinOp::Lt | BinOp::Gt | BinOp::Le | BinOp::Ge => match (&l, &r) {
                (Value::Number(a), Value::Number(b)) => {
                    let holds = match op {
                        BinOp::Lt => less(*a, *b),
                        BinOp::Gt => less(*b, *a),
                        BinOp::Le => less_eq(*a, *b),
                        _ => less_eq(*b, *a),
                    };
                    self.push_value(Value::Bool(holds));
                    Action::Continue
                },
                _ => self.fail(RuntimeError::NumberOperands(op)),
            },
            BinOp::And => {
                let holds = l.is_truthy(&self.heap) && r.is_truthy(&self.heap);
                self.push_value(Value::Bool(holds));
                Action::Continue
            },
            BinOp::Or => {
                let holds = l.is_truthy(&self.heap) || r.is_truthy(&self.heap);
                self.push_value(Value::Bool(holds));
                Action::Continue
            },
        }
    }

    /// Assigns the topmost value to a name and leaves it as the result.
    fn assign(&mut self, name: String) -> (r: Action)
        ensures
            (final(self)@, r@) == old(self)@.assign(name@),
    {
        if self.values.len() < 1 {
            return self.fail(RuntimeError::Protocol);
        }
        let v = self.values[self.values.len() - 1].clone();
        match self.environment.assign(self.env, &name, v) {
            Ok(_) => Action::Continue,
            Err(e) => self.fail(e),
        }
    }

    /// Binds a name to the topmost value in the current scope.
    fn define(&mut self, name: String) -> (r: Action)
        ensures
            (final(self)@, r@) == old(self)@.define(name@),
    {
        if self.values.len() < 1 {
            return self.fail(RuntimeError::Protocol);
        }
        let v = self.pop_value();
        self.environment.define(self.env, name, v);
        Action::Continue
    }

    /// Makes an array of the topmost values.
    fn make_array(&mut self, n: usize) -> (r: Action)
        ensures
            (final(self)@, r@) == old(self)@.make_array(n),
    {
        if self.values.len() < n {
            return self.fail(RuntimeError::Protocol);
        }
        let elems = self.take_values(n);
        let id = self.heap.arrays.len();
        let ghost before = self.heap.arrays.deep_view();
        self.heap.arrays.push(elems);
        assert(self.heap.arrays.deep_view() =~= before.push(elems.deep_view()));
        self.push_value(Value::Array(id));
        Action::Continue
    }

    /// The number of elements behind an array handle.
    fn array_len(&self, a: usize) -> (r: usize)
        ensures
            r == self@.heap.elements(a).len(),
    {
        if a < self.heap.arrays.len() {
            self.heap.arrays[a].len()
        } else {
            0
        }
    }

    /// Reads an element of an array or a text.
    fn load_index(&mut self) -> (r: Action)
        ensures
            (final(self)@, r@) == old(self)@.load_index(),
    {
        if self.values.len() < 2 {
            return self.fail(RuntimeError::Protocol);
        }
        let idx = self.pop_value();
        let container = self.pop_value();
        assert(self@ == old(self)@.drop_values(2)) by {
            assert(self@.values =~= old(self)@.drop_values(2).values);
        }
        match (container, idx) {
            (Value::Array(a), Value::Number(n)) => {
                let i = truncate(n);
                let len = self.array_len(a);
                if 0 <= i && (i as u64) < (len as u64) {
                    let v = self.heap.arrays[a][i as usize].clone();
                    self.push_value(v);
                    Action::Continue
                } else {
                    self.fail(RuntimeError::IndexOutOfBounds { index: i, len })
                }
            },
            (Value::Text(s), Value::Number(n)) => {
                let i = truncate(n);
                let count = s.as_str().unicode_len();
                if 0 <= i && (i as u64) < (count as u64) {
                    let c = s.as_str().get_char(i as usize);
                    self.push_value(Value::Text(char_text(c)));
                    Action::Continue
                } else {
                    self.fail(RuntimeError::IndexOutOfBounds { index: i, len: count })
                }
            },
            _ => self.fail(RuntimeError::NotIndexable),
        }
    }

    /// Replaces an element of an array.
    fn store_index(&mut self) -> (r: Action)
        ensures
            (final(self)@, r@) == old(self)@.store_index(),
    {
        if self.values.len() < 3 {
            return self.fail(RuntimeError::Protocol);
        }
        let v = self.pop_value();
        let idx = self.pop_value();
        let target = self.pop_value();
        assert(self@ == old(self)@.drop_values(3)) by {
            assert(self@.values =~= old(self)@.drop_values(3).values);
        }
        match (target, idx) {
            (Value::Array(a), Value::Number(n)) => {
                let i = truncate(n);
                let len = self.array_len(a);
                if 0 <= i && (i as u64) < (len as u64) {
                    let ghost before = self.heap.arrays.deep_view();
                    let copy = v.clone();
                    self.heap.arrays[a][i as usize] = copy;
                    assert(self.heap.arrays.deep_view() =~= before.update(
                        a as int,
                        before[a as int].update(i as int, v@),
                    )) by {
                        assert(self.heap.arrays[a as int].deep_view() =~= before[a as int].update(
                            i as int,
                            v@,
                        ));
                    }
                    self.push_value(v);
                    Action::Continue
                } else {
                    self.fail(RuntimeError::IndexOutOfBounds { index: i, len })
                }
            },
            _ => self.fail(RuntimeError::NotIndexAssignable),
        }
    }

    /// Chooses one of two statements by the topmost value.
    fn branch(&mut self, t: Stmt, e: Option<Stmt>) -> (r: Action)
        ensures
            (final(self)@, r@) == old(self)@.branch(t@, e.deep_view()),
    {
        if self.values.len() < 1 {
            return self.fail(RuntimeError::Protocol);
        }
        let v = self.pop_value();
        if v.is_truthy(&self.heap) {
            self.push_task(Task::Exec(t));
        } else {
            match e {
                Some(s) => {
                    self.push_task(Task::Exec(s));
                },
                None => {},
            }
        }
        Action::Continue
    }

    /// Runs the body of a `while` loop once more, or ends the loop.
    fn while_test(&mut self, c: Expr, b: Stmt) -> (r: Action)
        ensures
            (final(self)@, r@) == old(self)@.while_test(c@, b@),
    {
        if self.values.len() < 1 {
            return self.fail(RuntimeError::Protocol);
        }
        let v = self.pop_value();
        if v.is_truthy(&self.heap) {
            let body = b.clone();
            self.push_task(Task::While(c, b));
            self.push_task(Task::Exec(body));
        }
        Action::Continue
    }

    /// Evaluates the condition of a `for` loop.
    fn for_round(&mut self, c: Option<Expr>, n: Option<Expr>, b: Stmt) -> (r: Action)
        ensures
            (final(self)@, r@) == old(self)@.for_round(c.deep_view(), n.deep_view(), b@),
    {
        match &c {
            Some(e) => {
                let cond = e.clone();
                self.push_task(Task::ForTest(c, n, b));
                self.push_task(Task::Eval(cond));
            },
            None => {
                self.push_task(Task::ForTest(c, n, b));
                self.push_value(Value::Bool(true));
            },
        }
        Action::Continue
    }

    /// Runs the body of a `for` loop once more, or ends the loop.
    fn for_test(&mut self, c: Option<Expr>, n: Option<Expr>, b: Stmt) -> (r: Action)
        ensures
            (final(self)@, r@) == old(self)@.for_test(c.deep_view(), n.deep_view(), b@),
    {
        if self.values.len() < 1 {
            return self.fail(RuntimeError::Protocol);
        }
        let v = self.pop_value();
        if v.is_truthy(&self.heap) {
            let body = b.clone();
            self.push_task(Task::ForNext(c, n, b));
            self.push_task(Task::Exec(body));
        }
        Action::Continue
    }

    /// Evaluates the increment of a `for` loop and starts the next round.
    fn for_next(&mut self, c: Option<Expr>, n: Option<Expr>, b: Stmt) -> (r: Action)
        ensures
            (final(self)@, r@) == old(self)@.for_next(c.deep_view(), n.deep_view(), b@),
    {
        match &n {
            Some(e) => {
                let step = e.clone();
                self.push_task(Task::For(c, n, b));
                self.push_task(Task::Discard);
                self.push_task(Task::Eval(step));
            },
            None => {
                self.push_task(Task::For(c, n, b));
            },
        }
        Action::Continue
    }

    /// Applies a built-in function.
    fn call_builtin(&mut self, b: Builtin, args: Vec<Value>) -> (r: Action)
        ensures
            (final(self)@, r@) == old(self)@.call_builtin(b, args.deep_view()),
    {
        let n = args.len();
        match b {
            Builtin::Imprimir => {
                self.push_values_reversed(args);
                self.push_task(Task::PrintJoined(n));
                self.push_stringify(n);
                Action::Continue
            },
            Builtin::Comprimento => {
                if n != 1 {
                    return self.fail(RuntimeError::BuiltinArity(b));
                }
                match &args[0] {
                    Value::Text(s) => {
                        let len = s.as_str().len();
                        self.ask_number(NumberRequest::FromLength(len))
                    },
                    Value::Array(a) => {
                        let len = self.array_len(*a);
                        self.ask_number(NumberRequest::FromLength(len))
                    },
                    _ => self.fail(RuntimeError::BuiltinArgument(b)),
                }
            },
            Builtin::Maiuscula => {
                if n != 1 {
                    return self.fail(RuntimeError::BuiltinArity(b));
                }
                match &args[0] {
                    Value::Text(s) => {
                        let up = s.as_str().to_uppercase();
                        self.push_value(Value::Text(up));
                        Action::Continue
                    },
                    _ => self.fail(RuntimeError::BuiltinArgument(b)),
                }
            },
            Builtin::Minuscula => {
                if n != 1 {
                    return self.fail(RuntimeError::BuiltinArity(b));
                }
                match &args[0] {
                    Value::Text(s) => {
                        let low = s.as_str().to_lowercase();
                        self.push_value(Value::Text(low));
                        Action::Continue
                    },
                    _ => self.fail(RuntimeError::BuiltinArgument(b)),
                }
            },
        }
    }

    /// Calls the value that lies below the topmost `n` values with those
    /// values as arguments.
    fn call(&mut self, n: usize) -> (r: Action)
        ensures
            (final(self)@, r@) == old(self)@.call(n),
    {
        if self.values.len() <= n {
            return self.fail(RuntimeError::Protocol);
        }
        let args = self.take_values(n);
        let callee = self.pop_value();
        assert(self@ == old(self)@.drop_values(n + 1)) by {
            assert(self@.values =~= old(self)@.drop_values(n + 1).values);
        }
        match callee {
            Value::Function(f) => {
                if f < self.heap.functions.len() {
                    let fun = self.heap.functions[f].clone();
                    match builtin_of(&fun.name) {
                        Some(b) => self.call_builtin(b, args),
                        None => fun.call(self, args),
                    }
                } else {
                    self.fail(RuntimeError::NotCallable)
                }
            },
            _ => self.fail(RuntimeError::NotCallable),
        }
    }

    /// Turns the topmost value into text.
    fn stringify(&mut self) -> (r: Action)
        ensures
            (final(self)@, r@) == old(self)@.stringify(),
    {
        if self.values.len() < 1 {
            return self.fail(RuntimeError::Protocol);
        }
        let v = self.pop_value();
        match v.plain_text(&self.heap) {
            Some(s) => {
                self.push_text(s);
                Action::Continue
            },
            None => match &v {
                Value::Number(n) => {
                    if is_beyond_integers(*n) {
                        self.push_task(Task::AwaitText);
                        Action::Ask(NumberRequest::Format(*n))
                    } else {
                        self.push_task(Task::AwaitFraction(*n));
                        Action::Ask(NumberRequest::Sub(*n, whole(*n)))
                    }
                },
                Value::Array(a) => {
                    let elems = if *a < self.heap.arrays.len() {
                        clone_values(&self.heap.arrays[*a])
                    } else {
                        Vec::new()
                    };
                    assert(elems.deep_view() =~= self@.heap.elements(*a));
                    let n = elems.len();
                    self.push_values_reversed(elems);
                    self.push_task(Task::Join(n));
                    self.push_stringify(n);
                    Action::Continue
                },
                _ => self.fail(RuntimeError::Protocol),
            },
        }
    }

    /// Writes a number whose fractional part is known: as an integer where
    /// the fractional part is within the tolerance, else by the host.
    fn number_text(&mut self, n: u64, fraction: u64) -> (r: Action)
        ensures
            (final(self)@, r@) == old(self)@.number_text(n, fraction),
    {
        if near_zero(fraction) && !is_beyond_integers(n) {
            let mut s = String::new();
            push_signed_decimal(&mut s, truncate(n));
            self.push_text(s);
            Action::Continue
        } else {
            self.push_task(Task::AwaitText);
            Action::Ask(NumberRequest::Format(n))
        }
    }

    /// Puts the texts of an array's elements together.
    fn join(&mut self, n: usize) -> (r: Action)
        ensures
            (final(self)@, r@) == old(self)@.join(n),
    {
        if self.texts.len() < n {
            return self.fail(RuntimeError::Protocol);
        }
        let parts = self.take_texts(n);
        let inner = join_texts(&parts, ", ");
        let mut s = text_of("[");
        s.append(inner.as_str());
        s.append("]");
        self.push_text(s);
        Action::Continue
    }

    /// Prints the texts of the arguments of `imprimir` on one line.
    fn print_joined(&mut self, n: usize) -> (r: Action)
        ensures
            (final(self)@, r@) == old(self)@.print_joined(n),
    {
        if self.texts.len() < n {
            return self.fail(RuntimeError::Protocol);
        }
        let parts = self.take_texts(n);
        let line = join_texts(&parts, " ");
        self.push_value(Value::Nil);
        Action::Print(line)
    }

    /// Puts a text value and the text of the other operand of `+` together.
    fn concat(&mut self, text_first: bool) -> (r: Action)
        ensures
            (final(self)@, r@) == old(self)@.concat(text_first),
    {
        if self.values.len() < 1 || self.texts.len() < 1 {
            return self.fail(RuntimeError::Protocol);
        }
        let v = self.pop_value();
        let t = self.pop_text();
        match v {
            Value::Text(s) => {
                if text_first {
                    let mut r = s;
                    r.append(t.as_str());
                    self.push_value(Value::Text(r));
                } else {
                    let mut r = t;
                    r.append(s.as_str());
                    self.push_value(Value::Text(r));
                }
                Action::Continue
            },
            _ => self.fail(RuntimeError::Protocol),
        }
    }

    /// Takes one step: the topmost task is taken off and carried out. What
    /// the step leaves for the host comes back; the host's answer to a
    /// request goes into the next step.
    pub fn step(&mut self, reply: Reply) -> (r: Action)
        ensures
            (final(self)@, r@) == old(self)@.step(reply@),
    {
        if self.tasks.len() == 0 {
            return self.fail(RuntimeError::Protocol);
        }
        let t = self.pop_task();
        match t {
            Task::Eval(e) => self.eval(e),
            Task::Exec(s) => self.exec(s),
            Task::Discard => {
                if self.values.len() < 1 {
                    self.fail(RuntimeError::Protocol)
                } else {
                    let _ = self.pop_value();
                    Action::Continue
                }
            },
            Task::MakeArray(n) => self.make_array(n),
            Task::LoadIndex => self.load_index(),
            Task::StoreIndex => self.store_index(),
            Task::Assign(name) => self.assign(name),
            Task::Define(name) => self.define(name),
            Task::Unary(op) => self.unary(op),
            Task::Binary(op) => self.binary(op),
            Task::Call(n) => self.call(n),
            Task::Branch(t, e) => self.branch(t, e),
            Task::While(c, b) => {
                let cond = c.clone();
                self.push_task(Task::WhileTest(c, b));
                self.push_task(Task::Eval(cond));
                Action::Continue
            },
            Task::WhileTest(c, b) => self.while_test(c, b),
            Task::For(c, n, b) => self.for_round(c, n, b),
            Task::ForTest(c, n, b) => self.for_test(c, n, b),
            Task::ForNext(c, n, b) => self.for_next(c, n, b),
            Task::Restore(e) => {
                self.env = e;
                Action::Continue
            },
            Task::CallEnd(e) => {
                self.env = e;
                self.push_value(Value::Nil);
                Action::Continue
            },
            Task::Return => {
                if self.values.len() < 1 {
                    self.fail(RuntimeError::Protocol)
                } else {
                    let v = self.pop_value();
                    self.unwind(FlowControl::Return(v))
                }
            },
            Task::Stringify => self.stringify(),
            Task::Join(n) => self.join(n),
            Task::ConcatLeft => self.concat(true),
            Task::ConcatRight => self.concat(false),
            Task::PrintLine => {
                if self.texts.len() < 1 {
                    self.fail(RuntimeError::Protocol)
                } else {
                    let s = self.pop_text();
                    Action::Print(s)
                }
            },
            Task::PrintJoined(n) => self.print_joined(n),
            Task::AwaitNumber => match reply {
                Reply::Number(x) => {
                    self.push_value(Value::Number(x));
                    Action::Continue
                },
                _ => self.fail(RuntimeError::Protocol),
            },
            Task::AwaitText => match reply {
                Reply::Text(s) => {
                    self.push_text(s);
                    Action::Continue
                },
                _ => self.fail(RuntimeError::Protocol),
            },
            Task::AwaitDifference(negated) => match reply {
                Reply::Number(d) => {
                    self.push_value(Value::Bool(near_zero(d) != negated));
                    Action::Continue
                },
                _ => self.fail(RuntimeError::Protocol),
            },
            Task::AwaitFraction(n) => match reply {
                Reply::Number(d) => self.number_text(n, d),
                _ => self.fail(RuntimeError::Protocol),
            },
            Task::EndStatement => Action::Continue,
            Task::FinishExec => Action::Executed(FlowControl::Normal),
            Task::FinishEval => {
                if self.values.len() < 1 {
                    self.fail(RuntimeError::Protocol)
                } else {
                    let v = self.pop_value();
                    Action::Evaluated(v)
                }
            },
            Task::FinishText => {
                if self.texts.len() < 1 {
                    self.fail(RuntimeError::Protocol)
                } else {
                    let s = self.pop_text();
                    Action::Shown(s)
                }
            },
        }
    }

    /// Makes the machine ready to run one thing.
    fn load(&mut self, finish: Task, work: Task)
        ensures
            final(self)@ == old(self)@.loaded(finish@, work@),
    {
        let _ = self.fail(RuntimeError::Protocol);
        self.push_task(finish);
        self.push_task(work);
        assert(self@.tasks =~= seq![finish@, work@]);
    }

    /// Starts to execute a statement, and takes the first step. Whatever
    /// the machine was doing is left first, so the statement runs in the
    /// scope in which that work began. The host takes the
    /// further steps until one of them ends with [`Action::Executed`] or
    /// [`Action::Failed`].
    pub fn execute(&mut self, stmt: &Stmt) -> (r: Action)
        ensures
            (final(self)@, r@) == old(self)@.loaded(TaskView::FinishExec, TaskView::Exec(stmt@)).step(
                ReplyView::Nothing,
            ),
    {
        self.load(Task::FinishExec, Task::Exec(stmt.clone()));
        self.step(Reply::Nothing)
    }

    /// Starts to evaluate an expression, and takes the first step. Whatever
    /// the machine was doing is left first, so the expression is evaluated
    /// in the scope in which that work began. The host takes the
    /// further steps until one of them ends with [`Action::Evaluated`] or
    /// [`Action::Failed`].
    pub fn evaluate(&mut self, expr: &Expr) -> (r: Action)
        ensures
            (final(self)@, r@) == old(self)@.loaded(TaskView::FinishEval, TaskView::Eval(expr@)).step(
                ReplyView::Nothing,
            ),
    {
        self.load(Task::FinishEval, Task::Eval(expr.clone()));
        self.step(Reply::Nothing)
    }

    /// Binds one more built-in function in the global scope.
    fn add_builtin(&mut self, b: Builtin)
        ensures
            final(self)@ == old(self)@.with_builtin(b),
    {
        let mut params: Vec<String> = Vec::new();
        match b {
            Builtin::Imprimir => {},
            _ => {
                params.push(text_of("x"));
            },
        }
        assert(params.deep_view() =~= if b == Builtin::Imprimir {
            Seq::<Seq<char>>::empty()
        } else {
            seq!["x"@]
        });
        let f = Function { name: b.name(), params, body: Vec::new(), closure: self.globals };
        assert(stmts_view(f.body@) =~= Seq::<StmtView>::empty());
        let id = self.heap.functions.len();
        let ghost before = self.heap.functions.deep_view();
        self.heap.functions.push(f);
        assert(self.heap.functions.deep_view() =~= before.push(f@));
        self.environment.define(self.globals, b.name(), Value::Function(id));
    }

    /// A fresh interpreter, with the built-in functions bound in its global
    /// scope.
    pub fn new() -> (r: Interpreter)
        ensures
            r@ == InterpreterView::new(),
    {
        let mut it = Interpreter {
            environment: Environment::new(),
            heap: Heap { arrays: Vec::new(), functions: Vec::new() },
            globals: 0,
            env: 0,
            fonte: String::new(),
            tasks: Vec::new(),
            values: Vec::new(),
            texts: Vec::new(),
        };
        assert(it.heap.arrays.deep_view() =~= Seq::empty());
        assert(it.heap.functions.deep_view() =~= Seq::empty());
        assert(it.tasks.deep_view() =~= Seq::empty());
        assert(it.values.deep_view() =~= Seq::empty());
        assert(it.texts.deep_view() =~= Seq::empty());
        it.add_builtin(Builtin::Imprimir);
        it.add_builtin(Builtin::Comprimento);
        it.add_builtin(Builtin::Maiuscula);
        it.add_builtin(Builtin::Minuscula);
        it
    }
}

/// The built-in function that a function's name selects at a call, if any.
pub fn builtin_of(name: &String) -> (r: Option<Builtin>)
    ensures
        r == builtin_named(name@),
{
    if *name == text_of("imprimir") {
        Some(Builtin::Imprimir)
    } else if *name == text_of("comprimento") {
        Some(Builtin::Comprimento)
    } else if *name == text_of("maiuscula") {
        Some(Builtin::Maiuscula)
    } else if *name == text_of("minuscula") {
        Some(Builtin::Minuscula)
    } else {
        None
    }
}

impl Environment {
    /// Binds each parameter, in order, to the argument at its position, in
    /// `scope` itself.
    pub fn define_all(&mut self, scope: EnvRef, params: &Vec<String>, args: &Vec<Value>)
        requires
            params.len() == args.len(),
        ensures
            final(self)@ == old(self)@.define_all(scope, params.deep_view(), args.deep_view()),
    {
        let mut i: usize = 0;
        while i < params.len()
            invariant
                i <= params.len(),
                params.len() == args.len(),
                self@ == old(self)@.define_all(
                    scope,
                    params.deep_view().take(i as int),
                    args.deep_view().take(i as int),
                ),
            decreases params.len() - i,
        {
            assert(params.deep_view().take(i + 1).drop_last() =~= params.deep_view().take(i as int));
            assert(args.deep_view().take(i + 1).drop_last() =~= args.deep_view().take(i as int));
            self.define(scope, params[i].clone(), args[i].clone());
            i += 1;
        }
        assert(params.deep_view().take(params.len() as int) =~= params.deep_view());
        assert(args.deep_view().take(args.len() as int) =~= args.deep_view());
    }
}

impl Value {
    /// Turns the value into text: a text is its own, booleans and nil have
    /// fixed spellings, a function shows its name, a number is written
    /// without a decimal point where it is integral, and an array is
    /// written in brackets, its elements' texts between commas.
    ///
    /// Where the value has its text without further work (see
    /// [`ValueView::plain_text`]), the result is [`Action::Shown`] with that
    /// text, and the interpreter is left alone. For an array, and for a
    /// number that is no integer below 2^63, the interpreter is made ready,
    /// whatever it was doing, and takes the first step; the host takes the
    /// further steps until one of them ends with [`Action::Shown`] or
    /// [`Action::Failed`].
    pub fn to_string_repr(&self, interpreter: &mut Interpreter) -> (r: Action)
        ensures
            (final(interpreter)@, r@) == old(interpreter)@.show(self@),
    {
        match self.plain_text(&interpreter.heap) {
            Some(s) => Action::Shown(s),
            None => {
                interpreter.load(Task::FinishText, Task::Stringify);
                interpreter.push_value(self.clone());
                assert(interpreter@.values =~= seq![self@]);
                interpreter.step(Reply::Nothing)
            },
        }
    }
}

impl Function {
    /// Starts a call of the function: the number of arguments must be that
    /// of the parameters. The body then runs in a fresh scope enclosed by
    /// the scope in which the function was declared, not by the caller's.
    pub fn call(&self, interpreter: &mut Interpreter, args: Vec<Value>) -> (r: Action)
        ensures
            (final(interpreter)@, r@) == old(interpreter)@.enter(self@, args.deep_view()),
    {
        if args.len() != self.params.len() {
            return interpreter.fail(
                RuntimeError::Arity { expected: self.params.len(), got: args.len() },
            );
        }
        let caller = interpreter.env;
        interpreter.enter_scope(self.closure);
        interpreter.environment.define_all(interpreter.env, &self.params, &args);
        interpreter.push_task(Task::CallEnd(caller));
        interpreter.push_execs(copy_stmts(&self.body));
        Action::Continue
    }
}

/// What a source text stands for: its statements, or the error with which
/// parsing fails.
pub open spec fn spec_parse_source(source: Seq<char>) -> Result<Seq<StmtView>, SyntaxErrorView> {
    let tokens = LexerView::new(source).scan_all().0;
    match spec_syntax_error(tokens, recorded(program_failure(tokens, 0))) {
        Some(e) => Err(e),
        None => Ok(program(tokens)),
    }
}

/// Scans and parses a source text. Parsing fails where a declaration or a
/// statement of the text cannot be read to its end; no statement comes
/// back then.
pub fn parse_source(source: &str) -> (r: Result<Vec<Stmt>, SyntaxError>)
    ensures
        match spec_parse_source(source@) {
            Ok(stmts) => r is Ok && stmts_view(r->Ok_0@) == stmts,
            Err(e) => r is Err && r->Err_0@ == e,
        },
{
    let mut lexer = Lexer::new(source);
    let tokens = lexer.tokenize();
    let mut parser = Parser::new(tokens);
    let stmts = parser.parse();
    match parser.syntax_error() {
        Some(e) => Err(e),
        None => Ok(stmts),
    }
}

impl Interpreter {
    /// Starts to run a program, and takes the first step. Whatever the
    /// machine was doing is left first. The source text is kept for
    /// reports, scanned and parsed. Where parsing fails the result is
    /// [`Action::Rejected`] and nothing runs. Else the statements are run one
    /// after the other: the host takes the further steps until one of them
    /// ends with [`Action::Executed`], at the end of the program, or with
    /// [`Action::Failed`], at the first statement that fails.
    pub fn run(&mut self, source: &str) -> (r: Action)
        ensures
            (final(self)@, r@) == old(self)@.run(source@, spec_parse_source(source@)),
    {
        let parsed = parse_source(source);
        let _ = self.fail(RuntimeError::Protocol);
        self.fonte = text_of(source);
        match parsed {
            Ok(stmts) => {
                self.push_task(Task::FinishExec);
                assert(self@.tasks =~= seq![TaskView::FinishExec]);
                self.push_program(stmts);
                self.step(Reply::Nothing)
            },
            Err(e) => Action::Rejected(e),
        }
    }
}

} // verus!
