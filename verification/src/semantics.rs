//! What one step of the machine does, as a function on the machine's
//! mathematical state.

use vstd::prelude::*;
use crate::ast::{BinOp, ExprView, StmtView, UnarioOp};
use crate::environment::EnvironmentView;
use crate::errors::{Builtin, RuntimeErrorView, SyntaxErrorView};
use crate::machine::{ActionView, InterpreterView, NumberRequestView, ReplyView, TaskView};
use crate::number::{
    spec_is_beyond_integers, spec_is_zero, spec_less, spec_less_eq, spec_near_zero, spec_negate,
    spec_truncate, spec_whole,
};
use crate::text::{join_with, lowercase, signed_decimal, uppercase, utf8_len};
use crate::value::{EnvRef, FlowControlView, FunctionView, HeapView, ValueView};

verus! {

impl HeapView {
    /// The store with one more array. Its handle is the number of arrays before.
    pub open spec fn with_array(self, elems: Seq<ValueView>) -> HeapView {
        HeapView { arrays: self.arrays.push(elems), ..self }
    }

    /// The store with one more function. Its handle is the number of
    /// functions before.
    pub open spec fn with_function(self, f: FunctionView) -> HeapView {
        HeapView { functions: self.functions.push(f), ..self }
    }

    /// The elements behind an array handle; none behind a handle that names
    /// no array.
    pub open spec fn elements(self, a: usize) -> Seq<ValueView> {
        if a < self.arrays.len() {
            self.arrays[a as int]
        } else {
            Seq::empty()
        }
    }

    /// The store after element `i` of array `a` is replaced.
    pub open spec fn with_element(self, a: usize, i: int, v: ValueView) -> HeapView {
        HeapView { arrays: self.arrays.update(a as int, self.arrays[a as int].update(i, v)), ..self }
    }
}

impl EnvironmentView {
    /// The chain after each parameter is bound, in order, to the argument at
    /// its position, in `scope` itself.
    pub open spec fn define_all(
        self,
        scope: EnvRef,
        params: Seq<Seq<char>>,
        args: Seq<ValueView>,
    ) -> EnvironmentView
        decreases params.len(),
    {
        if params.len() == 0 || args.len() != params.len() {
            self
        } else {
            self.define_all(scope, params.drop_last(), args.drop_last()).define(
                scope,
                params.last(),
                args.last(),
            )
        }
    }
}

/// The built-in function that a function's name selects at a call, if any.
pub open spec fn builtin_named(name: Seq<char>) -> Option<Builtin> {
    if name == "imprimir"@ {
        Some(Builtin::Imprimir)
    } else if name == "comprimento"@ {
        Some(Builtin::Comprimento)
    } else if name == "maiuscula"@ {
        Some(Builtin::Maiuscula)
    } else if name == "minuscula"@ {
        Some(Builtin::Minuscula)
    } else {
        None
    }
}

impl InterpreterView {
    /// Tasks to evaluate the expressions: the first expression ends up on top.
    pub open spec fn push_evals(self, exprs: Seq<ExprView>) -> InterpreterView
        decreases exprs.len(),
    {
        if exprs.len() == 0 {
            self
        } else {
            self.push_task(TaskView::Eval(exprs.last())).push_evals(exprs.drop_last())
        }
    }

    /// Tasks to execute the statements: the first statement ends up on top.
    pub open spec fn push_execs(self, stmts: Seq<StmtView>) -> InterpreterView
        decreases stmts.len(),
    {
        if stmts.len() == 0 {
            self
        } else {
            self.push_task(TaskView::Exec(stmts.last())).push_execs(stmts.drop_last())
        }
    }

    /// Tasks to run the statements as a program: the first statement ends
    /// up on top, and below each statement lies its end.
    pub open spec fn push_program(self, stmts: Seq<StmtView>) -> InterpreterView
        decreases stmts.len(),
    {
        if stmts.len() == 0 {
            self
        } else {
            self.push_task(TaskView::EndStatement).push_task(
                TaskView::Exec(stmts.last()),
            ).push_program(stmts.drop_last())
        }
    }

    /// The values pushed so that the first of them ends up on top.
    pub open spec fn push_values_reversed(self, vals: Seq<ValueView>) -> InterpreterView
        decreases vals.len(),
    {
        if vals.len() == 0 {
            self
        } else {
            self.push_value(vals.last()).push_values_reversed(vals.drop_last())
        }
    }

    /// As many tasks to turn a value into text as given.
    pub open spec fn push_stringify(self, n: nat) -> InterpreterView
        decreases n,
    {
        if n == 0 {
            self
        } else {
            self.push_task(TaskView::Stringify).push_stringify((n - 1) as nat)
        }
    }

    /// The topmost values, as many as given, bottom first.
    pub open spec fn top_values(self, n: int) -> Seq<ValueView> {
        self.values.subrange(self.values.len() - n, self.values.len() as int)
    }

    /// The topmost texts, as many as given, bottom first.
    pub open spec fn top_texts(self, n: int) -> Seq<Seq<char>> {
        self.texts.subrange(self.texts.len() - n, self.texts.len() as int)
    }

    /// The state with a fresh scope, enclosed by `enclosing`, as the current one.
    pub open spec fn enter_scope(self, enclosing: EnvRef) -> InterpreterView {
        InterpreterView {
            environment: self.environment.with_enclosing(enclosing),
            env: self.environment.scopes.len() as usize,
            ..self
        }
    }

    /// A signal travels down the tasks until something takes it. A scope that
    /// it leaves is left; a loop takes `quebrar` and `continuar`; the end of a
    /// function body takes `retornar` and refuses the other two; the end of a
    /// statement of a program takes whatever arrives and lets the program go
    /// on; the end of the work given to the machine takes whatever arrives
    /// and hands it out.
    pub open spec fn unwind(self, signal: FlowControlView) -> (InterpreterView, ActionView)
        decreases self.tasks.len(),
    {
        if self.tasks.len() == 0 {
            self.fail(RuntimeErrorView::Protocol)
        } else {
            let m = self.pop_task();
            match self.tasks.last() {
                TaskView::Restore(e) => m.with_env(e).unwind(signal),
                TaskView::CallEnd(e) => match signal {
                    FlowControlView::Return(v) => m.with_env(e).push_value(v).proceed(),
                    _ => m.with_env(e).fail(RuntimeErrorView::LoopSignalInFunction),
                },
                TaskView::While(_, _) | TaskView::ForNext(_, _, _) => match signal {
                    FlowControlView::Break => m.proceed(),
                    FlowControlView::Continue => self.proceed(),
                    _ => m.unwind(signal),
                },
                TaskView::EndStatement => m.proceed(),
                TaskView::FinishExec | TaskView::FinishEval | TaskView::FinishText => (
                    m,
                    ActionView::Executed(signal),
                ),
                _ => m.unwind(signal),
            }
        }
    }

    /// Evaluation of an expression begins: literals and names give their
    /// value at once, a numeral is sent to the host, and a compound
    /// expression leaves tasks for its parts, leftmost first, and for itself.
    pub open spec fn eval(self, e: ExprView) -> (InterpreterView, ActionView) {
        match e {
            ExprView::Numero(t) => (
                self.push_task(TaskView::AwaitNumber),
                ActionView::Ask(NumberRequestView::Parse(t)),
            ),
            ExprView::Texto(s) => self.push_value(ValueView::Text(s)).proceed(),
            ExprView::Bool(b) => self.push_value(ValueView::Bool(b)).proceed(),
            ExprView::Nulo => self.push_value(ValueView::Nil).proceed(),
            ExprView::Var(name) => match self.environment.get(self.env, name) {
                Ok(v) => self.push_value(v).proceed(),
                Err(e) => self.fail(e),
            },
            ExprView::Array(elems) => self.push_task(
                TaskView::MakeArray(elems.len() as usize),
            ).push_evals(elems).proceed(),
            ExprView::Index(a, i) => self.push_task(TaskView::LoadIndex).push_task(
                TaskView::Eval(*i),
            ).push_task(TaskView::Eval(*a)).proceed(),
            ExprView::Atribuir(n, v) => self.push_task(TaskView::Assign(n)).push_task(
                TaskView::Eval(*v),
            ).proceed(),
            ExprView::AtribuirIndex(a, i, v) => self.push_task(TaskView::StoreIndex).push_task(
                TaskView::Eval(*v),
            ).push_task(TaskView::Eval(*i)).push_task(TaskView::Eval(*a)).proceed(),
            ExprView::Unario(op, r) => self.push_task(TaskView::Unary(op)).push_task(
                TaskView::Eval(*r),
            ).proceed(),
            ExprView::Binario(l, op, r) => self.push_task(TaskView::Binary(op)).push_task(
                TaskView::Eval(*r),
            ).push_task(TaskView::Eval(*l)).proceed(),
            ExprView::Chamada(c, args) => self.push_task(
                TaskView::Call(args.len() as usize),
            ).push_evals(args).push_task(TaskView::Eval(*c)).proceed(),
        }
    }

    /// Execution of a statement begins.
    pub open spec fn exec(self, s: StmtView) -> (InterpreterView, ActionView) {
        match s {
            StmtView::ExprStmt(e) => self.push_task(TaskView::Discard).push_task(
                TaskView::Eval(e),
            ).proceed(),
            StmtView::Imprimir(e) => self.push_task(TaskView::PrintLine).push_task(
                TaskView::Stringify,
            ).push_task(TaskView::Eval(e)).proceed(),
            StmtView::VarDecl(n, e) => self.push_task(TaskView::Define(n)).push_task(
                TaskView::Eval(e),
            ).proceed(),
            StmtView::Bloco(stmts) => self.enter_scope(self.env).push_task(
                TaskView::Restore(self.env),
            ).push_execs(stmts).proceed(),
            StmtView::If(c, t, e) => self.push_task(
                TaskView::Branch(
                    *t,
                    match e {
                        Some(b) => Some(*b),
                        None => None,
                    },
                ),
            ).push_task(TaskView::Eval(c)).proceed(),
            StmtView::While(c, b) => self.push_task(TaskView::While(c, *b)).proceed(),
            StmtView::For(i, c, n, b) => {
                let m = self.enter_scope(self.env).push_task(TaskView::Restore(self.env)).push_task(
                    TaskView::For(c, n, *b),
                );
                match i {
                    Some(s) => m.push_task(TaskView::Exec(*s)).proceed(),
                    None => m.proceed(),
                }
            },
            StmtView::FuncDecl(name, params, body) => {
                let f = FunctionView { name, params, body, closure: self.env };
                let id = self.heap.functions.len() as usize;
                InterpreterView {
                    heap: self.heap.with_function(f),
                    environment: self.environment.define(self.env, name, ValueView::Function(id)),
                    ..self
                }.proceed()
            },
            StmtView::Return(e) => match e {
                Some(e) => self.push_task(TaskView::Return).push_task(TaskView::Eval(e)).proceed(),
                None => self.push_task(TaskView::Return).push_value(ValueView::Nil).proceed(),
            },
            StmtView::Break => self.unwind(FlowControlView::Break),
            StmtView::Continue => self.unwind(FlowControlView::Continue),
        }
    }

    /// A prefix operator meets its operand.
    pub open spec fn unary(self, op: UnarioOp) -> (InterpreterView, ActionView) {
        if self.values.len() < 1 {
            self.fail(RuntimeErrorView::Protocol)
        } else {
            let v = self.value(0);
            let m = self.drop_values(1);
            match op {
                UnarioOp::Neg => match v {
                    ValueView::Number(n) => m.push_value(ValueView::Number(spec_negate(n))).proceed(),
                    _ => m.fail(RuntimeErrorView::NegateOperand),
                },
                UnarioOp::Nao => m.push_value(ValueView::Bool(!v.is_truthy(m.heap))).proceed(),
            }
        }
    }

    /// An infix operator meets its operands. Sums, differences, products and
    /// quotients of numbers are the host's; so is the difference by which two
    /// numbers are compared for equality. Everything else is decided here.
    pub open spec fn binary(self, op: BinOp) -> (InterpreterView, ActionView) {
        if self.values.len() < 2 {
            self.fail(RuntimeErrorView::Protocol)
        } else {
            let r = self.value(0);
            let l = self.value(1);
            let m = self.drop_values(2);
            match op {
                BinOp::Add => match (l, r) {
                    (ValueView::Number(a), ValueView::Number(b)) => (
                        m.push_task(TaskView::AwaitNumber),
                        ActionView::Ask(NumberRequestView::Add(a, b)),
                    ),
                    (ValueView::Text(a), ValueView::Text(b)) => m.push_value(
                        ValueView::Text(a + b),
                    ).proceed(),
                    (ValueView::Text(_), _) => m.push_value(l).push_value(r).push_task(
                        TaskView::ConcatLeft,
                    ).push_task(TaskView::Stringify).proceed(),
                    (_, ValueView::Text(_)) => m.push_value(r).push_value(l).push_task(
                        TaskView::ConcatRight,
                    ).push_task(TaskView::Stringify).proceed(),
                    _ => m.fail(RuntimeErrorView::AddOperands),
                },
                BinOp::Sub => match (l, r) {
                    (ValueView::Number(a), ValueView::Number(b)) => (
                        m.push_task(TaskView::AwaitNumber),
                        ActionView::Ask(NumberRequestView::Sub(a, b)),
                    ),
                    _ => m.fail(RuntimeErrorView::NumberOperands(op)),
                },
                BinOp::Mul => match (l, r) {
                    (ValueView::Number(a), ValueView::Number(b)) => (
                        m.push_task(TaskView::AwaitNumber),
                        ActionView::Ask(NumberRequestView::Mul(a, b)),
                    ),
                    _ => m.fail(RuntimeErrorView::NumberOperands(op)),
                },
                BinOp::Div => match (l, r) {
                    (ValueView::Number(a), ValueView::Number(b)) => if spec_is_zero(b) {
                        m.fail(RuntimeErrorView::DivisionByZero)
                    } else {
                        (
                            m.push_task(TaskView::AwaitNumber),
                            ActionView::Ask(NumberRequestView::Div(a, b)),
                        )
                    },
                    _ => m.fail(RuntimeErrorView::NumberOperands(op)),
                },
                BinOp::Eq | BinOp::Neq => match (l, r) {
                    (ValueView::Number(a), ValueView::Number(b)) => (
                        m.push_task(TaskView::AwaitDifference(op == BinOp::Neq)),
                        ActionView::Ask(NumberRequestView::Sub(a, b)),
                    ),
                    _ => m.push_value(
                        ValueView::Bool(l.equals_exactly(r) != (op == BinOp::Neq)),
                    ).proceed(),
                },
                BinOp::Lt | BinOp::Gt | BinOp::Le | BinOp::Ge => match (l, r) {
                    (ValueView::Number(a), ValueView::Number(b)) => m.push_value(
                        ValueView::Bool(
                            match op {
                                BinOp::Lt => spec_less(a, b),
                                BinOp::Gt => spec_less(b, a),
                                BinOp::Le => spec_less_eq(a, b),
                                _ => spec_less_eq(b, a),
                            },
                        ),
                    ).proceed(),
                    _ => m.fail(RuntimeErrorView::NumberOperands(op)),
                },
                BinOp::And => m.push_value(
                    ValueView::Bool(l.is_truthy(m.heap) && r.is_truthy(m.heap)),
                ).proceed(),
                BinOp::Or => m.push_value(
                    ValueView::Bool(l.is_truthy(m.heap) || r.is_truthy(m.heap)),
                ).proceed(),
            }
        }
    }

    /// The topmost value is assigned to a name and stays as the result.
    pub open spec fn assign(self, name: Seq<char>) -> (InterpreterView, ActionView) {
        if self.values.len() < 1 {
            self.fail(RuntimeErrorView::Protocol)
        } else {
            match self.environment.assign(self.env, name, self.value(0)) {
                Ok(e) => InterpreterView { environment: e, ..self }.proceed(),
                Err(e) => self.fail(e),
            }
        }
    }

    /// The topmost value is bound to a name in the current scope.
    pub open spec fn define(self, name: Seq<char>) -> (InterpreterView, ActionView) {
        if self.values.len() < 1 {
            self.fail(RuntimeErrorView::Protocol)
        } else {
            let m = self.drop_values(1);
            InterpreterView {
                environment: m.environment.define(m.env, name, self.value(0)),
                ..m
            }.proceed()
        }
    }

    /// The topmost values become a new array.
    pub open spec fn make_array(self, n: usize) -> (InterpreterView, ActionView) {
        if self.values.len() < n {
            self.fail(RuntimeErrorView::Protocol)
        } else {
            let m = self.drop_values(n as int);
            InterpreterView { heap: m.heap.with_array(self.top_values(n as int)), ..m }.push_value(
                ValueView::Array(m.heap.arrays.len() as usize),
            ).proceed()
        }
    }

    /// An element is read. The index is truncated toward zero; it must not be
    /// negative and must lie below the container's length. An element of a
    /// text is the text of one character, and the length of a text is the
    /// number of its characters.
    pub open spec fn load_index(self) -> (InterpreterView, ActionView) {
        if self.values.len() < 2 {
            self.fail(RuntimeErrorView::Protocol)
        } else {
            let m = self.drop_values(2);
            match (self.value(1), self.value(0)) {
                (ValueView::Array(a), ValueView::Number(n)) => {
                    let i = spec_truncate(n);
                    let elems = m.heap.elements(a);
                    if 0 <= i < elems.len() {
                        m.push_value(elems[i as int]).proceed()
                    } else {
                        m.fail(
                            RuntimeErrorView::IndexOutOfBounds { index: i, len: elems.len() as usize },
                        )
                    }
                },
                (ValueView::Text(s), ValueView::Number(n)) => {
                    let i = spec_truncate(n);
                    if 0 <= i < s.len() {
                        m.push_value(ValueView::Text(seq![s[i as int]])).proceed()
                    } else {
                        m.fail(
                            RuntimeErrorView::IndexOutOfBounds { index: i, len: s.len() as usize },
                        )
                    }
                },
                _ => m.fail(RuntimeErrorView::NotIndexable),
            }
        }
    }

    /// An element of an array is replaced; the new value is the result.
    pub open spec fn store_index(self) -> (InterpreterView, ActionView) {
        if self.values.len() < 3 {
            self.fail(RuntimeErrorView::Protocol)
        } else {
            let m = self.drop_values(3);
            let v = self.value(0);
            match (self.value(2), self.value(1)) {
                (ValueView::Array(a), ValueView::Number(n)) => {
                    let i = spec_truncate(n);
                    let elems = m.heap.elements(a);
                    if 0 <= i < elems.len() {
                        InterpreterView { heap: m.heap.with_element(a, i as int, v), ..m }.push_value(
                            v,
                        ).proceed()
                    } else {
                        m.fail(
                            RuntimeErrorView::IndexOutOfBounds { index: i, len: elems.len() as usize },
                        )
                    }
                },
                _ => m.fail(RuntimeErrorView::NotIndexAssignable),
            }
        }
    }

    /// One of two statements is chosen by the topmost value.
    pub open spec fn branch(self, t: StmtView, e: Option<StmtView>) -> (
        InterpreterView,
        ActionView,
    ) {
        if self.values.len() < 1 {
            self.fail(RuntimeErrorView::Protocol)
        } else {
            let m = self.drop_values(1);
            if self.value(0).is_truthy(m.heap) {
                m.push_task(TaskView::Exec(t)).proceed()
            } else {
                match e {
                    Some(s) => m.push_task(TaskView::Exec(s)).proceed(),
                    None => m.proceed(),
                }
            }
        }
    }

    /// A `while` loop runs its body once more, or ends.
    pub open spec fn while_test(self, c: ExprView, b: StmtView) -> (InterpreterView, ActionView) {
        if self.values.len() < 1 {
            self.fail(RuntimeErrorView::Protocol)
        } else {
            let m = self.drop_values(1);
            if self.value(0).is_truthy(m.heap) {
                m.push_task(TaskView::While(c, b)).push_task(TaskView::Exec(b)).proceed()
            } else {
                m.proceed()
            }
        }
    }

    /// A `for` loop evaluates its condition; a loop without one goes on.
    pub open spec fn for_round(self, c: Option<ExprView>, n: Option<ExprView>, b: StmtView) -> (
        InterpreterView,
        ActionView,
    ) {
        match c {
            Some(e) => self.push_task(TaskView::ForTest(c, n, b)).push_task(
                TaskView::Eval(e),
            ).proceed(),
            None => self.push_task(TaskView::ForTest(c, n, b)).push_value(
                ValueView::Bool(true),
            ).proceed(),
        }
    }

    /// A `for` loop runs its body once more, or ends.
    pub open spec fn for_test(self, c: Option<ExprView>, n: Option<ExprView>, b: StmtView) -> (
        InterpreterView,
        ActionView,
    ) {
        if self.values.len() < 1 {
            self.fail(RuntimeErrorView::Protocol)
        } else {
            let m = self.drop_values(1);
            if self.value(0).is_truthy(m.heap) {
                m.push_task(TaskView::ForNext(c, n, b)).push_task(TaskView::Exec(b)).proceed()
            } else {
                m.proceed()
            }
        }
    }

    /// A `for` loop evaluates its increment and starts the next round.
    pub open spec fn for_next(self, c: Option<ExprView>, n: Option<ExprView>, b: StmtView) -> (
        InterpreterView,
        ActionView,
    ) {
        match n {
            Some(e) => self.push_task(TaskView::For(c, n, b)).push_task(TaskView::Discard).push_task(
                TaskView::Eval(e),
            ).proceed(),
            None => self.push_task(TaskView::For(c, n, b)).proceed(),
        }
    }

    /// The body of a function starts to run in a fresh scope enclosed by the
    /// function's closure, with the parameters bound to the arguments.
    pub open spec fn enter(self, f: FunctionView, args: Seq<ValueView>) -> (
        InterpreterView,
        ActionView,
    ) {
        if args.len() != f.params.len() {
            self.fail(
                RuntimeErrorView::Arity {
                    expected: f.params.len() as usize,
                    got: args.len() as usize,
                },
            )
        } else {
            let m = self.enter_scope(f.closure);
            InterpreterView {
                environment: m.environment.define_all(m.env, f.params, args),
                ..m
            }.push_task(TaskView::CallEnd(self.env)).push_execs(f.body).proceed()
        }
    }

    /// A built-in function is applied to its arguments.
    pub open spec fn call_builtin(self, b: Builtin, args: Seq<ValueView>) -> (
        InterpreterView,
        ActionView,
    ) {
        match b {
            Builtin::Imprimir => self.push_values_reversed(args).push_task(
                TaskView::PrintJoined(args.len() as usize),
            ).push_stringify(args.len()).proceed(),
            Builtin::Comprimento => if args.len() != 1 {
                self.fail(RuntimeErrorView::BuiltinArity(b))
            } else {
                match args[0] {
                    ValueView::Text(s) => (
                        self.push_task(TaskView::AwaitNumber),
                        ActionView::Ask(NumberRequestView::FromLength(utf8_len(s) as usize)),
                    ),
                    ValueView::Array(a) => (
                        self.push_task(TaskView::AwaitNumber),
                        ActionView::Ask(
                            NumberRequestView::FromLength(self.heap.elements(a).len() as usize),
                        ),
                    ),
                    _ => self.fail(RuntimeErrorView::BuiltinArgument(b)),
                }
            },
            Builtin::Maiuscula => if args.len() != 1 {
                self.fail(RuntimeErrorView::BuiltinArity(b))
            } else {
                match args[0] {
                    ValueView::Text(s) => self.push_value(ValueView::Text(uppercase(s))).proceed(),
                    _ => self.fail(RuntimeErrorView::BuiltinArgument(b)),
                }
            },
            Builtin::Minuscula => if args.len() != 1 {
                self.fail(RuntimeErrorView::BuiltinArity(b))
            } else {
                match args[0] {
                    ValueView::Text(s) => self.push_value(ValueView::Text(lowercase(s))).proceed(),
                    _ => self.fail(RuntimeErrorView::BuiltinArgument(b)),
                }
            },
        }
    }

    /// A call: the callee lies below its arguments. It must be a function. A
    /// function that bears the name of a built-in is that built-in.
    pub open spec fn call(self, n: usize) -> (InterpreterView, ActionView) {
        if self.values.len() < n + 1 {
            self.fail(RuntimeErrorView::Protocol)
        } else {
            let args = self.top_values(n as int);
            let m = self.drop_values(n + 1);
            match self.value(n as int) {
                ValueView::Function(f) => if f < m.heap.functions.len() {
                    let fun = m.heap.functions[f as int];
                    match builtin_named(fun.name) {
                        Some(b) => m.call_builtin(b, args),
                        None => m.enter(fun, args),
                    }
                } else {
                    m.fail(RuntimeErrorView::NotCallable)
                },
                _ => m.fail(RuntimeErrorView::NotCallable),
            }
        }
    }

    /// The topmost value becomes text: at once where it has a text of its
    /// own, element by element for an array. A number that is no integer
    /// may still be written as one: the host is asked for its fractional
    /// part, the difference between the number and its whole part. The text
    /// of what is no finite number is asked of the host.
    pub open spec fn stringify(self) -> (InterpreterView, ActionView) {
        if self.values.len() < 1 {
            self.fail(RuntimeErrorView::Protocol)
        } else {
            let m = self.drop_values(1);
            let v = self.value(0);
            match v.plain_text(m.heap) {
                Some(s) => m.push_text(s).proceed(),
                None => match v {
                    ValueView::Number(n) => if spec_is_beyond_integers(n) {
                        (
                            m.push_task(TaskView::AwaitText),
                            ActionView::Ask(NumberRequestView::Format(n)),
                        )
                    } else {
                        (
                            m.push_task(TaskView::AwaitFraction(n)),
                            ActionView::Ask(NumberRequestView::Sub(n, spec_whole(n))),
                        )
                    },
                    ValueView::Array(a) => {
                        let elems = m.heap.elements(a);
                        m.push_values_reversed(elems).push_task(
                            TaskView::Join(elems.len() as usize),
                        ).push_stringify(elems.len()).proceed()
                    },
                    _ => m.fail(RuntimeErrorView::Protocol),
                },
            }
        }
    }

    /// The text of a number, once its fractional part is known. A number
    /// below 2^63 in absolute value whose fractional part is within the
    /// tolerance is written as an integer: the decimal numeral of the
    /// number truncated, without a decimal point. For any other number the
    /// host is asked.
    pub open spec fn number_text(self, n: u64, fraction: u64) -> (InterpreterView, ActionView) {
        if spec_near_zero(fraction) && !spec_is_beyond_integers(n) {
            self.push_text(signed_decimal(spec_truncate(n) as int)).proceed()
        } else {
            (self.push_task(TaskView::AwaitText), ActionView::Ask(NumberRequestView::Format(n)))
        }
    }

    /// The texts of an array's elements become the array's text.
    pub open spec fn join(self, n: usize) -> (InterpreterView, ActionView) {
        if self.texts.len() < n {
            self.fail(RuntimeErrorView::Protocol)
        } else {
            self.drop_texts(n as int).push_text(
                "["@ + join_with(self.top_texts(n as int), ", "@) + "]"@,
            ).proceed()
        }
    }

    /// The texts of the arguments of `imprimir` go out as one line.
    pub open spec fn print_joined(self, n: usize) -> (InterpreterView, ActionView) {
        if self.texts.len() < n {
            self.fail(RuntimeErrorView::Protocol)
        } else {
            (
                self.drop_texts(n as int).push_value(ValueView::Nil),
                ActionView::Print(join_with(self.top_texts(n as int), " "@)),
            )
        }
    }

    /// A text value and the text of the other operand of `+` become one text.
    pub open spec fn concat(self, text_first: bool) -> (InterpreterView, ActionView) {
        if self.values.len() < 1 || self.texts.len() < 1 {
            self.fail(RuntimeErrorView::Protocol)
        } else {
            let t = self.texts.last();
            let m = self.drop_values(1).drop_texts(1);
            match self.value(0) {
                ValueView::Text(s) => m.push_value(
                    ValueView::Text(
                        if text_first {
                            s + t
                        } else {
                            t + s
                        },
                    ),
                ).proceed(),
                _ => m.fail(RuntimeErrorView::Protocol),
            }
        }
    }

    /// One step: the topmost task is taken off and carried out.
    pub open spec fn step(self, reply: ReplyView) -> (InterpreterView, ActionView) {
        if self.tasks.len() == 0 {
            self.fail(RuntimeErrorView::Protocol)
        } else {
            let m = self.pop_task();
            match self.tasks.last() {
                TaskView::Eval(e) => m.eval(e),
                TaskView::Exec(s) => m.exec(s),
                TaskView::Discard => if m.values.len() < 1 {
                    m.fail(RuntimeErrorView::Protocol)
                } else {
                    m.drop_values(1).proceed()
                },
                TaskView::MakeArray(n) => m.make_array(n),
                TaskView::LoadIndex => m.load_index(),
                TaskView::StoreIndex => m.store_index(),
                TaskView::Assign(name) => m.assign(name),
                TaskView::Define(name) => m.define(name),
                TaskView::Unary(op) => m.unary(op),
                TaskView::Binary(op) => m.binary(op),
                TaskView::Call(n) => m.call(n),
                TaskView::Branch(t, e) => m.branch(t, e),
                TaskView::While(c, b) => m.push_task(TaskView::WhileTest(c, b)).push_task(
                    TaskView::Eval(c),
                ).proceed(),
                TaskView::WhileTest(c, b) => m.while_test(c, b),
                TaskView::For(c, n, b) => m.for_round(c, n, b),
                TaskView::ForTest(c, n, b) => m.for_test(c, n, b),
                TaskView::ForNext(c, n, b) => m.for_next(c, n, b),
                TaskView::Restore(e) => m.with_env(e).proceed(),
                TaskView::CallEnd(e) => m.with_env(e).push_value(ValueView::Nil).proceed(),
                TaskView::Return => if m.values.len() < 1 {
                    m.fail(RuntimeErrorView::Protocol)
                } else {
                    m.drop_values(1).unwind(FlowControlView::Return(m.value(0)))
                },
                TaskView::Stringify => m.stringify(),
                TaskView::Join(n) => m.join(n),
                TaskView::ConcatLeft => m.concat(true),
                TaskView::ConcatRight => m.concat(false),
                TaskView::PrintLine => if m.texts.len() < 1 {
                    m.fail(RuntimeErrorView::Protocol)
                } else {
                    (m.drop_texts(1), ActionView::Print(m.texts.last()))
                },
                TaskView::PrintJoined(n) => m.print_joined(n),
                TaskView::AwaitNumber => match reply {
                    ReplyView::Number(x) => m.push_value(ValueView::Number(x)).proceed(),
                    _ => m.fail(RuntimeErrorView::Protocol),
                },
                TaskView::AwaitText => match reply {
                    ReplyView::Text(s) => m.push_text(s).proceed(),
                    _ => m.fail(RuntimeErrorView::Protocol),
                },
                TaskView::AwaitDifference(negated) => match reply {
                    ReplyView::Number(d) => m.push_value(
                        ValueView::Bool(spec_near_zero(d) != negated),
                    ).proceed(),
                    _ => m.fail(RuntimeErrorView::Protocol),
                },
                TaskView::AwaitFraction(n) => match reply {
                    ReplyView::Number(d) => m.number_text(n, d),
                    _ => m.fail(RuntimeErrorView::Protocol),
                },
                TaskView::EndStatement => m.proceed(),
                TaskView::FinishExec => (m, ActionView::Executed(FlowControlView::Normal)),
                TaskView::FinishEval => if m.values.len() < 1 {
                    m.fail(RuntimeErrorView::Protocol)
                } else {
                    (m.drop_values(1), ActionView::Evaluated(m.value(0)))
                },
                TaskView::FinishText => if m.texts.len() < 1 {
                    m.fail(RuntimeErrorView::Protocol)
                } else {
                    (m.drop_texts(1), ActionView::Shown(m.texts.last()))
                },
            }
        }
    }

    /// The machine made ready to run one thing: the stacks are emptied and
    /// the tasks given are all that is left to do.
    pub open spec fn loaded(self, finish: TaskView, work: TaskView) -> InterpreterView {
        InterpreterView { tasks: seq![finish, work], ..self.halted() }
    }

    /// The machine made ready to run a program: the stacks are emptied,
    /// the source text is kept, and the statements are all that is left
    /// to do.
    pub open spec fn running(self, source: Seq<char>, stmts: Seq<StmtView>) -> InterpreterView {
        InterpreterView {
            fonte: source,
            tasks: seq![TaskView::FinishExec],
            ..self.halted()
        }.push_program(stmts)
    }

    /// A program is given to the machine. Where it could not be parsed
    /// nothing of it runs: the machine halts, keeps the source text, and the
    /// error goes to the host. Else the machine is made ready to run the
    /// statements and takes its first step.
    pub open spec fn run(
        self,
        source: Seq<char>,
        parsed: Result<Seq<StmtView>, SyntaxErrorView>,
    ) -> (InterpreterView, ActionView) {
        match parsed {
            Ok(stmts) => self.running(source, stmts).step(ReplyView::Nothing),
            Err(e) => (
                InterpreterView { fonte: source, ..self.halted() },
                ActionView::Rejected(e),
            ),
        }
    }

    /// The machine made ready to turn a value into text.
    pub open spec fn showing(self, v: ValueView) -> InterpreterView {
        InterpreterView {
            tasks: seq![TaskView::FinishText, TaskView::Stringify],
            values: seq![v],
            ..self.halted()
        }
    }

    /// A value is turned into text. Where the value has a text without
    /// further work, that text is the result at once and the machine is
    /// left alone. Else the machine is made ready and takes its first step.
    pub open spec fn show(self, v: ValueView) -> (InterpreterView, ActionView) {
        match v.plain_text(self.heap) {
            Some(s) => (self, ActionView::Shown(s)),
            None => self.showing(v).step(ReplyView::Nothing),
        }
    }

    /// The state with one more built-in function bound in the global scope.
    /// `imprimir` takes any number of arguments, the others one.
    pub open spec fn with_builtin(self, b: Builtin) -> InterpreterView {
        let f = FunctionView {
            name: b.spec_name(),
            params: if b == Builtin::Imprimir {
                Seq::empty()
            } else {
                seq!["x"@]
            },
            body: Seq::empty(),
            closure: self.globals,
        };
        InterpreterView {
            heap: self.heap.with_function(f),
            environment: self.environment.define(
                self.globals,
                b.spec_name(),
                ValueView::Function(self.heap.functions.len() as usize),
            ),
            ..self
        }
    }

    /// A fresh interpreter: the global scope holds the built-in functions
    /// and nothing else, and nothing is left to do.
    pub open spec fn new() -> InterpreterView {
        InterpreterView {
            environment: EnvironmentView::new(),
            heap: HeapView { arrays: Seq::empty(), functions: Seq::empty() },
            globals: 0,
            env: 0,
            fonte: Seq::empty(),
            tasks: Seq::empty(),
            values: Seq::empty(),
            texts: Seq::empty(),
        }.with_builtin(Builtin::Imprimir).with_builtin(Builtin::Comprimento).with_builtin(
            Builtin::Maiuscula,
        ).with_builtin(Builtin::Minuscula)
    }
}

} // verus!
