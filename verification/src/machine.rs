//! The state of the abstract machine and what it exchanges with its host.
//!
//! The machine keeps what is left to do as a stack of [`Task`]s, the values
//! that tasks hand to one another as a second stack, and pieces of text that
//! are being put together as a third. One step takes the topmost task and
//! carries it out. Work that the machine cannot do itself leaves it as an
//! [`Action`]; the host's answer comes back with the next step as a [`Reply`].

use vstd::prelude::*;
use crate::ast::{BinOp, Expr, ExprView, Stmt, StmtView, UnarioOp};
use crate::environment::{Environment, EnvironmentView};
use crate::errors::{RuntimeError, RuntimeErrorView, SyntaxError, SyntaxErrorView};
use crate::value::{EnvRef, FlowControl, FlowControlView, Heap, HeapView, Value, ValueView};

verus! {

/// Arithmetic that the host does for the machine. Numbers travel as bit
/// patterns of binary64 values.
#[derive(Debug)]
pub enum NumberRequest {
    /// The number that a numeral denotes; zero for a malformed numeral.
    /// Answered with [`Reply::Number`].
    Parse(String),
    /// The text of a number: the shortest decimal numeral that denotes it.
    /// Answered with [`Reply::Text`].
    Format(u64),
    /// The sum of two numbers. Answered with [`Reply::Number`].
    Add(u64, u64),
    /// The difference of two numbers. Answered with [`Reply::Number`].
    Sub(u64, u64),
    /// The product of two numbers. Answered with [`Reply::Number`].
    Mul(u64, u64),
    /// The quotient of two numbers. Answered with [`Reply::Number`].
    Div(u64, u64),
    /// The number nearest to a count. Answered with [`Reply::Number`].
    FromLength(usize),
}

/// The mathematical value of a [`NumberRequest`].
pub enum NumberRequestView {
    Parse(Seq<char>),
    Format(u64),
    Add(u64, u64),
    Sub(u64, u64),
    Mul(u64, u64),
    Div(u64, u64),
    FromLength(usize),
}

impl DeepView for NumberRequest {
    type V = NumberRequestView;

    open spec fn deep_view(&self) -> NumberRequestView {
        match self {
            NumberRequest::Parse(s) => NumberRequestView::Parse(s@),
            NumberRequest::Format(n) => NumberRequestView::Format(*n),
            NumberRequest::Add(a, b) => NumberRequestView::Add(*a, *b),
            NumberRequest::Sub(a, b) => NumberRequestView::Sub(*a, *b),
            NumberRequest::Mul(a, b) => NumberRequestView::Mul(*a, *b),
            NumberRequest::Div(a, b) => NumberRequestView::Div(*a, *b),
            NumberRequest::FromLength(n) => NumberRequestView::FromLength(*n),
        }
    }
}

impl View for NumberRequest {
    type V = NumberRequestView;

    open spec fn view(&self) -> NumberRequestView {
        self.deep_view()
    }
}

/// What a step leaves for the host to do.
#[derive(Debug)]
pub enum Action {
    /// Nothing: take the next step.
    Continue,
    /// Write the line to the output, then take the next step.
    Print(String),
    /// Compute what is asked and hand the answer to the next step.
    Ask(NumberRequest),
    /// The statement has run, and this is the signal it ended with; or
    /// the program has run to its end.
    Executed(FlowControl),
    /// The expression has been evaluated to this value.
    Evaluated(Value),
    /// The value has been turned into this text.
    Shown(String),
    /// Evaluation failed; nothing is left to do.
    Failed(RuntimeError),
    /// The program could not be parsed; nothing of it has run.
    Rejected(SyntaxError),
}

/// The mathematical value of an [`Action`].
pub enum ActionView {
    Continue,
    Print(Seq<char>),
    Ask(NumberRequestView),
    Executed(FlowControlView),
    Evaluated(ValueView),
    Shown(Seq<char>),
    Failed(RuntimeErrorView),
    Rejected(SyntaxErrorView),
}

impl DeepView for Action {
    type V = ActionView;

    open spec fn deep_view(&self) -> ActionView {
        match self {
            Action::Continue => ActionView::Continue,
            Action::Print(s) => ActionView::Print(s@),
            Action::Ask(r) => ActionView::Ask(r@),
            Action::Executed(f) => ActionView::Executed(f@),
            Action::Evaluated(v) => ActionView::Evaluated(v@),
            Action::Shown(s) => ActionView::Shown(s@),
            Action::Failed(e) => ActionView::Failed(e@),
            Action::Rejected(e) => ActionView::Rejected(e@),
        }
    }
}

impl View for Action {
    type V = ActionView;

    open spec fn view(&self) -> ActionView {
        self.deep_view()
    }
}

/// What the host hands to a step.
#[derive(Debug)]
pub enum Reply {
    /// Nothing was asked.
    Nothing,
    /// The answer to a request for a number.
    Number(u64),
    /// The answer to a request for a text.
    Text(String),
}

/// The mathematical value of a [`Reply`].
pub enum ReplyView {
    Nothing,
    Number(u64),
    Text(Seq<char>),
}

impl DeepView for Reply {
    type V = ReplyView;

    open spec fn deep_view(&self) -> ReplyView {
        match self {
            Reply::Nothing => ReplyView::Nothing,
            Reply::Number(n) => ReplyView::Number(*n),
            Reply::Text(s) => ReplyView::Text(s@),
        }
    }
}

impl View for Reply {
    type V = ReplyView;

    open spec fn view(&self) -> ReplyView {
        self.deep_view()
    }
}

/// One piece of work that is left to do.
#[derive(Debug)]
pub enum Task {
    /// Evaluate the expression and push its value.
    Eval(Expr),
    /// Execute the statement.
    Exec(Stmt),
    /// Drop the topmost value.
    Discard,
    /// Make an array of the topmost values, as many as given.
    MakeArray(usize),
    /// Read an element: the index is on top, the container below.
    LoadIndex,
    /// Write an element: the new value is on top, then index and array.
    StoreIndex,
    /// Assign the topmost value to the name and leave it as the result.
    Assign(String),
    /// Bind the name to the topmost value in the current scope.
    Define(String),
    Unary(UnarioOp),
    /// Apply the operator: the right operand is on top, the left below.
    Binary(BinOp),
    /// Call with as many arguments as given; the callee lies below them.
    Call(usize),
    /// Run the first statement if the topmost value is truthy, else the second.
    Branch(Stmt, Option<Stmt>),
    /// A `while` loop between two rounds. While the body runs, the entry
    /// marks the loop for `quebrar` and `continuar`.
    While(Expr, Stmt),
    /// A `while` loop whose condition has just been evaluated.
    WhileTest(Expr, Stmt),
    /// A `for` loop about to evaluate its condition.
    For(Option<Expr>, Option<Expr>, Stmt),
    /// A `for` loop whose condition has just been evaluated.
    ForTest(Option<Expr>, Option<Expr>, Stmt),
    /// A `for` loop whose body is running or has run: the increment is next.
    /// While the body runs, the entry marks the loop.
    ForNext(Option<Expr>, Option<Expr>, Stmt),
    /// Leave a scope: make the given scope the current one again.
    Restore(EnvRef),
    /// The end of a function body: go back to the caller's scope. Reached
    /// without `retornar`, the call's value is nil.
    CallEnd(EnvRef),
    /// Return the topmost value from the function that is running.
    Return,
    /// Turn the topmost value into text.
    Stringify,
    /// Put the topmost texts, as many as given, together as an array's text.
    Join(usize),
    /// Append the topmost text to the text value on top.
    ConcatLeft,
    /// Put the topmost text in front of the text value on top.
    ConcatRight,
    /// Print the topmost text as a line.
    PrintLine,
    /// Print the topmost texts, as many as given, on one line; the call's
    /// value is nil.
    PrintJoined(usize),
    /// Take the host's number as a value.
    AwaitNumber,
    /// Take the host's text.
    AwaitText,
    /// Take the host's number as a difference: the operands were equal if it
    /// is within the tolerance. The flag asks for the negated answer.
    AwaitDifference(bool),
    /// Take the host's number as the fractional part of the number given:
    /// within the tolerance, the number is written as an integer.
    AwaitFraction(u64),
    /// The end of one statement of a program. A signal that arrives here
    /// goes no further: the next statement runs.
    EndStatement,
    /// The statement given to `execute`, or the program given to `run`,
    /// has run.
    FinishExec,
    /// The expression given to `evaluate` has its value.
    FinishEval,
    /// The value that is being turned into text has its text.
    FinishText,
}

/// The mathematical value of a [`Task`].
pub enum TaskView {
    Eval(ExprView),
    Exec(StmtView),
    Discard,
    MakeArray(usize),
    LoadIndex,
    StoreIndex,
    Assign(Seq<char>),
    Define(Seq<char>),
    Unary(UnarioOp),
    Binary(BinOp),
    Call(usize),
    Branch(StmtView, Option<StmtView>),
    While(ExprView, StmtView),
    WhileTest(ExprView, StmtView),
    For(Option<ExprView>, Option<ExprView>, StmtView),
    ForTest(Option<ExprView>, Option<ExprView>, StmtView),
    ForNext(Option<ExprView>, Option<ExprView>, StmtView),
    Restore(EnvRef),
    CallEnd(EnvRef),
    Return,
    Stringify,
    Join(usize),
    ConcatLeft,
    ConcatRight,
    PrintLine,
    PrintJoined(usize),
    AwaitNumber,
    AwaitText,
    AwaitDifference(bool),
    AwaitFraction(u64),
    EndStatement,
    FinishExec,
    FinishEval,
    FinishText,
}

impl DeepView for Task {
    type V = TaskView;

    open spec fn deep_view(&self) -> TaskView {
        match self {
            Task::Eval(e) => TaskView::Eval(e@),
            Task::Exec(s) => TaskView::Exec(s@),
            Task::Discard => TaskView::Discard,
            Task::MakeArray(n) => TaskView::MakeArray(*n),
            Task::LoadIndex => TaskView::LoadIndex,
            Task::StoreIndex => TaskView::StoreIndex,
            Task::Assign(n) => TaskView::Assign(n@),
            Task::Define(n) => TaskView::Define(n@),
            Task::Unary(op) => TaskView::Unary(*op),
            Task::Binary(op) => TaskView::Binary(*op),
            Task::Call(n) => TaskView::Call(*n),
            Task::Branch(t, e) => TaskView::Branch(t@, e.deep_view()),
            Task::While(c, b) => TaskView::While(c@, b@),
            Task::WhileTest(c, b) => TaskView::WhileTest(c@, b@),
            Task::For(c, n, b) => TaskView::For(c.deep_view(), n.deep_view(), b@),
            Task::ForTest(c, n, b) => TaskView::ForTest(c.deep_view(), n.deep_view(), b@),
            Task::ForNext(c, n, b) => TaskView::ForNext(c.deep_view(), n.deep_view(), b@),
            Task::Restore(e) => TaskView::Restore(*e),
            Task::CallEnd(e) => TaskView::CallEnd(*e),
            Task::Return => TaskView::Return,
            Task::Stringify => TaskView::Stringify,
            Task::Join(n) => TaskView::Join(*n),
            Task::ConcatLeft => TaskView::ConcatLeft,
            Task::ConcatRight => TaskView::ConcatRight,
            Task::PrintLine => TaskView::PrintLine,
            Task::PrintJoined(n) => TaskView::PrintJoined(*n),
            Task::AwaitNumber => TaskView::AwaitNumber,
            Task::AwaitText => TaskView::AwaitText,
            Task::AwaitDifference(b) => TaskView::AwaitDifference(*b),
            Task::AwaitFraction(n) => TaskView::AwaitFraction(*n),
            Task::EndStatement => TaskView::EndStatement,
            Task::FinishExec => TaskView::FinishExec,
            Task::FinishEval => TaskView::FinishEval,
            Task::FinishText => TaskView::FinishText,
        }
    }
}

impl View for Task {
    type V = TaskView;

    open spec fn view(&self) -> TaskView {
        self.deep_view()
    }
}

/// The interpreter: the environment chain, the store of shared objects, and
/// the three stacks of the machine.
#[derive(Debug)]
pub struct Interpreter {
    pub environment: Environment,
    pub heap: Heap,
    /// The global scope.
    pub globals: EnvRef,
    /// The current scope.
    pub env: EnvRef,
    /// The source text last given to `run`.
    pub fonte: String,
    pub tasks: Vec<Task>,
    pub values: Vec<Value>,
    pub texts: Vec<String>,
}

/// The mathematical value of an [`Interpreter`].
pub struct InterpreterView {
    pub environment: EnvironmentView,
    pub heap: HeapView,
    pub globals: EnvRef,
    pub env: EnvRef,
    pub fonte: Seq<char>,
    pub tasks: Seq<TaskView>,
    pub values: Seq<ValueView>,
    pub texts: Seq<Seq<char>>,
}

impl DeepView for Interpreter {
    type V = InterpreterView;

    open spec fn deep_view(&self) -> InterpreterView {
        InterpreterView {
            environment: self.environment@,
            heap: self.heap@,
            globals: self.globals,
            env: self.env,
            fonte: self.fonte@,
            tasks: self.tasks.deep_view(),
            values: self.values.deep_view(),
            texts: self.texts.deep_view(),
        }
    }
}

impl View for Interpreter {
    type V = InterpreterView;

    open spec fn view(&self) -> InterpreterView {
        self.deep_view()
    }
}

/// The scope that a task records to go back to, if it leaves a scope.
pub open spec fn scope_recorded(t: TaskView) -> Option<EnvRef> {
    match t {
        TaskView::Restore(e) => Some(e),
        TaskView::CallEnd(e) => Some(e),
        _ => None,
    }
}

/// The scope recorded by the lowest of the tasks from position `from` up
/// that records one; `env` where none of them does.
pub open spec fn scope_below(tasks: Seq<TaskView>, from: int, env: EnvRef) -> EnvRef
    decreases tasks.len() - from,
{
    if from < 0 || from >= tasks.len() {
        env
    } else {
        match scope_recorded(tasks[from]) {
            Some(e) => e,
            None => scope_below(tasks, from + 1, env),
        }
    }
}

impl InterpreterView {
    /// The state with one more thing to do, to be done first.
    pub open spec fn push_task(self, t: TaskView) -> InterpreterView {
        InterpreterView { tasks: self.tasks.push(t), ..self }
    }

    /// The state without its topmost task.
    pub open spec fn pop_task(self) -> InterpreterView {
        InterpreterView { tasks: self.tasks.drop_last(), ..self }
    }

    /// The state with one more value on top.
    pub open spec fn push_value(self, v: ValueView) -> InterpreterView {
        InterpreterView { values: self.values.push(v), ..self }
    }

    /// The state without its topmost values, as many as given.
    pub open spec fn drop_values(self, n: int) -> InterpreterView {
        InterpreterView { values: self.values.take(self.values.len() - n), ..self }
    }

    /// The value that lies `i` places below the top.
    pub open spec fn value(self, i: int) -> ValueView {
        self.values[self.values.len() - 1 - i]
    }

    /// The state with one more text on top.
    pub open spec fn push_text(self, s: Seq<char>) -> InterpreterView {
        InterpreterView { texts: self.texts.push(s), ..self }
    }

    /// The state without its topmost texts, as many as given.
    pub open spec fn drop_texts(self, n: int) -> InterpreterView {
        InterpreterView { texts: self.texts.take(self.texts.len() - n), ..self }
    }

    /// The state with another scope as the current one.
    pub open spec fn with_env(self, env: EnvRef) -> InterpreterView {
        InterpreterView { env, ..self }
    }

    /// The scope to which the machine goes back when it leaves everything
    /// it was doing: the scope that was current before the outermost block,
    /// loop or call that is still under way was entered. The lowest task
    /// that leaves a scope has recorded it; where there is none, no scope
    /// was entered, and it is the current one.
    pub open spec fn base_scope(self) -> EnvRef {
        scope_below(self.tasks, 0, self.env)
    }

    /// The state after a failure: nothing is left to do and the stacks are
    /// empty. Every block, loop and call that was under way is left, so the
    /// scope that was current when the work began is current again.
    /// Bindings and objects stay as they are.
    pub open spec fn halted(self) -> InterpreterView {
        InterpreterView {
            tasks: Seq::empty(),
            values: Seq::empty(),
            texts: Seq::empty(),
            env: self.base_scope(),
            ..self
        }
    }

    /// A step that fails: the machine halts and the error goes to the host.
    pub open spec fn fail(self, e: RuntimeErrorView) -> (InterpreterView, ActionView) {
        (self.halted(), ActionView::Failed(e))
    }

    /// A step that leaves nothing for the host to do.
    pub open spec fn proceed(self) -> (InterpreterView, ActionView) {
        (self, ActionView::Continue)
    }
}

impl Interpreter {
    /// Leaves one more thing to do, to be done first.
    pub fn push_task(&mut self, t: Task)
        ensures
            final(self)@ == old(self)@.push_task(t@),
    {
        self.tasks.push(t);
        assert(self.tasks.deep_view() =~= old(self).tasks.deep_view().push(t@));
    }

    /// Takes the topmost task off.
    pub fn pop_task(&mut self) -> (t: Task)
        requires
            old(self)@.tasks.len() > 0,
        ensures
            final(self)@ == old(self)@.pop_task(),
            t@ == old(self)@.tasks.last(),
    {
        let t = self.tasks.pop().unwrap();
        assert(self.tasks.deep_view() =~= old(self).tasks.deep_view().drop_last());
        t
    }

    /// Puts a value on top of the values.
    pub fn push_value(&mut self, v: Value)
        ensures
            final(self)@ == old(self)@.push_value(v@),
    {
        self.values.push(v);
        assert(self.values.deep_view() =~= old(self).values.deep_view().push(v@));
    }

    /// Takes the topmost value off.
    pub fn pop_value(&mut self) -> (v: Value)
        requires
            old(self)@.values.len() > 0,
        ensures
            final(self)@ == old(self)@.drop_values(1),
            v@ == old(self)@.value(0),
    {
        let v = self.values.pop().unwrap();
        assert(self.values.deep_view() =~= old(self).values.deep_view().take(
            old(self).values.len() - 1,
        ));
        v
    }

    /// Puts a text on top of the texts.
    pub fn push_text(&mut self, s: String)
        ensures
            final(self)@ == old(self)@.push_text(s@),
    {
        self.texts.push(s);
        assert(self.texts.deep_view() =~= old(self).texts.deep_view().push(s@));
    }

    /// Takes the topmost text off.
    pub fn pop_text(&mut self) -> (s: String)
        requires
            old(self)@.texts.len() > 0,
        ensures
            final(self)@ == old(self)@.drop_texts(1),
            s@ == old(self)@.texts.last(),
    {
        let s = self.texts.pop().unwrap();
        assert(self.texts.deep_view() =~= old(self).texts.deep_view().take(
            old(self).texts.len() - 1,
        ));
        s
    }

    /// The scope to which the machine goes back when it leaves everything
    /// it was doing.
    pub fn base_scope(&self) -> (r: EnvRef)
        ensures
            r == self@.base_scope(),
    {
        let mut i: usize = 0;
        while i < self.tasks.len()
            invariant
                i <= self.tasks.len(),
                scope_below(self@.tasks, i as int, self.env) == self@.base_scope(),
            decreases self.tasks.len() - i,
        {
            assert(self@.tasks[i as int] == self.tasks[i as int]@);
            match &self.tasks[i] {
                Task::Restore(e) => {
                    return *e;
                },
                Task::CallEnd(e) => {
                    return *e;
                },
                _ => {},
            }
            i += 1;
        }
        self.env
    }

    /// Stops the machine with an error: everything that was under way is
    /// left.
    pub fn fail(&mut self, e: RuntimeError) -> (r: Action)
        ensures
            (final(self)@, r@) == old(self)@.fail(e@),
    {
        self.env = self.base_scope();
        self.tasks = Vec::new();
        self.values = Vec::new();
        self.texts = Vec::new();
        assert(self.tasks.deep_view() =~= Seq::empty());
        assert(self.values.deep_view() =~= Seq::empty());
        assert(self.texts.deep_view() =~= Seq::empty());
        Action::Failed(e)
    }
}

} // verus!
