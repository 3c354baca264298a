//! Where the machine stands after a failure.
//!
//! A failure leaves every block, loop and call that is under way. The law
//! at the end says that the scope to which it goes back is the same at
//! every step of a piece of work: the scope that was current when the work
//! was given to the machine.

use vstd::prelude::*;
use crate::ast::{BinOp, ExprView, StmtView, UnarioOp};
use crate::errors::Builtin;
use crate::machine::{
    scope_below, scope_recorded, ActionView, InterpreterView, ReplyView, TaskView,
};
use crate::value::{EnvRef, FlowControlView, FunctionView, ValueView};

verus! {

/// Whether a step from `before` has kept the scope to which a failure
/// goes back.
pub open spec fn keeps_base(before: InterpreterView, after: (InterpreterView, ActionView)) -> bool {
    after.0.base_scope() == before.base_scope()
}

/// One more task on top: the lowest task that records a scope is the
/// lowest as before, unless there was none.
pub proof fn lemma_scope_below_push(tasks: Seq<TaskView>, t: TaskView, env: EnvRef, from: int)
    requires
        0 <= from <= tasks.len(),
    ensures
        scope_below(tasks.push(t), from, env) == scope_below(
            tasks,
            from,
            match scope_recorded(t) {
                Some(e) => e,
                None => env,
            },
        ),
    decreases tasks.len() - from,
{
    if from < tasks.len() {
        assert(tasks.push(t)[from] == tasks[from]);
        lemma_scope_below_push(tasks, t, env, from + 1);
    } else {
        assert(tasks.push(t)[from] == t);
        assert(scope_below(tasks.push(t), from + 1, env) == env);
    }
}

/// The scope to which a failure goes back depends on the tasks and the
/// current scope alone.
pub proof fn lemma_base_of(a: InterpreterView, b: InterpreterView)
    requires
        a.tasks == b.tasks,
        a.env == b.env,
    ensures
        a.base_scope() == b.base_scope(),
{
}

/// A task that records no scope changes nothing where it is added.
pub proof fn lemma_pushed(m: InterpreterView, t: TaskView)
    ensures
        scope_recorded(t) is None ==> m.push_task(t).base_scope() == m.base_scope(),
        scope_recorded(t) matches Some(e) ==> m.push_task(t).base_scope() == scope_below(
            m.tasks,
            0,
            e,
        ),
{
    lemma_scope_below_push(m.tasks, t, m.env, 0);
}

/// Taking the topmost task off: nothing changes where it records no
/// scope; where it records one, that scope must become the current one.
pub proof fn lemma_popped(m: InterpreterView)
    requires
        m.tasks.len() > 0,
    ensures
        scope_recorded(m.tasks.last()) is None ==> m.pop_task().base_scope() == m.base_scope(),
        scope_recorded(m.tasks.last()) matches Some(e) ==> m.pop_task().with_env(e).base_scope()
            == m.base_scope(),
{
    let rest = m.tasks.drop_last();
    assert(rest.push(m.tasks.last()) =~= m.tasks);
    lemma_scope_below_push(rest, m.tasks.last(), m.env, 0);
}

/// Tasks to evaluate expressions record no scope.
proof fn lemma_push_evals(m: InterpreterView, exprs: Seq<ExprView>)
    ensures
        m.push_evals(exprs).base_scope() == m.base_scope(),
        m.push_evals(exprs).env == m.env,
    decreases exprs.len(),
{
    if exprs.len() > 0 {
        lemma_pushed(m, TaskView::Eval(exprs.last()));
        lemma_push_evals(m.push_task(TaskView::Eval(exprs.last())), exprs.drop_last());
    }
}

/// Tasks to execute statements record no scope.
proof fn lemma_push_execs(m: InterpreterView, stmts: Seq<StmtView>)
    ensures
        m.push_execs(stmts).base_scope() == m.base_scope(),
        m.push_execs(stmts).env == m.env,
    decreases stmts.len(),
{
    if stmts.len() > 0 {
        lemma_pushed(m, TaskView::Exec(stmts.last()));
        lemma_push_execs(m.push_task(TaskView::Exec(stmts.last())), stmts.drop_last());
    }
}

/// The tasks of a program record no scope.
proof fn lemma_push_program(m: InterpreterView, stmts: Seq<StmtView>)
    ensures
        m.push_program(stmts).base_scope() == m.base_scope(),
        m.push_program(stmts).env == m.env,
    decreases stmts.len(),
{
    if stmts.len() > 0 {
        let a = m.push_task(TaskView::EndStatement);
        lemma_pushed(m, TaskView::EndStatement);
        lemma_pushed(a, TaskView::Exec(stmts.last()));
        lemma_push_program(a.push_task(TaskView::Exec(stmts.last())), stmts.drop_last());
    }
}

/// Tasks to turn values into text record no scope.
proof fn lemma_push_stringify(m: InterpreterView, n: nat)
    ensures
        m.push_stringify(n).base_scope() == m.base_scope(),
        m.push_stringify(n).env == m.env,
    decreases n,
{
    if n > 0 {
        lemma_pushed(m, TaskView::Stringify);
        lemma_push_stringify(m.push_task(TaskView::Stringify), (n - 1) as nat);
    }
}

/// Values are no tasks.
proof fn lemma_push_values(m: InterpreterView, vals: Seq<ValueView>)
    ensures
        m.push_values_reversed(vals).tasks == m.tasks,
        m.push_values_reversed(vals).env == m.env,
    decreases vals.len(),
{
    if vals.len() > 0 {
        lemma_push_values(m.push_value(vals.last()), vals.drop_last());
    }
}

/// A signal that travels down the tasks keeps the scope to which a
/// failure goes back.
pub proof fn lemma_unwind(m: InterpreterView, signal: FlowControlView)
    ensures
        keeps_base(m, m.unwind(signal)),
    decreases m.tasks.len(),
{
    if m.tasks.len() > 0 {
        lemma_popped(m);
        let p = m.pop_task();
        match m.tasks.last() {
            TaskView::Restore(e) => {
                lemma_unwind(p.with_env(e), signal);
            },
            TaskView::CallEnd(e) => {
                lemma_base_of(p.with_env(e).push_value(signal->Return_0), p.with_env(e));
            },
            TaskView::While(_, _) | TaskView::ForNext(_, _, _) => {
                lemma_unwind(p, signal);
            },
            TaskView::EndStatement => {},
            TaskView::FinishExec | TaskView::FinishEval | TaskView::FinishText => {},
            _ => {
                lemma_unwind(p, signal);
            },
        }
    }
}

/// What holds of every state at once: adding tasks that record no scope
/// changes nothing, and a task that records a scope matters only where no
/// task below it records one.
pub proof fn lemma_every_push()
    ensures
        forall|m: InterpreterView, t: TaskView|
            scope_recorded(t) is None ==> (#[trigger] m.push_task(t)).base_scope()
                == m.base_scope(),
        forall|m: InterpreterView, t: TaskView|
            scope_recorded(t) is Some ==> (#[trigger] m.push_task(t)).base_scope() == scope_below(
                m.tasks,
                0,
                scope_recorded(t)->0,
            ),
        forall|m: InterpreterView, exprs: Seq<ExprView>|
            (#[trigger] m.push_evals(exprs)).base_scope() == m.base_scope(),
        forall|m: InterpreterView, stmts: Seq<StmtView>|
            (#[trigger] m.push_execs(stmts)).base_scope() == m.base_scope(),
        forall|m: InterpreterView, n: nat|
            (#[trigger] m.push_stringify(n)).base_scope() == m.base_scope(),
        forall|m: InterpreterView, vals: Seq<ValueView>|
            (#[trigger] m.push_values_reversed(vals)).tasks == m.tasks && m.push_values_reversed(
                vals,
            ).env == m.env,
{
    assert forall|m: InterpreterView, t: TaskView| scope_recorded(t) is None implies (
    #[trigger] m.push_task(t)).base_scope() == m.base_scope() by {
        lemma_pushed(m, t);
    }
    assert forall|m: InterpreterView, t: TaskView| scope_recorded(t) is Some implies (
    #[trigger] m.push_task(t)).base_scope() == scope_below(m.tasks, 0, scope_recorded(t)->0) by {
        lemma_pushed(m, t);
    }
    assert forall|m: InterpreterView, exprs: Seq<ExprView>|
        (#[trigger] m.push_evals(exprs)).base_scope() == m.base_scope() by {
        lemma_push_evals(m, exprs);
    }
    assert forall|m: InterpreterView, stmts: Seq<StmtView>|
        (#[trigger] m.push_execs(stmts)).base_scope() == m.base_scope() by {
        lemma_push_execs(m, stmts);
    }
    assert forall|m: InterpreterView, n: nat|
        (#[trigger] m.push_stringify(n)).base_scope() == m.base_scope() by {
        lemma_push_stringify(m, n);
    }
    assert forall|m: InterpreterView, vals: Seq<ValueView>|
        (#[trigger] m.push_values_reversed(vals)).tasks == m.tasks && m.push_values_reversed(
            vals,
        ).env == m.env by {
        lemma_push_values(m, vals);
    }
}

/// Beginning to evaluate an expression keeps the base.
proof fn lemma_eval(m: InterpreterView, e: ExprView)
    ensures
        keeps_base(m, m.eval(e)),
{
    lemma_every_push();
}

/// Beginning to execute a statement keeps the base.
proof fn lemma_exec(m: InterpreterView, s: StmtView)
    ensures
        keeps_base(m, m.exec(s)),
{
    lemma_every_push();
    lemma_unwind(m, FlowControlView::Break);
    lemma_unwind(m, FlowControlView::Continue);
}

/// Operators keep the base.
proof fn lemma_operators(m: InterpreterView, unary: UnarioOp, binary: BinOp)
    ensures
        keeps_base(m, m.unary(unary)),
        keeps_base(m, m.binary(binary)),
{
    lemma_every_push();
}

/// Names, arrays and their elements keep the base.
proof fn lemma_bindings(m: InterpreterView, name: Seq<char>, n: usize)
    ensures
        keeps_base(m, m.assign(name)),
        keeps_base(m, m.define(name)),
        keeps_base(m, m.make_array(n)),
        keeps_base(m, m.load_index()),
        keeps_base(m, m.store_index()),
{
    lemma_every_push();
}

/// Branches and loops keep the base.
proof fn lemma_control(
    m: InterpreterView,
    t: StmtView,
    e: Option<StmtView>,
    c: ExprView,
    oc: Option<ExprView>,
    on: Option<ExprView>,
)
    ensures
        keeps_base(m, m.branch(t, e)),
        keeps_base(m, m.while_test(c, t)),
        keeps_base(m, m.for_round(oc, on, t)),
        keeps_base(m, m.for_test(oc, on, t)),
        keeps_base(m, m.for_next(oc, on, t)),
{
    lemma_every_push();
}

/// Entering a function keeps the base: the end of its body records the caller.
proof fn lemma_enter(m: InterpreterView, f: FunctionView, args: Seq<ValueView>)
    ensures
        keeps_base(m, m.enter(f, args)),
{
    lemma_every_push();
}

/// Built-in functions keep the base.
proof fn lemma_call_builtin(m: InterpreterView, b: Builtin, args: Seq<ValueView>)
    ensures
        keeps_base(m, m.call_builtin(b, args)),
{
    lemma_every_push();
}

/// A call keeps the base.
proof fn lemma_call(m: InterpreterView, n: usize)
    ensures
        keeps_base(m, m.call(n)),
{
    lemma_every_push();
    if m.values.len() >= n + 1 {
        let args = m.top_values(n as int);
        let d = m.drop_values(n + 1);
        match m.value(n as int) {
            ValueView::Function(f) => {
                if f < d.heap.functions.len() {
                    let fun = d.heap.functions[f as int];
                    lemma_enter(d, fun, args);
                    match crate::semantics::builtin_named(fun.name) {
                        Some(b) => {
                            lemma_call_builtin(d, b, args);
                        },
                        None => {},
                    }
                }
            },
            _ => {},
        }
    }
}

/// Turning values into text keeps the base.
proof fn lemma_texts(m: InterpreterView, n: usize, number: u64, fraction: u64, first: bool)
    ensures
        keeps_base(m, m.stringify()),
        keeps_base(m, m.number_text(number, fraction)),
        keeps_base(m, m.join(n)),
        keeps_base(m, m.print_joined(n)),
        keeps_base(m, m.concat(first)),
{
    lemma_every_push();
}

/// After a failure the machine stands where the work began: at every
/// step, whatever the host answers, the scope to which a failure goes
/// back stays the same. Work that is given to the machine begins with
/// that scope as the current one, so a failure inside a block, a loop or a
/// call, however deep, makes that scope current again, and what the
/// constructs that were left had declared is out of sight.
pub proof fn law_failure_goes_back_to_the_start(m: InterpreterView, reply: ReplyView)
    ensures
        m.step(reply).0.base_scope() == m.base_scope(),
        m.step(reply).1 is Failed ==> m.step(reply).0.env == m.base_scope(),
        m.halted().env == m.base_scope(),
        m.halted().base_scope() == m.base_scope(),
{
    lemma_every_push();
    if m.tasks.len() > 0 {
        lemma_popped(m);
        let p = m.pop_task();
        match m.tasks.last() {
            TaskView::Eval(e) => {
                lemma_eval(p, e);
            },
            TaskView::Exec(s) => {
                lemma_exec(p, s);
            },
            TaskView::Unary(op) => {
                lemma_operators(p, op, BinOp::Add);
            },
            TaskView::Binary(op) => {
                lemma_operators(p, UnarioOp::Neg, op);
            },
            TaskView::MakeArray(n) => {
                lemma_bindings(p, Seq::empty(), n);
            },
            TaskView::LoadIndex | TaskView::StoreIndex => {
                lemma_bindings(p, Seq::empty(), 0);
            },
            TaskView::Assign(name) => {
                lemma_bindings(p, name, 0);
            },
            TaskView::Define(name) => {
                lemma_bindings(p, name, 0);
            },
            TaskView::Call(n) => {
                lemma_call(p, n);
            },
            TaskView::Branch(t, e) => {
                lemma_control(p, t, e, ExprView::Nulo, None, None);
            },
            TaskView::WhileTest(c, b) => {
                lemma_control(p, b, None, c, None, None);
            },
            TaskView::For(c, n, b) => {
                lemma_control(p, b, None, ExprView::Nulo, c, n);
            },
            TaskView::ForTest(c, n, b) => {
                lemma_control(p, b, None, ExprView::Nulo, c, n);
            },
            TaskView::ForNext(c, n, b) => {
                lemma_control(p, b, None, ExprView::Nulo, c, n);
            },
            TaskView::Return => {
                if p.values.len() >= 1 {
                    lemma_unwind(p.drop_values(1), FlowControlView::Return(p.value(0)));
                }
            },
            TaskView::Stringify => {
                lemma_texts(p, 0, 0, 0, true);
            },
            TaskView::Join(n) => {
                lemma_texts(p, n, 0, 0, true);
            },
            TaskView::PrintJoined(n) => {
                lemma_texts(p, n, 0, 0, true);
            },
            TaskView::ConcatLeft => {
                lemma_texts(p, 0, 0, 0, true);
            },
            TaskView::ConcatRight => {
                lemma_texts(p, 0, 0, 0, false);
            },
            TaskView::AwaitFraction(n) => {
                match reply {
                    ReplyView::Number(d) => {
                        lemma_texts(p, 0, n, d, true);
                    },
                    _ => {},
                }
            },
            _ => {},
        }
    }
    assert(m.step(reply).1 is Failed ==> m.step(reply).0.env == m.base_scope()) by {
        lemma_failed_is_halted(m, reply);
    }
}

/// A step that fails leaves the machine with nothing to do.
pub proof fn lemma_failed_is_halted(m: InterpreterView, reply: ReplyView)
    ensures
        m.step(reply).1 is Failed ==> m.step(reply).0.tasks.len() == 0,
{
    if m.tasks.len() > 0 {
        let p = m.pop_task();
        match m.tasks.last() {
            TaskView::Exec(s) => {
                lemma_unwind_failed(p, FlowControlView::Break);
                lemma_unwind_failed(p, FlowControlView::Continue);
            },
            TaskView::Return => {
                if p.values.len() >= 1 {
                    lemma_unwind_failed(p.drop_values(1), FlowControlView::Return(p.value(0)));
                }
            },
            _ => {},
        }
    }
}

/// A signal that ends in a failure leaves the machine with nothing to do.
pub proof fn lemma_unwind_failed(m: InterpreterView, signal: FlowControlView)
    ensures
        m.unwind(signal).1 is Failed ==> m.unwind(signal).0.tasks.len() == 0,
    decreases m.tasks.len(),
{
    if m.tasks.len() > 0 {
        let p = m.pop_task();
        match m.tasks.last() {
            TaskView::Restore(e) => {
                lemma_unwind_failed(p.with_env(e), signal);
            },
            TaskView::CallEnd(e) => {},
            TaskView::EndStatement => {},
            TaskView::FinishExec | TaskView::FinishEval | TaskView::FinishText => {},
            _ => {
                lemma_unwind_failed(p, signal);
            },
        }
    }
}

/// The state after steps have been taken with the replies given, the
/// first reply first.
pub open spec fn after(m: InterpreterView, replies: Seq<ReplyView>) -> InterpreterView
    decreases replies.len(),
{
    if replies.len() == 0 {
        m
    } else {
        after(m, replies.drop_last()).step(replies.last()).0
    }
}

/// However many steps have been taken, and whatever the host has
/// answered, a step that fails makes the scope current again in which the
/// work began.
pub proof fn law_every_failure_goes_back_to_the_start(
    m: InterpreterView,
    replies: Seq<ReplyView>,
    reply: ReplyView,
)
    ensures
        after(m, replies).base_scope() == m.base_scope(),
        after(m, replies).step(reply).1 is Failed ==> after(m, replies).step(reply).0.env
            == m.base_scope(),
    decreases replies.len(),
{
    if replies.len() > 0 {
        law_every_failure_goes_back_to_the_start(m, replies.drop_last(), replies.last());
        law_failure_goes_back_to_the_start(after(m, replies.drop_last()), replies.last());
    }
    law_failure_goes_back_to_the_start(after(m, replies), reply);
}

/// Work begins in the scope to which its failure goes back: a statement,
/// an expression, a program or a value that is given to the machine finds
/// every construct left that was under way, and a machine that had
/// nothing to do stays in its current scope.
pub proof fn law_work_begins_at_its_base(
    m: InterpreterView,
    s: StmtView,
    e: ExprView,
    v: ValueView,
    source: Seq<char>,
    stmts: Seq<StmtView>,
)
    ensures
        m.tasks.len() == 0 ==> m.base_scope() == m.env,
        m.loaded(TaskView::FinishExec, TaskView::Exec(s)).env == m.base_scope(),
        m.loaded(TaskView::FinishExec, TaskView::Exec(s)).base_scope() == m.base_scope(),
        m.loaded(TaskView::FinishEval, TaskView::Eval(e)).env == m.base_scope(),
        m.loaded(TaskView::FinishEval, TaskView::Eval(e)).base_scope() == m.base_scope(),
        m.running(source, stmts).env == m.base_scope(),
        m.running(source, stmts).base_scope() == m.base_scope(),
        m.showing(v).env == m.base_scope(),
        m.showing(v).base_scope() == m.base_scope(),
{
    reveal_with_fuel(scope_below, 4);
    let start = InterpreterView { fonte: source, tasks: seq![TaskView::FinishExec], ..m.halted() };
    lemma_push_program(start, stmts);
}

} // verus!
