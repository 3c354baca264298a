//! Laws of the language, proved of the machine's mathematical state.

use vstd::prelude::*;
use crate::ast::{BinOp, ExprView, StmtView};
use crate::environment::EnvironmentView;
use crate::errors::RuntimeErrorView;
use crate::machine::{ActionView, InterpreterView, NumberRequestView, ReplyView, TaskView};
use crate::number::{
    spec_exponent, spec_is_beyond_integers, spec_is_integer, spec_is_large_integer,
    spec_is_negative, spec_is_zero, spec_near_zero, spec_significand, spec_truncate, spec_whole,
};
use crate::numeral::times_two_to;
use crate::value::large_integer_text;
use crate::semantics::builtin_named;
use crate::text::{decimal, signed_decimal};
use crate::value::{EnvRef, FlowControlView, ValueView};

verus! {

/// Statements run in the order in which they are written: of the tasks
/// left for a sequence of statements, the task of an earlier statement
/// lies above that of every later one, and what was left to do before
/// lies below them all.
pub proof fn law_statements_run_in_order(m: InterpreterView, stmts: Seq<StmtView>)
    ensures
        m.push_execs(stmts) == (InterpreterView { tasks: m.push_execs(stmts).tasks, ..m }),
        m.push_execs(stmts).tasks.len() == m.tasks.len() + stmts.len(),
        forall|k: int| 0 <= k < m.tasks.len() ==> m.push_execs(stmts).tasks[k] == m.tasks[k],
        forall|i: int|
            0 <= i < stmts.len() ==> m.push_execs(stmts).tasks[m.tasks.len() + stmts.len() - 1 - i]
                == TaskView::Exec(#[trigger] stmts[i]),
    decreases stmts.len(),
{
    if stmts.len() > 0 {
        let next = m.push_task(TaskView::Exec(stmts.last()));
        let rest = stmts.drop_last();
        let all = m.push_execs(stmts);
        law_statements_run_in_order(next, rest);
        assert(all == next.push_execs(rest));
        assert forall|k: int| 0 <= k < m.tasks.len() implies all.tasks[k] == m.tasks[k] by {
            assert(all.tasks[k] == next.tasks[k]);
        }
        assert forall|i: int| 0 <= i < stmts.len() implies all.tasks[m.tasks.len() + stmts.len() - 1
            - i] == TaskView::Exec(#[trigger] stmts[i]) by {
            if i < stmts.len() - 1 {
                assert(rest[i] == stmts[i]);
                assert(all.tasks[next.tasks.len() + rest.len() - 1 - i] == TaskView::Exec(
                    rest[i],
                ));
            } else {
                assert(all.tasks[m.tasks.len() as int] == next.tasks[m.tasks.len() as int]);
            }
        }
    }
}

/// Operands, elements and arguments are evaluated from left to right: of
/// the tasks left for a sequence of expressions, the task of an earlier
/// expression lies above that of every later one.
pub proof fn law_expressions_are_evaluated_in_order(m: InterpreterView, exprs: Seq<ExprView>)
    ensures
        m.push_evals(exprs) == (InterpreterView { tasks: m.push_evals(exprs).tasks, ..m }),
        m.push_evals(exprs).tasks.len() == m.tasks.len() + exprs.len(),
        forall|k: int| 0 <= k < m.tasks.len() ==> m.push_evals(exprs).tasks[k] == m.tasks[k],
        forall|i: int|
            0 <= i < exprs.len() ==> m.push_evals(exprs).tasks[m.tasks.len() + exprs.len() - 1 - i]
                == TaskView::Eval(#[trigger] exprs[i]),
    decreases exprs.len(),
{
    if exprs.len() > 0 {
        let next = m.push_task(TaskView::Eval(exprs.last()));
        let rest = exprs.drop_last();
        let all = m.push_evals(exprs);
        law_expressions_are_evaluated_in_order(next, rest);
        assert(all == next.push_evals(rest));
        assert forall|k: int| 0 <= k < m.tasks.len() implies all.tasks[k] == m.tasks[k] by {
            assert(all.tasks[k] == next.tasks[k]);
        }
        assert forall|i: int| 0 <= i < exprs.len() implies all.tasks[m.tasks.len() + exprs.len() - 1
            - i] == TaskView::Eval(#[trigger] exprs[i]) by {
            if i < exprs.len() - 1 {
                assert(rest[i] == exprs[i]);
                assert(all.tasks[next.tasks.len() + rest.len() - 1 - i] == TaskView::Eval(
                    rest[i],
                ));
            } else {
                assert(all.tasks[m.tasks.len() as int] == next.tasks[m.tasks.len() as int]);
            }
        }
    }
}

/// A name resolves from a fresh scope as it resolves from the scope that
/// encloses it.
pub proof fn lemma_fresh_scope_resolves_outward(
    env: EnvironmentView,
    enclosing: EnvRef,
    name: Seq<char>,
)
    requires
        env.wf(),
        enclosing < env.scopes.len(),
    ensures
        env.with_enclosing(enclosing).resolve(env.scopes.len() as EnvRef, name) == env.resolve(
            enclosing,
            name,
        ),
{
    let after = env.with_enclosing(enclosing);
    lemma_older_scopes_untouched(env, after, enclosing, name);
}

/// What a scope sees does not depend on scopes younger than itself: two
/// chains that agree up to a scope resolve every name from it alike.
pub proof fn lemma_older_scopes_untouched(
    a: EnvironmentView,
    b: EnvironmentView,
    scope: EnvRef,
    name: Seq<char>,
)
    requires
        scope < a.scopes.len(),
        scope < b.scopes.len(),
        forall|i: int| 0 <= i <= scope ==> a.scopes[i] == b.scopes[i],
    ensures
        a.resolve(scope, name) == b.resolve(scope, name),
        a.get(scope, name) == b.get(scope, name),
    decreases scope,
{
    if !a.scopes[scope as int].vars.contains_key(name) {
        match a.scopes[scope as int].enclosing {
            Some(p) => {
                if p < scope {
                    lemma_older_scopes_untouched(a, b, p, name);
                }
            },
            None => {},
        }
    }
    a.lemma_resolve_binds(scope, name);
    b.lemma_resolve_binds(scope, name);
}

/// Shadowing: a declaration in a nested scope leaves every binding that
/// the enclosing scope sees as it was, the binding of the same name too.
pub proof fn law_shadowing_keeps_outer_binding(
    env: EnvironmentView,
    outer: EnvRef,
    name: Seq<char>,
    value: ValueView,
    other: Seq<char>,
)
    requires
        env.wf(),
        outer < env.scopes.len(),
    ensures
        env.with_enclosing(outer).define(env.scopes.len() as EnvRef, name, value).get(outer, other)
            == env.get(outer, other),
        env.with_enclosing(outer).define(env.scopes.len() as EnvRef, name, value).get(
            env.scopes.len() as EnvRef,
            name,
        ) == Ok::<ValueView, RuntimeErrorView>(value),
{
    let inner = env.scopes.len() as EnvRef;
    let after = env.with_enclosing(outer).define(inner, name, value);
    lemma_older_scopes_untouched(env, after, outer, other);
}

/// Shadowing, on the machine: a block that declares a name runs in five
/// steps, after which the scope that was current is current again and
/// sees every binding as before the block.
#[verifier::spinoff_prover]
pub proof fn law_block_restores_scope(
    m: InterpreterView,
    name: Seq<char>,
    text: Seq<char>,
    other: Seq<char>,
)
    requires
        m.environment.wf(),
        m.env < m.environment.scopes.len(),
    ensures
        ({
            let block = StmtView::Bloco(seq![StmtView::VarDecl(name, ExprView::Texto(text))]);
            let m1 = m.push_task(TaskView::Exec(block)).step(ReplyView::Nothing).0;
            let m2 = m1.step(ReplyView::Nothing).0;
            let m3 = m2.step(ReplyView::Nothing).0;
            let m4 = m3.step(ReplyView::Nothing).0;
            let m5 = m4.step(ReplyView::Nothing).0;
            &&& m4.environment.get(m4.env, name) == Ok::<ValueView, RuntimeErrorView>(
                ValueView::Text(text),
            )
            &&& m5.env == m.env
            &&& m5.tasks == m.tasks
            &&& m5.values == m.values
            &&& m5.environment.get(m.env, other) == m.environment.get(m.env, other)
        }),
{
    let decl = StmtView::VarDecl(name, ExprView::Texto(text));
    let block = StmtView::Bloco(seq![decl]);
    let m0 = m.push_task(TaskView::Exec(block));
    assert(m0.pop_task().tasks =~= m.tasks);
    let inner = m.environment.scopes.len() as EnvRef;
    let entered = m.enter_scope(m.env).push_task(TaskView::Restore(m.env));
    let m1 = m0.step(ReplyView::Nothing).0;
    assert(seq![decl].drop_last() =~= Seq::<StmtView>::empty());
    assert(m1 == entered.push_task(TaskView::Exec(decl))) by {
        reveal_with_fuel(InterpreterView::push_execs, 2);
    }
    let m2 = m1.step(ReplyView::Nothing).0;
    assert(m1.pop_task().tasks =~= entered.tasks);
    assert(m2 == entered.push_task(TaskView::Define(name)).push_task(
        TaskView::Eval(ExprView::Texto(text)),
    ));
    let m3 = m2.step(ReplyView::Nothing).0;
    assert(m2.pop_task().tasks =~= entered.push_task(TaskView::Define(name)).tasks);
    assert(m3 == entered.push_task(TaskView::Define(name)).push_value(ValueView::Text(text)));
    let m4 = m3.step(ReplyView::Nothing).0;
    assert(m3.pop_task().tasks =~= entered.tasks);
    assert(m3.pop_task().drop_values(1).values =~= m.values);
    assert(m4.environment == entered.environment.define(inner, name, ValueView::Text(text)));
    assert(m4.tasks == entered.tasks);
    let m5 = m4.step(ReplyView::Nothing).0;
    assert(m4.pop_task().tasks =~= m.tasks);
    law_shadowing_keeps_outer_binding(m.environment, m.env, name, ValueView::Text(text), other);
}

/// Closures share their scope: an assignment made from one scope is seen
/// from every scope in which the name resolves to the same binding.
pub proof fn law_assignment_seen_by_sharers(
    env: EnvironmentView,
    writer: EnvRef,
    reader: EnvRef,
    name: Seq<char>,
    value: ValueView,
)
    requires
        env.resolve(writer, name) is Some,
        env.resolve(reader, name) == env.resolve(writer, name),
    ensures
        env.assign(writer, name, value) is Ok,
        env.assign(writer, name, value)->Ok_0.get(reader, name) == Ok::<
            ValueView,
            RuntimeErrorView,
        >(value),
{
    let home = env.resolve(writer, name)->0;
    env.lemma_resolve_binds(writer, name);
    let after = env.define(home, name, value);
    lemma_resolve_after_rebinding(env, home, name, value, reader);
}

/// Binding a name anew in the scope where it is bound already changes no
/// resolution of that name.
pub proof fn lemma_resolve_after_rebinding(
    env: EnvironmentView,
    home: EnvRef,
    name: Seq<char>,
    value: ValueView,
    scope: EnvRef,
)
    requires
        home < env.scopes.len(),
        env.scopes[home as int].vars.contains_key(name),
    ensures
        env.define(home, name, value).resolve(scope, name) == env.resolve(scope, name),
    decreases scope,
{
    let after = env.define(home, name, value);
    if scope < env.scopes.len() {
        if !env.scopes[scope as int].vars.contains_key(name) {
            assert(scope != home);
            match env.scopes[scope as int].enclosing {
                Some(p) => {
                    if p < scope {
                        lemma_resolve_after_rebinding(env, home, name, value, p);
                    }
                },
                None => {},
            }
        }
    }
}

/// A function's body sees its closure: in the scope of a call, a name
/// that is no parameter resolves as it does in the scope where the
/// function was declared, whatever scope the call was made from.
pub proof fn law_call_scope_encloses_closure(
    env: EnvironmentView,
    closure: EnvRef,
    params: Seq<Seq<char>>,
    args: Seq<ValueView>,
    name: Seq<char>,
)
    requires
        env.wf(),
        closure < env.scopes.len(),
        params.len() == args.len(),
        !params.contains(name),
    ensures
        env.with_enclosing(closure).define_all(env.scopes.len() as EnvRef, params, args).resolve(
            env.scopes.len() as EnvRef,
            name,
        ) == env.resolve(closure, name),
{
    let call = env.scopes.len() as EnvRef;
    let entered = env.with_enclosing(closure);
    lemma_define_all_frame(entered, call, params, args, name);
    let bound = entered.define_all(call, params, args);
    assert forall|i: int| 0 <= i <= closure implies env.scopes[i] == bound.scopes[i] by {
        assert(entered.scopes[i] == env.scopes[i]);
        assert(bound.scopes[i] == entered.scopes[i]);
    }
    lemma_older_scopes_untouched(env, bound, closure, name);
}

/// Binding parameters in a scope changes that scope alone, and in it the
/// parameters alone.
pub proof fn lemma_define_all_frame(
    env: EnvironmentView,
    scope: EnvRef,
    params: Seq<Seq<char>>,
    args: Seq<ValueView>,
    name: Seq<char>,
)
    requires
        scope < env.scopes.len(),
        params.len() == args.len(),
    ensures
        env.define_all(scope, params, args).scopes.len() == env.scopes.len(),
        forall|i: int|
            0 <= i < env.scopes.len() && i != scope ==> env.define_all(scope, params, args).scopes[i]
                == env.scopes[i],
        env.define_all(scope, params, args).scopes[scope as int].enclosing
            == env.scopes[scope as int].enclosing,
        !params.contains(name) ==> (env.define_all(
            scope,
            params,
            args,
        ).scopes[scope as int].vars.contains_key(name)
            <==> env.scopes[scope as int].vars.contains_key(name)),
    decreases params.len(),
{
    if params.len() > 0 {
        lemma_define_all_frame(env, scope, params.drop_last(), args.drop_last(), name);
        if !params.contains(name) {
            assert(params.last() == params[params.len() - 1]);
            assert(!params.drop_last().contains(name)) by {
                if params.drop_last().contains(name) {
                    let k = choose|k: int|
                        0 <= k < params.drop_last().len() && params.drop_last()[k] == name;
                    assert(params[k] == name);
                }
            }
        }
    }
}

/// Scoping is lexical: a function that returns a name reads it in the
/// scope where the function was declared, wherever it is called from. In
/// four steps the call has the value that the name has in that scope, and
/// the caller's scope is current again.
#[verifier::spinoff_prover]
pub proof fn law_function_reads_its_closure(m: InterpreterView, f: usize, name: Seq<char>)
    requires
        m.environment.wf(),
        f < m.heap.functions.len(),
        m.heap.functions[f as int].params.len() == 0,
        m.heap.functions[f as int].body == seq![StmtView::Return(Some(ExprView::Var(name)))],
        builtin_named(m.heap.functions[f as int].name) is None,
        m.heap.functions[f as int].closure < m.environment.scopes.len(),
        m.environment.resolve(m.heap.functions[f as int].closure, name) is Some,
    ensures
        ({
            let start = m.push_value(ValueView::Function(f)).push_task(TaskView::Call(0));
            let m1 = start.step(ReplyView::Nothing).0;
            let m2 = m1.step(ReplyView::Nothing).0;
            let m3 = m2.step(ReplyView::Nothing).0;
            let m4 = m3.step(ReplyView::Nothing).0;
            &&& m.environment.get(m.heap.functions[f as int].closure, name) is Ok
            &&& m4.values == m.values.push(
                m.environment.get(m.heap.functions[f as int].closure, name)->Ok_0,
            )
            &&& m4.env == m.env
            &&& m4.tasks == m.tasks
        }),
{
    let fun = m.heap.functions[f as int];
    let closure = fun.closure;
    let body = StmtView::Return(Some(ExprView::Var(name)));
    let inner = m.environment.scopes.len() as EnvRef;
    let pushed = m.push_value(ValueView::Function(f));
    let start = pushed.push_task(TaskView::Call(0));
    assert(start.pop_task().tasks =~= m.tasks);
    assert(pushed.drop_values(1).values =~= m.values);
    assert(pushed.top_values(0) =~= Seq::<ValueView>::empty());
    let called = InterpreterView { tasks: m.tasks, values: m.values, ..start };
    assert(start.pop_task().drop_values(1) == called);
    let entered = called.enter_scope(closure);
    assert(entered.environment.define_all(inner, fun.params, Seq::<ValueView>::empty())
        == entered.environment);
    let framed = entered.push_task(TaskView::CallEnd(m.env));
    assert(seq![body].drop_last() =~= Seq::<StmtView>::empty());
    let m1 = start.step(ReplyView::Nothing).0;
    assert(m1 == framed.push_task(TaskView::Exec(body))) by {
        reveal_with_fuel(InterpreterView::push_execs, 2);
    }
    assert(m1.pop_task().tasks =~= framed.tasks);
    let m2 = m1.step(ReplyView::Nothing).0;
    assert(m2 == framed.push_task(TaskView::Return).push_task(TaskView::Eval(ExprView::Var(name))));
    assert(m2.pop_task().tasks =~= framed.push_task(TaskView::Return).tasks);
    lemma_fresh_scope_resolves_outward(m.environment, closure, name);
    lemma_older_scopes_untouched(m.environment, entered.environment, closure, name);
    m.environment.lemma_resolve_binds(closure, name);
    let home = m.environment.resolve(closure, name)->0;
    assert(entered.environment.scopes[home as int] == m.environment.scopes[home as int]);
    let v = m.environment.get(closure, name)->Ok_0;
    assert(entered.environment.get(inner, name) == Ok::<ValueView, RuntimeErrorView>(v));
    let m3 = m2.step(ReplyView::Nothing).0;
    assert(m3 == framed.push_task(TaskView::Return).push_value(v));
    assert(m3.pop_task().tasks =~= framed.tasks);
    assert(m3.pop_task().drop_values(1).values =~= m.values);
    let returning = InterpreterView { values: m.values, ..framed };
    assert(m3.pop_task().drop_values(1) == returning);
    assert(returning.pop_task().tasks =~= m.tasks);
    let m4 = m3.step(ReplyView::Nothing).0;
}

/// Assignment never declares: assigning to a name that no scope of the
/// chain binds fails and names the variable.
pub proof fn law_assignment_needs_declaration(
    env: EnvironmentView,
    scope: EnvRef,
    name: Seq<char>,
    value: ValueView,
)
    requires
        env.resolve(scope, name) is None,
    ensures
        env.assign(scope, name, value) == Err::<EnvironmentView, RuntimeErrorView>(
            RuntimeErrorView::UndefinedVariable(name),
        ),
        env.get(scope, name) == Err::<ValueView, RuntimeErrorView>(
            RuntimeErrorView::UndefinedVariable(name),
        ),
{
}

/// Declaration, then assignment: the assignment succeeds, and the new
/// value is read in the scope of the declaration and in a scope nested in it.
pub proof fn law_declared_then_assigned(
    env: EnvironmentView,
    scope: EnvRef,
    name: Seq<char>,
    first: ValueView,
    second: ValueView,
)
    requires
        env.wf(),
        scope < env.scopes.len(),
    ensures
        env.define(scope, name, first).assign(scope, name, second) is Ok,
        env.define(scope, name, first).assign(scope, name, second)->Ok_0.get(scope, name) == Ok::<
            ValueView,
            RuntimeErrorView,
        >(second),
        env.define(scope, name, first).assign(scope, name, second)->Ok_0.with_enclosing(scope).get(
            env.scopes.len() as EnvRef,
            name,
        ) == Ok::<ValueView, RuntimeErrorView>(second),
{
    let declared = env.define(scope, name, first);
    let assigned = declared.define(scope, name, second);
    lemma_fresh_scope_resolves_outward(assigned, scope, name);
}

/// Whether a signal that travels down the tasks stops at this one at the
/// latest: the end of a function body, the end of a statement of a program
/// and the end of the work given to the machine stop every signal.
pub open spec fn is_call_boundary(t: TaskView) -> bool {
    t is CallEnd || t is EndStatement || t is FinishExec || t is FinishEval || t is FinishText
}

/// Whether the entry marks a loop whose body is running.
pub open spec fn is_loop_mark(t: TaskView) -> bool {
    t is While || t is ForNext
}

/// The scope that is current once the tasks above position `from` are
/// dropped: each scope that is left hands back to the one before it.
pub open spec fn scope_after_leaving(tasks: Seq<TaskView>, from: int, env: EnvRef) -> EnvRef
    decreases tasks.len(),
{
    if tasks.len() <= from + 1 || tasks.len() == 0 {
        env
    } else {
        scope_after_leaving(
            tasks.drop_last(),
            from,
            match tasks.last() {
                TaskView::Restore(e) => e,
                _ => env,
            },
        )
    }
}

/// `retornar` ends the function call, not the innermost block or loop:
/// everything above the end of the nearest function body is dropped,
/// loops and blocks alike; the caller's scope is current again and the
/// value returned is the value of the call.
pub proof fn law_return_ends_the_call(m: InterpreterView, v: ValueView, i: int, caller: EnvRef)
    requires
        0 <= i < m.tasks.len(),
        m.tasks[i] == TaskView::CallEnd(caller),
        forall|j: int| i < j < m.tasks.len() ==> !is_call_boundary(#[trigger] m.tasks[j]),
    ensures
        m.unwind(FlowControlView::Return(v)) == (
            InterpreterView {
                tasks: m.tasks.take(i),
                env: caller,
                values: m.values.push(v),
                ..m
            },
            ActionView::Continue,
        ),
    decreases m.tasks.len() - i,
{
    let top = m.tasks.len() - 1;
    if i < top {
        let next = match m.tasks.last() {
            TaskView::Restore(e) => m.pop_task().with_env(e),
            _ => m.pop_task(),
        };
        assert(!is_call_boundary(m.tasks[top]));
        assert(m.unwind(FlowControlView::Return(v)) == next.unwind(FlowControlView::Return(v)));
        law_return_ends_the_call(next, v, i, caller);
        assert(next.tasks.take(i) =~= m.tasks.take(i));
    } else {
        assert(m.tasks.drop_last() =~= m.tasks.take(i));
    }
}

/// `quebrar` ends the nearest enclosing loop and no other: the loop's
/// entry and everything above it are dropped, everything below stays, and
/// the scopes of the blocks that were left are left.
pub proof fn law_break_ends_nearest_loop(m: InterpreterView, i: int)
    requires
        0 <= i < m.tasks.len(),
        is_loop_mark(m.tasks[i]),
        forall|j: int|
            i < j < m.tasks.len() ==> !is_call_boundary(#[trigger] m.tasks[j]) && !is_loop_mark(
                m.tasks[j],
            ),
    ensures
        m.unwind(FlowControlView::Break) == (
            InterpreterView {
                tasks: m.tasks.take(i),
                env: scope_after_leaving(m.tasks, i, m.env),
                ..m
            },
            ActionView::Continue,
        ),
    decreases m.tasks.len() - i,
{
    let top = m.tasks.len() - 1;
    if i < top {
        let next = match m.tasks.last() {
            TaskView::Restore(e) => m.pop_task().with_env(e),
            _ => m.pop_task(),
        };
        assert(!is_call_boundary(m.tasks[top]) && !is_loop_mark(m.tasks[top]));
        assert(m.unwind(FlowControlView::Break) == next.unwind(FlowControlView::Break));
        law_break_ends_nearest_loop(next, i);
        assert(next.tasks.take(i) =~= m.tasks.take(i));
    } else {
        assert(m.tasks.drop_last() =~= m.tasks.take(i));
    }
}

/// `continuar` goes on with the nearest enclosing loop and no other:
/// everything above the loop's entry is dropped, the entry and everything
/// below it stay, so that the loop's next round is what comes next.
pub proof fn law_continue_resumes_nearest_loop(m: InterpreterView, i: int)
    requires
        0 <= i < m.tasks.len(),
        is_loop_mark(m.tasks[i]),
        forall|j: int|
            i < j < m.tasks.len() ==> !is_call_boundary(#[trigger] m.tasks[j]) && !is_loop_mark(
                m.tasks[j],
            ),
    ensures
        m.unwind(FlowControlView::Continue) == (
            InterpreterView {
                tasks: m.tasks.take(i + 1),
                env: scope_after_leaving(m.tasks, i, m.env),
                ..m
            },
            ActionView::Continue,
        ),
    decreases m.tasks.len() - i,
{
    let top = m.tasks.len() - 1;
    if i < top {
        let next = match m.tasks.last() {
            TaskView::Restore(e) => m.pop_task().with_env(e),
            _ => m.pop_task(),
        };
        assert(!is_call_boundary(m.tasks[top]) && !is_loop_mark(m.tasks[top]));
        assert(m.unwind(FlowControlView::Continue) == next.unwind(FlowControlView::Continue));
        law_continue_resumes_nearest_loop(next, i);
        assert(next.tasks.take(i + 1) =~= m.tasks.take(i + 1));
    } else {
        assert(m.tasks.take(i + 1) =~= m.tasks);
    }
}

/// A loop signal does not leave a function: where the end of a function
/// body lies above every loop, `quebrar` and `continuar` fail.
pub proof fn law_loop_signal_stays_in_function(m: InterpreterView, signal: FlowControlView, i: int)
    requires
        signal is Break || signal is Continue,
        0 <= i < m.tasks.len(),
        m.tasks[i] is CallEnd,
        forall|j: int|
            i < j < m.tasks.len() ==> !is_call_boundary(#[trigger] m.tasks[j]) && !is_loop_mark(
                m.tasks[j],
            ),
    ensures
        m.unwind(signal).1 == ActionView::Failed(RuntimeErrorView::LoopSignalInFunction),
    decreases m.tasks.len() - i,
{
    let top = m.tasks.len() - 1;
    if i < top {
        let next = match m.tasks.last() {
            TaskView::Restore(e) => m.pop_task().with_env(e),
            _ => m.pop_task(),
        };
        assert(!is_call_boundary(m.tasks[top]) && !is_loop_mark(m.tasks[top]));
        assert(m.unwind(signal) == next.unwind(signal));
        law_loop_signal_stays_in_function(next, signal, i);
    }
}

/// Division by zero is an error: a quotient is asked of the host only for
/// a divisor that is not zero, and a zero of either sign is refused.
pub proof fn law_division_by_zero(m: InterpreterView, a: u64, b: u64)
    requires
        m.values.len() >= 2,
        m.value(1) == ValueView::Number(a),
        m.value(0) == ValueView::Number(b),
    ensures
        spec_is_zero(b) ==> m.binary(BinOp::Div) == m.drop_values(2).fail(
            RuntimeErrorView::DivisionByZero,
        ),
        !spec_is_zero(b) ==> m.binary(BinOp::Div) == (
            m.drop_values(2).push_task(TaskView::AwaitNumber),
            ActionView::Ask(NumberRequestView::Div(a, b)),
        ),
        spec_is_zero(0x0000_0000_0000_0000),
        spec_is_zero(0x8000_0000_0000_0000),
{
    assert(0x0000_0000_0000_0000u64 & 0x7FFF_FFFF_FFFF_FFFFu64 == 0) by (bit_vector);
    assert(0x8000_0000_0000_0000u64 & 0x7FFF_FFFF_FFFF_FFFFu64 == 0) by (bit_vector);
}

/// Whether a character is one of the ten decimal digits.
pub open spec fn is_decimal_digit(c: char) -> bool {
    '0' <= c && c <= '9'
}

/// A decimal numeral consists of digits.
pub proof fn lemma_decimal_is_digits(n: nat)
    ensures
        decimal(n).len() >= 1,
        forall|i: int| 0 <= i < decimal(n).len() ==> is_decimal_digit(#[trigger] decimal(n)[i]),
    decreases n,
{
    if n >= 10 {
        lemma_decimal_is_digits(n / 10);
    }
}

/// Integral numbers are written without a decimal point: a number that
/// is an integer, below 2^63 or not, has its text without further work,
/// and the text is a minus sign, if the number is negative, and digits,
/// nothing else. A number that is no integer but whose fractional part is
/// within the tolerance is written in the same way.
pub proof fn law_integral_number_text(m: InterpreterView, n: u64, fraction: u64)
    ensures
        spec_is_integer(n) ==> ValueView::Number(n).plain_text(m.heap) == Some(
            signed_decimal(spec_truncate(n) as int),
        ),
        spec_is_large_integer(n) ==> ValueView::Number(n).plain_text(m.heap) == Some(
            large_integer_text(n),
        ),
        forall|i: int|
            0 <= i < large_integer_text(n).len() ==> {
                let c = #[trigger] large_integer_text(n)[i];
                is_decimal_digit(c) || (i == 0 && c == '-' && spec_is_negative(n))
            },
        spec_near_zero(fraction) && !spec_is_beyond_integers(n) ==> m.number_text(n, fraction)
            == m.push_text(signed_decimal(spec_truncate(n) as int)).proceed(),
        forall|i: int|
            0 <= i < signed_decimal(spec_truncate(n) as int).len() ==> {
                let c = #[trigger] signed_decimal(spec_truncate(n) as int)[i];
                is_decimal_digit(c) || (i == 0 && c == '-' && spec_truncate(n) < 0)
            },
{
    let large = times_two_to(spec_significand(n) as nat, (spec_exponent(n) - 1075) as nat);
    lemma_decimal_is_digits(large);
    assert forall|i: int| 0 <= i < large_integer_text(n).len() implies {
        let c = #[trigger] large_integer_text(n)[i];
        is_decimal_digit(c) || (i == 0 && c == '-' && spec_is_negative(n))
    } by {
        if spec_is_negative(n) && i > 0 {
            assert(large_integer_text(n)[i] == decimal(large)[i - 1]);
        }
    }
    let t = spec_truncate(n) as int;
    if t < 0 {
        lemma_decimal_is_digits((-t) as nat);
        assert forall|i: int| 0 <= i < signed_decimal(t).len() implies {
            let c = #[trigger] signed_decimal(t)[i];
            is_decimal_digit(c) || (i == 0 && c == '-' && t < 0)
        } by {
            if i > 0 {
                assert(signed_decimal(t)[i] == decimal((-t) as nat)[i - 1]);
            }
        }
    } else {
        lemma_decimal_is_digits(t as nat);
    }
}

/// A text plus a number that is an integer is the text followed by the
/// integer's numeral, in three steps and without a question to the host.
#[verifier::spinoff_prover]
pub proof fn law_text_plus_number(m: InterpreterView, s: Seq<char>, n: u64)
    requires
        spec_is_integer(n),
    ensures
        ({
            let start = m.push_value(ValueView::Text(s)).push_value(ValueView::Number(n)).push_task(
                TaskView::Binary(BinOp::Add),
            );
            let (m1, a1) = start.step(ReplyView::Nothing);
            let (m2, a2) = m1.step(ReplyView::Nothing);
            let (m3, a3) = m2.step(ReplyView::Nothing);
            &&& a1 == ActionView::Continue
            &&& a2 == ActionView::Continue
            &&& a3 == ActionView::Continue
            &&& m3 == m.push_value(ValueView::Text(s + signed_decimal(spec_truncate(n) as int)))
        }),
{
    let answer = signed_decimal(spec_truncate(n) as int);
    let both = m.push_value(ValueView::Text(s)).push_value(ValueView::Number(n));
    let start = both.push_task(TaskView::Binary(BinOp::Add));
    assert(start.pop_task().tasks =~= m.tasks);
    assert(both.drop_values(2).values =~= m.values);
    let (m1, a1) = start.step(ReplyView::Nothing);
    let waiting = both.push_task(TaskView::ConcatLeft);
    assert(m1 == waiting.push_task(TaskView::Stringify)) by {
        assert(both.drop_values(2).push_value(ValueView::Text(s)).push_value(
            ValueView::Number(n),
        ).values =~= both.values);
    }
    assert(m1.pop_task().tasks =~= waiting.tasks);
    let (m2, a2) = m1.step(ReplyView::Nothing);
    let text_only = m.push_value(ValueView::Text(s)).push_task(TaskView::ConcatLeft);
    assert(waiting.drop_values(1).values =~= text_only.values);
    assert(m2 == text_only.push_text(answer));
    let (m3, a3) = m2.step(ReplyView::Nothing);
    assert(m2.pop_task().tasks =~= m.tasks);
    assert(m2.pop_task().drop_values(1).drop_texts(1).values =~= m.values);
    assert(m2.pop_task().drop_values(1).drop_texts(1).texts =~= m.texts);
}

/// A text plus a number that is no integer and lies below 2^63 in
/// absolute value: the host is asked for the fractional part of the
/// number and then, unless that is within the tolerance, for the number's
/// text; its answer is appended.
#[verifier::spinoff_prover]
pub proof fn law_text_plus_fraction(
    m: InterpreterView,
    s: Seq<char>,
    n: u64,
    fraction: u64,
    answer: Seq<char>,
)
    requires
        !spec_is_integer(n),
        !spec_is_beyond_integers(n),
        !spec_near_zero(fraction),
    ensures
        ({
            let start = m.push_value(ValueView::Text(s)).push_value(ValueView::Number(n)).push_task(
                TaskView::Binary(BinOp::Add),
            );
            let (m1, a1) = start.step(ReplyView::Nothing);
            let (m2, a2) = m1.step(ReplyView::Nothing);
            let (m3, a3) = m2.step(ReplyView::Number(fraction));
            let (m4, a4) = m3.step(ReplyView::Text(answer));
            let (m5, a5) = m4.step(ReplyView::Nothing);
            &&& a2 == ActionView::Ask(NumberRequestView::Sub(n, spec_whole(n)))
            &&& a3 == ActionView::Ask(NumberRequestView::Format(n))
            &&& a4 == ActionView::Continue
            &&& a5 == ActionView::Continue
            &&& m5 == m.push_value(ValueView::Text(s + answer))
        }),
{
    let both = m.push_value(ValueView::Text(s)).push_value(ValueView::Number(n));
    let start = both.push_task(TaskView::Binary(BinOp::Add));
    assert(start.pop_task().tasks =~= m.tasks);
    assert(both.drop_values(2).values =~= m.values);
    let (m1, a1) = start.step(ReplyView::Nothing);
    let waiting = both.push_task(TaskView::ConcatLeft);
    assert(m1 == waiting.push_task(TaskView::Stringify)) by {
        assert(both.drop_values(2).push_value(ValueView::Text(s)).push_value(
            ValueView::Number(n),
        ).values =~= both.values);
    }
    assert(m1.pop_task().tasks =~= waiting.tasks);
    let (m2, a2) = m1.step(ReplyView::Nothing);
    let text_only = m.push_value(ValueView::Text(s)).push_task(TaskView::ConcatLeft);
    assert(waiting.drop_values(1).values =~= text_only.values);
    assert(m2 == text_only.push_task(TaskView::AwaitFraction(n)));
    assert(m2.pop_task().tasks =~= text_only.tasks);
    let (m3, a3) = m2.step(ReplyView::Number(fraction));
    assert(m3 == text_only.push_task(TaskView::AwaitText));
    assert(m3.pop_task().tasks =~= text_only.tasks);
    let (m4, a4) = m3.step(ReplyView::Text(answer));
    assert(m4 == text_only.push_text(answer));
    let (m5, a5) = m4.step(ReplyView::Nothing);
    assert(m4.pop_task().tasks =~= m.tasks);
    assert(m4.pop_task().drop_values(1).drop_texts(1).values =~= m.values);
    assert(m4.pop_task().drop_values(1).drop_texts(1).texts =~= m.texts);
}

/// Arrays are shared: what is written through one copy of an array value
/// is read through every other, for a copy holds the same handle.
pub proof fn law_array_writes_are_shared(m: InterpreterView, a: usize, n: u64, v: ValueView)
    requires
        0 <= spec_truncate(n) < m.heap.elements(a).len(),
    ensures
        ({
            let written = m.push_value(ValueView::Array(a)).push_value(
                ValueView::Number(n),
            ).push_value(v).store_index();
            let read = written.0.drop_values(1).push_value(ValueView::Array(a)).push_value(
                ValueView::Number(n),
            ).load_index();
            &&& written.1 == ActionView::Continue
            &&& read.1 == ActionView::Continue
            &&& read.0.values == m.values.push(v)
            &&& read.0.heap.elements(a) == m.heap.elements(a).update(spec_truncate(n) as int, v)
        }),
{
    let three = m.push_value(ValueView::Array(a)).push_value(ValueView::Number(n)).push_value(v);
    assert(three.drop_values(3).values =~= m.values);
    let written = three.store_index();
    let again = written.0.drop_values(1).push_value(ValueView::Array(a)).push_value(
        ValueView::Number(n),
    );
    assert(written.0.drop_values(1).values =~= m.values);
    assert(again.drop_values(2).values =~= m.values);
}

} // verus!
