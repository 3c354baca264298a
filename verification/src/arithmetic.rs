//! Arithmetic from source to value.
//!
//! The machine leaves sums, differences, products and quotients to its
//! host. Whatever the host computes, the order in which it is asked is the
//! machine's: the laws here say that an arithmetic expression is evaluated
//! operand by operand, the left before the right, and that its value is the
//! value of its tree. With the law of [`crate::precedence`], the value of an
//! expression as written is the value that the usual rules give it.

use vstd::prelude::*;
use crate::ast::{BinOp, ExprView};
use crate::grammar::{expression, kind_at};
use crate::machine::{ActionView, InterpreterView, NumberRequestView, ReplyView, TaskView};
use crate::number::spec_is_zero;
use crate::precedence::{ends_expression, law_arithmetic_is_read_as_written, spells, Atom, Product, Sum};
use crate::tokens::TokenView;
use crate::value::ValueView;

verus! {

/// A host, as far as arithmetic goes: the number that it gives for a
/// numeral, and the number that it gives for an operation on two numbers.
pub struct Host {
    pub number: spec_fn(Seq<char>) -> u64,
    pub result: spec_fn(BinOp, u64, u64) -> u64,
}

impl Host {
    /// What the host hands to the next step after a step has left it an
    /// action: the answer to a question about numbers, and nothing else.
    pub open spec fn answer(self, action: ActionView) -> ReplyView {
        match action {
            ActionView::Ask(NumberRequestView::Parse(t)) => ReplyView::Number((self.number)(t)),
            ActionView::Ask(NumberRequestView::Add(a, b)) => ReplyView::Number(
                (self.result)(BinOp::Add, a, b),
            ),
            ActionView::Ask(NumberRequestView::Sub(a, b)) => ReplyView::Number(
                (self.result)(BinOp::Sub, a, b),
            ),
            ActionView::Ask(NumberRequestView::Mul(a, b)) => ReplyView::Number(
                (self.result)(BinOp::Mul, a, b),
            ),
            ActionView::Ask(NumberRequestView::Div(a, b)) => ReplyView::Number(
                (self.result)(BinOp::Div, a, b),
            ),
            _ => ReplyView::Nothing,
        }
    }

    /// The machine after the host has driven it for a number of steps,
    /// the first of them with the reply given, and the reply that the host
    /// has ready for the step after them.
    pub open spec fn drive(self, m: InterpreterView, reply: ReplyView, steps: nat) -> (
        InterpreterView,
        ReplyView,
    )
        decreases steps,
    {
        if steps == 0 {
            (m, reply)
        } else {
            let (next, action) = m.step(reply);
            self.drive(next, self.answer(action), (steps - 1) as nat)
        }
    }

    /// The value of an arithmetic expression: that of a numeral is the
    /// host's number for it, and that of an operation is the host's result
    /// for the values of its operands.
    pub open spec fn value(self, e: ExprView) -> u64
        decreases e,
    {
        match e {
            ExprView::Numero(t) => (self.number)(t),
            ExprView::Binario(l, op, r) => (self.result)(op, self.value(*l), self.value(*r)),
            _ => 0,
        }
    }

    /// Whether an arithmetic expression is evaluated without a division
    /// by zero.
    pub open spec fn divides_safely(self, e: ExprView) -> bool
        decreases e,
    {
        match e {
            ExprView::Binario(l, op, r) => {
                &&& self.divides_safely(*l)
                &&& self.divides_safely(*r)
                &&& op == BinOp::Div ==> !spec_is_zero(self.value(*r))
            },
            _ => true,
        }
    }
}

/// Whether an expression is made of numerals and the four operations of
/// arithmetic alone.
pub open spec fn is_arithmetic(e: ExprView) -> bool
    decreases e,
{
    match e {
        ExprView::Numero(_) => true,
        ExprView::Binario(l, op, r) => {
            &&& op == BinOp::Add || op == BinOp::Sub || op == BinOp::Mul || op == BinOp::Div
            &&& is_arithmetic(*l)
            &&& is_arithmetic(*r)
        },
        _ => false,
    }
}

/// The number of steps in which an arithmetic expression is evaluated.
pub open spec fn steps_of(e: ExprView) -> nat
    decreases e,
{
    match e {
        ExprView::Binario(l, _, r) => 3 + steps_of(*l) + steps_of(*r),
        _ => 2,
    }
}

/// Driving for some steps and then for some more is driving for all of
/// them.
pub proof fn lemma_drive_on(h: Host, m: InterpreterView, reply: ReplyView, a: nat, b: nat)
    ensures
        h.drive(m, reply, a + b) == h.drive(h.drive(m, reply, a).0, h.drive(m, reply, a).1, b),
    decreases a,
{
    if a > 0 {
        let (next, action) = m.step(reply);
        lemma_drive_on(h, next, h.answer(action), (a - 1) as nat, b);
        assert(h.drive(m, reply, a + b) == h.drive(next, h.answer(action), (a + b - 1) as nat));
    }
}

/// Evaluation of arithmetic: driven by a host, the machine evaluates an
/// arithmetic expression to the value of its tree, whatever else it has to
/// do and whatever values it holds. The operands of an operation are
/// evaluated first, the left before the right; then the host is asked for
/// the result.
pub proof fn law_arithmetic_is_evaluated_by_its_tree(h: Host, m: InterpreterView, e: ExprView)
    requires
        is_arithmetic(e),
        h.divides_safely(e),
    ensures
        h.drive(m.push_task(TaskView::Eval(e)), ReplyView::Nothing, steps_of(e)) == (
            m.push_value(ValueView::Number(h.value(e))),
            ReplyView::Nothing,
        ),
    decreases e,
{
    let start = m.push_task(TaskView::Eval(e));
    assert(start.pop_task().tasks =~= m.tasks);
    assert(start.pop_task() == m);
    match e {
        ExprView::Numero(t) => {
            let asked = m.push_task(TaskView::AwaitNumber);
            assert(start.step(ReplyView::Nothing) == (
                asked,
                ActionView::Ask(NumberRequestView::Parse(t)),
            ));
            assert(asked.pop_task().tasks =~= m.tasks);
            let answer = ReplyView::Number((h.number)(t));
            assert(asked.step(answer) == m.push_value(ValueView::Number(h.value(e))).proceed());
            reveal_with_fuel(Host::drive, 3);
        },
        ExprView::Binario(l, op, r) => {
            let vl = ValueView::Number(h.value(*l));
            let vr = ValueView::Number(h.value(*r));
            let waiting = m.push_task(TaskView::Binary(op));
            let first = waiting.push_task(TaskView::Eval(*r)).push_task(TaskView::Eval(*l));
            assert(start.step(ReplyView::Nothing) == first.proceed());
            law_arithmetic_is_evaluated_by_its_tree(h, waiting.push_task(TaskView::Eval(*r)), *l);
            let second = waiting.push_value(vl).push_task(TaskView::Eval(*r));
            assert(second == waiting.push_task(TaskView::Eval(*r)).push_value(vl));
            law_arithmetic_is_evaluated_by_its_tree(h, waiting.push_value(vl), *r);
            let both = waiting.push_value(vl).push_value(vr);
            assert(both.pop_task().tasks =~= m.tasks);
            assert(both.pop_task().drop_values(2).values =~= m.values);
            assert(both.pop_task().drop_values(2) == m);
            assert(both.pop_task().value(0) == vr);
            assert(both.pop_task().value(1) == vl);
            let asked = m.push_task(TaskView::AwaitNumber);
            let (after, action) = both.step(ReplyView::Nothing);
            assert(after == asked);
            assert(h.answer(action) == ReplyView::Number(h.value(e)));
            assert(asked.pop_task().tasks =~= m.tasks);
            assert(asked.step(ReplyView::Number(h.value(e))) == m.push_value(
                ValueView::Number(h.value(e)),
            ).proceed());
            let done = (m.push_value(ValueView::Number(h.value(e))), ReplyView::Nothing);
            assert(h.drive(both, ReplyView::Nothing, 2) == done) by {
                reveal_with_fuel(Host::drive, 3);
            }
            let a = steps_of(*l);
            let b = steps_of(*r);
            assert(h.drive(first, ReplyView::Nothing, a) == (second, ReplyView::Nothing));
            assert(h.drive(second, ReplyView::Nothing, b) == (both, ReplyView::Nothing));
            lemma_drive_on(h, first, ReplyView::Nothing, a, b);
            lemma_drive_on(h, first, ReplyView::Nothing, a + b, 2);
            assert(h.drive(first, ReplyView::Nothing, a + b + 2) == done);
            assert(h.drive(start, ReplyView::Nothing, steps_of(e)) == h.drive(
                first,
                ReplyView::Nothing,
                (steps_of(e) - 1) as nat,
            ));
        },
        _ => {},
    }
}

/// The tree of a sum is arithmetic.
pub proof fn lemma_sum_is_arithmetic(s: Sum)
    ensures
        is_arithmetic(s.tree()),
    decreases s,
{
    match s {
        Sum::Single(p) => {
            lemma_product_is_arithmetic(p);
        },
        Sum::Plus(r, p) => {
            lemma_sum_is_arithmetic(*r);
            lemma_product_is_arithmetic(p);
        },
        Sum::Minus(r, p) => {
            lemma_sum_is_arithmetic(*r);
            lemma_product_is_arithmetic(p);
        },
    }
}

/// The tree of a product is arithmetic.
pub proof fn lemma_product_is_arithmetic(p: Product)
    ensures
        is_arithmetic(p.tree()),
    decreases p,
{
    match p {
        Product::Single(a) => {
            lemma_atom_is_arithmetic(a);
        },
        Product::Times(q, a) => {
            lemma_product_is_arithmetic(*q);
            lemma_atom_is_arithmetic(a);
        },
        Product::Over(q, a) => {
            lemma_product_is_arithmetic(*q);
            lemma_atom_is_arithmetic(a);
        },
    }
}

/// The tree of an atom is arithmetic.
pub proof fn lemma_atom_is_arithmetic(a: Atom)
    ensures
        is_arithmetic(a.tree()),
    decreases a,
{
    match a {
        Atom::Number(_) => {},
        Atom::Bracketed(s) => {
            lemma_sum_is_arithmetic(*s);
        },
    }
}

/// Arithmetic from tokens to value: the tokens of a sum are parsed as its
/// tree, and the machine, driven by a host, evaluates what was parsed to
/// the value of that tree. So `*` and `/` are applied before `+` and `-`,
/// operations of one level from left to right, and brackets first, unless a
/// division by zero stops the evaluation.
pub proof fn law_arithmetic_from_tokens_to_value(
    h: Host,
    m: InterpreterView,
    s: Sum,
    ts: Seq<TokenView>,
    pos: nat,
)
    requires
        spells(ts, pos, s.tokens()),
        ends_expression(kind_at(ts, pos + s.tokens().len())),
        h.divides_safely(s.tree()),
    ensures
        expression(ts, pos).0 == s.tree(),
        h.drive(
            m.push_task(TaskView::Eval(expression(ts, pos).0)),
            ReplyView::Nothing,
            steps_of(s.tree()),
        ) == (m.push_value(ValueView::Number(h.value(s.tree()))), ReplyView::Nothing),
{
    law_arithmetic_is_read_as_written(s, ts, pos);
    lemma_sum_is_arithmetic(s);
    law_arithmetic_is_evaluated_by_its_tree(h, m, s.tree());
}

} // verus!
