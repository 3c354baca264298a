//! Runtime values, the store of shared objects, and control-flow signals.

use vstd::prelude::*;
use crate::ast::{Stmt, StmtView, stmts_view, clone_names, copy_stmts};
use crate::number::{
    exponent, is_integer, is_large_integer, is_negative, is_zero, significand, spec_exponent,
    spec_is_integer, spec_is_large_integer, spec_is_negative, spec_is_zero, spec_significand,
    spec_truncate, truncate,
};
use crate::numeral::{push_doubled, times_two_to};
use crate::text::{decimal, push_signed_decimal, signed_decimal, text_of};

verus! {

/// A handle to a scope of the environment chain.
pub type EnvRef = usize;

/// A runtime value. Arrays and functions are shared: a value holds a handle
/// into the [`Heap`], and copies of the value name the same object.
#[derive(Debug)]
pub enum Value {
    /// A binary64 number, as its bit pattern.
    Number(u64),
    Text(String),
    Bool(bool),
    Nil,
    Array(usize),
    Function(usize),
}

/// The mathematical value of a [`Value`].
pub enum ValueView {
    Number(u64),
    Text(Seq<char>),
    Bool(bool),
    Nil,
    Array(usize),
    Function(usize),
}

impl DeepView for Value {
    type V = ValueView;

    open spec fn deep_view(&self) -> ValueView {
        match self {
            Value::Number(n) => ValueView::Number(*n),
            Value::Text(s) => ValueView::Text(s@),
            Value::Bool(b) => ValueView::Bool(*b),
            Value::Nil => ValueView::Nil,
            Value::Array(a) => ValueView::Array(*a),
            Value::Function(f) => ValueView::Function(*f),
        }
    }
}

impl View for Value {
    type V = ValueView;

    open spec fn view(&self) -> ValueView {
        self.deep_view()
    }
}

impl Clone for Value {
    fn clone(&self) -> (r: Value)
        ensures
            r@ == self@,
    {
        match self {
            Value::Number(n) => Value::Number(*n),
            Value::Text(s) => Value::Text(s.clone()),
            Value::Bool(b) => Value::Bool(*b),
            Value::Nil => Value::Nil,
            Value::Array(a) => Value::Array(*a),
            Value::Function(f) => Value::Function(*f),
        }
    }
}

/// A function value: its name, its parameters, its body, and the scope in
/// which it was declared.
#[derive(Debug)]
pub struct Function {
    pub name: String,
    pub params: Vec<String>,
    pub body: Vec<Stmt>,
    pub closure: EnvRef,
}

/// The mathematical value of a [`Function`].
pub struct FunctionView {
    pub name: Seq<char>,
    pub params: Seq<Seq<char>>,
    pub body: Seq<StmtView>,
    pub closure: EnvRef,
}

impl DeepView for Function {
    type V = FunctionView;

    open spec fn deep_view(&self) -> FunctionView {
        FunctionView {
            name: self.name@,
            params: self.params.deep_view(),
            body: stmts_view(self.body@),
            closure: self.closure,
        }
    }
}

impl View for Function {
    type V = FunctionView;

    open spec fn view(&self) -> FunctionView {
        self.deep_view()
    }
}

impl Clone for Function {
    fn clone(&self) -> (r: Function)
        ensures
            r@ == self@,
    {
        Function {
            name: self.name.clone(),
            params: clone_names(&self.params),
            body: copy_stmts(&self.body),
            closure: self.closure,
        }
    }
}

/// The store of arrays and functions. Objects are added and never removed, so
/// a handle stays valid once given out.
#[derive(Debug)]
pub struct Heap {
    pub arrays: Vec<Vec<Value>>,
    pub functions: Vec<Function>,
}

/// The mathematical value of a [`Heap`].
pub struct HeapView {
    pub arrays: Seq<Seq<ValueView>>,
    pub functions: Seq<FunctionView>,
}

impl DeepView for Heap {
    type V = HeapView;

    open spec fn deep_view(&self) -> HeapView {
        HeapView { arrays: self.arrays.deep_view(), functions: self.functions.deep_view() }
    }
}

impl View for Heap {
    type V = HeapView;

    open spec fn view(&self) -> HeapView {
        self.deep_view()
    }
}

/// The signal with which a statement ends.
#[derive(Debug)]
pub enum FlowControl {
    /// The statement ran to its end.
    Normal,
    Return(Value),
    Break,
    Continue,
}

/// The mathematical value of a [`FlowControl`].
pub enum FlowControlView {
    Normal,
    Return(ValueView),
    Break,
    Continue,
}

impl DeepView for FlowControl {
    type V = FlowControlView;

    open spec fn deep_view(&self) -> FlowControlView {
        match self {
            FlowControl::Normal => FlowControlView::Normal,
            FlowControl::Return(v) => FlowControlView::Return(v@),
            FlowControl::Break => FlowControlView::Break,
            FlowControl::Continue => FlowControlView::Continue,
        }
    }
}

impl View for FlowControl {
    type V = FlowControlView;

    open spec fn view(&self) -> FlowControlView {
        self.deep_view()
    }
}

/// The numeral of a finite number of 2^63 or more in absolute value: a
/// minus sign if the number is negative, then the decimal numeral of its
/// significand doubled as often as its exponent field exceeds 1075. That
/// is the number itself, digit for digit.
pub open spec fn large_integer_text(n: u64) -> Seq<char> {
    let digits = decimal(
        times_two_to(spec_significand(n) as nat, (spec_exponent(n) - 1075) as nat),
    );
    if spec_is_negative(n) {
        seq!['-'] + digits
    } else {
        digits
    }
}

impl ValueView {
    /// Truthiness: nil and `falso` are falsy, a number only at zero, a text
    /// and an array only when empty; a function is always truthy.
    pub open spec fn is_truthy(self, heap: HeapView) -> bool {
        match self {
            ValueView::Nil => false,
            ValueView::Bool(b) => b,
            ValueView::Number(n) => !spec_is_zero(n),
            ValueView::Text(s) => s.len() != 0,
            ValueView::Array(a) => a < heap.arrays.len() && heap.arrays[a as int].len() != 0,
            ValueView::Function(_) => true,
        }
    }

    /// The text of a value that has one without further work: a text is its
    /// own, booleans and nil have fixed spellings, a function shows its name,
    /// and a number that is an integer, however large, is written as that
    /// integer, without a decimal point. The text of any other number takes
    /// a question to the host, and an array's is put together from those of
    /// its elements.
    pub open spec fn plain_text(self, heap: HeapView) -> Option<Seq<char>> {
        match self {
            ValueView::Text(s) => Some(s),
            ValueView::Bool(b) => Some(
                if b {
                    "true"@
                } else {
                    "false"@
                },
            ),
            ValueView::Nil => Some("nulo"@),
            ValueView::Function(f) => Some(
                if f < heap.functions.len() {
                    "<fn "@ + heap.functions[f as int].name + ">"@
                } else {
                    "<fn >"@
                },
            ),
            ValueView::Number(n) => if spec_is_integer(n) {
                Some(signed_decimal(spec_truncate(n) as int))
            } else if spec_is_large_integer(n) {
                Some(large_integer_text(n))
            } else {
                None
            },
            ValueView::Array(_) => None,
        }
    }

    /// Equality of values of like kind: numbers are compared by the host
    /// within a tolerance, so this speaks of the other kinds only. Values of
    /// different kinds, arrays and functions are never equal.
    pub open spec fn equals_exactly(self, other: ValueView) -> bool {
        match (self, other) {
            (ValueView::Text(x), ValueView::Text(y)) => x == y,
            (ValueView::Bool(x), ValueView::Bool(y)) => x == y,
            (ValueView::Nil, ValueView::Nil) => true,
            _ => false,
        }
    }
}

impl Value {
    /// Whether the value counts as true in a condition.
    pub fn is_truthy(&self, heap: &Heap) -> (r: bool)
        ensures
            r == self@.is_truthy(heap@),
    {
        match self {
            Value::Nil => false,
            Value::Bool(b) => *b,
            Value::Number(n) => !is_zero(*n),
            Value::Text(s) => {
                let t = s.as_str();
                !t.is_empty()
            },
            Value::Array(a) => *a < heap.arrays.len() && heap.arrays[*a].len() != 0,
            Value::Function(_) => true,
        }
    }

    /// The value's text where it has one without further work, see
    /// [`ValueView::plain_text`].
    pub fn plain_text(&self, heap: &Heap) -> (r: Option<String>)
        ensures
            r.deep_view() == self@.plain_text(heap@),
    {
        match self {
            Value::Text(s) => Some(s.clone()),
            Value::Bool(b) => {
                if *b {
                    Some(text_of("true"))
                } else {
                    Some(text_of("false"))
                }
            },
            Value::Nil => Some(text_of("nulo")),
            Value::Function(f) => {
                let mut s = text_of("<fn ");
                if *f < heap.functions.len() {
                    s.append(heap.functions[*f].name.as_str());
                    s.append(">");
                    Some(s)
                } else {
                    Some(text_of("<fn >"))
                }
            },
            Value::Number(n) => {
                if is_integer(*n) {
                    let mut s = String::new();
                    push_signed_decimal(&mut s, truncate(*n));
                    Some(s)
                } else if is_large_integer(*n) {
                    let mut s = String::new();
                    if is_negative(*n) {
                        s.push('-');
                        assert(s@ =~= seq!['-']);
                    }
                    let ghost sign = s@;
                    push_doubled(&mut s, significand(*n), exponent(*n) - 1075);
                    assert(s@ =~= large_integer_text(*n));
                    Some(s)
                } else {
                    None
                }
            },
            Value::Array(_) => None,
        }
    }

    /// Equality of two values neither of which is a number, see
    /// [`ValueView::equals_exactly`].
    pub fn equals_exactly(&self, other: &Value) -> (r: bool)
        ensures
            r == self@.equals_exactly(other@),
    {
        match (self, other) {
            (Value::Text(x), Value::Text(y)) => *x == *y,
            (Value::Bool(x), Value::Bool(y)) => *x == *y,
            (Value::Nil, Value::Nil) => true,
            _ => false,
        }
    }
}

} // verus!
