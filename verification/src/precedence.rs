//! Arithmetic as it is written and as it is parsed.
//!
//! The usual grammar of sums and products, in which `*` and `/` bind tighter
//! than `+` and `-` and all four associate to the left, is stated here by the
//! shape of its derivations. The law at the end says that the parser reads
//! the tokens of every derivation as that derivation's tree.

use vstd::prelude::*;
use crate::ast::{BinOp, ExprView};
use crate::grammar::{
    binary, binary_rest, call, call_rest, expression, kind_at, operator_at, primary, unary, LEVELS,
};
use crate::tokens::{TokenTypeView, TokenView};

verus! {

/// A numeral, or a sum in brackets.
pub enum Atom {
    Number(Seq<char>),
    Bracketed(Box<Sum>),
}

/// Atoms multiplied and divided, read from the left.
pub enum Product {
    Single(Atom),
    Times(Box<Product>, Atom),
    Over(Box<Product>, Atom),
}

/// Products added and subtracted, read from the left.
pub enum Sum {
    Single(Product),
    Plus(Box<Sum>, Product),
    Minus(Box<Sum>, Product),
}

impl Atom {
    /// The kinds of the tokens with which the atom is written.
    pub open spec fn tokens(self) -> Seq<TokenTypeView>
        decreases self,
    {
        match self {
            Atom::Number(n) => seq![TokenTypeView::Numero(n)],
            Atom::Bracketed(s) => seq![TokenTypeView::AbrePar] + s.tokens() + seq![
                TokenTypeView::FechaPar,
            ],
        }
    }

    /// The expression that the atom stands for.
    pub open spec fn tree(self) -> ExprView
        decreases self,
    {
        match self {
            Atom::Number(n) => ExprView::Numero(n),
            Atom::Bracketed(s) => s.tree(),
        }
    }
}

impl Product {
    /// The kinds of the tokens with which the product is written.
    pub open spec fn tokens(self) -> Seq<TokenTypeView>
        decreases self,
    {
        match self {
            Product::Single(a) => a.tokens(),
            Product::Times(p, a) => p.tokens() + seq![TokenTypeView::Multiplica] + a.tokens(),
            Product::Over(p, a) => p.tokens() + seq![TokenTypeView::Divide] + a.tokens(),
        }
    }

    /// The expression that the product stands for.
    pub open spec fn tree(self) -> ExprView
        decreases self,
    {
        match self {
            Product::Single(a) => a.tree(),
            Product::Times(p, a) => ExprView::Binario(
                Box::new(p.tree()),
                BinOp::Mul,
                Box::new(a.tree()),
            ),
            Product::Over(p, a) => ExprView::Binario(
                Box::new(p.tree()),
                BinOp::Div,
                Box::new(a.tree()),
            ),
        }
    }
}

impl Sum {
    /// The kinds of the tokens with which the sum is written.
    pub open spec fn tokens(self) -> Seq<TokenTypeView>
        decreases self,
    {
        match self {
            Sum::Single(p) => p.tokens(),
            Sum::Plus(s, p) => s.tokens() + seq![TokenTypeView::Mais] + p.tokens(),
            Sum::Minus(s, p) => s.tokens() + seq![TokenTypeView::Menos] + p.tokens(),
        }
    }

    /// The expression that the sum stands for.
    pub open spec fn tree(self) -> ExprView
        decreases self,
    {
        match self {
            Sum::Single(p) => p.tree(),
            Sum::Plus(s, p) => ExprView::Binario(Box::new(s.tree()), BinOp::Add, Box::new(p.tree())),
            Sum::Minus(s, p) => ExprView::Binario(
                Box::new(s.tree()),
                BinOp::Sub,
                Box::new(p.tree()),
            ),
        }
    }
}

/// Whether the tokens from `pos` on are of the given kinds, in order.
pub open spec fn spells(ts: Seq<TokenView>, pos: nat, kinds: Seq<TokenTypeView>) -> bool {
    &&& pos + kinds.len() <= ts.len()
    &&& forall|i: int| 0 <= i < kinds.len() ==> (#[trigger] ts[pos + i]).tipo == kinds[i]
}

/// Whether a token does not go on with a primary: it opens neither an
/// argument list nor an index.
pub open spec fn ends_primary(k: Option<TokenTypeView>) -> bool {
    k != Some(TokenTypeView::AbrePar) && k != Some(TokenTypeView::AbreColchete)
}

/// Whether a token does not go on with a product.
pub open spec fn ends_product(k: Option<TokenTypeView>) -> bool {
    ends_primary(k) && k != Some(TokenTypeView::Multiplica) && k != Some(TokenTypeView::Divide)
}

/// Whether a token does not go on with an expression: it is no infix
/// operator and opens neither an argument list nor an index.
pub open spec fn ends_expression(k: Option<TokenTypeView>) -> bool {
    &&& ends_primary(k)
    &&& k matches Some(t) ==> forall|level: u8| operator_at(level, t) is None
}

proof fn lemma_spells_parts(
    ts: Seq<TokenView>,
    pos: nat,
    a: Seq<TokenTypeView>,
    mid: TokenTypeView,
    b: Seq<TokenTypeView>,
)
    requires
        spells(ts, pos, a + seq![mid] + b),
    ensures
        spells(ts, pos, a),
        kind_at(ts, pos + a.len()) == Some(mid),
        spells(ts, pos + a.len() + 1, b),
        (a + seq![mid] + b).len() == a.len() + 1 + b.len(),
{
    let all = a + seq![mid] + b;
    assert forall|i: int| 0 <= i < a.len() implies (#[trigger] ts[pos + i]).tipo == a[i] by {
        assert(all[i] == a[i]);
    }
    assert(ts[pos + (a.len() as int)].tipo == all[a.len() as int]);
    assert forall|i: int| 0 <= i < b.len() implies (#[trigger] ts[pos + a.len() + 1 + i]).tipo
        == b[i] by {
        assert(all[a.len() + 1 + i] == b[i]);
        assert(ts[pos + (a.len() + 1 + i)].tipo == all[a.len() + 1 + i]);
    }
}

proof fn lemma_atom(a: Atom, ts: Seq<TokenView>, pos: nat)
    requires
        spells(ts, pos, a.tokens()),
        ends_primary(kind_at(ts, pos + a.tokens().len())),
    ensures
        binary(ts, pos, LEVELS) == (a.tree(), a.tokens().len()),
    decreases a, 0nat,
{
    match a {
        Atom::Number(n) => {
            assert(ts[pos + 0int].tipo == a.tokens()[0]);
            assert(primary(ts, pos) == (a.tree(), 1nat));
            assert(call_rest(ts, pos + 1, a.tree()) == (a.tree(), 0nat));
            assert(call(ts, pos) == (a.tree(), 1nat));
            assert(unary(ts, pos) == (a.tree(), 1nat));
        },
        Atom::Bracketed(s) => {
            let inner = s.tokens();
            assert(a.tokens() =~= seq![TokenTypeView::AbrePar] + inner + seq![
                TokenTypeView::FechaPar,
            ]);
            assert(ts[pos + 0int].tipo == a.tokens()[0]);
            assert forall|i: int| 0 <= i < inner.len() implies (#[trigger] ts[pos + 1 + i]).tipo
                == inner[i] by {
                assert(a.tokens()[1 + i] == inner[i]);
                assert(ts[pos + (1 + i)].tipo == a.tokens()[1 + i]);
            }
            assert(ts[pos + (1 + inner.len() as int)].tipo == a.tokens()[1 + inner.len() as int]);
            assert(kind_at(ts, pos + 1 + inner.len()) == Some(TokenTypeView::FechaPar));
            assert(ends_expression(Some(TokenTypeView::FechaPar)));
            lemma_expression(*s, ts, pos + 1);
            let n = inner.len();
            assert(primary(ts, pos) == (a.tree(), 2 + n));
            assert(call_rest(ts, pos + 2 + n, a.tree()) == (a.tree(), 0nat));
            assert(call(ts, pos) == (a.tree(), 2 + n));
            assert(unary(ts, pos) == (a.tree(), 2 + n));
        },
    }
}

proof fn lemma_product(p: Product, ts: Seq<TokenView>, pos: nat)
    requires
        spells(ts, pos, p.tokens()),
        ends_primary(kind_at(ts, pos + p.tokens().len())),
    ensures
        binary(ts, pos, 5) == (
            binary_rest(ts, pos + p.tokens().len(), 5, p.tree()).0,
            p.tokens().len() + binary_rest(ts, pos + p.tokens().len(), 5, p.tree()).1,
        ),
    decreases p, 0nat,
{
    match p {
        Product::Single(a) => {
            lemma_atom(a, ts, pos);
        },
        Product::Times(q, a) => {
            lemma_spells_parts(ts, pos, q.tokens(), TokenTypeView::Multiplica, a.tokens());
            lemma_product(*q, ts, pos);
            let at = pos + q.tokens().len();
            lemma_atom(a, ts, at + 1);
            assert(operator_at(5, TokenTypeView::Multiplica) == Some(BinOp::Mul));
            assert(binary_rest(ts, at, 5, q.tree()) == (
                binary_rest(ts, at + 1 + a.tokens().len(), 5, p.tree()).0,
                1 + a.tokens().len() + binary_rest(ts, at + 1 + a.tokens().len(), 5, p.tree()).1,
            ));
        },
        Product::Over(q, a) => {
            lemma_spells_parts(ts, pos, q.tokens(), TokenTypeView::Divide, a.tokens());
            lemma_product(*q, ts, pos);
            let at = pos + q.tokens().len();
            lemma_atom(a, ts, at + 1);
            assert(operator_at(5, TokenTypeView::Divide) == Some(BinOp::Div));
            assert(binary_rest(ts, at, 5, q.tree()) == (
                binary_rest(ts, at + 1 + a.tokens().len(), 5, p.tree()).0,
                1 + a.tokens().len() + binary_rest(ts, at + 1 + a.tokens().len(), 5, p.tree()).1,
            ));
        },
    }
}

proof fn lemma_whole_product(p: Product, ts: Seq<TokenView>, pos: nat)
    requires
        spells(ts, pos, p.tokens()),
        ends_product(kind_at(ts, pos + p.tokens().len())),
    ensures
        binary(ts, pos, 5) == (p.tree(), p.tokens().len()),
    decreases p, 1nat,
{
    lemma_product(p, ts, pos);
    let after = pos + p.tokens().len();
    assert(binary_rest(ts, after, 5, p.tree()) == (p.tree(), 0nat));
}

proof fn lemma_sum(s: Sum, ts: Seq<TokenView>, pos: nat)
    requires
        spells(ts, pos, s.tokens()),
        ends_product(kind_at(ts, pos + s.tokens().len())),
    ensures
        binary(ts, pos, 4) == (
            binary_rest(ts, pos + s.tokens().len(), 4, s.tree()).0,
            s.tokens().len() + binary_rest(ts, pos + s.tokens().len(), 4, s.tree()).1,
        ),
    decreases s, 0nat,
{
    match s {
        Sum::Single(p) => {
            lemma_whole_product(p, ts, pos);
        },
        Sum::Plus(r, p) => {
            lemma_spells_parts(ts, pos, r.tokens(), TokenTypeView::Mais, p.tokens());
            lemma_sum(*r, ts, pos);
            let at = pos + r.tokens().len();
            lemma_whole_product(p, ts, at + 1);
            assert(operator_at(4, TokenTypeView::Mais) == Some(BinOp::Add));
            assert(binary_rest(ts, at, 4, r.tree()) == (
                binary_rest(ts, at + 1 + p.tokens().len(), 4, s.tree()).0,
                1 + p.tokens().len() + binary_rest(ts, at + 1 + p.tokens().len(), 4, s.tree()).1,
            ));
        },
        Sum::Minus(r, p) => {
            lemma_spells_parts(ts, pos, r.tokens(), TokenTypeView::Menos, p.tokens());
            lemma_sum(*r, ts, pos);
            let at = pos + r.tokens().len();
            lemma_whole_product(p, ts, at + 1);
            assert(operator_at(4, TokenTypeView::Menos) == Some(BinOp::Sub));
            assert(binary_rest(ts, at, 4, r.tree()) == (
                binary_rest(ts, at + 1 + p.tokens().len(), 4, s.tree()).0,
                1 + p.tokens().len() + binary_rest(ts, at + 1 + p.tokens().len(), 4, s.tree()).1,
            ));
        },
    }
}

proof fn lemma_expression(s: Sum, ts: Seq<TokenView>, pos: nat)
    requires
        spells(ts, pos, s.tokens()),
        ends_expression(kind_at(ts, pos + s.tokens().len())),
    ensures
        expression(ts, pos) == (s.tree(), s.tokens().len()),
    decreases s, 1nat,
{
    let n = s.tokens().len();
    let after = pos + n;
    let follow = kind_at(ts, after);
    assert(ends_product(follow)) by {
        assert(operator_at(5, TokenTypeView::Multiplica) is Some);
        assert(operator_at(5, TokenTypeView::Divide) is Some);
    }
    lemma_sum(s, ts, pos);
    assert(binary_rest(ts, after, 4, s.tree()) == (s.tree(), 0nat));
    assert(binary(ts, pos, 4) == (s.tree(), n));
    assert(binary_rest(ts, after, 3, s.tree()) == (s.tree(), 0nat));
    assert(binary(ts, pos, 3) == (s.tree(), n));
    assert(binary_rest(ts, after, 2, s.tree()) == (s.tree(), 0nat));
    assert(binary(ts, pos, 2) == (s.tree(), n));
    assert(binary_rest(ts, after, 1, s.tree()) == (s.tree(), 0nat));
    assert(binary(ts, pos, 1) == (s.tree(), n));
    assert(binary_rest(ts, after, 0, s.tree()) == (s.tree(), 0nat));
    assert(binary(ts, pos, 0) == (s.tree(), n));
}

/// Precedence and associativity: the tokens of a sum, wherever they stand
/// and whatever follows that does not go on with the expression, are read
/// as the tree of the sum. So `*` and `/` bind tighter than `+` and `-`,
/// operators of one level group from the left, and brackets group as
/// written.
pub proof fn law_arithmetic_is_read_as_written(s: Sum, ts: Seq<TokenView>, pos: nat)
    requires
        spells(ts, pos, s.tokens()),
        ends_expression(kind_at(ts, pos + s.tokens().len())),
    ensures
        expression(ts, pos) == (s.tree(), s.tokens().len()),
{
    lemma_expression(s, ts, pos);
}

} // verus!
