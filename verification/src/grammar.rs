//! The grammar, as functions from a token sequence and a position to what
//! is parsed there and how many tokens it takes.
//!
//! Expressions are parsed by precedence climbing. There are six levels of
//! infix operators, from the loosest to the tightest: `ou`; `e`; `==` `!=`;
//! `<` `<=` `>` `>=`; `+` `-`; `*` `/`. All associate to the left. Below them
//! stand the prefix operators, then calls and indexing, then the primaries.

use vstd::prelude::*;
use crate::ast::{BinOp, ExprView, StmtView, UnarioOp};
use crate::tokens::{TokenTypeView, TokenView};

verus! {

/// The number of levels of infix operators.
pub const LEVELS: u8 = 6;

/// The kind of the token at a position, if the position is within the tokens.
pub open spec fn kind_at(ts: Seq<TokenView>, pos: nat) -> Option<TokenTypeView> {
    if pos < ts.len() {
        Some(ts[pos as int].tipo)
    } else {
        None
    }
}

/// How many tokens are taken by reading one: none at the end.
pub open spec fn one(ts: Seq<TokenView>, pos: nat) -> nat {
    if pos < ts.len() {
        1
    } else {
        0
    }
}

/// How many tokens are taken by an optional token of the given kind.
pub open spec fn optional(ts: Seq<TokenView>, pos: nat, k: TokenTypeView) -> nat {
    if kind_at(ts, pos) == Some(k) {
        1
    } else {
        0
    }
}

/// How many tokens are left from a position on.
pub open spec fn remaining(ts: Seq<TokenView>, pos: nat) -> nat {
    if pos <= ts.len() {
        (ts.len() - pos) as nat
    } else {
        0
    }
}

/// The infix operator that a token stands for at a level, if it stands for
/// one there.
pub open spec fn operator_at(level: u8, k: TokenTypeView) -> Option<BinOp> {
    if level == 0 {
        match k {
            TokenTypeView::Ou => Some(BinOp::Or),
            _ => None,
        }
    } else if level == 1 {
        match k {
            TokenTypeView::E => Some(BinOp::And),
            _ => None,
        }
    } else if level == 2 {
        match k {
            TokenTypeView::IgualIgual => Some(BinOp::Eq),
            TokenTypeView::Diferente => Some(BinOp::Neq),
            _ => None,
        }
    } else if level == 3 {
        match k {
            TokenTypeView::Maior => Some(BinOp::Gt),
            TokenTypeView::MaiorIgual => Some(BinOp::Ge),
            TokenTypeView::Menor => Some(BinOp::Lt),
            TokenTypeView::MenorIgual => Some(BinOp::Le),
            _ => None,
        }
    } else if level == 4 {
        match k {
            TokenTypeView::Mais => Some(BinOp::Add),
            TokenTypeView::Menos => Some(BinOp::Sub),
            _ => None,
        }
    } else if level == 5 {
        match k {
            TokenTypeView::Multiplica => Some(BinOp::Mul),
            TokenTypeView::Divide => Some(BinOp::Div),
            _ => None,
        }
    } else {
        None
    }
}

/// An expression.
pub open spec fn expression(ts: Seq<TokenView>, pos: nat) -> (ExprView, nat)
    decreases remaining(ts, pos), 101nat,
{
    binary(ts, pos, 0)
}

/// An expression of infix operators from a level up: one operand of the
/// next level, then operators of this level, each with its right operand.
pub open spec fn binary(ts: Seq<TokenView>, pos: nat, level: u8) -> (ExprView, nat)
    decreases remaining(ts, pos), (if level < LEVELS { 100 - 2 * level } else { 20 }) as nat,
{
    if level >= LEVELS {
        unary(ts, pos)
    } else {
        let (left, n) = binary(ts, pos, (level + 1) as u8);
        let (e, m) = binary_rest(ts, pos + n, level, left);
        (e, n + m)
    }
}

/// The operators of a level that follow a left operand, folded to the left.
pub open spec fn binary_rest(ts: Seq<TokenView>, pos: nat, level: u8, left: ExprView) -> (
    ExprView,
    nat,
)
    decreases remaining(ts, pos), (if level < LEVELS { 99 - 2 * level } else { 19 }) as nat,
{
    match kind_at(ts, pos) {
        Some(k) => match operator_at(level, k) {
            Some(op) => {
                let (right, n) = binary(ts, pos + 1, (level + 1) as u8);
                let (e, m) = binary_rest(
                    ts,
                    pos + 1 + n,
                    level,
                    ExprView::Binario(Box::new(left), op, Box::new(right)),
                );
                (e, 1 + n + m)
            },
            None => (left, 0),
        },
        None => (left, 0),
    }
}

/// A prefix operator with its operand, or a call.
pub open spec fn unary(ts: Seq<TokenView>, pos: nat) -> (ExprView, nat)
    decreases remaining(ts, pos), 10nat,
{
    match kind_at(ts, pos) {
        Some(TokenTypeView::Menos) => {
            let (r, n) = unary(ts, pos + 1);
            (ExprView::Unario(UnarioOp::Neg, Box::new(r)), 1 + n)
        },
        Some(TokenTypeView::Nao) => {
            let (r, n) = unary(ts, pos + 1);
            (ExprView::Unario(UnarioOp::Nao, Box::new(r)), 1 + n)
        },
        _ => call(ts, pos),
    }
}

/// A primary followed by any number of argument lists and indices.
pub open spec fn call(ts: Seq<TokenView>, pos: nat) -> (ExprView, nat)
    decreases remaining(ts, pos), 9nat,
{
    let (e, n) = primary(ts, pos);
    let (r, m) = call_rest(ts, pos + n, e);
    (r, n + m)
}

/// The argument lists and indices that follow a callee. After an argument
/// list and after an index one token is taken as the closing bracket,
/// whatever it is.
pub open spec fn call_rest(ts: Seq<TokenView>, pos: nat, callee: ExprView) -> (ExprView, nat)
    decreases remaining(ts, pos), 8nat,
{
    match kind_at(ts, pos) {
        Some(TokenTypeView::AbrePar) => {
            let (args, n) = arguments(ts, pos + 1);
            let close = one(ts, pos + 1 + n);
            let (r, m) = call_rest(
                ts,
                pos + 1 + n + close,
                ExprView::Chamada(Box::new(callee), args),
            );
            (r, 1 + n + close + m)
        },
        Some(TokenTypeView::AbreColchete) => {
            let (i, n) = expression(ts, pos + 1);
            let close = one(ts, pos + 1 + n);
            let (r, m) = call_rest(
                ts,
                pos + 1 + n + close,
                ExprView::Index(Box::new(callee), Box::new(i)),
            );
            (r, 1 + n + close + m)
        },
        _ => (callee, 0),
    }
}

/// The arguments of a call, up to the closing bracket: none where the
/// bracket follows at once or the tokens end.
pub open spec fn arguments(ts: Seq<TokenView>, pos: nat) -> (Seq<ExprView>, nat)
    decreases remaining(ts, pos), 103nat,
{
    match kind_at(ts, pos) {
        None => (Seq::empty(), 0),
        Some(TokenTypeView::FechaPar) => (Seq::empty(), 0),
        Some(_) => arguments_rest(ts, pos, Seq::empty()),
    }
}

/// One argument and those that follow it after commas.
pub open spec fn arguments_rest(ts: Seq<TokenView>, pos: nat, before: Seq<ExprView>) -> (
    Seq<ExprView>,
    nat,
)
    decreases remaining(ts, pos), 102nat,
{
    let (a, n) = expression(ts, pos);
    let args = before.push(a);
    if kind_at(ts, pos + n) == Some(TokenTypeView::Virgula) {
        let (all, m) = arguments_rest(ts, pos + n + 1, args);
        (all, n + 1 + m)
    } else {
        (args, n)
    }
}

/// A literal, a name, or an expression in brackets. Any other token is taken
/// and stands for nil; at the end of the tokens nothing is taken.
pub open spec fn primary(ts: Seq<TokenView>, pos: nat) -> (ExprView, nat)
    decreases remaining(ts, pos), 7nat,
{
    match kind_at(ts, pos) {
        None => (ExprView::Nulo, 0),
        Some(TokenTypeView::Numero(n)) => (ExprView::Numero(n), 1),
        Some(TokenTypeView::Texto(s)) => (ExprView::Texto(s), 1),
        Some(TokenTypeView::Verdadeiro) => (ExprView::Bool(true), 1),
        Some(TokenTypeView::Falso) => (ExprView::Bool(false), 1),
        Some(TokenTypeView::Nulo) => (ExprView::Nulo, 1),
        Some(TokenTypeView::Ident(name)) => (ExprView::Var(name), 1),
        Some(TokenTypeView::AbrePar) => {
            let (e, n) = expression(ts, pos + 1);
            (e, 1 + n + one(ts, pos + 1 + n))
        },
        Some(_) => (ExprView::Nulo, 1),
    }
}

/// A variable declaration after its keyword: a name, `=`, an expression,
/// and a semicolon if one follows.
#[verifier::opaque]
pub open spec fn var_declaration(ts: Seq<TokenView>, pos: nat) -> (Option<StmtView>, nat) {
    if !(kind_at(ts, pos) matches Some(TokenTypeView::Ident(_))) {
        (None, one(ts, pos))
    } else if kind_at(ts, pos + 1) != Some(TokenTypeView::Igual) {
        (None, 1 + one(ts, pos + 1))
    } else {
        let (e, n) = expression(ts, pos + 2);
        (
            Some(StmtView::VarDecl(ts[pos as int].lexema, e)),
            2 + n + optional(ts, pos + 2 + n, TokenTypeView::PontoVirgula),
        )
    }
}

/// The parameters of a function, up to the closing bracket: none where the
/// bracket follows at once or the tokens end.
#[verifier::opaque]
pub open spec fn parameters(ts: Seq<TokenView>, pos: nat) -> (Option<Seq<Seq<char>>>, nat) {
    match kind_at(ts, pos) {
        None => (Some(Seq::empty()), 0),
        Some(TokenTypeView::FechaPar) => (Some(Seq::empty()), 0),
        Some(_) => parameters_rest(ts, pos, Seq::empty()),
    }
}

/// One parameter and those that follow it after commas. A parameter must
/// be a name, and some token must follow it.
pub open spec fn parameters_rest(ts: Seq<TokenView>, pos: nat, before: Seq<Seq<char>>) -> (
    Option<Seq<Seq<char>>>,
    nat,
)
    decreases remaining(ts, pos),
{
    match kind_at(ts, pos) {
        Some(TokenTypeView::Ident(_)) => {
            let params = before.push(ts[pos as int].lexema);
            match kind_at(ts, pos + 1) {
                Some(TokenTypeView::Virgula) => {
                    let (all, n) = parameters_rest(ts, pos + 2, params);
                    (all, 2 + n)
                },
                Some(_) => (Some(params), 1),
                None => (None, 1),
            }
        },
        Some(_) => (None, 1),
        None => (None, 0),
    }
}

/// A declaration: of a variable, of a function, or else a statement.
pub open spec fn declaration(ts: Seq<TokenView>, pos: nat) -> (Option<StmtView>, nat)
    decreases remaining(ts, pos), 5nat,
{
    match kind_at(ts, pos) {
        Some(TokenTypeView::Variavel) => {
            let (s, n) = var_declaration(ts, pos + 1);
            (s, 1 + n)
        },
        Some(TokenTypeView::Funcao) => {
            let (s, n) = func_declaration(ts, pos + 1);
            (s, 1 + n)
        },
        _ => statement(ts, pos),
    }
}

/// The head of a function declaration after its keyword: a name and the
/// parameters in brackets.
#[verifier::opaque]
pub open spec fn func_header(ts: Seq<TokenView>, pos: nat) -> (
    Option<(Seq<char>, Seq<Seq<char>>)>,
    nat,
) {
    if !(kind_at(ts, pos) matches Some(TokenTypeView::Ident(_))) {
        (None, one(ts, pos))
    } else if kind_at(ts, pos + 1) != Some(TokenTypeView::AbrePar) {
        (None, 1 + one(ts, pos + 1))
    } else {
        let (params, n) = parameters(ts, pos + 2);
        match params {
            None => (None, 2 + n),
            Some(params) => if kind_at(ts, pos + 2 + n) != Some(TokenTypeView::FechaPar) {
                (None, 2 + n + one(ts, pos + 2 + n))
            } else {
                (Some((ts[pos as int].lexema, params)), 3 + n)
            },
        }
    }
}

/// A function declaration after its keyword: the head and a block. Where
/// the block fails the body is empty.
pub open spec fn func_declaration(ts: Seq<TokenView>, pos: nat) -> (Option<StmtView>, nat)
    decreases remaining(ts, pos), 7nat,
{
    let (head, n) = func_header(ts, pos);
    match head {
        None => (None, n),
        Some((name, params)) => {
            let (b, m) = block(ts, pos + n);
            (
                Some(
                    StmtView::FuncDecl(
                        name,
                        params,
                        match b {
                            Some(StmtView::Bloco(stmts)) => stmts,
                            _ => Seq::empty(),
                        },
                    ),
                ),
                n + m,
            )
        },
    }
}

/// The statement that a `para` loop stands for: the initialiser, if there
/// is one, then a `while` loop over the condition (always true where there
/// is none) whose body is the loop's body followed by the increment.
pub open spec fn for_loop(
    init: Option<StmtView>,
    cond: Option<ExprView>,
    incr: Option<ExprView>,
    body: StmtView,
) -> StmtView {
    let inner = match incr {
        Some(e) => seq![body, StmtView::ExprStmt(e)],
        None => seq![body],
    };
    let round = StmtView::While(
        match cond {
            Some(c) => c,
            None => ExprView::Bool(true),
        },
        Box::new(StmtView::Bloco(inner)),
    );
    StmtView::Bloco(
        match init {
            Some(s) => seq![s, round],
            None => seq![round],
        },
    )
}

/// A condition in brackets.
pub open spec fn condition(ts: Seq<TokenView>, pos: nat) -> (Option<ExprView>, nat) {
    if kind_at(ts, pos) != Some(TokenTypeView::AbrePar) {
        (None, one(ts, pos))
    } else {
        let (c, n) = expression(ts, pos + 1);
        if kind_at(ts, pos + 1 + n) != Some(TokenTypeView::FechaPar) {
            (None, 1 + n + one(ts, pos + 1 + n))
        } else {
            (Some(c), 2 + n)
        }
    }
}

/// What follows the first statement of an `se` statement: after `senao`
/// another statement, which may fail; else nothing.
pub open spec fn else_part(ts: Seq<TokenView>, pos: nat) -> (Option<StmtView>, nat)
    decreases remaining(ts, pos), 5nat,
{
    if kind_at(ts, pos) == Some(TokenTypeView::Senao) {
        let (e, k) = statement(ts, pos + 1);
        (e, 1 + k)
    } else {
        (None, 0)
    }
}

/// An `se` statement: the condition in brackets, a statement, and after
/// `senao` another. Where the statement after `senao` fails there is none.
pub open spec fn if_statement(ts: Seq<TokenView>, pos: nat) -> (Option<StmtView>, nat)
    decreases remaining(ts, pos), 3nat,
{
    let (c, n) = condition(ts, pos + 1);
    match c {
        None => (None, 1 + n),
        Some(c) => {
            let (t, m) = statement(ts, pos + 1 + n);
            match t {
                None => (None, 1 + n + m),
                Some(t) => {
                    let (e, k) = else_part(ts, pos + 1 + n + m);
                    (
                        Some(
                            StmtView::If(
                                c,
                                Box::new(t),
                                match e {
                                    Some(e) => Some(Box::new(e)),
                                    None => None,
                                },
                            ),
                        ),
                        1 + n + m + k,
                    )
                },
            }
        },
    }
}

/// An `enquanto` statement: the condition in brackets and a statement.
pub open spec fn while_statement(ts: Seq<TokenView>, pos: nat) -> (Option<StmtView>, nat)
    decreases remaining(ts, pos), 3nat,
{
    let (c, n) = condition(ts, pos + 1);
    match c {
        None => (None, 1 + n),
        Some(c) => {
            let (b, m) = statement(ts, pos + 1 + n);
            match b {
                None => (None, 1 + n + m),
                Some(b) => (Some(StmtView::While(c, Box::new(b))), 1 + n + m),
            }
        },
    }
}

/// The initialiser of a `para` statement: none where a semicolon stands,
/// else a declaration and a semicolon if one follows.
pub open spec fn for_init(ts: Seq<TokenView>, pos: nat) -> (Option<StmtView>, nat)
    decreases remaining(ts, pos), 6nat,
{
    match kind_at(ts, pos) {
        None => (None, 0),
        Some(TokenTypeView::PontoVirgula) => (None, 1),
        Some(_) => {
            let (s, n) = declaration(ts, pos);
            (s, n + optional(ts, pos + n, TokenTypeView::PontoVirgula))
        },
    }
}

/// An expression, unless the tokens end or the given token stands there.
#[verifier::opaque]
pub open spec fn expression_unless(ts: Seq<TokenView>, pos: nat, k: TokenTypeView) -> (
    Option<ExprView>,
    nat,
) {
    if pos >= ts.len() || kind_at(ts, pos) == Some(k) {
        (None, 0)
    } else {
        let (e, n) = expression(ts, pos);
        (Some(e), n)
    }
}

/// The clauses of a `para` statement in their brackets: an initialiser, a
/// condition unless a semicolon stands there, a semicolon if one follows,
/// and an increment unless the closing bracket stands there.
pub open spec fn for_clauses(ts: Seq<TokenView>, pos: nat) -> (
    Option<(Option<StmtView>, Option<ExprView>, Option<ExprView>)>,
    nat,
)
    decreases remaining(ts, pos), 7nat,
{
    if kind_at(ts, pos) != Some(TokenTypeView::AbrePar) {
        (None, one(ts, pos))
    } else {
        let (init, a) = for_init(ts, pos + 1);
        let (cond, b) = expression_unless(ts, pos + 1 + a, TokenTypeView::PontoVirgula);
        let semi = optional(ts, pos + 1 + a + b, TokenTypeView::PontoVirgula);
        let (incr, c) = expression_unless(ts, pos + 1 + a + b + semi, TokenTypeView::FechaPar);
        let close = pos + 1 + a + b + semi + c;
        if kind_at(ts, close) != Some(TokenTypeView::FechaPar) {
            (None, 1 + a + b + semi + c + one(ts, close))
        } else {
            (Some((init, cond, incr)), 2 + a + b + semi + c)
        }
    }
}

/// A `para` statement: the keyword, the clauses in brackets, then a
/// statement. Where that statement fails the body is an empty block.
pub open spec fn for_statement(ts: Seq<TokenView>, pos: nat) -> (Option<StmtView>, nat)
    decreases remaining(ts, pos), 3nat,
{
    if kind_at(ts, pos) != Some(TokenTypeView::Para) {
        (None, 0)
    } else {
        let (clauses, n) = for_clauses(ts, pos + 1);
        match clauses {
            None => (None, 1 + n),
            Some((init, cond, incr)) => {
                let (body, d) = statement(ts, pos + 1 + n);
                (
                    Some(
                        for_loop(
                            init,
                            cond,
                            incr,
                            match body {
                                Some(s) => s,
                                None => StmtView::Bloco(Seq::empty()),
                            },
                        ),
                    ),
                    1 + n + d,
                )
            },
        }
    }
}

/// A `retornar` statement: an expression unless a semicolon stands there,
/// and a semicolon if one follows.
#[verifier::opaque]
pub open spec fn return_statement(ts: Seq<TokenView>, pos: nat) -> (Option<StmtView>, nat) {
    let (e, n) = expression_unless(ts, pos + 1, TokenTypeView::PontoVirgula);
    (Some(StmtView::Return(e)), 1 + n + optional(ts, pos + 1 + n, TokenTypeView::PontoVirgula))
}

/// A statement, by its first token.
pub open spec fn statement(ts: Seq<TokenView>, pos: nat) -> (Option<StmtView>, nat)
    decreases remaining(ts, pos), 4nat,
{
    match kind_at(ts, pos) {
        Some(TokenTypeView::Imprimir) => {
            let (e, n) = expression(ts, pos + 1);
            (
                Some(StmtView::Imprimir(e)),
                1 + n + optional(ts, pos + 1 + n, TokenTypeView::PontoVirgula),
            )
        },
        Some(TokenTypeView::AbreChave) => block(ts, pos),
        Some(TokenTypeView::Se) => if_statement(ts, pos),
        Some(TokenTypeView::Enquanto) => while_statement(ts, pos),
        Some(TokenTypeView::Para) => for_statement(ts, pos),
        Some(TokenTypeView::Retornar) => return_statement(ts, pos),
        Some(TokenTypeView::Break) => (
            Some(StmtView::Break),
            1 + optional(ts, pos + 1, TokenTypeView::PontoVirgula),
        ),
        Some(TokenTypeView::Continue) => (
            Some(StmtView::Continue),
            1 + optional(ts, pos + 1, TokenTypeView::PontoVirgula),
        ),
        _ => {
            let (e, n) = expression(ts, pos);
            (Some(StmtView::ExprStmt(e)), n + optional(ts, pos + n, TokenTypeView::PontoVirgula))
        },
    }
}

/// A block: declarations between braces.
pub open spec fn block(ts: Seq<TokenView>, pos: nat) -> (Option<StmtView>, nat)
    decreases remaining(ts, pos), 3nat,
{
    if kind_at(ts, pos) != Some(TokenTypeView::AbreChave) {
        (None, one(ts, pos))
    } else {
        let (b, n) = block_rest(ts, pos + 1, Seq::empty());
        (b, 1 + n)
    }
}

/// The declarations of a block after those already read, up to the closing
/// brace. The block fails where the tokens end first, or a declaration fails.
pub open spec fn block_rest(ts: Seq<TokenView>, pos: nat, before: Seq<StmtView>) -> (
    Option<StmtView>,
    nat,
)
    decreases remaining(ts, pos), 6nat,
{
    match kind_at(ts, pos) {
        None => (None, 0),
        Some(TokenTypeView::FechaChave) => (Some(StmtView::Bloco(before)), 1),
        Some(TokenTypeView::Fim) => (None, 0),
        Some(_) => {
            let (s, n) = declaration(ts, pos);
            match s {
                Some(s) => if n == 0 {
                    (None, 0)
                } else {
                    let (b, m) = block_rest(ts, pos + n, before.push(s));
                    (b, n + m)
                },
                None => (None, n),
            }
        },
    }
}

/// The declarations of a program after those already read: up to the
/// end-of-input token, the end of the tokens, or a declaration that fails.
pub open spec fn program_rest(ts: Seq<TokenView>, pos: nat, before: Seq<StmtView>) -> Seq<StmtView>
    decreases remaining(ts, pos),
{
    match kind_at(ts, pos) {
        None => before,
        Some(TokenTypeView::Fim) => before,
        Some(_) => {
            let (s, n) = declaration(ts, pos);
            proof {
                lemma_declaration_takes(ts, pos);
            }
            match s {
                Some(s) => program_rest(ts, pos + n, before.push(s)),
                None => before,
            }
        },
    }
}

/// The statements of a program.
pub open spec fn program(ts: Seq<TokenView>) -> Seq<StmtView> {
    program_rest(ts, 0, Seq::empty())
}

/// Where parsing a program fails: the position at which the first
/// declaration that fails begins. Parsing does not fail where every
/// declaration up to the end-of-input token, or the end of the tokens,
/// succeeds.
pub open spec fn program_failure(ts: Seq<TokenView>, pos: nat) -> Option<nat>
    decreases remaining(ts, pos),
{
    match kind_at(ts, pos) {
        None => None,
        Some(TokenTypeView::Fim) => None,
        Some(_) => {
            let (s, n) = declaration(ts, pos);
            proof {
                lemma_declaration_takes(ts, pos);
            }
            match s {
                Some(_) => program_failure(ts, pos + n),
                None => Some(pos),
            }
        },
    }
}

/// An expression of any level takes at least one token where one is left.
pub proof fn lemma_binary_takes(ts: Seq<TokenView>, pos: nat, level: u8)
    requires
        pos < ts.len(),
    ensures
        binary(ts, pos, level).1 >= 1,
    decreases LEVELS - level,
{
    if level >= LEVELS {
        assert(primary(ts, pos).1 >= 1);
        assert(call(ts, pos).1 >= 1);
        assert(unary(ts, pos).1 >= 1);
    } else {
        lemma_binary_takes(ts, pos, (level + 1) as u8);
    }
}

/// An expression takes at least one token where one is left.
pub proof fn lemma_expression_takes(ts: Seq<TokenView>, pos: nat)
    requires
        pos < ts.len(),
    ensures
        expression(ts, pos).1 >= 1,
{
    lemma_binary_takes(ts, pos, 0);
}

/// A declaration takes at least one token where one is left.
pub proof fn lemma_declaration_takes(ts: Seq<TokenView>, pos: nat)
    requires
        pos < ts.len(),
    ensures
        declaration(ts, pos).1 >= 1,
        statement(ts, pos).1 >= 1,
{
    reveal(return_statement);
    lemma_expression_takes(ts, pos);
    match kind_at(ts, pos) {
        Some(TokenTypeView::AbreChave) => {
            assert(block(ts, pos).1 >= 1);
        },
        Some(TokenTypeView::Imprimir) => {},
        Some(TokenTypeView::Se) => {},
        Some(TokenTypeView::Enquanto) => {},
        Some(TokenTypeView::Para) => {},
        Some(TokenTypeView::Retornar) => {},
        Some(TokenTypeView::Break) => {},
        Some(TokenTypeView::Continue) => {},
        _ => {},
    }
}

} // verus!
