//! The parser: recursive descent over the tokens, by the rules of
//! [`crate::grammar`].

use vstd::prelude::*;
use crate::ast::{
    exprs_view, lemma_exprs_view_push, lemma_stmts_view_push, stmts_view, BinOp, Expr, Stmt,
    StmtView, UnarioOp,
};
use crate::grammar;
use crate::grammar::{kind_at, one, optional, remaining, LEVELS};
use crate::errors::{SyntaxError, SyntaxErrorView};
use crate::tokens::{Token, TokenType, TokenTypeView, TokenView};

verus! {

/// A parser over a sequence of tokens.
#[derive(Debug)]
pub struct Parser {
    pub tokens: Vec<Token>,
    /// The position of the next token.
    pub pos: usize,
    /// Where the program last parsed failed, if it failed: the position at
    /// which the declaration that failed begins.
    pub failure: Option<usize>,
}

/// The failure of a program as a parser records it.
pub open spec fn recorded(failure: Option<nat>) -> Option<usize> {
    match failure {
        Some(p) => Some(p as usize),
        None => None,
    }
}

/// The error that stands for a failure at a position of the tokens.
pub open spec fn spec_syntax_error(ts: Seq<TokenView>, failure: Option<usize>) -> Option<
    SyntaxErrorView,
> {
    match failure {
        Some(p) => if p < ts.len() {
            Some(SyntaxErrorView { linha: ts[p as int].linha, lexema: ts[p as int].lexema })
        } else {
            None
        },
        None => None,
    }
}

/// The infix operator that a token stands for at a level, if any.
pub fn operator_of(level: u8, k: &TokenType) -> (r: Option<BinOp>)
    ensures
        r == grammar::operator_at(level, k@),
{
    if level == 0 {
        match k {
            TokenType::Ou => Some(BinOp::Or),
            _ => None,
        }
    } else if level == 1 {
        match k {
            TokenType::E => Some(BinOp::And),
            _ => None,
        }
    } else if level == 2 {
        match k {
            TokenType::IgualIgual => Some(BinOp::Eq),
            TokenType::Diferente => Some(BinOp::Neq),
            _ => None,
        }
    } else if level == 3 {
        match k {
            TokenType::Maior => Some(BinOp::Gt),
            TokenType::MaiorIgual => Some(BinOp::Ge),
            TokenType::Menor => Some(BinOp::Lt),
            TokenType::MenorIgual => Some(BinOp::Le),
            _ => None,
        }
    } else if level == 4 {
        match k {
            TokenType::Mais => Some(BinOp::Add),
            TokenType::Menos => Some(BinOp::Sub),
            _ => None,
        }
    } else if level == 5 {
        match k {
            TokenType::Multiplica => Some(BinOp::Mul),
            TokenType::Divide => Some(BinOp::Div),
            _ => None,
        }
    } else {
        None
    }
}

impl Parser {
    /// The tokens as mathematical values.
    pub open spec fn ts(&self) -> Seq<TokenView> {
        self.tokens.deep_view()
    }

    /// The position lies within the tokens or at their end.
    pub open spec fn wf(&self) -> bool {
        self.pos <= self.tokens.len()
    }

    /// Whether `after` is `self` moved on by `n` tokens.
    pub open spec fn moved(&self, after: &Parser, n: nat) -> bool {
        &&& after.tokens == self.tokens
        &&& after.pos == self.pos + n
        &&& after.wf()
    }

    /// A parser at the first of the tokens.
    pub fn new(tokens: Vec<Token>) -> (r: Parser)
        ensures
            r.tokens == tokens,
            r.pos == 0,
            r.failure is None,
            r.wf(),
    {
        Parser { tokens, pos: 0, failure: None }
    }

    /// The error of the program last parsed, if parsing failed: it names
    /// the token at which the declaration that failed begins.
    pub fn syntax_error(&self) -> (r: Option<SyntaxError>)
        ensures
            r.deep_view() == spec_syntax_error(self.ts(), self.failure),
    {
        match self.failure {
            Some(p) => {
                if p < self.tokens.len() {
                    Some(
                        SyntaxError {
                            linha: self.tokens[p].linha,
                            lexema: self.tokens[p].lexema.clone(),
                        },
                    )
                } else {
                    None
                }
            },
            None => None,
        }
    }

    /// The kind of the next token, if there is one.
    pub fn kind(&self) -> (r: Option<&TokenType>)
        requires
            self.wf(),
        ensures
            r.deep_view() == kind_at(self.ts(), self.pos as nat),
            r is Some <==> self.pos < self.tokens.len(),
    {
        if self.pos < self.tokens.len() {
            Some(&self.tokens[self.pos].tipo)
        } else {
            None
        }
    }

    /// Whether the next token is of the given kind.
    pub fn at(&self, k: &TokenType) -> (r: bool)
        requires
            self.wf(),
        ensures
            r == (kind_at(self.ts(), self.pos as nat) == Some(k@)),
    {
        if self.pos < self.tokens.len() {
            self.tokens[self.pos].tipo == *k
        } else {
            false
        }
    }

    /// Takes the next token, if there is one.
    pub fn advance(&mut self)
        requires
            old(self).wf(),
        ensures
            old(self).moved(final(self), one(old(self).ts(), old(self).pos as nat)),
    {
        if self.pos < self.tokens.len() {
            self.pos += 1;
        }
    }

    /// Takes the next token if it is of the given kind.
    pub fn skip(&mut self, k: &TokenType)
        requires
            old(self).wf(),
        ensures
            old(self).moved(final(self), optional(old(self).ts(), old(self).pos as nat, k@)),
    {
        if self.at(k) {
            self.pos += 1;
        }
    }

    /// Takes the next token, if there is one, and says whether it was of
    /// the given kind.
    pub fn expect(&mut self, k: &TokenType) -> (r: bool)
        requires
            old(self).wf(),
        ensures
            old(self).moved(final(self), one(old(self).ts(), old(self).pos as nat)),
            r == (kind_at(old(self).ts(), old(self).pos as nat) == Some(k@)),
    {
        let r = self.at(k);
        self.advance();
        r
    }

    /// Takes the next token, if there is one, and returns its text if it
    /// is a name.
    pub fn expect_name(&mut self) -> (r: Option<String>)
        requires
            old(self).wf(),
        ensures
            old(self).moved(final(self), one(old(self).ts(), old(self).pos as nat)),
            match r {
                Some(s) => kind_at(old(self).ts(), old(self).pos as nat) matches Some(
                    TokenTypeView::Ident(_),
                ) && s@ == old(self).ts()[old(self).pos as int].lexema,
                None => !(kind_at(old(self).ts(), old(self).pos as nat) matches Some(
                    TokenTypeView::Ident(_),
                )),
            },
    {
        if self.pos < self.tokens.len() {
            let r = match &self.tokens[self.pos].tipo {
                TokenType::Ident(_) => Some(self.tokens[self.pos].lexema.clone()),
                _ => None,
            };
            self.pos += 1;
            r
        } else {
            None
        }
    }

    /// An expression.
    pub fn expression(&mut self) -> (e: Expr)
        requires
            old(self).wf(),
        ensures
            e@ == grammar::expression(old(self).ts(), old(self).pos as nat).0,
            old(self).moved(final(self), grammar::expression(old(self).ts(), old(self).pos as nat).1),
        decreases remaining(old(self).ts(), old(self).pos as nat), 101nat,
    {
        self.binary(0)
    }

    /// An expression of infix operators from a level up.
    pub fn binary(&mut self, level: u8) -> (e: Expr)
        requires
            old(self).wf(),
        ensures
            e@ == grammar::binary(old(self).ts(), old(self).pos as nat, level).0,
            old(self).moved(
                final(self),
                grammar::binary(old(self).ts(), old(self).pos as nat, level).1,
            ),
        decreases remaining(old(self).ts(), old(self).pos as nat), (if level < LEVELS {
            100 - 2 * level
        } else {
            20
        }) as nat,
    {
        if level >= LEVELS {
            return self.unary();
        }
        let mut expr = self.binary(level + 1);
        let ghost ts = self.ts();
        let ghost start = self.pos as nat;
        let ghost left = expr@;
        loop
            invariant
                self.wf(),
                self.tokens == old(self).tokens,
                ts == self.ts(),
                level < LEVELS,
                start <= self.pos,
                remaining(ts, self.pos as nat) <= remaining(old(self).ts(), old(self).pos as nat),
                grammar::binary_rest(ts, start, level, left) == (
                    grammar::binary_rest(ts, self.pos as nat, level, expr@).0,
                    (self.pos - start) as nat + grammar::binary_rest(
                        ts,
                        self.pos as nat,
                        level,
                        expr@,
                    ).1,
                ),
            ensures
                self.wf(),
                self.tokens == old(self).tokens,
                start <= self.pos,
                grammar::binary_rest(ts, start, level, left) == (expr@, (self.pos - start) as nat),
            decreases remaining(ts, self.pos as nat),
        {
            let op = match self.kind() {
                Some(k) => operator_of(level, k),
                None => None,
            };
            match op {
                Some(op) => {
                    self.pos += 1;
                    let right = self.binary(level + 1);
                    expr = Expr::Binario(Box::new(expr), op, Box::new(right));
                },
                None => {
                    break ;
                },
            }
        }
        expr
    }

    /// Logical or, the loosest level.
    pub fn or(&mut self) -> (e: Expr)
        requires
            old(self).wf(),
        ensures
            e@ == grammar::binary(old(self).ts(), old(self).pos as nat, 0).0,
            old(self).moved(final(self), grammar::binary(old(self).ts(), old(self).pos as nat, 0).1),
    {
        self.binary(0)
    }

    /// Logical and.
    pub fn and(&mut self) -> (e: Expr)
        requires
            old(self).wf(),
        ensures
            e@ == grammar::binary(old(self).ts(), old(self).pos as nat, 1).0,
            old(self).moved(final(self), grammar::binary(old(self).ts(), old(self).pos as nat, 1).1),
    {
        self.binary(1)
    }

    /// Equality and inequality.
    pub fn equality(&mut self) -> (e: Expr)
        requires
            old(self).wf(),
        ensures
            e@ == grammar::binary(old(self).ts(), old(self).pos as nat, 2).0,
            old(self).moved(final(self), grammar::binary(old(self).ts(), old(self).pos as nat, 2).1),
    {
        self.binary(2)
    }

    /// The four comparisons of order.
    pub fn comparison(&mut self) -> (e: Expr)
        requires
            old(self).wf(),
        ensures
            e@ == grammar::binary(old(self).ts(), old(self).pos as nat, 3).0,
            old(self).moved(final(self), grammar::binary(old(self).ts(), old(self).pos as nat, 3).1),
    {
        self.binary(3)
    }

    /// Sums and differences.
    pub fn term(&mut self) -> (e: Expr)
        requires
            old(self).wf(),
        ensures
            e@ == grammar::binary(old(self).ts(), old(self).pos as nat, 4).0,
            old(self).moved(final(self), grammar::binary(old(self).ts(), old(self).pos as nat, 4).1),
    {
        self.binary(4)
    }

    /// Products and quotients, the tightest level.
    pub fn factor(&mut self) -> (e: Expr)
        requires
            old(self).wf(),
        ensures
            e@ == grammar::binary(old(self).ts(), old(self).pos as nat, 5).0,
            old(self).moved(final(self), grammar::binary(old(self).ts(), old(self).pos as nat, 5).1),
    {
        self.binary(5)
    }

    /// A prefix operator with its operand, or a call.
    pub fn unary(&mut self) -> (e: Expr)
        requires
            old(self).wf(),
        ensures
            e@ == grammar::unary(old(self).ts(), old(self).pos as nat).0,
            old(self).moved(final(self), grammar::unary(old(self).ts(), old(self).pos as nat).1),
        decreases remaining(old(self).ts(), old(self).pos as nat), 10nat,
    {
        let op = match self.kind() {
            Some(TokenType::Menos) => Some(UnarioOp::Neg),
            Some(TokenType::Nao) => Some(UnarioOp::Nao),
            _ => None,
        };
        match op {
            Some(op) => {
                self.pos += 1;
                let right = self.unary();
                Expr::Unario(op, Box::new(right))
            },
            None => self.call(),
        }
    }

    /// The arguments of a call, up to the closing bracket.
    pub fn arguments(&mut self) -> (args: Vec<Expr>)
        requires
            old(self).wf(),
        ensures
            exprs_view(args@) == grammar::arguments(old(self).ts(), old(self).pos as nat).0,
            old(self).moved(final(self), grammar::arguments(old(self).ts(), old(self).pos as nat).1),
        decreases remaining(old(self).ts(), old(self).pos as nat), 103nat,
    {
        let mut args: Vec<Expr> = Vec::new();
        assert(exprs_view(args@) =~= Seq::empty());
        match self.kind() {
            None => {
                return args;
            },
            Some(TokenType::FechaPar) => {
                return args;
            },
            Some(_) => {},
        }
        let ghost ts = self.ts();
        let ghost start = self.pos as nat;
        loop
            invariant_except_break
                grammar::arguments_rest(ts, start, Seq::empty()) == (
                    grammar::arguments_rest(ts, self.pos as nat, exprs_view(args@)).0,
                    (self.pos - start) as nat + grammar::arguments_rest(
                        ts,
                        self.pos as nat,
                        exprs_view(args@),
                    ).1,
                ),
            invariant
                self.wf(),
                self.tokens == old(self).tokens,
                ts == self.ts(),
                start <= self.pos,
                start == old(self).pos,
            ensures
                self.wf(),
                self.tokens == old(self).tokens,
                start <= self.pos,
                grammar::arguments_rest(ts, start, Seq::empty()) == (
                    exprs_view(args@),
                    (self.pos - start) as nat,
                ),
            decreases remaining(ts, self.pos as nat),
        {
            let a = self.expression();
            proof {
                lemma_exprs_view_push(args@, a);
            }
            args.push(a);
            if self.at(&TokenType::Virgula) {
                self.pos += 1;
            } else {
                break ;
            }
        }
        args
    }

    /// A primary followed by any number of argument lists and indices.
    pub fn call(&mut self) -> (e: Expr)
        requires
            old(self).wf(),
        ensures
            e@ == grammar::call(old(self).ts(), old(self).pos as nat).0,
            old(self).moved(final(self), grammar::call(old(self).ts(), old(self).pos as nat).1),
        decreases remaining(old(self).ts(), old(self).pos as nat), 9nat,
    {
        let mut expr = self.primary();
        let ghost ts = self.ts();
        let ghost start = self.pos as nat;
        let ghost callee = expr@;
        loop
            invariant
                self.wf(),
                self.tokens == old(self).tokens,
                ts == self.ts(),
                start <= self.pos,
                remaining(ts, self.pos as nat) <= remaining(old(self).ts(), old(self).pos as nat),
                grammar::call_rest(ts, start, callee) == (
                    grammar::call_rest(ts, self.pos as nat, expr@).0,
                    (self.pos - start) as nat + grammar::call_rest(ts, self.pos as nat, expr@).1,
                ),
            ensures
                self.wf(),
                self.tokens == old(self).tokens,
                start <= self.pos,
                grammar::call_rest(ts, start, callee) == (expr@, (self.pos - start) as nat),
            decreases remaining(ts, self.pos as nat),
        {
            if self.at(&TokenType::AbrePar) {
                self.pos += 1;
                let args = self.arguments();
                self.advance();
                expr = Expr::Chamada(Box::new(expr), args);
            } else if self.at(&TokenType::AbreColchete) {
                self.pos += 1;
                let index = self.expression();
                self.advance();
                expr = Expr::Index(Box::new(expr), Box::new(index));
            } else {
                break ;
            }
        }
        expr
    }

    /// A literal, a name, or an expression in brackets.
    pub fn primary(&mut self) -> (e: Expr)
        requires
            old(self).wf(),
        ensures
            e@ == grammar::primary(old(self).ts(), old(self).pos as nat).0,
            old(self).moved(final(self), grammar::primary(old(self).ts(), old(self).pos as nat).1),
        decreases remaining(old(self).ts(), old(self).pos as nat), 7nat,
    {
        if self.pos >= self.tokens.len() {
            return Expr::Nulo;
        }
        let e = match &self.tokens[self.pos].tipo {
            TokenType::Numero(n) => Some(Expr::Numero(n.clone())),
            TokenType::Texto(s) => Some(Expr::Texto(s.clone())),
            TokenType::Verdadeiro => Some(Expr::Bool(true)),
            TokenType::Falso => Some(Expr::Bool(false)),
            TokenType::Nulo => Some(Expr::Nulo),
            TokenType::Ident(name) => Some(Expr::Var(name.clone())),
            TokenType::AbrePar => None,
            _ => Some(Expr::Nulo),
        };
        self.pos += 1;
        match e {
            Some(e) => e,
            None => {
                let inner = self.expression();
                self.advance();
                inner
            },
        }
    }

    /// A variable declaration after its keyword.
    pub fn var_declaration(&mut self) -> (r: Option<Stmt>)
        requires
            old(self).wf(),
        ensures
            r.deep_view() == grammar::var_declaration(old(self).ts(), old(self).pos as nat).0,
            old(self).moved(
                final(self),
                grammar::var_declaration(old(self).ts(), old(self).pos as nat).1,
            ),
    {
        proof {
            reveal(grammar::var_declaration);
        }
        let name = match self.expect_name() {
            Some(n) => n,
            None => {
                return None;
            },
        };
        if !self.expect(&TokenType::Igual) {
            return None;
        }
        let init = self.expression();
        self.skip(&TokenType::PontoVirgula);
        Some(Stmt::VarDecl(name, init))
    }

    /// The parameters of a function, up to the closing bracket.
    pub fn parameters(&mut self) -> (r: Option<Vec<String>>)
        requires
            old(self).wf(),
        ensures
            r.deep_view() == grammar::parameters(old(self).ts(), old(self).pos as nat).0,
            old(self).moved(final(self), grammar::parameters(old(self).ts(), old(self).pos as nat).1),
    {
        proof {
            reveal(grammar::parameters);
        }
        let mut params: Vec<String> = Vec::new();
        assert(params.deep_view() =~= Seq::empty());
        match self.kind() {
            None => {
                return Some(params);
            },
            Some(TokenType::FechaPar) => {
                return Some(params);
            },
            Some(_) => {},
        }
        let ghost ts = self.ts();
        let ghost start = self.pos as nat;
        loop
            invariant
                self.wf(),
                self.tokens == old(self).tokens,
                ts == self.ts(),
                start <= self.pos,
                start == old(self).pos,
                ts == old(self).ts(),
                grammar::parameters(ts, start) == grammar::parameters_rest(ts, start, Seq::empty()),
                grammar::parameters_rest(ts, start, Seq::empty()) == (
                    grammar::parameters_rest(ts, self.pos as nat, params.deep_view()).0,
                    (self.pos - start) as nat + grammar::parameters_rest(
                        ts,
                        self.pos as nat,
                        params.deep_view(),
                    ).1,
                ),
            decreases remaining(ts, self.pos as nat),
        {
            let ghost before = params.deep_view();
            match self.expect_name() {
                Some(n) => {
                    params.push(n);
                    assert(params.deep_view() =~= before.push(n@));
                },
                None => {
                    return None;
                },
            }
            match self.kind() {
                Some(TokenType::Virgula) => {
                    self.pos += 1;
                },
                Some(_) => {
                    return Some(params);
                },
                None => {
                    return None;
                },
            }
        }
    }

    /// The head of a function declaration after its keyword.
    pub fn func_header(&mut self) -> (r: Option<(String, Vec<String>)>)
        requires
            old(self).wf(),
        ensures
            r.deep_view() == grammar::func_header(old(self).ts(), old(self).pos as nat).0,
            old(self).moved(
                final(self),
                grammar::func_header(old(self).ts(), old(self).pos as nat).1,
            ),
    {
        proof {
            reveal(grammar::func_header);
        }
        let name = match self.expect_name() {
            Some(n) => n,
            None => {
                return None;
            },
        };
        if !self.expect(&TokenType::AbrePar) {
            return None;
        }
        let params = match self.parameters() {
            Some(p) => p,
            None => {
                return None;
            },
        };
        if !self.expect(&TokenType::FechaPar) {
            return None;
        }
        Some((name, params))
    }

    /// A function declaration after its keyword.
    #[verifier::spinoff_prover]
    pub fn func_declaration(&mut self) -> (r: Option<Stmt>)
        requires
            old(self).wf(),
        ensures
            r.deep_view() == grammar::func_declaration(old(self).ts(), old(self).pos as nat).0,
            old(self).moved(
                final(self),
                grammar::func_declaration(old(self).ts(), old(self).pos as nat).1,
            ),
        decreases remaining(old(self).ts(), old(self).pos as nat), 7nat,
    {
        let (name, params) = match self.func_header() {
            Some(h) => h,
            None => {
                return None;
            },
        };
        let body = match self.block() {
            Some(Stmt::Bloco(stmts)) => stmts,
            _ => {
                let empty: Vec<Stmt> = Vec::new();
                assert(stmts_view(empty@) =~= Seq::empty());
                empty
            },
        };
        Some(Stmt::FuncDecl(name, params, body))
    }

    /// A declaration: of a variable, of a function, or else a statement.
    #[verifier::spinoff_prover]
    pub fn declaration(&mut self) -> (r: Option<Stmt>)
        requires
            old(self).wf(),
        ensures
            r.deep_view() == grammar::declaration(old(self).ts(), old(self).pos as nat).0,
            old(self).moved(
                final(self),
                grammar::declaration(old(self).ts(), old(self).pos as nat).1,
            ),
        decreases remaining(old(self).ts(), old(self).pos as nat), 5nat,
    {
        if self.at(&TokenType::Variavel) {
            self.pos += 1;
            self.var_declaration()
        } else if self.at(&TokenType::Funcao) {
            self.pos += 1;
            self.func_declaration()
        } else {
            self.statement()
        }
    }

    /// A condition in brackets.
    pub fn condition(&mut self) -> (r: Option<Expr>)
        requires
            old(self).wf(),
        ensures
            r.deep_view() == grammar::condition(old(self).ts(), old(self).pos as nat).0,
            old(self).moved(final(self), grammar::condition(old(self).ts(), old(self).pos as nat).1),
    {
        if !self.expect(&TokenType::AbrePar) {
            return None;
        }
        let cond = self.expression();
        if !self.expect(&TokenType::FechaPar) {
            return None;
        }
        Some(cond)
    }

    /// What follows the first statement of an `se` statement.
    #[verifier::spinoff_prover]
    fn else_part(&mut self) -> (r: Option<Stmt>)
        requires
            old(self).wf(),
        ensures
            r.deep_view() == grammar::else_part(old(self).ts(), old(self).pos as nat).0,
            old(self).moved(final(self), grammar::else_part(old(self).ts(), old(self).pos as nat).1),
        decreases remaining(old(self).ts(), old(self).pos as nat), 5nat,
    {
        if self.at(&TokenType::Senao) {
            self.pos += 1;
            self.statement()
        } else {
            None
        }
    }

    /// An `se` statement; its keyword is next.
    #[verifier::spinoff_prover]
    fn if_statement(&mut self) -> (r: Option<Stmt>)
        requires
            old(self).wf(),
            kind_at(old(self).ts(), old(self).pos as nat) == Some(TokenTypeView::Se),
        ensures
            r.deep_view() == grammar::if_statement(old(self).ts(), old(self).pos as nat).0,
            old(self).moved(
                final(self),
                grammar::if_statement(old(self).ts(), old(self).pos as nat).1,
            ),
        decreases remaining(old(self).ts(), old(self).pos as nat), 3nat,
    {
        self.pos += 1;
        let cond = match self.condition() {
            Some(c) => c,
            None => {
                return None;
            },
        };
        let then_branch = match self.statement() {
            Some(s) => s,
            None => {
                return None;
            },
        };
        let else_branch = match self.else_part() {
            Some(s) => Some(Box::new(s)),
            None => None,
        };
        Some(Stmt::If(cond, Box::new(then_branch), else_branch))
    }

    /// An `enquanto` statement; its keyword is next.
    #[verifier::spinoff_prover]
    fn while_statement(&mut self) -> (r: Option<Stmt>)
        requires
            old(self).wf(),
            kind_at(old(self).ts(), old(self).pos as nat) == Some(TokenTypeView::Enquanto),
        ensures
            r.deep_view() == grammar::while_statement(old(self).ts(), old(self).pos as nat).0,
            old(self).moved(
                final(self),
                grammar::while_statement(old(self).ts(), old(self).pos as nat).1,
            ),
        decreases remaining(old(self).ts(), old(self).pos as nat), 3nat,
    {
        self.pos += 1;
        let cond = match self.condition() {
            Some(c) => c,
            None => {
                return None;
            },
        };
        match self.statement() {
            Some(body) => Some(Stmt::While(cond, Box::new(body))),
            None => None,
        }
    }

    /// An expression, unless the tokens end or the given token is next.
    pub fn expression_unless(&mut self, k: &TokenType) -> (r: Option<Expr>)
        requires
            old(self).wf(),
        ensures
            r.deep_view() == grammar::expression_unless(old(self).ts(), old(self).pos as nat, k@).0,
            old(self).moved(
                final(self),
                grammar::expression_unless(old(self).ts(), old(self).pos as nat, k@).1,
            ),
    {
        proof {
            reveal(grammar::expression_unless);
        }
        if self.pos >= self.tokens.len() || self.at(k) {
            None
        } else {
            Some(self.expression())
        }
    }

    /// The initialiser of a `para` statement.
    #[verifier::spinoff_prover]
    fn for_init(&mut self) -> (r: Option<Stmt>)
        requires
            old(self).wf(),
        ensures
            r.deep_view() == grammar::for_init(old(self).ts(), old(self).pos as nat).0,
            old(self).moved(final(self), grammar::for_init(old(self).ts(), old(self).pos as nat).1),
        decreases remaining(old(self).ts(), old(self).pos as nat), 6nat,
    {
        match self.kind() {
            None => None,
            Some(TokenType::PontoVirgula) => {
                self.pos += 1;
                None
            },
            Some(_) => {
                let s = self.declaration();
                self.skip(&TokenType::PontoVirgula);
                s
            },
        }
    }

    /// The clauses of a `para` statement in their brackets.
    #[verifier::spinoff_prover]
    fn for_clauses(&mut self) -> (r: Option<(Option<Stmt>, Option<Expr>, Option<Expr>)>)
        requires
            old(self).wf(),
        ensures
            r.deep_view() == grammar::for_clauses(old(self).ts(), old(self).pos as nat).0,
            old(self).moved(
                final(self),
                grammar::for_clauses(old(self).ts(), old(self).pos as nat).1,
            ),
        decreases remaining(old(self).ts(), old(self).pos as nat), 7nat,
    {
        if !self.expect(&TokenType::AbrePar) {
            return None;
        }
        let init = self.for_init();
        let cond = self.expression_unless(&TokenType::PontoVirgula);
        self.skip(&TokenType::PontoVirgula);
        let incr = self.expression_unless(&TokenType::FechaPar);
        if !self.expect(&TokenType::FechaPar) {
            return None;
        }
        Some((init, cond, incr))
    }

    /// A `para` statement; its keyword is next.
    #[verifier::spinoff_prover]
    fn for_statement(&mut self) -> (r: Option<Stmt>)
        requires
            old(self).wf(),
            kind_at(old(self).ts(), old(self).pos as nat) == Some(TokenTypeView::Para),
        ensures
            r.deep_view() == grammar::for_statement(old(self).ts(), old(self).pos as nat).0,
            old(self).moved(
                final(self),
                grammar::for_statement(old(self).ts(), old(self).pos as nat).1,
            ),
        decreases remaining(old(self).ts(), old(self).pos as nat), 3nat,
    {
        self.pos += 1;
        let (init, cond, incr) = match self.for_clauses() {
            Some(f) => f,
            None => {
                return None;
            },
        };
        let body = match self.statement() {
            Some(s) => s,
            None => {
                let empty: Vec<Stmt> = Vec::new();
                assert(stmts_view(empty@) =~= Seq::empty());
                Stmt::Bloco(empty)
            },
        };
        Some(desugar_for(init, cond, incr, body))
    }

    /// A `retornar` statement; its keyword is next.
    fn return_statement(&mut self) -> (r: Option<Stmt>)
        requires
            old(self).wf(),
            old(self).pos < old(self).tokens.len(),
        ensures
            r.deep_view() == grammar::return_statement(old(self).ts(), old(self).pos as nat).0,
            old(self).moved(
                final(self),
                grammar::return_statement(old(self).ts(), old(self).pos as nat).1,
            ),
    {
        proof {
            reveal(grammar::return_statement);
        }
        self.pos += 1;
        let e = self.expression_unless(&TokenType::PontoVirgula);
        self.skip(&TokenType::PontoVirgula);
        Some(Stmt::Return(e))
    }

    /// A statement that is one keyword and a semicolon if one follows.
    fn keyword_statement(&mut self, s: Stmt) -> (r: Option<Stmt>)
        requires
            old(self).wf(),
            old(self).pos < old(self).tokens.len(),
        ensures
            r.deep_view() == Some(s@),
            old(self).moved(
                final(self),
                1 + optional(old(self).ts(), (old(self).pos + 1) as nat, TokenTypeView::PontoVirgula),
            ),
    {
        self.pos += 1;
        self.skip(&TokenType::PontoVirgula);
        Some(s)
    }

    /// A statement that is an expression and a semicolon if one follows.
    fn expression_statement(&mut self, print: bool) -> (r: Option<Stmt>)
        requires
            old(self).wf(),
        ensures
            r.deep_view() == Some(
                if print {
                    StmtView::Imprimir(
                        grammar::expression(old(self).ts(), old(self).pos as nat).0,
                    )
                } else {
                    StmtView::ExprStmt(
                        grammar::expression(old(self).ts(), old(self).pos as nat).0,
                    )
                },
            ),
            old(self).moved(
                final(self),
                grammar::expression(old(self).ts(), old(self).pos as nat).1 + optional(
                    old(self).ts(),
                    old(self).pos as nat + grammar::expression(
                        old(self).ts(),
                        old(self).pos as nat,
                    ).1,
                    TokenTypeView::PontoVirgula,
                ),
            ),
    {
        let e = self.expression();
        self.skip(&TokenType::PontoVirgula);
        if print {
            Some(Stmt::Imprimir(e))
        } else {
            Some(Stmt::ExprStmt(e))
        }
    }

    /// A statement, by its first token.
    #[verifier::spinoff_prover]
    pub fn statement(&mut self) -> (r: Option<Stmt>)
        requires
            old(self).wf(),
        ensures
            r.deep_view() == grammar::statement(old(self).ts(), old(self).pos as nat).0,
            old(self).moved(final(self), grammar::statement(old(self).ts(), old(self).pos as nat).1),
        decreases remaining(old(self).ts(), old(self).pos as nat), 4nat,
    {
        let which: u8 = match self.kind() {
            Some(TokenType::Imprimir) => 1,
            Some(TokenType::AbreChave) => 2,
            Some(TokenType::Se) => 3,
            Some(TokenType::Enquanto) => 4,
            Some(TokenType::Para) => 5,
            Some(TokenType::Retornar) => 6,
            Some(TokenType::Break) => 7,
            Some(TokenType::Continue) => 8,
            _ => 0,
        };
        if which == 1 {
            self.pos += 1;
            self.expression_statement(true)
        } else if which == 2 {
            self.block()
        } else if which == 3 {
            self.if_statement()
        } else if which == 4 {
            self.while_statement()
        } else if which == 5 {
            self.for_statement()
        } else if which == 6 {
            self.return_statement()
        } else if which == 7 {
            self.keyword_statement(Stmt::Break)
        } else if which == 8 {
            self.keyword_statement(Stmt::Continue)
        } else {
            self.expression_statement(false)
        }
    }

    /// A block: declarations between braces.
    #[verifier::spinoff_prover]
    pub fn block(&mut self) -> (r: Option<Stmt>)
        requires
            old(self).wf(),
        ensures
            r.deep_view() == grammar::block(old(self).ts(), old(self).pos as nat).0,
            old(self).moved(final(self), grammar::block(old(self).ts(), old(self).pos as nat).1),
        decreases remaining(old(self).ts(), old(self).pos as nat), 3nat,
    {
        if !self.expect(&TokenType::AbreChave) {
            return None;
        }
        let mut stmts: Vec<Stmt> = Vec::new();
        assert(stmts_view(stmts@) =~= Seq::empty());
        let ghost ts = self.ts();
        let ghost start = self.pos as nat;
        loop
            invariant
                self.wf(),
                self.tokens == old(self).tokens,
                ts == self.ts(),
                start <= self.pos,
                start == old(self).pos + 1,
                ts == old(self).ts(),
                kind_at(ts, old(self).pos as nat) == Some(TokenTypeView::AbreChave),
                grammar::block_rest(ts, start, Seq::empty()) == (
                    grammar::block_rest(ts, self.pos as nat, stmts_view(stmts@)).0,
                    (self.pos - start) as nat + grammar::block_rest(
                        ts,
                        self.pos as nat,
                        stmts_view(stmts@),
                    ).1,
                ),
            decreases remaining(ts, self.pos as nat),
        {
            match self.kind() {
                None => {
                    return None;
                },
                Some(TokenType::FechaChave) => {
                    self.pos += 1;
                    return Some(Stmt::Bloco(stmts));
                },
                Some(TokenType::Fim) => {
                    return None;
                },
                Some(_) => {},
            }
            proof {
                grammar::lemma_declaration_takes(ts, self.pos as nat);
            }
            match self.declaration() {
                Some(s) => {
                    proof {
                        lemma_stmts_view_push(stmts@, s);
                    }
                    stmts.push(s);
                },
                None => {
                    return None;
                },
            }
        }
    }

    /// The statements of a program: declarations up to the end-of-input
    /// token, the end of the tokens, or the first declaration that fails.
    /// Where a declaration fails, parsing has failed: the statements read
    /// before it come back, and the failure is recorded with the position
    /// at which that declaration begins.
    #[verifier::spinoff_prover]
    pub fn parse(&mut self) -> (r: Vec<Stmt>)
        requires
            old(self).wf(),
        ensures
            final(self).wf(),
            final(self).tokens == old(self).tokens,
            stmts_view(r@) == grammar::program_rest(
                old(self).ts(),
                old(self).pos as nat,
                Seq::empty(),
            ),
            final(self).failure == recorded(
                grammar::program_failure(old(self).ts(), old(self).pos as nat),
            ),
    {
        let mut stmts: Vec<Stmt> = Vec::new();
        assert(stmts_view(stmts@) =~= Seq::empty());
        let ghost ts = self.ts();
        loop
            invariant
                self.wf(),
                self.tokens == old(self).tokens,
                ts == self.ts(),
                grammar::program_rest(ts, old(self).pos as nat, Seq::empty())
                    == grammar::program_rest(ts, self.pos as nat, stmts_view(stmts@)),
                grammar::program_failure(ts, old(self).pos as nat) == grammar::program_failure(
                    ts,
                    self.pos as nat,
                ),
            decreases remaining(ts, self.pos as nat),
        {
            match self.kind() {
                None => {
                    self.failure = None;
                    return stmts;
                },
                Some(TokenType::Fim) => {
                    self.failure = None;
                    return stmts;
                },
                Some(_) => {},
            }
            proof {
                grammar::lemma_declaration_takes(ts, self.pos as nat);
            }
            let start = self.pos;
            match self.declaration() {
                Some(s) => {
                    proof {
                        lemma_stmts_view_push(stmts@, s);
                    }
                    stmts.push(s);
                },
                None => {
                    self.failure = Some(start);
                    return stmts;
                },
            }
        }
    }
}

/// The statement that a `para` loop stands for.
pub fn desugar_for(init: Option<Stmt>, cond: Option<Expr>, incr: Option<Expr>, body: Stmt) -> (r:
    Stmt)
    ensures
        r@ == grammar::for_loop(init.deep_view(), cond.deep_view(), incr.deep_view(), body@),
{
    let mut inner: Vec<Stmt> = Vec::new();
    inner.push(body);
    match incr {
        Some(e) => {
            let step = Stmt::ExprStmt(e);
            inner.push(step);
            assert(stmts_view(inner@) =~= seq![body@, step@]);
        },
        None => {
            assert(stmts_view(inner@) =~= seq![body@]);
        },
    }
    let test = match cond {
        Some(c) => c,
        None => Expr::Bool(true),
    };
    let block = Stmt::Bloco(inner);
    assert(block@ == StmtView::Bloco(stmts_view(inner@)));
    let round = Stmt::While(test, Box::new(block));
    assert(round@ == StmtView::While(test@, Box::new(block@)));
    let mut stmts: Vec<Stmt> = Vec::new();
    match init {
        Some(s) => {
            stmts.push(s);
            stmts.push(round);
            assert(stmts_view(stmts@) =~= seq![s@, round@]);
        },
        None => {
            stmts.push(round);
            assert(stmts_view(stmts@) =~= seq![round@]);
        },
    }
    Stmt::Bloco(stmts)
}

} // verus!
