//! The syntax tree: expressions and statements.

use vstd::prelude::*;

verus! {

/// Prefix operators.
#[derive(Debug, Clone, Copy, PartialEq, Eq, Structural)]
pub enum UnarioOp {
    Neg,
    Nao,
}

/// Infix operators.
#[derive(Debug, Clone, Copy, PartialEq, Eq, Structural)]
pub enum BinOp {
    Add,
    Sub,
    Mul,
    Div,
    Eq,
    Neq,
    Lt,
    Gt,
    Le,
    Ge,
    And,
    Or,
}

/// An expression. A number literal keeps its numeral as written; the host
/// turns it into a number when the literal is evaluated.
#[derive(Debug)]
pub enum Expr {
    Numero(String),
    Texto(String),
    Bool(bool),
    Nulo,
    Var(String),
    Array(Vec<Expr>),
    Index(Box<Expr>, Box<Expr>),
    Atribuir(String, Box<Expr>),
    AtribuirIndex(Box<Expr>, Box<Expr>, Box<Expr>),
    Unario(UnarioOp, Box<Expr>),
    Binario(Box<Expr>, BinOp, Box<Expr>),
    Chamada(Box<Expr>, Vec<Expr>),
}

/// A statement.
#[derive(Debug)]
pub enum Stmt {
    ExprStmt(Expr),
    Imprimir(Expr),
    VarDecl(String, Expr),
    Bloco(Vec<Stmt>),
    If(Expr, Box<Stmt>, Option<Box<Stmt>>),
    While(Expr, Box<Stmt>),
    For(Option<Box<Stmt>>, Option<Expr>, Option<Expr>, Box<Stmt>),
    FuncDecl(String, Vec<String>, Vec<Stmt>),
    Return(Option<Expr>),
    Break,
    Continue,
}

/// The mathematical value of an [`Expr`].
pub enum ExprView {
    Numero(Seq<char>),
    Texto(Seq<char>),
    Bool(bool),
    Nulo,
    Var(Seq<char>),
    Array(Seq<ExprView>),
    Index(Box<ExprView>, Box<ExprView>),
    Atribuir(Seq<char>, Box<ExprView>),
    AtribuirIndex(Box<ExprView>, Box<ExprView>, Box<ExprView>),
    Unario(UnarioOp, Box<ExprView>),
    Binario(Box<ExprView>, BinOp, Box<ExprView>),
    Chamada(Box<ExprView>, Seq<ExprView>),
}

/// The mathematical value of a [`Stmt`].
pub enum StmtView {
    ExprStmt(ExprView),
    Imprimir(ExprView),
    VarDecl(Seq<char>, ExprView),
    Bloco(Seq<StmtView>),
    If(ExprView, Box<StmtView>, Option<Box<StmtView>>),
    While(ExprView, Box<StmtView>),
    For(Option<Box<StmtView>>, Option<ExprView>, Option<ExprView>, Box<StmtView>),
    FuncDecl(Seq<char>, Seq<Seq<char>>, Seq<StmtView>),
    Return(Option<ExprView>),
    Break,
    Continue,
}

/// The mathematical value of an expression: texts become sequences of
/// characters, vectors become sequences.
pub open spec fn expr_view(e: Expr) -> ExprView
    decreases e,
{
    match e {
        Expr::Numero(s) => ExprView::Numero(s@),
        Expr::Texto(s) => ExprView::Texto(s@),
        Expr::Bool(b) => ExprView::Bool(b),
        Expr::Nulo => ExprView::Nulo,
        Expr::Var(s) => ExprView::Var(s@),
        Expr::Array(v) => ExprView::Array(exprs_view(v@)),
        Expr::Index(a, i) => ExprView::Index(Box::new(expr_view(*a)), Box::new(expr_view(*i))),
        Expr::Atribuir(n, v) => ExprView::Atribuir(n@, Box::new(expr_view(*v))),
        Expr::AtribuirIndex(a, i, v) => ExprView::AtribuirIndex(
            Box::new(expr_view(*a)),
            Box::new(expr_view(*i)),
            Box::new(expr_view(*v)),
        ),
        Expr::Unario(op, r) => ExprView::Unario(op, Box::new(expr_view(*r))),
        Expr::Binario(l, op, r) => ExprView::Binario(
            Box::new(expr_view(*l)),
            op,
            Box::new(expr_view(*r)),
        ),
        Expr::Chamada(c, args) => ExprView::Chamada(Box::new(expr_view(*c)), exprs_view(args@)),
    }
}

/// The mathematical values of a sequence of expressions.
pub open spec fn exprs_view(v: Seq<Expr>) -> Seq<ExprView>
    decreases v,
{
    Seq::new(
        v.len(),
        |i: int|
            if 0 <= i < v.len() {
                expr_view(v[i])
            } else {
                ExprView::Nulo
            },
    )
}

impl DeepView for Expr {
    type V = ExprView;

    open spec fn deep_view(&self) -> ExprView {
        expr_view(*self)
    }
}

impl View for Expr {
    type V = ExprView;

    open spec fn view(&self) -> ExprView {
        expr_view(*self)
    }
}

/// The mathematical value of a statement.
pub open spec fn stmt_view(s: Stmt) -> StmtView
    decreases s,
{
    match s {
        Stmt::ExprStmt(e) => StmtView::ExprStmt(e@),
        Stmt::Imprimir(e) => StmtView::Imprimir(e@),
        Stmt::VarDecl(n, e) => StmtView::VarDecl(n@, e@),
        Stmt::Bloco(v) => StmtView::Bloco(stmts_view(v@)),
        Stmt::If(c, t, e) => StmtView::If(
            c@,
            Box::new(stmt_view(*t)),
            match e {
                Some(b) => Some(Box::new(stmt_view(*b))),
                None => None,
            },
        ),
        Stmt::While(c, b) => StmtView::While(c@, Box::new(stmt_view(*b))),
        Stmt::For(i, c, n, b) => StmtView::For(
            match i {
                Some(s) => Some(Box::new(stmt_view(*s))),
                None => None,
            },
            match c {
                Some(e) => Some(e@),
                None => None,
            },
            match n {
                Some(e) => Some(e@),
                None => None,
            },
            Box::new(stmt_view(*b)),
        ),
        Stmt::FuncDecl(n, ps, body) => StmtView::FuncDecl(n@, ps.deep_view(), stmts_view(body@)),
        Stmt::Return(e) => StmtView::Return(
            match e {
                Some(e) => Some(e@),
                None => None,
            },
        ),
        Stmt::Break => StmtView::Break,
        Stmt::Continue => StmtView::Continue,
    }
}

/// The mathematical values of a sequence of statements.
pub open spec fn stmts_view(v: Seq<Stmt>) -> Seq<StmtView>
    decreases v,
{
    Seq::new(
        v.len(),
        |i: int|
            if 0 <= i < v.len() {
                stmt_view(v[i])
            } else {
                StmtView::Break
            },
    )
}

impl DeepView for Stmt {
    type V = StmtView;

    open spec fn deep_view(&self) -> StmtView {
        stmt_view(*self)
    }
}

impl View for Stmt {
    type V = StmtView;

    open spec fn view(&self) -> StmtView {
        stmt_view(*self)
    }
}

/// Pushing an expression onto a vector pushes its view onto the vector's view.
pub proof fn lemma_exprs_view_push(v: Seq<Expr>, e: Expr)
    ensures
        exprs_view(v.push(e)) == exprs_view(v).push(e@),
{
    assert(exprs_view(v.push(e)) =~= exprs_view(v).push(e@));
}

/// Pushing a statement onto a vector pushes its view onto the vector's view.
pub proof fn lemma_stmts_view_push(v: Seq<Stmt>, s: Stmt)
    ensures
        stmts_view(v.push(s)) == stmts_view(v).push(s@),
{
    assert(stmts_view(v.push(s)) =~= stmts_view(v).push(s@));
}

/// A copy of a vector of names.
pub fn clone_names(v: &Vec<String>) -> (r: Vec<String>)
    ensures
        r.deep_view() == v.deep_view(),
{
    let mut r: Vec<String> = Vec::new();
    let mut i: usize = 0;
    while i < v.len()
        invariant
            i <= v.len(),
            r.len() == i,
            forall|j: int| 0 <= j < i ==> r[j]@ == v[j]@,
        decreases v.len() - i,
    {
        r.push(v[i].clone());
        i += 1;
    }
    assert(r.deep_view() =~= v.deep_view());
    r
}

impl Clone for Expr {
    /// A deep copy of the expression.
    fn clone(&self) -> (r: Expr)
        ensures
            r@ == self@,
        decreases self,
    {
        match self {
            Expr::Numero(s) => Expr::Numero(s.clone()),
            Expr::Texto(s) => Expr::Texto(s.clone()),
            Expr::Bool(b) => Expr::Bool(*b),
            Expr::Nulo => Expr::Nulo,
            Expr::Var(s) => Expr::Var(s.clone()),
            Expr::Array(v) => Expr::Array(copy_exprs(v)),
            Expr::Index(a, i) => Expr::Index(Box::new(Expr::clone(a)), Box::new(Expr::clone(i))),
            Expr::Atribuir(n, v) => Expr::Atribuir(n.clone(), Box::new(Expr::clone(v))),
            Expr::AtribuirIndex(a, i, v) => Expr::AtribuirIndex(
                Box::new(Expr::clone(a)),
                Box::new(Expr::clone(i)),
                Box::new(Expr::clone(v)),
            ),
            Expr::Unario(op, r) => Expr::Unario(*op, Box::new(Expr::clone(r))),
            Expr::Binario(l, op, r) => Expr::Binario(Box::new(Expr::clone(l)), *op, Box::new(Expr::clone(r))),
            Expr::Chamada(c, args) => Expr::Chamada(Box::new(Expr::clone(c)), copy_exprs(args)),
        }
    }
}

/// A deep copy of a vector of expressions.
pub fn copy_exprs(v: &Vec<Expr>) -> (r: Vec<Expr>)
    ensures
        exprs_view(r@) == exprs_view(v@),
    decreases v,
{
    let mut r: Vec<Expr> = Vec::new();
    let mut i: usize = 0;
    while i < v.len()
        invariant
            i <= v.len(),
            r.len() == i,
            forall|j: int| 0 <= j < i ==> r[j]@ == v[j]@,
        decreases v.len() - i,
    {
        r.push(v[i].clone());
        i += 1;
    }
    assert(exprs_view(r@) =~= exprs_view(v@));
    r
}

impl Clone for Stmt {
    /// A deep copy of the statement.
    fn clone(&self) -> (r: Stmt)
        ensures
            r@ == self@,
        decreases self,
    {
        match self {
            Stmt::ExprStmt(e) => Stmt::ExprStmt(e.clone()),
            Stmt::Imprimir(e) => Stmt::Imprimir(e.clone()),
            Stmt::VarDecl(n, e) => Stmt::VarDecl(n.clone(), e.clone()),
            Stmt::Bloco(v) => Stmt::Bloco(copy_stmts(v)),
            Stmt::If(c, t, e) => {
                let e2 = match e {
                    Some(b) => Some(Box::new(Stmt::clone(b))),
                    None => None,
                };
                Stmt::If(c.clone(), Box::new(Stmt::clone(t)), e2)
            },
            Stmt::While(c, b) => Stmt::While(c.clone(), Box::new(Stmt::clone(b))),
            Stmt::For(i, c, n, b) => {
                let i2 = match i {
                    Some(s) => Some(Box::new(Stmt::clone(s))),
                    None => None,
                };
                let c2 = match c {
                    Some(e) => Some(e.clone()),
                    None => None,
                };
                let n2 = match n {
                    Some(e) => Some(e.clone()),
                    None => None,
                };
                Stmt::For(i2, c2, n2, Box::new(Stmt::clone(b)))
            },
            Stmt::FuncDecl(n, ps, body) => Stmt::FuncDecl(
                n.clone(),
                clone_names(ps),
                copy_stmts(body),
            ),
            Stmt::Return(e) => {
                let e2 = match e {
                    Some(e) => Some(e.clone()),
                    None => None,
                };
                Stmt::Return(e2)
            },
            Stmt::Break => Stmt::Break,
            Stmt::Continue => Stmt::Continue,
        }
    }
}

/// A deep copy of a vector of statements.
pub fn copy_stmts(v: &Vec<Stmt>) -> (r: Vec<Stmt>)
    ensures
        stmts_view(r@) == stmts_view(v@),
    decreases v,
{
    let mut r: Vec<Stmt> = Vec::new();
    let mut i: usize = 0;
    while i < v.len()
        invariant
            i <= v.len(),
            r.len() == i,
            forall|j: int| 0 <= j < i ==> r[j]@ == v[j]@,
        decreases v.len() - i,
    {
        r.push(v[i].clone());
        i += 1;
    }
    assert(stmts_view(r@) =~= stmts_view(v@));
    r
}

} // verus!
