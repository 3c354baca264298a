//! Errors: what can go wrong at run time, and how a failure is reported.

use vstd::prelude::*;
use crate::ast::BinOp;
use crate::suggest::{
    edit_distance, is_suggestion, spec_suggestion_text, sugerir_similar, MAX_DISTANCE,
};
use crate::text::{
    chars_of, decimal, push_decimal, push_signed_decimal, signed_decimal, text_of,
};

verus! {

/// The functions that the host language provides.
#[derive(Debug, Clone, Copy, PartialEq, Eq, Structural)]
pub enum Builtin {
    Imprimir,
    Comprimento,
    Maiuscula,
    Minuscula,
}

impl Builtin {
    /// The name under which the function is bound in the global scope.
    pub open spec fn spec_name(self) -> Seq<char> {
        match self {
            Builtin::Imprimir => "imprimir"@,
            Builtin::Comprimento => "comprimento"@,
            Builtin::Maiuscula => "maiuscula"@,
            Builtin::Minuscula => "minuscula"@,
        }
    }

    /// The name under which the function is bound in the global scope.
    pub fn name(&self) -> (r: String)
        ensures
            r@ == self.spec_name(),
    {
        match self {
            Builtin::Imprimir => text_of("imprimir"),
            Builtin::Comprimento => text_of("comprimento"),
            Builtin::Maiuscula => text_of("maiuscula"),
            Builtin::Minuscula => text_of("minuscula"),
        }
    }
}

/// A failure during evaluation.
#[derive(Debug)]
pub enum RuntimeError {
    /// A name was read or assigned that no scope of the chain defines.
    UndefinedVariable(String),
    /// An index, truncated to an integer, lies outside the container.
    IndexOutOfBounds { index: i64, len: usize },
    /// Indexing needs an array or a text, and a number as index.
    NotIndexable,
    /// Assignment to an element needs an array, and a number as index.
    NotIndexAssignable,
    /// Unary minus needs a number.
    NegateOperand,
    /// `+` needs two numbers, or a text on either side.
    AddOperands,
    /// The operator needs two numbers.
    NumberOperands(BinOp),
    DivisionByZero,
    /// The callee is not a function.
    NotCallable,
    /// A function was called with the wrong number of arguments.
    Arity { expected: usize, got: usize },
    /// A built-in function was called with the wrong number of arguments.
    BuiltinArity(Builtin),
    /// A built-in function was called with an argument of the wrong kind.
    BuiltinArgument(Builtin),
    /// `quebrar` or `continuar` reached the end of a function body without
    /// meeting a loop.
    LoopSignalInFunction,
    /// The machine was driven out of step: a reply of the wrong kind, or a
    /// step with nothing left to do.
    Protocol,
}

/// The mathematical value of a [`RuntimeError`].
pub enum RuntimeErrorView {
    UndefinedVariable(Seq<char>),
    IndexOutOfBounds { index: i64, len: usize },
    NotIndexable,
    NotIndexAssignable,
    NegateOperand,
    AddOperands,
    NumberOperands(BinOp),
    DivisionByZero,
    NotCallable,
    Arity { expected: usize, got: usize },
    BuiltinArity(Builtin),
    BuiltinArgument(Builtin),
    LoopSignalInFunction,
    Protocol,
}

impl DeepView for RuntimeError {
    type V = RuntimeErrorView;

    open spec fn deep_view(&self) -> RuntimeErrorView {
        match self {
            RuntimeError::UndefinedVariable(n) => RuntimeErrorView::UndefinedVariable(n@),
            RuntimeError::IndexOutOfBounds { index, len } => RuntimeErrorView::IndexOutOfBounds {
                index: *index,
                len: *len,
            },
            RuntimeError::NotIndexable => RuntimeErrorView::NotIndexable,
            RuntimeError::NotIndexAssignable => RuntimeErrorView::NotIndexAssignable,
            RuntimeError::NegateOperand => RuntimeErrorView::NegateOperand,
            RuntimeError::AddOperands => RuntimeErrorView::AddOperands,
            RuntimeError::NumberOperands(op) => RuntimeErrorView::NumberOperands(*op),
            RuntimeError::DivisionByZero => RuntimeErrorView::DivisionByZero,
            RuntimeError::NotCallable => RuntimeErrorView::NotCallable,
            RuntimeError::Arity { expected, got } => RuntimeErrorView::Arity {
                expected: *expected,
                got: *got,
            },
            RuntimeError::BuiltinArity(b) => RuntimeErrorView::BuiltinArity(*b),
            RuntimeError::BuiltinArgument(b) => RuntimeErrorView::BuiltinArgument(*b),
            RuntimeError::LoopSignalInFunction => RuntimeErrorView::LoopSignalInFunction,
            RuntimeError::Protocol => RuntimeErrorView::Protocol,
        }
    }
}

impl View for RuntimeError {
    type V = RuntimeErrorView;

    open spec fn view(&self) -> RuntimeErrorView {
        self.deep_view()
    }
}

/// The spelling of an operator in a message.
pub open spec fn spec_operator_symbol(op: BinOp) -> Seq<char> {
    match op {
        BinOp::Add => "+"@,
        BinOp::Sub => "-"@,
        BinOp::Mul => "*"@,
        BinOp::Div => "/"@,
        BinOp::Eq => "=="@,
        BinOp::Neq => "!="@,
        BinOp::Lt => "<"@,
        BinOp::Gt => ">"@,
        BinOp::Le => "<="@,
        BinOp::Ge => ">="@,
        BinOp::And => "e"@,
        BinOp::Or => "ou"@,
    }
}

/// The spelling of an operator in a message.
pub fn operator_symbol(op: BinOp) -> (r: String)
    ensures
        r@ == spec_operator_symbol(op),
{
    match op {
        BinOp::Add => text_of("+"),
        BinOp::Sub => text_of("-"),
        BinOp::Mul => text_of("*"),
        BinOp::Div => text_of("/"),
        BinOp::Eq => text_of("=="),
        BinOp::Neq => text_of("!="),
        BinOp::Lt => text_of("<"),
        BinOp::Gt => text_of(">"),
        BinOp::Le => text_of("<="),
        BinOp::Ge => text_of(">="),
        BinOp::And => text_of("e"),
        BinOp::Or => text_of("ou"),
    }
}

impl RuntimeErrorView {
    /// The message shown to the user.
    pub open spec fn message(self) -> Seq<char> {
        match self {
            RuntimeErrorView::UndefinedVariable(n) => "Variável '"@ + n + "' não definida"@,
            RuntimeErrorView::IndexOutOfBounds { index, len } => "Índice "@ + signed_decimal(
                index as int,
            ) + " fora dos limites (tamanho: "@ + decimal(len as nat) + ")"@,
            RuntimeErrorView::NotIndexable => "Indexação requer array/string e índice numérico"@,
            RuntimeErrorView::NotIndexAssignable =>
                "Atribuição de índice requer array e índice numérico"@,
            RuntimeErrorView::NegateOperand => "Operador unário '-' espera número"@,
            RuntimeErrorView::AddOperands => "Operador '+' inválido para operandos"@,
            RuntimeErrorView::NumberOperands(op) => "'"@ + spec_operator_symbol(op)
                + "' espera números"@,
            RuntimeErrorView::DivisionByZero => "Divisão por zero"@,
            RuntimeErrorView::NotCallable => "Tentativa de chamar algo que não é função"@,
            RuntimeErrorView::Arity { expected, got } => "Esperado "@ + decimal(expected as nat)
                + " argumentos mas recebeu "@ + decimal(got as nat),
            RuntimeErrorView::BuiltinArity(b) => b.spec_name() + "() espera 1 argumento"@,
            RuntimeErrorView::BuiltinArgument(b) => b.spec_name() + (if b == Builtin::Comprimento {
                "() espera texto ou array"@
            } else {
                "() espera texto"@
            }),
            RuntimeErrorView::LoopSignalInFunction => "'quebrar' ou 'continuar' fora de um laço"@,
            RuntimeErrorView::Protocol => "Estado interno inválido"@,
        }
    }
}

impl RuntimeError {
    /// The message shown to the user.
    pub fn message(&self) -> (r: String)
        ensures
            r@ == self@.message(),
    {
        match self {
            RuntimeError::UndefinedVariable(n) => {
                let mut s = text_of("Variável '");
                s.append(n.as_str());
                s.append("' não definida");
                s
            },
            RuntimeError::IndexOutOfBounds { index, len } => {
                let mut s = text_of("Índice ");
                push_signed_decimal(&mut s, *index);
                s.append(" fora dos limites (tamanho: ");
                push_decimal(&mut s, *len as u64);
                s.append(")");
                s
            },
            RuntimeError::NotIndexable => text_of(
                "Indexação requer array/string e índice numérico",
            ),
            RuntimeError::NotIndexAssignable => text_of(
                "Atribuição de índice requer array e índice numérico",
            ),
            RuntimeError::NegateOperand => text_of("Operador unário '-' espera número"),
            RuntimeError::AddOperands => text_of("Operador '+' inválido para operandos"),
            RuntimeError::NumberOperands(op) => {
                let mut s = text_of("'");
                let sym = operator_symbol(*op);
                s.append(sym.as_str());
                s.append("' espera números");
                s
            },
            RuntimeError::DivisionByZero => text_of("Divisão por zero"),
            RuntimeError::NotCallable => text_of("Tentativa de chamar algo que não é função"),
            RuntimeError::Arity { expected, got } => {
                let mut s = text_of("Esperado ");
                push_decimal(&mut s, *expected as u64);
                s.append(" argumentos mas recebeu ");
                push_decimal(&mut s, *got as u64);
                s
            },
            RuntimeError::BuiltinArity(b) => {
                let mut s = b.name();
                s.append("() espera 1 argumento");
                s
            },
            RuntimeError::BuiltinArgument(b) => {
                let mut s = b.name();
                match b {
                    Builtin::Comprimento => {
                        s.append("() espera texto ou array");
                    },
                    _ => {
                        s.append("() espera texto");
                    },
                }
                s
            },
            RuntimeError::LoopSignalInFunction => text_of(
                "'quebrar' ou 'continuar' fora de um laço",
            ),
            RuntimeError::Protocol => text_of("Estado interno inválido"),
        }
    }
}

/// A failure of the parser: a declaration or statement that begins at a
/// token and cannot be read to its end.
#[derive(Debug)]
pub struct SyntaxError {
    /// The line of the token at which the construct begins.
    pub linha: usize,
    /// The text of that token.
    pub lexema: String,
}

/// The mathematical value of a [`SyntaxError`].
pub struct SyntaxErrorView {
    pub linha: usize,
    pub lexema: Seq<char>,
}

impl DeepView for SyntaxError {
    type V = SyntaxErrorView;

    open spec fn deep_view(&self) -> SyntaxErrorView {
        SyntaxErrorView { linha: self.linha, lexema: self.lexema@ }
    }
}

impl View for SyntaxError {
    type V = SyntaxErrorView;

    open spec fn view(&self) -> SyntaxErrorView {
        self.deep_view()
    }
}

impl SyntaxErrorView {
    /// The message shown to the user.
    pub open spec fn message(self) -> Seq<char> {
        "Sintaxe inválida a partir de '"@ + self.lexema + "'"@
    }
}

impl SyntaxError {
    /// The message shown to the user.
    pub fn message(&self) -> (r: String)
        ensures
            r@ == self@.message(),
    {
        let mut s = text_of("Sintaxe inválida a partir de '");
        s.append(self.lexema.as_str());
        s.append("'");
        s
    }
}

/// A place in a source text.
#[derive(Debug)]
pub struct SourceLocation {
    pub linha: usize,
    pub coluna: usize,
    pub fonte: String,
}

/// The mathematical value of a [`SourceLocation`].
pub struct SourceLocationView {
    pub linha: usize,
    pub coluna: usize,
    pub fonte: Seq<char>,
}

impl DeepView for SourceLocation {
    type V = SourceLocationView;

    open spec fn deep_view(&self) -> SourceLocationView {
        SourceLocationView { linha: self.linha, coluna: self.coluna, fonte: self.fonte@ }
    }
}

impl View for SourceLocation {
    type V = SourceLocationView;

    open spec fn view(&self) -> SourceLocationView {
        self.deep_view()
    }
}

impl Clone for SourceLocation {
    fn clone(&self) -> (r: SourceLocation)
        ensures
            r@ == self@,
    {
        SourceLocation { linha: self.linha, coluna: self.coluna, fonte: self.fonte.clone() }
    }
}

/// The stage at which an error arose.
#[derive(Debug, Clone, Copy, PartialEq, Eq, Structural)]
pub enum ErrorType {
    LexicoError,
    SintaticoError,
    RuntimeError,
}

impl ErrorType {
    /// The heading under which an error of this stage is reported.
    pub open spec fn spec_titulo(self) -> Seq<char> {
        match self {
            ErrorType::LexicoError => "Erro Léxico"@,
            ErrorType::SintaticoError => "Erro Sintático"@,
            ErrorType::RuntimeError => "Erro de Execução"@,
        }
    }

    /// The heading under which an error of this stage is reported.
    pub fn titulo(&self) -> (r: String)
        ensures
            r@ == self.spec_titulo(),
    {
        match self {
            ErrorType::LexicoError => text_of("Erro Léxico"),
            ErrorType::SintaticoError => text_of("Erro Sintático"),
            ErrorType::RuntimeError => text_of("Erro de Execução"),
        }
    }
}

/// An error as it is reported: its stage and message, and where known the
/// place it arose and a suggestion.
#[derive(Debug)]
pub struct LucasError {
    pub tipo: ErrorType,
    pub mensagem: String,
    pub localizacao: Option<SourceLocation>,
    pub sugestao: Option<String>,
}

/// The mathematical value of a [`LucasError`].
pub struct LucasErrorView {
    pub tipo: ErrorType,
    pub mensagem: Seq<char>,
    pub localizacao: Option<SourceLocationView>,
    pub sugestao: Option<Seq<char>>,
}

impl DeepView for LucasError {
    type V = LucasErrorView;

    open spec fn deep_view(&self) -> LucasErrorView {
        LucasErrorView {
            tipo: self.tipo,
            mensagem: self.mensagem@,
            localizacao: self.localizacao.deep_view(),
            sugestao: self.sugestao.deep_view(),
        }
    }
}

impl View for LucasError {
    type V = LucasErrorView;

    open spec fn view(&self) -> LucasErrorView {
        self.deep_view()
    }
}

impl LucasError {
    /// An error with neither place nor suggestion.
    pub fn novo(tipo: ErrorType, mensagem: String) -> (r: LucasError)
        ensures
            r@ == (LucasErrorView { tipo, mensagem: mensagem@, localizacao: None, sugestao: None }),
    {
        LucasError { tipo, mensagem, localizacao: None, sugestao: None }
    }

    /// The error with the place it arose.
    pub fn com_localizacao(self, loc: SourceLocation) -> (r: LucasError)
        ensures
            r@ == (LucasErrorView { localizacao: Some(loc@), ..self@ }),
    {
        let mut e = self;
        e.localizacao = Some(loc);
        e
    }

    /// The error with a suggestion.
    pub fn com_sugestao(self, sugestao: String) -> (r: LucasError)
        ensures
            r@ == (LucasErrorView { sugestao: Some(sugestao@), ..self@ }),
    {
        let mut e = self;
        e.sugestao = Some(sugestao);
        e
    }

    /// The report of a failure of the parser: its message, and as its place
    /// the line at which the construct that failed begins. Columns are not
    /// known.
    pub fn de_sintaxe(erro: &SyntaxError, fonte: &str) -> (r: LucasError)
        ensures
            r@ == (LucasErrorView {
                tipo: ErrorType::SintaticoError,
                mensagem: erro@.message(),
                localizacao: Some(
                    SourceLocationView { linha: erro.linha, coluna: 0, fonte: fonte@ },
                ),
                sugestao: None,
            }),
    {
        LucasError {
            tipo: ErrorType::SintaticoError,
            mensagem: erro.message(),
            localizacao: Some(
                SourceLocation { linha: erro.linha, coluna: 0, fonte: text_of(fonte) },
            ),
            sugestao: None,
        }
    }

    /// The report of a failure at run time: its message, and for a name
    /// that is not defined the closest of the names given, if one is close.
    pub fn de_execucao(erro: &RuntimeError, nomes: &[String]) -> (r: LucasError)
        ensures
            r@.tipo == ErrorType::RuntimeError,
            r@.mensagem == erro@.message(),
            r@.localizacao is None,
            match erro@ {
                RuntimeErrorView::UndefinedVariable(n) => match r@.sugestao {
                    Some(s) => exists|i: int|
                        is_suggestion(n, nomes.deep_view(), i) && s == spec_suggestion_text(
                            #[trigger] nomes.deep_view()[i],
                        ),
                    None => forall|j: int|
                        0 <= j < nomes.len() ==> edit_distance(n, #[trigger] nomes.deep_view()[j])
                            > MAX_DISTANCE,
                },
                _ => r@.sugestao is None,
            },
    {
        let sugestao = match erro {
            RuntimeError::UndefinedVariable(n) => sugerir_similar(n.as_str(), nomes),
            _ => None,
        };
        LucasError {
            tipo: ErrorType::RuntimeError,
            mensagem: erro.message(),
            localizacao: None,
            sugestao,
        }
    }
}

/// Where the line that runs through `from` ends: at the next line break,
/// or at the end of the text.
pub open spec fn line_end(s: Seq<char>, from: nat) -> nat
    decreases s.len() - from,
{
    if from < s.len() && s[from as int] != '\n' {
        line_end(s, from + 1)
    } else {
        from
    }
}

/// A line ends at or after its start, within the text.
pub proof fn lemma_line_end(s: Seq<char>, from: nat)
    ensures
        from <= line_end(s, from),
        from <= s.len() ==> line_end(s, from) <= s.len(),
        line_end(s, from) < s.len() ==> s[line_end(s, from) as int] == '\n',
    decreases s.len() - from,
{
    if from < s.len() && s[from as int] != '\n' {
        lemma_line_end(s, from + 1);
    }
}

/// The lines of a text from a position on. A line ends at a line break;
/// the line break is not part of it, and neither is a carriage return just
/// before the line break. The last line needs no line break.
pub open spec fn lines_from(s: Seq<char>, from: nat) -> Seq<Seq<char>>
    decreases s.len() - from,
{
    if from >= s.len() {
        Seq::empty()
    } else {
        let end = line_end(s, from);
        let raw = s.subrange(from as int, end as int);
        let line = if end < s.len() && raw.len() > 0 && raw.last() == '\r' {
            raw.drop_last()
        } else {
            raw
        };
        proof {
            lemma_line_end(s, from);
        }
        if end < s.len() {
            seq![line] + lines_from(s, end + 1)
        } else {
            seq![line]
        }
    }
}

/// The lines of a text.
pub open spec fn spec_linhas(s: Seq<char>) -> Seq<Seq<char>> {
    lines_from(s, 0)
}

/// The lines of a text, see [`lines_from`].
pub fn linhas(fonte: &str) -> (r: Vec<String>)
    ensures
        r.deep_view() == spec_linhas(fonte@),
{
    let cs = chars_of(fonte);
    let mut out: Vec<String> = Vec::new();
    assert(out.deep_view() =~= Seq::empty());
    let mut from: usize = 0;
    while from < cs.len()
        invariant
            cs@ == fonte@,
            from <= cs.len(),
            spec_linhas(fonte@) == out.deep_view() + lines_from(cs@, from as nat),
        decreases cs.len() - from,
    {
        let mut end: usize = from;
        while end < cs.len() && cs[end] != '\n'
            invariant
                from <= end <= cs.len(),
                line_end(cs@, end as nat) == line_end(cs@, from as nat),
            decreases cs.len() - end,
        {
            end += 1;
        }
        let mut stop = end;
        if end < cs.len() && end > from && cs[end - 1] == '\r' {
            stop = end - 1;
        }
        let mut line = String::new();
        let mut k: usize = from;
        while k < stop
            invariant
                from <= k <= stop,
                stop <= cs.len(),
                line@ == cs@.subrange(from as int, k as int),
            decreases stop - k,
        {
            line.push(cs[k]);
            assert(line@ =~= cs@.subrange(from as int, k + 1));
            k += 1;
        }
        proof {
            let raw = cs@.subrange(from as int, end as int);
            if stop < end {
                assert(raw.drop_last() =~= cs@.subrange(from as int, stop as int));
            }
        }
        let ghost before = out.deep_view();
        out.push(line);
        assert(out.deep_view() =~= before + seq![line@]);
        if end == cs.len() {
            assert(before + seq![line@] =~= out.deep_view() + lines_from(cs@, end as nat));
            from = end;
        } else {
            assert(before + (seq![line@] + lines_from(cs@, (end + 1) as nat)) =~= out.deep_view()
                + lines_from(cs@, (end + 1) as nat));
            from = end + 1;
        }
    }
    assert(out.deep_view() + Seq::<Seq<char>>::empty() =~= out.deep_view());
    out
}

/// A line of a source text with its number.
#[derive(Debug)]
pub struct NumberedLine {
    pub numero: usize,
    pub texto: String,
}

/// The mathematical value of a [`NumberedLine`].
pub struct NumberedLineView {
    pub numero: usize,
    pub texto: Seq<char>,
}

impl DeepView for NumberedLine {
    type V = NumberedLineView;

    open spec fn deep_view(&self) -> NumberedLineView {
        NumberedLineView { numero: self.numero, texto: self.texto@ }
    }
}

/// What a report shows of the source around a place: the line of the
/// place, the lines before and after it where there are such, and how far
/// the mark under the line is indented.
#[derive(Debug)]
pub struct Context {
    pub before: Option<NumberedLine>,
    pub at: Option<NumberedLine>,
    pub after: Option<NumberedLine>,
    pub indent: usize,
}

/// The mathematical value of a [`Context`].
pub struct ContextView {
    pub before: Option<NumberedLineView>,
    pub at: Option<NumberedLineView>,
    pub after: Option<NumberedLineView>,
    pub indent: usize,
}

impl DeepView for Context {
    type V = ContextView;

    open spec fn deep_view(&self) -> ContextView {
        ContextView {
            before: self.before.deep_view(),
            at: self.at.deep_view(),
            after: self.after.deep_view(),
            indent: self.indent,
        }
    }
}

/// The line at an index, with the number under which it is shown, if the
/// text has a line there.
pub open spec fn spec_numbered(lines: Seq<Seq<char>>, index: int, numero: usize) -> Option<
    NumberedLineView,
> {
    if 0 <= index < lines.len() {
        Some(NumberedLineView { numero, texto: lines[index] })
    } else {
        None
    }
}

/// The width of what stands before a line in a report.
pub const MARGIN: usize = 6;

impl SourceLocationView {
    /// The index of the place's line among the lines of the source: lines
    /// are counted from 1, and line 0 is taken for line 1.
    pub open spec fn line_index(self) -> int {
        if self.linha == 0 {
            0
        } else {
            self.linha - 1
        }
    }

    /// What a report shows around the place. The mark stands under the
    /// place's column, past the margin.
    pub open spec fn contexto(self) -> ContextView {
        let lines = spec_linhas(self.fonte);
        let index = self.line_index();
        ContextView {
            before: spec_numbered(lines, index - 1, index as usize),
            at: spec_numbered(lines, index, self.linha),
            after: if index + 2 <= usize::MAX {
                spec_numbered(lines, index + 1, (index + 2) as usize)
            } else {
                None
            },
            indent: if self.coluna <= usize::MAX - MARGIN {
                (self.coluna + MARGIN) as usize
            } else {
                usize::MAX
            },
        }
    }
}

/// The line at an index, with the number under which it is shown.
fn numbered(lines: &Vec<String>, index: usize, numero: usize) -> (r: Option<NumberedLine>)
    ensures
        r.deep_view() == spec_numbered(lines.deep_view(), index as int, numero),
{
    if index < lines.len() {
        Some(NumberedLine { numero, texto: lines[index].clone() })
    } else {
        None
    }
}

impl SourceLocation {
    /// What a report shows of the source around the place.
    pub fn contexto(&self) -> (r: Context)
        ensures
            r.deep_view() == self@.contexto(),
    {
        let lines = linhas(self.fonte.as_str());
        let index = if self.linha == 0 {
            0
        } else {
            self.linha - 1
        };
        let before = if index > 0 {
            numbered(&lines, index - 1, index)
        } else {
            None
        };
        let at = numbered(&lines, index, self.linha);
        let after = if index <= usize::MAX - 2 {
            numbered(&lines, index + 1, index + 2)
        } else {
            None
        };
        let indent = if self.coluna <= usize::MAX - MARGIN {
            self.coluna + MARGIN
        } else {
            usize::MAX
        };
        Context { before, at, after, indent }
    }
}

} // verus!
