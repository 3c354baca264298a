//! Lexical tokens.

use vstd::prelude::*;

verus! {

/// The kind of a token. A literal and an identifier carry their text: a
/// numeral as it was written, a text without its quotes.
#[derive(Debug)]
pub enum TokenType {
    Numero(String),
    Texto(String),
    Ident(String),
    Variavel,
    Funcao,
    Se,
    Senao,
    Enquanto,
    Para,
    Retornar,
    Imprimir,
    Verdadeiro,
    Falso,
    Nulo,
    E,
    Ou,
    Nao,
    Break,
    Continue,
    Mais,
    Menos,
    Multiplica,
    Divide,
    Igual,
    IgualIgual,
    Diferente,
    Menor,
    MenorIgual,
    Maior,
    MaiorIgual,
    AbrePar,
    FechaPar,
    AbreChave,
    FechaChave,
    AbreColchete,
    FechaColchete,
    Virgula,
    PontoVirgula,
    Fim,
}

/// The mathematical value of a [`TokenType`].
pub enum TokenTypeView {
    Numero(Seq<char>),
    Texto(Seq<char>),
    Ident(Seq<char>),
    Variavel,
    Funcao,
    Se,
    Senao,
    Enquanto,
    Para,
    Retornar,
    Imprimir,
    Verdadeiro,
    Falso,
    Nulo,
    E,
    Ou,
    Nao,
    Break,
    Continue,
    Mais,
    Menos,
    Multiplica,
    Divide,
    Igual,
    IgualIgual,
    Diferente,
    Menor,
    MenorIgual,
    Maior,
    MaiorIgual,
    AbrePar,
    FechaPar,
    AbreChave,
    FechaChave,
    AbreColchete,
    FechaColchete,
    Virgula,
    PontoVirgula,
    Fim,
}

impl DeepView for TokenType {
    type V = TokenTypeView;

    open spec fn deep_view(&self) -> TokenTypeView {
        match self {
            TokenType::Numero(s) => TokenTypeView::Numero(s@),
            TokenType::Texto(s) => TokenTypeView::Texto(s@),
            TokenType::Ident(s) => TokenTypeView::Ident(s@),
            TokenType::Variavel => TokenTypeView::Variavel,
            TokenType::Funcao => TokenTypeView::Funcao,
            TokenType::Se => TokenTypeView::Se,
            TokenType::Senao => TokenTypeView::Senao,
            TokenType::Enquanto => TokenTypeView::Enquanto,
            TokenType::Para => TokenTypeView::Para,
            TokenType::Retornar => TokenTypeView::Retornar,
            TokenType::Imprimir => TokenTypeView::Imprimir,
            TokenType::Verdadeiro => TokenTypeView::Verdadeiro,
            TokenType::Falso => TokenTypeView::Falso,
            TokenType::Nulo => TokenTypeView::Nulo,
            TokenType::E => TokenTypeView::E,
            TokenType::Ou => TokenTypeView::Ou,
            TokenType::Nao => TokenTypeView::Nao,
            TokenType::Break => TokenTypeView::Break,
            TokenType::Continue => TokenTypeView::Continue,
            TokenType::Mais => TokenTypeView::Mais,
            TokenType::Menos => TokenTypeView::Menos,
            TokenType::Multiplica => TokenTypeView::Multiplica,
            TokenType::Divide => TokenTypeView::Divide,
            TokenType::Igual => TokenTypeView::Igual,
            TokenType::IgualIgual => TokenTypeView::IgualIgual,
            TokenType::Diferente => TokenTypeView::Diferente,
            TokenType::Menor => TokenTypeView::Menor,
            TokenType::MenorIgual => TokenTypeView::MenorIgual,
            TokenType::Maior => TokenTypeView::Maior,
            TokenType::MaiorIgual => TokenTypeView::MaiorIgual,
            TokenType::AbrePar => TokenTypeView::AbrePar,
            TokenType::FechaPar => TokenTypeView::FechaPar,
            TokenType::AbreChave => TokenTypeView::AbreChave,
            TokenType::FechaChave => TokenTypeView::FechaChave,
            TokenType::AbreColchete => TokenTypeView::AbreColchete,
            TokenType::FechaColchete => TokenTypeView::FechaColchete,
            TokenType::Virgula => TokenTypeView::Virgula,
            TokenType::PontoVirgula => TokenTypeView::PontoVirgula,
            TokenType::Fim => TokenTypeView::Fim,
        }
    }
}

impl View for TokenType {
    type V = TokenTypeView;

    open spec fn view(&self) -> TokenTypeView {
        self.deep_view()
    }
}

impl Clone for TokenType {
    fn clone(&self) -> (r: TokenType)
        ensures
            r@ == self@,
    {
        match self {
            TokenType::Numero(s) => TokenType::Numero(s.clone()),
            TokenType::Texto(s) => TokenType::Texto(s.clone()),
            TokenType::Ident(s) => TokenType::Ident(s.clone()),
            TokenType::Variavel => TokenType::Variavel,
            TokenType::Funcao => TokenType::Funcao,
            TokenType::Se => TokenType::Se,
            TokenType::Senao => TokenType::Senao,
            TokenType::Enquanto => TokenType::Enquanto,
            TokenType::Para => TokenType::Para,
            TokenType::Retornar => TokenType::Retornar,
            TokenType::Imprimir => TokenType::Imprimir,
            TokenType::Verdadeiro => TokenType::Verdadeiro,
            TokenType::Falso => TokenType::Falso,
            TokenType::Nulo => TokenType::Nulo,
            TokenType::E => TokenType::E,
            TokenType::Ou => TokenType::Ou,
            TokenType::Nao => TokenType::Nao,
            TokenType::Break => TokenType::Break,
            TokenType::Continue => TokenType::Continue,
            TokenType::Mais => TokenType::Mais,
            TokenType::Menos => TokenType::Menos,
            TokenType::Multiplica => TokenType::Multiplica,
            TokenType::Divide => TokenType::Divide,
            TokenType::Igual => TokenType::Igual,
            TokenType::IgualIgual => TokenType::IgualIgual,
            TokenType::Diferente => TokenType::Diferente,
            TokenType::Menor => TokenType::Menor,
            TokenType::MenorIgual => TokenType::MenorIgual,
            TokenType::Maior => TokenType::Maior,
            TokenType::MaiorIgual => TokenType::MaiorIgual,
            TokenType::AbrePar => TokenType::AbrePar,
            TokenType::FechaPar => TokenType::FechaPar,
            TokenType::AbreChave => TokenType::AbreChave,
            TokenType::FechaChave => TokenType::FechaChave,
            TokenType::AbreColchete => TokenType::AbreColchete,
            TokenType::FechaColchete => TokenType::FechaColchete,
            TokenType::Virgula => TokenType::Virgula,
            TokenType::PontoVirgula => TokenType::PontoVirgula,
            TokenType::Fim => TokenType::Fim,
        }
    }
}

impl PartialEq for TokenType {
    /// Two kinds are equal when they are the same variant with the same text.
    fn eq(&self, other: &TokenType) -> (r: bool) {
        match (self, other) {
            (TokenType::Numero(a), TokenType::Numero(b)) => *a == *b,
            (TokenType::Texto(a), TokenType::Texto(b)) => *a == *b,
            (TokenType::Ident(a), TokenType::Ident(b)) => *a == *b,
            (TokenType::Variavel, TokenType::Variavel) => true,
            (TokenType::Funcao, TokenType::Funcao) => true,
            (TokenType::Se, TokenType::Se) => true,
            (TokenType::Senao, TokenType::Senao) => true,
            (TokenType::Enquanto, TokenType::Enquanto) => true,
            (TokenType::Para, TokenType::Para) => true,
            (TokenType::Retornar, TokenType::Retornar) => true,
            (TokenType::Imprimir, TokenType::Imprimir) => true,
            (TokenType::Verdadeiro, TokenType::Verdadeiro) => true,
            (TokenType::Falso, TokenType::Falso) => true,
            (TokenType::Nulo, TokenType::Nulo) => true,
            (TokenType::E, TokenType::E) => true,
            (TokenType::Ou, TokenType::Ou) => true,
            (TokenType::Nao, TokenType::Nao) => true,
            (TokenType::Break, TokenType::Break) => true,
            (TokenType::Continue, TokenType::Continue) => true,
            (TokenType::Mais, TokenType::Mais) => true,
            (TokenType::Menos, TokenType::Menos) => true,
            (TokenType::Multiplica, TokenType::Multiplica) => true,
            (TokenType::Divide, TokenType::Divide) => true,
            (TokenType::Igual, TokenType::Igual) => true,
            (TokenType::IgualIgual, TokenType::IgualIgual) => true,
            (TokenType::Diferente, TokenType::Diferente) => true,
            (TokenType::Menor, TokenType::Menor) => true,
            (TokenType::MenorIgual, TokenType::MenorIgual) => true,
            (TokenType::Maior, TokenType::Maior) => true,
            (TokenType::MaiorIgual, TokenType::MaiorIgual) => true,
            (TokenType::AbrePar, TokenType::AbrePar) => true,
            (TokenType::FechaPar, TokenType::FechaPar) => true,
            (TokenType::AbreChave, TokenType::AbreChave) => true,
            (TokenType::FechaChave, TokenType::FechaChave) => true,
            (TokenType::AbreColchete, TokenType::AbreColchete) => true,
            (TokenType::FechaColchete, TokenType::FechaColchete) => true,
            (TokenType::Virgula, TokenType::Virgula) => true,
            (TokenType::PontoVirgula, TokenType::PontoVirgula) => true,
            (TokenType::Fim, TokenType::Fim) => true,
            _ => false,
        }
    }
}

impl vstd::std_specs::cmp::PartialEqSpecImpl for TokenType {
    open spec fn obeys_eq_spec() -> bool {
        true
    }

    open spec fn eq_spec(&self, other: &TokenType) -> bool {
        self@ == other@
    }
}

/// A token: its kind, the text it was read from, and where it began.
#[derive(Debug)]
pub struct Token {
    pub tipo: TokenType,
    pub lexema: String,
    pub linha: usize,
    pub coluna: usize,
}

/// The mathematical value of a [`Token`].
pub struct TokenView {
    pub tipo: TokenTypeView,
    pub lexema: Seq<char>,
    pub linha: usize,
    pub coluna: usize,
}

impl DeepView for Token {
    type V = TokenView;

    open spec fn deep_view(&self) -> TokenView {
        TokenView {
            tipo: self.tipo@,
            lexema: self.lexema@,
            linha: self.linha,
            coluna: self.coluna,
        }
    }
}

impl View for Token {
    type V = TokenView;

    open spec fn view(&self) -> TokenView {
        self.deep_view()
    }
}

impl Clone for Token {
    fn clone(&self) -> (r: Token)
        ensures
            r@ == self@,
    {
        Token {
            tipo: self.tipo.clone(),
            lexema: self.lexema.clone(),
            linha: self.linha,
            coluna: self.coluna,
        }
    }
}

impl TokenView {
    /// A token that records its line only.
    pub open spec fn new(tipo: TokenTypeView, lexema: Seq<char>, linha: usize) -> TokenView {
        TokenView { tipo, lexema, linha, coluna: 0 }
    }
}

impl Token {
    /// A token that records its line only; its column is 0.
    pub fn new(tipo: TokenType, lexema: String, linha: usize) -> (r: Token)
        ensures
            r@ == TokenView::new(tipo@, lexema@, linha),
    {
        Token { tipo, lexema, linha, coluna: 0 }
    }

    /// A token that records line and column.
    pub fn with_column(tipo: TokenType, lexema: String, linha: usize, coluna: usize) -> (r: Token)
        ensures
            r@ == (TokenView { tipo: tipo@, lexema: lexema@, linha, coluna }),
    {
        Token { tipo, lexema, linha, coluna }
    }
}

} // verus!
