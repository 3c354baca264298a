//! The scanner: from characters to tokens.
//!
//! Scanning never fails. Blanks and `//` comments separate tokens; a
//! character that begins no token is passed over; a text that is not closed
//! ends with the input. The lexeme of a token is the piece of the source
//! that the token was read from.

use vstd::prelude::*;
use crate::keywords::{palavras_chave, spec_palavras_chave};
use crate::text::{chars_of, text_of};
use crate::tokens::{Token, TokenType, TokenTypeView, TokenView};

verus! {

/// Whether the character is alphabetic, as the standard library's Unicode
/// tables have it.
pub uninterp spec fn alphabetic(c: char) -> bool;

/// Whether the character is alphabetic or numeric, as the standard library's
/// Unicode tables have it.
pub uninterp spec fn alphanumeric(c: char) -> bool;

/// `char::is_alphabetic` of the standard library: the answer is a function
/// of the character alone.
pub assume_specification[ char::is_alphabetic ](c: char) -> (r: bool)
    ensures
        r == alphabetic(c),
;

/// `char::is_alphanumeric` of the standard library: the answer is a function
/// of the character alone.
pub assume_specification[ char::is_alphanumeric ](c: char) -> (r: bool)
    ensures
        r == alphanumeric(c),
;

/// Whether the character is one of the ten decimal digits.
pub open spec fn spec_is_digit(c: char) -> bool {
    '0' <= c && c <= '9'
}

/// Whether the character may stand in a numeral: a digit or the point.
pub open spec fn spec_numeral_char(c: char) -> bool {
    spec_is_digit(c) || c == '.'
}

/// Whether the character may begin an identifier.
pub open spec fn spec_ident_start(c: char) -> bool {
    alphabetic(c) || c == '_'
}

/// Whether the character may continue an identifier.
pub open spec fn spec_ident_char(c: char) -> bool {
    alphanumeric(c) || c == '_'
}

/// Whether the character is one of the ten decimal digits.
#[verifier::when_used_as_spec(spec_is_digit)]
pub fn is_digit(c: char) -> (r: bool)
    ensures
        r == spec_is_digit(c),
{
    '0' <= c && c <= '9'
}

/// Whether the character may stand in a numeral.
#[verifier::when_used_as_spec(spec_numeral_char)]
pub fn numeral_char(c: char) -> (r: bool)
    ensures
        r == spec_numeral_char(c),
{
    is_digit(c) || c == '.'
}

/// Whether the character may begin an identifier.
#[verifier::when_used_as_spec(spec_ident_start)]
pub fn ident_start(c: char) -> (r: bool)
    ensures
        r == spec_ident_start(c),
{
    c.is_alphabetic() || c == '_'
}

/// Whether the character may continue an identifier.
#[verifier::when_used_as_spec(spec_ident_char)]
pub fn ident_char(c: char) -> (r: bool)
    ensures
        r == spec_ident_char(c),
{
    c.is_alphanumeric() || c == '_'
}

/// Where the numeral that runs through `pos` ends.
pub open spec fn numeral_end(src: Seq<char>, pos: nat) -> nat
    decreases src.len() - pos,
{
    if pos < src.len() && spec_numeral_char(src[pos as int]) {
        numeral_end(src, pos + 1)
    } else {
        pos
    }
}

/// Where the identifier that runs through `pos` ends.
pub open spec fn ident_end(src: Seq<char>, pos: nat) -> nat
    decreases src.len() - pos,
{
    if pos < src.len() && spec_ident_char(src[pos as int]) {
        ident_end(src, pos + 1)
    } else {
        pos
    }
}

/// A scanner over a source text.
#[derive(Debug)]
pub struct Lexer {
    pub src: Vec<char>,
    pub pos: usize,
    pub linha: usize,
    pub coluna: usize,
}

/// The mathematical value of a [`Lexer`]: the text, the position of the next
/// character, and the line and column counted so far.
pub struct LexerView {
    pub src: Seq<char>,
    pub pos: nat,
    pub linha: nat,
    pub coluna: nat,
}

impl View for Lexer {
    type V = LexerView;

    open spec fn view(&self) -> LexerView {
        LexerView {
            src: self.src@,
            pos: self.pos as nat,
            linha: self.linha as nat,
            coluna: self.coluna as nat,
        }
    }
}

impl LexerView {
    /// A scanner at the start of a text, on line 1.
    pub open spec fn new(src: Seq<char>) -> LexerView {
        LexerView { src, pos: 0, linha: 1, coluna: 1 }
    }

    /// The next character, if the input has not ended.
    pub open spec fn peek(self) -> Option<char> {
        if self.pos < self.src.len() {
            Some(self.src[self.pos as int])
        } else {
            None
        }
    }

    /// The character after the next, if there is one.
    pub open spec fn peek_next(self) -> Option<char> {
        if self.pos + 1 < self.src.len() {
            Some(self.src[self.pos as int + 1])
        } else {
            None
        }
    }

    /// The scanner one character on; at the end of the input it stays.
    pub open spec fn advance(self) -> LexerView {
        if self.pos < self.src.len() {
            LexerView { pos: self.pos + 1, coluna: self.coluna + 1, ..self }
        } else {
            self
        }
    }

    /// The scanner moved on to `end` within the line.
    pub open spec fn advance_to(self, end: nat) -> LexerView {
        LexerView { pos: end, coluna: self.coluna + (end - self.pos) as nat, ..self }
    }

    /// The scanner past a line break: the line count goes up and the column
    /// count starts again.
    pub open spec fn pass_line_break(self) -> LexerView {
        LexerView { linha: self.linha + 1, coluna: 1, ..self }.advance()
    }

    /// The scanner after blanks and comments are passed over. Inside a
    /// comment everything up to the end of the line is passed over.
    pub open spec fn skip_blank(self, in_comment: bool) -> LexerView
        decreases self.src.len() - self.pos,
    {
        match self.peek() {
            None => self,
            Some(c) => if c == '\n' {
                self.pass_line_break().skip_blank(false)
            } else if in_comment {
                self.advance().skip_blank(true)
            } else if c == ' ' || c == '\r' || c == '\t' {
                self.advance().skip_blank(false)
            } else if c == '/' && self.peek_next() == Some('/') {
                self.advance().skip_blank(true)
            } else {
                self
            },
        }
    }

    /// The scanner at the quote that closes a text, or at the end of the
    /// input. Line breaks inside the text are counted.
    pub open spec fn text_end(self) -> LexerView
        decreases self.src.len() - self.pos,
    {
        match self.peek() {
            None => self,
            Some(c) => if c == '"' {
                self
            } else if c == '\n' {
                self.pass_line_break().text_end()
            } else {
                self.advance().text_end()
            },
        }
    }

    /// A token of a fixed spelling that begins here, and the scanner after it.
    pub open spec fn fixed(self, tipo: TokenTypeView, lexema: Seq<char>) -> (
        Option<TokenView>,
        LexerView,
    ) {
        (
            Some(TokenView::new(tipo, lexema, self.linha as usize)),
            self.advance_to(self.pos + lexema.len()),
        )
    }

    /// One of two tokens, by whether `=` follows the first character.
    pub open spec fn with_equals(
        self,
        with: TokenTypeView,
        with_lexema: Seq<char>,
        without: TokenTypeView,
        without_lexema: Seq<char>,
    ) -> (Option<TokenView>, LexerView) {
        if self.peek_next() == Some('=') {
            self.fixed(with, with_lexema)
        } else {
            self.fixed(without, without_lexema)
        }
    }

    /// The token that begins at the next character, if one does, and the
    /// scanner after it. There must be a next character.
    pub open spec fn scan(self) -> (Option<TokenView>, LexerView) {
        let c = self.src[self.pos as int];
        if c == '+' {
            self.fixed(TokenTypeView::Mais, "+"@)
        } else if c == '-' {
            self.fixed(TokenTypeView::Menos, "-"@)
        } else if c == '*' {
            self.fixed(TokenTypeView::Multiplica, "*"@)
        } else if c == '/' {
            self.fixed(TokenTypeView::Divide, "/"@)
        } else if c == '(' {
            self.fixed(TokenTypeView::AbrePar, "("@)
        } else if c == ')' {
            self.fixed(TokenTypeView::FechaPar, ")"@)
        } else if c == '{' {
            self.fixed(TokenTypeView::AbreChave, "{"@)
        } else if c == '}' {
            self.fixed(TokenTypeView::FechaChave, "}"@)
        } else if c == '[' {
            self.fixed(TokenTypeView::AbreColchete, "["@)
        } else if c == ']' {
            self.fixed(TokenTypeView::FechaColchete, "]"@)
        } else if c == ';' {
            self.fixed(TokenTypeView::PontoVirgula, ";"@)
        } else if c == ',' {
            self.fixed(TokenTypeView::Virgula, ","@)
        } else if c == '=' {
            self.with_equals(TokenTypeView::IgualIgual, "=="@, TokenTypeView::Igual, "="@)
        } else if c == '!' {
            self.with_equals(TokenTypeView::Diferente, "!="@, TokenTypeView::Nao, "!"@)
        } else if c == '<' {
            self.with_equals(TokenTypeView::MenorIgual, "<="@, TokenTypeView::Menor, "<"@)
        } else if c == '>' {
            self.with_equals(TokenTypeView::MaiorIgual, ">="@, TokenTypeView::Maior, ">"@)
        } else if c == '"' {
            let end = self.advance().text_end();
            let content = self.src.subrange(self.pos as int + 1, end.pos as int);
            (
                Some(
                    TokenView::new(
                        TokenTypeView::Texto(content),
                        self.src.subrange(self.pos as int, end.advance().pos as int),
                        self.linha as usize,
                    ),
                ),
                end.advance(),
            )
        } else if spec_is_digit(c) {
            let end = numeral_end(self.src, self.pos);
            let numeral = self.src.subrange(self.pos as int, end as int);
            (
                Some(
                    TokenView::new(TokenTypeView::Numero(numeral), numeral, self.linha as usize),
                ),
                self.advance_to(end),
            )
        } else if spec_ident_start(c) {
            let end = ident_end(self.src, self.pos + 1);
            let word = self.src.subrange(self.pos as int, end as int);
            (
                Some(
                    TokenView::new(
                        match spec_palavras_chave(word) {
                            Some(k) => k,
                            None => TokenTypeView::Ident(word),
                        },
                        word,
                        self.linha as usize,
                    ),
                ),
                self.advance_to(end),
            )
        } else {
            (None, self.advance())
        }
    }

    /// The tokens from here to the end of the input, closed by the
    /// end-of-input token, and the scanner at the end.
    pub open spec fn scan_all(self) -> (Seq<TokenView>, LexerView)
        decreases self.src.len() - self.pos,
    {
        let s = self.skip_blank(false);
        if s.pos >= s.src.len() {
            (seq![TokenView::new(TokenTypeView::Fim, Seq::empty(), s.linha as usize)], s)
        } else {
            let (t, after) = s.scan();
            proof {
                self.lemma_skip_blank(false);
                s.lemma_scan();
            }
            let (rest, end) = after.scan_all();
            (
                match t {
                    Some(t) => seq![t] + rest,
                    None => rest,
                },
                end,
            )
        }
    }

    /// Passing over blanks keeps the text and never goes back.
    pub proof fn lemma_skip_blank(self, in_comment: bool)
        ensures
            self.skip_blank(in_comment).src == self.src,
            self.pos <= self.skip_blank(in_comment).pos,
            self.pos <= self.src.len() ==> self.skip_blank(in_comment).pos <= self.src.len(),
        decreases self.src.len() - self.pos,
    {
        match self.peek() {
            None => {},
            Some(c) => {
                if c == '\n' {
                    self.pass_line_break().lemma_skip_blank(false);
                } else if in_comment {
                    self.advance().lemma_skip_blank(true);
                } else if c == ' ' || c == '\r' || c == '\t' {
                    self.advance().lemma_skip_blank(false);
                } else if c == '/' && self.peek_next() == Some('/') {
                    self.advance().lemma_skip_blank(true);
                }
            },
        }
    }

    /// The end of a text lies at or after its start, within the same text.
    pub proof fn lemma_text_end(self)
        ensures
            self.text_end().src == self.src,
            self.pos <= self.text_end().pos,
            self.pos <= self.src.len() ==> self.text_end().pos <= self.src.len(),
            self.text_end().peek() is None || self.text_end().peek() == Some('"'),
        decreases self.src.len() - self.pos,
    {
        match self.peek() {
            None => {},
            Some(c) => {
                if c == '"' {
                } else if c == '\n' {
                    self.pass_line_break().lemma_text_end();
                } else {
                    self.advance().lemma_text_end();
                }
            },
        }
    }

    /// Scanning one token keeps the text and moves on by at least one
    /// character.
    pub proof fn lemma_scan(self)
        requires
            self.pos < self.src.len(),
        ensures
            self.scan().1.src == self.src,
            self.pos < self.scan().1.pos <= self.src.len(),
    {
        reveal_strlit("+");
        reveal_strlit("-");
        reveal_strlit("*");
        reveal_strlit("/");
        reveal_strlit("(");
        reveal_strlit(")");
        reveal_strlit("{");
        reveal_strlit("}");
        reveal_strlit("[");
        reveal_strlit("]");
        reveal_strlit(";");
        reveal_strlit(",");
        reveal_strlit("=");
        reveal_strlit("==");
        reveal_strlit("!");
        reveal_strlit("!=");
        reveal_strlit("<");
        reveal_strlit("<=");
        reveal_strlit(">");
        reveal_strlit(">=");
        self.advance().lemma_text_end();
        lemma_numeral_end(self.src, self.pos);
        lemma_ident_end(self.src, self.pos + 1);
    }
}

/// A numeral ends at or after its start, within the text.
pub proof fn lemma_numeral_end(src: Seq<char>, pos: nat)
    ensures
        pos <= numeral_end(src, pos),
        pos <= src.len() ==> numeral_end(src, pos) <= src.len(),
        pos < src.len() && spec_numeral_char(src[pos as int]) ==> pos < numeral_end(src, pos),
    decreases src.len() - pos,
{
    if pos < src.len() && spec_numeral_char(src[pos as int]) {
        lemma_numeral_end(src, pos + 1);
    }
}

/// An identifier ends at or after its start, within the text.
pub proof fn lemma_ident_end(src: Seq<char>, pos: nat)
    ensures
        pos <= ident_end(src, pos),
        pos <= src.len() ==> ident_end(src, pos) <= src.len(),
        pos < src.len() && spec_ident_char(src[pos as int]) ==> pos < ident_end(src, pos),
    decreases src.len() - pos,
{
    if pos < src.len() && spec_ident_char(src[pos as int]) {
        lemma_ident_end(src, pos + 1);
    }
}

impl Lexer {
    /// The scanner is within its text, and the counts of line and column
    /// have not outrun the position.
    pub open spec fn wf(&self) -> bool {
        &&& self.pos <= self.src.len()
        &&& self.src.len() < usize::MAX
        &&& self.linha <= self.pos + 1
        &&& self.coluna <= self.pos + 1
    }

    /// A scanner at the start of `s`.
    pub fn new(s: &str) -> (r: Lexer)
        ensures
            r@ == LexerView::new(s@),
            r.wf(),
    {
        let mut src = chars_of(s);
        // A vector that takes one more element was shorter than the
        // largest count, so the counts of line and column have room.
        src.push('\n');
        assert(src.len() == s@.len() + 1);
        src.pop();
        assert(src@ =~= s@);
        Lexer { src, pos: 0, linha: 1, coluna: 1 }
    }

    /// The next character, if the input has not ended.
    pub fn espiar(&self) -> (r: Option<char>)
        ensures
            r == self@.peek(),
    {
        if self.pos < self.src.len() {
            Some(self.src[self.pos])
        } else {
            None
        }
    }

    /// The character after the next, if there is one.
    fn espiar_seguinte(&self) -> (r: Option<char>)
        requires
            self.wf(),
        ensures
            r == self@.peek_next(),
    {
        if self.pos + 1 < self.src.len() {
            Some(self.src[self.pos + 1])
        } else {
            None
        }
    }

    /// Moves one character on and returns the character passed; at the end
    /// of the input nothing moves.
    pub fn avancar(&mut self) -> (r: Option<char>)
        requires
            old(self).wf(),
        ensures
            final(self).wf(),
            final(self)@ == old(self)@.advance(),
            r == old(self)@.peek(),
    {
        let c = self.espiar();
        if c.is_some() {
            self.pos += 1;
            self.coluna += 1;
        }
        c
    }

    /// Moves one character on if the next character is the expected one.
    pub fn combinar(&mut self, esperado: char) -> (r: bool)
        requires
            old(self).wf(),
        ensures
            final(self).wf(),
            r == (old(self)@.peek() == Some(esperado)),
            final(self)@ == if r {
                old(self)@.advance()
            } else {
                old(self)@
            },
    {
        match self.espiar() {
            Some(c) => {
                if c == esperado {
                    self.pos += 1;
                    self.coluna += 1;
                    return true;
                }
                false
            },
            None => false,
        }
    }

    /// Passes a line break.
    fn passar_quebra(&mut self)
        requires
            old(self).wf(),
            old(self).pos < old(self).src.len(),
        ensures
            final(self).wf(),
            final(self)@ == old(self)@.pass_line_break(),
    {
        self.linha += 1;
        self.coluna = 1;
        self.pos += 1;
        self.coluna += 1;
    }

    /// Passes over blanks and comments.
    pub fn pular_espacos(&mut self)
        requires
            old(self).wf(),
        ensures
            final(self).wf(),
            final(self)@ == old(self)@.skip_blank(false),
    {
        let mut in_comment = false;
        loop
            invariant
                self.wf(),
                self@.skip_blank(in_comment) == old(self)@.skip_blank(false),
            decreases self.src.len() - self.pos,
        {
            match self.espiar() {
                None => {
                    return ;
                },
                Some(c) => {
                    if c == '\n' {
                        self.passar_quebra();
                        in_comment = false;
                    } else if in_comment {
                        self.avancar();
                    } else if c == ' ' || c == '\r' || c == '\t' {
                        self.avancar();
                    } else if c == '/' && self.espiar_seguinte() == Some('/') {
                        self.avancar();
                        in_comment = true;
                    } else {
                        return ;
                    }
                },
            }
        }
    }

    /// Reads a token of a fixed spelling.
    fn fixo(&mut self, tipo: TokenType, lexema: &str) -> (r: Option<Token>)
        requires
            old(self).wf(),
            old(self).pos + lexema@.len() <= old(self).src.len(),
        ensures
            final(self).wf(),
            (r.deep_view(), final(self)@) == old(self)@.fixed(tipo@, lexema@),
    {
        let n = lexema.unicode_len();
        let linha = self.linha;
        self.pos += n;
        self.coluna += n;
        Some(Token::new(tipo, text_of(lexema), linha))
    }

    /// Reads a text: the opening quote is next.
    fn ler_texto(&mut self) -> (r: Option<Token>)
        requires
            old(self).wf(),
            old(self)@.peek() == Some('"'),
        ensures
            final(self).wf(),
            (r.deep_view(), final(self)@) == old(self)@.scan(),
    {
        let linha = self.linha;
        self.avancar();
        let ghost start = self@;
        let mut s = String::new();
        loop
            invariant
                self.wf(),
                self@.src == start.src,
                start.pos <= self@.pos,
                self@.text_end() == start.text_end(),
                s@ == start.src.subrange(start.pos as int, self@.pos as int),
            ensures
                self@ == start.text_end(),
            decreases self.src.len() - self.pos,
        {
            match self.espiar() {
                None => {
                    break ;
                },
                Some(c) => {
                    if c == '"' {
                        break ;
                    }
                    s.push(c);
                    if c == '\n' {
                        self.passar_quebra();
                    } else {
                        self.avancar();
                    }
                    assert(s@ =~= start.src.subrange(start.pos as int, self@.pos as int));
                },
            }
        }
        assert(self@ == start.text_end());
        let mut lexema = text_of("\"");
        lexema.append(s.as_str());
        proof {
            reveal_strlit("\"");
            start.lemma_text_end();
        }
        assert(old(self)@.src[old(self)@.pos as int] == '"');
        assert(start == old(self)@.advance());
        assert(lexema@ =~= start.src.subrange(start.pos - 1, self@.pos as int));
        let ghost end = self@;
        if self.combinar('"') {
            lexema.push('"');
            assert(lexema@ =~= start.src.subrange(start.pos - 1, self@.pos as int));
        }
        assert(self@ == end.advance());
        assert(lexema@ == old(self)@.src.subrange(old(self)@.pos as int, self@.pos as int));
        Some(Token::new(TokenType::Texto(s), lexema, linha))
    }

    /// Reads a numeral: its first digit is next.
    fn ler_numero(&mut self) -> (r: Option<Token>)
        requires
            old(self).wf(),
            old(self).pos < old(self).src.len(),
            spec_is_digit(old(self).src[old(self).pos as int]),
        ensures
            final(self).wf(),
            r.deep_view() == Some(
                TokenView::new(
                    TokenTypeView::Numero(
                        old(self)@.src.subrange(
                            old(self).pos as int,
                            numeral_end(old(self)@.src, old(self)@.pos) as int,
                        ),
                    ),
                    old(self)@.src.subrange(
                        old(self).pos as int,
                        numeral_end(old(self)@.src, old(self)@.pos) as int,
                    ),
                    old(self).linha,
                ),
            ),
            final(self)@ == old(self)@.advance_to(numeral_end(old(self)@.src, old(self)@.pos)),
    {
        let linha = self.linha;
        let mut num = String::new();
        while self.pos < self.src.len() && numeral_char(self.src[self.pos])
            invariant
                self.wf(),
                self.src == old(self).src,
                self.linha == old(self).linha,
                old(self).pos <= self.pos,
                self.coluna == old(self).coluna + (self.pos - old(self).pos),
                numeral_end(self@.src, self@.pos) == numeral_end(old(self)@.src, old(self)@.pos),
                num@ == self@.src.subrange(old(self).pos as int, self.pos as int),
            decreases self.src.len() - self.pos,
        {
            num.push(self.src[self.pos]);
            self.pos += 1;
            self.coluna += 1;
            assert(num@ =~= self@.src.subrange(old(self).pos as int, self.pos as int));
        }
        Some(Token::new(TokenType::Numero(num.clone()), num, linha))
    }

    /// Reads an identifier or a reserved word: its first character is next.
    fn ler_palavra(&mut self) -> (r: Option<Token>)
        requires
            old(self).wf(),
            old(self).pos < old(self).src.len(),
        ensures
            final(self).wf(),
            r.deep_view() == Some(
                TokenView::new(
                    match spec_palavras_chave(
                        old(self)@.src.subrange(
                            old(self).pos as int,
                            ident_end(old(self)@.src, old(self)@.pos + 1) as int,
                        ),
                    ) {
                        Some(k) => k,
                        None => TokenTypeView::Ident(
                            old(self)@.src.subrange(
                                old(self).pos as int,
                                ident_end(old(self)@.src, old(self)@.pos + 1) as int,
                            ),
                        ),
                    },
                    old(self)@.src.subrange(
                        old(self).pos as int,
                        ident_end(old(self)@.src, old(self)@.pos + 1) as int,
                    ),
                    old(self).linha,
                ),
            ),
            final(self)@ == old(self)@.advance_to(ident_end(old(self)@.src, old(self)@.pos + 1)),
    {
        let linha = self.linha;
        let mut id = String::new();
        id.push(self.src[self.pos]);
        self.pos += 1;
        self.coluna += 1;
        assert(id@ =~= self@.src.subrange(old(self).pos as int, self.pos as int));
        while self.pos < self.src.len() && ident_char(self.src[self.pos])
            invariant
                self.wf(),
                self.src == old(self).src,
                self.linha == old(self).linha,
                old(self).pos < self.pos,
                self.coluna == old(self).coluna + (self.pos - old(self).pos),
                ident_end(self@.src, self@.pos) == ident_end(old(self)@.src, old(self)@.pos + 1),
                id@ == self@.src.subrange(old(self).pos as int, self.pos as int),
            decreases self.src.len() - self.pos,
        {
            id.push(self.src[self.pos]);
            self.pos += 1;
            self.coluna += 1;
            assert(id@ =~= self@.src.subrange(old(self).pos as int, self.pos as int));
        }
        let tipo = match palavras_chave(&id) {
            Some(k) => k,
            None => TokenType::Ident(id.clone()),
        };
        Some(Token::new(tipo, id, linha))
    }

    /// Reads the token that begins at the next character, if one does.
    pub fn proximo(&mut self) -> (r: Option<Token>)
        requires
            old(self).wf(),
            old(self).pos < old(self).src.len(),
        ensures
            final(self).wf(),
            (r.deep_view(), final(self)@) == old(self)@.scan(),
    {
        proof {
            reveal_strlit("+");
            reveal_strlit("-");
            reveal_strlit("*");
            reveal_strlit("/");
            reveal_strlit("(");
            reveal_strlit(")");
            reveal_strlit("{");
            reveal_strlit("}");
            reveal_strlit("[");
            reveal_strlit("]");
            reveal_strlit(";");
            reveal_strlit(",");
            reveal_strlit("=");
            reveal_strlit("==");
            reveal_strlit("!");
            reveal_strlit("!=");
            reveal_strlit("<");
            reveal_strlit("<=");
            reveal_strlit(">");
            reveal_strlit(">=");
        }
        let c = self.src[self.pos];
        let eq = self.espiar_seguinte() == Some('=');
        if c == '+' {
            self.fixo(TokenType::Mais, "+")
        } else if c == '-' {
            self.fixo(TokenType::Menos, "-")
        } else if c == '*' {
            self.fixo(TokenType::Multiplica, "*")
        } else if c == '/' {
            self.fixo(TokenType::Divide, "/")
        } else if c == '(' {
            self.fixo(TokenType::AbrePar, "(")
        } else if c == ')' {
            self.fixo(TokenType::FechaPar, ")")
        } else if c == '{' {
            self.fixo(TokenType::AbreChave, "{")
        } else if c == '}' {
            self.fixo(TokenType::FechaChave, "}")
        } else if c == '[' {
            self.fixo(TokenType::AbreColchete, "[")
        } else if c == ']' {
            self.fixo(TokenType::FechaColchete, "]")
        } else if c == ';' {
            self.fixo(TokenType::PontoVirgula, ";")
        } else if c == ',' {
            self.fixo(TokenType::Virgula, ",")
        } else if c == '=' {
            if eq {
                self.fixo(TokenType::IgualIgual, "==")
            } else {
                self.fixo(TokenType::Igual, "=")
            }
        } else if c == '!' {
            if eq {
                self.fixo(TokenType::Diferente, "!=")
            } else {
                self.fixo(TokenType::Nao, "!")
            }
        } else if c == '<' {
            if eq {
                self.fixo(TokenType::MenorIgual, "<=")
            } else {
                self.fixo(TokenType::Menor, "<")
            }
        } else if c == '>' {
            if eq {
                self.fixo(TokenType::MaiorIgual, ">=")
            } else {
                self.fixo(TokenType::Maior, ">")
            }
        } else if c == '"' {
            self.ler_texto()
        } else if is_digit(c) {
            self.ler_numero()
        } else if ident_start(c) {
            self.ler_palavra()
        } else {
            self.avancar();
            None
        }
    }

    /// Reads all tokens from here to the end of the input. The last token
    /// is always the end-of-input token.
    pub fn tokenize(&mut self) -> (r: Vec<Token>)
        requires
            old(self).wf(),
        ensures
            final(self).wf(),
            (r.deep_view(), final(self)@) == old(self)@.scan_all(),
    {
        let mut tokens: Vec<Token> = Vec::new();
        loop
            invariant
                self.wf(),
                old(self)@.scan_all() == (tokens.deep_view() + self@.scan_all().0, self@.scan_all().1),
            ensures
                self.pos >= self.src.len(),
                old(self)@.scan_all() == (
                    tokens.deep_view().push(
                        TokenView::new(TokenTypeView::Fim, Seq::empty(), self.linha),
                    ),
                    self@,
                ),
            decreases self.src.len() - self.pos,
        {
            let ghost round = self@;
            proof {
                round.lemma_skip_blank(false);
            }
            self.pular_espacos();
            if self.pos >= self.src.len() {
                assert(tokens.deep_view() + round.scan_all().0 =~= tokens.deep_view().push(
                    TokenView::new(TokenTypeView::Fim, Seq::empty(), self.linha),
                ));
                break ;
            }
            proof {
                self@.lemma_scan();
            }
            let ghost before = tokens.deep_view();
            match self.proximo() {
                Some(t) => {
                    tokens.push(t);
                    assert(tokens.deep_view() =~= before + seq![t@]);
                    assert(before + (seq![t@] + self@.scan_all().0) =~= tokens.deep_view()
                        + self@.scan_all().0);
                },
                None => {},
            }
        }
        let ghost before = tokens.deep_view();
        let fim = Token::new(TokenType::Fim, String::new(), self.linha);
        tokens.push(fim);
        assert(tokens.deep_view() =~= before.push(fim@));
        tokens
    }
}

} // verus!
