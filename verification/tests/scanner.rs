use lucas::lexer::Lexer;
use lucas::tokens::{Token, TokenType};

fn scan(source: &str) -> Vec<Token> {
    Lexer::new(source).tokenize()
}

fn kinds(source: &str) -> Vec<TokenType> {
    scan(source).into_iter().map(|t| t.tipo).collect()
}

fn numero(s: &str) -> TokenType {
    TokenType::Numero(s.to_string())
}

fn ident(s: &str) -> TokenType {
    TokenType::Ident(s.to_string())
}

#[test]
fn empty_source_gives_end_of_input_only() {
    let tokens = scan("");
    assert_eq!(tokens.len(), 1);
    assert_eq!(tokens[0].tipo, TokenType::Fim);
    assert_eq!(tokens[0].lexema, "");
    assert_eq!(tokens[0].linha, 1);
    assert_eq!(tokens[0].coluna, 0);
}

#[test]
fn arithmetic_tokens() {
    assert_eq!(
        kinds("2 + 3 * 4"),
        vec![numero("2"), TokenType::Mais, numero("3"), TokenType::Multiplica, numero("4"), TokenType::Fim]
    );
}

#[test]
fn every_punctuation_token() {
    assert_eq!(
        kinds("+ - * / ( ) { } [ ] ; ,"),
        vec![
            TokenType::Mais,
            TokenType::Menos,
            TokenType::Multiplica,
            TokenType::Divide,
            TokenType::AbrePar,
            TokenType::FechaPar,
            TokenType::AbreChave,
            TokenType::FechaChave,
            TokenType::AbreColchete,
            TokenType::FechaColchete,
            TokenType::PontoVirgula,
            TokenType::Virgula,
            TokenType::Fim,
        ]
    );
}

#[test]
fn two_character_operators_look_one_ahead() {
    assert_eq!(
        kinds("= == ! != < <= > >="),
        vec![
            TokenType::Igual,
            TokenType::IgualIgual,
            TokenType::Nao,
            TokenType::Diferente,
            TokenType::Menor,
            TokenType::MenorIgual,
            TokenType::Maior,
            TokenType::MaiorIgual,
            TokenType::Fim,
        ]
    );
    assert_eq!(kinds("==="), vec![TokenType::IgualIgual, TokenType::Igual, TokenType::Fim]);
    assert_eq!(kinds("!x"), vec![TokenType::Nao, ident("x"), TokenType::Fim]);
}

#[test]
fn lexemes_are_the_source_text() {
    let tokens = scan("x1 >= 10.5");
    let lexemes: Vec<&str> = tokens.iter().map(|t| t.lexema.as_str()).collect();
    assert_eq!(lexemes, vec!["x1", ">=", "10.5", ""]);
}

#[test]
fn keywords_are_not_identifiers() {
    assert_eq!(
        kinds("variavel se senao enquanto para funcao retornar verdadeiro falso imprimir e ou nao nulo"),
        vec![
            TokenType::Variavel,
            TokenType::Se,
            TokenType::Senao,
            TokenType::Enquanto,
            TokenType::Para,
            TokenType::Funcao,
            TokenType::Retornar,
            TokenType::Verdadeiro,
            TokenType::Falso,
            TokenType::Imprimir,
            TokenType::E,
            TokenType::Ou,
            TokenType::Nao,
            TokenType::Nulo,
            TokenType::Fim,
        ]
    );
    assert_eq!(kinds("quebrar continuar"), vec![TokenType::Break, TokenType::Continue, TokenType::Fim]);
}

#[test]
fn identifiers_may_hold_digits_and_underscores() {
    assert_eq!(
        kinds("_a b_2 variavel1 sea"),
        vec![ident("_a"), ident("b_2"), ident("variavel1"), ident("sea"), TokenType::Fim]
    );
}

#[test]
fn identifiers_may_hold_letters_beyond_ascii() {
    assert_eq!(kinds("ação"), vec![ident("ação"), TokenType::Fim]);
}

#[test]
fn numerals_keep_their_text() {
    assert_eq!(kinds("12 3.5"), vec![numero("12"), numero("3.5"), TokenType::Fim]);
    assert_eq!(kinds("1.2.3"), vec![numero("1.2.3"), TokenType::Fim]);
    assert_eq!(kinds("7."), vec![numero("7."), TokenType::Fim]);
    assert_eq!(kinds(".5"), vec![numero("5"), TokenType::Fim]);
}

#[test]
fn a_numeral_ends_where_a_letter_begins() {
    assert_eq!(kinds("12abc"), vec![numero("12"), ident("abc"), TokenType::Fim]);
}

#[test]
fn texts_lose_their_quotes_in_the_payload_only() {
    let tokens = scan("\"ola mundo\"");
    assert_eq!(tokens[0].tipo, TokenType::Texto("ola mundo".to_string()));
    assert_eq!(tokens[0].lexema, "\"ola mundo\"");
    assert_eq!(tokens[1].tipo, TokenType::Fim);
}

#[test]
fn an_empty_text() {
    assert_eq!(kinds("\"\""), vec![TokenType::Texto(String::new()), TokenType::Fim]);
}

#[test]
fn an_unterminated_text_ends_with_the_input() {
    let tokens = scan("\"abc");
    assert_eq!(tokens.len(), 2);
    assert_eq!(tokens[0].tipo, TokenType::Texto("abc".to_string()));
    assert_eq!(tokens[0].lexema, "\"abc");
    assert_eq!(tokens[1].tipo, TokenType::Fim);
    let tokens = scan("x \"");
    assert_eq!(tokens[1].tipo, TokenType::Texto(String::new()));
    assert_eq!(tokens[1].lexema, "\"");
}

#[test]
fn the_lexeme_of_a_text_is_its_source() {
    for source in ["\"\"", "\"a b\"", "\"a\nb\"", "\"nao fecha", "\""] {
        let tokens = scan(source);
        assert_eq!(tokens.len(), 2);
        assert_eq!(tokens[0].lexema, source);
    }
}

#[test]
fn a_text_may_span_lines() {
    let tokens = scan("\"a\nb\" x");
    assert_eq!(tokens[0].tipo, TokenType::Texto("a\nb".to_string()));
    assert_eq!(tokens[0].linha, 1);
    assert_eq!(tokens[1].tipo, ident("x"));
    assert_eq!(tokens[1].linha, 2);
}

#[test]
fn comments_run_to_the_end_of_the_line() {
    assert_eq!(kinds("1 // dois tres\n4"), vec![numero("1"), numero("4"), TokenType::Fim]);
    assert_eq!(kinds("// so isto"), vec![TokenType::Fim]);
    assert_eq!(kinds("1 / 2"), vec![numero("1"), TokenType::Divide, numero("2"), TokenType::Fim]);
}

#[test]
fn a_slash_at_the_end_is_a_division_sign() {
    assert_eq!(kinds("/"), vec![TokenType::Divide, TokenType::Fim]);
}

#[test]
fn lines_are_counted() {
    let tokens = scan("a\nb\n\n  c // fim\n");
    let lines: Vec<usize> = tokens.iter().map(|t| t.linha).collect();
    assert_eq!(lines, vec![1, 2, 4, 5]);
}

#[test]
fn columns_are_not_recorded() {
    let tokens = scan("   abc");
    assert_eq!(tokens[0].coluna, 0);
}

#[test]
fn unknown_characters_are_passed_over() {
    assert_eq!(kinds("1 @ 2 # $ 3"), vec![numero("1"), numero("2"), numero("3"), TokenType::Fim]);
    assert_eq!(kinds("a.b"), vec![ident("a"), ident("b"), TokenType::Fim]);
}

#[test]
fn blanks_of_all_kinds_separate_tokens() {
    assert_eq!(kinds(" \t\r\n1\t2\r\n"), vec![numero("1"), numero("2"), TokenType::Fim]);
}

#[test]
fn the_scanner_moves_by_single_characters() {
    let mut lexer = Lexer::new("ab");
    assert_eq!(lexer.espiar(), Some('a'));
    assert_eq!(lexer.avancar(), Some('a'));
    assert_eq!(lexer.pos, 1);
    assert_eq!(lexer.coluna, 2);
    assert!(!lexer.combinar('x'));
    assert_eq!(lexer.pos, 1);
    assert!(lexer.combinar('b'));
    assert_eq!(lexer.pos, 2);
    assert_eq!(lexer.espiar(), None);
    assert_eq!(lexer.avancar(), None);
    assert_eq!(lexer.pos, 2);
}

#[test]
fn passing_over_blanks_stops_at_the_first_token() {
    let mut lexer = Lexer::new("  // nota\n\n  x");
    lexer.pular_espacos();
    assert_eq!(lexer.espiar(), Some('x'));
    assert_eq!(lexer.linha, 3);
    lexer.pular_espacos();
    assert_eq!(lexer.espiar(), Some('x'));
}

#[test]
fn token_constructors() {
    let a = Token::new(TokenType::Mais, "+".to_string(), 3);
    assert_eq!((a.linha, a.coluna), (3, 0));
    let b = Token::with_column(TokenType::Mais, "+".to_string(), 3, 9);
    assert_eq!((b.linha, b.coluna), (3, 9));
    assert_eq!(b.lexema, "+");
}
