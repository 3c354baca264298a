use lucas::ast::{BinOp, Expr, Stmt, UnarioOp};
use lucas::interpreter::parse_source;
use lucas::keywords::palavras_chave;
use lucas::lexer::Lexer;
use lucas::parser::Parser;
use lucas::tokens::TokenType;

fn parse(source: &str) -> Vec<Stmt> {
    let tokens = Lexer::new(source).tokenize();
    Parser::new(tokens).parse()
}

fn shown(stmts: &[Stmt]) -> String {
    format!("{:?}", stmts)
}

fn expr(source: &str) -> Expr {
    let mut stmts = parse(source);
    assert_eq!(stmts.len(), 1, "one statement expected in {:?}", source);
    match stmts.remove(0) {
        Stmt::ExprStmt(e) => e,
        other => panic!("expression statement expected, found {:?}", other),
    }
}

fn num(s: &str) -> Expr {
    Expr::Numero(s.to_string())
}

fn var(s: &str) -> Expr {
    Expr::Var(s.to_string())
}

fn bin(l: Expr, op: BinOp, r: Expr) -> Expr {
    Expr::Binario(Box::new(l), op, Box::new(r))
}

fn same(a: &Expr, b: &Expr) -> bool {
    format!("{:?}", a) == format!("{:?}", b)
}

#[test]
fn multiplication_binds_tighter_than_addition() {
    let e = expr("2 + 3 * 4");
    assert!(same(&e, &bin(num("2"), BinOp::Add, bin(num("3"), BinOp::Mul, num("4")))));
    let e = expr("2 * 3 + 4");
    assert!(same(&e, &bin(bin(num("2"), BinOp::Mul, num("3")), BinOp::Add, num("4"))));
}

#[test]
fn brackets_override_precedence() {
    let e = expr("(2 + 3) * 4");
    assert!(same(&e, &bin(bin(num("2"), BinOp::Add, num("3")), BinOp::Mul, num("4"))));
}

#[test]
fn operators_of_one_level_associate_to_the_left() {
    let e = expr("10 - 4 - 3");
    assert!(same(&e, &bin(bin(num("10"), BinOp::Sub, num("4")), BinOp::Sub, num("3"))));
    let e = expr("8 / 4 / 2");
    assert!(same(&e, &bin(bin(num("8"), BinOp::Div, num("4")), BinOp::Div, num("2"))));
    let e = expr("1 - 2 + 3");
    assert!(same(&e, &bin(bin(num("1"), BinOp::Sub, num("2")), BinOp::Add, num("3"))));
}

#[test]
fn all_six_levels_in_one_expression() {
    let e = expr("a ou b e c == d < h + f * g");
    let expected = bin(
        var("a"),
        BinOp::Or,
        bin(
            var("b"),
            BinOp::And,
            bin(
                var("c"),
                BinOp::Eq,
                bin(var("d"), BinOp::Lt, bin(var("h"), BinOp::Add, bin(var("f"), BinOp::Mul, var("g")))),
            ),
        ),
    );
    assert!(same(&e, &expected));
}

#[test]
fn every_infix_operator() {
    for (text, op) in [
        ("+", BinOp::Add),
        ("-", BinOp::Sub),
        ("*", BinOp::Mul),
        ("/", BinOp::Div),
        ("==", BinOp::Eq),
        ("!=", BinOp::Neq),
        ("<", BinOp::Lt),
        (">", BinOp::Gt),
        ("<=", BinOp::Le),
        (">=", BinOp::Ge),
        ("e", BinOp::And),
        ("ou", BinOp::Or),
    ] {
        let e = expr(&format!("a {} b", text));
        assert!(same(&e, &bin(var("a"), op, var("b"))), "operator {}", text);
    }
}

#[test]
fn prefix_operators_nest() {
    let e = expr("- - 1");
    let expected = Expr::Unario(UnarioOp::Neg, Box::new(Expr::Unario(UnarioOp::Neg, Box::new(num("1")))));
    assert!(same(&e, &expected));
    let e = expr("nao !x");
    let expected = Expr::Unario(UnarioOp::Nao, Box::new(Expr::Unario(UnarioOp::Nao, Box::new(var("x")))));
    assert!(same(&e, &expected));
    let e = expr("-a * b");
    assert!(same(&e, &bin(Expr::Unario(UnarioOp::Neg, Box::new(var("a"))), BinOp::Mul, var("b"))));
}

#[test]
fn literals() {
    assert!(same(&expr("verdadeiro"), &Expr::Bool(true)));
    assert!(same(&expr("falso"), &Expr::Bool(false)));
    assert!(same(&expr("nulo"), &Expr::Nulo));
    assert!(same(&expr("\"oi\""), &Expr::Texto("oi".to_string())));
    assert!(same(&expr("1.5"), &num("1.5")));
}

#[test]
fn calls_chain_after_a_primary() {
    let e = expr("f()");
    assert!(same(&e, &Expr::Chamada(Box::new(var("f")), vec![])));
    let e = expr("f(1, x + 2)");
    assert!(same(&e, &Expr::Chamada(Box::new(var("f")), vec![num("1"), bin(var("x"), BinOp::Add, num("2"))])));
    let e = expr("f(1)(2)");
    let inner = Expr::Chamada(Box::new(var("f")), vec![num("1")]);
    assert!(same(&e, &Expr::Chamada(Box::new(inner), vec![num("2")])));
}

#[test]
fn indices_chain_after_a_primary() {
    let e = expr("a[0]");
    assert!(same(&e, &Expr::Index(Box::new(var("a")), Box::new(num("0")))));
    let e = expr("f(x)[i + 1]");
    let call = Expr::Chamada(Box::new(var("f")), vec![var("x")]);
    assert!(same(&e, &Expr::Index(Box::new(call), Box::new(bin(var("i"), BinOp::Add, num("1"))))));
}

#[test]
fn an_unknown_primary_stands_for_nil() {
    let stmts = parse(")");
    assert_eq!(shown(&stmts), shown(&[Stmt::ExprStmt(Expr::Nulo)]));
    let e = expr("1 + ]");
    assert!(same(&e, &bin(num("1"), BinOp::Add, Expr::Nulo)));
}

#[test]
fn a_missing_closing_bracket_takes_the_next_token() {
    let stmts = parse("(1 2");
    assert_eq!(shown(&stmts), shown(&[Stmt::ExprStmt(num("1"))]));
}

#[test]
fn variable_declarations() {
    let stmts = parse("variavel x = 1 + 2;");
    assert_eq!(
        shown(&stmts),
        shown(&[Stmt::VarDecl("x".to_string(), bin(num("1"), BinOp::Add, num("2")))])
    );
    let stmts = parse("variavel x = 1 variavel y = 2");
    assert_eq!(stmts.len(), 2);
}

#[test]
fn a_declaration_needs_a_name_and_an_initialiser() {
    assert_eq!(parse("variavel = 1;").len(), 0);
    assert_eq!(parse("variavel x;").len(), 0);
    assert_eq!(parse("variavel 5 = 1;").len(), 0);
    let stmts = parse("imprimir 1; variavel x; imprimir 2;");
    assert_eq!(shown(&stmts), shown(&[Stmt::Imprimir(num("1"))]));
}

#[test]
fn statements_end_with_an_optional_semicolon() {
    let with = parse("imprimir 1; imprimir 2;");
    let without = parse("imprimir 1 imprimir 2");
    assert_eq!(shown(&with), shown(&without));
    assert_eq!(with.len(), 2);
}

#[test]
fn blocks_hold_declarations() {
    let stmts = parse("{ variavel x = 1; imprimir x; }");
    assert_eq!(
        shown(&stmts),
        shown(&[Stmt::Bloco(vec![Stmt::VarDecl("x".to_string(), num("1")), Stmt::Imprimir(var("x"))])])
    );
    assert_eq!(shown(&parse("{}")), shown(&[Stmt::Bloco(vec![])]));
}

#[test]
fn a_block_must_be_closed() {
    assert_eq!(parse("{ imprimir 1;").len(), 0);
    assert_eq!(parse("imprimir 0; { imprimir 1;").len(), 1);
}

#[test]
fn if_with_and_without_else() {
    let stmts = parse("se (x) imprimir 1;");
    assert_eq!(shown(&stmts), shown(&[Stmt::If(var("x"), Box::new(Stmt::Imprimir(num("1"))), None)]));
    let stmts = parse("se (x) imprimir 1; senao imprimir 2;");
    assert_eq!(
        shown(&stmts),
        shown(&[Stmt::If(
            var("x"),
            Box::new(Stmt::Imprimir(num("1"))),
            Some(Box::new(Stmt::Imprimir(num("2"))))
        )])
    );
}

#[test]
fn else_binds_to_the_nearest_if() {
    let stmts = parse("se (a) se (b) imprimir 1; senao imprimir 2;");
    let inner = Stmt::If(
        var("b"),
        Box::new(Stmt::Imprimir(num("1"))),
        Some(Box::new(Stmt::Imprimir(num("2")))),
    );
    assert_eq!(shown(&stmts), shown(&[Stmt::If(var("a"), Box::new(inner), None)]));
}

#[test]
fn if_needs_its_brackets() {
    assert_eq!(parse("se x imprimir 1;").len(), 0);
    assert_eq!(parse("se (x imprimir 1;").len(), 0);
}

#[test]
fn while_loops() {
    let stmts = parse("enquanto (x < 3) { quebrar; continuar }");
    assert_eq!(
        shown(&stmts),
        shown(&[Stmt::While(
            bin(var("x"), BinOp::Lt, num("3")),
            Box::new(Stmt::Bloco(vec![Stmt::Break, Stmt::Continue]))
        )])
    );
}

#[test]
fn for_loops_become_while_loops() {
    let stmts = parse("para (variavel i = 0; i < 3 f(i)) imprimir i;");
    let round = Stmt::While(
        bin(var("i"), BinOp::Lt, num("3")),
        Box::new(Stmt::Bloco(vec![
            Stmt::Imprimir(var("i")),
            Stmt::ExprStmt(Expr::Chamada(Box::new(var("f")), vec![var("i")])),
        ])),
    );
    assert_eq!(
        shown(&stmts),
        shown(&[Stmt::Bloco(vec![Stmt::VarDecl("i".to_string(), num("0")), round])])
    );
}

#[test]
fn a_for_loop_with_three_clauses() {
    let stmts = parse("para (variavel i = 0; i < 3; f(i)) imprimir i;");
    let round = Stmt::While(
        bin(var("i"), BinOp::Lt, num("3")),
        Box::new(Stmt::Bloco(vec![
            Stmt::Imprimir(var("i")),
            Stmt::ExprStmt(Expr::Chamada(Box::new(var("f")), vec![var("i")])),
        ])),
    );
    assert_eq!(
        shown(&stmts),
        shown(&[Stmt::Bloco(vec![Stmt::VarDecl("i".to_string(), num("0")), round])])
    );
}

#[test]
fn a_for_loop_without_a_condition_runs_while_true() {
    let stmts = parse("para (;;) quebrar;");
    let round = Stmt::While(Expr::Bool(true), Box::new(Stmt::Bloco(vec![Stmt::Break])));
    assert_eq!(shown(&stmts), shown(&[Stmt::Bloco(vec![round])]));
    let stmts = parse("para (;; f()) quebrar;");
    let round = Stmt::While(
        Expr::Bool(true),
        Box::new(Stmt::Bloco(vec![
            Stmt::Break,
            Stmt::ExprStmt(Expr::Chamada(Box::new(var("f")), vec![])),
        ])),
    );
    assert_eq!(shown(&stmts), shown(&[Stmt::Bloco(vec![round])]));
}

#[test]
fn a_for_loop_with_a_condition_alone() {
    let stmts = parse("para (; x) quebrar;");
    let round = Stmt::While(var("x"), Box::new(Stmt::Bloco(vec![Stmt::Break])));
    assert_eq!(shown(&stmts), shown(&[Stmt::Bloco(vec![round.clone()])]));
    let stmts = parse("para (; x;) quebrar;");
    assert_eq!(shown(&stmts), shown(&[Stmt::Bloco(vec![round])]));
}

#[test]
fn a_for_loop_needs_its_brackets() {
    assert_eq!(parse("para (variavel i = 0; i < 3; i imprimir i;").len(), 0);
    assert_eq!(parse("para variavel i = 0; imprimir i;").len(), 0);
}

#[test]
fn function_declarations() {
    let stmts = parse("funcao soma(a, b) { retornar a + b; }");
    assert_eq!(
        shown(&stmts),
        shown(&[Stmt::FuncDecl(
            "soma".to_string(),
            vec!["a".to_string(), "b".to_string()],
            vec![Stmt::Return(Some(bin(var("a"), BinOp::Add, var("b"))))]
        )])
    );
    let stmts = parse("funcao nada() { retornar; }");
    assert_eq!(
        shown(&stmts),
        shown(&[Stmt::FuncDecl("nada".to_string(), vec![], vec![Stmt::Return(None)])])
    );
}

#[test]
fn a_function_whose_block_fails_has_an_empty_body() {
    let stmts = parse("funcao f() imprimir 1;");
    assert_eq!(stmts.len(), 2);
    assert_eq!(shown(&stmts[..1]), shown(&[Stmt::FuncDecl("f".to_string(), vec![], vec![])]));
}

#[test]
fn parameters_must_be_names() {
    assert_eq!(parse("funcao f(1) {}").len(), 0);
    assert_eq!(parse("funcao f(a,) {}").len(), 0);
    assert_eq!(parse("funcao (a) {}").len(), 0);
}

#[test]
fn parsing_stops_at_the_end_of_input_token() {
    let mut tokens = Lexer::new("imprimir 1;").tokenize();
    let more = Lexer::new("imprimir 2;").tokenize();
    tokens.extend(more);
    let stmts = Parser::new(tokens).parse();
    assert_eq!(shown(&stmts), shown(&[Stmt::Imprimir(num("1"))]));
}

#[test]
fn precedence_levels_by_name() {
    let tokens = Lexer::new("1 + 2 * 3 < 4 == 5 e 6 ou 7").tokenize();
    let mut p = Parser::new(tokens);
    let e = p.factor();
    assert!(same(&e, &num("1")));
    let e = p.factor();
    assert!(same(&e, &Expr::Nulo));
    let mut p = Parser::new(Lexer::new("1 + 2 * 3 < 4").tokenize());
    assert!(same(&p.term(), &bin(num("1"), BinOp::Add, bin(num("2"), BinOp::Mul, num("3")))));
    assert_eq!(p.pos, 5);
    let mut p = Parser::new(Lexer::new("1 < 2 == 3").tokenize());
    assert!(same(&p.comparison(), &bin(num("1"), BinOp::Lt, num("2"))));
    let mut p = Parser::new(Lexer::new("1 == 2 e 3").tokenize());
    assert!(same(&p.equality(), &bin(num("1"), BinOp::Eq, num("2"))));
    let mut p = Parser::new(Lexer::new("1 e 2 ou 3").tokenize());
    assert!(same(&p.and(), &bin(num("1"), BinOp::And, num("2"))));
    let mut p = Parser::new(Lexer::new("1 e 2 ou 3").tokenize());
    assert!(same(&p.or(), &bin(bin(num("1"), BinOp::And, num("2")), BinOp::Or, num("3"))));
}

#[test]
fn a_source_is_scanned_and_parsed_in_one_call() {
    let stmts = parse_source("imprimir 2 + 3 * 4;").unwrap();
    assert_eq!(
        shown(&stmts),
        shown(&[Stmt::Imprimir(bin(num("2"), BinOp::Add, bin(num("3"), BinOp::Mul, num("4"))))])
    );
}

#[test]
fn reserved_words_are_looked_up() {
    assert_eq!(palavras_chave(&"enquanto".to_string()), Some(TokenType::Enquanto));
    assert_eq!(palavras_chave(&"quebrar".to_string()), Some(TokenType::Break));
    assert_eq!(palavras_chave(&"Enquanto".to_string()), None);
    assert_eq!(palavras_chave(&"".to_string()), None);
}

#[test]
fn syntax_trees_are_copied_in_depth() {
    let stmts = parse("funcao f(a) { se (a) { retornar [1][0]; } senao enquanto (a) imprimir -a; }");
    let copy: Vec<Stmt> = stmts.iter().map(|s| s.clone()).collect();
    assert_eq!(shown(&stmts), shown(&copy));
}

#[test]
fn a_block_that_is_not_closed_is_a_syntax_error() {
    let e = parse_source("{ imprimir 1;").unwrap_err();
    assert_eq!(e.linha, 1);
    assert_eq!(e.lexema, "{");
    assert_eq!(e.message(), "Sintaxe inválida a partir de '{'");
    let mut parser = Parser::new(Lexer::new("{ imprimir 1;").tokenize());
    assert!(parser.failure.is_none());
    let stmts = parser.parse();
    assert!(stmts.is_empty());
    assert_eq!(parser.failure, Some(0));
    assert!(parser.syntax_error().is_some());
}

#[test]
fn the_error_names_the_construct_that_failed() {
    let e = parse_source("imprimir 1;\n\nvariavel = 2;\nimprimir 3;").unwrap_err();
    assert_eq!((e.linha, e.lexema.as_str()), (3, "variavel"));
    let e = parse_source("imprimir 0;\nse x imprimir 1;").unwrap_err();
    assert_eq!((e.linha, e.lexema.as_str()), (2, "se"));
    let e = parse_source("enquanto (x imprimir 1;").unwrap_err();
    assert_eq!((e.linha, e.lexema.as_str()), (1, "enquanto"));
    let e = parse_source("funcao f(1) {}").unwrap_err();
    assert_eq!((e.linha, e.lexema.as_str()), (1, "funcao"));
    let mut parser = Parser::new(Lexer::new("imprimir 1; { imprimir 2; funcao (").tokenize());
    let stmts = parser.parse();
    assert_eq!(stmts.len(), 1);
    assert_eq!(parser.failure, Some(3));
}

#[test]
fn a_program_that_parses_has_no_syntax_error() {
    for source in ["", "imprimir 1;", "{ }", "funcao f() { retornar 1; } f();", ") ] ;", "// nada"] {
        let mut parser = Parser::new(Lexer::new(source).tokenize());
        parser.parse();
        assert_eq!(parser.failure, None, "{:?}", source);
        assert!(parser.syntax_error().is_none());
        assert!(parse_source(source).is_ok());
    }
}
