use lucas::ast::BinOp;
use lucas::errors::{
    linhas, Builtin, ErrorType, LucasError, RuntimeError, SourceLocation, SyntaxError,
};
use lucas::repl::{Command, Repl};
use lucas::suggest::{levenshtein_distance, sugerir_similar};
use lucas::text::text_less;

fn names(list: &[&str]) -> Vec<String> {
    list.iter().map(|s| s.to_string()).collect()
}

#[test]
fn the_closest_name_is_suggested() {
    let r = sugerir_similar("imprimi", &names(&["imprimir"]));
    assert_eq!(r, Some("Você quis dizer 'imprimir'?".to_string()));
}

#[test]
fn nothing_is_suggested_beyond_distance_two() {
    assert_eq!(sugerir_similar("imprimi", &names(&["comprimento", "x", "maiuscula"])), None);
    assert_eq!(sugerir_similar("abc", &names(&["abcdef"])), None);
    assert_eq!(sugerir_similar("abc", &names(&[])), None);
}

#[test]
fn distance_two_is_still_suggested() {
    assert_eq!(sugerir_similar("abc", &names(&["abcde"])), Some("Você quis dizer 'abcde'?".to_string()));
    assert_eq!(sugerir_similar("abc", &names(&["a"])), Some("Você quis dizer 'a'?".to_string()));
}

#[test]
fn among_several_the_closest_wins_and_among_equals_the_first() {
    let r = sugerir_similar("conta", &names(&["contador", "contas", "conto", "conta"]));
    assert_eq!(r, Some("Você quis dizer 'conta'?".to_string()));
    let r = sugerir_similar("conta", &names(&["contas", "conto"]));
    assert_eq!(r, Some("Você quis dizer 'contas'?".to_string()));
    let r = sugerir_similar("conta", &names(&["contagem", "conto", "contas"]));
    assert_eq!(r, Some("Você quis dizer 'conto'?".to_string()));
}

#[test]
fn edit_distances() {
    assert_eq!(levenshtein_distance("", ""), 0);
    assert_eq!(levenshtein_distance("", "abc"), 3);
    assert_eq!(levenshtein_distance("abc", ""), 3);
    assert_eq!(levenshtein_distance("abc", "abc"), 0);
    assert_eq!(levenshtein_distance("imprimi", "imprimir"), 1);
    assert_eq!(levenshtein_distance("kitten", "sitting"), 3);
    assert_eq!(levenshtein_distance("flaw", "lawn"), 2);
    assert_eq!(levenshtein_distance("abc", "xyz"), 3);
    assert_eq!(levenshtein_distance("ab", "ba"), 2);
    assert_eq!(levenshtein_distance("sitting", "kitten"), 3);
}

#[test]
fn edit_distance_counts_characters_not_bytes() {
    assert_eq!(levenshtein_distance("é", "e"), 1);
    assert_eq!(levenshtein_distance("ação", "acao"), 2);
    assert_eq!(levenshtein_distance("ã", ""), 1);
}

#[test]
fn every_runtime_error_has_its_message() {
    let cases: Vec<(RuntimeError, &str)> = vec![
        (RuntimeError::UndefinedVariable("x".to_string()), "Variável 'x' não definida"),
        (RuntimeError::IndexOutOfBounds { index: 12, len: 3 }, "Índice 12 fora dos limites (tamanho: 3)"),
        (RuntimeError::IndexOutOfBounds { index: -7, len: 0 }, "Índice -7 fora dos limites (tamanho: 0)"),
        (
            RuntimeError::IndexOutOfBounds { index: i64::MIN, len: 100 },
            "Índice -9223372036854775808 fora dos limites (tamanho: 100)",
        ),
        (RuntimeError::NotIndexable, "Indexação requer array/string e índice numérico"),
        (RuntimeError::NotIndexAssignable, "Atribuição de índice requer array e índice numérico"),
        (RuntimeError::NegateOperand, "Operador unário '-' espera número"),
        (RuntimeError::AddOperands, "Operador '+' inválido para operandos"),
        (RuntimeError::NumberOperands(BinOp::Sub), "'-' espera números"),
        (RuntimeError::NumberOperands(BinOp::Mul), "'*' espera números"),
        (RuntimeError::NumberOperands(BinOp::Div), "'/' espera números"),
        (RuntimeError::NumberOperands(BinOp::Lt), "'<' espera números"),
        (RuntimeError::NumberOperands(BinOp::Gt), "'>' espera números"),
        (RuntimeError::NumberOperands(BinOp::Le), "'<=' espera números"),
        (RuntimeError::NumberOperands(BinOp::Ge), "'>=' espera números"),
        (RuntimeError::DivisionByZero, "Divisão por zero"),
        (RuntimeError::NotCallable, "Tentativa de chamar algo que não é função"),
        (RuntimeError::Arity { expected: 2, got: 10 }, "Esperado 2 argumentos mas recebeu 10"),
        (RuntimeError::BuiltinArity(Builtin::Comprimento), "comprimento() espera 1 argumento"),
        (RuntimeError::BuiltinArity(Builtin::Maiuscula), "maiuscula() espera 1 argumento"),
        (RuntimeError::BuiltinArgument(Builtin::Comprimento), "comprimento() espera texto ou array"),
        (RuntimeError::BuiltinArgument(Builtin::Minuscula), "minuscula() espera texto"),
        (RuntimeError::LoopSignalInFunction, "'quebrar' ou 'continuar' fora de um laço"),
        (RuntimeError::Protocol, "Estado interno inválido"),
    ];
    for (error, expected) in cases {
        assert_eq!(error.message(), expected);
    }
}

#[test]
fn errors_are_built_step_by_step() {
    let e = LucasError::novo(ErrorType::SintaticoError, "faltou )".to_string());
    assert_eq!(e.tipo, ErrorType::SintaticoError);
    assert_eq!(e.mensagem, "faltou )");
    assert!(e.localizacao.is_none() && e.sugestao.is_none());
    let e = e.com_localizacao(SourceLocation { linha: 2, coluna: 5, fonte: "a\nb".to_string() });
    let e = e.com_sugestao("tente (".to_string());
    assert_eq!(e.localizacao.as_ref().map(|l| (l.linha, l.coluna)), Some((2, 5)));
    assert_eq!(e.sugestao.as_deref(), Some("tente ("));
    assert_eq!(e.mensagem, "faltou )");
}

#[test]
fn a_syntax_error_is_reported_with_its_line() {
    let e = SyntaxError { linha: 2, lexema: "{".to_string() };
    let r = LucasError::de_sintaxe(&e, "a\n{ b");
    assert_eq!(r.tipo, ErrorType::SintaticoError);
    assert_eq!(r.mensagem, "Sintaxe inválida a partir de '{'");
    let loc = r.localizacao.as_ref().unwrap();
    assert_eq!((loc.linha, loc.coluna, loc.fonte.as_str()), (2, 0, "a\n{ b"));
    assert!(r.sugestao.is_none());
    let c = loc.contexto();
    assert_eq!(c.at.as_ref().map(|l| l.texto.as_str()), Some("{ b"));
}

#[test]
fn headings() {
    assert_eq!(ErrorType::LexicoError.titulo(), "Erro Léxico");
    assert_eq!(ErrorType::SintaticoError.titulo(), "Erro Sintático");
    assert_eq!(ErrorType::RuntimeError.titulo(), "Erro de Execução");
}

#[test]
fn an_unknown_name_is_reported_with_a_suggestion() {
    let known = names(&["contador", "total"]);
    let e = LucasError::de_execucao(&RuntimeError::UndefinedVariable("totl".to_string()), &known);
    assert_eq!(e.tipo, ErrorType::RuntimeError);
    assert_eq!(e.mensagem, "Variável 'totl' não definida");
    assert_eq!(e.sugestao.as_deref(), Some("Você quis dizer 'total'?"));
    let e = LucasError::de_execucao(&RuntimeError::UndefinedVariable("xyzw".to_string()), &known);
    assert!(e.sugestao.is_none());
    let e = LucasError::de_execucao(&RuntimeError::DivisionByZero, &known);
    assert_eq!(e.mensagem, "Divisão por zero");
    assert!(e.sugestao.is_none());
}

#[test]
fn a_text_is_split_into_lines() {
    assert_eq!(linhas(""), Vec::<String>::new());
    assert_eq!(linhas("a"), vec!["a"]);
    assert_eq!(linhas("a\n"), vec!["a"]);
    assert_eq!(linhas("a\nb"), vec!["a", "b"]);
    assert_eq!(linhas("a\n\nb\n"), vec!["a", "", "b"]);
    assert_eq!(linhas("\n"), vec![""]);
    assert_eq!(linhas("a\r\nb\r\n"), vec!["a", "b"]);
    assert_eq!(linhas("a\rb\nc\r"), vec!["a\rb", "c\r"]);
    assert_eq!(linhas("\r\n"), vec![""]);
    for s in ["", "a", "a\n", "a\nb", "a\n\nb\n", "\n\n", "a\r\nb\r\n", "a\rb\nc\r", "x\r\r\ny"] {
        let expected: Vec<String> = s.lines().map(|l| l.to_string()).collect();
        assert_eq!(linhas(s), expected, "{:?}", s);
    }
}

#[test]
fn the_context_of_a_place() {
    let loc = SourceLocation { linha: 2, coluna: 4, fonte: "um\ndois\ntres\nquatro".to_string() };
    let c = loc.contexto();
    assert_eq!(c.before.as_ref().map(|l| (l.numero, l.texto.as_str())), Some((1, "um")));
    assert_eq!(c.at.as_ref().map(|l| (l.numero, l.texto.as_str())), Some((2, "dois")));
    assert_eq!(c.after.as_ref().map(|l| (l.numero, l.texto.as_str())), Some((3, "tres")));
    assert_eq!(c.indent, 10);
}

#[test]
fn the_context_at_the_edges_of_a_text() {
    let loc = SourceLocation { linha: 1, coluna: 0, fonte: "so".to_string() };
    let c = loc.contexto();
    assert!(c.before.is_none() && c.after.is_none());
    assert_eq!(c.at.as_ref().map(|l| (l.numero, l.texto.as_str())), Some((1, "so")));
    assert_eq!(c.indent, 6);
    let loc = SourceLocation { linha: 0, coluna: 1, fonte: "a\nb".to_string() };
    let c = loc.contexto();
    assert!(c.before.is_none());
    assert_eq!(c.at.as_ref().map(|l| (l.numero, l.texto.as_str())), Some((0, "a")));
    assert_eq!(c.after.as_ref().map(|l| (l.numero, l.texto.as_str())), Some((2, "b")));
    let loc = SourceLocation { linha: 3, coluna: usize::MAX, fonte: "a\nb".to_string() };
    let c = loc.contexto();
    assert_eq!(c.before.as_ref().map(|l| (l.numero, l.texto.as_str())), Some((2, "b")));
    assert!(c.at.is_none() && c.after.is_none());
    assert_eq!(c.indent, usize::MAX);
    let loc = SourceLocation { linha: 9, coluna: 0, fonte: "a\nb".to_string() };
    let c = loc.contexto();
    assert!(c.before.is_none() && c.at.is_none() && c.after.is_none());
}

#[test]
fn texts_are_ordered_character_by_character() {
    let cases = [("", "a"), ("a", "b"), ("a", "ab"), ("ab", "b"), ("Z", "a"), ("z", "é"), ("abc", "abd")];
    for (a, b) in cases {
        assert!(text_less(a, b), "{:?} < {:?}", a, b);
        assert!(!text_less(b, a), "{:?} < {:?}", b, a);
        assert_eq!(text_less(a, b), a < b);
    }
    assert!(!text_less("", ""));
    assert!(!text_less("abc", "abc"));
}

#[test]
fn the_shell_knows_its_commands() {
    assert_eq!(Repl::command(""), Command::Empty);
    assert_eq!(Repl::command("sair"), Command::Exit);
    assert_eq!(Repl::command("exit"), Command::Exit);
    assert_eq!(Repl::command("ajuda"), Command::Help);
    assert_eq!(Repl::command("help"), Command::Help);
    assert_eq!(Repl::command("quit"), Command::Exit);
    assert_eq!(Repl::command("limpar"), Command::Clear);
    assert_eq!(Repl::command("clear"), Command::Clear);
    assert_eq!(Repl::command("historico"), Command::History);
    assert_eq!(Repl::command("history"), Command::History);
    assert_eq!(Repl::command("variaveis"), Command::Variables);
    assert_eq!(Repl::command("vars"), Command::Variables);
    assert_eq!(Repl::command("sair agora"), Command::Code);
    assert_eq!(Repl::command("1 + 1"), Command::Code);
}

#[test]
fn the_shell_prints_what_is_no_statement() {
    assert_eq!(Repl::prepare("1 + 1"), "imprimir(1 + 1);");
    assert_eq!(Repl::prepare("x"), "imprimir(x);");
    assert_eq!(Repl::prepare("x;"), "x;");
    assert_eq!(Repl::prepare("variavel x = 1"), "variavel x = 1");
    assert_eq!(Repl::prepare("funcao f() {}"), "funcao f() {}");
    assert_eq!(Repl::prepare("se (x) y"), "se (x) y");
    assert_eq!(Repl::prepare("enquanto (x) y"), "enquanto (x) y");
    assert_eq!(Repl::prepare("para (;) y"), "para (;) y");
    assert_eq!(Repl::prepare("semana"), "semana");
    assert_eq!(Repl::prepare("s"), "imprimir(s);");
    assert_eq!(Repl::prepare(" se"), "imprimir( se);");
}

#[test]
fn the_shell_keeps_its_history() {
    let mut repl = Repl::new();
    assert!(repl.history.is_empty());
    let stmts = repl.execute("1 + 1").unwrap();
    assert_eq!(stmts.len(), 1);
    let stmts = repl.execute("variavel x = 2; imprimir x;").unwrap();
    assert_eq!(stmts.len(), 2);
    let e = repl.execute("se x").unwrap_err();
    assert_eq!(e.lexema, "se");
    assert_eq!(repl.history, vec!["1 + 1", "variavel x = 2; imprimir x;", "se x"]);
}
