use lucas::ast::{BinOp, Expr, Stmt, UnarioOp};
use lucas::errors::{Builtin, RuntimeError};
use lucas::machine::{Action, Interpreter, NumberRequest, Reply, Task};
use lucas::value::{FlowControl, Function, Value};

fn number(bits: u64) -> f64 {
    f64::from_bits(bits)
}

fn answer(request: NumberRequest) -> Reply {
    match request {
        NumberRequest::Parse(text) => Reply::Number(text.parse::<f64>().unwrap_or(0.0).to_bits()),
        NumberRequest::Format(n) => Reply::Text(format!("{}", number(n))),
        NumberRequest::Add(a, b) => Reply::Number((number(a) + number(b)).to_bits()),
        NumberRequest::Sub(a, b) => Reply::Number((number(a) - number(b)).to_bits()),
        NumberRequest::Mul(a, b) => Reply::Number((number(a) * number(b)).to_bits()),
        NumberRequest::Div(a, b) => Reply::Number((number(a) / number(b)).to_bits()),
        NumberRequest::FromLength(n) => Reply::Number((n as f64).to_bits()),
    }
}

fn drive(it: &mut Interpreter, first: Action, out: &mut Vec<String>) -> Action {
    let mut action = first;
    let mut steps = 0;
    loop {
        steps += 1;
        assert!(steps < 1_000_000, "the machine does not come to an end");
        action = match action {
            Action::Continue => it.step(Reply::Nothing),
            Action::Print(line) => {
                out.push(line);
                it.step(Reply::Nothing)
            }
            Action::Ask(request) => it.step(answer(request)),
            done => return done,
        };
    }
}

struct Session {
    it: Interpreter,
    out: Vec<String>,
}

impl Session {
    fn new() -> Session {
        Session { it: Interpreter::new(), out: Vec::new() }
    }

    fn exec(&mut self, stmt: &Stmt) -> Result<FlowControl, RuntimeError> {
        let first = self.it.execute(stmt);
        match drive(&mut self.it, first, &mut self.out) {
            Action::Executed(flow) => Ok(flow),
            Action::Failed(e) => Err(e),
            other => panic!("a statement ended with {:?}", other),
        }
    }

    fn eval(&mut self, expr: &Expr) -> Result<Value, RuntimeError> {
        let first = self.it.evaluate(expr);
        match drive(&mut self.it, first, &mut self.out) {
            Action::Evaluated(v) => Ok(v),
            Action::Failed(e) => Err(e),
            other => panic!("an expression ended with {:?}", other),
        }
    }

    fn show(&mut self, value: &Value) -> String {
        let first = value.to_string_repr(&mut self.it);
        match drive(&mut self.it, first, &mut self.out) {
            Action::Shown(s) => s,
            other => panic!("a value was shown as {:?}", other),
        }
    }

    fn run(&mut self, source: &str) -> Result<(), RuntimeError> {
        let first = self.it.run(source);
        match drive(&mut self.it, first, &mut self.out) {
            Action::Executed(FlowControl::Normal) => Ok(()),
            Action::Failed(e) => Err(e),
            Action::Rejected(e) => panic!("{:?} is rejected: {}", source, e.message()),
            other => panic!("a program ended with {:?}", other),
        }
    }
}

fn output(source: &str) -> Vec<String> {
    let mut s = Session::new();
    if let Err(e) = s.run(source) {
        panic!("{:?} failed with {}", source, e.message());
    }
    s.out
}

fn failure(source: &str) -> String {
    let mut s = Session::new();
    match s.run(source) {
        Ok(()) => panic!("{:?} did not fail", source),
        Err(e) => e.message(),
    }
}

fn num(s: &str) -> Expr {
    Expr::Numero(s.to_string())
}

fn text(s: &str) -> Expr {
    Expr::Texto(s.to_string())
}

fn var(s: &str) -> Expr {
    Expr::Var(s.to_string())
}

fn bin(l: Expr, op: BinOp, r: Expr) -> Expr {
    Expr::Binario(Box::new(l), op, Box::new(r))
}

fn assign(name: &str, e: Expr) -> Stmt {
    Stmt::ExprStmt(Expr::Atribuir(name.to_string(), Box::new(e)))
}

fn declare(name: &str, e: Expr) -> Stmt {
    Stmt::VarDecl(name.to_string(), e)
}

fn call(name: &str, args: Vec<Expr>) -> Expr {
    Expr::Chamada(Box::new(var(name)), args)
}

fn index(a: Expr, i: Expr) -> Expr {
    Expr::Index(Box::new(a), Box::new(i))
}

fn as_number(v: &Value) -> f64 {
    match v {
        Value::Number(n) => number(*n),
        other => panic!("a number expected, found {:?}", other),
    }
}

fn as_text(v: &Value) -> &str {
    match v {
        Value::Text(s) => s,
        other => panic!("a text expected, found {:?}", other),
    }
}

fn as_bool(v: &Value) -> bool {
    match v {
        Value::Bool(b) => *b,
        other => panic!("a boolean expected, found {:?}", other),
    }
}

#[test]
fn arithmetic_follows_precedence() {
    assert_eq!(output("imprimir 2 + 3 * 4;"), vec!["14"]);
    assert_eq!(output("imprimir (2 + 3) * 4;"), vec!["20"]);
}

#[test]
fn arithmetic_associates_to_the_left() {
    assert_eq!(output("imprimir 10 - 4 - 3;"), vec!["3"]);
    assert_eq!(output("imprimir 16 / 4 / 2;"), vec!["2"]);
    assert_eq!(output("imprimir 2 * 3 - 4 / 8;"), vec!["5.5"]);
}

#[test]
fn numbers_are_binary64() {
    assert_eq!(output("imprimir 0.1 + 0.2;"), vec!["0.30000000000000004"]);
    assert_eq!(output("imprimir 1 / 3;"), vec!["0.3333333333333333"]);
}

#[test]
fn a_malformed_numeral_is_zero() {
    assert_eq!(output("imprimir 1.2.3;"), vec!["0"]);
}

#[test]
fn shadowing_leaves_the_outer_binding() {
    assert_eq!(output("variavel x = 1; { variavel x = 2; imprimir x; } imprimir x;"), vec!["2", "1"]);
}

#[test]
fn redeclaration_in_one_scope_replaces_the_binding() {
    assert_eq!(output("variavel x = 1; variavel x = 2; imprimir x;"), vec!["2"]);
}

#[test]
fn a_block_sees_the_enclosing_scope() {
    assert_eq!(output("variavel x = 1; { { imprimir x; } }"), vec!["1"]);
}

#[test]
fn a_name_declared_in_a_block_ends_with_it() {
    assert_eq!(failure("{ variavel x = 1; } imprimir x;"), "Variável 'x' não definida");
}

#[test]
fn closures_see_later_assignments() {
    let mut s = Session::new();
    s.run("variavel n = 1; funcao ler() { retornar n; }").unwrap();
    s.run("imprimir ler();").unwrap();
    s.exec(&assign("n", num("5"))).unwrap();
    s.run("imprimir ler();").unwrap();
    assert_eq!(s.out, vec!["1", "5"]);
}

#[test]
fn a_returned_function_keeps_its_scope() {
    let mut s = Session::new();
    s.run("funcao contador() { variavel n = 0; funcao ler() { retornar n; } retornar ler; }").unwrap();
    s.run("variavel c = contador(); imprimir c();").unwrap();
    assert_eq!(s.out, vec!["0"]);
}

#[test]
fn a_closure_can_count() {
    let mut s = Session::new();
    let bump = Stmt::FuncDecl(
        "mais".to_string(),
        vec![],
        vec![assign("n", bin(var("n"), BinOp::Add, num("1"))), Stmt::Return(Some(var("n")))],
    );
    let maker = Stmt::FuncDecl(
        "contador".to_string(),
        vec![],
        vec![declare("n", num("0")), bump, Stmt::Return(Some(var("mais")))],
    );
    s.exec(&maker).unwrap();
    s.run("variavel a = contador(); variavel b = contador();").unwrap();
    s.run("imprimir a(); imprimir a(); imprimir b(); imprimir a();").unwrap();
    assert_eq!(s.out, vec!["1", "2", "1", "3"]);
}

#[test]
fn scoping_is_lexical_not_dynamic() {
    let src = "variavel x = \"global\"; funcao mostra() { retornar x; } \
               funcao outra() { variavel x = \"local\"; retornar mostra(); } imprimir outra();";
    assert_eq!(output(src), vec!["global"]);
}

#[test]
fn assignment_needs_a_declaration() {
    let mut s = Session::new();
    let e = s.exec(&assign("y", num("1"))).unwrap_err();
    assert_eq!(e.message(), "Variável 'y' não definida");
    assert!(matches!(e, RuntimeError::UndefinedVariable(ref n) if n == "y"));
}

#[test]
fn declaration_then_assignment_is_seen() {
    let mut s = Session::new();
    s.exec(&declare("y", num("1"))).unwrap();
    s.exec(&assign("y", num("2"))).unwrap();
    s.run("imprimir y; { imprimir y; }").unwrap();
    s.exec(&Stmt::Bloco(vec![assign("y", num("3"))])).unwrap();
    s.run("imprimir y;").unwrap();
    assert_eq!(s.out, vec!["2", "2", "3"]);
}

#[test]
fn an_assignment_has_the_value_assigned() {
    let mut s = Session::new();
    s.exec(&declare("y", num("1"))).unwrap();
    let v = s.eval(&Expr::Atribuir("y".to_string(), Box::new(num("7")))).unwrap();
    assert_eq!(as_number(&v), 7.0);
}

#[test]
fn reading_an_unknown_name_fails() {
    assert_eq!(failure("imprimir nada;"), "Variável 'nada' não definida");
}

#[test]
fn return_leaves_nested_blocks_and_loops() {
    let src = "funcao f() { enquanto (verdadeiro) { { enquanto (verdadeiro) { retornar 7; } } } } \
               imprimir f(); imprimir 8;";
    assert_eq!(output(src), vec!["7", "8"]);
}

#[test]
fn return_restores_the_callers_scope() {
    let src = "variavel x = 1; funcao f() { variavel x = 2; { { retornar x; } } } \
               imprimir f(); imprimir x;";
    assert_eq!(output(src), vec!["2", "1"]);
}

#[test]
fn a_function_without_return_gives_nil() {
    assert_eq!(output("funcao f() { 1; } imprimir f();"), vec!["nulo"]);
    assert_eq!(output("funcao f() { retornar; } imprimir f();"), vec!["nulo"]);
}

#[test]
fn statements_after_return_do_not_run() {
    assert_eq!(output("funcao f() { retornar 1; imprimir 2; } imprimir f();"), vec!["1"]);
}

#[test]
fn break_ends_the_nearest_loop_only() {
    let mut s = Session::new();
    s.exec(&declare("i", num("0"))).unwrap();
    let inner = Stmt::While(
        Expr::Bool(true),
        Box::new(Stmt::Bloco(vec![Stmt::Imprimir(text("dentro")), Stmt::Break, Stmt::Imprimir(text("nunca"))])),
    );
    let outer = Stmt::While(
        bin(var("i"), BinOp::Lt, num("2")),
        Box::new(Stmt::Bloco(vec![
            inner,
            Stmt::Imprimir(var("i")),
            assign("i", bin(var("i"), BinOp::Add, num("1"))),
        ])),
    );
    assert!(matches!(s.exec(&outer), Ok(FlowControl::Normal)));
    assert_eq!(s.out, vec!["dentro", "0", "dentro", "1"]);
}

#[test]
fn continue_goes_to_the_next_round() {
    let mut s = Session::new();
    s.exec(&declare("i", num("0"))).unwrap();
    let body = Stmt::Bloco(vec![
        assign("i", bin(var("i"), BinOp::Add, num("1"))),
        Stmt::If(bin(var("i"), BinOp::Eq, num("2")), Box::new(Stmt::Continue), None),
        Stmt::Imprimir(var("i")),
    ]);
    s.exec(&Stmt::While(bin(var("i"), BinOp::Lt, num("4")), Box::new(body))).unwrap();
    assert_eq!(s.out, vec!["1", "3", "4"]);
}

#[test]
fn break_from_source() {
    assert_eq!(output("enquanto (verdadeiro) { imprimir 1; quebrar; } imprimir 2;"), vec!["1", "2"]);
}

#[test]
fn a_loop_signal_does_not_leave_a_function() {
    let src = "funcao f() { quebrar; } enquanto (verdadeiro) { f(); }";
    assert_eq!(failure(src), "'quebrar' ou 'continuar' fora de um laço");
    let src = "funcao f() { continuar; } enquanto (verdadeiro) { f(); }";
    assert_eq!(failure(src), "'quebrar' ou 'continuar' fora de um laço");
}

#[test]
fn signals_outside_any_construct_end_the_statement() {
    let mut s = Session::new();
    assert!(matches!(s.exec(&Stmt::Break), Ok(FlowControl::Break)));
    assert!(matches!(s.exec(&Stmt::Continue), Ok(FlowControl::Continue)));
    match s.exec(&Stmt::Bloco(vec![Stmt::Return(Some(num("4")))])) {
        Ok(FlowControl::Return(v)) => assert_eq!(as_number(&v), 4.0),
        other => panic!("{:?}", other.map(|_| ())),
    }
    assert_eq!(s.it.env, s.it.globals);
}

#[test]
fn a_while_loop_whose_condition_fails_at_once() {
    assert_eq!(output("enquanto (falso) imprimir 1; imprimir 2;"), vec!["2"]);
}

#[test]
fn for_loops_have_their_own_scope() {
    let mut s = Session::new();
    let lp = Stmt::For(
        Some(Box::new(declare("i", num("0")))),
        Some(bin(var("i"), BinOp::Lt, num("3"))),
        Some(Expr::Atribuir("i".to_string(), Box::new(bin(var("i"), BinOp::Add, num("1"))))),
        Box::new(Stmt::Imprimir(var("i"))),
    );
    s.exec(&lp).unwrap();
    assert_eq!(s.out, vec!["0", "1", "2"]);
    assert_eq!(s.it.env, s.it.globals);
    assert_eq!(s.exec(&Stmt::Imprimir(var("i"))).unwrap_err().message(), "Variável 'i' não definida");
}

#[test]
fn continue_in_a_for_loop_still_increments() {
    let mut s = Session::new();
    let body = Stmt::Bloco(vec![
        Stmt::If(bin(var("i"), BinOp::Eq, num("1")), Box::new(Stmt::Continue), None),
        Stmt::Imprimir(var("i")),
    ]);
    let lp = Stmt::For(
        Some(Box::new(declare("i", num("0")))),
        Some(bin(var("i"), BinOp::Lt, num("3"))),
        Some(Expr::Atribuir("i".to_string(), Box::new(bin(var("i"), BinOp::Add, num("1"))))),
        Box::new(body),
    );
    s.exec(&lp).unwrap();
    assert_eq!(s.out, vec!["0", "2"]);
}

#[test]
fn break_in_a_for_loop_without_a_condition() {
    let mut s = Session::new();
    let lp = Stmt::For(None, None, None, Box::new(Stmt::Bloco(vec![Stmt::Imprimir(num("1")), Stmt::Break])));
    s.exec(&lp).unwrap();
    assert_eq!(s.out, vec!["1"]);
}

#[test]
fn for_loops_from_source() {
    assert_eq!(output("para (variavel i = 5; i < 6 comprimento(\"\")) { imprimir i; quebrar; }"), vec!["5"]);
}

#[test]
fn if_chooses_one_branch() {
    assert_eq!(output("se (1 < 2) imprimir \"a\"; senao imprimir \"b\";"), vec!["a"]);
    assert_eq!(output("se (1 > 2) imprimir \"a\"; senao imprimir \"b\";"), vec!["b"]);
    assert_eq!(output("se (falso) imprimir \"a\"; imprimir \"c\";"), vec!["c"]);
}

#[test]
fn division_by_zero_is_an_error() {
    assert_eq!(failure("imprimir 1 / 0;"), "Divisão por zero");
    assert_eq!(failure("imprimir 1 / (0 * -1);"), "Divisão por zero");
    assert_eq!(failure("imprimir 0 / 0;"), "Divisão por zero");
    assert_eq!(output("imprimir 0 / 1;"), vec!["0"]);
}

#[test]
fn output_before_a_failure_stays() {
    let mut s = Session::new();
    let r = s.run("imprimir 1; imprimir 2 / 0; imprimir 3;");
    assert!(matches!(r, Err(RuntimeError::DivisionByZero)));
    assert_eq!(s.out, vec!["1"]);
}

#[test]
fn text_plus_number() {
    assert_eq!(output("imprimir \"x\" + 5;"), vec!["x5"]);
    assert_eq!(output("imprimir 5 + \"x\";"), vec!["5x"]);
    assert_eq!(output("imprimir \"x\" + 2.5;"), vec!["x2.5"]);
    assert_eq!(output("imprimir \"a\" + \"b\";"), vec!["ab"]);
}

#[test]
fn text_plus_other_kinds() {
    assert_eq!(output("imprimir \"v=\" + verdadeiro;"), vec!["v=true"]);
    assert_eq!(output("imprimir nulo + \"!\";"), vec!["nulo!"]);
    let mut s = Session::new();
    let v = s.eval(&bin(text("a"), BinOp::Add, Expr::Array(vec![num("1"), text("b")]))).unwrap();
    assert_eq!(as_text(&v), "a[1, b]");
}

#[test]
fn plus_refuses_other_operands() {
    assert_eq!(failure("imprimir verdadeiro + 1;"), "Operador '+' inválido para operandos");
    assert_eq!(failure("imprimir nulo + nulo;"), "Operador '+' inválido para operandos");
}

#[test]
fn arithmetic_needs_numbers() {
    assert_eq!(failure("imprimir \"a\" - 1;"), "'-' espera números");
    assert_eq!(failure("imprimir 1 * nulo;"), "'*' espera números");
    assert_eq!(failure("imprimir verdadeiro / 2;"), "'/' espera números");
    assert_eq!(failure("imprimir -\"a\";"), "Operador unário '-' espera número");
}

#[test]
fn ordering_needs_numbers() {
    assert_eq!(failure("imprimir \"a\" < \"b\";"), "'<' espera números");
    assert_eq!(failure("imprimir 1 > nulo;"), "'>' espera números");
    assert_eq!(failure("imprimir 1 <= \"\";"), "'<=' espera números");
    assert_eq!(failure("imprimir falso >= 1;"), "'>=' espera números");
}

#[test]
fn ordering_of_numbers() {
    assert_eq!(output("imprimir 1 < 2; imprimir 2 < 1; imprimir 1 < 1;"), vec!["true", "false", "false"]);
    assert_eq!(output("imprimir 1 <= 1; imprimir 2 >= 3; imprimir -1 > -2;"), vec!["true", "false", "true"]);
    assert_eq!(output("imprimir -0.5 < 0.25; imprimir 0 < -0;"), vec!["true", "false"]);
}

#[test]
fn equality_of_like_kinds() {
    assert_eq!(output("imprimir 1 == 1; imprimir 1 != 1; imprimir 1 == 2;"), vec!["true", "false", "false"]);
    assert_eq!(output("imprimir \"a\" == \"a\"; imprimir \"a\" != \"b\";"), vec!["true", "true"]);
    assert_eq!(output("imprimir verdadeiro == verdadeiro; imprimir nulo == nulo;"), vec!["true", "true"]);
}

#[test]
fn equality_of_numbers_has_a_tolerance() {
    assert_eq!(output("imprimir 0.1 + 0.2 == 0.3;"), vec!["true"]);
    assert_eq!(output("imprimir 1 == 1.00000000001;"), vec!["true"]);
    assert_eq!(output("imprimir 1 == 1.000000001;"), vec!["false"]);
}

#[test]
fn equality_across_kinds_is_false_not_an_error() {
    assert_eq!(output("imprimir 1 == \"1\"; imprimir nulo == falso; imprimir 0 != nulo;"), vec!["false", "false", "true"]);
}

#[test]
fn arrays_and_functions_are_never_equal() {
    let mut s = Session::new();
    s.exec(&declare("a", Expr::Array(vec![]))).unwrap();
    let v = s.eval(&bin(var("a"), BinOp::Eq, var("a"))).unwrap();
    assert!(!as_bool(&v));
    let v = s.eval(&bin(var("comprimento"), BinOp::Eq, var("comprimento"))).unwrap();
    assert!(!as_bool(&v));
}

#[test]
fn logical_operators_go_by_truthiness() {
    assert_eq!(output("imprimir 1 e \"a\"; imprimir 0 ou \"\"; imprimir nulo ou 2;"), vec!["true", "false", "true"]);
    assert_eq!(output("imprimir nao verdadeiro; imprimir !0; imprimir !\"\"; imprimir !\"a\";"), vec!["false", "true", "true", "false"]);
}

#[test]
fn both_operands_of_a_logical_operator_are_evaluated() {
    let src = "funcao f() { imprimir \"f\"; retornar falso; } funcao g() { imprimir \"g\"; retornar verdadeiro; } \
               imprimir f() e g(); imprimir g() ou f();";
    assert_eq!(output(src), vec!["f", "g", "false", "g", "f", "true"]);
}

#[test]
fn truthiness() {
    let mut s = Session::new();
    let heap_values = [
        (Value::Nil, false),
        (Value::Bool(false), false),
        (Value::Bool(true), true),
        (Value::Number(0.0f64.to_bits()), false),
        (Value::Number((-0.0f64).to_bits()), false),
        (Value::Number(0.5f64.to_bits()), true),
        (Value::Number(f64::NAN.to_bits()), true),
        (Value::Text(String::new()), false),
        (Value::Text(" ".to_string()), true),
    ];
    for (v, expected) in heap_values.iter() {
        assert_eq!(v.is_truthy(&s.it.heap), *expected, "{:?}", v);
    }
    let empty = s.eval(&Expr::Array(vec![])).unwrap();
    let full = s.eval(&Expr::Array(vec![Expr::Nulo])).unwrap();
    let f = s.eval(&var("comprimento")).unwrap();
    assert!(!empty.is_truthy(&s.it.heap));
    assert!(full.is_truthy(&s.it.heap));
    assert!(f.is_truthy(&s.it.heap));
}

#[test]
fn negation_flips_the_sign() {
    assert_eq!(output("imprimir -3; imprimir - -3; imprimir -(1 - 2);"), vec!["-3", "3", "1"]);
}

#[test]
fn array_writes_are_seen_through_every_alias() {
    let mut s = Session::new();
    s.exec(&declare("a", Expr::Array(vec![num("1"), num("2")]))).unwrap();
    s.exec(&declare("b", var("a"))).unwrap();
    let write = Expr::AtribuirIndex(Box::new(var("b")), Box::new(num("0")), Box::new(num("9")));
    let v = s.eval(&write).unwrap();
    assert_eq!(as_number(&v), 9.0);
    s.exec(&Stmt::Imprimir(index(var("a"), num("0")))).unwrap();
    s.exec(&Stmt::Imprimir(var("a"))).unwrap();
    let write = Expr::AtribuirIndex(Box::new(var("a")), Box::new(num("1")), Box::new(text("x")));
    s.eval(&write).unwrap();
    s.exec(&Stmt::Imprimir(var("b"))).unwrap();
    assert_eq!(s.out, vec!["9", "[9, 2]", "[9, x]"]);
}

#[test]
fn an_array_given_to_a_function_is_shared() {
    let mut s = Session::new();
    let f = Stmt::FuncDecl(
        "zera".to_string(),
        vec!["v".to_string()],
        vec![Stmt::ExprStmt(Expr::AtribuirIndex(Box::new(var("v")), Box::new(num("0")), Box::new(num("0"))))],
    );
    s.exec(&f).unwrap();
    s.exec(&declare("a", Expr::Array(vec![num("5")]))).unwrap();
    s.run("zera(a); imprimir a;").unwrap();
    assert_eq!(s.out, vec!["[0]"]);
}

#[test]
fn two_array_literals_are_two_arrays() {
    let mut s = Session::new();
    s.exec(&declare("a", Expr::Array(vec![num("1")]))).unwrap();
    s.exec(&declare("b", Expr::Array(vec![num("1")]))).unwrap();
    s.eval(&Expr::AtribuirIndex(Box::new(var("a")), Box::new(num("0")), Box::new(num("2")))).unwrap();
    s.run("imprimir a; imprimir b;").unwrap();
    assert_eq!(s.out, vec!["[2]", "[1]"]);
}

#[test]
fn array_elements_are_evaluated_left_to_right() {
    let mut s = Session::new();
    s.run("funcao f() { imprimir \"f\"; retornar 1; } funcao g() { imprimir \"g\"; retornar 2; }").unwrap();
    s.exec(&Stmt::Imprimir(Expr::Array(vec![call("f", vec![]), call("g", vec![])]))).unwrap();
    assert_eq!(s.out, vec!["f", "g", "[1, 2]"]);
}

#[test]
fn indexing_truncates_toward_zero() {
    let mut s = Session::new();
    s.exec(&declare("a", Expr::Array(vec![text("x"), text("y"), text("z")]))).unwrap();
    s.run("imprimir a[0]; imprimir a[1.9]; imprimir a[2]; imprimir a[-0.5];").unwrap();
    assert_eq!(s.out, vec!["x", "y", "z", "x"]);
}

#[test]
fn an_index_out_of_range_reports_index_and_length() {
    let mut s = Session::new();
    s.exec(&declare("a", Expr::Array(vec![num("1"), num("2")]))).unwrap();
    let e = s.eval(&index(var("a"), num("2"))).unwrap_err();
    assert!(matches!(e, RuntimeError::IndexOutOfBounds { index: 2, len: 2 }));
    assert_eq!(e.message(), "Índice 2 fora dos limites (tamanho: 2)");
    let e = s.eval(&index(var("a"), Expr::Unario(UnarioOp::Neg, Box::new(num("1"))))).unwrap_err();
    assert_eq!(e.message(), "Índice -1 fora dos limites (tamanho: 2)");
    let write = Expr::AtribuirIndex(Box::new(var("a")), Box::new(num("5")), Box::new(num("0")));
    assert_eq!(s.eval(&write).unwrap_err().message(), "Índice 5 fora dos limites (tamanho: 2)");
    let e = s.eval(&index(Expr::Array(vec![]), num("0"))).unwrap_err();
    assert_eq!(e.message(), "Índice 0 fora dos limites (tamanho: 0)");
}

#[test]
fn texts_are_indexed_by_character() {
    assert_eq!(output("imprimir \"abc\"[1]; imprimir \"ação\"[2];"), vec!["b", "ã"]);
    assert_eq!(failure("imprimir \"abc\"[3];"), "Índice 3 fora dos limites (tamanho: 3)");
    assert_eq!(failure("imprimir \"\"[0];"), "Índice 0 fora dos limites (tamanho: 0)");
    assert_eq!(failure("imprimir \"é\"[1];"), "Índice 1 fora dos limites (tamanho: 1)");
}

#[test]
fn indexing_needs_a_container_and_a_number() {
    assert_eq!(failure("imprimir 1[0];"), "Indexação requer array/string e índice numérico");
    assert_eq!(failure("imprimir \"a\"[\"0\"];"), "Indexação requer array/string e índice numérico");
    let mut s = Session::new();
    let write = Expr::AtribuirIndex(Box::new(text("abc")), Box::new(num("0")), Box::new(num("0")));
    assert_eq!(s.eval(&write).unwrap_err().message(), "Atribuição de índice requer array e índice numérico");
    let write = Expr::AtribuirIndex(Box::new(Expr::Array(vec![num("1")])), Box::new(text("0")), Box::new(num("0")));
    assert_eq!(s.eval(&write).unwrap_err().message(), "Atribuição de índice requer array e índice numérico");
}

#[test]
fn every_kind_of_value_has_its_text() {
    assert_eq!(output("imprimir 3; imprimir 3.0; imprimir -2; imprimir 2.5;"), vec!["3", "3", "-2", "2.5"]);
    assert_eq!(output("imprimir nulo; imprimir verdadeiro; imprimir falso; imprimir \"t\";"), vec!["nulo", "true", "false", "t"]);
    assert_eq!(output("funcao soma(a, b) { retornar a + b; } imprimir soma;"), vec!["<fn soma>"]);
    assert_eq!(output("imprimir comprimento;"), vec!["<fn comprimento>"]);
    let mut s = Session::new();
    let nested = Expr::Array(vec![
        num("1"),
        Expr::Array(vec![text("a"), Expr::Nulo, Expr::Array(vec![])]),
        Expr::Bool(true),
        num("0.5"),
    ]);
    s.exec(&Stmt::Imprimir(nested)).unwrap();
    s.exec(&Stmt::Imprimir(Expr::Array(vec![]))).unwrap();
    s.exec(&Stmt::Imprimir(Expr::Array(vec![var("comprimento")]))).unwrap();
    assert_eq!(s.out, vec!["[1, [a, nulo, []], true, 0.5]", "[]", "[<fn comprimento>]"]);
}

#[test]
fn numbers_close_to_an_integer_are_written_as_integers() {
    assert_eq!(output("imprimir 2.00000000001; imprimir 1.99999999999;"), vec!["2", "1.99999999999"]);
    assert_eq!(output("imprimir -7.00000000001; imprimir -0.5; imprimir 0.00000000001;"), vec!["-7", "-0.5", "0"]);
    assert_eq!(output("imprimir 0 * -1; imprimir 5 - 5.5;"), vec!["0", "-0.5"]);
}

#[test]
fn numbers_beyond_the_64_bit_integers_are_written_in_full() {
    let huge = "1".to_string() + &"0".repeat(30);
    assert_eq!(output(&format!("imprimir {};", huge)), vec!["1000000000000000019884624838656"]);
    assert_eq!(output(&format!("imprimir -{};", huge)), vec!["-1000000000000000019884624838656"]);
    assert_eq!(output("imprimir 100000000000000000000;"), vec!["100000000000000000000"]);
    assert_eq!(output("imprimir 9223372036854775808;"), vec!["9223372036854775808"]);
    assert_eq!(output("imprimir 4611686018427387904;"), vec!["4611686018427387904"]);
    assert_eq!(output("imprimir 9007199254740993;"), vec!["9007199254740992"]);
    assert_eq!(output("imprimir 10000000000000000000000000;"), vec!["10000000000000000905969664"]);
    let mut s = Session::new();
    let largest = "179769313486231570814527423731704356798070567525844996598917476803157260780028538760589558632766878171540458953514382464234321326889464182768467546703537516986049910576551282076245490090389328944075868508455133942304583236903222948165808559332123348274797826204144723168738177180919299881250404026184124858368";
    assert_eq!(s.show(&Value::Number(f64::MAX.to_bits())), largest);
    assert_eq!(s.show(&Value::Number(f64::MIN.to_bits())), format!("-{}", largest));
}

#[test]
fn integers_are_written_without_a_question_to_the_host() {
    let mut it = Interpreter::new();
    for (x, expected) in [(3.0f64, "3"), (-2.0, "-2"), (0.0, "0"), (-0.0, "0"), (1e15, "1000000000000000")] {
        match Value::Number(x.to_bits()).to_string_repr(&mut it) {
            Action::Shown(s) => assert_eq!(s, expected),
            other => panic!("{:?}", other),
        }
    }
    assert!(matches!(
        Value::Number(2.5f64.to_bits()).to_string_repr(&mut it),
        Action::Ask(NumberRequest::Sub(_, _))
    ));
    match Value::Number(1e20f64.to_bits()).to_string_repr(&mut it) {
        Action::Shown(s) => assert_eq!(s, "100000000000000000000"),
        other => panic!("{:?}", other),
    }
    assert!(matches!(
        Value::Number(f64::INFINITY.to_bits()).to_string_repr(&mut it),
        Action::Ask(NumberRequest::Format(_))
    ));
}

#[test]
fn printing_an_integral_number_loses_nothing() {
    let mut s = Session::new();
    for x in [0.0f64, 1.0, -1.0, 255.0, 1e10, -123456789.0, 9007199254740992.0, 1e19, 1e20, -1e25, 1e300, f64::MAX] {
        let shown = s.show(&Value::Number(x.to_bits()));
        assert!(!shown.contains('.'), "{}", shown);
        assert_eq!(shown.parse::<f64>(), Ok(x), "{}", shown);
    }
    for x in [2.5f64, -0.75, 1e-9, 123.456] {
        let shown = s.show(&Value::Number(x.to_bits()));
        assert!(shown.contains('.'), "{}", shown);
        assert_eq!(shown.parse::<f64>(), Ok(x), "{}", shown);
    }
}

#[test]
fn an_array_is_written_in_brackets() {
    let mut s = Session::new();
    let inner = Expr::Array(vec![num("2.5")]);
    let a = s.eval(&Expr::Array(vec![num("1"), text("a"), Expr::Nulo, inner])).unwrap();
    assert_eq!(s.show(&a), "[1, a, nulo, [2.5]]");
    let wanted = s.eval(&Expr::Array(vec![])).unwrap();
    assert_eq!(s.show(&wanted), "[]");
    assert_eq!(s.show(&a), "[1, a, nulo, [2.5]]");
}

#[test]
fn numbers_that_are_no_numbers_have_their_text() {
    let mut s = Session::new();
    assert_eq!(s.show(&Value::Number(f64::INFINITY.to_bits())), "inf");
    assert_eq!(s.show(&Value::Number(f64::NEG_INFINITY.to_bits())), "-inf");
    assert_eq!(s.show(&Value::Number(f64::NAN.to_bits())), "NaN");
}

#[test]
fn a_value_is_shown_by_the_machine() {
    let mut s = Session::new();
    assert_eq!(s.show(&Value::Number(42.0f64.to_bits())), "42");
    assert_eq!(s.show(&Value::Number(0.25f64.to_bits())), "0.25");
    assert_eq!(s.show(&Value::Text("oi".to_string())), "oi");
    assert_eq!(s.show(&Value::Nil), "nulo");
    assert_eq!(s.show(&Value::Function(1)), "<fn comprimento>");
    let a = s.eval(&Expr::Array(vec![num("1"), Expr::Array(vec![text("x")])])).unwrap();
    assert_eq!(s.show(&a), "[1, [x]]");
    assert_eq!(s.show(&Value::Array(99)), "[]");
    assert!(s.it.tasks.is_empty() && s.it.values.is_empty() && s.it.texts.is_empty());
}

#[test]
fn texts_without_further_work() {
    let s = Session::new();
    assert_eq!(Value::Nil.plain_text(&s.it.heap), Some("nulo".to_string()));
    assert_eq!(Value::Bool(true).plain_text(&s.it.heap), Some("true".to_string()));
    assert_eq!(Value::Bool(false).plain_text(&s.it.heap), Some("false".to_string()));
    assert_eq!(Value::Text("oi".to_string()).plain_text(&s.it.heap), Some("oi".to_string()));
    assert_eq!(Value::Function(0).plain_text(&s.it.heap), Some("<fn imprimir>".to_string()));
    assert_eq!(Value::Number(1.0f64.to_bits()).plain_text(&s.it.heap), Some("1".to_string()));
    assert_eq!(Value::Number((-40.0f64).to_bits()).plain_text(&s.it.heap), Some("-40".to_string()));
    assert_eq!(Value::Number(1.5f64.to_bits()).plain_text(&s.it.heap), None);
    assert_eq!(
        Value::Number(1e20f64.to_bits()).plain_text(&s.it.heap),
        Some("100000000000000000000".to_string())
    );
    assert_eq!(Value::Number(f64::INFINITY.to_bits()).plain_text(&s.it.heap), None);
    assert_eq!(Value::Number(f64::NAN.to_bits()).plain_text(&s.it.heap), None);
    assert_eq!(Value::Array(0).plain_text(&s.it.heap), None);
}

#[test]
fn calls_check_the_callee_and_the_arity() {
    assert_eq!(failure("variavel x = 1; x();"), "Tentativa de chamar algo que não é função");
    assert_eq!(failure("\"f\"();"), "Tentativa de chamar algo que não é função");
    assert_eq!(failure("funcao f(a) {} f();"), "Esperado 1 argumentos mas recebeu 0");
    assert_eq!(failure("funcao f() {} f(1, 2);"), "Esperado 0 argumentos mas recebeu 2");
}

#[test]
fn arguments_are_evaluated_before_the_callee_is_checked() {
    let mut s = Session::new();
    let r = s.run("funcao f() { imprimir \"f\"; } variavel x = 1; x(f());");
    assert!(matches!(r, Err(RuntimeError::NotCallable)));
    assert_eq!(s.out, vec!["f"]);
}

#[test]
fn parameters_are_bound_by_position() {
    assert_eq!(output("funcao sub(a, b) { retornar a - b; } imprimir sub(5, 3);"), vec!["2"]);
}

#[test]
fn recursion() {
    let src = "funcao fat(n) { se (n < 2) retornar 1; retornar n * fat(n - 1); } imprimir fat(10);";
    assert_eq!(output(src), vec!["3628800"]);
    let src = "funcao fib(n) { se (n < 2) retornar n; retornar fib(n - 1) + fib(n - 2); } imprimir fib(15);";
    assert_eq!(output(src), vec!["610"]);
}

#[test]
fn functions_are_ordinary_bindings() {
    assert_eq!(output("funcao f() { retornar 1; } funcao f() { retornar 2; } imprimir f();"), vec!["2"]);
    assert_eq!(output("funcao f() { retornar 1; } variavel g = f; imprimir g();"), vec!["1"]);
}

#[test]
fn the_length_of_texts_and_arrays() {
    assert_eq!(output("imprimir comprimento(\"abc\"); imprimir comprimento(\"\");"), vec!["3", "0"]);
    assert_eq!(output("imprimir comprimento(\"ação\");"), vec!["6"]);
    let mut s = Session::new();
    let v = s.eval(&call("comprimento", vec![Expr::Array(vec![num("1"), num("2")])])).unwrap();
    assert_eq!(as_number(&v), 2.0);
    assert_eq!(failure("comprimento();"), "comprimento() espera 1 argumento");
    assert_eq!(failure("comprimento(1, 2);"), "comprimento() espera 1 argumento");
    assert_eq!(failure("comprimento(1);"), "comprimento() espera texto ou array");
}

#[test]
fn upper_and_lower_case() {
    assert_eq!(output("imprimir maiuscula(\"abc é\"); imprimir minuscula(\"ABC É\");"), vec!["ABC É", "abc é"]);
    assert_eq!(failure("maiuscula();"), "maiuscula() espera 1 argumento");
    assert_eq!(failure("minuscula(1, 2);"), "minuscula() espera 1 argumento");
    assert_eq!(failure("maiuscula(1);"), "maiuscula() espera texto");
    assert_eq!(failure("minuscula(nulo);"), "minuscula() espera texto");
}

#[test]
fn the_print_function_joins_its_arguments() {
    let mut s = Session::new();
    let v = s.eval(&call("imprimir", vec![num("1"), text("a"), Expr::Array(vec![num("2")])])).unwrap();
    assert!(matches!(v, Value::Nil));
    s.eval(&call("imprimir", vec![])).unwrap();
    assert_eq!(s.out, vec!["1 a [2]", ""]);
}

#[test]
fn a_function_named_like_a_built_in_is_the_built_in() {
    assert_eq!(output("funcao comprimento(x) { retornar 99; } imprimir comprimento(\"ab\");"), vec!["2"]);
}

#[test]
fn a_fresh_interpreter_holds_the_built_ins() {
    let it = Interpreter::new();
    assert_eq!(it.globals, 0);
    assert_eq!(it.env, 0);
    assert_eq!(it.fonte, "");
    assert!(it.tasks.is_empty() && it.values.is_empty() && it.texts.is_empty());
    let names: Vec<&str> = it.heap.functions.iter().map(|f| f.name.as_str()).collect();
    assert_eq!(names, vec!["imprimir", "comprimento", "maiuscula", "minuscula"]);
    let arities: Vec<usize> = it.heap.functions.iter().map(|f| f.params.len()).collect();
    assert_eq!(arities, vec![0, 1, 1, 1]);
    for b in [Builtin::Imprimir, Builtin::Comprimento, Builtin::Maiuscula, Builtin::Minuscula] {
        assert!(matches!(it.environment.get(0, &b.name()), Ok(Value::Function(_))));
    }
}

#[test]
fn run_keeps_the_source() {
    let mut s = Session::new();
    s.run("imprimir 1;\nimprimir 2;").unwrap();
    assert_eq!(s.it.fonte, "imprimir 1;\nimprimir 2;");
    assert_eq!(s.out, vec!["1", "2"]);
}

#[test]
fn a_program_that_does_not_parse_does_not_run() {
    let mut it = Interpreter::new();
    let mut out = Vec::new();
    let first = it.execute(&Stmt::Bloco(vec![Stmt::Imprimir(num("1"))]));
    assert!(matches!(first, Action::Continue));
    let first = it.run("imprimir 1;\n{ imprimir 2;");
    match drive(&mut it, first, &mut out) {
        Action::Rejected(e) => {
            assert_eq!(e.linha, 2);
            assert_eq!(e.message(), "Sintaxe inválida a partir de '{'");
        }
        other => panic!("{:?}", other),
    }
    assert!(out.is_empty());
    assert_eq!(it.fonte, "imprimir 1;\n{ imprimir 2;");
    assert_eq!(it.env, it.globals);
    assert!(it.tasks.is_empty());
}

#[test]
fn an_empty_program_ends_at_once() {
    let mut it = Interpreter::new();
    assert!(matches!(it.run(""), Action::Executed(FlowControl::Normal)));
    assert!(matches!(it.run("// nada\n"), Action::Executed(FlowControl::Normal)));
}

#[test]
fn a_signal_at_the_top_of_a_program_ends_its_statement_only() {
    assert_eq!(output("imprimir 1; retornar 5; imprimir 2;"), vec!["1", "2"]);
    assert_eq!(output("{ imprimir 1; quebrar; imprimir 0; } imprimir 2;"), vec!["1", "2"]);
    assert_eq!(output("se (verdadeiro) { continuar; } imprimir 2;"), vec!["2"]);
    let mut s = Session::new();
    s.run("{ { retornar 1; } }").unwrap();
    assert_eq!(s.it.env, s.it.globals);
}

#[test]
fn a_program_stops_at_its_first_failure() {
    let mut s = Session::new();
    let r = s.run("imprimir 1; nada; imprimir 2;");
    assert!(matches!(r, Err(RuntimeError::UndefinedVariable(_))));
    assert_eq!(s.out, vec!["1"]);
    assert!(s.it.tasks.is_empty());
    s.run("imprimir 3;").unwrap();
    assert_eq!(s.out, vec!["1", "3"]);
}

#[test]
fn state_lasts_from_one_statement_to_the_next() {
    let mut s = Session::new();
    s.run("variavel x = 41;").unwrap();
    s.run("funcao mais(n) { retornar n + 1; }").unwrap();
    s.run("imprimir mais(x);").unwrap();
    assert_eq!(s.out, vec!["42"]);
}

#[test]
fn a_failure_inside_a_block_leaves_the_block() {
    let mut s = Session::new();
    let env0 = s.it.env;
    let block = Stmt::Bloco(vec![
        declare("t", num("1")),
        Stmt::ExprStmt(bin(num("1"), BinOp::Div, num("0"))),
    ]);
    assert!(matches!(s.exec(&block), Err(RuntimeError::DivisionByZero)));
    assert_eq!(s.it.env, env0);
    assert!(matches!(s.eval(&var("t")), Err(RuntimeError::UndefinedVariable(_))));
    assert!(s.run("{ variavel x = 1; { imprimir nada; } }").is_err());
    assert_eq!(s.it.env, s.it.globals);
    assert!(s.it.tasks.is_empty() && s.it.values.is_empty() && s.it.texts.is_empty());
    assert_eq!(failure("{ variavel x = 1; imprimir nada; } imprimir x;"), "Variável 'nada' não definida");
}

#[test]
fn a_failure_inside_a_call_leaves_the_call() {
    let mut it = Interpreter::new();
    let env0 = it.env;
    let f = Function {
        name: "f".to_string(),
        params: vec![],
        body: vec![Stmt::ExprStmt(bin(num("1"), BinOp::Div, num("0")))],
        closure: it.globals,
    };
    let first = f.call(&mut it, vec![]);
    let mut out = Vec::new();
    assert!(matches!(drive(&mut it, first, &mut out), Action::Failed(RuntimeError::DivisionByZero)));
    assert_eq!(it.env, env0);
    let mut s = Session::new();
    s.run("variavel x = 1; funcao g() { variavel y = 2; { retornar 1 / 0; } }").unwrap();
    assert!(s.run("{ g(); }").is_err());
    assert_eq!(s.it.env, s.it.globals);
    s.run("imprimir x;").unwrap();
    assert!(matches!(s.eval(&var("y")), Err(RuntimeError::UndefinedVariable(_))));
    assert_eq!(s.out, vec!["1"]);
}

#[test]
fn new_work_leaves_what_was_under_way() {
    let mut it = Interpreter::new();
    let block = Stmt::Bloco(vec![Stmt::Imprimir(num("1"))]);
    assert!(matches!(it.execute(&block), Action::Continue));
    assert_ne!(it.env, it.globals);
    assert!(matches!(it.execute(&Stmt::Break), Action::Executed(FlowControl::Break)));
    assert_eq!(it.env, it.globals);
}

#[test]
fn a_step_with_nothing_to_do_fails() {
    let mut it = Interpreter::new();
    assert!(matches!(it.step(Reply::Nothing), Action::Failed(RuntimeError::Protocol)));
}

#[test]
fn a_reply_of_the_wrong_kind_fails() {
    let mut it = Interpreter::new();
    let first = it.evaluate(&num("1"));
    assert!(matches!(first, Action::Ask(NumberRequest::Parse(ref t)) if t == "1"));
    assert!(matches!(it.step(Reply::Nothing), Action::Failed(RuntimeError::Protocol)));
    let first = it.execute(&Stmt::Imprimir(num("1")));
    assert!(matches!(first, Action::Continue));
    assert!(matches!(it.step(Reply::Nothing), Action::Ask(NumberRequest::Parse(_))));
    assert!(matches!(it.step(Reply::Number(1.5f64.to_bits())), Action::Continue));
    assert!(matches!(it.step(Reply::Nothing), Action::Ask(NumberRequest::Sub(_, _))));
    assert!(matches!(it.step(Reply::Number(0.5f64.to_bits())), Action::Ask(NumberRequest::Format(_))));
    assert!(matches!(it.step(Reply::Number(0)), Action::Failed(RuntimeError::Protocol)));
}

#[test]
fn the_machine_asks_for_each_operation_with_its_operands() {
    let mut it = Interpreter::new();
    it.push_value(Value::Number(6.0f64.to_bits()));
    it.push_value(Value::Number(3.0f64.to_bits()));
    for (op, expected) in [(BinOp::Add, 9.0), (BinOp::Sub, 3.0), (BinOp::Mul, 18.0), (BinOp::Div, 2.0)] {
        it.push_value(Value::Number(6.0f64.to_bits()));
        it.push_value(Value::Number(3.0f64.to_bits()));
        it.push_task(Task::Binary(op));
        match it.step(Reply::Nothing) {
            Action::Ask(request) => match answer(request) {
                Reply::Number(n) => assert_eq!(number(n), expected),
                other => panic!("{:?}", other),
            },
            other => panic!("{:?}", other),
        }
        assert!(matches!(it.step(Reply::Number(0)), Action::Continue));
        it.pop_value();
    }
}

#[test]
fn a_call_starts_in_a_scope_of_its_own() {
    let mut s = Session::new();
    s.run("funcao f(a) { retornar a; }").unwrap();
    let f = s.it.heap.functions[4].clone();
    let scopes = s.it.environment.scopes.len();
    let first = f.call(&mut s.it, vec![Value::Bool(true)]);
    assert!(matches!(first, Action::Continue));
    assert_eq!(s.it.env, scopes);
    assert_eq!(s.it.environment.scopes[scopes].enclosing, Some(f.closure));
    assert!(matches!(s.it.environment.get(s.it.env, &"a".to_string()), Ok(Value::Bool(true))));
    let wrong = f.call(&mut s.it, vec![]);
    assert!(matches!(wrong, Action::Failed(RuntimeError::Arity { expected: 1, got: 0 })));
}
