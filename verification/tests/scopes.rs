use lucas::environment::Environment;
use lucas::errors::RuntimeError;
use lucas::value::Value;

fn n(s: &str) -> String {
    s.to_string()
}

fn text(v: &Value) -> &str {
    match v {
        Value::Text(s) => s,
        other => panic!("a text expected, found {:?}", other),
    }
}

fn t(s: &str) -> Value {
    Value::Text(s.to_string())
}

#[test]
fn a_new_chain_has_the_global_scope_alone() {
    let env = Environment::new();
    assert_eq!(env.scopes.len(), 1);
    assert_eq!(env.scopes[0].enclosing, None);
    assert!(env.scopes[0].bindings.is_empty());
}

#[test]
fn define_then_get() {
    let mut env = Environment::new();
    env.define(0, n("x"), t("um"));
    assert_eq!(text(&env.get(0, &n("x")).unwrap()), "um");
}

#[test]
fn define_overwrites_in_the_same_scope() {
    let mut env = Environment::new();
    env.define(0, n("x"), t("um"));
    env.define(0, n("x"), t("dois"));
    assert_eq!(text(&env.get(0, &n("x")).unwrap()), "dois");
    assert_eq!(env.scopes[0].bindings.len(), 1);
}

#[test]
fn get_walks_outward() {
    let mut env = Environment::new();
    env.define(0, n("x"), t("global"));
    let a = env.with_enclosing(0);
    let b = env.with_enclosing(a);
    assert_eq!((a, b), (1, 2));
    assert_eq!(text(&env.get(b, &n("x")).unwrap()), "global");
    assert_eq!(env.resolve(b, &n("x")), Some(0));
    assert_eq!(env.resolve(b, &n("y")), None);
}

#[test]
fn get_of_an_unknown_name_fails() {
    let env = Environment::new();
    let e = env.get(0, &n("nada")).unwrap_err();
    assert!(matches!(e, RuntimeError::UndefinedVariable(ref name) if name == "nada"));
    assert_eq!(e.message(), "Variável 'nada' não definida");
}

#[test]
fn define_in_a_nested_scope_shadows_without_changing_the_outer() {
    let mut env = Environment::new();
    env.define(0, n("x"), t("fora"));
    let inner = env.with_enclosing(0);
    env.define(inner, n("x"), t("dentro"));
    assert_eq!(text(&env.get(inner, &n("x")).unwrap()), "dentro");
    assert_eq!(text(&env.get(0, &n("x")).unwrap()), "fora");
    assert_eq!(env.resolve(inner, &n("x")), Some(inner));
}

#[test]
fn assign_changes_the_first_scope_that_binds_the_name() {
    let mut env = Environment::new();
    env.define(0, n("x"), t("a"));
    let mid = env.with_enclosing(0);
    env.define(mid, n("x"), t("b"));
    let inner = env.with_enclosing(mid);
    assert!(env.assign(inner, &n("x"), t("c")).is_ok());
    assert_eq!(text(&env.get(inner, &n("x")).unwrap()), "c");
    assert_eq!(text(&env.get(mid, &n("x")).unwrap()), "c");
    assert_eq!(text(&env.get(0, &n("x")).unwrap()), "a");
}

#[test]
fn assign_never_creates_a_binding() {
    let mut env = Environment::new();
    let inner = env.with_enclosing(0);
    let e = env.assign(inner, &n("x"), t("v")).unwrap_err();
    assert_eq!(e.message(), "Variável 'x' não definida");
    assert!(env.get(inner, &n("x")).is_err());
    assert!(env.get(0, &n("x")).is_err());
    assert!(env.scopes[0].bindings.is_empty() && env.scopes[1].bindings.is_empty());
}

#[test]
fn an_assignment_is_seen_from_every_scope_that_shares_the_binding() {
    let mut env = Environment::new();
    env.define(0, n("x"), t("antes"));
    let a = env.with_enclosing(0);
    let b = env.with_enclosing(0);
    assert!(env.assign(a, &n("x"), t("depois")).is_ok());
    assert_eq!(text(&env.get(b, &n("x")).unwrap()), "depois");
}

#[test]
fn sibling_scopes_do_not_see_each_other() {
    let mut env = Environment::new();
    let a = env.with_enclosing(0);
    let b = env.with_enclosing(0);
    env.define(a, n("x"), t("a"));
    assert!(env.get(b, &n("x")).is_err());
}

#[test]
fn a_handle_that_names_no_scope() {
    let mut env = Environment::new();
    env.define(7, n("x"), t("v"));
    assert_eq!(env.scopes.len(), 1);
    assert!(env.scopes[0].bindings.is_empty());
    assert!(env.get(7, &n("x")).is_err());
    assert!(env.assign(7, &n("x"), t("v")).is_err());
    assert!(env.get_all_variables(7).is_empty());
}

#[test]
fn variables_are_listed_in_order_of_name() {
    let mut env = Environment::new();
    for name in ["zebra", "abc", "ab", "b", "abd", "", "Z", "é"] {
        env.define(0, n(name), t(name));
    }
    env.define(0, n("b"), t("outro"));
    let inner = env.with_enclosing(0);
    env.define(inner, n("dentro"), t("x"));
    let listed = env.get_all_variables(0);
    let names: Vec<&str> = listed.iter().map(|(k, _)| k.as_str()).collect();
    assert_eq!(names, vec!["", "Z", "ab", "abc", "abd", "b", "zebra", "é"]);
    let mut sorted = names.clone();
    sorted.sort();
    assert_eq!(names, sorted);
    let values: Vec<&str> = listed.iter().map(|(_, v)| text(v)).collect();
    assert_eq!(values, vec!["", "Z", "ab", "abc", "abd", "outro", "zebra", "é"]);
    let inner_names: Vec<String> = env.get_all_variables(inner).into_iter().map(|(k, _)| k).collect();
    assert_eq!(inner_names, vec!["dentro"]);
}

#[test]
fn an_empty_scope_lists_nothing() {
    let env = Environment::new();
    assert!(env.get_all_variables(0).is_empty());
}
