//! The environment chain: scopes that map names to values, each with a link
//! to the scope that encloses it.
//!
//! All scopes live in one [`Environment`] and are named by handle, so that a
//! block, a call and a closure can share a scope. A scope is never removed.

use vstd::prelude::*;
use crate::errors::{RuntimeError, RuntimeErrorView};
use crate::text::{
    lemma_text_lt_irreflexive, lemma_text_lt_total, lemma_text_lt_transitive, text_less, text_lt,
};
use crate::value::{EnvRef, Value, ValueView};

verus! {

/// One name bound to one value.
#[derive(Debug)]
pub struct Binding {
    pub nome: String,
    pub valor: Value,
}

/// One scope: its bindings, and the scope that encloses it.
#[derive(Debug)]
pub struct Scope {
    pub bindings: Vec<Binding>,
    pub enclosing: Option<EnvRef>,
}

/// The chain of scopes. The scope with handle 0 is the global one.
#[derive(Debug)]
pub struct Environment {
    pub scopes: Vec<Scope>,
}

/// The mathematical value of a [`Scope`]: a finite map and the enclosing link.
pub struct ScopeView {
    pub vars: Map<Seq<char>, ValueView>,
    pub enclosing: Option<EnvRef>,
}

/// The mathematical value of an [`Environment`].
pub struct EnvironmentView {
    pub scopes: Seq<ScopeView>,
}

/// The map that a list of bindings stands for: a later binding of a name
/// overrides an earlier one.
pub open spec fn bindings_map(b: Seq<Binding>) -> Map<Seq<char>, ValueView>
    decreases b.len(),
{
    if b.len() == 0 {
        Map::empty()
    } else {
        bindings_map(b.drop_last()).insert(b.last().nome@, b.last().valor@)
    }
}

impl DeepView for Scope {
    type V = ScopeView;

    open spec fn deep_view(&self) -> ScopeView {
        ScopeView { vars: bindings_map(self.bindings@), enclosing: self.enclosing }
    }
}

impl View for Scope {
    type V = ScopeView;

    open spec fn view(&self) -> ScopeView {
        self.deep_view()
    }
}

impl DeepView for Environment {
    type V = EnvironmentView;

    open spec fn deep_view(&self) -> EnvironmentView {
        EnvironmentView { scopes: self.scopes.deep_view() }
    }
}

impl View for Environment {
    type V = EnvironmentView;

    open spec fn view(&self) -> EnvironmentView {
        self.deep_view()
    }
}

impl EnvironmentView {
    /// The scopes can be counted by a handle, as those of every
    /// [`Environment`] can.
    pub open spec fn wf(self) -> bool {
        self.scopes.len() <= usize::MAX
    }

    /// A chain with the global scope alone, and nothing bound in it.
    pub open spec fn new() -> EnvironmentView {
        EnvironmentView { scopes: seq![ScopeView { vars: Map::empty(), enclosing: None }] }
    }

    /// The chain with one more scope, empty and enclosed by `enclosing`. The
    /// new scope's handle is the number of scopes before.
    pub open spec fn with_enclosing(self, enclosing: EnvRef) -> EnvironmentView {
        EnvironmentView {
            scopes: self.scopes.push(ScopeView { vars: Map::empty(), enclosing: Some(enclosing) }),
        }
    }

    /// The scope in which a use of `name` in `scope` finds it: the innermost
    /// scope, walking outward from `scope`, that binds the name. An enclosing
    /// link is followed only to an older scope.
    pub open spec fn resolve(self, scope: EnvRef, name: Seq<char>) -> Option<EnvRef>
        decreases scope,
    {
        if scope >= self.scopes.len() {
            None
        } else if self.scopes[scope as int].vars.contains_key(name) {
            Some(scope)
        } else {
            match self.scopes[scope as int].enclosing {
                Some(p) => if p < scope {
                    self.resolve(p, name)
                } else {
                    None
                },
                None => None,
            }
        }
    }

    /// The chain after `name` is bound to `value` in `scope` itself, whatever
    /// the scope or an enclosing one held for the name. A handle that names no
    /// scope leaves the chain as it is.
    pub open spec fn define(self, scope: EnvRef, name: Seq<char>, value: ValueView) -> EnvironmentView {
        if scope < self.scopes.len() {
            EnvironmentView {
                scopes: self.scopes.update(
                    scope as int,
                    ScopeView {
                        vars: self.scopes[scope as int].vars.insert(name, value),
                        enclosing: self.scopes[scope as int].enclosing,
                    },
                ),
            }
        } else {
            self
        }
    }

    /// The value that `name` has when read in `scope`.
    pub open spec fn get(self, scope: EnvRef, name: Seq<char>) -> Result<ValueView, RuntimeErrorView> {
        match self.resolve(scope, name) {
            Some(d) => Ok(self.scopes[d as int].vars[name]),
            None => Err(RuntimeErrorView::UndefinedVariable(name)),
        }
    }

    /// The chain after an assignment to `name` made in `scope`: the binding
    /// is replaced in the scope where the name resolves; there is no chain
    /// where it does not resolve.
    pub open spec fn assign(self, scope: EnvRef, name: Seq<char>, value: ValueView) -> Result<
        EnvironmentView,
        RuntimeErrorView,
    > {
        match self.resolve(scope, name) {
            Some(d) => Ok(self.define(d, name, value)),
            None => Err(RuntimeErrorView::UndefinedVariable(name)),
        }
    }
}

/// Whether `i` is the last position of `b` that binds `name`.
pub open spec fn is_last_binding(b: Seq<Binding>, name: Seq<char>, i: int) -> bool {
    &&& 0 <= i < b.len()
    &&& b[i].nome@ == name
    &&& forall|j: int| i < j < b.len() ==> b[j].nome@ != name
}

/// Whether no position of `b` binds `name`.
pub open spec fn is_unbound(b: Seq<Binding>, name: Seq<char>) -> bool {
    forall|j: int| 0 <= j < b.len() ==> b[j].nome@ != name
}

proof fn lemma_bound(b: Seq<Binding>, name: Seq<char>, i: int)
    requires
        is_last_binding(b, name, i),
    ensures
        bindings_map(b).contains_key(name),
        bindings_map(b)[name] == b[i].valor@,
    decreases b.len(),
{
    if i < b.len() - 1 {
        lemma_bound(b.drop_last(), name, i);
    }
}

proof fn lemma_unbound(b: Seq<Binding>, name: Seq<char>)
    requires
        is_unbound(b, name),
    ensures
        !bindings_map(b).contains_key(name),
    decreases b.len(),
{
    if b.len() > 0 {
        lemma_unbound(b.drop_last(), name);
    }
}

proof fn lemma_rebound(b: Seq<Binding>, name: Seq<char>, i: int, nb: Binding)
    requires
        is_last_binding(b, name, i),
        nb.nome@ == name,
    ensures
        bindings_map(b.update(i, nb)) == bindings_map(b).insert(name, nb.valor@),
    decreases b.len(),
{
    let b2 = b.update(i, nb);
    if i < b.len() - 1 {
        lemma_rebound(b.drop_last(), name, i, nb);
        assert(b2.drop_last() =~= b.drop_last().update(i, nb));
        assert(bindings_map(b2) =~= bindings_map(b).insert(name, nb.valor@));
    } else {
        assert(b2.drop_last() =~= b.drop_last());
        assert(bindings_map(b2) =~= bindings_map(b).insert(name, nb.valor@));
    }
}

proof fn lemma_pushed(b: Seq<Binding>, nb: Binding)
    ensures
        bindings_map(b.push(nb)) == bindings_map(b).insert(nb.nome@, nb.valor@),
{
    assert(b.push(nb).drop_last() =~= b);
}

/// The last position of `b` that binds `name`, if there is one.
fn find(b: &Vec<Binding>, name: &String) -> (r: Option<usize>)
    ensures
        match r {
            Some(i) => is_last_binding(b@, name@, i as int),
            None => is_unbound(b@, name@),
        },
{
    let mut i: usize = b.len();
    while i > 0
        invariant
            i <= b.len(),
            forall|j: int| i <= j < b.len() ==> b[j].nome@ != name@,
        decreases i,
    {
        i -= 1;
        if b[i].nome == *name {
            return Some(i);
        }
    }
    None
}

impl Environment {
    /// A chain with the global scope alone.
    pub fn new() -> (r: Environment)
        ensures
            r@ == EnvironmentView::new(),
    {
        let mut scopes: Vec<Scope> = Vec::new();
        scopes.push(Scope { bindings: Vec::new(), enclosing: None });
        let r = Environment { scopes };
        assert(r@.scopes =~= EnvironmentView::new().scopes);
        r
    }

    /// Adds an empty scope enclosed by `enclosing` and returns its handle.
    pub fn with_enclosing(&mut self, enclosing: EnvRef) -> (r: EnvRef)
        ensures
            final(self)@ == old(self)@.with_enclosing(enclosing),
            r == old(self)@.scopes.len(),
    {
        let r = self.scopes.len();
        self.scopes.push(Scope { bindings: Vec::new(), enclosing: Some(enclosing) });
        assert(self@.scopes =~= old(self)@.with_enclosing(enclosing).scopes);
        r
    }

    /// Binds `name` to `value` in `scope` itself.
    pub fn define(&mut self, scope: EnvRef, name: String, value: Value)
        ensures
            final(self)@ == old(self)@.define(scope, name@, value@),
    {
        if scope < self.scopes.len() {
            let found = find(&self.scopes[scope].bindings, &name);
            let nb = Binding { nome: name, valor: value };
            match found {
                Some(i) => {
                    proof {
                        lemma_rebound(self.scopes[scope as int].bindings@, name@, i as int, nb);
                    }
                    self.scopes[scope].bindings[i] = nb;
                },
                None => {
                    proof {
                        lemma_pushed(self.scopes[scope as int].bindings@, nb);
                    }
                    self.scopes[scope].bindings.push(nb);
                },
            }
            assert(self@.scopes =~= old(self)@.define(scope, name@, value@).scopes);
        }
    }

    /// The scope in which `name`, used in `scope`, is bound.
    pub fn resolve(&self, scope: EnvRef, name: &String) -> (r: Option<EnvRef>)
        ensures
            r == self@.resolve(scope, name@),
    {
        let mut s: EnvRef = scope;
        loop
            invariant
                self@.resolve(s, name@) == self@.resolve(scope, name@),
            decreases s,
        {
            if s >= self.scopes.len() {
                return None;
            }
            let found = find(&self.scopes[s].bindings, name);
            proof {
                match found {
                    Some(i) => lemma_bound(self.scopes[s as int].bindings@, name@, i as int),
                    None => lemma_unbound(self.scopes[s as int].bindings@, name@),
                }
            }
            if found.is_some() {
                return Some(s);
            }
            match self.scopes[s].enclosing {
                Some(p) => {
                    if p < s {
                        s = p;
                    } else {
                        return None;
                    }
                },
                None => {
                    return None;
                },
            }
        }
    }

    /// Replaces the value of `name` in the scope where it resolves from
    /// `scope`; fails, and changes nothing, where no scope of the chain binds it.
    pub fn assign(&mut self, scope: EnvRef, name: &String, val: Value) -> (r: Result<
        (),
        RuntimeError,
    >)
        ensures
            match old(self)@.assign(scope, name@, val@) {
                Ok(e) => r is Ok && final(self)@ == e,
                Err(e) => r is Err && r->Err_0@ == e && final(self)@ == old(self)@,
            },
    {
        match self.resolve(scope, name) {
            Some(d) => {
                self.define(d, name.clone(), val);
                Ok(())
            },
            None => Err(RuntimeError::UndefinedVariable(name.clone())),
        }
    }

    /// The value of `name` read in `scope`; fails where no scope of the chain
    /// binds it.
    pub fn get(&self, scope: EnvRef, name: &String) -> (r: Result<Value, RuntimeError>)
        ensures
            match self@.get(scope, name@) {
                Ok(v) => r is Ok && r->Ok_0@ == v,
                Err(e) => r is Err && r->Err_0@ == e,
            },
    {
        match self.resolve(scope, name) {
            Some(d) => {
                proof {
                    self@.lemma_resolve_binds(scope, name@);
                }
                let found = find(&self.scopes[d].bindings, name);
                match found {
                    Some(i) => {
                        proof {
                            lemma_bound(self.scopes[d as int].bindings@, name@, i as int);
                        }
                        Ok(self.scopes[d].bindings[i].valor.clone())
                    },
                    None => {
                        proof {
                            lemma_unbound(self.scopes[d as int].bindings@, name@);
                        }
                        Err(RuntimeError::UndefinedVariable(name.clone()))
                    },
                }
            },
            None => Err(RuntimeError::UndefinedVariable(name.clone())),
        }
    }
}

impl EnvironmentView {
    /// A name resolves to a scope of the chain that binds it.
    pub proof fn lemma_resolve_binds(self, scope: EnvRef, name: Seq<char>)
        ensures
            self.resolve(scope, name) matches Some(d) ==> d <= scope && d < self.scopes.len()
                && self.scopes[d as int].vars.contains_key(name),
        decreases scope,
    {
        if scope < self.scopes.len() && !self.scopes[scope as int].vars.contains_key(name) {
            match self.scopes[scope as int].enclosing {
                Some(p) => {
                    if p < scope {
                        self.lemma_resolve_binds(p, name);
                    }
                },
                None => {},
            }
        }
    }
}

/// Whether a list of names with values is in ascending order of names,
/// no name twice.
pub open spec fn is_sorted_by_name(list: Seq<(Seq<char>, ValueView)>) -> bool {
    forall|i: int, j: int| 0 <= i < j < list.len() ==> text_lt(list[i].0, list[j].0)
}

/// Whether a list holds the name with the value.
pub open spec fn lists(list: Seq<(Seq<char>, ValueView)>, name: Seq<char>, value: ValueView) -> bool {
    exists|i: int| 0 <= i < list.len() && #[trigger] list[i] == (name, value)
}

/// Whether a list shows a map: in ascending order of names, each name of
/// the map once with its value, and nothing else.
pub open spec fn is_listing(vars: Map<Seq<char>, ValueView>, list: Seq<(Seq<char>, ValueView)>) -> bool {
    &&& is_sorted_by_name(list)
    &&& forall|name: Seq<char>, value: ValueView| #[trigger]
        lists(list, name, value) <==> vars.contains_key(name) && vars[name] == value
}

/// Puts a name with its value at its place in a sorted list, in place of
/// the entry of the same name if there is one.
fn insert_sorted(list: &mut Vec<(String, Value)>, name: String, value: Value)
    requires
        is_sorted_by_name(old(list).deep_view()),
    ensures
        is_sorted_by_name(final(list).deep_view()),
        forall|k: Seq<char>, v: ValueView| #[trigger]
            lists(final(list).deep_view(), k, v) <==> (k == name@ && v == value@) || (k != name@
                && lists(old(list).deep_view(), k, v)),
{
    let ghost before = list.deep_view();
    let mut p: usize = 0;
    while p < list.len() && text_less(list[p].0.as_str(), name.as_str())
        invariant
            p <= list.len(),
            list.deep_view() == before,
            forall|i: int| 0 <= i < p ==> text_lt(before[i].0, name@),
        decreases list.len() - p,
    {
        assert(before[p as int].0 == list[p as int].0@);
        p += 1;
    }
    if p < list.len() {
        assert(before[p as int].0 == list[p as int].0@);
    }
    let replace = p < list.len() && list[p].0 == name;
    proof {
        lemma_text_lt_irreflexive(name@);
        assert forall|j: int| p <= j < before.len() && !(replace && j == p) implies text_lt(
            name@,
            before[j].0,
        ) by {
            lemma_text_lt_total(name@, before[p as int].0);
            if j > p {
                if replace {
                    assert(text_lt(before[p as int].0, before[j].0));
                } else {
                    lemma_text_lt_transitive(name@, before[p as int].0, before[j].0);
                }
            }
        }
        assert forall|j: int| 0 <= j < before.len() && !(replace && j == p) implies before[j].0
            != name@ by {
            if j < p {
                assert(text_lt(before[j].0, name@));
            } else {
                assert(text_lt(name@, before[j].0));
            }
        }
    }
    let ghost entry = (name@, value@);
    if replace {
        list[p] = (name, value);
        let ghost after = list.deep_view();
        assert(after =~= before.update(p as int, entry));
        assert forall|i: int, j: int| 0 <= i < j < after.len() implies text_lt(
            after[i].0,
            after[j].0,
        ) by {
            assert(text_lt(before[i].0, before[j].0));
        }
        assert forall|k: Seq<char>, v: ValueView| #[trigger]
            lists(after, k, v) <==> (k == name@ && v == value@) || (k != name@ && lists(
                before,
                k,
                v,
            )) by {
            if lists(after, k, v) {
                let i = choose|i: int| 0 <= i < after.len() && #[trigger] after[i] == (k, v);
                if i != p {
                    assert(before[i] == (k, v));
                }
            }
            if k == name@ && v == value@ {
                assert(after[p as int] == (k, v));
            }
            if k != name@ && lists(before, k, v) {
                let i = choose|i: int| 0 <= i < before.len() && #[trigger] before[i] == (k, v);
                assert(after[i] == (k, v));
            }
        }
    } else {
        list.insert(p, (name, value));
        let ghost after = list.deep_view();
        assert(after =~= before.insert(p as int, entry));
        proof {
            before.insert_ensures(p as int, entry);
        }
        assert forall|i: int, j: int| 0 <= i < j < after.len() implies text_lt(
            after[i].0,
            after[j].0,
        ) by {
            if j < p {
                assert(text_lt(before[i].0, before[j].0));
            } else if j == p {
                assert(text_lt(before[i].0, name@));
            } else if i < p {
                assert(after[j] == before[j - 1]);
                assert(text_lt(before[i].0, before[j - 1].0));
            } else if i == p {
                assert(after[j] == before[j - 1]);
                assert(text_lt(name@, before[j - 1].0));
            } else {
                assert(after[i] == before[i - 1]);
                assert(after[j] == before[j - 1]);
                assert(text_lt(before[i - 1].0, before[j - 1].0));
            }
        }
        assert forall|k: Seq<char>, v: ValueView| #[trigger]
            lists(after, k, v) <==> (k == name@ && v == value@) || (k != name@ && lists(
                before,
                k,
                v,
            )) by {
            if lists(after, k, v) {
                let i = choose|i: int| 0 <= i < after.len() && #[trigger] after[i] == (k, v);
                if i < p {
                    assert(before[i] == (k, v));
                } else if i > p {
                    assert(after[i] == before[i - 1]);
                    assert(before[i - 1] == (k, v));
                }
            }
            if k == name@ && v == value@ {
                assert(after[p as int] == (k, v));
            }
            if k != name@ && lists(before, k, v) {
                let i = choose|i: int| 0 <= i < before.len() && #[trigger] before[i] == (k, v);
                if i < p {
                    assert(after[i] == (k, v));
                } else {
                    assert(after[i + 1] == before[i]);
                    assert(after[i + 1] == (k, v));
                }
            }
        }
    }
}

impl Environment {
    /// The names bound in `scope` itself with their values, in ascending
    /// order of names. Nothing is listed for a handle that names no scope.
    pub fn get_all_variables(&self, scope: EnvRef) -> (r: Vec<(String, Value)>)
        ensures
            scope < self@.scopes.len() ==> is_listing(
                self@.scopes[scope as int].vars,
                r.deep_view(),
            ),
            scope >= self@.scopes.len() ==> r.len() == 0,
    {
        let mut vars: Vec<(String, Value)> = Vec::new();
        if scope >= self.scopes.len() {
            return vars;
        }
        let bindings = &self.scopes[scope].bindings;
        assert(vars.deep_view() =~= Seq::empty());
        assert(bindings@.take(0) =~= Seq::empty());
        assert forall|name: Seq<char>, value: ValueView| #[trigger]
            lists(vars.deep_view(), name, value) <==> bindings_map(bindings@.take(0)).contains_key(
                name,
            ) && bindings_map(bindings@.take(0))[name] == value by {}
        let mut i: usize = 0;
        while i < bindings.len()
            invariant
                i <= bindings.len(),
                is_listing(bindings_map(bindings@.take(i as int)), vars.deep_view()),
            decreases bindings.len() - i,
        {
            let ghost before = vars.deep_view();
            let ghost map_before = bindings_map(bindings@.take(i as int));
            proof {
                assert(bindings@.take(i + 1).drop_last() =~= bindings@.take(i as int));
                lemma_pushed(bindings@.take(i as int), bindings[i as int]);
                assert(bindings@.take(i + 1) =~= bindings@.take(i as int).push(bindings[i as int]));
            }
            insert_sorted(&mut vars, bindings[i].nome.clone(), bindings[i].valor.clone());
            proof {
                let after = vars.deep_view();
                let name = bindings[i as int].nome@;
                let value = bindings[i as int].valor@;
                let map_after = bindings_map(bindings@.take(i + 1));
                assert(map_after == map_before.insert(name, value));
                assert forall|k: Seq<char>, v: ValueView| #[trigger]
                    lists(after, k, v) <==> map_after.contains_key(k) && map_after[k] == v by {
                    assert(lists(before, k, v) <==> map_before.contains_key(k) && map_before[k] == v);
                }
            }
            i += 1;
        }
        assert(bindings@.take(bindings.len() as int) =~= bindings@);
        vars
    }
}

} // verus!
