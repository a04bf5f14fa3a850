//! Scopes: the variables a program has declared, innermost scope first.

use crate::error::{Diagnostic, RuntimeError, RuntimeErrorView};
use crate::token::{clone_opt_value, opt_value_view, Token, TokenKind, Value, ValueView};
use vstd::prelude::*;

verus! {

/// What identifies a variable: the kind and the text of its name's token.
pub type Key = (TokenKind, Seq<char>);

/// One scope: its variables, each with its value if it has one yet.
pub type Scope = Map<Key, Option<ValueView>>;

/// The binding of `k` in the nearest scope that holds it. `None` where no
/// scope holds it, `Some(None)` where it was declared and never given a
/// value.
pub open spec fn scopes_get(scopes: Seq<Scope>, k: Key) -> Option<Option<ValueView>>
    decreases scopes.len(),
{
    if scopes.len() == 0 {
        None
    } else if scopes[0].contains_key(k) {
        Some(scopes[0][k])
    } else {
        scopes_get(scopes.drop_first(), k)
    }
}

/// The scopes after `k` is bound to `v` in the innermost one.
pub open spec fn scopes_define(scopes: Seq<Scope>, k: Key, v: Option<ValueView>) -> Seq<Scope> {
    if scopes.len() == 0 {
        scopes
    } else {
        scopes.update(0, scopes[0].insert(k, v))
    }
}

/// The scopes after `v` is stored in the nearest scope that holds `k`;
/// `None` where no scope holds it.
pub open spec fn scopes_assign(scopes: Seq<Scope>, k: Key, v: ValueView) -> Option<Seq<Scope>>
    decreases scopes.len(),
{
    if scopes.len() == 0 {
        None
    } else if scopes[0].contains_key(k) {
        Some(scopes.update(0, scopes[0].insert(k, Some(v))))
    } else {
        match scopes_assign(scopes.drop_first(), k, v) {
            Some(rest) => Some(seq![scopes[0]] + rest),
            None => None,
        }
    }
}

/// The view of a looked-up binding.
pub open spec fn binding_view(b: Option<Option<Value>>) -> Option<Option<ValueView>> {
    match b {
        Some(v) => Some(opt_value_view(v)),
        None => None,
    }
}

/// The scope that a list of bindings stands for. Of two bindings of one
/// name the earlier counts.
pub open spec fn bindings_map(b: Seq<(Token, Option<Value>)>) -> Scope
    decreases b.len(),
{
    if b.len() == 0 {
        Map::empty()
    } else {
        bindings_map(b.drop_first()).insert(b[0].0@.key(), opt_value_view(b[0].1))
    }
}

/// `i` is the first binding of `k` in `b`.
pub open spec fn first_binding(b: Seq<(Token, Option<Value>)>, k: Key, i: int) -> bool {
    &&& 0 <= i < b.len()
    &&& b[i].0@.key() == k
    &&& forall|j: int| 0 <= j < i ==> (#[trigger] b[j]).0@.key() != k
}

/// `b` holds no binding of `k`.
pub open spec fn no_binding(b: Seq<(Token, Option<Value>)>, k: Key) -> bool {
    forall|j: int| 0 <= j < b.len() ==> (#[trigger] b[j]).0@.key() != k
}

proof fn lemma_first_binding(b: Seq<(Token, Option<Value>)>, k: Key, i: int)
    requires
        first_binding(b, k, i),
    ensures
        bindings_map(b).contains_key(k),
        bindings_map(b)[k] == opt_value_view(b[i].1),
    decreases b.len(),
{
    if i > 0 {
        let rest = b.drop_first();
        assert forall|j: int| 0 <= j < i - 1 implies (#[trigger] rest[j]).0@.key() != k by {
            assert(rest[j] == b[j + 1]);
        }
        assert(rest[i - 1] == b[i]);
        lemma_first_binding(rest, k, i - 1);
        assert(b[0].0@.key() != k);
    }
}

proof fn lemma_no_binding(b: Seq<(Token, Option<Value>)>, k: Key)
    requires
        no_binding(b, k),
    ensures
        !bindings_map(b).contains_key(k),
    decreases b.len(),
{
    if b.len() > 0 {
        let rest = b.drop_first();
        assert forall|j: int| 0 <= j < rest.len() implies (#[trigger] rest[j]).0@.key() != k by {
            assert(rest[j] == b[j + 1]);
        }
        lemma_no_binding(rest, k);
        assert(b[0].0@.key() != k);
    }
}

proof fn lemma_rebind(b: Seq<(Token, Option<Value>)>, k: Key, i: int, e: (Token, Option<Value>))
    requires
        first_binding(b, k, i),
        e.0@.key() == k,
    ensures
        bindings_map(b.update(i, e)) =~= bindings_map(b).insert(k, opt_value_view(e.1)),
    decreases b.len(),
{
    let b2 = b.update(i, e);
    if i == 0 {
        assert(b2.drop_first() =~= b.drop_first());
    } else {
        let rest = b.drop_first();
        assert forall|j: int| 0 <= j < i - 1 implies (#[trigger] rest[j]).0@.key() != k by {
            assert(rest[j] == b[j + 1]);
        }
        assert(rest[i - 1] == b[i]);
        lemma_rebind(rest, k, i - 1, e);
        assert(b2.drop_first() =~= rest.update(i - 1, e));
        assert(b[0].0@.key() != k);
        assert(b2[0] == b[0]);
    }
}

proof fn lemma_bind_new(b: Seq<(Token, Option<Value>)>, e: (Token, Option<Value>))
    requires
        no_binding(b, e.0@.key()),
    ensures
        bindings_map(b.push(e)) =~= bindings_map(b).insert(e.0@.key(), opt_value_view(e.1)),
    decreases b.len(),
{
    let k = e.0@.key();
    if b.len() == 0 {
        assert(b.push(e).drop_first() =~= b);
    } else {
        let rest = b.drop_first();
        assert forall|j: int| 0 <= j < rest.len() implies (#[trigger] rest[j]).0@.key() != k by {
            assert(rest[j] == b[j + 1]);
        }
        lemma_bind_new(rest, e);
        assert(b.push(e).drop_first() =~= rest.push(e));
        assert(b[0].0@.key() != k);
        assert(b.push(e)[0] == b[0]);
    }
}

/// A name that was just defined is found, with the value it was given.
pub proof fn lemma_define_then_get(scopes: Seq<Scope>, k: Key, v: Option<ValueView>)
    requires
        scopes.len() > 0,
    ensures
        scopes_get(scopes_define(scopes, k, v), k) == Some(v),
{
}

/// Defining a name leaves every other name as it was found before.
pub proof fn lemma_define_keeps_others(scopes: Seq<Scope>, k: Key, v: Option<ValueView>, other: Key)
    requires
        scopes.len() > 0,
        other != k,
    ensures
        scopes_get(scopes_define(scopes, k, v), other) == scopes_get(scopes, other),
{
    assert(scopes_define(scopes, k, v).drop_first() =~= scopes.drop_first());
}

/// A name can be defined again in the scope that holds it: the second
/// definition takes the place of the first, and nothing else changes.
pub proof fn lemma_define_again(
    scopes: Seq<Scope>,
    k: Key,
    first: Option<ValueView>,
    second: Option<ValueView>,
)
    ensures
        scopes_define(scopes_define(scopes, k, first), k, second) == scopes_define(
            scopes,
            k,
            second,
        ),
{
    if scopes.len() > 0 {
        assert(scopes[0].insert(k, first).insert(k, second) =~= scopes[0].insert(k, second));
        assert(scopes_define(scopes_define(scopes, k, first), k, second) =~= scopes_define(
            scopes,
            k,
            second,
        ));
    }
}

/// Defining a name twice with one value is the same as defining it once.
pub proof fn lemma_define_idempotent(scopes: Seq<Scope>, k: Key, v: Option<ValueView>)
    ensures
        scopes_define(scopes_define(scopes, k, v), k, v) == scopes_define(scopes, k, v),
{
    lemma_define_again(scopes, k, v, v);
}

/// A definition touches the innermost scope only.
pub proof fn lemma_define_is_local(scopes: Seq<Scope>, k: Key, v: Option<ValueView>)
    ensures
        scopes_define(scopes, k, v).len() == scopes.len(),
        forall|j: int| 1 <= j < scopes.len() ==> scopes_define(scopes, k, v)[j] == scopes[j],
{
}

/// An assignment succeeds exactly where the name is found, and what is
/// found afterwards is the value assigned.
pub proof fn lemma_assign_then_get(scopes: Seq<Scope>, k: Key, v: ValueView)
    ensures
        scopes_assign(scopes, k, v) is Some <==> scopes_get(scopes, k) is Some,
        scopes_assign(scopes, k, v) is Some ==> scopes_get(scopes_assign(scopes, k, v)->0, k)
            == Some(Some(v)),
    decreases scopes.len(),
{
    if scopes.len() > 0 && !scopes[0].contains_key(k) {
        lemma_assign_then_get(scopes.drop_first(), k, v);
        if let Some(rest) = scopes_assign(scopes.drop_first(), k, v) {
            assert((seq![scopes[0]] + rest).drop_first() =~= rest);
        }
    }
}

/// An assignment changes no scope's names, only a value: every scope
/// holds the names it held before.
pub proof fn lemma_assign_keeps_names(scopes: Seq<Scope>, k: Key, v: ValueView)
    ensures
        match scopes_assign(scopes, k, v) {
            Some(after) => after.len() == scopes.len() && forall|j: int|
                0 <= j < scopes.len() ==> (#[trigger] after[j]).dom() == scopes[j].dom(),
            None => true,
        },
    decreases scopes.len(),
{
    if scopes.len() > 0 {
        if scopes[0].contains_key(k) {
            assert(scopes[0].insert(k, Some(v)).dom() =~= scopes[0].dom());
        } else {
            lemma_assign_keeps_names(scopes.drop_first(), k, v);
            if let Some(rest) = scopes_assign(scopes.drop_first(), k, v) {
                let after = seq![scopes[0]] + rest;
                assert forall|j: int| 0 <= j < scopes.len() implies (#[trigger] after[j]).dom()
                    == scopes[j].dom() by {
                    if j > 0 {
                        assert(after[j] == rest[j - 1]);
                        assert(scopes[j] == scopes.drop_first()[j - 1]);
                    }
                }
            }
        }
    }
}

/// A scope with a link to the scope around it.
///
/// A name is looked up in the innermost scope first; a definition always
/// lands there. The chain is owned from the inside out: a scope owns the
/// scope around it.
#[derive(Debug)]
pub struct Env {
    vars: Vec<(Token, Option<Value>)>,
    parent: Option<Box<Env>>,
}

/// The scopes of an environment, innermost first.
pub closed spec fn env_view(e: Env) -> Seq<Scope>
    decreases e,
{
    seq![bindings_map(e.vars@)] + match e.parent {
        Some(p) => env_view(*p),
        None => Seq::empty(),
    }
}

impl View for Env {
    type V = Seq<Scope>;

    closed spec fn view(&self) -> Seq<Scope> {
        env_view(*self)
    }
}

/// The index of the first binding of `ident` in `vars`.
fn find(vars: &Vec<(Token, Option<Value>)>, ident: &Token) -> (r: Option<usize>)
    ensures
        match r {
            Some(i) => first_binding(vars@, ident@.key(), i as int),
            None => no_binding(vars@, ident@.key()),
        },
{
    let mut i: usize = 0;
    while i < vars.len()
        invariant
            i <= vars.len(),
            forall|j: int| 0 <= j < i ==> (#[trigger] vars@[j]).0@.key() != ident@.key(),
        decreases vars.len() - i,
    {
        if vars[i].0 == *ident {
            return Some(i);
        }
        i += 1;
    }
    None
}

impl Env {
    /// An environment of one empty scope.
    pub fn new() -> (e: Self)
        ensures
            e@ == seq![Map::<Key, Option<ValueView>>::empty()],
    {
        let e = Self { vars: Vec::new(), parent: None };
        assert(e@ =~= seq![Map::<Key, Option<ValueView>>::empty()]);
        e
    }

    /// An environment always has an innermost scope.
    pub proof fn lemma_nonempty(&self)
        ensures
            self@.len() >= 1,
    {
    }

    /// Binds `ident` to `value` in the innermost scope, whether or not the
    /// scope held the name before. Outer scopes are left as they were.
    pub fn define(&mut self, ident: Token, value: Option<Value>)
        ensures
            final(self)@ == scopes_define(old(self)@, ident@.key(), opt_value_view(value)),
    {
        let ghost k = ident@.key();
        let ghost before = self.vars@;
        let ghost e = (ident, value);
        match find(&self.vars, &ident) {
            Some(i) => {
                proof {
                    lemma_rebind(before, k, i as int, e);
                }
                self.vars.set(i, (ident, value));
            },
            None => {
                proof {
                    lemma_bind_new(before, e);
                }
                self.vars.push((ident, value));
            },
        }
        assert(bindings_map(self.vars@) == bindings_map(before).insert(k, opt_value_view(e.1)));
        assert(self@ =~= scopes_define(old(self)@, k, opt_value_view(e.1)));
    }

    /// The binding of `ident` in the nearest scope that holds it, copied
    /// out. The outer `None` says that no scope holds the name, the inner
    /// one that the variable has no value yet.
    pub fn get(&self, ident: &Token) -> (r: Option<Option<Value>>)
        ensures
            binding_view(r) == scopes_get(self@, ident@.key()),
        decreases self@.len(),
    {
        let ghost k = ident@.key();
        match find(&self.vars, ident) {
            Some(i) => {
                proof {
                    lemma_first_binding(self.vars@, k, i as int);
                }
                Some(clone_opt_value(&self.vars[i].1))
            },
            None => {
                proof {
                    lemma_no_binding(self.vars@, k);
                    assert(self@.drop_first() =~= match self.parent {
                        Some(p) => p@,
                        None => Seq::empty(),
                    });
                }
                match &self.parent {
                    Some(p) => p.get(ident),
                    None => {
                        assert(scopes_get(self@.drop_first(), k) is None);
                        None
                    },
                }
            },
        }
    }

    /// Stores `value` in the nearest scope that already holds `ident` and
    /// hands the value back. Where no scope holds the name, nothing changes
    /// and the error says so: an assignment declares nothing.
    pub fn assign(&mut self, ident: Token, value: Value) -> (r: Result<Value, Diagnostic<RuntimeError>>)
        ensures
            match scopes_assign(old(self)@, ident@.key(), value@) {
                Some(scopes) => r is Ok && r->Ok_0@ == value@ && final(self)@ == scopes,
                None => r is Err && r->Err_0@.kind == RuntimeErrorView::InvalidAssignmentTarget
                    && r->Err_0@.span == ident@.span && final(self)@ == old(self)@,
            },
        decreases old(self)@.len(),
    {
        let ghost k = ident@.key();
        let ghost before = self.vars@;
        match find(&self.vars, &ident) {
            Some(i) => {
                let kept = value.clone();
                let ghost e = (ident, Some(value));
                proof {
                    lemma_first_binding(before, k, i as int);
                    lemma_rebind(before, k, i as int, e);
                }
                self.vars.set(i, (ident, Some(value)));
                assert(self@ =~= old(self)@.update(0, old(self)@[0].insert(k, Some(kept@))));
                Ok(kept)
            },
            None => {
                proof {
                    lemma_no_binding(before, k);
                    assert(self@.drop_first() =~= match self.parent {
                        Some(p) => p@,
                        None => Seq::empty(),
                    });
                }
                match &mut self.parent {
                    Some(p) => {
                        let r = p.assign(ident, value);
                        assert(self@ =~= seq![old(self)@[0]] + p@);
                        assert(r is Err ==> self@ =~= old(self)@);
                        r
                    },
                    None => {
                        assert(scopes_assign(old(self)@.drop_first(), k, value@) is None);
                        Err(
                            Diagnostic {
                                kind: RuntimeError::InvalidAssignmentTarget,
                                span: ident.span,
                            },
                        )
                    },
                }
            },
        }
    }

    /// Puts `parent` around this scope, in place of whatever was around it.
    pub fn set_parent(&mut self, parent: Env)
        ensures
            final(self)@ == seq![old(self)@[0]] + parent@,
    {
        self.parent = Some(Box::new(parent));
    }

    /// Leaves the innermost scope: what is around it, if anything is.
    pub fn into_parent(self) -> (r: Option<Env>)
        ensures
            match r {
                Some(p) => p@ == self@.drop_first(),
                None => self@.len() == 1,
            },
    {
        match self.parent {
            Some(p) => {
                assert(self@.drop_first() =~= p@);
                Some(*p)
            },
            None => None,
        }
    }
}

} // verus!
