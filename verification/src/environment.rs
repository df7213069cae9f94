//! The stack of scopes that names are bound in.
use vstd::prelude::*;
use crate::types::{has_key, lookup, stored, Entries, SpecValue, Table, Value};

verus! {

/// A stack of scopes, the innermost last. The first scope is the global one.
#[derive(Debug)]
pub struct Environment {
    scopes: Vec<Table>,
}

/// The nearest scope among `scopes[..below]` that binds `name`.
pub open spec fn home_below(scopes: Seq<Entries>, below: int, name: Seq<char>) -> Option<int>
    decreases below,
{
    if below <= 0 || below > scopes.len() {
        None
    } else if has_key(scopes[below - 1], name) {
        Some(below - 1)
    } else {
        home_below(scopes, below - 1, name)
    }
}

/// The nearest scope that binds `name`, walking outward from the innermost.
pub open spec fn home(scopes: Seq<Entries>, name: Seq<char>) -> Option<int> {
    home_below(scopes, scopes.len() as int, name)
}

/// The nearest binding of `name`.
pub open spec fn env_get(scopes: Seq<Entries>, name: Seq<char>) -> Option<SpecValue> {
    match home(scopes, name) {
        Some(i) => lookup(scopes[i], name),
        None => None,
    }
}

/// The scopes after `name` is bound to `value` in the innermost one.
pub open spec fn env_define(scopes: Seq<Entries>, name: Seq<char>, value: SpecValue) -> Seq<
    Entries,
> {
    if scopes.len() == 0 {
        scopes
    } else {
        scopes.update(scopes.len() - 1, stored(scopes.last(), name, value))
    }
}

/// The scopes after the nearest binding of `name` is overwritten with `value`;
/// unchanged where no scope binds the name.
pub open spec fn env_set(scopes: Seq<Entries>, name: Seq<char>, value: SpecValue) -> Seq<Entries> {
    match home(scopes, name) {
        Some(i) => scopes.update(i, stored(scopes[i], name, value)),
        None => scopes,
    }
}

/// The scopes after a new innermost scope is opened.
pub open spec fn env_push(scopes: Seq<Entries>) -> Seq<Entries> {
    scopes.push(Entries::empty())
}

/// The scopes after the innermost scope is closed; the global scope stays.
pub open spec fn env_pop(scopes: Seq<Entries>) -> Seq<Entries> {
    if scopes.len() > 1 {
        scopes.drop_last()
    } else {
        scopes
    }
}

/// The scope that `home_below` gives lies below the bound and binds the name.
pub proof fn home_binds(scopes: Seq<Entries>, below: int, name: Seq<char>)
    ensures
        home_below(scopes, below, name) matches Some(i) ==> 0 <= i < below && i < scopes.len()
            && has_key(scopes[i], name),
    decreases below,
{
    if below > 0 && below <= scopes.len() && !has_key(scopes[below - 1], name) {
        home_binds(scopes, below - 1, name);
    }
}

/// The scopes after each name of `bindings` is bound to its value in the
/// innermost scope, in order.
pub open spec fn env_define_all(scopes: Seq<Entries>, bindings: Seq<(Seq<char>, SpecValue)>) -> Seq<
    Entries,
>
    decreases bindings.len(),
{
    if bindings.len() == 0 {
        scopes
    } else {
        env_define(
            env_define_all(scopes, bindings.drop_last()),
            bindings.last().0,
            bindings.last().1,
        )
    }
}

/// Binding names in the innermost scope leaves the number of scopes and all
/// the outer scopes as they are.
pub proof fn defines_stay_inside(scopes: Seq<Entries>, bindings: Seq<(Seq<char>, SpecValue)>)
    ensures
        env_define_all(scopes, bindings).len() == scopes.len(),
        forall|i: int|
            0 <= i < scopes.len() - 1 ==> env_define_all(scopes, bindings)[i] == scopes[i],
    decreases bindings.len(),
{
    if bindings.len() > 0 {
        defines_stay_inside(scopes, bindings.drop_last());
    }
}

/// Scope isolation: whatever is bound inside a scope that is opened and
/// closed again, the scopes are afterwards what they were before, so every
/// name is bound as it was: a name bound only inside is absent, and one that
/// an outer scope binds has its outer value.
pub proof fn scope_isolation(
    scopes: Seq<Entries>,
    bindings: Seq<(Seq<char>, SpecValue)>,
    name: Seq<char>,
)
    requires
        scopes.len() >= 1,
    ensures
        env_pop(env_define_all(env_push(scopes), bindings)) == scopes,
        env_get(env_pop(env_define_all(env_push(scopes), bindings)), name) == env_get(scopes, name),
{
    let opened = env_push(scopes);
    let inner = env_define_all(opened, bindings);
    defines_stay_inside(opened, bindings);
    assert(inner.len() == scopes.len() + 1);
    assert forall|i: int| 0 <= i < scopes.len() implies env_pop(inner)[i] == scopes[i] by {
        assert(inner[i] == opened[i]);
    }
    assert(env_pop(inner) =~= scopes);
}

/// The global scope is never closed: closing a scope leaves at least one.
pub proof fn global_scope_stays(scopes: Seq<Entries>)
    requires
        scopes.len() >= 1,
    ensures
        env_pop(scopes).len() >= 1,
        env_pop(scopes)[0] == scopes[0],
{
}

/// Shadowing: a name bound in a scope opened inside is found with its inner
/// value, and the binding of an outer scope is not touched.
pub proof fn shadowing_keeps_outer(scopes: Seq<Entries>, name: Seq<char>, value: SpecValue)
    requires
        scopes.len() >= 1,
    ensures
        env_get(env_define(env_push(scopes), name, value), name) == Some(value),
        env_pop(env_define(env_push(scopes), name, value)) == scopes,
{
    let inner = env_define(env_push(scopes), name, value);
    let last = inner.len() - 1;
    assert(inner[last] == stored(Entries::empty(), name, value));
    assert(inner[last] =~= seq![(name, value)]);
    assert(inner[last][0].0 == name);
    crate::types::first_named_is_key_index(inner[last], name, 0);
    assert(home_below(inner, inner.len() as int, name) == Some(last));
    assert(env_pop(inner) =~= scopes);
}

impl View for Environment {
    type V = Seq<Entries>;

    closed spec fn view(&self) -> Seq<Entries> {
        Seq::new(self.scopes@.len(), |i: int| self.scopes@[i]@)
    }
}

impl Environment {
    /// The environment with the global scope alone, and nothing bound.
    pub fn new() -> (env: Self)
        ensures
            env@ == seq![Entries::empty()],
    {
        let mut scopes: Vec<Table> = Vec::new();
        scopes.push(Table::new());
        let env = Environment { scopes };
        assert(env@ =~= seq![Entries::empty()]);
        env
    }

    /// The number of open scopes.
    pub fn depth(&self) -> (n: usize)
        ensures
            n == self@.len(),
    {
        self.scopes.len()
    }

    /// Opens a new innermost scope.
    pub fn push_scope(&mut self)
        ensures
            final(self)@ == env_push(old(self)@),
    {
        self.scopes.push(Table::new());
        assert(self@ =~= env_push(old(self)@));
    }

    /// Closes the innermost scope; the global scope stays.
    pub fn pop_scope(&mut self)
        ensures
            final(self)@ == env_pop(old(self)@),
    {
        if self.scopes.len() > 1 {
            self.scopes.pop();
        }
        assert(self@ =~= env_pop(old(self)@));
    }

    /// Binds `name` to `value` in the innermost scope, shadowing any outer
    /// binding of the name.
    pub fn define(&mut self, name: &str, value: Value)
        ensures
            final(self)@ == env_define(old(self)@, name@, value@),
    {
        let n = self.scopes.len();
        if n > 0 {
            self.scopes[n - 1].insert(name, value);
            assert(self@ =~= env_define(old(self)@, name@, value@));
        }
    }

    /// The place of the nearest scope that binds `name`.
    fn find_home(&self, name: &str) -> (r: Option<usize>)
        ensures
            r is Some == home(self@, name@) is Some,
            r is Some ==> r->0 == home(self@, name@)->0 && r->0 < self@.len(),
    {
        let mut i: usize = self.scopes.len();
        while i > 0
            invariant
                i <= self.scopes@.len(),
                home_below(self@, i as int, name@) == home(self@, name@),
            decreases i,
        {
            i -= 1;
            if self.scopes[i].contains_key(name) {
                return Some(i);
            }
        }
        None
    }

    /// Overwrites the nearest binding of `name`; returns whether there was one.
    pub fn set(&mut self, name: &str, value: Value) -> (found: bool)
        ensures
            found == (env_get(old(self)@, name@) is Some),
            found == (home(old(self)@, name@) is Some),
            !found ==> final(self)@ == old(self)@,
            final(self)@ == env_set(old(self)@, name@, value@),
    {
        proof {
            home_binds(self@, self@.len() as int, name@);
        }
        match self.find_home(name) {
            Some(i) => {
                self.scopes[i].insert(name, value);
                assert(self@ =~= env_set(old(self)@, name@, value@));
                true
            },
            None => false,
        }
    }

    /// The nearest binding of `name`.
    pub fn get(&self, name: &str) -> (r: Option<&Value>)
        ensures
            r is Some == env_get(self@, name@) is Some,
            r is Some ==> Some(r->0@) == env_get(self@, name@),
    {
        match self.find_home(name) {
            Some(i) => self.scopes[i].get(name),
            None => None,
        }
    }
}

} // verus!
