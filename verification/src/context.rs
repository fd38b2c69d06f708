//! The environment: which value each variable is bound to.

use vstd::prelude::*;
use crate::syntax::Variable;
use crate::syntax::Value;
use crate::syntax::SpecValue;
use crate::syntax::SpecEnv;
use crate::syntax::value_view;

verus! {

/// A finite map from variables to values. It is kept as a list of bindings in
/// which no name occurs twice.
#[derive(Debug)]
pub struct Context {
    entries: Vec<(Variable, Value)>,
}

/// The map that a list of bindings stands for.
spec fn entries_view(s: Seq<(Variable, Value)>) -> SpecEnv
    decreases s,
{
    if s.len() == 0 {
        Map::empty()
    } else {
        entries_view(s.drop_last()).insert(s.last().0@, value_view(s.last().1))
    }
}

/// The map that `c` stands for: each bound name with the model of its value.
pub closed spec fn context_view(c: Context) -> SpecEnv
    decreases c,
{
    entries_view(c.entries@)
}

/// No name is bound twice in `s`.
spec fn distinct_names(s: Seq<(Variable, Value)>) -> bool {
    forall|i: int, j: int| 0 <= i < j < s.len() ==> s[i].0@ != s[j].0@
}

/// `name` is bound somewhere in `s`.
spec fn binds(s: Seq<(Variable, Value)>, name: Seq<char>) -> bool {
    exists|i: int| 0 <= i < s.len() && #[trigger] s[i].0@ == name
}

/// The value bound to `name` in `env`, if any.
pub open spec fn binding(env: SpecEnv, name: Seq<char>) -> Option<SpecValue> {
    if env.contains_key(name) {
        Some(env[name])
    } else {
        None
    }
}

/// `env` with `name` bound to what `saved` holds, or unbound where it holds nothing.
pub open spec fn restore_binding(env: SpecEnv, name: Seq<char>, saved: Option<SpecValue>) -> SpecEnv {
    match saved {
        Some(value) => env.insert(name, value),
        None => env.remove(name),
    }
}

/// The model of a value that may be absent.
pub open spec fn option_view(value: Option<Value>) -> Option<SpecValue> {
    match value {
        Some(v) => Some(v@),
        None => None,
    }
}

impl View for Context {
    type V = SpecEnv;

    open spec fn view(&self) -> SpecEnv {
        context_view(*self)
    }
}

impl Context {
    #[verifier::type_invariant]
    spec fn distinct_keys(self) -> bool {
        distinct_names(self.entries@)
    }

    /// The environment that binds nothing.
    pub fn new() -> (r: Self)
        ensures
            r@ == Map::<Seq<char>, SpecValue>::empty(),
    {
        Context { entries: Vec::new() }
    }

    /// Binds `var`, which must not be bound yet, to `value`.
    pub fn insert(&mut self, var: Variable, value: Value)
        requires
            !old(self)@.contains_key(var@),
        ensures
            final(self)@ == old(self)@.insert(var@, value@),
    {
        let mut entries = self.take_entries();
        proof {
            lemma_entries_view_bindings(entries@);
            lemma_entries_view_push(entries@, (var, value));
            lemma_distinct_names_push(entries@, (var, value));
        }
        entries.push((var, value));
        self.entries = entries;
    }

    /// The value that `variable` is bound to, if any.
    pub fn lookup(&self, variable: &Variable) -> (r: Option<&Value>)
        ensures
            match r {
                Some(value) => self@.contains_key(variable@) && self@[variable@] == value@,
                None => !self@.contains_key(variable@),
            },
    {
        proof {
            use_type_invariant(self);
            lemma_entries_view_bindings(self.entries@);
            assert(self@ == entries_view(self.entries@));
        }
        match self.position(variable) {
            Some(i) => {
                assert(self@[self.entries@[i as int].0@] == self.entries@[i as int].1@);
                Some(&self.entries[i].1)
            },
            None => None,
        }
    }

    /// Takes the binding of `var` out of the environment and returns its value.
    pub fn remove(&mut self, var: &Variable) -> (removed: Option<Value>)
        ensures
            final(self)@ == old(self)@.remove(var@),
            option_view(removed) == binding(old(self)@, var@),
    {
        proof {
            use_type_invariant(&*self);
            lemma_entries_view_bindings(self.entries@);
            assert(self@ == entries_view(self.entries@));
        }
        match self.position(var) {
            Some(i) => {
                let mut entries = self.take_entries();
                proof {
                    lemma_entries_view_remove(entries@, i as int);
                }
                let entry = entries.remove(i);
                self.entries = entries;
                Some(entry.1)
            },
            None => {
                assert(self@ =~= self@.remove(var@));
                None
            },
        }
    }

    /// Binds `var` to `value` and returns the value that it was bound to before.
    pub fn shadow(&mut self, var: &Variable, value: Value) -> (saved: Option<Value>)
        ensures
            final(self)@ == old(self)@.insert(var@, value@),
            option_view(saved) == binding(old(self)@, var@),
    {
        let saved = self.remove(var);
        let name = var.clone();
        let mut entries = self.take_entries();
        proof {
            lemma_entries_view_bindings(entries@);
            lemma_entries_view_push(entries@, (name, value));
            assert(old(self)@.remove(var@).insert(var@, value@) =~= old(self)@.insert(var@, value@));
            assert(!entries_view(entries@).contains_key(var@));
            lemma_distinct_names_push(entries@, (name, value));
        }
        entries.push((name, value));
        self.entries = entries;
        saved
    }

    /// Gives `var` back the binding in `saved`, or none where `saved` holds nothing.
    pub fn restore(&mut self, var: &Variable, saved: Option<Value>)
        ensures
            final(self)@ == restore_binding(old(self)@, var@, option_view(saved)),
    {
        match saved {
            Some(value) => {
                self.shadow(var, value);
            },
            None => {
                self.remove(var);
            },
        }
    }

    /// Runs `func` on the environment with `var` bound to `value`, then gives `var`
    /// back the binding it had before, or none if it had none. Where `func` leaves
    /// the environment as it finds it, so does `with_var`, whatever `func` returns.
    pub fn with_var<T, F: FnOnce(&mut Context) -> T>(
        &mut self,
        var: &Variable,
        value: Value,
        func: F,
    ) -> (out: T)
        requires
            forall|scope: &mut Context|
                scope@ == old(self)@.insert(var@, value@) ==> #[trigger] func.requires((scope,)),
        ensures
            exists|scope: &mut Context|
                {
                    &&& scope@ == old(self)@.insert(var@, value@)
                    &&& #[trigger] func.ensures((scope,), out)
                    &&& final(self)@ == restore_binding(
                        final(scope)@,
                        var@,
                        binding(old(self)@, var@),
                    )
                },
            (forall|scope: &mut Context, result: T| #[trigger]
                func.ensures((scope,), result) ==> final(scope)@ == scope@) ==> final(self)@
                == old(self)@,
    {
        let saved = self.shadow(var, value);
        let out = func(self);
        self.restore(var, saved);
        assert(restore_binding(old(self)@.insert(var@, value@), var@, binding(old(self)@, var@))
            =~= old(self)@);
        out
    }

    /// Moves the bindings out and leaves the environment empty.
    fn take_entries(&mut self) -> (entries: Vec<(Variable, Value)>)
        ensures
            entries@ == old(self).entries@,
            distinct_names(entries@),
            final(self).entries@ == Seq::<(Variable, Value)>::empty(),
    {
        proof {
            use_type_invariant(&*self);
        }
        let mut entries: Vec<(Variable, Value)> = Vec::new();
        core::mem::swap(&mut self.entries, &mut entries);
        entries
    }

    /// Where in the list `var` is bound, if it is.
    fn position(&self, var: &Variable) -> (r: Option<usize>)
        ensures
            match r {
                Some(i) => i < self.entries.len() && self.entries[i as int].0@ == var@,
                None => !binds(self.entries@, var@),
            },
    {
        let mut i: usize = 0;
        while i < self.entries.len()
            invariant
                i <= self.entries.len(),
                forall|j: int| 0 <= j < i ==> self.entries[j].0@ != var@,
            decreases self.entries.len() - i,
        {
            if self.entries[i].0 == *var {
                return Some(i);
            }
            i = i + 1;
        }
        None
    }
}

impl Clone for Context {
    fn clone(&self) -> (r: Self)
        ensures
            r@ == self@,
        decreases self,
    {
        let mut entries: Vec<(Variable, Value)> = Vec::new();
        let mut i: usize = 0;
        proof {
            use_type_invariant(self);
        }
        while i < self.entries.len()
            invariant
                i <= self.entries.len(),
                entries.len() == i,
                forall|j: int| 0 <= j < i ==> entries[j].0@ == self.entries[j].0@,
                forall|j: int| 0 <= j < i ==> entries[j].1@ == self.entries[j].1@,
            decreases self.entries.len() - i,
        {
            let var = self.entries[i].0.clone();
            let value = self.entries[i].1.clone();
            entries.push((var, value));
            i = i + 1;
        }
        proof {
            lemma_entries_view_congruent(entries@, self.entries@);
            assert(distinct_names(entries@)) by {
                assert forall|a: int, b: int| 0 <= a < b < entries.len() implies entries[a].0@
                    != entries[b].0@ by {
                    assert(self.entries[a].0@ != self.entries[b].0@);
                }
            }
        }
        Context { entries }
    }
}

/// Lists that agree binding by binding stand for the same map.
proof fn lemma_entries_view_congruent(a: Seq<(Variable, Value)>, b: Seq<(Variable, Value)>)
    requires
        a.len() == b.len(),
        forall|j: int| 0 <= j < a.len() ==> a[j].0@ == b[j].0@ && a[j].1@ == b[j].1@,
    ensures
        entries_view(a) == entries_view(b),
    decreases a.len(),
{
    if a.len() > 0 {
        lemma_entries_view_congruent(a.drop_last(), b.drop_last());
    }
}

/// The domain of `entries_view(s)` is the set of names bound in `s`, and where
/// no name is bound twice each binding is found under its name.
proof fn lemma_entries_view_bindings(s: Seq<(Variable, Value)>)
    ensures
        forall|name: Seq<char>| #[trigger] entries_view(s).contains_key(name) <==> binds(s, name),
        distinct_names(s) ==> forall|i: int|
            0 <= i < s.len() ==> #[trigger] entries_view(s)[s[i].0@] == s[i].1@,
    decreases s.len(),
{
    if s.len() > 0 {
        let init = s.drop_last();
        lemma_entries_view_bindings(init);
        assert(entries_view(s) == entries_view(init).insert(s.last().0@, s.last().1@));
        assert forall|name: Seq<char>| #[trigger]
            entries_view(s).contains_key(name) <==> binds(s, name) by {
            if name == s.last().0@ {
                assert(s[s.len() - 1].0@ == name);
            } else {
                assert(entries_view(s).contains_key(name) <==> entries_view(init).contains_key(
                    name,
                ));
                if binds(s, name) {
                    let i = choose|i: int| 0 <= i < s.len() && #[trigger] s[i].0@ == name;
                    assert(init[i].0@ == name);
                    assert(binds(init, name));
                }
                if binds(init, name) {
                    let i = choose|i: int| 0 <= i < init.len() && #[trigger] init[i].0@ == name;
                    assert(s[i].0@ == name);
                }
            }
        }
        if distinct_names(s) {
            assert(distinct_names(init)) by {
                assert forall|i: int, j: int| 0 <= i < j < init.len() implies init[i].0@
                    != init[j].0@ by {
                    assert(s[i].0@ != s[j].0@);
                }
            }
            assert forall|i: int| 0 <= i < s.len() implies #[trigger] entries_view(s)[s[i].0@]
                == s[i].1@ by {
                if i < s.len() - 1 {
                    assert(s[i].0@ != s[s.len() - 1].0@);
                    assert(init[i] == s[i]);
                    assert(entries_view(init)[init[i].0@] == init[i].1@);
                }
            }
        }
    }
}

/// A binding pushed onto the list is one inserted into the map.
proof fn lemma_entries_view_push(s: Seq<(Variable, Value)>, entry: (Variable, Value))
    ensures
        entries_view(s.push(entry)) == entries_view(s).insert(entry.0@, entry.1@),
{
    assert(s.push(entry).drop_last() == s);
}

/// Pushing a name that is not bound keeps the names distinct.
proof fn lemma_distinct_names_push(s: Seq<(Variable, Value)>, entry: (Variable, Value))
    requires
        distinct_names(s),
        !binds(s, entry.0@),
    ensures
        distinct_names(s.push(entry)),
{
    let t = s.push(entry);
    assert forall|a: int, b: int| 0 <= a < b < t.len() implies t[a].0@ != t[b].0@ by {
        if b < s.len() {
            assert(s[a].0@ != s[b].0@);
        } else if s[a].0@ == entry.0@ {
            assert(binds(s, entry.0@));
        }
    }
}

/// Taking a binding out of a list of distinct names removes its name from the map.
proof fn lemma_entries_view_remove(s: Seq<(Variable, Value)>, i: int)
    requires
        distinct_names(s),
        0 <= i < s.len(),
    ensures
        distinct_names(s.remove(i)),
        entries_view(s.remove(i)) == entries_view(s).remove(s[i].0@),
{
    let t = s.remove(i);
    assert forall|a: int, b: int| 0 <= a < b < t.len() implies t[a].0@ != t[b].0@ by {
        let a0 = if a < i { a } else { a + 1 };
        let b0 = if b < i { b } else { b + 1 };
        assert(s[a0].0@ != s[b0].0@);
    }
    lemma_entries_view_bindings(s);
    lemma_entries_view_bindings(t);
    assert forall|name: Seq<char>|
        entries_view(t).contains_key(name) <==> #[trigger] entries_view(s).remove(
            s[i].0@,
        ).contains_key(name) by {
        if binds(t, name) {
            let a = choose|a: int| 0 <= a < t.len() && #[trigger] t[a].0@ == name;
            let a0 = if a < i { a } else { a + 1 };
            assert(s[a0].0@ == name);
            assert(s[a0].0@ != s[i].0@);
        }
        if binds(s, name) && name != s[i].0@ {
            let a0 = choose|a: int| 0 <= a < s.len() && #[trigger] s[a].0@ == name;
            let a = if a0 < i { a0 } else { a0 - 1 };
            assert(t[a].0@ == name);
        }
    }
    assert forall|name: Seq<char>| entries_view(t).contains_key(name) implies #[trigger]
        entries_view(t)[name] == entries_view(s).remove(s[i].0@)[name] by {
        let a = choose|a: int| 0 <= a < t.len() && #[trigger] t[a].0@ == name;
        let a0 = if a < i { a } else { a + 1 };
        assert(t[a] == s[a0]);
        assert(entries_view(t)[t[a].0@] == t[a].1@);
        assert(entries_view(s)[s[a0].0@] == s[a0].1@);
    }
    assert(entries_view(t) =~= entries_view(s).remove(s[i].0@));
}

} // verus!
