//! Environments: two tiers of bindings for variables and for functions,
//! and the fork that makes a child scope by snapshot.

use crate::types::function::{lambda_of, Lambda, UserFunction};
use crate::types::{same_str, share, Cons, Sexp};
use std::sync::Arc;
use vstd::prelude::*;

verus! {

/// Mathematical model of an environment: for variables and for functions, a
/// table of the bindings taken over from the enclosing scope and a table of
/// those made in this scope.
pub struct Scope {
    pub environ: Map<Seq<char>, Sexp>,
    pub local: Map<Seq<char>, Sexp>,
    pub environ_func: Map<Seq<char>, Lambda>,
    pub local_func: Map<Seq<char>, Lambda>,
}

impl Scope {
    /// The environment without any binding.
    pub open spec fn empty() -> Scope {
        Scope {
            environ: Map::empty(),
            local: Map::empty(),
            environ_func: Map::empty(),
            local_func: Map::empty(),
        }
    }

    /// The variable bound to `name`: the local one first, then the
    /// inherited one.
    pub open spec fn lookup(self, name: Seq<char>) -> Option<Sexp> {
        if self.local.contains_key(name) {
            Some(self.local[name])
        } else if self.environ.contains_key(name) {
            Some(self.environ[name])
        } else {
            None
        }
    }

    /// The function bound to `name`: the local one first, then the
    /// inherited one.
    pub open spec fn lookup_func(self, name: Seq<char>) -> Option<Lambda> {
        if self.local_func.contains_key(name) {
            Some(self.local_func[name])
        } else if self.environ_func.contains_key(name) {
            Some(self.environ_func[name])
        } else {
            None
        }
    }

    /// The environment after binding the variable `name` locally.
    pub open spec fn bind(self, name: Seq<char>, value: Sexp) -> Scope {
        Scope { local: self.local.insert(name, value), ..self }
    }

    /// The environment after binding the function `name` locally.
    pub open spec fn bind_func(self, name: Seq<char>, func: Lambda) -> Scope {
        Scope { local_func: self.local_func.insert(name, func), ..self }
    }

    /// The child environment: it inherits every binding visible here, a
    /// local one hiding an inherited one of the same name, and has no local
    /// binding of its own.
    pub open spec fn fork(self) -> Scope {
        Scope {
            environ: self.environ.union_prefer_right(self.local),
            local: Map::empty(),
            environ_func: self.environ_func.union_prefer_right(self.local_func),
            local_func: Map::empty(),
        }
    }
}

/// The table that a run of bindings stands for: a later binding of a name
/// hides an earlier one.
pub open spec fn table_of<V>(entries: Seq<(Seq<char>, V)>) -> Map<Seq<char>, V>
    decreases entries.len(),
{
    if entries.len() == 0 {
        Map::empty()
    } else {
        table_of(entries.drop_last()).insert(entries.last().0, entries.last().1)
    }
}

/// The index of the last binding of `name` among `entries`.
pub open spec fn last_bound<V>(entries: Seq<(Seq<char>, V)>, name: Seq<char>) -> Option<int>
    decreases entries.len(),
{
    if entries.len() == 0 {
        None
    } else if entries.last().0 == name {
        Some(entries.len() - 1)
    } else {
        last_bound(entries.drop_last(), name)
    }
}

/// A table holds a name exactly if some binding has it, and then with the
/// value of the last such binding.
pub proof fn lemma_table_lookup<V>(entries: Seq<(Seq<char>, V)>, name: Seq<char>)
    ensures
        table_of(entries).contains_key(name) <==> last_bound(entries, name) is Some,
        last_bound(entries, name) matches Some(i) ==> 0 <= i < entries.len() && entries[i].0
            == name && table_of(entries)[name] == entries[i].1,
    decreases entries.len(),
{
    if entries.len() > 0 {
        lemma_table_lookup(entries.drop_last(), name);
    }
}

/// The table of two runs of bindings, one after the other, is the table of
/// the first overridden by the table of the second.
pub proof fn lemma_table_concat<V>(first: Seq<(Seq<char>, V)>, second: Seq<(Seq<char>, V)>)
    ensures
        table_of(first + second) == table_of(first).union_prefer_right(table_of(second)),
    decreases second.len(),
{
    if second.len() == 0 {
        assert(first + second =~= first);
        assert(table_of(first).union_prefer_right(table_of(second)) =~= table_of(first));
    } else {
        lemma_table_concat(first, second.drop_last());
        assert((first + second).drop_last() =~= first + second.drop_last());
        assert(table_of(first + second) =~= table_of(first).union_prefer_right(
            table_of(second),
        ));
    }
}

/// A new value in the place of the last binding of a name is what binding
/// the name anew comes to.
pub proof fn lemma_table_update<V>(entries: Seq<(Seq<char>, V)>, i: int, value: V)
    requires
        0 <= i < entries.len(),
        last_bound(entries, entries[i].0) == Some(i),
    ensures
        table_of(entries.update(i, (entries[i].0, value))) == table_of(entries).insert(
            entries[i].0,
            value,
        ),
    decreases entries.len(),
{
    let name = entries[i].0;
    let updated = entries.update(i, (name, value));
    if i == entries.len() - 1 {
        assert(updated.drop_last() =~= entries.drop_last());
        assert(table_of(updated) =~= table_of(entries).insert(name, value));
    } else {
        assert(updated.drop_last() =~= entries.drop_last().update(i, (name, value)));
        lemma_table_update(entries.drop_last(), i, value);
        assert(table_of(updated) =~= table_of(entries).insert(name, value));
    }
}

/// A fork sees every binding that its parent sees.
pub proof fn lemma_fork_inherits(parent: Scope, name: Seq<char>)
    ensures
        parent.fork().lookup(name) == parent.lookup(name),
        parent.fork().lookup_func(name) == parent.lookup_func(name),
{
}

/// A binding made in a fork is seen there, hides what the parent has under
/// that name, and leaves every other name as the parent has it.
pub proof fn lemma_fork_isolates(parent: Scope, name: Seq<char>, value: Sexp, other: Seq<char>)
    requires
        other != name,
    ensures
        parent.fork().bind(name, value).lookup(name) == Some(value),
        parent.fork().bind(name, value).lookup(other) == parent.lookup(other),
        parent.fork().bind(name, value).lookup_func(other) == parent.lookup_func(other),
{
}

/// A variable and a function of one name live side by side: binding the
/// one leaves the other as it was.
pub proof fn lemma_tables_are_apart(scope: Scope, name: Seq<char>, value: Sexp, func: Lambda)
    ensures
        scope.bind(name, value).lookup_func(name) == scope.lookup_func(name),
        scope.bind_func(name, func).lookup(name) == scope.lookup(name),
{
}

/// The environment without any binding knows no name.
pub proof fn lemma_empty_knows_nothing(name: Seq<char>)
    ensures
        Scope::empty().lookup(name) is None,
        Scope::empty().lookup_func(name) is None,
{
}

/// A variable binding.
#[derive(Debug)]
pub struct VarBinding {
    pub name: String,
    pub value: Cons,
}

/// A function binding. The closure is shared between an environment and
/// its forks.
#[derive(Debug)]
pub struct FuncBinding {
    pub name: String,
    pub func: Arc<UserFunction>,
}

/// The names and values of a run of variable bindings.
pub open spec fn var_entries(bindings: Seq<VarBinding>) -> Seq<(Seq<char>, Sexp)> {
    Seq::new(bindings.len(), |i: int| (bindings[i].name@, bindings[i].value@))
}

/// The names and closures of a run of function bindings.
pub open spec fn func_entries(bindings: Seq<FuncBinding>) -> Seq<(Seq<char>, Lambda)>
    decreases bindings,
{
    Seq::new(
        bindings.len(),
        |i: int|
            if 0 <= i < bindings.len() {
                (bindings[i].name@, lambda_of(*bindings[i].func))
            } else {
                arbitrary()
            },
    )
}

/// An environment: variables and functions, each in an inherited and a
/// local tier.
#[derive(Debug)]
pub struct LexicalVarStorage {
    environ: Vec<VarBinding>,
    local: Vec<VarBinding>,
    environ_func: Vec<FuncBinding>,
    local_func: Vec<FuncBinding>,
}

pub closed spec fn scope_of(s: LexicalVarStorage) -> Scope
    decreases s,
{
    Scope {
        environ: table_of(var_entries(s.environ@)),
        local: table_of(var_entries(s.local@)),
        environ_func: table_of(func_entries(s.environ_func@)),
        local_func: table_of(func_entries(s.local_func@)),
    }
}

impl View for LexicalVarStorage {
    type V = Scope;

    open spec fn view(&self) -> Scope {
        scope_of(*self)
    }
}

/// The index of the last binding of `name`, if there is one.
fn find_var(bindings: &Vec<VarBinding>, name: &str) -> (r: Option<usize>)
    ensures
        r is Some <==> last_bound(var_entries(bindings@), name@) is Some,
        r matches Some(i) ==> last_bound(var_entries(bindings@), name@) == Some(i as int),
{
    let ghost entries = var_entries(bindings@);
    let mut i: usize = bindings.len();
    assert(entries.take(i as int) =~= entries);
    while i > 0
        invariant
            i <= bindings@.len(),
            entries == var_entries(bindings@),
            last_bound(entries, name@) == last_bound(entries.take(i as int), name@),
        decreases i,
    {
        assert(entries.take(i as int).drop_last() =~= entries.take(i - 1));
        if same_str(bindings[i - 1].name.as_str(), name) {
            return Some(i - 1);
        }
        i -= 1;
    }
    None
}

/// The index of the last binding of `name`, if there is one.
fn find_func(bindings: &Vec<FuncBinding>, name: &str) -> (r: Option<usize>)
    ensures
        r is Some <==> last_bound(func_entries(bindings@), name@) is Some,
        r matches Some(i) ==> last_bound(func_entries(bindings@), name@) == Some(i as int),
{
    let ghost entries = func_entries(bindings@);
    let mut i: usize = bindings.len();
    assert(entries.take(i as int) =~= entries);
    while i > 0
        invariant
            i <= bindings@.len(),
            entries == func_entries(bindings@),
            last_bound(entries, name@) == last_bound(entries.take(i as int), name@),
        decreases i,
    {
        assert(entries.take(i as int).drop_last() =~= entries.take(i - 1));
        if same_str(bindings[i - 1].name.as_str(), name) {
            return Some(i - 1);
        }
        i -= 1;
    }
    None
}

/// Appends copies of `from` to `into`.
fn extend_vars(into: &mut Vec<VarBinding>, from: &Vec<VarBinding>)
    ensures
        var_entries(final(into)@) == var_entries(old(into)@) + var_entries(from@),
{
    let mut i: usize = 0;
    while i < from.len()
        invariant
            i <= from@.len(),
            var_entries(into@) == var_entries(old(into)@) + var_entries(from@).take(i as int),
        decreases from@.len() - i,
    {
        let ghost before = var_entries(into@);
        let binding = VarBinding { name: from[i].name.clone(), value: from[i].value.clone() };
        into.push(binding);
        proof {
            assert(var_entries(into@) =~= before.push(var_entries(from@)[i as int]));
            assert(var_entries(from@).take(i + 1) =~= var_entries(from@).take(i as int).push(
                var_entries(from@)[i as int],
            ));
            assert(var_entries(into@) =~= var_entries(old(into)@) + var_entries(from@).take(
                i + 1,
            ));
        }
        i += 1;
    }
    assert(var_entries(from@).take(i as int) =~= var_entries(from@));
}

/// Appends copies of `from` to `into`; the closures are shared, not copied.
fn extend_funcs(into: &mut Vec<FuncBinding>, from: &Vec<FuncBinding>)
    ensures
        func_entries(final(into)@) == func_entries(old(into)@) + func_entries(from@),
{
    let mut i: usize = 0;
    while i < from.len()
        invariant
            i <= from@.len(),
            func_entries(into@) == func_entries(old(into)@) + func_entries(from@).take(i as int),
        decreases from@.len() - i,
    {
        let ghost before = func_entries(into@);
        let binding = FuncBinding { name: from[i].name.clone(), func: share(&from[i].func) };
        into.push(binding);
        proof {
            assert(func_entries(into@) =~= before.push(func_entries(from@)[i as int]));
            assert(func_entries(from@).take(i + 1) =~= func_entries(from@).take(i as int).push(
                func_entries(from@)[i as int],
            ));
            assert(func_entries(into@) =~= func_entries(old(into)@) + func_entries(from@).take(
                i + 1,
            ));
        }
        i += 1;
    }
    assert(func_entries(from@).take(i as int) =~= func_entries(from@));
}

impl LexicalVarStorage {
    /// The environment without any binding.
    pub fn new() -> (r: Self)
        ensures
            r@ == Scope::empty(),
    {
        let r = LexicalVarStorage {
            environ: Vec::new(),
            local: Vec::new(),
            environ_func: Vec::new(),
            local_func: Vec::new(),
        };
        proof {
            assert(var_entries(r.environ@) =~= Seq::empty());
            assert(func_entries(r.environ_func@) =~= Seq::empty());
        }
        r
    }

    /// The variable bound to `name`, looked for among the local bindings
    /// first and among the inherited ones then.
    pub fn get(&self, name: &str) -> (r: Option<&Cons>)
        ensures
            r is Some <==> self@.lookup(name@) is Some,
            r matches Some(value) ==> self@.lookup(name@) == Some(value@),
    {
        proof {
            lemma_table_lookup(var_entries(self.local@), name@);
            lemma_table_lookup(var_entries(self.environ@), name@);
        }
        match find_var(&self.local, name) {
            Some(i) => Some(&self.local[i].value),
            None => match find_var(&self.environ, name) {
                Some(i) => Some(&self.environ[i].value),
                None => None,
            },
        }
    }

    /// Binds the variable `name` locally, in place of any local binding it
    /// had.
    pub fn put(&mut self, name: &str, value: Cons)
        ensures
            final(self)@ == old(self)@.bind(name@, value@),
    {
        let ghost before = var_entries(self.local@);
        let binding = VarBinding { name: name.to_owned(), value };
        match find_var(&self.local, name) {
            Some(i) => {
                proof {
                    lemma_table_lookup(before, name@);
                    lemma_table_update(before, i as int, value@);
                }
                self.local.set(i, binding);
                assert(var_entries(self.local@) =~= before.update(i as int, (name@, value@)));
            },
            None => {
                self.local.push(binding);
                assert(var_entries(self.local@).drop_last() =~= before);
            },
        }
    }

    /// The function bound to `name`, looked for among the local bindings
    /// first and among the inherited ones then.
    pub fn get_func(&self, name: &str) -> (r: Option<&UserFunction>)
        ensures
            r is Some <==> self@.lookup_func(name@) is Some,
            r matches Some(func) ==> self@.lookup_func(name@) == Some(func@),
    {
        proof {
            lemma_table_lookup(func_entries(self.local_func@), name@);
            lemma_table_lookup(func_entries(self.environ_func@), name@);
        }
        match find_func(&self.local_func, name) {
            Some(i) => Some(&*self.local_func[i].func),
            None => match find_func(&self.environ_func, name) {
                Some(i) => Some(&*self.environ_func[i].func),
                None => None,
            },
        }
    }

    /// Binds the function `name` locally, in place of any local binding it
    /// had.
    pub fn put_func(&mut self, name: &str, value: UserFunction)
        ensures
            final(self)@ == old(self)@.bind_func(name@, value@),
    {
        let ghost before = func_entries(self.local_func@);
        let ghost closure = value@;
        let binding = FuncBinding { name: name.to_owned(), func: Arc::new(value) };
        match find_func(&self.local_func, name) {
            Some(i) => {
                proof {
                    lemma_table_lookup(before, name@);
                    lemma_table_update(before, i as int, closure);
                }
                self.local_func.set(i, binding);
                assert(func_entries(self.local_func@) =~= before.update(
                    i as int,
                    (name@, closure),
                ));
            },
            None => {
                self.local_func.push(binding);
                assert(func_entries(self.local_func@).drop_last() =~= before);
            },
        }
    }

    /// The child environment: a snapshot of every binding visible here as
    /// its inherited tier, and an empty local tier. Later changes to either
    /// environment do not reach the other.
    pub fn fork(&self) -> (r: LexicalVarStorage)
        ensures
            r@ == self@.fork(),
    {
        let mut environ: Vec<VarBinding> = Vec::new();
        let mut environ_func: Vec<FuncBinding> = Vec::new();
        proof {
            assert(var_entries(environ@) =~= Seq::empty());
            assert(func_entries(environ_func@) =~= Seq::empty());
        }
        extend_vars(&mut environ, &self.environ);
        extend_vars(&mut environ, &self.local);
        extend_funcs(&mut environ_func, &self.environ_func);
        extend_funcs(&mut environ_func, &self.local_func);
        let r = LexicalVarStorage {
            environ,
            local: Vec::new(),
            environ_func,
            local_func: Vec::new(),
        };
        proof {
            lemma_table_concat(var_entries(self.environ@), var_entries(self.local@));
            lemma_table_concat(func_entries(self.environ_func@), func_entries(self.local_func@));
            assert(var_entries(r.environ@) =~= var_entries(self.environ@) + var_entries(
                self.local@,
            ));
            assert(func_entries(r.environ_func@) =~= func_entries(self.environ_func@)
                + func_entries(self.local_func@));
            assert(var_entries(r.local@) =~= Seq::empty());
            assert(func_entries(r.local_func@) =~= Seq::empty());
        }
        r
    }
}

impl Clone for LexicalVarStorage {
    fn clone(&self) -> (r: Self)
        ensures
            r@ == self@,
    {
        let mut environ: Vec<VarBinding> = Vec::new();
        let mut local: Vec<VarBinding> = Vec::new();
        let mut environ_func: Vec<FuncBinding> = Vec::new();
        let mut local_func: Vec<FuncBinding> = Vec::new();
        proof {
            assert(var_entries(environ@) =~= Seq::empty());
            assert(var_entries(local@) =~= Seq::empty());
            assert(func_entries(environ_func@) =~= Seq::empty());
            assert(func_entries(local_func@) =~= Seq::empty());
        }
        extend_vars(&mut environ, &self.environ);
        extend_vars(&mut local, &self.local);
        extend_funcs(&mut environ_func, &self.environ_func);
        extend_funcs(&mut local_func, &self.local_func);
        let r = LexicalVarStorage { environ, local, environ_func, local_func };
        proof {
            assert(var_entries(r.environ@) =~= var_entries(self.environ@));
            assert(var_entries(r.local@) =~= var_entries(self.local@));
            assert(func_entries(r.environ_func@) =~= func_entries(self.environ_func@));
            assert(func_entries(r.local_func@) =~= func_entries(self.local_func@));
        }
        r
    }
}

} // verus!
