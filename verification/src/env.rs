//! Environments: a chain of scopes that maps identifiers to values.

use vstd::prelude::*;
use vstd::hash_map::StringHashMap;
use crate::value::{view_opt_value, SpecValue, Value};

verus! {

/// The bindings of one scope.
pub type Scope = Map<Seq<char>, SpecValue>;

/// The mathematical model of an [`Environment`]: the bindings of the current
/// scope and those of the scopes around it, the outermost first.
pub struct SpecEnv {
    pub local: Scope,
    pub outer: Seq<Scope>,
}

/// The value that the innermost of `scopes` holding `ident` gives it. The last
/// scope is the innermost.
pub open spec fn lookup(scopes: Seq<Scope>, ident: Seq<char>) -> Option<SpecValue>
    decreases scopes.len(),
{
    if scopes.len() == 0 {
        None
    } else if scopes.last().contains_key(ident) {
        Some(scopes.last()[ident])
    } else {
        lookup(scopes.drop_last(), ident)
    }
}

impl SpecEnv {
    /// An environment of one empty scope.
    pub open spec fn fresh() -> SpecEnv {
        SpecEnv { local: Map::empty(), outer: Seq::empty() }
    }

    /// Whether the current scope itself binds `ident`.
    pub open spec fn has(self, ident: Seq<char>) -> bool {
        self.local.contains_key(ident)
    }

    /// The value of `ident`: that of the current scope if it binds `ident`,
    /// else that of the nearest enclosing scope that does.
    pub open spec fn get(self, ident: Seq<char>) -> Option<SpecValue> {
        if self.local.contains_key(ident) {
            Some(self.local[ident])
        } else {
            lookup(self.outer, ident)
        }
    }

    /// The environment after binding `ident` in the current scope. The
    /// enclosing scopes stay as they are.
    pub open spec fn put(self, ident: Seq<char>, value: SpecValue) -> SpecEnv {
        SpecEnv { local: self.local.insert(ident, value), outer: self.outer }
    }

    /// A new, empty scope inside this environment.
    pub open spec fn child(self) -> SpecEnv {
        SpecEnv { local: Map::empty(), outer: self.outer.push(self.local) }
    }

    /// The environment around the current scope, if there is one.
    pub open spec fn parent(self) -> Option<SpecEnv> {
        if self.outer.len() == 0 {
            None
        } else {
            Some(SpecEnv { local: self.outer.last(), outer: self.outer.drop_last() })
        }
    }
}

/// The model of the bindings held in a table.
pub open spec fn view_scope(table: Map<Seq<char>, Value>) -> Scope {
    table.map_values(|value: Value| value@)
}

/// A chain of scopes. Lookups go from the current scope outwards; insertions
/// go to the current scope only.
pub struct Environment {
    table: StringHashMap<Value>,
    enclosing: Vec<StringHashMap<Value>>,
}

impl Environment {
    /// The model of the environment.
    pub closed spec fn view(&self) -> SpecEnv {
        SpecEnv {
            local: view_scope(self.table@),
            outer: Seq::new(self.enclosing@.len(), |i: int| view_scope(self.enclosing@[i]@)),
        }
    }

    /// An environment of one empty scope.
    pub fn new() -> (env: Self)
        ensures
            env@ == SpecEnv::fresh(),
    {
        let env = Environment { table: StringHashMap::new(), enclosing: Vec::new() };
        assert(env@.local =~= Map::empty());
        assert(env@.outer =~= Seq::empty());
        env
    }

    /// A new, empty scope inside `parent`.
    pub fn new_with_parent(parent: Environment) -> (env: Self)
        ensures
            env@ == parent@.child(),
    {
        parent.wrap()
    }

    /// A new, empty scope inside this environment.
    pub fn wrap(self) -> (env: Self)
        ensures
            env@ == self@.child(),
    {
        let mut env = self;
        env.enter_scope();
        env
    }

    /// Opens a new, empty scope inside the current one.
    pub fn enter_scope(&mut self)
        ensures
            final(self)@ == old(self)@.child(),
    {
        let mut table: StringHashMap<Value> = StringHashMap::new();
        core::mem::swap(&mut self.table, &mut table);
        self.enclosing.push(table);
        assert(final(self)@.local =~= Map::empty());
        assert(final(self)@.outer =~= old(self)@.outer.push(old(self)@.local));
    }

    /// Closes the current scope and drops its bindings. The outermost scope
    /// cannot be closed: the call then changes nothing.
    pub fn leave_scope(&mut self)
        ensures
            final(self)@ == match old(self)@.parent() {
                Some(parent) => parent,
                None => old(self)@,
            },
    {
        match self.enclosing.pop() {
            Some(table) => {
                self.table = table;
                assert(final(self)@.outer =~= old(self)@.outer.drop_last());
            },
            None => {
                assert(final(self)@.outer =~= old(self)@.outer);
            },
        }
    }

    /// Does the current scope itself bind `ident`?
    pub fn has(&self, ident: String) -> (found: bool)
        ensures
            found == self@.has(ident@),
    {
        self.table.contains_key(ident.as_str())
    }

    /// The value of `ident` in the nearest scope that binds it.
    pub fn get(&self, ident: String) -> (found: Option<Value>)
        ensures
            view_opt_value(found) == self@.get(ident@),
    {
        match self.table.get(ident.as_str()) {
            Some(value) => Some(value.clone()),
            None => {
                let mut depth: usize = self.enclosing.len();
                let mut found: Option<Value> = None;
                assert(self@.outer.take(depth as int) =~= self@.outer);
                while depth > 0
                    invariant_except_break
                        found is None,
                        lookup(self@.outer, ident@) == lookup(
                            self@.outer.take(depth as int),
                            ident@,
                        ),
                    invariant
                        depth <= self.enclosing.len(),
                        self@.outer.len() == self.enclosing.len(),
                        forall|i: int|
                            0 <= i < self.enclosing.len() ==> self@.outer[i] == view_scope(
                                self.enclosing@[i]@,
                            ),
                    ensures
                        view_opt_value(found) == lookup(self@.outer, ident@),
                    decreases depth,
                {
                    depth -= 1;
                    proof {
                        let upto = self@.outer.take(depth + 1);
                        assert(upto.last() == self@.outer[depth as int]);
                        assert(upto.drop_last() =~= self@.outer.take(depth as int));
                    }
                    match self.enclosing[depth].get(ident.as_str()) {
                        Some(value) => {
                            found = Some(value.clone());
                            break ;
                        },
                        None => {},
                    }
                }
                found
            },
        }
    }

    /// Binds `ident` to `value` in the current scope and returns the value
    /// that the current scope gave it before, if any. Enclosing scopes are
    /// neither searched nor changed.
    pub fn put(&mut self, ident: String, value: Value) -> (previous: Option<Value>)
        ensures
            final(self)@ == old(self)@.put(ident@, value@),
            view_opt_value(previous) == if old(self)@.has(ident@) {
                Some(old(self)@.local[ident@])
            } else {
                None
            },
    {
        let previous = match self.table.get(ident.as_str()) {
            Some(value) => Some(value.clone()),
            None => None,
        };
        self.table.insert(ident, value);
        assert(final(self)@.local =~= old(self)@.local.insert(ident@, value@));
        assert(final(self)@.outer =~= old(self)@.outer);
        previous
    }
}

} // verus!
