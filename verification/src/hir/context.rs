//! Scopes of local variables used while type checking a function body.
use vstd::prelude::*;
use vstd::string::StringExecFns;
use crate::hir::ty::HirTy;
use crate::utils::Span;
use crate::text::str_eq;
use crate::hir::keyed::{distinct_keys, find_key, lookup, lemma_lookup_update_at};

verus! {

/// A local variable or parameter known to the type checker.
#[derive(Debug)]
pub struct ContextVariable {
    pub name: String,
    pub name_span: Span,
    pub ty: HirTy,
    pub _ty_span: Span,
    pub _is_mut: bool,
    /// Whether this is a function parameter (rather than a local variable).
    pub is_param: bool,
    /// The locals this variable holds pointers to, directly or through other variables,
    /// used to detect returning pointers to locals.
    pub ptrs_to_locals: Vec<String>,
}

/// The variables of a scope, by name: a later entry for a name hides an earlier one.
pub open spec fn vars_map(vars: Seq<(String, ContextVariable)>) -> Map<Seq<char>, ContextVariable>
    decreases vars.len(),
{
    if vars.len() == 0 {
        Map::empty()
    } else {
        vars_map(vars.drop_last()).insert(vars.last().0@, vars.last().1)
    }
}

/// Updating the last entry for a name changes the map at that name only.
proof fn lemma_vars_map_update(vars: Seq<(String, ContextVariable)>, k: int, entry: (String, ContextVariable))
    requires
        0 <= k < vars.len(),
        vars[k].0@ == entry.0@,
        forall|j: int| k < j < vars.len() ==> vars[j].0@ != entry.0@,
    ensures
        vars_map(vars.update(k, entry)) == vars_map(vars).insert(entry.0@, entry.1),
    decreases vars.len(),
{
    let u = vars.update(k, entry);
    if k == vars.len() - 1 {
        assert(u.drop_last() =~= vars.drop_last());
        assert(vars_map(u) =~= vars_map(vars).insert(entry.0@, entry.1));
    } else {
        lemma_vars_map_update(vars.drop_last(), k, entry);
        assert(u.drop_last() =~= vars.drop_last().update(k, entry));
        assert(vars_map(u) =~= vars_map(vars).insert(entry.0@, entry.1));
    }
}

/// The map holds `name` exactly when some entry does, with the value of the last such
/// entry.
proof fn lemma_vars_map_find(vars: Seq<(String, ContextVariable)>, k: int, name: Seq<char>)
    requires
        -1 <= k < vars.len(),
        k >= 0 ==> vars[k].0@ == name,
        forall|j: int| k < j < vars.len() ==> vars[j].0@ != name,
    ensures
        k >= 0 ==> vars_map(vars).contains_key(name) && vars_map(vars)[name] == vars[k].1,
        k < 0 ==> !vars_map(vars).contains_key(name),
    decreases vars.len(),
{
    if vars.len() > 0 && k != vars.len() - 1 {
        lemma_vars_map_find(vars.drop_last(), k, name);
    }
}

/// One block's variables, and the index of the enclosing scope.
#[derive(Debug)]
pub struct ContextScope {
    pub variables: Vec<(String, ContextVariable)>,
    pub parent: Option<usize>,
}

impl ContextScope {
    pub open spec fn view_map(&self) -> Map<Seq<char>, ContextVariable> {
        vars_map(self.variables@)
    }

    /// Each name is bound once in the scope (as the map of names it stands for keeps it).
    pub open spec fn wf(&self) -> bool {
        distinct_keys(self.variables@)
    }

    /// An empty scope inside `parent`.
    pub fn new(parent: Option<usize>) -> (r: Self)
        ensures
            r.variables@.len() == 0,
            r.parent == parent,
            r.wf(),
    {
        ContextScope { variables: Vec::new(), parent }
    }

    /// The variable called `name` in this scope.
    pub fn get(&self, name: &str) -> (r: Option<&ContextVariable>)
        ensures
            r == (if self.view_map().contains_key(name@) {
                Some(&self.view_map()[name@])
            } else {
                None::<&ContextVariable>
            }),
    {
        let mut k: usize = self.variables.len();
        while k > 0
            invariant
                k <= self.variables.len(),
                forall|j: int| k <= j < self.variables@.len() ==> self.variables@[j].0@ != name@,
            decreases k,
        {
            if str_eq(self.variables[k - 1].0.as_str(), name) {
                proof {
                    lemma_vars_map_find(self.variables@, k - 1, name@);
                }
                return Some(&self.variables[k - 1].1);
            }
            k = k - 1;
        }
        proof {
            lemma_vars_map_find(self.variables@, -1, name@);
        }
        None
    }

    /// Binds `name` to `var`, replacing an earlier binding of the name.
    pub fn insert(&mut self, name: &str, var: ContextVariable)
        ensures
            final(self).view_map() == old(self).view_map().insert(name@, var),
            final(self).parent == old(self).parent,
            old(self).wf() ==> final(self).wf(),
    {
        let ghost vars0 = self.variables@;
        let ghost parent0 = self.parent;
        let mut k: usize = self.variables.len();
        while k > 0
            invariant
                k <= self.variables.len(),
                self.variables@ == vars0,
                self.parent == parent0,
                vars0 == old(self).variables@,
                parent0 == old(self).parent,
                forall|j: int| k <= j < vars0.len() ==> vars0[j].0@ != name@,
            decreases k,
        {
            if str_eq(self.variables[k - 1].0.as_str(), name) {
                let key = String::from_str(name);
                proof {
                    lemma_vars_map_update(vars0, k - 1, (key, var));
                }
                self.variables.set(k - 1, (key, var));
                proof {
                    assert(self.variables@ == vars0.update(k - 1, (key, var)));
                    assert(vars0[k - 1].0@ == name@);
                }
                return;
            }
            k = k - 1;
        }
        self.variables.push((String::from_str(name), var));
        proof {
            assert(self.variables@.drop_last() =~= vars0);
            assert(self.variables@.last().0@ == name@);
        }
    }
}


/// The scopes of a function body: the innermost one is the last, and each scope's parent
/// comes before it.
pub struct ContextFunction {
    pub scopes: Vec<ContextScope>,
}

/// Scopes are well formed: there is at least one, every parent index points to an
/// earlier scope, and each scope binds each name once.
pub open spec fn scopes_wf(scopes: Seq<ContextScope>) -> bool {
    &&& scopes.len() >= 1
    &&& forall|i: int| 0 <= i < scopes.len() ==> (#[trigger] scopes[i].parent matches Some(p) ==> p < i)
    &&& forall|i: int| 0 <= i < scopes.len() ==> (#[trigger] scopes[i]).wf()
}

/// The variable `name` as seen from scope `i`: its own binding, else the one its parent
/// scope sees.
pub open spec fn lookup_from(scopes: Seq<ContextScope>, i: int, name: Seq<char>) -> Option<ContextVariable>
    decreases i + 1,
{
    if i < 0 || i >= scopes.len() {
        None
    } else if scopes[i].view_map().contains_key(name) {
        Some(scopes[i].view_map()[name])
    } else {
        match scopes[i].parent {
            Some(p) => if p < i { lookup_from(scopes, p as int, name) } else { None },
            None => None,
        }
    }
}

impl Default for ContextFunction {
    fn default() -> (r: Self)
        ensures
            r.scopes@.len() == 1,
            r.scopes@[0].parent is None,
            r.scopes@[0].variables@.len() == 0,
    {
        Self::new()
    }
}

impl ContextFunction {
    /// One empty outermost scope.
    pub fn new() -> (r: Self)
        ensures
            r.scopes@.len() == 1,
            r.scopes@[0].parent is None,
            r.scopes@[0].variables@.len() == 0,
            scopes_wf(r.scopes@),
    {
        let mut scopes: Vec<ContextScope> = Vec::new();
        scopes.push(ContextScope::new(None));
        ContextFunction { scopes }
    }

    /// Opens a scope inside the innermost one; returns the index of that enclosing scope.
    pub fn new_scope(&mut self) -> (parent: usize)
        requires
            scopes_wf(old(self).scopes@),
        ensures
            parent == old(self).scopes@.len() - 1,
            final(self).scopes@.len() == old(self).scopes@.len() + 1,
            forall|i: int| 0 <= i < old(self).scopes@.len() ==> final(self).scopes@[i] == old(self).scopes@[i],
            final(self).scopes@.last().parent == Some(parent),
            final(self).scopes@.last().variables@.len() == 0,
            scopes_wf(final(self).scopes@),
    {
        let parent = self.scopes.len() - 1;
        self.scopes.push(ContextScope::new(Some(parent)));
        parent
    }

    /// Closes the innermost scope; returns the index of the new innermost scope.
    pub fn end_scope(&mut self) -> (r: usize)
        requires
            scopes_wf(old(self).scopes@),
            old(self).scopes@.len() >= 2,
        ensures
            final(self).scopes@ == old(self).scopes@.drop_last(),
            r == final(self).scopes@.len() - 1,
            scopes_wf(final(self).scopes@),
    {
        self.scopes.pop();
        self.scopes.len() - 1
    }

    /// The variable `name` as seen from the innermost scope.
    pub fn get(&self, name: &str) -> (r: Option<&ContextVariable>)
        requires
            scopes_wf(self.scopes@),
        ensures
            r == (match lookup_from(self.scopes@, self.scopes@.len() - 1, name@) {
                Some(v) => Some(&v),
                None => None::<&ContextVariable>,
            }),
    {
        let last = self.scopes.len() - 1;
        let scope = &self.scopes[last];
        match scope.get(name) {
            Some(s) => Some(s),
            None => {
                let mut parent = scope.parent;
                proof {
                    assert(scopes_wf(self.scopes@) && (self.scopes@[last as int].parent matches Some(p) ==> p < last));
                }
                while parent.is_some()
                    invariant
                        scopes_wf(self.scopes@),
                        match parent {
                            Some(p) => p < self.scopes@.len()
                                && lookup_from(self.scopes@, self.scopes@.len() - 1, name@)
                                    == lookup_from(self.scopes@, p as int, name@),
                            None => lookup_from(self.scopes@, self.scopes@.len() - 1, name@) is None,
                        },
                    decreases match parent {
                        Some(p) => p + 1,
                        None => 0,
                    },
                {
                    let p = parent.unwrap();
                    let parent_scope = &self.scopes[p];
                    match parent_scope.get(name) {
                        Some(s) => return Some(s),
                        None => {
                            proof {
                                assert(self.scopes@[p as int].parent matches Some(q) ==> q < p);
                            }
                            parent = parent_scope.parent;
                        },
                    }
                }
                None
            },
        }
    }

    /// Binds `name` in the innermost scope.
    pub fn insert(&mut self, name: &str, var: ContextVariable)
        requires
            old(self).scopes@.len() >= 1,
        ensures
            final(self).scopes@.len() == old(self).scopes@.len(),
            forall|i: int| 0 <= i < old(self).scopes@.len() - 1 ==> final(self).scopes@[i] == old(self).scopes@[i],
            final(self).scopes@.last().view_map() == old(self).scopes@.last().view_map().insert(name@, var),
            final(self).scopes@.last().parent == old(self).scopes@.last().parent,
            old(self).scopes@.last().wf() ==> final(self).scopes@.last().wf(),
            scopes_wf(old(self).scopes@) ==> scopes_wf(final(self).scopes@),
    {
        let mut scope = self.scopes.pop().unwrap();
        scope.insert(name, var);
        self.scopes.push(scope);
        proof {
            assert(forall|i: int| 0 <= i < old(self).scopes@.len() - 1 ==> self.scopes@[i] == old(self).scopes@[i]);
        }
    }

    /// The variable `name` as seen from the innermost scope.
    pub fn get_variable(&self, name: &str) -> (r: Option<&ContextVariable>)
        requires
            scopes_wf(self.scopes@),
        ensures
            r == (match lookup_from(self.scopes@, self.scopes@.len() - 1, name@) {
                Some(v) => Some(&v),
                None => None::<&ContextVariable>,
            }),
    {
        self.get(name)
    }
}


/// Scopes that agree up to index `i` see the same variables from there.
proof fn lemma_lookup_same_prefix(a: Seq<ContextScope>, b: Seq<ContextScope>, i: int, name: Seq<char>)
    requires
        0 <= i < a.len(),
        i < b.len(),
        forall|k: int| 0 <= k <= i ==> #[trigger] b[k] == a[k],
    ensures
        lookup_from(b, i, name) == lookup_from(a, i, name),
    decreases i,
{
    assert(b[i] == a[i]);
    if !a[i].view_map().contains_key(name) {
        match a[i].parent {
            Some(p) => {
                if p < i {
                    lemma_lookup_same_prefix(a, b, p as int, name);
                }
            },
            None => {},
        }
    }
}

/// After binding `name` in the innermost scope, looking `name` up gives the new variable,
/// and looking up any other name gives what it gave before.
pub proof fn lemma_get_after_insert(
    before: Seq<ContextScope>,
    after: Seq<ContextScope>,
    name: Seq<char>,
    var: ContextVariable,
    other: Seq<char>,
)
    requires
        scopes_wf(before),
        after.len() == before.len(),
        forall|i: int| 0 <= i < before.len() - 1 ==> after[i] == before[i],
        after.last().view_map() == before.last().view_map().insert(name, var),
        after.last().parent == before.last().parent,
    ensures
        lookup_from(after, after.len() - 1, name) == Some(var),
        other != name ==> lookup_from(after, after.len() - 1, other) == lookup_from(before, before.len() - 1, other),
{
    let last = before.len() - 1;
    if other != name && !before[last].view_map().contains_key(other) {
        match before[last].parent {
            Some(p) => {
                if p < last {
                    lemma_lookup_same_prefix(before, after, p as int, other);
                }
            },
            None => {},
        }
    }
}

/// A scope that was just opened hides nothing: every name is seen as it was from the
/// enclosing scope; closing it again gives back the scopes as they were.
pub proof fn lemma_new_scope_then_end_scope(before: Seq<ContextScope>, opened: Seq<ContextScope>, name: Seq<char>)
    requires
        scopes_wf(before),
        opened.len() == before.len() + 1,
        forall|i: int| 0 <= i < before.len() ==> opened[i] == before[i],
        opened.last().parent matches Some(p) && p == before.len() - 1,
        opened.last().variables@.len() == 0,
    ensures
        lookup_from(opened, opened.len() - 1, name) == lookup_from(before, before.len() - 1, name),
        opened.drop_last() == before,
{
    assert(!opened.last().view_map().contains_key(name));
    assert(opened[opened.len() - 1] == opened.last());
    lemma_lookup_same_prefix(before, opened, before.len() - 1, name);
    assert(opened.drop_last() =~= before);
}


/// One `insert` into the innermost scope, as `ContextFunction::insert` leaves the scopes:
/// the same number of scopes, the outer ones unchanged, the innermost one with one more
/// binding and the same parent.
pub open spec fn insert_step(a: Seq<ContextScope>, b: Seq<ContextScope>) -> bool {
    &&& b.len() == a.len()
    &&& forall|i: int| 0 <= i < a.len() - 1 ==> #[trigger] b[i] == a[i]
    &&& b.last().parent == a.last().parent
    &&& exists|name: Seq<char>, var: ContextVariable| b.last().view_map() == a.last().view_map().insert(name, var)
}

/// Opening a scope, binding any number of names in it, then closing it gives back the
/// scopes as they were before it was opened: `end_scope` returns the index that
/// `new_scope` returned, and every name is seen as before.
pub proof fn lemma_scope_round_trip(before: Seq<ContextScope>, steps: Seq<Seq<ContextScope>>, name: Seq<char>)
    requires
        scopes_wf(before),
        steps.len() >= 1,
        steps[0].len() == before.len() + 1,
        forall|i: int| 0 <= i < before.len() ==> steps[0][i] == before[i],
        steps[0].last().parent == Some((before.len() - 1) as usize),
        forall|k: int| 0 <= k < steps.len() - 1 ==> insert_step(#[trigger] steps[k], steps[k + 1]),
    ensures
        steps.last().drop_last() == before,
        steps.last().drop_last().len() - 1 == before.len() - 1,
        lookup_from(steps.last().drop_last(), before.len() - 1, name) == lookup_from(before, before.len() - 1, name),
{
    assert forall|k: int| 0 <= k < steps.len() implies (#[trigger] steps[k]).len() == before.len() + 1
        && forall|i: int| 0 <= i < before.len() ==> steps[k][i] == before[i] by {
        lemma_steps_keep_outer(before, steps, k);
    }
    assert(steps.last() == steps[steps.len() - 1]);
    assert(steps.last().drop_last() =~= before);
}

proof fn lemma_steps_keep_outer(before: Seq<ContextScope>, steps: Seq<Seq<ContextScope>>, k: int)
    requires
        0 <= k < steps.len(),
        steps[0].len() == before.len() + 1,
        forall|i: int| 0 <= i < before.len() ==> steps[0][i] == before[i],
        forall|q: int| 0 <= q < steps.len() - 1 ==> insert_step(#[trigger] steps[q], steps[q + 1]),
    ensures
        steps[k].len() == before.len() + 1,
        forall|i: int| 0 <= i < before.len() ==> steps[k][i] == before[i],
    decreases k,
{
    if k > 0 {
        lemma_steps_keep_outer(before, steps, k - 1);
        assert(insert_step(steps[k - 1], steps[k]));
    }
}

/// An error about the variables in scope: a name defined twice in a function, or a name
/// that nothing defines.
#[derive(Debug)]
pub enum ContextError {
    VariableNameAlreadyDefined { name: String, first_definition_span: Span, second_definition_span: Span },
    UnknownIdentifier { name: String, span: Span },
}

/// The type checker's variable contexts: one list of function contexts (by function name)
/// per function being checked, the innermost last; and the name of the function checked.
pub struct TypeCheckContexts {
    pub context_functions: Vec<Vec<(String, ContextFunction)>>,
    pub current_func_name: Option<String>,
}

/// Every function context has well-formed scopes.
pub open spec fn contexts_wf(c: Seq<Vec<(String, ContextFunction)>>) -> bool {
    forall|i: int, j: int| 0 <= i < c.len() && 0 <= j < c[i]@.len() ==> scopes_wf((#[trigger] c[i]@[j]).1.scopes@)
}

impl TypeCheckContexts {
    pub open spec fn wf(&self) -> bool {
        contexts_wf(self.context_functions@)
    }

    /// The context of the function being checked, in the innermost list.
    pub open spec fn current(&self) -> Option<ContextFunction> {
        match self.current_func_name {
            Some(n) => if self.context_functions@.len() > 0 {
                lookup(self.context_functions@.last()@, n@)
            } else {
                None
            },
            None => None,
        }
    }

    /// The variable `name` as the current function sees it, if it has a context.
    pub open spec fn variable(&self, name: Seq<char>) -> Option<ContextVariable> {
        match self.current() {
            Some(f) => lookup_from(f.scopes@, f.scopes@.len() - 1, name),
            None => None,
        }
    }

    fn current_context(&self) -> (r: Option<&ContextFunction>)
        requires
            self.wf(),
        ensures
            match self.current() {
                Some(f) => r matches Some(x) && *x == f && scopes_wf(f.scopes@),
                None => r is None,
            },
    {
        match &self.current_func_name {
            Some(n) => {
                if self.context_functions.len() == 0 {
                    return None;
                }
                let last = self.context_functions.len() - 1;
                match find_key(&self.context_functions[last], n.as_str()) {
                    Some(j) => {
                        assert(scopes_wf(self.context_functions@[last as int]@[j as int].1.scopes@));
                        Some(&self.context_functions[last][j].1)
                    },
                    None => None,
                }
            },
            None => None,
        }
    }

    /// Whether `name` is a local variable of the current function rather than one of its
    /// parameters; where this cannot be told, it is taken as local.
    pub fn is_local_variable(&self, name: &str) -> (b: bool)
        requires
            self.wf(),
        ensures
            b == match self.variable(name@) {
                Some(v) => !v.is_param,
                None => true,
            },
    {
        match self.current_context() {
            Some(f) => match f.get_variable(name) {
                Some(v) => !v.is_param,
                None => true,
            },
            None => true,
        }
    }

    /// The locals that the variable `name` holds pointers to; none where it is not known.
    pub fn get_ptrs_to_locals(&self, name: &str) -> (r: Vec<String>)
        requires
            self.wf(),
        ensures
            match self.variable(name@) {
                Some(v) => r@ == v.ptrs_to_locals@,
                None => r@.len() == 0,
            },
    {
        match self.current_context() {
            Some(f) => match f.get_variable(name) {
                Some(v) => v.ptrs_to_locals.clone(),
                None => Vec::new(),
            },
            None => Vec::new(),
        }
    }

    /// The variable that the identifier `name` (at `span`) refers to in the current function.
    pub fn get_ident_ty(&self, name: &str, span: Span) -> (r: Result<&ContextVariable, ContextError>)
        requires
            self.wf(),
            self.current() is Some,
        ensures
            match self.variable(name@) {
                Some(v) => r matches Ok(x) && *x == v,
                None => r matches Err(ContextError::UnknownIdentifier { name: n, span: s }) && n@ == name@ && s == span,
            },
    {
        let f = self.current_context().unwrap();
        match f.get_variable(name) {
            Some(v) => Ok(v),
            None => Err(ContextError::UnknownIdentifier { name: String::from_str(name), span }),
        }
    }

    /// Defines `var` in the innermost scope of the current function; a name the function
    /// already sees is refused, and so is a variable where the current function has no
    /// context.
    pub fn insert_new_variable(&mut self, var: ContextVariable) -> (r: Result<(), ContextError>)
        requires
            old(self).wf(),
            old(self).context_functions@.len() > 0 ==> old(self).current_func_name is Some,
        ensures
            final(self).wf(),
            final(self).current_func_name == old(self).current_func_name,
            match old(self).current() {
                None => r matches Err(ContextError::UnknownIdentifier { name: n, span: s }) && n@ == var.name@
                    && s == var.name_span && final(self).context_functions@ == old(self).context_functions@,
                Some(f) => match old(self).variable(var.name@) {
                    Some(first) => r matches Err(ContextError::VariableNameAlreadyDefined {
                        name: n,
                        first_definition_span: a,
                        second_definition_span: b,
                    }) && n@ == var.name@ && a == first.name_span && b == var.name_span
                        && final(self).context_functions@ == old(self).context_functions@,
                    None => r is Ok && final(self).variable(var.name@) == Some(var)
                        && forall|other: Seq<char>| other != var.name@ ==> #[trigger] final(self).variable(other)
                            == old(self).variable(other),
                },
            },
    {
        let ghost f0 = self.current();
        let exists = match self.current_context() {
            Some(f) => match f.get_variable(var.name.as_str()) {
                Some(first) => Some(first.name_span),
                None => None,
            },
            None => {
                return Err(ContextError::UnknownIdentifier { name: var.name.clone(), span: var.name_span });
            },
        };
        match exists {
            Some(first_span) => {
                return Err(ContextError::VariableNameAlreadyDefined {
                    name: var.name.clone(),
                    first_definition_span: first_span,
                    second_definition_span: var.name_span,
                });
            },
            None => {},
        }
        let ghost before = self.context_functions@;
        let fname = self.current_func_name.as_ref().unwrap().clone();
        let mut map = self.context_functions.pop().unwrap();
        let j = find_key(&map, fname.as_str()).unwrap();
        let ghost m0 = map@;
        let (key, mut func) = map.remove(j);
        proof {
            assert(contexts_wf(before));
            assert(scopes_wf(m0[j as int].1.scopes@));
        }
        let ghost scopes0 = func.scopes@;
        let name = var.name.clone();
        func.insert(name.as_str(), var);
        proof {
            lemma_get_after_insert(scopes0, func.scopes@, name@, var, name@);
        }
        map.insert(j, (key, func));
        self.context_functions.push(map);
        proof {
            let m1 = self.context_functions@.last()@;
            assert(m1 == m0.update(j as int, (key, func)));
            assert(self.context_functions@.drop_last() =~= before.drop_last());
            lemma_lookup_update_at(m0, j as int, (key, func), fname@);
            assert forall|i: int, k: int| 0 <= i < self.context_functions@.len() && 0 <= k < self.context_functions@[i]@.len()
                implies scopes_wf((#[trigger] self.context_functions@[i]@[k]).1.scopes@) by {
                if i < before.len() - 1 {
                    assert(self.context_functions@[i] == before[i]);
                } else if k != j {
                    assert(m1[k] == m0[k]);
                }
            }
            assert forall|other: Seq<char>| other != name@ implies #[trigger] self.variable(other) == old(self).variable(other) by {
                lemma_get_after_insert(scopes0, func.scopes@, name@, var, other);
            }
        }
        Ok(())
    }
}

} // verus!
