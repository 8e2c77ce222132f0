//! Scopes: the variables of a program and where each is visible.
//!
//! All scopes of a run live in one [`Environment`] and are known by their
//! index. A scope holds its own variables and the index of the scope around
//! it, which was made before it. A function keeps the index of the scope it
//! was declared in, so that scope outlives the block that made it.
use vstd::prelude::*;
use crate::error::{LoxResult, LoxResultView};
use crate::object::{Object, ObjectView};
use crate::tokens::Token;

verus! {

/// The variables of one scope, and the scope around it.
pub struct ScopeView {
    pub enclosing: Option<int>,
    pub bindings: Map<Seq<char>, ObjectView>,
}

/// Every scope but the outermost lies in a scope made before it.
pub open spec fn is_nested(scopes: Seq<ScopeView>) -> bool {
    forall|i: int|
        0 <= i < scopes.len() ==> match (#[trigger] scopes[i]).enclosing {
            Some(outer) => 0 <= outer < i,
            None => true,
        }
}

/// The scope that holds `name` for code that runs in `scope`: the nearest
/// one, going outwards.
pub open spec fn holder(scopes: Seq<ScopeView>, scope: int, name: Seq<char>) -> Option<int>
    decreases scope,
{
    if !(0 <= scope < scopes.len()) {
        None
    } else if scopes[scope].bindings.dom().contains(name) {
        Some(scope)
    } else {
        match scopes[scope].enclosing {
            Some(outer) => if 0 <= outer < scope {
                holder(scopes, outer, name)
            } else {
                None
            },
            None => None,
        }
    }
}

/// The value of `name` for code that runs in `scope`, if the name is defined.
pub open spec fn lookup(scopes: Seq<ScopeView>, scope: int, name: Seq<char>) -> Option<
    ObjectView,
> {
    match holder(scopes, scope, name) {
        Some(at) => Some(scopes[at].bindings[name]),
        None => None,
    }
}

/// `scopes` with `name` bound to `value` in the scope `at`.
pub open spec fn bound(
    scopes: Seq<ScopeView>,
    at: int,
    name: Seq<char>,
    value: ObjectView,
) -> Seq<ScopeView> {
    scopes.update(
        at,
        ScopeView {
            enclosing: scopes[at].enclosing,
            bindings: scopes[at].bindings.insert(name, value),
        },
    )
}

/// The message for a name that no scope holds.
pub open spec fn undefined_variable(name: Seq<char>) -> Seq<char> {
    "Undefined variable '"@ + name + "'."@
}

/// The error for a name that no scope holds.
pub open spec fn undefined(name: Token) -> LoxResultView {
    LoxResultView::RuntimeError { token: name@, message: undefined_variable(name.lexeme@) }
}

/// One scope: its names with their values, and the scope around it.
pub struct Scope<'a> {
    enclosing: Option<usize>,
    names: Vec<String>,
    values: Vec<Object<'a>>,
}

impl<'a> Scope<'a> {
    /// Each name has its value, and no name stands twice.
    pub closed spec fn wf(&self) -> bool {
        &&& self.names.len() == self.values.len()
        &&& forall|i: int, j: int|
            0 <= i < j < self.names.len() ==> (#[trigger] self.names[i])@ != (
            #[trigger] self.names[j])@
    }

    /// Whether `name` stands at index `i`.
    spec fn at(&self, name: Seq<char>, i: int) -> bool {
        0 <= i < self.names.len() && self.names[i]@ == name
    }

    /// The index at which `name` stands.
    spec fn slot(&self, name: Seq<char>) -> int {
        choose|i: int| self.at(name, i)
    }

    /// The names of the scope with their values.
    pub closed spec fn bindings(&self) -> Map<Seq<char>, ObjectView> {
        Map::new(
            |name: Seq<char>| exists|i: int| self.at(name, i),
            |name: Seq<char>| self.values[self.slot(name)]@,
        )
    }

    /// The scope around this one.
    pub closed spec fn outer(&self) -> Option<int> {
        match self.enclosing {
            Some(outer) => Some(outer as int),
            None => None,
        }
    }

    proof fn lemma_slot(&self, name: Seq<char>, i: int)
        requires
            self.wf(),
            self.at(name, i),
        ensures
            self.slot(name) == i,
            self.bindings().dom().contains(name),
            self.bindings()[name] == self.values[i]@,
    {
        let j = self.slot(name);
        assert(self.at(name, j));
        if i < j {
            assert(self.names[i]@ != self.names[j]@);
        } else if j < i {
            assert(self.names[j]@ != self.names[i]@);
        }
    }

    fn new(enclosing: Option<usize>) -> (scope: Self)
        ensures
            scope.wf(),
            scope.enclosing == enclosing,
            scope.bindings() == Map::<Seq<char>, ObjectView>::empty(),
    {
        let scope = Scope { enclosing, names: Vec::new(), values: Vec::new() };
        assert(scope.bindings() =~= Map::empty());
        scope
    }

    /// The index at which `name` stands, if it stands in this scope.
    fn find(&self, name: &String) -> (found: Option<usize>)
        requires
            self.wf(),
        ensures
            match found {
                Some(i) => self.at(name@, i as int),
                None => !self.bindings().dom().contains(name@),
            },
    {
        let mut i: usize = 0;
        while i < self.names.len()
            invariant
                i <= self.names.len(),
                forall|j: int| 0 <= j < i ==> !self.at(name@, j),
            decreases self.names.len() - i,
        {
            if self.names[i] == *name {
                return Some(i);
            }
            i += 1;
        }
        None
    }

    /// Binds `name` to `value`, in place of the value it had if it had one.
    fn define(&mut self, name: String, value: Object<'a>)
        requires
            old(self).wf(),
        ensures
            final(self).wf(),
            final(self).enclosing == old(self).enclosing,
            final(self).bindings() == old(self).bindings().insert(name@, value@),
    {
        let ghost before = *self;
        match self.find(&name) {
            Some(i) => {
                self.values[i] = value;
                proof {
                    assert forall|k: Seq<char>| #[trigger]
                        self.bindings().dom().contains(k) == before.bindings().insert(
                            name@,
                            value@,
                        ).dom().contains(k) by {
                        if self.bindings().dom().contains(k) {
                            let j = choose|j: int| self.at(k, j);
                            assert(before.at(k, j));
                        }
                        if before.bindings().dom().contains(k) {
                            let j = choose|j: int| before.at(k, j);
                            assert(self.at(k, j));
                        }
                        if k == name@ {
                            assert(self.at(k, i as int));
                        }
                    }
                    assert forall|k: Seq<char>| #[trigger]
                        self.bindings().dom().contains(k) implies self.bindings()[k]
                        == before.bindings().insert(name@, value@)[k] by {
                        let j = choose|j: int| self.at(k, j);
                        self.lemma_slot(k, j);
                        assert(before.at(k, j));
                        before.lemma_slot(k, j);
                        if k == name@ {
                            self.lemma_slot(k, i as int);
                        }
                    }
                    assert(self.bindings() =~= before.bindings().insert(name@, value@));
                }
            },
            None => {
                self.names.push(name);
                self.values.push(value);
                proof {
                    let last = before.names.len() as int;
                    assert forall|i: int, j: int| 0 <= i < j < self.names.len() implies (
                    #[trigger] self.names[i])@ != (#[trigger] self.names[j])@ by {
                        if j == last {
                            assert(!before.at(name@, i));
                        }
                    }
                    assert forall|k: Seq<char>| #[trigger]
                        self.bindings().dom().contains(k) == before.bindings().insert(
                            name@,
                            value@,
                        ).dom().contains(k) by {
                        if self.bindings().dom().contains(k) {
                            let j = choose|j: int| self.at(k, j);
                            if j < last {
                                assert(before.at(k, j));
                            }
                        }
                        if before.bindings().dom().contains(k) {
                            let j = choose|j: int| before.at(k, j);
                            assert(self.at(k, j));
                        }
                        if k == name@ {
                            assert(self.at(k, last));
                        }
                    }
                    assert forall|k: Seq<char>| #[trigger]
                        self.bindings().dom().contains(k) implies self.bindings()[k]
                        == before.bindings().insert(name@, value@)[k] by {
                        let j = choose|j: int| self.at(k, j);
                        self.lemma_slot(k, j);
                        if j < last {
                            assert(before.at(k, j));
                            before.lemma_slot(k, j);
                        }
                    }
                    assert(self.bindings() =~= before.bindings().insert(name@, value@));
                }
            },
        }
    }
}

/// The scopes of a run. The scope at index 0 is the outermost one.
pub struct Environment<'a> {
    scopes: Vec<Scope<'a>>,
}

impl<'a> View for Environment<'a> {
    type V = Seq<ScopeView>;

    closed spec fn view(&self) -> Seq<ScopeView> {
        Seq::new(
            self.scopes.len() as nat,
            |i: int| ScopeView { enclosing: self.scopes[i].outer(), bindings: self.scopes[i].bindings() },
        )
    }
}

impl<'a> Environment<'a> {
    /// There is an outermost scope, and every other scope lies in a scope
    /// made before it.
    pub closed spec fn wf(&self) -> bool {
        &&& self.scopes.len() > 0
        &&& forall|i: int| 0 <= i < self.scopes.len() ==> (#[trigger] self.scopes[i]).wf()
        &&& forall|i: int|
            0 <= i < self.scopes.len() ==> match (#[trigger] self.scopes[i]).enclosing {
                Some(outer) => outer < i,
                None => true,
            }
    }

    /// What `wf` says of the view.
    pub proof fn lemma_wf(&self)
        requires
            self.wf(),
        ensures
            self@.len() > 0,
            is_nested(self@),
    {
        assert forall|i: int| 0 <= i < self@.len() implies match (#[trigger] self@[i]).enclosing {
            Some(outer) => 0 <= outer < i,
            None => true,
        } by {
            assert(self.scopes[i].wf());
        }
    }

    /// Create a new `Environment`: one scope, which holds nothing.
    pub fn new() -> (environment: Self)
        ensures
            environment.wf(),
            environment@ == seq![ScopeView { enclosing: None, bindings: Map::empty() }],
    {
        let mut scopes: Vec<Scope<'a>> = Vec::new();
        scopes.push(Scope::new(None));
        let environment = Environment { scopes };
        assert(environment@ =~= seq![ScopeView { enclosing: None, bindings: Map::empty() }]);
        environment
    }

    /// The number of scopes.
    pub fn len(&self) -> (n: usize)
        ensures
            n == self@.len(),
    {
        self.scopes.len()
    }

    /// The scope that the scope `scope` lies in, unless it is the outermost.
    pub fn enclosing(&self, scope: usize) -> (outer: Option<usize>)
        requires
            self.wf(),
            scope < self@.len(),
        ensures
            match outer {
                Some(outer) => self@[scope as int].enclosing == Some(outer as int),
                None => self@[scope as int].enclosing is None,
            },
    {
        self.scopes[scope].enclosing
    }

    /// Makes a scope that lies in the scope `enclosing` and holds nothing,
    /// and gives its index.
    pub fn new_with_enclosing(&mut self, enclosing: usize) -> (scope: usize)
        requires
            old(self).wf(),
            enclosing < old(self)@.len(),
        ensures
            final(self).wf(),
            scope == old(self)@.len(),
            final(self)@ == old(self)@.push(
                ScopeView { enclosing: Some(enclosing as int), bindings: Map::empty() },
            ),
    {
        let scope: usize = self.scopes.len();
        let ghost before = self@;
        self.scopes.push(Scope::new(Some(enclosing)));
        assert(self@ =~= before.push(
            ScopeView { enclosing: Some(enclosing as int), bindings: Map::empty() },
        ));
        scope
    }

    /// Define a new variable in the scope `scope`. A variable of the same
    /// name in that scope gets the new value; those of other scopes stay.
    pub fn define(&mut self, scope: usize, name: String, value: Object<'a>)
        requires
            old(self).wf(),
            scope < old(self)@.len(),
        ensures
            final(self).wf(),
            final(self)@ == bound(old(self)@, scope as int, name@, value@),
            final(self)@.len() == old(self)@.len(),
    {
        let ghost before = *self;
        proof {
            assert(self.scopes[scope as int].wf());
        }
        self.scopes[scope].define(name, value);
        proof {
            assert forall|i: int| 0 <= i < self.scopes.len() implies (
            #[trigger] self.scopes[i]).wf() by {
                if i != scope {
                    assert(before.scopes[i].wf());
                    assert(self.scopes[i] == before.scopes[i]);
                }
            }
            assert forall|i: int| 0 <= i < self.scopes.len() implies match (
            #[trigger] self.scopes[i]).enclosing {
                Some(outer) => outer < i,
                None => true,
            } by {
                assert(before.scopes[i].wf());
                if i != scope {
                    assert(self.scopes[i] == before.scopes[i]);
                }
            }
            assert(self@ =~= bound(before@, scope as int, name@, value@));
        }
    }

    /// The scope that holds `name` for code that runs in `scope`.
    fn find_holder(&self, scope: usize, name: &String) -> (found: Option<(usize, usize)>)
        requires
            self.wf(),
            scope < self@.len(),
        ensures
            match found {
                Some((at, slot)) => holder(self@, scope as int, name@) == Some(at as int) && at
                    < self.scopes.len() && self.scopes[at as int].at(name@, slot as int),
                None => holder(self@, scope as int, name@) is None,
            },
    {
        let mut at = scope;
        loop
            invariant
                self.wf(),
                at < self.scopes.len(),
                holder(self@, at as int, name@) == holder(self@, scope as int, name@),
            decreases at,
        {
            assert(self.scopes[at as int].wf());
            match self.scopes[at].find(name) {
                Some(slot) => {
                    proof {
                        self.scopes[at as int].lemma_slot(name@, slot as int);
                    }
                    return Some((at, slot));
                },
                None => match self.scopes[at].enclosing {
                    Some(outer) => {
                        at = outer;
                    },
                    None => {
                        return None;
                    },
                },
            }
        }
    }

    /// Get a variable's value, for code that runs in `scope`.
    pub fn get(&self, scope: usize, name: &Token) -> (result: Result<Object<'a>, LoxResult>)
        requires
            self.wf(),
            scope < self@.len(),
        ensures
            match result {
                Ok(value) => lookup(self@, scope as int, name.lexeme@) == Some(value@),
                Err(e) => lookup(self@, scope as int, name.lexeme@) is None && e@ == undefined(
                    *name,
                ),
            },
    {
        match self.find_holder(scope, &name.lexeme) {
            Some((at, slot)) => {
                proof {
                    assert(self.scopes[at as int].wf());
                    self.scopes[at as int].lemma_slot(name.lexeme@, slot as int);
                }
                Ok(self.scopes[at].values[slot].clone())
            },
            None => Err(undefined_error(name)),
        }
    }

    /// Gives a variable that code in `scope` sees a new value. A name that
    /// no scope holds is an error: no variable is made.
    pub fn assign(&mut self, scope: usize, name: &Token, value: Object<'a>) -> (result: Result<
        (),
        LoxResult,
    >)
        requires
            old(self).wf(),
            scope < old(self)@.len(),
        ensures
            final(self).wf(),
            final(self)@.len() == old(self)@.len(),
            match result {
                Ok(_) => holder(old(self)@, scope as int, name.lexeme@) is Some && final(self)@
                    == bound(
                    old(self)@,
                    holder(old(self)@, scope as int, name.lexeme@)->0,
                    name.lexeme@,
                    value@,
                ),
                Err(e) => holder(old(self)@, scope as int, name.lexeme@) is None && final(self)@
                    == old(self)@ && e@ == undefined(*name),
            },
    {
        match self.find_holder(scope, &name.lexeme) {
            Some((at, _)) => {
                self.define(at, name.lexeme.clone(), value);
                Ok(())
            },
            None => Err(undefined_error(name)),
        }
    }
}

/// The error for a name that no scope holds.
fn undefined_error(name: &Token) -> (err: LoxResult)
    ensures
        err@ == undefined(*name),
{
    let mut message = String::from_str("Undefined variable '");
    message.append(name.lexeme.as_str());
    message.append("'.");
    LoxResult::new_runtime_error(name.clone(), message)
}

/// What code in a scope sees depends on that scope and the scopes made
/// before it alone.
pub proof fn law_lookup_is_local(
    before: Seq<ScopeView>,
    after: Seq<ScopeView>,
    scope: int,
    name: Seq<char>,
)
    requires
        0 <= scope < before.len() <= after.len(),
        forall|i: int| 0 <= i <= scope ==> before[i] == after[i],
    ensures
        holder(after, scope, name) == holder(before, scope, name),
        lookup(after, scope, name) == lookup(before, scope, name),
    decreases scope,
{
    if !before[scope].bindings.dom().contains(name) {
        match before[scope].enclosing {
            Some(outer) => {
                if 0 <= outer < scope {
                    law_lookup_is_local(before, after, outer, name);
                }
            },
            None => {},
        }
    }
}

/// A variable defined in a block is invisible outside the block: what the
/// scope around the block sees after the block is what it saw before, however
/// many variables the block has defined in its own scope.
pub proof fn law_block_scoping(
    scopes: Seq<ScopeView>,
    outer: int,
    inner: int,
    defined: Seq<char>,
    value: ObjectView,
    name: Seq<char>,
)
    requires
        is_nested(scopes),
        0 <= outer < inner < scopes.len(),
    ensures
        lookup(bound(scopes, inner, defined, value), outer, name) == lookup(scopes, outer, name),
        lookup(bound(scopes, inner, defined, value), inner, defined) == Some(value),
{
    law_lookup_is_local(scopes, bound(scopes, inner, defined, value), outer, name);
}

/// A name bound in a scope is what that scope sees, whatever the scopes
/// around it hold; and every other name is seen as before.
pub proof fn law_definition_shadows(
    scopes: Seq<ScopeView>,
    scope: int,
    defined: Seq<char>,
    value: ObjectView,
    name: Seq<char>,
)
    requires
        is_nested(scopes),
        0 <= scope < scopes.len(),
    ensures
        lookup(bound(scopes, scope, defined, value), scope, defined) == Some(value),
        name != defined ==> lookup(bound(scopes, scope, defined, value), scope, name) == lookup(
            scopes,
            scope,
            name,
        ),
{
    let after = bound(scopes, scope, defined, value);
    if name != defined && !scopes[scope].bindings.dom().contains(name) {
        match scopes[scope].enclosing {
            Some(outer) => {
                if 0 <= outer < scope {
                    law_lookup_is_local(scopes, after, outer, name);
                }
            },
            None => {},
        }
    }
}

/// An assignment to a name that an outer scope holds changes that scope's
/// variable and makes none in the scope of the assignment: afterwards the
/// name is still held by the same scope, with the new value.
pub proof fn law_assignment_keeps_the_holder(
    scopes: Seq<ScopeView>,
    scope: int,
    name: Seq<char>,
    value: ObjectView,
)
    requires
        is_nested(scopes),
        0 <= scope < scopes.len(),
        holder(scopes, scope, name) is Some,
    ensures
        ({
            let at = holder(scopes, scope, name)->0;
            let after = bound(scopes, at, name, value);
            &&& 0 <= at <= scope
            &&& holder(after, scope, name) == Some(at)
            &&& lookup(after, scope, name) == Some(value)
            &&& forall|i: int| 0 <= i < scopes.len() && i != at ==> after[i] == scopes[i]
        }),
    decreases scope,
{
    if !scopes[scope].bindings.dom().contains(name) {
        match scopes[scope].enclosing {
            Some(outer) => {
                law_assignment_keeps_the_holder(scopes, outer, name, value);
            },
            None => {},
        }
    }
}

} // verus!
