//! Scopes: chained mappings from names to values.
//!
//! The scopes of a run live in one stack. Each but the global scope names the
//! scope that encloses it, which lies below it in the stack: the scope of a
//! block is enclosed by the scope it was entered from, the scope of a call by
//! the global scope.

use vstd::prelude::*;
use vstd::hash_map::StringHashMap;
use vstd::string::*;
use crate::interpreter::{RuntimeError, RuntimeException, Signal};
use crate::lexer::{Token, TokenView};
use crate::literal::{Literal, LiteralView};

verus! {

/// One scope: its bindings, and the place in the stack of the scope that
/// encloses it.
pub struct Scope {
    pub values: StringHashMap<Literal>,
    pub enclosing: Option<usize>,
}

/// The mathematical content of a [`Scope`].
pub struct ScopeView {
    pub values: Map<Seq<char>, LiteralView>,
    pub enclosing: Option<nat>,
}

/// The views of the values of a map.
pub open spec fn value_views(values: Map<Seq<char>, Literal>) -> Map<Seq<char>, LiteralView> {
    values.map_values(|value: Literal| value@)
}

impl View for Scope {
    type V = ScopeView;

    open spec fn view(&self) -> ScopeView {
        ScopeView {
            values: value_views(self.values@),
            enclosing: match self.enclosing {
                Some(index) => Some(index as nat),
                None => None,
            },
        }
    }
}

/// The views of a stack of scopes.
pub open spec fn scope_views(scopes: Seq<Scope>) -> Seq<ScopeView> {
    scopes.map_values(|scope: Scope| scope@)
}

/// The global scope is the first, and every other scope is enclosed by one
/// below it.
pub open spec fn chained(scopes: Seq<ScopeView>) -> bool {
    &&& scopes.len() > 0
    &&& scopes[0].enclosing is None
    &&& forall|i: int|
        0 < i < scopes.len() ==> (#[trigger] scopes[i]).enclosing is Some
            && scopes[i].enclosing->Some_0 < i
}

/// The scope in which `name` is found when the search starts in scope `from`
/// and goes outward.
pub open spec fn holder(scopes: Seq<ScopeView>, from: nat, name: Seq<char>) -> Option<nat>
    decreases from,
{
    if from >= scopes.len() {
        None
    } else if scopes[from as int].values.contains_key(name) {
        Some(from)
    } else {
        match scopes[from as int].enclosing {
            Some(outer) => if outer < from {
                holder(scopes, outer, name)
            } else {
                None
            },
            None => None,
        }
    }
}

/// The innermost scope.
pub open spec fn innermost(scopes: Seq<ScopeView>) -> nat {
    (scopes.len() - 1) as nat
}

/// The value bound to `name`, looked up from the innermost scope outward.
pub open spec fn lookup(scopes: Seq<ScopeView>, name: Seq<char>) -> Option<LiteralView> {
    match holder(scopes, innermost(scopes), name) {
        Some(index) => Some(scopes[index as int].values[name]),
        None => None,
    }
}

/// The scopes with `name` bound to `value` in scope `index`.
pub open spec fn bound(
    scopes: Seq<ScopeView>,
    index: nat,
    name: Seq<char>,
    value: LiteralView,
) -> Seq<ScopeView> {
    scopes.update(
        index as int,
        ScopeView {
            values: scopes[index as int].values.insert(name, value),
            ..scopes[index as int]
        },
    )
}

/// The scopes after `let`: `name` is bound in the innermost scope, whatever
/// the outer scopes hold.
pub open spec fn defined(scopes: Seq<ScopeView>, name: Seq<char>, value: LiteralView) -> Seq<
    ScopeView,
> {
    bound(scopes, innermost(scopes), name, value)
}

/// The scopes after an assignment: the binding of `name` that a lookup finds
/// is changed; there is none to change if the name is bound nowhere.
pub open spec fn assigned(scopes: Seq<ScopeView>, name: Seq<char>, value: LiteralView) -> Option<
    Seq<ScopeView>,
> {
    match holder(scopes, innermost(scopes), name) {
        Some(index) => Some(bound(scopes, index, name, value)),
        None => None,
    }
}

/// The scopes with a fresh scope on top that `outer` encloses.
pub open spec fn entered(scopes: Seq<ScopeView>, outer: nat) -> Seq<ScopeView> {
    scopes.push(ScopeView { values: Map::empty(), enclosing: Some(outer) })
}

/// The message for a name that is bound nowhere.
pub open spec fn undefined_message(name: Seq<char>) -> Seq<char> {
    "undefined variable '"@ + name + "'"@
}

/// The views of a map with one more binding.
pub proof fn lemma_value_views_insert(
    values: Map<Seq<char>, Literal>,
    name: Seq<char>,
    value: Literal,
)
    ensures
        value_views(values.insert(name, value)) == value_views(values).insert(name, value@),
{
    assert(value_views(values.insert(name, value)) =~= value_views(values).insert(name, value@));
}

/// No scope of the empty map holds a name.
pub proof fn lemma_value_views_empty()
    ensures
        value_views(Map::<Seq<char>, Literal>::empty()) == Map::<Seq<char>, LiteralView>::empty(),
{
    assert(value_views(Map::<Seq<char>, Literal>::empty()) =~= Map::<
        Seq<char>,
        LiteralView,
    >::empty());
}

/// Binding a name in a scope keeps the chain of scopes.
pub proof fn lemma_bound_chained(
    scopes: Seq<ScopeView>,
    index: nat,
    name: Seq<char>,
    value: LiteralView,
)
    requires
        chained(scopes),
        index < scopes.len(),
    ensures
        chained(bound(scopes, index, name, value)),
        bound(scopes, index, name, value).len() == scopes.len(),
{
    let after = bound(scopes, index, name, value);
    assert forall|i: int| 0 < i < after.len() implies (#[trigger] after[i]).enclosing is Some
        && after[i].enclosing->Some_0 < i by {
        assert(scopes[i].enclosing is Some);
    }
}

/// A name that is found is found in a scope of the stack.
pub proof fn lemma_holder_bounds(scopes: Seq<ScopeView>, from: nat, name: Seq<char>)
    ensures
        holder(scopes, from, name) is Some ==> holder(scopes, from, name)->Some_0 <= from
            && holder(scopes, from, name)->Some_0 < scopes.len()
            && scopes[holder(scopes, from, name)->Some_0 as int].values.contains_key(name),
    decreases from,
{
    if from < scopes.len() && !scopes[from as int].values.contains_key(name) {
        match scopes[from as int].enclosing {
            Some(outer) => {
                if outer < from {
                    lemma_holder_bounds(scopes, outer, name);
                }
            },
            None => {},
        }
    }
}

/// The scopes of a run.
pub struct Environment {
    pub scopes: Vec<Scope>,
}

impl View for Environment {
    type V = Seq<ScopeView>;

    open spec fn view(&self) -> Seq<ScopeView> {
        scope_views(self.scopes@)
    }
}

impl Environment {
    /// The scopes form a chain that ends in the global scope.
    pub open spec fn wf(&self) -> bool {
        chained(self@)
    }

    /// A fresh scope inside `enclosing`, or the global scope alone where
    /// there is none.
    pub fn new(enclosing: Option<Environment>) -> (r: Environment)
        requires
            enclosing matches Some(outer) ==> outer.wf(),
        ensures
            r.wf(),
            match enclosing {
                Some(outer) => r@ == entered(outer@, innermost(outer@)),
                None => r@ == seq![ScopeView { values: Map::empty(), enclosing: None }],
            },
    {
        match enclosing {
            Some(outer) => {
                let mut r = outer;
                r.enter();
                r
            },
            None => {
                let mut scopes: Vec<Scope> = Vec::new();
                let scope = Scope { values: StringHashMap::new(), enclosing: None };
                proof {
                    lemma_value_views_empty();
                }
                scopes.push(scope);
                let r = Environment { scopes };
                assert(r@ =~= seq![ScopeView { values: Map::empty(), enclosing: None }]);
                r
            },
        }
    }

    /// The environment without its innermost scope; none for the global scope.
    pub fn get_enclosing_environment(self) -> (r: Option<Environment>)
        requires
            self.wf(),
        ensures
            self@.len() > 1 ==> r is Some && r->Some_0.wf() && r->Some_0@ == self@.drop_last(),
            self@.len() <= 1 ==> r is None,
    {
        let mut outer = self;
        if outer.scopes.len() > 1 {
            outer.leave();
            Some(outer)
        } else {
            None
        }
    }

    /// The number of scopes.
    pub fn depth(&self) -> (r: usize)
        ensures
            r == self@.len(),
    {
        self.scopes.len()
    }

    /// Pushes a scope with the given enclosing scope.
    fn push(&mut self, outer: usize)
        requires
            old(self).wf(),
            outer < old(self)@.len(),
        ensures
            final(self).wf(),
            final(self)@ == entered(old(self)@, outer as nat),
    {
        let scope = Scope { values: StringHashMap::new(), enclosing: Some(outer) };
        proof {
            lemma_value_views_empty();
        }
        let ghost before = self@;
        self.scopes.push(scope);
        assert(self@ =~= entered(before, outer as nat));
        assert forall|i: int| 0 < i < self@.len() implies (#[trigger] self@[i]).enclosing is Some
            && self@[i].enclosing->Some_0 < i by {
            if i < before.len() {
                assert(before[i].enclosing is Some);
            }
        }
    }

    /// Enters a block: a fresh scope inside the innermost one.
    pub fn enter(&mut self)
        requires
            old(self).wf(),
        ensures
            final(self).wf(),
            final(self)@ == entered(old(self)@, innermost(old(self)@)),
    {
        let outer = self.scopes.len() - 1;
        self.push(outer);
    }

    /// Enters a call: a fresh scope inside the global one.
    pub fn enter_call(&mut self)
        requires
            old(self).wf(),
        ensures
            final(self).wf(),
            final(self)@ == entered(old(self)@, 0),
    {
        self.push(0);
    }

    /// Leaves the innermost scope, which is not the global one.
    pub fn leave(&mut self)
        requires
            old(self).wf(),
            old(self)@.len() > 1,
        ensures
            final(self).wf(),
            final(self)@ == old(self)@.drop_last(),
    {
        let ghost before = self@;
        self.scopes.pop();
        assert(self@ =~= before.drop_last());
        assert forall|i: int| 0 < i < self@.len() implies (#[trigger] self@[i]).enclosing is Some
            && self@[i].enclosing->Some_0 < i by {
            assert(before[i].enclosing is Some);
        }
    }

    /// Binds a name in scope `index`.
    fn bind(&mut self, index: usize, name: String, value: Literal)
        requires
            old(self).wf(),
            index < old(self)@.len(),
        ensures
            final(self).wf(),
            final(self)@ == bound(old(self)@, index as nat, name@, value@),
    {
        let ghost before = self@;
        let ghost values = self.scopes@[index as int].values@;
        self.scopes[index].values.insert(name, value);
        proof {
            lemma_value_views_insert(values, name@, value);
            assert(self@ =~= bound(before, index as nat, name@, value@));
            lemma_bound_chained(before, index as nat, name@, value@);
        }
    }

    /// Create a binding of a name with a value, in the innermost scope.
    pub fn define(&mut self, name: String, value: Literal)
        requires
            old(self).wf(),
        ensures
            final(self).wf(),
            final(self)@ == defined(old(self)@, name@, value@),
    {
        let index = self.scopes.len() - 1;
        self.bind(index, name, value);
    }

    /// The place of the scope in which a lookup finds `name`.
    fn find(&self, name: &str) -> (r: Option<usize>)
        requires
            self.wf(),
        ensures
            match r {
                Some(index) => holder(self@, innermost(self@), name@) == Some(index as nat)
                    && index < self@.len() && self@[index as int].values.contains_key(name@)
                    && self.scopes@[index as int].values@.contains_key(name@),
                None => holder(self@, innermost(self@), name@) is None,
            },
    {
        let mut index = self.scopes.len() - 1;
        loop
            invariant
                self.wf(),
                index < self@.len(),
                holder(self@, innermost(self@), name@) == holder(self@, index as nat, name@),
            decreases index,
        {
            if self.scopes[index].values.contains_key(name) {
                return Some(index);
            }
            match self.scopes[index].enclosing {
                Some(outer) => {
                    assert(self@[index as int].enclosing == Some(outer as nat));
                    if index == 0 {
                        return None;
                    }
                    index = outer;
                },
                None => {
                    return None;
                },
            }
        }
    }

    /// The fault for a name that is bound nowhere.
    fn undefined(name: Token) -> (r: RuntimeException)
        ensures
            r@ == (Signal::Error { token: name@, message: undefined_message(name.lexeme@) }),
    {
        let mut message = "undefined variable '".to_owned();
        message.append(name.lexeme.as_str());
        message.append("'");
        RuntimeException::Error(RuntimeError { token: name, message })
    }

    /// Get the value bound to a name.
    pub fn get(&self, name: Token) -> (r: Result<Literal, RuntimeException>)
        requires
            self.wf(),
        ensures
            match lookup(self@, name.lexeme@) {
                Some(value) => r is Ok && r->Ok_0@ == value,
                None => r is Err && r->Err_0@ == (Signal::Error {
                    token: name@,
                    message: undefined_message(name.lexeme@),
                }),
            },
    {
        match self.find(name.lexeme.as_str()) {
            Some(index) => {
                match self.scopes[index].values.get(name.lexeme.as_str()) {
                    Some(value) => Ok(value.clone()),
                    None => Err(Self::undefined(name)),
                }
            },
            None => Err(Self::undefined(name)),
        }
    }

    /// Assign new value to an existing name in the environment.
    pub fn assign(&mut self, name: Token, value: Literal) -> (r: Result<(), RuntimeException>)
        requires
            old(self).wf(),
        ensures
            final(self).wf(),
            match assigned(old(self)@, name.lexeme@, value@) {
                Some(scopes) => r is Ok && final(self)@ == scopes,
                None => r is Err && r->Err_0@ == (Signal::Error {
                    token: name@,
                    message: undefined_message(name.lexeme@),
                }) && final(self)@ == old(self)@,
            },
    {
        match self.find(name.lexeme.as_str()) {
            Some(index) => {
                self.bind(index, name.lexeme, value);
                Ok(())
            },
            None => Err(Self::undefined(name)),
        }
    }
}

} // verus!
