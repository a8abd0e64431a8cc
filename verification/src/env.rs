//! Environments: lookup through the chain of scopes, and binding in the
//! local scope.

use vstd::prelude::*;
use std::rc::Rc;
use crate::model::{bind, lemma_position_is, position, Bound, Failure, Scope};
use crate::text::text;
use crate::types::{bindings_view, Binding, RuspEnv, RuspErr, RuspExp};

verus! {

/// The index of the first binding of `key`, or the length if there is none.
fn find(bindings: &Vec<Binding>, key: &String) -> (i: usize)
    ensures
        i == position(bindings_view(*bindings), key@),
        i <= bindings.len(),
{
    let mut i: usize = 0;
    while i < bindings.len()
        invariant
            i <= bindings.len(),
            forall|j: int| 0 <= j < i ==> (#[trigger] bindings_view(*bindings)[j]).name != key@,
        decreases bindings.len() - i,
    {
        if bindings[i].name == *key {
            proof {
                lemma_position_is(bindings_view(*bindings), key@, i as int);
            }
            return i;
        }
        i += 1;
    }
    proof {
        lemma_position_is(bindings_view(*bindings), key@, i as int);
    }
    i
}

/// Binds `name` to `value` in `bindings`, replacing the binding in force.
fn insert(bindings: &mut Vec<Binding>, name: String, value: RuspExp)
    ensures
        bindings_view(*final(bindings)) == bind(bindings_view(*old(bindings)), name@, value@),
{
    let i = find(bindings, &name);
    let ghost before = bindings_view(*bindings);
    let ghost bound = Bound { name: name@, value: value@ };
    if i < bindings.len() {
        bindings[i] = Binding { name, value };
        assert(bindings_view(*bindings) =~= before.update(i as int, bound));
    } else {
        bindings.push(Binding { name, value });
        assert(bindings_view(*bindings) =~= before.push(bound));
    }
}

impl RuspEnv {
    /// A scope with no bindings and no enclosing scope.
    pub fn new() -> (r: RuspEnv)
        ensures
            r@ == Scope::empty(),
    {
        let r = RuspEnv { variable: Vec::new(), function: Vec::new(), outer: None };
        assert(bindings_view(r.variable) =~= Seq::empty());
        assert(bindings_view(r.function) =~= Seq::empty());
        r
    }

    /// A scope with no bindings of its own inside `parent`.
    pub fn child_of(parent: RuspEnv) -> (r: RuspEnv)
        ensures
            r@ == Scope::child_of(parent@),
    {
        RuspEnv::child_in(Rc::new(parent))
    }

    /// A scope with no bindings of its own inside `parent`, which is shared.
    pub fn child_in(parent: Rc<RuspEnv>) -> (r: RuspEnv)
        ensures
            r@ == Scope::child_of((*parent)@),
    {
        let r = RuspEnv { variable: Vec::new(), function: Vec::new(), outer: Some(parent) };
        assert(bindings_view(r.variable) =~= Seq::empty());
        assert(bindings_view(r.function) =~= Seq::empty());
        r
    }

    /// The variable `key`: the local binding, else what the enclosing scopes
    /// hold, else `VoidVariable`.
    pub fn get_variable(&self, key: &str) -> (r: Result<&RuspExp, RuspErr>)
        ensures
            match self@.variable_of(key@) {
                Some(v) => r matches Ok(e) && e@ == v,
                None => r matches Err(e) && e@ == (Failure::VoidVariable { name: key@ }),
            },
    {
        let name = text(key);
        match self.find_variable(&name) {
            Some(e) => Ok(e),
            None => Err(RuspErr::VoidVariable { name }),
        }
    }

    /// The function `key`: the local binding, else what the enclosing scopes
    /// hold, else `VoidFunction`.
    pub fn get_function(&self, key: &str) -> (r: Result<&RuspExp, RuspErr>)
        ensures
            match self@.function_of(key@) {
                Some(v) => r matches Ok(e) && e@ == v,
                None => r matches Err(e) && e@ == (Failure::VoidFunction { name: key@ }),
            },
    {
        let name = text(key);
        match self.find_function(&name) {
            Some(e) => Ok(e),
            None => Err(RuspErr::VoidFunction { name }),
        }
    }

    fn find_variable(&self, name: &String) -> (r: Option<&RuspExp>)
        ensures
            match self@.variable_of(name@) {
                Some(v) => r matches Some(e) && e@ == v,
                None => r is None,
            },
        decreases self,
    {
        let i = find(&self.variable, name);
        if i < self.variable.len() {
            Some(&self.variable[i].value)
        } else {
            match &self.outer {
                Some(outer) => outer.find_variable(name),
                None => None,
            }
        }
    }

    fn find_function(&self, name: &String) -> (r: Option<&RuspExp>)
        ensures
            match self@.function_of(name@) {
                Some(v) => r matches Some(e) && e@ == v,
                None => r is None,
            },
        decreases self,
    {
        let i = find(&self.function, name);
        if i < self.function.len() {
            Some(&self.function[i].value)
        } else {
            match &self.outer {
                Some(outer) => outer.find_function(name),
                None => None,
            }
        }
    }

    /// Binds the variable `name` to `value` in this scope; the enclosing
    /// scopes are left as they are.
    pub fn bind_variable(&mut self, name: String, value: RuspExp)
        ensures
            final(self)@ == old(self)@.bind_variable(name@, value@),
    {
        insert(&mut self.variable, name, value);
    }

    /// Binds the function `name` to `value` in this scope; the enclosing
    /// scopes are left as they are.
    pub fn bind_function(&mut self, name: String, value: RuspExp)
        ensures
            final(self)@ == old(self)@.bind_function(name@, value@),
    {
        insert(&mut self.function, name, value);
    }
}

} // verus!
