//! The variables of a program: one flat table from names to values.

use vstd::prelude::*;
use vstd::hash_map::StringHashMap;
use super::value::{option_view, Value, ValueView};
use crate::syntax::token::Token;

verus! {

/// The table of variables. Defining a name that is already there overwrites
/// it; nothing is ever removed.
pub struct Environment {
    pub values: StringHashMap<Value>,
}

/// The value bound to `name` in `bindings`, if there is one.
pub open spec fn lookup(bindings: Map<Seq<char>, ValueView>, name: Seq<char>) -> Option<ValueView> {
    if bindings.contains_key(name) {
        Some(bindings[name])
    } else {
        None
    }
}

impl View for Environment {
    type V = Map<Seq<char>, ValueView>;

    open spec fn view(&self) -> Map<Seq<char>, ValueView> {
        self.values@.map_values(|v: Value| v@)
    }
}

impl Environment {
    /// A table without any variable.
    pub fn new() -> (out: Self)
        ensures
            out@ == Map::<Seq<char>, ValueView>::empty(),
    {
        let values = StringHashMap::new();
        let out = Self { values };
        assert(out@ =~= Map::<Seq<char>, ValueView>::empty());
        out
    }

    /// Binds `name` to `value`, whether or not it was bound before.
    pub fn define(&mut self, name: String, value: Value)
        ensures
            final(self)@ == old(self)@.insert(name@, value@),
    {
        self.values.insert(name, value);
        assert(self@ =~= old(self)@.insert(name@, value@));
    }

    /// The value of the variable that `token` names, if it is defined. An
    /// undefined variable is no failure here: the interpreter makes it one.
    pub fn get_value(&self, token: Token) -> (out: Option<Value>)
        ensures
            option_view(out) == lookup(self@, token@.lexeme),
    {
        match self.values.get(token.lexeme.as_str()) {
            Some(value) => Some(value.clone()),
            None => None,
        }
    }
}

} // verus!
