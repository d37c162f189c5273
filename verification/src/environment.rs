use vstd::prelude::*;
use vstd::hash_map::StringHashMap;
use crate::object::{clone_object, Object, Value};

verus! {

/// One scope: a flat mapping from names to values, with no enclosing scope.
pub struct Environment {
    store: StringHashMap<Object>,
}

impl View for Environment {
    type V = Map<Seq<char>, Value>;

    closed spec fn view(&self) -> Map<Seq<char>, Value> {
        self.store@.map_values(|o: Object| o@)
    }
}

impl Environment {
    /// An empty scope.
    pub fn new() -> (env: Environment)
        ensures
            env@ == Map::<Seq<char>, Value>::empty(),
    {
        let env = Environment { store: StringHashMap::new() };
        assert(env@ =~= Map::<Seq<char>, Value>::empty());
        env
    }

    /// The value bound to `name`, or `None` if the name is not bound.
    pub fn get(&self, name: &str) -> (r: Option<Object>)
        ensures
            match r {
                Some(value) => self@.contains_key(name@) && value@ == self@[name@],
                None => !self@.contains_key(name@),
            },
    {
        match self.store.get(name) {
            Some(value) => Some(clone_object(value)),
            None => None,
        }
    }

    /// Binds `name` to `val`, in place of whatever it was bound to, and
    /// returns the value.
    pub fn set(&mut self, name: String, val: Object) -> (r: Object)
        ensures
            final(self)@ == old(self)@.insert(name@, val@),
            r@ == val@,
    {
        self.store.insert(name, clone_object(&val));
        assert(self@ =~= old(self)@.insert(name@, val@));
        val
    }
}

} // verus!
