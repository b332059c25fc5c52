use std::collections::HashMap;
use vstd::prelude::*;

verus! {

broadcast use vstd::std_specs::hash::group_hash_axioms;

/// A state cell's value, tagged with its type.
#[derive(Debug)]
pub enum StateValue {
    Int(i64),
    Text(String),
    Flag(bool),
}

/// Two values hold the same type.
pub open spec fn same_kind(a: StateValue, b: StateValue) -> bool {
    match (a, b) {
        (StateValue::Int(_), StateValue::Int(_)) => true,
        (StateValue::Text(_), StateValue::Text(_)) => true,
        (StateValue::Flag(_), StateValue::Flag(_)) => true,
        _ => false,
    }
}

/// What `use_state` makes of the store `m` and what it returns: the stored
/// value when it has the default's type, else the default, which then
/// takes the slot.
pub open spec fn use_state_spec(
    m: Map<u128, StateValue>,
    id: u128,
    default: StateValue,
) -> (Map<u128, StateValue>, StateValue) {
    if m.contains_key(id) && same_kind(m[id], default) {
        (m, m[id])
    } else {
        (m.insert(id, default), default)
    }
}

/// A cell keeps what was written to it: after `use_state(id, default)` and a
/// write of `v` of the default's type, `use_state(id, default)` again returns
/// `v`, and the second default is ignored.
pub proof fn lemma_state_persists(
    m: Map<u128, StateValue>,
    id: u128,
    default: StateValue,
    v: StateValue,
)
    requires
        same_kind(v, default),
    ensures
        ({
            let m1 = use_state_spec(m, id, default).0;
            use_state_spec(m1.insert(id, v), id, default) == (m1.insert(id, v), v)
        }),
{
}

/// A cell whose slot is asked for with another type is replaced by a fresh
/// one holding the new default.
pub proof fn lemma_state_type_change_replaces(
    m: Map<u128, StateValue>,
    id: u128,
    default: StateValue,
)
    requires
        m.contains_key(id),
        !same_kind(m[id], default),
    ensures
        use_state_spec(m, id, default) == (m.insert(id, default), default),
{
}

impl StateValue {
    /// Whether `self` and `other` hold the same type.
    pub fn same_kind(&self, other: &StateValue) -> (r: bool)
        ensures
            r == same_kind(*self, *other),
    {
        match (self, other) {
            (StateValue::Int(_), StateValue::Int(_)) => true,
            (StateValue::Text(_), StateValue::Text(_)) => true,
            (StateValue::Flag(_), StateValue::Flag(_)) => true,
            _ => false,
        }
    }

    /// A copy of this value.
    pub fn duplicate(&self) -> (r: StateValue)
        ensures
            r == *self,
    {
        match self {
            StateValue::Int(i) => StateValue::Int(*i),
            StateValue::Text(s) => StateValue::Text(s.clone()),
            StateValue::Flag(b) => StateValue::Flag(*b),
        }
    }
}

/// Typed state cells keyed by identity token.
pub struct StateStore {
    states: HashMap<u128, StateValue>,
}

impl View for StateStore {
    type V = Map<u128, StateValue>;

    closed spec fn view(&self) -> Map<u128, StateValue> {
        self.states@
    }
}

impl StateStore {
    /// An empty store.
    pub fn new() -> (r: StateStore)
        ensures
            r@ == Map::<u128, StateValue>::empty(),
    {
        StateStore { states: HashMap::new() }
    }

    /// The value of the cell for `uuid`, created from `default` when there is
    /// none or when it holds another type.
    pub fn use_state(&mut self, uuid: u128, default: StateValue) -> (r: StateValue)
        ensures
            (final(self)@, r) == use_state_spec(old(self)@, uuid, default),
    {
        match self.states.get(&uuid) {
            Some(v) => {
                if v.same_kind(&default) {
                    return v.duplicate();
                }
            },
            None => {},
        }
        self.states.insert(uuid, default.duplicate());
        default
    }

    /// The value of the cell for `uuid`, if there is one.
    pub fn get_state(&self, uuid: u128) -> (r: Option<StateValue>)
        ensures
            r == (if self@.contains_key(uuid) {
                Some(self@[uuid])
            } else {
                None
            }),
    {
        match self.states.get(&uuid) {
            Some(v) => Some(v.duplicate()),
            None => None,
        }
    }

    /// Sets the cell for `uuid` to `value`, whatever it held.
    pub fn set_state(&mut self, uuid: u128, value: StateValue)
        ensures
            final(self)@ == old(self)@.insert(uuid, value),
    {
        self.states.insert(uuid, value);
    }
}

} // verus!
