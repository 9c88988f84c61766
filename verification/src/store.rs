//! The fact store: the current facts, and a record of which of them changed.

use crate::fact::fact_views;
use crate::fact::Fact;
use crate::fact::FactMap;
use crate::fact::FactSet;
use crate::fact::FactValue;
use crate::fact::FactView;
use crate::string_set::StringHashSet;
use vstd::prelude::*;

verus! {

/// Why a write to the store was refused.
#[derive(Debug, Clone, Copy, PartialEq, Eq, Structural)]
pub enum StoreError {
    /// The name already holds a value of another type.
    TypeMismatch,
}

/// The current facts by name, and the facts that changed since the changes
/// were last drained.
#[derive(Debug)]
pub struct CoolFactStore {
    pub facts: FactMap,
    pub updated_facts: FactSet,
}

/// A store as a mathematical value.
pub struct StoreView {
    pub facts: Map<Seq<char>, FactView>,
    pub updated: Set<FactView>,
}

impl StoreView {
    /// Every fact is kept under its own name, so no name has two values.
    pub open spec fn wf(self) -> bool {
        forall|name: Seq<char>| #[trigger]
            self.facts.contains_key(name) ==> self.facts[name].name == name
    }

    /// The store with `value` under `name`, and that fact recorded as changed.
    pub open spec fn put(self, name: Seq<char>, value: FactValue) -> StoreView {
        let fact = FactView { name, value };
        StoreView { facts: self.facts.insert(name, fact), updated: self.updated.insert(fact) }
    }

    /// The outcome of writing `value` under `name`: a new name is taken in, a
    /// new value of the same type replaces the old one, an equal value changes
    /// nothing, and a value of another type is refused.
    pub open spec fn store(self, name: Seq<char>, value: FactValue) -> Result<
        StoreView,
        StoreError,
    > {
        if !self.facts.contains_key(name) {
            Ok(self.put(name, value))
        } else if !self.facts[name].value.same_kind(value) {
            Err(StoreError::TypeMismatch)
        } else if self.facts[name].value == value {
            Ok(self)
        } else {
            Ok(self.put(name, value))
        }
    }

    /// The integer under `name`, if `name` holds an integer.
    pub open spec fn int_at(self, name: Seq<char>) -> Option<i32> {
        if self.facts.contains_key(name) {
            match self.facts[name].value {
                FactValue::Int(value) => Some(value),
                _ => None,
            }
        } else {
            None
        }
    }

    /// The string under `name`, if `name` holds a string.
    pub open spec fn text_at(self, name: Seq<char>) -> Option<Seq<char>> {
        if self.facts.contains_key(name) {
            match self.facts[name].value {
                FactValue::Text(value) => Some(value),
                _ => None,
            }
        } else {
            None
        }
    }

    /// The boolean under `name`, if `name` holds a boolean.
    pub open spec fn bool_at(self, name: Seq<char>) -> Option<bool> {
        if self.facts.contains_key(name) {
            match self.facts[name].value {
                FactValue::Bool(value) => Some(value),
                _ => None,
            }
        } else {
            None
        }
    }

    /// The string set under `name`, if `name` holds a string set.
    pub open spec fn list_at(self, name: Seq<char>) -> Option<Set<Seq<char>>> {
        if self.facts.contains_key(name) {
            match self.facts[name].value {
                FactValue::List(items) => Some(items),
                _ => None,
            }
        } else {
            None
        }
    }

    /// The integer under `name`, or 0 where `name` holds no integer.
    pub open spec fn int_or_zero(self, name: Seq<char>) -> int {
        match self.int_at(name) {
            Some(value) => value as int,
            None => 0,
        }
    }

    /// The store after `item` was added to the string set under `name`. A new
    /// name starts a set of one. A set that holds the item already, or a name
    /// that holds a value of another type, leaves the store as it is.
    pub open spec fn add_to_list(self, name: Seq<char>, item: Seq<char>) -> StoreView {
        if !self.facts.contains_key(name) {
            self.put(name, FactValue::List(Set::empty().insert(item)))
        } else {
            match self.facts[name].value {
                FactValue::List(items) => if items.contains(item) {
                    self
                } else {
                    self.put(name, FactValue::List(items.insert(item)))
                },
                _ => self,
            }
        }
    }

    /// The store after `item` was taken out of the string set under `name`.
    /// Only a set that holds the item changes.
    pub open spec fn remove_from_list(self, name: Seq<char>, item: Seq<char>) -> StoreView {
        match self.list_at(name) {
            Some(items) => if items.contains(item) {
                self.put(name, FactValue::List(items.remove(item)))
            } else {
                self
            },
            None => self,
        }
    }

    /// The store with the same facts and no change recorded.
    pub open spec fn drained(self) -> StoreView {
        StoreView { facts: self.facts, updated: Set::empty() }
    }
}

impl View for CoolFactStore {
    type V = StoreView;

    open spec fn view(&self) -> StoreView {
        StoreView { facts: self.facts@, updated: self.updated_facts@ }
    }
}

impl CoolFactStore {
    /// A store without facts.
    pub fn new() -> (r: Self)
        ensures
            r@.facts == Map::<Seq<char>, FactView>::empty(),
            r@.updated == Set::<FactView>::empty(),
            r@.wf(),
    {
        CoolFactStore { facts: FactMap::new(), updated_facts: FactSet::new() }
    }

    /// Writes `fact` under `key`, as [`StoreView::store`] says.
    fn store_fact(&mut self, key: String, fact: Fact) -> (r: Result<(), StoreError>)
        requires
            fact@.name == key@,
        ensures
            match old(self)@.store(key@, fact@.value) {
                Ok(after) => r is Ok && final(self)@ == after,
                Err(e) => r == Err::<(), StoreError>(e) && final(self)@ == old(self)@,
            },
    {
        match self.facts.get(key.as_str()) {
            Some(current) => {
                if !current.same_kind(&fact) {
                    return Err(StoreError::TypeMismatch);
                }
                if current.same_value(&fact) {
                    return Ok(());
                }
            },
            None => {},
        }
        let changed = fact.clone();
        self.facts.insert(key, fact);
        self.updated_facts.insert(changed);
        Ok(())
    }

    /// Sets the integer under `key`. An equal integer changes nothing and
    /// records no change; a name that holds another type is refused.
    pub fn store_int(&mut self, key: String, value: i32) -> (r: Result<(), StoreError>)
        ensures
            match old(self)@.store(key@, FactValue::Int(value)) {
                Ok(after) => r is Ok && final(self)@ == after,
                Err(e) => r == Err::<(), StoreError>(e) && final(self)@ == old(self)@,
            },
            old(self)@.wf() ==> final(self)@.wf(),
    {
        let fact = Fact::Int(key.clone(), value);
        self.store_fact(key, fact)
    }

    /// Sets the string under `key`. An equal string changes nothing and
    /// records no change; a name that holds another type is refused.
    pub fn store_string(&mut self, key: String, value: String) -> (r: Result<(), StoreError>)
        ensures
            match old(self)@.store(key@, FactValue::Text(value@)) {
                Ok(after) => r is Ok && final(self)@ == after,
                Err(e) => r == Err::<(), StoreError>(e) && final(self)@ == old(self)@,
            },
            old(self)@.wf() ==> final(self)@.wf(),
    {
        let fact = Fact::String(key.clone(), value);
        self.store_fact(key, fact)
    }

    /// Sets the boolean under `key`. An equal boolean changes nothing and
    /// records no change; a name that holds another type is refused.
    pub fn store_bool(&mut self, key: String, value: bool) -> (r: Result<(), StoreError>)
        ensures
            match old(self)@.store(key@, FactValue::Bool(value)) {
                Ok(after) => r is Ok && final(self)@ == after,
                Err(e) => r == Err::<(), StoreError>(e) && final(self)@ == old(self)@,
            },
            old(self)@.wf() ==> final(self)@.wf(),
    {
        let fact = Fact::Bool(key.clone(), value);
        self.store_fact(key, fact)
    }

    /// Sets the string set under `key`. A set of the same strings changes
    /// nothing and records no change; a name that holds another type is
    /// refused.
    pub fn store_list(&mut self, key: String, value: StringHashSet) -> (r: Result<
        (),
        StoreError,
    >)
        ensures
            match old(self)@.store(key@, FactValue::List(value@)) {
                Ok(after) => r is Ok && final(self)@ == after,
                Err(e) => r == Err::<(), StoreError>(e) && final(self)@ == old(self)@,
            },
            old(self)@.wf() ==> final(self)@.wf(),
    {
        let fact = Fact::StringList(key.clone(), value);
        self.store_fact(key, fact)
    }

    /// Adds `value` to the integer under `key`, counting from 0 where `key`
    /// holds no integer, and stores the sum as [`CoolFactStore::store_int`]
    /// does. The sum has to be an `i32`.
    pub fn add_to_int(&mut self, key: String, value: i32) -> (r: Result<(), StoreError>)
        requires
            i32::MIN <= old(self)@.int_or_zero(key@) + value <= i32::MAX,
        ensures
            match old(self)@.store(
                key@,
                FactValue::Int((old(self)@.int_or_zero(key@) + value) as i32),
            ) {
                Ok(after) => r is Ok && final(self)@ == after,
                Err(e) => r == Err::<(), StoreError>(e) && final(self)@ == old(self)@,
            },
            old(self)@.wf() ==> final(self)@.wf(),
    {
        let current: i32 = match self.get_int(key.as_str()) {
            Some(number) => *number,
            None => 0,
        };
        self.store_int(key, current + value)
    }

    /// As [`CoolFactStore::add_to_int`] where the sum is an `i32`. Where it is
    /// not, nothing is done and the result is `None`.
    pub fn checked_add_to_int(&mut self, key: String, value: i32) -> (r: Option<
        Result<(), StoreError>,
    >)
        ensures
            r is Some <==> i32::MIN <= old(self)@.int_or_zero(key@) + value <= i32::MAX,
            match r {
                Some(outcome) => match old(self)@.store(
                    key@,
                    FactValue::Int((old(self)@.int_or_zero(key@) + value) as i32),
                ) {
                    Ok(after) => outcome is Ok && final(self)@ == after,
                    Err(e) => outcome == Err::<(), StoreError>(e) && final(self)@ == old(self)@,
                },
                None => final(self)@ == old(self)@,
            },
            old(self)@.wf() ==> final(self)@.wf(),
    {
        let current: i64 = match self.get_int(key.as_str()) {
            Some(number) => *number as i64,
            None => 0,
        };
        let sum: i64 = current + value as i64;
        if sum < -2147483648 || sum > 2147483647 {
            None
        } else {
            Some(self.add_to_int(key, value))
        }
    }

    /// Adds `value` to the string set under `key`; a new name starts a set.
    /// A change is recorded only if the set did not hold the value. A name
    /// that holds another type is left alone.
    pub fn add_to_list(&mut self, key: String, value: String)
        ensures
            final(self)@ == old(self)@.add_to_list(key@, value@),
            old(self)@.wf() ==> final(self)@.wf(),
    {
        let mut items = match self.facts.get(key.as_str()) {
            Some(Fact::StringList(_, current)) => {
                if current.holds(&value) {
                    return ;
                }
                current.clone()
            },
            Some(_) => {
                return ;
            },
            None => StringHashSet::new(),
        };
        items.insert(value);
        let fact = Fact::StringList(key.clone(), items);
        let changed = fact.clone();
        self.facts.insert(key, fact);
        self.updated_facts.insert(changed);
    }

    /// Takes `value` out of the string set under `key`. A change is recorded
    /// only if the set held the value.
    pub fn remove_from_list(&mut self, key: String, value: String)
        ensures
            final(self)@ == old(self)@.remove_from_list(key@, value@),
            old(self)@.wf() ==> final(self)@.wf(),
    {
        let mut items = match self.facts.get(key.as_str()) {
            Some(Fact::StringList(_, current)) => {
                if !current.holds(&value) {
                    return ;
                }
                current.clone()
            },
            _ => {
                return ;
            },
        };
        items.remove(&value);
        let fact = Fact::StringList(key.clone(), items);
        let changed = fact.clone();
        self.facts.insert(key, fact);
        self.updated_facts.insert(changed);
    }

    /// The integer under `key`; `None` where the name is unknown or holds
    /// another type.
    pub fn get_int(&self, key: &str) -> (r: Option<&i32>)
        ensures
            match r {
                Some(value) => self@.int_at(key@) == Some(*value),
                None => self@.int_at(key@) is None,
            },
    {
        match self.facts.get(key) {
            Some(Fact::Int(_, value)) => Some(value),
            _ => None,
        }
    }

    /// The string under `key`; `None` where the name is unknown or holds
    /// another type.
    pub fn get_string(&self, key: &str) -> (r: Option<&String>)
        ensures
            match r {
                Some(value) => self@.text_at(key@) == Some(value@),
                None => self@.text_at(key@) is None,
            },
    {
        match self.facts.get(key) {
            Some(Fact::String(_, value)) => Some(value),
            _ => None,
        }
    }

    /// The boolean under `key`; `None` where the name is unknown or holds
    /// another type.
    pub fn get_bool(&self, key: &str) -> (r: Option<&bool>)
        ensures
            match r {
                Some(value) => self@.bool_at(key@) == Some(*value),
                None => self@.bool_at(key@) is None,
            },
    {
        match self.facts.get(key) {
            Some(Fact::Bool(_, value)) => Some(value),
            _ => None,
        }
    }

    /// The string set under `key`; `None` where the name is unknown or holds
    /// another type.
    pub fn get_list(&self, key: &str) -> (r: Option<&StringHashSet>)
        ensures
            match r {
                Some(value) => self@.list_at(key@) == Some(value@),
                None => self@.list_at(key@) is None,
            },
    {
        match self.facts.get(key) {
            Some(Fact::StringList(_, value)) => Some(value),
            _ => None,
        }
    }

    /// Hands out the facts that changed since the last call, each once and in
    /// no particular order, and forgets them. The facts themselves stay.
    pub fn drain_updated(&mut self) -> (r: Vec<Fact>)
        ensures
            fact_views(r@).no_duplicates(),
            fact_views(r@).to_set() == old(self)@.updated,
            r@.len() == old(self)@.updated.len(),
            final(self)@ == old(self)@.drained(),
    {
        let changed = self.updated_facts.drain();
        proof {
            fact_views(changed@).unique_seq_to_set();
        }
        changed
    }
}

} // verus!
