//! Facts: named, typed values, and the two `hashbrown` tables that hold them.

use crate::string_set::texts;
use crate::string_set::StringHashSet;
use hashbrown::HashMap;
use hashbrown::HashSet;
use vstd::prelude::*;

verus! {

/// A named value of one of four types.
#[derive(Debug, PartialEq, Eq, Hash)]
pub enum Fact {
    Int(String, i32),
    String(String, String),
    Bool(String, bool),
    StringList(String, StringHashSet),
}

/// What a fact holds, without its name.
pub enum FactValue {
    Int(i32),
    Text(Seq<char>),
    Bool(bool),
    List(Set<Seq<char>>),
}

impl FactValue {
    /// Whether two values are of the same one of the four types.
    pub open spec fn same_kind(self, other: FactValue) -> bool {
        match (self, other) {
            (FactValue::Int(_), FactValue::Int(_)) => true,
            (FactValue::Text(_), FactValue::Text(_)) => true,
            (FactValue::Bool(_), FactValue::Bool(_)) => true,
            (FactValue::List(_), FactValue::List(_)) => true,
            _ => false,
        }
    }
}

/// A fact as a mathematical value.
pub struct FactView {
    pub name: Seq<char>,
    pub value: FactValue,
}

impl View for Fact {
    type V = FactView;

    open spec fn view(&self) -> FactView {
        match *self {
            Fact::Int(name, value) => FactView { name: name@, value: FactValue::Int(value) },
            Fact::String(name, value) => FactView { name: name@, value: FactValue::Text(value@) },
            Fact::Bool(name, value) => FactView { name: name@, value: FactValue::Bool(value) },
            Fact::StringList(name, items) => FactView {
                name: name@,
                value: FactValue::List(items@),
            },
        }
    }
}

impl Clone for Fact {
    fn clone(&self) -> (r: Self)
        ensures
            r@ == self@,
    {
        match self {
            Fact::Int(name, value) => Fact::Int(name.clone(), *value),
            Fact::String(name, value) => Fact::String(name.clone(), value.clone()),
            Fact::Bool(name, value) => Fact::Bool(name.clone(), *value),
            Fact::StringList(name, items) => Fact::StringList(name.clone(), items.clone()),
        }
    }
}

impl Fact {
    /// The fact's name.
    pub fn name(&self) -> (r: &String)
        ensures
            r@ == self@.name,
    {
        match self {
            Fact::Int(name, _) => name,
            Fact::String(name, _) => name,
            Fact::Bool(name, _) => name,
            Fact::StringList(name, _) => name,
        }
    }

    /// Whether both facts are of the same type.
    pub fn same_kind(&self, other: &Fact) -> (r: bool)
        ensures
            r == self@.value.same_kind(other@.value),
    {
        match (self, other) {
            (Fact::Int(_, _), Fact::Int(_, _)) => true,
            (Fact::String(_, _), Fact::String(_, _)) => true,
            (Fact::Bool(_, _), Fact::Bool(_, _)) => true,
            (Fact::StringList(_, _), Fact::StringList(_, _)) => true,
            _ => false,
        }
    }

    /// Whether both facts hold the same value, whatever their names.
    pub fn same_value(&self, other: &Fact) -> (r: bool)
        ensures
            r == (self@.value == other@.value),
    {
        match (self, other) {
            (Fact::Int(_, a), Fact::Int(_, b)) => *a == *b,
            (Fact::String(_, a), Fact::String(_, b)) => *a == *b,
            (Fact::Bool(_, a), Fact::Bool(_, b)) => *a == *b,
            (Fact::StringList(_, a), Fact::StringList(_, b)) => a.same_items(b),
            _ => false,
        }
    }
}

/// The views of a list of facts, in order.
pub open spec fn fact_views(v: Seq<Fact>) -> Seq<FactView> {
    Seq::new(v.len(), |i: int| v[i]@)
}

/// The facts of a list, each under its name. Of two facts of one name the
/// later one stays.
pub open spec fn facts_by_name(facts: Seq<FactView>) -> Map<Seq<char>, FactView>
    decreases facts.len(),
{
    if facts.len() == 0 {
        Map::empty()
    } else {
        facts_by_name(facts.drop_last()).insert(facts.last().name, facts.last())
    }
}

/// The current facts, each under a key: a `hashbrown::HashMap<String, Fact>`.
/// [`crate::store::CoolFactStore`] fills one as it is written to, and
/// [`FactMap::from_facts`] makes one of a list of facts.
#[verifier::external_body]
#[derive(Debug)]
pub struct FactMap(HashMap<String, Fact>);

/// The facts that a table holds, by the characters of their keys.
pub uninterp spec fn fact_map_entries(m: FactMap) -> Map<Seq<char>, FactView>;

impl View for FactMap {
    type V = Map<Seq<char>, FactView>;

    open spec fn view(&self) -> Map<Seq<char>, FactView> {
        fact_map_entries(*self)
    }
}

impl FactMap {
    /// `hashbrown::HashMap::new`: a table that holds nothing.
    #[verifier::external_body]
    pub(crate) fn new() -> (r: Self)
        ensures
            fact_map_entries(r) == (Map::<Seq<char>, FactView>::empty()),
    {
        FactMap(HashMap::new())
    }

    /// `hashbrown::HashMap::insert`: afterwards the key leads to the fact,
    /// whether or not it led to another before; the other keys are untouched.
    #[verifier::external_body]
    pub(crate) fn insert(&mut self, key: String, fact: Fact)
        ensures
            fact_map_entries(*final(self)) == fact_map_entries(*old(self)).insert(key@, fact@),
    {
        self.0.insert(key, fact);
    }

    /// The facts of a list, each under its name. Of two facts of one name the
    /// later one stays.
    pub fn from_facts(facts: Vec<Fact>) -> (r: Self)
        ensures
            r@ == facts_by_name(fact_views(facts@)),
    {
        let ghost all = fact_views(facts@);
        let mut map = FactMap::new();
        let mut i: usize = 0;
        while i < facts.len()
            invariant
                i <= facts.len(),
                all == fact_views(facts@),
                map@ == facts_by_name(all.take(i as int)),
            decreases facts.len() - i,
        {
            proof {
                assert(all.take(i as int + 1).drop_last() =~= all.take(i as int));
            }
            let fact = facts[i].clone();
            let key = fact.name().clone();
            map.insert(key, fact);
            i += 1;
        }
        proof {
            assert(all.take(facts.len() as int) =~= all);
        }
        map
    }

    /// `hashbrown::HashMap::get`: the fact that the key leads to, if any.
    #[verifier::external_body]
    pub(crate) fn get(&self, key: &str) -> (r: Option<&Fact>)
        ensures
            match r {
                Some(fact) => fact_map_entries(*self).contains_key(key@) && fact@
                    == fact_map_entries(*self)[key@],
                None => !fact_map_entries(*self).contains_key(key@),
            },
    {
        self.0.get(key)
    }
}

/// The facts that changed since they were last collected: a
/// `hashbrown::HashSet<Fact>`. Facts count as one when they are equal in name,
/// type and value: that is what the derived `==` of [`Fact`] compares, and it
/// is what [`fact_set_items`] tells facts apart by.
#[verifier::external_body]
#[derive(Debug)]
pub struct FactSet(HashSet<Fact>);

/// The facts that a set holds.
pub uninterp spec fn fact_set_items(s: FactSet) -> Set<FactView>;

impl View for FactSet {
    type V = Set<FactView>;

    open spec fn view(&self) -> Set<FactView> {
        fact_set_items(*self)
    }
}

impl FactSet {
    /// `hashbrown::HashSet::new`: a set that holds nothing.
    #[verifier::external_body]
    pub(crate) fn new() -> (r: Self)
        ensures
            fact_set_items(r) == Set::<FactView>::empty(),
    {
        FactSet(HashSet::new())
    }

    /// `hashbrown::HashSet::insert`: the fact joins the set; the result is
    /// `true` exactly when the set did not hold an equal fact before.
    #[verifier::external_body]
    pub(crate) fn insert(&mut self, fact: Fact) -> (r: bool)
        ensures
            fact_set_items(*final(self)) == fact_set_items(*old(self)).insert(fact@),
            r == !fact_set_items(*old(self)).contains(fact@),
    {
        self.0.insert(fact)
    }

    /// `hashbrown::HashSet::drain`, collected into a vector: every fact of the
    /// set exactly once, and the set is left empty. The order is that in which
    /// the table is walked, and nothing is claimed of it.
    #[verifier::external_body]
    pub(crate) fn drain(&mut self) -> (r: Vec<Fact>)
        ensures
            fact_views(r@).no_duplicates(),
            fact_views(r@).to_set() == fact_set_items(*old(self)),
            fact_set_items(*final(self)) == Set::<FactView>::empty(),
    {
        self.0.drain().collect()
    }
}

/// Builds a fact from its name and one typed value.
pub struct FactBuilder {
    pub key: String,
}

impl FactBuilder {
    pub fn new(key: String) -> (r: Self)
        ensures
            r.key == key,
    {
        FactBuilder { key }
    }

    pub fn integer(self, value: i32) -> (r: Fact)
        ensures
            r@ == (FactView { name: self.key@, value: FactValue::Int(value) }),
    {
        Fact::Int(self.key, value)
    }

    pub fn string(self, value: String) -> (r: Fact)
        ensures
            r@ == (FactView { name: self.key@, value: FactValue::Text(value@) }),
    {
        Fact::String(self.key, value)
    }

    pub fn bool(self, value: bool) -> (r: Fact)
        ensures
            r@ == (FactView { name: self.key@, value: FactValue::Bool(value) }),
    {
        Fact::Bool(self.key, value)
    }

    /// A string-set fact that holds each of `values`; repeated values count once.
    pub fn string_list(self, values: Vec<String>) -> (r: Fact)
        ensures
            r@ == (FactView { name: self.key@, value: FactValue::List(texts(values@).to_set()) }),
    {
        Fact::StringList(self.key, StringHashSet::from_items(values))
    }
}

} // verus!
