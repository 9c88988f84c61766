//! The rule engine: rules by name, the state each was last seen in, and the
//! pass that reports which of them changed state.

use crate::condition::Rule;
use crate::condition::RuleView;
use crate::fact::FactMap;
use crate::fact::FactView;
use crate::string_set::texts;
use crate::string_set::StringHashSet;
use hashbrown::HashMap;
use vstd::prelude::*;

verus! {

/// Rules under their names: a `hashbrown::HashMap<String, Rule>`.
#[verifier::external_body]
#[derive(Debug)]
pub struct RuleMap(HashMap<String, Rule>);

/// The rules that a table holds, by the characters of their keys.
pub uninterp spec fn rule_map_entries(m: RuleMap) -> Map<Seq<char>, RuleView>;

impl View for RuleMap {
    type V = Map<Seq<char>, RuleView>;

    open spec fn view(&self) -> Map<Seq<char>, RuleView> {
        rule_map_entries(*self)
    }
}

impl RuleMap {
    /// `hashbrown::HashMap::new`: a table that holds nothing.
    #[verifier::external_body]
    pub(crate) fn new() -> (r: Self)
        ensures
            rule_map_entries(r) == (Map::<Seq<char>, RuleView>::empty()),
    {
        RuleMap(HashMap::new())
    }

    /// `hashbrown::HashMap::insert`: afterwards the key leads to the rule,
    /// whether or not it led to another before; the other keys are untouched.
    #[verifier::external_body]
    pub(crate) fn insert(&mut self, key: String, rule: Rule)
        ensures
            rule_map_entries(*final(self)) == rule_map_entries(*old(self)).insert(key@, rule@),
    {
        self.0.insert(key, rule);
    }

    /// `hashbrown::HashMap::get`: the rule that the key leads to, if any.
    #[verifier::external_body]
    pub(crate) fn get(&self, key: &str) -> (r: Option<&Rule>)
        ensures
            match r {
                Some(rule) => rule_map_entries(*self).contains_key(key@) && rule@
                    == rule_map_entries(*self)[key@],
                None => !rule_map_entries(*self).contains_key(key@),
            },
    {
        self.0.get(key)
    }

    /// `hashbrown::HashMap::keys`, each key cloned into a vector: every key of
    /// the table exactly once. The order is that in which the table is walked,
    /// and nothing is claimed of it.
    #[verifier::external_body]
    pub(crate) fn names(&self) -> (r: Vec<String>)
        ensures
            texts(r@).no_duplicates(),
            texts(r@).to_set() == rule_map_entries(*self).dom(),
    {
        self.0.keys().cloned().collect()
    }
}

/// The state in which each rule was last seen, by the rule's name: a
/// `hashbrown::HashMap<String, bool>`.
#[verifier::external_body]
#[derive(Debug)]
pub struct RuleStateMap(HashMap<String, bool>);

/// The states that a table holds, by the characters of their keys.
pub uninterp spec fn rule_state_entries(m: RuleStateMap) -> Map<Seq<char>, bool>;

impl View for RuleStateMap {
    type V = Map<Seq<char>, bool>;

    open spec fn view(&self) -> Map<Seq<char>, bool> {
        rule_state_entries(*self)
    }
}

impl RuleStateMap {
    /// `hashbrown::HashMap::new`: a table that holds nothing.
    #[verifier::external_body]
    pub(crate) fn new() -> (r: Self)
        ensures
            rule_state_entries(r) == (Map::<Seq<char>, bool>::empty()),
    {
        RuleStateMap(HashMap::new())
    }

    /// `hashbrown::HashMap::insert`: afterwards the key leads to the state,
    /// whether or not it led to another before; the other keys are untouched.
    #[verifier::external_body]
    pub(crate) fn insert(&mut self, key: String, state: bool)
        ensures
            rule_state_entries(*final(self)) == rule_state_entries(*old(self)).insert(key@, state),
    {
        self.0.insert(key, state);
    }

    /// `hashbrown::HashMap::get`: the state that the key leads to, if any.
    #[verifier::external_body]
    pub(crate) fn get(&self, key: &str) -> (r: Option<bool>)
        ensures
            match r {
                Some(state) => rule_state_entries(*self).contains_key(key@) && state
                    == rule_state_entries(*self)[key@],
                None => !rule_state_entries(*self).contains_key(key@),
            },
    {
        self.0.get(key).copied()
    }
}

/// Rules by name, with the state in which each was last seen.
#[derive(Debug)]
pub struct RuleEngine {
    pub rules: RuleMap,
    pub rule_states: RuleStateMap,
}

/// A rule engine as a mathematical value.
pub struct RuleEngineView {
    pub rules: Map<Seq<char>, RuleView>,
    pub states: Map<Seq<char>, bool>,
}

impl RuleEngineView {
    /// Every rule is kept under its own name and has a recorded state, and
    /// only rules have one.
    pub open spec fn wf(self) -> bool {
        &&& self.rules.dom() == self.states.dom()
        &&& forall|name: Seq<char>| #[trigger]
            self.rules.contains_key(name) ==> self.rules[name].name == name
    }

    /// The state in which the rule under `name` was last seen; `false` where
    /// none is recorded.
    pub open spec fn state_of(self, name: Seq<char>) -> bool {
        self.states.contains_key(name) && self.states[name]
    }

    /// The engine with `rule` under its name, last seen as not satisfied.
    pub open spec fn with_rule(self, rule: RuleView) -> RuleEngineView {
        RuleEngineView {
            rules: self.rules.insert(rule.name, rule),
            states: self.states.insert(rule.name, false),
        }
    }

    /// Whether `name` is a rule that the facts satisfy otherwise than it was
    /// last seen.
    pub open spec fn flips(self, name: Seq<char>, facts: Map<Seq<char>, FactView>) -> bool {
        self.rules.contains_key(name) && self.rules[name].holds_in(facts) != self.state_of(name)
    }

    /// The names of the rules that change state under the facts.
    pub open spec fn flipped(self, facts: Map<Seq<char>, FactView>) -> Set<Seq<char>> {
        Set::new(|name: Seq<char>| self.flips(name, facts))
    }

    /// The engine after a pass over the facts: every rule that changed state
    /// has its new state recorded, and nothing else is touched.
    pub open spec fn evaluated(self, facts: Map<Seq<char>, FactView>) -> RuleEngineView {
        RuleEngineView {
            rules: self.rules,
            states: Map::new(
                |name: Seq<char>| self.states.contains_key(name) || self.flips(name, facts),
                |name: Seq<char>|
                    if self.rules.contains_key(name) {
                        self.rules[name].holds_in(facts)
                    } else {
                        self.states[name]
                    },
            ),
        }
    }

    /// What a pass has done once it has dealt with the rules named in `seen`.
    spec fn evaluated_among(
        self,
        seen: Seq<Seq<char>>,
        facts: Map<Seq<char>, FactView>,
    ) -> Map<Seq<char>, bool> {
        Map::new(
            |name: Seq<char>|
                self.states.contains_key(name) || (seen.contains(name) && self.flips(name, facts)),
            |name: Seq<char>|
                if seen.contains(name) && self.rules.contains_key(name) {
                    self.rules[name].holds_in(facts)
                } else {
                    self.states[name]
                },
        )
    }
}

impl View for RuleEngine {
    type V = RuleEngineView;

    open spec fn view(&self) -> RuleEngineView {
        RuleEngineView { rules: self.rules@, states: self.rule_states@ }
    }
}

impl RuleEngine {
    /// An engine without rules.
    pub fn new() -> (r: Self)
        ensures
            r@.rules == Map::<Seq<char>, RuleView>::empty(),
            r@.states == Map::<Seq<char>, bool>::empty(),
            r@.wf(),
    {
        RuleEngine { rules: RuleMap::new(), rule_states: RuleStateMap::new() }
    }

    /// Takes the rule in under its name, in place of any rule of that name,
    /// and records it as not satisfied, whatever was recorded before.
    pub fn add_rule(&mut self, rule: Rule)
        ensures
            final(self)@ == old(self)@.with_rule(rule@),
            old(self)@.wf() ==> final(self)@.wf(),
    {
        self.rule_states.insert(rule.name.clone(), false);
        self.rules.insert(rule.name.clone(), rule);
    }

    /// Evaluates every rule against the facts. A rule that is satisfied
    /// otherwise than it was last seen has its new state recorded, and its
    /// name is in the result; no other name is.
    pub fn evaluate_rules(&mut self, facts: &FactMap) -> (r: StringHashSet)
        ensures
            r@ == old(self)@.flipped(facts@),
            final(self)@ == old(self)@.evaluated(facts@),
            old(self)@.wf() ==> final(self)@.wf(),
    {
        let ghost before = self@;
        let names = self.rules.names();
        let mut flipped = StringHashSet::new();
        let mut i: usize = 0;
        while i < names.len()
            invariant
                i <= names.len(),
                texts(names@).no_duplicates(),
                texts(names@).to_set() == before.rules.dom(),
                self.rules@ == before.rules,
                self.rule_states@ == before.evaluated_among(texts(names@).take(i as int), facts@),
                flipped@ == Set::new(
                    |name: Seq<char>|
                        texts(names@).take(i as int).contains(name) && before.flips(name, facts@),
                ),
            decreases names.len() - i,
        {
            let ghost seen = texts(names@).take(i as int);
            let ghost next = texts(names@).take(i as int + 1);
            let ghost current = names@[i as int]@;
            proof {
                assert(texts(names@)[i as int] == current);
                assert forall|name: Seq<char>| next.contains(name) <==> (seen.contains(name)
                    || name == current) by {
                    if name == current {
                        assert(next[i as int] == name);
                    }
                }
                assert(!seen.contains(current));
            }
            let name = &names[i];
            match self.rules.get(name.as_str()) {
                Some(rule) => {
                    let now = rule.evaluate(facts);
                    let previous = match self.rule_states.get(name.as_str()) {
                        Some(state) => state,
                        None => false,
                    };
                    if previous != now {
                        self.rule_states.insert(name.clone(), now);
                        flipped.insert(name.clone());
                    }
                },
                None => {},
            }
            i += 1;
        }
        proof {
            let all = texts(names@);
            assert(all.take(names.len() as int) =~= all);
            assert(forall|name: Seq<char>|
                all.contains(name) <==> before.rules.contains_key(name));
            assert(self.rule_states@ =~= before.evaluated(facts@).states);
            if before.wf() {
                assert(self@.rules.dom() =~= self@.states.dom());
            }
        }
        flipped
    }
}

} // verus!
