//! Conditions on single facts, and rules: named conjunctions of conditions.

use crate::fact::Fact;
use crate::fact::FactMap;
use crate::fact::FactValue;
use crate::fact::FactView;
use vstd::prelude::*;

verus! {

/// A test of one fact against an expected value.
#[derive(Debug, PartialEq, Eq, Hash)]
pub enum Condition {
    IntEquals { fact_name: String, expected_value: i32 },
    IntMoreThan { fact_name: String, expected_value: i32 },
    IntLessThan { fact_name: String, expected_value: i32 },
    StringEquals { fact_name: String, expected_value: String },
    BoolEquals { fact_name: String, expected_value: bool },
    ListContains { fact_name: String, expected_value: String },
}

/// A condition as a mathematical value.
pub enum ConditionView {
    IntEquals { fact_name: Seq<char>, expected_value: i32 },
    IntMoreThan { fact_name: Seq<char>, expected_value: i32 },
    IntLessThan { fact_name: Seq<char>, expected_value: i32 },
    StringEquals { fact_name: Seq<char>, expected_value: Seq<char> },
    BoolEquals { fact_name: Seq<char>, expected_value: bool },
    ListContains { fact_name: Seq<char>, expected_value: Seq<char> },
}

impl ConditionView {
    /// The name of the fact that the condition tests.
    pub open spec fn fact_name(self) -> Seq<char> {
        match self {
            ConditionView::IntEquals { fact_name, .. } => fact_name,
            ConditionView::IntMoreThan { fact_name, .. } => fact_name,
            ConditionView::IntLessThan { fact_name, .. } => fact_name,
            ConditionView::StringEquals { fact_name, .. } => fact_name,
            ConditionView::BoolEquals { fact_name, .. } => fact_name,
            ConditionView::ListContains { fact_name, .. } => fact_name,
        }
    }

    /// Whether a value meets the condition. A value of another type than the
    /// condition asks for does not.
    pub open spec fn met_by(self, value: FactValue) -> bool {
        match (self, value) {
            (ConditionView::IntEquals { expected_value, .. }, FactValue::Int(v)) => v
                == expected_value,
            (ConditionView::IntMoreThan { expected_value, .. }, FactValue::Int(v)) => v
                > expected_value,
            (ConditionView::IntLessThan { expected_value, .. }, FactValue::Int(v)) => v
                < expected_value,
            (ConditionView::StringEquals { expected_value, .. }, FactValue::Text(v)) => v
                == expected_value,
            (ConditionView::BoolEquals { expected_value, .. }, FactValue::Bool(v)) => v
                == expected_value,
            (ConditionView::ListContains { expected_value, .. }, FactValue::List(v)) => v.contains(
                expected_value,
            ),
            _ => false,
        }
    }

    /// Whether the condition holds among the facts: its fact is there and
    /// meets it.
    pub open spec fn holds_in(self, facts: Map<Seq<char>, FactView>) -> bool {
        facts.contains_key(self.fact_name()) && self.met_by(facts[self.fact_name()].value)
    }
}

impl View for Condition {
    type V = ConditionView;

    open spec fn view(&self) -> ConditionView {
        match *self {
            Condition::IntEquals { fact_name, expected_value } => ConditionView::IntEquals {
                fact_name: fact_name@,
                expected_value,
            },
            Condition::IntMoreThan { fact_name, expected_value } => ConditionView::IntMoreThan {
                fact_name: fact_name@,
                expected_value,
            },
            Condition::IntLessThan { fact_name, expected_value } => ConditionView::IntLessThan {
                fact_name: fact_name@,
                expected_value,
            },
            Condition::StringEquals { fact_name, expected_value } => ConditionView::StringEquals {
                fact_name: fact_name@,
                expected_value: expected_value@,
            },
            Condition::BoolEquals { fact_name, expected_value } => ConditionView::BoolEquals {
                fact_name: fact_name@,
                expected_value,
            },
            Condition::ListContains { fact_name, expected_value } => ConditionView::ListContains {
                fact_name: fact_name@,
                expected_value: expected_value@,
            },
        }
    }
}

impl Clone for Condition {
    fn clone(&self) -> (r: Self)
        ensures
            r@ == self@,
    {
        match self {
            Condition::IntEquals { fact_name, expected_value } => Condition::IntEquals {
                fact_name: fact_name.clone(),
                expected_value: *expected_value,
            },
            Condition::IntMoreThan { fact_name, expected_value } => Condition::IntMoreThan {
                fact_name: fact_name.clone(),
                expected_value: *expected_value,
            },
            Condition::IntLessThan { fact_name, expected_value } => Condition::IntLessThan {
                fact_name: fact_name.clone(),
                expected_value: *expected_value,
            },
            Condition::StringEquals { fact_name, expected_value } => Condition::StringEquals {
                fact_name: fact_name.clone(),
                expected_value: expected_value.clone(),
            },
            Condition::BoolEquals { fact_name, expected_value } => Condition::BoolEquals {
                fact_name: fact_name.clone(),
                expected_value: *expected_value,
            },
            Condition::ListContains { fact_name, expected_value } => Condition::ListContains {
                fact_name: fact_name.clone(),
                expected_value: expected_value.clone(),
            },
        }
    }
}

impl Condition {
    /// Whether the condition holds among the facts. A fact that is missing, or
    /// of another type than the condition asks for, makes it `false`.
    pub fn evaluate(&self, facts: &FactMap) -> (r: bool)
        ensures
            r == self@.holds_in(facts@),
    {
        match self {
            Condition::IntEquals { fact_name, expected_value } => {
                match facts.get(fact_name.as_str()) {
                    Some(Fact::Int(_, value)) => *value == *expected_value,
                    _ => false,
                }
            },
            Condition::StringEquals { fact_name, expected_value } => {
                match facts.get(fact_name.as_str()) {
                    Some(Fact::String(_, value)) => *value == *expected_value,
                    _ => false,
                }
            },
            Condition::BoolEquals { fact_name, expected_value } => {
                match facts.get(fact_name.as_str()) {
                    Some(Fact::Bool(_, value)) => *value == *expected_value,
                    _ => false,
                }
            },
            Condition::IntMoreThan { fact_name, expected_value } => {
                match facts.get(fact_name.as_str()) {
                    Some(Fact::Int(_, value)) => *value > *expected_value,
                    _ => false,
                }
            },
            Condition::IntLessThan { fact_name, expected_value } => {
                match facts.get(fact_name.as_str()) {
                    Some(Fact::Int(_, value)) => *value < *expected_value,
                    _ => false,
                }
            },
            Condition::ListContains { fact_name, expected_value } => {
                match facts.get(fact_name.as_str()) {
                    Some(Fact::StringList(_, value)) => value.holds(expected_value),
                    _ => false,
                }
            },
        }
    }
}

/// The views of a list of conditions, in order.
pub open spec fn condition_views(v: Seq<Condition>) -> Seq<ConditionView> {
    Seq::new(v.len(), |i: int| v[i]@)
}

/// Whether every condition of the list holds among the facts. An empty list
/// holds.
pub open spec fn all_hold(conditions: Seq<ConditionView>, facts: Map<Seq<char>, FactView>) -> bool {
    forall|i: int| 0 <= i < conditions.len() ==> (#[trigger] conditions[i]).holds_in(facts)
}

/// A copy of a list of conditions.
pub(crate) fn clone_conditions(conditions: &Vec<Condition>) -> (r: Vec<Condition>)
    ensures
        condition_views(r@) == condition_views(conditions@),
{
    let mut copy: Vec<Condition> = Vec::new();
    let mut i: usize = 0;
    while i < conditions.len()
        invariant
            i <= conditions.len(),
            copy@.len() == i,
            forall|k: int| 0 <= k < i ==> copy@[k]@ == conditions@[k]@,
        decreases conditions.len() - i,
    {
        copy.push(conditions[i].clone());
        i += 1;
    }
    copy
}

/// A name and the conditions that must all hold.
#[derive(Debug, PartialEq, Eq, Hash)]
pub struct Rule {
    pub name: String,
    pub conditions: Vec<Condition>,
}

/// A rule as a mathematical value.
pub struct RuleView {
    pub name: Seq<char>,
    pub conditions: Seq<ConditionView>,
}

impl RuleView {
    /// Whether the rule is satisfied: all of its conditions hold.
    pub open spec fn holds_in(self, facts: Map<Seq<char>, FactView>) -> bool {
        all_hold(self.conditions, facts)
    }
}

impl View for Rule {
    type V = RuleView;

    open spec fn view(&self) -> RuleView {
        RuleView { name: self.name@, conditions: condition_views(self.conditions@) }
    }
}

impl Clone for Rule {
    fn clone(&self) -> (r: Self)
        ensures
            r@ == self@,
    {
        Rule { name: self.name.clone(), conditions: clone_conditions(&self.conditions) }
    }
}

impl Rule {
    pub fn new(name: String, conditions: Vec<Condition>) -> (r: Self)
        ensures
            r.name == name,
            r.conditions == conditions,
    {
        Rule { name, conditions }
    }

    /// Whether all conditions hold among the facts. A rule without conditions
    /// is satisfied.
    pub fn evaluate(&self, facts: &FactMap) -> (r: bool)
        ensures
            r == self@.holds_in(facts@),
    {
        let mut i: usize = 0;
        while i < self.conditions.len()
            invariant
                i <= self.conditions.len(),
                forall|k: int| 0 <= k < i ==> (#[trigger] self@.conditions[k]).holds_in(facts@),
            decreases self.conditions.len() - i,
        {
            if !self.conditions[i].evaluate(facts) {
                assert(!self@.conditions[i as int].holds_in(facts@));
                return false;
            }
            i += 1;
        }
        true
    }
}

/// The views of a list of rules, in order.
pub open spec fn rule_views(v: Seq<Rule>) -> Seq<RuleView> {
    Seq::new(v.len(), |i: int| v[i]@)
}

/// Whether every rule of the list is satisfied. An empty list is.
pub open spec fn all_satisfied(rules: Seq<RuleView>, facts: Map<Seq<char>, FactView>) -> bool {
    forall|i: int| 0 <= i < rules.len() ==> (#[trigger] rules[i]).holds_in(facts)
}

/// A copy of a list of rules.
pub(crate) fn clone_rules(rules: &Vec<Rule>) -> (r: Vec<Rule>)
    ensures
        rule_views(r@) == rule_views(rules@),
{
    let mut copy: Vec<Rule> = Vec::new();
    let mut i: usize = 0;
    while i < rules.len()
        invariant
            i <= rules.len(),
            copy@.len() == i,
            forall|k: int| 0 <= k < i ==> copy@[k]@ == rules@[k]@,
        decreases rules.len() - i,
    {
        copy.push(rules[i].clone());
        i += 1;
    }
    copy
}

/// Collects conditions one call at a time.
pub struct ConditionBuilder {
    pub conditions: Vec<Condition>,
}

impl ConditionBuilder {
    pub fn new() -> (r: Self)
        ensures
            r.conditions@.len() == 0,
    {
        ConditionBuilder { conditions: Vec::new() }
    }

    fn with(self, condition: Condition) -> (r: Self)
        ensures
            r.conditions@ == self.conditions@.push(condition),
            condition_views(r.conditions@) == condition_views(self.conditions@).push(condition@),
    {
        let mut conditions = self.conditions;
        conditions.push(condition);
        ConditionBuilder { conditions }
    }

    pub fn int_equals(self, fact_name: String, expected_value: i32) -> (r: Self)
        ensures
            condition_views(r.conditions@) == condition_views(self.conditions@).push(
                ConditionView::IntEquals { fact_name: fact_name@, expected_value },
            ),
    {
        self.with(Condition::IntEquals { fact_name, expected_value })
    }

    pub fn int_more_than(self, fact_name: String, expected_value: i32) -> (r: Self)
        ensures
            condition_views(r.conditions@) == condition_views(self.conditions@).push(
                ConditionView::IntMoreThan { fact_name: fact_name@, expected_value },
            ),
    {
        self.with(Condition::IntMoreThan { fact_name, expected_value })
    }

    pub fn int_less_than(self, fact_name: String, expected_value: i32) -> (r: Self)
        ensures
            condition_views(r.conditions@) == condition_views(self.conditions@).push(
                ConditionView::IntLessThan { fact_name: fact_name@, expected_value },
            ),
    {
        self.with(Condition::IntLessThan { fact_name, expected_value })
    }

    pub fn string_equals(self, fact_name: String, expected_value: String) -> (r: Self)
        ensures
            condition_views(r.conditions@) == condition_views(self.conditions@).push(
                ConditionView::StringEquals {
                    fact_name: fact_name@,
                    expected_value: expected_value@,
                },
            ),
    {
        self.with(Condition::StringEquals { fact_name, expected_value })
    }

    pub fn bool_equals(self, fact_name: String, expected_value: bool) -> (r: Self)
        ensures
            condition_views(r.conditions@) == condition_views(self.conditions@).push(
                ConditionView::BoolEquals { fact_name: fact_name@, expected_value },
            ),
    {
        self.with(Condition::BoolEquals { fact_name, expected_value })
    }

    pub fn list_contains(self, fact_name: String, expected_value: String) -> (r: Self)
        ensures
            condition_views(r.conditions@) == condition_views(self.conditions@).push(
                ConditionView::ListContains {
                    fact_name: fact_name@,
                    expected_value: expected_value@,
                },
            ),
    {
        self.with(Condition::ListContains { fact_name, expected_value })
    }

    pub fn build(self) -> (r: Vec<Condition>)
        ensures
            r == self.conditions,
    {
        self.conditions
    }
}

/// Builds a rule from a name and a list of conditions.
pub struct RuleBuilder {
    name: String,
    conditions: Vec<Condition>,
}

impl RuleBuilder {
    /// The rule that [`RuleBuilder::build`] will return.
    pub closed spec fn rule(self) -> RuleView {
        RuleView { name: self.name@, conditions: condition_views(self.conditions@) }
    }

    pub fn new(name: String) -> (r: Self)
        ensures
            r.rule() == (RuleView { name: name@, conditions: Seq::empty() }),
    {
        let r = RuleBuilder { name, conditions: Vec::new() };
        assert(condition_views(r.conditions@) =~= Seq::empty());
        r
    }

    /// Replaces the conditions collected so far.
    pub fn conditions(self, conditions: Vec<Condition>) -> (r: Self)
        ensures
            r.rule() == (RuleView {
                name: self.rule().name,
                conditions: condition_views(conditions@),
            }),
    {
        RuleBuilder { name: self.name, conditions }
    }

    pub fn build(self) -> (r: Rule)
        ensures
            r@ == self.rule(),
    {
        Rule { name: self.name, conditions: self.conditions }
    }
}

} // verus!
