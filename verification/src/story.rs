//! Stories: sequences of beats that are finished one after another, each when
//! the facts satisfy its rules.

use crate::condition::all_satisfied;
use crate::condition::clone_rules;
use crate::condition::rule_views;
use crate::condition::Rule;
use crate::condition::RuleView;
use crate::effect::clone_effects;
use crate::effect::effect_views;
use crate::effect::Effect;
use crate::effect::EffectBuilder;
use crate::effect::EffectView;
use crate::fact::FactMap;
use crate::fact::FactView;
use vstd::prelude::*;
use vstd::string::StringExecFns;

verus! {

/// A step of a story: the rules that must all be satisfied for it to be
/// finished, and the effects to apply once it is.
#[derive(Debug, PartialEq, Eq, Hash)]
pub struct StoryBeat {
    pub name: String,
    pub rules: Vec<Rule>,
    pub effects: Vec<Effect>,
    pub finished: bool,
}

/// A beat as a mathematical value.
pub struct StoryBeatView {
    pub name: Seq<char>,
    pub rules: Seq<RuleView>,
    pub effects: Seq<EffectView>,
    pub finished: bool,
}

impl StoryBeatView {
    /// The beat after its rules were evaluated against the facts: it is
    /// finished exactly if all of them are satisfied.
    pub open spec fn evaluated(self, facts: Map<Seq<char>, FactView>) -> StoryBeatView {
        StoryBeatView { finished: all_satisfied(self.rules, facts), ..self }
    }
}

impl View for StoryBeat {
    type V = StoryBeatView;

    open spec fn view(&self) -> StoryBeatView {
        StoryBeatView {
            name: self.name@,
            rules: rule_views(self.rules@),
            effects: effect_views(self.effects@),
            finished: self.finished,
        }
    }
}

impl Clone for StoryBeat {
    fn clone(&self) -> (r: Self)
        ensures
            r@ == self@,
    {
        StoryBeat {
            name: self.name.clone(),
            rules: clone_rules(&self.rules),
            effects: clone_effects(&self.effects),
            finished: self.finished,
        }
    }
}

impl StoryBeat {
    /// A beat without effects that is not finished.
    pub fn new(name: String, rules: Vec<Rule>) -> (r: Self)
        ensures
            r.name == name,
            r.rules == rules,
            r.effects@.len() == 0,
            !r.finished,
    {
        StoryBeat { name, rules, effects: Vec::new(), finished: false }
    }

    /// Marks the beat as finished exactly if the facts satisfy all of its
    /// rules. A beat without rules is finished.
    pub fn evaluate(&mut self, facts: &FactMap)
        ensures
            final(self)@ == old(self)@.evaluated(facts@),
    {
        let mut satisfied = true;
        let mut i: usize = 0;
        while i < self.rules.len() && satisfied
            invariant
                i <= self.rules.len(),
                *self == *old(self),
                satisfied ==> forall|k: int|
                    0 <= k < i ==> (#[trigger] self@.rules[k]).holds_in(facts@),
                !satisfied ==> !all_satisfied(self@.rules, facts@),
            decreases self.rules.len() - i,
        {
            if !self.rules[i].evaluate(facts) {
                assert(!self@.rules[i as int].holds_in(facts@));
                satisfied = false;
            }
            i += 1;
        }
        self.finished = satisfied;
    }
}

/// The views of a list of beats, in order.
pub open spec fn beat_views(v: Seq<StoryBeat>) -> Seq<StoryBeatView> {
    Seq::new(v.len(), |i: int| v[i]@)
}

/// A copy of a list of beats.
pub(crate) fn clone_beats(beats: &Vec<StoryBeat>) -> (r: Vec<StoryBeat>)
    ensures
        beat_views(r@) == beat_views(beats@),
{
    let mut copy: Vec<StoryBeat> = Vec::new();
    let mut i: usize = 0;
    while i < beats.len()
        invariant
            i <= beats.len(),
            copy@.len() == i,
            forall|k: int| 0 <= k < i ==> copy@[k]@ == beats@[k]@,
        decreases beats.len() - i,
    {
        copy.push(beats[i].clone());
        i += 1;
    }
    copy
}

/// A sequence of beats, and the index of the first that is not finished yet.
#[derive(Debug, PartialEq, Eq, Hash)]
pub struct Story {
    pub name: String,
    pub beats: Vec<StoryBeat>,
    pub active_beat_index: usize,
}

/// A story as a mathematical value.
pub struct StoryView {
    pub name: Seq<char>,
    pub beats: Seq<StoryBeatView>,
    pub active_beat_index: nat,
}

impl StoryView {
    /// The story is finished once the index has passed its last beat.
    pub open spec fn is_finished(self) -> bool {
        self.active_beat_index >= self.beats.len()
    }

    /// Whether the facts finish the active beat.
    pub open spec fn advances(self, facts: Map<Seq<char>, FactView>) -> bool {
        !self.is_finished() && all_satisfied(
            self.beats[self.active_beat_index as int].rules,
            facts,
        )
    }

    /// The story after its active beat was evaluated against the facts. A
    /// finished story stays as it is. Otherwise the active beat is marked, and
    /// if it is finished, the next beat becomes the active one.
    pub open spec fn evaluated(self, facts: Map<Seq<char>, FactView>) -> StoryView {
        if self.is_finished() {
            self
        } else {
            let at = self.active_beat_index as int;
            StoryView {
                name: self.name,
                beats: self.beats.update(at, self.beats[at].evaluated(facts)),
                active_beat_index: if self.advances(facts) {
                    self.active_beat_index + 1
                } else {
                    self.active_beat_index
                },
            }
        }
    }

    /// The beat that the facts finish, if they finish one.
    pub open spec fn reported(self, facts: Map<Seq<char>, FactView>) -> Option<StoryBeatView> {
        if self.advances(facts) {
            Some(self.beats[self.active_beat_index as int].evaluated(facts))
        } else {
            None
        }
    }
}

impl View for Story {
    type V = StoryView;

    open spec fn view(&self) -> StoryView {
        StoryView {
            name: self.name@,
            beats: beat_views(self.beats@),
            active_beat_index: self.active_beat_index as nat,
        }
    }
}

impl Clone for Story {
    fn clone(&self) -> (r: Self)
        ensures
            r@ == self@,
    {
        Story {
            name: self.name.clone(),
            beats: clone_beats(&self.beats),
            active_beat_index: self.active_beat_index,
        }
    }
}

impl Story {
    /// A story that starts at its first beat.
    pub fn new(name: String, beats: Vec<StoryBeat>) -> (r: Self)
        ensures
            r.name == name,
            r.beats == beats,
            r.active_beat_index == 0,
    {
        Story { name, beats, active_beat_index: 0 }
    }

    /// Evaluates the active beat against the facts. If they finish it, the
    /// story moves on by one beat and the finished beat is returned; it is
    /// returned this once and never again. A finished story does nothing.
    pub fn evaluate_active_beat(&mut self, facts: &FactMap) -> (r: Option<StoryBeat>)
        ensures
            final(self)@ == old(self)@.evaluated(facts@),
            match r {
                Some(beat) => old(self)@.reported(facts@) == Some(beat@),
                None => old(self)@.reported(facts@) is None,
            },
            old(self)@.active_beat_index <= final(self)@.active_beat_index <= old(
                self,
            )@.active_beat_index + 1,
            old(self)@.is_finished() ==> final(self)@ == old(self)@,
    {
        if self.active_beat_index < self.beats.len() {
            let at = self.active_beat_index;
            self.beats[at].evaluate(facts);
            let report = if self.beats[at].finished {
                self.active_beat_index = at + 1;
                Some(self.beats[at].clone())
            } else {
                None
            };
            assert(self@.beats =~= old(self)@.beats.update(
                at as int,
                old(self)@.beats[at as int].evaluated(facts@),
            ));
            report
        } else {
            None
        }
    }

    /// Whether the story has passed its last beat.
    pub fn is_finished(&self) -> (r: bool)
        ensures
            r == self@.is_finished(),
    {
        self.active_beat_index >= self.beats.len()
    }
}

/// The views of a list of stories, in order.
pub open spec fn story_views(v: Seq<Story>) -> Seq<StoryView> {
    Seq::new(v.len(), |i: int| v[i]@)
}

/// The stories after each was evaluated against the facts, on its own.
pub open spec fn stories_evaluated(stories: Seq<StoryView>, facts: Map<Seq<char>, FactView>) -> Seq<
    StoryView,
> {
    Seq::new(stories.len(), |i: int| stories[i].evaluated(facts))
}

/// The beats that the facts finish, in the order of their stories.
pub open spec fn reported_beats(stories: Seq<StoryView>, facts: Map<Seq<char>, FactView>) -> Seq<
    StoryBeatView,
>
    decreases stories.len(),
{
    if stories.len() == 0 {
        Seq::empty()
    } else {
        let before = reported_beats(stories.drop_last(), facts);
        match stories.last().reported(facts) {
            Some(beat) => before.push(beat),
            None => before,
        }
    }
}

/// A collection of stories that run side by side.
#[derive(Debug, PartialEq, Eq, Hash)]
pub struct StoryEngine {
    pub stories: Vec<Story>,
}

impl View for StoryEngine {
    type V = Seq<StoryView>;

    open spec fn view(&self) -> Seq<StoryView> {
        story_views(self.stories@)
    }
}

impl Clone for StoryEngine {
    fn clone(&self) -> (r: Self)
        ensures
            r@ == self@,
    {
        let mut stories: Vec<Story> = Vec::new();
        let mut i: usize = 0;
        while i < self.stories.len()
            invariant
                i <= self.stories.len(),
                stories@.len() == i,
                forall|k: int| 0 <= k < i ==> stories@[k]@ == self.stories@[k]@,
            decreases self.stories.len() - i,
        {
            stories.push(self.stories[i].clone());
            i += 1;
        }
        StoryEngine { stories }
    }
}

impl StoryEngine {
    /// An engine without stories.
    pub fn new() -> (r: Self)
        ensures
            r@ == Seq::<StoryView>::empty(),
    {
        StoryEngine { stories: Vec::new() }
    }

    /// Takes the story in, after those that are there.
    pub fn add_story(&mut self, story: Story)
        ensures
            final(self)@ == old(self)@.push(story@),
    {
        self.stories.push(story);
    }

    /// Evaluates the active beat of every story against the facts, each story
    /// on its own, and returns the beats that were finished by it, in the
    /// order of their stories.
    pub fn evaluate_stories(&mut self, facts: &FactMap) -> (r: Vec<StoryBeat>)
        ensures
            final(self)@ == stories_evaluated(old(self)@, facts@),
            beat_views(r@) == reported_beats(old(self)@, facts@),
    {
        let ghost before = self@;
        let mut finished: Vec<StoryBeat> = Vec::new();
        let mut i: usize = 0;
        while i < self.stories.len()
            invariant
                i <= self.stories.len(),
                self.stories.len() == before.len(),
                forall|k: int| 0 <= k < i ==> self.stories@[k]@ == before[k].evaluated(facts@),
                forall|k: int| i <= k < before.len() ==> self.stories@[k]@ == before[k],
                beat_views(finished@) == reported_beats(before.take(i as int), facts@),
            decreases self.stories.len() - i,
        {
            let report = self.stories[i].evaluate_active_beat(facts);
            proof {
                assert(before.take(i as int + 1).drop_last() =~= before.take(i as int));
            }
            match report {
                Some(beat) => {
                    finished.push(beat);
                },
                None => {},
            }
            i += 1;
        }
        proof {
            assert(before.take(before.len() as int) =~= before);
        }
        finished
    }

    /// Whether every story is finished. An engine without stories is.
    pub fn all_stories_finished(&self) -> (r: bool)
        ensures
            r == forall|i: int| 0 <= i < self@.len() ==> (#[trigger] self@[i]).is_finished(),
    {
        let mut i: usize = 0;
        while i < self.stories.len()
            invariant
                i <= self.stories.len(),
                forall|k: int| 0 <= k < i ==> (#[trigger] self@[k]).is_finished(),
            decreases self.stories.len() - i,
        {
            if !self.stories[i].is_finished() {
                assert(!self@[i as int].is_finished());
                return false;
            }
            i += 1;
        }
        true
    }
}

/// Builds a beat from a name, rules and effects.
#[derive(Debug)]
pub struct StoryBeatBuilder {
    name: String,
    rules: Vec<Rule>,
    effects: Vec<Effect>,
}

impl Default for StoryBeatBuilder {
    fn default() -> (r: Self)
        ensures
            r.beat() == (StoryBeatView {
                name: Seq::empty(),
                rules: Seq::empty(),
                effects: Seq::empty(),
                finished: false,
            }),
    {
        let r = StoryBeatBuilder { name: String::new(), rules: Vec::new(), effects: Vec::new() };
        assert(rule_views(r.rules@) =~= Seq::empty());
        assert(effect_views(r.effects@) =~= Seq::empty());
        r
    }
}

impl StoryBeatBuilder {
    /// The beat that [`StoryBeatBuilder::build`] will return.
    pub closed spec fn beat(self) -> StoryBeatView {
        StoryBeatView {
            name: self.name@,
            rules: rule_views(self.rules@),
            effects: effect_views(self.effects@),
            finished: false,
        }
    }

    pub fn new(name: &str) -> (r: Self)
        ensures
            r.beat() == (StoryBeatView {
                name: name@,
                rules: Seq::empty(),
                effects: Seq::empty(),
                finished: false,
            }),
    {
        let r = StoryBeatBuilder {
            name: String::from_str(name),
            rules: Vec::new(),
            effects: Vec::new(),
        };
        assert(rule_views(r.rules@) =~= Seq::empty());
        assert(effect_views(r.effects@) =~= Seq::empty());
        r
    }

    /// Replaces the rules collected so far.
    pub fn rules(self, rules: Vec<Rule>) -> (r: Self)
        ensures
            r.beat() == (StoryBeatView { rules: rule_views(rules@), ..self.beat() }),
    {
        StoryBeatBuilder { name: self.name, rules, effects: self.effects }
    }

    pub fn add_rule(self, rule: Rule) -> (r: Self)
        ensures
            r.beat() == (StoryBeatView { rules: self.beat().rules.push(rule@), ..self.beat() }),
    {
        let mut rules = self.rules;
        rules.push(rule);
        assert(rule_views(rules@) =~= rule_views(self.rules@).push(rule@));
        StoryBeatBuilder { name: self.name, rules, effects: self.effects }
    }

    pub fn add_effect(self, effect: Effect) -> (r: Self)
        ensures
            r.beat() == (StoryBeatView {
                effects: self.beat().effects.push(effect@),
                ..self.beat()
            }),
    {
        let mut effects = self.effects;
        effects.push(effect);
        assert(effect_views(effects@) =~= effect_views(self.effects@).push(effect@));
        StoryBeatBuilder { name: self.name, rules: self.rules, effects }
    }

    /// Adds the effects that `build_fn` collects in an empty builder.
    pub fn with_effects<F>(self, build_fn: F) -> (r: Self) where
        F: FnOnce(EffectBuilder) -> EffectBuilder,

        requires
            forall|empty: EffectBuilder|
                empty.effects() == Seq::<EffectView>::empty() ==> call_requires(build_fn, (empty,)),
        ensures
            exists|empty: EffectBuilder, filled: EffectBuilder|
                empty.effects() == Seq::<EffectView>::empty() && call_ensures(
                    build_fn,
                    (empty,),
                    filled,
                ) && r.beat() == (StoryBeatView {
                    effects: self.beat().effects + filled.effects(),
                    ..self.beat()
                }),
    {
        let empty = EffectBuilder::new();
        let filled = build_fn(empty);
        let mut added = filled.build();
        let mut effects = self.effects;
        let ghost first = effect_views(effects@);
        let ghost second = effect_views(added@);
        effects.append(&mut added);
        assert(effect_views(effects@) =~= first + second);
        StoryBeatBuilder { name: self.name, rules: self.rules, effects }
    }

    pub fn build(self) -> (r: StoryBeat)
        ensures
            r@ == self.beat(),
    {
        StoryBeat { name: self.name, rules: self.rules, effects: self.effects, finished: false }
    }
}

/// Builds a story from a name and beats.
#[derive(Debug)]
pub struct StoryBuilder {
    name: String,
    beats: Vec<StoryBeat>,
}

impl Default for StoryBuilder {
    fn default() -> (r: Self)
        ensures
            r.story() == (StoryView {
                name: Seq::empty(),
                beats: Seq::empty(),
                active_beat_index: 0,
            }),
    {
        let r = StoryBuilder { name: String::new(), beats: Vec::new() };
        assert(beat_views(r.beats@) =~= Seq::empty());
        r
    }
}

impl StoryBuilder {
    /// The story that [`StoryBuilder::build`] will return.
    pub closed spec fn story(self) -> StoryView {
        StoryView { name: self.name@, beats: beat_views(self.beats@), active_beat_index: 0 }
    }

    pub fn new(name: &str) -> (r: Self)
        ensures
            r.story() == (StoryView { name: name@, beats: Seq::empty(), active_beat_index: 0 }),
    {
        let r = StoryBuilder { name: String::from_str(name), beats: Vec::new() };
        assert(beat_views(r.beats@) =~= Seq::empty());
        r
    }

    /// Replaces the beats collected so far.
    pub fn beats(self, beats: Vec<StoryBeat>) -> (r: Self)
        ensures
            r.story() == (StoryView { beats: beat_views(beats@), ..self.story() }),
    {
        StoryBuilder { name: self.name, beats }
    }

    /// Adds the beat that `build_fn` makes of a builder that holds only the
    /// beat's name.
    pub fn add_story_beat<F>(self, name: &str, build_fn: F) -> (r: Self) where
        F: FnOnce(StoryBeatBuilder) -> StoryBeatBuilder,

        requires
            forall|named: StoryBeatBuilder|
                named.beat() == (StoryBeatView {
                    name: name@,
                    rules: Seq::empty(),
                    effects: Seq::empty(),
                    finished: false,
                }) ==> call_requires(build_fn, (named,)),
        ensures
            exists|named: StoryBeatBuilder, filled: StoryBeatBuilder|
                named.beat() == (StoryBeatView {
                    name: name@,
                    rules: Seq::empty(),
                    effects: Seq::empty(),
                    finished: false,
                }) && call_ensures(build_fn, (named,), filled) && r.story() == (StoryView {
                    beats: self.story().beats.push(filled.beat()),
                    ..self.story()
                }),
    {
        let named = StoryBeatBuilder::new(name);
        let filled = build_fn(named);
        let beat = filled.build();
        let mut beats = self.beats;
        beats.push(beat);
        assert(beat_views(beats@) =~= beat_views(self.beats@).push(beat@));
        StoryBuilder { name: self.name, beats }
    }

    pub fn build(self) -> (r: Story)
        ensures
            r@ == self.story(),
    {
        Story { name: self.name, beats: self.beats, active_beat_index: 0 }
    }
}

/// Builds a story engine from a list of stories.
pub struct StoryEngineBuilder {
    stories: Vec<Story>,
}

impl StoryEngineBuilder {
    /// The stories that [`StoryEngineBuilder::build`] will hand to the engine.
    pub closed spec fn collected(self) -> Seq<StoryView> {
        story_views(self.stories@)
    }

    pub fn new() -> (r: Self)
        ensures
            r.collected() == Seq::<StoryView>::empty(),
    {
        StoryEngineBuilder { stories: Vec::new() }
    }

    /// Replaces the stories collected so far.
    pub fn stories(self, stories: Vec<Story>) -> (r: Self)
        ensures
            r.collected() == story_views(stories@),
    {
        StoryEngineBuilder { stories }
    }

    pub fn build(self) -> (r: StoryEngine)
        ensures
            r@ == self.collected(),
    {
        StoryEngine { stories: self.stories }
    }
}

} // verus!
