//! One pass of the engine: collect what changed, evaluate the rules and the
//! stories against the facts, then apply the effects of the beats that were
//! finished.
//!
//! The rules and the stories see the facts as they are when the pass begins.
//! What the effects write is recorded as changed and is seen by the next pass.

use crate::effect::apply_all;
use crate::effect::apply_effects;
use crate::fact::fact_views;
use crate::fact::Fact;
use crate::rule_engine::RuleEngine;
use crate::store::CoolFactStore;
use crate::store::StoreError;
use crate::store::StoreView;
use crate::story::beat_views;
use crate::story::reported_beats;
use crate::story::stories_evaluated;
use crate::story::StoryBeat;
use crate::story::StoryBeatView;
use crate::story::StoryEngine;
use crate::string_set::StringHashSet;
use vstd::prelude::*;

verus! {

/// What one pass found and did.
#[derive(Debug)]
pub struct PassReport {
    /// The facts that had changed since the pass before, in no particular
    /// order.
    pub updated_facts: Vec<Fact>,
    /// The names of the rules that changed state.
    pub updated_rules: StringHashSet,
    /// The beats that were finished, in the order of their stories.
    pub finished_beats: Vec<StoryBeat>,
    /// For each finished beat, whether all of its effects were written.
    pub outcomes: Vec<Result<(), StoreError>>,
}

/// The store after the effects of the beats were applied, beat by beat. An
/// effect that is refused ends the effects of its beat, not those of the
/// beats after it.
pub open spec fn apply_beats(store: StoreView, beats: Seq<StoryBeatView>) -> StoreView
    decreases beats.len(),
{
    if beats.len() == 0 {
        store
    } else {
        apply_all(apply_beats(store, beats.drop_last()), beats.last().effects).0
    }
}

/// For each beat, whether all of its effects were written when the effects of
/// the beats were applied to the store, beat by beat.
pub open spec fn beat_outcomes(store: StoreView, beats: Seq<StoryBeatView>) -> Seq<
    Result<(), StoreError>,
>
    decreases beats.len(),
{
    if beats.len() == 0 {
        Seq::empty()
    } else {
        beat_outcomes(store, beats.drop_last()).push(
            apply_all(apply_beats(store, beats.drop_last()), beats.last().effects).1,
        )
    }
}

/// Applies the effects of each beat in turn.
pub fn apply_beat_effects(beats: &Vec<StoryBeat>, store: &mut CoolFactStore) -> (r: Vec<
    Result<(), StoreError>,
>)
    ensures
        final(store)@ == apply_beats(old(store)@, beat_views(beats@)),
        r@ == beat_outcomes(old(store)@, beat_views(beats@)),
        old(store)@.wf() ==> final(store)@.wf(),
{
    let ghost all = beat_views(beats@);
    let mut outcomes: Vec<Result<(), StoreError>> = Vec::new();
    let mut i: usize = 0;
    while i < beats.len()
        invariant
            i <= beats.len(),
            all == beat_views(beats@),
            store@ == apply_beats(old(store)@, all.take(i as int)),
            outcomes@ == beat_outcomes(old(store)@, all.take(i as int)),
            old(store)@.wf() ==> store@.wf(),
        decreases beats.len() - i,
    {
        proof {
            assert(all.take(i as int + 1).drop_last() =~= all.take(i as int));
        }
        let outcome = apply_effects(&beats[i].effects, store);
        outcomes.push(outcome);
        i += 1;
    }
    proof {
        assert(all.take(beats.len() as int) =~= all);
    }
    outcomes
}

/// Runs one pass.
///
/// The facts that changed are collected and forgotten. If there are none,
/// nothing else happens. Otherwise every rule and the active beat of every
/// story are evaluated against the facts as they are, and then the effects of
/// the beats that were finished are applied, beat by beat.
pub fn run_pass(store: &mut CoolFactStore, rules: &mut RuleEngine, stories: &mut StoryEngine) -> (r:
    PassReport)
    ensures
        fact_views(r.updated_facts@).no_duplicates(),
        fact_views(r.updated_facts@).to_set() == old(store)@.updated,
        r.updated_facts@.len() == 0 ==> {
            &&& final(store)@ == old(store)@
            &&& final(rules)@ == old(rules)@
            &&& final(stories)@ == old(stories)@
            &&& r.updated_rules@ == Set::<Seq<char>>::empty()
            &&& r.finished_beats@.len() == 0
            &&& r.outcomes@.len() == 0
        },
        r.updated_facts@.len() > 0 ==> {
            &&& final(rules)@ == old(rules)@.evaluated(old(store)@.facts)
            &&& r.updated_rules@ == old(rules)@.flipped(old(store)@.facts)
            &&& final(stories)@ == stories_evaluated(old(stories)@, old(store)@.facts)
            &&& beat_views(r.finished_beats@) == reported_beats(
                old(stories)@,
                old(store)@.facts,
            )
            &&& final(store)@ == apply_beats(old(store)@.drained(), beat_views(r.finished_beats@))
            &&& r.outcomes@ == beat_outcomes(
                old(store)@.drained(),
                beat_views(r.finished_beats@),
            )
        },
        old(store)@.wf() ==> final(store)@.wf(),
        old(rules)@.wf() ==> final(rules)@.wf(),
{
    let updated_facts = store.drain_updated();
    if updated_facts.len() == 0 {
        proof {
            assert(old(store)@.updated =~= Set::empty());
        }
        return PassReport {
            updated_facts,
            updated_rules: StringHashSet::new(),
            finished_beats: Vec::new(),
            outcomes: Vec::new(),
        };
    }
    let updated_rules = rules.evaluate_rules(&store.facts);
    let finished_beats = stories.evaluate_stories(&store.facts);
    let outcomes = apply_beat_effects(&finished_beats, store);
    PassReport { updated_facts, updated_rules, finished_beats, outcomes }
}

} // verus!
