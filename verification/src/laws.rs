//! What holds of the store, the rule engine and the stories whatever they are
//! given.

use crate::condition::RuleView;
use crate::fact::FactValue;
use crate::fact::FactView;
use crate::pass::apply_beats;
use crate::rule_engine::RuleEngineView;
use crate::store::StoreError;
use crate::store::StoreView;
use crate::parsing::line_of;
use crate::parsing::read_from;
use crate::parsing::beat_of;
use crate::parsing::rule_of;
use crate::parsing::story_of;
use crate::parsing::DraftView;
use crate::parsing::LineView;
use crate::parsing::Scope;
use crate::parsing::Stage;
use crate::story::reported_beats;
use crate::story::StoryBeatView;
use crate::story::StoryView;
use vstd::prelude::*;

verus! {

/// Storing the same value under the same name twice in a row records it once:
/// the second write changes nothing, neither the facts nor the record of what
/// changed. If the changes are drained in between, the second write leaves
/// that record empty.
pub proof fn law_second_store_changes_nothing(
    store: StoreView,
    name: Seq<char>,
    value: FactValue,
    once: StoreView,
)
    requires
        store.store(name, value) == Ok::<StoreView, StoreError>(once),
    ensures
        once.store(name, value) == Ok::<StoreView, StoreError>(once),
        once.drained().store(name, value) == Ok::<StoreView, StoreError>(once.drained()),
        once.drained().updated == Set::<FactView>::empty(),
{
}

/// Adding the same item to the same string set twice in a row records it
/// once: the second call changes nothing.
pub proof fn law_second_add_changes_nothing(store: StoreView, name: Seq<char>, item: Seq<char>)
    ensures
        store.add_to_list(name, item).add_to_list(name, item) == store.add_to_list(name, item),
        store.remove_from_list(name, item).remove_from_list(name, item) == store.remove_from_list(
            name,
            item,
        ),
{
}

/// Once a name holds a value of one type, a value of another type is refused
/// under that name.
pub proof fn law_type_is_kept(
    store: StoreView,
    name: Seq<char>,
    first: FactValue,
    second: FactValue,
    stored: StoreView,
)
    requires
        store.store(name, first) == Ok::<StoreView, StoreError>(stored),
        !first.same_kind(second),
    ensures
        stored.store(name, second) == Err::<StoreView, StoreError>(StoreError::TypeMismatch),
{
}

/// No write changes the type of a value: after a write that was accepted,
/// and after adding to or removing from a string set, every name that held a
/// value holds one of the same type.
pub proof fn law_writes_keep_types(
    store: StoreView,
    name: Seq<char>,
    value: FactValue,
    item: Seq<char>,
    other: Seq<char>,
)
    requires
        store.facts.contains_key(other),
    ensures
        store.store(name, value) is Ok ==> {
            let after = store.store(name, value)->Ok_0;
            after.facts.contains_key(other) && after.facts[other].value.same_kind(
                store.facts[other].value,
            )
        },
        store.add_to_list(name, item).facts.contains_key(other),
        store.add_to_list(name, item).facts[other].value.same_kind(store.facts[other].value),
        store.remove_from_list(name, item).facts.contains_key(other),
        store.remove_from_list(name, item).facts[other].value.same_kind(
            store.facts[other].value,
        ),
{
}

/// A pass reports a rule exactly when the facts satisfy it otherwise than it
/// was last seen, and records how it saw it. So the pass after reports
/// exactly the rules that its facts satisfy otherwise than the facts of the
/// pass before did.
pub proof fn law_flips_are_changes(
    engine: RuleEngineView,
    first: Map<Seq<char>, FactView>,
    second: Map<Seq<char>, FactView>,
    name: Seq<char>,
)
    requires
        engine.rules.contains_key(name),
    ensures
        engine.flipped(first).contains(name) <==> engine.rules[name].holds_in(first)
            != engine.state_of(name),
        engine.evaluated(first).state_of(name) == engine.rules[name].holds_in(first),
        engine.evaluated(first).flipped(second).contains(name) <==> engine.rules[name].holds_in(
            second,
        ) != engine.rules[name].holds_in(first),
{
}

/// A rule that was last seen as not satisfied and that the facts satisfy is
/// reported by the pass over those facts. While the facts of later passes
/// satisfy it, no later pass reports it; the first pass whose facts do not
/// satisfy it reports it again.
pub proof fn law_flip_reported_once(
    engine: RuleEngineView,
    facts: Map<Seq<char>, FactView>,
    later: Map<Seq<char>, FactView>,
    name: Seq<char>,
)
    requires
        engine.rules.contains_key(name),
        !engine.state_of(name),
        engine.rules[name].holds_in(facts),
    ensures
        engine.flipped(facts).contains(name),
        engine.rules[name].holds_in(later) ==> !engine.evaluated(facts).flipped(later).contains(
            name,
        ),
        !engine.rules[name].holds_in(later) ==> engine.evaluated(facts).flipped(later).contains(
            name,
        ),
        !engine.evaluated(facts).flipped(facts).contains(name),
{
}

/// A pass reports nothing but rules, and the only rule that a pass reports,
/// where exactly one rule is satisfied otherwise than it was last seen, is
/// that rule.
pub proof fn law_only_the_flipped_rule(
    engine: RuleEngineView,
    facts: Map<Seq<char>, FactView>,
    name: Seq<char>,
)
    requires
        engine.flips(name, facts),
        forall|other: Seq<char>| other != name ==> !engine.flips(other, facts),
    ensures
        engine.flipped(facts) == Set::<Seq<char>>::empty().insert(name),
{
}

/// Adding a rule and evaluating keep the engine in order: every rule under
/// its own name, with a recorded state.
pub proof fn law_engine_stays_in_order(
    engine: RuleEngineView,
    rule: RuleView,
    facts: Map<Seq<char>, FactView>,
)
    requires
        engine.wf(),
    ensures
        engine.with_rule(rule).wf(),
        engine.evaluated(facts).wf(),
        !engine.with_rule(rule).state_of(rule.name),
{
    assert(engine.evaluated(facts).rules.dom() =~= engine.evaluated(facts).states.dom());
}

/// The story after its active beat was evaluated against each of the
/// snapshots in turn.
pub open spec fn story_after(story: StoryView, snapshots: Seq<Map<Seq<char>, FactView>>) -> StoryView
    decreases snapshots.len(),
{
    if snapshots.len() == 0 {
        story
    } else {
        story_after(story, snapshots.drop_last()).evaluated(snapshots.last())
    }
}

/// Evaluating never moves a story back, never moves it by more than one beat
/// at a time, never past its end, and never changes which beats it has.
pub proof fn law_story_only_advances(story: StoryView, snapshots: Seq<Map<Seq<char>, FactView>>)
    ensures
        story.active_beat_index <= story_after(story, snapshots).active_beat_index,
        story_after(story, snapshots).active_beat_index <= story.active_beat_index
            + snapshots.len(),
        story_after(story, snapshots).beats.len() == story.beats.len(),
        story.active_beat_index <= story.beats.len() ==> story_after(
            story,
            snapshots,
        ).active_beat_index <= story.beats.len(),
    decreases snapshots.len(),
{
    if snapshots.len() > 0 {
        law_story_only_advances(story, snapshots.drop_last());
    }
}

/// A finished story stays finished, and stays as it is, whatever it is
/// evaluated against.
pub proof fn law_finished_stays_finished(
    story: StoryView,
    snapshots: Seq<Map<Seq<char>, FactView>>,
)
    requires
        story.is_finished(),
    ensures
        story_after(story, snapshots) == story,
    decreases snapshots.len(),
{
    if snapshots.len() > 0 {
        law_finished_stays_finished(story, snapshots.drop_last());
    }
}

/// A beat is reported when it is finished and never again: of two
/// evaluations in a row of snapshots that both report a beat, the later one
/// reports a later beat of the story.
pub proof fn law_beat_reported_once(
    story: StoryView,
    snapshots: Seq<Map<Seq<char>, FactView>>,
    earlier: int,
    later: int,
)
    requires
        0 <= earlier < later < snapshots.len(),
        story_after(story, snapshots.take(earlier)).reported(snapshots[earlier]) is Some,
        story_after(story, snapshots.take(later)).reported(snapshots[later]) is Some,
    ensures
        story_after(story, snapshots.take(earlier)).active_beat_index < story_after(
            story,
            snapshots.take(later),
        ).active_beat_index,
{
    let before = story_after(story, snapshots.take(earlier));
    let moved = story_after(story, snapshots.take(earlier + 1));
    assert(snapshots.take(earlier + 1).drop_last() =~= snapshots.take(earlier));
    lemma_story_after_split(story, snapshots.take(later), earlier + 1);
    assert(snapshots.take(later).take(earlier + 1) =~= snapshots.take(earlier + 1));
    law_story_only_advances(moved, snapshots.take(later).skip(earlier + 1));
}

/// Evaluating against a row of snapshots is evaluating against its first
/// part and then against the rest.
proof fn lemma_story_after_split(
    story: StoryView,
    snapshots: Seq<Map<Seq<char>, FactView>>,
    at: int,
)
    requires
        0 <= at <= snapshots.len(),
    ensures
        story_after(story, snapshots) == story_after(
            story_after(story, snapshots.take(at)),
            snapshots.skip(at),
        ),
    decreases snapshots.len(),
{
    if at == snapshots.len() {
        assert(snapshots.take(at) =~= snapshots);
    } else {
        let shorter = snapshots.drop_last();
        lemma_story_after_split(story, shorter, at);
        assert(shorter.take(at) =~= snapshots.take(at));
        assert(snapshots.skip(at).drop_last() =~= shorter.skip(at));
    }
}

/// Evaluating stories does not touch the store, and where no beat is
/// finished, applying the effects of the finished beats does not either: a
/// beat's effects reach the store only once the beat is finished.
pub proof fn law_no_effect_before_the_beat_is_finished(
    store: StoreView,
    stories: Seq<StoryView>,
    facts: Map<Seq<char>, FactView>,
)
    requires
        forall|i: int| 0 <= i < stories.len() ==> !(#[trigger] stories[i]).advances(facts),
    ensures
        reported_beats(stories, facts) == Seq::<StoryBeatView>::empty(),
        apply_beats(store, reported_beats(stories, facts)) == store,
    decreases stories.len(),
{
    if stories.len() > 0 {
        law_no_effect_before_the_beat_is_finished(store, stories.drop_last(), facts);
    }
}

/// The finished marks of a story agree with its index: the beats before the
/// active one are finished and the others are not.
pub open spec fn marks_follow_index(story: StoryView) -> bool {
    &&& story.active_beat_index <= story.beats.len()
    &&& forall|i: int|
        0 <= i < story.beats.len() ==> ((#[trigger] story.beats[i]).finished <==> i
            < story.active_beat_index)
}

/// Where the finished marks of a story agree with its index, they still do
/// after any evaluation: a beat that is finished is never marked otherwise
/// again, and the beats behind the active one are not touched.
pub proof fn law_marks_follow_the_index(
    story: StoryView,
    snapshots: Seq<Map<Seq<char>, FactView>>,
)
    requires
        marks_follow_index(story),
    ensures
        marks_follow_index(story_after(story, snapshots)),
        forall|i: int|
            0 <= i < story.beats.len() && story.beats[i].finished ==> (#[trigger] story_after(
                story,
                snapshots,
            ).beats[i]).finished,
    decreases snapshots.len(),
{
    if snapshots.len() > 0 {
        law_marks_follow_the_index(story, snapshots.drop_last());
        law_story_only_advances(story, snapshots.drop_last());
    }
}

/// A rule that has a condition.
pub open spec fn rule_is_complete(rule: RuleView) -> bool {
    rule.conditions.len() > 0
}

/// A beat that is not finished and has a rule and an effect, each rule with a
/// condition.
pub open spec fn beat_is_complete(beat: StoryBeatView) -> bool {
    &&& !beat.finished
    &&& beat.rules.len() > 0
    &&& beat.effects.len() > 0
    &&& forall|j: int| 0 <= j < beat.rules.len() ==> rule_is_complete(#[trigger] beat.rules[j])
}

/// A story that stands at its first beat and has a beat, each beat complete.
pub open spec fn story_is_complete(story: StoryView) -> bool {
    &&& story.active_beat_index == 0
    &&& story.beats.len() > 0
    &&& forall|i: int| 0 <= i < story.beats.len() ==> beat_is_complete(#[trigger] story.beats[i])
}

/// What holds of a draft after each kind of line: the beats before the last
/// are complete, and the last one is as far as the line says.
pub open spec fn draft_is_sound(draft: DraftView) -> bool {
    let last = draft.beats.last();
    let earlier_complete = forall|i: int|
        0 <= i < draft.beats.len() - 1 ==> beat_is_complete(#[trigger] draft.beats[i]);
    match draft.stage {
        Stage::Start => draft.beats.len() == 0,
        Stage::Story => draft.beats.len() == 0,
        Stage::Beat => {
            &&& draft.beats.len() > 0
            &&& earlier_complete
            &&& !last.finished
            &&& last.rules.len() == 0
            &&& last.effects.len() == 0
        },
        Stage::Rule => {
            &&& draft.beats.len() > 0
            &&& earlier_complete
            &&& !last.finished
            &&& last.rules.len() > 0
            &&& last.effects.len() == 0
            &&& last.rules.last().conditions.len() == 0
            &&& forall|j: int|
                0 <= j < last.rules.len() - 1 ==> rule_is_complete(#[trigger] last.rules[j])
        },
        Stage::Condition => {
            &&& draft.beats.len() > 0
            &&& earlier_complete
            &&& !last.finished
            &&& last.rules.len() > 0
            &&& last.effects.len() == 0
            &&& forall|j: int| 0 <= j < last.rules.len() ==> rule_is_complete(#[trigger] last.rules[j])
        },
        Stage::Effect => {
            &&& draft.beats.len() > 0
            &&& earlier_complete
            &&& beat_is_complete(last)
        },
    }
}

proof fn lemma_accept_keeps_sound(draft: DraftView, line: LineView)
    requires
        draft_is_sound(draft),
        draft.accept(line) is Some,
    ensures
        draft_is_sound(draft.accept(line)->Some_0),
{
}

proof fn lemma_reading_keeps_sound(
    draft: DraftView,
    s: Seq<char>,
    start: int,
    at: int,
    number: nat,
    scope: Scope,
)
    requires
        draft_is_sound(draft),
        read_from(draft, s, start, at, number, scope) is Ok,
    ensures
        draft_is_sound(read_from(draft, s, start, at, number, scope)->Ok_0),
    decreases s.len() - at,
{
    if 0 <= at < s.len() && s[at] != '\n' {
        lemma_reading_keeps_sound(draft, s, start, at + 1, number, scope);
    } else {
        let line = line_of(s.subrange(start, at));
        lemma_accept_keeps_sound(draft, line);
        if 0 <= at < s.len() {
            lemma_reading_keeps_sound(
                draft.accept(line)->Some_0,
                s,
                at + 1,
                at + 1,
                number + 1,
                scope,
            );
        }
    }
}

/// Every story that a text stands for is complete: it stands at its first
/// beat and has one or more beats; each beat is not finished and has one or
/// more rules and one or more effects; each rule has one or more conditions.
pub proof fn law_read_stories_are_complete(s: Seq<char>)
    requires
        story_of(s) is Ok,
    ensures
        story_is_complete(story_of(s)->Ok_0),
{
    lemma_reading_keeps_sound(DraftView::start(Scope::Story), s, 0, 0, 0, Scope::Story);
}

/// Every beat that a text stands for is complete, and so is every rule.
pub proof fn law_read_beats_and_rules_are_complete(s: Seq<char>)
    ensures
        beat_of(s) is Ok ==> beat_is_complete(beat_of(s)->Ok_0),
        rule_of(s) is Ok ==> rule_is_complete(rule_of(s)->Ok_0),
{
    if beat_of(s) is Ok {
        lemma_reading_keeps_sound(DraftView::start(Scope::Beat), s, 0, 0, 0, Scope::Beat);
    }
    if rule_of(s) is Ok {
        lemma_reading_keeps_sound(DraftView::start(Scope::Rule), s, 0, 0, 0, Scope::Rule);
    }
}

} // verus!
