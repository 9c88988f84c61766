use barnacle_beats::condition::Condition;
use barnacle_beats::condition::ConditionBuilder;
use barnacle_beats::condition::Rule;
use barnacle_beats::condition::RuleBuilder;
use barnacle_beats::effect::apply_effects;
use barnacle_beats::effect::Effect;
use barnacle_beats::effect::EffectBuilder;
use barnacle_beats::fact::Fact;
use barnacle_beats::pass::apply_beat_effects;
use barnacle_beats::pass::run_pass;
use barnacle_beats::rule_engine::RuleEngine;
use barnacle_beats::store::CoolFactStore;
use barnacle_beats::store::StoreError;
use barnacle_beats::story::Story;
use barnacle_beats::story::StoryBeat;
use barnacle_beats::story::StoryBeatBuilder;
use barnacle_beats::story::StoryBuilder;
use barnacle_beats::story::StoryEngine;
use barnacle_beats::story::StoryEngineBuilder;
use barnacle_beats::string_set::StringHashSet;

fn names(items: &[&str]) -> Vec<String> {
    items.iter().map(|s| s.to_string()).collect()
}

fn more_than(fact: &str, value: i32) -> Condition {
    Condition::IntMoreThan { fact_name: fact.to_string(), expected_value: value }
}

fn less_than(fact: &str, value: i32) -> Condition {
    Condition::IntLessThan { fact_name: fact.to_string(), expected_value: value }
}

fn rule(name: &str, conditions: Vec<Condition>) -> Rule {
    Rule::new(name.to_string(), conditions)
}

fn store_with_score(score: i32) -> CoolFactStore {
    let mut store = CoolFactStore::new();
    store.store_int("score".to_string(), score).unwrap();
    store
}

#[test]
fn comparisons_are_strict() {
    let store = store_with_score(3);
    assert!(!more_than("score", 3).evaluate(&store.facts));
    assert!(more_than("score", 2).evaluate(&store.facts));
    assert!(!less_than("score", 3).evaluate(&store.facts));
    assert!(less_than("score", 4).evaluate(&store.facts));
    let low = store_with_score(i32::MIN);
    assert!(less_than("score", i32::MAX).evaluate(&low.facts));
    assert!(!more_than("score", i32::MIN).evaluate(&low.facts));
}

#[test]
fn a_missing_or_mistyped_fact_fails_a_condition() {
    let mut store = store_with_score(3);
    store.store_string("player".to_string(), "Alice".to_string()).unwrap();
    assert!(!more_than("level", 0).evaluate(&store.facts));
    assert!(!more_than("player", 0).evaluate(&store.facts));
    let wrong = Condition::StringEquals {
        fact_name: "score".to_string(),
        expected_value: "3".to_string(),
    };
    assert!(!wrong.evaluate(&store.facts));
    let bool_on_int = Condition::BoolEquals {
        fact_name: "score".to_string(),
        expected_value: true,
    };
    assert!(!bool_on_int.evaluate(&store.facts));
    let list_on_int = Condition::ListContains {
        fact_name: "score".to_string(),
        expected_value: "3".to_string(),
    };
    assert!(!list_on_int.evaluate(&store.facts));
    let other_case = Condition::StringEquals {
        fact_name: "player".to_string(),
        expected_value: "alice".to_string(),
    };
    assert!(!other_case.evaluate(&store.facts));
}

#[test]
fn a_rule_is_the_conjunction_of_its_conditions() {
    let store = store_with_score(5);
    assert!(rule("empty", vec![]).evaluate(&store.facts));
    assert!(rule("both", vec![more_than("score", 3), less_than("score", 7)]).evaluate(&store.facts));
    assert!(!rule("one", vec![more_than("score", 3), less_than("score", 5)]).evaluate(&store.facts));
    assert!(!rule("none", vec![more_than("score", 9), less_than("score", 1)]).evaluate(&store.facts));
}

#[test]
fn a_flip_is_reported_once_each_way() {
    let mut store = store_with_score(0);
    let mut engine = RuleEngine::new();
    engine.add_rule(rule("high", vec![more_than("score", 3)]));
    engine.add_rule(rule("low", vec![less_than("score", 3)]));
    assert_eq!(engine.evaluate_rules(&store.facts).sorted_items(), names(&["low"]));
    assert_eq!(engine.evaluate_rules(&store.facts).sorted_items(), names(&[]));
    store.store_int("score".to_string(), 4).unwrap();
    assert_eq!(engine.evaluate_rules(&store.facts).sorted_items(), names(&["high", "low"]));
    assert_eq!(engine.evaluate_rules(&store.facts).sorted_items(), names(&[]));
    store.store_int("score".to_string(), 3).unwrap();
    assert_eq!(engine.evaluate_rules(&store.facts).sorted_items(), names(&["high"]));
    store.store_int("score".to_string(), 10).unwrap();
    assert_eq!(engine.evaluate_rules(&store.facts).sorted_items(), names(&["high"]));
    store.store_int("score".to_string(), 11).unwrap();
    assert_eq!(engine.evaluate_rules(&store.facts).sorted_items(), names(&[]));
}

#[test]
fn an_engine_without_rules_reports_nothing() {
    let store = store_with_score(0);
    let mut engine = RuleEngine::new();
    assert_eq!(engine.evaluate_rules(&store.facts), StringHashSet::from_items(vec![]));
}

#[test]
fn adding_a_rule_again_starts_it_over() {
    let store = store_with_score(5);
    let mut engine = RuleEngine::new();
    engine.add_rule(rule("high", vec![more_than("score", 3)]));
    assert_eq!(engine.evaluate_rules(&store.facts).sorted_items(), names(&["high"]));
    engine.add_rule(rule("high", vec![more_than("score", 3)]));
    assert_eq!(engine.evaluate_rules(&store.facts).sorted_items(), names(&["high"]));
    engine.add_rule(rule("high", vec![more_than("score", 9)]));
    assert_eq!(engine.evaluate_rules(&store.facts).sorted_items(), names(&[]));
}

#[test]
fn an_empty_rule_flips_on_the_first_pass() {
    let store = CoolFactStore::new();
    let mut engine = RuleEngine::new();
    engine.add_rule(rule("always", vec![]));
    assert_eq!(engine.evaluate_rules(&store.facts).sorted_items(), names(&["always"]));
    assert_eq!(engine.evaluate_rules(&store.facts).sorted_items(), names(&[]));
}

#[test]
fn a_beat_without_rules_is_finished() {
    let store = CoolFactStore::new();
    let mut beat = StoryBeat::new("free".to_string(), vec![]);
    assert!(!beat.finished);
    assert_eq!(beat.effects, vec![]);
    beat.evaluate(&store.facts);
    assert!(beat.finished);
}

#[test]
fn a_beat_needs_all_its_rules() {
    let store = store_with_score(5);
    let mut beat = StoryBeat::new(
        "b".to_string(),
        vec![rule("a", vec![more_than("score", 3)]), rule("b", vec![more_than("score", 7)])],
    );
    beat.evaluate(&store.facts);
    assert!(!beat.finished);
    let mut other = StoryBeat::new(
        "b".to_string(),
        vec![rule("a", vec![more_than("score", 3)]), rule("b", vec![less_than("score", 7)])],
    );
    other.evaluate(&store.facts);
    assert!(other.finished);
    other.evaluate(&store_with_score(9).facts);
    assert!(!other.finished);
}

fn counted_story() -> Story {
    Story::new(
        "count".to_string(),
        vec![
            StoryBeat::new("one".to_string(), vec![rule("r", vec![more_than("score", 0)])]),
            StoryBeat::new("two".to_string(), vec![rule("r", vec![more_than("score", 1)])]),
            StoryBeat::new("three".to_string(), vec![rule("r", vec![more_than("score", 2)])]),
        ],
    )
}

#[test]
fn a_story_moves_one_beat_at_a_time_and_never_back() {
    let mut story = counted_story();
    let mut seen = vec![];
    for score in [0, 5, 0, 0, 2, 1, 9, 9, 0, 9] {
        let before = story.active_beat_index;
        let report = story.evaluate_active_beat(&store_with_score(score).facts);
        assert!(story.active_beat_index >= before);
        assert!(story.active_beat_index <= before + 1);
        assert_eq!(report.is_some(), story.active_beat_index == before + 1);
        if let Some(beat) = report {
            seen.push(beat.name);
        }
    }
    assert_eq!(seen, names(&["one", "two", "three"]));
    assert_eq!(story.active_beat_index, 3);
    assert!(story.is_finished());
}

#[test]
fn a_story_without_beats_is_finished() {
    let mut story = Story::new("empty".to_string(), vec![]);
    assert!(story.is_finished());
    assert_eq!(story.evaluate_active_beat(&CoolFactStore::new().facts), None);
    assert_eq!(story.active_beat_index, 0);
}

#[test]
fn an_index_past_the_end_is_finished() {
    let mut story = counted_story();
    story.active_beat_index = 7;
    assert!(story.is_finished());
    assert_eq!(story.evaluate_active_beat(&store_with_score(9).facts), None);
    assert_eq!(story.active_beat_index, 7);
}

#[test]
fn stories_advance_independently() {
    let mut engine = StoryEngine::new();
    assert!(engine.all_stories_finished());
    engine.add_story(counted_story());
    engine.add_story(Story::new(
        "other".to_string(),
        vec![StoryBeat::new("only".to_string(), vec![rule("r", vec![more_than("score", 1)])])],
    ));
    engine.add_story(Story::new("empty".to_string(), vec![]));
    assert!(!engine.all_stories_finished());

    let finished = engine.evaluate_stories(&store_with_score(1).facts);
    assert_eq!(finished.iter().map(|b| b.name.clone()).collect::<Vec<String>>(), names(&["one"]));
    assert_eq!(engine.stories[0].active_beat_index, 1);
    assert_eq!(engine.stories[1].active_beat_index, 0);

    let finished = engine.evaluate_stories(&store_with_score(2).facts);
    assert_eq!(
        finished.iter().map(|b| b.name.clone()).collect::<Vec<String>>(),
        names(&["two", "only"])
    );
    assert!(!engine.all_stories_finished());
    let finished = engine.evaluate_stories(&store_with_score(3).facts);
    assert_eq!(finished.iter().map(|b| b.name.clone()).collect::<Vec<String>>(), names(&["three"]));
    assert!(engine.all_stories_finished());
    assert_eq!(engine.evaluate_stories(&store_with_score(3).facts), vec![]);
}

#[test]
fn effects_are_applied_in_order_up_to_a_refusal() {
    let mut store = CoolFactStore::new();
    store.store_int("kept".to_string(), 1).unwrap();
    store.drain_updated();
    let effects = vec![
        Effect::SetFact(Fact::Int("a".to_string(), 1)),
        Effect::SetFact(Fact::Int("a".to_string(), 2)),
        Effect::SetFact(Fact::Bool("kept".to_string(), true)),
        Effect::SetFact(Fact::Int("b".to_string(), 3)),
    ];
    assert_eq!(apply_effects(&effects, &mut store), Err(StoreError::TypeMismatch));
    assert_eq!(store.get_int("a"), Some(&2));
    assert_eq!(store.get_int("kept"), Some(&1));
    assert_eq!(store.get_int("b"), None);
    assert_eq!(store.drain_updated().len(), 2);
    assert_eq!(apply_effects(&vec![], &mut store), Ok(()));
}

#[test]
fn each_kind_of_effect_uses_its_setter() {
    let mut store = CoolFactStore::new();
    let effects = EffectBuilder::new()
        .set_fact_int("i", 1)
        .set_fact_string("s", "text")
        .set_fact_bool("b", true)
        .set_fact_string_list("l", StringHashSet::from_items(names(&["x", "y"])))
        .build();
    assert_eq!(
        effects,
        vec![
            Effect::SetFact(Fact::Int("i".to_string(), 1)),
            Effect::SetFact(Fact::String("s".to_string(), "text".to_string())),
            Effect::SetFact(Fact::Bool("b".to_string(), true)),
            Effect::SetFact(Fact::StringList(
                "l".to_string(),
                StringHashSet::from_items(names(&["y", "x"]))
            )),
        ]
    );
    assert_eq!(effects[0].clone(), effects[0]);
    assert_eq!(apply_effects(&effects, &mut store), Ok(()));
    assert_eq!(store.get_int("i"), Some(&1));
    assert_eq!(store.get_string("s"), Some(&"text".to_string()));
    assert_eq!(store.get_bool("b"), Some(&true));
    assert_eq!(store.get_list("l"), Some(&StringHashSet::from_items(names(&["x", "y"]))));
    assert_eq!(store.drain_updated().len(), 4);
    assert_eq!(apply_effects(&effects, &mut store), Ok(()));
    assert_eq!(store.drain_updated().len(), 0);
    assert_eq!(EffectBuilder::default().build(), vec![]);
}

#[test]
fn a_refusal_in_one_beat_does_not_stop_the_next() {
    let mut store = CoolFactStore::new();
    store.store_int("kept".to_string(), 1).unwrap();
    let mut first = StoryBeat::new("first".to_string(), vec![]);
    first.effects = vec![
        Effect::SetFact(Fact::Bool("kept".to_string(), true)),
        Effect::SetFact(Fact::Int("lost".to_string(), 1)),
    ];
    let mut second = StoryBeat::new("second".to_string(), vec![]);
    second.effects = vec![Effect::SetFact(Fact::Int("found".to_string(), 2))];
    assert_eq!(
        apply_beat_effects(&vec![first, second], &mut store),
        vec![Err(StoreError::TypeMismatch), Ok(())]
    );
    assert_eq!(store.get_int("lost"), None);
    assert_eq!(store.get_int("found"), Some(&2));
}

fn button_story() -> Story {
    StoryBuilder::new("Buttons")
        .add_story_beat("Beat1", |beat| {
            beat.add_rule(rule("r1", vec![more_than("button_pressed", 3)]))
                .with_effects(|effects| effects.set_fact_bool("beat_one", true))
        })
        .add_story_beat("Beat2", |beat| {
            beat.add_rule(rule("r2", vec![more_than("button_pressed", 10)]))
                .add_effect(Effect::SetFact(Fact::Bool("beat_two".to_string(), true)))
        })
        .build()
}

#[test]
fn a_pass_applies_effects_after_evaluating_and_once() {
    let mut store = CoolFactStore::new();
    let mut rules = RuleEngine::new();
    rules.add_rule(rule("pressed", vec![more_than("button_pressed", 3)]));
    rules.add_rule(rule(
        "one",
        vec![Condition::BoolEquals { fact_name: "beat_one".to_string(), expected_value: true }],
    ));
    let mut stories = StoryEngineBuilder::new().stories(vec![button_story()]).build();

    let idle = run_pass(&mut store, &mut rules, &mut stories);
    assert_eq!(idle.updated_facts, vec![]);
    assert_eq!(idle.updated_rules.sorted_items(), names(&[]));
    assert_eq!(idle.finished_beats, vec![]);
    assert_eq!(idle.outcomes, vec![]);

    store.store_int("button_pressed".to_string(), 4).unwrap();
    let first = run_pass(&mut store, &mut rules, &mut stories);
    assert_eq!(first.updated_facts, vec![Fact::Int("button_pressed".to_string(), 4)]);
    assert_eq!(first.updated_rules.sorted_items(), names(&["pressed"]));
    assert_eq!(
        first.finished_beats.iter().map(|b| b.name.clone()).collect::<Vec<String>>(),
        names(&["Beat1"])
    );
    assert_eq!(first.outcomes, vec![Ok(())]);
    assert_eq!(store.get_bool("beat_one"), Some(&true));
    assert_eq!(stories.stories[0].active_beat_index, 1);

    let second = run_pass(&mut store, &mut rules, &mut stories);
    assert_eq!(second.updated_facts, vec![Fact::Bool("beat_one".to_string(), true)]);
    assert_eq!(second.updated_rules.sorted_items(), names(&["one"]));
    assert_eq!(second.finished_beats, vec![]);

    let third = run_pass(&mut store, &mut rules, &mut stories);
    assert_eq!(third.updated_facts, vec![]);
    assert_eq!(third.updated_rules.sorted_items(), names(&[]));

    store.store_int("button_pressed".to_string(), 11).unwrap();
    let last = run_pass(&mut store, &mut rules, &mut stories);
    assert_eq!(
        last.finished_beats.iter().map(|b| b.name.clone()).collect::<Vec<String>>(),
        names(&["Beat2"])
    );
    assert_eq!(store.get_bool("beat_two"), Some(&true));
    assert!(stories.all_stories_finished());
    assert_eq!(store.drain_updated(), vec![Fact::Bool("beat_two".to_string(), true)]);
}

#[test]
fn builders_build_what_they_were_given() {
    let conditions = ConditionBuilder::new()
        .int_equals("a".to_string(), 1)
        .int_more_than("b".to_string(), 2)
        .int_less_than("c".to_string(), 3)
        .string_equals("d".to_string(), "four".to_string())
        .bool_equals("e".to_string(), true)
        .list_contains("f".to_string(), "six".to_string())
        .build();
    assert_eq!(
        conditions,
        vec![
            Condition::IntEquals { fact_name: "a".to_string(), expected_value: 1 },
            Condition::IntMoreThan { fact_name: "b".to_string(), expected_value: 2 },
            Condition::IntLessThan { fact_name: "c".to_string(), expected_value: 3 },
            Condition::StringEquals {
                fact_name: "d".to_string(),
                expected_value: "four".to_string()
            },
            Condition::BoolEquals { fact_name: "e".to_string(), expected_value: true },
            Condition::ListContains {
                fact_name: "f".to_string(),
                expected_value: "six".to_string()
            },
        ]
    );
    let built = RuleBuilder::new("r".to_string())
        .conditions(vec![more_than("x", 1)])
        .build();
    assert_eq!(built, rule("r", vec![more_than("x", 1)]));
    assert_eq!(built.clone(), built);
    assert_eq!(RuleBuilder::new("r".to_string()).build(), rule("r", vec![]));

    let beat = StoryBeatBuilder::new("b")
        .add_rule(rule("dropped", vec![]))
        .rules(vec![built.clone()])
        .add_rule(rule("second", vec![]))
        .add_effect(Effect::SetFact(Fact::Int("x".to_string(), 1)))
        .with_effects(|effects| effects.set_fact_int("y", 2).set_fact_int("z", 3))
        .build();
    assert_eq!(
        beat,
        StoryBeat {
            name: "b".to_string(),
            rules: vec![built.clone(), rule("second", vec![])],
            effects: vec![
                Effect::SetFact(Fact::Int("x".to_string(), 1)),
                Effect::SetFact(Fact::Int("y".to_string(), 2)),
                Effect::SetFact(Fact::Int("z".to_string(), 3)),
            ],
            finished: false,
        }
    );
    assert_eq!(StoryBeatBuilder::default().build(), StoryBeat::new(String::new(), vec![]));

    let story = StoryBuilder::new("s").beats(vec![beat.clone()]).build();
    assert_eq!(story, Story::new("s".to_string(), vec![beat.clone()]));
    assert_eq!(story.clone(), story);
    assert_eq!(StoryBuilder::default().build(), Story::new(String::new(), vec![]));

    let engine = StoryEngineBuilder::new().stories(vec![story.clone()]).build();
    assert_eq!(engine.stories, vec![story]);
    assert_eq!(StoryEngineBuilder::new().build().stories, vec![]);
}
