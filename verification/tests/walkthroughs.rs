use barnacle_beats::condition::Condition;
use barnacle_beats::condition::Rule;
use barnacle_beats::effect::apply_effects;
use barnacle_beats::effect::Effect;
use barnacle_beats::fact::Fact;
use barnacle_beats::parsing::parse_story;
use barnacle_beats::rule_engine::RuleEngine;
use barnacle_beats::store::CoolFactStore;
use barnacle_beats::story::Story;
use barnacle_beats::story::StoryBeat;
use barnacle_beats::string_set::StringHashSet;

fn names(items: &[&str]) -> Vec<String> {
    items.iter().map(|s| s.to_string()).collect()
}

fn more_than(fact: &str, value: i32) -> Condition {
    Condition::IntMoreThan { fact_name: fact.to_string(), expected_value: value }
}

#[test]
fn a_rule_flips_when_the_score_passes_three() {
    let mut store = CoolFactStore::new();
    store.store_int("score".to_string(), 0).unwrap();
    let mut engine = RuleEngine::new();
    engine.add_rule(Rule::new("R1".to_string(), vec![more_than("score", 3)]));

    store.store_int("score".to_string(), 4).unwrap();
    let first = engine.evaluate_rules(&store.facts);
    assert_eq!(first.sorted_items(), names(&["R1"]));

    let second = engine.evaluate_rules(&store.facts);
    assert_eq!(second.sorted_items(), names(&[]));
}

#[test]
fn two_beats_follow_the_button() {
    let beat1 = StoryBeat {
        name: "Beat1".to_string(),
        rules: vec![Rule::new("r1".to_string(), vec![more_than("button_pressed", 3)])],
        effects: vec![Effect::SetFact(Fact::Bool("beat_one".to_string(), true))],
        finished: false,
    };
    let beat2 = StoryBeat {
        name: "Beat2".to_string(),
        rules: vec![Rule::new("r2".to_string(), vec![more_than("button_pressed", 10)])],
        effects: vec![],
        finished: false,
    };
    let mut story = Story::new("Buttons".to_string(), vec![beat1, beat2]);
    let mut store = CoolFactStore::new();
    store.store_int("button_pressed".to_string(), 0).unwrap();
    assert_eq!(story.evaluate_active_beat(&store.facts), None);
    assert_eq!(story.active_beat_index, 0);

    store.store_int("button_pressed".to_string(), 4).unwrap();
    assert_eq!(store.get_bool("beat_one"), None);
    let finished = story.evaluate_active_beat(&store.facts).unwrap();
    assert_eq!(story.active_beat_index, 1);
    assert_eq!(finished.name, "Beat1");
    assert!(finished.finished);
    assert_eq!(store.get_bool("beat_one"), None);
    assert_eq!(apply_effects(&finished.effects, &mut store), Ok(()));
    assert_eq!(store.get_bool("beat_one"), Some(&true));
    assert!(!story.is_finished());

    store.store_int("button_pressed".to_string(), 11).unwrap();
    let last = story.evaluate_active_beat(&store.facts).unwrap();
    assert_eq!(last.name, "Beat2");
    assert_eq!(story.active_beat_index, 2);
    assert!(story.is_finished());
    assert_eq!(story.evaluate_active_beat(&store.facts), None);
    assert_eq!(story.active_beat_index, 2);
}

#[test]
fn a_small_story_is_read() {
    let text = "# Story: S\n## StoryBeat: B\n### Rule: R\n  IntEquals(x, 1)\n- Set Int x to 1";
    let expected = Story {
        name: "S".to_string(),
        beats: vec![StoryBeat {
            name: "B".to_string(),
            rules: vec![Rule {
                name: "R".to_string(),
                conditions: vec![Condition::IntEquals {
                    fact_name: "x".to_string(),
                    expected_value: 1,
                }],
            }],
            effects: vec![Effect::SetFact(Fact::Int("x".to_string(), 1))],
            finished: false,
        }],
        active_beat_index: 0,
    };
    assert_eq!(parse_story(text), Ok(expected));
}

#[test]
fn a_tag_is_found_once_it_is_added() {
    let condition = Condition::ListContains {
        fact_name: "tags".to_string(),
        expected_value: "vip".to_string(),
    };
    let mut store = CoolFactStore::new();
    assert!(!condition.evaluate(&store.facts));
    store.store_list("tags".to_string(), StringHashSet::from_items(vec![])).unwrap();
    assert!(!condition.evaluate(&store.facts));
    store.add_to_list("tags".to_string(), "vip".to_string());
    assert!(condition.evaluate(&store.facts));
    store.remove_from_list("tags".to_string(), "vip".to_string());
    assert!(!condition.evaluate(&store.facts));
}

#[test]
fn list_membership_is_case_sensitive() {
    let condition = Condition::ListContains {
        fact_name: "tags".to_string(),
        expected_value: "vip".to_string(),
    };
    let mut store = CoolFactStore::new();
    store.add_to_list("tags".to_string(), "VIP".to_string());
    assert!(!condition.evaluate(&store.facts));
}
