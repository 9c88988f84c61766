use barnacle_beats::condition::Condition;
use barnacle_beats::condition::Rule;
use barnacle_beats::fact::Fact;
use barnacle_beats::fact::FactMap;
use barnacle_beats::story::Story;
use barnacle_beats::story::StoryBeat;

fn sample_facts() -> FactMap {
    FactMap::from_facts(vec![
        Fact::Int("score".to_string(), 42),
        Fact::String("player".to_string(), "Alice".to_string()),
        Fact::Bool("is_alive".to_string(), true),
    ])
}

#[test]
fn test_rule_evaluation() {
    let facts = sample_facts();

    let int_equals_condition = Condition::IntEquals {
        fact_name: "score".to_string(),
        expected_value: 42,
    };
    assert!(int_equals_condition.evaluate(&facts));

    let string_equals_condition = Condition::StringEquals {
        fact_name: "player".to_string(),
        expected_value: "Alice".to_string(),
    };
    assert!(string_equals_condition.evaluate(&facts));

    let bool_equals_condition = Condition::BoolEquals {
        fact_name: "is_alive".to_string(),
        expected_value: true,
    };
    assert!(bool_equals_condition.evaluate(&facts));
}

#[test]
fn test_story_beat_evaluation() {
    let facts = sample_facts();

    let rule1 = Rule {
        name: "Rule1".to_string(),
        conditions: vec![
            Condition::IntEquals {
                fact_name: "score".to_string(),
                expected_value: 42,
            },
            Condition::StringEquals {
                fact_name: "player".to_string(),
                expected_value: "Alice".to_string(),
            },
            Condition::BoolEquals {
                fact_name: "is_alive".to_string(),
                expected_value: true,
            },
        ],
    };

    let story_beat = StoryBeat {
        name: "Beat1".to_string(),
        rules: vec![rule1],
        effects: vec![],
        finished: false,
    };

    let mut story_beat_clone = story_beat.clone();
    story_beat_clone.evaluate(&facts);
    assert!(story_beat_clone.finished);
}

#[test]
fn test_story_evaluation() {
    let facts = sample_facts();

    let rule1 = Rule {
        name: "Rule1".to_string(),
        conditions: vec![
            Condition::IntEquals {
                fact_name: "score".to_string(),
                expected_value: 42,
            },
            Condition::StringEquals {
                fact_name: "player".to_string(),
                expected_value: "Alice".to_string(),
            },
            Condition::BoolEquals {
                fact_name: "is_alive".to_string(),
                expected_value: true,
            },
        ],
    };

    let rule2 = Rule {
        name: "Rule2".to_string(),
        conditions: vec![Condition::IntMoreThan {
            fact_name: "score".to_string(),
            expected_value: 50,
        }],
    };

    let story_beat1 = StoryBeat {
        name: "Beat1".to_string(),
        rules: vec![rule1],
        effects: vec![],
        finished: true,
    };

    let story_beat2 = StoryBeat {
        name: "Beat2".to_string(),
        rules: vec![rule2],
        effects: vec![],
        finished: false,
    };

    let story = Story {
        name: "MyStory".to_string(),
        beats: vec![story_beat1, story_beat2],
        active_beat_index: 0,
    };

    let mut story_clone = story.clone();
    story_clone.evaluate_active_beat(&facts);
    assert_eq!(story_clone.active_beat_index, 1);

    // A score of 42 is not more than 50: the second beat stays the active one.
    story_clone.evaluate_active_beat(&facts);
    assert!(!story_clone.is_finished());
}
