use barnacle_beats::fact::Fact;
use barnacle_beats::fact::FactBuilder;
use barnacle_beats::store::CoolFactStore;
use barnacle_beats::store::StoreError;
use barnacle_beats::string_set::StringHashSet;

fn set_of(items: &[&str]) -> StringHashSet {
    StringHashSet::from_items(items.iter().map(|s| s.to_string()).collect())
}

#[test]
fn new_store_is_empty() {
    let mut store = CoolFactStore::new();
    assert_eq!(store.get_int("score"), None);
    assert_eq!(store.drain_updated(), vec![]);
}

#[test]
fn store_int_inserts_and_marks() {
    let mut store = CoolFactStore::new();
    assert_eq!(store.store_int("score".to_string(), 7), Ok(()));
    assert_eq!(store.get_int("score"), Some(&7));
    assert_eq!(store.drain_updated(), vec![Fact::Int("score".to_string(), 7)]);
}

#[test]
fn same_value_twice_marks_once() {
    let mut store = CoolFactStore::new();
    store.store_int("score".to_string(), 7).unwrap();
    store.store_int("score".to_string(), 7).unwrap();
    assert_eq!(store.drain_updated().len(), 1);
}

#[test]
fn same_value_after_drain_marks_nothing() {
    let mut store = CoolFactStore::new();
    store.store_string("player".to_string(), "Alice".to_string()).unwrap();
    assert_eq!(store.drain_updated().len(), 1);
    store.store_string("player".to_string(), "Alice".to_string()).unwrap();
    assert_eq!(store.drain_updated(), vec![]);
}

#[test]
fn new_value_replaces_and_marks() {
    let mut store = CoolFactStore::new();
    store.store_bool("alive".to_string(), true).unwrap();
    store.drain_updated();
    store.store_bool("alive".to_string(), false).unwrap();
    assert_eq!(store.get_bool("alive"), Some(&false));
    assert_eq!(store.drain_updated(), vec![Fact::Bool("alive".to_string(), false)]);
}

#[test]
fn two_values_of_one_name_are_both_marked() {
    let mut store = CoolFactStore::new();
    store.store_int("score".to_string(), 1).unwrap();
    store.store_int("score".to_string(), 2).unwrap();
    let mut changed = store.drain_updated();
    changed.sort_by_key(|fact| match fact {
        Fact::Int(_, value) => *value,
        _ => 0,
    });
    assert_eq!(
        changed,
        vec![Fact::Int("score".to_string(), 1), Fact::Int("score".to_string(), 2)]
    );
    assert_eq!(store.get_int("score"), Some(&2));
}

#[test]
fn drain_twice_gives_nothing() {
    let mut store = CoolFactStore::new();
    store.store_int("score".to_string(), 1).unwrap();
    assert_eq!(store.drain_updated().len(), 1);
    assert_eq!(store.drain_updated().len(), 0);
    assert_eq!(store.get_int("score"), Some(&1));
}

#[test]
fn int_then_string_is_a_type_mismatch() {
    let mut store = CoolFactStore::new();
    store.store_int("score".to_string(), 1).unwrap();
    store.drain_updated();
    assert_eq!(
        store.store_string("score".to_string(), "one".to_string()),
        Err(StoreError::TypeMismatch)
    );
    assert_eq!(store.get_int("score"), Some(&1));
    assert_eq!(store.get_string("score"), None);
    assert_eq!(store.drain_updated(), vec![]);
}

#[test]
fn every_other_type_is_a_type_mismatch() {
    let mut store = CoolFactStore::new();
    store.store_string("s".to_string(), "x".to_string()).unwrap();
    store.store_bool("b".to_string(), true).unwrap();
    store.store_list("l".to_string(), set_of(&["a"])).unwrap();
    assert_eq!(store.store_int("s".to_string(), 1), Err(StoreError::TypeMismatch));
    assert_eq!(store.store_int("b".to_string(), 1), Err(StoreError::TypeMismatch));
    assert_eq!(store.store_int("l".to_string(), 1), Err(StoreError::TypeMismatch));
    assert_eq!(store.store_bool("s".to_string(), true), Err(StoreError::TypeMismatch));
    assert_eq!(store.store_list("b".to_string(), set_of(&[])), Err(StoreError::TypeMismatch));
    assert_eq!(
        store.store_string("l".to_string(), "a".to_string()),
        Err(StoreError::TypeMismatch)
    );
}

#[test]
fn getters_are_tolerant() {
    let mut store = CoolFactStore::new();
    store.store_int("score".to_string(), 1).unwrap();
    assert_eq!(store.get_string("score"), None);
    assert_eq!(store.get_bool("score"), None);
    assert_eq!(store.get_list("score"), None);
    assert_eq!(store.get_int("missing"), None);
    assert_eq!(store.get_int("Score"), None);
}

#[test]
fn add_to_int_counts_from_zero() {
    let mut store = CoolFactStore::new();
    assert_eq!(store.add_to_int("pressed".to_string(), 1), Ok(()));
    assert_eq!(store.get_int("pressed"), Some(&1));
    assert_eq!(store.add_to_int("pressed".to_string(), 41), Ok(()));
    assert_eq!(store.get_int("pressed"), Some(&42));
    assert_eq!(store.add_to_int("pressed".to_string(), -50), Ok(()));
    assert_eq!(store.get_int("pressed"), Some(&-8));
}

#[test]
fn add_zero_marks_nothing() {
    let mut store = CoolFactStore::new();
    store.store_int("pressed".to_string(), 5).unwrap();
    store.drain_updated();
    store.add_to_int("pressed".to_string(), 0).unwrap();
    assert_eq!(store.drain_updated(), vec![]);
}

#[test]
fn add_to_int_on_a_string_is_a_type_mismatch() {
    let mut store = CoolFactStore::new();
    store.store_string("pressed".to_string(), "no".to_string()).unwrap();
    assert_eq!(store.add_to_int("pressed".to_string(), 1), Err(StoreError::TypeMismatch));
}

#[test]
fn add_to_list_creates_and_marks() {
    let mut store = CoolFactStore::new();
    store.add_to_list("tags".to_string(), "vip".to_string());
    assert_eq!(store.get_list("tags"), Some(&set_of(&["vip"])));
    assert_eq!(
        store.drain_updated(),
        vec![Fact::StringList("tags".to_string(), set_of(&["vip"]))]
    );
    store.add_to_list("tags".to_string(), "gold".to_string());
    assert_eq!(store.get_list("tags"), Some(&set_of(&["gold", "vip"])));
    assert_eq!(
        store.drain_updated(),
        vec![Fact::StringList("tags".to_string(), set_of(&["vip", "gold"]))]
    );
}

#[test]
fn add_to_list_twice_marks_once() {
    let mut store = CoolFactStore::new();
    store.add_to_list("tags".to_string(), "vip".to_string());
    store.drain_updated();
    store.add_to_list("tags".to_string(), "vip".to_string());
    assert_eq!(store.drain_updated(), vec![]);
    assert_eq!(store.get_list("tags"), Some(&set_of(&["vip"])));
}

#[test]
fn add_to_list_leaves_other_types_alone() {
    let mut store = CoolFactStore::new();
    store.store_int("tags".to_string(), 3).unwrap();
    store.drain_updated();
    store.add_to_list("tags".to_string(), "vip".to_string());
    assert_eq!(store.get_int("tags"), Some(&3));
    assert_eq!(store.get_list("tags"), None);
    assert_eq!(store.drain_updated(), vec![]);
}

#[test]
fn remove_from_list_marks_only_a_change() {
    let mut store = CoolFactStore::new();
    store.add_to_list("tags".to_string(), "vip".to_string());
    store.add_to_list("tags".to_string(), "gold".to_string());
    store.drain_updated();
    store.remove_from_list("tags".to_string(), "silver".to_string());
    assert_eq!(store.drain_updated(), vec![]);
    store.remove_from_list("tags".to_string(), "vip".to_string());
    assert_eq!(store.get_list("tags"), Some(&set_of(&["gold"])));
    assert_eq!(
        store.drain_updated(),
        vec![Fact::StringList("tags".to_string(), set_of(&["gold"]))]
    );
    store.remove_from_list("missing".to_string(), "vip".to_string());
    assert_eq!(store.get_list("missing"), None);
    assert_eq!(store.drain_updated(), vec![]);
}

#[test]
fn store_list_compares_sets_not_orders() {
    let mut store = CoolFactStore::new();
    store.store_list("tags".to_string(), set_of(&["a", "b"])).unwrap();
    store.drain_updated();
    store.store_list("tags".to_string(), set_of(&["b", "a", "a"])).unwrap();
    assert_eq!(store.drain_updated(), vec![]);
    store.store_list("tags".to_string(), set_of(&["b"])).unwrap();
    assert_eq!(store.get_list("tags"), Some(&set_of(&["b"])));
    assert_eq!(store.drain_updated().len(), 1);
}

#[test]
fn fact_builder_builds_each_type() {
    assert_eq!(FactBuilder::new("n".to_string()).integer(3), Fact::Int("n".to_string(), 3));
    assert_eq!(
        FactBuilder::new("n".to_string()).string("v".to_string()),
        Fact::String("n".to_string(), "v".to_string())
    );
    assert_eq!(FactBuilder::new("n".to_string()).bool(true), Fact::Bool("n".to_string(), true));
    assert_eq!(
        FactBuilder::new("n".to_string()).string_list(vec!["b".to_string(), "a".to_string()]),
        Fact::StringList("n".to_string(), set_of(&["a", "b"]))
    );
}

#[test]
fn string_sets_list_their_items_in_order() {
    let set = set_of(&["pear", "apple", "fig", "apple"]);
    assert_eq!(
        set.sorted_items(),
        vec!["apple".to_string(), "fig".to_string(), "pear".to_string()]
    );
    assert_eq!(set_of(&[]).sorted_items(), Vec::<String>::new());
}

#[test]
fn string_sets_are_equal_whatever_the_order() {
    let left = set_of(&["a", "b", "c"]);
    let right = set_of(&["c", "a", "b"]);
    assert_eq!(left, right);
    assert_eq!(left.clone(), right);
    assert_ne!(left, set_of(&["a", "b"]));
}

#[test]
fn string_sets_hash_whatever_the_order() {
    let left = Fact::StringList("tags".to_string(), set_of(&["a", "b", "c"]));
    let right = Fact::StringList("tags".to_string(), set_of(&["c", "b", "a"]));
    let other = Fact::StringList("tags".to_string(), set_of(&["a", "b", "d"]));
    let mut first = std::collections::hash_map::DefaultHasher::new();
    std::hash::Hash::hash(&left, &mut first);
    let mut second = std::collections::hash_map::DefaultHasher::new();
    std::hash::Hash::hash(&right, &mut second);
    let mut third = std::collections::hash_map::DefaultHasher::new();
    std::hash::Hash::hash(&other, &mut third);
    let untouched = std::collections::hash_map::DefaultHasher::new();
    assert_eq!(std::hash::Hasher::finish(&first), std::hash::Hasher::finish(&second));
    assert_ne!(std::hash::Hasher::finish(&first), std::hash::Hasher::finish(&third));
    assert_ne!(std::hash::Hasher::finish(&first), std::hash::Hasher::finish(&untouched));
}

#[test]
fn facts_copy_and_compare() {
    let fact = Fact::StringList("tags".to_string(), set_of(&["a"]));
    assert_eq!(fact.clone(), fact);
    assert!(fact.same_kind(&Fact::StringList("other".to_string(), set_of(&[]))));
    assert!(!fact.same_kind(&Fact::Int("tags".to_string(), 1)));
    assert!(fact.same_value(&Fact::StringList("other".to_string(), set_of(&["a"]))));
    assert!(!fact.same_value(&Fact::StringList("tags".to_string(), set_of(&["b"]))));
    assert!(Fact::Int("a".to_string(), 1).same_value(&Fact::Int("b".to_string(), 1)));
    assert!(!Fact::Int("a".to_string(), 1).same_value(&Fact::Bool("a".to_string(), true)));
}

#[test]
fn a_map_of_facts_keeps_the_later_of_one_name() {
    let facts = barnacle_beats::fact::FactMap::from_facts(vec![
        Fact::Int("score".to_string(), 1),
        Fact::Bool("alive".to_string(), true),
        Fact::Int("score".to_string(), 2),
    ]);
    let two = barnacle_beats::condition::Condition::IntEquals {
        fact_name: "score".to_string(),
        expected_value: 2,
    };
    let one = barnacle_beats::condition::Condition::IntEquals {
        fact_name: "score".to_string(),
        expected_value: 1,
    };
    assert!(two.evaluate(&facts));
    assert!(!one.evaluate(&facts));
    assert_eq!(Fact::Int("score".to_string(), 1).name(), "score");
    let none = barnacle_beats::fact::FactMap::from_facts(vec![]);
    assert!(!two.evaluate(&none));
}
