use score_counter::state::{Counter, Store, SCHEMA_VERSION};

fn sample_counter(id: &str, score: i32) -> Counter {
    Counter {
        id: id.to_string(),
        name: "Player".to_string(),
        score,
        color: "#ffffff".to_string(),
    }
}

#[test]
fn adjust_score_updates_value() {
    let mut store = Store {
        counters: vec![sample_counter("a", 0)],
    };
    let result = store.adjust_score("a", 5);
    assert_eq!(result, Some(5));
    assert_eq!(store.counters[0].score, 5);
}

#[test]
fn remove_clears_counter() {
    let mut store = Store {
        counters: vec![sample_counter("a", 0), sample_counter("b", 1)],
    };
    store.remove("a");
    assert_eq!(store.counters.len(), 1);
    assert_eq!(store.counters[0].id, "b");
}

#[test]
fn storage_round_trip() {
    let counter = sample_counter("x", -3);
    let store = Store {
        counters: vec![counter.clone()],
    };
    let payload = store.to_storage();
    let restored = Store::from_storage(payload);
    assert_eq!(restored.counters, vec![counter]);
}

#[test]
fn envelope_carries_current_version() {
    let store = Store {
        counters: vec![sample_counter("a", 2)],
    };
    let payload = store.to_storage();
    assert_eq!(payload.schema_version, SCHEMA_VERSION);
    assert_eq!(payload.counters, store.counters);
}

#[test]
fn version_mismatch_passes_counters_through() {
    let data = score_counter::state::StoredData {
        schema_version: 99,
        counters: vec![sample_counter("a", 1)],
    };
    let store = Store::from_storage(data);
    assert_eq!(store.counters, vec![sample_counter("a", 1)]);
}

#[test]
fn upsert_appends_new_and_replaces_in_place() {
    let mut store = Store {
        counters: vec![sample_counter("a", 1), sample_counter("b", 2)],
    };
    let replacement = Counter {
        id: "a".to_string(),
        name: "Renamed".to_string(),
        score: 9,
        color: "#000000".to_string(),
    };
    store.upsert(replacement.clone());
    assert_eq!(store.counters.len(), 2);
    assert_eq!(store.counters[0], replacement);
    assert_eq!(store.counters[1], sample_counter("b", 2));
    store.upsert(sample_counter("c", 3));
    assert_eq!(store.counters.len(), 3);
    assert_eq!(store.counters[2].id, "c");
    let ids: Vec<&str> = store.counters.iter().map(|c| c.id.as_str()).collect();
    assert_eq!(ids, vec!["a", "b", "c"]);
}

#[test]
fn remove_absent_id_is_a_no_op() {
    let original = vec![sample_counter("a", 1), sample_counter("b", 2)];
    let mut store = Store {
        counters: original.clone(),
    };
    store.remove("missing");
    assert_eq!(store.counters, original);
}

#[test]
fn adjust_then_undo_restores_score_exactly() {
    let mut store = Store {
        counters: vec![sample_counter("a", 7)],
    };
    assert_eq!(store.adjust_score("a", 13), Some(20));
    assert_eq!(store.adjust_score("a", -13), Some(7));
    assert_eq!(store.counters[0].score, 7);
}

#[test]
fn adjust_absent_id_returns_none_and_changes_nothing() {
    let original = vec![sample_counter("a", 4)];
    let mut store = Store {
        counters: original.clone(),
    };
    assert_eq!(store.adjust_score("ghost", 3), None);
    assert_eq!(store.counters, original);
}

#[test]
fn adjust_may_go_negative() {
    let mut store = Store {
        counters: vec![sample_counter("a", 1)],
    };
    assert_eq!(store.adjust_score("a", -5), Some(-4));
    assert_eq!(store.counters[0].score, -4);
}

#[test]
fn dedup_keeps_the_first_counter_of_each_id() {
    let deduped = score_counter::state::dedup_by_id(vec![
        sample_counter("a", 1),
        sample_counter("b", 2),
        sample_counter("a", 3),
    ]);
    assert_eq!(deduped, vec![sample_counter("a", 1), sample_counter("b", 2)]);
}

#[test]
fn find_returns_the_matching_counter() {
    let store = Store {
        counters: vec![sample_counter("a", 1), sample_counter("b", 2)],
    };
    assert_eq!(store.find("b"), Some(&sample_counter("b", 2)));
    assert_eq!(store.find("zzz"), None);
}
