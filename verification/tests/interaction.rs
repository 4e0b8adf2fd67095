use score_counter::dialog::DialogState;
use score_counter::model::AppModel;
use score_counter::palette::{advance_cursor, palette_color, PALETTE_LEN};
use score_counter::press::PressSession;
use score_counter::state::{Counter, Store};
use score_counter::text::{decimal_string, parse_i32, str_eq};

#[test]
fn short_press_emits_one() {
    let mut session = PressSession::new();
    session.pointer_down(0);
    assert_eq!(session.pointer_up(300, true), Some(1));
    assert_eq!(session.start, None);
}

#[test]
fn long_press_emits_five() {
    let mut session = PressSession::new();
    session.pointer_down(0);
    assert_eq!(session.pointer_up(600, true), Some(5));
}

#[test]
fn minus_control_emits_negative() {
    let mut session = PressSession::new();
    session.pointer_down(100);
    assert_eq!(session.pointer_up(400, false), Some(-1));
    session.pointer_down(100);
    assert_eq!(session.pointer_up(700, false), Some(-5));
}

#[test]
fn threshold_is_inclusive() {
    let mut session = PressSession::new();
    session.pointer_down(0);
    assert_eq!(session.pointer_up(520, true), Some(5));
    session.pointer_down(0);
    assert_eq!(session.pointer_up(519, true), Some(1));
}

#[test]
fn cancel_discards_press_without_emission() {
    let mut session = PressSession::new();
    session.pointer_down(0);
    session.pointer_leave_or_cancel();
    assert_eq!(session.pointer_up(10_000, true), None);
}

#[test]
fn pointer_up_while_idle_emits_nothing() {
    let mut session = PressSession::new();
    assert_eq!(session.pointer_up(42, true), None);
}

#[test]
fn open_add_prefills_the_draft() {
    let mut model = AppModel::new();
    model.open_add();
    match &model.dialog {
        DialogState::Add(draft) => {
            assert_eq!(draft.id, None);
            assert_eq!(draft.name, "Player 1");
            assert_eq!(draft.score, 0);
            assert_eq!(draft.color, palette_color(0));
        }
        other => panic!("expected an add dialog, got {:?}", other),
    }
    assert!(model.store.counters.is_empty());
}

#[test]
fn save_with_empty_name_commits_empty_trimmed_name() {
    let mut model = AppModel::new();
    model.open_add();
    model.set_draft_name(String::new());
    model.save_draft();
    assert_eq!(model.store.counters.len(), 1);
    assert_eq!(model.store.counters[0].name, "");
    assert_eq!(model.store.counters[0].id.len(), 36);
    assert_eq!(model.dialog, DialogState::Closed);
}

#[test]
fn save_trims_the_draft_name() {
    let mut model = AppModel::new();
    model.open_add();
    model.set_draft_name("  Ada Lovelace  ".to_string());
    model.save_draft();
    assert_eq!(model.store.counters[0].name, "Ada Lovelace");
}

#[test]
fn minted_ids_are_distinct() {
    let mut model = AppModel::new();
    model.open_add();
    model.save_draft();
    model.open_add();
    model.save_draft();
    assert_eq!(model.store.counters.len(), 2);
    assert_ne!(model.store.counters[0].id, model.store.counters[1].id);
}

#[test]
fn cancel_after_edits_leaves_the_counter_unchanged() {
    let counter = Counter {
        id: "x".to_string(),
        name: "Keep".to_string(),
        score: 3,
        color: "#123456".to_string(),
    };
    let mut model = AppModel::with_store(Store {
        counters: vec![counter.clone()],
    });
    model.open_edit("x");
    model.set_draft_name("Scratch".to_string());
    model.set_draft_score_text("99");
    model.set_draft_color("#ff0000".to_string());
    model.close_dialog();
    assert_eq!(model.store.counters, vec![counter]);
    assert_eq!(model.dialog, DialogState::Closed);
}

#[test]
fn edit_save_rewrites_in_place_and_keeps_the_id() {
    let a = Counter {
        id: "a".to_string(),
        name: "First".to_string(),
        score: 1,
        color: "#111111".to_string(),
    };
    let b = Counter {
        id: "b".to_string(),
        name: "Second".to_string(),
        score: 2,
        color: "#222222".to_string(),
    };
    let mut model = AppModel::with_store(Store {
        counters: vec![a, b],
    });
    model.open_edit("a");
    model.set_draft_name("Renamed".to_string());
    model.set_draft_score_text("-12");
    model.save_draft();
    assert_eq!(model.store.counters.len(), 2);
    assert_eq!(model.store.counters[0].id, "a");
    assert_eq!(model.store.counters[0].name, "Renamed");
    assert_eq!(model.store.counters[0].score, -12);
    assert_eq!(model.store.counters[1].id, "b");
}

#[test]
fn unparsable_score_input_is_ignored() {
    let mut model = AppModel::new();
    model.open_add();
    model.set_draft_score_text("41");
    model.set_draft_score_text("not a number");
    model.set_draft_score_text("99999999999");
    match &model.dialog {
        DialogState::Add(draft) => assert_eq!(draft.score, 41),
        other => panic!("expected an add dialog, got {:?}", other),
    }
}

#[test]
fn delete_from_edit_dialog_removes_the_counter() {
    let counter = Counter {
        id: "gone".to_string(),
        name: "Doomed".to_string(),
        score: 0,
        color: "#000000".to_string(),
    };
    let mut model = AppModel::with_store(Store {
        counters: vec![counter],
    });
    model.open_edit("gone");
    model.delete_current();
    assert!(model.store.counters.is_empty());
    assert_eq!(model.dialog, DialogState::Closed);
    assert_eq!(model.palette_cursor, 0);
}

#[test]
fn cursor_advances_only_on_add_save() {
    let mut model = AppModel::new();
    model.open_add();
    model.close_dialog();
    assert_eq!(model.palette_cursor, 0);
    model.open_add();
    model.save_draft();
    assert_eq!(model.palette_cursor, 1);
    let id = model.store.counters[0].id.clone();
    model.open_edit(&id);
    model.save_draft();
    assert_eq!(model.palette_cursor, 1);
    model.delete_counter(&id);
    assert_eq!(model.palette_cursor, 1);
}

#[test]
fn ninth_counter_gets_the_first_color_again() {
    let mut model = AppModel::new();
    for _ in 0..9 {
        model.open_add();
        model.save_draft();
    }
    assert_eq!(model.store.counters.len(), 9);
    assert_eq!(model.store.counters[8].color, model.store.counters[0].color);
    assert_ne!(model.store.counters[1].color, model.store.counters[0].color);
}

#[test]
fn palette_entries_and_cursor_cycle() {
    assert_eq!(palette_color(0), "#0f172a");
    assert_eq!(palette_color(5), "#ea580c");
    assert_eq!(palette_color(6), "#2563eb");
    assert_eq!(palette_color(PALETTE_LEN), "#0f172a");
    let mut cursor: usize = 0;
    for _ in 0..PALETTE_LEN {
        cursor = advance_cursor(cursor);
    }
    assert_eq!(cursor, 0);
}

#[test]
fn draft_names_count_existing_rows() {
    let mut model = AppModel::new();
    model.open_add();
    model.save_draft();
    model.open_add();
    match &model.dialog {
        DialogState::Add(draft) => assert_eq!(draft.name, "Player 2"),
        other => panic!("expected an add dialog, got {:?}", other),
    }
}

#[test]
fn parse_i32_matches_decimal_grammar() {
    assert_eq!(parse_i32("0"), Some(0));
    assert_eq!(parse_i32("-7"), Some(-7));
    assert_eq!(parse_i32("+25"), Some(25));
    assert_eq!(parse_i32("2147483647"), Some(i32::MAX));
    assert_eq!(parse_i32("-2147483648"), Some(i32::MIN));
    assert_eq!(parse_i32("2147483648"), None);
    assert_eq!(parse_i32(""), None);
    assert_eq!(parse_i32("-"), None);
    assert_eq!(parse_i32("12a"), None);
    assert_eq!(parse_i32(" 3"), None);
}

#[test]
fn decimal_string_renders_exactly() {
    assert_eq!(decimal_string(0), "0");
    assert_eq!(decimal_string(9), "9");
    assert_eq!(decimal_string(120), "120");
}

#[test]
fn str_eq_compares_by_characters() {
    assert!(str_eq("abc", "abc"));
    assert!(!str_eq("abc", "abd"));
    assert!(!str_eq("abc", "ab"));
    assert!(str_eq("", ""));
}
