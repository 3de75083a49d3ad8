use macro_engine::input::{EventList, InputEvent, InputEventType};
use macro_engine::matcher::{find_triggered, run_this, MacroId};
use macro_engine::model::{
    ActionEventType, Collection, KeyPress, KeyType, Macro, MacroData, MacroType, TriggerEventType,
};

const A: u32 = 4;
const B: u32 = 5;
const C: u32 = 6;

fn key(code: u32) -> KeyPress {
    KeyPress { keypress: code, press_duration: 0, keytype: KeyType::DownUp }
}

fn macro_on(name: &str, trigger: &[u32], active: bool) -> Macro {
    Macro {
        name: name.to_string(),
        sequence: vec![ActionEventType::Delay { data: 1 }],
        macro_type: MacroType::Single,
        trigger: TriggerEventType::KeyPressEvent { data: trigger.iter().map(|c| key(*c)).collect() },
        active,
    }
}

fn collection(name: &str, macros: Vec<Macro>, active: bool) -> Collection {
    Collection { name: name.to_string(), icon: "i".to_string(), macros, active }
}

fn press(code: u32) -> InputEvent {
    InputEvent { event_type: InputEventType::KeyPress(code), synthetic: false }
}

fn release(code: u32) -> InputEvent {
    InputEvent { event_type: InputEventType::KeyRelease(code), synthetic: false }
}

fn id(collection: usize, index: usize) -> MacroId {
    MacroId { collection, index }
}

fn one_macro_db(trigger: &[u32]) -> MacroData {
    MacroData { data: vec![collection("Default", vec![macro_on("m", trigger, true)], true)] }
}

#[test]
fn fires_at_the_press_that_completes_the_trigger() {
    let db = one_macro_db(&[A, B]);
    let mut held = EventList::new();
    assert!(run_this(&mut held, &db, &press(A)).is_empty());
    assert_eq!(run_this(&mut held, &db, &press(B)), vec![id(0, 0)]);
}

#[test]
fn does_not_fire_once_an_extra_key_is_added() {
    let db = one_macro_db(&[A, B]);
    let mut held = EventList::new();
    run_this(&mut held, &db, &press(A));
    run_this(&mut held, &db, &press(B));
    assert!(run_this(&mut held, &db, &press(C)).is_empty());
    assert_eq!(held.keys(), &vec![A, B, C]);
}

#[test]
fn does_not_fire_with_an_extra_key_held_first() {
    let db = one_macro_db(&[A, B]);
    let mut held = EventList::new();
    run_this(&mut held, &db, &press(C));
    assert!(run_this(&mut held, &db, &press(A)).is_empty());
    assert!(run_this(&mut held, &db, &press(B)).is_empty());
}

#[test]
fn does_not_fire_in_another_order() {
    let db = one_macro_db(&[A, B]);
    let mut held = EventList::new();
    assert!(run_this(&mut held, &db, &press(B)).is_empty());
    assert!(run_this(&mut held, &db, &press(A)).is_empty());
}

#[test]
fn release_never_fires_even_when_it_leaves_the_trigger_held() {
    let db = one_macro_db(&[A, B]);
    let mut held = EventList::new();
    run_this(&mut held, &db, &press(A));
    run_this(&mut held, &db, &press(C));
    assert!(run_this(&mut held, &db, &press(B)).is_empty());
    assert!(run_this(&mut held, &db, &release(C)).is_empty());
    assert_eq!(held.keys(), &vec![A, B]);
}

#[test]
fn fires_again_when_exact_equality_recurs() {
    let db = one_macro_db(&[A, B]);
    let mut held = EventList::new();
    run_this(&mut held, &db, &press(A));
    assert_eq!(run_this(&mut held, &db, &press(B)), vec![id(0, 0)]);
    run_this(&mut held, &db, &release(B));
    assert_eq!(run_this(&mut held, &db, &press(B)), vec![id(0, 0)]);
}

#[test]
fn key_repeat_breaks_the_match() {
    let db = one_macro_db(&[A]);
    let mut held = EventList::new();
    assert_eq!(run_this(&mut held, &db, &press(A)), vec![id(0, 0)]);
    assert!(run_this(&mut held, &db, &press(A)).is_empty());
}

#[test]
fn synthetic_press_fires_nothing() {
    let db = one_macro_db(&[A]);
    let mut held = EventList::new();
    let echoed = InputEvent { event_type: InputEventType::KeyPress(A), synthetic: true };
    assert!(run_this(&mut held, &db, &echoed).is_empty());
    assert!(held.keys().is_empty());
}

#[test]
fn inactive_macro_does_not_fire() {
    let db = MacroData { data: vec![collection("c", vec![macro_on("m", &[A], false)], true)] };
    let mut held = EventList::new();
    assert!(run_this(&mut held, &db, &press(A)).is_empty());
}

#[test]
fn inactive_collection_silences_active_macros() {
    let db = MacroData {
        data: vec![collection("c", vec![macro_on("m", &[A], true), macro_on("n", &[A], true)], false)],
    };
    let mut held = EventList::new();
    assert!(run_this(&mut held, &db, &press(A)).is_empty());
}

#[test]
fn switching_a_collection_back_on_restores_firing() {
    let mut db = MacroData {
        data: vec![
            collection("c", vec![macro_on("m", &[A], true)], true),
            collection("d", vec![macro_on("n", &[A], true)], true),
        ],
    };
    let held = {
        let mut held = EventList::new();
        held.press(A);
        held
    };
    assert_eq!(find_triggered(&db, &held), vec![id(0, 0), id(1, 0)]);
    db.data[0].active = false;
    assert_eq!(find_triggered(&db, &held), vec![id(1, 0)]);
    db.data[0].active = true;
    assert_eq!(find_triggered(&db, &held), vec![id(0, 0), id(1, 0)]);
}

#[test]
fn every_match_is_listed_in_walk_order() {
    let db = MacroData {
        data: vec![
            collection(
                "first",
                vec![
                    macro_on("a", &[A, B], true),
                    macro_on("b", &[A], true),
                    macro_on("c", &[A, B], false),
                    macro_on("d", &[A, B], true),
                ],
                true,
            ),
            collection("off", vec![macro_on("e", &[A, B], true)], false),
            collection("empty", vec![], true),
            collection("last", vec![macro_on("f", &[B, A], true), macro_on("g", &[A, B], true)], true),
        ],
    };
    let mut held = EventList::new();
    run_this(&mut held, &db, &press(A));
    let fired = run_this(&mut held, &db, &press(B));
    assert_eq!(fired, vec![id(0, 0), id(0, 3), id(3, 1)]);
}

#[test]
fn empty_database_fires_nothing() {
    let db = MacroData { data: vec![] };
    let mut held = EventList::new();
    assert!(run_this(&mut held, &db, &press(A)).is_empty());
    assert_eq!(held.keys(), &vec![A]);
}

#[test]
fn empty_trigger_cannot_be_met_by_a_press() {
    let db = one_macro_db(&[]);
    let mut held = EventList::new();
    assert!(run_this(&mut held, &db, &press(A)).is_empty());
    run_this(&mut held, &db, &release(A));
    assert!(held.keys().is_empty());
    assert_eq!(find_triggered(&db, &held), vec![id(0, 0)]);
}

#[test]
fn the_database_handed_in_is_the_one_consulted() {
    let before = one_macro_db(&[A, B]);
    let after = one_macro_db(&[A, C]);
    let mut held = EventList::new();
    run_this(&mut held, &before, &press(A));
    assert!(run_this(&mut held, &after, &press(B)).is_empty());
    run_this(&mut held, &after, &release(B));
    assert_eq!(run_this(&mut held, &after, &press(C)), vec![id(0, 0)]);
}

#[test]
fn macro_at_finds_what_fired() {
    let db = MacroData {
        data: vec![
            collection("c", vec![macro_on("m", &[A], true), macro_on("n", &[B], true)], true),
            collection("d", vec![macro_on("o", &[B], true)], true),
        ],
    };
    let mut held = EventList::new();
    let fired = run_this(&mut held, &db, &press(B));
    let names: Vec<&str> =
        fired.iter().map(|id| macro_engine::matcher::macro_at(&db, *id).unwrap().name.as_str()).collect();
    assert_eq!(names, vec!["n", "o"]);
}

#[test]
fn macro_at_is_none_out_of_range() {
    let db = one_macro_db(&[A]);
    assert!(macro_engine::matcher::macro_at(&db, id(0, 0)).is_some());
    assert!(macro_engine::matcher::macro_at(&db, id(0, 1)).is_none());
    assert!(macro_engine::matcher::macro_at(&db, id(1, 0)).is_none());
    assert!(macro_engine::matcher::macro_at(&MacroData { data: vec![] }, id(0, 0)).is_none());
}
