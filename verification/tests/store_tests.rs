use dialogue_script::script::{
    Action, Blurp, Cue, DuplicateScript, Jump, ScriptItem, Scripts,
};

fn action(name: &str) -> ScriptItem {
    ScriptItem::Action(Action { action: name.to_string() })
}

fn cue(name: &str) -> ScriptItem {
    ScriptItem::Cue(Cue { cue: name.to_string() })
}

#[test]
fn an_empty_definition_builds_an_empty_store() {
    let scripts = Scripts::from_entries(Vec::new()).unwrap();
    assert!(!scripts.has_script("S"));
    assert_eq!(scripts.get("S"), None);
    assert_eq!(scripts.script_count(), 0);
    assert_eq!(scripts.keys(), Vec::<String>::new());
}

#[test]
fn every_entry_is_found_again_in_order() {
    let s_items = vec![action("one"), cue("two"), action("three")];
    let t_items = vec![ScriptItem::Jump(Jump { jump: "S".to_string() })];
    let scripts = Scripts::from_entries(vec![
        ("S".to_string(), s_items.clone()),
        ("T".to_string(), t_items.clone()),
    ])
    .unwrap();
    assert_eq!(scripts.get("S"), Some(&s_items));
    assert_eq!(scripts.get("T"), Some(&t_items));
    for (index, item) in s_items.iter().enumerate() {
        assert_eq!(scripts.get_item("S", index), Some(item));
    }
    for (index, item) in t_items.iter().enumerate() {
        assert_eq!(scripts.get_item("T", index), Some(item));
    }
    assert_eq!(scripts.script_count(), 2);
}

#[test]
fn lookups_out_of_range_return_nothing() {
    let scripts =
        Scripts::from_entries(vec![("S".to_string(), vec![action("a")])]).unwrap();
    assert_eq!(scripts.get_item("S", 1), None);
    assert_eq!(scripts.get_item("T", 0), None);
    assert!(scripts.has_script("S"));
    assert!(!scripts.has_script("T"));
}

#[test]
fn a_duplicated_name_is_rejected_by_name() {
    let r = Scripts::from_entries(vec![
        ("S".to_string(), vec![action("a")]),
        ("T".to_string(), vec![action("b")]),
        ("S".to_string(), vec![action("c")]),
    ]);
    match r {
        Err(DuplicateScript { script }) => assert_eq!(script, "S"),
        Ok(_) => panic!("a duplicated name was accepted"),
    }
}

#[test]
fn keys_lists_each_script_once() {
    let scripts = Scripts::from_entries(vec![
        ("B".to_string(), vec![action("a")]),
        ("A".to_string(), vec![action("b")]),
        ("C".to_string(), Vec::new()),
    ])
    .unwrap();
    let mut names = scripts.keys();
    names.sort();
    assert_eq!(
        names,
        vec!["A".to_string(), "B".to_string(), "C".to_string()]
    );
}

#[test]
fn an_empty_script_is_registered_but_ends_at_once() {
    let scripts = Scripts::from_entries(vec![("S".to_string(), Vec::new())]).unwrap();
    assert!(scripts.has_script("S"));
    assert_eq!(scripts.get_item("S", 0), None);
}

#[test]
fn a_default_store_is_empty() {
    let scripts = Scripts::default();
    assert_eq!(scripts.script_count(), 0);
    assert!(!scripts.has_script("S"));
}

#[test]
fn the_default_instruction_is_an_inert_end_marker() {
    let item = ScriptItem::default();
    match item {
        ScriptItem::End(end) => assert_eq!(end.end, ""),
        other => panic!("default decoded to {:?}", other),
    }
}

#[test]
fn blurp_payload_round_trips_through_the_store() {
    let line = ScriptItem::Blurp(Blurp {
        character: "X".to_string(),
        text: "hi".to_string(),
        annotation: Some("aside".to_string()),
        wait: Some(42),
    });
    let scripts =
        Scripts::from_entries(vec![("S".to_string(), vec![line.clone()])]).unwrap();
    assert_eq!(scripts.get_item("S", 0), Some(&line));
}
