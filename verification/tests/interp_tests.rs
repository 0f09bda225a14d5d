use dialogue_script::interp::{advance, Emission, ScriptPos};
use dialogue_script::script::{
    Action, AddQuest, Animation, Blurp, Choice, ChoiceOption, Cue, End, Jump, OfferTopics,
    ScriptItem, Scripts,
};

fn blurp(character: &str, text: &str) -> ScriptItem {
    ScriptItem::Blurp(Blurp {
        character: character.to_string(),
        text: text.to_string(),
        annotation: None,
        wait: None,
    })
}

fn action(name: &str) -> ScriptItem {
    ScriptItem::Action(Action { action: name.to_string() })
}

fn jump(target: &str) -> ScriptItem {
    ScriptItem::Jump(Jump { jump: target.to_string() })
}

fn store(entries: Vec<(&str, Vec<ScriptItem>)>) -> Scripts {
    Scripts::from_entries(
        entries.into_iter().map(|(name, items)| (name.to_string(), items)).collect(),
    )
    .unwrap()
}

fn pos(script: &str, index: usize) -> ScriptPos {
    ScriptPos { script: script.to_string(), index }
}

fn show_text(character: &str, text: &str) -> Emission {
    Emission::ShowText {
        character: character.to_string(),
        text: text.to_string(),
        annotation: None,
        wait: None,
    }
}

#[test]
fn silent_then_blurp_advances_past_it() {
    let scripts = store(vec![("S", vec![action("a"), blurp("X", "hi")])]);
    let (emissions, next) = advance(&pos("S", 0), &scripts);
    assert_eq!(emissions, vec![show_text("X", "hi")]);
    assert_eq!(next, Some(pos("S", 2)));
}

#[test]
fn off_the_end_is_informational_and_final() {
    let scripts = store(vec![("S", vec![action("a"), blurp("X", "hi")])]);
    let (emissions, next) = advance(&pos("S", 2), &scripts);
    assert_eq!(
        emissions,
        vec![Emission::RanOffEnd { script: "S".to_string(), index: 2 }]
    );
    assert_eq!(next, None);
    assert!(emissions[0].is_informational());
    assert!(!emissions[0].is_error());
}

#[test]
fn jump_resumes_at_target_start() {
    let scripts = store(vec![("S", vec![jump("T")]), ("T", vec![blurp("Y", "yo")])]);
    let (emissions, next) = advance(&pos("S", 0), &scripts);
    assert_eq!(
        emissions,
        vec![
            Emission::JumpTaken {
                from_script: "S".to_string(),
                from_index: 0,
                to_script: "T".to_string(),
            },
            show_text("Y", "yo"),
        ]
    );
    assert_eq!(next, Some(pos("T", 1)));
    assert!(emissions[0].is_informational());
    assert!(emissions[1].is_output());
}

#[test]
fn broken_jump_is_an_error_and_final() {
    let scripts = store(vec![("S", vec![jump("Z")])]);
    let (emissions, next) = advance(&pos("S", 0), &scripts);
    assert_eq!(
        emissions,
        vec![Emission::BrokenJump {
            from_script: "S".to_string(),
            from_index: 0,
            target: "Z".to_string(),
        }]
    );
    assert_eq!(next, None);
    assert!(emissions[0].is_error());
    assert!(!emissions[0].is_informational());
}

#[test]
fn choice_is_terminal_like_a_dialogue_line() {
    let scripts = store(vec![(
        "S",
        vec![ScriptItem::Choice(Choice {
            choice: vec![
                ChoiceOption { jump: "T".to_string(), text: "go".to_string() },
                ChoiceOption { jump: "U".to_string(), text: "stay".to_string() },
            ],
        })],
    )]);
    let (emissions, next) = advance(&pos("S", 0), &scripts);
    assert_eq!(
        emissions,
        vec![Emission::OfferChoices {
            options: vec![
                ChoiceOption { jump: "T".to_string(), text: "go".to_string() },
                ChoiceOption { jump: "U".to_string(), text: "stay".to_string() },
            ],
        }]
    );
    assert_eq!(next, Some(pos("S", 1)));
    assert!(emissions[0].is_output());
    assert!(!emissions[0].is_error());
    assert!(!emissions[0].is_informational());
}

#[test]
fn every_silent_variant_falls_through() {
    let scripts = store(vec![(
        "S",
        vec![
            action("a"),
            ScriptItem::AddQuest(AddQuest {
                add_quest_script: "Q".to_string(),
                add_quest_name: "The Quest".to_string(),
            }),
            ScriptItem::Animation(Animation { animation: "wave".to_string() }),
            ScriptItem::Cue(Cue { cue: "drums".to_string() }),
            ScriptItem::End(End { end: "tag".to_string() }),
            ScriptItem::OfferTopics(OfferTopics {
                offer_topics: "news".to_string(),
                exit: true,
            }),
            blurp("X", "done"),
        ],
    )]);
    let (emissions, next) = advance(&pos("S", 0), &scripts);
    assert_eq!(emissions, vec![show_text("X", "done")]);
    assert_eq!(next, Some(pos("S", 7)));
}

#[test]
fn end_marker_is_inert_not_a_halt() {
    let scripts = store(vec![(
        "S",
        vec![ScriptItem::End(End { end: String::new() }), blurp("X", "after end")],
    )]);
    let (emissions, next) = advance(&pos("S", 0), &scripts);
    assert_eq!(emissions, vec![show_text("X", "after end")]);
    assert_eq!(next, Some(pos("S", 2)));
}

#[test]
fn jump_cycle_hits_the_budget_with_an_error() {
    let scripts = store(vec![("S", vec![jump("S")])]);
    let (emissions, next) = advance(&pos("S", 0), &scripts);
    assert_eq!(next, None);
    assert_eq!(emissions.len(), 2);
    assert_eq!(
        emissions[0],
        Emission::JumpTaken {
            from_script: "S".to_string(),
            from_index: 0,
            to_script: "S".to_string(),
        }
    );
    assert_eq!(
        emissions[1],
        Emission::JumpLimit {
            from_script: "S".to_string(),
            from_index: 0,
            target: "S".to_string(),
        }
    );
    assert!(emissions[1].is_error());
}

#[test]
fn long_acyclic_jump_chain_fits_the_budget() {
    let scripts = store(vec![
        ("A", vec![jump("B")]),
        ("B", vec![jump("C")]),
        ("C", vec![blurp("X", "deep")]),
    ]);
    let (emissions, next) = advance(&pos("A", 0), &scripts);
    assert_eq!(next, Some(pos("C", 1)));
    assert_eq!(emissions.len(), 3);
    assert_eq!(emissions[2], show_text("X", "deep"));
}

#[test]
fn unknown_start_script_runs_off_the_end() {
    let scripts = store(vec![("S", vec![blurp("X", "hi")])]);
    let (emissions, next) = advance(&pos("nope", 0), &scripts);
    assert_eq!(
        emissions,
        vec![Emission::RanOffEnd { script: "nope".to_string(), index: 0 }]
    );
    assert_eq!(next, None);
}

#[test]
fn silent_tail_after_jump_runs_off_the_target() {
    let scripts = store(vec![("S", vec![jump("T")]), ("T", vec![action("a")])]);
    let (emissions, next) = advance(&pos("S", 0), &scripts);
    assert_eq!(next, None);
    assert_eq!(emissions.len(), 2);
    assert_eq!(
        emissions[1],
        Emission::RanOffEnd { script: "T".to_string(), index: 1 }
    );
}

#[test]
fn resuming_from_returned_cursor_continues_the_script() {
    let scripts = store(vec![("S", vec![blurp("X", "one"), blurp("X", "two")])]);
    let (first, next) = advance(&pos("S", 0), &scripts);
    assert_eq!(first, vec![show_text("X", "one")]);
    let next = next.unwrap();
    let (second, after) = advance(&next, &scripts);
    assert_eq!(second, vec![show_text("X", "two")]);
    let after = after.unwrap();
    let (third, done) = advance(&after, &scripts);
    assert_eq!(third.len(), 1);
    assert!(third[0].is_informational());
    assert_eq!(done, None);
}

#[test]
fn blurp_metadata_is_forwarded_unchanged() {
    let scripts = store(vec![(
        "S",
        vec![ScriptItem::Blurp(Blurp {
            character: "X".to_string(),
            text: "hi".to_string(),
            annotation: Some("aside".to_string()),
            wait: Some(1500),
        })],
    )]);
    let (emissions, next) = advance(&pos("S", 0), &scripts);
    assert_eq!(
        emissions,
        vec![Emission::ShowText {
            character: "X".to_string(),
            text: "hi".to_string(),
            annotation: Some("aside".to_string()),
            wait: Some(1500),
        }]
    );
    assert_eq!(next, Some(pos("S", 1)));
}
