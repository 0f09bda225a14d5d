use dialogue_script::decode::{decode, load, DecodeError, LoadError, RawInstruction};
use dialogue_script::script::{
    Action, AddQuest, Animation, Blurp, Choice, ChoiceOption, Cue, End, Jump, OfferTopics,
    ScriptItem,
};

fn raw() -> RawInstruction {
    RawInstruction::default()
}

#[test]
fn action_shape_decodes() {
    let mut r = raw();
    r.action = Some("wave".to_string());
    assert_eq!(
        decode(&r),
        Ok(ScriptItem::Action(Action { action: "wave".to_string() }))
    );
}

#[test]
fn add_quest_shape_decodes() {
    let mut r = raw();
    r.add_quest_script = Some("Q1".to_string());
    r.add_quest_name = Some("The Quest".to_string());
    assert_eq!(
        decode(&r),
        Ok(ScriptItem::AddQuest(AddQuest {
            add_quest_script: "Q1".to_string(),
            add_quest_name: "The Quest".to_string(),
        }))
    );
}

#[test]
fn animation_shape_decodes() {
    let mut r = raw();
    r.animation = Some("bow".to_string());
    assert_eq!(
        decode(&r),
        Ok(ScriptItem::Animation(Animation { animation: "bow".to_string() }))
    );
}

#[test]
fn blurp_shape_decodes_with_optional_fields() {
    let mut r = raw();
    r.character = Some("X".to_string());
    r.text = Some("hi".to_string());
    r.annotation = Some("aside".to_string());
    r.wait = Some(250);
    assert_eq!(
        decode(&r),
        Ok(ScriptItem::Blurp(Blurp {
            character: "X".to_string(),
            text: "hi".to_string(),
            annotation: Some("aside".to_string()),
            wait: Some(250),
        }))
    );
}

#[test]
fn blurp_shape_decodes_without_optional_fields() {
    let mut r = raw();
    r.character = Some("X".to_string());
    r.text = Some("hi".to_string());
    assert_eq!(
        decode(&r),
        Ok(ScriptItem::Blurp(Blurp {
            character: "X".to_string(),
            text: "hi".to_string(),
            annotation: None,
            wait: None,
        }))
    );
}

#[test]
fn choice_shape_decodes() {
    let mut r = raw();
    r.choice = Some(vec![ChoiceOption { jump: "T".to_string(), text: "go".to_string() }]);
    assert_eq!(
        decode(&r),
        Ok(ScriptItem::Choice(Choice {
            choice: vec![ChoiceOption { jump: "T".to_string(), text: "go".to_string() }],
        }))
    );
}

#[test]
fn cue_shape_decodes() {
    let mut r = raw();
    r.cue = Some("drums".to_string());
    assert_eq!(decode(&r), Ok(ScriptItem::Cue(Cue { cue: "drums".to_string() })));
}

#[test]
fn end_shape_decodes() {
    let mut r = raw();
    r.end = Some("fin".to_string());
    assert_eq!(decode(&r), Ok(ScriptItem::End(End { end: "fin".to_string() })));
}

#[test]
fn jump_shape_decodes() {
    let mut r = raw();
    r.jump = Some("T".to_string());
    assert_eq!(decode(&r), Ok(ScriptItem::Jump(Jump { jump: "T".to_string() })));
}

#[test]
fn offer_topics_shape_decodes() {
    let mut r = raw();
    r.offer_topics = Some("news".to_string());
    r.exit = Some(false);
    assert_eq!(
        decode(&r),
        Ok(ScriptItem::OfferTopics(OfferTopics {
            offer_topics: "news".to_string(),
            exit: false,
        }))
    );
}

#[test]
fn no_fields_matches_no_shape() {
    assert_eq!(decode(&raw()), Err(DecodeError::NoShape));
}

#[test]
fn half_an_add_quest_matches_no_shape() {
    let mut r = raw();
    r.add_quest_script = Some("Q1".to_string());
    assert_eq!(decode(&r), Err(DecodeError::NoShape));
}

#[test]
fn offer_topics_without_exit_matches_no_shape() {
    let mut r = raw();
    r.offer_topics = Some("news".to_string());
    assert_eq!(decode(&r), Err(DecodeError::NoShape));
}

#[test]
fn character_without_text_matches_no_shape() {
    let mut r = raw();
    r.character = Some("X".to_string());
    assert_eq!(decode(&r), Err(DecodeError::NoShape));
}

#[test]
fn two_shapes_at_once_are_ambiguous() {
    let mut r = raw();
    r.action = Some("wave".to_string());
    r.cue = Some("drums".to_string());
    assert_eq!(decode(&r), Err(DecodeError::ManyShapes));
}

#[test]
fn jump_beside_a_blurp_is_ambiguous() {
    let mut r = raw();
    r.character = Some("X".to_string());
    r.text = Some("hi".to_string());
    r.jump = Some("T".to_string());
    assert_eq!(decode(&r), Err(DecodeError::ManyShapes));
}

#[test]
fn stray_optional_fields_do_not_block_a_shape() {
    // annotation belongs to no required-field set, so a lone action still
    // matches exactly one shape.
    let mut r = raw();
    r.action = Some("wave".to_string());
    r.annotation = Some("stray".to_string());
    assert_eq!(
        decode(&r),
        Ok(ScriptItem::Action(Action { action: "wave".to_string() }))
    );
}

#[test]
fn load_builds_a_store_with_every_script() {
    let mut first = raw();
    first.action = Some("a".to_string());
    let mut second = raw();
    second.character = Some("X".to_string());
    second.text = Some("hi".to_string());
    let mut other = raw();
    other.jump = Some("S".to_string());
    let def = vec![
        ("S".to_string(), vec![first, second]),
        ("T".to_string(), vec![other]),
    ];
    let scripts = load(def).unwrap();
    assert!(scripts.has_script("S"));
    assert!(scripts.has_script("T"));
    assert!(!scripts.has_script("U"));
    assert_eq!(
        scripts.get_item("S", 0),
        Some(&ScriptItem::Action(Action { action: "a".to_string() }))
    );
    assert_eq!(
        scripts.get_item("S", 1),
        Some(&ScriptItem::Blurp(Blurp {
            character: "X".to_string(),
            text: "hi".to_string(),
            annotation: None,
            wait: None,
        }))
    );
    assert_eq!(
        scripts.get_item("T", 0),
        Some(&ScriptItem::Jump(Jump { jump: "S".to_string() }))
    );
    assert_eq!(scripts.get_item("S", 2), None);
    let mut names = scripts.keys();
    names.sort();
    assert_eq!(names, vec!["S".to_string(), "T".to_string()]);
}

#[test]
fn load_reports_the_bad_instruction() {
    let mut good = raw();
    good.cue = Some("drums".to_string());
    let bad = raw();
    let def = vec![("S".to_string(), vec![good, bad])];
    match load(def) {
        Err(e) => assert_eq!(
            e,
            LoadError::BadInstruction {
                script: "S".to_string(),
                index: 1,
                error: DecodeError::NoShape,
            }
        ),
        Ok(_) => panic!("a shapeless instruction was accepted"),
    }
}

#[test]
fn load_reports_a_duplicated_script_name() {
    let mut first = raw();
    first.cue = Some("a".to_string());
    let mut second = raw();
    second.cue = Some("b".to_string());
    let def = vec![
        ("S".to_string(), vec![first]),
        ("S".to_string(), vec![second]),
    ];
    match load(def) {
        Err(e) => assert_eq!(e, LoadError::DuplicateScript { script: "S".to_string() }),
        Ok(_) => panic!("a duplicated name was accepted"),
    }
}
