use dialogue_script::topic_list::TopicList;

fn sorted(items: &Vec<String>) -> Vec<String> {
    let mut copy = items.clone();
    copy.sort();
    copy
}

#[test]
fn a_new_list_has_no_topics() {
    let topics = TopicList::new();
    assert_eq!(topics.get("weather"), None);
}

#[test]
fn inserting_creates_the_topic() {
    let mut topics = TopicList::new();
    topics.insert_item_in_topic("weather", "rain".to_string());
    assert_eq!(topics.get("weather"), Some(&vec!["rain".to_string()]));
}

#[test]
fn inserting_the_same_item_twice_keeps_one() {
    let mut topics = TopicList::new();
    topics.insert_item_in_topic("weather", "rain".to_string());
    topics.insert_item_in_topic("weather", "rain".to_string());
    assert_eq!(topics.get("weather"), Some(&vec!["rain".to_string()]));
}

#[test]
fn a_topic_collects_distinct_items() {
    let mut topics = TopicList::new();
    topics.insert_item_in_topic("weather", "rain".to_string());
    topics.insert_item_in_topic("weather", "sun".to_string());
    topics.insert_item_in_topic("news", "flood".to_string());
    let weather = topics.get("weather").unwrap();
    assert_eq!(sorted(weather), vec!["rain".to_string(), "sun".to_string()]);
    assert_eq!(topics.get("news"), Some(&vec!["flood".to_string()]));
}

#[test]
fn add_topic_replaces_and_returns_the_previous_items() {
    let mut topics = TopicList::new();
    let first = topics.add_topic("weather".to_string(), vec!["rain".to_string()]);
    assert_eq!(first, None);
    let second = topics.add_topic(
        "weather".to_string(),
        vec!["sun".to_string(), "wind".to_string()],
    );
    assert_eq!(second, Some(vec!["rain".to_string()]));
    let weather = topics.get("weather").unwrap();
    assert_eq!(sorted(weather), vec!["sun".to_string(), "wind".to_string()]);
}

#[test]
fn add_topic_collapses_duplicate_items() {
    let mut topics = TopicList::new();
    topics.add_topic(
        "weather".to_string(),
        vec!["rain".to_string(), "rain".to_string(), "sun".to_string()],
    );
    let weather = topics.get("weather").unwrap();
    assert_eq!(sorted(weather), vec!["rain".to_string(), "sun".to_string()]);
}

#[test]
fn remove_item_reports_whether_it_was_there() {
    let mut topics = TopicList::new();
    topics.insert_item_in_topic("weather", "rain".to_string());
    topics.insert_item_in_topic("weather", "sun".to_string());
    assert!(topics.remove_item("weather", "rain"));
    assert!(!topics.remove_item("weather", "rain"));
    assert!(!topics.remove_item("news", "flood"));
    assert_eq!(topics.get("weather"), Some(&vec!["sun".to_string()]));
}

#[test]
fn removing_the_last_item_keeps_the_empty_topic() {
    let mut topics = TopicList::new();
    topics.insert_item_in_topic("weather", "rain".to_string());
    assert!(topics.remove_item("weather", "rain"));
    assert_eq!(topics.get("weather"), Some(&Vec::new()));
}

#[test]
fn remove_topic_returns_its_items() {
    let mut topics = TopicList::new();
    topics.insert_item_in_topic("weather", "rain".to_string());
    let removed = topics.remove_topic("weather");
    assert_eq!(removed, Some(vec!["rain".to_string()]));
    assert_eq!(topics.get("weather"), None);
    assert_eq!(topics.remove_topic("weather"), None);
}
