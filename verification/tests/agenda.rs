use pythia::agenda::{export_caption, export_name, Agenda, MEETINGS, NO_ITEMS, STORE};

fn pair(author: &str, text: &str) -> (String, String) {
    (author.to_string(), text.to_string())
}

fn encode(agenda: &Agenda) -> String {
    let items = serde_json::to_value(agenda.items()).unwrap();
    let mut record = serde_json::Map::new();
    record.insert("items".to_string(), items);
    serde_json::to_string(&serde_json::Value::Object(record)).unwrap()
}

fn decode(text: &str) -> Agenda {
    let items = serde_json::from_str::<serde_json::Value>(text)
        .ok()
        .and_then(|record| record.get("items").cloned())
        .and_then(|items| serde_json::from_value::<Vec<(String, String)>>(items).ok());
    Agenda::restore(items)
}

#[test]
fn new_agenda_is_empty() {
    let agenda = Agenda::new();
    assert!(agenda.is_empty());
    assert!(agenda.items().is_empty());
    assert_eq!(agenda.render_items(), "");
}

#[test]
fn clearing_twice_is_clearing_once() {
    let once = Agenda::new();
    let twice = Agenda::new();
    assert_eq!(once.items(), twice.items());
    assert!(twice.is_empty());
    assert_eq!(Agenda::default().items(), once.items());
}

#[test]
fn push_appends_at_the_tail() {
    let mut agenda = Agenda::new();
    agenda.push("alice".to_string(), "x".to_string());
    assert!(!agenda.is_empty());
    assert_eq!(agenda.items(), &vec![pair("alice", "x")]);
    agenda.push("bob".to_string(), "y".to_string());
    assert_eq!(agenda.items(), &vec![pair("alice", "x"), pair("bob", "y")]);
    agenda.push("alice".to_string(), "x".to_string());
    assert_eq!(agenda.items(), &vec![pair("alice", "x"), pair("bob", "y"), pair("alice", "x")]);
}

#[test]
fn append_order_is_render_order() {
    let mut agenda = Agenda::from_items(Vec::new());
    agenda.push("alice".to_string(), "x".to_string());
    agenda.push("bob".to_string(), "y".to_string());
    let text = agenda.render_items();
    assert_eq!(text, "\n** - alice**\t\tx\n** - bob**\t\ty");
    assert!(text.find("alice").unwrap() < text.find("bob").unwrap());
}

#[test]
fn author_is_stored_without_emphasis() {
    let mut agenda = Agenda::new();
    agenda.push("*al*ice**".to_string(), "*bold* text".to_string());
    assert_eq!(agenda.items(), &vec![pair("alice", "*bold* text")]);
    agenda.push("***".to_string(), "".to_string());
    assert_eq!(agenda.items()[1], pair("", ""));
}

#[test]
fn text_is_never_sanitized() {
    let mut agenda = Agenda::new();
    agenda.push("bob".to_string(), "a * b ** \"c\"\n\td".to_string());
    assert_eq!(agenda.items()[0].1, "a * b ** \"c\"\n\td");
}

#[test]
fn loaded_author_is_shown_without_emphasis() {
    let agenda = Agenda::from_items(vec![pair("a*b", "t*t")]);
    assert_eq!(agenda.items(), &vec![pair("a*b", "t*t")]);
    assert_eq!(agenda.render_items(), "\n** - ab**\t\tt*t");
}

#[test]
fn display_of_an_agenda() {
    let agenda = Agenda::from_items(vec![pair("alice", "budget"), pair("bob", "hiring plan")]);
    assert_eq!(
        agenda.render_for_display("2021-03-04"),
        "**Meeting Agenda 2021-03-04**\n** - alice**\t\tbudget\n** - bob**\t\thiring plan"
    );
}

#[test]
fn display_of_an_empty_agenda() {
    assert_eq!(Agenda::new().render_for_display("2021-03-04"), "**No items recorded** - sorry about that");
    assert_eq!(NO_ITEMS, "**No items recorded** - sorry about that");
}

#[test]
fn export_of_an_agenda() {
    let agenda = Agenda::from_items(vec![pair("alice", "budget"), pair("bob", "hiring plan")]);
    assert_eq!(
        agenda.render_for_export("2021-03-04"),
        "# Meeting Agenda 2021-03-04\n** - alice**\t\tbudget\n** - bob**\t\thiring plan"
    );
}

#[test]
fn export_of_an_empty_agenda() {
    assert_eq!(Agenda::new().render_for_export("2021-03-04"), "**No items recorded** - sorry about that");
}

#[test]
fn rendering_is_deterministic() {
    let agenda = Agenda::from_items(vec![pair("alice", "budget")]);
    assert_eq!(agenda.render_for_export("2021-03-04"), agenda.render_for_export("2021-03-04"));
    assert_eq!(agenda.render_for_display("2021-03-04"), agenda.render_for_display("2021-03-04"));
}

#[test]
fn export_file_and_caption() {
    assert_eq!(export_name("2021-03-04"), "agenda-2021-03-04.md");
    assert_eq!(export_caption("2021-03-04"), "**Meeting Agenda 2021-03-04\n**");
    assert_eq!(STORE, "agenda.json");
    assert_eq!(MEETINGS, "meetings");
}

#[test]
fn durable_encoding_round_trip() {
    let mut agenda = Agenda::new();
    agenda.push("alice".to_string(), "x".to_string());
    agenda.push("bob".to_string(), "quote \" and \\ and \u{e9}\n".to_string());
    agenda.push("".to_string(), "".to_string());
    let stored = encode(&agenda);
    assert!(stored.starts_with("{\"items\":[[\"alice\",\"x\"],[\"bob\","));
    let loaded = decode(&stored);
    assert_eq!(loaded.items(), agenda.items());
    assert_eq!(encode(&loaded), stored);
}

#[test]
fn durable_encoding_of_the_empty_agenda() {
    assert_eq!(encode(&Agenda::new()), "{\"items\":[]}");
    assert!(decode("{\"items\":[]}").is_empty());
}

#[test]
fn restore_fails_open() {
    assert!(Agenda::restore(None).is_empty());
    assert!(Agenda::restore(Some(Vec::new())).is_empty());
    let agenda = Agenda::restore(Some(vec![pair("a*", "x")]));
    assert_eq!(agenda.items(), &vec![pair("a*", "x")]);
}

#[test]
fn corrupt_or_absent_state_loads_as_empty() {
    assert!(decode("").is_empty());
    assert!(decode("{\"items\": 3}").is_empty());
    assert!(decode("not json").is_empty());
}
