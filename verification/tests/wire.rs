use rudderanalytics::message::{
    Alias, Batch, BatchMessage, Group, Identify, Kind, Message, Page, Screen, Track,
};
use rudderanalytics::value::{Object, Value};
use rudderanalytics::wire::{
    envelope, merged_context, parse_alias, parse_batch, parse_batch_message, parse_group,
    parse_identify, parse_page, parse_screen, parse_track, type_word,
};

fn text(s: &str) -> Value {
    Value::String(s.to_string())
}

fn object(pairs: Vec<(&str, Value)>) -> Object {
    Object::from_entries(pairs.into_iter().map(|(k, v)| (k.to_string(), v)).collect())
}

fn entries(object: &Object) -> Vec<(String, Value)> {
    let mut all = Vec::new();
    let mut i = 0;
    while let Some((key, value)) = object.entry(i) {
        all.push((key.clone(), value.clone()));
        i += 1;
    }
    assert_eq!(i, object.len());
    all
}

fn fields(pairs: Vec<(&str, Value)>) -> Vec<(String, Value)> {
    pairs.into_iter().map(|(k, v)| (k.to_string(), v)).collect()
}

fn library() -> Value {
    Value::Object(object(vec![("name", text("RudderStack Rust SDK")), ("version", text("0.1.0"))]))
}

fn own_context() -> Value {
    Value::Object(object(vec![("library", library())]))
}

const NOW: &str = "2024-05-06T07:08:09.010Z";

#[test]
fn track_event_with_only_a_user_and_a_name() {
    let track = Track {
        user_id: Some("u1".to_string()),
        event: "Purchased".to_string(),
        context: Some(Object::new()),
        ..Track::default()
    };
    let expected = fields(vec![
        ("userId", text("u1")),
        ("type", text("track")),
        ("event", text("Purchased")),
        ("originalTimestamp", text(NOW)),
        ("sentAt", text(NOW)),
        ("context", own_context()),
        ("channel", text("server")),
    ]);
    assert_eq!(entries(&parse_track(&track, NOW)), expected);
    assert_eq!(entries(&envelope(&Message::Track(track.clone()), NOW)), expected);
    assert_eq!(entries(&parse_batch_message(&BatchMessage::Track(track), NOW)), expected);
}

#[test]
fn identify_event_with_every_field() {
    let traits = Value::Object(object(vec![
        ("plan", text("pro")),
        ("seats", Value::Number(12)),
        ("trial", Value::Bool(false)),
        ("tags", Value::Array(vec![text("a"), Value::Null, Value::Number(-3)])),
    ]));
    let identify = Identify {
        user_id: Some("u1".to_string()),
        anonymous_id: Some("a1".to_string()),
        traits: Some(traits.clone()),
        original_timestamp: Some("2020-01-02T03:04:05Z".to_string()),
        context: Some(object(vec![("ip", text("10.0.0.1")), ("locale", text("en-GB"))])),
        integrations: Some(object(vec![("All", Value::Bool(true))])),
    };
    let expected = fields(vec![
        ("userId", text("u1")),
        ("anonymousId", text("a1")),
        ("type", text("identify")),
        ("traits", traits),
        ("originalTimestamp", text("2020-01-02T03:04:05Z")),
        ("sentAt", text(NOW)),
        ("integrations", Value::Object(object(vec![("All", Value::Bool(true))]))),
        (
            "context",
            Value::Object(object(vec![
                ("library", library()),
                ("ip", text("10.0.0.1")),
                ("locale", text("en-GB")),
            ])),
        ),
        ("channel", text("server")),
    ]);
    assert_eq!(entries(&parse_identify(&identify, NOW)), expected);
    assert_eq!(entries(&envelope(&Message::Identify(identify), NOW)), expected);
}

#[test]
fn identify_event_with_nothing_set() {
    let expected = fields(vec![
        ("type", text("identify")),
        ("originalTimestamp", text(NOW)),
        ("sentAt", text(NOW)),
        ("context", own_context()),
        ("channel", text("server")),
    ]);
    assert_eq!(entries(&parse_identify(&Identify::default(), NOW)), expected);
}

#[test]
fn page_and_screen_carry_name_and_properties() {
    let properties = Value::Object(object(vec![("path", text("/home"))]));
    let page = Page {
        anonymous_id: Some("a1".to_string()),
        name: "Home".to_string(),
        properties: Some(properties.clone()),
        ..Page::default()
    };
    let screen = Screen {
        anonymous_id: Some("a1".to_string()),
        name: "Home".to_string(),
        properties: Some(properties.clone()),
        ..Screen::default()
    };
    let expected = |word: &str| {
        fields(vec![
            ("anonymousId", text("a1")),
            ("type", text(word)),
            ("name", text("Home")),
            ("properties", properties.clone()),
            ("originalTimestamp", text(NOW)),
            ("sentAt", text(NOW)),
            ("context", own_context()),
            ("channel", text("server")),
        ])
    };
    assert_eq!(entries(&parse_page(&page, NOW)), expected("page"));
    assert_eq!(entries(&parse_screen(&screen, NOW)), expected("screen"));
    assert_eq!(entries(&envelope(&Message::Page(page), NOW)), expected("page"));
    assert_eq!(entries(&envelope(&Message::Screen(screen), NOW)), expected("screen"));
}

#[test]
fn group_and_alias_carry_their_ids_and_traits() {
    let traits = Value::Object(object(vec![("size", Value::Number(40))]));
    let group = Group {
        user_id: Some("u1".to_string()),
        group_id: "g1".to_string(),
        traits: Some(traits.clone()),
        ..Group::default()
    };
    let alias = Alias {
        user_id: Some("u1".to_string()),
        previous_id: "old".to_string(),
        traits: Some(traits.clone()),
        ..Alias::default()
    };
    let expected = |word: &str, key: &str, id: &str| {
        fields(vec![
            ("userId", text("u1")),
            ("type", text(word)),
            (key, text(id)),
            ("traits", traits.clone()),
            ("originalTimestamp", text(NOW)),
            ("sentAt", text(NOW)),
            ("context", own_context()),
            ("channel", text("server")),
        ])
    };
    assert_eq!(entries(&parse_group(&group, NOW)), expected("group", "groupId", "g1"));
    assert_eq!(entries(&parse_alias(&alias, NOW)), expected("alias", "previousId", "old"));
    assert_eq!(entries(&envelope(&Message::Group(group), NOW)), expected("group", "groupId", "g1"));
    assert_eq!(
        entries(&envelope(&Message::Alias(alias), NOW)),
        expected("alias", "previousId", "old")
    );
}

#[test]
fn alias_without_identity_or_context() {
    let alias = Alias { previous_id: "old".to_string(), ..Alias::default() };
    let expected = fields(vec![
        ("type", text("alias")),
        ("previousId", text("old")),
        ("originalTimestamp", text(NOW)),
        ("sentAt", text(NOW)),
        ("context", own_context()),
        ("channel", text("server")),
    ]);
    assert_eq!(entries(&parse_alias(&alias, NOW)), expected);
}

#[test]
fn batch_holds_each_event_in_the_shape_it_has_alone() {
    let first = Track {
        user_id: Some("u1".to_string()),
        event: "Viewed".to_string(),
        ..Track::default()
    };
    let second = Identify {
        anonymous_id: Some("a1".to_string()),
        original_timestamp: Some("2020-01-02T03:04:05Z".to_string()),
        ..Identify::default()
    };
    let batch = Batch {
        batch: vec![BatchMessage::Track(first.clone()), BatchMessage::Identify(second.clone())],
        context: Some(object(vec![("ip", text("10.0.0.1"))])),
        ..Batch::default()
    };
    let expected = fields(vec![
        ("type", text("batch")),
        (
            "batch",
            Value::Array(vec![
                Value::Object(parse_track(&first, NOW)),
                Value::Object(parse_identify(&second, NOW)),
            ]),
        ),
        ("originalTimestamp", text(NOW)),
        ("sentAt", text(NOW)),
        (
            "context",
            Value::Object(object(vec![("library", library()), ("ip", text("10.0.0.1"))])),
        ),
        ("channel", text("server")),
    ]);
    assert_eq!(entries(&parse_batch(&batch, NOW)), expected);
    assert_eq!(entries(&envelope(&Message::Batch(batch), NOW)), expected);
}

#[test]
fn empty_batch_has_an_empty_list() {
    let expected = fields(vec![
        ("type", text("batch")),
        ("batch", Value::Array(vec![])),
        ("originalTimestamp", text(NOW)),
        ("sentAt", text(NOW)),
        ("context", own_context()),
        ("channel", text("server")),
    ]);
    assert_eq!(entries(&parse_batch(&Batch::default(), NOW)), expected);
}

#[test]
fn context_begins_with_the_library_and_keeps_the_callers_order() {
    assert_eq!(entries(&merged_context(&None)), fields(vec![("library", library())]));
    assert_eq!(
        entries(&merged_context(&Some(Object::new()))),
        fields(vec![("library", library())])
    );
    let given = object(vec![("z", Value::Number(1)), ("a", Value::Number(2)), ("m", Value::Null)]);
    assert_eq!(
        entries(&merged_context(&Some(given))),
        fields(vec![
            ("library", library()),
            ("z", Value::Number(1)),
            ("a", Value::Number(2)),
            ("m", Value::Null),
        ])
    );
}

#[test]
fn an_entry_under_a_reserved_key_is_not_taken_over() {
    let given = object(vec![("ip", text("10.0.0.1")), ("library", text("mine")), ("os", text("x"))]);
    assert_eq!(
        entries(&merged_context(&Some(given.clone()))),
        fields(vec![("library", library()), ("ip", text("10.0.0.1")), ("os", text("x"))])
    );
    let inside = Identify {
        user_id: Some("u1".to_string()),
        context: Some(given),
        ..Identify::default()
    };
    let sent = parse_batch_message(&BatchMessage::Identify(inside), NOW);
    assert_eq!(
        sent.get("context"),
        Some(&Value::Object(object(vec![
            ("library", library()),
            ("ip", text("10.0.0.1")),
            ("os", text("x")),
        ])))
    );
}

#[test]
fn kinds_have_their_words() {
    assert_eq!(type_word(Kind::Identify), "identify");
    assert_eq!(type_word(Kind::Track), "track");
    assert_eq!(type_word(Kind::Page), "page");
    assert_eq!(type_word(Kind::Screen), "screen");
    assert_eq!(type_word(Kind::Group), "group");
    assert_eq!(type_word(Kind::Alias), "alias");
    assert_eq!(type_word(Kind::Batch), "batch");
}

#[test]
fn formatting_leaves_the_message_as_it_was() {
    let message = Message::Track(Track {
        user_id: Some("u1".to_string()),
        event: "Purchased".to_string(),
        properties: Some(Value::Array(vec![Value::Number(1)])),
        context: Some(object(vec![("ip", text("10.0.0.1"))])),
        ..Track::default()
    });
    let before = message.clone();
    let first = envelope(&message, NOW);
    let second = envelope(&message, NOW);
    assert_eq!(first, second);
    assert_eq!(message, before);
}
