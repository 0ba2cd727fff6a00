use taberando::client::{Client, LineChannel};
use taberando::dispatch::Action;
use taberando::message::MessageContent;
use taberando::meal::Meal;
use taberando::webhook::{
    form_to_action, message_to_action, parse_webhook_events, Event, EventSource, Payload,
    Postback,
};

fn user_source(id: &str) -> EventSource {
    EventSource {
        source_type: "user".to_string(),
        user_id: Some(id.to_string()),
        room_id: None,
        group_id: None,
    }
}

fn text_event(source: EventSource, text: &str) -> Event {
    Event {
        event_type: "message".to_string(),
        mode: "active".to_string(),
        source,
        postback: None,
        message: Some(MessageContent::text(text)),
    }
}

fn postback_event(source: EventSource, data: &str) -> Event {
    Event {
        event_type: "postback".to_string(),
        mode: "active".to_string(),
        source,
        postback: Some(Postback {
            data: data.to_string(),
        }),
        message: None,
    }
}

#[test]
fn source_descriptors_map_to_channels() {
    match user_source("u1").to_client() {
        Some(Client::Line(LineChannel::User(id))) => assert_eq!(id, "u1"),
        _ => panic!("expected a user channel"),
    }
    let group = EventSource {
        source_type: "group".to_string(),
        user_id: Some("u1".to_string()),
        room_id: None,
        group_id: Some("g1".to_string()),
    };
    match group.to_client() {
        Some(Client::Line(LineChannel::Group { id, user_id })) => {
            assert_eq!(id, "g1");
            assert_eq!(user_id.as_deref(), Some("u1"));
        }
        _ => panic!("expected a group channel"),
    }
    let unknown = EventSource {
        source_type: "bot".to_string(),
        user_id: Some("u1".to_string()),
        room_id: None,
        group_id: None,
    };
    assert!(unknown.to_client().is_none());
    let incomplete = EventSource {
        source_type: "user".to_string(),
        user_id: None,
        room_id: None,
        group_id: None,
    };
    assert!(incomplete.to_client().is_none());
}

#[test]
fn text_commands_are_folded_and_trimmed() {
    let refresh = message_to_action(&text_event(user_source("u"), "refresh"));
    assert!(matches!(refresh, Some(Action::Refresh(_))));
    let shouted = message_to_action(&text_event(user_source("u"), "REFRESH"));
    assert!(matches!(shouted, Some(Action::Refresh(_))));
    let padded = message_to_action(&text_event(user_source("u"), "  whoami \n"));
    assert!(matches!(padded, Some(Action::WhoAmI(_))));
    let japanese = message_to_action(&text_event(user_source("u"), "更新"));
    assert!(matches!(japanese, Some(Action::Refresh(_))));
    let chatter = message_to_action(&text_event(user_source("u"), "hello"));
    assert!(chatter.is_none());
}

#[test]
fn location_messages_become_location_actions() {
    let mut message = MessageContent::text("");
    message.message_type = "location".to_string();
    message.latitude = Some(35_000_000);
    message.longitude = Some(139_000_000);
    let event = Event {
        event_type: "message".to_string(),
        mode: "active".to_string(),
        source: user_source("u"),
        postback: None,
        message: Some(message),
    };
    match message_to_action(&event) {
        Some(Action::Location(_, c)) => {
            assert_eq!(c.latitude, 35_000_000);
            assert_eq!(c.longitude, 139_000_000);
        }
        _ => panic!("expected a location action"),
    }
}

#[test]
fn postback_events_decode_to_actions() {
    let events = vec![
        postback_event(user_source("u"), "lunch_action"),
        postback_event(user_source("u"), "delete_action?lat=35.0&long=139.0"),
        postback_event(user_source("u"), "unknown_action"),
        postback_event(user_source("u"), "add_action"),
    ];
    let payload = Payload {
        destination: "bot".to_string(),
        events,
    };
    let actions = parse_webhook_events(&payload);
    assert_eq!(actions.len(), 2);
    assert!(matches!(actions[0], Action::Draw(_, _, None)));
    match &actions[1] {
        Action::RemoveCurrent(_, Some(c)) => {
            assert_eq!(c.latitude, 35_000_000);
            assert_eq!(c.longitude, 139_000_000);
        }
        other => panic!("expected a remove action, got {other:?}"),
    }
}

#[test]
fn form_submissions_become_add_actions() {
    match form_to_action("group", "g1", "curry house", "both") {
        Some(Action::Add(Client::Line(LineChannel::Group { id, .. }), place, meals)) => {
            assert_eq!(id, "g1");
            assert_eq!(place, "curry house");
            assert_eq!(meals, vec![Meal::Lunch, Meal::Dinner]);
        }
        other => panic!("expected an add action, got {other:?}"),
    }
    match form_to_action("user", "u1", "soba stand", "lunch") {
        Some(Action::Add(_, _, meals)) => assert_eq!(meals, vec![Meal::Lunch]),
        other => panic!("expected an add action, got {other:?}"),
    }
    assert!(form_to_action("bot", "x", "p", "lunch").is_none());
    assert!(form_to_action("user", "x", "p", "brunch").is_none());
}

#[test]
fn inactive_and_unknown_events_are_dropped() {
    let mut standby = text_event(user_source("u"), "refresh");
    standby.mode = "standby".to_string();
    let mut join = text_event(user_source("u"), "refresh");
    join.event_type = "join".to_string();
    let payload = Payload {
        destination: "bot".to_string(),
        events: vec![standby, join, text_event(user_source("u"), "refresh")],
    };
    let actions = parse_webhook_events(&payload);
    assert_eq!(actions.len(), 1);
    assert!(matches!(actions[0], Action::Refresh(_)));
}
