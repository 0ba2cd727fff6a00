use taberando::client::{Client, LineChannel};
use taberando::jar::{AliasTable, Jar};

#[test]
fn jar_key_for_user() {
    let client = Client::Line(LineChannel::User("42".to_string()));
    let jar = Jar::from_client(&client);
    assert_eq!(jar.0, "user_42");
}

#[test]
fn jar_key_for_group_and_room() {
    let group = Client::Line(LineChannel::Group {
        id: "g1".to_string(),
        user_id: Some("u9".to_string()),
    });
    assert_eq!(Jar::from_client(&group).0, "group_g1");
    let room = Client::Line(LineChannel::Room {
        id: "r7".to_string(),
        user_id: None,
    });
    assert_eq!(Jar::from_client(&room).0, "room_r7");
}

#[test]
fn jar_round_trips_all_three_kinds() {
    let user = Client::Line(LineChannel::User("abc".to_string()));
    match Jar::from_client(&user).line_channel() {
        Ok(LineChannel::User(id)) => assert_eq!(id, "abc"),
        _ => panic!("expected a user channel"),
    }
    let group = Client::Line(LineChannel::Group {
        id: "gid".to_string(),
        user_id: Some("u".to_string()),
    });
    match Jar::from_client(&group).line_channel() {
        Ok(LineChannel::Group { id, user_id }) => {
            assert_eq!(id, "gid");
            assert!(user_id.is_none());
        }
        _ => panic!("expected a group channel"),
    }
    let room = Client::Line(LineChannel::Room {
        id: "rid".to_string(),
        user_id: None,
    });
    match Jar::from_client(&room).line_channel() {
        Ok(LineChannel::Room { id, user_id }) => {
            assert_eq!(id, "rid");
            assert!(user_id.is_none());
        }
        _ => panic!("expected a room channel"),
    }
}

#[test]
fn jar_round_trip_keeps_ids_with_underscores() {
    match Jar::new("user_a_b").line_channel() {
        Ok(LineChannel::User(id)) => assert_eq!(id, "a_b"),
        _ => panic!("expected a user channel"),
    }
}

#[test]
fn jar_without_underscore_is_rejected() {
    assert!(Jar::new("user42").line_channel().is_err());
}

#[test]
fn jar_with_unknown_prefix_is_rejected() {
    assert!(Jar::new("bot_42").line_channel().is_err());
}

#[test]
fn alias_table_overrides_and_falls_through() {
    let table = AliasTable {
        entries: vec![("user_old".to_string(), "user_new".to_string())],
    };
    assert_eq!(table.resolve(Jar::new("user_old")).0, "user_new");
    assert_eq!(table.resolve(Jar::new("user_other")).0, "user_other");
    let empty = AliasTable::empty();
    assert_eq!(empty.resolve(Jar::new("group_1")).0, "group_1");
}
