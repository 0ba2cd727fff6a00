use taberando::client::{Client, LineChannel};
use taberando::coordinates::Coordinates;
use taberando::dispatch::{
    self, error_outbound, handle_action, Action, Outbound,
};
use taberando::meal::Meal;
use taberando::store::JarStore;

fn user_client(id: &str) -> Client {
    Client::Line(LineChannel::User(id.to_string()))
}

fn message_text(out: &Outbound) -> &str {
    out.message.text.as_deref().expect("a text body")
}

fn reply_labels(out: &Outbound) -> Vec<String> {
    out.message
        .quick_replies
        .as_ref()
        .expect("buttons")
        .items
        .iter()
        .map(|q| q.action.label.clone())
        .collect()
}

#[test]
fn empty_lunch_slot_draws_nothing_and_says_so() {
    let mut jar = JarStore::new();
    let client = user_client("42");
    let out = dispatch::try_draw(&mut jar, &client, "host", Meal::Lunch, None, None, 0);
    assert_eq!(out.len(), 1);
    assert_eq!(out[0].to, "42");
    assert_eq!(message_text(&out[0]), "何も出ませんでした");
    assert!(jar.get_current_draw().is_none());
}

#[test]
fn empty_candidates_near_an_origin_use_the_nearby_variant() {
    let mut jar = JarStore::new();
    jar.add_place("r1", "Ramen-Ya", &vec![Meal::Lunch]);
    let client = user_client("42");
    let origin = Coordinates {
        latitude: 35_000_000,
        longitude: 139_000_000,
    };
    let dists: Vec<(String, u64)> = Vec::new();
    let out = dispatch::try_draw(
        &mut jar,
        &client,
        "host",
        Meal::Lunch,
        Some(origin),
        Some(&dists),
        0,
    );
    assert_eq!(out.len(), 1);
    assert_eq!(message_text(&out[0]), "指定位置の近くに店ありません");
}

#[test]
fn a_successful_draw_is_announced_with_draw_buttons() {
    let mut jar = JarStore::new();
    jar.add_place("k1", "shop one", &vec![Meal::Lunch]);
    let client = user_client("42");
    let out = dispatch::try_draw(&mut jar, &client, "host", Meal::Lunch, None, None, 5);
    assert_eq!(out.len(), 1);
    assert_eq!(message_text(&out[0]), "「shop one」が出ました");
    let labels = reply_labels(&out[0]);
    assert_eq!(labels, vec!["+ 加", "✓ 完", "📅 延", "❌ 削"]);
    assert_eq!(jar.get_current_draw().expect("current").key, "k1");
}

#[test]
fn a_second_draw_only_repeats_the_current_one() {
    let mut jar = JarStore::new();
    jar.add_place("k1", "shop one", &vec![Meal::Lunch]);
    let client = user_client("42");
    dispatch::try_draw(&mut jar, &client, "host", Meal::Lunch, None, None, 0);
    let out = dispatch::try_draw(&mut jar, &client, "host", Meal::Lunch, None, None, 0);
    assert_eq!(out.len(), 1);
    assert_eq!(message_text(&out[0]), "「shop one」が既に出ています");
    assert_eq!(jar.get_current_draw().expect("kept").key, "k1");
}

#[test]
fn postpone_announces_and_keeps_the_place() {
    let mut jar = JarStore::new();
    jar.add_place("k1", "shop one", &vec![Meal::Lunch]);
    jar.update_current_draw("k1");
    let client = user_client("42");
    let out = dispatch::postpone(&mut jar, &client, "host", None);
    assert_eq!(out.len(), 1);
    assert_eq!(message_text(&out[0]), "shop oneを延期しました");
    assert!(jar.get_current_draw().is_none());
    assert_eq!(jar.get_list_of_places_keys(Meal::Lunch).len(), 1);
}

#[test]
fn postpone_without_a_draw_sends_nothing() {
    let mut jar = JarStore::new();
    let client = user_client("42");
    let out = dispatch::postpone(&mut jar, &client, "host", None);
    assert!(out.is_empty());
}

#[test]
fn delete_and_archive_texts_differ() {
    let client = user_client("42");
    let mut jar = JarStore::new();
    jar.add_place("k1", "shop one", &vec![Meal::Lunch]);
    jar.update_current_draw("k1");
    let out = dispatch::delete_current(&mut jar, &client, "host", None, false);
    assert_eq!(message_text(&out[0]), "「shop one」を削除しました");
    assert!(jar.get_list_of_places_keys(Meal::Lunch).is_empty());
    let mut jar2 = JarStore::new();
    jar2.add_place("k1", "shop one", &vec![Meal::Lunch]);
    jar2.update_current_draw("k1");
    let out2 = dispatch::delete_current(&mut jar2, &client, "host", None, true);
    assert_eq!(message_text(&out2[0]), "「shop one」は完食になりました");
}

#[test]
fn refresh_reports_the_pending_state() {
    let client = user_client("42");
    let mut jar = JarStore::new();
    let idle = dispatch::refresh(&jar, &client, "host");
    assert_eq!(message_text(&idle[0]), "無予定");
    jar.add_place("k1", "shop one", &vec![Meal::Lunch]);
    jar.update_current_draw("k1");
    let active = dispatch::refresh(&jar, &client, "host");
    assert_eq!(message_text(&active[0]), "予定中:shop one");
}

#[test]
fn whoami_answers_the_acting_member() {
    let out = dispatch::whoami(&user_client("u77"));
    assert_eq!(out.len(), 1);
    assert_eq!(out[0].to, "u77");
    assert_eq!(message_text(&out[0]), "u77");
    let silent = dispatch::whoami(&Client::Line(LineChannel::Group {
        id: "g".to_string(),
        user_id: None,
    }));
    assert!(silent.is_empty());
}

#[test]
fn add_flow_registers_and_geocodes() {
    let mut jar = JarStore::new();
    let client = user_client("42");
    let geocoded = Some(Coordinates {
        latitude: 35_000_000,
        longitude: 139_000_000,
    });
    let out = dispatch::add_place_flow(
        &mut jar,
        &client,
        "host",
        "new shop",
        &vec![Meal::Lunch],
        "fresh",
        geocoded,
    );
    assert_eq!(out.len(), 2);
    assert_eq!(message_text(&out[0]), "新しい店が追加されました");
    assert_eq!(message_text(&out[1]), "店の位置は見つかりました。");
    assert_eq!(
        jar.get_place_coordinates("fresh"),
        Some(Coordinates {
            latitude: 35_000_000,
            longitude: 139_000_000,
        })
    );
}

#[test]
fn add_flow_reports_a_geocoding_miss_to_the_member() {
    let mut jar = JarStore::new();
    let client = user_client("42");
    let out = dispatch::add_place_flow(
        &mut jar,
        &client,
        "host",
        "new shop",
        &vec![Meal::Dinner],
        "fresh",
        None,
    );
    assert_eq!(out.len(), 2);
    assert_eq!(message_text(&out[0]), "新しい店が追加されました");
    assert_eq!(out[1].to, "42");
    assert_eq!(
        message_text(&out[1]),
        "new shopの位置は見つかりませんでした。"
    );
    assert!(jar.get_place_coordinates("fresh").is_none());
}

#[test]
fn location_updates_thread_the_coordinates_into_the_buttons() {
    let client = user_client("42");
    let coords = Coordinates {
        latitude: 35_500_000,
        longitude: 139_765_400,
    };
    let out = dispatch::update_location(&client, "host", coords);
    assert_eq!(message_text(&out[0]), "位置取得済み");
    let items = &out[0].message.quick_replies.as_ref().expect("buttons").items;
    let lunch_data = items[1].action.data.as_deref().expect("postback data");
    assert_eq!(lunch_data, "lunch_action?lat=35.5&long=139.7654");
    let cleared = dispatch::clear_location(&client, "host");
    assert_eq!(message_text(&cleared[0]), "位置を消しました");
    let idle_items = &cleared[0]
        .message
        .quick_replies
        .as_ref()
        .expect("buttons")
        .items;
    assert_eq!(idle_items[1].action.data.as_deref(), Some("lunch_action"));
}

#[test]
fn add_uri_button_deep_links_into_the_form() {
    let client = user_client("42");
    let out = dispatch::clear_location(&client, "host.example");
    let items = &out[0].message.quick_replies.as_ref().expect("buttons").items;
    assert_eq!(items[0].action.quick_reply_action_type, "uri");
    assert_eq!(
        items[0].action.uri.as_deref(),
        Some("https://host.example/line/draw?source=line&source_type=user&source_id=42")
    );
}

#[test]
fn backend_failures_render_as_error_text() {
    let client = user_client("42");
    let out = error_outbound(&client, "Network { code: 500 }");
    assert_eq!(out.len(), 1);
    assert_eq!(message_text(&out[0]), "Error Network { code: 500 }");
}

#[test]
fn handle_action_dispatches_by_intent() {
    let mut jar = JarStore::new();
    jar.add_place("k1", "shop one", &vec![Meal::Lunch]);
    let draw = Action::Draw(user_client("42"), Meal::Lunch, None);
    let out = handle_action(&mut jar, "host", &draw, "", None, None, 0);
    assert_eq!(message_text(&out[0]), "「shop one」が出ました");
    let postpone = Action::PostponeCurrent(user_client("42"), None);
    let out2 = handle_action(&mut jar, "host", &postpone, "", None, None, 0);
    assert_eq!(message_text(&out2[0]), "shop oneを延期しました");
    let whoami = Action::WhoAmI(user_client("42"));
    let out3 = handle_action(&mut jar, "host", &whoami, "", None, None, 0);
    assert_eq!(message_text(&out3[0]), "42");
}
