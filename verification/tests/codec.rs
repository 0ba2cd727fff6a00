use taberando::coordinates::Coordinates;
use taberando::meal::Meal;
use taberando::user_action::UserAction;

fn coords(latitude: i64, longitude: i64) -> Coordinates {
    Coordinates {
        latitude,
        longitude,
    }
}

#[test]
fn delete_payload_with_query_decodes_coordinates() {
    let decoded = UserAction::from_data("delete_action?lat=35.0&long=139.0");
    assert_eq!(
        decoded,
        Some(UserAction::DeleteCurrent(Some(coords(
            35_000_000,
            139_000_000
        ))))
    );
}

#[test]
fn delete_payload_without_query_decodes_none() {
    let decoded = UserAction::from_data("delete_action");
    assert_eq!(decoded, Some(UserAction::DeleteCurrent(None)));
}

#[test]
fn unknown_payload_is_rejected() {
    assert_eq!(UserAction::from_data("unknown_action"), None);
}

#[test]
fn all_known_paths_decode() {
    assert_eq!(
        UserAction::from_data("lunch_action"),
        Some(UserAction::Draw(Meal::Lunch, None))
    );
    assert_eq!(
        UserAction::from_data("dinner_action"),
        Some(UserAction::Draw(Meal::Dinner, None))
    );
    assert_eq!(
        UserAction::from_data("postpone_action"),
        Some(UserAction::Postpone(None))
    );
    assert_eq!(
        UserAction::from_data("archive_action"),
        Some(UserAction::ArchiveCurrent(None))
    );
    assert_eq!(UserAction::from_data("add_action"), Some(UserAction::Add));
    assert_eq!(
        UserAction::from_data("refresh_action"),
        Some(UserAction::Refresh)
    );
    assert_eq!(
        UserAction::from_data("clear_location_action"),
        Some(UserAction::ClearLocation)
    );
}

#[test]
fn half_given_coordinates_decode_none() {
    assert_eq!(
        UserAction::from_data("postpone_action?lat=35.0"),
        Some(UserAction::Postpone(None))
    );
    assert_eq!(
        UserAction::from_data("postpone_action?lat=35.0&long=x"),
        Some(UserAction::Postpone(None))
    );
}

#[test]
fn later_query_parameters_override_earlier_ones() {
    assert_eq!(
        UserAction::from_data("lunch_action?lat=1&long=2&lat=3"),
        Some(UserAction::Draw(Meal::Lunch, Some(coords(
            3_000_000, 2_000_000
        ))))
    );
}

#[test]
fn draw_payload_encodes_coordinates() {
    let action = UserAction::Draw(Meal::Lunch, Some(coords(35_000_000, 139_000_000)));
    assert_eq!(action.to_data(), "lunch_action?lat=35&long=139");
    let plain = UserAction::Draw(Meal::Dinner, None);
    assert_eq!(plain.to_data(), "dinner_action");
}

#[test]
fn payload_encoding_round_trips() {
    let actions = [
        UserAction::Draw(Meal::Lunch, Some(coords(48_853_410, -2_348_800))),
        UserAction::Draw(Meal::Dinner, None),
        UserAction::Postpone(Some(coords(-1, 1))),
        UserAction::DeleteCurrent(Some(coords(35_500_000, 139_765_400))),
        UserAction::ArchiveCurrent(None),
        UserAction::Add,
        UserAction::Refresh,
        UserAction::ClearLocation,
    ];
    for action in actions {
        assert_eq!(UserAction::from_data(&action.to_data()), Some(action));
    }
}

#[test]
fn labels_match_the_buttons() {
    assert_eq!(UserAction::Draw(Meal::Lunch, None).label(), "🎲 昼");
    assert_eq!(
        UserAction::Draw(Meal::Lunch, Some(coords(1, 1))).label(),
        "🎲 昼📍"
    );
    assert_eq!(UserAction::Draw(Meal::Dinner, None).label(), "🎲 夜");
    assert_eq!(UserAction::Postpone(None).label(), "📅 延");
    assert_eq!(UserAction::DeleteCurrent(None).label(), "❌ 削");
    assert_eq!(UserAction::ArchiveCurrent(None).label(), "✓ 完");
    assert_eq!(UserAction::Add.label(), "+ 加");
    assert_eq!(UserAction::ClearLocation.label(), "消");
}

#[test]
fn decimal_parsing_covers_the_grammar() {
    assert_eq!(
        taberando::coordinates::parse_micro("48.85341"),
        Some(48_853_410)
    );
    assert_eq!(
        taberando::coordinates::parse_micro("-2.34880"),
        Some(-2_348_800)
    );
    assert_eq!(taberando::coordinates::parse_micro("139"), Some(139_000_000));
    assert_eq!(taberando::coordinates::parse_micro("0.0000004"), Some(0));
    assert_eq!(taberando::coordinates::parse_micro("1."), Some(1_000_000));
    assert_eq!(taberando::coordinates::parse_micro(""), None);
    assert_eq!(taberando::coordinates::parse_micro("-"), None);
    assert_eq!(taberando::coordinates::parse_micro("1.2.3"), None);
    assert_eq!(taberando::coordinates::parse_micro("12a"), None);
    assert_eq!(taberando::coordinates::parse_micro("1234567890123"), None);
}

#[test]
fn decimal_rendering_is_canonical() {
    assert_eq!(Coordinates::format_micro(35_000_000), "35");
    assert_eq!(Coordinates::format_micro(48_853_410), "48.85341");
    assert_eq!(Coordinates::format_micro(-2_348_800), "-2.3488");
    assert_eq!(Coordinates::format_micro(0), "0");
    assert_eq!(Coordinates::format_micro(-500_000), "-0.5");
    assert_eq!(Coordinates::format_micro(1), "0.000001");
}
