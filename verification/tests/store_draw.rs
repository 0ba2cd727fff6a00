use taberando::coordinates::Coordinates;
use taberando::jar::Jar;
use taberando::meal::Meal;
use taberando::store::{self, JarStore, Place};

fn coords(latitude: i64, longitude: i64) -> Coordinates {
    Coordinates {
        latitude,
        longitude,
    }
}

#[test]
fn it_draw_meal() {
    let mut jar = JarStore::new();
    jar.add_place("k1", "shop one", &vec![Meal::Lunch]);
    let drawn = jar.draw(Meal::Lunch, None, 0);
    let place = drawn.expect("one lunch candidate must be drawn");
    assert_eq!(place.key, "k1");
    assert_eq!(place.name, "shop one");
}

#[test]
fn it_postpones_meal() {
    let mut jar = JarStore::new();
    jar.add_place("k1", "shop one", &vec![Meal::Lunch]);
    jar.draw(Meal::Lunch, None, 0).expect("a draw");
    jar.remove_drawn_place(None);
    assert!(jar.get_current_draw().is_none());
    // The place stays eligible for future draws.
    let again = jar.draw(Meal::Lunch, None, 1).expect("still eligible");
    assert_eq!(again.key, "k1");
}

#[test]
fn it_adds_place() {
    let mut jar = JarStore::new();
    let place = jar.add_place("key3", "test_name3", &vec![Meal::Dinner, Meal::Lunch]);
    assert_eq!(place.name, "test_name3");
    assert_eq!(place.key, "key3");
    assert_eq!(jar.get_list_of_places_keys(Meal::Lunch).len(), 1);
    assert_eq!(jar.get_list_of_places_keys(Meal::Dinner).len(), 1);
    assert_eq!(
        jar.get_current_draw_name("key3").as_deref(),
        Some("test_name3")
    );
}

#[test]
fn it_deletes_place() {
    let mut jar = JarStore::new();
    let place = jar.add_place("key2", "test_name2", &vec![Meal::Dinner, Meal::Lunch]);
    jar.set_place_coordinates(&place, coords(35_000_000, 139_000_000));
    let removed = jar.delete_place(&place);
    assert_eq!(removed.name, "test_name2");
    assert!(jar.get_list_of_places_keys(Meal::Lunch).is_empty());
    assert!(jar.get_list_of_places_keys(Meal::Dinner).is_empty());
    assert!(jar.get_current_draw_name("key2").is_none());
    assert!(jar.get_place_coordinates("key2").is_none());
    assert!(jar.get_place_entry("key2").is_none());
}

#[test]
fn add_then_delete_leaves_no_trace() {
    let mut jar = JarStore::new();
    jar.add_place("stay", "keeper", &vec![Meal::Lunch]);
    let place = jar.add_place("gone", "deleted", &vec![Meal::Lunch, Meal::Dinner]);
    jar.set_place_coordinates(&place, coords(1, 2));
    jar.delete_place(&place);
    assert!(jar.get_place_entry("gone").is_none());
    assert!(jar.get_current_draw_name("gone").is_none());
    assert!(jar.get_place_coordinates("gone").is_none());
    assert_eq!(jar.get_list_of_places_keys(Meal::Lunch).len(), 1);
    assert_eq!(jar.get_list_of_places_keys(Meal::Lunch)[0], "stay");
    assert!(jar.get_list_of_places_keys(Meal::Dinner).is_empty());
}

#[test]
fn draw_only_picks_from_the_requested_meal() {
    let mut jar = JarStore::new();
    jar.add_place("d1", "dinner only", &vec![Meal::Dinner]);
    assert!(jar.draw(Meal::Lunch, None, 0).is_none());
    for pick in 0..7usize {
        let place = jar.draw(Meal::Dinner, None, pick).expect("a candidate");
        assert_eq!(place.key, "d1");
    }
}

#[test]
fn draw_with_origin_respects_the_radius() {
    let mut jar = JarStore::new();
    let near = jar.add_place("near", "close shop", &vec![Meal::Lunch]);
    let far = jar.add_place("far", "far shop", &vec![Meal::Lunch]);
    jar.set_place_coordinates(&near, coords(35_000_000, 139_000_000));
    jar.set_place_coordinates(&far, coords(36_000_000, 139_000_000));
    let dists = vec![("near".to_string(), 500u64), ("far".to_string(), 1500u64)];
    for pick in 0..7usize {
        let place = jar
            .draw(Meal::Lunch, Some(&dists), pick)
            .expect("the near candidate");
        assert_eq!(place.key, "near");
    }
}

#[test]
fn draw_with_origin_skips_places_without_coordinates() {
    let mut jar = JarStore::new();
    jar.add_place("r1", "Ramen-Ya", &vec![Meal::Lunch]);
    // No stored coordinates: the distance table is empty.
    let dists: Vec<(String, u64)> = Vec::new();
    assert!(jar.draw(Meal::Lunch, Some(&dists), 0).is_none());
    // Without an origin the same jar still yields the place.
    let place = jar.draw(Meal::Lunch, None, 0).expect("a candidate");
    assert_eq!(place.name, "Ramen-Ya");
}

#[test]
fn current_draw_persists_until_cleared() {
    let mut jar = JarStore::new();
    jar.add_place("k1", "shop one", &vec![Meal::Lunch]);
    let drawn = jar.draw(Meal::Lunch, None, 3).expect("a draw");
    let current = jar.get_current_draw().expect("a current draw");
    assert_eq!(current.key, drawn.key);
    assert_eq!(current.name, "shop one");
    // Unrelated operations keep it.
    jar.add_label("label text");
    let other = jar.add_place("k2", "shop two", &vec![Meal::Dinner]);
    jar.set_place_coordinates(&other, coords(1, 1));
    let still = jar.get_current_draw().expect("still current");
    assert_eq!(still.key, drawn.key);
    // A postpone clears it.
    jar.remove_drawn_place(Some(&still));
    assert!(jar.get_current_draw().is_none());
}

#[test]
fn checked_clear_keeps_a_different_draw() {
    let mut jar = JarStore::new();
    jar.add_place("k1", "shop one", &vec![Meal::Lunch]);
    let other = jar.add_place("k2", "shop two", &vec![Meal::Lunch]);
    jar.update_current_draw("k1");
    // Clearing against a place that is not the current draw is a no-op.
    jar.remove_drawn_place(Some(&other));
    assert_eq!(jar.get_current_draw().expect("kept").key, "k1");
}

#[test]
fn missing_name_row_yields_the_placeholder() {
    let mut jar = JarStore::new();
    jar.update_current_draw("ghost");
    let current = jar.get_current_draw().expect("a pointer");
    assert_eq!(current.key, "ghost");
    assert_eq!(current.name, "Could not find place name");
}

#[test]
fn draw_random_picks_a_registered_place() {
    let mut jar = JarStore::new();
    jar.add_place("a", "shop a", &vec![Meal::Lunch]);
    jar.add_place("b", "shop b", &vec![Meal::Lunch]);
    for _ in 0..20 {
        let place = jar.draw_random(Meal::Lunch, None).expect("a candidate");
        assert!(place.key == "a" || place.key == "b");
    }
}

#[test]
fn store_paths_follow_the_schema() {
    let jar = Jar::new("user_42");
    assert_eq!(
        store::firebase_url("https://db.example", &jar, "current_draw"),
        "https://db.example/v2/user_42/current_draw.json"
    );
    assert_eq!(
        store::firebase_url_legacy("https://db.example", &jar, "pending_shop"),
        "https://db.example/user_42/pending_shop.json"
    );
    assert_eq!(store::slot_path(Meal::Lunch), "timeslots/昼");
    assert_eq!(store::slot_member_path(Meal::Dinner, "k"), "timeslots/夜/k");
    let place = Place {
        key: "k".to_string(),
        name: "n".to_string(),
    };
    let paths = store::delete_place_paths(&place);
    assert_eq!(
        paths,
        vec![
            "places/k",
            "timeslots/昼/k",
            "timeslots/夜/k",
            "place_id_name/k",
            "place_id_coordinates/k"
        ]
    );
}
