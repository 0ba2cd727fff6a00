use taberando::meal::Meal;
use taberando::migrate::{migrate_entry, migration_targets, LegacyJar};

#[test]
fn a_legacy_jar_becomes_one_shop_per_distinct_name() {
    let legacy = LegacyJar {
        pending_shop: Some("curry house".to_string()),
        lunch: vec!["curry house".to_string(), "soba stand".to_string()],
        dinner: vec!["izakaya".to_string(), "curry house".to_string()],
    };
    let plan = migrate_entry(&legacy);
    assert_eq!(plan.current_draw.as_deref(), Some("curry house"));
    assert_eq!(plan.shops.len(), 3);
    assert_eq!(plan.shops[0].0, "curry house");
    assert_eq!(plan.shops[0].1, vec![Meal::Lunch, Meal::Dinner]);
    assert_eq!(plan.shops[1].0, "soba stand");
    assert_eq!(plan.shops[1].1, vec![Meal::Lunch]);
    assert_eq!(plan.shops[2].0, "izakaya");
    assert_eq!(plan.shops[2].1, vec![Meal::Dinner]);
}

#[test]
fn an_empty_legacy_jar_plans_nothing() {
    let legacy = LegacyJar {
        pending_shop: None,
        lunch: vec![],
        dinner: vec![],
    };
    let plan = migrate_entry(&legacy);
    assert!(plan.current_draw.is_none());
    assert!(plan.shops.is_empty());
}

#[test]
fn migration_skips_the_current_generation_subtree() {
    let keys = vec![
        "user_1".to_string(),
        "v2".to_string(),
        "group_2".to_string(),
    ];
    assert_eq!(migration_targets(&keys), vec!["user_1", "group_2"]);
}
