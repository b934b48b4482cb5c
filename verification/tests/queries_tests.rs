use bongas_ai::json::{JsonNumber, JsonValue};
use bongas_ai::queries::{
    analytics_configured, catalog_blindness_query, categories_query, current_arrival_mask, glob_to_like, hive_reasoning, hour_mask,
    new_releases_query, retention_condition, retention_reasoning, stale_update_query, CacheEntryPayload,
    CATEGORIES_SELECT, NEW_RELEASES_SELECT,
};

#[test]
fn categories_sql_orders_and_filters() {
    let sql = categories_query(true, "rating");
    assert_eq!(
        sql,
        format!(
            "{} AND COALESCE(i.user_rating, i.critic_rating, 0) >= $3 ORDER BY COALESCE(user_rating, critic_rating, 0) DESC LIMIT $2",
            CATEGORIES_SELECT
        )
    );
    assert_eq!(
        categories_query(false, "recent"),
        format!("{} ORDER BY release_date DESC NULLS LAST, added_date DESC NULLS LAST LIMIT $2", CATEGORIES_SELECT)
    );
    assert_eq!(categories_query(false, "alphabetical"), format!("{} ORDER BY title ASC LIMIT $2", CATEGORIES_SELECT));
    assert_eq!(
        categories_query(false, "whatever"),
        format!("{} ORDER BY popularity_score DESC NULLS LAST LIMIT $2", CATEGORIES_SELECT)
    );
}

#[test]
fn new_releases_binds_filters_in_order() {
    let q = new_releases_query("movie", Some("drama".to_string()), "popularity");
    assert_eq!(
        q.sql,
        format!(
            "{} AND content_type = $3 AND genres @> $4 ORDER BY popularity_score DESC NULLS LAST LIMIT $2",
            NEW_RELEASES_SELECT
        )
    );
    assert_eq!(q.content_type.as_deref(), Some("movie"));
    match q.genre_filter {
        Some(JsonValue::Array(items)) => {
            assert_eq!(items.len(), 1);
            assert!(matches!(&items[0], JsonValue::String(s) if s.as_str() == "drama"));
        },
        _ => panic!("expected a genre filter"),
    }
    let q = new_releases_query("all", Some("drama".to_string()), "added_date");
    assert_eq!(
        q.sql,
        format!("{} AND genres @> $3 ORDER BY added_date DESC NULLS LAST LIMIT $2", NEW_RELEASES_SELECT)
    );
    assert!(q.content_type.is_none());
    let q = new_releases_query("all", None, "x");
    assert_eq!(q.sql, format!("{} ORDER BY release_date DESC NULLS LAST LIMIT $2", NEW_RELEASES_SELECT));
    assert!(q.genre_filter.is_none());
}

#[test]
fn glob_patterns_become_like_patterns() {
    assert_eq!(glob_to_like("rec:*:user_?"), "rec:%:user__");
    assert_eq!(glob_to_like("plain"), "plain");
    assert_eq!(glob_to_like(""), "");
}

#[test]
fn stale_update_numbers_parameters_consecutively() {
    let base = "UPDATE bongas.recommendation_cache_l2 SET is_stale = true, staleness_reason = $1 WHERE 1=1";
    assert_eq!(stale_update_query(false, false, false), base);
    assert_eq!(
        stale_update_query(true, true, true),
        format!("{} AND user_id = $2 AND profile_id = $3 AND scenario_slug = $4", base)
    );
    assert_eq!(stale_update_query(false, true, true), format!("{} AND profile_id = $2 AND scenario_slug = $3", base));
    assert_eq!(stale_update_query(true, false, true), format!("{} AND user_id = $2 AND scenario_slug = $3", base));
}

#[test]
fn blindness_query_divides_by_at_least_one() {
    let tail = ")) as blindness FROM user_interactions WHERE created_at > (toUnixTimestamp(now()) - 86400) AND interaction_type = 'impression'";
    assert_eq!(catalog_blindness_query(250), format!("SELECT (1 - (count(DISTINCT item_id) / 250{}", tail));
    assert_eq!(catalog_blindness_query(0), format!("SELECT (1 - (count(DISTINCT item_id) / 1{}", tail));
    assert_eq!(catalog_blindness_query(-5), format!("SELECT (1 - (count(DISTINCT item_id) / 1{}", tail));
}

#[test]
fn suggestion_texts() {
    assert_eq!(
        retention_reasoning(42, "home_feed"),
        "Engagement Churn Detected for user_id '42' in scenario 'home_feed'. Duration dropped by >20%. Suggesting Personalized Retention strategy."
    );
    assert_eq!(
        retention_reasoning(-3, "x"),
        "Engagement Churn Detected for user_id '-3' in scenario 'x'. Duration dropped by >20%. Suggesting Personalized Retention strategy."
    );
    assert_eq!(hive_reasoning("boost kids"), "Global Hive Mind: boost kids");
}

#[test]
fn retention_condition_names_the_user() {
    match retention_condition(42) {
        JsonValue::Object(m) => {
            assert_eq!(m.len(), 1);
            assert_eq!(m[0].0, "user_id");
            assert!(matches!(m[0].1, JsonValue::Number(JsonNumber::PosInt(42))));
        },
        _ => panic!("expected an object"),
    }
    match retention_condition(-1) {
        JsonValue::Object(m) => assert!(matches!(m[0].1, JsonValue::Number(JsonNumber::NegInt(-1)))),
        _ => panic!("expected an object"),
    }
}

#[test]
fn hour_masks() {
    assert_eq!(hour_mask(0), 1);
    assert_eq!(hour_mask(5), 32);
    assert_eq!(hour_mask(23), 1 << 23);
    assert_eq!(hour_mask(62), 1i64 << 62);
    assert_eq!(hour_mask(63), i64::MIN);
    let m = current_arrival_mask();
    assert_eq!(m.count_ones(), 1);
    assert!(m > 0 && m <= (1 << 23));
}

#[test]
fn cache_entries_expire_after_their_ttl() {
    let payload = CacheEntryPayload {
        cache_key: "k".to_string(),
        scenario_slug: "home".to_string(),
        user_id: Some(1),
        profile_id: None,
        context_hash: None,
        recommendations: JsonValue::Array(vec![]),
        ttl_seconds: 300,
    };
    assert_eq!(payload.expires_at_micros(1_700_000_000_000_000), 1_700_000_300_000_000);
    let negative = CacheEntryPayload { ttl_seconds: -2, ..payload };
    assert_eq!(negative.expires_at_micros(10_000_000), 8_000_000);
}

#[test]
fn analytics_needs_a_url() {
    assert!(!analytics_configured(""));
    assert!(analytics_configured("http://clickhouse:8123"));
}
