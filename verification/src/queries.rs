//! Query planning of the repositories: SQL text that depends on the
//! request, pattern translation, and the texts of generated suggestions.

use vstd::prelude::*;
use crate::json::{JsonNumber, JsonValue};
use vstd::arithmetic::power2::pow2;
use chrono::Timelike;
use crate::text::{decimal, push_decimal, push_signed_decimal, push_text, replace_char, signed_decimal, substituted};

verus! {

/// The SELECT of the category listing, before its optional filter and order.
pub const CATEGORIES_SELECT: &'static str = r#"
            SELECT i.item_id, i.title, i.description, i.genres, i.tags, i.creators,
                   i.directors, i.studios, i.actors,
                   i.content_type, i.language, i.audio_languages, i.subtitle_languages,
                   i.age_rating, i.duration_seconds, i.release_year, i.release_date,
                   i.published_at, i.added_date, i.available_from, i.available_until,
                   i.is_active,
                   i.max_resolution, i.has_hdr, i.has_dolby_vision, i.has_dolby_atmos,
                   i.is_explicit, i.has_violence, i.has_strong_language, i.has_drug_content,
                   i.available_countries, i.blocked_countries,
                   i.seasonal_tags, i.holiday_tags, i.themes,
                   i.is_award_winner, i.required_tier, i.is_free,
                   i.view_count, i.like_count, i.comment_count, i.share_count, i.save_count,
                   i.completion_rate, i.trending_score, i.popularity_score,
                   i.user_rating, i.user_rating_count, i.critic_rating, i.critic_rating_count,
                   i.embedding, i.tfidf_vector
            FROM item_features i
            JOIN item_categories ic ON i.item_id = ic.item_id
            WHERE ic.category_slug = ANY($1)
                AND i.is_active = true
            "#;

/// The SELECT of the new-release listing, before its optional filters and order.
pub const NEW_RELEASES_SELECT: &'static str = r#"
            SELECT item_id, title, description, genres, tags, creators,
                   directors, studios, actors,
                   content_type, language, audio_languages, subtitle_languages,
                   age_rating, duration_seconds, release_year, release_date,
                   published_at, added_date, available_from, available_until,
                   is_active,
                   max_resolution, has_hdr, has_dolby_vision, has_dolby_atmos,
                   is_explicit, has_violence, has_strong_language, has_drug_content,
                   available_countries, blocked_countries,
                   seasonal_tags, holiday_tags, themes,
                   is_award_winner, required_tier, is_free,
                   view_count, like_count, comment_count, share_count, save_count,
                   completion_rate, trending_score, popularity_score,
                   user_rating, user_rating_count, critic_rating, critic_rating_count,
                   embedding, tfidf_vector
            FROM item_features
            WHERE is_active = true
                AND (release_date >= $1 OR added_date >= $1)
            "#;

/// The order of a category listing for a sort key: "recent", "rating",
/// "alphabetical", or popularity for anything else.
pub open spec fn categories_order(sort_by: Seq<char>) -> Seq<char> {
    if sort_by == "recent"@ {
        "release_date DESC NULLS LAST, added_date DESC NULLS LAST"@
    } else if sort_by == "rating"@ {
        "COALESCE(user_rating, critic_rating, 0) DESC"@
    } else if sort_by == "alphabetical"@ {
        "title ASC"@
    } else {
        "popularity_score DESC NULLS LAST"@
    }
}

/// The SQL of a category listing: the minimum rating filter binds `$3` when
/// present; categories bind `$1` and the limit `$2`.
pub open spec fn categories_sql(has_min_rating: bool, sort_by: Seq<char>) -> Seq<char> {
    CATEGORIES_SELECT@
        + (if has_min_rating { " AND COALESCE(i.user_rating, i.critic_rating, 0) >= $3"@ } else { Seq::empty() })
        + " ORDER BY "@ + categories_order(sort_by) + " LIMIT $2"@
}

fn categories_order_text(sort_by: &str) -> (s: &'static str)
    ensures
        s@ == categories_order(sort_by@),
{
    if crate::text::same_text(sort_by, "recent") {
        "release_date DESC NULLS LAST, added_date DESC NULLS LAST"
    } else if crate::text::same_text(sort_by, "rating") {
        "COALESCE(user_rating, critic_rating, 0) DESC"
    } else if crate::text::same_text(sort_by, "alphabetical") {
        "title ASC"
    } else {
        "popularity_score DESC NULLS LAST"
    }
}

/// Build the SQL of a category listing with advanced filtering and sorting.
pub fn categories_query(has_min_rating: bool, sort_by: &str) -> (sql: String)
    ensures
        sql@ == categories_sql(has_min_rating, sort_by@),
{
    let mut sql = String::from_str(CATEGORIES_SELECT);
    if has_min_rating {
        push_text(&mut sql, " AND COALESCE(i.user_rating, i.critic_rating, 0) >= $3");
    }
    push_text(&mut sql, " ORDER BY ");
    push_text(&mut sql, categories_order_text(sort_by));
    push_text(&mut sql, " LIMIT $2");
    proof {
        if has_min_rating {
            assert(sql@ =~= categories_sql(has_min_rating, sort_by@));
        } else {
            assert(sql@ =~= categories_sql(has_min_rating, sort_by@));
        }
    }
    sql
}

/// The order of a new-release listing for a sort key: "added_date",
/// "popularity", or release date for anything else.
pub open spec fn new_releases_order(sort_by: Seq<char>) -> Seq<char> {
    if sort_by == "added_date"@ {
        "added_date DESC NULLS LAST"@
    } else if sort_by == "popularity"@ {
        "popularity_score DESC NULLS LAST"@
    } else {
        "release_date DESC NULLS LAST"@
    }
}

/// The SQL of a new-release listing: a content type other than "all" binds
/// `$3`, a genre binds the next parameter; the cutoff binds `$1` and the limit `$2`.
pub open spec fn new_releases_sql(filters_content_type: bool, has_genre: bool, sort_by: Seq<char>) -> Seq<char> {
    NEW_RELEASES_SELECT@
        + (if filters_content_type { " AND content_type = $"@ + decimal(3) } else { Seq::empty() })
        + (if has_genre { " AND genres @> $"@ + decimal(if filters_content_type { 4nat } else { 3nat }) } else { Seq::empty() })
        + " ORDER BY "@ + new_releases_order(sort_by) + " LIMIT $2"@
}

/// Law: a new-release listing filtered by content type has the content type
/// filter right after the SELECT, bound to `$3`, whether or not a genre is
/// given; a genre filter follows, bound to the next parameter (`$4` after a
/// content type filter, `$3` without one). Without filters the order clause
/// follows the SELECT directly.
pub proof fn law_new_releases_filters(filters_content_type: bool, has_genre: bool, sort_by: Seq<char>)
    ensures
        ({
            let sql = new_releases_sql(filters_content_type, has_genre, sort_by);
            let n = NEW_RELEASES_SELECT@.len() as int;
            let c = " AND content_type = $3"@;
            let g = if filters_content_type { " AND genres @> $4"@ } else { " AND genres @> $3"@ };
            let after_content = if filters_content_type { n + c.len() } else { n };
            &&& sql.subrange(0, n) == NEW_RELEASES_SELECT@
            &&& filters_content_type ==> sql.subrange(n, n + c.len()) == c
            &&& has_genre ==> sql.subrange(after_content, after_content + g.len()) == g
            &&& !has_genre ==> sql.subrange(after_content, after_content + " ORDER BY "@.len()) == " ORDER BY "@
        }),
{
    reveal_strlit(" AND content_type = $3");
    reveal_strlit(" AND content_type = $");
    reveal_strlit(" AND genres @> $4");
    reveal_strlit(" AND genres @> $3");
    reveal_strlit(" AND genres @> $");
    reveal_strlit(" ORDER BY ");
    assert(decimal(3) =~= seq!['3']);
    assert(decimal(4) =~= seq!['4']);
    let sql = new_releases_sql(filters_content_type, has_genre, sort_by);
    let n = NEW_RELEASES_SELECT@.len() as int;
    let c = " AND content_type = $3"@;
    let cpart = if filters_content_type { " AND content_type = $"@ + decimal(3) } else { Seq::<char>::empty() };
    let gpart = if has_genre { " AND genres @> $"@ + decimal(if filters_content_type { 4nat } else { 3nat }) } else { Seq::<char>::empty() };
    let rest = " ORDER BY "@ + new_releases_order(sort_by) + " LIMIT $2"@;
    assert(sql =~= NEW_RELEASES_SELECT@ + cpart + gpart + rest);
    assert(sql.subrange(0, n) =~= NEW_RELEASES_SELECT@);
    if filters_content_type {
        assert(cpart =~= c);
        assert(sql.subrange(n, n + c.len()) =~= c);
    }
    let after_content = n + cpart.len();
    if has_genre {
        let g = if filters_content_type { " AND genres @> $4"@ } else { " AND genres @> $3"@ };
        assert(gpart =~= g);
        assert(sql.subrange(after_content, after_content + g.len()) =~= g);
    } else {
        assert(sql.subrange(after_content, after_content + " ORDER BY "@.len()) =~= " ORDER BY "@);
    }
}

/// A planned new-release query: its SQL, and the extra parameters to bind
/// after the cutoff and the limit.
pub struct NewReleasesQuery {
    pub sql: String,
    pub content_type: Option<String>,
    pub genre_filter: Option<JsonValue>,
}

fn new_releases_order_text(sort_by: &str) -> (s: &'static str)
    ensures
        s@ == new_releases_order(sort_by@),
{
    if crate::text::same_text(sort_by, "added_date") {
        "added_date DESC NULLS LAST"
    } else if crate::text::same_text(sort_by, "popularity") {
        "popularity_score DESC NULLS LAST"
    } else {
        "release_date DESC NULLS LAST"
    }
}

/// Plan a new-release query: filter by content type unless it is "all", and
/// by genre (as a one-element JSON array) when one is given.
pub fn new_releases_query(content_type: &str, genre: Option<String>, sort_by: &str) -> (q: NewReleasesQuery)
    ensures
        q.sql@ == new_releases_sql(content_type@ != "all"@, genre is Some, sort_by@),
        content_type@ != "all"@ ==> q.sql@.subrange(
            NEW_RELEASES_SELECT@.len() as int,
            (NEW_RELEASES_SELECT@.len() + " AND content_type = $3"@.len()) as int,
        ) == " AND content_type = $3"@,
        q.content_type is Some == (content_type@ != "all"@),
        q.content_type matches Some(c) ==> c@ == content_type@,
        q.genre_filter is Some == genre is Some,
        q.genre_filter matches Some(JsonValue::Array(items)) ==> items@.len() == 1 && items@[0] == JsonValue::String(genre->0),
        q.genre_filter is Some ==> q.genre_filter->0 is Array,
{
    let filters = !crate::text::same_text(content_type, "all");
    let mut sql = String::from_str(NEW_RELEASES_SELECT);
    let mut next_bind: u64 = 3;
    if filters {
        push_text(&mut sql, " AND content_type = $");
        push_decimal(&mut sql, next_bind);
        next_bind = next_bind + 1;
    }
    let has_genre = genre.is_some();
    if has_genre {
        push_text(&mut sql, " AND genres @> $");
        push_decimal(&mut sql, next_bind);
    }
    push_text(&mut sql, " ORDER BY ");
    push_text(&mut sql, new_releases_order_text(sort_by));
    push_text(&mut sql, " LIMIT $2");
    proof {
        assert(sql@ =~= new_releases_sql(filters, has_genre, sort_by@));
        law_new_releases_filters(filters, has_genre, sort_by@);
    }
    let genre_filter = match genre {
        Some(g) => {
            let mut items: Vec<JsonValue> = Vec::new();
            items.push(JsonValue::String(g));
            Some(JsonValue::Array(items))
        },
        None => None,
    };
    NewReleasesQuery {
        sql,
        content_type: if filters { Some(String::from_str(content_type)) } else { None },
        genre_filter,
    }
}

/// Translate a glob pattern to a SQL LIKE pattern: `*` becomes `%` and `?` becomes `_`.
pub fn glob_to_like(pattern: &str) -> (like: String)
    ensures
        like@ == substituted(substituted(pattern@, '*', '%'), '?', '_'),
{
    let step = replace_char(pattern, '*', '%');
    replace_char(step.as_str(), '?', '_')
}

/// The UPDATE that marks L2 cache entries stale: the reason binds `$1`, then
/// each given criterion (user, profile, scenario) binds the next parameter.
pub open spec fn stale_update_sql(by_user: bool, by_profile: bool, by_scenario: bool) -> Seq<char> {
    let user_index: nat = 2;
    let profile_index: nat = if by_user { 3 } else { 2 };
    let scenario_index: nat = profile_index + if by_profile { 1nat } else { 0nat };
    "UPDATE bongas.recommendation_cache_l2 SET is_stale = true, staleness_reason = $1 WHERE 1=1"@
        + (if by_user { " AND user_id = $"@ + decimal(user_index) } else { Seq::empty() })
        + (if by_profile { " AND profile_id = $"@ + decimal(profile_index) } else { Seq::empty() })
        + (if by_scenario { " AND scenario_slug = $"@ + decimal(scenario_index) } else { Seq::empty() })
}

/// Build the UPDATE that marks L2 cache entries stale for the given criteria.
pub fn stale_update_query(by_user: bool, by_profile: bool, by_scenario: bool) -> (sql: String)
    ensures
        sql@ == stale_update_sql(by_user, by_profile, by_scenario),
{
    let mut sql = String::from_str("UPDATE bongas.recommendation_cache_l2 SET is_stale = true, staleness_reason = $1 WHERE 1=1");
    let mut arg_index: u64 = 2;
    if by_user {
        push_text(&mut sql, " AND user_id = $");
        push_decimal(&mut sql, arg_index);
        arg_index = arg_index + 1;
    }
    if by_profile {
        push_text(&mut sql, " AND profile_id = $");
        push_decimal(&mut sql, arg_index);
        arg_index = arg_index + 1;
    }
    if by_scenario {
        push_text(&mut sql, " AND scenario_slug = $");
        push_decimal(&mut sql, arg_index);
    }
    proof {
        assert(sql@ =~= stale_update_sql(by_user, by_profile, by_scenario));
    }
    sql
}

/// The ClickHouse query of catalog blindness: the share of active items
/// without an impression in the last day (the item total is at least one).
pub open spec fn blindness_sql(total_active_items: i64) -> Seq<char> {
    "SELECT (1 - (count(DISTINCT item_id) / "@
        + signed_decimal(if total_active_items > 1 { total_active_items as int } else { 1int })
        + ")) as blindness FROM user_interactions WHERE created_at > (toUnixTimestamp(now()) - 86400) AND interaction_type = 'impression'"@
}

/// Build the catalog blindness query.
pub fn catalog_blindness_query(total_active_items: i64) -> (sql: String)
    ensures
        sql@ == blindness_sql(total_active_items),
{
    let total = if total_active_items > 1 { total_active_items } else { 1 };
    let mut sql = String::from_str("SELECT (1 - (count(DISTINCT item_id) / ");
    push_signed_decimal(&mut sql, total);
    push_text(&mut sql, ")) as blindness FROM user_interactions WHERE created_at > (toUnixTimestamp(now()) - 86400) AND interaction_type = 'impression'");
    proof {
        assert(sql@ =~= blindness_sql(total_active_items));
    }
    sql
}

/// The reasoning of a retention suggestion for a churned user.
pub open spec fn retention_reasoning_text(user_id: i32, scenario_slug: Seq<char>) -> Seq<char> {
    "Engagement Churn Detected for user_id '"@ + signed_decimal(user_id as int) + "' in scenario '"@
        + scenario_slug + "'. Duration dropped by >20%. Suggesting Personalized Retention strategy."@
}

/// Explain a retention suggestion.
pub fn retention_reasoning(user_id: i32, scenario_slug: &str) -> (text: String)
    ensures
        text@ == retention_reasoning_text(user_id, scenario_slug@),
{
    let mut text = String::from_str("Engagement Churn Detected for user_id '");
    push_signed_decimal(&mut text, user_id as i64);
    push_text(&mut text, "' in scenario '");
    push_text(&mut text, scenario_slug);
    push_text(&mut text, "'. Duration dropped by >20%. Suggesting Personalized Retention strategy.");
    proof {
        assert(text@ =~= retention_reasoning_text(user_id, scenario_slug@));
    }
    text
}

/// The JSON number of an integer.
pub open spec fn integer_json(n: i64) -> JsonValue {
    if n >= 0 {
        JsonValue::Number(JsonNumber::PosInt(n as u64))
    } else {
        JsonValue::Number(JsonNumber::NegInt(n))
    }
}

/// The condition of a retention suggestion: the object `{"user_id": <id>}`.
pub fn retention_condition(user_id: i32) -> (c: JsonValue)
    ensures
        c is Object,
        c->Object_0@.len() == 1,
        c->Object_0@[0].0@ == "user_id"@,
        c->Object_0@[0].1 == integer_json(user_id as i64),
{
    let n = user_id as i64;
    let value = if n >= 0 {
        JsonValue::Number(JsonNumber::PosInt(n as u64))
    } else {
        JsonValue::Number(JsonNumber::NegInt(n))
    };
    let mut members: Vec<(String, JsonValue)> = Vec::new();
    members.push((String::from_str("user_id"), value));
    JsonValue::Object(members)
}

/// The reasoning stored with a global rule suggestion.
pub fn hive_reasoning(reasoning: &str) -> (text: String)
    ensures
        text@ == "Global Hive Mind: "@ + reasoning@,
{
    let mut text = String::from_str("Global Hive Mind: ");
    push_text(&mut text, reasoning);
    text
}

/// The hour of the current UTC time (`chrono::Utc::now`, read with
/// `Timelike::hour`), which chrono documents as 0 to 23.
#[verifier::external_body]
fn current_utc_hour() -> (h: u32)
    ensures
        h < 24,
{
    chrono::Utc::now().hour()
}

/// The bit of an hour in an arrival pattern mask: `1 << hour` as a signed
/// 64-bit value (hour 63 gives the sign bit).
pub open spec fn hour_bit(hour: u32) -> int {
    if hour < 63 { pow2(hour as nat) as int } else { i64::MIN as int }
}

/// The arrival-pattern bit of an hour.
pub fn hour_mask(hour: u32) -> (mask: i64)
    requires
        hour < 64,
    ensures
        mask as int == hour_bit(hour),
{
    let shift = hour as u64;
    let bits: u64 = 1u64 << shift;
    if hour < 63 {
        proof {
            vstd::bits::lemma_u64_pow2_no_overflow(shift as nat);
            vstd::bits::lemma_u64_shl_is_mul(1u64, shift);
            assert(bits == pow2(hour as nat));
            assert(shift < 63 ==> (1u64 << shift) < 0x8000_0000_0000_0000u64) by (bit_vector);
        }
        bits as i64
    } else {
        proof {
            assert(shift == 63);
            assert(1u64 << 63u64 == 0x8000_0000_0000_0000u64) by (bit_vector);
            assert((0x8000_0000_0000_0000u64 as i64) == i64::MIN) by (bit_vector);
        }
        #[verifier::truncate]
        (bits as i64)
    }
}

/// The arrival-pattern bit of the current UTC hour.
pub fn current_arrival_mask() -> (mask: i64)
    ensures
        exists|h: u32| h < 24 && mask as int == #[trigger] hour_bit(h),
{
    let h = current_utc_hour();
    hour_mask(h)
}

/// Payload for saving recommendations to the L2 cache.
pub struct CacheEntryPayload {
    pub cache_key: String,
    pub scenario_slug: String,
    pub user_id: Option<i32>,
    pub profile_id: Option<String>,
    pub context_hash: Option<String>,
    pub recommendations: JsonValue,
    pub ttl_seconds: i32,
}

impl CacheEntryPayload {
    /// When an entry saved at `now_micros` (microseconds since the Unix
    /// epoch) expires: its time to live later.
    pub fn expires_at_micros(&self, now_micros: i64) -> (t: i64)
        requires
            i64::MIN <= now_micros + self.ttl_seconds * 1_000_000 <= i64::MAX,
        ensures
            t == now_micros + self.ttl_seconds * 1_000_000,
    {
        now_micros + (self.ttl_seconds as i64) * 1_000_000
    }
}

/// Whether the analytics store is configured: its URL is not empty.
pub fn analytics_configured(url: &str) -> (b: bool)
    ensures
        b == (url@.len() > 0),
{
    let chars = crate::text::chars_of(url);
    chars.len() > 0
}

} // verus!
