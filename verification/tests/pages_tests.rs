use bongas_ai::pages::{
    map_db_to_domain, NavType, PageCompositionItem, PageLayout, PageLayoutRow, PageSlug, PagesManager,
    SavePageLayoutRequest,
};

fn layout(slug: &str, landing: bool, nav: NavType, device: Option<&str>, maturity: Option<&str>) -> PageLayout {
    PageLayout {
        page_slug: PageSlug(slug.to_string()),
        is_landing: landing,
        nav_type: nav,
        device_type: device.map(|d| d.to_string()),
        maturity_rating: maturity.map(|m| m.to_string()),
        priority: 0,
        composition: Vec::new(),
        is_active: true,
        updated_at: 0,
    }
}

#[test]
fn nav_type_parses_stored_names() {
    assert!(NavType::from_db("main") == NavType::Main);
    assert!(NavType::from_db("sub") == NavType::Sub);
    assert!(NavType::from_db("hidden") == NavType::Hidden);
    assert!(NavType::from_db("MAIN") == NavType::Hidden);
    assert!(NavType::from_db("") == NavType::Hidden);
}

#[test]
fn nav_type_round_trips_through_its_name() {
    for t in [NavType::Main, NavType::Sub, NavType::Hidden] {
        let name = t.as_db_str();
        assert!(NavType::from_db(&name) == t);
    }
    assert_eq!(NavType::Main.as_db_str(), "main");
    assert_eq!(NavType::Sub.as_db_str(), "sub");
    assert_eq!(NavType::Hidden.as_db_str(), "hidden");
    assert!(NavType::default() == NavType::Hidden);
}

#[test]
fn stored_row_maps_to_layout() {
    let row = PageLayoutRow {
        id: 7,
        page_slug: "movies".to_string(),
        is_landing: true,
        nav_type: "sub".to_string(),
        device_type: Some("tv".to_string()),
        maturity_rating: None,
        priority: 3,
        is_active: true,
        is_deleted: false,
        created_at: 10,
        updated_at: 20,
    };
    let item = PageCompositionItem {
        slug: "trending".to_string(),
        fallback_slug: None,
        row_type: "carousel".to_string(),
        row_style: None,
    };
    let l = map_db_to_domain(row, vec![item]);
    assert_eq!(l.page_slug.to_text(), "movies");
    assert!(l.is_landing);
    assert!(l.nav_type == NavType::Sub);
    assert_eq!(l.device_type.as_deref(), Some("tv"));
    assert_eq!(l.maturity_rating, None);
    assert_eq!(l.priority, 3);
    assert_eq!(l.composition.len(), 1);
    assert_eq!(l.composition[0].slug, "trending");
    assert_eq!(l.updated_at, 20);
}

#[test]
fn save_request_defaults() {
    let req = SavePageLayoutRequest {
        page_slug: "home".to_string(),
        is_landing: None,
        nav_type: None,
        device_type: None,
        maturity_rating: Some("PG".to_string()),
        priority: None,
        composition: Vec::new(),
        is_active: None,
    };
    let u = req.into_upsert("[]".to_string());
    assert_eq!(u.page_slug, "home");
    assert!(!u.is_landing);
    assert_eq!(u.nav_type, "hidden");
    assert_eq!(u.composition, "[]");
    assert_eq!(u.maturity_rating.as_deref(), Some("PG"));
    assert_eq!(u.priority, 0);
    assert!(u.is_active);

    let req = SavePageLayoutRequest {
        page_slug: "tv".to_string(),
        is_landing: Some(true),
        nav_type: Some(NavType::Main),
        device_type: None,
        maturity_rating: None,
        priority: Some(9),
        composition: Vec::new(),
        is_active: Some(false),
    };
    let u = req.into_upsert("[]".to_string());
    assert!(u.is_landing);
    assert_eq!(u.nav_type, "main");
    assert_eq!(u.priority, 9);
    assert!(!u.is_active);
}

#[test]
fn landing_page_falls_back_device_then_catch_all() {
    let mut m = PagesManager::new(4);
    let count = m.load_all_active(vec![
        layout("home_all", true, NavType::Main, None, None),
        layout("home_tv", true, NavType::Main, Some("tv"), None),
        layout("home_tv_kids", true, NavType::Hidden, Some("tv"), Some("kids")),
        layout("movies", false, NavType::Sub, Some("tv"), Some("kids")),
    ]);
    assert_eq!(count, 4);
    let exact = m.get_landing_page_contextual(Some("tv"), Some("kids"), None).unwrap();
    assert_eq!(exact.page_slug.0, "home_tv_kids");
    let device_only = m.get_landing_page_contextual(Some("tv"), Some("adult"), None).unwrap();
    assert_eq!(device_only.page_slug.0, "home_tv");
    let any = m.get_landing_page_contextual(Some("web"), Some("kids"), None).unwrap();
    assert_eq!(any.page_slug.0, "home_all");
    let absent_context = m.get_landing_page_contextual(None, None, None).unwrap();
    assert_eq!(absent_context.page_slug.0, "home_all");
}

#[test]
fn landing_page_highest_priority_then_latest_wins() {
    let mut low = layout("low", true, NavType::Main, Some("web"), Some("all"));
    low.priority = 1;
    let mut high = layout("high", true, NavType::Sub, Some("web"), Some("all"));
    high.priority = 5;
    let mut tie = layout("tie", true, NavType::Main, Some("web"), Some("all"));
    tie.priority = 5;
    let mut m = PagesManager::new(2);
    m.load_all_active(vec![low, high, tie]);
    assert_eq!(m.get_landing_page_contextual(Some("web"), None, None).unwrap().page_slug.0, "tie");
    assert!(m.get_landing_page_contextual(Some("tv"), None, None).is_none());
    let mut m = PagesManager::new(2);
    m.load_all_active(vec![
        layout("first", true, NavType::Main, Some("web"), Some("all")),
        layout("second", true, NavType::Main, Some("web"), Some("all")),
    ]);
    assert_eq!(m.get_landing_page_contextual(Some("web"), None, None).unwrap().page_slug.0, "second");
    let mut m = PagesManager::new(2);
    let mut high = layout("high", true, NavType::Main, Some("web"), Some("all"));
    high.priority = 9;
    m.load_all_active(vec![high, layout("later_low", true, NavType::Main, Some("web"), Some("all"))]);
    assert_eq!(m.get_landing_page_contextual(Some("web"), None, None).unwrap().page_slug.0, "high");
}

#[test]
fn nav_mesh_lists_visible_pages_in_order() {
    let mut m = PagesManager::new(2);
    m.load_all_active(vec![
        layout("tv_shows", false, NavType::Main, None, None),
        layout("secret", false, NavType::Hidden, None, None),
        layout("kids_corner", false, NavType::Sub, None, None),
    ]);
    let mesh = m.get_nav_mesh_contextual(None);
    assert_eq!(mesh.len(), 2);
    assert_eq!(mesh[0].slug, "tv_shows");
    assert_eq!(mesh[0].title, "tv shows");
    assert_eq!(mesh[0].nav_type, "main");
    assert_eq!(mesh[1].slug, "kids_corner");
    assert_eq!(mesh[1].title, "kids corner");
    assert_eq!(mesh[1].nav_type, "sub");
    assert!(mesh[1].nav_mesh.is_empty());
    assert_eq!(mesh[1].landing_slug, "");
    assert_eq!(mesh[1].total_rows, 0);
    assert_eq!(mesh[1].request_id, "");
}

#[test]
fn cached_layout_is_read_back() {
    let mut m = PagesManager::new(2);
    assert!(m.get_layout_contextual("home", Some("tv"), None, None).is_none());
    m.store_layout("home", Some("tv"), None, layout("home", false, NavType::Main, Some("tv"), None));
    let hit = m.get_layout_contextual("home", Some("tv"), None, None).unwrap();
    assert_eq!(hit.page_slug.0, "home");
    assert!(m.get_layout_contextual("home", None, None, None).is_none());
    assert!(m.get_layout_contextual("home", Some("tv"), Some("kids"), None).is_none());
}

#[test]
fn full_cache_evicts_least_recently_used() {
    let mut m = PagesManager::new(2);
    m.store_layout("a", None, None, layout("a", false, NavType::Main, None, None));
    m.store_layout("b", None, None, layout("b", false, NavType::Main, None, None));
    assert!(m.get_layout_contextual("a", None, None, None).is_some());
    m.store_layout("c", None, None, layout("c", false, NavType::Main, None, None));
    assert!(m.get_layout_contextual("b", None, None, None).is_none());
    assert!(m.get_layout_contextual("a", None, None, None).is_some());
    assert!(m.get_layout_contextual("c", None, None, None).is_some());
}

#[test]
fn storing_again_replaces_the_layout() {
    let mut m = PagesManager::new(1);
    m.store_layout("a", None, None, layout("first", false, NavType::Main, None, None));
    m.store_layout("a", None, None, layout("second", false, NavType::Main, None, None));
    assert_eq!(m.get_layout_contextual("a", None, None, None).unwrap().page_slug.0, "second");
}

#[test]
fn invalidation_drops_every_context_of_a_page_only() {
    let mut m = PagesManager::new(8);
    m.store_layout("home", None, None, layout("home", false, NavType::Main, None, None));
    m.store_layout("home", Some("tv"), Some("kids"), layout("home", false, NavType::Main, None, None));
    m.store_layout("movies", Some("tv"), None, layout("movies", false, NavType::Main, None, None));
    m.invalidate_cache("home");
    assert!(m.get_layout_contextual("home", None, None, None).is_none());
    assert!(m.get_layout_contextual("home", Some("tv"), Some("kids"), None).is_none());
    assert!(m.get_layout_contextual("movies", Some("tv"), None, None).is_some());
}

#[test]
fn reload_empties_the_cache() {
    let mut m = PagesManager::new(8);
    m.store_layout("home", None, None, layout("home", false, NavType::Main, None, None));
    m.load_all_active(Vec::new());
    assert!(m.get_layout_contextual("home", None, None, None).is_none());
    assert!(m.get_nav_mesh_contextual(None).is_empty());
}
