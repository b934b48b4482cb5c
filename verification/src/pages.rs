//! UI page orchestration: page layouts, navigation types, the landing page
//! registry with its fallback chain, the navigation mesh, and the defaults of
//! a layout save request.

use vstd::prelude::*;
use lru::LruCache;
use crate::table::KeyedTable;
use crate::layout_cache::{
    LayoutKey, LayoutKeyView, key_chars, no_layouts, layout_cache_contents, layout_cache_capacity,
    layout_cache_recency, order_matches, used_first, lru_new, lru_get, lru_put, lru_pop, lru_clear, lru_keys,
};
use crate::text::{replace_char, substituted};

verus! {

/// A UI page slug (e.g. "home", "movies", "tv_shows").
#[derive(Clone)]
pub struct PageSlug(pub String);

impl PageSlug {
    /// The slug's text.
    pub fn to_text(&self) -> (s: String)
        ensures
            s@ == self.0@,
    {
        self.0.clone()
    }
}

/// Navigation category of a page.
#[derive(Clone, PartialEq, Eq, Structural)]
pub enum NavType {
    /// Always visible in the primary global navigation.
    Main,
    /// Contextual hubs ranked by user engagement.
    Sub,
    /// Accessible only via deep-link or specific actions.
    Hidden,
}

impl Default for NavType {
    fn default() -> (t: Self)
        ensures
            t == NavType::Hidden,
    {
        NavType::Hidden
    }
}

/// The stored name of a navigation type.
pub open spec fn nav_type_name(t: NavType) -> Seq<char> {
    match t {
        NavType::Main => "main"@,
        NavType::Sub => "sub"@,
        NavType::Hidden => "hidden"@,
    }
}

/// The navigation type a stored name denotes: "main", "sub", anything else hidden.
pub open spec fn nav_type_of(name: Seq<char>) -> NavType {
    if name == "main"@ {
        NavType::Main
    } else if name == "sub"@ {
        NavType::Sub
    } else {
        NavType::Hidden
    }
}

impl NavType {
    /// Parse a stored navigation type.
    pub fn from_db(name: &str) -> (t: NavType)
        ensures
            t == nav_type_of(name@),
    {
        if crate::text::same_text(name, "main") {
            NavType::Main
        } else if crate::text::same_text(name, "sub") {
            NavType::Sub
        } else {
            NavType::Hidden
        }
    }

    /// The stored name of this navigation type.
    pub fn as_db_str(&self) -> (s: String)
        ensures
            s@ == nav_type_name(*self),
    {
        match self {
            NavType::Main => String::from_str("main"),
            NavType::Sub => String::from_str("sub"),
            NavType::Hidden => String::from_str("hidden"),
        }
    }

    /// A copy of this navigation type.
    pub fn duplicate(&self) -> (t: NavType)
        ensures
            t == *self,
    {
        match self {
            NavType::Main => NavType::Main,
            NavType::Sub => NavType::Sub,
            NavType::Hidden => NavType::Hidden,
        }
    }
}

/// One row of a page composition: the scenario to run, its fallback, and UI hints.
#[derive(Clone)]
pub struct PageCompositionItem {
    pub slug: String,
    pub fallback_slug: Option<String>,
    pub row_type: String,
    pub row_style: Option<String>,
}

/// The layout definition of a page. `updated_at` is in microseconds since the
/// Unix epoch.
#[derive(Clone)]
pub struct PageLayout {
    pub page_slug: PageSlug,
    pub is_landing: bool,
    pub nav_type: NavType,
    pub device_type: Option<String>,
    pub maturity_rating: Option<String>,
    pub priority: i32,
    pub composition: Vec<PageCompositionItem>,
    pub is_active: bool,
    pub updated_at: i64,
}

/// A stored page layout row. Timestamps are in microseconds since the Unix epoch.
pub struct PageLayoutRow {
    pub id: i32,
    pub page_slug: String,
    pub is_landing: bool,
    pub nav_type: String,
    pub device_type: Option<String>,
    pub maturity_rating: Option<String>,
    pub priority: i32,
    pub is_active: bool,
    pub is_deleted: bool,
    pub created_at: i64,
    pub updated_at: i64,
}

/// Map a stored row to the domain layout; `composition` is the row's
/// composition column as parsed (an unreadable one parses as empty).
pub fn map_db_to_domain(row: PageLayoutRow, composition: Vec<PageCompositionItem>) -> (l: PageLayout)
    ensures
        l.page_slug.0 == row.page_slug,
        l.is_landing == row.is_landing,
        l.nav_type == nav_type_of(row.nav_type@),
        l.device_type == row.device_type,
        l.maturity_rating == row.maturity_rating,
        l.priority == row.priority,
        l.composition == composition,
        l.is_active == row.is_active,
        l.updated_at == row.updated_at,
{
    let nav_type = NavType::from_db(row.nav_type.as_str());
    PageLayout {
        page_slug: PageSlug(row.page_slug),
        is_landing: row.is_landing,
        nav_type,
        device_type: row.device_type,
        maturity_rating: row.maturity_rating,
        priority: row.priority,
        composition,
        is_active: row.is_active,
        updated_at: row.updated_at,
    }
}

/// Request to create or update a page layout.
pub struct SavePageLayoutRequest {
    pub page_slug: String,
    pub is_landing: Option<bool>,
    pub nav_type: Option<NavType>,
    pub device_type: Option<String>,
    pub maturity_rating: Option<String>,
    pub priority: Option<i32>,
    pub composition: Vec<PageCompositionItem>,
    pub is_active: Option<bool>,
}

/// Payload for creating or updating a stored page layout; `composition` is
/// JSON text.
pub struct PageLayoutUpsert {
    pub page_slug: String,
    pub is_landing: bool,
    pub nav_type: String,
    pub composition: String,
    pub device_type: Option<String>,
    pub maturity_rating: Option<String>,
    pub priority: i32,
    pub is_active: bool,
}

impl SavePageLayoutRequest {
    /// The stored form of a save request, with its defaults: not a landing
    /// page, hidden, priority 0, active. `composition_json` is the request's
    /// composition as JSON text.
    pub fn into_upsert(self, composition_json: String) -> (u: PageLayoutUpsert)
        ensures
            u.page_slug == self.page_slug,
            u.is_landing == match self.is_landing { Some(b) => b, None => false },
            u.nav_type@ == nav_type_name(match self.nav_type { Some(t) => t, None => NavType::Hidden }),
            u.composition == composition_json,
            u.device_type == self.device_type,
            u.maturity_rating == self.maturity_rating,
            u.priority == match self.priority { Some(p) => p, None => 0i32 },
            u.is_active == match self.is_active { Some(b) => b, None => true },
    {
        let nav_type = match self.nav_type {
            Some(t) => t,
            None => NavType::default(),
        };
        PageLayoutUpsert {
            page_slug: self.page_slug,
            is_landing: match self.is_landing { Some(b) => b, None => false },
            nav_type: nav_type.as_db_str(),
            composition: composition_json,
            device_type: self.device_type,
            maturity_rating: self.maturity_rating,
            priority: match self.priority { Some(p) => p, None => 0 },
            is_active: match self.is_active { Some(b) => b, None => true },
        }
    }
}

/// An entry of the navigation mesh.
pub struct SymphonyNavigation {
    pub slug: String,
    pub title: String,
    pub nav_type: String,
    pub nav_mesh: Vec<SymphonyNavigation>,
    pub landing_slug: String,
    pub total_rows: usize,
    pub request_id: String,
}

/// The key under which a landing layout is registered: its device type and
/// maturity rating, "all" when absent.
pub open spec fn landing_key(l: PageLayout) -> (Seq<char>, Seq<char>) {
    (
        match l.device_type { Some(d) => d@, None => "all"@ },
        match l.maturity_rating { Some(m) => m@, None => "all"@ },
    )
}

/// Whether layout `i` is a landing layout registered under `key`.
pub open spec fn registers(layouts: Seq<PageLayout>, i: int, key: (Seq<char>, Seq<char>)) -> bool {
    layouts[i].is_landing && landing_key(layouts[i]) == key
}

/// Layout `w` is preferred to layout `j`: a higher priority, or the same
/// priority and loaded no earlier.
pub open spec fn preferred(layouts: Seq<PageLayout>, w: int, j: int) -> bool {
    layouts[j].priority < layouts[w].priority || (layouts[j].priority == layouts[w].priority && j <= w)
}

/// Which layout serves each landing key after loading `layouts` in order: of
/// the landing layouts registered under it, the one of highest priority (the
/// last loaded among equals).
pub open spec fn landing_index(layouts: Seq<PageLayout>) -> Map<(Seq<char>, Seq<char>), usize>
    decreases layouts.len(),
{
    if layouts.len() == 0 {
        Map::empty()
    } else {
        let prior = landing_index(layouts.drop_last());
        let l = layouts.last();
        let k = landing_key(l);
        if l.is_landing && (!prior.contains_key(k) || l.priority >= layouts[prior[k] as int].priority) {
            prior.insert(k, (layouts.len() - 1) as usize)
        } else {
            prior
        }
    }
}

/// The landing layout for a key, if one is registered.
pub open spec fn landing_for(layouts: Seq<PageLayout>, key: (Seq<char>, Seq<char>)) -> Option<PageLayout> {
    if landing_index(layouts).contains_key(key) {
        Some(layouts[landing_index(layouts)[key] as int])
    } else {
        None
    }
}

/// The landing page for a context: the layout registered for its device and
/// maturity rating ("all" when absent), else for its device and any maturity,
/// else for any device and maturity.
pub open spec fn landing_resolution(layouts: Seq<PageLayout>, device: Seq<char>, maturity: Seq<char>) -> Option<PageLayout> {
    match landing_for(layouts, (device, maturity)) {
        Some(l) => Some(l),
        None => match landing_for(layouts, (device, "all"@)) {
            Some(l) => Some(l),
            None => landing_for(layouts, ("all"@, "all"@)),
        },
    }
}

/// The indices of the layouts that appear in the navigation mesh (every one
/// not hidden), in load order.
pub open spec fn nav_positions(layouts: Seq<PageLayout>) -> Seq<int>
    decreases layouts.len(),
{
    if layouts.len() == 0 {
        Seq::empty()
    } else {
        let prior = nav_positions(layouts.drop_last());
        if layouts.last().nav_type != NavType::Hidden {
            prior.push(layouts.len() - 1)
        } else {
            prior
        }
    }
}

/// The layout of a page for a context, as the page manager serves it: the
/// active layouts held in memory (the landing page registry and the navigation
/// mesh) and a bounded cache of layouts resolved by slug and context.
pub struct PagesManager {
    layouts: Vec<PageLayout>,
    landing: KeyedTable<(String, String), usize>,
    cache: LruCache<LayoutKey, PageLayout>,
}

/// The cache key of a slug and context, as characters.
pub open spec fn layout_key(slug: Seq<char>, device_type: Option<&str>, maturity_rating: Option<&str>) -> LayoutKeyView {
    (
        slug,
        match device_type { Some(d) => Some(d@), None => None },
        match maturity_rating { Some(m) => Some(m@), None => None },
    )
}

/// The cache after storing `layout` under `key` in a cache that held `before`,
/// with `order` its keys from most to least recently used, made for `cap`
/// entries: the new entry is added (or replaces the old one under the same
/// key) and becomes the most recently used; where the key is new and the cache
/// was full, the least recently used entry was evicted to make room.
pub open spec fn stored_in_cache(
    before: Map<LayoutKeyView, PageLayout>,
    order: Seq<LayoutKeyView>,
    cap: nat,
    key: LayoutKeyView,
    layout: PageLayout,
    after: Map<LayoutKeyView, PageLayout>,
    order_after: Seq<LayoutKeyView>,
) -> bool {
    if before.contains_key(key) || before.len() < cap {
        &&& after == before.insert(key, layout)
        &&& order_after == used_first(order, key)
    } else {
        &&& after == before.remove(order.last()).insert(key, layout)
        &&& order_after == seq![key] + order.drop_last()
    }
}

/// The cache with every entry for `slug` dropped.
pub open spec fn without_slug(cached: Map<LayoutKeyView, PageLayout>, slug: Seq<char>) -> Map<LayoutKeyView, PageLayout> {
    cached.restrict(cached.dom().filter(|k: LayoutKeyView| k.0 != slug))
}

fn owned_text(o: Option<&str>) -> (r: Option<String>)
    ensures
        match o { Some(t) => r matches Some(s) && s@ == t@, None => r is None },
{
    match o {
        Some(t) => Some(String::from_str(t)),
        None => None,
    }
}

fn cache_key(page_slug: &str, device_type: Option<&str>, maturity_rating: Option<&str>) -> (k: LayoutKey)
    ensures
        key_chars(k) == layout_key(page_slug@, device_type, maturity_rating),
{
    (String::from_str(page_slug), owned_text(device_type), owned_text(maturity_rating))
}

impl PagesManager {
    /// Internal consistency of the manager.
    pub closed spec fn wf(&self) -> bool {
        &&& self.landing.wf()
        &&& self.landing@ == landing_index(self.layouts@)
        &&& self.cached().dom().finite()
        &&& self.cached().len() <= self.cache_capacity()
        &&& self.cache_capacity() > 0
        &&& order_matches(self.cached(), self.cache_order())
    }

    /// The layouts loaded, in load order.
    pub closed spec fn loaded(&self) -> Seq<PageLayout> {
        self.layouts@
    }

    /// The layouts the cache holds, by slug and context.
    pub closed spec fn cached(&self) -> Map<LayoutKeyView, PageLayout> {
        layout_cache_contents(self.cache)
    }

    /// The keys the cache holds, from the most to the least recently used.
    pub closed spec fn cache_order(&self) -> Seq<LayoutKeyView> {
        layout_cache_recency(self.cache)
    }

    /// The number of layouts the cache holds at most.
    pub closed spec fn cache_capacity(&self) -> nat {
        layout_cache_capacity(self.cache)
    }

    /// A manager with nothing loaded and an empty cache of `cache_size` entries.
    pub fn new(cache_size: usize) -> (m: Self)
        requires
            cache_size > 0,
        ensures
            m.wf(),
            m.loaded().len() == 0,
            m.cached() == no_layouts(),
            m.cache_order() == Seq::<LayoutKeyView>::empty(),
            m.cache_capacity() == cache_size,
    {
        let m = PagesManager { layouts: Vec::new(), landing: KeyedTable::new(), cache: lru_new(cache_size) };
        proof {
            assert(order_matches(m.cached(), m.cache_order()));
        }
        m
    }

    /// Replace the loaded layouts with the active ones given, in order, and
    /// empty the cache; returns how many were loaded.
    pub fn load_all_active(&mut self, layouts: Vec<PageLayout>) -> (count: usize)
        requires
            old(self).wf(),
        ensures
            final(self).wf(),
            final(self).loaded() == layouts@,
            final(self).cached() == no_layouts(),
            final(self).cache_order() == Seq::<LayoutKeyView>::empty(),
            final(self).cache_capacity() == old(self).cache_capacity(),
            count == layouts@.len(),
    {
        let mut landing: KeyedTable<(String, String), usize> = KeyedTable::new();
        let mut i: usize = 0;
        while i < layouts.len()
            invariant
                i <= layouts.len(),
                landing.wf(),
                landing@ == landing_index(layouts@.take(i as int)),
            decreases layouts.len() - i,
        {
            proof {
                assert(layouts@.take(i + 1int).drop_last() =~= layouts@.take(i as int));
                assert(layouts@.take(i + 1int).last() == layouts@[i as int]);
            }
            proof {
                lemma_landing_index_bound(layouts@.take(i as int));
            }
            let l = &layouts[i];
            if l.is_landing {
                let device = match &l.device_type {
                    Some(d) => d.clone(),
                    None => String::from_str("all"),
                };
                let maturity = match &l.maturity_rating {
                    Some(m) => m.clone(),
                    None => String::from_str("all"),
                };
                let key = (device, maturity);
                let replaces = match landing.get(&key) {
                    Some(j) => {
                        proof {
                            assert(layouts@.take(i as int)[*j as int] == layouts@[*j as int]);
                        }
                        l.priority >= layouts[*j].priority
                    },
                    None => true,
                };
                if replaces {
                    landing.insert(key, i);
                }
            }
            i += 1;
        }
        proof {
            assert(layouts@.take(layouts@.len() as int) =~= layouts@);
        }
        let count = layouts.len();
        self.layouts = layouts;
        self.landing = landing;
        lru_clear(&mut self.cache);
        proof {
            assert(order_matches(self.cached(), self.cache_order()));
        }
        count
    }

    /// Resolve the landing page for a device and maturity context.
    pub fn get_landing_page_contextual(
        &self,
        device_type: Option<&str>,
        maturity_rating: Option<&str>,
        identity_key: Option<&str>,
    ) -> (r: Option<&PageLayout>)
        requires
            self.wf(),
        ensures
            r is Some == landing_resolution(
                self.loaded(),
                match device_type { Some(d) => d@, None => "all"@ },
                match maturity_rating { Some(m) => m@, None => "all"@ },
            ) is Some,
            r matches Some(l) ==> *l == landing_resolution(
                self.loaded(),
                match device_type { Some(d) => d@, None => "all"@ },
                match maturity_rating { Some(m) => m@, None => "all"@ },
            )->0,
    {
        let device = match device_type {
            Some(d) => String::from_str(d),
            None => String::from_str("all"),
        };
        let maturity = match maturity_rating {
            Some(m) => String::from_str(m),
            None => String::from_str("all"),
        };
        let exact = (device.clone(), maturity);
        match self.lookup(&exact) {
            Some(l) => Some(l),
            None => {
                let device_only = (device, String::from_str("all"));
                match self.lookup(&device_only) {
                    Some(l) => Some(l),
                    None => {
                        let any = (String::from_str("all"), String::from_str("all"));
                        self.lookup(&any)
                    },
                }
            },
        }
    }

    fn lookup(&self, key: &(String, String)) -> (r: Option<&PageLayout>)
        requires
            self.wf(),
        ensures
            r is Some == landing_for(self.loaded(), key@) is Some,
            r matches Some(l) ==> *l == landing_for(self.loaded(), key@)->0,
    {
        proof {
            lemma_landing_index_bound(self.layouts@);
        }
        match self.landing.get(key) {
            Some(i) => Some(&self.layouts[*i]),
            None => None,
        }
    }

    /// The cached layout for a slug and context, if any; the entry becomes
    /// the most recently used one. On a miss the caller resolves the best
    /// matching layout and hands it to `store_layout`.
    pub fn get_layout_contextual(
        &mut self,
        page_slug: &str,
        device_type: Option<&str>,
        maturity_rating: Option<&str>,
        identity_key: Option<&str>,
    ) -> (r: Option<&PageLayout>)
        requires
            old(self).wf(),
        ensures
            final(self).wf(),
            final(self).loaded() == old(self).loaded(),
            final(self).cached() == old(self).cached(),
            final(self).cache_order() == if old(self).cached().contains_key(layout_key(page_slug@, device_type, maturity_rating)) {
                used_first(old(self).cache_order(), layout_key(page_slug@, device_type, maturity_rating))
            } else {
                old(self).cache_order()
            },
            final(self).cache_capacity() == old(self).cache_capacity(),
            r is Some == old(self).cached().contains_key(layout_key(page_slug@, device_type, maturity_rating)),
            r matches Some(l) ==> *l == old(self).cached()[layout_key(page_slug@, device_type, maturity_rating)],
    {
        let key = cache_key(page_slug, device_type, maturity_rating);
        lru_get(&mut self.cache, &key)
    }

    /// Remember the layout resolved for a slug and context.
    pub fn store_layout(
        &mut self,
        page_slug: &str,
        device_type: Option<&str>,
        maturity_rating: Option<&str>,
        layout: PageLayout,
    )
        requires
            old(self).wf(),
        ensures
            final(self).wf(),
            final(self).loaded() == old(self).loaded(),
            final(self).cache_capacity() == old(self).cache_capacity(),
            stored_in_cache(
                old(self).cached(),
                old(self).cache_order(),
                old(self).cache_capacity(),
                layout_key(page_slug@, device_type, maturity_rating),
                layout,
                final(self).cached(),
                final(self).cache_order(),
            ),
    {
        let key = cache_key(page_slug, device_type, maturity_rating);
        lru_put(&mut self.cache, key, layout);
        proof {
            law_cache_bounded(
                old(self).cached(),
                old(self).cache_order(),
                old(self).cache_capacity(),
                layout_key(page_slug@, device_type, maturity_rating),
                layout,
                self.cached(),
                self.cache_order(),
            );
        }
    }

    /// Drop every cached layout of a page, whatever its context.
    pub fn invalidate_cache(&mut self, slug: &str)
        requires
            old(self).wf(),
        ensures
            final(self).wf(),
            final(self).loaded() == old(self).loaded(),
            final(self).cache_capacity() == old(self).cache_capacity(),
            final(self).cached() == without_slug(old(self).cached(), slug@),
    {
        let keys = lru_keys(&self.cache);
        let ghost before = self.cached();
        let mut i: usize = 0;
        while i < keys.len()
            invariant
                i <= keys@.len(),
                self.layouts == old(self).layouts,
                self.landing == old(self).landing,
                self.cache_capacity() == old(self).cache_capacity(),
                before == old(self).cached(),
                keys@.len() == before.len(),
                forall|j: int| 0 <= j < keys@.len() ==> before.contains_key(#[trigger] key_chars(keys@[j])),
                forall|k: LayoutKeyView| #[trigger] before.contains_key(k)
                    ==> exists|j: int| 0 <= j < keys@.len() && key_chars(keys@[j]) == k,
                self.cached().dom().finite(),
                self.cached().len() <= before.len(),
                order_matches(self.cached(), self.cache_order()),
                forall|k: LayoutKeyView| #[trigger] self.cached().contains_key(k) <==> (
                    before.contains_key(k) && !(k.0 == slug@ && exists|j: int| 0 <= j < i && key_chars(keys@[j]) == k)
                ),
                forall|k: LayoutKeyView| #[trigger] self.cached().contains_key(k) ==> self.cached()[k] == before[k],
            decreases keys@.len() - i,
        {
            let key = &keys[i];
            if crate::text::same_text(key.0.as_str(), slug) {
                let _ = lru_pop(&mut self.cache, key);
            }
            proof {
                assert forall|k: LayoutKeyView| #[trigger] self.cached().contains_key(k) <==> (
                    before.contains_key(k) && !(k.0 == slug@ && exists|j: int| 0 <= j < i + 1 && key_chars(keys@[j]) == k)
                ) by {
                    if k == key_chars(keys@[i as int]) {
                    } else {
                        if exists|j: int| 0 <= j < i + 1 && key_chars(keys@[j]) == k {
                            let j = choose|j: int| 0 <= j < i + 1 && key_chars(keys@[j]) == k;
                            assert(j < i);
                        }
                    }
                }
            }
            i += 1;
        }
        proof {
            assert(self.cached() =~= without_slug(before, slug@));
        }
    }

    /// The navigation mesh: every layout that is not hidden, in load order,
    /// titled by its slug with underscores read as spaces.
    pub fn get_nav_mesh_contextual(&self, identity_key: Option<&str>) -> (mesh: Vec<SymphonyNavigation>)
        ensures
            mesh@.len() == nav_positions(self.loaded()).len(),
            forall|i: int| 0 <= i < mesh@.len() ==> {
                let l = #[trigger] self.loaded()[nav_positions(self.loaded())[i]];
                &&& mesh@[i].slug@ == l.page_slug.0@
                &&& mesh@[i].title@ == substituted(l.page_slug.0@, '_', ' ')
                &&& mesh@[i].nav_type@ == nav_type_name(l.nav_type)
                &&& mesh@[i].nav_mesh@.len() == 0
                &&& mesh@[i].landing_slug@.len() == 0
                &&& mesh@[i].total_rows == 0
                &&& mesh@[i].request_id@.len() == 0
            },
    {
        let mut mesh: Vec<SymphonyNavigation> = Vec::new();
        let ghost positions: Seq<int> = Seq::empty();
        let mut i: usize = 0;
        while i < self.layouts.len()
            invariant
                i <= self.layouts.len(),
                positions == nav_positions(self.layouts@.take(i as int)),
                mesh@.len() == positions.len(),
                forall|p: int| 0 <= p < positions.len() ==> 0 <= #[trigger] positions[p] < i,
                forall|p: int| 0 <= p < mesh@.len() ==> {
                    let l = #[trigger] self.layouts@[positions[p]];
                    &&& mesh@[p].slug@ == l.page_slug.0@
                    &&& mesh@[p].title@ == substituted(l.page_slug.0@, '_', ' ')
                    &&& mesh@[p].nav_type@ == nav_type_name(l.nav_type)
                    &&& mesh@[p].nav_mesh@.len() == 0
                    &&& mesh@[p].landing_slug@.len() == 0
                    &&& mesh@[p].total_rows == 0
                    &&& mesh@[p].request_id@.len() == 0
                },
            decreases self.layouts.len() - i,
        {
            proof {
                assert(self.layouts@.take(i + 1int).drop_last() =~= self.layouts@.take(i as int));
                assert(self.layouts@.take(i + 1int).last() == self.layouts@[i as int]);
            }
            let l = &self.layouts[i];
            let hidden = match l.nav_type {
                NavType::Hidden => true,
                _ => false,
            };
            if !hidden {
                let entry = SymphonyNavigation {
                    slug: l.page_slug.0.clone(),
                    title: replace_char(l.page_slug.0.as_str(), '_', ' '),
                    nav_type: l.nav_type.as_db_str(),
                    nav_mesh: Vec::new(),
                    landing_slug: String::new(),
                    total_rows: 0,
                    request_id: String::new(),
                };
                mesh.push(entry);
                proof {
                    positions = positions.push(i as int);
                }
            }
            i += 1;
        }
        proof {
            assert(self.layouts@.take(self.layouts@.len() as int) =~= self.layouts@);
        }
        mesh
    }
}

proof fn lemma_landing_index_bound(layouts: Seq<PageLayout>)
    ensures
        forall|k: (Seq<char>, Seq<char>)| #[trigger] landing_index(layouts).contains_key(k) ==> landing_index(layouts)[k] < layouts.len(),
    decreases layouts.len(),
{
    if layouts.len() > 0 {
        let prefix = layouts.drop_last();
        lemma_landing_index_bound(prefix);
        assert forall|k: (Seq<char>, Seq<char>)| #[trigger] landing_index(layouts).contains_key(k) implies landing_index(layouts)[k] < layouts.len() by {
            if landing_index(prefix).contains_key(k) && landing_index(layouts)[k] == landing_index(prefix)[k] {
            } else {
                assert(k == landing_key(layouts.last()));
            }
        }
    }
}

/// Law: a navigation type read back from its stored name is itself.
pub proof fn law_nav_type_round_trip(t: NavType)
    ensures
        nav_type_of(nav_type_name(t)) == t,
{
    reveal_strlit("main");
    reveal_strlit("sub");
    reveal_strlit("hidden");
    assert("sub"@.len() != "main"@.len());
    assert("hidden"@.len() != "main"@.len());
    assert("hidden"@.len() != "sub"@.len());
}

proof fn lemma_landing_winner(layouts: Seq<PageLayout>, key: (Seq<char>, Seq<char>))
    requires
        layouts.len() <= usize::MAX,
    ensures
        landing_index(layouts).contains_key(key) <==> exists|i: int| 0 <= i < layouts.len() && #[trigger] registers(layouts, i, key),
        landing_index(layouts).contains_key(key) ==> {
            let w = landing_index(layouts)[key] as int;
            &&& 0 <= w < layouts.len()
            &&& registers(layouts, w, key)
            &&& forall|j: int| 0 <= j < layouts.len() && #[trigger] registers(layouts, j, key) ==> preferred(layouts, w, j)
        },
    decreases layouts.len(),
{
    if layouts.len() > 0 {
        let prefix = layouts.drop_last();
        let n = layouts.len() - 1;
        lemma_landing_winner(prefix, key);
        assert(layouts.last() == layouts[n]);
        assert forall|i: int| 0 <= i < n implies #[trigger] registers(prefix, i, key) == registers(layouts, i, key) by {
            assert(prefix[i] == layouts[i]);
        }
        let prior = landing_index(prefix);
        if prior.contains_key(key) {
            let w = prior[key] as int;
            assert(prefix[w] == layouts[w]);
        }
        if exists|i: int| 0 <= i < layouts.len() && #[trigger] registers(layouts, i, key) {
            let i = choose|i: int| 0 <= i < layouts.len() && #[trigger] registers(layouts, i, key);
            if i < n {
                assert(registers(prefix, i, key));
            } else {
                assert(landing_key(layouts.last()) == key);
                assert(landing_index(layouts).contains_key(key));
            }
        }
        if landing_index(layouts).contains_key(key) && !prior.contains_key(key) {
            assert(landing_key(layouts.last()) == key);
            assert(registers(layouts, n, key));
        }
        if exists|i: int| 0 <= i < prefix.len() && #[trigger] registers(prefix, i, key) {
            let i = choose|i: int| 0 <= i < prefix.len() && #[trigger] registers(prefix, i, key);
            assert(registers(layouts, i, key));
        }
        if landing_index(layouts).contains_key(key) {
            let w = landing_index(layouts)[key] as int;
            assert forall|j: int| 0 <= j < layouts.len() && #[trigger] registers(layouts, j, key) implies preferred(layouts, w, j) by {
                if j < n {
                    assert(registers(prefix, j, key));
                }
            }
        }
    }
}

/// Law: after loading, the landing page under a key is a landing layout
/// loaded with that key whose priority is the highest among them (the last
/// loaded among equals), and a key no landing layout has is not registered.
pub proof fn law_landing_highest_priority_wins(layouts: Seq<PageLayout>, key: (Seq<char>, Seq<char>))
    requires
        layouts.len() <= usize::MAX,
    ensures
        landing_for(layouts, key) is Some <==> exists|i: int| 0 <= i < layouts.len() && #[trigger] registers(layouts, i, key),
        landing_for(layouts, key) matches Some(l) ==> exists|w: int|
            0 <= w < layouts.len() && #[trigger] registers(layouts, w, key) && l == layouts[w]
            && forall|j: int| 0 <= j < layouts.len() && #[trigger] registers(layouts, j, key) ==> preferred(layouts, w, j),
{
    lemma_landing_winner(layouts, key);
    if landing_index(layouts).contains_key(key) {
        let w = landing_index(layouts)[key] as int;
        assert(registers(layouts, w, key));
    }
}

/// Law: when a landing layout for every device and maturity is loaded, a
/// landing page is resolved for every context.
pub proof fn law_landing_catch_all(layouts: Seq<PageLayout>, device: Seq<char>, maturity: Seq<char>)
    requires
        layouts.len() <= usize::MAX,
        exists|i: int| 0 <= i < layouts.len() && #[trigger] registers(layouts, i, ("all"@, "all"@)),
    ensures
        landing_resolution(layouts, device, maturity) is Some,
{
    law_landing_highest_priority_wins(layouts, ("all"@, "all"@));
}

/// Law: the navigation mesh lists, in load order and once each, exactly the
/// loaded layouts that are not hidden.
pub proof fn law_nav_mesh_lists_visible(layouts: Seq<PageLayout>)
    ensures
        forall|p: int| 0 <= p < nav_positions(layouts).len() ==> {
            let i = #[trigger] nav_positions(layouts)[p];
            0 <= i < layouts.len() && layouts[i].nav_type != NavType::Hidden
        },
        forall|p: int, q: int| 0 <= p < q < nav_positions(layouts).len()
            ==> #[trigger] nav_positions(layouts)[p] < #[trigger] nav_positions(layouts)[q],
        forall|i: int| 0 <= i < layouts.len() && #[trigger] layouts[i].nav_type != NavType::Hidden
            ==> nav_positions(layouts).contains(i),
    decreases layouts.len(),
{
    if layouts.len() > 0 {
        let prefix = layouts.drop_last();
        let n = layouts.len() - 1;
        law_nav_mesh_lists_visible(prefix);
        let before = nav_positions(prefix);
        assert forall|p: int| 0 <= p < before.len() implies {
            let i = #[trigger] before[p];
            0 <= i < n && layouts[i].nav_type != NavType::Hidden
        } by {
            assert(prefix[before[p]] == layouts[before[p]]);
        }
        assert forall|i: int| 0 <= i < layouts.len() && #[trigger] layouts[i].nav_type != NavType::Hidden
            implies nav_positions(layouts).contains(i) by {
            if i < n {
                assert(prefix[i] == layouts[i]);
                assert(before.contains(i));
                let p = choose|p: int| 0 <= p < before.len() && before[p] == i;
                if layouts[n].nav_type != NavType::Hidden {
                    assert(nav_positions(layouts)[p] == i);
                }
            } else {
                assert(nav_positions(layouts) == before.push(n));
                assert(nav_positions(layouts)[before.len() as int] == n);
            }
        }
    }
}

/// Law: a layout stored for a slug and context is what the cache holds for
/// them afterwards, and no other entry changes value; entries are only ever
/// added under the stored key or evicted.
pub proof fn law_cache_read_after_store(
    before: Map<LayoutKeyView, PageLayout>,
    order: Seq<LayoutKeyView>,
    cap: nat,
    key: LayoutKeyView,
    layout: PageLayout,
    after: Map<LayoutKeyView, PageLayout>,
    order_after: Seq<LayoutKeyView>,
)
    requires
        stored_in_cache(before, order, cap, key, layout, after, order_after),
    ensures
        after.contains_key(key),
        after[key] == layout,
        order_after[0] == key,
        forall|k: LayoutKeyView| #[trigger] after.contains_key(k) && k != key ==> before.contains_key(k) && after[k] == before[k],
{
}

proof fn lemma_last_is_held(before: Map<LayoutKeyView, PageLayout>, order: Seq<LayoutKeyView>)
    requires
        before.dom().finite(),
        before.len() > 0,
        order_matches(before, order),
    ensures
        order.len() > 0,
        before.contains_key(order.last()),
{
    let k = before.dom().choose();
    assert(before.dom().contains(k));
    assert(order.contains(k));
    assert(order.contains(order[order.len() - 1]));
}

/// Law: a cache never holds more layouts than it was made for.
pub proof fn law_cache_bounded(
    before: Map<LayoutKeyView, PageLayout>,
    order: Seq<LayoutKeyView>,
    cap: nat,
    key: LayoutKeyView,
    layout: PageLayout,
    after: Map<LayoutKeyView, PageLayout>,
    order_after: Seq<LayoutKeyView>,
)
    requires
        before.dom().finite(),
        before.len() <= cap,
        cap > 0,
        order_matches(before, order),
        stored_in_cache(before, order, cap, key, layout, after, order_after),
    ensures
        after.dom().finite(),
        after.len() <= cap,
{
    if !(before.contains_key(key) || before.len() < cap) {
        lemma_last_is_held(before, order);
        assert(before.remove(order.last()).len() == before.len() - 1);
    }
}

/// Law: when a layout is stored under a new key in a full cache, the entry
/// evicted is the least recently used one, every other entry stays, and the
/// new entry becomes the most recently used.
pub proof fn law_cache_evicts_least_recent(
    before: Map<LayoutKeyView, PageLayout>,
    order: Seq<LayoutKeyView>,
    cap: nat,
    key: LayoutKeyView,
    layout: PageLayout,
    after: Map<LayoutKeyView, PageLayout>,
    order_after: Seq<LayoutKeyView>,
)
    requires
        before.dom().finite(),
        cap > 0,
        before.len() >= cap,
        !before.contains_key(key),
        order_matches(before, order),
        stored_in_cache(before, order, cap, key, layout, after, order_after),
    ensures
        order.len() > 0,
        before.contains_key(order.last()),
        !after.contains_key(order.last()),
        forall|k: LayoutKeyView| #[trigger] before.contains_key(k) && k != order.last() ==> after.contains_key(k) && after[k] == before[k],
        order_after == seq![key] + order.drop_last(),
{
    lemma_last_is_held(before, order);
}

/// Law: invalidating a page drops every cached layout of that page, whatever
/// its context, and keeps every other entry as it was.
pub proof fn law_invalidate_drops_only_slug(cached: Map<LayoutKeyView, PageLayout>, slug: Seq<char>)
    ensures
        forall|k: LayoutKeyView| #[trigger] without_slug(cached, slug).contains_key(k)
            <==> cached.contains_key(k) && k.0 != slug,
        forall|k: LayoutKeyView| #[trigger] without_slug(cached, slug).contains_key(k)
            ==> without_slug(cached, slug)[k] == cached[k],
{
}

} // verus!
