//! Device-specific discovery configuration, held in memory per device type
//! with a fallback to the "default" device and then to built-in values.

use vstd::prelude::*;
use crate::table::KeyedTable;

verus! {

/// The current time in microseconds since the Unix epoch
/// (`chrono::Utc::now`, read as `timestamp_micros`). Nothing is promised of
/// the value: it is the machine's clock.
#[verifier::external_body]
pub(crate) fn current_time_micros() -> (t: i64) {
    chrono::Utc::now().timestamp_micros()
}

/// Device-specific discovery and orchestration configuration. `updated_at`
/// is in microseconds since the Unix epoch.
pub struct DiscoveryConfig {
    pub device_type: String,
    pub initial_batch_size: i32,
    pub continuation_batch_size: i32,
    pub prewarm_lookahead: i32,
    pub ghost_ttl_seconds: i32,
    pub cache_ttl_seconds: i32,
    pub updated_at: i64,
}

impl DiscoveryConfig {
    /// A copy of this configuration.
    pub fn duplicate(&self) -> (c: Self)
        ensures
            c == *self,
    {
        DiscoveryConfig {
            device_type: self.device_type.clone(),
            initial_batch_size: self.initial_batch_size,
            continuation_batch_size: self.continuation_batch_size,
            prewarm_lookahead: self.prewarm_lookahead,
            ghost_ttl_seconds: self.ghost_ttl_seconds,
            cache_ttl_seconds: self.cache_ttl_seconds,
            updated_at: self.updated_at,
        }
    }
}

/// The built-in configuration used when neither the device nor "default"
/// has one: device "fallback", batches, look-ahead and TTLs of 5, 5, 5, 300
/// and 300.
pub open spec fn is_fallback_config(c: DiscoveryConfig) -> bool {
    &&& c.device_type@ == "fallback"@
    &&& c.initial_batch_size == 5
    &&& c.continuation_batch_size == 5
    &&& c.prewarm_lookahead == 5
    &&& c.ghost_ttl_seconds == 300
    &&& c.cache_ttl_seconds == 300
}

/// The map from device type to configuration that loading `configs` in order
/// gives (a later configuration of a device replaces an earlier one).
pub open spec fn config_map(configs: Seq<DiscoveryConfig>) -> Map<Seq<char>, DiscoveryConfig>
    decreases configs.len(),
{
    if configs.len() == 0 {
        Map::empty()
    } else {
        config_map(configs.drop_last()).insert(configs.last().device_type@, configs.last())
    }
}

/// Law: after a reload, the configuration held for each device type is the
/// last one loaded for it, and only loaded device types are held.
pub proof fn law_reload_last_config_wins(configs: Seq<DiscoveryConfig>, device: Seq<char>)
    ensures
        config_map(configs).contains_key(device) <==> exists|i: int| 0 <= i < configs.len() && #[trigger] configs[i].device_type@ == device,
        forall|i: int|
            0 <= i < configs.len() && #[trigger] configs[i].device_type@ == device
            && (forall|j: int| i < j < configs.len() ==> configs[j].device_type@ != device)
            ==> config_map(configs)[device] == configs[i],
    decreases configs.len(),
{
    if configs.len() > 0 {
        let prefix = configs.drop_last();
        law_reload_last_config_wins(prefix, device);
        let n = configs.len() - 1;
        if configs.last().device_type@ != device {
            assert((exists|i: int| 0 <= i < configs.len() && #[trigger] configs[i].device_type@ == device)
                <==> (exists|i: int| 0 <= i < prefix.len() && #[trigger] prefix[i].device_type@ == device)) by {
                if exists|i: int| 0 <= i < configs.len() && #[trigger] configs[i].device_type@ == device {
                    let i = choose|i: int| 0 <= i < configs.len() && #[trigger] configs[i].device_type@ == device;
                    assert(i < n);
                    assert(prefix[i] == configs[i]);
                }
                if exists|i: int| 0 <= i < prefix.len() && #[trigger] prefix[i].device_type@ == device {
                    let i = choose|i: int| 0 <= i < prefix.len() && #[trigger] prefix[i].device_type@ == device;
                    assert(prefix[i] == configs[i]);
                }
            }
            assert forall|i: int|
                0 <= i < configs.len() && #[trigger] configs[i].device_type@ == device
                && (forall|j: int| i < j < configs.len() ==> configs[j].device_type@ != device)
                implies config_map(configs)[device] == configs[i] by {
                assert(prefix[i] == configs[i]);
                assert forall|j: int| i < j < prefix.len() implies prefix[j].device_type@ != device by {
                    assert(prefix[j] == configs[j]);
                }
            }
        } else {
            assert(configs[n].device_type@ == device);
            assert forall|i: int|
                0 <= i < configs.len() && #[trigger] configs[i].device_type@ == device
                && (forall|j: int| i < j < configs.len() ==> configs[j].device_type@ != device)
                implies config_map(configs)[device] == configs[i] by {
                if i < n {
                    assert(configs[n].device_type@ != device);
                }
            }
        }
    }
}

/// In-memory discovery configurations by device type.
pub struct DiscoveryRegistry {
    configs: KeyedTable<String, DiscoveryConfig>,
}

impl DiscoveryRegistry {
    /// Internal consistency.
    pub closed spec fn wf(&self) -> bool {
        self.configs.wf()
    }

    /// The configurations by device type.
    pub closed spec fn configs(&self) -> Map<Seq<char>, DiscoveryConfig> {
        self.configs@
    }

    /// An empty registry.
    pub fn new() -> (r: Self)
        ensures
            r.wf(),
            r.configs() == Map::<Seq<char>, DiscoveryConfig>::empty(),
    {
        DiscoveryRegistry { configs: KeyedTable::new() }
    }

    /// Replace the configurations with freshly loaded ones; returns how many
    /// were loaded.
    pub fn reload(&mut self, configs: Vec<DiscoveryConfig>) -> (count: usize)
        ensures
            final(self).wf(),
            final(self).configs() == config_map(configs@),
            count == configs@.len(),
    {
        let ghost all = configs@;
        let count = configs.len();
        let mut table: KeyedTable<String, DiscoveryConfig> = KeyedTable::new();
        let mut n: usize = 0;
        for config in it: configs.into_iter()
            invariant
                it.seq() == all,
                n == it.index(),
                n <= all.len(),
                all.len() == count,
                table.wf(),
                table@ == config_map(all.take(n as int)),
        {
            proof {
                assert(all.take(n + 1int).drop_last() =~= all.take(n as int));
                assert(all.take(n + 1int).last() == all[n as int]);
            }
            let key = config.device_type.clone();
            table.insert(key, config);
            n += 1;
        }
        proof {
            assert(all.take(all.len() as int) =~= all);
        }
        self.configs = table;
        count
    }

    /// The configuration for a device (the "default" device when none is
    /// given), else the "default" configuration, else the built-in one
    /// stamped with the current time.
    pub fn get_discovery_config(&self, device_type: Option<&str>) -> (c: DiscoveryConfig)
        requires
            self.wf(),
        ensures
            ({
                let device = match device_type { Some(d) => d@, None => "default"@ };
                if self.configs().contains_key(device) {
                    c == self.configs()[device]
                } else if self.configs().contains_key("default"@) {
                    c == self.configs()["default"@]
                } else {
                    is_fallback_config(c)
                }
            }),
    {
        let device = match device_type {
            Some(d) => String::from_str(d),
            None => String::from_str("default"),
        };
        match self.configs.get(&device) {
            Some(c) => c.duplicate(),
            None => {
                let default_key = String::from_str("default");
                match self.configs.get(&default_key) {
                    Some(c) => c.duplicate(),
                    None => DiscoveryConfig {
                        device_type: String::from_str("fallback"),
                        initial_batch_size: 5,
                        continuation_batch_size: 5,
                        prewarm_lookahead: 5,
                        ghost_ttl_seconds: 300,
                        cache_ttl_seconds: 300,
                        updated_at: current_time_micros(),
                    },
                }
            },
        }
    }
}

} // verus!
