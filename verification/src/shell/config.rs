use vstd::prelude::*;

verus! {

/// The graphics API behind an adapter.
#[derive(Copy, Clone, Debug, PartialEq, Eq, Structural)]
pub enum Backend {
    Noop,
    Vulkan,
    Metal,
    Dx12,
    Gl,
    BrowserWebGpu,
}

/// Which adapter to prefer when none is cached.
#[derive(Copy, Clone, Debug, PartialEq, Eq, Structural)]
pub enum PowerPreference {
    NoPreference,
    LowPower,
    HighPerformance,
}

impl Default for PowerPreference {
    /// Power usage is not considered.
    fn default() -> (r: Self)
        ensures
            r == PowerPreference::NoPreference,
    {
        PowerPreference::NoPreference
    }
}

/// How the device should balance speed against memory use.
#[derive(Copy, Clone, Debug, PartialEq, Eq, Structural)]
pub enum MemoryPreference {
    Performance,
    MemoryUsage,
}

/// What identifies an adapter: the name its driver reports and its backend.
#[derive(Debug)]
pub struct AdapterInfo {
    pub name: String,
    pub backend: Backend,
}

/// What the library reads of a cached adapter.
pub struct AdapterCacheView {
    pub name: Seq<char>,
    pub backend: Backend,
}

/// An adapter remembered from an earlier run, or one that failed.
#[derive(Debug)]
pub struct AdapterCache {
    name: String,
    backend: Backend,
}

impl View for AdapterCache {
    type V = AdapterCacheView;

    closed spec fn view(&self) -> AdapterCacheView {
        AdapterCacheView { name: self.name@, backend: self.backend }
    }
}

/// Whether a cached adapter names the adapter `info` describes.
pub open spec fn names_adapter(cache: AdapterCacheView, info: AdapterInfo) -> bool {
    cache.name == info.name@ && cache.backend == info.backend
}

impl AdapterCache {
    /// The cache entry of the adapter with the given name and backend.
    pub fn new(name: String, backend: Backend) -> (r: Self)
        ensures
            r@ == (AdapterCacheView { name: name@, backend }),
    {
        Self { name, backend }
    }

    /// The cache entry of the adapter `info` describes.
    pub fn of(info: &AdapterInfo) -> (r: Self)
        ensures
            r@ == (AdapterCacheView { name: info.name@, backend: info.backend }),
    {
        Self { name: info.name.clone(), backend: info.backend }
    }

    /// The adapter name.
    pub fn name(&self) -> (r: &str)
        ensures
            r@ == self@.name,
    {
        self.name.as_str()
    }

    /// The adapter backend.
    pub fn backend(&self) -> (r: Backend)
        ensures
            r == self@.backend,
    {
        self.backend
    }

    /// Whether this entry names the adapter `info` describes.
    pub fn is_matched(&self, info: &AdapterInfo) -> (r: bool)
        ensures
            r == names_adapter(self@, *info),
    {
        self.name == info.name && self.backend == info.backend
    }
}

impl Clone for AdapterCache {
    fn clone(&self) -> (r: Self)
        ensures
            r@ == self@,
    {
        Self { name: self.name.clone(), backend: self.backend }
    }
}

impl PartialEq for AdapterCache {
    fn eq(&self, other: &Self) -> (r: bool) {
        self.name == other.name && self.backend == other.backend
    }
}

impl vstd::std_specs::cmp::PartialEqSpecImpl for AdapterCache {
    open spec fn obeys_eq_spec() -> bool {
        true
    }

    open spec fn eq_spec(&self, other: &AdapterCache) -> bool {
        self@ == other@
    }
}

/// What the library reads of the settings that need a new device to change.
pub struct ColdConfigView {
    pub debug: bool,
    pub power_preference: PowerPreference,
    pub memory_hints: MemoryPreference,
    pub adapter: Option<AdapterCacheView>,
}

/// Settings that take a new instance, adapter and device to change.
#[derive(Debug)]
pub struct ColdConfig {
    pub debug: bool,
    pub power_preference: PowerPreference,
    pub memory_hints: MemoryPreference,
    pub adapter: Option<AdapterCache>,
}

/// The view of an optional cached adapter.
pub open spec fn adapter_view(a: Option<AdapterCache>) -> Option<AdapterCacheView> {
    match a {
        Some(c) => Some(c@),
        None => None,
    }
}

impl View for ColdConfig {
    type V = ColdConfigView;

    open spec fn view(&self) -> ColdConfigView {
        ColdConfigView {
            debug: self.debug,
            power_preference: self.power_preference,
            memory_hints: self.memory_hints,
            adapter: adapter_view(self.adapter),
        }
    }
}

impl Clone for ColdConfig {
    fn clone(&self) -> (r: Self)
        ensures
            r@ == self@,
    {
        let adapter = match &self.adapter {
            Some(c) => Some(c.clone()),
            None => None,
        };
        Self {
            debug: self.debug,
            power_preference: self.power_preference,
            memory_hints: self.memory_hints,
            adapter,
        }
    }
}

impl PartialEq for ColdConfig {
    fn eq(&self, other: &Self) -> (r: bool) {
        let same_adapter = match (&self.adapter, &other.adapter) {
            (Some(a), Some(b)) => a.eq(b),
            (None, None) => true,
            _ => false,
        };
        self.debug == other.debug && self.power_preference == other.power_preference
            && self.memory_hints == other.memory_hints && same_adapter
    }
}

impl vstd::std_specs::cmp::PartialEqSpecImpl for ColdConfig {
    open spec fn obeys_eq_spec() -> bool {
        true
    }

    open spec fn eq_spec(&self, other: &ColdConfig) -> bool {
        self@ == other@
    }
}

/// Settings that the surface can take without a new device.
#[derive(Copy, Clone, Debug, PartialEq, Eq, Structural)]
pub struct HotConfig {
    pub vsync: bool,
}

/// What the library reads of the whole configuration.
pub struct ConfigView {
    pub cold: ColdConfigView,
    pub hot: HotConfig,
}

/// The whole configuration of the rendering context.
#[derive(Debug)]
pub struct Config {
    pub cold: ColdConfig,
    pub hot: HotConfig,
}

impl View for Config {
    type V = ConfigView;

    open spec fn view(&self) -> ConfigView {
        ConfigView { cold: self.cold@, hot: self.hot }
    }
}

impl Clone for Config {
    fn clone(&self) -> (r: Self)
        ensures
            r@ == self@,
    {
        Self { cold: self.cold.clone(), hot: self.hot }
    }
}

impl PartialEq for Config {
    fn eq(&self, other: &Self) -> (r: bool) {
        self.cold.eq(&other.cold) && self.hot == other.hot
    }
}

impl vstd::std_specs::cmp::PartialEqSpecImpl for Config {
    open spec fn obeys_eq_spec() -> bool {
        true
    }

    open spec fn eq_spec(&self, other: &Config) -> bool {
        self@ == other@
    }
}

impl Config {
    /// The configuration the shell starts with: no debugging, no power preference, memory
    /// tuned for performance, no cached adapter, and no vertical sync.
    pub fn startup() -> (r: Self)
        ensures
            r@ == (ConfigView {
                cold: ColdConfigView {
                    debug: false,
                    power_preference: PowerPreference::NoPreference,
                    memory_hints: MemoryPreference::Performance,
                    adapter: None,
                },
                hot: HotConfig { vsync: false },
            }),
    {
        Config {
            cold: ColdConfig {
                debug: false,
                power_preference: PowerPreference::default(),
                memory_hints: MemoryPreference::Performance,
                adapter: None,
            },
            hot: HotConfig { vsync: false },
        }
    }
}

} // verus!
