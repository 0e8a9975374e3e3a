//! The AI provider settings (`ai-config.json`): the active provider with its
//! key, endpoint and model, and a cache of the settings last used with each
//! provider, so that switching back restores them.
use vstd::prelude::*;
use vstd::hash_map::StringHashMap;
use crate::text::{copy_string, string_of, str_eq};

verus! {

/// Key, endpoint and model of one provider.
#[derive(Debug, Clone)]
pub struct ProviderSettings {
    pub api_key: String,
    pub base_url: String,
    pub model: String,
}

/// Key, endpoint and model, as text.
pub type SettingsView = (Seq<char>, Seq<char>, Seq<char>);

impl View for ProviderSettings {
    type V = SettingsView;

    open spec fn view(&self) -> SettingsView {
        (self.api_key@, self.base_url@, self.model@)
    }
}

impl ProviderSettings {
    /// A field-by-field copy.
    pub fn duplicate(&self) -> (r: Self)
        ensures
            r@ == self@,
    {
        ProviderSettings {
            api_key: copy_string(&self.api_key),
            base_url: copy_string(&self.base_url),
            model: copy_string(&self.model),
        }
    }
}

/// The provider names of the entries are all different.
pub open spec fn keys_distinct(s: Seq<(String, ProviderSettings)>) -> bool {
    forall|i: int, j: int| 0 <= i < j < s.len() ==> #[trigger] s[i].0@ != #[trigger] s[j].0@
}

/// The map from provider name to settings that the entries describe.
pub open spec fn entries_map(s: Seq<(String, ProviderSettings)>) -> Map<Seq<char>, SettingsView>
    decreases s.len(),
{
    if s.len() == 0 {
        Map::empty()
    } else {
        entries_map(s.drop_last()).insert(s.last().0@, s.last().1@)
    }
}

/// A provider is in the map exactly when some entry names it.
proof fn lemma_entries_map_keys(s: Seq<(String, ProviderSettings)>, k: Seq<char>)
    ensures
        entries_map(s).contains_key(k) <==> exists|i: int| 0 <= i < s.len() && #[trigger] s[i].0@ == k,
    decreases s.len(),
{
    if s.len() > 0 {
        lemma_entries_map_keys(s.drop_last(), k);
        if exists|i: int| 0 <= i < s.len() - 1 && #[trigger] s.drop_last()[i].0@ == k {
            let i = choose|i: int| 0 <= i < s.len() - 1 && #[trigger] s.drop_last()[i].0@ == k;
            assert(s[i].0@ == k);
        }
        if exists|i: int| 0 <= i < s.len() && #[trigger] s[i].0@ == k {
            let i = choose|i: int| 0 <= i < s.len() && #[trigger] s[i].0@ == k;
            if i < s.len() - 1 {
                assert(s.drop_last()[i].0@ == k);
            }
        }
    }
}

/// With distinct names, the map gives each entry's settings.
proof fn lemma_entries_map_value(s: Seq<(String, ProviderSettings)>, i: int)
    requires
        keys_distinct(s),
        0 <= i < s.len(),
    ensures
        entries_map(s).contains_key(s[i].0@),
        entries_map(s)[s[i].0@] == s[i].1@,
    decreases s.len(),
{
    if i < s.len() - 1 {
        let t = s.drop_last();
        assert(t[i] == s[i]);
        assert(keys_distinct(t));
        lemma_entries_map_value(t, i);
        assert(s[i].0@ != s[s.len() - 1].0@);
    }
}

/// The settings last used with each provider, at most one entry per provider.
pub struct ProviderCache {
    settings: StringHashMap<ProviderSettings>,
    /// The cached providers, each named once.
    names: Vec<String>,
}

/// Some name of the list is `k`.
pub open spec fn names_have(names: Seq<String>, k: Seq<char>) -> bool {
    exists|i: int| 0 <= i < names.len() && #[trigger] names[i]@ == k
}

impl View for ProviderCache {
    type V = Map<Seq<char>, SettingsView>;

    closed spec fn view(&self) -> Map<Seq<char>, SettingsView> {
        self.settings@.map_values(|s: ProviderSettings| s@)
    }
}

impl ProviderCache {
    /// `names` lists the cached providers, each once.
    #[verifier::type_invariant]
    closed spec fn inv(&self) -> bool {
        &&& forall|i: int, j: int|
            0 <= i < j < self.names@.len() ==> #[trigger] self.names@[i]@ != #[trigger] self.names@[j]@
        &&& forall|i: int|
            0 <= i < self.names@.len() ==> self.settings@.contains_key(#[trigger] self.names@[i]@)
        &&& forall|k: Seq<char>| #[trigger] self.settings@.contains_key(k) ==> names_have(self.names@, k)
    }

    /// An empty cache.
    pub fn new() -> (r: Self)
        ensures
            r@ == Map::<Seq<char>, SettingsView>::empty(),
    {
        let r = ProviderCache { settings: StringHashMap::new(), names: Vec::new() };
        assert(r@ =~= Map::<Seq<char>, SettingsView>::empty());
        r
    }

    /// Whether the cache holds no provider.
    pub fn is_empty(&self) -> (r: bool)
        ensures
            r <==> self@ == Map::<Seq<char>, SettingsView>::empty(),
    {
        proof {
            use_type_invariant(self);
        }
        let r = self.names.len() == 0;
        proof {
            if r {
                assert(self@ =~= Map::<Seq<char>, SettingsView>::empty());
            } else {
                let k = self.names@[0]@;
                assert(self@.contains_key(k));
                assert(!Map::<Seq<char>, SettingsView>::empty().contains_key(k));
            }
        }
        r
    }

    /// The settings cached for a provider.
    pub fn get(&self, provider: &str) -> (r: Option<&ProviderSettings>)
        ensures
            match r {
                Some(s) => self@.contains_key(provider@) && s@ == self@[provider@],
                None => !self@.contains_key(provider@),
            },
    {
        self.settings.get(provider)
    }

    /// Whether a provider has cached settings.
    pub fn contains_key(&self, provider: &str) -> (r: bool)
        ensures
            r == self@.contains_key(provider@),
    {
        self.settings.contains_key(provider)
    }

    /// Cache settings for a provider, replacing what was cached for it.
    pub fn insert(&mut self, provider: String, settings: ProviderSettings)
        ensures
            final(self)@ == old(self)@.insert(provider@, settings@),
    {
        let mut taken = ProviderCache::new();
        std::mem::swap(&mut taken, self);
        proof {
            use_type_invariant(&taken);
        }
        let ghost before = taken@;
        let ProviderCache { settings: mut map, names: mut names } = taken;
        let ghost names0 = names@;
        let ghost map0 = map@;
        if !map.contains_key(provider.as_str()) {
            names.push(copy_string(&provider));
            proof {
                assert forall|i: int, j: int| 0 <= i < j < names@.len() implies #[trigger] names@[i]@
                    != #[trigger] names@[j]@ by {
                    if j == names0.len() {
                        assert(names@[i] == names0[i]);
                        assert(map0.contains_key(names0[i]@));
                    } else {
                        assert(names0[i]@ != names0[j]@);
                    }
                }
            }
        }
        let ghost names1 = names@;
        map.insert(provider, settings);
        proof {
            assert forall|i: int| 0 <= i < names1.len() implies map@.contains_key(
                #[trigger] names1[i]@,
            ) by {
                if i < names0.len() {
                    assert(names1[i] == names0[i]);
                    assert(map0.contains_key(names0[i]@));
                }
            }
            assert forall|k: Seq<char>| #[trigger] map@.contains_key(k) implies names_have(names1, k) by {
                if k == provider@ && !map0.contains_key(k) {
                    assert(names1[names0.len() as int]@ == k);
                } else {
                    assert(map0.contains_key(k));
                    let i = choose|i: int| 0 <= i < names0.len() && #[trigger] names0[i]@ == k;
                    assert(names1[i] == names0[i]);
                }
            }
        }
        *self = ProviderCache { settings: map, names };
        assert(self@ =~= before.insert(provider@, settings@));
    }

    /// The cached providers and their settings, one entry per provider.
    pub fn entries(&self) -> (r: Vec<(String, ProviderSettings)>)
        ensures
            keys_distinct(r@),
            entries_map(r@) == self@,
    {
        proof {
            use_type_invariant(self);
        }
        let n = self.names.len();
        let mut out: Vec<(String, ProviderSettings)> = Vec::new();
        let mut i: usize = 0;
        while i < n
            invariant
                n == self.names@.len(),
                forall|a: int| 0 <= a < n ==> self.settings@.contains_key(#[trigger] self.names@[a]@),
                i <= n,
                out@.len() == i,
                forall|j: int|
                    #![trigger out@[j]]
                    0 <= j < i ==> out@[j].0@ == self.names@[j]@ && out@[j].1@
                        == self@[self.names@[j]@],
            decreases n - i,
        {
            let name = &self.names[i];
            match self.settings.get(name.as_str()) {
                Some(s) => {
                    out.push((copy_string(name), s.duplicate()));
                },
                None => {
                    assert(self.settings@.contains_key(self.names@[i as int]@));
                },
            }
            i = i + 1;
        }
        proof {
            let o = out@;
            assert(keys_distinct(o)) by {
                assert forall|a: int, b: int| 0 <= a < b < o.len() implies #[trigger] o[a].0@
                    != #[trigger] o[b].0@ by {
                    assert(self.names@[a]@ != self.names@[b]@);
                }
            }
            assert forall|k: Seq<char>| #[trigger] entries_map(o).contains_key(k)
                <==> self@.contains_key(k) by {
                lemma_entries_map_keys(o, k);
                if self@.contains_key(k) {
                    assert(names_have(self.names@, k));
                    let a = choose|a: int| 0 <= a < n && #[trigger] self.names@[a]@ == k;
                    assert(o[a].0@ == k);
                }
                if exists|j: int| 0 <= j < o.len() && #[trigger] o[j].0@ == k {
                    let j = choose|j: int| 0 <= j < o.len() && #[trigger] o[j].0@ == k;
                    assert(self.names@[j]@ == k);
                }
            }
            assert forall|k: Seq<char>| #[trigger] entries_map(o).contains_key(k) implies entries_map(
                o,
            )[k] == self@[k] by {
                lemma_entries_map_keys(o, k);
                let j = choose|j: int| 0 <= j < o.len() && #[trigger] o[j].0@ == k;
                lemma_entries_map_value(o, j);
            }
            assert(entries_map(o) =~= self@);
        }
        out
    }
}

/// The AI configuration: the active provider's settings and the cache.
pub struct AiApiConfig {
    pub provider: String,
    pub api_key: String,
    pub base_url: String,
    pub model: String,
    pub provider_cache: ProviderCache,
}

/// The text of an AI configuration.
pub struct AiConfigView {
    pub provider: Seq<char>,
    pub api_key: Seq<char>,
    pub base_url: Seq<char>,
    pub model: Seq<char>,
    pub cache: Map<Seq<char>, SettingsView>,
}

impl View for AiApiConfig {
    type V = AiConfigView;

    open spec fn view(&self) -> AiConfigView {
        AiConfigView {
            provider: self.provider@,
            api_key: self.api_key@,
            base_url: self.base_url@,
            model: self.model@,
            cache: self.provider_cache@,
        }
    }
}

/// The settings a configuration uses now.
pub open spec fn current_settings(c: AiConfigView) -> SettingsView {
    (c.api_key, c.base_url, c.model)
}

/// `value` unless it is empty, in which case `fallback`.
pub open spec fn or_cached(value: Seq<char>, fallback: Seq<char>) -> Seq<char> {
    if value.len() == 0 {
        fallback
    } else {
        value
    }
}

/// A configuration as it is used after loading: when the active provider has
/// cached settings, its empty fields are filled from them; otherwise its
/// current settings are cached for it.
pub open spec fn normalized(c: AiConfigView) -> AiConfigView {
    if c.cache.contains_key(c.provider) {
        let cached = c.cache[c.provider];
        AiConfigView {
            provider: c.provider,
            api_key: or_cached(c.api_key, cached.0),
            base_url: or_cached(c.base_url, cached.1),
            model: or_cached(c.model, cached.2),
            cache: c.cache,
        }
    } else {
        AiConfigView {
            provider: c.provider,
            api_key: c.api_key,
            base_url: c.base_url,
            model: c.model,
            cache: c.cache.insert(c.provider, current_settings(c)),
        }
    }
}

/// A configuration as it is saved: the current settings cached for the
/// active provider.
pub open spec fn persisted(c: AiConfigView) -> AiConfigView {
    AiConfigView {
        provider: c.provider,
        api_key: c.api_key,
        base_url: c.base_url,
        model: c.model,
        cache: c.cache.insert(c.provider, current_settings(c)),
    }
}

/// Saving keeps every provider's cached settings: the active provider's
/// entry holds its current key, endpoint and model, every other provider is
/// cached exactly when it was before, with the same settings, and the active
/// settings themselves are saved as they are.
pub proof fn saving_keeps_cached_providers(c: AiConfigView)
    ensures
        persisted(c).provider == c.provider,
        persisted(c).api_key == c.api_key,
        persisted(c).base_url == c.base_url,
        persisted(c).model == c.model,
        persisted(c).cache.contains_key(c.provider),
        persisted(c).cache[c.provider] == (c.api_key, c.base_url, c.model),
        forall|k: Seq<char>|
            k != c.provider ==> (#[trigger] persisted(c).cache.contains_key(k)
                <==> c.cache.contains_key(k)),
        forall|k: Seq<char>|
            k != c.provider && c.cache.contains_key(k) ==> #[trigger] persisted(c).cache[k]
                == c.cache[k],
{
}

/// The default configuration: DashScope with its public endpoint and the
/// `wan2.7-image` model, no key, nothing cached.
pub open spec fn default_config_view() -> AiConfigView {
    AiConfigView {
        provider: "dashscope"@,
        api_key: Seq::empty(),
        base_url: "https://dashscope.aliyuncs.com/api/v1"@,
        model: "wan2.7-image"@,
        cache: Map::empty(),
    }
}

impl Default for AiApiConfig {
    /// DashScope with its public endpoint and the `wan2.7-image` model, no key,
    /// nothing cached.
    fn default() -> (r: Self)
        ensures
            r@ == default_config_view(),
            r@.provider == "dashscope"@,
            r@.api_key == Seq::<char>::empty(),
            r@.base_url == "https://dashscope.aliyuncs.com/api/v1"@,
            r@.model == "wan2.7-image"@,
            r@.cache == Map::<Seq<char>, SettingsView>::empty(),
    {
        AiApiConfig {
            provider: string_of("dashscope"),
            api_key: String::new(),
            base_url: string_of("https://dashscope.aliyuncs.com/api/v1"),
            model: string_of("wan2.7-image"),
            provider_cache: ProviderCache::new(),
        }
    }
}

impl AiApiConfig {
    /// The current settings, copied.
    pub fn current(&self) -> (r: ProviderSettings)
        ensures
            r@ == current_settings(self@),
    {
        ProviderSettings {
            api_key: copy_string(&self.api_key),
            base_url: copy_string(&self.base_url),
            model: copy_string(&self.model),
        }
    }

    /// Bring a loaded configuration and its cache in line (see `normalized`).
    pub fn normalize_cache(self) -> (r: Self)
        ensures
            r@ == normalized(self@),
    {
        let mut c = self;
        let ghost before = c@;
        let mut fill: Option<ProviderSettings> = None;
        match c.provider_cache.get(c.provider.as_str()) {
            Some(cached) => {
                fill = Some(cached.duplicate());
            },
            None => {},
        }
        match fill {
            Some(cached) => {
                if c.api_key.as_str().is_empty() {
                    c.api_key = cached.api_key;
                }
                if c.base_url.as_str().is_empty() {
                    c.base_url = cached.base_url;
                }
                if c.model.as_str().is_empty() {
                    c.model = cached.model;
                }
            },
            None => {
                let settings = c.current();
                let provider = copy_string(&c.provider);
                c.provider_cache.insert(provider, settings);
            },
        }
        c
    }

    /// The configuration as it is written to disk (see `persisted`).
    pub fn for_saving(&self) -> (r: Self)
        ensures
            r@ == persisted(self@),
    {
        let entries = self.provider_cache.entries();
        let mut cache = ProviderCache::new();
        let n = entries.len();
        let mut i: usize = 0;
        while i < n
            invariant
                n == entries@.len(),
                keys_distinct(entries@),
                i <= n,
                cache@ == entries_map(entries@.take(i as int)),
            decreases n - i,
        {
            let e = &entries[i];
            cache.insert(copy_string(&e.0), e.1.duplicate());
            assert(entries@.take(i as int + 1).drop_last() =~= entries@.take(i as int));
            i = i + 1;
        }
        assert(entries@.take(n as int) =~= entries@);
        cache.insert(copy_string(&self.provider), self.current());
        AiApiConfig {
            provider: copy_string(&self.provider),
            api_key: copy_string(&self.api_key),
            base_url: copy_string(&self.base_url),
            model: copy_string(&self.model),
            provider_cache: cache,
        }
    }
}

/// The configuration the desktop app uses: the default when no file is
/// stored, otherwise the stored one normalized.
pub fn loaded_ai_config(stored: Option<AiApiConfig>) -> (r: AiApiConfig)
    ensures
        match stored {
            Some(c) => r@ == normalized(c@),
            None => r@ == default_config_view(),
        },
{
    match stored {
        Some(c) => c.normalize_cache(),
        None => AiApiConfig::default(),
    }
}

/// Normalizing twice changes nothing more than normalizing once.
pub proof fn normalize_cache_idempotent(c: AiConfigView)
    ensures
        normalized(normalized(c)) == normalized(c),
{
    let n = normalized(c);
    if c.cache.contains_key(c.provider) {
        assert(normalized(n) =~= n);
    } else {
        assert(n.cache.contains_key(n.provider));
        assert(n.cache[n.provider] == current_settings(c));
        assert(normalized(n).cache =~= n.cache);
    }
}

/// A saved configuration loads back unchanged: normalizing what is written
/// to disk gives the written configuration.
pub proof fn saved_config_loads_back(c: AiConfigView)
    ensures
        normalized(persisted(c)) == persisted(c),
{
    let p = persisted(c);
    assert(p.cache.contains_key(p.provider));
    assert(p.cache[p.provider] == current_settings(c));
}

} // verus!
