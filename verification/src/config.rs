//! Configuration: providers and combos as read from `config.toml`, and the
//! state and orchestrator seeded from it. Reading the file and the
//! environment is left to the caller.

use vstd::prelude::*;
use vstd::string::*;
use crate::orchestrator::{Orchestrator, ProviderEntry, combo_table_of, registry_of};
use crate::state::{ModelStored, ProviderStored, StoredState};
use crate::text::{first_index_of, lemma_first_index_is, lemma_first_index_of};
use crate::types::{Combo, FusionConfig, ModelInfo, Strategy, Target};

verus! {

/// HTTP server settings.
#[derive(Debug)]
pub struct ServerCfg {
    pub port: u16,
}

/// The default listening port.
pub fn default_port() -> (r: u16)
    ensures
        r == 20128,
{
    20128
}

impl Default for ServerCfg {
    fn default() -> (r: Self)
        ensures
            r.port == 20128,
    {
        ServerCfg { port: default_port() }
    }
}

/// A configured model.
#[derive(Debug)]
pub struct ModelCfg {
    pub id: String,
    pub name: Option<String>,
}

/// A configured provider: a literal API key, or the name of an environment
/// variable holding it (preferred).
#[derive(Debug)]
pub struct ProviderCfg {
    pub id: String,
    pub base_url: String,
    pub api_key: Option<String>,
    pub api_key_env: Option<String>,
    pub models: Vec<ModelCfg>,
}

/// A configured combo; `strategy` is `fallback`, `round_robin` (or
/// `round-robin`) or `fusion`, the fusion settings default when absent.
#[derive(Debug)]
pub struct ComboCfg {
    pub name: String,
    pub targets: Vec<Target>,
    pub strategy: String,
    pub sticky: u32,
    pub min_panel: Option<usize>,
    pub grace_ms: Option<u64>,
    pub hard_timeout_ms: Option<u64>,
    pub judge: Option<Target>,
}

/// The default `sticky` of a configured combo.
pub fn one() -> (r: u32)
    ensures
        r == 1,
{
    1
}

/// The whole configuration file.
#[derive(Debug)]
pub struct Config {
    pub server: ServerCfg,
    pub providers: Vec<ProviderCfg>,
    pub combos: Vec<ComboCfg>,
}

impl Default for Config {
    fn default() -> (r: Self)
        ensures
            r.server.port == 20128,
            r.providers@.len() == 0,
            r.combos@.len() == 0,
    {
        Config { server: ServerCfg::default(), providers: Vec::new(), combos: Vec::new() }
    }
}

/// The strategy a combo's settings name: round-robin for `round_robin` or
/// `round-robin`, fusion (with defaults for absent settings) for `fusion`,
/// fallback for anything else.
pub open spec fn strategy_for(c: ComboCfg) -> Strategy {
    if c.strategy@ == "round_robin"@ || c.strategy@ == "round-robin"@ {
        Strategy::RoundRobin { sticky: c.sticky }
    } else if c.strategy@ == "fusion"@ {
        Strategy::Fusion(
            FusionConfig {
                min_panel: match c.min_panel {
                    Some(m) => m,
                    None => 2,
                },
                grace_ms: match c.grace_ms {
                    Some(g) => g,
                    None => 8_000,
                },
                hard_timeout_ms: match c.hard_timeout_ms {
                    Some(h) => h,
                    None => 90_000,
                },
                judge: c.judge,
            },
        )
    } else {
        Strategy::Fallback
    }
}

/// The given value, else `d`.
pub open spec fn given_or<T>(o: Option<T>, d: T) -> T {
    match o {
        Some(v) => v,
        None => d,
    }
}

proof fn lemma_strategy_names_distinct()
    ensures
        "fusion"@ != "round_robin"@,
        "fusion"@ != "round-robin"@,
{
    reveal_strlit("fusion");
    reveal_strlit("round_robin");
    reveal_strlit("round-robin");
    assert("fusion"@.len() != "round_robin"@.len());
    assert("fusion"@.len() != "round-robin"@.len());
}

/// **Combo settings are kept.** A `round_robin` (or `round-robin`) combo
/// rotates with the configured `sticky`; a `fusion` combo keeps the
/// configured judge and each given quorum and timeout (else 2 panelists,
/// 8 s grace, 90 s hard timeout); any other strategy name is a fallback.
pub proof fn law_combo_settings(c: ComboCfg)
    ensures
        (c.strategy@ == "round_robin"@ || c.strategy@ == "round-robin"@) ==> strategy_for(c)
            == (Strategy::RoundRobin { sticky: c.sticky }),
        c.strategy@ == "fusion"@ ==> (strategy_for(c) matches Strategy::Fusion(f) && f.judge
            == c.judge && f.min_panel == given_or(c.min_panel, 2) && f.grace_ms
            == given_or(c.grace_ms, 8_000) && f.hard_timeout_ms == given_or(
            c.hard_timeout_ms,
            90_000,
        )),
        (c.strategy@ != "round_robin"@ && c.strategy@ != "round-robin"@ && c.strategy@
            != "fusion"@) ==> strategy_for(c) == Strategy::Fallback,
{
    lemma_strategy_names_distinct();
}

impl ComboCfg {
    /// The combo these settings describe.
    pub fn into_combo(self) -> (c: Combo)
        ensures
            c.name == self.name,
            c.targets == self.targets,
            c.strategy == strategy_for(self),
            (self.strategy@ == "round_robin"@ || self.strategy@ == "round-robin"@) ==> c.strategy
                == (Strategy::RoundRobin { sticky: self.sticky }),
            self.strategy@ == "fusion"@ ==> (c.strategy matches Strategy::Fusion(f) && f.judge
                == self.judge && f.min_panel == given_or(self.min_panel, 2) && f.grace_ms
                == given_or(self.grace_ms, 8_000) && f.hard_timeout_ms == given_or(
                self.hard_timeout_ms,
                90_000,
            )),
            (self.strategy@ != "round_robin"@ && self.strategy@ != "round-robin"@ && self.strategy@
                != "fusion"@) ==> c.strategy == Strategy::Fallback,
    {
        proof {
            lemma_strategy_names_distinct();
        }
        let rr1 = String::from_str("round_robin");
        let rr2 = String::from_str("round-robin");
        let fu = String::from_str("fusion");
        let strategy = if self.strategy == rr1 || self.strategy == rr2 {
            Strategy::RoundRobin { sticky: self.sticky }
        } else if self.strategy == fu {
            let d = FusionConfig::default();
            Strategy::Fusion(
                FusionConfig {
                    min_panel: match self.min_panel {
                        Some(m) => m,
                        None => d.min_panel,
                    },
                    grace_ms: match self.grace_ms {
                        Some(g) => g,
                        None => d.grace_ms,
                    },
                    hard_timeout_ms: match self.hard_timeout_ms {
                        Some(h) => h,
                        None => d.hard_timeout_ms,
                    },
                    judge: self.judge,
                },
            )
        } else {
            Strategy::Fallback
        };
        Combo { name: self.name, targets: self.targets, strategy }
    }
}

/// One environment variable, as seen by the caller.
#[derive(Debug)]
pub struct EnvVar {
    pub name: String,
    pub value: String,
}

pub open spec fn env_names(env: Seq<EnvVar>) -> Seq<Seq<char>> {
    env.map_values(|v: EnvVar| v.name@)
}

/// The value of the variable `name` in `env`, if set.
pub open spec fn env_value(env: Seq<EnvVar>, name: Seq<char>) -> Option<Seq<char>> {
    let i = first_index_of(env_names(env), name);
    if i >= 0 {
        Some(env[i].value@)
    } else {
        None
    }
}

/// The API key of a configured provider: the literal key, else the value
/// of its environment variable, else empty.
pub open spec fn api_key_spec(p: ProviderCfg, env: Seq<EnvVar>) -> Seq<char> {
    match p.api_key {
        Some(k) => k@,
        None => match p.api_key_env {
            Some(e) => match env_value(env, e@) {
                Some(v) => v,
                None => Seq::empty(),
            },
            None => Seq::empty(),
        },
    }
}

/// Looks up variable `name` in `env`.
pub fn env_lookup(env: &Vec<EnvVar>, name: &String) -> (r: Option<String>)
    ensures
        match env_value(env@, name@) {
            Some(v) => r matches Some(s) && s@ == v,
            None => r is None,
        },
{
    let ghost keys = env_names(env@);
    proof {
        lemma_first_index_of(keys, name@);
    }
    let mut i: usize = 0;
    while i < env.len()
        invariant
            i <= env@.len(),
            keys == env_names(env@),
            forall|k: int| 0 <= k < i ==> keys[k] != name@,
        decreases env.len() - i,
    {
        if env[i].name == *name {
            proof {
                lemma_first_index_is(keys, name@, i as int);
            }
            return Some(env[i].value.clone());
        }
        i = i + 1;
    }
    None
}

/// Resolves a configured provider's API key.
pub fn resolve_api_key(p: &ProviderCfg, env: &Vec<EnvVar>) -> (r: String)
    ensures
        r@ == api_key_spec(*p, env@),
{
    match &p.api_key {
        Some(k) => k.clone(),
        None => match &p.api_key_env {
            Some(e) => match env_lookup(env, e) {
                Some(v) => v,
                None => String::new(),
            },
            None => String::new(),
        },
    }
}

/// `s` is the stored form of configured provider `p`.
pub open spec fn stored_from_cfg(s: ProviderStored, p: ProviderCfg, env: Seq<EnvVar>) -> bool {
    &&& s.id == p.id
    &&& s.base_url == p.base_url
    &&& s.api_key@ == api_key_spec(p, env)
    &&& s.models@.len() == p.models@.len()
    &&& forall|k: int|
        0 <= k < s.models@.len() ==> (#[trigger] s.models@[k]).id == p.models@[k].id
            && s.models@[k].name == p.models@[k].name
}

fn provider_from_cfg(p: ProviderCfg, env: &Vec<EnvVar>) -> (s: ProviderStored)
    ensures
        stored_from_cfg(s, p, env@),
{
    let api_key = resolve_api_key(&p, env);
    let ghost cfg = p;
    let ProviderCfg { id, base_url, api_key: _, api_key_env: _, models } = p;
    let mut rest = models;
    let ghost all = rest@;
    let n = rest.len();
    let mut out: Vec<ModelStored> = Vec::new();
    let mut k: usize = 0;
    while rest.len() > 0
        invariant
            n == all.len(),
            k + rest@.len() == all.len(),
            rest@ == all.subrange(k as int, all.len() as int),
            out@.len() == k,
            forall|j: int|
                0 <= j < k ==> (#[trigger] out@[j]).id == all[j].id && out@[j].name == all[j].name,
        decreases rest.len(),
    {
        let m = rest.remove(0);
        assert(m == all[k as int]);
        out.push(ModelStored { id: m.id, name: m.name });
        k = k + 1;
        assert(rest@ =~= all.subrange(k as int, all.len() as int));
    }
    ProviderStored { id, base_url, api_key, models: out }
}

impl StoredState {
    /// The first-run state seeded from the configuration: its providers
    /// (keys resolved) and combos; no API keys, key not required, no usage.
    pub fn from_config(cfg: Config, env: &Vec<EnvVar>) -> (s: StoredState)
        ensures
            s.providers@.len() == cfg.providers@.len(),
            forall|k: int|
                0 <= k < s.providers@.len() ==> stored_from_cfg(
                    #[trigger] s.providers@[k],
                    cfg.providers@[k],
                    env@,
                ),
            s.combos@.len() == cfg.combos@.len(),
            forall|k: int|
                0 <= k < s.combos@.len() ==> (#[trigger] s.combos@[k]).name == cfg.combos@[k].name
                    && s.combos@[k].targets == cfg.combos@[k].targets && s.combos@[k].strategy
                    == strategy_for(cfg.combos@[k]),
            s.api_keys@.len() == 0,
            !s.require_api_key,
            s.usage@.len() == 0,
            s.request_log@.len() == 0,
    {
        let Config { server: _, providers, combos } = cfg;
        let mut rest = providers;
        let ghost all = rest@;
        let n = rest.len();
        let mut ps: Vec<ProviderStored> = Vec::new();
        let mut k: usize = 0;
        while rest.len() > 0
            invariant
                n == all.len(),
                k + rest@.len() == all.len(),
                rest@ == all.subrange(k as int, all.len() as int),
                ps@.len() == k,
                forall|j: int| 0 <= j < k ==> stored_from_cfg(#[trigger] ps@[j], all[j], env@),
            decreases rest.len(),
        {
            let p = rest.remove(0);
            assert(p == all[k as int]);
            ps.push(provider_from_cfg(p, env));
            k = k + 1;
            assert(rest@ =~= all.subrange(k as int, all.len() as int));
        }
        let mut rest = combos;
        let ghost all_c = rest@;
        let n = rest.len();
        let mut cs: Vec<Combo> = Vec::new();
        let mut k: usize = 0;
        while rest.len() > 0
            invariant
                n == all_c.len(),
                k + rest@.len() == all_c.len(),
                rest@ == all_c.subrange(k as int, all_c.len() as int),
                cs@.len() == k,
                forall|j: int|
                    0 <= j < k ==> (#[trigger] cs@[j]).name == all_c[j].name && cs@[j].targets
                        == all_c[j].targets && cs@[j].strategy == strategy_for(all_c[j]),
            decreases rest.len(),
        {
            let c = rest.remove(0);
            assert(c == all_c[k as int]);
            cs.push(c.into_combo());
            k = k + 1;
            assert(rest@ =~= all_c.subrange(k as int, all_c.len() as int));
        }
        StoredState {
            providers: ps,
            combos: cs,
            api_keys: Vec::new(),
            require_api_key: false,
            usage: Vec::new(),
            request_log: Vec::new(),
        }
    }
}

/// `e` is the registry entry of configured provider `p`: its id and its
/// models, an unnamed model named after its id.
pub open spec fn entry_from_cfg(e: ProviderEntry, p: ProviderCfg) -> bool {
    &&& e.id@ == p.id@
    &&& e.models@.len() == p.models@.len()
    &&& forall|k: int|
        0 <= k < e.models@.len() ==> (#[trigger] e.models@[k]).id@ == p.models@[k].id@
            && e.models@[k].name@ == match p.models@[k].name {
            Some(n) => n@,
            None => p.models@[k].id@,
        }
}

/// The orchestrator for a configuration.
pub fn build_orchestrator(cfg: Config) -> (o: Orchestrator)
    ensures
        o.wf(),
        exists|es: Seq<ProviderEntry>|
            es.len() == cfg.providers@.len() && (forall|k: int|
                0 <= k < es.len() ==> entry_from_cfg(#[trigger] es[k], cfg.providers@[k]))
                && o.providers_view() == registry_of(es),
        exists|cs: Seq<Combo>|
            cs.len() == cfg.combos@.len() && (forall|k: int|
                0 <= k < cs.len() ==> (#[trigger] cs[k]).name == cfg.combos@[k].name && cs[k].targets
                    == cfg.combos@[k].targets && cs[k].strategy == strategy_for(cfg.combos@[k]))
                && o.combos_view() == combo_table_of(cs),
{
    let Config { server: _, providers, combos } = cfg;
    let mut entries: Vec<ProviderEntry> = Vec::new();
    let mut k: usize = 0;
    while k < providers.len()
        invariant
            k <= providers@.len(),
            entries@.len() == k,
            forall|j: int| 0 <= j < k ==> entry_from_cfg(#[trigger] entries@[j], providers@[j]),
        decreases providers.len() - k,
    {
        let p = &providers[k];
        let mut models: Vec<ModelInfo> = Vec::new();
        let mut j: usize = 0;
        while j < p.models.len()
            invariant
                j <= p.models@.len(),
                models@.len() == j,
                forall|t: int|
                    0 <= t < j ==> (#[trigger] models@[t]).id@ == p.models@[t].id@ && models@[t].name@
                        == match p.models@[t].name {
                        Some(n) => n@,
                        None => p.models@[t].id@,
                    },
            decreases p.models.len() - j,
        {
            let m = &p.models[j];
            let name = match &m.name {
                Some(n) => n.clone(),
                None => m.id.clone(),
            };
            models.push(ModelInfo { id: m.id.clone(), name });
            j = j + 1;
        }
        entries.push(ProviderEntry { id: p.id.clone(), models });
        k = k + 1;
    }
    let mut rest = combos;
    let ghost all_c = rest@;
    let n = rest.len();
    let mut cs: Vec<Combo> = Vec::new();
    let mut k: usize = 0;
    while rest.len() > 0
        invariant
            n == all_c.len(),
            k + rest@.len() == all_c.len(),
            rest@ == all_c.subrange(k as int, all_c.len() as int),
            cs@.len() == k,
            forall|j: int|
                0 <= j < k ==> (#[trigger] cs@[j]).name == all_c[j].name && cs@[j].targets
                    == all_c[j].targets && cs@[j].strategy == strategy_for(all_c[j]),
        decreases rest.len(),
    {
        let c = rest.remove(0);
        assert(c == all_c[k as int]);
        cs.push(c.into_combo());
        k = k + 1;
        assert(rest@ =~= all_c.subrange(k as int, all_c.len() as int));
    }
    Orchestrator::new(entries, cs)
}

} // verus!
