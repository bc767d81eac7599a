//! The persisted application state: providers, combos, API keys, the
//! require-key flag, usage counters and the capped request log. Persistence
//! and locking live with the caller; this module holds what each change does.

use vstd::prelude::*;
use vstd::string::*;
use crate::orchestrator::{Orchestrator, ProviderEntry, combo_table_of, registry_of};
use crate::text::{
    byte_boundary, byte_len, char_index_at_byte, first_index_of, lemma_first_index_is,
    lemma_first_index_of, substring, utf8_len,
};
use crate::types::{Combo, ModelInfo, clone_targets};

verus! {

/// A stored model of a provider (the display name is optional).
#[derive(Debug)]
pub struct ModelStored {
    pub id: String,
    pub name: Option<String>,
}

impl Clone for ModelStored {
    fn clone(&self) -> (r: Self)
        ensures
            r == *self,
    {
        ModelStored {
            id: self.id.clone(),
            name: match &self.name {
                Some(n) => Some(n.clone()),
                None => None,
            },
        }
    }
}

/// A stored OpenAI-compatible provider.
#[derive(Clone, Debug)]
pub struct ProviderStored {
    pub id: String,
    pub base_url: String,
    pub api_key: String,
    pub models: Vec<ModelStored>,
}

/// A client API key.
#[derive(Debug)]
pub struct ApiKey {
    pub id: String,
    pub key: String,
    pub name: String,
    pub created_at: u64,
}

impl Clone for ApiKey {
    fn clone(&self) -> (r: Self)
        ensures
            r == *self,
    {
        ApiKey {
            id: self.id.clone(),
            key: self.key.clone(),
            name: self.name.clone(),
            created_at: self.created_at,
        }
    }
}

/// Aggregate counters of one target.
#[derive(Clone, Copy, Debug, PartialEq, Eq, Structural)]
pub struct UsageRow {
    pub requests: u64,
    pub prompt_tokens: u64,
    pub completion_tokens: u64,
}

impl Default for UsageRow {
    fn default() -> (r: Self)
        ensures
            r == (UsageRow { requests: 0, prompt_tokens: 0, completion_tokens: 0 }),
    {
        UsageRow { requests: 0, prompt_tokens: 0, completion_tokens: 0 }
    }
}

/// The counters of one target, keyed by its label.
#[derive(Clone, Debug)]
pub struct UsageEntry {
    pub target: String,
    pub row: UsageRow,
}

/// One recorded request, kept in a capped log for time-windowed analytics.
#[derive(Debug)]
pub struct LogEntry {
    pub ts: u64,
    pub target: String,
    pub prompt_tokens: u64,
    pub completion_tokens: u64,
    pub status: u16,
    pub stream: bool,
}

impl Clone for LogEntry {
    fn clone(&self) -> (r: Self)
        ensures
            r == *self,
    {
        LogEntry {
            ts: self.ts,
            target: self.target.clone(),
            prompt_tokens: self.prompt_tokens,
            completion_tokens: self.completion_tokens,
            status: self.status,
            stream: self.stream,
        }
    }
}

/// How many requests the log keeps (the newest ones).
pub const MAX_LOG: usize = 5000;

/// The whole persisted state. `usage` holds one entry per target label.
#[derive(Clone, Debug)]
pub struct StoredState {
    pub providers: Vec<ProviderStored>,
    pub combos: Vec<Combo>,
    pub api_keys: Vec<ApiKey>,
    pub require_api_key: bool,
    pub usage: Vec<UsageEntry>,
    pub request_log: Vec<LogEntry>,
}

impl Default for StoredState {
    fn default() -> (r: Self)
        ensures
            r.providers@.len() == 0,
            r.combos@.len() == 0,
            r.api_keys@.len() == 0,
            !r.require_api_key,
            r.usage@.len() == 0,
            r.request_log@.len() == 0,
    {
        StoredState {
            providers: Vec::new(),
            combos: Vec::new(),
            api_keys: Vec::new(),
            require_api_key: false,
            usage: Vec::new(),
            request_log: Vec::new(),
        }
    }
}

pub open spec fn provider_ids(ps: Seq<ProviderStored>) -> Seq<Seq<char>> {
    ps.map_values(|p: ProviderStored| p.id@)
}

pub open spec fn combo_names(cs: Seq<Combo>) -> Seq<Seq<char>> {
    cs.map_values(|c: Combo| c.name@)
}

pub open spec fn usage_targets(us: Seq<UsageEntry>) -> Seq<Seq<char>> {
    us.map_values(|u: UsageEntry| u.target@)
}

/// `ps` after saving provider `p`: the first provider with the same id is
/// replaced (keeping its stored key when `p` leaves the key blank), or `p`
/// is appended.
pub open spec fn upsert_provider_spec(ps: Seq<ProviderStored>, p: ProviderStored) -> Seq<ProviderStored> {
    let i = first_index_of(provider_ids(ps), p.id@);
    if i >= 0 {
        ps.update(
            i,
            if p.api_key@.len() == 0 {
                ProviderStored { api_key: ps[i].api_key, ..p }
            } else {
                p
            },
        )
    } else {
        ps.push(p)
    }
}

/// `ps` without the providers called `id`, order kept.
pub open spec fn without_provider(ps: Seq<ProviderStored>, id: Seq<char>) -> Seq<ProviderStored>
    decreases ps.len(),
{
    if ps.len() == 0 {
        Seq::empty()
    } else if ps.last().id@ == id {
        without_provider(ps.drop_last(), id)
    } else {
        without_provider(ps.drop_last(), id).push(ps.last())
    }
}

/// `cs` after saving combo `c`: the first combo with the same name is
/// replaced, or `c` is appended.
pub open spec fn upsert_combo_spec(cs: Seq<Combo>, c: Combo) -> Seq<Combo> {
    let i = first_index_of(combo_names(cs), c.name@);
    if i >= 0 {
        cs.update(i, c)
    } else {
        cs.push(c)
    }
}

/// `cs` without the combos called `name`, order kept.
pub open spec fn without_combo(cs: Seq<Combo>, name: Seq<char>) -> Seq<Combo>
    decreases cs.len(),
{
    if cs.len() == 0 {
        Seq::empty()
    } else if cs.last().name@ == name {
        without_combo(cs.drop_last(), name)
    } else {
        without_combo(cs.drop_last(), name).push(cs.last())
    }
}

/// `ks` without the keys whose id is `id`, order kept.
pub open spec fn without_key(ks: Seq<ApiKey>, id: Seq<char>) -> Seq<ApiKey>
    decreases ks.len(),
{
    if ks.len() == 0 {
        Seq::empty()
    } else if ks.last().id@ == id {
        without_key(ks.drop_last(), id)
    } else {
        without_key(ks.drop_last(), id).push(ks.last())
    }
}

/// `row` after one more request of `prompt` + `completion` tokens.
pub open spec fn bump(row: UsageRow, prompt: u64, completion: u64) -> UsageRow {
    UsageRow {
        requests: (row.requests + 1) as u64,
        prompt_tokens: (row.prompt_tokens + prompt) as u64,
        completion_tokens: (row.completion_tokens + completion) as u64,
    }
}

/// The counters of `target` can take one more request without overflowing.
pub open spec fn record_fits_spec(us: Seq<UsageEntry>, target: Seq<char>, prompt: u64, completion: u64) -> bool {
    let i = first_index_of(usage_targets(us), target);
    i >= 0 ==> {
        &&& us[i].row.requests < u64::MAX
        &&& us[i].row.prompt_tokens + prompt <= u64::MAX
        &&& us[i].row.completion_tokens + completion <= u64::MAX
    }
}

/// The log after appending `e`, keeping only the newest `MAX_LOG` entries.
pub open spec fn capped_log(log: Seq<LogEntry>, e: LogEntry) -> Seq<LogEntry> {
    let l = log.push(e);
    if l.len() > MAX_LOG {
        l.subrange(l.len() - MAX_LOG, l.len() as int)
    } else {
        l
    }
}

/// Some key of `ks` is `key`.
pub open spec fn has_key(ks: Seq<ApiKey>, key: Seq<char>) -> bool {
    exists|i: int| 0 <= i < ks.len() && ks[i].key@ == key
}

/// The last (at most) 8 characters of a key, skipping one character per
/// byte beyond 8 (as `key.chars().skip(key.len() - 8)` does).
pub open spec fn short_id_spec(key: Seq<char>) -> Seq<char> {
    let skip: int = if byte_len(key) > 8 {
        byte_len(key) - 8
    } else {
        0
    };
    if skip < key.len() {
        key.subrange(skip, key.len() as int)
    } else {
        Seq::empty()
    }
}

/// The short id of an API key.
pub fn short_id(key: &str) -> (r: String)
    ensures
        r@ == short_id_spec(key@),
{
    let b = utf8_len(key);
    let n = key.unicode_len();
    let skip = if b > 8 {
        b - 8
    } else {
        0
    };
    if skip < n {
        substring(key, skip, n)
    } else {
        String::new()
    }
}

/// `n` bullets.
pub open spec fn bullets(n: nat) -> Seq<char>
    decreases n,
{
    if n == 0 {
        Seq::empty()
    } else {
        bullets((n - 1) as nat) + "\u{2022}"@
    }
}

/// `key` can be masked: short keys always; longer ones when bytes 8 and
/// `len - 4` fall on character boundaries (slicing elsewhere panics).
pub open spec fn maskable(key: Seq<char>) -> bool {
    byte_len(key) <= 12 || ((exists|i: int| #[trigger] byte_boundary(key, 8, i)) && (exists|j: int|
        #[trigger] byte_boundary(key, (byte_len(key) - 4) as nat, j)))
}

/// The masked display of `key`: one bullet per byte for keys of at most 12
/// bytes, else the first 8 bytes, an ellipsis and the last 4 bytes.
pub open spec fn mask_result(key: Seq<char>, r: Seq<char>) -> bool {
    if byte_len(key) <= 12 {
        r == bullets(byte_len(key))
    } else {
        exists|i: int, j: int|
            #[trigger] byte_boundary(key, 8, i) && #[trigger] byte_boundary(key, (byte_len(key) - 4) as nat, j) && r
                == key.subrange(0, i) + "\u{2026}"@ + key.subrange(j, key.len() as int)
    }
}

/// Masks an API key for display.
pub fn mask(key: &str) -> (r: String)
    requires
        maskable(key@),
    ensures
        mask_result(key@, r@),
{
    let b = utf8_len(key);
    if b <= 12 {
        let mut r = String::new();
        let mut k: usize = 0;
        while k < b
            invariant
                k <= b,
                r@ == bullets(k as nat),
            decreases b - k,
        {
            r.append("\u{2022}");
            k = k + 1;
        }
        return r;
    }
    let i = char_index_at_byte(key, 8);
    let j = char_index_at_byte(key, b - 4);
    match (i, j) {
        (Some(i), Some(j)) => {
            let n = key.unicode_len();
            let mut r = substring(key, 0, i);
            r.append("\u{2026}");
            let tail = substring(key, j, n);
            r.append(tail.as_str());
            r
        },
        _ => {
            assert(false);
            String::new()
        },
    }
}

/// Whether `mask` can mask `key` (longer keys must split at characters).
pub fn can_mask(key: &str) -> (r: bool)
    ensures
        r == maskable(key@),
{
    let b = utf8_len(key);
    if b <= 12 {
        return true;
    }
    let i = char_index_at_byte(key, 8);
    let j = char_index_at_byte(key, b - 4);
    i.is_some() && j.is_some()
}

pub(crate) fn first_provider(ps: &Vec<ProviderStored>, id: &String) -> (r: Option<usize>)
    ensures
        match r {
            Some(i) => i == first_index_of(provider_ids(ps@), id@) && i < ps@.len(),
            None => first_index_of(provider_ids(ps@), id@) < 0,
        },
{
    let ghost keys = provider_ids(ps@);
    proof {
        lemma_first_index_of(keys, id@);
    }
    let mut i: usize = 0;
    while i < ps.len()
        invariant
            i <= ps@.len(),
            keys == provider_ids(ps@),
            forall|k: int| 0 <= k < i ==> keys[k] != id@,
        decreases ps.len() - i,
    {
        if ps[i].id == *id {
            proof {
                lemma_first_index_is(keys, id@, i as int);
            }
            return Some(i);
        }
        i = i + 1;
    }
    None
}

fn first_combo(cs: &Vec<Combo>, name: &String) -> (r: Option<usize>)
    ensures
        match r {
            Some(i) => i == first_index_of(combo_names(cs@), name@) && i < cs@.len(),
            None => first_index_of(combo_names(cs@), name@) < 0,
        },
{
    let ghost keys = combo_names(cs@);
    proof {
        lemma_first_index_of(keys, name@);
    }
    let mut i: usize = 0;
    while i < cs.len()
        invariant
            i <= cs@.len(),
            keys == combo_names(cs@),
            forall|k: int| 0 <= k < i ==> keys[k] != name@,
        decreases cs.len() - i,
    {
        if cs[i].name == *name {
            proof {
                lemma_first_index_is(keys, name@, i as int);
            }
            return Some(i);
        }
        i = i + 1;
    }
    None
}

pub(crate) fn first_usage(us: &Vec<UsageEntry>, target: &String) -> (r: Option<usize>)
    ensures
        match r {
            Some(i) => i == first_index_of(usage_targets(us@), target@) && i < us@.len(),
            None => first_index_of(usage_targets(us@), target@) < 0,
        },
{
    let ghost keys = usage_targets(us@);
    proof {
        lemma_first_index_of(keys, target@);
    }
    let mut i: usize = 0;
    while i < us.len()
        invariant
            i <= us@.len(),
            keys == usage_targets(us@),
            forall|k: int| 0 <= k < i ==> keys[k] != target@,
        decreases us.len() - i,
    {
        if us[i].target == *target {
            proof {
                lemma_first_index_is(keys, target@, i as int);
            }
            return Some(i);
        }
        i = i + 1;
    }
    None
}


impl StoredState {
    /// Saves provider `p`: replaces the first provider with the same id
    /// (keeping its stored API key when `p`'s key is blank, since listings
    /// never return the secret) or appends it.
    pub fn upsert_provider(&mut self, p: ProviderStored)
        ensures
            final(self).providers@ == upsert_provider_spec(old(self).providers@, p),
            final(self).combos@ == old(self).combos@,
            final(self).api_keys@ == old(self).api_keys@,
            final(self).require_api_key == old(self).require_api_key,
            final(self).usage@ == old(self).usage@,
            final(self).request_log@ == old(self).request_log@,
    {
        let mut p = p;
        match first_provider(&self.providers, &p.id) {
            Some(i) => {
                if p.api_key.as_str().is_empty() {
                    p.api_key = self.providers[i].api_key.clone();
                }
                self.providers.set(i, p);
            },
            None => {
                self.providers.push(p);
            },
        }
    }

    /// Removes every provider called `id`.
    pub fn delete_provider(&mut self, id: &str)
        ensures
            final(self).providers@ == without_provider(old(self).providers@, id@),
            final(self).combos@ == old(self).combos@,
            final(self).api_keys@ == old(self).api_keys@,
            final(self).require_api_key == old(self).require_api_key,
            final(self).usage@ == old(self).usage@,
            final(self).request_log@ == old(self).request_log@,
    {
        let id = String::from_str(id);
        let mut rest = Vec::new();
        std::mem::swap(&mut rest, &mut self.providers);
        let ghost all = rest@;
        let n = rest.len();
        let mut kept: Vec<ProviderStored> = Vec::new();
        let mut k: usize = 0;
        while rest.len() > 0
            invariant
                n == all.len(),
                k + rest@.len() == all.len(),
                rest@ == all.subrange(k as int, all.len() as int),
                kept@ == without_provider(all.subrange(0, k as int), id@),
            decreases rest.len(),
        {
            let p = rest.remove(0);
            proof {
                assert(all.subrange(0, k + 1).drop_last() =~= all.subrange(0, k as int));
                assert(all.subrange(0, k + 1).last() == p);
            }
            if p.id != id {
                kept.push(p);
            }
            k = k + 1;
            proof {
                assert(rest@ =~= all.subrange(k as int, all.len() as int));
            }
        }
        assert(all.subrange(0, k as int) =~= all);
        self.providers = kept;
    }

    /// Saves combo `c`: replaces the first combo with the same name or
    /// appends it.
    pub fn upsert_combo(&mut self, c: Combo)
        ensures
            final(self).combos@ == upsert_combo_spec(old(self).combos@, c),
            final(self).providers@ == old(self).providers@,
            final(self).api_keys@ == old(self).api_keys@,
            final(self).require_api_key == old(self).require_api_key,
            final(self).usage@ == old(self).usage@,
            final(self).request_log@ == old(self).request_log@,
    {
        match first_combo(&self.combos, &c.name) {
            Some(i) => {
                self.combos.set(i, c);
            },
            None => {
                self.combos.push(c);
            },
        }
    }

    /// Removes every combo called `name`.
    pub fn delete_combo(&mut self, name: &str)
        ensures
            final(self).combos@ == without_combo(old(self).combos@, name@),
            final(self).providers@ == old(self).providers@,
            final(self).api_keys@ == old(self).api_keys@,
            final(self).require_api_key == old(self).require_api_key,
            final(self).usage@ == old(self).usage@,
            final(self).request_log@ == old(self).request_log@,
    {
        let name = String::from_str(name);
        let mut rest = Vec::new();
        std::mem::swap(&mut rest, &mut self.combos);
        let ghost all = rest@;
        let n = rest.len();
        let mut kept: Vec<Combo> = Vec::new();
        let mut k: usize = 0;
        while rest.len() > 0
            invariant
                n == all.len(),
                k + rest@.len() == all.len(),
                rest@ == all.subrange(k as int, all.len() as int),
                kept@ == without_combo(all.subrange(0, k as int), name@),
            decreases rest.len(),
        {
            let c = rest.remove(0);
            proof {
                assert(all.subrange(0, k + 1).drop_last() =~= all.subrange(0, k as int));
                assert(all.subrange(0, k + 1).last() == c);
            }
            if c.name != name {
                kept.push(c);
            }
            k = k + 1;
            proof {
                assert(rest@ =~= all.subrange(k as int, all.len() as int));
            }
        }
        assert(all.subrange(0, k as int) =~= all);
        self.combos = kept;
    }

    /// Adds the API key `key` (generated by the caller at `created_at`),
    /// identified by its short id, and returns it.
    pub fn create_key(&mut self, key: String, name: String, created_at: u64) -> (ak: ApiKey)
        ensures
            ak.key == key,
            ak.name == name,
            ak.created_at == created_at,
            ak.id@ == short_id_spec(key@),
            final(self).api_keys@ == old(self).api_keys@.push(ak),
            final(self).providers@ == old(self).providers@,
            final(self).combos@ == old(self).combos@,
            final(self).require_api_key == old(self).require_api_key,
            final(self).usage@ == old(self).usage@,
            final(self).request_log@ == old(self).request_log@,
    {
        let id = short_id(key.as_str());
        let ak = ApiKey { id, key, name, created_at };
        self.api_keys.push(ak.clone());
        ak
    }

    /// Removes every key whose id is `id`.
    pub fn delete_key(&mut self, id: &str)
        ensures
            final(self).api_keys@ == without_key(old(self).api_keys@, id@),
            final(self).providers@ == old(self).providers@,
            final(self).combos@ == old(self).combos@,
            final(self).require_api_key == old(self).require_api_key,
            final(self).usage@ == old(self).usage@,
            final(self).request_log@ == old(self).request_log@,
    {
        let id = String::from_str(id);
        let mut rest = Vec::new();
        std::mem::swap(&mut rest, &mut self.api_keys);
        let ghost all = rest@;
        let n = rest.len();
        let mut kept: Vec<ApiKey> = Vec::new();
        let mut k: usize = 0;
        while rest.len() > 0
            invariant
                n == all.len(),
                k + rest@.len() == all.len(),
                rest@ == all.subrange(k as int, all.len() as int),
                kept@ == without_key(all.subrange(0, k as int), id@),
            decreases rest.len(),
        {
            let a = rest.remove(0);
            proof {
                assert(all.subrange(0, k + 1).drop_last() =~= all.subrange(0, k as int));
                assert(all.subrange(0, k + 1).last() == a);
            }
            if a.id != id {
                kept.push(a);
            }
            k = k + 1;
            proof {
                assert(rest@ =~= all.subrange(k as int, all.len() as int));
            }
        }
        assert(all.subrange(0, k as int) =~= all);
        self.api_keys = kept;
    }

    /// Turns the API-key requirement on or off.
    pub fn set_require_key(&mut self, v: bool)
        ensures
            final(self).require_api_key == v,
            final(self).providers@ == old(self).providers@,
            final(self).combos@ == old(self).combos@,
            final(self).api_keys@ == old(self).api_keys@,
            final(self).usage@ == old(self).usage@,
            final(self).request_log@ == old(self).request_log@,
    {
        self.require_api_key = v;
    }

    /// Whether client requests must carry a valid API key.
    pub fn require_api_key(&self) -> (r: bool)
        ensures
            r == self.require_api_key,
    {
        self.require_api_key
    }

    /// Whether `key` is one of the stored API keys.
    pub fn key_valid(&self, key: &str) -> (r: bool)
        ensures
            r == has_key(self.api_keys@, key@),
    {
        let wanted = String::from_str(key);
        let mut i: usize = 0;
        while i < self.api_keys.len()
            invariant
                i <= self.api_keys@.len(),
                wanted@ == key@,
                forall|k: int| 0 <= k < i ==> self.api_keys@[k].key@ != key@,
            decreases self.api_keys.len() - i,
        {
            if self.api_keys[i].key == wanted {
                assert(self.api_keys@[i as int].key@ == key@);
                assert(has_key(self.api_keys@, key@));
                return true;
            }
            i = i + 1;
        }
        false
    }

    /// Whether `target`'s counters can take one more request of `prompt` +
    /// `completion` tokens without overflowing.
    pub fn record_fits(&self, target: &str, prompt: u64, completion: u64) -> (r: bool)
        ensures
            r == record_fits_spec(self.usage@, target@, prompt, completion),
    {
        let t = String::from_str(target);
        match first_usage(&self.usage, &t) {
            Some(i) => {
                let row = self.usage[i].row;
                row.requests < u64::MAX && prompt <= u64::MAX - row.prompt_tokens && completion
                    <= u64::MAX - row.completion_tokens
            },
            None => true,
        }
    }

    /// Records a request to `target` at time `ts`: bumps the target's
    /// counters (creating them at zero) and appends to the request log, which
    /// keeps only its newest `MAX_LOG` entries.
    pub fn record_request(
        &mut self,
        target: &str,
        prompt: u64,
        completion: u64,
        status: u16,
        stream: bool,
        ts: u64,
    )
        requires
            record_fits_spec(old(self).usage@, target@, prompt, completion),
        ensures
            ({
                let i = first_index_of(usage_targets(old(self).usage@), target@);
                if i >= 0 {
                    final(self).usage@ == old(self).usage@.update(
                        i,
                        UsageEntry {
                            target: old(self).usage@[i].target,
                            row: bump(old(self).usage@[i].row, prompt, completion),
                        },
                    )
                } else {
                    &&& final(self).usage@.len() == old(self).usage@.len() + 1
                    &&& final(self).usage@.subrange(0, old(self).usage@.len() as int)
                        == old(self).usage@
                    &&& final(self).usage@.last().target@ == target@
                    &&& final(self).usage@.last().row == bump(
                        UsageRow { requests: 0, prompt_tokens: 0, completion_tokens: 0 },
                        prompt,
                        completion,
                    )
                }
            }),
            final(self).request_log@ == capped_log(
                old(self).request_log@,
                final(self).request_log@.last(),
            ),
            final(self).request_log@.last().ts == ts,
            final(self).request_log@.last().target@ == target@,
            final(self).request_log@.last().prompt_tokens == prompt,
            final(self).request_log@.last().completion_tokens == completion,
            final(self).request_log@.last().status == status,
            final(self).request_log@.last().stream == stream,
            final(self).providers@ == old(self).providers@,
            final(self).combos@ == old(self).combos@,
            final(self).api_keys@ == old(self).api_keys@,
            final(self).require_api_key == old(self).require_api_key,
    {
        let t = String::from_str(target);
        match first_usage(&self.usage, &t) {
            Some(i) => {
                let old_row = self.usage[i].row;
                let row = UsageRow {
                    requests: old_row.requests + 1,
                    prompt_tokens: old_row.prompt_tokens + prompt,
                    completion_tokens: old_row.completion_tokens + completion,
                };
                let kept = self.usage[i].target.clone();
                self.usage.set(i, UsageEntry { target: kept, row });
            },
            None => {
                let row = UsageRow { requests: 1, prompt_tokens: prompt, completion_tokens: completion };
                self.usage.push(UsageEntry { target: t.clone(), row });
            },
        }
        let e = LogEntry {
            ts,
            target: t,
            prompt_tokens: prompt,
            completion_tokens: completion,
            status,
            stream,
        };
        let ghost pushed = self.request_log@.push(e);
        let ghost usage_now = self.usage@;
        self.request_log.push(e);
        let total = self.request_log.len();
        let ghost start: int = if pushed.len() > MAX_LOG {
            pushed.len() - MAX_LOG
        } else {
            0
        };
        let mut removed: usize = 0;
        while self.request_log.len() > MAX_LOG
            invariant
                self.request_log@ == pushed.subrange(removed as int, pushed.len() as int),
                total == pushed.len(),
                removed <= start,
                pushed.len() > MAX_LOG ==> start == pushed.len() - MAX_LOG,
                pushed.len() <= MAX_LOG ==> start == 0,
                self.usage@ == usage_now,
                self.providers@ == old(self).providers@,
                self.combos@ == old(self).combos@,
                self.api_keys@ == old(self).api_keys@,
                self.require_api_key == old(self).require_api_key,
            decreases self.request_log.len(),
        {
            self.request_log.remove(0);
            removed = removed + 1;
            assert(self.request_log@ =~= pushed.subrange(removed as int, pushed.len() as int));
        }
        assert(self.request_log@.last() == e);
        assert(pushed.len() <= MAX_LOG ==> self.request_log@ =~= pushed);
    }

    /// Records a successful non-streaming request (status 200).
    pub fn record_usage(&mut self, key: &str, prompt: u64, completion: u64, ts: u64)
        requires
            record_fits_spec(old(self).usage@, key@, prompt, completion),
        ensures
            ({
                let i = first_index_of(usage_targets(old(self).usage@), key@);
                if i >= 0 {
                    final(self).usage@ == old(self).usage@.update(
                        i,
                        UsageEntry {
                            target: old(self).usage@[i].target,
                            row: bump(old(self).usage@[i].row, prompt, completion),
                        },
                    )
                } else {
                    &&& final(self).usage@.len() == old(self).usage@.len() + 1
                    &&& final(self).usage@.subrange(0, old(self).usage@.len() as int)
                        == old(self).usage@
                    &&& final(self).usage@.last().target@ == key@
                    &&& final(self).usage@.last().row == bump(
                        UsageRow { requests: 0, prompt_tokens: 0, completion_tokens: 0 },
                        prompt,
                        completion,
                    )
                }
            }),
            final(self).request_log@ == capped_log(
                old(self).request_log@,
                final(self).request_log@.last(),
            ),
            final(self).request_log@.last().ts == ts,
            final(self).request_log@.last().target@ == key@,
            final(self).request_log@.last().prompt_tokens == prompt,
            final(self).request_log@.last().completion_tokens == completion,
            final(self).request_log@.last().status == 200,
            !final(self).request_log@.last().stream,
            final(self).providers@ == old(self).providers@,
            final(self).combos@ == old(self).combos@,
            final(self).api_keys@ == old(self).api_keys@,
            final(self).require_api_key == old(self).require_api_key,
    {
        self.record_request(key, prompt, completion, 200, false, ts);
    }
}


/// **Deleting a provider** removes every provider with that id and keeps all
/// the others, in their order.
pub proof fn law_delete_provider(ps: Seq<ProviderStored>, id: Seq<char>)
    ensures
        forall|k: int|
            0 <= k < without_provider(ps, id).len() ==> (#[trigger] without_provider(ps, id)[k]).id@
                != id,
        forall|k: int|
            0 <= k < ps.len() && ps[k].id@ != id ==> without_provider(ps, id).contains(#[trigger] ps[k]),
        without_provider(ps, id).len() <= ps.len(),
    decreases ps.len(),
{
    if ps.len() > 0 {
        law_delete_provider(ps.drop_last(), id);
        let r = without_provider(ps.drop_last(), id);
        assert forall|k: int| 0 <= k < ps.len() && ps[k].id@ != id implies without_provider(
            ps,
            id,
        ).contains(#[trigger] ps[k]) by {
            if k < ps.len() - 1 {
                assert(ps[k] == ps.drop_last()[k]);
                let w = choose|w: int| 0 <= w < r.len() && r[w] == ps[k];
                if ps.last().id@ != id {
                    assert(without_provider(ps, id)[w] == ps[k]);
                }
            } else {
                assert(without_provider(ps, id).last() == ps[k]);
            }
        }
    }
}

/// **Deleting a combo** removes every combo with that name and keeps all the
/// others, in their order.
pub proof fn law_delete_combo(cs: Seq<Combo>, name: Seq<char>)
    ensures
        forall|k: int|
            0 <= k < without_combo(cs, name).len() ==> (#[trigger] without_combo(cs, name)[k]).name@
                != name,
        forall|k: int|
            0 <= k < cs.len() && cs[k].name@ != name ==> without_combo(cs, name).contains(#[trigger] cs[k]),
    decreases cs.len(),
{
    if cs.len() > 0 {
        law_delete_combo(cs.drop_last(), name);
        let r = without_combo(cs.drop_last(), name);
        assert forall|k: int| 0 <= k < cs.len() && cs[k].name@ != name implies without_combo(
            cs,
            name,
        ).contains(#[trigger] cs[k]) by {
            if k < cs.len() - 1 {
                assert(cs[k] == cs.drop_last()[k]);
                let w = choose|w: int| 0 <= w < r.len() && r[w] == cs[k];
                if cs.last().name@ != name {
                    assert(without_combo(cs, name)[w] == cs[k]);
                }
            } else {
                assert(without_combo(cs, name).last() == cs[k]);
            }
        }
    }
}

/// **Saving then finding a provider**: after a provider is saved, the first
/// provider with its id carries its base URL and models, and its key is the
/// new key, or the previously stored one when the new key is blank.
pub proof fn law_upsert_provider(ps: Seq<ProviderStored>, p: ProviderStored)
    ensures
        ({
            let after = upsert_provider_spec(ps, p);
            let i = first_index_of(provider_ids(after), p.id@);
            &&& 0 <= i < after.len()
            &&& after[i].base_url == p.base_url
            &&& after[i].models == p.models
            &&& (p.api_key@.len() > 0 ==> after[i].api_key == p.api_key)
            &&& (p.api_key@.len() == 0 && first_index_of(provider_ids(ps), p.id@) >= 0 ==> after[i].api_key
                == ps[first_index_of(provider_ids(ps), p.id@)].api_key)
            &&& after.len() == ps.len() + (if first_index_of(provider_ids(ps), p.id@) >= 0 {
                0int
            } else {
                1int
            })
        }),
{
    let i = first_index_of(provider_ids(ps), p.id@);
    lemma_first_index_of(provider_ids(ps), p.id@);
    let after = upsert_provider_spec(ps, p);
    if i >= 0 {
        assert forall|j: int| 0 <= j < i implies provider_ids(after)[j] != p.id@ by {
            assert(provider_ids(after)[j] == provider_ids(ps)[j]);
        }
        lemma_first_index_is(provider_ids(after), p.id@, i);
    } else {
        assert forall|j: int| 0 <= j < ps.len() implies provider_ids(after)[j] != p.id@ by {
            assert(provider_ids(after)[j] == provider_ids(ps)[j]);
        }
        lemma_first_index_is(provider_ids(after), p.id@, ps.len() as int);
    }
}

/// **A created key is valid**, and stays so until a key with its id is
/// deleted; deleting by id leaves no key with that id.
pub proof fn law_keys(ks: Seq<ApiKey>, ak: ApiKey, id: Seq<char>)
    ensures
        has_key(ks.push(ak), ak.key@),
        forall|k: int| 0 <= k < without_key(ks, id).len() ==> (#[trigger] without_key(ks, id)[k]).id@ != id,
        ak.id@ != id ==> has_key(without_key(ks.push(ak), id), ak.key@),
    decreases ks.len(),
{
    assert(ks.push(ak)[ks.len() as int] == ak);
    if ks.len() > 0 {
        law_keys(ks.drop_last(), ak, id);
        let r = without_key(ks.drop_last(), id);
        assert forall|k: int| 0 <= k < without_key(ks, id).len() implies (#[trigger] without_key(
            ks,
            id,
        )[k]).id@ != id by {
            if !(ks.last().id@ != id && k == r.len()) {
                assert(without_key(ks, id)[k] == r[k]);
            }
        }
    }
    if ak.id@ != id {
        assert(ks.push(ak).drop_last() =~= ks);
        assert(without_key(ks.push(ak), id).last() == ak);
    }
}

/// **The request log is capped**: after a request is recorded the log holds
/// at most `MAX_LOG` entries, ends with the new entry and keeps the newest
/// older entries in order.
pub proof fn law_log_cap(log: Seq<LogEntry>, e: LogEntry)
    requires
        log.len() <= MAX_LOG,
    ensures
        capped_log(log, e).len() <= MAX_LOG,
        capped_log(log, e).last() == e,
        capped_log(log, e).len() == (if log.len() < MAX_LOG {
            log.len() + 1
        } else {
            MAX_LOG as nat
        }),
        forall|k: int|
            0 <= k < capped_log(log, e).len() - 1 ==> #[trigger] capped_log(log, e)[k] == log[log.len()
                + 1 - capped_log(log, e).len() + k],
{
}


/// Display name of a stored model: its name, or its id when unnamed.
pub open spec fn stored_model_name(m: ModelStored) -> Seq<char> {
    match m.name {
        Some(n) => n@,
        None => m.id@,
    }
}

/// `e` is the registry entry of stored provider `p`.
pub open spec fn entry_for(e: ProviderEntry, p: ProviderStored) -> bool {
    &&& e.id@ == p.id@
    &&& e.models@.len() == p.models@.len()
    &&& forall|k: int|
        0 <= k < e.models@.len() ==> (#[trigger] e.models@[k]).id@ == p.models@[k].id@
            && e.models@[k].name@ == stored_model_name(p.models@[k])
}

/// The registry entry (id and listed models) of a stored provider.
pub fn provider_entry(p: &ProviderStored) -> (e: ProviderEntry)
    ensures
        entry_for(e, *p),
{
    let mut models: Vec<ModelInfo> = Vec::new();
    let mut k: usize = 0;
    while k < p.models.len()
        invariant
            k <= p.models@.len(),
            models@.len() == k,
            forall|j: int|
                0 <= j < k ==> (#[trigger] models@[j]).id@ == p.models@[j].id@ && models@[j].name@
                    == stored_model_name(p.models@[j]),
        decreases p.models.len() - k,
    {
        let m = &p.models[k];
        let name = match &m.name {
            Some(n) => n.clone(),
            None => m.id.clone(),
        };
        models.push(ModelInfo { id: m.id.clone(), name });
        k = k + 1;
    }
    ProviderEntry { id: p.id.clone(), models }
}

impl StoredState {
    /// The orchestrator for the stored providers and combos.
    pub fn orchestrator(&self) -> (o: Orchestrator)
        ensures
            o.wf(),
            exists|es: Seq<ProviderEntry>|
                es.len() == self.providers@.len() && (forall|k: int|
                    0 <= k < es.len() ==> entry_for(#[trigger] es[k], self.providers@[k]))
                    && o.providers_view() == registry_of(es),
            exists|cs: Seq<Combo>|
                cs.len() == self.combos@.len() && (forall|k: int|
                    0 <= k < cs.len() ==> crate::orchestrator::same_combo(
                        #[trigger] cs[k],
                        self.combos@[k],
                    )) && o.combos_view() == combo_table_of(cs),
            self.providers@.len() > 0 ==> o.default_provider_view() == self.providers@[0].id@,
            self.providers@.len() == 0 ==> o.default_provider_view() == Seq::<char>::empty(),
    {
        let mut entries: Vec<ProviderEntry> = Vec::new();
        let mut k: usize = 0;
        while k < self.providers.len()
            invariant
                k <= self.providers@.len(),
                entries@.len() == k,
                forall|j: int| 0 <= j < k ==> entry_for(#[trigger] entries@[j], self.providers@[j]),
            decreases self.providers.len() - k,
        {
            entries.push(provider_entry(&self.providers[k]));
            k = k + 1;
        }
        let mut combos: Vec<Combo> = Vec::new();
        let mut k: usize = 0;
        while k < self.combos.len()
            invariant
                k <= self.combos@.len(),
                combos@.len() == k,
                forall|j: int|
                    0 <= j < k ==> crate::orchestrator::same_combo(#[trigger] combos@[j], self.combos@[j]),
            decreases self.combos.len() - k,
        {
            combos.push(self.combos[k].clone());
            k = k + 1;
        }
        let ghost es = entries@;
        let ghost cs = combos@;
        let o = Orchestrator::new(entries, combos);
        assert(es.len() > 0 ==> es[0].id@ == self.providers@[0].id@);
        o
    }
}

} // verus!
