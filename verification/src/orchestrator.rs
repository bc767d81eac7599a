//! The agentic orchestrator. Resolves a model name to either a single target or
//! a combo, then drives the combo's strategy: **fallback**, **round-robin** or
//! **fusion** (fan-out panel + judge synthesis).
//!
//! Provider calls are asynchronous and happen outside the library: the
//! orchestrator decides what to call next ([`Plan`], [`FallbackRun`],
//! [`FusionRun`]) and the caller reports each outcome back.

use vstd::prelude::*;
use vstd::string::*;
use crate::text::{decimal, decimal_spec, find_char, is_first_index, substring};
use crate::types::{retryable, user_role, ChatMessage, ChatRequest, ChatResponse, ChatChunk, Combo, FusionConfig, ModelInfo, ProviderError, Strategy, Target, Usage, clone_targets, label_spec, last_user_content, strategy_label, strategy_label_spec};

verus! {

/// What the orchestrator knows of a registered provider: its id and the
/// models it exposes.
#[derive(Debug)]
pub struct ProviderEntry {
    pub id: String,
    pub models: Vec<ModelInfo>,
}

/// Per-combo round-robin position: the next starting target and how many
/// times it has been used.
#[derive(Debug, Clone, Copy)]
pub struct RotationCursor {
    pub index: usize,
    pub used: u32,
}

/// Last position in `reg` of the provider called `id`, or -1.
pub open spec fn find_provider(reg: Seq<ProviderEntry>, id: Seq<char>) -> int
    decreases reg.len(),
{
    if reg.len() == 0 {
        -1
    } else if reg.last().id@ == id {
        reg.len() - 1
    } else {
        find_provider(reg.drop_last(), id)
    }
}

/// Registers `e`, replacing a provider with the same id in place.
pub open spec fn upsert_provider_entry(reg: Seq<ProviderEntry>, e: ProviderEntry) -> Seq<
    ProviderEntry,
> {
    let i = find_provider(reg, e.id@);
    if i >= 0 {
        reg.update(i, e)
    } else {
        reg.push(e)
    }
}

/// The registry built from a provider list: one entry per id, the later
/// definition of an id winning.
pub open spec fn registry_of(ps: Seq<ProviderEntry>) -> Seq<ProviderEntry>
    decreases ps.len(),
{
    if ps.len() == 0 {
        Seq::empty()
    } else {
        upsert_provider_entry(registry_of(ps.drop_last()), ps.last())
    }
}

/// Last position in `cs` of the combo called `name`, or -1.
pub open spec fn find_combo(cs: Seq<Combo>, name: Seq<char>) -> int
    decreases cs.len(),
{
    if cs.len() == 0 {
        -1
    } else if cs.last().name@ == name {
        cs.len() - 1
    } else {
        find_combo(cs.drop_last(), name)
    }
}

/// Registers `c`, replacing a combo with the same name in place.
pub open spec fn upsert_combo_entry(cs: Seq<Combo>, c: Combo) -> Seq<Combo> {
    let i = find_combo(cs, c.name@);
    if i >= 0 {
        cs.update(i, c)
    } else {
        cs.push(c)
    }
}

/// The combo table built from a combo list: one entry per name, the later
/// definition of a name winning.
pub open spec fn combo_table_of(cs: Seq<Combo>) -> Seq<Combo>
    decreases cs.len(),
{
    if cs.len() == 0 {
        Seq::empty()
    } else {
        upsert_combo_entry(combo_table_of(cs.drop_last()), cs.last())
    }
}

pub open spec fn unique_provider_ids(reg: Seq<ProviderEntry>) -> bool {
    forall|i: int, j: int| 0 <= i < reg.len() && 0 <= j < reg.len() && i != j ==> reg[i].id@ != reg[j].id@
}

pub open spec fn unique_combo_names(cs: Seq<Combo>) -> bool {
    forall|i: int, j: int| 0 <= i < cs.len() && 0 <= j < cs.len() && i != j ==> cs[i].name@ != cs[j].name@
}

proof fn lemma_find_provider(reg: Seq<ProviderEntry>, id: Seq<char>)
    ensures
        -1 <= find_provider(reg, id) < reg.len(),
        find_provider(reg, id) >= 0 ==> reg[find_provider(reg, id)].id@ == id,
        find_provider(reg, id) < 0 ==> forall|k: int| 0 <= k < reg.len() ==> reg[k].id@ != id,
    decreases reg.len(),
{
    if reg.len() > 0 {
        lemma_find_provider(reg.drop_last(), id);
        assert forall|k: int| 0 <= k < reg.len() - 1 implies reg[k] == reg.drop_last()[k] by {}
    }
}

proof fn lemma_find_provider_unique(reg: Seq<ProviderEntry>, id: Seq<char>, k: int)
    requires
        unique_provider_ids(reg),
        0 <= k < reg.len(),
        reg[k].id@ == id,
    ensures
        find_provider(reg, id) == k,
{
    lemma_find_provider(reg, id);
}

proof fn lemma_find_combo(cs: Seq<Combo>, name: Seq<char>)
    ensures
        -1 <= find_combo(cs, name) < cs.len(),
        find_combo(cs, name) >= 0 ==> cs[find_combo(cs, name)].name@ == name,
        find_combo(cs, name) < 0 ==> forall|k: int| 0 <= k < cs.len() ==> cs[k].name@ != name,
    decreases cs.len(),
{
    if cs.len() > 0 {
        lemma_find_combo(cs.drop_last(), name);
        assert forall|k: int| 0 <= k < cs.len() - 1 implies cs[k] == cs.drop_last()[k] by {}
    }
}

proof fn lemma_find_combo_unique(cs: Seq<Combo>, name: Seq<char>, k: int)
    requires
        unique_combo_names(cs),
        0 <= k < cs.len(),
        cs[k].name@ == name,
    ensures
        find_combo(cs, name) == k,
{
    lemma_find_combo(cs, name);
}

/// Position of the provider called `id` in `reg` (ids are unique).
fn locate_provider(reg: &Vec<ProviderEntry>, id: &String) -> (r: Option<usize>)
    requires
        unique_provider_ids(reg@),
    ensures
        match r {
            Some(i) => i == find_provider(reg@, id@),
            None => find_provider(reg@, id@) < 0,
        },
{
    proof {
        lemma_find_provider(reg@, id@);
    }
    let mut i: usize = 0;
    while i < reg.len()
        invariant
            i <= reg@.len(),
            unique_provider_ids(reg@),
            forall|k: int| 0 <= k < i ==> reg@[k].id@ != id@,
        decreases reg.len() - i,
    {
        if reg[i].id == *id {
            proof {
                lemma_find_provider_unique(reg@, id@, i as int);
            }
            return Some(i);
        }
        i = i + 1;
    }
    None
}

/// Position of the combo called `name` in `cs` (names are unique).
fn locate_combo(cs: &Vec<Combo>, name: &String) -> (r: Option<usize>)
    requires
        unique_combo_names(cs@),
    ensures
        match r {
            Some(i) => i == find_combo(cs@, name@),
            None => find_combo(cs@, name@) < 0,
        },
{
    proof {
        lemma_find_combo(cs@, name@);
    }
    let mut i: usize = 0;
    while i < cs.len()
        invariant
            i <= cs@.len(),
            unique_combo_names(cs@),
            forall|k: int| 0 <= k < i ==> cs@[k].name@ != name@,
        decreases cs.len() - i,
    {
        if cs[i].name == *name {
            proof {
                lemma_find_combo_unique(cs@, name@, i as int);
            }
            return Some(i);
        }
        i = i + 1;
    }
    None
}

/// The fresh round-robin cursor of every combo.
pub open spec fn fresh_cursor() -> RotationCursor {
    RotationCursor { index: 0, used: 0 }
}

/// Holds the provider registry + combo definitions and drives orchestration.
#[derive(Debug)]
pub struct Orchestrator {
    providers: Vec<ProviderEntry>,
    combos: Vec<Combo>,
    rotation: Vec<RotationCursor>,
    default_provider: String,
}

impl Orchestrator {
    /// The registered providers, one per id.
    pub closed spec fn providers_view(&self) -> Seq<ProviderEntry> {
        self.providers@
    }

    /// The registered combos, one per name.
    pub closed spec fn combos_view(&self) -> Seq<Combo> {
        self.combos@
    }

    /// The round-robin cursor of each combo (same positions as `combos_view`).
    pub closed spec fn cursors(&self) -> Seq<RotationCursor> {
        self.rotation@
    }

    /// The provider that serves bare model names (the first one given to `new`).
    pub closed spec fn default_provider_view(&self) -> Seq<char> {
        self.default_provider@
    }

    /// Well-formedness: unique ids and names, one cursor per combo, every
    /// cursor index inside its combo's target list.
    pub closed spec fn wf(&self) -> bool {
        &&& unique_provider_ids(self.providers@)
        &&& unique_combo_names(self.combos@)
        &&& self.rotation@.len() == self.combos@.len()
        &&& forall|i: int|
            0 <= i < self.rotation@.len() ==> ((#[trigger] self.rotation@[i]).index == 0 || (
            self.rotation@[i].index as int) < self.combos@[i].targets@.len())
    }

    /// Builds the orchestrator. A later provider (or combo) with the same id
    /// (or name) replaces an earlier one; the first provider serves bare
    /// model names.
    pub fn new(providers: Vec<ProviderEntry>, combos: Vec<Combo>) -> (o: Self)
        ensures
            o.wf(),
            o.providers_view() == registry_of(providers@),
            o.combos_view() == combo_table_of(combos@),
            o.cursors() == Seq::new(o.combos_view().len(), |i: int| fresh_cursor()),
            o.default_provider_view() == (if providers@.len() > 0 {
                providers@[0].id@
            } else {
                Seq::<char>::empty()
            }),
    {
        let default_provider = if providers.len() > 0 {
            providers[0].id.clone()
        } else {
            String::new()
        };
        let mut input = providers;
        let ghost all = input@;
        assert(all.len() <= usize::MAX);
        let mut reg: Vec<ProviderEntry> = Vec::new();
        let mut k: usize = 0;
        while input.len() > 0
            invariant
                all.len() <= usize::MAX,
                k + input@.len() == all.len(),
                input@ == all.subrange(k as int, all.len() as int),
                reg@ == registry_of(all.subrange(0, k as int)),
                unique_provider_ids(reg@),
            decreases input.len(),
        {
            let e = input.remove(0);
            proof {
                assert(all.subrange(0, k + 1).drop_last() =~= all.subrange(0, k as int));
                assert(all.subrange(0, k + 1).last() == e);
                lemma_find_provider(reg@, e.id@);
            }
            match locate_provider(&reg, &e.id) {
                Some(i) => {
                    reg.set(i, e);
                },
                None => {
                    reg.push(e);
                },
            }
            k = k + 1;
            proof {
                assert(input@ =~= all.subrange(k as int, all.len() as int));
            }
        }
        assert(all.subrange(0, k as int) =~= all);
        let mut input = combos;
        let ghost all_c = input@;
        let n_combos = input.len();
        assert(all_c.len() == n_combos);
        let mut table: Vec<Combo> = Vec::new();
        let mut rotation: Vec<RotationCursor> = Vec::new();
        let mut k: usize = 0;
        while input.len() > 0
            invariant
                all_c.len() <= usize::MAX,
                k + input@.len() == all_c.len(),
                input@ == all_c.subrange(k as int, all_c.len() as int),
                table@ == combo_table_of(all_c.subrange(0, k as int)),
                unique_combo_names(table@),
                rotation@ == Seq::new(table@.len(), |i: int| fresh_cursor()),
            decreases input.len(),
        {
            let c = input.remove(0);
            proof {
                assert(all_c.subrange(0, k + 1).drop_last() =~= all_c.subrange(0, k as int));
                assert(all_c.subrange(0, k + 1).last() == c);
                lemma_find_combo(table@, c.name@);
            }
            match locate_combo(&table, &c.name) {
                Some(i) => {
                    table.set(i, c);
                },
                None => {
                    table.push(c);
                    rotation.push(RotationCursor { index: 0, used: 0 });
                },
            }
            k = k + 1;
            proof {
                assert(input@ =~= all_c.subrange(k as int, all_c.len() as int));
                assert(rotation@ =~= Seq::new(table@.len(), |i: int| fresh_cursor()));
            }
        }
        assert(all_c.subrange(0, k as int) =~= all_c);
        Orchestrator { providers: reg, combos: table, rotation, default_provider }
    }
}


/// Where a model name leads: a single provider target or a registered combo
/// (by position in the combo table).
#[derive(Debug)]
pub enum Resolution {
    Single(Target),
    Combo(usize),
}

/// `t` is the target a plain model name designates: `provider/model` splits
/// at the first `/`; a name without `/` goes to the default provider.
pub open spec fn resolves_to(model: Seq<char>, default_provider: Seq<char>, t: Target) -> bool {
    if model.contains('/') {
        exists|i: int|
            is_first_index(model, '/', i) && t.provider@ == model.subrange(0, i) && t.model@
                == model.subrange(i + 1, model.len() as int)
    } else {
        t.provider@ == default_provider && t.model@ == model
    }
}

/// `sticky`, with 0 read as 1.
pub open spec fn sticky_of(sticky: u32) -> int {
    if sticky == 0 {
        1
    } else {
        sticky as int
    }
}

/// The cursor after one round-robin call on a combo of `n > 0` targets.
pub open spec fn advance_cursor(c: RotationCursor, sticky: u32, n: nat) -> RotationCursor {
    if c.used + 1 >= sticky_of(sticky) {
        RotationCursor { index: ((c.index + 1) % (n as int)) as usize, used: 0 }
    } else {
        RotationCursor { index: c.index, used: (c.used + 1) as u32 }
    }
}

/// `ts` rotated to start at position `start`.
pub open spec fn rotated(ts: Seq<Target>, start: int) -> Seq<Target> {
    Seq::new(ts.len(), |i: int| ts[(start + i) % (ts.len() as int)])
}

impl Orchestrator {
    /// Resolves a model name: a registered combo name wins, otherwise the name
    /// is a `provider/model` target (or a model of the default provider).
    pub fn resolve(&self, model: &str) -> (r: Resolution)
        requires
            self.wf(),
        ensures
            find_combo(self.combos_view(), model@) >= 0 ==> r == Resolution::Combo(
                find_combo(self.combos_view(), model@) as usize,
            ),
            find_combo(self.combos_view(), model@) < 0 ==> (r matches Resolution::Single(t)
                && resolves_to(model@, self.default_provider_view(), t)),
    {
        let name = String::from_str(model);
        match locate_combo(&self.combos, &name) {
            Some(i) => Resolution::Combo(i),
            None => {
                let n = model.unicode_len();
                match find_char(model, '/') {
                    Some(i) => {
                        let t = Target { provider: substring(model, 0, i), model: substring(model, i + 1, n) };
                        proof {
                            assert(model@.contains('/'));
                            assert(is_first_index(model@, '/', i as int));
                        }
                        Resolution::Single(t)
                    },
                    None => Resolution::Single(
                        Target { provider: self.default_provider.clone(), model: name },
                    ),
                }
            },
        }
    }

    /// One round-robin call on combo `ci`: returns its targets rotated to the
    /// cursor's start and advances the cursor (every `sticky` calls it moves
    /// to the next target).
    fn rotate(&mut self, ci: usize, sticky: u32) -> (order: Vec<Target>)
        requires
            old(self).wf(),
            ci < old(self).combos_view().len(),
        ensures
            final(self).wf(),
            final(self).providers_view() == old(self).providers_view(),
            final(self).combos_view() == old(self).combos_view(),
            final(self).default_provider_view() == old(self).default_provider_view(),
            ({
                let ts = old(self).combos_view()[ci as int].targets@;
                let cur = old(self).cursors()[ci as int];
                if ts.len() == 0 {
                    &&& order@ == Seq::<Target>::empty()
                    &&& final(self).cursors() == old(self).cursors()
                } else {
                    &&& order@ == rotated(ts, cur.index as int)
                    &&& final(self).cursors() == old(self).cursors().update(
                        ci as int,
                        advance_cursor(cur, sticky, ts.len()),
                    )
                }
            }),
    {
        let n = self.combos[ci].targets.len();
        if n == 0 {
            return Vec::new();
        }
        let cur = self.rotation[ci];
        assert(self.rotation@[ci as int] == cur);
        let start = cur.index;
        let s: u32 = if sticky == 0 {
            1
        } else {
            sticky
        };
        let next = if cur.used >= s - 1 {
            let idx = if start + 1 < n {
                start + 1
            } else {
                0
            };
            assert(idx as int == (cur.index + 1) % (n as int)) by {
                if start + 1 >= n {
                    assert(((start + 1) as int) % (n as int) == 0) by (nonlinear_arith)
                        requires
                            start + 1 == n,
                            n > 0,
                    ;
                } else {
                    assert(((start + 1) as int) % (n as int) == start + 1) by (nonlinear_arith)
                        requires
                            0 <= start + 1 < n,
                    ;
                }
            }
            RotationCursor { index: idx, used: 0 }
        } else {
            RotationCursor { index: cur.index, used: cur.used + 1 }
        };
        self.rotation.set(ci, next);
        let mut out: Vec<Target> = Vec::new();
        let mut i: usize = 0;
        let ghost ts = self.combos@[ci as int].targets@;
        while i < n
            invariant
                n == ts.len(),
                ts == self.combos@[ci as int].targets@,
                ci < self.combos@.len(),
                start < n,
                i <= n,
                out@ == rotated(ts, start as int).subrange(0, i as int),
            decreases n - i,
        {
            let j = if i < n - start {
                start + i
            } else {
                i - (n - start)
            };
            assert(j as int == (start + i) % (n as int)) by {
                if i >= n - start {
                    assert(((start + i) as int) % (n as int) == (start + i) - n) by (nonlinear_arith)
                        requires
                            n <= start + i < 2 * n,
                    ;
                } else {
                    assert(((start + i) as int) % (n as int) == (start + i)) by (nonlinear_arith)
                        requires
                            0 <= start + i < n,
                    ;
                }
            }
            out.push(self.combos[ci].targets[j].clone());
            i = i + 1;
        }
        assert(out@ =~= rotated(ts, start as int));
        out
    }
}


/// What to call for one request: a single target, an ordered list of targets
/// to try one after another (fallback and round-robin), or a fusion panel.
#[derive(Debug)]
pub enum Plan {
    Single(Target),
    Ordered(Vec<Target>),
    Fusion { panel: Vec<Target>, config: FusionConfig },
}

/// `m` is listed with id `id` and name `name`.
pub open spec fn listed_as(m: ModelInfo, id: Seq<char>, name: Seq<char>) -> bool {
    m.id@ == id && m.name@ == name
}

/// A model listing row: `(id, name)`.
pub open spec fn model_row(m: ModelInfo) -> (Seq<char>, Seq<char>) {
    (m.id@, m.name@)
}

/// Rows of every provider model, as `provider/model`, registry order.
pub open spec fn provider_rows(reg: Seq<ProviderEntry>) -> Seq<(Seq<char>, Seq<char>)>
    decreases reg.len(),
{
    if reg.len() == 0 {
        Seq::empty()
    } else {
        provider_rows(reg.drop_last()) + reg.last().models@.map_values(
            |m: ModelInfo| (label_spec(reg.last().id@, m.id@), m.name@),
        )
    }
}

/// How many models the providers of `reg` have in all.
pub open spec fn model_total(reg: Seq<ProviderEntry>) -> nat
    decreases reg.len(),
{
    if reg.len() == 0 {
        0
    } else {
        model_total(reg.drop_last()) + reg.last().models@.len()
    }
}

proof fn lemma_model_total_step(reg: Seq<ProviderEntry>, i: int)
    requires
        0 <= i < reg.len(),
    ensures
        model_total(reg.subrange(0, i + 1)) == model_total(reg.subrange(0, i)) + reg[i].models@.len(),
{
    assert(reg.subrange(0, i + 1).drop_last() =~= reg.subrange(0, i));
}

proof fn lemma_model_total_mono(reg: Seq<ProviderEntry>, i: int, j: int)
    requires
        0 <= i <= j <= reg.len(),
    ensures
        model_total(reg.subrange(0, i)) <= model_total(reg.subrange(0, j)),
    decreases j - i,
{
    if i < j {
        lemma_model_total_mono(reg, i, j - 1);
        lemma_model_total_step(reg, j - 1);
    }
}

/// **Every provider model is listed.** The provider rows hold, provider by
/// provider and model by model, each model as `provider/model` with its
/// display name: one row per model, no more.
pub proof fn law_every_model_listed(reg: Seq<ProviderEntry>)
    ensures
        provider_rows(reg).len() == model_total(reg),
        forall|i: int, k: int|
            #![trigger reg[i].models@[k]]
            0 <= i < reg.len() && 0 <= k < reg[i].models@.len() ==> provider_rows(reg)[model_total(
                reg.subrange(0, i),
            ) + k] == (label_spec(reg[i].id@, reg[i].models@[k].id@), reg[i].models@[k].name@),
    decreases reg.len(),
{
    if reg.len() > 0 {
        let pre = reg.drop_last();
        law_every_model_listed(pre);
        assert(reg.subrange(0, reg.len() - 1) =~= pre);
        assert forall|i: int, k: int|
            #![trigger reg[i].models@[k]]
            0 <= i < reg.len() && 0 <= k < reg[i].models@.len() implies provider_rows(
                reg,
            )[model_total(reg.subrange(0, i)) + k] == (label_spec(
                reg[i].id@,
                reg[i].models@[k].id@,
            ), reg[i].models@[k].name@) by {
            if i < reg.len() - 1 {
                assert(reg.subrange(0, i) =~= pre.subrange(0, i));
                assert(reg[i] == pre[i]);
                lemma_model_total_step(pre, i);
                lemma_model_total_mono(pre, i + 1, pre.len() as int);
                assert(pre.subrange(0, pre.len() as int) =~= pre);
                assert(pre[i].models@[k] == reg[i].models@[k]);
            } else {
                assert(reg.subrange(0, i) =~= pre);
            }
        }
    }
}

/// Name of a combo in model listings: `combo (<strategy>)`.
pub open spec fn combo_row_name(s: Strategy) -> Seq<char> {
    "combo ("@ + strategy_label_spec(s) + ")"@
}

/// Rows of every combo, table order.
pub open spec fn combo_rows(cs: Seq<Combo>) -> Seq<(Seq<char>, Seq<char>)> {
    cs.map_values(|c: Combo| (c.name@, combo_row_name(c.strategy)))
}

/// `a` is a copy of combo `b`.
pub open spec fn same_combo(a: Combo, b: Combo) -> bool {
    a.name@ == b.name@ && a.targets@ == b.targets@ && a.strategy == b.strategy
}

/// `p` is the plan for combo `c` (at position `ci`, cursor `cur`), and
/// `after` the cursors once it is made.
pub open spec fn plan_of_combo(
    c: Combo,
    cur: RotationCursor,
    ci: int,
    before: Seq<RotationCursor>,
    after: Seq<RotationCursor>,
    p: Plan,
) -> bool {
    match c.strategy {
        Strategy::Fallback => {
            &&& p matches Plan::Ordered(v)
            &&& v@ == c.targets@
            &&& after == before
        },
        Strategy::RoundRobin { sticky } => {
            &&& p matches Plan::Ordered(v)
            &&& if c.targets@.len() == 0 {
                &&& v@ == Seq::<Target>::empty()
                &&& after == before
            } else {
                &&& v@ == rotated(c.targets@, cur.index as int)
                &&& after == before.update(ci, advance_cursor(cur, sticky, c.targets@.len()))
            }
        },
        Strategy::Fusion(cfg) => {
            &&& p matches Plan::Fusion { panel, config }
            &&& panel@ == c.targets@
            &&& config == cfg
            &&& after == before
        },
    }
}

impl Orchestrator {
    /// Decides what to call for `model`: a combo's strategy (a round-robin
    /// combo rotates and advances its cursor) or a single target.
    pub fn plan(&mut self, model: &str) -> (p: Plan)
        requires
            old(self).wf(),
        ensures
            final(self).wf(),
            final(self).providers_view() == old(self).providers_view(),
            final(self).combos_view() == old(self).combos_view(),
            final(self).default_provider_view() == old(self).default_provider_view(),
            find_combo(old(self).combos_view(), model@) < 0 ==> {
                &&& p matches Plan::Single(t)
                &&& resolves_to(model@, old(self).default_provider_view(), t)
                &&& final(self).cursors() == old(self).cursors()
            },
            find_combo(old(self).combos_view(), model@) >= 0 ==> plan_of_combo(
                old(self).combos_view()[find_combo(old(self).combos_view(), model@)],
                old(self).cursors()[find_combo(old(self).combos_view(), model@)],
                find_combo(old(self).combos_view(), model@),
                old(self).cursors(),
                final(self).cursors(),
                p,
            ),
    {
        proof {
            lemma_find_combo(self.combos@, model@);
        }
        let n_combos = self.combos.len();
        assert(self.combos@.len() == n_combos);
        match self.resolve(model) {
            Resolution::Single(t) => Plan::Single(t),
            Resolution::Combo(ci) => {
                let strategy = self.combos[ci].strategy.clone();
                assert(strategy == self.combos@[ci as int].strategy);
                let ghost c = self.combos@[ci as int];
                let ghost before = self.rotation@;
                let ghost cur = self.rotation@[ci as int];
                let p = match strategy {
                    Strategy::Fallback => {
                        let v = clone_targets(&self.combos[ci].targets);
                        Plan::Ordered(v)
                    },
                    Strategy::RoundRobin { sticky } => {
                        let v = self.rotate(ci, sticky);
                        Plan::Ordered(v)
                    },
                    Strategy::Fusion(cfg) => {
                        let panel = clone_targets(&self.combos[ci].targets);
                        Plan::Fusion { panel, config: cfg }
                    },
                };
                assert(plan_of_combo(c, cur, ci as int, before, self.rotation@, p));
                p
            },
        }
    }

    /// The request to send to target `t`: `req` with the target's model, or
    /// `NotFound` when no provider has the target's id.
    pub fn target_request(&self, t: &Target, req: &ChatRequest) -> (r: Result<
        ChatRequest,
        ProviderError,
    >)
        requires
            self.wf(),
        ensures
            find_provider(self.providers_view(), t.provider@) < 0 ==> (r matches Err(
                ProviderError::NotFound(id),
            ) && id@ == t.provider@),
            find_provider(self.providers_view(), t.provider@) >= 0 ==> (r matches Ok(q) && q.model
                == t.model && q.messages@ == req.messages@ && q.stream == req.stream
                && q.max_tokens == req.max_tokens && q.temperature_bits == req.temperature_bits),
    {
        match locate_provider(&self.providers, &t.provider) {
            None => Err(ProviderError::NotFound(t.provider.clone())),
            Some(_) => {
                let mut q = req.clone();
                q.model = t.model.clone();
                Ok(q)
            },
        }
    }

    /// All provider models (as `provider/model`) followed by the combo names.
    pub fn list_models(&self) -> (out: Vec<ModelInfo>)
        requires
            self.wf(),
        ensures
            out@.map_values(|m: ModelInfo| model_row(m)) == provider_rows(self.providers_view())
                + combo_rows(self.combos_view()),
            out@.len() == model_total(self.providers_view()) + self.combos_view().len(),
            forall|i: int, k: int|
                #![trigger self.providers_view()[i].models@[k]]
                0 <= i < self.providers_view().len() && 0 <= k
                    < self.providers_view()[i].models@.len() ==> listed_as(
                    out@[model_total(self.providers_view().subrange(0, i)) + k],
                    label_spec(self.providers_view()[i].id@, self.providers_view()[i].models@[k].id@),
                    self.providers_view()[i].models@[k].name@,
                ),
            forall|c: int|
                0 <= c < self.combos_view().len() ==> listed_as(
                    #[trigger] out@[model_total(self.providers_view()) + c],
                    self.combos_view()[c].name@,
                    "combo ("@ + strategy_label_spec(self.combos_view()[c].strategy) + ")"@,
                ),
    {
        let mut out: Vec<ModelInfo> = Vec::new();
        let mut i: usize = 0;
        while i < self.providers.len()
            invariant
                i <= self.providers@.len(),
                out@.map_values(|m: ModelInfo| model_row(m)) == provider_rows(
                    self.providers@.subrange(0, i as int),
                ),
            decreases self.providers.len() - i,
        {
            let p = &self.providers[i];
            let ghost before = out@;
            let mut j: usize = 0;
            while j < p.models.len()
                invariant
                    j <= p.models@.len(),
                    out@.len() == before.len() + j,
                    forall|t: int| 0 <= t < before.len() ==> out@[t] == before[t],
                    forall|t: int|
                        0 <= t < j ==> model_row(#[trigger] out@[before.len() + t]) == (label_spec(
                            p.id@,
                            p.models@[t].id@,
                        ), p.models@[t].name@),
                decreases p.models.len() - j,
            {
                let m = &p.models[j];
                let mut id = p.id.clone();
                proof {
                    reveal_strlit("/");
                }
                id.append("/");
                id.append(m.id.as_str());
                out.push(ModelInfo { id, name: m.name.clone() });
                j = j + 1;
            }
            proof {
                let ps = self.providers@.subrange(0, i + 1);
                assert(ps.drop_last() =~= self.providers@.subrange(0, i as int));
                assert(ps.last() == *p);
                let f = |m: ModelInfo| model_row(m);
                let g = |m: ModelInfo| (label_spec(p.id@, m.id@), m.name@);
                assert forall|t: int| 0 <= t < out@.len() implies #[trigger] out@.map_values(f)[t] == (
                before.map_values(f) + p.models@.map_values(g))[t] by {
                    if t >= before.len() {
                        assert(model_row(out@[before.len() + (t - before.len())]) == g(
                            p.models@[t - before.len()],
                        ));
                    }
                }
                assert(out@.map_values(f) =~= before.map_values(f) + p.models@.map_values(g));
            }
            i = i + 1;
        }
        assert(self.providers@.subrange(0, i as int) =~= self.providers@);
        let ghost before = out@;
        let mut k: usize = 0;
        while k < self.combos.len()
            invariant
                k <= self.combos@.len(),
                out@.len() == before.len() + k,
                forall|t: int| 0 <= t < before.len() ==> out@[t] == before[t],
                forall|t: int|
                    0 <= t < k ==> model_row(#[trigger] out@[before.len() + t]) == (
                        self.combos@[t].name@,
                        combo_row_name(self.combos@[t].strategy),
                    ),
            decreases self.combos.len() - k,
        {
            let c = &self.combos[k];
            let mut name = String::from_str("combo (");
            name.append(strategy_label(&c.strategy));
            name.append(")");
            out.push(ModelInfo { id: c.name.clone(), name });
            k = k + 1;
        }
        proof {
            let f = |m: ModelInfo| model_row(m);
            assert forall|t: int| 0 <= t < out@.len() implies #[trigger] out@.map_values(f)[t] == (
            before.map_values(f) + combo_rows(self.combos@))[t] by {
                if t >= before.len() {
                    assert(model_row(out@[before.len() + (t - before.len())]) == (
                        self.combos@[t - before.len()].name@,
                        combo_row_name(self.combos@[t - before.len()].strategy),
                    ));
                }
            }
            assert(out@.map_values(f) =~= before.map_values(f) + combo_rows(self.combos@));
            law_every_model_listed(self.providers@);
            let all = out@.map_values(f);
            assert(all.len() == out@.len());
            assert forall|i: int, k: int|
                #![trigger self.providers@[i].models@[k]]
                0 <= i < self.providers@.len() && 0 <= k < self.providers@[i].models@.len() implies listed_as(
                out@[model_total(self.providers@.subrange(0, i)) + k],
                label_spec(self.providers@[i].id@, self.providers@[i].models@[k].id@),
                self.providers@[i].models@[k].name@,
            ) by {
                let t = model_total(self.providers@.subrange(0, i)) + k;
                lemma_model_total_step(self.providers@, i);
                lemma_model_total_mono(self.providers@, i + 1, self.providers@.len() as int);
                assert(self.providers@.subrange(0, self.providers@.len() as int) =~= self.providers@);
                assert(t < provider_rows(self.providers@).len());
                assert(all[t] == provider_rows(self.providers@)[t]);
            }
            assert forall|c: int| 0 <= c < self.combos@.len() implies listed_as(
                #[trigger] out@[model_total(self.providers@) + c],
                self.combos@[c].name@,
                "combo ("@ + strategy_label_spec(self.combos@[c].strategy) + ")"@,
            ) by {
                let t = model_total(self.providers@) + c;
                assert(all[t] == combo_rows(self.combos@)[c]);
            }
        }
        out
    }

    /// Copies of the registered combos, table order.
    pub fn combos(&self) -> (out: Vec<Combo>)
        requires
            self.wf(),
        ensures
            out@.len() == self.combos_view().len(),
            forall|i: int| 0 <= i < out@.len() ==> same_combo(#[trigger] out@[i], self.combos_view()[i]),
    {
        let mut out: Vec<Combo> = Vec::new();
        let mut i: usize = 0;
        while i < self.combos.len()
            invariant
                i <= self.combos@.len(),
                out@.len() == i,
                forall|k: int| 0 <= k < i ==> same_combo(#[trigger] out@[k], self.combos@[k]),
            decreases self.combos.len() - i,
        {
            out.push(self.combos[i].clone());
            i = i + 1;
        }
        out
    }
}

/// Records which target produced an answer.
pub fn answered_by(resp: ChatResponse, t: &Target) -> (r: ChatResponse)
    ensures
        r == (ChatResponse { target: Some(*t), ..resp }),
{
    let mut r = resp;
    r.target = Some(t.clone());
    r
}


/// Progress of a fallback run.
#[derive(Debug)]
pub enum FallbackStatus {
    /// Still trying targets.
    Running,
    /// The target at this position answered.
    Succeeded(usize),
    /// A non-retryable error stopped the run.
    Failed(ProviderError),
}

/// Abstract state of a fallback run over `n` targets: `pos` targets have
/// failed with retryable errors so far, `last` is the latest error.
pub struct FallbackState {
    pub n: nat,
    pub pos: nat,
    pub last: Option<ProviderError>,
    pub status: FallbackStatus,
}

/// A fresh run over `n` targets.
pub open spec fn fallback_init(n: nat) -> FallbackState {
    FallbackState { n, pos: 0, last: None, status: FallbackStatus::Running }
}

/// The run still wants an outcome for the target at `pos`.
pub open spec fn fallback_pending(st: FallbackState) -> bool {
    st.status is Running && st.pos < st.n
}

/// The run after the target at `pos` answered (`Ok`) or failed (`Err`): a
/// retryable error moves on to the next target, any other error stops.
pub open spec fn fallback_record(st: FallbackState, o: Result<(), ProviderError>) -> FallbackState {
    match o {
        Ok(_) => FallbackState { status: FallbackStatus::Succeeded(st.pos as usize), ..st },
        Err(e) => if retryable(e) {
            FallbackState { pos: st.pos + 1, last: Some(e), ..st }
        } else {
            FallbackState { last: Some(e), status: FallbackStatus::Failed(e), ..st }
        },
    }
}

/// The message of the error a run over no targets ends with.
pub open spec fn no_targets_message() -> Seq<char> {
    "no targets"@
}

/// `r` is what a finished run reports: the answering target's position, the
/// stopping error, the last retryable error once every target failed, or
/// `Orchestration("no targets")` when there was nothing to try.
pub open spec fn fallback_result(st: FallbackState, r: Result<usize, ProviderError>) -> bool {
    match st.status {
        FallbackStatus::Succeeded(i) => r == Ok::<usize, ProviderError>(i),
        FallbackStatus::Failed(e) => r == Err::<usize, ProviderError>(e),
        FallbackStatus::Running => match st.last {
            Some(e) => r == Err::<usize, ProviderError>(e),
            None => r matches Err(ProviderError::Orchestration(m)) && m@ == no_targets_message(),
        },
    }
}

/// Feeds outcomes `outs` to the run, one after another.
pub open spec fn fallback_drive(st: FallbackState, outs: Seq<Result<(), ProviderError>>) -> FallbackState
    decreases outs.len(),
{
    if outs.len() == 0 {
        st
    } else {
        fallback_drive(fallback_record(st, outs[0]), outs.drop_first())
    }
}

/// Every outcome of `outs` was fed while the run was still waiting for one.
pub open spec fn fed_while_pending(st: FallbackState, outs: Seq<Result<(), ProviderError>>) -> bool
    decreases outs.len(),
{
    outs.len() == 0 || (fallback_pending(st) && fed_while_pending(
        fallback_record(st, outs[0]),
        outs.drop_first(),
    ))
}

proof fn lemma_fallback_drive(st: FallbackState, outs: Seq<Result<(), ProviderError>>)
    requires
        st.status is Running,
        st.pos <= st.n,
        st.pos == 0 ==> st.last is None,
        fed_while_pending(st, outs),
        !fallback_pending(fallback_drive(st, outs)),
    ensures
        st.pos + outs.len() <= st.n,
        forall|j: int|
            0 <= j < outs.len() - 1 ==> (#[trigger] outs[j] matches Err(e) && retryable(e)),
        outs.len() == 0 ==> st.pos == st.n && fallback_drive(st, outs) == st,
        outs.len() > 0 ==> match outs.last() {
            Ok(_) => fallback_drive(st, outs).status == FallbackStatus::Succeeded(
                (st.pos + outs.len() - 1) as usize,
            ),
            Err(e) => {
                &&& fallback_drive(st, outs).last == Some(e)
                &&& fallback_drive(st, outs).status != FallbackStatus::Succeeded(0)
                &&& (fallback_drive(st, outs).status is Running ==> retryable(e) && st.pos + outs.len()
                    == st.n)
                &&& (fallback_drive(st, outs).status is Failed ==> fallback_drive(st, outs).status
                    == FallbackStatus::Failed(e) && !retryable(e))
                &&& (fallback_drive(st, outs).status is Running || fallback_drive(st, outs).status is Failed)
            },
        },
    decreases outs.len(),
{
    if outs.len() > 0 {
        let next = fallback_record(st, outs[0]);
        let rest = outs.drop_first();
        if rest.len() == 0 {
            assert(fallback_drive(next, rest) == next);
            assert(outs.last() == outs[0]);
        } else {
            assert(fed_while_pending(next, rest));
            assert(fallback_pending(next));
            lemma_fallback_drive(next, rest);
            assert(outs[0] matches Err(e) && retryable(e));
            assert forall|j: int| 0 <= j < outs.len() - 1 implies (#[trigger] outs[j] matches Err(e)
                && retryable(e)) by {
                if j > 0 {
                    assert(outs[j] == rest[j - 1]);
                }
            }
            assert(outs.last() == rest.last());
        }
    }
}

/// **Fallback law.** A run over `n` targets that is fed an outcome for each
/// target it asks for, until it stops asking, tries the targets in order and
/// moves on only past retryable errors: it reports the first target that
/// answers, or stops at the first non-retryable error, or, when every target
/// failed with retryable errors, reports the last of them; with no targets it
/// reports `Orchestration("no targets")`.
pub proof fn law_fallback(n: nat, outs: Seq<Result<(), ProviderError>>)
    requires
        fed_while_pending(fallback_init(n), outs),
        !fallback_pending(fallback_drive(fallback_init(n), outs)),
    ensures
        outs.len() <= n,
        forall|j: int|
            0 <= j < outs.len() - 1 ==> (#[trigger] outs[j] matches Err(e) && retryable(e)),
        outs.len() == 0 ==> n == 0 && forall|r: Result<usize, ProviderError>|
            fallback_result(fallback_drive(fallback_init(n), outs), r) <==> (r matches Err(
                ProviderError::Orchestration(m),
            ) && m@ == no_targets_message()),
        outs.len() > 0 ==> forall|r: Result<usize, ProviderError>|
            fallback_result(fallback_drive(fallback_init(n), outs), r) ==> match outs.last() {
                Ok(_) => r == Ok::<usize, ProviderError>((outs.len() - 1) as usize),
                Err(e) => r == Err::<usize, ProviderError>(e) && (!retryable(e) || outs.len() == n),
            },
{
    lemma_fallback_drive(fallback_init(n), outs);
}

/// A fallback run: tries targets in order, advancing on retryable errors.
#[derive(Debug)]
pub struct FallbackRun {
    targets: Vec<Target>,
    pos: usize,
    last: Option<ProviderError>,
    status: FallbackStatus,
}

impl FallbackRun {
    /// The run's abstract state.
    pub closed spec fn state(&self) -> FallbackState {
        FallbackState {
            n: self.targets@.len(),
            pos: self.pos as nat,
            last: self.last,
            status: self.status,
        }
    }

    /// The targets, in trying order.
    pub closed spec fn targets_view(&self) -> Seq<Target> {
        self.targets@
    }

    /// Internal consistency of a run.
    pub closed spec fn inv(&self) -> bool {
        &&& self.pos <= self.targets@.len()
        &&& self.pos == 0 && self.status is Running ==> self.last is None
        &&& self.status is Succeeded ==> self.status == FallbackStatus::Succeeded(self.pos)
            && self.pos < self.targets@.len()
    }

    /// Starts a run over `targets`.
    pub fn new(targets: Vec<Target>) -> (r: Self)
        ensures
            r.inv(),
            r.state() == fallback_init(targets@.len()),
            r.targets_view() == targets@,
    {
        FallbackRun { targets, pos: 0, last: None, status: FallbackStatus::Running }
    }

    /// The position and target to try next, or `None` once the run is over.
    pub fn next_target(&self) -> (r: Option<(usize, Target)>)
        requires
            self.inv(),
        ensures
            fallback_pending(self.state()) ==> r == Some((self.state().pos as usize, self.targets_view()[self.state().pos as int])),
            !fallback_pending(self.state()) ==> r is None,
    {
        match self.status {
            FallbackStatus::Running => if self.pos < self.targets.len() {
                Some((self.pos, self.targets[self.pos].clone()))
            } else {
                None
            },
            _ => None,
        }
    }

    /// Reports the outcome of the target `next_target` named.
    pub fn record(&mut self, outcome: Result<(), ProviderError>)
        requires
            old(self).inv(),
            fallback_pending(old(self).state()),
        ensures
            final(self).inv(),
            final(self).state() == fallback_record(old(self).state(), outcome),
            final(self).targets_view() == old(self).targets_view(),
    {
        let n = self.targets.len();
        assert(self.pos < n);
        match outcome {
            Ok(()) => {
                self.status = FallbackStatus::Succeeded(self.pos);
            },
            Err(e) => {
                if e.is_retryable() {
                    self.last = Some(e);
                    self.pos = self.pos + 1;
                } else {
                    self.last = Some(e.clone());
                    self.status = FallbackStatus::Failed(e);
                }
            },
        }
    }

    /// The run's result once it is over: the position of the answering
    /// target, or the error it ended with.
    pub fn finish(self) -> (r: Result<usize, ProviderError>)
        requires
            self.inv(),
            !fallback_pending(self.state()),
        ensures
            fallback_result(self.state(), r),
    {
        match self.status {
            FallbackStatus::Succeeded(i) => Ok(i),
            FallbackStatus::Failed(e) => Err(e),
            FallbackStatus::Running => match self.last {
                Some(e) => Err(e),
                None => Err(ProviderError::Orchestration(String::from_str("no targets"))),
            },
        }
    }
}


/// The cursor of a combo of `n` targets after `k` round-robin calls.
pub open spec fn cursor_after(sticky: u32, n: nat, k: nat) -> RotationCursor
    decreases k,
{
    if k == 0 {
        fresh_cursor()
    } else {
        advance_cursor(cursor_after(sticky, n, (k - 1) as nat), sticky, n)
    }
}

proof fn lemma_round_robin(sticky: u32, n: nat, k: nat)
    requires
        0 < n <= usize::MAX,
    ensures
        cursor_after(sticky, n, k).index as int == (k as int / sticky_of(sticky)) % (n as int),
        cursor_after(sticky, n, k).used as int == k as int % sticky_of(sticky),
    decreases k,
{
    let s = sticky_of(sticky);
    if k == 0 {
        vstd::arithmetic::div_mod::lemma_fundamental_div_mod_converse(0, s, 0, 0);
        vstd::arithmetic::div_mod::lemma_fundamental_div_mod_converse(0, n as int, 0, 0);
    } else {
        lemma_round_robin(sticky, n, (k - 1) as nat);
        let prev = cursor_after(sticky, n, (k - 1) as nat);
        let q = (k - 1) as int / s;
        let r = (k - 1) as int % s;
        vstd::arithmetic::div_mod::lemma_fundamental_div_mod((k - 1) as int, s);
        vstd::arithmetic::div_mod::lemma_mod_bound((k - 1) as int, s);
        assert(k as int == s * q + r + 1);
        if r + 1 >= s {
            assert(r + 1 == s);
            assert(k as int == (q + 1) * s + 0) by (nonlinear_arith)
                requires
                    k as int == s * q + r + 1,
                    r + 1 == s,
            ;
            vstd::arithmetic::div_mod::lemma_fundamental_div_mod_converse(k as int, s, q + 1, 0);
            let qm = q % (n as int);
            vstd::arithmetic::div_mod::lemma_fundamental_div_mod(q, n as int);
            vstd::arithmetic::div_mod::lemma_mod_bound(q, n as int);
            if qm + 1 < n {
                assert(q + 1 == (q / (n as int)) * (n as int) + (qm + 1)) by (nonlinear_arith)
                    requires
                        q == (n as int) * (q / (n as int)) + qm,
                ;
                vstd::arithmetic::div_mod::lemma_fundamental_div_mod_converse(
                    q + 1,
                    n as int,
                    q / (n as int),
                    qm + 1,
                );
                vstd::arithmetic::div_mod::lemma_fundamental_div_mod_converse(
                    qm + 1,
                    n as int,
                    0,
                    qm + 1,
                );
            } else {
                assert(q + 1 == (q / (n as int) + 1) * (n as int) + 0) by (nonlinear_arith)
                    requires
                        q == (n as int) * (q / (n as int)) + qm,
                        qm + 1 == n,
                ;
                vstd::arithmetic::div_mod::lemma_fundamental_div_mod_converse(
                    q + 1,
                    n as int,
                    q / (n as int) + 1,
                    0,
                );
                vstd::arithmetic::div_mod::lemma_fundamental_div_mod_converse(
                    qm + 1,
                    n as int,
                    1,
                    0,
                );
            }
        } else {
            assert(k as int == q * s + (r + 1)) by (nonlinear_arith)
                requires
                    k as int == s * q + r + 1,
            ;
            vstd::arithmetic::div_mod::lemma_fundamental_div_mod_converse(k as int, s, q, r + 1);
        }
    }
}


/// **Round-robin law.** On a combo of `n` targets, the call numbered `k`
/// (from 0) starts at target `(k / sticky) % n`, and has used its start
/// `k % sticky` times before: each target leads `sticky` consecutive calls,
/// in order, wrapping around. A `sticky` of 0 behaves as 1: the start moves
/// on every call.
pub proof fn law_round_robin(sticky: u32, n: nat, k: nat)
    requires
        0 < n <= usize::MAX,
    ensures
        sticky > 0 ==> cursor_after(sticky, n, k).index as int == (k as int / sticky as int) % (
        n as int),
        sticky > 0 ==> cursor_after(sticky, n, k).used as int == k as int % (sticky as int),
        sticky == 0 ==> cursor_after(sticky, n, k).index as int == k as int % (n as int),
        sticky == 0 ==> cursor_after(sticky, n, k).used == 0,
{
    lemma_round_robin(sticky, n, k);
    if sticky == 0 {
        assert(k as int / 1 == k as int);
        assert(k as int % 1 == 0);
    }
}

/// **Server errors fall through.** A fallback run still waiting for the
/// target at `pos` moves on to the next target when that target fails with
/// an HTTP error other than 400, 404 or 422 (a 500 or 502 among them),
/// remembering the error; it stops at a 400, 404 or 422.
pub proof fn law_fallback_http(st: FallbackState, status: u16, message: String)
    requires
        fallback_pending(st),
    ensures
        (status != 400 && status != 404 && status != 422) ==> ({
            let next = fallback_record(st, Err(ProviderError::Http { status, message }));
            &&& next.pos == st.pos + 1
            &&& next.status is Running
            &&& next.last == Some(ProviderError::Http { status, message })
        }),
        (status == 400 || status == 404 || status == 422) ==> ({
            let next = fallback_record(st, Err(ProviderError::Http { status, message }));
            &&& next.pos == st.pos
            &&& next.status == FallbackStatus::Failed(ProviderError::Http { status, message })
        }),
{
}

/// Opening of the judge prompt.
pub open spec fn judge_header() -> Seq<char> {
    "You are an expert judge. Below are candidate answers from multiple AI models to the same user query. Synthesize the single best, correct and complete answer. Do not mention the sources.\n\n"@
}

/// The numbered panel answers of the judge prompt:
/// `Source <i>:\n<answer>\n\n` for each answer, numbered from 1.
pub open spec fn judge_sources(answers: Seq<ChatResponse>) -> Seq<char>
    decreases answers.len(),
{
    if answers.len() == 0 {
        Seq::empty()
    } else {
        judge_sources(answers.drop_last()) + "Source "@ + decimal_spec(answers.len()) + ":\n"@
            + answers.last().content@ + "\n\n"@
    }
}

/// The anonymized judge prompt built from the panel answers.
pub open spec fn judge_prompt(req: ChatRequest, answers: Seq<ChatResponse>) -> Seq<char> {
    judge_header() + judge_sources(answers) + "Original user message:\n"@ + last_user_content(
        req.messages@,
    )
}

/// `q` is the judge request for `req` and `answers`: one user message holding
/// the judge prompt, no model yet, not streamed, `req`'s sampling limits.
pub open spec fn is_judge_request(q: ChatRequest, req: ChatRequest, answers: Seq<ChatResponse>) -> bool {
    &&& q.model@ == Seq::<char>::empty()
    &&& q.messages@.len() == 1
    &&& q.messages@[0].role@ == user_role()
    &&& q.messages@[0].content@ == judge_prompt(req, answers)
    &&& !q.stream
    &&& q.max_tokens == req.max_tokens
    &&& q.temperature_bits == req.temperature_bits
}

/// Builds the anonymized judge request from the collected panel answers.
pub fn build_judge_request(req: &ChatRequest, answers: &Vec<ChatResponse>) -> (q: ChatRequest)
    ensures
        is_judge_request(q, *req, answers@),
{
    let mut prompt = String::from_str(
        "You are an expert judge. Below are candidate answers from multiple AI models to the same user query. Synthesize the single best, correct and complete answer. Do not mention the sources.\n\n",
    );
    let mut i: usize = 0;
    while i < answers.len()
        invariant
            i <= answers@.len(),
            prompt@ == judge_header() + judge_sources(answers@.subrange(0, i as int)),
        decreases answers.len() - i,
    {
        let ghost pre = answers@.subrange(0, i + 1);
        assert(pre.drop_last() =~= answers@.subrange(0, i as int));
        assert(pre.last() == answers@[i as int]);
        prompt.append("Source ");
        let num = decimal((i + 1) as u64);
        prompt.append(num.as_str());
        prompt.append(":\n");
        prompt.append(answers[i].content.as_str());
        prompt.append("\n\n");
        i = i + 1;
        assert(prompt@ =~= judge_header() + judge_sources(answers@.subrange(0, i as int)));
    }
    assert(answers@.subrange(0, i as int) =~= answers@);
    prompt.append("Original user message:\n");
    prompt.append(req.last_user_message());
    let role = String::from_str("user");
    proof {
        reveal_strlit("user");
        assert(role@ =~= user_role());
    }
    let mut messages: Vec<ChatMessage> = Vec::new();
    messages.push(ChatMessage { role, content: prompt });
    ChatRequest {
        model: String::new(),
        messages,
        stream: false,
        max_tokens: req.max_tokens,
        temperature_bits: req.temperature_bits,
    }
}

/// How a fusion fan-out ends.
#[derive(Debug)]
pub enum FusionOutcome {
    /// No panelist answered.
    Failed(ProviderError),
    /// Exactly one panelist answered: its answer is the result, unjudged.
    Single(ChatResponse),
    /// Several answered: ask `target` to synthesize them with `request`.
    Judge { target: Target, request: ChatRequest },
}

/// How long to wait for the next panel answer, in milliseconds, `elapsed`
/// ms into the fan-out, or `None` once the hard timeout has passed. After the
/// quorum is reached only the grace window is waited for stragglers.
pub open spec fn fusion_wait(answers: nat, min_panel: nat, grace_ms: nat, hard_ms: nat, elapsed: nat) -> Option<u64> {
    let remaining: int = if elapsed >= hard_ms {
        0
    } else {
        hard_ms - elapsed
    };
    if remaining == 0 {
        None
    } else if answers >= min_panel {
        Some((if grace_ms < remaining {
            grace_ms as int
        } else {
            remaining
        }) as u64)
    } else {
        Some(remaining as u64)
    }
}

/// A fusion fan-out in progress: the panel, the configuration, how many
/// panelists have reported and the answers collected so far.
#[derive(Debug)]
pub struct FusionRun {
    panel: Vec<Target>,
    config: FusionConfig,
    received: usize,
    answers: Vec<ChatResponse>,
}

/// The error a fan-out without any answer ends with.
pub open spec fn no_answers_message() -> Seq<char> {
    "fusion: no panel answers"@
}

impl FusionRun {
    pub closed spec fn panel_view(&self) -> Seq<Target> {
        self.panel@
    }

    pub closed spec fn config_view(&self) -> FusionConfig {
        self.config
    }

    /// Number of panelists that have reported (answer or error).
    pub closed spec fn received_view(&self) -> nat {
        self.received as nat
    }

    /// The answers collected so far, in arrival order.
    pub closed spec fn answers_view(&self) -> Seq<ChatResponse> {
        self.answers@
    }

    pub closed spec fn inv(&self) -> bool {
        &&& self.answers@.len() <= self.received <= self.panel@.len()
    }

    /// Starts a fan-out to `panel` with `config`.
    pub fn new(panel: Vec<Target>, config: FusionConfig) -> (r: Self)
        ensures
            r.inv(),
            r.panel_view() == panel@,
            r.config_view() == config,
            r.received_view() == 0,
            r.answers_view() == Seq::<ChatResponse>::empty(),
    {
        FusionRun { panel, config, received: 0, answers: Vec::new() }
    }

    /// How long to wait for the next answer `elapsed_ms` into the fan-out;
    /// `None` means stop waiting.
    pub fn wait_ms(&self, elapsed_ms: u64) -> (r: Option<u64>)
        requires
            self.inv(),
        ensures
            r == fusion_wait(
                self.answers_view().len(),
                self.config_view().min_panel as nat,
                self.config_view().grace_ms as nat,
                self.config_view().hard_timeout_ms as nat,
                elapsed_ms as nat,
            ),
    {
        let hard = self.config.hard_timeout_ms;
        let remaining = if elapsed_ms >= hard {
            0
        } else {
            hard - elapsed_ms
        };
        if remaining == 0 {
            None
        } else if self.answers.len() >= self.config.min_panel {
            Some(
                if self.config.grace_ms < remaining {
                    self.config.grace_ms
                } else {
                    remaining
                },
            )
        } else {
            Some(remaining)
        }
    }

    /// Whether every panelist has reported.
    pub fn all_reported(&self) -> (r: bool)
        requires
            self.inv(),
        ensures
            r == (self.received_view() == self.panel_view().len()),
    {
        self.received == self.panel.len()
    }

    /// Records a panelist's result: an answer is kept, an error skipped.
    pub fn on_result(&mut self, result: Result<ChatResponse, ProviderError>)
        requires
            old(self).inv(),
            old(self).received_view() < old(self).panel_view().len(),
        ensures
            final(self).inv(),
            final(self).panel_view() == old(self).panel_view(),
            final(self).config_view() == old(self).config_view(),
            final(self).received_view() == old(self).received_view() + 1,
            final(self).answers_view() == match result {
                Ok(r) => old(self).answers_view().push(r),
                Err(_) => old(self).answers_view(),
            },
    {
        let n = self.panel.len();
        assert(self.received < n);
        self.received = self.received + 1;
        match result {
            Ok(r) => self.answers.push(r),
            Err(_) => {},
        }
    }

    /// Concludes the fan-out: fails without answers, returns a lone answer
    /// as is, and otherwise asks the configured judge (or the first panelist)
    /// to synthesize the answers.
    pub fn conclude(self, req: &ChatRequest) -> (r: FusionOutcome)
        requires
            self.inv(),
        ensures
            self.answers_view().len() == 0 ==> (r matches FusionOutcome::Failed(
                ProviderError::Orchestration(m),
            ) && m@ == no_answers_message()),
            self.answers_view().len() == 1 ==> r == FusionOutcome::Single(self.answers_view()[0]),
            self.answers_view().len() >= 2 ==> (r matches FusionOutcome::Judge { target, request }
                && target == (match self.config_view().judge {
                Some(j) => j,
                None => self.panel_view()[0],
            }) && is_judge_request(request, *req, self.answers_view())),
    {
        let mut answers = self.answers;
        let n = answers.len();
        if n == 0 {
            return FusionOutcome::Failed(
                ProviderError::Orchestration(String::from_str("fusion: no panel answers")),
            );
        }
        if n == 1 {
            let a = answers.remove(0);
            return FusionOutcome::Single(a);
        }
        let target = match self.config.judge {
            Some(j) => j,
            None => self.panel[0].clone(),
        };
        let request = build_judge_request(req, &answers);
        FusionOutcome::Judge { target, request }
    }
}

/// The judge's answer, marked as synthesized from a panel.
pub fn mark_fused(resp: ChatResponse) -> (r: ChatResponse)
    ensures
        r == (ChatResponse { fused: true, ..resp }),
{
    let mut r = resp;
    r.fused = true;
    r
}

/// A fusion result replayed as a stream: one delta with the whole answer,
/// then the terminal chunk with its usage; also returns the answering target.
pub fn fusion_chunks(resp: ChatResponse) -> (r: (Vec<ChatChunk>, Option<Target>))
    ensures
        r.0@.len() == 2,
        r.0@[0] == ChatChunk::Delta(resp.content),
        r.0@[1] == ChatChunk::Done(resp.usage),
        r.1 == resp.target,
{
    let mut chunks: Vec<ChatChunk> = Vec::new();
    chunks.push(ChatChunk::Delta(resp.content));
    chunks.push(ChatChunk::Done(resp.usage));
    (chunks, resp.target)
}


/// **A rotation keeps every target**: the order a round-robin call tries is
/// the combo's targets, each exactly once, starting at `start` and wrapping
/// around.
pub proof fn law_rotation_keeps_targets(ts: Seq<Target>, start: int)
    requires
        0 <= start < ts.len(),
    ensures
        rotated(ts, start).len() == ts.len(),
        rotated(ts, start)[0] == ts[start],
        forall|k: int|
            0 <= k < ts.len() ==> #[trigger] ts[k] == rotated(ts, start)[if k >= start {
                k - start
            } else {
                k - start + ts.len()
            }],
{
    let n = ts.len() as int;
    assert(start % n == start) by (nonlinear_arith)
        requires
            0 <= start < n,
    ;
    assert forall|k: int| 0 <= k < n implies #[trigger] ts[k] == rotated(ts, start)[if k >= start {
        k - start
    } else {
        k - start + n
    }] by {
        if k >= start {
            assert((start + (k - start)) % n == k) by (nonlinear_arith)
                requires
                    0 <= k < n,
            ;
        } else {
            assert((start + (k - start + n)) % n == k) by (nonlinear_arith)
                requires
                    0 <= k < n,
                    k + n == start + (k - start + n),
            ;
        }
    }
}

} // verus!
