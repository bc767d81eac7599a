//! The decisions behind the HTTP API: client authentication, provider
//! tests, listings and usage analytics. Routing, JSON and I/O stay with the
//! caller.

use vstd::prelude::*;
use vstd::string::*;
use crate::state::{
    ApiKey, LogEntry, ProviderStored, StoredState, UsageEntry, UsageRow, bump, entry_for, has_key,
    provider_entry, provider_ids, usage_targets,
};
use crate::text::{
    first_index_of, lemma_first_index_is, lemma_first_index_of, starts_with, starts_with_spec,
    substring, trim, trim_spec,
};
use crate::types::{ChatMessage, ChatRequest, ModelInfo, Target, label_spec, user_role};

verus! {

/// A request is let through when keys are not required, or when its
/// `Authorization` header is `Bearer <key>` with a stored key (surrounding
/// whitespace of the key ignored).
pub open spec fn authorized(require: bool, header: Option<Seq<char>>, keys: Seq<ApiKey>) -> bool {
    !require || match header {
        Some(h) => starts_with_spec(h, "Bearer "@) && has_key(
            keys,
            trim_spec(h.subrange(7, h.len() as int)),
        ),
        None => false,
    }
}

/// Whether a client request may proceed; `header` is the `Authorization`
/// header when present and readable as text.
pub fn authorize(state: &StoredState, header: Option<&str>) -> (r: bool)
    ensures
        r == authorized(state.require_api_key, match header {
            Some(h) => Some(h@),
            None => None,
        }, state.api_keys@),
{
    if !state.require_api_key() {
        return true;
    }
    match header {
        None => false,
        Some(h) => {
            proof {
                reveal_strlit("Bearer ");
            }
            if starts_with(h, "Bearer ") {
                let n = h.unicode_len();
                let rest = substring(h, 7, n);
                let key = trim(rest.as_str());
                state.key_valid(key.as_str())
            } else {
                false
            }
        },
    }
}

/// Seconds in a day.
pub const DAY: u64 = 86_400;

/// Start (epoch seconds) of a usage period ending `now`: the last 24 hours,
/// 7, 30 or 60 days, or by default today since UTC midnight.
pub open spec fn period_start(period: Seq<char>, now: u64) -> u64 {
    let back: int = if period == "24h"@ {
        DAY as int
    } else if period == "7d"@ {
        7 * DAY
    } else if period == "30d"@ {
        30 * DAY
    } else if period == "60d"@ {
        60 * DAY
    } else {
        -1
    };
    if back < 0 {
        (now - now % DAY) as u64
    } else if now >= back {
        (now - back) as u64
    } else {
        0
    }
}

proof fn lemma_periods_distinct()
    ensures
        "24h"@ != "7d"@,
        "24h"@ != "30d"@,
        "24h"@ != "60d"@,
        "7d"@ != "30d"@,
        "7d"@ != "60d"@,
        "30d"@ != "60d"@,
{
    reveal_strlit("24h");
    reveal_strlit("7d");
    reveal_strlit("30d");
    reveal_strlit("60d");
    assert("24h"@.len() != "7d"@.len());
    assert("24h"@[0] != "30d"@[0]);
    assert("24h"@[0] != "60d"@[0]);
    assert("7d"@.len() != "30d"@.len());
    assert("7d"@.len() != "60d"@.len());
    assert("30d"@[0] != "60d"@[0]);
}

/// **Usage periods.** `24h`, `7d`, `30d` and `60d` cover the last 1, 7, 30
/// and 60 days before `now` (from the epoch when `now` is earlier); any
/// other period, `today` among them, starts at the last UTC midnight.
pub proof fn law_period_windows(now: u64, other: Seq<char>)
    requires
        other != "24h"@ && other != "7d"@ && other != "30d"@ && other != "60d"@,
    ensures
        period_start("24h"@, now) == (if now >= 86_400 { now - 86_400 } else { 0 }),
        period_start("7d"@, now) == (if now >= 7 * 86_400 { now - 7 * 86_400 } else { 0 }),
        period_start("30d"@, now) == (if now >= 30 * 86_400 { now - 30 * 86_400 } else { 0 }),
        period_start("60d"@, now) == (if now >= 60 * 86_400 { now - 60 * 86_400 } else { 0 }),
        period_start(other, now) == now - now % 86_400,
        period_start(other, now) <= now,
        period_start(other, now) % 86_400 == 0,
{
    lemma_periods_distinct();
    assert((now - now % 86_400) % 86_400 == 0) by (nonlinear_arith);
}

/// Start of the usage period named `period`, as seen at `now`.
pub fn period_since(period: &str, now: u64) -> (r: u64)
    ensures
        r == period_start(period@, now),
        period@ == "24h"@ ==> r == (if now >= 86_400 { now - 86_400 } else { 0 }),
        period@ == "7d"@ ==> r == (if now >= 7 * 86_400 { now - 7 * 86_400 } else { 0 }),
        period@ == "30d"@ ==> r == (if now >= 30 * 86_400 { now - 30 * 86_400 } else { 0 }),
        period@ == "60d"@ ==> r == (if now >= 60 * 86_400 { now - 60 * 86_400 } else { 0 }),
        (period@ != "24h"@ && period@ != "7d"@ && period@ != "30d"@ && period@ != "60d"@) ==> r
            == now - now % 86_400,
{
    proof {
        lemma_periods_distinct();
    }
    let p = String::from_str(period);
    let h24 = String::from_str("24h");
    let d7 = String::from_str("7d");
    let d30 = String::from_str("30d");
    let d60 = String::from_str("60d");
    if p == h24 {
        now.saturating_sub(DAY)
    } else if p == d7 {
        now.saturating_sub(7 * DAY)
    } else if p == d30 {
        now.saturating_sub(30 * DAY)
    } else if p == d60 {
        now.saturating_sub(60 * DAY)
    } else {
        now - (now % DAY)
    }
}

/// The first `n` characters of `s`.
pub open spec fn take_chars_spec(s: Seq<char>, n: nat) -> Seq<char> {
    if n < s.len() {
        s.subrange(0, n as int)
    } else {
        s
    }
}

/// `s.chars().take(n)`.
pub fn take_chars(s: &str, n: usize) -> (r: String)
    ensures
        r@ == take_chars_spec(s@, n as nat),
{
    let len = s.unicode_len();
    if n < len {
        substring(s, 0, n)
    } else {
        proof {
            assert(s@.subrange(0, len as int) =~= s@);
        }
        substring(s, 0, len)
    }
}

/// The label a response is reported under: its target's `provider/model`,
/// else the requested model name.
pub fn response_label(target: &Option<Target>, model: &str) -> (r: String)
    ensures
        r@ == match target {
            Some(t) => label_spec(t.provider@, t.model@),
            None => model@,
        },
{
    match target {
        Some(t) => t.label(),
        None => String::from_str(model),
    }
}

/// How a provider test is run: the model to ping and the request to send.
#[derive(Debug)]
pub struct ProviderTest {
    pub model: String,
    pub request: ChatRequest,
}

/// The error of a test of an unknown provider.
pub open spec fn not_found_message() -> Seq<char> {
    "provider not found"@
}

/// The error of a test of a provider without models whose model is not given.
pub open spec fn no_models_message() -> Seq<char> {
    "provider has no models"@
}

/// The ping request of a provider test: one user message `ping`, at most
/// one token, addressed to `provider/model`.
pub open spec fn is_ping_request(q: ChatRequest, provider: Seq<char>, model: Seq<char>) -> bool {
    &&& q.model@ == label_spec(provider, model)
    &&& q.messages@.len() == 1
    &&& q.messages@[0].role@ == user_role()
    &&& q.messages@[0].content@ == "ping"@
    &&& !q.stream
    &&& q.max_tokens == Some(1u32)
    &&& q.temperature_bits is None
}

/// Plans a test of provider `id`: the given model, else its first model.
pub fn plan_provider_test(providers: &Vec<ProviderStored>, id: &str, model: Option<String>) -> (r: Result<ProviderTest, String>)
    ensures
        ({
            let i = first_index_of(provider_ids(providers@), id@);
            if i < 0 {
                r matches Err(e) && e@ == not_found_message()
            } else {
                let p = providers@[i];
                match model {
                    Some(m) => r matches Ok(t) && t.model == m && is_ping_request(t.request, id@, m@),
                    None => if p.models@.len() == 0 {
                        r matches Err(e) && e@ == no_models_message()
                    } else {
                        r matches Ok(t) && t.model@ == p.models@[0].id@ && is_ping_request(
                            t.request,
                            id@,
                            p.models@[0].id@,
                        )
                    },
                }
            }
        }),
{
    let wanted = String::from_str(id);
    let Some(pi) = crate::state::first_provider(providers, &wanted) else {
        return Err(String::from_str("provider not found"));
    };
    let p = &providers[pi];
    proof {
        lemma_first_index_of(provider_ids(providers@), id@);
        assert(p.id@ == id@);
    }
    let model = match model {
        Some(m) => m,
        None => {
            if p.models.len() == 0 {
                return Err(String::from_str("provider has no models"));
            }
            p.models[0].id.clone()
        },
    };
    let mut full = p.id.clone();
    proof {
        reveal_strlit("/");
        reveal_strlit("user");
    }
    full.append("/");
    full.append(model.as_str());
    let role = String::from_str("user");
    assert(role@ =~= user_role());
    let mut messages: Vec<ChatMessage> = Vec::new();
    messages.push(ChatMessage { role, content: String::from_str("ping") });
    let request = ChatRequest {
        model: full,
        messages,
        stream: false,
        max_tokens: Some(1),
        temperature_bits: None,
    };
    assert(request.messages@[0].content@ == "ping"@);
    assert(request.model@ == label_spec(id@, model@));
    assert(is_ping_request(request, id@, model@));
    Ok(ProviderTest { model, request })
}

/// The bearer token to send to a provider: its key, unless blank.
pub fn bearer_token(p: &ProviderStored) -> (r: Option<String>)
    ensures
        p.api_key@.len() == 0 ==> r is None,
        p.api_key@.len() > 0 ==> r == Some(p.api_key),
{
    if p.api_key.as_str().is_empty() {
        None
    } else {
        Some(p.api_key.clone())
    }
}

/// A provider as listed to clients: never its secret, only whether one is set.
#[derive(Debug)]
pub struct ProviderListing {
    pub id: String,
    pub base_url: String,
    pub api_key_set: bool,
    pub models: Vec<ModelInfo>,
}

/// The client listing of a stored provider.
pub fn provider_listing(p: &ProviderStored) -> (r: ProviderListing)
    ensures
        r.id == p.id,
        r.base_url == p.base_url,
        r.api_key_set == (p.api_key@.len() > 0),
        entry_for(crate::orchestrator::ProviderEntry { id: r.id, models: r.models }, *p),
{
    let e = provider_entry(p);
    ProviderListing {
        id: p.id.clone(),
        base_url: p.base_url.clone(),
        api_key_set: !p.api_key.as_str().is_empty(),
        models: e.models,
    }
}


/// One row of a usage report.
#[derive(Debug)]
pub struct UsageReport {
    pub target: String,
    pub requests: u64,
    pub prompt_tokens: u64,
    pub completion_tokens: u64,
    pub total_tokens: u64,
}

/// The report row of a target's counters (total = prompt + completion).
pub open spec fn report_of(e: UsageEntry) -> UsageReport {
    UsageReport {
        target: e.target,
        requests: e.row.requests,
        prompt_tokens: e.row.prompt_tokens,
        completion_tokens: e.row.completion_tokens,
        total_tokens: (e.row.prompt_tokens + e.row.completion_tokens) as u64,
    }
}

/// Every row's total fits in `u64`.
pub open spec fn totals_fit(us: Seq<UsageEntry>) -> bool {
    forall|k: int|
        0 <= k < us.len() ==> (#[trigger] us[k]).row.prompt_tokens + us[k].row.completion_tokens
            <= u64::MAX
}

/// `p` is where a row with `r` requests goes in rows sorted by decreasing
/// request count: after every row with at least `r` requests.
pub open spec fn is_insert_pos(rows: Seq<UsageReport>, r: u64, p: int) -> bool {
    &&& 0 <= p <= rows.len()
    &&& forall|k: int| 0 <= k < p ==> (#[trigger] rows[k]).requests >= r
    &&& p < rows.len() ==> rows[p].requests < r
}

/// The insertion position of a row with `r` requests.
pub open spec fn insert_pos(rows: Seq<UsageReport>, r: u64) -> int {
    choose|p: int| is_insert_pos(rows, r, p)
}

proof fn lemma_insert_pos_unique(rows: Seq<UsageReport>, r: u64, p: int)
    requires
        is_insert_pos(rows, r, p),
    ensures
        insert_pos(rows, r) == p,
{
    let q = insert_pos(rows, r);
    assert(is_insert_pos(rows, r, q));
    if q < p {
        assert(rows[q].requests >= r);
    } else if p < q {
        assert(rows[p].requests >= r);
    }
}

/// `rows` sorted by decreasing request count, rows with equal counts kept
/// in their original order (a stable insertion sort).
pub open spec fn sort_by_requests(rows: Seq<UsageReport>) -> Seq<UsageReport>
    decreases rows.len(),
{
    if rows.len() == 0 {
        Seq::empty()
    } else {
        let s = sort_by_requests(rows.drop_last());
        s.insert(insert_pos(s, rows.last().requests), rows.last())
    }
}

/// Rows are in decreasing order of request count.
pub open spec fn sorted_by_requests(rows: Seq<UsageReport>) -> bool {
    forall|i: int, j: int| 0 <= i < j < rows.len() ==> rows[i].requests >= rows[j].requests
}

/// **Usage reports are ordered**: sorting yields the same rows (as a
/// multiset), in decreasing order of request count.
pub proof fn law_sort_by_requests(rows: Seq<UsageReport>)
    ensures
        sorted_by_requests(sort_by_requests(rows)),
        sort_by_requests(rows).to_multiset() == rows.to_multiset(),
        sort_by_requests(rows).len() == rows.len(),
    decreases rows.len(),
{
    broadcast use vstd::seq_lib::to_multiset_insert, vstd::seq_lib::to_multiset_build;

    if rows.len() == 0 {
        assert(sort_by_requests(rows) =~= rows);
    } else {
        law_sort_by_requests(rows.drop_last());
        let s = sort_by_requests(rows.drop_last());
        let x = rows.last();
        let r = x.requests;
        lemma_first_below(s, r);
        let p = insert_pos(s, r);
        assert(is_insert_pos(s, r, p));
        let t = s.insert(p, x);
        assert forall|i: int, j: int| 0 <= i < j < t.len() implies t[i].requests >= t[j].requests by {
            if j < p {
            } else if j == p {
                assert(t[i] == s[i]);
            } else if i < p {
                assert(t[j] == s[j - 1]);
                if p < s.len() {
                    assert(s[p].requests < r);
                }
                assert(t[i] == s[i]);
            } else if i == p {
                assert(t[j] == s[j - 1]);
                assert(s[p].requests < r);
            } else {
                assert(t[i] == s[i - 1]);
                assert(t[j] == s[j - 1]);
            }
        }
        assert(rows.drop_last().push(x) =~= rows);
    }
}

proof fn lemma_first_below(s: Seq<UsageReport>, r: u64)
    ensures
        exists|p: int| is_insert_pos(s, r, p),
    decreases s.len(),
{
    if s.len() == 0 {
        assert(is_insert_pos(s, r, 0));
    } else if s[0].requests < r {
        assert(is_insert_pos(s, r, 0));
    } else {
        lemma_first_below(s.drop_first(), r);
        let p = choose|p: int| is_insert_pos(s.drop_first(), r, p);
        assert forall|k: int| 0 <= k < p + 1 implies (#[trigger] s[k]).requests >= r by {
            if k > 0 {
                assert(s[k] == s.drop_first()[k - 1]);
            }
        }
        if p + 1 < s.len() {
            assert(s[p + 1] == s.drop_first()[p]);
        }
        assert(is_insert_pos(s, r, p + 1));
    }
}

/// Inserts `x` into `sorted` after every row with at least as many requests.
fn insert_sorted(sorted: &mut Vec<UsageReport>, x: UsageReport)
    ensures
        final(sorted)@ == old(sorted)@.insert(insert_pos(old(sorted)@, x.requests), x),
{
    let mut j: usize = 0;
    while j < sorted.len() && sorted[j].requests >= x.requests
        invariant
            j <= sorted@.len(),
            forall|k: int| 0 <= k < j ==> (#[trigger] sorted@[k]).requests >= x.requests,
        decreases sorted.len() - j,
    {
        j = j + 1;
    }
    proof {
        lemma_insert_pos_unique(sorted@, x.requests, j as int);
    }
    sorted.insert(j, x);
}

/// The aggregate usage table as report rows, most requested first.
pub fn usage_report(us: &Vec<UsageEntry>) -> (r: Vec<UsageReport>)
    requires
        totals_fit(us@),
    ensures
        r@ == sort_by_requests(us@.map_values(|e: UsageEntry| report_of(e))),
{
    let ghost rows = us@.map_values(|e: UsageEntry| report_of(e));
    let mut out: Vec<UsageReport> = Vec::new();
    let mut i: usize = 0;
    while i < us.len()
        invariant
            i <= us@.len(),
            totals_fit(us@),
            rows == us@.map_values(|e: UsageEntry| report_of(e)),
            out@ == sort_by_requests(rows.subrange(0, i as int)),
        decreases us.len() - i,
    {
        let e = &us[i];
        assert(e.row.prompt_tokens + e.row.completion_tokens <= u64::MAX);
        let x = UsageReport {
            target: e.target.clone(),
            requests: e.row.requests,
            prompt_tokens: e.row.prompt_tokens,
            completion_tokens: e.row.completion_tokens,
            total_tokens: e.row.prompt_tokens + e.row.completion_tokens,
        };
        proof {
            assert(x == rows[i as int]);
            assert(rows.subrange(0, i + 1).drop_last() =~= rows.subrange(0, i as int));
        }
        insert_sorted(&mut out, x);
        i = i + 1;
    }
    assert(rows.subrange(0, i as int) =~= rows);
    out
}


/// The log entries recorded at or after `since`, in order.
pub open spec fn in_period(log: Seq<LogEntry>, since: u64) -> Seq<LogEntry>
    decreases log.len(),
{
    if log.len() == 0 {
        Seq::empty()
    } else if log.last().ts >= since {
        in_period(log.drop_last(), since).push(log.last())
    } else {
        in_period(log.drop_last(), since)
    }
}

/// Total prompt tokens of `es`.
pub open spec fn sum_prompt(es: Seq<LogEntry>) -> nat
    decreases es.len(),
{
    if es.len() == 0 {
        0
    } else {
        sum_prompt(es.drop_last()) + es.last().prompt_tokens as nat
    }
}

/// Total completion tokens of `es`.
pub open spec fn sum_completion(es: Seq<LogEntry>) -> nat
    decreases es.len(),
{
    if es.len() == 0 {
        0
    } else {
        sum_completion(es.drop_last()) + es.last().completion_tokens as nat
    }
}

/// The per-target counters after counting entry `e`: its target's row (the
/// first one) is bumped, or a new row is appended.
pub open spec fn tally(rows: Seq<UsageEntry>, e: LogEntry) -> Seq<UsageEntry> {
    let i = first_index_of(usage_targets(rows), e.target@);
    if i >= 0 {
        rows.update(
            i,
            UsageEntry { target: rows[i].target, row: bump(rows[i].row, e.prompt_tokens, e.completion_tokens) },
        )
    } else {
        rows.push(
            UsageEntry {
                target: e.target,
                row: UsageRow { requests: 1, prompt_tokens: e.prompt_tokens, completion_tokens: e.completion_tokens },
            },
        )
    }
}

/// Per-target counters of `es`, targets in order of first appearance.
pub open spec fn tally_all(es: Seq<LogEntry>) -> Seq<UsageEntry>
    decreases es.len(),
{
    if es.len() == 0 {
        Seq::empty()
    } else {
        tally(tally_all(es.drop_last()), es.last())
    }
}

/// Usage over a period: totals and per-target rows, most requested first.
#[derive(Debug)]
pub struct UsageSummary {
    pub requests: u64,
    pub prompt_tokens: u64,
    pub completion_tokens: u64,
    pub total_tokens: u64,
    pub by_target: Vec<UsageReport>,
}

/// The tokens of the period fit in `u64` (the summary adds them up).
pub open spec fn summary_fits(log: Seq<LogEntry>, since: u64) -> bool {
    sum_prompt(in_period(log, since)) + sum_completion(in_period(log, since)) <= u64::MAX
}

proof fn lemma_period_prefix(log: Seq<LogEntry>, since: u64, i: int)
    requires
        0 <= i <= log.len(),
    ensures
        sum_prompt(in_period(log.subrange(0, i), since)) <= sum_prompt(in_period(log, since)),
        sum_completion(in_period(log.subrange(0, i), since)) <= sum_completion(in_period(log, since)),
        in_period(log.subrange(0, i), since).len() <= i,
    decreases log.len() - i,
{
    if i < log.len() {
        lemma_period_prefix(log, since, i + 1);
        let a = log.subrange(0, i + 1);
        assert(a.drop_last() =~= log.subrange(0, i));
        let x = in_period(log.subrange(0, i), since);
        if a.last().ts >= since {
            assert(in_period(a, since) == x.push(a.last()));
            assert(x.push(a.last()).drop_last() =~= x);
        }
    } else {
        assert(log.subrange(0, i) =~= log);
    }
    lemma_period_len(log.subrange(0, i), since);
}

proof fn lemma_period_len(log: Seq<LogEntry>, since: u64)
    ensures
        in_period(log, since).len() <= log.len(),
    decreases log.len(),
{
    if log.len() > 0 {
        lemma_period_len(log.drop_last(), since);
    }
}

/// Summarizes the requests logged at or after `since`.
pub fn usage_summary(log: &Vec<LogEntry>, since: u64) -> (r: UsageSummary)
    requires
        summary_fits(log@, since),
    ensures
        r.requests == in_period(log@, since).len(),
        r.prompt_tokens == sum_prompt(in_period(log@, since)),
        r.completion_tokens == sum_completion(in_period(log@, since)),
        r.total_tokens == sum_prompt(in_period(log@, since)) + sum_completion(in_period(log@, since)),
        r.by_target@ == sort_by_requests(
            tally_all(in_period(log@, since)).map_values(|e: UsageEntry| report_of(e)),
        ),
{
    let ghost period = in_period(log@, since);
    let mut rows: Vec<UsageEntry> = Vec::new();
    let mut reqs: u64 = 0;
    let mut pin: u64 = 0;
    let mut pout: u64 = 0;
    let mut i: usize = 0;
    while i < log.len()
        invariant
            i <= log@.len(),
            summary_fits(log@, since),
            period == in_period(log@, since),
            rows@ == tally_all(in_period(log@.subrange(0, i as int), since)),
            reqs == in_period(log@.subrange(0, i as int), since).len(),
            pin == sum_prompt(in_period(log@.subrange(0, i as int), since)),
            pout == sum_completion(in_period(log@.subrange(0, i as int), since)),
            forall|k: int|
                0 <= k < rows@.len() ==> (#[trigger] rows@[k]).row.prompt_tokens <= pin
                    && rows@[k].row.completion_tokens <= pout && rows@[k].row.requests <= reqs,
        decreases log.len() - i,
    {
        let e = &log[i];
        let ghost pre = log@.subrange(0, i + 1);
        proof {
            assert(pre.drop_last() =~= log@.subrange(0, i as int));
            assert(pre.last() == *e);
            lemma_period_prefix(log@, since, i + 1);
        }
        if e.ts >= since {
            proof {
                assert(in_period(pre, since) == in_period(log@.subrange(0, i as int), since).push(*e));
                assert(in_period(pre, since).drop_last() =~= in_period(log@.subrange(0, i as int), since));
            }
            let ghost before = rows@;
            let t = e.target.clone();
            match crate::state::first_usage(&rows, &t) {
                Some(k) => {
                    let old_row = rows[k].row;
                    let row = UsageRow {
                        requests: old_row.requests + 1,
                        prompt_tokens: old_row.prompt_tokens + e.prompt_tokens,
                        completion_tokens: old_row.completion_tokens + e.completion_tokens,
                    };
                    let kept = rows[k].target.clone();
                    rows.set(k, UsageEntry { target: kept, row });
                },
                None => {
                    let row = UsageRow {
                        requests: 1,
                        prompt_tokens: e.prompt_tokens,
                        completion_tokens: e.completion_tokens,
                    };
                    rows.push(UsageEntry { target: t, row });
                },
            }
            reqs = reqs + 1;
            pin = pin + e.prompt_tokens;
            pout = pout + e.completion_tokens;
        } else {
            proof {
                assert(in_period(pre, since) == in_period(log@.subrange(0, i as int), since));
            }
        }
        i = i + 1;
    }
    proof {
        assert(log@.subrange(0, i as int) =~= log@);
    }
    let by_target = usage_report(&rows);
    UsageSummary {
        requests: reqs,
        prompt_tokens: pin,
        completion_tokens: pout,
        total_tokens: pin + pout,
        by_target,
    }
}


/// One row of the request log as reported (total = prompt + completion).
#[derive(Debug)]
pub struct LogReport {
    pub ts: u64,
    pub target: String,
    pub prompt_tokens: u64,
    pub completion_tokens: u64,
    pub total_tokens: u64,
    pub status: u16,
    pub stream: bool,
}

/// The report row of a logged request.
pub open spec fn log_report_of(e: LogEntry) -> LogReport {
    LogReport {
        ts: e.ts,
        target: e.target,
        prompt_tokens: e.prompt_tokens,
        completion_tokens: e.completion_tokens,
        total_tokens: (e.prompt_tokens + e.completion_tokens) as u64,
        status: e.status,
        stream: e.stream,
    }
}

/// How many of the newest entries a listing of at most `limit` shows.
pub open spec fn shown(len: nat, limit: nat) -> nat {
    if limit < len {
        limit
    } else {
        len
    }
}

/// The totals of the shown entries fit in `u64`.
pub open spec fn recent_fit(log: Seq<LogEntry>, limit: nat) -> bool {
    forall|k: int|
        log.len() - shown(log.len(), limit) <= k < log.len() ==> (#[trigger] log[k]).prompt_tokens
            + log[k].completion_tokens <= u64::MAX
}

/// The newest `limit` logged requests, newest first.
pub fn recent_requests(log: &Vec<LogEntry>, limit: usize) -> (r: Vec<LogReport>)
    requires
        recent_fit(log@, limit as nat),
    ensures
        r@.len() == shown(log@.len(), limit as nat),
        forall|k: int|
            0 <= k < r@.len() ==> #[trigger] r@[k] == log_report_of(log@[log@.len() - 1 - k]),
{
    let n = log.len();
    let take = if limit < n {
        limit
    } else {
        n
    };
    let mut out: Vec<LogReport> = Vec::new();
    let mut k: usize = 0;
    while k < take
        invariant
            n == log@.len(),
            take == shown(n as nat, limit as nat),
            recent_fit(log@, limit as nat),
            k <= take,
            out@.len() == k,
            forall|j: int| 0 <= j < k ==> #[trigger] out@[j] == log_report_of(log@[n - 1 - j]),
        decreases take - k,
    {
        let e = &log[n - 1 - k];
        out.push(
            LogReport {
                ts: e.ts,
                target: e.target.clone(),
                prompt_tokens: e.prompt_tokens,
                completion_tokens: e.completion_tokens,
                total_tokens: e.prompt_tokens + e.completion_tokens,
                status: e.status,
                stream: e.stream,
            },
        );
        k = k + 1;
    }
    out
}

/// The page size of request-log listings when none is given.
pub const DEFAULT_LOG_LIMIT: usize = 200;

/// The listing size asked for by a `limit` query value (parsed as a
/// `usize`), else `DEFAULT_LOG_LIMIT`.
pub fn log_limit(query: Option<&str>) -> (r: usize)
    ensures
        r == match query {
            Some(q) => match crate::text::parse_usize_spec(q@) {
                Some(v) => v,
                None => DEFAULT_LOG_LIMIT,
            },
            None => DEFAULT_LOG_LIMIT,
        },
{
    match query {
        Some(q) => match crate::text::parse_usize(q) {
            Some(v) => v,
            None => DEFAULT_LOG_LIMIT,
        },
        None => DEFAULT_LOG_LIMIT,
    }
}

/// An API key as listed to clients: masked.
#[derive(Debug)]
pub struct KeyListing {
    pub id: String,
    pub name: String,
    pub masked: String,
    pub created_at: u64,
}

/// The client listing of an API key.
pub fn key_listing(k: &ApiKey) -> (r: KeyListing)
    requires
        crate::state::maskable(k.key@),
    ensures
        r.id == k.id,
        r.name == k.name,
        crate::state::mask_result(k.key@, r.masked@),
        r.created_at == k.created_at,
{
    KeyListing {
        id: k.id.clone(),
        name: k.name.clone(),
        masked: crate::state::mask(k.key.as_str()),
        created_at: k.created_at,
    }
}


/// Total requests over per-target rows.
pub open spec fn rows_requests(rows: Seq<UsageEntry>) -> nat
    decreases rows.len(),
{
    if rows.len() == 0 {
        0
    } else {
        rows_requests(rows.drop_last()) + rows.last().row.requests as nat
    }
}

/// Total prompt tokens over per-target rows.
pub open spec fn rows_prompt(rows: Seq<UsageEntry>) -> nat
    decreases rows.len(),
{
    if rows.len() == 0 {
        0
    } else {
        rows_prompt(rows.drop_last()) + rows.last().row.prompt_tokens as nat
    }
}

/// Total completion tokens over per-target rows.
pub open spec fn rows_completion(rows: Seq<UsageEntry>) -> nat
    decreases rows.len(),
{
    if rows.len() == 0 {
        0
    } else {
        rows_completion(rows.drop_last()) + rows.last().row.completion_tokens as nat
    }
}

proof fn lemma_rows_update(rows: Seq<UsageEntry>, i: int, e: UsageEntry)
    requires
        0 <= i < rows.len(),
    ensures
        rows_requests(rows.update(i, e)) + rows[i].row.requests == rows_requests(rows) + e.row.requests,
        rows_prompt(rows.update(i, e)) + rows[i].row.prompt_tokens == rows_prompt(rows) + e.row.prompt_tokens,
        rows_completion(rows.update(i, e)) + rows[i].row.completion_tokens == rows_completion(rows)
            + e.row.completion_tokens,
    decreases rows.len(),
{
    if i < rows.len() - 1 {
        lemma_rows_update(rows.drop_last(), i, e);
        assert(rows.update(i, e).drop_last() =~= rows.drop_last().update(i, e));
    } else {
        assert(rows.update(i, e).drop_last() =~= rows.drop_last());
    }
}

/// **Per-target rows add up to the totals**: counting a period's requests
/// per target loses and invents nothing; without overflow the rows' request
/// and token counts sum to the period's request count and token sums.
pub proof fn law_tally_totals(es: Seq<LogEntry>)
    requires
        sum_prompt(es) + sum_completion(es) <= u64::MAX,
        es.len() <= u64::MAX,
    ensures
        rows_requests(tally_all(es)) == es.len(),
        rows_prompt(tally_all(es)) == sum_prompt(es),
        rows_completion(tally_all(es)) == sum_completion(es),
        forall|k: int|
            0 <= k < tally_all(es).len() ==> (#[trigger] tally_all(es)[k]).row.requests <= es.len()
                && tally_all(es)[k].row.prompt_tokens <= sum_prompt(es)
                && tally_all(es)[k].row.completion_tokens <= sum_completion(es),
    decreases es.len(),
{
    if es.len() > 0 {
        let pre = es.drop_last();
        let e = es.last();
        law_tally_totals(pre);
        let rows = tally_all(pre);
        let i = first_index_of(usage_targets(rows), e.target@);
        lemma_first_index_of(usage_targets(rows), e.target@);
        if i >= 0 {
            let ne = UsageEntry {
                target: rows[i].target,
                row: bump(rows[i].row, e.prompt_tokens, e.completion_tokens),
            };
            lemma_rows_update(rows, i, ne);
        } else {
            let ne = UsageEntry {
                target: e.target,
                row: UsageRow { requests: 1, prompt_tokens: e.prompt_tokens, completion_tokens: e.completion_tokens },
            };
            assert(rows.push(ne).drop_last() =~= rows);
        }
    }
}


/// Whether every row's total fits in `u64` (what `usage_report` needs).
pub fn usage_totals_fit(us: &Vec<UsageEntry>) -> (r: bool)
    ensures
        r == totals_fit(us@),
{
    let mut i: usize = 0;
    while i < us.len()
        invariant
            i <= us@.len(),
            forall|k: int|
                0 <= k < i ==> (#[trigger] us@[k]).row.prompt_tokens + us@[k].row.completion_tokens
                    <= u64::MAX,
        decreases us.len() - i,
    {
        if us[i].row.prompt_tokens > u64::MAX - us[i].row.completion_tokens {
            assert(!(us@[i as int].row.prompt_tokens + us@[i as int].row.completion_tokens <= u64::MAX));
            return false;
        }
        i = i + 1;
    }
    true
}

/// Whether the period's token sums fit in `u64` (what `usage_summary` needs).
pub fn usage_summary_fits(log: &Vec<LogEntry>, since: u64) -> (r: bool)
    ensures
        r == summary_fits(log@, since),
{
    let mut pin: u64 = 0;
    let mut pout: u64 = 0;
    let mut i: usize = 0;
    while i < log.len()
        invariant
            i <= log@.len(),
            pin == sum_prompt(in_period(log@.subrange(0, i as int), since)),
            pout == sum_completion(in_period(log@.subrange(0, i as int), since)),
            pin + pout <= u64::MAX,
        decreases log.len() - i,
    {
        let e = &log[i];
        let ghost pre = log@.subrange(0, i + 1);
        proof {
            assert(pre.drop_last() =~= log@.subrange(0, i as int));
            assert(pre.last() == *e);
            lemma_period_prefix(log@, since, i + 1);
        }
        if e.ts >= since {
            proof {
                assert(in_period(pre, since) == in_period(log@.subrange(0, i as int), since).push(*e));
                assert(in_period(pre, since).drop_last() =~= in_period(log@.subrange(0, i as int), since));
            }
            if e.prompt_tokens > u64::MAX - pin - pout || e.completion_tokens > u64::MAX - pin - pout
                - e.prompt_tokens {
                return false;
            }
            pin = pin + e.prompt_tokens;
            pout = pout + e.completion_tokens;
        } else {
            proof {
                assert(in_period(pre, since) == in_period(log@.subrange(0, i as int), since));
            }
        }
        i = i + 1;
    }
    proof {
        assert(log@.subrange(0, i as int) =~= log@);
    }
    true
}

/// Whether the totals of the newest `limit` entries fit in `u64` (what
/// `recent_requests` needs).
pub fn recent_requests_fit(log: &Vec<LogEntry>, limit: usize) -> (r: bool)
    ensures
        r == recent_fit(log@, limit as nat),
{
    let n = log.len();
    let take = if limit < n {
        limit
    } else {
        n
    };
    let mut k: usize = n - take;
    while k < n
        invariant
            n == log@.len(),
            take == shown(n as nat, limit as nat),
            n - take <= k <= n,
            forall|j: int|
                n - take <= j < k ==> (#[trigger] log@[j]).prompt_tokens + log@[j].completion_tokens
                    <= u64::MAX,
        decreases n - k,
    {
        if log[k].prompt_tokens > u64::MAX - log[k].completion_tokens {
            assert(!(log@[k as int].prompt_tokens + log@[k as int].completion_tokens <= u64::MAX));
            return false;
        }
        k = k + 1;
    }
    true
}

} // verus!
