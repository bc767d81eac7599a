//! The dashboard's logic: strategy chips, console-log colouring and the
//! live console, the model lists of a provider card, and the one-line
//! reports of provider tests, model fetches and playground replies.

use vstd::prelude::*;
use vstd::string::*;
use crate::state::{ModelStored, ProviderStored};
use crate::types::{label_spec, strategy_label_spec, Combo, Strategy};
use crate::text::{decimal, decimal_spec, starts_with, starts_with_spec, substring};

verus! {

/// `s` with every `_` replaced by `-`.
pub open spec fn dashed(s: Seq<char>) -> Seq<char> {
    s.map_values(|c: char| if c == '_' { '-' } else { c })
}

/// A strategy name as shown on chips (`round_robin` reads `round-robin`).
pub fn pretty_strategy(s: &str) -> (r: String)
    ensures
        r@ == dashed(s@),
{
    proof {
        reveal_strlit("-");
    }
    let n = s.unicode_len();
    let mut r = String::new();
    let mut i: usize = 0;
    while i < n
        invariant
            n == s@.len(),
            i <= n,
            r@ == dashed(s@.subrange(0, i as int)),
        decreases n - i,
    {
        let c = s.get_char(i);
        let ghost before = r@;
        if c == '_' {
            r.append("-");
            proof {
                reveal_strlit("-");
            }
            assert("-"@ =~= seq!['-']);
        } else {
            let one = substring(s, i, i + 1);
            assert(one@ =~= seq![c]);
            r.append(one.as_str());
        }
        assert(r@ =~= before.push(if c == '_' { '-' } else { c }));
        assert(dashed(s@.subrange(0, i + 1)) =~= dashed(s@.subrange(0, i as int)).push(
            if c == '_' { '-' } else { c },
        ));
        i = i + 1;
    }
    assert(s@.subrange(0, n as int) =~= s@);
    r
}

/// The colour of a console line, by its level tag.
pub open spec fn log_style_spec(line: Seq<char>) -> Seq<char> {
    if starts_with_spec(line, "[ERROR]"@) {
        "color:#ff6b6b"@
    } else if starts_with_spec(line, "[WARN]"@) {
        "color:#f0c050"@
    } else if starts_with_spec(line, "[INFO]"@) {
        "color:#6ea8fe"@
    } else if starts_with_spec(line, "[DEBUG]"@) {
        "color:#c792ea"@
    } else {
        "color:#5fd0a8"@
    }
}

/// The CSS colour of a console line.
pub fn log_style(line: &str) -> (r: &'static str)
    ensures
        r@ == log_style_spec(line@),
{
    if starts_with(line, "[ERROR]") {
        "color:#ff6b6b"
    } else if starts_with(line, "[WARN]") {
        "color:#f0c050"
    } else if starts_with(line, "[INFO]") {
        "color:#6ea8fe"
    } else if starts_with(line, "[DEBUG]") {
        "color:#c792ea"
    } else {
        "color:#5fd0a8"
    }
}

/// The reply of a provider test, as the dashboard reads it: `ok` (absent
/// read as false), the answering target, the latency, the error and status.
#[derive(Debug)]
pub struct TestReply {
    pub ok: bool,
    pub target: Option<String>,
    pub latency_ms: Option<u64>,
    pub error: Option<String>,
    pub status: Option<u64>,
}

/// `o`'s text, or `d`.
pub open spec fn text_or(o: Option<String>, d: Seq<char>) -> Seq<char> {
    match o {
        Some(s) => s@,
        None => d,
    }
}

/// `o`'s value, or 0.
pub open spec fn count_or_zero(o: Option<u64>) -> nat {
    match o {
        Some(v) => v as nat,
        None => 0,
    }
}

/// The one-line report of a provider test (`None`: no reply).
pub open spec fn test_report(r: Option<TestReply>) -> Seq<char> {
    match r {
        Some(v) => if v.ok {
            "\u{2713} "@ + text_or(v.target, "ok"@) + " ("@ + decimal_spec(count_or_zero(v.latency_ms))
                + " ms)"@
        } else {
            "\u{2717} "@ + text_or(v.error, "failed"@) + " ["@ + decimal_spec(count_or_zero(v.status))
                + "]"@
        },
        None => "\u{2717} network error"@,
    }
}

fn count_exec(o: Option<u64>) -> (r: u64)
    ensures
        r as nat == count_or_zero(o),
{
    match o {
        Some(v) => v,
        None => 0,
    }
}

fn append_or(r: &mut String, o: &Option<String>, d: &str)
    ensures
        final(r)@ == old(r)@ + text_or(*o, d@),
{
    match o {
        Some(s) => r.append(s.as_str()),
        None => r.append(d),
    }
}

/// Formats the reply of a provider test.
pub fn fmt_test(r: Option<TestReply>) -> (s: String)
    ensures
        s@ == test_report(r),
{
    match r {
        Some(v) => if v.ok {
            let mut s = String::from_str("\u{2713} ");
            append_or(&mut s, &v.target, "ok");
            s.append(" (");
            let d = decimal(count_exec(v.latency_ms));
            s.append(d.as_str());
            s.append(" ms)");
            s
        } else {
            let mut s = String::from_str("\u{2717} ");
            append_or(&mut s, &v.error, "failed");
            s.append(" [");
            let d = decimal(count_exec(v.status));
            s.append(d.as_str());
            s.append("]");
            s
        },
        None => String::from_str("\u{2717} network error"),
    }
}

/// A chat reply as the playground reads it: the error object (when present
/// and not null, with its message if it is a string), the answer, the
/// answering target, the fused flag and the token counts.
#[derive(Debug)]
pub struct ChatReplyView {
    pub error: Option<Option<String>>,
    pub content: Option<String>,
    pub target: Option<String>,
    pub fused: bool,
    pub prompt_tokens: Option<u64>,
    pub completion_tokens: Option<u64>,
}

/// The playground's rendering of a reply.
pub open spec fn reply_report(v: ChatReplyView) -> Seq<char> {
    match v.error {
        Some(m) => "\u{2717} error: "@ + text_or(m, "unknown"@),
        None => "\u{2713} "@ + text_or(v.target, "?"@) + (if v.fused {
            "  \u{b7}  fused"@
        } else {
            ""@
        }) + "\n\n"@ + text_or(v.content, ""@) + "\n\n[tokens: "@ + decimal_spec(
            count_or_zero(v.prompt_tokens),
        ) + " in / "@ + decimal_spec(count_or_zero(v.completion_tokens)) + " out]"@,
    }
}

/// Renders a playground reply.
pub fn format_result(v: &ChatReplyView) -> (s: String)
    ensures
        s@ == reply_report(*v),
{
    match &v.error {
        Some(m) => {
            let mut s = String::from_str("\u{2717} error: ");
            append_or(&mut s, m, "unknown");
            s
        },
        None => {
            let mut s = String::from_str("\u{2713} ");
            append_or(&mut s, &v.target, "?");
            if v.fused {
                s.append("  \u{b7}  fused");
            } else {
                s.append("");
            }
            s.append("\n\n");
            append_or(&mut s, &v.content, "");
            s.append("\n\n[tokens: ");
            let a = decimal(count_exec(v.prompt_tokens));
            s.append(a.as_str());
            s.append(" in / ");
            let b = decimal(count_exec(v.completion_tokens));
            s.append(b.as_str());
            s.append(" out]");
            s
        },
    }
}

/// A model row of the dashboard: `(id, name)`.
pub open spec fn row_id(r: (String, String)) -> Seq<char> {
    r.0@
}

/// Some row of `rows` has id `id`.
pub open spec fn lists_model(rows: Seq<(String, String)>, id: Seq<char>) -> bool {
    exists|k: int| 0 <= k < rows.len() && row_id(#[trigger] rows[k]) == id
}

/// `rows` without the rows whose id is `id`, order kept.
pub open spec fn without_model(rows: Seq<(String, String)>, id: Seq<char>) -> Seq<(String, String)>
    decreases rows.len(),
{
    if rows.len() == 0 {
        rows
    } else if row_id(rows.last()) == id {
        without_model(rows.drop_last(), id)
    } else {
        without_model(rows.drop_last(), id).push(rows.last())
    }
}

/// `s` holds a string whose text is `t`.
pub open spec fn names_text(s: Seq<String>, t: Seq<char>) -> bool {
    exists|k: int| 0 <= k < s.len() && (#[trigger] s[k])@ == t
}

/// The rows of `rows` that are not combos (their id is no combo name), order kept.
pub open spec fn not_combos(rows: Seq<(String, String)>, combo_names: Seq<String>) -> Seq<(String, String)>
    decreases rows.len(),
{
    if rows.len() == 0 {
        rows
    } else if names_text(combo_names, row_id(rows.last())) {
        not_combos(rows.drop_last(), combo_names)
    } else {
        not_combos(rows.drop_last(), combo_names).push(rows.last())
    }
}

fn copy_row(r: &(String, String)) -> (c: (String, String))
    ensures
        c == *r,
{
    (r.0.clone(), r.1.clone())
}

/// Whether a row of `rows` has id `id`.
pub fn has_model(rows: &Vec<(String, String)>, id: &str) -> (r: bool)
    ensures
        r == lists_model(rows@, id@),
{
    let want = String::from_str(id);
    let mut i: usize = 0;
    while i < rows.len()
        invariant
            i <= rows@.len(),
            want@ == id@,
            forall|k: int| 0 <= k < i ==> row_id(#[trigger] rows@[k]) != id@,
        decreases rows.len() - i,
    {
        if rows[i].0 == want {
            assert(row_id(rows@[i as int]) == id@);
            return true;
        }
        i = i + 1;
    }
    false
}

/// Adds model `m` (named after its id) to a card's list, unless listed.
pub fn add_model_once(rows: &mut Vec<(String, String)>, m: &str)
    ensures
        lists_model(old(rows)@, m@) ==> final(rows)@ == old(rows)@,
        !lists_model(old(rows)@, m@) ==> {
            &&& final(rows)@.len() == old(rows)@.len() + 1
            &&& final(rows)@.drop_last() == old(rows)@
            &&& final(rows)@.last().0@ == m@
            &&& final(rows)@.last().1@ == m@
        },
{
    if !has_model(rows, m) {
        let id = String::from_str(m);
        let name = String::from_str(m);
        rows.push((id, name));
        assert(rows@.drop_last() =~= old(rows)@);
    }
}

/// Removes every row with id `id` from a card's list.
pub fn remove_model(rows: &mut Vec<(String, String)>, id: &str)
    ensures
        final(rows)@ == without_model(old(rows)@, id@),
{
    let gone = String::from_str(id);
    let mut kept: Vec<(String, String)> = Vec::new();
    let mut i: usize = 0;
    while i < rows.len()
        invariant
            i <= rows@.len(),
            gone@ == id@,
            kept@ == without_model(rows@.subrange(0, i as int), id@),
        decreases rows.len() - i,
    {
        proof {
            let pre = rows@.subrange(0, i + 1);
            assert(pre.drop_last() =~= rows@.subrange(0, i as int));
            assert(pre.last() == rows@[i as int]);
        }
        if rows[i].0 != gone {
            kept.push(copy_row(&rows[i]));
        }
        i = i + 1;
    }
    assert(rows@.subrange(0, i as int) =~= rows@);
    *rows = kept;
}

/// Whether some name of `names` reads `t`.
fn names_contain(names: &Vec<String>, t: &String) -> (r: bool)
    ensures
        r == names_text(names@, t@),
{
    let mut i: usize = 0;
    while i < names.len()
        invariant
            i <= names@.len(),
            forall|k: int| 0 <= k < i ==> (#[trigger] names@[k])@ != t@,
        decreases names.len() - i,
    {
        if names[i] == *t {
            return true;
        }
        i = i + 1;
    }
    false
}

/// The listed models that are not combos: `/v1/models` lists both, and the
/// dashboard shows combos apart.
pub fn provider_models(models: &Vec<(String, String)>, combo_names: &Vec<String>) -> (r: Vec<(String, String)>)
    ensures
        r@ == not_combos(models@, combo_names@),
{
    let mut out: Vec<(String, String)> = Vec::new();
    let mut i: usize = 0;
    while i < models.len()
        invariant
            i <= models@.len(),
            out@ == not_combos(models@.subrange(0, i as int), combo_names@),
        decreases models.len() - i,
    {
        proof {
            let pre = models@.subrange(0, i + 1);
            assert(pre.drop_last() =~= models@.subrange(0, i as int));
            assert(pre.last() == models@[i as int]);
        }
        if !names_contain(combo_names, &models[i].0) {
            out.push(copy_row(&models[i]));
        }
        i = i + 1;
    }
    assert(models@.subrange(0, i as int) =~= models@);
    out
}

/// How many lines the live console keeps (the newest ones).
pub const SHOWN_LINES: usize = 1000;

/// A message of the live console stream.
#[derive(Debug)]
pub enum ConsoleEvent {
    /// The buffered lines, sent when the stream opens.
    Init(Vec<String>),
    /// One new line.
    Line(String),
    /// The buffer was cleared.
    Clear,
    /// Anything else, ignored.
    Other,
}

/// The last `n` items of `s` (all of them when there are fewer).
pub open spec fn keep_last(s: Seq<String>, n: nat) -> Seq<String> {
    if s.len() > n {
        s.subrange(s.len() - n, s.len() as int)
    } else {
        s
    }
}

/// The live console: the lines shown and whether the stream is live.
#[derive(Debug)]
pub struct ConsoleView {
    pub lines: Vec<String>,
    pub connected: bool,
}

impl ConsoleView {
    /// An empty, offline console.
    pub fn new() -> (r: Self)
        ensures
            r.lines@ == Seq::<String>::empty(),
            !r.connected,
    {
        ConsoleView { lines: Vec::new(), connected: false }
    }

    /// Applies a stream message: the initial snapshot replaces the lines, a
    /// new line is appended (keeping the newest `SHOWN_LINES`), a clear
    /// empties the console; a snapshot or a line marks the stream live.
    pub fn apply(&mut self, ev: ConsoleEvent)
        ensures
            match ev {
                ConsoleEvent::Init(ls) => final(self).lines@ == ls@ && final(self).connected,
                ConsoleEvent::Line(l) => final(self).lines@ == keep_last(
                    old(self).lines@.push(l),
                    SHOWN_LINES as nat,
                ) && final(self).connected,
                ConsoleEvent::Clear => final(self).lines@ == Seq::<String>::empty()
                    && final(self).connected == old(self).connected,
                ConsoleEvent::Other => *final(self) == *old(self),
            },
    {
        match ev {
            ConsoleEvent::Init(ls) => {
                self.lines = ls;
                self.connected = true;
            },
            ConsoleEvent::Line(l) => {
                self.lines.push(l);
                let n = self.lines.len();
                if n > SHOWN_LINES {
                    let mut kept: Vec<String> = Vec::new();
                    let mut i: usize = n - SHOWN_LINES;
                    while i < n
                        invariant
                            n == self.lines@.len(),
                            n > SHOWN_LINES,
                            n - SHOWN_LINES <= i <= n,
                            kept@ == self.lines@.subrange(n - SHOWN_LINES, i as int),
                        decreases n - i,
                    {
                        kept.push(self.lines[i].clone());
                        i = i + 1;
                        assert(kept@ =~= self.lines@.subrange(n - SHOWN_LINES, i as int));
                    }
                    self.lines = kept;
                }
                self.connected = true;
            },
            ConsoleEvent::Clear => {
                self.lines = Vec::new();
            },
            ConsoleEvent::Other => {},
        }
    }

    /// The stream ended.
    pub fn disconnect(&mut self)
        ensures
            final(self).lines@ == old(self).lines@,
            !final(self).connected,
    {
        self.connected = false;
    }
}

/// A strategy's wire name, as the combo listing tags it.
pub open spec fn strategy_type_spec(s: Strategy) -> Seq<char> {
    match s {
        Strategy::Fallback => "fallback"@,
        Strategy::RoundRobin { .. } => "round_robin"@,
        Strategy::Fusion(_) => "fusion"@,
    }
}

/// A strategy's wire name, as the combo listing tags it.
pub fn strategy_type(s: &Strategy) -> (r: &'static str)
    ensures
        r@ == strategy_type_spec(*s),
{
    match s {
        Strategy::Fallback => "fallback",
        Strategy::RoundRobin { .. } => "round_robin",
        Strategy::Fusion(_) => "fusion",
    }
}

/// **Chips read like listings**: a strategy's wire name, as the dashboard
/// shows it on a chip, is the name the model listing gives the strategy.
pub proof fn law_chip_is_label(s: Strategy)
    ensures
        dashed(strategy_type_spec(s)) == strategy_label_spec(s),
{
    reveal_strlit("fallback");
    reveal_strlit("round_robin");
    reveal_strlit("round-robin");
    reveal_strlit("fusion");
    assert(dashed(strategy_type_spec(s)) =~= strategy_label_spec(s));
}

/// A combo as the dashboard lists it: name, strategy and `provider/model`
/// targets.
#[derive(Debug)]
pub struct ComboRow {
    pub name: String,
    pub strategy: String,
    pub targets: Vec<String>,
}

/// The dashboard's row of a combo.
pub fn combo_row(c: &Combo) -> (r: ComboRow)
    ensures
        r.name@ == c.name@,
        r.strategy@ == strategy_type_spec(c.strategy),
        r.targets@.len() == c.targets@.len(),
        forall|k: int|
            0 <= k < r.targets@.len() ==> (#[trigger] r.targets@[k])@ == label_spec(
                c.targets@[k].provider@,
                c.targets@[k].model@,
            ),
{
    let mut targets: Vec<String> = Vec::new();
    let mut k: usize = 0;
    while k < c.targets.len()
        invariant
            k <= c.targets@.len(),
            targets@.len() == k,
            forall|j: int|
                0 <= j < k ==> (#[trigger] targets@[j])@ == label_spec(
                    c.targets@[j].provider@,
                    c.targets@[j].model@,
                ),
        decreases c.targets.len() - k,
    {
        targets.push(c.targets[k].label());
        k = k + 1;
    }
    ComboRow { name: c.name.clone(), strategy: String::from_str(strategy_type(&c.strategy)), targets }
}

/// The playground's option for a combo: `<name>  (combo · <strategy>)`.
pub open spec fn combo_option_spec(name: Seq<char>, strategy: Seq<char>) -> Seq<char> {
    name + "  (combo \u{b7} "@ + dashed(strategy) + ")"@
}

/// Labels a combo in the playground's model picker.
pub fn combo_option_label(name: &str, strategy: &str) -> (r: String)
    ensures
        r@ == combo_option_spec(name@, strategy@),
{
    let mut r = String::from_str(name);
    r.append("  (combo \u{b7} ");
    let d = pretty_strategy(strategy);
    r.append(d.as_str());
    r.append(")");
    r
}

/// The page title of a dashboard view.
pub open spec fn view_title_spec(view: Seq<char>) -> Seq<char> {
    if view == "providers"@ {
        "Providers"@
    } else if view == "usage"@ {
        "Usage"@
    } else if view == "quota"@ {
        "Quota"@
    } else if view == "console"@ {
        "Console Log"@
    } else if view == "models"@ {
        "Models & Combos"@
    } else if view == "playground"@ {
        "Playground"@
    } else {
        "Endpoint"@
    }
}

/// The page title of a dashboard view (unknown views show the endpoint).
pub fn view_title(view: &str) -> (r: &'static str)
    ensures
        r@ == view_title_spec(view@),
{
    let v = String::from_str(view);
    if v == String::from_str("providers") {
        "Providers"
    } else if v == String::from_str("usage") {
        "Usage"
    } else if v == String::from_str("quota") {
        "Quota"
    } else if v == String::from_str("console") {
        "Console Log"
    } else if v == String::from_str("models") {
        "Models & Combos"
    } else if v == String::from_str("playground") {
        "Playground"
    } else {
        "Endpoint"
    }
}

/// The message of a new provider without an id or a base URL.
pub open spec fn provider_required_message() -> Seq<char> {
    "id and base URL are required"@
}

/// A provider added from the dashboard: no models yet; refused without an
/// id or a base URL.
pub fn new_provider(id: &str, base_url: &str, api_key: &str) -> (r: Result<ProviderStored, String>)
    ensures
        (id@.len() == 0 || base_url@.len() == 0) ==> (r matches Err(m) && m@
            == provider_required_message()),
        (id@.len() > 0 && base_url@.len() > 0) ==> (r matches Ok(p) && p.id@ == id@ && p.base_url@
            == base_url@ && p.api_key@ == api_key@ && p.models@.len() == 0),
{
    if id.unicode_len() == 0 || base_url.unicode_len() == 0 {
        return Err(String::from_str("id and base URL are required"));
    }
    Ok(
        ProviderStored {
            id: String::from_str(id),
            base_url: String::from_str(base_url),
            api_key: String::from_str(api_key),
            models: Vec::new(),
        },
    )
}

/// The provider a card saves: its fields and its model rows, each row's
/// name kept.
pub fn card_provider(id: &str, base_url: &str, api_key: &str, rows: &Vec<(String, String)>) -> (p: ProviderStored)
    ensures
        p.id@ == id@,
        p.base_url@ == base_url@,
        p.api_key@ == api_key@,
        p.models@.len() == rows@.len(),
        forall|k: int|
            0 <= k < rows@.len() ==> (#[trigger] p.models@[k]).id == rows@[k].0 && p.models@[k].name
                == Some(rows@[k].1),
{
    let mut models: Vec<ModelStored> = Vec::new();
    let mut k: usize = 0;
    while k < rows.len()
        invariant
            k <= rows@.len(),
            models@.len() == k,
            forall|j: int|
                0 <= j < k ==> (#[trigger] models@[j]).id == rows@[j].0 && models@[j].name == Some(
                    rows@[j].1,
                ),
        decreases rows.len() - k,
    {
        models.push(ModelStored { id: rows[k].0.clone(), name: Some(rows[k].1.clone()) });
        k = k + 1;
    }
    ProviderStored {
        id: String::from_str(id),
        base_url: String::from_str(base_url),
        api_key: String::from_str(api_key),
        models,
    }
}

/// The reply of a model-catalog fetch, as the dashboard reads it: `ok`
/// (absent read as false), the model ids, the error.
#[derive(Debug)]
pub struct FetchReply {
    pub ok: bool,
    pub models: Vec<String>,
    pub error: Option<String>,
}

/// The one-line report of a model-catalog fetch (`None`: no reply).
pub open spec fn fetch_report_spec(r: Option<FetchReply>) -> Seq<char> {
    match r {
        Some(v) => if v.ok {
            "fetched "@ + decimal_spec(v.models@.len()) + " models \u{2014} click to add, then Save"@
        } else {
            "\u{2717} "@ + text_or(v.error, "fetch failed"@)
        },
        None => "\u{2717} network error"@,
    }
}

/// Reports a model-catalog fetch.
pub fn fetch_report(r: &Option<FetchReply>) -> (s: String)
    ensures
        s@ == fetch_report_spec(*r),
{
    match r {
        Some(v) => if v.ok {
            let mut s = String::from_str("fetched ");
            let n = decimal(v.models.len() as u64);
            s.append(n.as_str());
            s.append(" models \u{2014} click to add, then Save");
            s
        } else {
            let mut s = String::from_str("\u{2717} ");
            append_or(&mut s, &v.error, "fetch failed");
            s
        },
        None => String::from_str("\u{2717} network error"),
    }
}

/// What "Test & Add" shows before it sends: a prompt for a model id when
/// none is given, else that the model is being tested.
pub open spec fn test_add_start_spec(model: Seq<char>) -> Result<Seq<char>, Seq<char>> {
    if model.len() == 0 {
        Err("enter a model id"@)
    } else {
        Ok("testing "@ + model + "\u{2026}"@)
    }
}

/// Starts "Test & Add": `Err` with the prompt when no model id is given,
/// else `Ok` with the progress line.
pub fn test_add_start(model: &str) -> (r: Result<String, String>)
    ensures
        match r {
            Ok(s) => test_add_start_spec(model@) == Ok::<Seq<char>, Seq<char>>(s@),
            Err(s) => test_add_start_spec(model@) == Err::<Seq<char>, Seq<char>>(s@),
        },
{
    if model.unicode_len() == 0 {
        Err(String::from_str("enter a model id"))
    } else {
        let mut s = String::from_str("testing ");
        s.append(model);
        s.append("\u{2026}");
        Ok(s)
    }
}

/// The report of "Test & Add" once the test replied (`None`: no reply).
pub open spec fn test_add_report_spec(model: Seq<char>, r: Option<TestReply>) -> Seq<char> {
    match r {
        Some(v) => if v.ok {
            "\u{2713} added "@ + model + " ("@ + decimal_spec(count_or_zero(v.latency_ms)) + " ms)"@
        } else {
            "\u{2717} "@ + text_or(v.error, "test failed"@) + " ["@ + decimal_spec(
                count_or_zero(v.status),
            ) + "]"@
        },
        None => "\u{2717} network error"@,
    }
}

/// Reports "Test & Add" of `model`.
pub fn test_add_report(model: &str, r: &Option<TestReply>) -> (s: String)
    ensures
        s@ == test_add_report_spec(model@, *r),
{
    match r {
        Some(v) => if v.ok {
            let mut s = String::from_str("\u{2713} added ");
            s.append(model);
            s.append(" (");
            let d = decimal(count_exec(v.latency_ms));
            s.append(d.as_str());
            s.append(" ms)");
            s
        } else {
            let mut s = String::from_str("\u{2717} ");
            append_or(&mut s, &v.error, "test failed");
            s.append(" [");
            let d = decimal(count_exec(v.status));
            s.append(d.as_str());
            s.append("]");
            s
        },
        None => String::from_str("\u{2717} network error"),
    }
}

/// What the playground shows when Send is pressed: a prompt to pick a
/// model when none is picked, else the waiting mark.
pub fn send_start(model: &str) -> (r: Result<&'static str, &'static str>)
    ensures
        model@.len() == 0 ==> (r matches Err(m) && m@ == "Pick a model or combo first."@),
        model@.len() > 0 ==> (r matches Ok(m) && m@ == "\u{2026}"@),
{
    if model.unicode_len() == 0 {
        Err("Pick a model or combo first.")
    } else {
        Ok("\u{2026}")
    }
}

/// `<a><sep><b>` with both numbers in decimal.
pub open spec fn pair_line(a: nat, sep: Seq<char>, b: nat, tail: Seq<char>) -> Seq<char> {
    decimal_spec(a) + sep + decimal_spec(b) + tail
}

fn pair_text(a: u64, sep: &str, b: u64, tail: &str) -> (r: String)
    ensures
        r@ == pair_line(a as nat, sep@, b as nat, tail@),
{
    let mut r = decimal(a);
    r.append(sep);
    let d = decimal(b);
    r.append(d.as_str());
    r.append(tail);
    r
}

/// A by-target usage line: `<requests> req · <tokens> tok`.
pub fn target_usage_line(requests: u64, total_tokens: u64) -> (r: String)
    ensures
        r@ == pair_line(requests as nat, " req \u{b7} "@, total_tokens as nat, " tok"@),
{
    pair_text(requests, " req \u{b7} ", total_tokens, " tok")
}

/// A request-log line: `<tokens> tok · <status>`.
pub fn log_row_line(total_tokens: u64, status: u64) -> (r: String)
    ensures
        r@ == pair_line(total_tokens as nat, " tok \u{b7} "@, status as nat, ""@),
{
    pair_text(total_tokens, " tok \u{b7} ", status, "")
}

/// The prompt / completion totals: `<prompt> / <completion>`.
pub fn token_split_line(prompt: u64, completion: u64) -> (r: String)
    ensures
        r@ == pair_line(prompt as nat, " / "@, completion as nat, ""@),
{
    pair_text(prompt, " / ", completion, "")
}

/// A provider's 24-hour activity: `24h: <requests> requests · <tokens> tokens`.
pub fn quota_activity_line(requests: u64, tokens: u64) -> (r: String)
    ensures
        r@ == "24h: "@ + pair_line(requests as nat, " requests \u{b7} "@, tokens as nat, " tokens"@),
{
    let mut r = String::from_str("24h: ");
    let t = pair_text(requests, " requests \u{b7} ", tokens, " tokens");
    r.append(t.as_str());
    r
}

/// The mark of a streamed request in the request log.
pub fn stream_mark(stream: bool) -> (r: &'static str)
    ensures
        stream ==> r@ == "  \u{b7}  stream"@,
        !stream ==> r@ == ""@,
{
    if stream {
        "  \u{b7}  stream"
    } else {
        ""
    }
}

/// A usage bar's `(used, limit)` from a limit and what remains of it; no
/// bar without both or with a zero limit.
pub fn quota_usage(limit: Option<u64>, remaining: Option<u64>) -> (r: Option<(u64, u64)>)
    ensures
        match (limit, remaining) {
            (Some(l), Some(rem)) => if l > 0 {
                r == Some(((if rem >= l { 0 } else { l - rem }) as u64, l))
            } else {
                r is None
            },
            _ => r is None,
        },
{
    match (limit, remaining) {
        (Some(l), Some(rem)) => if l > 0 {
            Some((l.saturating_sub(rem), l))
        } else {
            None
        },
        _ => None,
    }
}

/// The status badge of a provider: its CSS class and text.
pub open spec fn status_badge_spec(status: u64) -> (Seq<char>, Seq<char>) {
    if status == 0 {
        ("chip"@, "idle"@)
    } else if status >= 400 {
        ("chip fallback"@, "HTTP "@ + decimal_spec(status as nat))
    } else {
        ("chip round-robin"@, "HTTP "@ + decimal_spec(status as nat))
    }
}

/// The status badge of a provider, by the status of its last reply
/// (0: none yet; 400 and up: an error).
pub fn status_badge(status: u64) -> (r: (&'static str, String))
    ensures
        (r.0@, r.1@) == status_badge_spec(status),
{
    if status == 0 {
        ("chip", String::from_str("idle"))
    } else {
        let mut t = String::from_str("HTTP ");
        let d = decimal(status);
        t.append(d.as_str());
        if status >= 400 {
            ("chip fallback", t)
        } else {
            ("chip round-robin", t)
        }
    }
}

/// The retry-after note of a provider, when one was seen.
pub fn retry_note(retry_after: &str) -> (r: Option<String>)
    ensures
        retry_after@.len() == 0 ==> r is None,
        retry_after@.len() > 0 ==> (r matches Some(s) && s@ == "retry-after: "@ + retry_after@),
{
    if retry_after.unicode_len() == 0 {
        None
    } else {
        let mut s = String::from_str("retry-after: ");
        s.append(retry_after);
        Some(s)
    }
}

} // verus!
