//! The JSON configuration of agents and agent routes: its entries, the default
//! configuration, and the repair of configurations written by earlier versions.

use vstd::prelude::*;

use crate::agents::{
    law_normalize_is_idempotent, legacy_workdir_replacement, normalize_legacy_workdir, normalize_tools_enabled,
    normalize_tools_spec, DEFAULT_AGENT_TOOLS_ENABLED, DEFAULT_AGENT_WORKDIR,
};
use crate::text::{has_prefix, owned, str_eq, trim, trim_seq};

verus! {

/// A value of a configuration entry: a JSON string, or any other JSON value in its
/// serialized form.
#[derive(Debug, Clone, PartialEq, Eq)]
pub enum ConfigValue {
    Text(String),
    Json(String),
}

/// The abstract value of a configuration entry.
pub enum ValueView {
    Text(Seq<char>),
    Json(Seq<char>),
}

pub open spec fn value_view(v: ConfigValue) -> ValueView {
    match v {
        ConfigValue::Text(s) => ValueView::Text(s@),
        ConfigValue::Json(s) => ValueView::Json(s@),
    }
}

/// The abstract entries of a configuration, in order.
pub open spec fn entry_views(s: Seq<(String, ConfigValue)>) -> Seq<(Seq<char>, ValueView)> {
    s.map_values(|e: (String, ConfigValue)| (e.0@, value_view(e.1)))
}

/// The position of the entry named `k`, or `-1`.
pub open spec fn key_pos(s: Seq<(Seq<char>, ValueView)>, k: Seq<char>) -> int
    decreases s.len(),
{
    if s.len() == 0 {
        -1
    } else if s[0].0 == k {
        0
    } else {
        let j = key_pos(s.drop_first(), k);
        if j < 0 {
            -1
        } else {
            j + 1
        }
    }
}

/// The value under `k`.
pub open spec fn get_value(s: Seq<(Seq<char>, ValueView)>, k: Seq<char>) -> Option<ValueView> {
    let i = key_pos(s, k);
    if 0 <= i < s.len() {
        Some(s[i].1)
    } else {
        None
    }
}

/// The entries with `k` set to `v`: the entry replaced where it exists, else appended.
pub open spec fn set_value(s: Seq<(Seq<char>, ValueView)>, k: Seq<char>, v: ValueView) -> Seq<
    (Seq<char>, ValueView),
> {
    let i = key_pos(s, k);
    if 0 <= i < s.len() {
        s.update(i, (k, v))
    } else {
        s.push((k, v))
    }
}

/// `config.get(k).and_then(Value::as_str)`.
pub open spec fn str_value(s: Seq<(Seq<char>, ValueView)>, k: Seq<char>) -> Option<Seq<char>> {
    match get_value(s, k) {
        Some(ValueView::Text(t)) => Some(t),
        _ => None,
    }
}

/// `config.get(k).and_then(Value::as_str).unwrap_or("")`.
pub open spec fn text_or_empty(s: Seq<(Seq<char>, ValueView)>, k: Seq<char>) -> Seq<char> {
    match str_value(s, k) {
        Some(t) => t,
        None => Seq::<char>::empty(),
    }
}

proof fn lemma_key_pos_range(s: Seq<(Seq<char>, ValueView)>, k: Seq<char>)
    ensures
        -1 <= key_pos(s, k) < s.len(),
        0 <= key_pos(s, k) ==> s[key_pos(s, k)].0 == k,
    decreases s.len(),
{
    if s.len() > 0 && s[0].0 != k {
        lemma_key_pos_range(s.drop_first(), k);
    }
}

proof fn lemma_key_pos_found(s: Seq<(Seq<char>, ValueView)>, k: Seq<char>, i: int)
    requires
        0 <= i < s.len(),
        s[i].0 == k,
        forall|j: int| 0 <= j < i ==> s[j].0 != k,
    ensures
        key_pos(s, k) == i,
    decreases s.len(),
{
    if i > 0 {
        let t = s.drop_first();
        assert forall|j: int| 0 <= j < i - 1 implies t[j].0 != k by {
            assert(t[j] == s[j + 1]);
        }
        lemma_key_pos_found(t, k, i - 1);
    }
}

proof fn lemma_key_pos_absent(s: Seq<(Seq<char>, ValueView)>, k: Seq<char>)
    requires
        forall|j: int| 0 <= j < s.len() ==> s[j].0 != k,
    ensures
        key_pos(s, k) == -1,
    decreases s.len(),
{
    if s.len() > 0 {
        let t = s.drop_first();
        assert forall|j: int| 0 <= j < t.len() implies t[j].0 != k by {
            assert(t[j] == s[j + 1]);
        }
        lemma_key_pos_absent(t, k);
    }
}

/// A JSON configuration object, as its entries in order.
pub struct AgentConfig {
    entries: Vec<(String, ConfigValue)>,
}

impl View for AgentConfig {
    type V = Seq<(Seq<char>, ValueView)>;

    closed spec fn view(&self) -> Self::V {
        entry_views(self.entries@)
    }
}

impl AgentConfig {
    /// An empty configuration.
    pub fn new() -> (r: AgentConfig)
        ensures
            r@ == Seq::<(Seq<char>, ValueView)>::empty(),
    {
        let r = AgentConfig { entries: Vec::new() };
        assert(r@ =~= Seq::<(Seq<char>, ValueView)>::empty());
        r
    }

    /// The entries, in order.
    pub fn entries(&self) -> (r: &Vec<(String, ConfigValue)>)
        ensures
            entry_views(r@) == self@,
    {
        &self.entries
    }

    fn position(&self, key: &str) -> (r: Option<usize>)
        ensures
            match r {
                Some(i) => key_pos(self@, key@) == i as int,
                None => key_pos(self@, key@) == -1,
            },
    {
        let mut i: usize = 0;
        while i < self.entries.len()
            invariant
                i <= self.entries@.len(),
                forall|j: int| 0 <= j < i ==> #[trigger] self@[j].0 != key@,
            decreases self.entries@.len() - i,
        {
            if str_eq(self.entries[i].0.as_str(), key) {
                proof {
                    lemma_key_pos_found(self@, key@, i as int);
                }
                return Some(i);
            }
            i = i + 1;
        }
        proof {
            lemma_key_pos_absent(self@, key@);
        }
        None
    }

    /// The value under `key`.
    pub fn get(&self, key: &str) -> (r: Option<&ConfigValue>)
        ensures
            match r {
                Some(v) => get_value(self@, key@) == Some(value_view(*v)),
                None => get_value(self@, key@) is None,
            },
    {
        proof {
            lemma_key_pos_range(self@, key@);
        }
        match self.position(key) {
            Some(i) => Some(&self.entries[i].1),
            None => None,
        }
    }

    /// The string under `key`, `None` when it is absent or not a string.
    pub fn get_str(&self, key: &str) -> (r: Option<&str>)
        ensures
            match r {
                Some(t) => str_value(self@, key@) == Some(t@),
                None => str_value(self@, key@) is None,
            },
    {
        match self.get(key) {
            Some(ConfigValue::Text(s)) => Some(s.as_str()),
            _ => None,
        }
    }

    /// Sets `key` to `value`: the entry replaced where it exists, else appended.
    pub fn set(&mut self, key: &str, value: ConfigValue)
        ensures
            final(self)@ == set_value(old(self)@, key@, value_view(value)),
    {
        proof {
            lemma_key_pos_range(self@, key@);
        }
        let ghost before = self@;
        let k = owned(key);
        match self.position(key) {
            Some(i) => {
                self.entries.set(i, (k, value));
                proof {
                    assert(self@ =~= before.update(i as int, (key@, value_view(value))));
                }
            },
            None => {
                self.entries.push((k, value));
                proof {
                    assert(self@ =~= before.push((key@, value_view(value))));
                }
            },
        }
    }

    /// A copy with the same entries.
    pub fn duplicate(&self) -> (r: AgentConfig)
        ensures
            r@ == self@,
    {
        let mut v: Vec<(String, ConfigValue)> = Vec::new();
        let mut i: usize = 0;
        while i < self.entries.len()
            invariant
                i <= self.entries@.len(),
                entry_views(v@) == entry_views(self.entries@.take(i as int)),
            decreases self.entries@.len() - i,
        {
            let e = &self.entries[i];
            let ghost old_v = v@;
            v.push((e.0.clone(), copy_value(&e.1)));
            proof {
                assert(entry_views(v@) =~= entry_views(old_v).push((e.0@, value_view(e.1))));
                assert(self.entries@.take(i as int + 1) =~= self.entries@.take(i as int).push(*e));
                assert(entry_views(self.entries@.take(i as int + 1)) =~= entry_views(
                    self.entries@.take(i as int),
                ).push((e.0@, value_view(e.1))));
            }
            i = i + 1;
        }
        assert(self.entries@.take(self.entries@.len() as int) =~= self.entries@);
        AgentConfig { entries: v }
    }

    /// Whether both configurations have the same entries, in the same order.
    pub fn same_entries(&self, other: &AgentConfig) -> (r: bool)
        ensures
            r == (self@ == other@),
    {
        if self.entries.len() != other.entries.len() {
            return false;
        }
        let mut i: usize = 0;
        while i < self.entries.len()
            invariant
                self@.len() == other@.len(),
                self.entries@.len() == self@.len(),
                i <= self@.len(),
                forall|j: int| 0 <= j < i ==> self@[j] == other@[j],
            decreases self@.len() - i,
        {
            let a = &self.entries[i];
            let b = &other.entries[i];
            if !str_eq(a.0.as_str(), b.0.as_str()) || !same_value(&a.1, &b.1) {
                assert(self@[i as int] != other@[i as int]);
                return false;
            }
            i = i + 1;
        }
        assert(self@ =~= other@);
        true
    }
}

fn copy_value(v: &ConfigValue) -> (r: ConfigValue)
    ensures
        value_view(r) == value_view(*v),
{
    match v {
        ConfigValue::Text(s) => ConfigValue::Text(s.clone()),
        ConfigValue::Json(s) => ConfigValue::Json(s.clone()),
    }
}

fn same_value(a: &ConfigValue, b: &ConfigValue) -> (r: bool)
    ensures
        r == (value_view(*a) == value_view(*b)),
{
    match (a, b) {
        (ConfigValue::Text(x), ConfigValue::Text(y)) => str_eq(x.as_str(), y.as_str()),
        (ConfigValue::Json(x), ConfigValue::Json(y)) => str_eq(x.as_str(), y.as_str()),
        _ => false,
    }
}

/// The configuration that new agents and routes get.
pub open spec fn default_config_entries(
    api_url: Seq<char>,
    api_key: Option<Seq<char>>,
    provider: Seq<char>,
    model: Seq<char>,
) -> Seq<(Seq<char>, ValueView)> {
    let base = seq![
        ("model"@, ValueView::Text(model)),
        ("provider"@, ValueView::Text(provider)),
        ("provider_options_json"@, ValueView::Text(""@)),
        ("tools_enabled"@, ValueView::Text(DEFAULT_AGENT_TOOLS_ENABLED@)),
        ("workdir"@, ValueView::Text(DEFAULT_AGENT_WORKDIR@)),
        ("max_turns"@, ValueView::Text("24"@)),
        ("temper_api_url"@, ValueView::Text(api_url)),
        ("max_follow_ups"@, ValueView::Text("8"@)),
    ];
    match api_key {
        Some(k) => base.push(("temper_api_key"@, ValueView::Text(k))),
        None => base,
    }
}

/// The view of an optional string.
pub open spec fn opt_string_view(o: Option<String>) -> Option<Seq<char>> {
    match o {
        Some(s) => Some(s@),
        None => None,
    }
}

fn text_entry(key: &str, value: &str) -> (r: (String, ConfigValue))
    ensures
        r.0@ == key@,
        value_view(r.1) == ValueView::Text(value@),
{
    (owned(key), ConfigValue::Text(owned(value)))
}

/// The default configuration of an agent using `llm_provider` and `llm_model`, reaching the
/// API at `api_url` with `api_key`.
pub fn default_agent_config(
    api_url: &str,
    api_key: &Option<String>,
    llm_provider: &str,
    llm_model: &str,
) -> (r: AgentConfig)
    ensures
        r@ == default_config_entries(api_url@, opt_string_view(*api_key), llm_provider@, llm_model@),
{
    let mut v: Vec<(String, ConfigValue)> = Vec::new();
    v.push(text_entry("model", llm_model));
    v.push(text_entry("provider", llm_provider));
    v.push(text_entry("provider_options_json", ""));
    v.push(text_entry("tools_enabled", DEFAULT_AGENT_TOOLS_ENABLED));
    v.push(text_entry("workdir", DEFAULT_AGENT_WORKDIR));
    v.push(text_entry("max_turns", "24"));
    v.push(text_entry("temper_api_url", api_url));
    v.push(text_entry("max_follow_ups", "8"));
    match api_key {
        Some(k) => v.push(text_entry("temper_api_key", k.as_str())),
        None => {},
    }
    let r = AgentConfig { entries: v };
    assert(r@ =~= default_config_entries(
        api_url@,
        opt_string_view(*api_key),
        llm_provider@,
        llm_model@,
    ));
    r
}

/// Whether a stored configuration must be repaired: a global route, a tool list that
/// normalizes, a blank configuration or a legacy working directory.
pub open spec fn config_repair_needed(
    stored: Seq<char>,
    base: Seq<(Seq<char>, ValueView)>,
    is_global_route: bool,
) -> bool {
    ||| is_global_route
    ||| normalize_tools_spec(text_or_empty(base, "tools_enabled"@), is_global_route) is Some
    ||| trim_seq(stored).len() == 0
    ||| legacy_workdir_replacement(text_or_empty(base, "workdir"@)) is Some
}

/// The repaired entries: the API URL and key set, a legacy working directory moved, and the
/// tool list replaced by the default (global route) or normalized.
pub open spec fn repaired_entries(
    base: Seq<(Seq<char>, ValueView)>,
    api_url: Seq<char>,
    api_key: Option<Seq<char>>,
    is_global_route: bool,
) -> Seq<(Seq<char>, ValueView)> {
    let s1 = set_value(base, "temper_api_url"@, ValueView::Text(api_url));
    let s2 = match api_key {
        Some(k) => set_value(s1, "temper_api_key"@, ValueView::Text(k)),
        None => s1,
    };
    let s3 = match legacy_workdir_replacement(text_or_empty(base, "workdir"@)) {
        Some(w) => set_value(s2, "workdir"@, ValueView::Text(w)),
        None => s2,
    };
    if is_global_route {
        set_value(s3, "tools_enabled"@, ValueView::Text(DEFAULT_AGENT_TOOLS_ENABLED@))
    } else {
        match normalize_tools_spec(text_or_empty(base, "tools_enabled"@), false) {
            Some(t) => set_value(s3, "tools_enabled"@, ValueView::Text(t)),
            None => s3,
        }
    }
}

/// The configuration that repair starts from: none for a blank stored text, else the
/// parsed object.
pub open spec fn repair_base(raw: Seq<char>, parsed: Seq<(Seq<char>, ValueView)>) -> Seq<
    (Seq<char>, ValueView),
> {
    if trim_seq(raw).len() == 0 {
        Seq::<(Seq<char>, ValueView)>::empty()
    } else {
        parsed
    }
}

fn text_or_empty_of<'a>(config: &'a AgentConfig, key: &str) -> (r: &'a str)
    ensures
        r@ == text_or_empty(config@, key@),
{
    match config.get_str(key) {
        Some(t) => t,
        None => {
            proof {
                reveal_strlit("");
            }
            ""
        },
    }
}

/// Repairs the stored configuration `raw` of an agent route, `parsed` being its JSON object
/// (empty when `raw` is not an object). `None` where no repair is needed or the repair
/// changes nothing.
pub fn repaired_agent_config(
    raw: &str,
    parsed: &AgentConfig,
    api_url: &str,
    api_key: &Option<String>,
    is_global_route: bool,
) -> (r: Option<AgentConfig>)
    ensures
        ({
            let base = repair_base(raw@, parsed@);
            let after = repaired_entries(base, api_url@, opt_string_view(*api_key), is_global_route);
            match r {
                Some(c) => config_repair_needed(raw@, base, is_global_route) && after != base
                    && c@ == after,
                None => !config_repair_needed(raw@, base, is_global_route) || after == base,
            }
        }),
{
    let stored = trim(raw);
    let mut config = if stored.is_empty() {
        AgentConfig::new()
    } else {
        parsed.duplicate()
    };
    let ghost base = config@;
    let before = config.duplicate();
    let normalized_tools = normalize_tools_enabled(
        text_or_empty_of(&config, "tools_enabled"),
        is_global_route,
    );
    let current_workdir = owned(text_or_empty_of(&config, "workdir"));
    let workdir_repair = normalize_legacy_workdir(current_workdir.as_str());
    let needs_repair = is_global_route || normalized_tools.is_some() || stored.is_empty()
        || workdir_repair.is_some();
    if !needs_repair {
        return None;
    }
    config.set("temper_api_url", ConfigValue::Text(owned(api_url)));
    match api_key {
        Some(k) => config.set("temper_api_key", ConfigValue::Text(k.clone())),
        None => {},
    }
    match workdir_repair {
        Some(w) => config.set("workdir", ConfigValue::Text(w)),
        None => {},
    }
    if is_global_route {
        config.set("tools_enabled", ConfigValue::Text(owned(DEFAULT_AGENT_TOOLS_ENABLED)));
    } else {
        match normalized_tools {
            Some(t) => config.set("tools_enabled", ConfigValue::Text(t)),
            None => {},
        }
    }
    if config.same_entries(&before) {
        None
    } else {
        Some(config)
    }
}

proof fn lemma_get_after_set(s: Seq<(Seq<char>, ValueView)>, k: Seq<char>, v: ValueView, q: Seq<char>)
    ensures
        get_value(set_value(s, k, v), k) == Some(v),
        q != k ==> get_value(set_value(s, k, v), q) == get_value(s, q),
{
    lemma_key_pos_range(s, k);
    lemma_key_pos_range(s, q);
    let t = set_value(s, k, v);
    let i = key_pos(s, k);
    lemma_key_pos_range(t, k);
    lemma_key_pos_range(t, q);
    if 0 <= i {
        assert forall|j: int| 0 <= j < i implies t[j].0 != k by {
            if j < i && s[j].0 == k {
                lemma_key_pos_first(s, k, j);
            }
        }
        lemma_key_pos_found(t, k, i);
    } else {
        assert forall|j: int| 0 <= j < s.len() implies t[j].0 != k by {
            if s[j].0 == k {
                lemma_key_pos_first(s, k, j);
            }
        }
        lemma_key_pos_found(t, k, s.len() as int);
    }
    if q != k {
        let p = key_pos(s, q);
        if 0 <= p {
            assert forall|j: int| 0 <= j < p implies t[j].0 != q by {
                if t[j].0 == q {
                    assert(s[j].0 == q);
                    lemma_key_pos_first(s, q, j);
                }
            }
            lemma_key_pos_found(t, q, p);
        } else {
            assert forall|j: int| 0 <= j < t.len() implies t[j].0 != q by {
                if j < s.len() && t[j].0 == q {
                    assert(s[j].0 == q);
                    lemma_key_pos_first(s, q, j);
                }
            }
            lemma_key_pos_absent(t, q);
        }
    }
}

proof fn lemma_key_pos_first(s: Seq<(Seq<char>, ValueView)>, k: Seq<char>, j: int)
    requires
        0 <= j < s.len(),
        s[j].0 == k,
    ensures
        0 <= key_pos(s, k) <= j,
    decreases s.len(),
{
    if s[0].0 != k {
        let t = s.drop_first();
        assert(t[j - 1] == s[j]);
        lemma_key_pos_first(t, k, j - 1);
    }
}

proof fn lemma_set_same(s: Seq<(Seq<char>, ValueView)>, k: Seq<char>, v: ValueView)
    requires
        get_value(s, k) == Some(v),
    ensures
        set_value(s, k, v) == s,
{
    lemma_key_pos_range(s, k);
    let i = key_pos(s, k);
    assert(s.update(i, (k, v)) =~= s);
}

/// A route's configuration, once repaired, needs no further repair: repairing it again with
/// the same API URL and key changes nothing.
pub proof fn law_route_repair_is_stable(
    base: Seq<(Seq<char>, ValueView)>,
    api_url: Seq<char>,
    api_key: Option<Seq<char>>,
    is_global_route: bool,
)
    ensures
        ({
            let after = repaired_entries(base, api_url, api_key, is_global_route);
            repaired_entries(after, api_url, api_key, is_global_route) == after
        }),
{
    reveal_strlit("temper_api_url");
    reveal_strlit("temper_api_key");
    reveal_strlit("workdir");
    reveal_strlit("tools_enabled");
    reveal_strlit("/workspace");
    reveal_strlit("/tmp/workspace");
    reveal_strlit("/tmp/temperpaw-");
    reveal_strlit("/temperpaw-");
    let ku = "temper_api_url"@;
    let kk = "temper_api_key"@;
    let kw = "workdir"@;
    let kt = "tools_enabled"@;
    assert(ku != kk && ku != kw && ku != kt && kk != kw && kk != kt && kw != kt) by {
        assert(ku[7] != kk[11] || ku.len() != kk.len() || ku[13] != kk[13]);
        assert(ku.len() != kw.len());
        assert(ku.len() != kt.len());
        assert(kk.len() != kw.len());
        assert(kk.len() != kt.len());
        assert(kw.len() != kt.len());
    }
    let vu = ValueView::Text(api_url);
    let vt = ValueView::Text(DEFAULT_AGENT_TOOLS_ENABLED@);
    let w0 = text_or_empty(base, kw);
    let s1 = set_value(base, ku, vu);
    let s2 = match api_key {
        Some(k) => set_value(s1, kk, ValueView::Text(k)),
        None => s1,
    };
    let s3 = match legacy_workdir_replacement(w0) {
        Some(w) => set_value(s2, kw, ValueView::Text(w)),
        None => s2,
    };
    let t0 = text_or_empty(base, kt);
    let after = if is_global_route {
        set_value(s3, kt, vt)
    } else {
        match normalize_tools_spec(t0, false) {
            Some(t) => set_value(s3, kt, ValueView::Text(t)),
            None => s3,
        }
    };
    assert(after == repaired_entries(base, api_url, api_key, is_global_route));
    lemma_get_after_set(base, ku, vu, kk);
    lemma_get_after_set(base, ku, vu, kw);
    if let Some(k) = api_key {
        lemma_get_after_set(s1, kk, ValueView::Text(k), ku);
        lemma_get_after_set(s1, kk, ValueView::Text(k), kw);
    }
    if let Some(w) = legacy_workdir_replacement(w0) {
        lemma_get_after_set(s2, kw, ValueView::Text(w), ku);
        lemma_get_after_set(s2, kw, ValueView::Text(w), kk);
    }
    if is_global_route {
        lemma_get_after_set(s3, kt, vt, ku);
        lemma_get_after_set(s3, kt, vt, kk);
        lemma_get_after_set(s3, kt, vt, kw);
    } else if let Some(t) = normalize_tools_spec(t0, false) {
        lemma_get_after_set(s3, kt, ValueView::Text(t), ku);
        lemma_get_after_set(s3, kt, ValueView::Text(t), kk);
        lemma_get_after_set(s3, kt, ValueView::Text(t), kw);
    }
    assert(get_value(after, ku) == Some(vu));
    lemma_set_same(after, ku, vu);
    let t1 = set_value(after, ku, vu);
    let t2 = match api_key {
        Some(k) => {
            assert(get_value(after, kk) == Some(ValueView::Text(k)));
            lemma_set_same(t1, kk, ValueView::Text(k));
            set_value(t1, kk, ValueView::Text(k))
        },
        None => t1,
    };
    assert(t2 == after);
    let w1 = text_or_empty(after, kw);
    match legacy_workdir_replacement(w0) {
        Some(w) => {
            assert(w1 == w);
            let d = DEFAULT_AGENT_WORKDIR@;
            assert(d == "/workspace"@);
            assert(d.len() == 10);
            assert(exists|x: Seq<char>| w == d + x) by {
                if w0.len() == 0 {
                    assert(w == d + Seq::<char>::empty());
                } else if has_prefix(w0, "/tmp/workspace"@) {
                    assert(w == d + w0.skip("/tmp/workspace"@.len() as int));
                } else {
                    assert(w == d + ("/temperpaw-"@ + w0.skip("/tmp/temperpaw-"@.len() as int)));
                }
            }
            let x = choose|x: Seq<char>| w == d + x;
            assert(w[1] == d[1]);
            assert(w.len() > 0);
            assert(!has_prefix(w, "/tmp/workspace"@)) by {
                if has_prefix(w, "/tmp/workspace"@) {
                    assert(w[1] == "/tmp/workspace"@[1]);
                    assert(w[1] == "/workspace"@[1]);
                }
            }
            assert(!has_prefix(w, "/tmp/temperpaw-"@)) by {
                if has_prefix(w, "/tmp/temperpaw-"@) {
                    assert(w[1] == "/tmp/temperpaw-"@[1]);
                    assert(w[1] == "/workspace"@[1]);
                }
            }
            assert(legacy_workdir_replacement(w1) is None);
        },
        None => {
            assert(get_value(after, kw) == get_value(base, kw));
            assert(w1 == w0);
        },
    }
    if is_global_route {
        assert(get_value(after, kt) == Some(vt));
        lemma_set_same(after, kt, vt);
    } else {
        law_normalize_is_idempotent(t0, false);
        match normalize_tools_spec(t0, false) {
            Some(t) => {
                lemma_get_after_set(s3, kt, ValueView::Text(t), kt);
                assert(text_or_empty(after, kt) == t);
            },
            None => {
                if let Some(w) = legacy_workdir_replacement(w0) {
                    lemma_get_after_set(s2, kw, ValueView::Text(w), kt);
                }
                if let Some(k) = api_key {
                    lemma_get_after_set(s1, kk, ValueView::Text(k), kt);
                }
                lemma_get_after_set(base, ku, vu, kt);
                assert(text_or_empty(after, kt) == t0);
            },
        }
    }
}

/// Repair touches only the API URL, the API key, the working directory and the tool list:
/// every other setting keeps its stored value.
pub proof fn law_repair_keeps_other_settings(
    base: Seq<(Seq<char>, ValueView)>,
    api_url: Seq<char>,
    api_key: Option<Seq<char>>,
    is_global_route: bool,
    k: Seq<char>,
)
    requires
        k != "temper_api_url"@,
        k != "temper_api_key"@,
        k != "workdir"@,
        k != "tools_enabled"@,
    ensures
        get_value(repaired_entries(base, api_url, api_key, is_global_route), k) == get_value(base, k),
{
    let w0 = text_or_empty(base, "workdir"@);
    let s1 = set_value(base, "temper_api_url"@, ValueView::Text(api_url));
    lemma_get_after_set(base, "temper_api_url"@, ValueView::Text(api_url), k);
    let s2 = match api_key {
        Some(key) => {
            lemma_get_after_set(s1, "temper_api_key"@, ValueView::Text(key), k);
            set_value(s1, "temper_api_key"@, ValueView::Text(key))
        },
        None => s1,
    };
    let s3 = match legacy_workdir_replacement(w0) {
        Some(w) => {
            lemma_get_after_set(s2, "workdir"@, ValueView::Text(w), k);
            set_value(s2, "workdir"@, ValueView::Text(w))
        },
        None => s2,
    };
    if is_global_route {
        lemma_get_after_set(s3, "tools_enabled"@, ValueView::Text(DEFAULT_AGENT_TOOLS_ENABLED@), k);
    } else {
        match normalize_tools_spec(text_or_empty(base, "tools_enabled"@), false) {
            Some(t) => lemma_get_after_set(s3, "tools_enabled"@, ValueView::Text(t), k),
            None => {},
        }
    }
}

} // verus!
