//! Default agent configuration: the default tool list, the repair of tool lists and
//! working directories written by earlier versions, and the lookups of agent souls.

use vstd::prelude::*;

use crate::default_tools::{
    default_tool_list, lemma_default_tools_joined, lemma_default_tools_listed,
};
use crate::text::{
    all_clean, append_chars, append_str, chars, chars_eq_str, chars_list_contains,
    chars_start_with_str, clean_token, config_list, config_list_chars, escape_quotes,
    escape_single_quotes, has_prefix, is_ws, lemma_blank_has_no_entries, join_chars, join_seq, lemma_clean_join_trimmed,
    lemma_config_list_clean, lemma_config_list_join, slice_chars, string_from_chars,
    to_lowercase, trim_chars, trim_end_seq, trim_seq, trim_start_seq, unicode_lowercase,
    vec_views,
};

verus! {

/// The tools that the default agents are given.
pub const DEFAULT_AGENT_TOOLS_ENABLED: &'static str = "temper_create,temper_get,temper_list,temper_action,temper_patch,temper_submit_specs,temper_show_spec,temper_specs,temper_upload_wasm,temper_get_trajectories,temper_get_insights,temper_get_decisions,temper_poll_decision,temper_approve_decision,temper_deny_decision,temper_submit_policy,temper_list_policies,temper_get_policy,temper_update_policy,temper_delete_policy,temper_search_apps,temper_install_app,temper_publish_app,temper_update_app,temper_list_apps,temper_spawn_session,temper_list_sessions,temper_abort_session,temper_steer_session,temper_save_memory,temper_recall_memory,temper_write,temper_write_many,temper_read,temper_run_coding_agent,temper_get_secret,temper_datadog_query,temper_railway,temper_vercel,temper_web_search,temper_web_fetch,temper_image_generate,read,write,edit,bash";

/// The working directory of the default agents.
pub const DEFAULT_AGENT_WORKDIR: &'static str = "/workspace";

/// Tool names of earlier versions, which are renamed or dropped.
pub open spec fn is_legacy_tool(t: Seq<char>) -> bool {
    ||| t == "read_entity"@
    ||| t == "save_memory"@
    ||| t == "recall_memory"@
    ||| t == "spawn_agent"@
    ||| t == "spawn_session"@
    ||| t == "temper_file_upload"@
    ||| t == "temper_get_agent_id"@
    ||| t == "temper_done"@
    ||| t == "temper_switch_provider"@
}

/// The current name of a tool: legacy names renamed, retired tools dropped (`None`).
pub open spec fn tool_mapping(t: Seq<char>) -> Option<Seq<char>> {
    if t == "read_entity"@ {
        Some("temper_get"@)
    } else if t == "save_memory"@ {
        Some("temper_save_memory"@)
    } else if t == "recall_memory"@ {
        Some("temper_recall_memory"@)
    } else if t == "spawn_agent"@ || t == "spawn_session"@ {
        Some("temper_spawn_session"@)
    } else if t == "temper_file_upload"@ {
        Some("temper_write"@)
    } else if t == "temper_get_agent_id"@ || t == "temper_done"@ || t == "temper_switch_provider"@ {
        None
    } else {
        Some(t)
    }
}

/// The tokens mapped to their current names, each kept at its first occurrence.
pub open spec fn normalized_tools(tokens: Seq<Seq<char>>) -> Seq<Seq<char>>
    decreases tokens.len(),
{
    if tokens.len() == 0 {
        Seq::<Seq<char>>::empty()
    } else {
        let init = normalized_tools(tokens.drop_last());
        match tool_mapping(tokens.last()) {
            Some(m) => if init.contains(m) {
                init
            } else {
                init.push(m)
            },
            None => init,
        }
    }
}

/// Whether some token is a legacy tool name.
pub open spec fn has_legacy_tool(tokens: Seq<Seq<char>>) -> bool
    decreases tokens.len(),
{
    tokens.len() > 0 && (has_legacy_tool(tokens.drop_last()) || is_legacy_tool(tokens.last()))
}

/// The normalized tool list for `raw`, or `None` where it needs no change. A blank list, or
/// `replace_all`, gives the default list.
pub open spec fn normalize_tools_spec(raw: Seq<char>, replace_all: bool) -> Option<Seq<char>> {
    if trim_seq(raw).len() == 0 || replace_all {
        Some(DEFAULT_AGENT_TOOLS_ENABLED@)
    } else if has_legacy_tool(config_list(raw)) {
        let out = normalized_tools(config_list(raw));
        if out.len() == 0 {
            Some(DEFAULT_AGENT_TOOLS_ENABLED@)
        } else {
            Some(join_seq(out, ","@))
        }
    } else {
        None
    }
}

/// Maps one token: whether it is a legacy name, and its current name (`None` when retired).
fn map_tool(t: &Vec<char>) -> (r: (bool, Option<Vec<char>>))
    ensures
        r.0 == is_legacy_tool(t@),
        match r.1 {
            Some(m) => tool_mapping(t@) == Some(m@),
            None => tool_mapping(t@) is None,
        },
{
    if chars_eq_str(t, "read_entity") {
        (true, Some(chars("temper_get")))
    } else if chars_eq_str(t, "save_memory") {
        (true, Some(chars("temper_save_memory")))
    } else if chars_eq_str(t, "recall_memory") {
        (true, Some(chars("temper_recall_memory")))
    } else if chars_eq_str(t, "spawn_agent") || chars_eq_str(t, "spawn_session") {
        (true, Some(chars("temper_spawn_session")))
    } else if chars_eq_str(t, "temper_file_upload") {
        (true, Some(chars("temper_write")))
    } else if chars_eq_str(t, "temper_get_agent_id") || chars_eq_str(t, "temper_done")
        || chars_eq_str(t, "temper_switch_provider") {
        (true, None)
    } else {
        (false, Some(t.clone()))
    }
}

/// Normalizes a comma-separated tool list: legacy names are renamed or dropped and
/// duplicates removed. `None` where nothing changes; the default list where the result would
/// be empty, where `raw` is blank, or where `replace_all` is set.
pub fn normalize_tools_enabled(raw: &str, replace_all: bool) -> (r: Option<String>)
    ensures
        match r {
            Some(s) => normalize_tools_spec(raw@, replace_all) == Some(s@),
            None => normalize_tools_spec(raw@, replace_all) is None,
        },
{
    let v = chars(raw);
    let trimmed = trim_chars(&v);
    if trimmed.len() == 0 {
        return Some(crate::text::owned(DEFAULT_AGENT_TOOLS_ENABLED));
    }
    let tokens = config_list_chars(&v);
    let mut changed = replace_all;
    let mut out: Vec<Vec<char>> = Vec::new();
    let mut i: usize = 0;
    while i < tokens.len()
        invariant
            i <= tokens@.len(),
            vec_views(out@) == normalized_tools(vec_views(tokens@).take(i as int)),
            changed == (replace_all || has_legacy_tool(vec_views(tokens@).take(i as int))),
        decreases tokens@.len() - i,
    {
        let ghost before = vec_views(tokens@).take(i as int);
        let ghost after = vec_views(tokens@).take(i as int + 1);
        proof {
            assert(after.drop_last() =~= before);
            assert(after.last() == tokens@[i as int]@);
        }
        let (legacy, mapped) = map_tool(&tokens[i]);
        if legacy {
            changed = true;
        }
        match mapped {
            Some(m) => {
                if !chars_list_contains(&out, &m) {
                    let ghost old_out = vec_views(out@);
                    out.push(m);
                    proof {
                        assert(vec_views(out@) =~= old_out.push(m@));
                    }
                }
            },
            None => {},
        }
        i = i + 1;
    }
    proof {
        assert(vec_views(tokens@).take(tokens@.len() as int) =~= vec_views(tokens@));
    }
    if replace_all {
        return Some(crate::text::owned(DEFAULT_AGENT_TOOLS_ENABLED));
    }
    if changed {
        if out.len() == 0 {
            Some(crate::text::owned(DEFAULT_AGENT_TOOLS_ENABLED))
        } else {
            let joined = join_chars(&out, &chars(","));
            Some(string_from_chars(&joined))
        }
    } else {
        None
    }
}

/// The tokens with each of `defaults` appended where it is missing.
pub open spec fn add_missing(tokens: Seq<Seq<char>>, defaults: Seq<Seq<char>>) -> Seq<Seq<char>>
    decreases defaults.len(),
{
    if defaults.len() == 0 {
        tokens
    } else {
        let init = add_missing(tokens, defaults.drop_last());
        if init.contains(defaults.last()) {
            init
        } else {
            init.push(defaults.last())
        }
    }
}

/// The default tool names.
pub open spec fn default_tools() -> Seq<Seq<char>> {
    config_list(DEFAULT_AGENT_TOOLS_ENABLED@)
}

/// The repaired tool list of an existing default agent, or `None` where it needs no change.
pub open spec fn repair_tools_spec(raw: Seq<char>) -> Option<Seq<char>> {
    let normalized = normalize_tools_spec(raw, false);
    let source = match normalized {
        Some(n) => n,
        None => raw,
    };
    let tokens = config_list(source);
    let all = add_missing(tokens, default_tools());
    if normalized is Some || all.len() > tokens.len() {
        if all.len() == 0 {
            Some(DEFAULT_AGENT_TOOLS_ENABLED@)
        } else {
            Some(join_seq(all, ","@))
        }
    } else {
        None
    }
}

proof fn lemma_add_missing_grows(tokens: Seq<Seq<char>>, defaults: Seq<Seq<char>>)
    ensures
        add_missing(tokens, defaults).len() >= tokens.len(),
        add_missing(tokens, defaults).take(tokens.len() as int) == tokens,
    decreases defaults.len(),
{
    if defaults.len() > 0 {
        lemma_add_missing_grows(tokens, defaults.drop_last());
        let init = add_missing(tokens, defaults.drop_last());
        assert(init.push(defaults.last()).take(tokens.len() as int) =~= init.take(
            tokens.len() as int,
        ));
    }
}

/// Repairs the tool list of an existing default agent: normalizes it and appends every
/// default tool that is missing. `None` where nothing changes.
pub fn repair_default_agent_tools_enabled(raw: &str) -> (r: Option<String>)
    ensures
        match r {
            Some(s) => repair_tools_spec(raw@) == Some(s@),
            None => repair_tools_spec(raw@) is None,
        },
{
    let normalized = normalize_tools_enabled(raw, false);
    let changed_by_normalizing = normalized.is_some();
    let source: Vec<char> = match &normalized {
        Some(n) => chars(n.as_str()),
        None => chars(raw),
    };
    let mut tokens = config_list_chars(&source);
    let ghost start = vec_views(tokens@);
    let defaults = config_list_chars(&chars(DEFAULT_AGENT_TOOLS_ENABLED));
    let mut i: usize = 0;
    while i < defaults.len()
        invariant
            i <= defaults@.len(),
            vec_views(tokens@) == add_missing(start, vec_views(defaults@).take(i as int)),
        decreases defaults@.len() - i,
    {
        let ghost before = vec_views(defaults@).take(i as int);
        let ghost after = vec_views(defaults@).take(i as int + 1);
        proof {
            assert(after.drop_last() =~= before);
            assert(after.last() == defaults@[i as int]@);
        }
        if !chars_list_contains(&tokens, &defaults[i]) {
            let ghost old_tokens = vec_views(tokens@);
            tokens.push(defaults[i].clone());
            proof {
                assert(vec_views(tokens@) =~= old_tokens.push(defaults@[i as int]@));
            }
        }
        i = i + 1;
    }
    proof {
        assert(vec_views(defaults@).take(defaults@.len() as int) =~= vec_views(defaults@));
        lemma_add_missing_grows(start, vec_views(defaults@));
    }
    let added = tokens.len() > start_len(&source);
    if changed_by_normalizing || added {
        if tokens.len() == 0 {
            Some(crate::text::owned(DEFAULT_AGENT_TOOLS_ENABLED))
        } else {
            let joined = join_chars(&tokens, &chars(","));
            Some(string_from_chars(&joined))
        }
    } else {
        None
    }
}

/// The number of entries of a configured list.
fn start_len(source: &Vec<char>) -> (r: usize)
    ensures
        r == config_list(source@).len(),
{
    let items = config_list_chars(source);
    items.len()
}

/// The working directory that replaces a legacy one: the default for an empty one, and
/// paths under `/tmp/workspace` or named `/tmp/temperpaw-*` moved under the default.
pub open spec fn legacy_workdir_replacement(w: Seq<char>) -> Option<Seq<char>> {
    if w.len() == 0 {
        Some(DEFAULT_AGENT_WORKDIR@)
    } else if has_prefix(w, "/tmp/workspace"@) {
        Some(DEFAULT_AGENT_WORKDIR@ + w.skip("/tmp/workspace"@.len() as int))
    } else if has_prefix(w, "/tmp/temperpaw-"@) {
        Some(DEFAULT_AGENT_WORKDIR@ + "/temperpaw-"@ + w.skip("/tmp/temperpaw-"@.len() as int))
    } else {
        None
    }
}

/// The replacement of a legacy working directory, `None` where it is current.
pub fn normalize_legacy_workdir(current_workdir: &str) -> (r: Option<String>)
    ensures
        match r {
            Some(s) => legacy_workdir_replacement(current_workdir@) == Some(s@),
            None => legacy_workdir_replacement(current_workdir@) is None,
        },
{
    let w = chars(current_workdir);
    if w.len() == 0 {
        return Some(crate::text::owned(DEFAULT_AGENT_WORKDIR));
    }
    let p1 = chars("/tmp/workspace");
    if chars_start_with_str(&w, "/tmp/workspace") {
        let suffix = slice_chars(&w, p1.len(), w.len());
        let mut out = chars(DEFAULT_AGENT_WORKDIR);
        append_chars(&mut out, &suffix);
        proof {
            assert(suffix@ =~= w@.skip("/tmp/workspace"@.len() as int));
        }
        return Some(string_from_chars(&out));
    }
    let p2 = chars("/tmp/temperpaw-");
    if chars_start_with_str(&w, "/tmp/temperpaw-") {
        let name = slice_chars(&w, p2.len(), w.len());
        let mut out = chars(DEFAULT_AGENT_WORKDIR);
        append_str(&mut out, "/temperpaw-");
        append_chars(&mut out, &name);
        proof {
            assert(name@ =~= w@.skip("/tmp/temperpaw-"@.len() as int));
        }
        return Some(string_from_chars(&out));
    }
    None
}

/// The OData filters that find a soul by its current `Name` and by the legacy lowercase `name`.
pub fn soul_lookup_filters(name: &str) -> (r: [String; 2])
    ensures
        r@[0]@ == "Name eq '"@ + escape_quotes(name@) + "'"@,
        r@[1]@ == "name eq '"@ + escape_quotes(unicode_lowercase(name@)) + "'"@,
{
    let escaped = escape_single_quotes(&chars(name));
    let lower = to_lowercase(name);
    let escaped_lower = escape_single_quotes(&chars(lower.as_str()));
    let mut first = chars("Name eq '");
    append_chars(&mut first, &escaped);
    append_str(&mut first, "'");
    let mut second = chars("name eq '");
    append_chars(&mut second, &escaped_lower);
    append_str(&mut second, "'");
    [string_from_chars(&first), string_from_chars(&second)]
}

/// Whether the Paw soul content differs, trimmed, from the default content.
pub fn paw_soul_content_is_personalized(current_content: &str, default_content: &str) -> (r: bool)
    ensures
        r == (trim_seq(current_content@) != trim_seq(default_content@)),
{
    let c = trim_chars(&chars(current_content));
    let d = trim_chars(&chars(default_content));
    !crate::text::chars_eq(&c, &d)
}

proof fn lemma_add_missing_contains(tokens: Seq<Seq<char>>, defaults: Seq<Seq<char>>)
    ensures
        forall|i: int| 0 <= i < defaults.len() ==> add_missing(tokens, defaults).contains(
            #[trigger] defaults[i],
        ),
        all_clean(tokens) && all_clean(defaults) ==> all_clean(add_missing(tokens, defaults)),
    decreases defaults.len(),
{
    if defaults.len() > 0 {
        let d0 = defaults.drop_last();
        lemma_add_missing_contains(tokens, d0);
        let init = add_missing(tokens, d0);
        let all = add_missing(tokens, defaults);
        assert forall|i: int| 0 <= i < defaults.len() implies all.contains(#[trigger] defaults[i]) by {
            if i < defaults.len() - 1 {
                assert(defaults[i] == d0[i]);
                assert(init.contains(d0[i]));
                if !init.contains(defaults.last()) {
                    let j = choose|j: int| 0 <= j < init.len() && init[j] == d0[i];
                    assert(all[j] == init[j]);
                }
            } else {
                if !init.contains(defaults.last()) {
                    assert(all[all.len() - 1] == defaults.last());
                }
            }
        }
        if all_clean(tokens) && all_clean(defaults) {
            assert forall|i: int| 0 <= i < d0.len() implies clean_token(#[trigger] d0[i]) by {
                assert(d0[i] == defaults[i]);
            }
            assert(clean_token(defaults[defaults.len() - 1]));
            assert forall|i: int| 0 <= i < all.len() implies clean_token(#[trigger] all[i]) by {
                if i < init.len() {
                    assert(all[i] == init[i]);
                }
            }
        }
    }
}

/// Every default tool is in the tool list of a default agent once repair has run: in the
/// repaired list, or in the current one where repair changes nothing.
pub proof fn law_repair_keeps_every_default_tool(raw: Seq<char>)
    ensures
        ({
            let result = match repair_tools_spec(raw) {
                Some(r) => r,
                None => raw,
            };
            forall|i: int| 0 <= i < default_tools().len() ==> config_list(result).contains(
                #[trigger] default_tools()[i],
            )
        }),
{
    let normalized = normalize_tools_spec(raw, false);
    let source = match normalized {
        Some(n) => n,
        None => raw,
    };
    let tokens = config_list(source);
    let defaults = default_tools();
    let all = add_missing(tokens, defaults);
    lemma_config_list_clean(source);
    lemma_config_list_clean(DEFAULT_AGENT_TOOLS_ENABLED@);
    lemma_add_missing_contains(tokens, defaults);
    lemma_add_missing_grows(tokens, defaults);
    if normalized is Some || all.len() > tokens.len() {
        if all.len() == 0 {
            assert forall|i: int| 0 <= i < defaults.len() implies config_list(
                DEFAULT_AGENT_TOOLS_ENABLED@,
            ).contains(#[trigger] defaults[i]) by {
                assert(config_list(DEFAULT_AGENT_TOOLS_ENABLED@)[i] == defaults[i]);
            }
        } else {
            lemma_config_list_join(all);
        }
    } else {
        assert(all =~= tokens);
    }
}

/// `has_legacy_tool` holds exactly where some entry is a legacy name.
pub proof fn lemma_has_legacy_tool_iff(s: Seq<Seq<char>>)
    ensures
        has_legacy_tool(s) <==> exists|i: int| 0 <= i < s.len() && is_legacy_tool(#[trigger] s[i]),
    decreases s.len(),
{
    if s.len() > 0 {
        let t = s.drop_last();
        lemma_has_legacy_tool_iff(t);
        if has_legacy_tool(t) {
            let i = choose|i: int| 0 <= i < t.len() && is_legacy_tool(#[trigger] t[i]);
            assert(s[i] == t[i]);
        }
        if is_legacy_tool(s.last()) {
            assert(is_legacy_tool(s[s.len() - 1]));
        }
        if exists|i: int| 0 <= i < s.len() && is_legacy_tool(#[trigger] s[i]) {
            let i = choose|i: int| 0 <= i < s.len() && is_legacy_tool(#[trigger] s[i]);
            if i < s.len() - 1 {
                assert(t[i] == s[i]);
            }
        }
    }
}

/// The current name of a clean tool name is clean and no legacy name.
proof fn lemma_mapped_tool_current(t: Seq<char>)
    requires
        clean_token(t),
    ensures
        match tool_mapping(t) {
            Some(m) => clean_token(m) && !is_legacy_tool(m),
            None => true,
        },
{
    reveal_strlit("read_entity");
    reveal_strlit("save_memory");
    reveal_strlit("recall_memory");
    reveal_strlit("spawn_agent");
    reveal_strlit("spawn_session");
    reveal_strlit("temper_file_upload");
    reveal_strlit("temper_get_agent_id");
    reveal_strlit("temper_done");
    reveal_strlit("temper_switch_provider");
    reveal_strlit("temper_get");
    reveal_strlit("temper_save_memory");
    reveal_strlit("temper_recall_memory");
    reveal_strlit("temper_spawn_session");
    reveal_strlit("temper_write");
    if is_legacy_tool(t) {
        match tool_mapping(t) {
            Some(m) => {
                assert(m.len() > 0);
                assert(!is_ws(m[0]) && !is_ws(m.last()));
                assert(trim_start_seq(m) == m);
                assert(trim_end_seq(m) == m);
                assert(!m.contains(','));
                if m == "temper_save_memory"@ {
                    assert(m[7] != "temper_file_upload"@[7]);
                }
            },
            None => {},
        }
    }
}

/// The entries of `normalized_tools` are clean current names.
proof fn lemma_normalized_tools_current(tokens: Seq<Seq<char>>)
    requires
        all_clean(tokens),
    ensures
        all_clean(normalized_tools(tokens)),
        !has_legacy_tool(normalized_tools(tokens)),
    decreases tokens.len(),
{
    if tokens.len() > 0 {
        let rest = tokens.drop_last();
        assert forall|i: int| 0 <= i < rest.len() implies clean_token(#[trigger] rest[i]) by {
            assert(rest[i] == tokens[i]);
        }
        lemma_normalized_tools_current(rest);
        let init = normalized_tools(rest);
        let out = normalized_tools(tokens);
        assert(clean_token(tokens[tokens.len() - 1]));
        lemma_mapped_tool_current(tokens.last());
        lemma_has_legacy_tool_iff(init);
        lemma_has_legacy_tool_iff(out);
        match tool_mapping(tokens.last()) {
            Some(m) => {
                if !init.contains(m) {
                    assert(out == init.push(m));
                    assert forall|i: int| 0 <= i < out.len() implies clean_token(#[trigger] out[i])
                        && !is_legacy_tool(out[i]) by {
                        if i < init.len() {
                            assert(out[i] == init[i]);
                        }
                    }
                }
            },
            None => {},
        }
    }
}

/// What a normalized list is: clean current names, and a list whose trim is itself.
proof fn lemma_normalized_list(raw: Seq<char>, replace_all: bool)
    ensures
        match normalize_tools_spec(raw, replace_all) {
            Some(n) => {
                &&& trim_seq(n).len() > 0
                &&& all_clean(config_list(n))
                &&& !has_legacy_tool(config_list(n))
            },
            None => true,
        },
{
    lemma_default_tools_listed();
    assert(default_tool_list().len() > 0);
    lemma_clean_join_trimmed(default_tool_list());
    lemma_default_tools_joined();
    if !(trim_seq(raw).len() == 0 || replace_all) && has_legacy_tool(config_list(raw)) {
        let out = normalized_tools(config_list(raw));
        lemma_config_list_clean(raw);
        lemma_normalized_tools_current(config_list(raw));
        if out.len() > 0 {
            lemma_clean_join_trimmed(out);
            lemma_config_list_join(out);
        }
    }
}

/// A normalized tool list holds no legacy tool name; where normalizing changes nothing, the
/// list held none.
pub proof fn law_normalized_tools_are_current(raw: Seq<char>)
    ensures
        match normalize_tools_spec(raw, false) {
            Some(n) => !has_legacy_tool(config_list(n)),
            None => !has_legacy_tool(config_list(raw)),
        },
{
    lemma_normalized_list(raw, false);
}

/// Normalizing a list that was just normalized changes nothing.
pub proof fn law_normalize_is_idempotent(raw: Seq<char>, replace_all: bool)
    ensures
        match normalize_tools_spec(raw, replace_all) {
            Some(n) => normalize_tools_spec(n, false) is None,
            None => true,
        },
{
    lemma_normalized_list(raw, replace_all);
}

/// Every entry of `add_missing` comes from the tokens or from the defaults.
proof fn lemma_add_missing_from(tokens: Seq<Seq<char>>, defaults: Seq<Seq<char>>)
    ensures
        forall|i: int| 0 <= i < add_missing(tokens, defaults).len() ==> (tokens.contains(
            #[trigger] add_missing(tokens, defaults)[i],
        ) || defaults.contains(add_missing(tokens, defaults)[i])),
    decreases defaults.len(),
{
    if defaults.len() > 0 {
        let d0 = defaults.drop_last();
        lemma_add_missing_from(tokens, d0);
        let init = add_missing(tokens, d0);
        let all = add_missing(tokens, defaults);
        assert forall|i: int| 0 <= i < all.len() implies (tokens.contains(#[trigger] all[i])
            || defaults.contains(all[i])) by {
            if i < init.len() {
                assert(all[i] == init[i]);
                if d0.contains(init[i]) {
                    let k = choose|k: int| 0 <= k < d0.len() && d0[k] == init[i];
                    assert(defaults[k] == d0[k]);
                }
            } else {
                assert(all[i] == defaults[defaults.len() - 1]);
            }
        }
    }
}

/// Where every default is already present, `add_missing` adds nothing.
proof fn lemma_add_missing_present(tokens: Seq<Seq<char>>, defaults: Seq<Seq<char>>)
    requires
        forall|i: int| 0 <= i < defaults.len() ==> tokens.contains(#[trigger] defaults[i]),
    ensures
        add_missing(tokens, defaults) == tokens,
    decreases defaults.len(),
{
    if defaults.len() > 0 {
        let d0 = defaults.drop_last();
        assert forall|i: int| 0 <= i < d0.len() implies tokens.contains(#[trigger] d0[i]) by {
            assert(d0[i] == defaults[i]);
        }
        lemma_add_missing_present(tokens, d0);
        assert(tokens.contains(defaults[defaults.len() - 1]));
    }
}

/// Repairing a tool list that was just repaired changes nothing.
pub proof fn law_repair_is_idempotent(raw: Seq<char>)
    ensures
        match repair_tools_spec(raw) {
            Some(r) => repair_tools_spec(r) is None,
            None => true,
        },
{
    let normalized = normalize_tools_spec(raw, false);
    let source = match normalized {
        Some(n) => n,
        None => raw,
    };
    let tokens = config_list(source);
    let defaults = default_tools();
    let all = add_missing(tokens, defaults);
    if let Some(r) = repair_tools_spec(raw) {
        lemma_default_tools_listed();
        lemma_normalized_list(raw, false);
        lemma_config_list_clean(source);
        lemma_add_missing_contains(tokens, defaults);
        lemma_add_missing_from(tokens, defaults);
        lemma_has_legacy_tool_iff(tokens);
        lemma_has_legacy_tool_iff(defaults);
        lemma_has_legacy_tool_iff(all);
        assert(!has_legacy_tool(tokens));
        assert forall|i: int| 0 <= i < all.len() implies !is_legacy_tool(#[trigger] all[i]) by {
            if tokens.contains(all[i]) {
                let k = choose|k: int| 0 <= k < tokens.len() && tokens[k] == all[i];
                assert(!is_legacy_tool(tokens[k]));
            } else {
                let k = choose|k: int| 0 <= k < defaults.len() && defaults[k] == all[i];
                assert(!is_legacy_tool(defaults[k]));
            }
        }
        assert(defaults.len() > 0);
        assert(all.contains(defaults[0]));
        assert(all.len() > 0);
        assert(r == join_seq(all, ","@));
        lemma_clean_join_trimmed(all);
        lemma_config_list_join(all);
        assert(normalize_tools_spec(r, false) is None);
        lemma_add_missing_present(all, defaults);
    }
}

/// Legacy tool names are renamed to their current names (`read_entity` to `temper_get`,
/// `save_memory` to `temper_save_memory`, `recall_memory` to `temper_recall_memory`,
/// `spawn_agent` and `spawn_session` to `temper_spawn_session`, `temper_file_upload` to
/// `temper_write`), retired ones dropped, and other names kept. Normalizing without replacing
/// everything keeps the current name of every tool of the list: each one is in the result,
/// or in the list itself where nothing changes.
pub proof fn law_normalize_keeps_current_names(raw: Seq<char>)
    ensures
        tool_mapping("read_entity"@) == Some("temper_get"@),
        tool_mapping("save_memory"@) == Some("temper_save_memory"@),
        tool_mapping("recall_memory"@) == Some("temper_recall_memory"@),
        tool_mapping("spawn_agent"@) == Some("temper_spawn_session"@),
        tool_mapping("spawn_session"@) == Some("temper_spawn_session"@),
        tool_mapping("temper_file_upload"@) == Some("temper_write"@),
        tool_mapping("temper_get_agent_id"@) is None,
        tool_mapping("temper_done"@) is None,
        tool_mapping("temper_switch_provider"@) is None,
        forall|t: Seq<char>| !is_legacy_tool(t) ==> tool_mapping(t) == Some(t),
        forall|i: int|
            #![trigger config_list(raw)[i]]
            0 <= i < config_list(raw).len() ==> match tool_mapping(config_list(raw)[i]) {
                Some(m) => match normalize_tools_spec(raw, false) {
                    Some(n) => config_list(n).contains(m),
                    None => config_list(raw).contains(m),
                },
                None => true,
            },
{
    reveal_strlit("read_entity");
    reveal_strlit("save_memory");
    reveal_strlit("recall_memory");
    reveal_strlit("spawn_agent");
    reveal_strlit("spawn_session");
    reveal_strlit("temper_file_upload");
    reveal_strlit("temper_get_agent_id");
    reveal_strlit("temper_done");
    reveal_strlit("temper_switch_provider");
    assert("save_memory"@[0] != "read_entity"@[0]);
    assert("recall_memory"@[0] != "read_entity"@[0] || "recall_memory"@.len() != "read_entity"@.len());
    assert("spawn_agent"@[0] != "read_entity"@[0] && "spawn_agent"@[0] != "save_memory"@[1]);
    assert("spawn_agent"@[1] != "save_memory"@[1]);
    assert("spawn_session"@[0] != "recall_memory"@[0]);
    assert("temper_done"@[0] != "read_entity"@[0] && "temper_done"@[0] != "save_memory"@[0]
        && "temper_done"@[0] != "spawn_agent"@[0]);
    assert("temper_get_agent_id"@[7] != "temper_file_upload"@[7] || "temper_get_agent_id"@.len()
        != "temper_file_upload"@.len());
    let tokens = config_list(raw);
    lemma_normalized_tools_contains(tokens);
    lemma_has_legacy_tool_iff(tokens);
    assert forall|i: int|
        #![trigger config_list(raw)[i]]
        0 <= i < config_list(raw).len() implies match tool_mapping(config_list(raw)[i]) {
            Some(m) => match normalize_tools_spec(raw, false) {
                Some(n) => config_list(n).contains(m),
                None => config_list(raw).contains(m),
            },
            None => true,
        } by {
        let t = tokens[i];
        if let Some(m) = tool_mapping(t) {
            assert(normalized_tools(tokens).contains(m));
            if trim_seq(raw).len() == 0 {
                lemma_blank_has_no_entries(raw);
                assert(false);
            }
            if has_legacy_tool(tokens) {
                let out = normalized_tools(tokens);
                lemma_config_list_clean(raw);
                lemma_normalized_tools_current(tokens);
                lemma_config_list_join(out);
            } else {
                assert(!is_legacy_tool(tokens[i]));
                assert(m == t);
            }
        }
    }
}

/// Every current name of a token is in the normalized tokens.
proof fn lemma_normalized_tools_contains(tokens: Seq<Seq<char>>)
    ensures
        forall|i: int|
            0 <= i < tokens.len() ==> (tool_mapping(#[trigger] tokens[i]) matches Some(m)
                ==> normalized_tools(tokens).contains(m)),
    decreases tokens.len(),
{
    if tokens.len() > 0 {
        let rest = tokens.drop_last();
        lemma_normalized_tools_contains(rest);
        let init = normalized_tools(rest);
        let out = normalized_tools(tokens);
        assert(forall|m: Seq<char>| init.contains(m) ==> out.contains(m)) by {
            assert forall|m: Seq<char>| init.contains(m) implies out.contains(m) by {
                let j = choose|j: int| 0 <= j < init.len() && init[j] == m;
                if out != init {
                    assert(out[j] == init[j]);
                }
            }
        }
        assert forall|i: int|
            0 <= i < tokens.len() implies (tool_mapping(#[trigger] tokens[i]) matches Some(m)
                ==> out.contains(m)) by {
            if i < tokens.len() - 1 {
                assert(tokens[i] == rest[i]);
            } else {
                if let Some(m) = tool_mapping(tokens.last()) {
                    if !init.contains(m) {
                        assert(out[out.len() - 1] == m);
                    }
                }
            }
        }
    }
}

} // verus!
