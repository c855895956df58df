//! The bootstrap of the default agents and their souls: which agents exist, how a new agent
//! is configured, how an existing one and the agent routes are repaired, and which soul
//! files are used and kept.

use vstd::prelude::*;

use crate::agent_config::{
    default_agent_config, default_config_entries, repair_base, repaired_agent_config,
    repaired_entries, config_repair_needed, opt_string_view, str_value, AgentConfig,
};
use crate::agents::{repair_default_agent_tools_enabled, repair_tools_spec, paw_soul_content_is_personalized};
use crate::entity::{
    entity_field_str, entity_id_from_json, entity_id_of, field_str_of, first_field_str, or_opt,
    EntityRecord,
};
use crate::text::{
    escape_quotes, join_path, join_seq, join_strings, owned, path_join, str_eq, string_views, trim, trim_seq,
};

verus! {

/// The string under `a`, else under `b`, on the entity or in its `fields`.
pub open spec fn field2(e: EntityRecord, a: Seq<char>, b: Seq<char>) -> Option<Seq<char>> {
    or_opt(field_str_of(e, a), field_str_of(e, b))
}

/// The string under `a`, else under `b`.
pub fn field_either<'a>(e: &'a EntityRecord, a: &str, b: &str) -> (r: Option<&'a str>)
    ensures
        match r {
            Some(t) => field2(*e, a@, b@) == Some(t@),
            None => field2(*e, a@, b@) is None,
        },
{
    let mut names: Vec<&str> = Vec::new();
    names.push(a);
    names.push(b);
    proof {
        reveal_with_fuel(first_field_str, 3);
        assert(names@.drop_first().drop_first() =~= Seq::<&str>::empty());
    }
    entity_field_str(e, &names)
}

/// `o.unwrap_or(d)`.
pub open spec fn or_default(o: Option<Seq<char>>, d: Seq<char>) -> Seq<char> {
    match o {
        Some(t) => t,
        None => d,
    }
}

/// `o.filter(|v| !v.trim().is_empty())`.
pub open spec fn nonblank(o: Option<Seq<char>>) -> Option<Seq<char>> {
    match o {
        Some(t) => if trim_seq(t).len() > 0 {
            Some(t)
        } else {
            None
        },
        None => None,
    }
}

/// `o.filter(|v| !v.is_empty())`.
pub open spec fn nonempty(o: Option<Seq<char>>) -> Option<Seq<char>> {
    match o {
        Some(t) => if t.len() > 0 {
            Some(t)
        } else {
            None
        },
        None => None,
    }
}

fn nonblank_str(o: Option<&str>) -> (r: Option<&str>)
    ensures
        match r {
            Some(t) => o == Some(t) && nonblank(Some(t@)) == Some(t@),
            None => match o {
                Some(t) => nonblank(Some(t@)) is None,
                None => true,
            },
        },
{
    match o {
        Some(t) => if trim(t).is_empty() {
            None
        } else {
            Some(t)
        },
        None => None,
    }
}

/// The id of an entity, or `unknown`.
pub fn id_or_unknown(e: &EntityRecord) -> (r: String)
    ensures
        r@ == or_default(entity_id_of(*e), "unknown"@),
{
    match entity_id_from_json(e) {
        Some(id) => owned(id),
        None => owned("unknown"),
    }
}

/// What configures a new agent.
#[derive(Debug, Clone, PartialEq, Eq)]
pub struct AgentProfile {
    pub name: String,
    pub role: String,
    pub description: String,
    pub model: String,
    pub provider: String,
    pub tools_enabled: String,
    pub max_turns: String,
}

/// The error when the agent configuration has no usable model.
pub const MISSING_MODEL: &'static str = "Agent bootstrap requires model in agent config";

/// The error when the agent configuration has no usable provider.
pub const MISSING_PROVIDER: &'static str = "Agent bootstrap requires provider in agent config";

/// How a new agent named `name` is configured from `config`: its model and provider must be
/// non-blank strings; the tool list defaults to empty and the turn limit to 24.
pub fn agent_profile(name: &str, role: &str, description: &str, config: &AgentConfig) -> (r: Result<
    AgentProfile,
    String,
>)
    ensures
        ({
            let model = nonblank(str_value(config@, "model"@));
            let provider = nonblank(str_value(config@, "provider"@));
            match r {
                Ok(p) => model == Some(p.model@) && provider == Some(p.provider@) && p.name@
                    == name@ && p.role@ == role@ && p.description@ == description@
                    && p.tools_enabled@ == or_default(str_value(config@, "tools_enabled"@), ""@)
                    && p.max_turns@ == or_default(str_value(config@, "max_turns"@), "24"@),
                Err(e) => (model is None && e@ == MISSING_MODEL@) || (model is Some && provider is None
                    && e@ == MISSING_PROVIDER@),
            }
        }),
{
    let model = match nonblank_str(config.get_str("model")) {
        Some(m) => m,
        None => return Err(owned(MISSING_MODEL)),
    };
    let provider = match nonblank_str(config.get_str("provider")) {
        Some(p) => p,
        None => return Err(owned(MISSING_PROVIDER)),
    };
    let tools_enabled = match config.get_str("tools_enabled") {
        Some(t) => owned(t),
        None => {
            proof {
                reveal_strlit("");
            }
            owned("")
        },
    };
    let max_turns = match config.get_str("max_turns") {
        Some(t) => owned(t),
        None => owned("24"),
    };
    Ok(
        AgentProfile {
            name: owned(name),
            role: owned(role),
            description: owned(description),
            model: owned(model),
            provider: owned(provider),
            tools_enabled,
            max_turns,
        },
    )
}

/// The update that repairs an existing default agent.
#[derive(Debug, Clone, PartialEq, Eq)]
pub struct AgentUpdate {
    pub agent_id: String,
    pub description: String,
    pub instructions_file_id: String,
    pub model: String,
    pub provider: String,
    pub temperature: String,
    pub tools_enabled: String,
    pub max_turns: String,
}

/// The error when an agent that needs repair has no id.
pub const MISSING_AGENT_ID: &'static str = "existing Agent entity missing ID";

/// A field of the agent when it is non-blank, else the default configuration's string,
/// else `fallback`.
pub open spec fn agent_setting(
    e: EntityRecord,
    a: Seq<char>,
    b: Seq<char>,
    defaults: Seq<(Seq<char>, crate::agent_config::ValueView)>,
    key: Seq<char>,
    fallback: Seq<char>,
) -> Seq<char> {
    or_default(or_opt(nonblank(field2(e, a, b)), str_value(defaults, key)), fallback)
}

fn agent_setting_of(
    e: &EntityRecord,
    a: &str,
    b: &str,
    defaults: &AgentConfig,
    key: &str,
    fallback: &str,
) -> (r: String)
    ensures
        r@ == agent_setting(*e, a@, b@, defaults@, key@, fallback@),
{
    match nonblank_str(field_either(e, a, b)) {
        Some(t) => owned(t),
        None => match defaults.get_str(key) {
            Some(t) => owned(t),
            None => owned(fallback),
        },
    }
}

/// The repair of an existing default agent: `Ok(None)` where its trimmed tool list needs
/// no repair; an error where it needs one but has no non-empty id; else the update that
/// keeps its settings (falling back on `default_config`) with the repaired tool list.
pub fn existing_agent_update(existing: &EntityRecord, default_config: &AgentConfig) -> (r: Result<
    Option<AgentUpdate>,
    String,
>)
    ensures
        ({
            let tools = trim_seq(or_default(field2(*existing, "ToolsEnabled"@, "tools_enabled"@), ""@));
            match repair_tools_spec(tools) {
                None => r == Ok::<Option<AgentUpdate>, String>(None),
                Some(repaired) => match nonempty(entity_id_of(*existing)) {
                    None => r matches Err(e) && e@ == MISSING_AGENT_ID@,
                    Some(id) => r matches Ok(Some(u)) && u.agent_id@ == id && u.tools_enabled@
                        == repaired && u.model@ == agent_setting(
                        *existing,
                        "Model"@,
                        "model"@,
                        default_config@,
                        "model"@,
                        ""@,
                    ) && u.provider@ == agent_setting(
                        *existing,
                        "Provider"@,
                        "provider"@,
                        default_config@,
                        "provider"@,
                        ""@,
                    ) && u.max_turns@ == agent_setting(
                        *existing,
                        "MaxTurns"@,
                        "max_turns"@,
                        default_config@,
                        "max_turns"@,
                        "24"@,
                    ) && u.description@ == or_default(
                        field2(*existing, "Description"@, "description"@),
                        ""@,
                    ) && u.instructions_file_id@ == or_default(
                        field2(*existing, "InstructionsFileId"@, "instructions_file_id"@),
                        ""@,
                    ) && u.temperature@ == or_default(
                        field2(*existing, "Temperature"@, "temperature"@),
                        "1.0"@,
                    ),
                },
            }
        }),
{
    proof {
        reveal_strlit("");
    }
    let current = match field_either(existing, "ToolsEnabled", "tools_enabled") {
        Some(t) => t,
        None => "",
    };
    let current_tools = trim(current);
    let repaired = match repair_default_agent_tools_enabled(current_tools) {
        Some(t) => t,
        None => return Ok(None),
    };
    let agent_id = match entity_id_from_json(existing) {
        Some(id) => if id.is_empty() {
            return Err(owned(MISSING_AGENT_ID));
        } else {
            id
        },
        None => return Err(owned(MISSING_AGENT_ID)),
    };
    let model = agent_setting_of(existing, "Model", "model", default_config, "model", "");
    let provider = agent_setting_of(existing, "Provider", "provider", default_config, "provider", "");
    let max_turns = agent_setting_of(existing, "MaxTurns", "max_turns", default_config, "max_turns", "24");
    let description = match field_either(existing, "Description", "description") {
        Some(t) => owned(t),
        None => owned(""),
    };
    let instructions_file_id = match field_either(
        existing,
        "InstructionsFileId",
        "instructions_file_id",
    ) {
        Some(t) => owned(t),
        None => owned(""),
    };
    let temperature = match field_either(existing, "Temperature", "temperature") {
        Some(t) => owned(t),
        None => owned("1.0"),
    };
    Ok(
        Some(
            AgentUpdate {
                agent_id: owned(agent_id),
                description,
                instructions_file_id,
                model,
                provider,
                temperature,
                tools_enabled: repaired,
                max_turns,
            },
        ),
    )
}

/// What startup changes on one agent route.
pub struct RouteRepair {
    /// The route's id (empty when it has none; nothing is changed then).
    pub route_id: String,
    /// Whether the route is pointed at the target agent.
    pub assign_agent: bool,
    /// The repaired route configuration, where it changes.
    pub agent_config: Option<AgentConfig>,
    /// Whether the route is the global one (it has no channel).
    pub is_global: bool,
}

/// The repair of an agent route: it is pointed at `target_agent_id` where its agent is
/// missing or another, and its configuration (`parsed_config` being the JSON object of its
/// stored text) is repaired; neither happens for a route without id.
pub fn route_repair(
    route: &EntityRecord,
    parsed_config: &AgentConfig,
    target_agent_id: &str,
    api_url: &str,
    api_key: &Option<String>,
) -> (r: RouteRepair)
    ensures
        ({
            let route_id = or_default(entity_id_of(*route), ""@);
            let current_agent = or_default(field2(*route, "AgentId"@, "agent_id"@), ""@);
            let channel = or_default(field2(*route, "ChannelId"@, "channel_id"@), ""@);
            let raw = or_default(field2(*route, "AgentConfig"@, "agent_config"@), ""@);
            let base = repair_base(raw, parsed_config@);
            let after = repaired_entries(base, api_url@, opt_string_view(*api_key), channel.len() == 0);
            &&& r.route_id@ == route_id
            &&& r.is_global == (channel.len() == 0)
            &&& r.assign_agent == (route_id.len() > 0 && (current_agent.len() == 0
                || current_agent != target_agent_id@))
            &&& match r.agent_config {
                Some(c) => route_id.len() > 0 && config_repair_needed(raw, base, channel.len() == 0)
                    && after != base && c@ == after,
                None => route_id.len() == 0 || !config_repair_needed(raw, base, channel.len() == 0)
                    || after == base,
            }
        }),
{
    proof {
        reveal_strlit("");
    }
    let route_id = match entity_id_from_json(route) {
        Some(id) => id,
        None => "",
    };
    let current_agent = match field_either(route, "AgentId", "agent_id") {
        Some(t) => t,
        None => "",
    };
    let channel = match field_either(route, "ChannelId", "channel_id") {
        Some(t) => t,
        None => "",
    };
    let raw = match field_either(route, "AgentConfig", "agent_config") {
        Some(t) => t,
        None => "",
    };
    let needs_agent = current_agent.is_empty() || !str_eq(current_agent, target_agent_id);
    let agent_config = if route_id.is_empty() {
        None
    } else {
        repaired_agent_config(raw, parsed_config, api_url, api_key, channel.is_empty())
    };
    RouteRepair {
        route_id: owned(route_id),
        assign_agent: needs_agent && !route_id.is_empty(),
        agent_config,
        is_global: channel.is_empty(),
    }
}

/// The configuration of the global route that startup creates for the target agent: the
/// default configuration with the agent's provider and model (empty where it has none).
pub fn global_route_config(target_agent: &EntityRecord, api_url: &str, api_key: &Option<String>) -> (r:
    AgentConfig)
    ensures
        r@ == default_config_entries(
            api_url@,
            opt_string_view(*api_key),
            or_default(field2(*target_agent, "Provider"@, "provider"@), ""@),
            or_default(field2(*target_agent, "Model"@, "model"@), ""@),
        ),
{
    proof {
        reveal_strlit("");
    }
    let model = match field_either(target_agent, "Model", "model") {
        Some(t) => t,
        None => "",
    };
    let provider = match field_either(target_agent, "Provider", "provider") {
        Some(t) => t,
        None => "",
    };
    default_agent_config(api_url, api_key, provider, model)
}

/// The text of a soul made of several files: their contents separated by a blank line.
pub fn soul_content(parts: &Vec<String>) -> (r: String)
    ensures
        r@ == join_seq(string_views(parts@), "\n\n"@),
{
    join_strings(parts, "\n\n")
}

/// Whether bootstrap keeps a soul's existing content: when asked to, or, for Paw, when its
/// current content differs from the default (both must have been read).
pub open spec fn preserve_soul(
    preserve_existing_content: bool,
    name: Seq<char>,
    default_content: Option<Seq<char>>,
    current_content: Option<Seq<char>>,
) -> bool {
    preserve_existing_content || (name == "Paw"@ && match (default_content, current_content) {
        (Some(d), Some(c)) => trim_seq(c) != trim_seq(d),
        _ => false,
    })
}

/// The view of an optional string slice.
pub open spec fn opt_str_view(o: Option<&str>) -> Option<Seq<char>> {
    match o {
        Some(t) => Some(t@),
        None => None,
    }
}

/// Whether bootstrap keeps the existing content of the soul `name`; `default_content` and
/// `current_content` are the default Paw soul and the stored one, `None` where they could
/// not be read.
pub fn should_preserve_paw_soul_content(
    preserve_existing_content: bool,
    name: &str,
    default_content: Option<&str>,
    current_content: Option<&str>,
) -> (r: bool)
    ensures
        r == preserve_soul(
            preserve_existing_content,
            name@,
            opt_str_view(default_content),
            opt_str_view(current_content),
        ),
{
    if preserve_existing_content {
        return true;
    }
    if !str_eq(name, "Paw") {
        return false;
    }
    match (default_content, current_content) {
        (Some(d), Some(c)) => paw_soul_content_is_personalized(c, d),
        _ => false,
    }
}

/// The soul that bootstrap keeps for an agent whose attached soul, stored under `soul_id`, is
/// `soul`: the attached soul where it has a content file. A soul that already exists is kept
/// as it is, its content not written again; `None` sends bootstrap on to look the soul up by
/// name.
pub fn reused_attached_soul(soul_id: &str, soul: &EntityRecord) -> (r: Option<String>)
    ensures
        match r {
            Some(id) => id@ == soul_id@ && field2(*soul, "ContentFileId"@, "content_file_id"@) is Some,
            None => field2(*soul, "ContentFileId"@, "content_file_id"@) is None,
        },
{
    match field_either(soul, "ContentFileId", "content_file_id") {
        Some(_) => Some(owned(soul_id)),
        None => None,
    }
}

/// The directory of the soul files that setup generates, under the home directory.
pub fn generated_soul_dir(home: &str) -> (r: String)
    ensures
        r@ == path_join(home@, ".local/share/temperpaw/generated"@),
{
    join_path(home, ".local/share/temperpaw/generated")
}

/// The generated soul, style and user files in `dir`.
pub fn generated_soul_files(dir: &str) -> (r: [String; 3])
    ensures
        r@[0]@ == path_join(dir@, "paw-soul.md"@),
        r@[1]@ == path_join(dir@, "paw-style.md"@),
        r@[2]@ == path_join(dir@, "user.md"@),
{
    [join_path(dir, "paw-soul.md"), join_path(dir, "paw-style.md"), join_path(dir, "user.md")]
}

/// The soul files of Paw: the generated soul (with the generated style and user files that
/// exist) where it exists, else the shipped soul and style; then always the shipped
/// operating instructions.
pub open spec fn paw_soul_paths_spec(
    generated: Seq<Seq<char>>,
    soul_exists: bool,
    style_exists: bool,
    user_exists: bool,
) -> Seq<Seq<char>> {
    let personal = if soul_exists {
        let a = seq![generated[0]];
        let b = if style_exists {
            a.push(generated[1])
        } else {
            a
        };
        if user_exists {
            b.push(generated[2])
        } else {
            b
        }
    } else {
        seq!["os-apps/paw-agent/agents/paw/SOUL.md"@, "os-apps/paw-agent/agents/paw/STYLE.md"@]
    };
    personal.push("os-apps/paw-agent/agents/paw/AGENT.md"@)
}

/// The soul files of Paw, given the generated files and which of them exist.
pub fn paw_soul_paths(generated: &[String; 3], soul_exists: bool, style_exists: bool, user_exists: bool) -> (r:
    Vec<String>)
    ensures
        string_views(r@) == paw_soul_paths_spec(
            string_views(generated@),
            soul_exists,
            style_exists,
            user_exists,
        ),
{
    let ghost g = string_views(generated@);
    let mut paths: Vec<String> = Vec::new();
    if soul_exists {
        paths.push(generated[0].clone());
        if style_exists {
            paths.push(generated[1].clone());
        }
        if user_exists {
            paths.push(generated[2].clone());
        }
    } else {
        paths.push(owned("os-apps/paw-agent/agents/paw/SOUL.md"));
        paths.push(owned("os-apps/paw-agent/agents/paw/STYLE.md"));
    }
    paths.push(owned("os-apps/paw-agent/agents/paw/AGENT.md"));
    assert(string_views(paths@) =~= paw_soul_paths_spec(g, soul_exists, style_exists, user_exists));
    paths
}

/// A default agent: its name, role, description and soul files.
#[derive(Debug, Clone, PartialEq, Eq)]
pub struct AgentDefinition {
    pub name: String,
    pub role: String,
    pub description: String,
    pub soul_paths: Vec<String>,
}

/// The abstract value of an agent definition.
pub open spec fn definition_view(d: AgentDefinition) -> (Seq<char>, Seq<char>, Seq<char>, Seq<Seq<char>>) {
    (d.name@, d.role@, d.description@, string_views(d.soul_paths@))
}

/// The default agents: Paw with its soul files, then the developer, SRE and probe agents
/// with their shipped instructions.
pub open spec fn default_agents(paw_paths: Seq<Seq<char>>) -> Seq<
    (Seq<char>, Seq<char>, Seq<char>, Seq<Seq<char>>),
> {
    seq![
        ("Paw"@, "chief-of-staff"@, "Paw chief of staff agent"@, paw_paths),
        ("SWE"@, "developer"@, "Software developer agent"@, seq!["os-apps/paw-agent/agents/swe/AGENT.md"@]),
        ("SRE"@, "sre"@, "Site reliability engineering agent"@, seq!["os-apps/paw-agent/agents/sre/AGENT.md"@]),
        ("Probe"@, "probe"@, "Foresight probe agent for projecting product futures"@, seq!["os-apps/paw-agent/agents/probe/AGENT.md"@]),
    ]
}

fn definition(name: &str, role: &str, description: &str, soul_paths: Vec<String>) -> (r: AgentDefinition)
    ensures
        definition_view(r) == (name@, role@, description@, string_views(soul_paths@)),
{
    AgentDefinition { name: owned(name), role: owned(role), description: owned(description), soul_paths }
}

fn single_path(p: &str) -> (r: Vec<String>)
    ensures
        string_views(r@) == seq![p@],
{
    let mut v: Vec<String> = Vec::new();
    v.push(owned(p));
    assert(string_views(v@) =~= seq![p@]);
    v
}

/// The default agents, Paw using `paw_paths`.
pub fn default_agent_definitions(paw_paths: Vec<String>) -> (r: Vec<AgentDefinition>)
    ensures
        r@.map_values(|d: AgentDefinition| definition_view(d)) == default_agents(string_views(paw_paths@)),
{
    let ghost p = string_views(paw_paths@);
    let mut v: Vec<AgentDefinition> = Vec::new();
    v.push(definition("Paw", "chief-of-staff", "Paw chief of staff agent", paw_paths));
    v.push(definition("SWE", "developer", "Software developer agent", single_path("os-apps/paw-agent/agents/swe/AGENT.md")));
    v.push(definition("SRE", "sre", "Site reliability engineering agent", single_path("os-apps/paw-agent/agents/sre/AGENT.md")));
    v.push(definition(
        "Probe",
        "probe",
        "Foresight probe agent for projecting product futures",
        single_path("os-apps/paw-agent/agents/probe/AGENT.md"),
    ));
    assert(v@.map_values(|d: AgentDefinition| definition_view(d)) =~= default_agents(p));
    v
}

/// The headers of the administrator's OData requests for `tenant`: the tenant, the admin
/// principal, the content type where there is a body, and the API key as bearer token.
pub open spec fn admin_header_views(
    tenant: Seq<char>,
    api_key: Option<Seq<char>>,
    content_type: Option<Seq<char>>,
) -> Seq<(Seq<char>, Seq<char>)> {
    let base = seq![("x-tenant-id"@, tenant), ("x-temper-principal-kind"@, "admin"@)];
    let with_type = match content_type {
        Some(t) => base.push(("content-type"@, t)),
        None => base,
    };
    match api_key {
        Some(k) => with_type.push(("authorization"@, "Bearer "@ + k)),
        None => with_type,
    }
}

/// The headers of an administrator's OData request.
pub fn admin_headers(tenant: &str, api_key: &Option<String>, content_type: Option<&str>) -> (r: Vec<
    (String, String),
>)
    ensures
        r@.map_values(|p: (String, String)| (p.0@, p.1@)) == admin_header_views(
            tenant@,
            opt_string_view(*api_key),
            opt_str_view(content_type),
        ),
{
    let mut h: Vec<(String, String)> = Vec::new();
    h.push((owned("x-tenant-id"), owned(tenant)));
    h.push((owned("x-temper-principal-kind"), owned("admin")));
    match content_type {
        Some(t) => h.push((owned("content-type"), owned(t))),
        None => {},
    }
    match api_key {
        Some(k) => {
            let mut v = crate::text::chars("Bearer ");
            crate::text::append_str(&mut v, k.as_str());
            h.push((owned("authorization"), crate::text::string_from_chars(&v)));
        },
        None => {},
    }
    assert(h@.map_values(|p: (String, String)| (p.0@, p.1@)) =~= admin_header_views(
        tenant@,
        opt_string_view(*api_key),
        opt_str_view(content_type),
    ));
    h
}

/// The URL that lists the active agents named `name`.
pub fn active_agent_filter_url(api_url: &str, name: &str) -> (r: String)
    ensures
        r@ == api_url@ + "/tdata/Agents?$filter=name eq '"@ + escape_quotes(name@)
            + "' and Status eq 'Active'"@,
{
    let mut v = crate::text::chars(api_url);
    crate::text::append_str(&mut v, "/tdata/Agents?$filter=name eq '");
    let escaped = crate::text::escape_single_quotes(&crate::text::chars(name));
    crate::text::append_chars(&mut v, &escaped);
    crate::text::append_str(&mut v, "' and Status eq 'Active'");
    crate::text::string_from_chars(&v)
}

} // verus!
