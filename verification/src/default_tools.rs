//! The default tool list, entry by entry, and what holds of its entries.

use vstd::prelude::*;

use crate::agents::{default_tools, has_legacy_tool, is_legacy_tool, DEFAULT_AGENT_TOOLS_ENABLED};
use crate::text::{
    all_clean, clean_token, is_ws, join_seq, lemma_config_list_join, trim_end_seq,
    trim_start_seq,
};

verus! {

/// A list none of whose entries is a legacy name has no legacy tool.
proof fn lemma_legacy_member(s: Seq<Seq<char>>)
    requires
        forall|i: int| 0 <= i < s.len() ==> !is_legacy_tool(#[trigger] s[i]),
    ensures
        !has_legacy_tool(s),
    decreases s.len(),
{
    if s.len() > 0 {
        let t = s.drop_last();
        assert forall|i: int| 0 <= i < t.len() implies !is_legacy_tool(#[trigger] t[i]) by {
            assert(t[i] == s[i]);
        }
        lemma_legacy_member(t);
        assert(s.last() == s[s.len() - 1]);
    }
}

/// The default tools, one entry each.
pub open spec fn default_tool_list() -> Seq<Seq<char>> {
    seq![
        "temper_create"@,
        "temper_get"@,
        "temper_list"@,
        "temper_action"@,
        "temper_patch"@,
        "temper_submit_specs"@,
        "temper_show_spec"@,
        "temper_specs"@,
        "temper_upload_wasm"@,
        "temper_get_trajectories"@,
        "temper_get_insights"@,
        "temper_get_decisions"@,
        "temper_poll_decision"@,
        "temper_approve_decision"@,
        "temper_deny_decision"@,
        "temper_submit_policy"@,
        "temper_list_policies"@,
        "temper_get_policy"@,
        "temper_update_policy"@,
        "temper_delete_policy"@,
        "temper_search_apps"@,
        "temper_install_app"@,
        "temper_publish_app"@,
        "temper_update_app"@,
        "temper_list_apps"@,
        "temper_spawn_session"@,
        "temper_list_sessions"@,
        "temper_abort_session"@,
        "temper_steer_session"@,
        "temper_save_memory"@,
        "temper_recall_memory"@,
        "temper_write"@,
        "temper_write_many"@,
        "temper_read"@,
        "temper_run_coding_agent"@,
        "temper_get_secret"@,
        "temper_datadog_query"@,
        "temper_railway"@,
        "temper_vercel"@,
        "temper_web_search"@,
        "temper_web_fetch"@,
        "temper_image_generate"@,
        "read"@,
        "write"@,
        "edit"@,
        "bash"@
    ]
}

/// Every default tool name is clean.
#[verifier::rlimit(100)]
proof fn lemma_default_tools_clean()
    ensures
        all_clean(default_tool_list()),
{
    reveal_strlit("bash");
    reveal_strlit("edit");
    reveal_strlit("read");
    reveal_strlit("temper_abort_session");
    reveal_strlit("temper_action");
    reveal_strlit("temper_approve_decision");
    reveal_strlit("temper_create");
    reveal_strlit("temper_datadog_query");
    reveal_strlit("temper_delete_policy");
    reveal_strlit("temper_deny_decision");
    reveal_strlit("temper_get");
    reveal_strlit("temper_get_decisions");
    reveal_strlit("temper_get_insights");
    reveal_strlit("temper_get_policy");
    reveal_strlit("temper_get_secret");
    reveal_strlit("temper_get_trajectories");
    reveal_strlit("temper_image_generate");
    reveal_strlit("temper_install_app");
    reveal_strlit("temper_list");
    reveal_strlit("temper_list_apps");
    reveal_strlit("temper_list_policies");
    reveal_strlit("temper_list_sessions");
    reveal_strlit("temper_patch");
    reveal_strlit("temper_poll_decision");
    reveal_strlit("temper_publish_app");
    reveal_strlit("temper_railway");
    reveal_strlit("temper_read");
    reveal_strlit("temper_recall_memory");
    reveal_strlit("temper_run_coding_agent");
    reveal_strlit("temper_save_memory");
    reveal_strlit("temper_search_apps");
    reveal_strlit("temper_show_spec");
    reveal_strlit("temper_spawn_session");
    reveal_strlit("temper_specs");
    reveal_strlit("temper_steer_session");
    reveal_strlit("temper_submit_policy");
    reveal_strlit("temper_submit_specs");
    reveal_strlit("temper_update_app");
    reveal_strlit("temper_update_policy");
    reveal_strlit("temper_upload_wasm");
    reveal_strlit("temper_vercel");
    reveal_strlit("temper_web_fetch");
    reveal_strlit("temper_web_search");
    reveal_strlit("temper_write");
    reveal_strlit("temper_write_many");
    reveal_strlit("write");
    assert forall|i: int| 0 <= i < default_tool_list().len() implies clean_token(
        #[trigger] default_tool_list()[i],
    ) by {
        let t = default_tool_list()[i];
        assert(t.len() > 0);
        assert(!is_ws(t[0]) && !is_ws(t.last()));
        assert(trim_start_seq(t) == t);
        assert(trim_end_seq(t) == t);
        assert(!t.contains(','));
    }
}

/// No default tool name is a legacy name.
#[verifier::rlimit(100)]
proof fn lemma_default_tools_not_legacy()
    ensures
        !has_legacy_tool(default_tool_list()),
{
    reveal_strlit("bash");
    reveal_strlit("edit");
    reveal_strlit("read");
    reveal_strlit("temper_abort_session");
    reveal_strlit("temper_action");
    reveal_strlit("temper_approve_decision");
    reveal_strlit("temper_create");
    reveal_strlit("temper_datadog_query");
    reveal_strlit("temper_delete_policy");
    reveal_strlit("temper_deny_decision");
    reveal_strlit("temper_get");
    reveal_strlit("temper_get_decisions");
    reveal_strlit("temper_get_insights");
    reveal_strlit("temper_get_policy");
    reveal_strlit("temper_get_secret");
    reveal_strlit("temper_get_trajectories");
    reveal_strlit("temper_image_generate");
    reveal_strlit("temper_install_app");
    reveal_strlit("temper_list");
    reveal_strlit("temper_list_apps");
    reveal_strlit("temper_list_policies");
    reveal_strlit("temper_list_sessions");
    reveal_strlit("temper_patch");
    reveal_strlit("temper_poll_decision");
    reveal_strlit("temper_publish_app");
    reveal_strlit("temper_railway");
    reveal_strlit("temper_read");
    reveal_strlit("temper_recall_memory");
    reveal_strlit("temper_run_coding_agent");
    reveal_strlit("temper_save_memory");
    reveal_strlit("temper_search_apps");
    reveal_strlit("temper_show_spec");
    reveal_strlit("temper_spawn_session");
    reveal_strlit("temper_specs");
    reveal_strlit("temper_steer_session");
    reveal_strlit("temper_submit_policy");
    reveal_strlit("temper_submit_specs");
    reveal_strlit("temper_update_app");
    reveal_strlit("temper_update_policy");
    reveal_strlit("temper_upload_wasm");
    reveal_strlit("temper_vercel");
    reveal_strlit("temper_web_fetch");
    reveal_strlit("temper_web_search");
    reveal_strlit("temper_write");
    reveal_strlit("temper_write_many");
    reveal_strlit("write");
    reveal_strlit("read_entity");
    reveal_strlit("recall_memory");
    reveal_strlit("save_memory");
    reveal_strlit("spawn_agent");
    reveal_strlit("spawn_session");
    reveal_strlit("temper_done");
    reveal_strlit("temper_file_upload");
    reveal_strlit("temper_get_agent_id");
    reveal_strlit("temper_switch_provider");
    assert forall|i: int| 0 <= i < default_tool_list().len() implies !is_legacy_tool(
        #[trigger] default_tool_list()[i],
    ) by {
        let t = default_tool_list()[i];
        if i == 0 {
            assert(t.len() == 13);
            assert(t[0] != "recall_memory"@[0]);
            assert(t[0] != "spawn_session"@[0]);
        } else if i == 1 {
            assert(t.len() == 10);
        } else if i == 2 {
            assert(t.len() == 11);
            assert(t[0] != "read_entity"@[0]);
            assert(t[0] != "save_memory"@[0]);
            assert(t[0] != "spawn_agent"@[0]);
            assert(t[7] != "temper_done"@[7]);
        } else if i == 3 {
            assert(t.len() == 13);
            assert(t[0] != "recall_memory"@[0]);
            assert(t[0] != "spawn_session"@[0]);
        } else if i == 4 {
            assert(t.len() == 12);
        } else if i == 5 {
            assert(t.len() == 19);
            assert(t[7] != "temper_get_agent_id"@[7]);
        } else if i == 6 {
            assert(t.len() == 16);
        } else if i == 7 {
            assert(t.len() == 12);
        } else if i == 8 {
            assert(t.len() == 18);
            assert(t[7] != "temper_file_upload"@[7]);
        } else if i == 9 {
            assert(t.len() == 23);
        } else if i == 10 {
            assert(t.len() == 19);
            assert(t[11] != "temper_get_agent_id"@[11]);
        } else if i == 11 {
            assert(t.len() == 20);
        } else if i == 12 {
            assert(t.len() == 20);
        } else if i == 13 {
            assert(t.len() == 23);
        } else if i == 14 {
            assert(t.len() == 20);
        } else if i == 15 {
            assert(t.len() == 20);
        } else if i == 16 {
            assert(t.len() == 20);
        } else if i == 17 {
            assert(t.len() == 17);
        } else if i == 18 {
            assert(t.len() == 20);
        } else if i == 19 {
            assert(t.len() == 20);
        } else if i == 20 {
            assert(t.len() == 18);
            assert(t[7] != "temper_file_upload"@[7]);
        } else if i == 21 {
            assert(t.len() == 18);
            assert(t[7] != "temper_file_upload"@[7]);
        } else if i == 22 {
            assert(t.len() == 18);
            assert(t[7] != "temper_file_upload"@[7]);
        } else if i == 23 {
            assert(t.len() == 17);
        } else if i == 24 {
            assert(t.len() == 16);
        } else if i == 25 {
            assert(t.len() == 20);
        } else if i == 26 {
            assert(t.len() == 20);
        } else if i == 27 {
            assert(t.len() == 20);
        } else if i == 28 {
            assert(t.len() == 20);
        } else if i == 29 {
            assert(t.len() == 18);
            assert(t[7] != "temper_file_upload"@[7]);
        } else if i == 30 {
            assert(t.len() == 20);
        } else if i == 31 {
            assert(t.len() == 12);
        } else if i == 32 {
            assert(t.len() == 17);
        } else if i == 33 {
            assert(t.len() == 11);
            assert(t[0] != "read_entity"@[0]);
            assert(t[0] != "save_memory"@[0]);
            assert(t[0] != "spawn_agent"@[0]);
            assert(t[7] != "temper_done"@[7]);
        } else if i == 34 {
            assert(t.len() == 23);
        } else if i == 35 {
            assert(t.len() == 17);
        } else if i == 36 {
            assert(t.len() == 20);
        } else if i == 37 {
            assert(t.len() == 14);
        } else if i == 38 {
            assert(t.len() == 13);
            assert(t[0] != "recall_memory"@[0]);
            assert(t[0] != "spawn_session"@[0]);
        } else if i == 39 {
            assert(t.len() == 17);
        } else if i == 40 {
            assert(t.len() == 16);
        } else if i == 41 {
            assert(t.len() == 21);
        } else if i == 42 {
            assert(t.len() == 4);
        } else if i == 43 {
            assert(t.len() == 5);
        } else if i == 44 {
            assert(t.len() == 4);
        } else if i == 45 {
            assert(t.len() == 4);
        }
    }
    lemma_legacy_member(default_tool_list());
}

/// The default tool string is its entries joined with commas.
#[verifier::rlimit(100)]
pub(crate) proof fn lemma_default_tools_joined()
    ensures
        DEFAULT_AGENT_TOOLS_ENABLED@ == join_seq(default_tool_list(), ","@),
{
    reveal_strlit("temper_create,temper_get,temper_list,temper_action,temper_patch,temper_submit_specs,temper_show_spec,temper_specs,temper_upload_wasm,temper_get_trajectories,temper_get_insights,temper_get_decisions,temper_poll_decision,temper_approve_decision,temper_deny_decision,temper_submit_policy,temper_list_policies,temper_get_policy,temper_update_policy,temper_delete_policy,temper_search_apps,temper_install_app,temper_publish_app,temper_update_app,temper_list_apps,temper_spawn_session,temper_list_sessions,temper_abort_session,temper_steer_session,temper_save_memory,temper_recall_memory,temper_write,temper_write_many,temper_read,temper_run_coding_agent,temper_get_secret,temper_datadog_query,temper_railway,temper_vercel,temper_web_search,temper_web_fetch,temper_image_generate,read,write,edit,bash");
    reveal_strlit(",");
    reveal_strlit("bash");
    reveal_strlit("edit");
    reveal_strlit("read");
    reveal_strlit("temper_abort_session");
    reveal_strlit("temper_action");
    reveal_strlit("temper_approve_decision");
    reveal_strlit("temper_create");
    reveal_strlit("temper_datadog_query");
    reveal_strlit("temper_delete_policy");
    reveal_strlit("temper_deny_decision");
    reveal_strlit("temper_get");
    reveal_strlit("temper_get_decisions");
    reveal_strlit("temper_get_insights");
    reveal_strlit("temper_get_policy");
    reveal_strlit("temper_get_secret");
    reveal_strlit("temper_get_trajectories");
    reveal_strlit("temper_image_generate");
    reveal_strlit("temper_install_app");
    reveal_strlit("temper_list");
    reveal_strlit("temper_list_apps");
    reveal_strlit("temper_list_policies");
    reveal_strlit("temper_list_sessions");
    reveal_strlit("temper_patch");
    reveal_strlit("temper_poll_decision");
    reveal_strlit("temper_publish_app");
    reveal_strlit("temper_railway");
    reveal_strlit("temper_read");
    reveal_strlit("temper_recall_memory");
    reveal_strlit("temper_run_coding_agent");
    reveal_strlit("temper_save_memory");
    reveal_strlit("temper_search_apps");
    reveal_strlit("temper_show_spec");
    reveal_strlit("temper_spawn_session");
    reveal_strlit("temper_specs");
    reveal_strlit("temper_steer_session");
    reveal_strlit("temper_submit_policy");
    reveal_strlit("temper_submit_specs");
    reveal_strlit("temper_update_app");
    reveal_strlit("temper_update_policy");
    reveal_strlit("temper_upload_wasm");
    reveal_strlit("temper_vercel");
    reveal_strlit("temper_web_fetch");
    reveal_strlit("temper_web_search");
    reveal_strlit("temper_write");
    reveal_strlit("temper_write_many");
    reveal_strlit("write");
    reveal_with_fuel(join_seq, 47);
    assert(DEFAULT_AGENT_TOOLS_ENABLED@ =~= join_seq(default_tool_list(), ","@));
}

/// The default tools, as the configured list reads them: the entries of
/// `default_tool_list`, each clean, none a legacy name.
pub proof fn lemma_default_tools_listed()
    ensures
        default_tools() == default_tool_list(),
        all_clean(default_tools()),
        !has_legacy_tool(default_tools()),
{
    lemma_default_tools_joined();
    lemma_default_tools_clean();
    lemma_default_tools_not_legacy();
    lemma_config_list_join(default_tool_list());
}

} // verus!
