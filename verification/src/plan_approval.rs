//! The plan approval handler: when a plan is approved, the session that waits for that
//! approval resumes in execute mode with the tools it had before planning.

use vstd::prelude::*;

use crate::bootstrap::{field2, field_either, or_default};
use crate::entity::EntityRecord;
use crate::text::{owned, str_eq};

verus! {

/// The tools restored when a session stashed none.
pub const PLAN_DEFAULT_TOOLS_ENABLED: &'static str = "temper_create,temper_get,temper_list,temper_action,temper_patch,temper_submit_specs,temper_show_spec,temper_specs,temper_upload_wasm,temper_get_trajectories,temper_get_insights,temper_get_decisions,temper_poll_decision,temper_approve_decision,temper_deny_decision,temper_submit_policy,temper_list_policies,temper_get_policy,temper_update_policy,temper_delete_policy,temper_search_apps,temper_install_app,temper_publish_app,temper_update_app,temper_list_apps,temper_spawn_session,temper_list_sessions,temper_abort_session,temper_steer_session,temper_save_memory,temper_recall_memory,temper_write,temper_write_many,temper_read,temper_run_coding_agent,temper_get_secret,temper_datadog_query,temper_railway,temper_vercel,temper_web_search,temper_web_fetch,read,write,edit,bash";

/// The session of an approved plan, from its fields; empty when it has none.
pub fn plan_session_id(plan_fields: &EntityRecord) -> (r: String)
    ensures
        r@ == or_default(field2(*plan_fields, "session_id"@, "SessionId"@), ""@),
{
    match field_either(plan_fields, "session_id", "SessionId") {
        Some(s) => owned(s),
        None => {
            proof {
                reveal_strlit("");
            }
            owned("")
        },
    }
}

/// What the handler does once it knows the plan's session.
#[derive(Debug, Clone, PartialEq, Eq)]
pub enum PlanApprovalStep {
    /// The plan has no session: nothing to resume.
    SkipNoSession,
    /// The session is not waiting for approval; its status is reported.
    SkipNotWaiting { session_status: String },
    /// The session resumes in execute mode with these tools, its stash cleared.
    Resume { tools_enabled: String },
}

/// The abstract value of a step.
pub enum StepView {
    SkipNoSession,
    SkipNotWaiting(Seq<char>),
    Resume(Seq<char>),
}

pub open spec fn step_view(s: PlanApprovalStep) -> StepView {
    match s {
        PlanApprovalStep::SkipNoSession => StepView::SkipNoSession,
        PlanApprovalStep::SkipNotWaiting { session_status } => StepView::SkipNotWaiting(session_status@),
        PlanApprovalStep::Resume { tools_enabled } => StepView::Resume(tools_enabled@),
    }
}

/// The step for a session in `status` (empty when unknown) that stashed `pre_plan_tools`:
/// only a session waiting for approval resumes, with its stashed tools when there are any,
/// else the default tools.
pub open spec fn approval_step(
    session_id: Seq<char>,
    status: Seq<char>,
    pre_plan_tools: Option<Seq<char>>,
) -> StepView {
    if session_id.len() == 0 {
        StepView::SkipNoSession
    } else if status != "WaitingForApproval"@ {
        StepView::SkipNotWaiting(status)
    } else {
        StepView::Resume(
            match pre_plan_tools {
                Some(t) => if t.len() > 0 {
                    t
                } else {
                    PLAN_DEFAULT_TOOLS_ENABLED@
                },
                None => PLAN_DEFAULT_TOOLS_ENABLED@,
            },
        )
    }
}

/// The handler's decision for the plan's session.
pub fn plan_approval_step(session_id: &str, session_status: Option<&str>, pre_plan_tools: Option<
    &str,
>) -> (r: PlanApprovalStep)
    ensures
        step_view(r) == approval_step(
            session_id@,
            match session_status {
                Some(s) => s@,
                None => ""@,
            },
            match pre_plan_tools {
                Some(t) => Some(t@),
                None => None,
            },
        ),
{
    proof {
        reveal_strlit("");
    }
    if session_id.is_empty() {
        return PlanApprovalStep::SkipNoSession;
    }
    let status = match session_status {
        Some(s) => s,
        None => "",
    };
    if !str_eq(status, "WaitingForApproval") {
        return PlanApprovalStep::SkipNotWaiting { session_status: owned(status) };
    }
    let tools = match pre_plan_tools {
        Some(t) => if t.is_empty() {
            PLAN_DEFAULT_TOOLS_ENABLED
        } else {
            t
        },
        None => PLAN_DEFAULT_TOOLS_ENABLED,
    };
    PlanApprovalStep::Resume { tools_enabled: owned(tools) }
}

/// A session waiting for approval always resumes, and never with an empty tool list: with
/// the tools it stashed before planning where it stashed some, else with exactly
/// `PLAN_DEFAULT_TOOLS_ENABLED`. A session in any other state is skipped with its status
/// reported, and a plan without a session resumes nothing.
pub proof fn law_waiting_session_resumes_with_tools(
    session_id: Seq<char>,
    status: Seq<char>,
    stashed: Option<Seq<char>>,
)
    ensures
        session_id.len() > 0 && status == "WaitingForApproval"@ ==> (approval_step(
            session_id,
            status,
            stashed,
        ) matches StepView::Resume(tools) && tools.len() > 0 && (match stashed {
            Some(t) => t.len() > 0 ==> tools == t,
            None => true,
        }) && (!(stashed matches Some(t) && t.len() > 0) ==> tools
            == PLAN_DEFAULT_TOOLS_ENABLED@)),
        session_id.len() > 0 && status != "WaitingForApproval"@ ==> approval_step(
            session_id,
            status,
            stashed,
        ) == StepView::SkipNotWaiting(status),
        session_id.len() == 0 ==> approval_step(session_id, status, stashed) is SkipNoSession,
{
    reveal_strlit("temper_create,temper_get,temper_list,temper_action,temper_patch,temper_submit_specs,temper_show_spec,temper_specs,temper_upload_wasm,temper_get_trajectories,temper_get_insights,temper_get_decisions,temper_poll_decision,temper_approve_decision,temper_deny_decision,temper_submit_policy,temper_list_policies,temper_get_policy,temper_update_policy,temper_delete_policy,temper_search_apps,temper_install_app,temper_publish_app,temper_update_app,temper_list_apps,temper_spawn_session,temper_list_sessions,temper_abort_session,temper_steer_session,temper_save_memory,temper_recall_memory,temper_write,temper_write_many,temper_read,temper_run_coding_agent,temper_get_secret,temper_datadog_query,temper_railway,temper_vercel,temper_web_search,temper_web_fetch,read,write,edit,bash");
    assert(PLAN_DEFAULT_TOOLS_ENABLED@.len() > 0);
}

} // verus!
