use temperpaw::entity::{EntityRecord, FieldValue};
use temperpaw::plan_approval::{
    plan_approval_step, plan_session_id, PlanApprovalStep, PLAN_DEFAULT_TOOLS_ENABLED,
};
use temperpaw::workspace_fs::{
    children_urls, directory_lookup_url, file_lookup_url, odata_encode, removal_target,
    rename_child_moves, rename_step, runtime_headers, segment_paths, RenameAction, RenameEvent,
    RenameState,
};

#[test]
fn runtime_headers_identify_the_system_agent() {
    let headers = runtime_headers("tenant-a");
    assert_eq!(headers.len(), 5);
    assert_eq!(headers[0], ("Content-Type".to_string(), "application/json".to_string()));
    assert_eq!(headers[1], ("X-Tenant-Id".to_string(), "tenant-a".to_string()));
    assert_eq!(headers[2].1, "agent");
    assert_eq!(headers[3].1, "system");
    assert_eq!(headers[4], ("x-temper-agent-type".to_string(), "system".to_string()));
}

#[test]
fn odata_literals_are_quoted_and_percent_encoded() {
    assert_eq!(odata_encode("it's 100%"), "it''s%20100%25");
    assert_eq!(odata_encode("plain"), "plain");
}

#[test]
fn directory_and_file_lookups_filter_by_workspace() {
    assert_eq!(
        directory_lookup_url("http://api", "ws1", "my dir", None),
        "http://api/tdata/Directories?$filter=Name%20eq%20'my%20dir'%20and%20WorkspaceId%20eq%20'ws1'%20and%20ParentId%20eq%20null"
    );
    assert_eq!(
        directory_lookup_url("http://api", "ws1", "a", Some("p'1")),
        "http://api/tdata/Directories?$filter=Name%20eq%20'a'%20and%20WorkspaceId%20eq%20'ws1'%20and%20ParentId%20eq%20'p''1'"
    );
    assert_eq!(
        file_lookup_url("http://api", "ws1", "/a/b.md"),
        "http://api/tdata/Files?$filter=Path%20eq%20'/a/b.md'%20and%20WorkspaceId%20eq%20'ws1'"
    );
    let (dirs, files) = children_urls("http://api", "ws1", "d1");
    assert_eq!(
        dirs,
        "http://api/tdata/Directories?$filter=ParentId%20eq%20'd1'%20and%20WorkspaceId%20eq%20'ws1'"
    );
    assert_eq!(
        files,
        "http://api/tdata/Files?$filter=DirectoryId%20eq%20'd1'%20and%20WorkspaceId%20eq%20'ws1'"
    );
}

#[test]
fn directory_chain_paths_accumulate_segments() {
    assert_eq!(
        segment_paths(&vec!["a".to_string(), "b".to_string(), "c".to_string()]),
        vec!["/a".to_string(), "/a/b".to_string(), "/a/b/c".to_string()]
    );
    assert!(segment_paths(&Vec::new()).is_empty());
}

#[test]
fn moves_update_child_counts_only_across_directories() {
    assert_eq!(rename_child_moves("d1", "d1"), (None, None));
    assert_eq!(
        rename_child_moves("d1", "d2"),
        (Some("d1".to_string()), Some("d2".to_string()))
    );
    assert_eq!(rename_child_moves("", "d2"), (None, Some("d2".to_string())));
    assert_eq!(removal_target(""), None);
    assert_eq!(removal_target("d1"), Some("d1".to_string()));
}

fn fields(pairs: &[(&str, &str)]) -> EntityRecord {
    EntityRecord {
        top: pairs
            .iter()
            .map(|(k, v)| (k.to_string(), FieldValue::Text(v.to_string())))
            .collect(),
        fields: Vec::new(),
    }
}

#[test]
fn plan_approval_skips_plans_without_session() {
    let session = plan_session_id(&fields(&[("title", "x")]));
    assert_eq!(session, "");
    assert_eq!(
        plan_approval_step(&session, None, None),
        PlanApprovalStep::SkipNoSession
    );
}

#[test]
fn plan_approval_resumes_only_waiting_sessions() {
    let session = plan_session_id(&fields(&[("SessionId", "s-1")]));
    assert_eq!(session, "s-1");
    assert_eq!(
        plan_approval_step(&session, Some("Executing"), Some("bash")),
        PlanApprovalStep::SkipNotWaiting {
            session_status: "Executing".to_string()
        }
    );
    assert_eq!(
        plan_approval_step(&session, None, None),
        PlanApprovalStep::SkipNotWaiting {
            session_status: String::new()
        }
    );
    assert_eq!(
        plan_approval_step(&session, Some("WaitingForApproval"), Some("bash,read")),
        PlanApprovalStep::Resume {
            tools_enabled: "bash,read".to_string()
        }
    );
    assert_eq!(
        plan_approval_step(&session, Some("WaitingForApproval"), Some("")),
        PlanApprovalStep::Resume {
            tools_enabled: PLAN_DEFAULT_TOOLS_ENABLED.to_string()
        }
    );
}

#[test]
fn rename_steps_through_lookup_patch_and_child_moves() {
    let (state, action) = rename_step(RenameState::LookingUp, RenameEvent::FileFound(None), "/a.txt");
    assert!(matches!(state, RenameState::Finished));
    assert!(matches!(action, RenameAction::Fail(ref m) if m == "file not found: /a.txt"));

    let (state, action) = rename_step(
        RenameState::LookingUp,
        RenameEvent::FileFound(Some("f1".to_string())),
        "/a.txt",
    );
    assert!(matches!(action, RenameAction::ResolveDirectories { ref file_id } if file_id == "f1"));
    let (state, action) = rename_step(
        state,
        RenameEvent::DirectoriesResolved { old_dir_id: "d1".to_string(), new_dir_id: "d2".to_string() },
        "/a.txt",
    );
    assert!(matches!(action, RenameAction::PatchFile { ref file_id, ref new_dir_id } if file_id == "f1" && new_dir_id == "d2"));
    let patched = match &state {
        RenameState::Patching { file_id, old_dir_id, new_dir_id } => {
            RenameState::Patching { file_id: file_id.clone(), old_dir_id: old_dir_id.clone(), new_dir_id: new_dir_id.clone() }
        }
        _ => panic!("the PATCH is awaited"),
    };
    let (_, refused) = rename_step(
        patched,
        RenameEvent::PatchAnswered { status: 409, body: "conflict".to_string() },
        "/a.txt",
    );
    assert!(matches!(refused, RenameAction::Fail(ref m) if m == "rename: PATCH failed (HTTP 409): conflict"));
    let (done, finish) = rename_step(
        state,
        RenameEvent::PatchAnswered { status: 200, body: String::new() },
        "/a.txt",
    );
    assert!(matches!(done, RenameState::Finished));
    match finish {
        RenameAction::Finish { file_id, remove_from, add_to } => {
            assert_eq!(file_id, "f1");
            assert_eq!(remove_from.as_deref(), Some("d1"));
            assert_eq!(add_to.as_deref(), Some("d2"));
        }
        _ => panic!("the rename finishes"),
    }
}
