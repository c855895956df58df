//! The workspace filesystem's requests to the OData API: headers, lookup filters, the
//! directory chain of a path, and which directories' child counts a move changes.

use vstd::prelude::*;

use crate::text::{
    append_chars, append_str, chars, decimal, decimal_chars, owned, str_eq, string_from_chars,
    string_views,
};

verus! {

/// The headers of every runtime request made for `tenant`, as the system agent.
pub open spec fn runtime_header_views(tenant: Seq<char>) -> Seq<(Seq<char>, Seq<char>)> {
    seq![
        ("Content-Type"@, "application/json"@),
        ("X-Tenant-Id"@, tenant),
        ("x-temper-principal-kind"@, "agent"@),
        ("x-temper-principal-id"@, "system"@),
        ("x-temper-agent-type"@, "system"@),
    ]
}

/// The views of header pairs.
pub open spec fn header_views(h: Seq<(String, String)>) -> Seq<(Seq<char>, Seq<char>)> {
    h.map_values(|p: (String, String)| (p.0@, p.1@))
}

/// The headers of the runtime requests made for `tenant`.
pub fn runtime_headers(tenant: &str) -> (r: Vec<(String, String)>)
    ensures
        header_views(r@) == runtime_header_views(tenant@),
{
    let mut h: Vec<(String, String)> = Vec::new();
    h.push((owned("Content-Type"), owned("application/json")));
    h.push((owned("X-Tenant-Id"), owned(tenant)));
    h.push((owned("x-temper-principal-kind"), owned("agent")));
    h.push((owned("x-temper-principal-id"), owned("system")));
    h.push((owned("x-temper-agent-type"), owned("system")));
    assert(header_views(h@) =~= runtime_header_views(tenant@));
    h
}

/// The encoding of one character in a filter literal of a URL.
pub open spec fn encode_char(c: char) -> Seq<char> {
    if c == '\'' {
        seq!['\'', '\'']
    } else if c == '%' {
        seq!['%', '2', '5']
    } else if c == ' ' {
        seq!['%', '2', '0']
    } else {
        seq![c]
    }
}

/// A string literal of an OData filter in a URL: `'` doubled, `%` and space
/// percent-encoded.
pub open spec fn odata_encoded(s: Seq<char>) -> Seq<char>
    decreases s.len(),
{
    if s.len() == 0 {
        Seq::empty()
    } else {
        odata_encoded(s.drop_last()) + encode_char(s.last())
    }
}

/// Encodes a filter literal for a URL.
pub fn odata_encode(s: &str) -> (r: String)
    ensures
        r@ == odata_encoded(s@),
{
    let v = chars(s);
    let mut out: Vec<char> = Vec::new();
    let mut i: usize = 0;
    while i < v.len()
        invariant
            i <= v@.len(),
            out@ == odata_encoded(v@.take(i as int)),
        decreases v@.len() - i,
    {
        let ghost before = out@;
        let c = v[i];
        if c == '\'' {
            out.push('\'');
            out.push('\'');
        } else if c == '%' {
            out.push('%');
            out.push('2');
            out.push('5');
        } else if c == ' ' {
            out.push('%');
            out.push('2');
            out.push('0');
        } else {
            out.push(c);
        }
        proof {
            let t = v@.take(i + 1);
            assert(t.drop_last() =~= v@.take(i as int));
            assert(out@ =~= before + encode_char(c));
        }
        i = i + 1;
    }
    assert(v@.take(v@.len() as int) =~= v@);
    string_from_chars(&out)
}

/// The URL that finds the directory `name` of a workspace under `parent` (at the root when
/// there is none).
pub open spec fn directory_url(
    api_url: Seq<char>,
    ws_id: Seq<char>,
    name: Seq<char>,
    parent_id: Option<Seq<char>>,
) -> Seq<char> {
    api_url + "/tdata/Directories?$filter=Name%20eq%20'"@ + odata_encoded(name)
        + "'%20and%20WorkspaceId%20eq%20'"@ + ws_id + "'"@ + match parent_id {
        Some(p) => "%20and%20ParentId%20eq%20'"@ + odata_encoded(p) + "'"@,
        None => "%20and%20ParentId%20eq%20null"@,
    }
}

/// The URL that finds a directory by name, workspace and parent.
pub fn directory_lookup_url(api_url: &str, ws_id: &str, name: &str, parent_id: Option<&str>) -> (r:
    String)
    ensures
        r@ == directory_url(
            api_url@,
            ws_id@,
            name@,
            match parent_id {
                Some(p) => Some(p@),
                None => None,
            },
        ),
{
    let mut v = chars(api_url);
    append_str(&mut v, "/tdata/Directories?$filter=Name%20eq%20'");
    append_str(&mut v, odata_encode(name).as_str());
    append_str(&mut v, "'%20and%20WorkspaceId%20eq%20'");
    append_str(&mut v, ws_id);
    append_str(&mut v, "'");
    match parent_id {
        Some(p) => {
            append_str(&mut v, "%20and%20ParentId%20eq%20'");
            append_str(&mut v, odata_encode(p).as_str());
            append_str(&mut v, "'");
        },
        None => append_str(&mut v, "%20and%20ParentId%20eq%20null"),
    }
    string_from_chars(&v)
}

/// The URL that finds a file by path and workspace.
pub open spec fn file_url(api_url: Seq<char>, ws_id: Seq<char>, path: Seq<char>) -> Seq<char> {
    api_url + "/tdata/Files?$filter=Path%20eq%20'"@ + odata_encoded(path)
        + "'%20and%20WorkspaceId%20eq%20'"@ + ws_id + "'"@
}

/// The URL that finds a file by path and workspace.
pub fn file_lookup_url(api_url: &str, ws_id: &str, file_path: &str) -> (r: String)
    ensures
        r@ == file_url(api_url@, ws_id@, file_path@),
{
    let mut v = chars(api_url);
    append_str(&mut v, "/tdata/Files?$filter=Path%20eq%20'");
    append_str(&mut v, odata_encode(file_path).as_str());
    append_str(&mut v, "'%20and%20WorkspaceId%20eq%20'");
    append_str(&mut v, ws_id);
    append_str(&mut v, "'");
    string_from_chars(&v)
}

/// The URLs that list the child directories and the child files of a directory.
pub fn children_urls(api_url: &str, ws_id: &str, dir_id: &str) -> (r: (String, String))
    ensures
        r.0@ == api_url@ + "/tdata/Directories?$filter=ParentId%20eq%20'"@ + dir_id@
            + "'%20and%20WorkspaceId%20eq%20'"@ + ws_id@ + "'"@,
        r.1@ == api_url@ + "/tdata/Files?$filter=DirectoryId%20eq%20'"@ + dir_id@
            + "'%20and%20WorkspaceId%20eq%20'"@ + ws_id@ + "'"@,
{
    let mut d = chars(api_url);
    append_str(&mut d, "/tdata/Directories?$filter=ParentId%20eq%20'");
    append_str(&mut d, dir_id);
    append_str(&mut d, "'%20and%20WorkspaceId%20eq%20'");
    append_str(&mut d, ws_id);
    append_str(&mut d, "'");
    let mut f = chars(api_url);
    append_str(&mut f, "/tdata/Files?$filter=DirectoryId%20eq%20'");
    append_str(&mut f, dir_id);
    append_str(&mut f, "'%20and%20WorkspaceId%20eq%20'");
    append_str(&mut f, ws_id);
    append_str(&mut f, "'");
    (string_from_chars(&d), string_from_chars(&f))
}

/// The paths of the directories along the segments: `/a`, `/a/b`, and so on.
pub open spec fn segment_path_views(segments: Seq<Seq<char>>) -> Seq<Seq<char>>
    decreases segments.len(),
{
    if segments.len() == 0 {
        Seq::empty()
    } else {
        let init = segment_path_views(segments.drop_last());
        let prev = if init.len() == 0 {
            Seq::<char>::empty()
        } else {
            init.last()
        };
        init.push(prev + "/"@ + segments.last())
    }
}

proof fn lemma_segment_paths_len(segments: Seq<Seq<char>>)
    ensures
        segment_path_views(segments).len() == segments.len(),
    decreases segments.len(),
{
    if segments.len() > 0 {
        lemma_segment_paths_len(segments.drop_last());
    }
}

/// The path of each directory that is walked, or created, to reach the segments.
pub fn segment_paths(segments: &Vec<String>) -> (r: Vec<String>)
    ensures
        string_views(r@) == segment_path_views(string_views(segments@)),
{
    let mut out: Vec<String> = Vec::new();
    let mut current: Vec<char> = Vec::new();
    let mut i: usize = 0;
    while i < segments.len()
        invariant
            i <= segments@.len(),
            string_views(out@) == segment_path_views(string_views(segments@.take(i as int))),
            out@.len() == i,
            i == 0 ==> current@.len() == 0,
            i > 0 ==> current@ == out@[i - 1]@,
        decreases segments@.len() - i,
    {
        let ghost before = string_views(out@);
        append_str(&mut current, "/");
        append_str(&mut current, segments[i].as_str());
        out.push(string_from_chars(&current));
        proof {
            reveal_strlit("/");
            let t = string_views(segments@.take(i + 1));
            assert(t.drop_last() =~= string_views(segments@.take(i as int)));
            assert(t.last() == segments@[i as int]@);
            lemma_segment_paths_len(t.drop_last());
            if i > 0 {
                assert(before.last() == out@[i - 1]@);
            }
            assert(string_views(out@) =~= before.push(out@[i as int]@));
        }
        i = i + 1;
    }
    assert(segments@.take(segments@.len() as int) =~= segments@);
    out
}

/// How a move changes child counts: the old directory loses a child (when it is known) and
/// the new one gains one, only when they differ.
pub fn rename_child_moves(old_dir_id: &str, new_dir_id: &str) -> (r: (Option<String>, Option<
    String,
>))
    ensures
        old_dir_id@ == new_dir_id@ ==> r.0 is None && r.1 is None,
        old_dir_id@ != new_dir_id@ ==> (match r.0 {
            Some(d) => old_dir_id@.len() > 0 && d@ == old_dir_id@,
            None => old_dir_id@.len() == 0,
        }) && (r.1 matches Some(d) && d@ == new_dir_id@),
{
    if str_eq(old_dir_id, new_dir_id) {
        return (None, None);
    }
    let remove = if old_dir_id.is_empty() {
        None
    } else {
        Some(owned(old_dir_id))
    };
    (remove, Some(owned(new_dir_id)))
}

/// The directory that loses a child when a file in it is deleted: its parent, when known.
pub fn removal_target(dir_id: &str) -> (r: Option<String>)
    ensures
        match r {
            Some(d) => dir_id@.len() > 0 && d@ == dir_id@,
            None => dir_id@.len() == 0,
        },
{
    if dir_id.is_empty() {
        None
    } else {
        Some(owned(dir_id))
    }
}

/// Where a rename stands.
pub enum RenameState {
    /// The file at the old path is being looked up.
    LookingUp,
    /// The file was found; its directory and the new parent directory are being resolved.
    Resolving { file_id: String },
    /// The file entity's PATCH was sent.
    Patching { file_id: String, old_dir_id: String, new_dir_id: String },
    /// The rename is over.
    Finished,
}

/// What the outside work of a rename step reports.
pub enum RenameEvent {
    /// The file found at the old path, if any.
    FileFound(Option<String>),
    /// The file's current directory (empty where unknown) and the new parent directory.
    DirectoriesResolved { old_dir_id: String, new_dir_id: String },
    /// The answer to the PATCH.
    PatchAnswered { status: u16, body: String },
}

/// What a rename does next.
pub enum RenameAction {
    /// Read the file's directory and ensure the new parent directory.
    ResolveDirectories { file_id: String },
    /// PATCH the file's name, path and directory, the directory being `new_dir_id`.
    PatchFile { file_id: String, new_dir_id: String },
    /// Update the child counts as given and report the renamed file.
    Finish { file_id: String, remove_from: Option<String>, add_to: Option<String> },
    /// End with this error.
    Fail(String),
}

/// Whether `event` is the report of the work that `state` waits for.
pub open spec fn rename_event_fits(state: RenameState, event: RenameEvent) -> bool {
    match state {
        RenameState::LookingUp => event is FileFound,
        RenameState::Resolving { .. } => event is DirectoriesResolved,
        RenameState::Patching { .. } => event is PatchAnswered,
        RenameState::Finished => false,
    }
}

/// The error of a refused PATCH.
pub open spec fn patch_failure(status: u16, body: Seq<char>) -> Seq<char> {
    "rename: PATCH failed (HTTP "@ + decimal(status as nat) + "): "@ + body
}

/// The child-count moves of a rename from `old_dir` to `new_dir`: none where they are the
/// same; otherwise the old directory, when known, loses a child and the new one gains one.
pub open spec fn child_moves_ok(
    old_dir: Seq<char>,
    new_dir: Seq<char>,
    remove_from: Option<String>,
    add_to: Option<String>,
) -> bool {
    if old_dir == new_dir {
        remove_from is None && add_to is None
    } else {
        &&& match remove_from {
            Some(d) => old_dir.len() > 0 && d@ == old_dir,
            None => old_dir.len() == 0,
        }
        &&& add_to matches Some(d) && d@ == new_dir
    }
}

/// One step of a rename of the file at `old_path`: a missing file fails with `file not
/// found`, a found one has its directories resolved, then is PATCHed to the new directory; a
/// PATCH answered with a status of 400 or more fails with its status and body, otherwise the
/// child counts are moved and the rename finishes.
pub fn rename_step(state: RenameState, event: RenameEvent, old_path: &str) -> (r: (
    RenameState,
    RenameAction,
))
    requires
        rename_event_fits(state, event),
    ensures
        match (state, event) {
            (RenameState::LookingUp, RenameEvent::FileFound(None)) => r.0 is Finished && (r.1 matches RenameAction::Fail(m) && m@ == "file not found: "@ + old_path@),
            (RenameState::LookingUp, RenameEvent::FileFound(Some(id))) => (r.0 matches RenameState::Resolving { file_id } && file_id@ == id@) && (r.1 matches RenameAction::ResolveDirectories { file_id } && file_id@ == id@),
            (RenameState::Resolving { file_id: f }, RenameEvent::DirectoriesResolved { old_dir_id: o, new_dir_id: n }) => (r.0 matches RenameState::Patching { file_id, old_dir_id, new_dir_id } && file_id@ == f@ && old_dir_id@ == o@ && new_dir_id@ == n@) && (r.1 matches RenameAction::PatchFile { file_id, new_dir_id } && file_id@ == f@ && new_dir_id@ == n@),
            (RenameState::Patching { file_id: f, old_dir_id: o, new_dir_id: n }, RenameEvent::PatchAnswered { status, body }) => r.0 is Finished && if status >= 400 {
                r.1 matches RenameAction::Fail(m) && m@ == patch_failure(status, body@)
            } else {
                r.1 matches RenameAction::Finish { file_id, remove_from, add_to } && file_id@ == f@ && child_moves_ok(o@, n@, remove_from, add_to)
            },
            _ => false,
        },
{
    match (state, event) {
        (RenameState::LookingUp, RenameEvent::FileFound(None)) => {
            let mut m = chars("file not found: ");
            append_str(&mut m, old_path);
            (RenameState::Finished, RenameAction::Fail(string_from_chars(&m)))
        },
        (RenameState::LookingUp, RenameEvent::FileFound(Some(id))) => {
            let file_id = id.clone();
            (RenameState::Resolving { file_id: id }, RenameAction::ResolveDirectories { file_id })
        },
        (RenameState::Resolving { file_id }, RenameEvent::DirectoriesResolved { old_dir_id, new_dir_id }) => {
            let action = RenameAction::PatchFile { file_id: file_id.clone(), new_dir_id: new_dir_id.clone() };
            (RenameState::Patching { file_id, old_dir_id, new_dir_id }, action)
        },
        (RenameState::Patching { file_id, old_dir_id, new_dir_id }, RenameEvent::PatchAnswered { status, body }) => {
            if status >= 400 {
                let mut m = chars("rename: PATCH failed (HTTP ");
                append_chars(&mut m, &decimal_chars(status as u64));
                append_str(&mut m, "): ");
                append_str(&mut m, body.as_str());
                (RenameState::Finished, RenameAction::Fail(string_from_chars(&m)))
            } else {
                let (remove_from, add_to) = rename_child_moves(old_dir_id.as_str(), new_dir_id.as_str());
                (RenameState::Finished, RenameAction::Finish { file_id, remove_from, add_to })
            }
        },
        _ => (RenameState::Finished, RenameAction::Fail(String::new())),
    }
}

} // verus!
