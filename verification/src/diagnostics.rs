//! How the application resolved its branch and data directory, for the
//! Settings / Diagnostics page: why a wrong branch may have been picked
//! (executable and working directory disagree, `.p4config` missing, or the
//! `p4` client mapping another directory).
use vstd::prelude::*;
use crate::command::CommandOutput;
use crate::stream::{extract_info_field, info_field};
use crate::text::{chars_of, lines, lowercase, string_of, to_lowercase, trim, trim_exec};
use crate::workspace::{
    first_data_dir, first_p4config, first_schema, find_data_dir_from, find_p4config_root,
    find_schema_root, AncestorProbe,
};

verus! {

/// One place the application could have started from.
pub struct Candidate {
    /// `exe_dir` or `cwd`.
    pub source: String,
    pub path: Option<String>,
    pub p4config_ancestor: Option<String>,
    pub schema_ancestor: Option<String>,
    pub deploy_ancestor: Option<String>,
}

/// What the diagnostics page shows.
pub struct Diagnostics {
    pub app_version: String,
    pub os: String,
    pub exe_path: Option<String>,
    pub cwd: Option<String>,
    pub p4_version: String,
    pub p4_info: String,
    pub p4_client_name: Option<String>,
    pub p4_client_root: Option<String>,
    pub p4_client_stream: Option<String>,
    pub chosen_project_root: Option<String>,
    pub chosen_data_dir: Option<String>,
    /// The chosen project root and the active client's root contain one
    /// another. When false, the default client does not map the branch the
    /// application runs from, and `p4` works on another directory than the
    /// one the UI edits; consumers then force the workspace prompt.
    pub client_matches_exe: bool,
    pub candidates: Vec<Candidate>,
}

/// A start path and what its ancestors show (`candidate` of the
/// diagnostics): its `.p4config`, `MetaData/Schema` and data directory
/// ancestors; all absent when there is no path.
pub fn candidate(source: &str, path: Option<String>, ancestors: &Vec<AncestorProbe>) -> (r:
    Candidate)
    ensures
        r.source@ == source@,
        r.path.deep_view() == path.deep_view(),
        path is None ==> r.p4config_ancestor is None && r.schema_ancestor is None
            && r.deploy_ancestor is None,
        path is Some ==> r.p4config_ancestor.deep_view() == first_p4config(ancestors@)
            && r.schema_ancestor.deep_view() == first_schema(ancestors@)
            && r.deploy_ancestor.deep_view() == first_data_dir(ancestors@),
{
    let src = source.to_owned();
    match path {
        None => Candidate {
            source: src,
            path: None,
            p4config_ancestor: None,
            schema_ancestor: None,
            deploy_ancestor: None,
        },
        Some(p) => Candidate {
            source: src,
            path: Some(p),
            p4config_ancestor: find_p4config_root(ancestors),
            schema_ancestor: find_schema_root(ancestors),
            deploy_ancestor: find_data_dir_from(ancestors),
        },
    }
}

/// Two path components name the same directory: equal, or equal once
/// lower-cased where paths are case-insensitive (Windows).
pub open spec fn component_eq(a: Seq<char>, b: Seq<char>, fold_case: bool) -> bool {
    if fold_case {
        lowercase(a) == lowercase(b)
    } else {
        a == b
    }
}

/// `ancestor` is `descendant` or one of its ancestors, component by
/// component (so `C:\Perforce\foo` is no prefix of `C:\Perforce\foo_other`).
pub open spec fn is_component_prefix(
    ancestor: Seq<Seq<char>>,
    descendant: Seq<Seq<char>>,
    fold_case: bool,
) -> bool {
    ancestor.len() <= descendant.len() && forall|i: int|
        0 <= i < ancestor.len() ==> component_eq(#[trigger] ancestor[i], descendant[i], fold_case)
}

fn component_eq_exec(a: &String, b: &String, fold_case: bool) -> (r: bool)
    ensures
        r == component_eq(a@, b@, fold_case),
{
    if fold_case {
        let la = to_lowercase(a.as_str());
        let lb = to_lowercase(b.as_str());
        la.eq(&lb)
    } else {
        a.eq(b)
    }
}

/// Component-wise prefix test of two paths given as their components;
/// `fold_case` compares them case-insensitively (as on Windows).
pub fn is_path_prefix(ancestor: &Vec<String>, descendant: &Vec<String>, fold_case: bool) -> (r:
    bool)
    ensures
        r == is_component_prefix(ancestor.deep_view(), descendant.deep_view(), fold_case),
{
    if ancestor.len() > descendant.len() {
        return false;
    }
    let mut i: usize = 0;
    while i < ancestor.len()
        invariant
            i <= ancestor.len() <= descendant.len(),
            forall|k: int|
                0 <= k < i ==> component_eq(
                    #[trigger] ancestor.deep_view()[k],
                    descendant.deep_view()[k],
                    fold_case,
                ),
        decreases ancestor.len() - i,
    {
        if !component_eq_exec(&ancestor[i], &descendant[i], fold_case) {
            assert(!component_eq(ancestor.deep_view()[i as int], descendant.deep_view()[i as int], fold_case));
            return false;
        }
        i += 1;
    }
    true
}

/// The project root and the client root are the same workspace when either
/// contains the other; unknown roots never match.
pub open spec fn roots_match(
    project: Option<Seq<Seq<char>>>,
    root: Option<Seq<Seq<char>>>,
    fold_case: bool,
) -> bool {
    match (project, root) {
        (Some(p), Some(r)) => is_component_prefix(r, p, fold_case) || is_component_prefix(
            p,
            r,
            fold_case,
        ),
        _ => false,
    }
}

/// Whether the chosen project root sits inside the active client's root,
/// or the other way round (see `roots_match`); both are given as path
/// components.
pub fn client_matches_exe(
    project: &Option<Vec<String>>,
    root: &Option<Vec<String>>,
    fold_case: bool,
) -> (r: bool)
    ensures
        r == roots_match(project.deep_view(), root.deep_view(), fold_case),
{
    match (project, root) {
        (Some(p), Some(r)) => is_path_prefix(r, p, fold_case) || is_path_prefix(p, r, fold_case),
        _ => false,
    }
}

/// The name of `std::path::Path::components` of a path: its components
/// (root, prefix, normal names, `..`) each as text, as the platform the
/// library is built for splits paths.
pub uninterp spec fn path_components(p: Seq<char>) -> Seq<Seq<char>>;

/// The components of a path, if there is one.
pub open spec fn components_of(p: Option<Seq<char>>) -> Option<Seq<Seq<char>>> {
    match p {
        Some(p) => Some(path_components(p)),
        None => None,
    }
}

/// `std::path::Path::components` of `p`, each component as a `String`;
/// named `path_components`.
#[verifier::external_body]
fn split_path(p: &str) -> (r: Vec<String>)
    ensures
        r.deep_view() == path_components(p@),
{
    std::path::Path::new(p).components().map(|c| c.as_os_str().to_string_lossy().into_owned()).collect()
}

fn optional_components(p: &Option<String>) -> (r: Option<Vec<String>>)
    ensures
        r.deep_view() == components_of(p.deep_view()),
{
    match p {
        Some(p) => Some(split_path(p.as_str())),
        None => None,
    }
}

/// Which of the two roots contains the other does not matter.
pub proof fn lemma_roots_match_symmetric(
    project: Option<Seq<Seq<char>>>,
    root: Option<Seq<Seq<char>>>,
    fold_case: bool,
)
    ensures
        roots_match(project, root, fold_case) == roots_match(root, project, fold_case),
{
}

/// Every path is a component prefix of itself.
pub proof fn lemma_component_prefix_reflexive(p: Seq<Seq<char>>, fold_case: bool)
    ensures
        is_component_prefix(p, p, fold_case),
{
}

/// The `p4 -V` text shown: standard output of a successful run, else
/// `(p4 unavailable)`.
pub open spec fn version_text(out: Result<CommandOutput, String>) -> Seq<char> {
    match out {
        Ok(o) => if o.success {
            o.stdout_lossy()
        } else {
            "(p4 unavailable)"@
        },
        Err(_) => "(p4 unavailable)"@,
    }
}

/// The `p4 info` text shown: standard output, or standard error when the
/// output is blank; `(p4 unavailable)` when `p4` could not start.
pub open spec fn info_text(out: Result<CommandOutput, String>) -> Seq<char> {
    match out {
        Ok(o) => if trim(o.stdout_lossy()).len() == 0 {
            o.stderr_text()
        } else {
            o.stdout_lossy()
        },
        Err(_) => "(p4 unavailable)"@,
    }
}

/// `version_text` of the outcome of `p4 -V`.
pub fn p4_version_text(out: &Result<CommandOutput, String>) -> (r: String)
    ensures
        r@ == version_text(*out),
{
    match out {
        Ok(o) => if o.success {
            o.stdout_lossy_string()
        } else {
            "(p4 unavailable)".to_owned()
        },
        Err(_) => "(p4 unavailable)".to_owned(),
    }
}

/// `info_text` of the outcome of `p4 info`.
pub fn p4_info_text(out: &Result<CommandOutput, String>) -> (r: String)
    ensures
        r@ == info_text(*out),
{
    match out {
        Ok(o) => {
            let s = o.stdout_lossy_string();
            let t = trim_exec(chars_of(s.as_str()).as_slice());
            if t.len() == 0 {
                o.stderr_string()
            } else {
                s
            }
        },
        Err(_) => "(p4 unavailable)".to_owned(),
    }
}

fn trimmed(s: &String) -> (r: String)
    ensures
        r@ == trim(s@),
{
    string_of(trim_exec(chars_of(s.as_str()).as_slice()).as_slice())
}

/// Puts the diagnostics together: the version and info texts trimmed, the
/// client name, root and stream read from the info text, and whether the
/// chosen project root and that client root contain one another
/// (`roots_match` of their path components; `fold_case` where paths are
/// case-insensitive).
pub fn diagnostics(
    app_version: &str,
    os: String,
    exe_path: Option<String>,
    cwd: Option<String>,
    p4_version: &String,
    p4_info: &String,
    chosen_project_root: Option<String>,
    chosen_data_dir: Option<String>,
    fold_case: bool,
    candidates: Vec<Candidate>,
) -> (r: Diagnostics)
    ensures
        r.app_version@ == app_version@,
        r.os@ == os@,
        r.exe_path.deep_view() == exe_path.deep_view(),
        r.cwd.deep_view() == cwd.deep_view(),
        r.p4_version@ == trim(p4_version@),
        r.p4_info@ == trim(p4_info@),
        r.p4_client_name.deep_view() == info_field(lines(p4_info@), "Client name:"@),
        r.p4_client_root.deep_view() == info_field(lines(p4_info@), "Client root:"@),
        r.p4_client_stream.deep_view() == info_field(lines(p4_info@), "Client stream:"@),
        r.chosen_project_root.deep_view() == chosen_project_root.deep_view(),
        r.chosen_data_dir.deep_view() == chosen_data_dir.deep_view(),
        r.client_matches_exe == roots_match(
            components_of(chosen_project_root.deep_view()),
            components_of(info_field(lines(p4_info@), "Client root:"@)),
            fold_case,
        ),
        r.candidates@ == candidates@,
{
    let client_root = extract_info_field(p4_info.as_str(), "Client root:");
    let project_parts = optional_components(&chosen_project_root);
    let root_parts = optional_components(&client_root);
    let matches = client_matches_exe(&project_parts, &root_parts, fold_case);
    Diagnostics {
        app_version: app_version.to_owned(),
        os,
        exe_path,
        cwd,
        p4_version: trimmed(p4_version),
        p4_info: trimmed(p4_info),
        p4_client_name: extract_info_field(p4_info.as_str(), "Client name:"),
        p4_client_root: client_root,
        p4_client_stream: extract_info_field(p4_info.as_str(), "Client stream:"),
        chosen_project_root,
        chosen_data_dir,
        client_matches_exe: matches,
        candidates,
    }
}

} // verus!
