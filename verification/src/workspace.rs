//! Which branch workspace the application runs under: the decisions over
//! the ancestors of a directory and what each of them holds.
use vstd::prelude::*;
use crate::command::CommandOutput;
use crate::text::{chars_of, lines, lines_exec, string_of, strip_prefix, strip_prefix_exec, trim, trim_exec};

verus! {

/// What the file system shows of one ancestor directory of a start path
/// (the start itself first, then each parent up to the root).
pub struct AncestorProbe {
    /// The ancestor.
    pub path: String,
    /// `<path>/.p4config` is a file (the per-branch marker).
    pub has_p4config: bool,
    /// `<path>/MetaData/Schema` is a directory.
    pub has_schema: bool,
    /// `<path>/Deploy/GeneratedData_Server`.
    pub deploy_dir: String,
    /// `deploy_dir` is a directory holding `UE/Level`.
    pub deploy_valid: bool,
    /// `<path>/GeneratedData_Server`.
    pub direct_dir: String,
    /// `direct_dir` is a directory holding `UE/Level`.
    pub direct_valid: bool,
}

/// The path of the first ancestor with a `.p4config`.
pub open spec fn first_p4config(ps: Seq<AncestorProbe>) -> Option<Seq<char>>
    decreases ps.len(),
{
    if ps.len() == 0 {
        None
    } else if ps[0].has_p4config {
        Some(ps[0].path@)
    } else {
        first_p4config(ps.drop_first())
    }
}

/// The path of the first ancestor with `MetaData/Schema`.
pub open spec fn first_schema(ps: Seq<AncestorProbe>) -> Option<Seq<char>>
    decreases ps.len(),
{
    if ps.len() == 0 {
        None
    } else if ps[0].has_schema {
        Some(ps[0].path@)
    } else {
        first_schema(ps.drop_first())
    }
}

/// The branch root: the nearest `.p4config` ancestor, else the nearest
/// `MetaData/Schema` ancestor.
pub open spec fn branch_root(ps: Seq<AncestorProbe>) -> Option<Seq<char>> {
    match first_p4config(ps) {
        Some(p) => Some(p),
        None => first_schema(ps),
    }
}

/// The data directory of the nearest ancestor that has one:
/// `Deploy/GeneratedData_Server` before `GeneratedData_Server`.
pub open spec fn first_data_dir(ps: Seq<AncestorProbe>) -> Option<Seq<char>>
    decreases ps.len(),
{
    if ps.len() == 0 {
        None
    } else if ps[0].deploy_valid {
        Some(ps[0].deploy_dir@)
    } else if ps[0].direct_valid {
        Some(ps[0].direct_dir@)
    } else {
        first_data_dir(ps.drop_first())
    }
}

/// The root of the branch workspace that holds the start path: the nearest
/// ancestor (the start included) with a `.p4config` file.
pub fn find_p4config_root(ancestors: &Vec<AncestorProbe>) -> (r: Option<String>)
    ensures
        r.deep_view() == first_p4config(ancestors@),
{
    let mut i: usize = 0;
    assert(ancestors@.subrange(0, ancestors.len() as int) =~= ancestors@);
    while i < ancestors.len()
        invariant
            i <= ancestors.len(),
            first_p4config(ancestors@) == first_p4config(
                ancestors@.subrange(i as int, ancestors.len() as int),
            ),
        decreases ancestors.len() - i,
    {
        assert(ancestors@.subrange(i as int, ancestors.len() as int).drop_first()
            =~= ancestors@.subrange(i + 1, ancestors.len() as int));
        if ancestors[i].has_p4config {
            return Some(ancestors[i].path.clone());
        }
        i += 1;
    }
    None
}

/// The nearest ancestor with `MetaData/Schema`.
pub fn find_schema_root(ancestors: &Vec<AncestorProbe>) -> (r: Option<String>)
    ensures
        r.deep_view() == first_schema(ancestors@),
{
    let mut i: usize = 0;
    assert(ancestors@.subrange(0, ancestors.len() as int) =~= ancestors@);
    while i < ancestors.len()
        invariant
            i <= ancestors.len(),
            first_schema(ancestors@) == first_schema(
                ancestors@.subrange(i as int, ancestors.len() as int),
            ),
        decreases ancestors.len() - i,
    {
        assert(ancestors@.subrange(i as int, ancestors.len() as int).drop_first()
            =~= ancestors@.subrange(i + 1, ancestors.len() as int));
        if ancestors[i].has_schema {
            return Some(ancestors[i].path.clone());
        }
        i += 1;
    }
    None
}

/// The nearest branch root above a start path: the `.p4config` ancestor
/// (the authoritative per-branch marker) when there is one, else the
/// nearest `MetaData/Schema` ancestor.
pub fn find_branch_root(ancestors: &Vec<AncestorProbe>) -> (r: Option<String>)
    ensures
        r.deep_view() == branch_root(ancestors@),
{
    match find_p4config_root(ancestors) {
        Some(p) => Some(p),
        None => find_schema_root(ancestors),
    }
}

/// The data directory (`Deploy/GeneratedData_Server`, else
/// `GeneratedData_Server`, each holding `UE/Level`) of the nearest ancestor
/// that has one.
pub fn find_data_dir_from(ancestors: &Vec<AncestorProbe>) -> (r: Option<String>)
    ensures
        r.deep_view() == first_data_dir(ancestors@),
{
    let mut i: usize = 0;
    assert(ancestors@.subrange(0, ancestors.len() as int) =~= ancestors@);
    while i < ancestors.len()
        invariant
            i <= ancestors.len(),
            first_data_dir(ancestors@) == first_data_dir(
                ancestors@.subrange(i as int, ancestors.len() as int),
            ),
        decreases ancestors.len() - i,
    {
        assert(ancestors@.subrange(i as int, ancestors.len() as int).drop_first()
            =~= ancestors@.subrange(i + 1, ancestors.len() as int));
        if ancestors[i].deploy_valid {
            return Some(ancestors[i].deploy_dir.clone());
        }
        if ancestors[i].direct_valid {
            return Some(ancestors[i].direct_dir.clone());
        }
        i += 1;
    }
    None
}

/// The project root of a data directory: its branch root; else `fallback`
/// (the data directory's grandparent) when it holds `MetaData`; else the
/// Perforce root; else `fallback`.
pub open spec fn project_root(
    ps: Seq<AncestorProbe>,
    fallback: Seq<char>,
    fallback_has_metadata: bool,
    p4_root: Option<Seq<char>>,
) -> Seq<char> {
    match branch_root(ps) {
        Some(r) => r,
        None => if fallback_has_metadata {
            fallback
        } else {
            match p4_root {
                Some(r) => r,
                None => fallback,
            }
        },
    }
}

/// Whether `get_project_root` needs the Perforce root: only when neither
/// the branch markers nor the fallback decide.
pub fn project_root_needs_p4_root(ancestors: &Vec<AncestorProbe>, fallback_has_metadata: bool) -> (r:
    bool)
    ensures
        r == (branch_root(ancestors@) is None && !fallback_has_metadata),
{
    find_branch_root(ancestors).is_none() && !fallback_has_metadata
}

/// The project root of a data directory (`ancestors` are those of the data
/// directory). In order: the `.p4config` ancestor, the `MetaData/Schema`
/// ancestor, the grandparent `fallback` when it holds `MetaData`, the
/// Perforce root (which may belong to another branch), and `fallback`.
pub fn get_project_root(
    ancestors: &Vec<AncestorProbe>,
    fallback: &String,
    fallback_has_metadata: bool,
    p4_root: Option<String>,
) -> (r: String)
    ensures
        r@ == project_root(ancestors@, fallback@, fallback_has_metadata, p4_root.deep_view()),
{
    match find_branch_root(ancestors) {
        Some(r) => r,
        None => if fallback_has_metadata {
            fallback.clone()
        } else {
            match p4_root {
                Some(r) => r,
                None => fallback.clone(),
            }
        },
    }
}

/// The paths after `Client root: ` in `p4 info` output, trimmed, in order.
pub open spec fn client_roots(ls: Seq<Seq<char>>) -> Seq<Seq<char>>
    decreases ls.len(),
{
    if ls.len() == 0 {
        Seq::empty()
    } else {
        let before = client_roots(ls.drop_last());
        match strip_prefix(ls.last(), "Client root: "@) {
            Some(v) => before.push(trim(v)),
            None => before,
        }
    }
}

/// The client roots that `p4 info` output names (see `client_roots`).
pub fn client_root_candidates(info_text: &str) -> (r: Vec<String>)
    ensures
        r.deep_view() == client_roots(lines(info_text@)),
{
    let ls = lines_exec(chars_of(info_text).as_slice());
    let p = chars_of("Client root: ");
    let mut out: Vec<String> = Vec::new();
    let mut i: usize = 0;
    assert(ls.deep_view().take(0) =~= Seq::<Seq<char>>::empty());
    assert(out.deep_view() =~= Seq::<Seq<char>>::empty());
    while i < ls.len()
        invariant
            i <= ls.len(),
            ls.deep_view() == lines(info_text@),
            p@ == "Client root: "@,
            out.deep_view() == client_roots(ls.deep_view().take(i as int)),
        decreases ls.len() - i,
    {
        proof {
            assert(ls.deep_view().take(i + 1).drop_last() =~= ls.deep_view().take(i as int));
            crate::text::lemma_deep_index(ls, i as int);
        }
        match strip_prefix_exec(ls[i].as_slice(), p.as_slice()) {
            Some(v) => {
                let t = string_of(trim_exec(v.as_slice()).as_slice());
                let ghost before = out.deep_view();
                let ghost tv = t@;
                out.push(t);
                assert(out.deep_view() =~= before.push(tv));
            },
            None => {},
        }
        i += 1;
    }
    assert(ls.deep_view().take(ls.len() as int) =~= ls.deep_view());
    out
}

/// The client roots named by the outcome of `p4 info` (run without the
/// override), read from its lossily decoded output when it succeeded;
/// none otherwise.
pub fn info_client_roots(out: &Result<CommandOutput, String>) -> (r: Vec<String>)
    ensures
        match *out {
            Ok(o) => if o.success {
                r.deep_view() == client_roots(lines(o.stdout_lossy()))
            } else {
                r@.len() == 0
            },
            Err(_) => r@.len() == 0,
        },
{
    match out {
        Ok(o) => if o.success {
            client_root_candidates(o.stdout_lossy_string().as_str())
        } else {
            Vec::new()
        },
        Err(_) => Vec::new(),
    }
}

/// The first of `roots` that is an existing directory.
pub open spec fn first_existing(roots: Seq<(Seq<char>, bool)>) -> Option<Seq<char>>
    decreases roots.len(),
{
    if roots.len() == 0 {
        None
    } else if roots[0].1 {
        Some(roots[0].0)
    } else {
        first_existing(roots.drop_first())
    }
}

/// The Perforce workspace root: the `.p4config` ancestor of the
/// executable's directory, else that of the working directory, else the
/// first `Client root:` of `p4 info` that is a directory (which may be
/// another branch when several share one client).
pub open spec fn p4_root(
    exe: Seq<AncestorProbe>,
    cwd: Seq<AncestorProbe>,
    info_roots: Seq<(Seq<char>, bool)>,
) -> Option<Seq<char>> {
    match first_p4config(exe) {
        Some(r) => Some(r),
        None => match first_p4config(cwd) {
            Some(r) => Some(r),
            None => first_existing(info_roots),
        },
    }
}

/// Whether `get_p4_root` needs `p4 info`.
pub fn p4_root_needs_info(exe: &Vec<AncestorProbe>, cwd: &Vec<AncestorProbe>) -> (r: bool)
    ensures
        r == (first_p4config(exe@) is None && first_p4config(cwd@) is None),
{
    find_p4config_root(exe).is_none() && find_p4config_root(cwd).is_none()
}

/// The Perforce workspace root (see `p4_root`). `info_roots` are the client
/// roots of `p4 info`, each with whether it is an existing directory.
pub fn get_p4_root(
    exe: &Vec<AncestorProbe>,
    cwd: &Vec<AncestorProbe>,
    info_roots: &Vec<(String, bool)>,
) -> (r: Option<String>)
    ensures
        r.deep_view() == p4_root(exe@, cwd@, info_roots.deep_view()),
{
    if let Some(r) = find_p4config_root(exe) {
        return Some(r);
    }
    if let Some(r) = find_p4config_root(cwd) {
        return Some(r);
    }
    let mut i: usize = 0;
    assert(info_roots.deep_view().subrange(0, info_roots.len() as int) =~= info_roots.deep_view());
    while i < info_roots.len()
        invariant
            i <= info_roots.len(),
            first_p4config(exe@) is None,
            first_p4config(cwd@) is None,
            first_existing(info_roots.deep_view()) == first_existing(
                info_roots.deep_view().subrange(i as int, info_roots.len() as int),
            ),
        decreases info_roots.len() - i,
    {
        let ghost sub = info_roots.deep_view().subrange(i as int, info_roots.len() as int);
        assert(sub.drop_first() =~= info_roots.deep_view().subrange(i + 1, info_roots.len() as int));
        assert(sub[0] == info_roots.deep_view()[i as int]);
        if info_roots[i].1 {
            return Some(info_roots[i].0.clone());
        }
        i += 1;
    }
    None
}

/// The data directory of the running branch: found from the executable's
/// directory first (stable across shortcuts and launchers), then from the
/// working directory, then under the Perforce root.
pub open spec fn data_dir(
    exe: Seq<AncestorProbe>,
    cwd: Seq<AncestorProbe>,
    root: Option<AncestorProbe>,
) -> Option<Seq<char>> {
    match first_data_dir(exe) {
        Some(d) => Some(d),
        None => match first_data_dir(cwd) {
            Some(d) => Some(d),
            None => match root {
                Some(p) => first_data_dir(seq![p]),
                None => None,
            },
        },
    }
}

/// Whether `detect_data_dir` needs the Perforce root.
pub fn data_dir_needs_p4_root(exe: &Vec<AncestorProbe>, cwd: &Vec<AncestorProbe>) -> (r: bool)
    ensures
        r == (first_data_dir(exe@) is None && first_data_dir(cwd@) is None),
{
    find_data_dir_from(exe).is_none() && find_data_dir_from(cwd).is_none()
}

/// Locates the active branch's data directory (see `data_dir`); `root` is
/// what the file system shows of the Perforce root, when there is one.
pub fn detect_data_dir(
    exe: &Vec<AncestorProbe>,
    cwd: &Vec<AncestorProbe>,
    root: &Option<AncestorProbe>,
) -> (r: Option<String>)
    ensures
        r.deep_view() == data_dir(exe@, cwd@, *root),
{
    if let Some(d) = find_data_dir_from(exe) {
        return Some(d);
    }
    if let Some(d) = find_data_dir_from(cwd) {
        return Some(d);
    }
    match root {
        Some(p) => {
            let ghost one = seq![*p];
            assert(one[0] == *p);
            assert(one.drop_first() =~= Seq::<AncestorProbe>::empty());
            assert(first_data_dir(one.drop_first()) is None);
            assert(first_data_dir(one) == (if p.deploy_valid {
                Some(p.deploy_dir@)
            } else if p.direct_valid {
                Some(p.direct_dir@)
            } else {
                None
            }));
            if p.deploy_valid {
                Some(p.deploy_dir.clone())
            } else if p.direct_valid {
                Some(p.direct_dir.clone())
            } else {
                None
            }
        },
        None => None,
    }
}

/// The branch root prefers `.p4config` over `MetaData/Schema`: whenever an
/// ancestor has a `.p4config`, the branch root is the `.p4config` root,
/// however near a `MetaData/Schema` ancestor is.
pub proof fn lemma_branch_root_prefers_p4config(ps: Seq<AncestorProbe>)
    requires
        exists|i: int| 0 <= i < ps.len() && #[trigger] ps[i].has_p4config,
    ensures
        branch_root(ps) == first_p4config(ps),
        first_p4config(ps) is Some,
    decreases ps.len(),
{
    if !ps[0].has_p4config {
        let i = choose|i: int| 0 <= i < ps.len() && #[trigger] ps[i].has_p4config;
        assert(ps.drop_first()[i - 1].has_p4config);
        lemma_branch_root_prefers_p4config(ps.drop_first());
    }
}

/// The nearest ancestor with a `.p4config` is the one `first_p4config`
/// gives; with none, there is none.
proof fn lemma_first_p4config_at(ps: Seq<AncestorProbe>, i: int)
    requires
        0 <= i <= ps.len(),
        i < ps.len() ==> ps[i].has_p4config,
        forall|k: int| 0 <= k < i ==> !#[trigger] ps[k].has_p4config,
    ensures
        first_p4config(ps) == if i < ps.len() {
            Some(ps[i].path@)
        } else {
            None::<Seq<char>>
        },
    decreases ps.len(),
{
    if ps.len() > 0 && i > 0 {
        assert(!ps[0].has_p4config);
        let rest = ps.drop_first();
        assert forall|k: int| 0 <= k < i - 1 implies !#[trigger] rest[k].has_p4config by {
            assert(rest[k] == ps[k + 1]);
        }
        if i < ps.len() {
            assert(rest[i - 1] == ps[i]);
        }
        lemma_first_p4config_at(rest, i - 1);
    }
}

/// A probe that holds a data directory.
pub open spec fn holds_data_dir(p: AncestorProbe) -> bool {
    p.deploy_valid || p.direct_valid
}

/// The data directory a probe holds: `Deploy/GeneratedData_Server` when
/// valid, else `GeneratedData_Server`.
pub open spec fn probe_data_dir(p: AncestorProbe) -> Seq<char> {
    if p.deploy_valid {
        p.deploy_dir@
    } else {
        p.direct_dir@
    }
}

proof fn lemma_first_data_dir_at(ps: Seq<AncestorProbe>, i: int)
    requires
        0 <= i <= ps.len(),
        i < ps.len() ==> holds_data_dir(ps[i]),
        forall|k: int| 0 <= k < i ==> !#[trigger] holds_data_dir(ps[k]),
    ensures
        first_data_dir(ps) == if i < ps.len() {
            Some(probe_data_dir(ps[i]))
        } else {
            None::<Seq<char>>
        },
    decreases ps.len(),
{
    if ps.len() > 0 && i > 0 {
        assert(!holds_data_dir(ps[0]));
        let rest = ps.drop_first();
        assert forall|k: int| 0 <= k < i - 1 implies !#[trigger] holds_data_dir(rest[k]) by {
            assert(rest[k] == ps[k + 1]);
        }
        if i < ps.len() {
            assert(rest[i - 1] == ps[i]);
        }
        lemma_first_data_dir_at(rest, i - 1);
    }
}

/// The executable's branch wins: when an ancestor of the executable's
/// directory has a `.p4config`, the Perforce root is the nearest such
/// ancestor, whatever the working directory and `p4 info` show.
pub proof fn lemma_p4_root_prefers_executable(
    exe: Seq<AncestorProbe>,
    cwd: Seq<AncestorProbe>,
    info_roots: Seq<(Seq<char>, bool)>,
    i: int,
)
    requires
        0 <= i < exe.len(),
        exe[i].has_p4config,
        forall|k: int| 0 <= k < i ==> !#[trigger] exe[k].has_p4config,
    ensures
        p4_root(exe, cwd, info_roots) == Some(exe[i].path@),
{
    lemma_first_p4config_at(exe, i);
}

/// With no `.p4config` above the executable, the working directory's
/// nearest `.p4config` ancestor is the Perforce root, whatever `p4 info`
/// shows.
pub proof fn lemma_p4_root_then_working_directory(
    exe: Seq<AncestorProbe>,
    cwd: Seq<AncestorProbe>,
    info_roots: Seq<(Seq<char>, bool)>,
    i: int,
)
    requires
        forall|k: int| 0 <= k < exe.len() ==> !#[trigger] exe[k].has_p4config,
        0 <= i < cwd.len(),
        cwd[i].has_p4config,
        forall|k: int| 0 <= k < i ==> !#[trigger] cwd[k].has_p4config,
    ensures
        p4_root(exe, cwd, info_roots) == Some(cwd[i].path@),
{
    lemma_first_p4config_at(exe, exe.len() as int);
    lemma_first_p4config_at(cwd, i);
}

/// With no `.p4config` above either directory, the Perforce root is the
/// first client root of `p4 info` that exists, and none when none does.
pub proof fn lemma_p4_root_then_client_root(
    exe: Seq<AncestorProbe>,
    cwd: Seq<AncestorProbe>,
    info_roots: Seq<(Seq<char>, bool)>,
)
    requires
        forall|k: int| 0 <= k < exe.len() ==> !#[trigger] exe[k].has_p4config,
        forall|k: int| 0 <= k < cwd.len() ==> !#[trigger] cwd[k].has_p4config,
    ensures
        forall|i: int|
            0 <= i < info_roots.len() && #[trigger] info_roots[i].1 && (forall|k: int|
                0 <= k < i ==> !info_roots[k].1) ==> p4_root(exe, cwd, info_roots) == Some(
                info_roots[i].0,
            ),
        (forall|k: int| 0 <= k < info_roots.len() ==> !#[trigger] info_roots[k].1) ==> p4_root(
            exe,
            cwd,
            info_roots,
        ) is None,
    decreases info_roots.len(),
{
    lemma_first_p4config_at(exe, exe.len() as int);
    lemma_first_p4config_at(cwd, cwd.len() as int);
    if info_roots.len() > 0 {
        let rest = info_roots.drop_first();
        lemma_p4_root_then_client_root(exe, cwd, rest);
        assert forall|i: int|
            0 <= i < info_roots.len() && #[trigger] info_roots[i].1 && (forall|k: int|
                0 <= k < i ==> !info_roots[k].1) implies p4_root(exe, cwd, info_roots) == Some(
            info_roots[i].0,
        ) by {
            if i > 0 {
                assert(!info_roots[0].1);
                assert(rest[i - 1] == info_roots[i]);
                assert forall|k: int| 0 <= k < i - 1 implies !rest[k].1 by {
                    assert(rest[k] == info_roots[k + 1]);
                }
            }
        }
        if forall|k: int| 0 <= k < info_roots.len() ==> !#[trigger] info_roots[k].1 {
            assert forall|k: int| 0 <= k < rest.len() implies !#[trigger] rest[k].1 by {
                assert(rest[k] == info_roots[k + 1]);
            }
            assert(!info_roots[0].1);
        }
    }
}

/// The executable's branch wins: when an ancestor of the executable's
/// directory holds a data directory, the data directory is that of the
/// nearest such ancestor, whatever the working directory and the Perforce
/// root hold.
pub proof fn lemma_data_dir_prefers_executable(
    exe: Seq<AncestorProbe>,
    cwd: Seq<AncestorProbe>,
    root: Option<AncestorProbe>,
    i: int,
)
    requires
        0 <= i < exe.len(),
        holds_data_dir(exe[i]),
        forall|k: int| 0 <= k < i ==> !#[trigger] holds_data_dir(exe[k]),
    ensures
        data_dir(exe, cwd, root) == Some(probe_data_dir(exe[i])),
{
    lemma_first_data_dir_at(exe, i);
}

/// With no data directory above the executable, the working directory's
/// nearest one is taken, whatever the Perforce root holds.
pub proof fn lemma_data_dir_then_working_directory(
    exe: Seq<AncestorProbe>,
    cwd: Seq<AncestorProbe>,
    root: Option<AncestorProbe>,
    i: int,
)
    requires
        forall|k: int| 0 <= k < exe.len() ==> !#[trigger] holds_data_dir(exe[k]),
        0 <= i < cwd.len(),
        holds_data_dir(cwd[i]),
        forall|k: int| 0 <= k < i ==> !#[trigger] holds_data_dir(cwd[k]),
    ensures
        data_dir(exe, cwd, root) == Some(probe_data_dir(cwd[i])),
{
    lemma_first_data_dir_at(exe, exe.len() as int);
    lemma_first_data_dir_at(cwd, i);
}

/// With no data directory above either directory, only the Perforce root
/// itself is looked at.
pub proof fn lemma_data_dir_then_p4_root(
    exe: Seq<AncestorProbe>,
    cwd: Seq<AncestorProbe>,
    root: Option<AncestorProbe>,
)
    requires
        forall|k: int| 0 <= k < exe.len() ==> !#[trigger] holds_data_dir(exe[k]),
        forall|k: int| 0 <= k < cwd.len() ==> !#[trigger] holds_data_dir(cwd[k]),
    ensures
        data_dir(exe, cwd, root) == match root {
            Some(p) => if holds_data_dir(p) {
                Some(probe_data_dir(p))
            } else {
                None::<Seq<char>>
            },
            None => None::<Seq<char>>,
        },
{
    lemma_first_data_dir_at(exe, exe.len() as int);
    lemma_first_data_dir_at(cwd, cwd.len() as int);
    if let Some(p) = root {
        let one = seq![p];
        assert(one[0] == p);
        if holds_data_dir(p) {
            lemma_first_data_dir_at(one, 0);
        } else {
            lemma_first_data_dir_at(one, 1);
        }
    }
}

} // verus!
