//! Resolved sources and the decision logic of resolution.
//!
//! A classified locator calls for at most one piece of outside work: a
//! filesystem canonicalization for local paths, or one fetch through the
//! external engine for remote kinds.  The functions here plan that work,
//! interpret what came back, and assemble the final [`Source`]; the thin
//! shell that actually spawns the engine lives outside the library and
//! hands its output in as plain values.

use vstd::prelude::*;
use vstd::string::*;

use crate::errors::ResolveError;
use crate::fsio::{fs_canonicalize, fs_is_file};
use crate::jsontext::{git_info_json, parse_json_string, spec_git_info_json, spec_parse_json_string};
use crate::locator::{
    GitInfo, GitInfoV, GitXInfo, GitXInfoV, LocatorV, ParsedLocator, spec_forge_url,
};
use crate::strutil::{
    find_char_from, first_occ, last_occ, lemma_first_occ_none, lemma_first_occ_some,
    lemma_last_occ_none, lemma_last_occ_some, lines_of, rfind_char, spec_trim, split_lines,
    substring_string, trim_str, views_of,
};

verus! {

/// A content-addressed entry pinning a fetched tree: the materialized
/// store path and the digest under which generated expressions may
/// reference it.
#[derive(Debug, Clone)]
pub struct FixedOutputStoreEntry {
    pub path: String,
    pub hash: String,
}

/// The mathematical value of a [`FixedOutputStoreEntry`].
pub ghost struct StoreEntryV {
    pub path: Seq<char>,
    pub hash: Seq<char>,
}

impl View for FixedOutputStoreEntry {
    type V = StoreEntryV;

    open spec fn view(&self) -> StoreEntryV {
        StoreEntryV { path: self.path@, hash: self.hash@ }
    }
}

/// A locator after resolution: every variant carries the canonical root
/// directory it resolved to, and remote variants keep the entry pinning
/// the fetched tree.
#[derive(Debug, Clone)]
pub enum Source {
    Path { path: String },
    Git { info: GitInfo, path: String, entry: FixedOutputStoreEntry },
    Sourcehut { info: GitXInfo, path: String },
    Tarball { url: String, path: String, entry: FixedOutputStoreEntry },
}

/// The mathematical value of a [`Source`].
pub ghost enum SourceV {
    Path { path: Seq<char> },
    Git { info: GitInfoV, path: Seq<char>, entry: StoreEntryV },
    Sourcehut { info: GitXInfoV, path: Seq<char> },
    Tarball { url: Seq<char>, path: Seq<char>, entry: StoreEntryV },
}

impl View for Source {
    type V = SourceV;

    open spec fn view(&self) -> SourceV {
        match self {
            Source::Path { path } => SourceV::Path { path: path@ },
            Source::Git { info, path, entry } => SourceV::Git {
                info: info@,
                path: path@,
                entry: entry@,
            },
            Source::Sourcehut { info, path } => SourceV::Sourcehut { info: info@, path: path@ },
            Source::Tarball { url, path, entry } => SourceV::Tarball {
                url: url@,
                path: path@,
                entry: entry@,
            },
        }
    }
}

impl SourceV {
    /// The canonical root path of a resolved source.
    pub open spec fn path_of(self) -> Seq<char> {
        match self {
            SourceV::Path { path } => path,
            SourceV::Git { path, .. } => path,
            SourceV::Sourcehut { path, .. } => path,
            SourceV::Tarball { path, .. } => path,
        }
    }

    /// The locator's relative position inside the resolved tree: the
    /// requested subdirectory of a repository fetch, empty everywhere else.
    pub open spec fn subpath_of(self) -> Seq<char> {
        match self {
            SourceV::Git { info, .. } => match info.dir {
                Some(d) => d,
                None => Seq::empty(),
            },
            _ => Seq::empty(),
        }
    }

    /// The content-addressed entry of a remote source; local paths have
    /// none.
    pub open spec fn entry_of(self) -> Option<StoreEntryV> {
        match self {
            SourceV::Git { entry, .. } => Some(entry),
            SourceV::Tarball { entry, .. } => Some(entry),
            _ => None,
        }
    }
}

impl Source {
    /// The canonical root path of this source.
    pub fn get_path(self) -> (r: String)
        ensures
            r@ == self@.path_of(),
    {
        match self {
            Source::Path { path } => path,
            Source::Git { info: _, path, entry: _ } => path,
            Source::Sourcehut { info: _, path } => path,
            Source::Tarball { url: _, path, entry: _ } => path,
        }
    }

    /// The locator's relative position inside the resolved tree.
    pub fn get_subpath(self) -> (r: String)
        ensures
            r@ == self@.subpath_of(),
    {
        match self {
            Source::Git { info, .. } => match info.dir {
                Some(d) => d,
                None => String::new(),
            },
            _ => String::new(),
        }
    }

    /// The content-addressed entry of a remote source.
    pub fn get_entry(self) -> (r: Option<FixedOutputStoreEntry>)
        ensures
            match r {
                Some(e) => self@.entry_of() == Some(e@),
                None => self@.entry_of() is None,
            },
    {
        match self {
            Source::Git { entry, .. } => Some(entry),
            Source::Tarball { entry, .. } => Some(entry),
            _ => None,
        }
    }
}

/// A name joined onto a directory path, a single slash between them; an
/// empty directory contributes nothing.
pub open spec fn spec_join(dir: Seq<char>, name: Seq<char>) -> Seq<char> {
    if dir.len() == 0 {
        name
    } else if dir[dir.len() - 1] == '/' {
        dir + name
    } else {
        dir + seq!['/'] + name
    }
}

/// Join a plain name onto a directory path.
pub fn join_path(dir: &str, name: &str) -> (r: String)
    ensures
        r@ == spec_join(dir@, name@),
{
    let n = dir.unicode_len();
    if n == 0 {
        return String::from_str(name);
    }
    let mut out = String::from_str(dir);
    if dir.get_char(n - 1) != '/' {
        out.append("/");
        proof {
            reveal_strlit("/");
            assert("/"@ =~= seq!['/']);
        }
    }
    out.append(name);
    proof {
        assert(out@ =~= spec_join(dir@, name@));
    }
    out
}

/// The fixed manifest filename every resolved project root must hold.
pub fn manifest_file_name() -> (r: &'static str)
    ensures
        r@ == "nilla.nix"@,
{
    "nilla.nix"
}

/// A canonical path with its last component removed: empty for a bare
/// name, the root kept as the root.
pub open spec fn spec_parent_dir(p: Seq<char>) -> Seq<char> {
    match last_occ(p, '/') {
        None => Seq::empty(),
        Some(i) => if i == 0 {
            seq!['/']
        } else {
            p.subrange(0, i)
        },
    }
}

/// Drop the last component of a canonical path.
pub fn parent_dir(path: &str) -> (r: String)
    ensures
        r@ == spec_parent_dir(path@),
{
    match rfind_char(path, '/') {
        Some(i) => {
            proof {
                lemma_last_occ_some(path@, '/', i as int);
            }
            if i == 0 {
                let r = String::from_str("/");
                proof {
                    reveal_strlit("/");
                    assert(r@ =~= seq!['/']);
                }
                r
            } else {
                substring_string(path, 0, i)
            }
        },
        None => {
            proof {
                lemma_last_occ_none(path@, '/');
            }
            String::new()
        },
    }
}

/// A path `dir/name` whose last component holds no slash loses exactly
/// that component: its parent is `dir` itself (the root when `dir` is
/// empty).  This is what makes a local locator that points at the manifest
/// file resolve to the manifest's directory.
pub proof fn lemma_parent_strips_filename(dir: Seq<char>, name: Seq<char>)
    requires
        name.len() > 0,
        !name.contains('/'),
    ensures
        spec_parent_dir(dir + seq!['/'] + name) == if dir.len() == 0 {
            seq!['/']
        } else {
            dir
        },
{
    let p = dir + seq!['/'] + name;
    assert(p[dir.len() as int] == '/');
    assert forall|j: int| dir.len() < j < p.len() implies p[j] != '/' by {
        assert(p[j] == name[j - dir.len() - 1]);
        if p[j] == '/' {
            assert(name[j - dir.len() - 1] == '/');
            assert(name.contains('/'));
        }
    }
    lemma_last_occ_some(p, '/', dir.len() as int);
    if dir.len() > 0 {
        assert(p.subrange(0, dir.len() as int) =~= dir);
    }
}

/// If the canonical path names a regular file, replace it with its parent
/// directory; a directory is kept as it is.  Resolution works on
/// directories, never on files.
pub fn remove_filename_from_path(path: String) -> (r: String)
    ensures
        r@ == path@ || r@ == spec_parent_dir(path@),
{
    if fs_is_file(path.as_str()) {
        parent_dir(path.as_str())
    } else {
        path
    }
}

/// Resolve a local target: canonicalize it against the current working
/// directory and strip a trailing filename.  A target that cannot be
/// canonicalized fails with `ProjectNotFound`, and nothing else ever does.
pub fn resolve_local(target: &str) -> (r: Result<Source, ResolveError>)
    ensures
        match r {
            Ok(s) => s@ is Path,
            Err(e) => e == ResolveError::ProjectNotFound,
        },
{
    match fs_canonicalize(target) {
        Some(found) => Ok(Source::Path { path: remove_filename_from_path(found) }),
        None => Err(ResolveError::ProjectNotFound),
    }
}

/// The engine expression submitting a repository fetch: the parameters
/// travel as the JSON document of [`spec_git_info_json`], and `rev`, `ref`
/// and `submodules` are passed through only when present, with no
/// precedence imposed between `rev` and `ref`.
pub open spec fn spec_fetch_git_expr(i: GitInfoV) -> Seq<char> {
    "let info = builtins.fromJSON ''"@ + spec_git_info_json(i)
        + "''; in builtins.fetchGit ({ url = info.url; } // (if info.rev != null then { rev = info.rev; } else {}) // (if info.ref != null then { ref = info.ref; } else {}) // (if info.submodules != null then { submodules = info.submodules; } else {}))"@
}

/// Build the repository fetch expression.
pub fn fetch_git_expr(info: &GitInfo) -> (r: String)
    ensures
        r@ == spec_fetch_git_expr(info@),
{
    let mut out = String::from_str("let info = builtins.fromJSON ''");
    let json = git_info_json(info);
    out.append(json.as_str());
    out.append(
        "''; in builtins.fetchGit ({ url = info.url; } // (if info.rev != null then { rev = info.rev; } else {}) // (if info.ref != null then { ref = info.ref; } else {}) // (if info.submodules != null then { submodules = info.submodules; } else {}))",
    );
    proof {
        assert(out@ =~= spec_fetch_git_expr(info@));
    }
    out
}

/// The engine expression submitting an archive fetch: the URL alone, with
/// no revision or reference semantics.
pub open spec fn spec_fetch_tarball_expr(url: Seq<char>) -> Seq<char> {
    "builtins.fetchTarball { url = \""@ + url + "\"; }"@
}

/// Build the archive fetch expression.
pub fn fetch_tarball_expr(url: &str) -> (r: String)
    ensures
        r@ == spec_fetch_tarball_expr(url@),
{
    let mut out = String::from_str("builtins.fetchTarball { url = \"");
    out.append(url);
    out.append("\"; }");
    proof {
        assert(out@ =~= spec_fetch_tarball_expr(url@));
    }
    out
}

/// The engine expression computing the digest of a materialized tree, used
/// to pin the tree in later pure evaluations.
pub open spec fn spec_hash_path_expr(path: Seq<char>) -> Seq<char> {
    "builtins.hashPath \"sha256\" \""@ + path + "\""@
}

/// Build the digest expression.
pub fn hash_path_expr(path: &str) -> (r: String)
    ensures
        r@ == spec_hash_path_expr(path@),
{
    let mut out = String::from_str("builtins.hashPath \"sha256\" \"");
    out.append(path);
    out.append("\"");
    proof {
        assert(out@ =~= spec_hash_path_expr(path@));
    }
    out
}

/// What a forge shorthand normalizes to: the synthesized SSH-style URL,
/// every other parameter carried over unchanged.
pub open spec fn spec_normalize_forge(x: GitXInfoV) -> GitInfoV {
    GitInfoV {
        url: spec_forge_url(x.host, x.owner, x.repo),
        rev: x.rev,
        reference: x.reference,
        dir: x.dir,
        submodules: x.submodules,
    }
}

/// The single piece of outside work a classified locator calls for.
#[derive(Debug)]
pub enum ResolveAction {
    /// Look only at the local filesystem.
    UseLocal { target: String },
    /// Submit a repository fetch with the given expression.
    FetchGit { info: GitInfo, expr: String },
    /// Submit an archive fetch with the given expression.
    FetchArchive { url: String, expr: String },
}

/// Decide what outside work a classified locator needs.  Forge shorthands
/// normalize into repository fetches here; the unsupported forge kind
/// always fails with `NotImplemented` and asks for no work at all.
pub fn plan_resolution(parsed: ParsedLocator) -> (r: Result<ResolveAction, ResolveError>)
    ensures
        match parsed@ {
            LocatorV::Local { target } => r matches Ok(a) && a matches ResolveAction::UseLocal {
                target: t,
            } && t@ == target,
            LocatorV::Git { info } => r matches Ok(a) && a matches ResolveAction::FetchGit {
                info: gi,
                expr,
            } && gi@ == info && expr@ == spec_fetch_git_expr(info),
            LocatorV::Forge { info } => r matches Ok(a) && a matches ResolveAction::FetchGit {
                info: gi,
                expr,
            } && gi@ == spec_normalize_forge(info) && expr@ == spec_fetch_git_expr(
                spec_normalize_forge(info),
            ),
            LocatorV::Sourcehut { info } => r == Err::<ResolveAction, ResolveError>(
                ResolveError::NotImplemented,
            ),
            LocatorV::Archive { url } => r matches Ok(a) && a matches ResolveAction::FetchArchive {
                url: u,
                expr,
            } && u@ == url && expr@ == spec_fetch_tarball_expr(url),
        },
{
    match parsed {
        ParsedLocator::Local { target } => Ok(ResolveAction::UseLocal { target }),
        ParsedLocator::Git { info } => {
            let expr = fetch_git_expr(&info);
            Ok(ResolveAction::FetchGit { info, expr })
        },
        ParsedLocator::Forge { info } => {
            let normalized = GitInfo::from(info);
            let expr = fetch_git_expr(&normalized);
            Ok(ResolveAction::FetchGit { info: normalized, expr })
        },
        ParsedLocator::Sourcehut { info: _ } => Err(ResolveError::NotImplemented),
        ParsedLocator::Archive { url } => {
            let expr = fetch_tarball_expr(url.as_str());
            Ok(ResolveAction::FetchArchive { url, expr })
        },
    }
}

/// What came back from one invocation of the external engine: its exit
/// status and captured output.
#[derive(Debug, Clone)]
pub struct EngineOutput {
    pub success: bool,
    pub stdout: String,
    pub stderr: String,
}

/// What the fetch step concludes from the engine's answer: the store path
/// printed as a JSON string, or the diagnostic text of the failure.
pub open spec fn spec_fetch_outcome(success: bool, stdout: Seq<char>, stderr: Seq<char>) -> Result<
    Seq<char>,
    Seq<char>,
> {
    if !success {
        Err(stderr)
    } else {
        match spec_parse_json_string(spec_trim(stdout)) {
            Some(p) => Ok(p),
            None => Err("expected a JSON string from the fetch engine"@),
        }
    }
}

/// Interpret the engine's answer to a fetch expression.  A failed process
/// or anything but a JSON string on standard output fails with
/// `FetchFailed` carrying the diagnostic text.
pub fn interpret_fetch_output(out: &EngineOutput) -> (r: Result<String, ResolveError>)
    ensures
        match r {
            Ok(p) => spec_fetch_outcome(out.success, out.stdout@, out.stderr@) == Ok::<
                Seq<char>,
                Seq<char>,
            >(p@),
            Err(e) => e matches ResolveError::FetchFailed(m) && spec_fetch_outcome(
                out.success,
                out.stdout@,
                out.stderr@,
            ) == Err::<Seq<char>, Seq<char>>(m@),
        },
{
    if !out.success {
        return Err(ResolveError::FetchFailed(out.stderr.clone()));
    }
    let trimmed = trim_str(out.stdout.as_str());
    match parse_json_string(trimmed.as_str()) {
        Some(p) => Ok(p),
        None => Err(
            ResolveError::FetchFailed(
                String::from_str("expected a JSON string from the fetch engine"),
            ),
        ),
    }
}

/// Interpret the engine's answer to a realization request: on success, one
/// materialized path per line of standard output.
pub fn interpret_realise_output(out: &EngineOutput) -> (r: Result<Vec<String>, ResolveError>)
    ensures
        match r {
            Ok(paths) => out.success && views_of(paths@) == lines_of(out.stdout@),
            Err(e) => e matches ResolveError::FetchFailed(m) && !out.success && m@
                == out.stderr@,
        },
{
    if !out.success {
        return Err(ResolveError::FetchFailed(out.stderr.clone()));
    }
    Ok(split_lines(out.stdout.as_str()))
}

/// A resolved root with the requested subdirectory appended.
pub open spec fn spec_join_dir(root: Seq<char>, dir: Option<Seq<char>>) -> Seq<char> {
    match dir {
        None => root,
        Some(d) => root + seq!['/'] + d,
    }
}

/// Assemble the repository source from the realized paths: the first path
/// is the resolution root, the requested subdirectory is appended to it,
/// and the entry keeps the root with its digest.  An empty realization
/// list fails with `FetchFailed`.
pub fn finish_git(info: GitInfo, paths: &Vec<String>, hash: String) -> (r: Result<
    Source,
    ResolveError,
>)
    ensures
        match r {
            Ok(s) => s@ matches SourceV::Git { info: i, path, entry } && paths@.len() > 0 && i
                == info@ && path == spec_join_dir(paths@[0]@, info@.dir) && entry == (StoreEntryV {
                path: paths@[0]@,
                hash: hash@,
            }),
            Err(e) => e matches ResolveError::FetchFailed(m) && paths@.len() == 0 && m@
                == "the fetch engine realized no paths"@,
        },
{
    if paths.len() == 0 {
        return Err(ResolveError::FetchFailed(String::from_str("the fetch engine realized no paths")));
    }
    let root: String = paths[0].clone();
    let final_path: String = match &info.dir {
        Some(d) => {
            let mut p = root.clone();
            p.append("/");
            p.append(d.as_str());
            proof {
                reveal_strlit("/");
                assert("/"@ =~= seq!['/']);
                assert(p@ =~= spec_join_dir(root@, info@.dir));
            }
            p
        },
        None => root.clone(),
    };
    Ok(Source::Git { info, path: final_path, entry: FixedOutputStoreEntry { path: root, hash } })
}

/// Assemble the archive source from the realized paths: the first path is
/// the root, and archives have no subdirectory parameter.  An empty
/// realization list fails with `FetchFailed`.
pub fn finish_tarball(url: String, paths: &Vec<String>, hash: String) -> (r: Result<
    Source,
    ResolveError,
>)
    ensures
        match r {
            Ok(s) => s@ matches SourceV::Tarball { url: u, path, entry } && paths@.len() > 0 && u
                == url@ && path == paths@[0]@ && entry == (StoreEntryV {
                path: paths@[0]@,
                hash: hash@,
            }),
            Err(e) => e matches ResolveError::FetchFailed(m) && paths@.len() == 0 && m@
                == "the fetch engine realized no paths"@,
        },
{
    if paths.len() == 0 {
        return Err(ResolveError::FetchFailed(String::from_str("the fetch engine realized no paths")));
    }
    let root: String = paths[0].clone();
    Ok(
        Source::Tarball {
            url,
            path: root.clone(),
            entry: FixedOutputStoreEntry { path: root, hash },
        },
    )
}

/// The derived name of a store path: its last path component with the
/// leading digest (everything up to and including the first `-`) removed.
pub open spec fn spec_store_path_name(p: Seq<char>) -> Seq<char> {
    let base = match last_occ(p, '/') {
        None => p,
        Some(i) => p.subrange(i + 1, p.len() as int),
    };
    match first_occ(base, '-') {
        None => base,
        Some(k) => base.subrange(k + 1, base.len() as int),
    }
}

/// The derived name of a store path.
pub fn get_store_path_name(path: &str) -> (r: String)
    ensures
        r@ == spec_store_path_name(path@),
{
    let n = path.unicode_len();
    let base: String = match rfind_char(path, '/') {
        Some(i) => {
            proof {
                lemma_last_occ_some(path@, '/', i as int);
            }
            substring_string(path, i + 1, n)
        },
        None => {
            proof {
                lemma_last_occ_none(path@, '/');
            }
            String::from_str(path)
        },
    };
    let bn = base.as_str().unicode_len();
    match find_char_from(base.as_str(), '-', 0) {
        Some(k) => {
            proof {
                lemma_first_occ_some(base@, '-', k as int);
            }
            substring_string(base.as_str(), k + 1, bn)
        },
        None => {
            proof {
                lemma_first_occ_none(base@, '-');
            }
            base
        },
    }
}

} // verus!
