//! The locator grammar: classifying a raw locator string and extracting the
//! parameters of each source kind.
//!
//! A locator is classified by its prefix, with local-path syntax taking
//! precedence over every scheme:
//!
//! * `.`, `/`, `~` or `path:` introduce a local path (`path:` is stripped);
//! * `git:<url>[?rev=&ref=&dir=&submodules=]` names a repository;
//! * `github:<owner>/<repo>[?host=&rev=&ref=&dir=&submodules=]` and
//!   `gitlab:` likewise, differing only in the default host;
//! * `sourcehut:` is recognized but unsupported;
//! * `tarball:<url>` and bare `http://` / `https://` URLs name archives.
//!
//! Query parameters are `&`-separated `key=value` pairs after the first
//! `?`; unknown keys are ignored and no percent-decoding of any kind is
//! applied.

use vstd::prelude::*;
use vstd::string::*;

use crate::errors::ResolveError;
use crate::strutil::{
    concat_str, find_char_from, first_occ, lemma_first_occ_none, lemma_first_occ_some, qp_value,
    query_get, spec_starts_with, starts_with_str, str_eq, substring_string,
};

verus! {

/// Parameters of a generic repository fetch.
#[derive(Debug, Clone)]
pub struct GitInfo {
    pub url: String,
    pub rev: Option<String>,
    pub reference: Option<String>,
    pub dir: Option<String>,
    pub submodules: bool,
}

/// Parameters of a hosted-forge shorthand (`owner/repo` plus a host).
#[derive(Debug, Clone)]
pub struct GitXInfo {
    pub owner: String,
    pub repo: String,
    pub rev: Option<String>,
    pub reference: Option<String>,
    pub dir: Option<String>,
    pub host: String,
    pub submodules: bool,
}

/// The mathematical value of a [`GitInfo`].
pub ghost struct GitInfoV {
    pub url: Seq<char>,
    pub rev: Option<Seq<char>>,
    pub reference: Option<Seq<char>>,
    pub dir: Option<Seq<char>>,
    pub submodules: bool,
}

/// The mathematical value of a [`GitXInfo`].
pub ghost struct GitXInfoV {
    pub owner: Seq<char>,
    pub repo: Seq<char>,
    pub rev: Option<Seq<char>>,
    pub reference: Option<Seq<char>>,
    pub dir: Option<Seq<char>>,
    pub host: Seq<char>,
    pub submodules: bool,
}

/// The view of an optional string.
pub open spec fn opt_view(o: Option<String>) -> Option<Seq<char>> {
    match o {
        Some(s) => Some(s@),
        None => None,
    }
}

impl View for GitInfo {
    type V = GitInfoV;

    open spec fn view(&self) -> GitInfoV {
        GitInfoV {
            url: self.url@,
            rev: opt_view(self.rev),
            reference: opt_view(self.reference),
            dir: opt_view(self.dir),
            submodules: self.submodules,
        }
    }
}

impl View for GitXInfo {
    type V = GitXInfoV;

    open spec fn view(&self) -> GitXInfoV {
        GitXInfoV {
            owner: self.owner@,
            repo: self.repo@,
            rev: opt_view(self.rev),
            reference: opt_view(self.reference),
            dir: opt_view(self.dir),
            host: self.host@,
            submodules: self.submodules,
        }
    }
}

impl GitInfoV {
    /// The invariant of a repository fetch: the URL is never empty.
    pub open spec fn wf(&self) -> bool {
        self.url.len() > 0
    }
}

/// The SSH-style URL a forge shorthand normalizes to.
pub open spec fn spec_forge_url(host: Seq<char>, owner: Seq<char>, repo: Seq<char>) -> Seq<char> {
    "git@"@ + host + ":"@ + owner + "/"@ + repo + ".git"@
}

impl GitInfo {
    /// Normalize a forge shorthand into a generic repository fetch: the URL
    /// becomes `git@<host>:<owner>/<repo>.git` and every other parameter is
    /// carried over unchanged.
    pub fn from(value: GitXInfo) -> (r: GitInfo)
        ensures
            r@.url == spec_forge_url(value@.host, value@.owner, value@.repo),
            r@.rev == value@.rev,
            r@.reference == value@.reference,
            r@.dir == value@.dir,
            r@.submodules == value@.submodules,
            r@.wf(),
    {
        let mut url = String::from_str("git@");
        url.append(value.host.as_str());
        url.append(":");
        url.append(value.owner.as_str());
        url.append("/");
        url.append(value.repo.as_str());
        url.append(".git");
        proof {
            assert(url@ =~= spec_forge_url(value@.host, value@.owner, value@.repo));
            assert(url@.len() > 0) by {
                reveal_strlit("git@");
            }
        }
        GitInfo {
            url,
            rev: value.rev,
            reference: value.reference,
            dir: value.dir,
            submodules: value.submodules,
        }
    }
}

/// A classified locator, before any resolution has happened.
#[derive(Debug, Clone)]
pub enum ParsedLocator {
    /// A local path (the `path:` prefix already stripped).
    Local { target: String },
    /// A generic repository reference.
    Git { info: GitInfo },
    /// A supported forge shorthand, normalized later.
    Forge { info: GitXInfo },
    /// A recognized but unsupported forge shorthand.
    Sourcehut { info: GitXInfo },
    /// A downloadable archive (fetch URL already normalized).
    Archive { url: String },
}

/// The mathematical value of a [`ParsedLocator`].
pub ghost enum LocatorV {
    Local { target: Seq<char> },
    Git { info: GitInfoV },
    Forge { info: GitXInfoV },
    Sourcehut { info: GitXInfoV },
    Archive { url: Seq<char> },
}

impl View for ParsedLocator {
    type V = LocatorV;

    open spec fn view(&self) -> LocatorV {
        match self {
            ParsedLocator::Local { target } => LocatorV::Local { target: target@ },
            ParsedLocator::Git { info } => LocatorV::Git { info: info@ },
            ParsedLocator::Forge { info } => LocatorV::Forge { info: info@ },
            ParsedLocator::Sourcehut { info } => LocatorV::Sourcehut { info: info@ },
            ParsedLocator::Archive { url } => LocatorV::Archive { url: url@ },
        }
    }
}

/// Local-path syntax: a leading `.`, `/` or `~`, or the `path:` prefix.
pub open spec fn is_local_prefix(uri: Seq<char>) -> bool {
    (uri.len() > 0 && (uri[0] == '.' || uri[0] == '/' || uri[0] == '~')) || spec_starts_with(
        uri,
        "path:"@,
    )
}

/// The filesystem target of a local locator: the string itself, with a
/// `path:` prefix stripped.
pub open spec fn spec_local_target(uri: Seq<char>) -> Seq<char> {
    if spec_starts_with(uri, "path:"@) {
        uri.skip("path:"@.len() as int)
    } else {
        uri
    }
}

/// The part of a scheme remainder before the first `?`.
pub open spec fn before_query(rest: Seq<char>) -> Seq<char> {
    match first_occ(rest, '?') {
        None => rest,
        Some(i) => rest.subrange(0, i),
    }
}

/// The query string of a scheme remainder: everything after the first `?`,
/// empty if there is none.
pub open spec fn query_of(rest: Seq<char>) -> Seq<char> {
    match first_occ(rest, '?') {
        None => Seq::empty(),
        Some(i) => rest.subrange(i + 1, rest.len() as int),
    }
}

/// The `submodules` flag of a query: only the literal value `true` turns it
/// on.
pub open spec fn spec_submodules(q: Seq<char>) -> bool {
    qp_value(q, "submodules"@) == Some("true"@)
}

/// What `git:<rest>` parses to: the part before the query is the repository
/// URL (which must be non-empty), and `rev`, `ref` and `dir` come from the
/// query.
pub open spec fn spec_parse_git(rest: Seq<char>) -> Option<GitInfoV> {
    let url = before_query(rest);
    if url.len() == 0 {
        None
    } else {
        let q = query_of(rest);
        Some(
            GitInfoV {
                url,
                rev: qp_value(q, "rev"@),
                reference: qp_value(q, "ref"@),
                dir: qp_value(q, "dir"@),
                submodules: spec_submodules(q),
            },
        )
    }
}

/// What a forge remainder parses to, with no way to fail: the segment
/// before the first `/` is the owner, the next the repository (empty when
/// there is none), and the `host` query parameter overrides the scheme's
/// default host.
pub open spec fn spec_parse_forge_lax(rest: Seq<char>, default_host: Seq<char>) -> GitXInfoV {
    let bq = before_query(rest);
    let q = query_of(rest);
    let owner = match first_occ(bq, '/') {
        None => bq,
        Some(i) => bq.subrange(0, i),
    };
    let after = match first_occ(bq, '/') {
        None => Seq::<char>::empty(),
        Some(i) => bq.subrange(i + 1, bq.len() as int),
    };
    let repo = match first_occ(after, '/') {
        None => after,
        Some(k) => after.subrange(0, k),
    };
    GitXInfoV {
        owner,
        repo,
        rev: qp_value(q, "rev"@),
        reference: qp_value(q, "ref"@),
        dir: qp_value(q, "dir"@),
        host: match qp_value(q, "host"@) {
            None => default_host,
            Some(h) => h,
        },
        submodules: spec_submodules(q),
    }
}

/// What `github:` and `gitlab:` remainders parse to: as the lax form, but
/// a remainder with no `/` before the query names no repository and is
/// malformed.
pub open spec fn spec_parse_forge(rest: Seq<char>, default_host: Seq<char>) -> Option<GitXInfoV> {
    if first_occ(before_query(rest), '/') is Some {
        Some(spec_parse_forge_lax(rest, default_host))
    } else {
        None
    }
}

/// The fetch URL of a `tarball:` remainder: `http://` is prepended unless
/// the remainder already carries an `http://` or `https://` prefix.
pub open spec fn spec_tarball_url(rest: Seq<char>) -> Seq<char> {
    if spec_starts_with(rest, "http://"@) || spec_starts_with(rest, "https://"@) {
        rest
    } else {
        "http://"@ + rest
    }
}

/// The whole grammar: what any locator string classifies and parses to.
/// The dispatch order is part of the contract: local-path syntax first,
/// then the fixed schemes; anything else is an invalid locator.
pub open spec fn spec_parse(uri: Seq<char>) -> Result<LocatorV, ResolveError> {
    if is_local_prefix(uri) {
        Ok(LocatorV::Local { target: spec_local_target(uri) })
    } else if spec_starts_with(uri, "git:"@) {
        match spec_parse_git(uri.skip("git:"@.len() as int)) {
            None => Err(ResolveError::InvalidLocator),
            Some(info) => Ok(LocatorV::Git { info }),
        }
    } else if spec_starts_with(uri, "github:"@) {
        match spec_parse_forge(uri.skip("github:"@.len() as int), "github.com"@) {
            None => Err(ResolveError::InvalidLocator),
            Some(info) => Ok(LocatorV::Forge { info }),
        }
    } else if spec_starts_with(uri, "gitlab:"@) {
        match spec_parse_forge(uri.skip("gitlab:"@.len() as int), "gitlab.com"@) {
            None => Err(ResolveError::InvalidLocator),
            Some(info) => Ok(LocatorV::Forge { info }),
        }
    } else if spec_starts_with(uri, "sourcehut:"@) {
        // recognized but unsupported: it always classifies here, whatever
        // its remainder looks like, so resolution can always refuse it
        Ok(
            LocatorV::Sourcehut {
                info: spec_parse_forge_lax(uri.skip("sourcehut:"@.len() as int), "git.sr.ht"@),
            },
        )
    } else if spec_starts_with(uri, "tarball:"@) {
        Ok(LocatorV::Archive { url: spec_tarball_url(uri.skip("tarball:"@.len() as int)) })
    } else if spec_starts_with(uri, "http://"@) || spec_starts_with(uri, "https://"@) {
        Ok(LocatorV::Archive { url: uri })
    } else {
        Err(ResolveError::InvalidLocator)
    }
}

/// Split a scheme remainder at the first `?` into the part before it and
/// the query after it.
fn split_query(rest: &str) -> (r: (String, String))
    ensures
        r.0@ == before_query(rest@),
        r.1@ == query_of(rest@),
{
    let n = rest.unicode_len();
    match find_char_from(rest, '?', 0) {
        Some(i) => {
            proof {
                lemma_first_occ_some(rest@, '?', i as int);
            }
            (substring_string(rest, 0, i), substring_string(rest, i + 1, n))
        },
        None => {
            proof {
                lemma_first_occ_none(rest@, '?');
                assert(query_of(rest@) =~= Seq::<char>::empty());
            }
            (String::from_str(rest), String::new())
        },
    }
}

/// Read the `submodules` flag out of a query string.
fn submodules_flag(query: &str) -> (r: bool)
    ensures
        r == spec_submodules(query@),
{
    match query_get(query, "submodules") {
        Some(v) => str_eq(v.as_str(), "true"),
        None => false,
    }
}

/// Parse the remainder of a `git:` locator.
fn parse_git_rest(rest: &str) -> (r: Option<GitInfo>)
    ensures
        match r {
            Some(info) => spec_parse_git(rest@) == Some(info@) && info@.wf(),
            None => spec_parse_git(rest@) is None,
        },
{
    let parts = split_query(rest);
    let url = parts.0;
    let query = parts.1;
    if url.as_str().unicode_len() == 0 {
        return None;
    }
    let rev = query_get(query.as_str(), "rev");
    let reference = query_get(query.as_str(), "ref");
    let dir = query_get(query.as_str(), "dir");
    let submodules = submodules_flag(query.as_str());
    Some(GitInfo { url, rev, reference, dir, submodules })
}

/// Parse the remainder of a forge locator without failing, with the
/// scheme's default host.
fn parse_forge_rest_lax(rest: &str, default_host: &str) -> (r: GitXInfo)
    ensures
        r@ == spec_parse_forge_lax(rest@, default_host@),
{
    let parts = split_query(rest);
    let bq = parts.0;
    let query = parts.1;
    let bn = bq.as_str().unicode_len();
    let pair: (String, String) = match find_char_from(bq.as_str(), '/', 0) {
        None => {
            proof {
                lemma_first_occ_none(bq@, '/');
            }
            (bq.clone(), String::new())
        },
        Some(i) => {
            proof {
                lemma_first_occ_some(bq@, '/', i as int);
            }
            let owner = substring_string(bq.as_str(), 0, i);
            let after = substring_string(bq.as_str(), i + 1, bn);
            let an = after.as_str().unicode_len();
            let repo = match find_char_from(after.as_str(), '/', 0) {
                Some(k) => {
                    proof {
                        lemma_first_occ_some(after@, '/', k as int);
                    }
                    substring_string(after.as_str(), 0, k)
                },
                None => {
                    proof {
                        lemma_first_occ_none(after@, '/');
                        assert(after@.subrange(0, an as int) =~= after@);
                    }
                    after
                },
            };
            (owner, repo)
        },
    };
    let host = match query_get(query.as_str(), "host") {
        Some(h) => h,
        None => String::from_str(default_host),
    };
    let rev = query_get(query.as_str(), "rev");
    let reference = query_get(query.as_str(), "ref");
    let dir = query_get(query.as_str(), "dir");
    let submodules = submodules_flag(query.as_str());
    GitXInfo { owner: pair.0, repo: pair.1, rev, reference, dir, host, submodules }
}

/// Parse the remainder of a `github:` or `gitlab:` locator, rejecting one
/// that names no repository.
fn parse_forge_rest(rest: &str, default_host: &str) -> (r: Option<GitXInfo>)
    ensures
        match r {
            Some(info) => spec_parse_forge(rest@, default_host@) == Some(info@),
            None => spec_parse_forge(rest@, default_host@) is None,
        },
{
    let parts = split_query(rest);
    let bq = parts.0;
    match find_char_from(bq.as_str(), '/', 0) {
        None => {
            proof {
                lemma_first_occ_none(bq@, '/');
            }
            None
        },
        Some(i) => {
            proof {
                lemma_first_occ_some(bq@, '/', i as int);
            }
            Some(parse_forge_rest_lax(rest, default_host))
        },
    }
}

/// Classify a locator string and extract its parameters, exactly as
/// [`spec_parse`] describes.  Local-path syntax always wins, an
/// unrecognized scheme is an invalid locator, and a `sourcehut:` locator
/// parses to the unsupported-forge kind and nothing else.
pub fn parse_locator(uri: &str) -> (r: Result<ParsedLocator, ResolveError>)
    ensures
        match r {
            Ok(p) => spec_parse(uri@) == Ok::<LocatorV, ResolveError>(p@),
            Err(e) => spec_parse(uri@) == Err::<LocatorV, ResolveError>(e),
        },
{
    let n = uri.unicode_len();
    if n > 0 && (uri.get_char(0) == '.' || uri.get_char(0) == '/' || uri.get_char(0) == '~') {
        proof {
            assert(!spec_starts_with(uri@, "path:"@)) by {
                reveal_strlit("path:");
                if spec_starts_with(uri@, "path:"@) {
                    assert(uri@.subrange(0, "path:"@.len() as int)[0] == uri@[0]);
                }
            }
        }
        return Ok(ParsedLocator::Local { target: String::from_str(uri) });
    }
    if starts_with_str(uri, "path:") {
        let plen = "path:".unicode_len();
        let target = substring_string(uri, plen, n);
        proof {
            assert(target@ =~= spec_local_target(uri@));
        }
        return Ok(ParsedLocator::Local { target });
    }
    if starts_with_str(uri, "git:") {
        let rest = substring_string(uri, "git:".unicode_len(), n);
        proof {
            assert(rest@ =~= uri@.skip("git:"@.len() as int));
        }
        return match parse_git_rest(rest.as_str()) {
            Some(info) => Ok(ParsedLocator::Git { info }),
            None => Err(ResolveError::InvalidLocator),
        };
    }
    if starts_with_str(uri, "github:") {
        let rest = substring_string(uri, "github:".unicode_len(), n);
        proof {
            assert(rest@ =~= uri@.skip("github:"@.len() as int));
        }
        return match parse_forge_rest(rest.as_str(), "github.com") {
            Some(info) => Ok(ParsedLocator::Forge { info }),
            None => Err(ResolveError::InvalidLocator),
        };
    }
    if starts_with_str(uri, "gitlab:") {
        let rest = substring_string(uri, "gitlab:".unicode_len(), n);
        proof {
            assert(rest@ =~= uri@.skip("gitlab:"@.len() as int));
        }
        return match parse_forge_rest(rest.as_str(), "gitlab.com") {
            Some(info) => Ok(ParsedLocator::Forge { info }),
            None => Err(ResolveError::InvalidLocator),
        };
    }
    if starts_with_str(uri, "sourcehut:") {
        let rest = substring_string(uri, "sourcehut:".unicode_len(), n);
        proof {
            assert(rest@ =~= uri@.skip("sourcehut:"@.len() as int));
        }
        let info = parse_forge_rest_lax(rest.as_str(), "git.sr.ht");
        return Ok(ParsedLocator::Sourcehut { info });
    }
    if starts_with_str(uri, "tarball:") {
        let rest = substring_string(uri, "tarball:".unicode_len(), n);
        proof {
            assert(rest@ =~= uri@.skip("tarball:"@.len() as int));
        }
        let url = if starts_with_str(rest.as_str(), "http://") || starts_with_str(
            rest.as_str(),
            "https://",
        ) {
            rest
        } else {
            concat_str("http://", rest.as_str())
        };
        return Ok(ParsedLocator::Archive { url });
    }
    if starts_with_str(uri, "http://") || starts_with_str(uri, "https://") {
        return Ok(ParsedLocator::Archive { url: String::from_str(uri) });
    }
    Err(ResolveError::InvalidLocator)
}

/// Every locator with local-path syntax classifies as a local source,
/// whatever scheme-like text appears later in the string.
pub proof fn lemma_local_prefix_wins(uri: Seq<char>)
    requires
        is_local_prefix(uri),
    ensures
        spec_parse(uri) matches Ok(l) && l matches LocatorV::Local { target } && target
            == spec_local_target(uri),
{
}

/// A locator that has neither local-path syntax nor one of the recognized
/// scheme prefixes always fails with `InvalidLocator`.
pub proof fn lemma_unknown_scheme_invalid(uri: Seq<char>)
    requires
        !is_local_prefix(uri),
        !spec_starts_with(uri, "git:"@),
        !spec_starts_with(uri, "github:"@),
        !spec_starts_with(uri, "gitlab:"@),
        !spec_starts_with(uri, "sourcehut:"@),
        !spec_starts_with(uri, "tarball:"@),
        !spec_starts_with(uri, "http://"@),
        !spec_starts_with(uri, "https://"@),
    ensures
        spec_parse(uri) == Err::<LocatorV, ResolveError>(ResolveError::InvalidLocator),
{
}

/// A `sourcehut:` locator always classifies as the unsupported-forge
/// kind, whatever its remainder looks like, and never as any other kind;
/// resolution then always refuses that kind, so such a locator always
/// fails with the not-implemented error and never falls through to
/// another rule.
pub proof fn lemma_sourcehut_never_falls_through(uri: Seq<char>)
    requires
        spec_starts_with(uri, "sourcehut:"@),
    ensures
        spec_parse(uri) matches Ok(l) && l is Sourcehut,
{
    reveal_strlit("sourcehut:");
    reveal_strlit("path:");
    reveal_strlit("git:");
    reveal_strlit("github:");
    reveal_strlit("gitlab:");
    reveal_strlit("tarball:");
    reveal_strlit("http://");
    reveal_strlit("https://");
    assert(uri.len() >= 10);
    assert(uri[0] == 's') by {
        assert(uri.subrange(0, 10)[0] == uri[0]);
    }
    assert(!is_local_prefix(uri)) by {
        if spec_starts_with(uri, "path:"@) {
            assert(uri.subrange(0, 5)[0] == uri[0]);
        }
    }
    assert(!spec_starts_with(uri, "git:"@)) by {
        if spec_starts_with(uri, "git:"@) {
            assert(uri.subrange(0, 4)[0] == uri[0]);
        }
    }
    assert(!spec_starts_with(uri, "github:"@)) by {
        if spec_starts_with(uri, "github:"@) {
            assert(uri.subrange(0, 7)[0] == uri[0]);
        }
    }
    assert(!spec_starts_with(uri, "gitlab:"@)) by {
        if spec_starts_with(uri, "gitlab:"@) {
            assert(uri.subrange(0, 7)[0] == uri[0]);
        }
    }
}

} // verus!
