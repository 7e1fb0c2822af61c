use nilla::errors::ResolveError;
use nilla::locator::{parse_locator, GitInfo, ParsedLocator};
use nilla::project::{plan_resolution, ResolveAction};

fn parse_ok(uri: &str) -> ParsedLocator {
    match parse_locator(uri) {
        Ok(p) => p,
        Err(e) => panic!("expected {uri} to parse, got {e:?}"),
    }
}

#[test]
fn dot_prefix_is_local() {
    match parse_ok("./projects/demo") {
        ParsedLocator::Local { target } => assert_eq!(target, "./projects/demo"),
        other => panic!("expected local, got {other:?}"),
    }
}

#[test]
fn slash_prefix_is_local() {
    match parse_ok("/srv/demo") {
        ParsedLocator::Local { target } => assert_eq!(target, "/srv/demo"),
        other => panic!("expected local, got {other:?}"),
    }
}

#[test]
fn tilde_prefix_is_local() {
    match parse_ok("~/demo") {
        ParsedLocator::Local { target } => assert_eq!(target, "~/demo"),
        other => panic!("expected local, got {other:?}"),
    }
}

#[test]
fn path_prefix_is_stripped() {
    match parse_ok("path:relative/dir") {
        ParsedLocator::Local { target } => assert_eq!(target, "relative/dir"),
        other => panic!("expected local, got {other:?}"),
    }
}

#[test]
fn local_prefix_wins_over_scheme_like_text() {
    // a scheme-like substring later in the string changes nothing
    match parse_ok("./github:foo/bar") {
        ParsedLocator::Local { target } => assert_eq!(target, "./github:foo/bar"),
        other => panic!("expected local, got {other:?}"),
    }
    match parse_ok("/srv/git:thing?rev=x") {
        ParsedLocator::Local { target } => assert_eq!(target, "/srv/git:thing?rev=x"),
        other => panic!("expected local, got {other:?}"),
    }
    match parse_ok("path:tarball:example.com/x.tar.gz") {
        ParsedLocator::Local { target } => assert_eq!(target, "tarball:example.com/x.tar.gz"),
        other => panic!("expected local, got {other:?}"),
    }
}

#[test]
fn github_shorthand_normalizes_to_git_info() {
    let info = match parse_ok("github:foo/bar") {
        ParsedLocator::Forge { info } => info,
        other => panic!("expected forge, got {other:?}"),
    };
    assert_eq!(info.owner, "foo");
    assert_eq!(info.repo, "bar");
    assert_eq!(info.host, "github.com");
    let git = GitInfo::from(info);
    assert_eq!(git.url, "git@github.com:foo/bar.git");
    assert_eq!(git.rev, None);
    assert_eq!(git.reference, None);
    assert_eq!(git.dir, None);
    assert!(!git.submodules);
}

#[test]
fn github_query_parameters_are_extracted() {
    let info = match parse_ok("github:foo/bar?dir=sub&rev=abc123") {
        ParsedLocator::Forge { info } => info,
        other => panic!("expected forge, got {other:?}"),
    };
    assert_eq!(info.dir, Some("sub".to_string()));
    assert_eq!(info.rev, Some("abc123".to_string()));
    assert_eq!(info.reference, None);
}

#[test]
fn github_host_override() {
    let info = match parse_ok("github:foo/bar?host=github.example.com") {
        ParsedLocator::Forge { info } => info,
        other => panic!("expected forge, got {other:?}"),
    };
    assert_eq!(info.host, "github.example.com");
    let git = GitInfo::from(info);
    assert_eq!(git.url, "git@github.example.com:foo/bar.git");
}

#[test]
fn gitlab_defaults_to_gitlab_host() {
    let info = match parse_ok("gitlab:group/proj?ref=main") {
        ParsedLocator::Forge { info } => info,
        other => panic!("expected forge, got {other:?}"),
    };
    assert_eq!(info.host, "gitlab.com");
    assert_eq!(info.reference, Some("main".to_string()));
    let git = GitInfo::from(info);
    assert_eq!(git.url, "git@gitlab.com:group/proj.git");
}

#[test]
fn forge_without_repo_is_invalid() {
    assert_eq!(parse_locator("github:justowner").unwrap_err(), ResolveError::InvalidLocator);
}

#[test]
fn git_scheme_keeps_url_and_query() {
    let info = match parse_ok("git:https://example.com/repo.git?rev=deadbeef&submodules=true") {
        ParsedLocator::Git { info } => info,
        other => panic!("expected git, got {other:?}"),
    };
    assert_eq!(info.url, "https://example.com/repo.git");
    assert_eq!(info.rev, Some("deadbeef".to_string()));
    assert!(info.submodules);
}

#[test]
fn git_submodules_only_true_counts() {
    let info = match parse_ok("git:u?submodules=yes") {
        ParsedLocator::Git { info } => info,
        other => panic!("expected git, got {other:?}"),
    };
    assert!(!info.submodules);
    let info = match parse_ok("git:u?submodules") {
        ParsedLocator::Git { info } => info,
        other => panic!("expected git, got {other:?}"),
    };
    assert!(!info.submodules);
}

#[test]
fn git_with_empty_url_is_invalid() {
    assert_eq!(parse_locator("git:").unwrap_err(), ResolveError::InvalidLocator);
    assert_eq!(parse_locator("git:?rev=x").unwrap_err(), ResolveError::InvalidLocator);
}

#[test]
fn tarball_without_scheme_gets_http_prefix() {
    match parse_ok("tarball:example.com/x.tar.gz") {
        ParsedLocator::Archive { url } => assert_eq!(url, "http://example.com/x.tar.gz"),
        other => panic!("expected archive, got {other:?}"),
    }
}

#[test]
fn tarball_with_scheme_is_kept() {
    match parse_ok("tarball:https://example.com/x.tar.gz") {
        ParsedLocator::Archive { url } => assert_eq!(url, "https://example.com/x.tar.gz"),
        other => panic!("expected archive, got {other:?}"),
    }
}

#[test]
fn bare_http_urls_are_archives() {
    match parse_ok("http://example.com/y.tar.gz") {
        ParsedLocator::Archive { url } => assert_eq!(url, "http://example.com/y.tar.gz"),
        other => panic!("expected archive, got {other:?}"),
    }
    match parse_ok("https://example.com/y.tar.gz") {
        ParsedLocator::Archive { url } => assert_eq!(url, "https://example.com/y.tar.gz"),
        other => panic!("expected archive, got {other:?}"),
    }
}

#[test]
fn unknown_scheme_fails_with_invalid_locator() {
    assert_eq!(parse_locator("foo:bar").unwrap_err(), ResolveError::InvalidLocator);
    assert_eq!(parse_locator("example.com/x").unwrap_err(), ResolveError::InvalidLocator);
    assert_eq!(parse_locator("").unwrap_err(), ResolveError::InvalidLocator);
}

#[test]
fn unknown_scheme_plans_no_outside_work() {
    // an invalid locator never reaches the planning step, so no fetch
    // expression is ever built for it
    assert!(parse_locator("foo:bar").is_err());
}

#[test]
fn sourcehut_is_recognized_but_not_implemented() {
    let parsed = parse_ok("sourcehut:~user/proj");
    match &parsed {
        ParsedLocator::Sourcehut { info } => {
            assert_eq!(info.owner, "~user");
            assert_eq!(info.repo, "proj");
            assert_eq!(info.host, "git.sr.ht");
        },
        other => panic!("expected sourcehut, got {other:?}"),
    }
    assert_eq!(plan_resolution(parsed).unwrap_err(), ResolveError::NotImplemented);
}

#[test]
fn sourcehut_never_falls_through() {
    // even a sourcehut locator whose remainder names no repository stays
    // in the sourcehut rule and still fails with the not-implemented error
    let parsed = parse_ok("sourcehut:noslash");
    match &parsed {
        ParsedLocator::Sourcehut { info } => {
            assert_eq!(info.owner, "noslash");
            assert_eq!(info.repo, "");
        },
        other => panic!("expected sourcehut, got {other:?}"),
    }
    assert_eq!(plan_resolution(parsed).unwrap_err(), ResolveError::NotImplemented);
}

#[test]
fn rev_and_ref_are_both_forwarded_without_precedence() {
    let info = match parse_ok("git:u?rev=abc&ref=main") {
        ParsedLocator::Git { info } => info,
        other => panic!("expected git, got {other:?}"),
    };
    assert_eq!(info.rev, Some("abc".to_string()));
    assert_eq!(info.reference, Some("main".to_string()));
    let expr = match plan_resolution(ParsedLocator::Git { info }).unwrap() {
        ResolveAction::FetchGit { expr, .. } => expr,
        other => panic!("expected git fetch plan, got {other:?}"),
    };
    assert!(expr.contains("\"rev\":\"abc\""));
    assert!(expr.contains("\"ref\":\"main\""));
}

#[test]
fn forge_extra_path_segments_are_dropped() {
    let info = match parse_ok("github:foo/bar/extra") {
        ParsedLocator::Forge { info } => info,
        other => panic!("expected forge, got {other:?}"),
    };
    assert_eq!(info.owner, "foo");
    assert_eq!(info.repo, "bar");
}

#[test]
fn empty_query_leaves_the_defaults() {
    let info = match parse_ok("git:u?") {
        ParsedLocator::Git { info } => info,
        other => panic!("expected git, got {other:?}"),
    };
    assert_eq!(info.url, "u");
    assert_eq!(info.rev, None);
    assert!(!info.submodules);
}

#[test]
fn forge_submodules_flag() {
    let info = match parse_ok("github:foo/bar?submodules=true") {
        ParsedLocator::Forge { info } => info,
        other => panic!("expected forge, got {other:?}"),
    };
    assert!(info.submodules);
}

#[test]
fn path_prefix_alone_is_an_empty_target() {
    match parse_ok("path:") {
        ParsedLocator::Local { target } => assert_eq!(target, ""),
        other => panic!("expected local, got {other:?}"),
    }
}

#[test]
fn plan_for_local_is_local_work() {
    match plan_resolution(parse_ok("./here")).unwrap() {
        ResolveAction::UseLocal { target } => assert_eq!(target, "./here"),
        other => panic!("expected local plan, got {other:?}"),
    }
}

#[test]
fn plan_for_forge_normalizes_before_fetch() {
    match plan_resolution(parse_ok("github:foo/bar")).unwrap() {
        ResolveAction::FetchGit { info, expr } => {
            assert_eq!(info.url, "git@github.com:foo/bar.git");
            assert!(expr.contains("builtins.fetchGit"));
            assert!(expr.contains("git@github.com:foo/bar.git"));
        },
        other => panic!("expected git fetch plan, got {other:?}"),
    }
}

#[test]
fn plan_for_tarball_uses_normalized_url() {
    match plan_resolution(parse_ok("tarball:example.com/x.tar.gz")).unwrap() {
        ResolveAction::FetchArchive { url, expr } => {
            assert_eq!(url, "http://example.com/x.tar.gz");
            assert_eq!(
                expr,
                "builtins.fetchTarball { url = \"http://example.com/x.tar.gz\"; }"
            );
        },
        other => panic!("expected archive fetch plan, got {other:?}"),
    }
}
