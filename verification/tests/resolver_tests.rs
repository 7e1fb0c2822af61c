use nilla::errors::ResolveError;
use nilla::jsontext::{git_info_json, parse_json_bool, parse_json_string, parse_json_string_array};
use nilla::locator::GitInfo;
use nilla::project::{
    fetch_git_expr, fetch_tarball_expr, finish_git, finish_tarball, get_store_path_name,
    hash_path_expr, interpret_fetch_output, interpret_realise_output, join_path,
    manifest_file_name, parent_dir, EngineOutput, FixedOutputStoreEntry, Source,
};

fn plain_info(url: &str) -> GitInfo {
    GitInfo {
        url: url.to_string(),
        rev: None,
        reference: None,
        dir: None,
        submodules: false,
    }
}

#[test]
fn git_info_json_with_no_options() {
    let json = git_info_json(&plain_info("https://example.com/r.git"));
    assert_eq!(
        json,
        "{\"url\":\"https://example.com/r.git\",\"rev\":null,\"ref\":null,\"dir\":null,\"submodules\":false}"
    );
}

#[test]
fn git_info_json_with_everything_set() {
    let info = GitInfo {
        url: "git@github.com:foo/bar.git".to_string(),
        rev: Some("abc".to_string()),
        reference: Some("main".to_string()),
        dir: Some("sub".to_string()),
        submodules: true,
    };
    assert_eq!(
        git_info_json(&info),
        "{\"url\":\"git@github.com:foo/bar.git\",\"rev\":\"abc\",\"ref\":\"main\",\"dir\":\"sub\",\"submodules\":true}"
    );
}

#[test]
fn git_info_json_escapes_special_characters() {
    let json = git_info_json(&plain_info("a\"b\\c\nd\te"));
    assert_eq!(
        json,
        "{\"url\":\"a\\\"b\\\\c\\nd\\te\",\"rev\":null,\"ref\":null,\"dir\":null,\"submodules\":false}"
    );
}

#[test]
fn git_info_json_escapes_control_characters() {
    let json = git_info_json(&plain_info("x\u{1}y"));
    assert_eq!(
        json,
        "{\"url\":\"x\\u0001y\",\"rev\":null,\"ref\":null,\"dir\":null,\"submodules\":false}"
    );
}

#[test]
fn fetch_git_expr_embeds_the_json() {
    let expr = fetch_git_expr(&plain_info("u"));
    assert_eq!(
        expr,
        "let info = builtins.fromJSON ''{\"url\":\"u\",\"rev\":null,\"ref\":null,\"dir\":null,\"submodules\":false}''; in builtins.fetchGit ({ url = info.url; } // (if info.rev != null then { rev = info.rev; } else {}) // (if info.ref != null then { ref = info.ref; } else {}) // (if info.submodules != null then { submodules = info.submodules; } else {}))"
    );
}

#[test]
fn fetch_tarball_expr_is_exact() {
    assert_eq!(
        fetch_tarball_expr("http://example.com/x.tar.gz"),
        "builtins.fetchTarball { url = \"http://example.com/x.tar.gz\"; }"
    );
}

#[test]
fn hash_path_expr_is_exact() {
    assert_eq!(
        hash_path_expr("/nix/store/abc-src"),
        "builtins.hashPath \"sha256\" \"/nix/store/abc-src\""
    );
}

#[test]
fn parse_json_string_accepts_plain_text() {
    assert_eq!(parse_json_string("\"/nix/store/abc\"").unwrap(), "/nix/store/abc");
}

#[test]
fn parse_json_string_handles_escapes() {
    assert_eq!(parse_json_string("\"a\\nb\\\"c\\\\d\"").unwrap(), "a\nb\"c\\d");
}

#[test]
fn parse_json_string_rejects_malformed_text() {
    assert!(parse_json_string("not json").is_none());
    assert!(parse_json_string("\"unterminated").is_none());
    assert!(parse_json_string("\"bad\\qescape\"").is_none());
    assert!(parse_json_string("\"u\\u0041\"").is_none());
    assert!(parse_json_string("").is_none());
}

#[test]
fn parse_json_string_array_reads_compact_arrays() {
    assert_eq!(
        parse_json_string_array("[\"packages\",\"shells\"]").unwrap(),
        vec!["packages".to_string(), "shells".to_string()]
    );
    assert_eq!(parse_json_string_array("[]").unwrap(), Vec::<String>::new());
    assert_eq!(parse_json_string_array("[\"with\\\"quote\"]").unwrap(), vec!["with\"quote"]);
    assert!(parse_json_string_array("[\"a\",]").is_none());
    assert!(parse_json_string_array("[1,2]").is_none());
    assert!(parse_json_string_array("\"a\"").is_none());
    assert!(parse_json_string_array("[\"a\"").is_none());
}

#[test]
fn parse_json_bool_is_exact() {
    assert_eq!(parse_json_bool("true"), Some(true));
    assert_eq!(parse_json_bool("false"), Some(false));
    assert_eq!(parse_json_bool("True"), None);
    assert_eq!(parse_json_bool("1"), None);
}

fn success(stdout: &str) -> EngineOutput {
    EngineOutput {
        success: true,
        stdout: stdout.to_string(),
        stderr: String::new(),
    }
}

#[test]
fn fetch_output_success_returns_store_path() {
    let out = success("\"/nix/store/abc-src\"\n");
    assert_eq!(interpret_fetch_output(&out).unwrap(), "/nix/store/abc-src");
}

#[test]
fn fetch_output_failure_keeps_diagnostics() {
    let out = EngineOutput {
        success: false,
        stdout: String::new(),
        stderr: "engine exploded".to_string(),
    };
    assert_eq!(
        interpret_fetch_output(&out).unwrap_err(),
        ResolveError::FetchFailed("engine exploded".to_string())
    );
}

#[test]
fn fetch_output_non_string_is_a_failure() {
    let out = success("{ \"not\": \"a string\" }");
    match interpret_fetch_output(&out).unwrap_err() {
        ResolveError::FetchFailed(m) => {
            assert_eq!(m, "expected a JSON string from the fetch engine")
        },
        other => panic!("expected fetch failure, got {other:?}"),
    }
}

#[test]
fn realise_output_splits_lines() {
    let out = success("/nix/store/a\n/nix/store/b\n");
    assert_eq!(
        interpret_realise_output(&out).unwrap(),
        vec!["/nix/store/a".to_string(), "/nix/store/b".to_string()]
    );
}

#[test]
fn finish_git_appends_requested_dir() {
    let mut info = plain_info("u");
    info.dir = Some("sub".to_string());
    let paths = vec!["/nix/store/abc-src".to_string()];
    let src = finish_git(info, &paths, "sha256-x".to_string()).unwrap();
    match src {
        Source::Git { path, entry, .. } => {
            assert_eq!(path, "/nix/store/abc-src/sub");
            assert_eq!(entry.path, "/nix/store/abc-src");
            assert_eq!(entry.hash, "sha256-x");
        },
        other => panic!("expected git source, got {other:?}"),
    }
}

#[test]
fn finish_git_without_dir_keeps_root() {
    let paths = vec!["/nix/store/abc-src".to_string()];
    let src = finish_git(plain_info("u"), &paths, "h".to_string()).unwrap();
    assert_eq!(src.get_path(), "/nix/store/abc-src");
}

#[test]
fn finish_git_with_no_paths_fails() {
    let err = finish_git(plain_info("u"), &Vec::new(), "h".to_string()).unwrap_err();
    assert_eq!(
        err,
        ResolveError::FetchFailed("the fetch engine realized no paths".to_string())
    );
}

#[test]
fn finish_tarball_keeps_first_path() {
    let paths = vec!["/nix/store/tar-root".to_string(), "/nix/store/other".to_string()];
    let src = finish_tarball("http://e/x.tar.gz".to_string(), &paths, "h".to_string()).unwrap();
    match &src {
        Source::Tarball { url, path, entry } => {
            assert_eq!(url, "http://e/x.tar.gz");
            assert_eq!(path, "/nix/store/tar-root");
            assert_eq!(entry.path, "/nix/store/tar-root");
        },
        other => panic!("expected tarball source, got {other:?}"),
    }
    assert_eq!(src.get_subpath(), "");
}

#[test]
fn finish_tarball_with_no_paths_fails() {
    let err =
        finish_tarball("u".to_string(), &Vec::new(), "h".to_string()).unwrap_err();
    assert!(matches!(err, ResolveError::FetchFailed(_)));
}

#[test]
fn source_accessors() {
    let local = Source::Path { path: "/srv/p".to_string() };
    assert_eq!(local.clone().get_subpath(), "");
    assert!(local.clone().get_entry().is_none());
    assert_eq!(local.get_path(), "/srv/p");

    let mut info = plain_info("u");
    info.dir = Some("nested/dir".to_string());
    let git = Source::Git {
        info,
        path: "/root/nested/dir".to_string(),
        entry: FixedOutputStoreEntry { path: "/root".to_string(), hash: "h".to_string() },
    };
    assert_eq!(git.clone().get_subpath(), "nested/dir");
    assert_eq!(git.clone().get_entry().unwrap().hash, "h");
    assert_eq!(git.get_path(), "/root/nested/dir");
}

#[test]
fn parent_dir_strips_the_manifest_filename() {
    assert_eq!(parent_dir("/home/user/proj/nilla.nix"), "/home/user/proj");
    assert_eq!(parent_dir("/nilla.nix"), "/");
    assert_eq!(parent_dir("/"), "/");
    assert_eq!(parent_dir("bare"), "");
}

#[test]
fn join_path_inserts_one_slash() {
    assert_eq!(join_path("/srv/p", "nilla.nix"), "/srv/p/nilla.nix");
    assert_eq!(join_path("/", "nilla.nix"), "/nilla.nix");
    assert_eq!(join_path("", "nilla.nix"), "nilla.nix");
}

#[test]
fn manifest_name_is_fixed() {
    assert_eq!(manifest_file_name(), "nilla.nix");
}

#[test]
fn store_path_name_drops_the_digest() {
    assert_eq!(get_store_path_name("/nix/store/abc123xyz-hello-1.0"), "hello-1.0");
    assert_eq!(get_store_path_name("plain-name"), "name");
    assert_eq!(get_store_path_name("nodigest"), "nodigest");
}
