use nilla::cli::{make_examples, normalize_row, run_target, shell_attr};
use nilla::errors::ResolveError;
use nilla::nix::{
    attr_names_expr, build_args, current_system_expr, eval_args, exists_in_project_expr,
    explain_attr_expr, has_explainer_expr, interpret_bool_output, interpret_eval_output,
    main_program_expr, pinned_source_expr, realise_args, BuildOpts, EvalOpts, EvalResult,
    ShellOpts,
};
use nilla::plugin_metadata::{clean_version, plugin_name_of};
use nilla::plugins::{insert_plugin, str_lt_exec, PluginInfo};
use nilla::project::{EngineOutput, FixedOutputStoreEntry};
use nilla::search::search_up_for_file;
use nilla::strutil::{
    contains_sub, find_sub, query_get, split_lines, split_string, str_eq, trim_str,
};

fn entry() -> FixedOutputStoreEntry {
    FixedOutputStoreEntry {
        path: "/nix/store/abc-src".to_string(),
        hash: "sha256-h".to_string(),
    }
}

#[test]
fn eval_args_respects_the_mode_flags() {
    let both = eval_args("1 + 1", &EvalOpts { json: true, impure: true });
    assert_eq!(both, vec!["eval", "--show-trace", "--json", "--impure", "--expr", "1 + 1"]);
    let neither = eval_args("x", &EvalOpts { json: false, impure: false });
    assert_eq!(neither, vec!["eval", "--show-trace", "--expr", "x"]);
    let json_only = eval_args("x", &EvalOpts { json: true, impure: false });
    assert_eq!(json_only, vec!["eval", "--show-trace", "--json", "--expr", "x"]);
}

#[test]
fn eval_opts_default_is_pure_raw() {
    let opts = EvalOpts::default();
    assert!(!opts.json);
    assert!(!opts.impure);
}

#[test]
fn realise_args_are_exact() {
    assert_eq!(realise_args("/nix/store/p"), vec!["--realise", "/nix/store/p"]);
}

#[test]
fn eval_output_is_trimmed_and_tagged() {
    let out = EngineOutput {
        success: true,
        stdout: "  result text \n".to_string(),
        stderr: String::new(),
    };
    match interpret_eval_output(&EvalOpts { json: false, impure: false }, &out).unwrap() {
        EvalResult::Raw(t) => assert_eq!(t, "result text"),
        other => panic!("expected raw, got {other:?}"),
    }
    match interpret_eval_output(&EvalOpts { json: true, impure: false }, &out).unwrap() {
        EvalResult::Json(t) => assert_eq!(t, "result text"),
        other => panic!("expected json, got {other:?}"),
    }
}

#[test]
fn eval_output_failure_carries_stderr() {
    let out = EngineOutput {
        success: false,
        stdout: String::new(),
        stderr: "boom".to_string(),
    };
    let err = interpret_eval_output(&EvalOpts::default(), &out).unwrap_err();
    assert_eq!(err, ResolveError::FetchFailed("boom".to_string()));
}

#[test]
fn bool_output_reads_json_booleans() {
    let out = EngineOutput {
        success: true,
        stdout: "true\n".to_string(),
        stderr: String::new(),
    };
    assert_eq!(interpret_bool_output(&out).unwrap(), true);
    let out = EngineOutput {
        success: true,
        stdout: "\"nope\"".to_string(),
        stderr: String::new(),
    };
    assert!(matches!(interpret_bool_output(&out).unwrap_err(), ResolveError::FetchFailed(_)));
}

#[test]
fn current_system_expression() {
    assert_eq!(current_system_expr(), "builtins.currentSystem");
}

#[test]
fn pinned_source_is_hash_pinned() {
    assert_eq!(
        pinned_source_expr(&entry()),
        "builtins.path { path = \"/nix/store/abc-src\"; sha256 = \"sha256-h\"; }"
    );
}

#[test]
fn exists_expr_plain_name() {
    assert_eq!(
        exists_in_project_expr("nilla.nix", &entry(), "packages"),
        "let source = builtins.path { path = \"/nix/store/abc-src\"; sha256 = \"sha256-h\"; }; project = import \"${source}/nilla.nix\"; in project ? packages"
    );
}

#[test]
fn exists_expr_dotted_name_defaults_the_prefix() {
    assert_eq!(
        exists_in_project_expr("nilla.nix", &entry(), "packages.hello.result"),
        "let source = builtins.path { path = \"/nix/store/abc-src\"; sha256 = \"sha256-h\"; }; project = import \"${source}/nilla.nix\"; in (project.packages.hello or {}) ? result"
    );
}

#[test]
fn main_program_expr_is_exact() {
    assert_eq!(
        main_program_expr("nilla.nix", &entry(), "hello", "x86_64-linux"),
        "let source = builtins.path { path = \"/nix/store/abc-src\"; sha256 = \"sha256-h\"; }; project = import \"${source}/nilla.nix\"; name = \"hello\"; in project.packages.${name}.result.\"x86_64-linux\".meta.mainProgram or name"
    );
}

#[test]
fn show_expressions_are_exact() {
    assert_eq!(
        has_explainer_expr("nilla.nix", &entry(), "packages"),
        "let source = builtins.path { path = \"/nix/store/abc-src\"; sha256 = \"sha256-h\"; }; project = import \"${source}/nilla.nix\"; attribute = \"packages\"; in project.explain ? ${attribute}"
    );
    assert_eq!(
        explain_attr_expr("nilla.nix", &entry(), "packages"),
        "let source = builtins.path { path = \"/nix/store/abc-src\"; sha256 = \"sha256-h\"; }; project = import \"${source}/nilla.nix\"; attribute = \"packages\"; in project.explain.\"${attribute}\".result or null"
    );
    assert_eq!(
        attr_names_expr("nilla.nix", &entry()),
        "let source = builtins.path { path = \"/nix/store/abc-src\"; sha256 = \"sha256-h\"; }; project = import \"${source}/nilla.nix\"; in builtins.attrNames (builtins.removeAttrs project [ \"assertions\" \"warnings\" \"extend\" \"explain\" ])"
    );
}

#[test]
fn build_args_cover_all_flags() {
    let args = build_args(
        "/p/nilla.nix",
        "packages.x",
        &BuildOpts { link: false, report: true, system: "x86_64-linux" },
    );
    assert_eq!(
        args,
        vec!["build", "--no-link", "--print-out-paths", "-f", "/p/nilla.nix", "--system",
            "x86_64-linux", "packages.x"]
    );
    let args = build_args("/p/nilla.nix", "a", &BuildOpts { link: true, report: false, system: "" });
    assert_eq!(args, vec!["build", "-f", "/p/nilla.nix", "a"]);
}

#[test]
fn shell_args_cover_both_shapes() {
    let args = nilla::nix::shell_args("/p/nilla.nix", "shells.d", &ShellOpts { system: "s" });
    assert_eq!(args, vec!["/p/nilla.nix", "--system", "s", "-A", "shells.d"]);
    let args = nilla::nix::shell_args("/p/nilla.nix", "shells.d", &ShellOpts { system: "" });
    assert_eq!(args, vec!["/p/nilla.nix", "-A", "shells.d"]);
}

#[test]
fn run_target_shapes() {
    let (attr, name) = run_target(&None, "x86_64-linux");
    assert_eq!(attr, "packages.default.result.\"x86_64-linux\"");
    assert_eq!(name, "default");
    let (attr, name) = run_target(&Some("hello".to_string()), "s");
    assert_eq!(attr, "packages.\"hello\".result.\"s\"");
    assert_eq!(name, "hello");
    let (attr, name) = run_target(&Some("packages.hello.result".to_string()), "s");
    assert_eq!(attr, "packages.hello.result");
    assert_eq!(name, "hello");
}

#[test]
fn rows_are_fitted_to_the_column_count() {
    let row = vec!["a".to_string(), "b".to_string()];
    assert_eq!(normalize_row(&row, 4), vec!["a", "b", "", ""]);
    assert_eq!(normalize_row(&row, 1), vec!["a"]);
    assert_eq!(normalize_row(&row, 2), vec!["a", "b"]);
    assert_eq!(normalize_row(&Vec::new(), 0), Vec::<String>::new());
}

#[test]
fn shell_attr_is_exact() {
    assert_eq!(shell_attr("dev", "x86_64-linux"), "shells.\"dev\".result.\"x86_64-linux\"");
}

#[test]
fn make_examples_renders_heading_and_blocks() {
    assert_eq!(make_examples(&[]), "\u{1b}[1m\u{1b}[4mExamples:\u{1b}[0m");
    assert_eq!(
        make_examples(&[("Run it.", "run mypackage")]),
        "\u{1b}[1m\u{1b}[4mExamples:\u{1b}[0m\n\u{1b}[2m# Run it.\u{1b}[0m\n\u{1b}[2m$\u{1b}[0m \u{1b}[1mnilla\u{1b}[0m run mypackage"
    );
}

#[test]
fn clean_version_takes_the_last_word() {
    assert_eq!(clean_version("nilla 1.2.3"), "1.2.3");
    assert_eq!(clean_version("1.2.3"), "1.2.3");
    assert_eq!(clean_version("my tool v0.9"), "v0.9");
}

#[test]
fn plugin_names_come_from_the_prefix() {
    assert_eq!(plugin_name_of("nilla-home"), Some("home".to_string()));
    assert_eq!(plugin_name_of("nilla"), None);
    assert_eq!(plugin_name_of("other-tool"), None);
}

#[test]
fn insert_plugin_sorts_and_deduplicates() {
    let mut plugins: Vec<PluginInfo> = Vec::new();
    assert!(insert_plugin(&mut plugins, "home".to_string(), "/a/nilla-home".to_string()));
    assert!(insert_plugin(&mut plugins, "cloud".to_string(), "/a/nilla-cloud".to_string()));
    assert!(insert_plugin(&mut plugins, "zeta".to_string(), "/a/nilla-zeta".to_string()));
    // the same name from another directory is ignored: first sighting wins
    assert!(!insert_plugin(&mut plugins, "home".to_string(), "/b/nilla-home".to_string()));
    let names: Vec<&str> = plugins.iter().map(|p| p.name.as_str()).collect();
    assert_eq!(names, vec!["cloud", "home", "zeta"]);
    assert_eq!(plugins[1].path, "/a/nilla-home");
}

#[test]
fn str_lt_orders_by_code_point() {
    assert!(str_lt_exec("abc", "abd"));
    assert!(str_lt_exec("ab", "abc"));
    assert!(!str_lt_exec("abc", "abc"));
    assert!(!str_lt_exec("b", "abc"));
}

#[test]
fn search_up_gives_up_at_the_root() {
    let start = "/nonexistent_dir_for_nilla_tests/deeper".to_string();
    assert!(search_up_for_file(&start, "no_such_file_for_nilla_tests").is_none());
}

#[test]
fn split_and_trim_behave_like_their_specs() {
    assert_eq!(split_string("a&b&&c", '&'), vec!["a", "b", "", "c"]);
    assert_eq!(split_string("", '&'), vec![""]);
    assert_eq!(split_lines("a\r\nb\nc\n"), vec!["a", "b", "c"]);
    assert_eq!(split_lines(""), Vec::<String>::new());
    assert_eq!(trim_str("  padded\t\n"), "padded");
    assert_eq!(trim_str("   "), "");
}

#[test]
fn query_lookup_takes_the_first_match() {
    assert_eq!(query_get("rev=a&rev=b", "rev"), Some("a".to_string()));
    assert_eq!(query_get("x=1&y=2", "y"), Some("2".to_string()));
    assert_eq!(query_get("flag", "flag"), Some("".to_string()));
    assert_eq!(query_get("x=1", "missing"), None);
}

#[test]
fn substring_search_finds_first_occurrence() {
    assert_eq!(find_sub("hello help", "hel"), Some(0));
    assert_eq!(find_sub("say hello", "hel"), Some(4));
    assert_eq!(find_sub("nothing", "xyz"), None);
    assert!(contains_sub("supports completions here", "completion"));
    assert!(str_eq("same", "same"));
    assert!(!str_eq("same", "different"));
}

#[test]
fn error_kinds_have_stable_names() {
    assert_eq!(ResolveError::InvalidLocator.kind_name(), "invalid locator");
    assert_eq!(ResolveError::ProjectNotFound.kind_name(), "project not found");
    assert_eq!(ResolveError::FetchFailed(String::new()).kind_name(), "fetch failed");
    assert_eq!(ResolveError::NotImplemented.kind_name(), "not implemented");
}
