//! The calling convention of the external evaluation engine.
//!
//! The engine is a separate program; this module builds the exact argument
//! lists and expression texts submitted to it and interprets what comes
//! back, all as plain functions with exact contracts.  Spawning the
//! process itself happens outside the library.

use vstd::prelude::*;
use vstd::string::*;

use crate::errors::ResolveError;
use crate::jsontext::parse_json_bool;
use crate::project::{EngineOutput, FixedOutputStoreEntry, StoreEntryV};
use crate::strutil::{
    lemma_last_occ_none, lemma_last_occ_some, rfind_char, spec_trim, substring_string, trim_str,
    views_of,
};

verus! {

/// Options of one engine evaluation.
pub struct EvalOpts {
    pub json: bool,
    pub impure: bool,
}

impl Default for EvalOpts {
    /// By default an evaluation is pure and returns raw text.
    fn default() -> (r: Self)
        ensures
            !r.json,
            !r.impure,
    {
        EvalOpts { json: false, impure: false }
    }
}

/// The engine's answer to an evaluation: a JSON document kept as raw text,
/// or trimmed raw output.
#[derive(Debug, Clone)]
pub enum EvalResult {
    Json(String),
    Raw(String),
}

/// The argument list of one evaluation: `eval --show-trace`, the mode
/// flags that are on, then `--expr` and the expression itself.
pub open spec fn spec_eval_args(code: Seq<char>, json: bool, impure: bool) -> Seq<Seq<char>> {
    seq!["eval"@, "--show-trace"@] + (if json {
        seq!["--json"@]
    } else {
        Seq::empty()
    }) + (if impure {
        seq!["--impure"@]
    } else {
        Seq::empty()
    }) + seq!["--expr"@, code]
}

/// Build the argument list of one evaluation.
pub fn eval_args(code: &str, opts: &EvalOpts) -> (r: Vec<String>)
    ensures
        views_of(r@) == spec_eval_args(code@, opts.json, opts.impure),
{
    let mut args: Vec<String> = Vec::new();
    args.push(String::from_str("eval"));
    args.push(String::from_str("--show-trace"));
    if opts.json {
        args.push(String::from_str("--json"));
    }
    if opts.impure {
        args.push(String::from_str("--impure"));
    }
    args.push(String::from_str("--expr"));
    args.push(String::from_str(code));
    proof {
        assert(views_of(args@) =~= spec_eval_args(code@, opts.json, opts.impure));
    }
    args
}

/// The argument list of one realization request.
pub open spec fn spec_realise_args(path: Seq<char>) -> Seq<Seq<char>> {
    seq!["--realise"@, path]
}

/// Build the argument list of one realization request.
pub fn realise_args(path: &str) -> (r: Vec<String>)
    ensures
        views_of(r@) == spec_realise_args(path@),
{
    let mut args: Vec<String> = Vec::new();
    args.push(String::from_str("--realise"));
    args.push(String::from_str(path));
    proof {
        assert(views_of(args@) =~= spec_realise_args(path@));
    }
    args
}

/// What an evaluation concludes from the engine's output: the diagnostic
/// text of a failed process, otherwise the trimmed standard output, kept
/// as a JSON document or as raw text according to the options.
pub fn interpret_eval_output(opts: &EvalOpts, out: &EngineOutput) -> (r: Result<
    EvalResult,
    ResolveError,
>)
    ensures
        match r {
            Ok(EvalResult::Json(t)) => out.success && opts.json && t@ == spec_trim(out.stdout@),
            Ok(EvalResult::Raw(t)) => out.success && !opts.json && t@ == spec_trim(out.stdout@),
            Err(e) => e matches ResolveError::FetchFailed(m) && !out.success && m@ == out.stderr@,
        },
{
    if !out.success {
        return Err(ResolveError::FetchFailed(out.stderr.clone()));
    }
    let trimmed = trim_str(out.stdout.as_str());
    if opts.json {
        Ok(EvalResult::Json(trimmed))
    } else {
        Ok(EvalResult::Raw(trimmed))
    }
}

/// What a boolean query concludes from the engine's answer: the trimmed
/// output must be exactly `true` or `false`.
pub open spec fn spec_bool_outcome(success: bool, stdout: Seq<char>, stderr: Seq<char>) -> Result<
    bool,
    Seq<char>,
> {
    if !success {
        Err(stderr)
    } else if spec_trim(stdout) == "true"@ {
        Ok(true)
    } else if spec_trim(stdout) == "false"@ {
        Ok(false)
    } else {
        Err("expected a JSON boolean from the engine"@)
    }
}

/// Interpret the engine's answer to a boolean query.
pub fn interpret_bool_output(out: &EngineOutput) -> (r: Result<bool, ResolveError>)
    ensures
        match r {
            Ok(b) => spec_bool_outcome(out.success, out.stdout@, out.stderr@) == Ok::<
                bool,
                Seq<char>,
            >(b),
            Err(e) => e matches ResolveError::FetchFailed(m) && spec_bool_outcome(
                out.success,
                out.stdout@,
                out.stderr@,
            ) == Err::<bool, Seq<char>>(m@),
        },
{
    if !out.success {
        return Err(ResolveError::FetchFailed(out.stderr.clone()));
    }
    let trimmed = trim_str(out.stdout.as_str());
    match parse_json_bool(trimmed.as_str()) {
        Some(b) => Ok(b),
        None => Err(
            ResolveError::FetchFailed(String::from_str("expected a JSON boolean from the engine")),
        ),
    }
}

/// The expression asking the engine for the current platform.
pub fn current_system_expr() -> (r: String)
    ensures
        r@ == "builtins.currentSystem"@,
{
    String::from_str("builtins.currentSystem")
}

/// A hash-pinned source declaration: in pure evaluations the engine
/// rejects raw filesystem references, so a fetched tree is always
/// referenced by its path together with its digest.
pub open spec fn spec_pinned_source(e: StoreEntryV) -> Seq<char> {
    "builtins.path { path = \""@ + e.path + "\"; sha256 = \""@ + e.hash + "\"; }"@
}

/// Build a hash-pinned source declaration.
pub fn pinned_source_expr(entry: &FixedOutputStoreEntry) -> (r: String)
    ensures
        r@ == spec_pinned_source(entry@),
{
    let mut out = String::from_str("builtins.path { path = \"");
    out.append(entry.path.as_str());
    out.append("\"; sha256 = \"");
    out.append(entry.hash.as_str());
    out.append("\"; }");
    proof {
        assert(out@ =~= spec_pinned_source(entry@));
    }
    out
}

/// The prelude shared by the project queries: pin the source, then import
/// the manifest file inside it.
pub open spec fn spec_project_prelude(file: Seq<char>, e: StoreEntryV) -> Seq<char> {
    "let source = "@ + spec_pinned_source(e) + "; project = import \"${source}/"@ + file + "\"; in "@
}

/// Build the shared project prelude.
fn project_prelude(file: &str, entry: &FixedOutputStoreEntry) -> (r: String)
    ensures
        r@ == spec_project_prelude(file@, entry@),
{
    let mut out = String::from_str("let source = ");
    let pinned = pinned_source_expr(entry);
    out.append(pinned.as_str());
    out.append("; project = import \"${source}/");
    out.append(file);
    out.append("\"; in ");
    proof {
        assert(out@ =~= spec_project_prelude(file@, entry@));
    }
    out
}

/// The attribute test of an existence query: a dotted attribute path tests
/// the last component under the (defaulted) prefix, a plain name is tested
/// directly on the project.
pub open spec fn spec_exists_test(attr: Seq<char>) -> Seq<char> {
    match crate::strutil::last_occ(attr, '.') {
        None => "project ? "@ + attr,
        Some(i) => "(project."@ + attr.subrange(0, i) + " or {}) ? "@ + attr.subrange(
            i + 1,
            attr.len() as int,
        ),
    }
}

/// The whole existence query for an attribute of the project manifest.
pub open spec fn spec_exists_expr(file: Seq<char>, e: StoreEntryV, attr: Seq<char>) -> Seq<char> {
    spec_project_prelude(file, e) + spec_exists_test(attr)
}

/// Build the expression asking whether an attribute exists in the project.
pub fn exists_in_project_expr(file: &str, entry: &FixedOutputStoreEntry, attribute: &str) -> (r:
    String)
    ensures
        r@ == spec_exists_expr(file@, entry@, attribute@),
{
    let mut out = project_prelude(file, entry);
    let n = attribute.unicode_len();
    match rfind_char(attribute, '.') {
        Some(i) => {
            proof {
                lemma_last_occ_some(attribute@, '.', i as int);
            }
            out.append("(project.");
            let init = substring_string(attribute, 0, i);
            out.append(init.as_str());
            out.append(" or {}) ? ");
            let last = substring_string(attribute, i + 1, n);
            out.append(last.as_str());
        },
        None => {
            proof {
                lemma_last_occ_none(attribute@, '.');
            }
            out.append("project ? ");
            out.append(attribute);
        },
    }
    proof {
        assert(out@ =~= spec_exists_expr(file@, entry@, attribute@));
    }
    out
}

/// The query for a package's main program: its `meta.mainProgram` under
/// the given system, falling back to the package name itself.
pub open spec fn spec_main_program_expr(
    file: Seq<char>,
    e: StoreEntryV,
    name: Seq<char>,
    system: Seq<char>,
) -> Seq<char> {
    "let source = "@ + spec_pinned_source(e) + "; project = import \"${source}/"@ + file
        + "\"; name = \""@ + name + "\"; in project.packages.${name}.result.\""@ + system
        + "\".meta.mainProgram or name"@
}

/// Build the main-program query.
pub fn main_program_expr(
    file: &str,
    entry: &FixedOutputStoreEntry,
    name: &str,
    system: &str,
) -> (r: String)
    ensures
        r@ == spec_main_program_expr(file@, entry@, name@, system@),
{
    let mut out = String::from_str("let source = ");
    let pinned = pinned_source_expr(entry);
    out.append(pinned.as_str());
    out.append("; project = import \"${source}/");
    out.append(file);
    out.append("\"; name = \"");
    out.append(name);
    out.append("\"; in project.packages.${name}.result.\"");
    out.append(system);
    out.append("\".meta.mainProgram or name");
    proof {
        assert(out@ =~= spec_main_program_expr(file@, entry@, name@, system@));
    }
    out
}

/// The query asking whether the project documents an attribute under its
/// `explain` set.
pub open spec fn spec_has_explainer_expr(file: Seq<char>, e: StoreEntryV, name: Seq<char>) -> Seq<
    char,
> {
    "let source = "@ + spec_pinned_source(e) + "; project = import \"${source}/"@ + file
        + "\"; attribute = \""@ + name + "\"; in project.explain ? ${attribute}"@
}

/// Build the explainer-existence query.
pub fn has_explainer_expr(file: &str, entry: &FixedOutputStoreEntry, name: &str) -> (r: String)
    ensures
        r@ == spec_has_explainer_expr(file@, entry@, name@),
{
    let mut out = String::from_str("let source = ");
    let pinned = pinned_source_expr(entry);
    out.append(pinned.as_str());
    out.append("; project = import \"${source}/");
    out.append(file);
    out.append("\"; attribute = \"");
    out.append(name);
    out.append("\"; in project.explain ? ${attribute}");
    proof {
        assert(out@ =~= spec_has_explainer_expr(file@, entry@, name@));
    }
    out
}

/// The query fetching the documentation entry of one attribute, `null`
/// when there is none.
pub open spec fn spec_explain_attr_expr(file: Seq<char>, e: StoreEntryV, name: Seq<char>) -> Seq<
    char,
> {
    "let source = "@ + spec_pinned_source(e) + "; project = import \"${source}/"@ + file
        + "\"; attribute = \""@ + name
        + "\"; in project.explain.\"${attribute}\".result or null"@
}

/// Build the explainer-entry query.
pub fn explain_attr_expr(file: &str, entry: &FixedOutputStoreEntry, name: &str) -> (r: String)
    ensures
        r@ == spec_explain_attr_expr(file@, entry@, name@),
{
    let mut out = String::from_str("let source = ");
    let pinned = pinned_source_expr(entry);
    out.append(pinned.as_str());
    out.append("; project = import \"${source}/");
    out.append(file);
    out.append("\"; attribute = \"");
    out.append(name);
    out.append("\"; in project.explain.\"${attribute}\".result or null");
    proof {
        assert(out@ =~= spec_explain_attr_expr(file@, entry@, name@));
    }
    out
}

/// The query listing the project's attribute names, the reserved ones
/// removed.
pub open spec fn spec_attr_names_expr(file: Seq<char>, e: StoreEntryV) -> Seq<char> {
    spec_project_prelude(file, e)
        + "builtins.attrNames (builtins.removeAttrs project [ \"assertions\" \"warnings\" \"extend\" \"explain\" ])"@
}

/// Build the attribute-name listing query.
pub fn attr_names_expr(file: &str, entry: &FixedOutputStoreEntry) -> (r: String)
    ensures
        r@ == spec_attr_names_expr(file@, entry@),
{
    let mut out = project_prelude(file, entry);
    out.append(
        "builtins.attrNames (builtins.removeAttrs project [ \"assertions\" \"warnings\" \"extend\" \"explain\" ])",
    );
    proof {
        assert(out@ =~= spec_attr_names_expr(file@, entry@));
    }
    out
}

/// Options of a build submission.
pub struct BuildOpts<'a> {
    pub link: bool,
    pub report: bool,
    pub system: &'a str,
}

/// The argument list of a build submission: the output link and report
/// flags, the manifest file, the system when one is named, and the
/// attribute to build.
pub open spec fn spec_build_args(
    file: Seq<char>,
    name: Seq<char>,
    link: bool,
    report: bool,
    system: Seq<char>,
) -> Seq<Seq<char>> {
    seq!["build"@] + (if !link {
        seq!["--no-link"@]
    } else {
        Seq::empty()
    }) + (if report {
        seq!["--print-out-paths"@]
    } else {
        Seq::empty()
    }) + seq!["-f"@, file] + (if system.len() > 0 {
        seq!["--system"@, system]
    } else {
        Seq::empty()
    }) + seq![name]
}

/// Build the argument list of a build submission.
pub fn build_args(file: &str, name: &str, opts: &BuildOpts<'_>) -> (r: Vec<String>)
    ensures
        views_of(r@) == spec_build_args(file@, name@, opts.link, opts.report, opts.system@),
{
    let mut args: Vec<String> = Vec::new();
    args.push(String::from_str("build"));
    if !opts.link {
        args.push(String::from_str("--no-link"));
    }
    if opts.report {
        args.push(String::from_str("--print-out-paths"));
    }
    args.push(String::from_str("-f"));
    args.push(String::from_str(file));
    if opts.system.unicode_len() > 0 {
        args.push(String::from_str("--system"));
        args.push(String::from_str(opts.system));
    }
    args.push(String::from_str(name));
    proof {
        assert(views_of(args@) =~= spec_build_args(
            file@,
            name@,
            opts.link,
            opts.report,
            opts.system@,
        ));
    }
    args
}

/// Options of an interactive shell invocation.
pub struct ShellOpts<'a> {
    pub system: &'a str,
}

/// The argument list of an interactive shell invocation: the manifest
/// file, the system when one is named, then the attribute.
pub open spec fn spec_shell_args(file: Seq<char>, name: Seq<char>, system: Seq<char>) -> Seq<
    Seq<char>,
> {
    seq![file] + (if system.len() > 0 {
        seq!["--system"@, system]
    } else {
        Seq::empty()
    }) + seq!["-A"@, name]
}

/// Build the argument list of an interactive shell invocation.
pub fn shell_args(file: &str, name: &str, opts: &ShellOpts<'_>) -> (r: Vec<String>)
    ensures
        views_of(r@) == spec_shell_args(file@, name@, opts.system@),
{
    let mut args: Vec<String> = Vec::new();
    args.push(String::from_str(file));
    if opts.system.unicode_len() > 0 {
        args.push(String::from_str("--system"));
        args.push(String::from_str(opts.system));
    }
    args.push(String::from_str("-A"));
    args.push(String::from_str(name));
    proof {
        assert(views_of(args@) =~= spec_shell_args(file@, name@, opts.system@));
    }
    args
}

/// Options of a main-program query.
pub struct GetMainProgramOpts<'a> {
    pub system: &'a str,
}

} // verus!
