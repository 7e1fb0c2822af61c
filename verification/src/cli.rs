//! The command-line surface: the argument types each command takes, the
//! examples block of the help text, and the attribute names the commands
//! aim the engine at.
//!
//! The argument-parsing shell itself (derive attributes, help plumbing)
//! lives outside the library; these are the bare types and the pure text
//! they are rendered from.

use vstd::prelude::*;
use vstd::string::*;
use vstd::slice::slice_index_get;

use crate::locator::opt_view;
use crate::strutil::first_occ;

verus! {

/// Arguments of the show command.
#[derive(Debug, Clone)]
pub struct ShowArgs {
    pub name: Option<String>,
}

/// Arguments of the shell command.
#[derive(Debug, Clone)]
pub struct ShellArgs {
    pub name: String,
    pub system: Option<String>,
}

/// Arguments of the run command.
#[derive(Debug, Clone)]
pub struct RunArgs {
    pub name: Option<String>,
    pub system: Option<String>,
    pub remaining: Vec<String>,
}

/// Arguments of the build command.
#[derive(Debug, Clone)]
pub struct BuildArgs {
    pub name: Option<String>,
    pub system: Option<String>,
    pub no_link: bool,
}

/// Arguments of the completions command; the shell is carried as its
/// plain name.
#[derive(Debug, Clone)]
pub struct CompletionsArgs {
    pub shell: String,
}

/// Arguments of the NixOS subcommands.
#[derive(Debug, Clone)]
pub struct NixosSubcommandsArgs {
    pub name: Option<String>,
}

/// The NixOS subcommands.
#[derive(Debug, Clone)]
pub enum NixosSubcommands {
    Switch(NixosSubcommandsArgs),
    Build(NixosSubcommandsArgs),
    BuildVm(NixosSubcommandsArgs),
    Boot(NixosSubcommandsArgs),
    Test(NixosSubcommandsArgs),
}

/// Arguments of the NixOS command group.
#[derive(Debug, Clone)]
pub struct NixosArgs {
    pub subcommand: NixosSubcommands,
}

/// The plugin-management subcommands.
#[derive(Debug, Clone)]
pub enum PluginsCommands {
    /// List all available plugins.
    List,
}

/// Arguments of the plugin-management command group.
#[derive(Debug, Clone)]
pub struct PluginsArgs {
    pub command: PluginsCommands,
}

/// The subcommands of the program; an unrecognized one is handed on as an
/// external command line.
#[derive(Debug, Clone)]
pub enum Commands {
    Show(ShowArgs),
    Shell(ShellArgs),
    Run(RunArgs),
    Build(BuildArgs),
    Completions(CompletionsArgs),
    External(Vec<String>),
}

/// The top-level command line: the chosen subcommand and the global
/// options, chief among them the project locator.
#[derive(Debug, Clone)]
pub struct Cli {
    pub command: Option<Commands>,
    pub project: String,
    pub verbose: u8,
    pub quiet: bool,
    pub show_eval_commands: bool,
    pub trailing_args: Vec<String>,
}

/// One rendered example of the help text: a dimmed comment line, then a
/// dimmed prompt with the bold program name and the example invocation.
pub open spec fn spec_example_block(comment: Seq<char>, invocation: Seq<char>) -> Seq<char> {
    "\n\u{1b}[2m# "@ + comment + "\u{1b}[0m\n\u{1b}[2m$\u{1b}[0m \u{1b}[1mnilla\u{1b}[0m "@
        + invocation
}

/// All example blocks, in order.
pub open spec fn spec_example_blocks(exs: Seq<(&str, &str)>) -> Seq<char>
    decreases exs.len(),
{
    if exs.len() == 0 {
        Seq::empty()
    } else {
        spec_example_blocks(exs.drop_last()) + spec_example_block(
            exs.last().0@,
            exs.last().1@,
        )
    }
}

/// The whole examples section: a bold underlined heading followed by the
/// blocks.
pub open spec fn spec_make_examples(exs: Seq<(&str, &str)>) -> Seq<char> {
    "\u{1b}[1m\u{1b}[4mExamples:\u{1b}[0m"@ + spec_example_blocks(exs)
}

/// Render the examples section of a command's help text.
pub fn make_examples(examples: &[(&str, &str)]) -> (r: String)
    ensures
        r@ == spec_make_examples(examples@),
{
    let mut out = String::from_str("\u{1b}[1m\u{1b}[4mExamples:\u{1b}[0m");
    let n = examples.len();
    let mut i: usize = 0;
    proof {
        assert(out@ =~= "\u{1b}[1m\u{1b}[4mExamples:\u{1b}[0m"@ + spec_example_blocks(
            examples@.take(0),
        ));
    }
    while i < n
        invariant
            i <= n,
            n == examples@.len(),
            out@ == "\u{1b}[1m\u{1b}[4mExamples:\u{1b}[0m"@ + spec_example_blocks(
                examples@.take(i as int),
            ),
        decreases n - i,
    {
        let ex: &(&str, &str) = slice_index_get(examples, i);
        out.append("\n\u{1b}[2m# ");
        out.append(ex.0);
        out.append("\u{1b}[0m\n\u{1b}[2m$\u{1b}[0m \u{1b}[1mnilla\u{1b}[0m ");
        out.append(ex.1);
        proof {
            assert(examples@.take(i + 1).drop_last() =~= examples@.take(i as int));
            assert(examples@.take(i + 1).last() == examples@[i as int]);
            assert(out@ =~= "\u{1b}[1m\u{1b}[4mExamples:\u{1b}[0m"@ + spec_example_blocks(
                examples@.take(i + 1),
            ));
        }
        i += 1;
    }
    proof {
        assert(examples@.take(n as int) =~= examples@);
    }
    out
}

/// The second dot-separated component of a dotted attribute path.
pub open spec fn spec_second_component(n: Seq<char>) -> Seq<char> {
    match first_occ(n, '.') {
        None => n,
        Some(i) => {
            let rest = n.subrange(i + 1, n.len() as int);
            match first_occ(rest, '.') {
                None => rest,
                Some(k) => rest.subrange(0, k),
            }
        },
    }
}

/// The attribute naming a package's build result under a system.
pub open spec fn spec_packages_attr(n: Seq<char>, system: Seq<char>) -> Seq<char> {
    "packages.\""@ + n + "\".result.\""@ + system + "\""@
}

/// What a run or build aims at: a dotted name is used verbatim and
/// displays as its second component; a plain name becomes
/// `packages."<name>".result."<system>"`; no name at all targets the
/// default package.
pub open spec fn spec_run_target(name: Option<Seq<char>>, system: Seq<char>) -> (Seq<char>, Seq<
    char,
>) {
    match name {
        None => ("packages.default.result.\""@ + system + "\""@, "default"@),
        Some(n) => if first_occ(n, '.') is Some {
            (n, spec_second_component(n))
        } else {
            (spec_packages_attr(n, system), n)
        },
    }
}

/// Compute the attribute and display name a run or build targets.
pub fn run_target(name: &Option<String>, system: &str) -> (r: (String, String))
    ensures
        (r.0@, r.1@) == spec_run_target(opt_view(*name), system@),
{
    match name {
        None => {
            let mut attr = String::from_str("packages.default.result.\"");
            attr.append(system);
            attr.append("\"");
            proof {
                assert(attr@ =~= "packages.default.result.\""@ + system@ + "\""@);
            }
            (attr, String::from_str("default"))
        },
        Some(n) => {
            let nn = n.as_str().unicode_len();
            match crate::strutil::find_char_from(n.as_str(), '.', 0) {
                Some(i) => {
                    proof {
                        crate::strutil::lemma_first_occ_some(n@, '.', i as int);
                    }
                    let rest = crate::strutil::substring_string(n.as_str(), i + 1, nn);
                    let rn = rest.as_str().unicode_len();
                    let second = match crate::strutil::find_char_from(rest.as_str(), '.', 0) {
                        Some(k) => {
                            proof {
                                crate::strutil::lemma_first_occ_some(rest@, '.', k as int);
                            }
                            crate::strutil::substring_string(rest.as_str(), 0, k)
                        },
                        None => {
                            proof {
                                crate::strutil::lemma_first_occ_none(rest@, '.');
                            }
                            rest
                        },
                    };
                    (n.clone(), second)
                },
                None => {
                    proof {
                        crate::strutil::lemma_first_occ_none(n@, '.');
                    }
                    let mut attr = String::from_str("packages.\"");
                    attr.append(n.as_str());
                    attr.append("\".result.\"");
                    attr.append(system);
                    attr.append("\"");
                    proof {
                        assert(attr@ =~= spec_packages_attr(n@, system@));
                    }
                    (attr, n.clone())
                },
            }
        },
    }
}

/// Fit one table row of the informational display to the table's column
/// count: missing cells are filled with empty text, extra cells dropped.
pub fn normalize_row(row: &Vec<String>, width: usize) -> (r: Vec<String>)
    ensures
        r@.len() == width as int,
        forall|i: int| 0 <= i < width && i < row@.len() ==> r@[i] == row@[i],
        forall|i: int| row@.len() <= i < width ==> r@[i]@ == Seq::<char>::empty(),
{
    let mut r: Vec<String> = Vec::new();
    let mut i: usize = 0;
    while i < width
        invariant
            i <= width,
            r@.len() == i as int,
            forall|j: int| 0 <= j < i && j < row@.len() ==> r@[j] == row@[j],
            forall|j: int| row@.len() <= j < i ==> r@[j]@ == Seq::<char>::empty(),
        decreases width - i,
    {
        if i < row.len() {
            r.push(row[i].clone());
        } else {
            r.push(String::new());
        }
        i += 1;
    }
    r
}

/// The attribute naming a development shell under a system.
pub open spec fn spec_shell_attr(name: Seq<char>, system: Seq<char>) -> Seq<char> {
    "shells.\""@ + name + "\".result.\""@ + system + "\""@
}

/// Compute the attribute a shell invocation aims at.
pub fn shell_attr(name: &str, system: &str) -> (r: String)
    ensures
        r@ == spec_shell_attr(name@, system@),
{
    let mut attr = String::from_str("shells.\"");
    attr.append(name);
    attr.append("\".result.\"");
    attr.append(system);
    attr.append("\"");
    proof {
        assert(attr@ =~= spec_shell_attr(name@, system@));
    }
    attr
}

} // verus!
