//! Metadata scraped from a plugin's own help and version output.
//!
//! Plugins are sibling executables; running them happens outside the
//! library, which only parses the text they printed.

use vstd::prelude::*;
use vstd::string::*;

use crate::strutil::{
    contains_seq, contains_sub, find_sub, find_ws, first_sub_occ, first_ws_occ, last_occ,
    lemma_first_sub_occ_none, lemma_first_sub_occ_some, lemma_first_ws_occ_none,
    lemma_first_ws_occ_some, lemma_last_occ_none, lemma_last_occ_some, lines_of, replace_sub,
    rfind_char, spec_replace, spec_starts_with, spec_trim, split_lines, starts_with_str, str_eq,
    substring_string, trim_front, trim_start_str, trim_str, views_of,
};

verus! {

/// One subcommand a plugin offers, with its description.
#[derive(Debug, Clone)]
pub struct CommandInfo {
    pub name: String,
    pub description: String,
}

/// Everything learned about a plugin from one round of `--help` and
/// `--version`.
#[derive(Debug, Clone)]
pub struct PluginMetadata {
    pub help_text: String,
    pub version: Option<String>,
    pub usage: Option<String>,
    pub commands: Vec<CommandInfo>,
    pub examples: Vec<String>,
    pub supports_completions: bool,
}

/// The bare version of a `--version` line: everything after the final
/// space (version output is conventionally `<program> <version>`), the
/// whole text when there is no space.
pub open spec fn spec_clean_version(v: Seq<char>) -> Seq<char> {
    match last_occ(v, ' ') {
        None => v,
        Some(i) => v.subrange(i + 1, v.len() as int),
    }
}

/// Strip the program-name prefix off a version line.
pub fn clean_version(version: &str) -> (r: String)
    ensures
        r@ == spec_clean_version(version@),
{
    let n = version.unicode_len();
    match rfind_char(version, ' ') {
        Some(i) => {
            proof {
                lemma_last_occ_some(version@, ' ', i as int);
            }
            substring_string(version, i + 1, n)
        },
        None => {
            proof {
                lemma_last_occ_none(version@, ' ');
            }
            String::from_str(version)
        },
    }
}

/// The plugin name a binary name carries: the part after the `nilla-`
/// prefix, if it has one.
pub open spec fn spec_plugin_name(file_name: Seq<char>) -> Option<Seq<char>> {
    if spec_starts_with(file_name, "nilla-"@) {
        Some(file_name.skip("nilla-"@.len() as int))
    } else {
        None
    }
}

/// The mathematical value of a [`CommandInfo`].
pub ghost struct CommandInfoV {
    pub name: Seq<char>,
    pub description: Seq<char>,
}

impl View for CommandInfo {
    type V = CommandInfoV;

    open spec fn view(&self) -> CommandInfoV {
        CommandInfoV { name: self.name@, description: self.description@ }
    }
}

/// A line introduces the usage text when its trimmed form starts with
/// `Usage:` or `USAGE:`.
pub open spec fn spec_is_usage_line(t: Seq<char>) -> bool {
    spec_starts_with(t, "Usage:"@) || spec_starts_with(t, "USAGE:"@)
}

/// The usage text of a help dump: the first usage line, trimmed, with the
/// plugin's binary name `nilla-<plugin>` rewritten to the `nilla <plugin>`
/// subcommand form.
pub open spec fn spec_usage_of_lines(lines: Seq<Seq<char>>, plugin: Seq<char>) -> Option<Seq<char>>
    decreases lines.len(),
{
    if lines.len() == 0 {
        None
    } else {
        let t = spec_trim(lines[0]);
        if spec_is_usage_line(t) {
            Some(spec_replace(t, "nilla-"@ + plugin, "nilla "@ + plugin))
        } else {
            spec_usage_of_lines(lines.drop_first(), plugin)
        }
    }
}

/// The section of a help dump introduced by `header`: from the first
/// occurrence of the header up to, but not including, the first blank
/// line after it; `None` when either is missing.
pub open spec fn spec_section(help: Seq<char>, header: Seq<char>) -> Option<Seq<char>> {
    match first_sub_occ(help, header) {
        None => None,
        Some(i) => {
            let sect = help.skip(i);
            match first_sub_occ(sect, "\n\n"@) {
                None => None,
                Some(k) => Some(sect.take(k)),
            }
        },
    }
}

/// What one line of the commands section contributes: its first
/// whitespace-separated word as the command name and the rest as the
/// description, skipping blank lines, the options header, and the `help`
/// command the argument parser adds on its own.
pub open spec fn spec_command_of_line(line: Seq<char>) -> Option<CommandInfoV> {
    let t = spec_trim(line);
    if t.len() == 0 || spec_starts_with(t, "Options:"@) {
        None
    } else {
        let name = match first_ws_occ(t) {
            None => t,
            Some(i) => t.take(i),
        };
        if name == "help"@ {
            None
        } else {
            Some(CommandInfoV { name, description: trim_front(t.skip(name.len() as int)) })
        }
    }
}

pub open spec fn spec_commands_from_lines(lines: Seq<Seq<char>>) -> Seq<CommandInfoV>
    decreases lines.len(),
{
    if lines.len() == 0 {
        Seq::empty()
    } else {
        let rest = spec_commands_from_lines(lines.drop_first());
        match spec_command_of_line(lines[0]) {
            None => rest,
            Some(c) => seq![c] + rest,
        }
    }
}

/// The commands a help dump advertises: the lines of its `Commands:`
/// section, the header line itself skipped.
pub open spec fn spec_commands_of(help: Seq<char>) -> Seq<CommandInfoV> {
    match spec_section(help, "Commands:"@) {
        None => Seq::empty(),
        Some(sect) => {
            let ls = lines_of(sect);
            spec_commands_from_lines(
                if ls.len() > 0 {
                    ls.drop_first()
                } else {
                    ls
                },
            )
        },
    }
}

/// What one line of the examples section contributes: its trimmed text,
/// skipping blanks, section headers, comment and prompt lines, and
/// anything too short to be an invocation.
pub open spec fn spec_example_of_line(line: Seq<char>) -> Option<Seq<char>> {
    let t = spec_trim(line);
    if t.len() == 0 || spec_starts_with(t, "Options:"@) || spec_starts_with(t, "Commands:"@) {
        None
    } else if t[0] == '#' || t[0] == '$' {
        None
    } else if t.len() > 5 {
        Some(t)
    } else {
        None
    }
}

pub open spec fn spec_examples_from_lines(lines: Seq<Seq<char>>) -> Seq<Seq<char>>
    decreases lines.len(),
{
    if lines.len() == 0 {
        Seq::empty()
    } else {
        let rest = spec_examples_from_lines(lines.drop_first());
        match spec_example_of_line(lines[0]) {
            None => rest,
            Some(e) => seq![e] + rest,
        }
    }
}

/// The examples a help dump shows: the lines of its `Examples:` section,
/// the header line itself skipped.
pub open spec fn spec_examples_of(help: Seq<char>) -> Seq<Seq<char>> {
    match spec_section(help, "Examples:"@) {
        None => Seq::empty(),
        Some(sect) => {
            let ls = lines_of(sect);
            spec_examples_from_lines(
                if ls.len() > 0 {
                    ls.drop_first()
                } else {
                    ls
                },
            )
        },
    }
}

/// A plugin supports shell completions when its help text mentions them.
pub open spec fn spec_supports_completions(help: Seq<char>) -> bool {
    contains_seq(help, "completion"@) || contains_seq(help, "completions"@)
}

/// Cut the section introduced by `header` out of the help text.
fn section_of(help: &str, header: &str) -> (r: Option<String>)
    ensures
        match r {
            Some(sect) => spec_section(help@, header@) == Some(sect@),
            None => spec_section(help@, header@) is None,
        },
{
    let n = help.unicode_len();
    match find_sub(help, header) {
        None => {
            proof {
                lemma_first_sub_occ_none(help@, header@);
            }
            None
        },
        Some(i) => {
            proof {
                lemma_first_sub_occ_some(help@, header@, i as int);
            }
            let sect = help.substring_char(i, n);
            proof {
                assert(sect@ =~= help@.skip(i as int));
            }
            match find_sub(sect, "\n\n") {
                None => {
                    proof {
                        lemma_first_sub_occ_none(sect@, "\n\n"@);
                    }
                    None
                },
                Some(k) => {
                    proof {
                        lemma_first_sub_occ_some(sect@, "\n\n"@, k as int);
                    }
                    let text = substring_string(sect, 0, k);
                    proof {
                        assert(text@ =~= sect@.take(k as int));
                    }
                    Some(text)
                },
            }
        },
    }
}

/// The command one section line contributes, if any.
fn command_of_line(line: &str) -> (r: Option<CommandInfo>)
    ensures
        match r {
            Some(c) => spec_command_of_line(line@) == Some(c@),
            None => spec_command_of_line(line@) is None,
        },
{
    let t = trim_str(line);
    let tn = t.as_str().unicode_len();
    if tn == 0 || starts_with_str(t.as_str(), "Options:") {
        return None;
    }
    let name: String = match find_ws(t.as_str()) {
        Some(i) => {
            proof {
                lemma_first_ws_occ_some(t@, i as int);
            }
            substring_string(t.as_str(), 0, i)
        },
        None => {
            proof {
                lemma_first_ws_occ_none(t@);
            }
            t.clone()
        },
    };
    if str_eq(name.as_str(), "help") {
        return None;
    }
    let rest = substring_string(t.as_str(), name.as_str().unicode_len(), tn);
    let description = trim_start_str(rest.as_str());
    proof {
        assert(rest@ =~= t@.skip(name@.len() as int));
    }
    Some(CommandInfo { name, description })
}

/// The example one section line contributes, if any.
fn example_of_line(line: &str) -> (r: Option<String>)
    ensures
        match r {
            Some(e) => spec_example_of_line(line@) == Some(e@),
            None => spec_example_of_line(line@) is None,
        },
{
    let t = trim_str(line);
    let tn = t.as_str().unicode_len();
    if tn == 0 || starts_with_str(t.as_str(), "Options:") || starts_with_str(
        t.as_str(),
        "Commands:",
    ) {
        return None;
    }
    let c0 = t.as_str().get_char(0);
    if c0 == '#' || c0 == '$' {
        return None;
    }
    if tn > 5 {
        Some(t)
    } else {
        None
    }
}

/// Scrape a plugin's help text: the usage line rewritten to subcommand
/// form, the advertised commands with their descriptions, the example
/// invocations, and whether completions are mentioned — exactly as the
/// spec functions above describe, line by line.
pub fn parse_plugin_help(help_text: &str, plugin_name: &str) -> (r: (
    Option<String>,
    Vec<CommandInfo>,
    Vec<String>,
    bool,
))
    ensures
        (match r.0 {
            Some(u) => spec_usage_of_lines(lines_of(help_text@), plugin_name@) == Some(u@),
            None => spec_usage_of_lines(lines_of(help_text@), plugin_name@) is None,
        }),
        r.1@.map_values(|c: CommandInfo| c@) == spec_commands_of(help_text@),
        views_of(r.2@) == spec_examples_of(help_text@),
        r.3 == spec_supports_completions(help_text@),
{
    let supports_completions = contains_sub(help_text, "completion") || contains_sub(
        help_text,
        "completions",
    );

    // the usage line
    let lines = split_lines(help_text);
    let ghost lv = views_of(lines@);
    let mut usage: Option<String> = None;
    let mut li: usize = 0;
    proof {
        assert(lv.skip(0) =~= lv);
    }
    loop
        invariant_except_break
            li <= lines@.len(),
            lv == views_of(lines@),
            lv == lines_of(help_text@),
            usage is None,
            spec_usage_of_lines(lv, plugin_name@) == spec_usage_of_lines(
                lv.skip(li as int),
                plugin_name@,
            ),
        ensures
            (match usage {
                Some(u) => spec_usage_of_lines(lines_of(help_text@), plugin_name@) == Some(u@),
                None => spec_usage_of_lines(lines_of(help_text@), plugin_name@) is None,
            }),
        decreases lines@.len() - li,
    {
        if li >= lines.len() {
            break ;
        }
        let t = trim_str(lines[li].as_str());
        proof {
            assert(lv.skip(li as int)[0] == lines@[li as int]@);
        }
        if starts_with_str(t.as_str(), "Usage:") || starts_with_str(t.as_str(), "USAGE:") {
            let mut pattern = String::from_str("nilla-");
            pattern.append(plugin_name);
            let mut replacement = String::from_str("nilla ");
            replacement.append(plugin_name);
            proof {
                reveal_strlit("nilla-");
                assert(pattern@.len() > 0);
            }
            usage = Some(replace_sub(t.as_str(), pattern.as_str(), replacement.as_str()));
            break ;
        }
        proof {
            assert(lv.skip(li as int).drop_first() =~= lv.skip(li as int + 1));
        }
        li += 1;
    }

    // the commands section
    let mut commands: Vec<CommandInfo> = Vec::new();
    match section_of(help_text, "Commands:") {
        None => {},
        Some(sect) => {
            let mut sl = split_lines(sect.as_str());
            if sl.len() > 0 {
                sl.remove(0);
            }
            let ghost slv = views_of(sl@);
            proof {
                if lines_of(sect@).len() > 0 {
                    assert(slv =~= lines_of(sect@).drop_first());
                }
                assert(slv.skip(0) =~= slv);
            }
            let mut ci: usize = 0;
            while ci < sl.len()
                invariant
                    ci <= sl@.len(),
                    slv == views_of(sl@),
                    spec_commands_of(help_text@) == commands@.map_values(|c: CommandInfo| c@)
                        + spec_commands_from_lines(slv.skip(ci as int)),
                decreases sl@.len() - ci,
            {
                let ghost c0 = commands@;
                proof {
                    assert(slv.skip(ci as int)[0] == sl@[ci as int]@);
                    assert(slv.skip(ci as int).drop_first() =~= slv.skip(ci as int + 1));
                }
                match command_of_line(sl[ci].as_str()) {
                    None => {},
                    Some(c) => {
                        commands.push(c);
                        proof {
                            assert(commands@.map_values(|c: CommandInfo| c@) =~= c0.map_values(
                                |c: CommandInfo| c@,
                            ) + seq![commands@[c0.len() as int]@]);
                        }
                    },
                }
                ci += 1;
            }
            proof {
                assert(slv.skip(sl@.len() as int) =~= Seq::<Seq<char>>::empty());
            }
        },
    }

    // the examples section
    let mut examples: Vec<String> = Vec::new();
    match section_of(help_text, "Examples:") {
        None => {},
        Some(sect) => {
            let mut sl = split_lines(sect.as_str());
            if sl.len() > 0 {
                sl.remove(0);
            }
            let ghost slv = views_of(sl@);
            proof {
                if lines_of(sect@).len() > 0 {
                    assert(slv =~= lines_of(sect@).drop_first());
                }
                assert(slv.skip(0) =~= slv);
            }
            let mut ei: usize = 0;
            while ei < sl.len()
                invariant
                    ei <= sl@.len(),
                    slv == views_of(sl@),
                    spec_examples_of(help_text@) == views_of(examples@)
                        + spec_examples_from_lines(slv.skip(ei as int)),
                decreases sl@.len() - ei,
            {
                let ghost e0 = examples@;
                proof {
                    assert(slv.skip(ei as int)[0] == sl@[ei as int]@);
                    assert(slv.skip(ei as int).drop_first() =~= slv.skip(ei as int + 1));
                }
                match example_of_line(sl[ei].as_str()) {
                    None => {},
                    Some(e) => {
                        examples.push(e);
                        proof {
                            assert(views_of(examples@) =~= views_of(e0) + seq![
                                examples@[e0.len() as int]@,
                            ]);
                        }
                    },
                }
                ei += 1;
            }
            proof {
                assert(slv.skip(sl@.len() as int) =~= Seq::<Seq<char>>::empty());
            }
        },
    }

    (usage, commands, examples, supports_completions)
}

/// Extract the plugin name from an executable's file name.
pub fn plugin_name_of(file_name: &str) -> (r: Option<String>)
    ensures
        match r {
            Some(name) => spec_plugin_name(file_name@) == Some(name@),
            None => spec_plugin_name(file_name@) is None,
        },
{
    let n = file_name.unicode_len();
    if starts_with_str(file_name, "nilla-") {
        let plen = "nilla-".unicode_len();
        let name = substring_string(file_name, plen, n);
        proof {
            assert(name@ =~= file_name@.skip("nilla-"@.len() as int));
        }
        Some(name)
    } else {
        None
    }
}

} // verus!
