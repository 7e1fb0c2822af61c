use nilla::plugin_metadata::{parse_plugin_help, PluginMetadata};

const HELP: &str = "A home manager plugin\n\n\
Usage: nilla-home [OPTIONS] <COMMAND>\n\n\
Commands:\n  switch    Switch to the configuration\n  build     Build the configuration\n  help      Print this message\n\n\
Examples:\n  # switch to the default configuration\n  $ nilla-home switch\n  nilla home switch --project ./demo\n  hi\n\n\
Options:\n  -h, --help  Print help\n";

#[test]
fn usage_line_is_rewritten_to_subcommand_form() {
    let (usage, _, _, _) = parse_plugin_help(HELP, "home");
    assert_eq!(usage.unwrap(), "Usage: nilla home [OPTIONS] <COMMAND>");
}

#[test]
fn commands_are_scraped_with_descriptions() {
    let (_, commands, _, _) = parse_plugin_help(HELP, "home");
    let pairs: Vec<(&str, &str)> = commands
        .iter()
        .map(|c| (c.name.as_str(), c.description.as_str()))
        .collect();
    assert_eq!(
        pairs,
        vec![("switch", "Switch to the configuration"), ("build", "Build the configuration")]
    );
}

#[test]
fn help_command_is_skipped() {
    let (_, commands, _, _) = parse_plugin_help(HELP, "home");
    assert!(commands.iter().all(|c| c.name != "help"));
}

#[test]
fn examples_skip_comments_prompts_and_short_lines() {
    let (_, _, examples, _) = parse_plugin_help(HELP, "home");
    assert_eq!(examples, vec!["nilla home switch --project ./demo".to_string()]);
}

#[test]
fn completions_flag_comes_from_the_text() {
    let (_, _, _, supports) = parse_plugin_help(HELP, "home");
    assert!(!supports);
    let (_, _, _, supports) =
        parse_plugin_help("Usage: x\n\ngenerate shell completions\n", "x");
    assert!(supports);
}

#[test]
fn missing_sections_yield_nothing() {
    let (usage, commands, examples, _) = parse_plugin_help("no structure here", "home");
    assert!(usage.is_none());
    assert!(commands.is_empty());
    assert!(examples.is_empty());
}

#[test]
fn metadata_struct_carries_everything() {
    let (usage, commands, examples, supports_completions) = parse_plugin_help(HELP, "home");
    let meta = PluginMetadata {
        help_text: HELP.to_string(),
        version: Some("1.0.0".to_string()),
        usage,
        commands,
        examples,
        supports_completions,
    };
    assert_eq!(meta.version.as_deref(), Some("1.0.0"));
    assert!(meta.usage.unwrap().starts_with("Usage: nilla home"));
}
