use discord_fend::event_handler::command::commands::help::{
    cmd as help_cmd, doc_comment_format, doc_comment_format_full, doc_comment_parse,
};
use discord_fend::event_handler::command::commands::{
    Command, Parse, CLEAR_CONTEXT_DOC, FEND_DOC, HELP_DOC,
};
use discord_fend::event_handler::command::try_find_command;
use discord_fend::event_handler::{Handler, MessageRoute};

fn strings(v: &[&str]) -> Vec<String> {
    v.iter().map(|s| s.to_string()).collect()
}

const LISTING: &str = "**fend** \\[EXPRESSION\\]\n-# Calculates a [fend](<https://github.com/printfn/fend>) expression, or starts an interactive fend REPL if no expression is provided\n**clear-context**\n-# Clears the fend context for the current channel\n**help** \\[COMMANDS\\]\n-# Lists all commands, or details about a specific command if one or more is provided\n";

const FULL_FEND: &str = "**fend** \\[EXPRESSION\\]\nCalculates a [fend](<https://github.com/printfn/fend>) expression, or starts an interactive fend REPL if no expression is provided\n[fend](<https://github.com/printfn/fend>) is an arbitrary-precision unit-aware calculator, see the [manual](<https://printfn.github.io/fend/documentation/>) for more information on how to use it  This command has a number of special features:  - Interactive REPL sessions  -# (type `~fend` with no arguments, and the bot will listen to every message you send for a while)  - Multi-line prompts  -# (any expression that spans multiple lines will be evaluated as if it were a series of prompts, with context retention between prompts)  - Channel context retention  -# (try sending `~fend x = 5` and then `~fend x + 10`)\n";

const FULL_HELP: &str = "**help** \\[COMMANDS\\]\nLists all commands, or details about a specific command if one or more is provided\n";

#[test]
fn finds_command_with_arguments() {
    let (c, args) = try_find_command("~fend 1 + 1").unwrap();
    assert_eq!(c, Command::Fend);
    assert_eq!(args, strings(&["1", "+", "1"]));
}

#[test]
fn finds_each_command_by_name() {
    assert_eq!(try_find_command("~clear-context").unwrap().0, Command::ClearContext);
    assert_eq!(try_find_command("~help").unwrap().0, Command::Help);
    assert_eq!(try_find_command("~uptime").unwrap().0, Command::Uptime);
    assert_eq!(try_find_command("~version").unwrap().0, Command::Version);
}

#[test]
fn command_arguments_split_on_any_whitespace() {
    let (c, args) = try_find_command("~help\tfend\n\u{3000}uptime  ").unwrap();
    assert_eq!(c, Command::Help);
    assert_eq!(args, strings(&["fend", "uptime"]));
}

#[test]
fn prefix_followed_by_whitespace_is_no_command() {
    assert!(try_find_command("~ fend").is_none());
    assert!(try_find_command("~\u{a0}fend").is_none());
}

#[test]
fn text_without_prefix_or_known_name_is_no_command() {
    assert!(try_find_command("fend 1").is_none());
    assert!(try_find_command("").is_none());
    assert!(try_find_command("~").is_none());
    assert!(try_find_command("~fendx").is_none());
    assert!(try_find_command("~Fend").is_none());
    assert!(try_find_command("!fend").is_none());
}

#[test]
fn try_parse_removes_the_first_word() {
    let mut words = strings(&["help", "fend"]);
    assert_eq!(Command::try_parse(&mut words), Some(Command::Help));
    assert_eq!(words, strings(&["fend"]));
    let mut others = strings(&["nope", "fend"]);
    assert_eq!(Command::try_parse(&mut others), None);
    assert_eq!(others, strings(&["nope", "fend"]));
    let mut empty: Vec<String> = Vec::new();
    assert_eq!(Command::try_parse(&mut empty), None);
}

#[test]
fn only_documented_commands_have_help() {
    assert_eq!(Command::Fend.variant_docs(), Some(FEND_DOC));
    assert_eq!(Command::ClearContext.variant_docs(), Some(CLEAR_CONTEXT_DOC));
    assert_eq!(Command::Help.variant_docs(), Some(HELP_DOC));
    assert_eq!(Command::Uptime.variant_docs(), None);
    assert_eq!(Command::Version.variant_docs(), None);
}

#[test]
fn doc_comment_parse_cuts_at_rules() {
    let parsed = doc_comment_parse("a\nb\n\n---\n\n c \n---\nd\n---\nignored");
    assert_eq!(parsed.usage, "a b");
    assert_eq!(parsed.description, "c");
    assert_eq!(parsed.detail, "d");
    let short = doc_comment_parse("only usage");
    assert_eq!(short.usage, "only usage");
    assert_eq!(short.description, "");
    assert_eq!(short.detail, "");
}

#[test]
fn doc_comment_format_shows_usage_and_subtext() {
    assert_eq!(doc_comment_format("u\n---\nd\n---\nx"), "u\n-# d\n");
    assert_eq!(doc_comment_format("u"), "u\n");
    assert_eq!(doc_comment_format("  \n---\nd"), "");
}

#[test]
fn doc_comment_format_full_shows_three_parts() {
    assert_eq!(doc_comment_format_full("u\n---\nd\n---\nx\n---\nhidden"), "u\nd\nx\n");
    assert_eq!(doc_comment_format_full("u\n---\n\n---\nx"), "u\nx\n");
    assert_eq!(doc_comment_format_full("\n---\nd"), "");
}

#[test]
fn help_without_arguments_lists_documented_commands() {
    assert_eq!(help_cmd(&Vec::new()), strings(&[LISTING]));
}

#[test]
fn help_for_a_command_gives_its_full_help() {
    assert_eq!(help_cmd(&strings(&["fend"])), strings(&[FULL_FEND]));
    assert_eq!(help_cmd(&strings(&["help", "fend"])), strings(&[FULL_HELP, FULL_FEND]));
}

#[test]
fn help_for_undocumented_command_says_nothing() {
    assert_eq!(help_cmd(&strings(&["uptime"])), Vec::<String>::new());
}

#[test]
fn help_reports_unknown_commands() {
    let one = format!("Unknown command: {}", "bogus");
    assert_eq!(help_cmd(&strings(&["bogus"])), vec![one, LISTING.to_string()]);
    assert_eq!(
        help_cmd(&strings(&["a", "help", "b"])),
        strings(&["Unknown commands: a, b", FULL_HELP])
    );
}

#[test]
fn route_ignores_bots() {
    assert!(matches!(Handler::route_message(true, "~fend 1"), MessageRoute::Ignore));
}

#[test]
fn route_runs_commands_and_forwards_the_rest() {
    match Handler::route_message(false, "~version") {
        MessageRoute::Command(c, args) => {
            assert_eq!(c, Command::Version);
            assert!(args.is_empty());
        }
        _ => panic!("expected a command"),
    }
    assert!(matches!(Handler::route_message(false, "2 + 2"), MessageRoute::Session));
}

#[test]
fn only_edited_fend_commands_with_arguments_rerun() {
    assert!(Handler::edit_reruns_fend(Some(false), Some("~fend 1 + 2")));
    assert!(!Handler::edit_reruns_fend(Some(false), Some("~fend")));
    assert!(!Handler::edit_reruns_fend(Some(true), Some("~fend 1")));
    assert!(!Handler::edit_reruns_fend(None, Some("~fend 1")));
    assert!(!Handler::edit_reruns_fend(Some(false), None));
    assert!(!Handler::edit_reruns_fend(Some(false), Some("~help fend")));
}

#[test]
fn full_help_leaves_out_the_fourth_part() {
    assert!(!FULL_FEND.contains("ignored by the help command"));
    assert!(FEND_DOC.contains("ignored by the help command"));
    assert_eq!(doc_comment_format_full(FEND_DOC), FULL_FEND);
}
