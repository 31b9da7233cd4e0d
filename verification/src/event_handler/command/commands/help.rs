//! The `help` command: lists commands, or the full help of the ones asked for.
use vstd::prelude::*;

use crate::event_handler::command::commands::{
    all_commands_spec, command_doc, parse_command, Command,
};
use crate::text::{
    chars_of, join, join_strings, push_char, replace_char, replace_char_of, split_rules,
    split_rules_of, trim, trim_str, views,
};

verus! {

/// The `n`-th piece of `s` between rules `"---"`, or nothing when there are
/// fewer pieces.
pub open spec fn section(s: Seq<char>, n: int) -> Seq<char> {
    let parts = split_rules(s);
    if n < parts.len() {
        parts[n]
    } else {
        seq![]
    }
}

/// A help text with its line breaks turned into spaces. (Replacing `"\n\n"`
/// by `"\n"` afterwards, as the text is also put through, changes nothing, as
/// no line break is left.)
pub open spec fn flattened(doc: Seq<char>) -> Seq<char> {
    replace_char(doc, '\n', ' ')
}

/// The usage line of a help text: its first part, trimmed.
pub open spec fn usage_of(doc: Seq<char>) -> Seq<char> {
    trim(section(flattened(doc), 0))
}

/// The summary of a help text: its second part, trimmed.
pub open spec fn description_of(doc: Seq<char>) -> Seq<char> {
    trim(section(flattened(doc), 1))
}

/// The details of a help text: its third part, trimmed.
pub open spec fn detail_of(doc: Seq<char>) -> Seq<char> {
    trim(section(flattened(doc), 2))
}

/// `s` followed by a line break, or nothing when `s` is empty.
pub open spec fn line_if_any(s: Seq<char>) -> Seq<char> {
    if s.len() == 0 {
        seq![]
    } else {
        s.push('\n')
    }
}

/// The short help of a command: the usage line and, below it as subtext
/// (`-# `), the summary; nothing at all without a usage line.
pub open spec fn format_short(doc: Seq<char>) -> Seq<char> {
    let u = usage_of(doc);
    let d = description_of(doc);
    if u.len() == 0 {
        seq![]
    } else {
        u.push('\n') + (if d.len() == 0 {
            seq![]
        } else {
            seq!['-', '#', ' '] + d.push('\n')
        })
    }
}

/// The full help of a command: usage, summary and details, one per line;
/// nothing at all without a usage line.
pub open spec fn format_full(doc: Seq<char>) -> Seq<char> {
    let u = usage_of(doc);
    if u.len() == 0 {
        seq![]
    } else {
        u.push('\n') + line_if_any(description_of(doc)) + line_if_any(detail_of(doc))
    }
}

/// The words of `args` that name no command, in order.
pub open spec fn unknown_args(args: Seq<Seq<char>>) -> Seq<Seq<char>>
    decreases args.len(),
{
    if args.len() == 0 {
        seq![]
    } else {
        let rest = unknown_args(args.drop_last());
        if parse_command(args.last()) is None {
            rest.push(args.last())
        } else {
            rest
        }
    }
}

/// The commands that words of `args` name, in order.
pub open spec fn known_commands(args: Seq<Seq<char>>) -> Seq<Command>
    decreases args.len(),
{
    if args.len() == 0 {
        seq![]
    } else {
        let rest = known_commands(args.drop_last());
        match parse_command(args.last()) {
            Some(c) => rest.push(c),
            None => rest,
        }
    }
}

/// The short help of every command in `cmds` that has a help text, one after
/// the other.
pub open spec fn listing(cmds: Seq<Command>) -> Seq<char>
    decreases cmds.len(),
{
    if cmds.len() == 0 {
        seq![]
    } else {
        listing(cmds.drop_last()) + match command_doc(cmds.last()) {
            Some(d) => format_short(d),
            None => seq![],
        }
    }
}

/// One message with the full help of each command in `cmds` that has a help
/// text.
pub open spec fn full_helps(cmds: Seq<Command>) -> Seq<Seq<char>>
    decreases cmds.len(),
{
    if cmds.len() == 0 {
        seq![]
    } else {
        full_helps(cmds.drop_last()) + match command_doc(cmds.last()) {
            Some(d) => seq![format_full(d)],
            None => seq![],
        }
    }
}

/// The messages that `help` answers `args` with: first a note on the words
/// that name no command, if any; then the short help of all documented
/// commands when no command was named, else the full help of each named one.
pub open spec fn help_spec(args: Seq<Seq<char>>) -> Seq<Seq<char>> {
    let unknown = unknown_args(args);
    let known = known_commands(args);
    let head = if unknown.len() == 0 {
        seq![]
    } else if unknown.len() == 1 {
        seq!["Unknown command: "@ + unknown[0]]
    } else {
        seq!["Unknown commands: "@ + join(unknown, ", "@)]
    };
    head + if known.len() == 0 {
        seq![listing(all_commands_spec())]
    } else {
        full_helps(known)
    }
}

/// The parts of a help text.
pub struct DocCommentParsed {
    pub usage: String,
    pub description: String,
    pub detail: String,
}

/// The `n`-th of `parts`, or an empty string.
fn nth_or_empty(parts: &Vec<String>, n: usize) -> (r: String)
    ensures
        r@ == (if n < parts@.len() {
            parts@[n as int]@
        } else {
            Seq::<char>::empty()
        }),
{
    if n < parts.len() {
        parts[n].clone()
    } else {
        String::new()
    }
}

/// Splits a help text into usage, summary and details: line breaks become
/// spaces, the text is cut at each `---`, and the first three parts are
/// trimmed.
pub fn doc_comment_parse(doc: &str) -> (r: DocCommentParsed)
    ensures
        r.usage@ == usage_of(doc@),
        r.description@ == description_of(doc@),
        r.detail@ == detail_of(doc@),
{
    let flat = replace_char_of(&chars_of(doc), '\n', ' ');
    let parts = split_rules_of(&flat);
    let usage = nth_or_empty(&parts, 0);
    let description = nth_or_empty(&parts, 1);
    let detail = nth_or_empty(&parts, 2);
    DocCommentParsed {
        usage: trim_str(usage.as_str()),
        description: trim_str(description.as_str()),
        detail: trim_str(detail.as_str()),
    }
}

/// The short help of a command: usage line and summary.
pub fn doc_comment_format(doc: &str) -> (r: String)
    ensures
        r@ == format_short(doc@),
{
    let parsed = doc_comment_parse(doc);
    let mut formatted = String::new();
    if !parsed.usage.as_str().is_empty() {
        formatted.append(parsed.usage.as_str());
        push_char(&mut formatted, '\n');
        if !parsed.description.as_str().is_empty() {
            formatted.append("-# ");
            formatted.append(parsed.description.as_str());
            push_char(&mut formatted, '\n');
        }
    }
    proof {
        reveal_strlit("-# ");
        assert(formatted@ =~= format_short(doc@));
    }
    formatted
}

/// The full help of a command: usage line, summary and details.
pub fn doc_comment_format_full(doc: &str) -> (r: String)
    ensures
        r@ == format_full(doc@),
{
    let parsed = doc_comment_parse(doc);
    let mut formatted = String::new();
    if !parsed.usage.as_str().is_empty() {
        formatted.append(parsed.usage.as_str());
        push_char(&mut formatted, '\n');
        if !parsed.description.as_str().is_empty() {
            formatted.append(parsed.description.as_str());
            push_char(&mut formatted, '\n');
        }
        if !parsed.detail.as_str().is_empty() {
            formatted.append(parsed.detail.as_str());
            push_char(&mut formatted, '\n');
        }
    }
    proof {
        assert(formatted@ =~= format_full(doc@));
    }
    formatted
}

/// The short help of all documented commands, one after the other.
fn command_listing() -> (r: String)
    ensures
        r@ == listing(all_commands_spec()),
{
    let all = Command::all();
    let mut r = String::new();
    let mut i: usize = 0;
    while i < all.len()
        invariant
            i <= all.len(),
            all@ == all_commands_spec(),
            r@ == listing(all@.take(i as int)),
        decreases all.len() - i,
    {
        let ghost before = r@;
        if let Some(doc) = all[i].variant_docs() {
            let part = doc_comment_format(doc);
            r.append(part.as_str());
        }
        i += 1;
        proof {
            assert(all@.take(i as int).drop_last() =~= all@.take(i - 1));
            assert(r@ =~= listing(all@.take(i as int)));
        }
    }
    proof {
        assert(all@.take(all.len() as int) =~= all@);
    }
    r
}

/// The messages that `help` answers with, given its arguments (see
/// `help_spec`).
pub fn cmd(args: &Vec<String>) -> (r: Vec<String>)
    ensures
        views(r@) == help_spec(views(args@)),
{
    let mut parsed_commands: Vec<Command> = Vec::new();
    let mut unparsed_args: Vec<String> = Vec::new();
    let mut i: usize = 0;
    while i < args.len()
        invariant
            i <= args.len(),
            parsed_commands@ == known_commands(views(args@).take(i as int)),
            views(unparsed_args@) == unknown_args(views(args@).take(i as int)),
        decreases args.len() - i,
    {
        let arg = args[i].clone();
        let ghost before = unparsed_args@;
        match Command::from_name(arg.as_str()) {
            Some(c) => parsed_commands.push(c),
            None => unparsed_args.push(arg),
        }
        i += 1;
        proof {
            let t = views(args@).take(i as int);
            assert(t.drop_last() =~= views(args@).take(i - 1));
            assert(t.last() == arg@);
            assert(views(unparsed_args@) =~= unknown_args(t));
        }
    }
    proof {
        assert(views(args@).take(args.len() as int) =~= views(args@));
    }
    let mut response: Vec<String> = Vec::new();
    if unparsed_args.len() != 0 {
        let mut note = String::new();
        if unparsed_args.len() == 1 {
            note.append("Unknown command: ");
            note.append(unparsed_args[0].as_str());
        } else {
            note.append("Unknown commands: ");
            let joined = join_strings(&unparsed_args, ", ");
            note.append(joined.as_str());
        }
        response.push(note);
    }
    let ghost head = views(response@);
    if parsed_commands.len() == 0 {
        response.push(command_listing());
        proof {
            assert(views(response@) =~= head + seq![listing(all_commands_spec())]);
        }
    } else {
        let mut j: usize = 0;
        while j < parsed_commands.len()
            invariant
                j <= parsed_commands.len(),
                views(response@) == head + full_helps(parsed_commands@.take(j as int)),
            decreases parsed_commands.len() - j,
        {
            let ghost before = views(response@);
            if let Some(doc) = parsed_commands[j].variant_docs() {
                let full = doc_comment_format_full(doc);
                response.push(full);
                proof {
                    assert(views(response@) =~= before.push(full@));
                }
            }
            j += 1;
            proof {
                assert(parsed_commands@.take(j as int).drop_last() =~= parsed_commands@.take(j - 1));
                assert(views(response@) =~= head + full_helps(parsed_commands@.take(j as int)));
            }
        }
        proof {
            assert(parsed_commands@.take(parsed_commands.len() as int) =~= parsed_commands@);
        }
    }
    proof {
        assert(views(unparsed_args@).len() == unparsed_args@.len());
        if unparsed_args@.len() == 1 {
            assert(views(unparsed_args@)[0] == unparsed_args@[0]@);
        }
        assert(views(response@) =~= help_spec(views(args@)));
    }
    response
}

} // verus!
