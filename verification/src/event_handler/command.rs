//! Finding a command in a message.
use vstd::prelude::*;

use crate::event_handler::command::commands::{parse_command, Command, Parse};
use crate::registry::Registry;
use crate::text::{chars_of, is_whitespace, is_ws, slice_chars, views, words, words_of};

pub mod commands;

verus! {

/// The command and arguments that message text `s` holds: it starts with the
/// prefix `~`, not followed by whitespace, and the first whitespace-separated
/// word after the prefix names a command; the other words are its arguments.
pub open spec fn find_command(s: Seq<char>) -> Option<(Command, Seq<Seq<char>>)> {
    if s.len() > 0 && s[0] == '~' && !(s.len() > 1 && is_ws(s[1])) {
        let w = words(s.drop_first());
        if w.len() > 0 && parse_command(w[0]) is Some {
            Some((parse_command(w[0]).unwrap(), w.drop_first()))
        } else {
            None
        }
    } else {
        None
    }
}

/// Tries to find a command in message text, taking the prefix `~` into
/// account. Returns `None` if no command was found, otherwise
/// `(command, args)`.
pub fn try_find_command(content: &str) -> (r: Option<(Command, Vec<String>)>)
    ensures
        match find_command(content@) {
            Some((c, a)) => r matches Some((rc, ra)) && rc == c && views(ra@) == a,
            None => r is None,
        },
{
    let v = chars_of(content);
    let n = v.len();
    if n == 0 || v[0] != '~' {
        return None;
    }
    if n > 1 && is_whitespace(v[1]) {
        return None;
    }
    let rest = slice_chars(&v, 1, n);
    assert(rest@ =~= content@.drop_first());
    let mut args = words_of(&rest);
    let ghost w = views(args@);
    match Command::try_parse(&mut args) {
        Some(c) => {
            proof {
                assert(views(args@) =~= w.drop_first());
            }
            Some((c, args))
        },
        None => None,
    }
}


/// The key of a channel's command worker.
pub open spec fn worker_key(channel: u64) -> u128 {
    channel as u128
}

/// The key of `channel`'s command worker.
pub fn channel_key(channel: u64) -> (r: u128)
    ensures
        r == worker_key(channel),
{
    channel as u128
}

/// Whether a command in `channel` needs a worker to be started first: each
/// channel's commands go, in order, to a single worker, started when the
/// channel has none.
pub fn needs_worker<V>(workers: &Registry<V>, channel: u64) -> (r: bool)
    ensures
        r == !workers.view().contains_key(worker_key(channel)),
{
    !workers.contains(channel_key(channel))
}

} // verus!
