//! What the bot does with incoming and edited messages.
use vstd::prelude::*;

use circular_buffer::FixedCircularBuffer;
use crate::event_handler::command::commands::Command;
use crate::event_handler::command::{find_command, try_find_command};
use crate::text::{is_ws, lemma_two_words, views, words};

pub mod command;
pub mod interactive_session;

verus! {

/// The bot's event handler: its decisions on message events.
pub struct Handler;

/// What to do with a newly received message.
pub enum MessageRoute {
    /// Sent by a bot: nothing.
    Ignore,
    /// A command with its arguments.
    Command(Command, Vec<String>),
    /// Not a command: forward it to the author's interactive session in this
    /// channel, if there is one.
    Session,
}

/// Whether message text `s` is a `fend` command with arguments.
pub open spec fn reruns_fend(s: Seq<char>) -> bool {
    match find_command(s) {
        Some((c, a)) => c == Command::Fend && a.len() > 0,
        None => false,
    }
}

impl Handler {
    /// Routes a new message: messages of bots are ignored, commands are run,
    /// and anything else goes to the author's interactive session, if any.
    pub fn route_message(author_is_bot: bool, content: &str) -> (r: MessageRoute)
        ensures
            author_is_bot ==> r is Ignore,
            !author_is_bot ==> match find_command(content@) {
                Some((c, a)) => r matches MessageRoute::Command(rc, ra) && rc == c && views(ra@)
                    == a,
                None => r is Session,
            },
    {
        if author_is_bot {
            return MessageRoute::Ignore;
        }
        match try_find_command(content) {
            Some((c, args)) => MessageRoute::Command(c, args),
            None => MessageRoute::Session,
        }
    }

    /// Whether an edit re-runs a `fend` evaluation: the author is known and not
    /// a bot, and the new content is a `fend` command with arguments.
    pub fn edit_reruns_fend(author_is_bot: Option<bool>, content: Option<&str>) -> (r: bool)
        ensures
            r == (author_is_bot == Some(false) && match content {
                Some(t) => reruns_fend(t@),
                None => false,
            }),
            r == (author_is_bot == Some(false) && match content {
                Some(t) => match find_command(t@) {
                    Some((c, a)) => c == Command::Fend && a.len() >= 1,
                    None => false,
                },
                None => false,
            }),
    {
        match author_is_bot {
            Some(false) => {},
            _ => {
                return false;
            },
        }
        match content {
            Some(text) => match try_find_command(text) {
                Some((c, args)) => c == Command::Fend && args.len() > 0,
                None => false,
            },
            None => false,
        }
    }
}

/// Any edit whose new text is a `fend` command with at least one argument
/// word re-runs it; a single argument word is enough.
pub proof fn lemma_fend_with_arguments_reruns(t: Seq<char>)
    requires
        find_command(t) matches Some((c, a)) && c == Command::Fend && a.len() >= 1,
    ensures
        reruns_fend(t),
{
}

/// `~fend w`, for any word `w`, is the `fend` command with the one argument
/// `w`, and an edit to it re-runs the command.
pub proof fn lemma_fend_one_word_reruns(w: Seq<char>)
    requires
        w.len() > 0,
        forall|i: int| 0 <= i < w.len() ==> !is_ws(#[trigger] w[i]),
    ensures
        find_command(seq!['~', 'f', 'e', 'n', 'd', ' '] + w) == Some((Command::Fend, seq![w])),
        reruns_fend(seq!['~', 'f', 'e', 'n', 'd', ' '] + w),
{
    let t = seq!['~', 'f', 'e', 'n', 'd', ' '] + w;
    let name = seq!['f', 'e', 'n', 'd'];
    assert(t.drop_first() =~= name + seq![' '] + w);
    assert forall|i: int| 0 <= i < name.len() implies !is_ws(#[trigger] name[i]) by {}
    lemma_two_words(name, w);
    reveal_strlit("fend");
    assert(name =~= "fend"@);
    assert(!is_ws(t[1]));
    assert(words(t.drop_first()).drop_first() =~= seq![w]);
}

/// How many commands stay editable.
pub const MAX_EDITABLE_COMMANDS: usize = 1024;

/// What the buffer of editable commands holds, front first: the id of the
/// user's message, then the channel and id of the bot's answer.
pub uninterp spec fn editable_items(b: FixedCircularBuffer<(u64, u64, u64), 1024>) -> Seq<
    (u64, u64, u64),
>;

/// `FixedCircularBuffer::boxed`: an empty buffer on the heap.
#[verifier::external_body]
fn editable_new() -> (r: Box<FixedCircularBuffer<(u64, u64, u64), 1024>>)
    ensures
        editable_items(*r) == Seq::<(u64, u64, u64)>::empty(),
{
    FixedCircularBuffer::boxed()
}

/// `CircularBuffer::len`: the number of items, never above the capacity.
#[verifier::external_body]
fn editable_len(b: &FixedCircularBuffer<(u64, u64, u64), 1024>) -> (r: usize)
    ensures
        r == editable_items(*b).len(),
        r <= 1024,
{
    b.len()
}

/// `CircularBuffer::get`: the item at `index`, counted from the front.
#[verifier::external_body]
fn editable_get(b: &FixedCircularBuffer<(u64, u64, u64), 1024>, index: usize) -> (r: Option<
    (u64, u64, u64),
>)
    ensures
        index < editable_items(*b).len() ==> r == Some(editable_items(*b)[index as int]),
        index >= editable_items(*b).len() ==> r is None,
{
    b.get(index).copied()
}

/// `CircularBuffer::remove`: takes out the item at `index`; the others keep
/// their order. It returns `None` on an index out of range and never panics.
#[verifier::external_body]
fn editable_remove(b: &mut FixedCircularBuffer<(u64, u64, u64), 1024>, index: usize) -> (r: Option<
    (u64, u64, u64),
>)
    ensures
        index < editable_items(*old(b)).len() ==> r == Some(editable_items(*old(b))[index as int])
            && editable_items(*final(b)) == editable_items(*old(b)).remove(index as int),
        index >= editable_items(*old(b)).len() ==> r is None && editable_items(*final(b))
            == editable_items(*old(b)),
    no_unwind
{
    b.remove(index)
}

/// `CircularBuffer::push_front`: puts `item` at the front; when the buffer is
/// full, the item at the back is dropped. It never panics.
#[verifier::external_body]
fn editable_push_front(b: &mut FixedCircularBuffer<(u64, u64, u64), 1024>, item: (u64, u64, u64))
    ensures
        editable_items(*old(b)).len() < 1024 ==> editable_items(*final(b)) == seq![item]
            + editable_items(*old(b)),
        editable_items(*old(b)).len() >= 1024 ==> editable_items(*final(b)) == seq![item]
            + editable_items(*old(b)).drop_last(),
    no_unwind
{
    b.push_front(item);
}

/// The commands whose answers are re-evaluated when the user edits them: pairs
/// of the user's message and the bot's answer, newest first, at most
/// `MAX_EDITABLE_COMMANDS` of them.
pub struct EditableCommands {
    buf: Box<FixedCircularBuffer<(u64, u64, u64), 1024>>,
}

/// The id an entry is looked up by: the user's message when `by_user`, else
/// the bot's answer.
pub open spec fn key_of(item: (u64, u64, u64), by_user: bool) -> u64 {
    if by_user {
        item.0
    } else {
        item.2
    }
}

/// Index of the first item whose key (see `key_of`) is `id`, if any.
pub open spec fn first_index(items: Seq<(u64, u64, u64)>, id: u64, by_user: bool) -> Option<int>
    decreases items.len(),
{
    if items.len() == 0 {
        None
    } else if key_of(items[0], by_user) == id {
        Some(0)
    } else {
        match first_index(items.drop_first(), id, by_user) {
            Some(i) => Some(i + 1),
            None => None,
        }
    }
}

/// `items` after recording that the user's message `user` was answered by
/// `(channel, answer)`: an earlier entry for that answer is dropped, and the
/// new entry goes to the front, evicting the oldest one when full.
pub open spec fn record_spec(items: Seq<(u64, u64, u64)>, user: u64, channel: u64, answer: u64) -> Seq<
    (u64, u64, u64),
> {
    let kept = match first_index(items, answer, false) {
        Some(i) => items.remove(i),
        None => items,
    };
    if kept.len() < 1024 {
        seq![(user, channel, answer)] + kept
    } else {
        seq![(user, channel, answer)] + kept.drop_last()
    }
}

/// The first item with the key, after items without it, is where `first_index` points.
proof fn lemma_first_index_step(items: Seq<(u64, u64, u64)>, id: u64, by_user: bool, i: int)
    requires
        0 <= i < items.len(),
        forall|j: int|
            0 <= j < i ==> key_of(#[trigger] items[j], by_user) != id,
    ensures
        key_of(items[i], by_user) == id ==> first_index(items, id, by_user) == Some(i),
    decreases i,
{
    if i > 0 {
        let t = items.drop_first();
        assert forall|j: int| 0 <= j < i - 1 implies key_of(#[trigger] t[j], by_user) != id by {
            assert(t[j] == items[j + 1]);
        }
        lemma_first_index_step(t, id, by_user, i - 1);
    }
}

/// `first_index` points into the items, at an item with the key.
proof fn lemma_first_index_bound(items: Seq<(u64, u64, u64)>, id: u64, by_user: bool)
    ensures
        first_index(items, id, by_user) matches Some(i) ==> 0 <= i < items.len() && key_of(
            items[i],
            by_user,
        ) == id,
    decreases items.len(),
{
    if items.len() > 0 && key_of(items[0], by_user) != id {
        lemma_first_index_bound(items.drop_first(), id, by_user);
    }
}

/// Without an item with the key, `first_index` finds nothing.
proof fn lemma_first_index_none(items: Seq<(u64, u64, u64)>, id: u64, by_user: bool)
    requires
        forall|j: int|
            0 <= j < items.len() ==> key_of(#[trigger] items[j], by_user) != id,
    ensures
        first_index(items, id, by_user) is None,
    decreases items.len(),
{
    if items.len() > 0 {
        let t = items.drop_first();
        assert forall|j: int| 0 <= j < t.len() implies key_of(#[trigger] t[j], by_user) != id by {
            assert(t[j] == items[j + 1]);
        }
        lemma_first_index_none(t, id, by_user);
    }
}

/// No answer appears in two entries.
pub open spec fn distinct_answers(items: Seq<(u64, u64, u64)>) -> bool {
    forall|i: int, j: int| 0 <= i < j < items.len() ==> (#[trigger] items[i]).2 != (#[trigger] items[j]).2
}

/// No entry before the first match has the key.
proof fn lemma_first_index_first(items: Seq<(u64, u64, u64)>, id: u64, by_user: bool, j: int)
    requires
        0 <= j < items.len(),
        key_of(items[j], by_user) == id,
    ensures
        first_index(items, id, by_user) matches Some(i) && i <= j,
    decreases j,
{
    if j > 0 && key_of(items[0], by_user) != id {
        assert(items.drop_first()[j - 1] == items[j]);
        lemma_first_index_first(items.drop_first(), id, by_user, j - 1);
    }
}

/// Right after an answer is recorded for a user's message, an edit of that
/// message finds this very answer.
pub proof fn lemma_record_then_find(items: Seq<(u64, u64, u64)>, user: u64, channel: u64, answer: u64)
    ensures
        first_index(record_spec(items, user, channel, answer), user, true) == Some(0int),
        record_spec(items, user, channel, answer)[0] == (user, channel, answer),
{
}

/// Recording keeps each answer in at most one entry, and never grows the
/// buffer beyond its capacity.
pub proof fn lemma_record_keeps_answers_distinct(items: Seq<(u64, u64, u64)>, user: u64, channel: u64, answer: u64)
    requires
        distinct_answers(items),
        items.len() <= MAX_EDITABLE_COMMANDS,
    ensures
        distinct_answers(record_spec(items, user, channel, answer)),
        record_spec(items, user, channel, answer).len() <= MAX_EDITABLE_COMMANDS,
{
    lemma_first_index_bound(items, answer, false);
    let kept = match first_index(items, answer, false) {
        Some(i) => items.remove(i),
        None => items,
    };
    assert forall|j: int| 0 <= j < kept.len() implies (#[trigger] kept[j]).2 != answer by {
        match first_index(items, answer, false) {
            Some(i) => {
                if j < i {
                    assert(kept[j] == items[j]);
                } else {
                    assert(kept[j] == items[j + 1]);
                    assert(items[j + 1].2 != items[i].2);
                }
            },
            None => {
                if items[j].2 == answer {
                    lemma_first_index_first(items, answer, false, j);
                }
            },
        }
    }
    assert forall|a: int, b: int| 0 <= a < b < kept.len() implies (#[trigger] kept[a]).2 != (#[trigger] kept[b]).2 by {
        match first_index(items, answer, false) {
            Some(i) => {
                let sa = if a < i { a } else { a + 1 };
                let sb = if b < i { b } else { b + 1 };
                assert(kept[a] == items[sa] && kept[b] == items[sb]);
            },
            None => {},
        }
    }
    let after = record_spec(items, user, channel, answer);
    assert forall|a: int, b: int| 0 <= a < b < after.len() implies (#[trigger] after[a]).2 != (#[trigger] after[b]).2 by {
        assert(after[b] == kept[b - 1]);
        if a > 0 {
            assert(after[a] == kept[a - 1]);
        }
    }
}

impl EditableCommands {
    /// The entries, newest first.
    pub closed spec fn items(&self) -> Seq<(u64, u64, u64)> {
        editable_items(*self.buf)
    }

    /// Each answer is held by at most one entry, and the buffer is never over
    /// its capacity.
    #[verifier::type_invariant]
    closed spec fn well_formed(&self) -> bool {
        distinct_answers(self.items()) && self.items().len() <= MAX_EDITABLE_COMMANDS
    }

    /// No editable commands yet.
    pub fn new() -> (r: Self)
        ensures
            r.items() == Seq::<(u64, u64, u64)>::empty(),
    {
        EditableCommands { buf: editable_new() }
    }

    /// Position of the first entry whose user message (when `by_user`) or answer
    /// (otherwise) has id `id`.
    fn position(&self, id: u64, by_user: bool) -> (r: Option<usize>)
        ensures
            match r {
                Some(k) => first_index(self.items(), id, by_user) == Some(k as int) && k
                    < self.items().len(),
                None => first_index(self.items(), id, by_user) is None,
            },
    {
        proof {
            lemma_first_index_bound(self.items(), id, by_user);
        }
        let n = editable_len(&self.buf);
        let mut i: usize = 0;
        while i < n
            invariant
                i <= n == self.items().len(),
                forall|j: int| 0 <= j < i ==> key_of(#[trigger] self.items()[j], by_user) != id,
            decreases n - i,
        {
            let item = editable_get(&self.buf, i);
            let (u, _c, a) = item.unwrap();
            assert(item == Some(self.items()[i as int]));
            let hit = if by_user {
                u == id
            } else {
                a == id
            };
            assert(hit == (key_of(self.items()[i as int], by_user) == id));
            if hit {
                proof {
                    lemma_first_index_step(self.items(), id, by_user, i as int);
                }
                return Some(i);
            }
            i += 1;
        }
        proof {
            lemma_first_index_none(self.items(), id, by_user);
        }
        None
    }

    /// The newest entry for the user's message `user`: the user's message id,
    /// then the channel and id of the bot's answer.
    pub fn find_by_user(&self, user: u64) -> (r: Option<(u64, u64, u64)>)
        ensures
            match first_index(self.items(), user, true) {
                Some(i) => r == Some(self.items()[i]),
                None => r is None,
            },
    {
        proof {
            lemma_first_index_bound(self.items(), user, true);
        }
        match self.position(user, true) {
            Some(i) => editable_get(&self.buf, i),
            None => None,
        }
    }

    /// Records that the user's message `user` was answered by message
    /// `answer` in `channel`.
    pub fn record(&mut self, user: u64, channel: u64, answer: u64)
        ensures
            final(self).items() == record_spec(old(self).items(), user, channel, answer),
            distinct_answers(final(self).items()),
    {
        proof {
            use_type_invariant(&*self);
            lemma_record_keeps_answers_distinct(self.items(), user, channel, answer);
        }
        if let Some(i) = self.position(answer, false) {
            editable_remove(&mut self.buf, i);
        }
        editable_push_front(&mut self.buf, (user, channel, answer));
    }

    /// The number of entries, which never exceeds `MAX_EDITABLE_COMMANDS`.
    pub fn len(&self) -> (r: usize)
        ensures
            r == self.items().len(),
            r <= MAX_EDITABLE_COMMANDS,
    {
        editable_len(&self.buf)
    }
}

} // verus!
