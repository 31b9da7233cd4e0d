//! Interactive sessions: a user in a channel can have one running session,
//! which then receives that user's messages there.
use vstd::prelude::*;

use crate::registry::{lemma_user_channel_key_injective, user_channel, user_channel_key, Registry};

verus! {

/// The handle of the session of `user` in `channel`, if one runs.
pub fn try_find_session<V>(sessions: &Registry<V>, user: u64, channel: u64) -> (r: Option<&V>)
    ensures
        sessions.view().contains_key(user_channel_key(user, channel)) ==> r == Some(
            &sessions.view()[user_channel_key(user, channel)],
        ),
        !sessions.view().contains_key(user_channel_key(user, channel)) ==> r is None,
{
    sessions.get(user_channel(user, channel))
}

/// Deals with a message that was forwarded to the session of `user` in
/// `channel`: when it could not be delivered, the session is over and is
/// forgotten.
pub fn handle<V>(sessions: &mut Registry<V>, user: u64, channel: u64, delivered: bool)
    ensures
        delivered ==> final(sessions).view() == old(sessions).view(),
        !delivered ==> final(sessions).view() == old(sessions).view().remove(
            user_channel_key(user, channel),
        ),
{
    if !delivered {
        sessions.remove(user_channel(user, channel));
    }
}

/// Opens a session of `user` in `channel` with handle `sender`: `Some(())`,
/// unless the user already has one there, which is then left alone (`None`).
pub fn register<V>(sessions: &mut Registry<V>, user: u64, channel: u64, sender: V) -> (r: Option<()>)
    ensures
        r is Some == !old(sessions).view().contains_key(user_channel_key(user, channel)),
        r is Some ==> final(sessions).view() == old(sessions).view().insert(
            user_channel_key(user, channel),
            sender,
        ),
        r is None ==> final(sessions).view() == old(sessions).view(),
{
    if sessions.try_insert(user_channel(user, channel), sender) {
        Some(())
    } else {
        None
    }
}

/// Ends the session of `user` in `channel`.
pub fn close<V>(sessions: &mut Registry<V>, user: u64, channel: u64)
    ensures
        final(sessions).view() == old(sessions).view().remove(user_channel_key(user, channel)),
{
    sessions.remove(user_channel(user, channel));
}

/// What a prompt in a session does with one attempt to read the user's answer.
pub enum FillStep<T> {
    /// The answer was a valid value: the prompt ends with it.
    Done(T),
    /// The answer was not valid: this message is said, and the user is asked
    /// again.
    Retry(String),
    /// No answer came in time: the prompt ends without a value.
    GiveUp,
}

/// Decides a prompt's next step from an attempt to read the user's answer:
/// `None` when no answer came, else the parsed value or the parse error.
pub fn fill_step<T>(attempt: Option<Result<T, String>>) -> (r: FillStep<T>)
    ensures
        match attempt {
            Some(Ok(v)) => r == FillStep::Done(v),
            Some(Err(e)) => r == FillStep::<T>::Retry(e),
            None => r is GiveUp,
        },
{
    match attempt {
        Some(Ok(v)) => FillStep::Done(v),
        Some(Err(e)) => FillStep::Retry(e),
        None => FillStep::GiveUp,
    }
}

/// One session per user and channel: once a session is opened for a user in
/// a channel, opening another one there is refused until it is closed.
pub proof fn lemma_one_session_per_user_and_channel<V>(sessions: Map<u128, V>, user: u64, channel: u64, first: V)
    ensures
        sessions.insert(user_channel_key(user, channel), first).contains_key(user_channel_key(user, channel)),
        !sessions.insert(user_channel_key(user, channel), first).remove(user_channel_key(user, channel)).contains_key(user_channel_key(user, channel)),
{
}

/// Sessions of different users, or in different channels, do not interfere:
/// opening or closing one leaves the lookup of the other unchanged.
pub proof fn lemma_sessions_independent<V>(sessions: Map<u128, V>, user: u64, channel: u64, other_user: u64, other_channel: u64, handle: V)
    requires
        user != other_user || channel != other_channel,
    ensures
        sessions.insert(user_channel_key(user, channel), handle).contains_key(user_channel_key(other_user, other_channel)) == sessions.contains_key(user_channel_key(other_user, other_channel)),
        sessions.remove(user_channel_key(user, channel)).contains_key(user_channel_key(other_user, other_channel)) == sessions.contains_key(user_channel_key(other_user, other_channel)),
        sessions.contains_key(user_channel_key(other_user, other_channel)) ==> sessions.insert(user_channel_key(user, channel), handle)[user_channel_key(other_user, other_channel)] == sessions[user_channel_key(other_user, other_channel)],
{
    lemma_user_channel_key_injective(user, channel, other_user, other_channel);
}

} // verus!
