//! Building the bot's answers: the messages to send and how each is sent.
use vstd::prelude::*;

use vstd::utf8::encode_utf8;

use crate::text::views;

verus! {

/// A message, by its channel and its id.
#[derive(Clone, Copy, Debug, PartialEq, Eq, Structural)]
pub struct MessageRef {
    pub channel: u64,
    pub id: u64,
}

/// How the first message of an answer is sent.
#[derive(Clone, Copy, Debug, PartialEq, Eq, Structural)]
pub enum ReplyMode {
    /// As a plain message in the channel.
    NoReply,
    /// As a reply to this message, without pinging its author.
    Reply(MessageRef),
    /// As a reply to this message, pinging its author.
    PingReply(MessageRef),
    /// By editing this (earlier) message.
    Edit(MessageRef),
    /// In a direct message to the user; every message of the answer goes there.
    Dm,
}

/// How one message is delivered.
#[derive(Clone, Copy, Debug, PartialEq, Eq, Structural)]
pub enum Delivery {
    /// Sent to this channel.
    Send(u64),
    /// Sent as a reply to this message.
    Reply(MessageRef),
    /// Sent as a reply to this message, pinging its author.
    PingReply(MessageRef),
    /// Written over this message.
    Edit(MessageRef),
}

/// The delivery of the next message in `mode`, when the answer goes to
/// `channel`.
pub open spec fn delivery_spec(mode: ReplyMode, channel: u64) -> Delivery {
    match mode {
        ReplyMode::NoReply => Delivery::Send(channel),
        ReplyMode::Reply(m) => Delivery::Reply(m),
        ReplyMode::PingReply(m) => Delivery::PingReply(m),
        ReplyMode::Edit(m) => Delivery::Edit(m),
        ReplyMode::Dm => Delivery::Send(channel),
    }
}

/// The reply mode once a message has gone out: a direct-message answer stays
/// one; otherwise only the first message replies or edits.
pub open spec fn mode_after_send(mode: ReplyMode) -> ReplyMode {
    match mode {
        ReplyMode::Dm => ReplyMode::Dm,
        _ => ReplyMode::NoReply,
    }
}

/// The reply mode applies to the first message only: every later message of
/// an answer goes to the answer's channel as a plain message.
pub proof fn lemma_reply_mode_only_first(mode: ReplyMode, channel: u64)
    ensures
        delivery_spec(mode_after_send(mode), channel) == Delivery::Send(channel),
        mode_after_send(mode_after_send(mode)) == mode_after_send(mode),
{
}

/// Whether `s` is the square root of `n`, rounded down.
pub open spec fn is_isqrt(n: nat, s: nat) -> bool {
    s * s <= n < (s + 1) * (s + 1)
}

/// The square root of `n`, rounded down.
pub fn isqrt(n: u64) -> (r: u64)
    ensures
        is_isqrt(n as nat, r as nat),
{
    let mut lo: u64 = 0;
    let mut hi: u64 = 4294967296;
    assert(hi * hi > u64::MAX) by (nonlinear_arith)
        requires
            hi == 4294967296u64,
    ;
    while hi - lo > 1
        invariant
            lo < hi <= 4294967296,
            lo * lo <= n,
            n < hi * hi,
        decreases hi - lo,
    {
        let mid = lo + (hi - lo) / 2;
        assert(mid <= 4294967296);
        assert((mid as u128) * (mid as u128) <= 18446744073709551616u128) by (nonlinear_arith)
            requires
                mid <= 4294967296u64,
        ;
        if (mid as u128) * (mid as u128) <= n as u128 {
            lo = mid;
        } else {
            hi = mid;
        }
    }
    assert(hi == lo + 1);
    lo
}

/// How long to show the typing indicator before sending `message`, in
/// milliseconds: 50 per unit of the square root of its length in bytes,
/// rounded down.
pub fn typing_delay_ms(message: &str) -> (r: u64)
    ensures
        exists|s: nat| #[trigger] is_isqrt(encode_utf8(message@).len(), s) && r == 50 * s,
{
    let b = message.as_bytes();
    let n = b.len() as u64;
    let s = isqrt(n);
    assert(s <= 4294967296) by (nonlinear_arith)
        requires
            s * s <= n,
            n <= u64::MAX,
    ;
    assert(is_isqrt(encode_utf8(message@).len(), s as nat));
    s * 50
}

/// An answer in the making: the messages to send, the message it answers, and
/// how it is sent.
pub struct ResponseHelper {
    response: Vec<String>,
    msg: MessageRef,
    reply_mode: ReplyMode,
    latest_message: Option<MessageRef>,
}

impl ResponseHelper {
    /// The messages still to send, in order.
    pub closed spec fn pending(&self) -> Seq<Seq<char>> {
        views(self.response@)
    }

    /// The message being answered.
    pub closed spec fn origin(&self) -> MessageRef {
        self.msg
    }

    /// How the next message is sent.
    pub closed spec fn mode(&self) -> ReplyMode {
        self.reply_mode
    }

    /// The last message sent or edited, if any.
    pub closed spec fn latest(&self) -> Option<MessageRef> {
        self.latest_message
    }

    /// An empty answer to `msg`, replying to it.
    pub fn new(msg: MessageRef) -> (r: Self)
        ensures
            r.pending() == Seq::<Seq<char>>::empty(),
            r.origin() == msg,
            r.mode() == ReplyMode::Reply(msg),
            r.latest() is None,
    {
        let r = ResponseHelper {
            response: Vec::new(),
            msg,
            reply_mode: ReplyMode::Reply(msg),
            latest_message: None,
        };
        assert(r.pending() =~= Seq::<Seq<char>>::empty());
        r
    }

    /// Sends the answer in a direct message to the user.
    pub fn dm(self) -> (r: Self)
        ensures
            r.mode() == ReplyMode::Dm,
            r.pending() == self.pending() && r.origin() == self.origin() && r.latest() == self.latest(),
    {
        let mut s = self;
        s.reply_mode = ReplyMode::Dm;
        s
    }

    /// Sends the answer as plain messages.
    pub fn no_reply(self) -> (r: Self)
        ensures
            r.mode() == ReplyMode::NoReply,
            r.pending() == self.pending() && r.origin() == self.origin() && r.latest() == self.latest(),
    {
        let mut s = self;
        s.reply_mode = ReplyMode::NoReply;
        s
    }

    /// Replies to the message being answered.
    pub fn reply(self) -> (r: Self)
        ensures
            r.mode() == ReplyMode::Reply(self.origin()),
            r.pending() == self.pending() && r.origin() == self.origin() && r.latest() == self.latest(),
    {
        let mut s = self;
        s.reply_mode = ReplyMode::Reply(s.msg);
        s
    }

    /// Replies to the message being answered, pinging its author.
    pub fn ping_reply(self) -> (r: Self)
        ensures
            r.mode() == ReplyMode::PingReply(self.origin()),
            r.pending() == self.pending() && r.origin() == self.origin() && r.latest() == self.latest(),
    {
        let mut s = self;
        s.reply_mode = ReplyMode::PingReply(s.msg);
        s
    }

    /// Replies to `msg`.
    pub fn reply_to(self, msg: MessageRef) -> (r: Self)
        ensures
            r.mode() == ReplyMode::Reply(msg),
            r.pending() == self.pending() && r.origin() == self.origin() && r.latest() == self.latest(),
    {
        let mut s = self;
        s.reply_mode = ReplyMode::Reply(msg);
        s
    }

    /// Replies to `msg`, pinging its author.
    pub fn ping_reply_to(self, msg: MessageRef) -> (r: Self)
        ensures
            r.mode() == ReplyMode::PingReply(msg),
            r.pending() == self.pending() && r.origin() == self.origin() && r.latest() == self.latest(),
    {
        let mut s = self;
        s.reply_mode = ReplyMode::PingReply(msg);
        s
    }

    /// Edits `msg` instead of sending, when there is one.
    pub fn message_to_edit(self, msg: Option<MessageRef>) -> (r: Self)
        ensures
            r.mode() == (match msg {
                Some(m) => ReplyMode::Edit(m),
                None => self.mode(),
            }),
            r.pending() == self.pending() && r.origin() == self.origin() && r.latest() == self.latest(),
    {
        let mut s = self;
        if let Some(m) = msg {
            s.reply_mode = ReplyMode::Edit(m);
        }
        s
    }

    /// Adds a message to the answer.
    pub fn push(&mut self, msg: String)
        ensures
            final(self).pending() == old(self).pending().push(msg@),
            final(self).origin() == old(self).origin(),
            final(self).mode() == old(self).mode(),
            final(self).latest() == old(self).latest(),
    {
        self.response.push(msg);
        assert(views(self.response@) =~= views(old(self).response@).push(msg@));
    }

    /// The messages still to send.
    pub fn pending_messages(&self) -> (r: Vec<String>)
        ensures
            views(r@) == self.pending(),
    {
        self.response.clone()
    }

    /// The message being answered.
    pub fn message(&self) -> (r: MessageRef)
        ensures
            r == self.origin(),
    {
        self.msg
    }

    /// How the next message is sent.
    pub fn reply_mode(&self) -> (r: ReplyMode)
        ensures
            r == self.mode(),
    {
        self.reply_mode
    }

    /// The channel the answer goes to, unless it goes in a direct message,
    /// whose channel must be opened first.
    pub fn get_channel(&self) -> (r: Option<u64>)
        ensures
            self.mode() is Dm ==> r is None,
            !(self.mode() is Dm) ==> r == Some(self.origin().channel),
    {
        match self.reply_mode {
            ReplyMode::Dm => None,
            _ => Some(self.msg.channel),
        }
    }

    /// How the next message is delivered when the answer goes to `channel`.
    pub fn delivery(&self, channel: u64) -> (r: Delivery)
        ensures
            r == delivery_spec(self.mode(), channel),
    {
        match self.reply_mode {
            ReplyMode::NoReply => Delivery::Send(channel),
            ReplyMode::Reply(m) => Delivery::Reply(m),
            ReplyMode::PingReply(m) => Delivery::PingReply(m),
            ReplyMode::Edit(m) => Delivery::Edit(m),
            ReplyMode::Dm => Delivery::Send(channel),
        }
    }

    /// Notes that a message went out as `sent` (for an edit, the edited
    /// message): it becomes the latest, and the reply mode only applied to it.
    pub fn mark_sent(&mut self, sent: MessageRef)
        ensures
            final(self).latest() == Some(sent),
            final(self).mode() == mode_after_send(old(self).mode()),
            final(self).pending() == old(self).pending(),
            final(self).origin() == old(self).origin(),
    {
        self.latest_message = Some(sent);
        match self.reply_mode {
            ReplyMode::Dm => {},
            _ => {
                self.reply_mode = ReplyMode::NoReply;
            },
        }
    }

    /// Notes that all messages went out: nothing is pending any more.
    pub fn finish(&mut self)
        ensures
            final(self).pending() == Seq::<Seq<char>>::empty(),
            final(self).mode() == old(self).mode(),
            final(self).origin() == old(self).origin(),
            final(self).latest() == old(self).latest(),
    {
        self.response.clear();
        assert(views(self.response@) =~= Seq::<Seq<char>>::empty());
    }

    /// Deals with a failed send: when the answer was too long, it is replaced
    /// by a notice saying so, to be sent instead (`true`); other failures
    /// change nothing (`false`).
    pub fn after_failure(&mut self, too_long: bool) -> (retry: bool)
        ensures
            retry == too_long,
            too_long ==> final(self).pending() == seq!["Message too long to send."@],
            !too_long ==> final(self).pending() == old(self).pending(),
            final(self).mode() == old(self).mode(),
            final(self).origin() == old(self).origin(),
            final(self).latest() == old(self).latest(),
    {
        if too_long {
            let mut notice = String::new();
            notice.append("Message too long to send.");
            self.response = vec![notice];
            assert(views(self.response@) =~= seq!["Message too long to send."@]);
        }
        too_long
    }

    /// The last message sent or edited, if any.
    pub fn latest_message(&self) -> (r: Option<MessageRef>)
        ensures
            r == self.latest(),
    {
        self.latest_message
    }
}

} // verus!
