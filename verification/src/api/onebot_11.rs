//! The gateway-protocol adapter: a WebSocket event stream with HTTP RPC, the
//! typed-segment-list wire schema, and the reconnection state machine.
use vstd::prelude::*;

use crate::api::{EventSlot, Polled};
use crate::decimal::{dec_int, int_literal_val};
use crate::{
    ApiHandle, Chat, ChatInfo, Event, Group, Message, MessageContent, MessageContents, SpecSegment,
    User, segs_view,
};

verus! {

/// One typed segment of the wire schema. Only the kinds this model reads or
/// writes are distinguished; everything else the platform may send is
/// `Other` and is ignored without failing.
#[derive(Debug)]
pub enum MessageSegment {
    Text { text: String },
    At { qq: String },
    Reply { id: String },
    Other,
}

/// The mathematical shape of one wire segment.
#[verifier::ext_equal]
pub enum SpecWireSeg {
    Text(Seq<char>),
    At(Seq<char>),
    Reply(Seq<char>),
    Other,
}

/// The mathematical shape of a wire segment value.
pub open spec fn wire_seg_view(s: MessageSegment) -> SpecWireSeg {
    match s {
        MessageSegment::Text { text } => SpecWireSeg::Text(text@),
        MessageSegment::At { qq } => SpecWireSeg::At(qq@),
        MessageSegment::Reply { id } => SpecWireSeg::Reply(id@),
        MessageSegment::Other => SpecWireSeg::Other,
    }
}

/// The mathematical shape of a wire segment sequence.
pub open spec fn wire_segs_view(s: Seq<MessageSegment>) -> Seq<SpecWireSeg> {
    s.map_values(|seg: MessageSegment| wire_seg_view(seg))
}

/// The shape of a segment sequence with one more segment.
proof fn lemma_wsv_push(s: Seq<MessageSegment>, x: MessageSegment)
    ensures
        wire_segs_view(s.push(x)) == wire_segs_view(s).push(wire_seg_view(x)),
{
    assert(wire_segs_view(s.push(x)) =~= wire_segs_view(s).push(wire_seg_view(x)));
}

/// Whether an inbound message arrived in a private or a group chat.
#[derive(Debug, PartialEq, Eq, Structural)]
pub enum MessageType {
    Private,
    Group,
}

/// What the platform reports of a message's sender.
#[derive(Debug)]
pub struct WireSender {
    pub nickname: String,
}

/// One event of the WebSocket stream: a message with its typed segment
/// list, or anything else, which the adapter ignores.
#[derive(Debug)]
pub enum WireEvent {
    Message {
        message_id: i64,
        message_type: MessageType,
        group_id: Option<i64>,
        user_id: i64,
        message: Vec<MessageSegment>,
        sender: WireSender,
    },
    Other,
}

/// The neutral content units read from a segment list: text segments are
/// kept, an at-segment becomes a mention of the named id, and unrecognized
/// kinds are ignored without failing.
pub open spec fn segs_of_wire(message: Seq<MessageSegment>) -> Seq<SpecSegment>
    decreases message.len(),
{
    if message.len() == 0 {
        Seq::empty()
    } else {
        let rest = segs_of_wire(message.drop_first());
        match message[0] {
            MessageSegment::Text { text } => seq![SpecSegment::Text(text@)] + rest,
            MessageSegment::At { qq } => seq![SpecSegment::At { id: qq@, nickname: None }] + rest,
            _ => rest,
        }
    }
}

/// Appending a wire segment appends what it reads to.
pub proof fn lemma_segs_of_wire_snoc(message: Seq<MessageSegment>, s: MessageSegment)
    ensures
        segs_of_wire(message.push(s)) == segs_of_wire(message) + (match s {
            MessageSegment::Text { text } => seq![SpecSegment::Text(text@)],
            MessageSegment::At { qq } => seq![SpecSegment::At { id: qq@, nickname: None }],
            _ => Seq::<SpecSegment>::empty(),
        }),
    decreases message.len(),
{
    if message.len() == 0 {
        assert(message.push(s)[0] == s);
        assert(message.push(s).drop_first() =~= Seq::<MessageSegment>::empty());
        assert(segs_of_wire(Seq::<MessageSegment>::empty()) == Seq::<SpecSegment>::empty());
        assert(segs_of_wire(message) == Seq::<SpecSegment>::empty());
        match s {
            MessageSegment::Text { text } => {
                assert(segs_of_wire(message.push(s)) =~= segs_of_wire(message) + seq![
                    SpecSegment::Text(text@),
                ]);
            },
            MessageSegment::At { qq } => {
                assert(segs_of_wire(message.push(s)) =~= segs_of_wire(message) + seq![
                    SpecSegment::At { id: qq@, nickname: None },
                ]);
            },
            _ => {
                assert(segs_of_wire(message.push(s)) =~= segs_of_wire(message)
                    + Seq::<SpecSegment>::empty());
            },
        }
    } else {
        assert(message.push(s)[0] == message[0]);
        assert(message.push(s).drop_first() =~= message.drop_first().push(s));
        lemma_segs_of_wire_snoc(message.drop_first(), s);
        assert(segs_of_wire(message.push(s)) =~= segs_of_wire(message) + (match s {
            MessageSegment::Text { text } => seq![SpecSegment::Text(text@)],
            MessageSegment::At { qq } => seq![SpecSegment::At { id: qq@, nickname: None }],
            _ => Seq::<SpecSegment>::empty(),
        }));
    }
}

/// What can go wrong inside this adapter's own translation logic: a group
/// message without a group id, or a platform-native id that is not a 64-bit
/// integer.
#[derive(Debug)]
pub enum OneBotError {
    NoGroupId,
    BadId,
}

/// How many seconds the adapter waits after losing its event stream before
/// reconnecting.
pub const RECONNECT_DELAY_SECS: u64 = 3;

/// Where the adapter's event-stream connection stands.
#[derive(Debug, PartialEq, Eq, Structural)]
pub enum ConnState {
    Disconnected,
    Connecting,
    Connected,
}

/// What happens to the connection: the adapter dials, the dial succeeds or
/// fails, or an established stream ends.
#[derive(Debug, PartialEq, Eq, Structural)]
pub enum ConnEvent {
    Dial,
    ConnectOk,
    ConnectFailed,
    StreamEnded,
}

/// The reconnection state machine's transition: the next state, and how
/// long to wait before dialing again, when a wait is owed. Connect failures
/// and stream terminations both return to `Disconnected` with the fixed
/// delay — retries are unbounded and the delay never grows, since the
/// adapter is meant to run indefinitely.
pub open spec fn conn_step(s: ConnState, e: ConnEvent) -> (ConnState, Option<u64>) {
    match (s, e) {
        (ConnState::Disconnected, ConnEvent::Dial) => (ConnState::Connecting, None),
        (ConnState::Connecting, ConnEvent::ConnectOk) => (ConnState::Connected, None),
        (ConnState::Connecting, ConnEvent::ConnectFailed) => (
            ConnState::Disconnected,
            Some(RECONNECT_DELAY_SECS),
        ),
        (ConnState::Connected, ConnEvent::StreamEnded) => (
            ConnState::Disconnected,
            Some(RECONNECT_DELAY_SECS),
        ),
        _ => (s, None),
    }
}

/// A dropped stream is always followed by a reconnection: the machine
/// returns to `Disconnected` with exactly the fixed delay, a new dial is
/// taken from there, and a successful connect restores delivery — the
/// runtime around it never restarts.
pub proof fn lemma_reconnect_after_drop()
    ensures
        conn_step(ConnState::Connected, ConnEvent::StreamEnded) == (
            ConnState::Disconnected,
            Some(RECONNECT_DELAY_SECS),
        ),
        conn_step(ConnState::Disconnected, ConnEvent::Dial).0 is Connecting,
        conn_step(conn_step(ConnState::Disconnected, ConnEvent::Dial).0, ConnEvent::ConnectOk).0
            is Connected,
{
}

/// The event-stream connection of one adapter instance.
#[derive(Debug)]
pub struct Connection {
    pub state: ConnState,
}

impl Connection {
    /// A fresh connection, not yet dialed.
    pub fn new() -> (c: Self)
        ensures
            c.state is Disconnected,
    {
        Self { state: ConnState::Disconnected }
    }

    /// Takes one connection event and answers how long to wait, when a wait
    /// is owed, before the next dial.
    pub fn step(&mut self, event: ConnEvent) -> (delay: Option<u64>)
        ensures
            (final(self).state, delay) == conn_step(old(self).state, event),
    {
        match (&self.state, &event) {
            (ConnState::Disconnected, ConnEvent::Dial) => {
                self.state = ConnState::Connecting;
                None
            },
            (ConnState::Connecting, ConnEvent::ConnectOk) => {
                self.state = ConnState::Connected;
                None
            },
            (ConnState::Connecting, ConnEvent::ConnectFailed) => {
                self.state = ConnState::Disconnected;
                Some(RECONNECT_DELAY_SECS)
            },
            (ConnState::Connected, ConnEvent::StreamEnded) => {
                self.state = ConnState::Disconnected;
                Some(RECONNECT_DELAY_SECS)
            },
            _ => None,
        }
    }
}

/// What the platform answers when asked who the bot is.
#[derive(Debug)]
pub struct GetLoginInfoData {
    pub user_id: i64,
    pub nickname: String,
}

/// The gateway adapter's own state: its routing handle, its capacity-1
/// event queue, and its connection state machine.
#[derive(Debug)]
pub struct OneBot11 {
    pub handle: ApiHandle,
    pub events: EventSlot,
    pub conn: Connection,
}

impl OneBot11 {
    /// A fresh adapter under the given runtime key, from the platform's
    /// answer about the bot's own account: the numeric id becomes the bot's
    /// user id, the reported nickname its nickname. The queue starts empty
    /// and open, the connection not yet dialed.
    pub fn new(login: GetLoginInfoData, key: u64) -> (a: Self)
        ensures
            a.handle.key == key,
            a.handle.self_user.id@ == dec_int(login.user_id as int),
            a.handle.self_user.nickname == Some(login.nickname),
            a.events.slot is None,
            !a.events.closed,
            a.conn.state is Disconnected,
    {
        Self {
            handle: ApiHandle::new(
                key,
                User::new(crate::decimal::i64_to_string(login.user_id)).nickname(login.nickname),
            ),
            events: EventSlot::new(),
            conn: Connection::new(),
        }
    }

    /// Translates one stream event into a neutral event: `Ok(None)` for
    /// events that are not messages; an error for a group message without a
    /// group id; otherwise the decoded message, owned by this adapter — its
    /// chat carries this adapter's handle, so replies are routed back over
    /// this same connection.
    pub fn handle_event(&self, ev: WireEvent) -> (r: Result<Option<Event>, OneBotError>)
        ensures
            match ev {
                WireEvent::Other => r == Ok::<Option<Event>, OneBotError>(None),
                WireEvent::Message {
                    message_id,
                    message_type,
                    group_id,
                    user_id,
                    message,
                    sender,
                } => {
                    if message_type is Group && group_id is None {
                        r == Err::<Option<Event>, OneBotError>(OneBotError::NoGroupId)
                    } else {
                        (r matches Ok(Some(rev)) && rev matches Event::Message(m)
                            && m.id@ == dec_int(message_id as int)
                            && segs_view(m.contents@) == segs_of_wire(message@)
                            && m.chat.api == self.handle
                            && m.sender.id@ == dec_int(user_id as int)
                            && (m.sender.nickname matches Some(n) && n@ == sender.nickname@)
                            && (match message_type {
                                MessageType::Private => m.chat.info == ChatInfo::Private(m.sender),
                                MessageType::Group => m.chat.info matches ChatInfo::Group(g)
                                    && g.id@ == dec_int(group_id->0 as int),
                            }))
                    }
                },
            },
    {
        let (message_id, message_type, group_id, user_id, message, sender) = match ev {
            WireEvent::Message { message_id, message_type, group_id, user_id, message, sender } => (
                message_id,
                message_type,
                group_id,
                user_id,
                message,
                sender,
            ),
            WireEvent::Other => {
                return Ok(None);
            },
        };
        let mut contents = MessageContents::new();
        let mut i: usize = 0;
        proof {
            assert(message@.subrange(0, 0) =~= Seq::<MessageSegment>::empty());
            assert(segs_view(contents@) =~= segs_of_wire(message@.subrange(0, 0)));
        }
        while i < message.len()
            invariant
                i <= message@.len(),
                segs_view(contents@) == segs_of_wire(message@.subrange(0, i as int)),
            decreases message@.len() - i,
        {
            let ghost prefix = message@.subrange(0, i as int);
            match &message[i] {
                MessageSegment::Text { text } => {
                    contents = contents.text(text.clone());
                },
                MessageSegment::At { qq } => {
                    contents = contents.at(User::new(qq.clone()));
                },
                _ => {},
            }
            i = i + 1;
            proof {
                lemma_segs_of_wire_snoc(prefix, message@[i - 1]);
                assert(prefix.push(message@[i - 1]) =~= message@.subrange(0, i as int));
                assert(segs_view(contents@) =~= segs_of_wire(message@.subrange(0, i as int)));
            }
        }
        proof {
            assert(message@.subrange(0, message@.len() as int) =~= message@);
        }
        let sender_user = User::new(crate::decimal::i64_to_string(user_id)).nickname(
            sender.nickname,
        );
        let chat = match message_type {
            MessageType::Private => Chat {
                info: ChatInfo::Private(sender_user.clone()),
                api: self.handle.clone(),
            },
            MessageType::Group => {
                let gid = match group_id {
                    Some(g) => g,
                    None => {
                        return Err(OneBotError::NoGroupId);
                    },
                };
                Chat {
                    info: ChatInfo::Group(Group::new(crate::decimal::i64_to_string(gid))),
                    api: self.handle.clone(),
                }
            },
        };
        Ok(
            Some(
                Event::Message(
                    Message::new(
                        crate::decimal::i64_to_string(message_id),
                        contents,
                        chat,
                        sender_user,
                    ),
                ),
            ),
        )
    }

    /// Offers a decoded event to the adapter's queue; hands it back when the
    /// slot is still full, so the ingestion side can wait and retry.
    pub fn push_event(&mut self, event: Event) -> (r: Option<Event>)
        ensures
            final(self).handle == old(self).handle,
            final(self).conn == old(self).conn,
            final(self).events.closed == old(self).events.closed,
            old(self).events.slot is None && !old(self).events.closed ==> final(self).events.slot
                == Some(event) && r is None,
            old(self).events.slot is Some || old(self).events.closed ==> final(self).events
                == old(self).events && r == Some(event),
    {
        self.events.push(event)
    }

    /// Closes the event queue: the stream ends once drained.
    pub fn close(&mut self)
        ensures
            final(self).handle == old(self).handle,
            final(self).conn == old(self).conn,
            final(self).events.slot == old(self).events.slot,
            final(self).events.closed,
    {
        self.events.close()
    }
}

impl crate::api::BotAPI for OneBot11 {
    open spec fn api(&self) -> ApiHandle {
        self.handle
    }

    open spec fn events(&self) -> EventSlot {
        self.events
    }

    fn get_self_user(&self) -> (u: &User) {
        &self.handle.self_user
    }

    fn get_handle(&self) -> (h: &ApiHandle) {
        &self.handle
    }

    fn next_event(&mut self) -> (r: Polled)
        ensures
            final(self).conn == old(self).conn,
    {
        self.events.pull()
    }
}

/// The generic envelope every RPC answer of this platform arrives in.
#[derive(Debug)]
pub struct Envelope<T> {
    pub status: RespStatus,
    pub retcode: u16,
    pub data: Option<T>,
    pub message: String,
}

/// The status word of an RPC envelope.
#[derive(Debug, PartialEq, Eq, Structural)]
pub enum RespStatus {
    Okay,
    Async,
    Failed,
}

/// A failed RPC: the platform reported failure with its retcode and
/// message, or answered without data under a non-failed status.
#[derive(Debug)]
pub enum ApiError {
    Failed { retcode: u16, message: String },
    Empty,
}

/// Opens an RPC envelope: success exactly when data is present; a failed
/// status keeps its retcode and message; a non-failed answer without data
/// is an empty-response error.
pub fn unwrap_envelope<T>(resp: Envelope<T>) -> (r: Result<T, ApiError>)
    ensures
        match resp.data {
            Some(d) => r == Ok::<T, ApiError>(d),
            None => if resp.status is Failed {
                r == Err::<T, ApiError>(
                    ApiError::Failed { retcode: resp.retcode, message: resp.message },
                )
            } else {
                r == Err::<T, ApiError>(ApiError::Empty)
            },
        },
{
    match resp.data {
        Some(d) => Ok(d),
        None => match resp.status {
            RespStatus::Failed => Err(
                ApiError::Failed { retcode: resp.retcode, message: resp.message },
            ),
            _ => Err(ApiError::Empty),
        },
    }
}

/// What a send answers: the id the platform gave the outbound message.
#[derive(Debug)]
pub struct SendMsgData {
    pub message_id: i64,
}

/// An outbound send as the wire protocol wants it, addressed to a user or
/// to a group.
#[derive(Debug)]
pub enum SendMsgReq {
    Private { user_id: i64, message: Vec<MessageSegment> },
    Group { group_id: i64, message: Vec<MessageSegment> },
}

/// The wire segments an outbound content sequence becomes. A text unit is a
/// text segment. In a group chat a mention becomes an at-segment naming the
/// mentioned id; in a private chat it degrades to the user's display name
/// as text. Either way a separating space follows.
pub open spec fn out_segs(cs: Seq<MessageContent>, private: bool) -> Seq<SpecWireSeg>
    decreases cs.len(),
{
    if cs.len() == 0 {
        Seq::empty()
    } else {
        let rest = out_segs(cs.drop_first(), private);
        match cs[0] {
            MessageContent::Text(t) => seq![SpecWireSeg::Text(t@)] + rest,
            MessageContent::At(u) => (if private {
                seq![SpecWireSeg::Text(u.nickname_text())]
            } else {
                seq![SpecWireSeg::At(u.id@)]
            }) + seq![SpecWireSeg::Text(seq![' '])] + rest,
        }
    }
}

/// Appending one content unit appends its wire segments.
pub proof fn lemma_out_segs_snoc(cs: Seq<MessageContent>, c: MessageContent, private: bool)
    ensures
        out_segs(cs.push(c), private) == out_segs(cs, private) + (match c {
            MessageContent::Text(t) => seq![SpecWireSeg::Text(t@)],
            MessageContent::At(u) => (if private {
                seq![SpecWireSeg::Text(u.nickname_text())]
            } else {
                seq![SpecWireSeg::At(u.id@)]
            }) + seq![SpecWireSeg::Text(seq![' '])],
        }),
    decreases cs.len(),
{
    if cs.len() == 0 {
        assert(cs.push(c)[0] == c);
        assert(cs.push(c).drop_first() =~= Seq::<MessageContent>::empty());
        assert(out_segs(Seq::<MessageContent>::empty(), private) == Seq::<SpecWireSeg>::empty());
        assert(out_segs(cs, private) == Seq::<SpecWireSeg>::empty());
        assert(out_segs(cs.push(c), private) =~= out_segs(cs, private) + (match c {
            MessageContent::Text(t) => seq![SpecWireSeg::Text(t@)],
            MessageContent::At(u) => (if private {
                seq![SpecWireSeg::Text(u.nickname_text())]
            } else {
                seq![SpecWireSeg::At(u.id@)]
            }) + seq![SpecWireSeg::Text(seq![' '])],
        }));
    } else {
        assert(cs.push(c)[0] == cs[0]);
        assert(cs.push(c).drop_first() =~= cs.drop_first().push(c));
        lemma_out_segs_snoc(cs.drop_first(), c, private);
        assert(out_segs(cs.push(c), private) =~= out_segs(cs, private) + (match c {
            MessageContent::Text(t) => seq![SpecWireSeg::Text(t@)],
            MessageContent::At(u) => (if private {
                seq![SpecWireSeg::Text(u.nickname_text())]
            } else {
                seq![SpecWireSeg::At(u.id@)]
            }) + seq![SpecWireSeg::Text(seq![' '])],
        }));
    }
}

/// The reply segment an outbound send opens with, when it answers a
/// specific message.
pub open spec fn reply_prefix(reply_to: Option<&Message>) -> Seq<SpecWireSeg> {
    match reply_to {
        Some(m) => seq![SpecWireSeg::Reply(m.id@)],
        None => Seq::empty(),
    }
}

/// Builds an outbound send: an optional reply segment first, then the wire
/// segments of the contents — mentions degrade to text in private chats —
/// addressed by the chat's numeric id. Fails exactly when that id is not a
/// 64-bit integer.
pub fn build_send_request(
    contents: &MessageContents,
    chat: &Chat,
    reply_to: Option<&Message>,
) -> (r: Result<SendMsgReq, OneBotError>)
    ensures
        r is Ok <==> crate::decimal::parseable_i64(
            match chat.info {
                ChatInfo::Private(u) => u.id@,
                ChatInfo::Group(g) => g.id@,
            },
        ),
        r matches Ok(q) ==> match chat.info {
            ChatInfo::Private(u) => q matches SendMsgReq::Private { user_id, message }
                && user_id as int == int_literal_val(u.id@) && wire_segs_view(message@)
                == reply_prefix(reply_to) + out_segs(contents@, true),
            ChatInfo::Group(g) => q matches SendMsgReq::Group { group_id, message }
                && group_id as int == int_literal_val(g.id@) && wire_segs_view(message@)
                == reply_prefix(reply_to) + out_segs(contents@, false),
        },
{
    let private = match chat.get_info() {
        ChatInfo::Private(_) => true,
        ChatInfo::Group(_) => false,
    };
    let mut message: Vec<MessageSegment> = Vec::new();
    match reply_to {
        Some(m) => {
            message.push(MessageSegment::Reply { id: m.get_id().clone() });
        },
        None => {},
    }
    proof {
        assert(contents@.subrange(0, 0) =~= Seq::<MessageContent>::empty());
        assert(wire_segs_view(message@) =~= reply_prefix(reply_to) + out_segs(
            contents@.subrange(0, 0),
            private,
        ));
    }
    let n = contents.len();
    let mut i: usize = 0;
    while i < n
        invariant
            i <= n,
            n == contents@.len(),
            wire_segs_view(message@) == reply_prefix(reply_to) + out_segs(
                contents@.subrange(0, i as int),
                private,
            ),
        decreases n - i,
    {
        let ghost prefix = contents@.subrange(0, i as int);
        let ghost msg0 = message@;
        match contents.get(i) {
            MessageContent::Text(t) => {
                let seg = MessageSegment::Text { text: t.clone() };
                proof {
                    lemma_wsv_push(msg0, seg);
                }
                message.push(seg);
            },
            MessageContent::At(user) => {
                if private {
                    let seg = MessageSegment::Text { text: String::from_str(user.get_nickname()) };
                    proof {
                        lemma_wsv_push(msg0, seg);
                    }
                    message.push(seg);
                } else {
                    let seg = MessageSegment::At { qq: user.get_id().clone() };
                    proof {
                        lemma_wsv_push(msg0, seg);
                    }
                    message.push(seg);
                }
                let ghost msg1 = message@;
                let sep = MessageSegment::Text { text: String::from_str(" ") };
                proof {
                    reveal_strlit(" ");
                    assert(" "@ =~= seq![' ']);
                    lemma_wsv_push(msg1, sep);
                }
                message.push(sep);
            },
        }
        i = i + 1;
        proof {
            lemma_out_segs_snoc(prefix, contents@[i - 1], private);
            assert(prefix.push(contents@[i - 1]) =~= contents@.subrange(0, i as int));
            assert(wire_segs_view(message@) =~~= reply_prefix(reply_to) + out_segs(
                contents@.subrange(0, i as int),
                private,
            ));
        }
    }
    proof {
        assert(contents@.subrange(0, n as int) =~= contents@);
    }
    let chat_id = match chat.get_info() {
        ChatInfo::Private(u) => match crate::decimal::parse_i64(u.get_id().as_str()) {
            Some(v) => v,
            None => {
                return Err(OneBotError::BadId);
            },
        },
        ChatInfo::Group(g) => match crate::decimal::parse_i64(g.get_id().as_str()) {
            Some(v) => v,
            None => {
                return Err(OneBotError::BadId);
            },
        },
    };
    if private {
        Ok(SendMsgReq::Private { user_id: chat_id, message })
    } else {
        Ok(SendMsgReq::Group { group_id: chat_id, message })
    }
}

/// The request of a group-membership query.
#[derive(Debug)]
pub struct GetGroupMemberInfoReq {
    pub group_id: i64,
    pub user_id: i64,
}

/// A member's role in a group, as the platform reports it.
#[derive(Debug, PartialEq, Eq, Structural)]
pub enum GroupRole {
    Owner,
    Admin,
    Member,
}

/// What a membership query answers.
#[derive(Debug)]
pub struct GetGroupMemberInfoData {
    pub role: GroupRole,
}

/// Builds the membership query asking whether `user` administers `group`;
/// fails exactly when either platform id is not a 64-bit integer.
pub fn group_member_request(user: &User, group: &Group) -> (r: Result<
    GetGroupMemberInfoReq,
    OneBotError,
>)
    ensures
        r is Ok <==> crate::decimal::parseable_i64(group.id@) && crate::decimal::parseable_i64(
            user.id@,
        ),
        r matches Ok(q) ==> q.group_id as int == int_literal_val(group.id@) && q.user_id as int
            == int_literal_val(user.id@),
{
    let group_id = match crate::decimal::parse_i64(group.get_id().as_str()) {
        Some(v) => v,
        None => {
            return Err(OneBotError::BadId);
        },
    };
    let user_id = match crate::decimal::parse_i64(user.get_id().as_str()) {
        Some(v) => v,
        None => {
            return Err(OneBotError::BadId);
        },
    };
    Ok(GetGroupMemberInfoReq { group_id, user_id })
}

/// Whether a membership answer makes the user a group admin: exactly the
/// group's owner and its admins are; plain members are not.
pub fn admin_from_role(data: &GetGroupMemberInfoData) -> (r: bool)
    ensures
        r == (data.role is Owner || data.role is Admin),
{
    match data.role {
        GroupRole::Owner | GroupRole::Admin => true,
        GroupRole::Member => false,
    }
}

} // verus!
