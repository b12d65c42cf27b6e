//! The long-poll adapter: offset-based polling over a REST API, and the
//! translation between the platform's UTF-16-measured message entities and
//! the neutral content model.
use vstd::prelude::*;

use crate::api::{EventSlot, Polled};
use crate::decimal::{dec_int, int_literal_val};
use crate::utf16::{decode_utf16, encode_utf16};
use crate::{ApiHandle, Chat, ChatInfo, Event, Group, Message, MessageContent, MessageContents, SpecSegment, User, seg_view, segs_view};

verus! {

/// A user as the wire protocol carries it.
#[derive(Debug)]
pub struct TgUser {
    pub id: i64,
    pub first_name: String,
    pub last_name: Option<String>,
}

/// A chat as the wire protocol carries it; `kind` is the protocol's `type`
/// field, `"private"` for private conversations.
#[derive(Debug)]
pub struct TgChat {
    pub id: i64,
    pub kind: String,
}

/// The span of a message entity, measured in UTF-16 code units of the
/// message text.
#[derive(Debug)]
pub struct EntitySpan {
    pub offset: usize,
    pub length: usize,
}

/// A formatting entity of an inbound message. Only the two mention kinds are
/// interpreted; everything else the platform may send is `Other`.
#[derive(Debug)]
pub enum MessageEntity {
    Mention { base: EntitySpan },
    TextMention { user: TgUser, base: EntitySpan },
    Other,
}

/// The span offset of an entity, zero for unrecognized kinds.
pub open spec fn spec_offset(e: MessageEntity) -> nat {
    match e {
        MessageEntity::Mention { base } => base.offset as nat,
        MessageEntity::TextMention { base, .. } => base.offset as nat,
        MessageEntity::Other => 0,
    }
}

/// The span length of an entity, zero for unrecognized kinds.
pub open spec fn spec_length(e: MessageEntity) -> nat {
    match e {
        MessageEntity::Mention { base } => base.length as nat,
        MessageEntity::TextMention { base, .. } => base.length as nat,
        MessageEntity::Other => 0,
    }
}

impl MessageEntity {
    pub fn get_offset(&self) -> (o: usize)
        ensures
            o as nat == spec_offset(*self),
    {
        match self {
            MessageEntity::TextMention { base, .. } | MessageEntity::Mention { base } => base.offset,
            MessageEntity::Other => 0,
        }
    }

    pub fn get_length(&self) -> (l: usize)
        ensures
            l as nat == spec_length(*self),
    {
        match self {
            MessageEntity::TextMention { base, .. } | MessageEntity::Mention { base } => base.length,
            MessageEntity::Other => 0,
        }
    }
}

/// An inbound message as the wire protocol carries it.
#[derive(Debug)]
pub struct WireMessage {
    pub message_id: i64,
    pub from: Option<TgUser>,
    pub chat: Option<TgChat>,
    pub text: Option<String>,
    pub entities: Option<Vec<MessageEntity>>,
}

/// One update of the long-poll stream.
#[derive(Debug)]
pub struct Update {
    pub update_id: i64,
    pub message: Option<WireMessage>,
}

/// Where the cursor stands after an entity spanning `off..off+elen`, capped
/// at the largest machine value.
pub open spec fn advance(off: nat, elen: nat) -> nat {
    if off + elen > usize::MAX {
        usize::MAX as nat
    } else {
        off + elen
    }
}

/// The content units decoded from a message's UTF-16 code units and its
/// entity list, walked in the given order from the given cursor, against the
/// adapter's own identity `self_user`. `None` when a slice is ill-formed
/// UTF-16, a span leaves the text, or a mention-by-name is empty: that one
/// update is dropped.
///
/// Between the cursor and each entity any gap becomes a text unit; a
/// mention-by-name whose referenced name (after the leading marker
/// character) equals the adapter's own nickname resolves to the adapter's
/// identity, any other to a user whose id is the name itself; a
/// mention-by-id carries its user id directly; unrecognized entities add
/// nothing; text after the last entity becomes a final text unit.
pub open spec fn decode_entities(
    units: Seq<u16>,
    es: Seq<MessageEntity>,
    cursor: nat,
    self_user: User,
) -> Option<Seq<SpecSegment>>
    decreases es.len(),
{
    if es.len() == 0 {
        if cursor < units.len() {
            match decode_utf16(units.skip(cursor as int)) {
                Some(t) => Some(seq![SpecSegment::Text(t)]),
                None => None,
            }
        } else {
            Some(Seq::empty())
        }
    } else {
        let e = es[0];
        let off = spec_offset(e);
        let elen = spec_length(e);
        let gap: Option<Seq<SpecSegment>> = if off > cursor {
            if off <= units.len() {
                match decode_utf16(units.subrange(cursor as int, off as int)) {
                    Some(t) => Some(seq![SpecSegment::Text(t)]),
                    None => None,
                }
            } else {
                None
            }
        } else {
            Some(Seq::empty())
        };
        match gap {
            None => None,
            Some(gap_segs) => {
                let own: Option<Seq<SpecSegment>> = match e {
                    MessageEntity::Mention { .. } => if 1 <= elen && off + elen <= units.len() {
                        match decode_utf16(units.subrange((off + 1) as int, (off + elen) as int)) {
                            Some(name) => Some(
                                seq![
                                    if name == self_user.nickname_text() {
                                        SpecSegment::At {
                                            id: self_user.id@,
                                            nickname: match self_user.nickname {
                                                Some(n) => Some(n@),
                                                None => None,
                                            },
                                        }
                                    } else {
                                        SpecSegment::At { id: name, nickname: None }
                                    },
                                ],
                            ),
                            None => None,
                        }
                    } else {
                        None
                    },
                    MessageEntity::TextMention { user, .. } => Some(
                        seq![SpecSegment::At { id: dec_int(user.id as int), nickname: None }],
                    ),
                    MessageEntity::Other => Some(Seq::empty()),
                };
                match own {
                    None => None,
                    Some(own_segs) => match decode_entities(
                        units,
                        es.drop_first(),
                        advance(off, elen),
                        self_user,
                    ) {
                        None => None,
                        Some(rest) => Some(gap_segs + own_segs + rest),
                    },
                }
            },
        }
    }
}

/// Decodes the entities of one message, from the entity at position `i` on,
/// with the cursor at `cursor`.
fn decode_entities_from(
    units: &Vec<u16>,
    entities: &Vec<MessageEntity>,
    i: usize,
    cursor: usize,
    self_user: &User,
) -> (r: Option<Vec<MessageContent>>)
    requires
        i <= entities@.len(),
    ensures
        match r {
            Some(v) => decode_entities(units@, entities@.skip(i as int), cursor as nat, *self_user)
                == Some(segs_view(v@)),
            None => decode_entities(units@, entities@.skip(i as int), cursor as nat, *self_user)
                is None,
        },
    decreases entities@.len() - i,
{
    let n = entities.len();
    if i == n {
        proof {
            assert(entities@.skip(i as int) =~= Seq::<MessageEntity>::empty());
        }
        if cursor < units.len() {
            match crate::utf16::decode_utf16_range(units, cursor, units.len()) {
                Some(t) => {
                    let mut v: Vec<MessageContent> = Vec::new();
                    proof {
                        assert(units@.subrange(cursor as int, units@.len() as int) =~= units@.skip(
                            cursor as int,
                        ));
                    }
                    let ghost tv = t@;
                    v.push(MessageContent::Text(t));
                    proof {
                        assert(segs_view(v@) =~= seq![SpecSegment::Text(tv)]);
                    }
                    Some(v)
                },
                None => {
                    proof {
                        assert(units@.subrange(cursor as int, units@.len() as int) =~= units@.skip(
                            cursor as int,
                        ));
                    }
                    None
                },
            }
        } else {
            let v: Vec<MessageContent> = Vec::new();
            proof {
                assert(segs_view(v@) =~= Seq::<SpecSegment>::empty());
            }
            Some(v)
        }
    } else {
        let ghost es = entities@.skip(i as int);
        proof {
            assert(es[0] == entities@[i as int]);
            assert(es.drop_first() =~= entities@.skip(i as int + 1));
        }
        let off = entities[i].get_offset();
        let elen = entities[i].get_length();
        let mut segs: Vec<MessageContent> = Vec::new();
        let ghost mut gap_segs: Seq<SpecSegment> = Seq::empty();
        if off > cursor {
            if off <= units.len() {
                match crate::utf16::decode_utf16_range(units, cursor, off) {
                    Some(t) => {
                        proof {
                            gap_segs = seq![SpecSegment::Text(t@)];
                        }
                        segs.push(MessageContent::Text(t));
                    },
                    None => {
                        return None;
                    },
                }
            } else {
                return None;
            }
        }
        proof {
            assert(segs_view(segs@) =~= gap_segs);
        }
        let ghost mut own_segs: Seq<SpecSegment> = Seq::empty();
        match &entities[i] {
            MessageEntity::Mention { .. } => {
                if 1 <= elen && elen <= units.len() && off <= units.len() - elen {
                    match crate::utf16::decode_utf16_range(units, off + 1, off + elen) {
                        Some(name) => {
                            if crate::text::str_eq(name.as_str(), self_user.get_nickname()) {
                                let u = self_user.clone();
                                proof {
                                    own_segs = seq![seg_view(MessageContent::At(u))];
                                }
                                segs.push(MessageContent::At(u));
                            } else {
                                let u = User::new(name);
                                proof {
                                    own_segs = seq![seg_view(MessageContent::At(u))];
                                }
                                segs.push(MessageContent::At(u));
                            }
                        },
                        None => {
                            return None;
                        },
                    }
                } else {
                    return None;
                }
            },
            MessageEntity::TextMention { user, .. } => {
                let u = User::new(crate::decimal::i64_to_string(user.id));
                proof {
                    own_segs = seq![seg_view(MessageContent::At(u))];
                }
                segs.push(MessageContent::At(u));
            },
            MessageEntity::Other => {},
        }
        proof {
            assert(segs_view(segs@) =~= gap_segs + own_segs);
        }
        let newcur = if elen > usize::MAX - off {
            usize::MAX
        } else {
            off + elen
        };
        proof {
            assert(newcur as nat == advance(spec_offset(es[0]), spec_length(es[0])));
        }
        match decode_entities_from(units, entities, i + 1, newcur, self_user) {
            Some(rest) => {
                let mut v = segs;
                let mut tail = rest;
                let ghost tail_view = segs_view(tail@);
                v.append(&mut tail);
                proof {
                    assert(segs_view(v@) =~= gap_segs + own_segs + tail_view);
                }
                Some(v)
            },
            None => None,
        }
    }
}

/// What can go wrong inside this adapter's own translation logic: an entity
/// list that cannot be decoded against the text, or a platform-native id
/// that is not a 64-bit integer.
#[derive(Debug)]
pub enum TelegramError {
    BadEntities,
    BadId,
}

/// The decoded content units of one wire message with text `text`: walked
/// through its entities when it has any, else the text as a single unit.
pub open spec fn spec_contents(
    text: Seq<char>,
    entities: Option<Vec<MessageEntity>>,
    self_user: User,
) -> Option<Seq<SpecSegment>> {
    match entities {
        Some(es) => decode_entities(encode_utf16(text), es@, 0, self_user),
        None => Some(seq![SpecSegment::Text(text)]),
    }
}

/// The sender's display name: the first name, then a space and the last name
/// when one is given.
pub open spec fn sender_nickname(first_name: Seq<char>, last_name: Option<String>) -> Seq<char> {
    match last_name {
        Some(l) => first_name + seq![' '] + l@,
        None => first_name,
    }
}

/// The platform's answer about the bot's own account: its numeric id and,
/// when set, its username.
#[derive(Debug)]
pub struct GetMeData {
    pub id: i64,
    pub username: Option<String>,
}

/// The long-poll adapter's own state: its routing handle, its capacity-1
/// event queue, and the polling state machine.
#[derive(Debug)]
pub struct Telegram {
    pub handle: ApiHandle,
    pub events: EventSlot,
    pub poller: Poller,
}

impl Telegram {
    /// A fresh adapter under the given runtime key, from the platform's
    /// answer about the bot's own identity: the bot's numeric id becomes its
    /// user id, its username (when set) its nickname. Polling starts in the
    /// bootstrap phase with an empty, open queue.
    pub fn new(me: GetMeData, key: u64) -> (t: Self)
        ensures
            t.handle.key == key,
            t.handle.self_user.id@ == dec_int(me.id as int),
            t.handle.self_user.nickname == me.username,
            t.events.slot is None,
            !t.events.closed,
            t.poller.phase is Bootstrap,
            t.poller.offset == 0,
    {
        let mut self_user = User::new(crate::decimal::i64_to_string(me.id));
        match me.username {
            Some(username) => {
                self_user = self_user.nickname(username);
            },
            None => {},
        }
        Self {
            handle: ApiHandle::new(key, self_user),
            events: EventSlot::new(),
            poller: Poller::new(),
        }
    }

    /// Translates one update into a neutral event: `Ok(None)` for updates
    /// that carry no text message, an error when the entity walk fails (that
    /// update is dropped, the poll loop goes on), and otherwise the decoded
    /// message, owned by this adapter — its chat carries this adapter's
    /// handle, so replies come back here.
    pub fn handle_update(&self, update: Update) -> (r: Result<Option<Event>, TelegramError>)
        ensures
            match update.message {
                None => r == Ok::<Option<Event>, TelegramError>(None),
                Some(msg) => match msg.text {
                    None => r == Ok::<Option<Event>, TelegramError>(None),
                    Some(text) => match spec_contents(text@, msg.entities, self.handle.self_user) {
                        None => r == Err::<Option<Event>, TelegramError>(TelegramError::BadEntities),
                        Some(ss) => (r matches Ok(Some(ev)) && ev matches Event::Message(m)
                            && m.id@ == dec_int(msg.message_id as int)
                            && segs_view(m.contents@) == ss
                            && m.chat.api == self.handle
                            && (match msg.chat {
                                Some(c) => if c.kind@ == "private"@ {
                                    m.chat.info matches ChatInfo::Private(u) && u.id@ == dec_int(
                                        c.id as int,
                                    ) && u.nickname is None
                                } else {
                                    m.chat.info matches ChatInfo::Group(g) && g.id@ == dec_int(
                                        c.id as int,
                                    )
                                },
                                None => m.chat.info matches ChatInfo::Private(u) && u.id@
                                    == Seq::<char>::empty() && u.nickname is None,
                            })
                            && (match msg.from {
                                Some(f) => m.sender.id@ == dec_int(f.id as int)
                                    && (m.sender.nickname matches Some(n) && n@ == sender_nickname(
                                    f.first_name@,
                                    f.last_name,
                                )),
                                None => m.sender.id@ == Seq::<char>::empty() && m.sender.nickname
                                    is None,
                            })),
                    },
                },
            },
    {
        let msg = match update.message {
            Some(m) => m,
            None => {
                return Ok(None);
            },
        };
        let text = match msg.text {
            Some(t) => t,
            None => {
                return Ok(None);
            },
        };
        let contents: MessageContents = match &msg.entities {
            Some(es) => {
                let units = crate::utf16::utf16_of_str(text.as_str());
                proof {
                    assert(es@.skip(0) =~= es@);
                }
                match decode_entities_from(&units, es, 0, 0, &self.handle.self_user) {
                    Some(v) => MessageContents(v),
                    None => {
                        return Err(TelegramError::BadEntities);
                    },
                }
            },
            None => {
                let c = MessageContents::new().text(text.clone());
                proof {
                    assert(segs_view(c@) =~= seq![SpecSegment::Text(text@)]);
                }
                c
            },
        };
        let chat = match msg.chat {
            Some(c) => {
                if crate::text::str_eq(c.kind.as_str(), "private") {
                    Chat {
                        info: ChatInfo::Private(User::new(crate::decimal::i64_to_string(c.id))),
                        api: self.handle.clone(),
                    }
                } else {
                    Chat {
                        info: ChatInfo::Group(Group::new(crate::decimal::i64_to_string(c.id))),
                        api: self.handle.clone(),
                    }
                }
            },
            None => Chat {
                info: ChatInfo::Private(User::new(String::new())),
                api: self.handle.clone(),
            },
        };
        let sender = match msg.from {
            Some(f) => {
                let mut nick = f.first_name;
                match f.last_name {
                    Some(l) => {
                        crate::text::push_char(&mut nick, ' ');
                        nick.append(l.as_str());
                    },
                    None => {},
                }
                User::new(crate::decimal::i64_to_string(f.id)).nickname(nick)
            },
            None => User::new(String::new()),
        };
        Ok(
            Some(
                Event::Message(
                    Message::new(crate::decimal::i64_to_string(msg.message_id), contents, chat, sender),
                ),
            ),
        )
    }

    /// Offers a decoded event to the adapter's queue; hands it back when the
    /// slot is still full, so the ingestion side can wait and retry.
    pub fn push_event(&mut self, event: Event) -> (r: Option<Event>)
        ensures
            final(self).handle == old(self).handle,
            final(self).poller == old(self).poller,
            final(self).events.closed == old(self).events.closed,
            old(self).events.slot is None && !old(self).events.closed ==> final(self).events.slot
                == Some(event) && r is None,
            old(self).events.slot is Some || old(self).events.closed ==> final(self).events
                == old(self).events && r == Some(event),
    {
        self.events.push(event)
    }

    /// Closes the event queue: the stream ends once drained.
    pub fn close(&mut self)
        ensures
            final(self).handle == old(self).handle,
            final(self).poller == old(self).poller,
            final(self).events.slot == old(self).events.slot,
            final(self).events.closed,
    {
        self.events.close()
    }
}

impl crate::api::BotAPI for Telegram {
    open spec fn api(&self) -> ApiHandle {
        self.handle
    }

    open spec fn events(&self) -> EventSlot {
        self.events
    }

    fn get_self_user(&self) -> (u: &User) {
        &self.handle.self_user
    }

    fn get_handle(&self) -> (h: &ApiHandle) {
        &self.handle
    }

    fn next_event(&mut self) -> (r: Polled)
        ensures
            final(self).poller == old(self).poller,
    {
        self.events.pull()
    }
}

/// How many seconds the poll loop sleeps after a transport failure before
/// retrying with the same offset.
pub const POLL_RETRY_DELAY_SECS: u64 = 3;

/// The long timeout, in seconds, of an ordinary poll request.
pub const POLL_TIMEOUT_SECS: u64 = 60;

/// The short timeout, in seconds, of the bootstrap request.
pub const BOOTSTRAP_TIMEOUT_SECS: u64 = 1;

/// One poll request: return updates strictly after `offset`, holding the
/// request open up to `timeout` seconds.
#[derive(Debug)]
pub struct GetUpdatesReq {
    pub offset: i64,
    pub timeout: u64,
}

/// Which kind of poll the state machine is in: the one bootstrap call whose
/// updates are discarded, or ordinary polling.
#[derive(Debug, PartialEq, Eq, Structural)]
pub enum PollPhase {
    Bootstrap,
    Polling,
}

/// The greatest update id in the batch, or `floor` when none is greater.
pub open spec fn max_update_id(updates: Seq<Update>, floor: int) -> int
    decreases updates.len(),
{
    if updates.len() == 0 {
        floor
    } else {
        let rest = max_update_id(updates.drop_first(), floor);
        if updates[0].update_id > rest {
            updates[0].update_id as int
        } else {
            rest
        }
    }
}

/// The polling state machine: its whole state is the phase and the last
/// acknowledged update id.
#[derive(Debug)]
pub struct Poller {
    pub phase: PollPhase,
    pub offset: i64,
}

impl Poller {
    /// Polling starts with a bootstrap call.
    pub fn new() -> (p: Self)
        ensures
            p.phase is Bootstrap,
            p.offset == 0,
    {
        Self { phase: PollPhase::Bootstrap, offset: 0 }
    }

    /// The next request to issue: the bootstrap call explicitly excludes any
    /// backlog content (offset −1) and uses the short timeout; an ordinary
    /// poll asks for updates strictly after the acknowledged offset, with
    /// the long timeout.
    pub fn request(&self) -> (q: GetUpdatesReq)
        ensures
            self.phase is Bootstrap ==> q.offset == -1 && q.timeout == BOOTSTRAP_TIMEOUT_SECS,
            self.phase is Polling ==> q.timeout == POLL_TIMEOUT_SECS && q.offset as int == (
            if self.offset < i64::MAX {
                self.offset as int + 1
            } else {
                i64::MAX as int
            }),
    {
        match self.phase {
            PollPhase::Bootstrap => GetUpdatesReq { offset: -1, timeout: BOOTSTRAP_TIMEOUT_SECS },
            PollPhase::Polling => GetUpdatesReq {
                offset: if self.offset < i64::MAX {
                    self.offset + 1
                } else {
                    i64::MAX
                },
                timeout: POLL_TIMEOUT_SECS,
            },
        }
    }

    /// Takes one successful batch of updates. During bootstrap the offset
    /// jumps to the highest pending update id and every update is discarded:
    /// none is handed on for dispatch. During ordinary polling the offset
    /// advances to the highest id seen and every update is handed on, each
    /// to be decoded and dispatched independently.
    pub fn on_updates(&mut self, updates: Vec<Update>) -> (dispatch: Vec<Update>)
        ensures
            final(self).phase is Polling,
            old(self).phase is Bootstrap ==> final(self).offset == max_update_id(updates@, 0)
                && dispatch@ == Seq::<Update>::empty(),
            old(self).phase is Polling ==> final(self).offset == max_update_id(
                updates@,
                old(self).offset as int,
            ) && dispatch@ == updates@,
    {
        let ghost all = updates@;
        let floor: i64 = match self.phase {
            PollPhase::Bootstrap => 0,
            PollPhase::Polling => self.offset,
        };
        let mut highest: i64 = floor;
        let mut i: usize = updates.len();
        while i > 0
            invariant
                i <= all.len(),
                updates@ == all,
                highest as int == max_update_id(all.skip(i as int), floor as int),
            decreases i,
        {
            i = i - 1;
            proof {
                assert(all.skip(i as int)[0] == all[i as int]);
                assert(all.skip(i as int).drop_first() =~= all.skip(i as int + 1));
            }
            if updates[i].update_id > highest {
                highest = updates[i].update_id;
            }
        }
        proof {
            assert(all.skip(0) =~= all);
        }
        let was_bootstrap = match self.phase {
            PollPhase::Bootstrap => true,
            PollPhase::Polling => false,
        };
        self.phase = PollPhase::Polling;
        self.offset = highest;
        if was_bootstrap {
            Vec::new()
        } else {
            updates
        }
    }

    /// A failed poll: the state is untouched — the same offset is retried,
    /// for at-least-once redelivery — after the fixed delay this returns.
    pub fn on_error(&self) -> (delay: u64)
        ensures
            delay == POLL_RETRY_DELAY_SECS,
    {
        POLL_RETRY_DELAY_SECS
    }
}

/// The generic wrapper every RPC answer of this platform arrives in.
#[derive(Debug)]
pub struct Envelope<T> {
    pub ok: bool,
    pub result: Option<T>,
    pub err_code: Option<i16>,
    pub description: Option<String>,
}

/// A failed RPC: the platform reported failure with its code and
/// description, or answered without a result at all.
#[derive(Debug)]
pub enum ApiError {
    Failed { err_code: Option<i16>, description: Option<String> },
    Empty,
}

/// Opens an RPC envelope: success exactly when a result is present;
/// otherwise a reported failure keeps its code and description, and a
/// non-failed answer without a result is an empty-response error.
pub fn unwrap_envelope<T>(resp: Envelope<T>) -> (r: Result<T, ApiError>)
    ensures
        match resp.result {
            Some(d) => r == Ok::<T, ApiError>(d),
            None => if !resp.ok {
                r == Err::<T, ApiError>(
                    ApiError::Failed { err_code: resp.err_code, description: resp.description },
                )
            } else {
                r == Err::<T, ApiError>(ApiError::Empty)
            },
        },
{
    match resp.result {
        Some(d) => Ok(d),
        None => if !resp.ok {
            Err(ApiError::Failed { err_code: resp.err_code, description: resp.description })
        } else {
            Err(ApiError::Empty)
        },
    }
}

/// The platform's word on a member's standing in a group.
#[derive(Debug)]
pub enum ChatMemberStatus {
    Creator,
    Administrator,
    Other,
}

/// The request of a group-membership query.
#[derive(Debug)]
pub struct GetChatMemberReq {
    pub chat_id: i64,
    pub user_id: i64,
}

/// What a membership query answers.
#[derive(Debug)]
pub struct GetChatMemberData {
    pub status: ChatMemberStatus,
}

/// Builds the membership query asking whether `user` administers `group`;
/// fails exactly when either platform id is not a 64-bit integer.
pub fn group_member_request(user: &User, group: &Group) -> (r: Result<
    GetChatMemberReq,
    TelegramError,
>)
    ensures
        r is Ok <==> crate::decimal::parseable_i64(group.id@) && crate::decimal::parseable_i64(
            user.id@,
        ),
        r matches Ok(q) ==> q.chat_id as int == int_literal_val(group.id@) && q.user_id as int
            == int_literal_val(user.id@),
{
    let chat_id = match crate::decimal::parse_i64(group.id.as_str()) {
        Some(v) => v,
        None => {
            return Err(TelegramError::BadId);
        },
    };
    let user_id = match crate::decimal::parse_i64(user.id.as_str()) {
        Some(v) => v,
        None => {
            return Err(TelegramError::BadId);
        },
    };
    Ok(GetChatMemberReq { chat_id, user_id })
}

/// Whether a membership answer makes the user a group admin: exactly the
/// group's creator and its administrators are.
pub fn admin_from_status(data: &GetChatMemberData) -> (r: bool)
    ensures
        r == (data.status is Creator || data.status is Administrator),
{
    match data.status {
        ChatMemberStatus::Creator | ChatMemberStatus::Administrator => true,
        ChatMemberStatus::Other => false,
    }
}

/// A reference to the message an outbound send replies to.
#[derive(Debug)]
pub struct ReplyParameters {
    pub message_id: i64,
}

/// An outbound send as the wire protocol wants it: the flattened text, the
/// mention entities spanning it, and an optional reply reference.
#[derive(Debug)]
pub struct SendMessageReq {
    pub chat_id: i64,
    pub text: String,
    pub entities: Vec<MessageEntity>,
    pub reply_parameters: Option<ReplyParameters>,
}

/// The name a synthesized entity records for a mentioned user: the nickname
/// when known, else nothing.
pub open spec fn written_name(u: User) -> Seq<char> {
    match u.nickname {
        Some(n) => n@,
        None => Seq::empty(),
    }
}

/// How a mention is written into the flattened text: a marker character,
/// then the nickname when known, else the raw id.
pub open spec fn mention_text(u: User) -> Seq<char> {
    seq!['@'] + (match u.nickname {
        Some(n) => n@,
        None => u.id@,
    })
}

/// The text one content unit contributes to the flattened message.
pub open spec fn piece(c: MessageContent) -> Seq<char> {
    match c {
        MessageContent::Text(t) => t@,
        MessageContent::At(u) => mention_text(u),
    }
}

/// The flattened outbound text: every unit's contribution, in order.
pub open spec fn outbound_text(cs: Seq<MessageContent>) -> Seq<char>
    decreases cs.len(),
{
    if cs.len() == 0 {
        Seq::empty()
    } else {
        piece(cs[0]) + outbound_text(cs.drop_first())
    }
}

/// How many UTF-16 code units one unit's contribution occupies.
pub open spec fn seg_ulen(c: MessageContent) -> nat {
    encode_utf16(piece(c)).len()
}

/// How many UTF-16 code units the whole flattened text occupies.
pub open spec fn out_ulen(cs: Seq<MessageContent>) -> nat
    decreases cs.len(),
{
    if cs.len() == 0 {
        0
    } else {
        seg_ulen(cs[0]) + out_ulen(cs.drop_first())
    }
}

/// The mathematical shape of one synthesized mention entity: the mentioned
/// user's numeric id, the name written for it, and the span it occupies in
/// the flattened text, in UTF-16 code units.
pub struct SpecMention {
    pub id: int,
    pub name: Seq<char>,
    pub offset: nat,
    pub length: nat,
}

/// The mention entities an outbound content sequence synthesizes, with the
/// running code-unit counter starting at `offset`: each mention spans
/// exactly its own contribution to the text.
pub open spec fn outbound_mentions(cs: Seq<MessageContent>, offset: nat) -> Seq<SpecMention>
    decreases cs.len(),
{
    if cs.len() == 0 {
        Seq::empty()
    } else {
        match cs[0] {
            MessageContent::Text(_) => outbound_mentions(cs.drop_first(), offset + seg_ulen(cs[0])),
            MessageContent::At(u) => seq![
                SpecMention {
                    id: int_literal_val(u.id@),
                    name: match u.nickname {
                        Some(n) => n@,
                        None => Seq::empty(),
                    },
                    offset,
                    length: seg_ulen(cs[0]),
                },
            ] + outbound_mentions(cs.drop_first(), offset + seg_ulen(cs[0])),
        }
    }
}

/// Whether every mentioned user's id is a 64-bit integer, as the wire
/// protocol requires of outbound mention entities.
pub open spec fn mentions_parse(cs: Seq<MessageContent>) -> bool {
    forall|i: int|
        0 <= i < cs.len() ==> ((#[trigger] cs[i]) matches MessageContent::At(u)
            ==> crate::decimal::parseable_i64(u.id@))
}

/// The mathematical shape of a synthesized entity: only mention-by-id
/// entities without a last name are ever synthesized.
pub open spec fn tm_view(e: MessageEntity) -> Option<SpecMention> {
    match e {
        MessageEntity::TextMention { user, base } => if user.last_name is None {
            Some(
                SpecMention {
                    id: user.id as int,
                    name: user.first_name@,
                    offset: base.offset as nat,
                    length: base.length as nat,
                },
            )
        } else {
            None
        },
        _ => None,
    }
}

/// Appending one unit appends its contribution to the flattened text.
pub proof fn lemma_outbound_text_snoc(cs: Seq<MessageContent>, c: MessageContent)
    ensures
        outbound_text(cs.push(c)) == outbound_text(cs) + piece(c),
    decreases cs.len(),
{
    if cs.len() == 0 {
        assert(cs.push(c)[0] == c);
        assert(cs.push(c).drop_first() =~= Seq::<MessageContent>::empty());
        assert(outbound_text(Seq::<MessageContent>::empty()) == Seq::<char>::empty());
        assert(outbound_text(cs.push(c)) =~= piece(c));
        assert(outbound_text(cs) + piece(c) =~= piece(c));
    } else {
        assert(cs.push(c)[0] == cs[0]);
        assert(cs.push(c).drop_first() =~= cs.drop_first().push(c));
        lemma_outbound_text_snoc(cs.drop_first(), c);
        assert(outbound_text(cs.push(c)) =~= outbound_text(cs) + piece(c));
    }
}

/// The flattened length is the code-unit length of the flattened text.
pub proof fn lemma_out_ulen_is_text_len(cs: Seq<MessageContent>)
    ensures
        out_ulen(cs) == encode_utf16(outbound_text(cs)).len(),
    decreases cs.len(),
{
    if cs.len() == 0 {
        assert(encode_utf16(outbound_text(cs)) =~= Seq::<u16>::empty());
    } else {
        lemma_out_ulen_is_text_len(cs.drop_first());
        crate::utf16::lemma_encode_utf16_concat(piece(cs[0]), outbound_text(cs.drop_first()));
    }
}

/// Appending one unit appends its mention entity, when it is one, spanning
/// exactly the appended range.
pub proof fn lemma_outbound_mentions_snoc(cs: Seq<MessageContent>, c: MessageContent, offset: nat)
    ensures
        outbound_mentions(cs.push(c), offset) == outbound_mentions(cs, offset) + (match c {
            MessageContent::Text(_) => Seq::<SpecMention>::empty(),
            MessageContent::At(u) => seq![
                SpecMention {
                    id: int_literal_val(u.id@),
                    name: match u.nickname {
                        Some(n) => n@,
                        None => Seq::empty(),
                    },
                    offset: (offset + out_ulen(cs)) as nat,
                    length: seg_ulen(c),
                },
            ],
        }),
    decreases cs.len(),
{
    if cs.len() == 0 {
        assert(cs.push(c)[0] == c);
        assert(cs.push(c).drop_first() =~= Seq::<MessageContent>::empty());
        assert(out_ulen(cs) == 0);
        assert(outbound_mentions(Seq::<MessageContent>::empty(), (offset + seg_ulen(c)) as nat)
            == Seq::<SpecMention>::empty());
        assert(outbound_mentions(cs, offset) == Seq::<SpecMention>::empty());
        match c {
            MessageContent::Text(_) => {
                assert(outbound_mentions(cs.push(c), offset) =~= outbound_mentions(cs, offset)
                    + Seq::<SpecMention>::empty());
            },
            MessageContent::At(u) => {
                assert(outbound_mentions(cs.push(c), offset) =~= outbound_mentions(cs, offset)
                    + seq![
                    SpecMention {
                        id: int_literal_val(u.id@),
                        name: match u.nickname {
                            Some(n) => n@,
                            None => Seq::empty(),
                        },
                        offset: (offset + out_ulen(cs)) as nat,
                        length: seg_ulen(c),
                    },
                ]);
            },
        }
    } else {
        assert(cs.push(c)[0] == cs[0]);
        assert(cs.push(c).drop_first() =~= cs.drop_first().push(c));
        lemma_outbound_mentions_snoc(cs.drop_first(), c, offset + seg_ulen(cs[0]));
        assert(outbound_mentions(cs.push(c), offset) =~= outbound_mentions(cs, offset) + (match c {
            MessageContent::Text(_) => Seq::<SpecMention>::empty(),
            MessageContent::At(u) => seq![
                SpecMention {
                    id: int_literal_val(u.id@),
                    name: match u.nickname {
                        Some(n) => n@,
                        None => Seq::empty(),
                    },
                    offset: (offset + out_ulen(cs)) as nat,
                    length: seg_ulen(c),
                },
            ],
        }));
    }
}

/// Builds an outbound send: text units are appended verbatim; each mention
/// appends its written name and synthesizes a mention-by-id entity spanning
/// exactly that appended range, measured in UTF-16 code units. Fails exactly
/// when a mentioned user's id, the chat's id, or the replied-to message's id
/// is not a 64-bit integer.
pub fn send_request(
    contents: &MessageContents,
    chat: &Chat,
    reply_to: Option<&Message>,
) -> (r: Result<SendMessageReq, TelegramError>)
    ensures
        r is Ok <==> mentions_parse(contents@) && crate::decimal::parseable_i64(
            match chat.info {
                ChatInfo::Private(u) => u.id@,
                ChatInfo::Group(g) => g.id@,
            },
        ) && (match reply_to {
            Some(m) => crate::decimal::parseable_i64(m.id@),
            None => true,
        }),
        r matches Ok(q) ==> ({
            &&& q.text@ == outbound_text(contents@)
            &&& q.chat_id as int == int_literal_val(
                match chat.info {
                    ChatInfo::Private(u) => u.id@,
                    ChatInfo::Group(g) => g.id@,
                },
            )
            &&& (match reply_to {
                Some(m) => q.reply_parameters matches Some(rp) && rp.message_id as int
                    == int_literal_val(m.id@),
                None => q.reply_parameters is None,
            })
            &&& q.entities@.len() == outbound_mentions(contents@, 0).len()
            &&& forall|i: int|
                0 <= i < q.entities@.len() ==> tm_view(#[trigger] q.entities@[i]) == Some(
                    outbound_mentions(contents@, 0)[i],
                )
        }),
{
    let mut text = String::new();
    let mut entities: Vec<MessageEntity> = Vec::new();
    let n = contents.len();
    let mut i: usize = 0;
    proof {
        assert(contents@.subrange(0, 0) =~= Seq::<MessageContent>::empty());
    }
    while i < n
        invariant
            i <= n,
            n == contents@.len(),
            text@ == outbound_text(contents@.subrange(0, i as int)),
            mentions_parse(contents@.subrange(0, i as int)),
            entities@.len() == outbound_mentions(contents@.subrange(0, i as int), 0).len(),
            forall|k: int|
                0 <= k < entities@.len() ==> tm_view(#[trigger] entities@[k]) == Some(
                    outbound_mentions(contents@.subrange(0, i as int), 0)[k],
                ),
        decreases n - i,
    {
        let ghost prefix = contents@.subrange(0, i as int);
        match contents.get(i) {
            MessageContent::Text(t) => {
                text.append(t.as_str());
                proof {
                    lemma_outbound_text_snoc(prefix, contents@[i as int]);
                    lemma_outbound_mentions_snoc(prefix, contents@[i as int], 0);
                    assert(prefix.push(contents@[i as int]) =~= contents@.subrange(0, i + 1));
                    assert(outbound_mentions(contents@.subrange(0, i + 1), 0)
                        =~= outbound_mentions(prefix, 0));
                }
            },
            MessageContent::At(user) => {
                let id = match crate::decimal::parse_i64(user.get_id().as_str()) {
                    Some(v) => v,
                    None => {
                        proof {
                            assert(!mentions_parse(contents@)) by {
                                assert(contents@[i as int] matches MessageContent::At(u)
                                    && !crate::decimal::parseable_i64(u.id@));
                            }
                        }
                        return Err(TelegramError::BadId);
                    },
                };
                let mut mtext = String::new();
                crate::text::push_char(&mut mtext, '@');
                let first_name: String = match &user.nickname {
                    Some(nickname) => {
                        mtext.append(nickname.as_str());
                        nickname.clone()
                    },
                    None => {
                        mtext.append(user.get_id().as_str());
                        String::new()
                    },
                };
                proof {
                    assert(mtext@ =~= mention_text(*user));
                }
                let offset_units = crate::utf16::utf16_of_str(text.as_str());
                let mention_units = crate::utf16::utf16_of_str(mtext.as_str());
                let ghost m = SpecMention {
                    id: int_literal_val(user.id@),
                    name: written_name(*user),
                    offset: out_ulen(prefix),
                    length: seg_ulen(contents@[i as int]),
                };
                proof {
                    lemma_out_ulen_is_text_len(prefix);
                }
                entities.push(
                    MessageEntity::TextMention {
                        user: TgUser { id, first_name, last_name: None },
                        base: EntitySpan {
                            offset: offset_units.len(),
                            length: mention_units.len(),
                        },
                    },
                );
                text.append(mtext.as_str());
                proof {
                    lemma_outbound_text_snoc(prefix, contents@[i as int]);
                    lemma_outbound_mentions_snoc(prefix, contents@[i as int], 0);
                    assert(prefix.push(contents@[i as int]) =~= contents@.subrange(0, i + 1));
                    assert(tm_view(entities@.last()) == Some(m));
                    assert(outbound_mentions(contents@.subrange(0, i + 1), 0)
                        =~= outbound_mentions(prefix, 0).push(m));
                }
            },
        }
        i = i + 1;
        proof {
            assert(mentions_parse(contents@.subrange(0, i as int))) by {
                assert(forall|k: int|
                    0 <= k < i ==> #[trigger] contents@.subrange(0, i as int)[k] == contents@[k]);
                assert(forall|k: int|
                    0 <= k < i - 1 ==> #[trigger] prefix[k] == contents@[k]);
            }
        }
    }
    proof {
        assert(contents@.subrange(0, n as int) =~= contents@);
    }
    let reply_parameters = match reply_to {
        Some(m) => match crate::decimal::parse_i64(m.get_id().as_str()) {
            Some(v) => Some(ReplyParameters { message_id: v }),
            None => {
                return Err(TelegramError::BadId);
            },
        },
        None => None,
    };
    let chat_id = match chat.get_info() {
        ChatInfo::Private(u) => match crate::decimal::parse_i64(u.get_id().as_str()) {
            Some(v) => v,
            None => {
                return Err(TelegramError::BadId);
            },
        },
        ChatInfo::Group(g) => match crate::decimal::parse_i64(g.get_id().as_str()) {
            Some(v) => v,
            None => {
                return Err(TelegramError::BadId);
            },
        },
    };
    Ok(SendMessageReq { chat_id, text, entities, reply_parameters })
}

} // verus!
