//! A platform-neutral chat-bot core: a shared domain model for messages,
//! chats, users and groups; translation logic for several chat-platform wire
//! protocols; and the decision logic of the runtime that multiplexes a fixed
//! set of platform adapters into one event stream.
use vstd::prelude::*;

pub mod api;
pub mod decimal;
pub mod utf16;
pub mod text;

verus! {

/// A user of some chat platform. The id is platform-native and unique only
/// within the platform that produced it.
#[derive(Debug)]
pub struct User {
    pub id: String,
    pub nickname: Option<String>,
}

impl User {
    /// A user with the given platform-native id and no nickname.
    pub fn new(id: String) -> (u: Self)
        ensures
            u.id == id,
            u.nickname is None,
    {
        Self { id, nickname: None }
    }

    /// The same user, with the nickname set.
    pub fn nickname(self, nickname: String) -> (u: Self)
        ensures
            u.id == self.id,
            u.nickname == Some(nickname),
    {
        Self { nickname: Some(nickname), ..self }
    }

    pub fn get_id(&self) -> (id: &String)
        ensures
            id == &self.id,
    {
        &self.id
    }

    /// The nickname, or the empty string when none is known.
    pub fn get_nickname(&self) -> (n: &str)
        ensures
            n@ == self.nickname_text(),
    {
        proof {
            reveal_strlit("");
        }
        match &self.nickname {
            Some(nickname) => nickname.as_str(),
            None => "",
        }
    }

    /// What the user is called when displayed: the nickname if known, else nothing.
    pub open spec fn nickname_text(&self) -> Seq<char> {
        match self.nickname {
            Some(n) => n@,
            None => Seq::empty(),
        }
    }
}

impl Clone for User {
    fn clone(&self) -> (u: Self)
        ensures
            u == *self,
    {
        Self {
            id: self.id.clone(),
            nickname: match &self.nickname {
                Some(n) => Some(n.clone()),
                None => None,
            },
        }
    }
}

/// A group chat room, identified by a platform-native id.
#[derive(Debug)]
pub struct Group {
    pub id: String,
}

impl Group {
    pub fn new(id: String) -> (g: Self)
        ensures
            g.id == id,
    {
        Self { id }
    }

    pub fn get_id(&self) -> (id: &String)
        ensures
            id == &self.id,
    {
        &self.id
    }
}

impl Clone for Group {
    fn clone(&self) -> (g: Self)
        ensures
            g == *self,
    {
        Self { id: self.id.clone() }
    }
}

/// A shared handle to one platform adapter instance. Every `Chat` carries the
/// handle of the adapter that decoded it, so that replies are routed back over
/// the same connection, never a different adapter even of the same platform.
/// The key is unique among the adapters assembled into one runtime.
#[derive(Debug)]
pub struct ApiHandle {
    pub key: u64,
    pub self_user: User,
}

impl ApiHandle {
    /// A handle with the given key, for an adapter whose own bot identity is
    /// `self_user`.
    pub fn new(key: u64, self_user: User) -> (h: Self)
        ensures
            h.key == key,
            h.self_user == self_user,
    {
        Self { key, self_user }
    }

    pub fn get_key(&self) -> (k: u64)
        ensures
            k == self.key,
    {
        self.key
    }

    pub fn get_self_user(&self) -> (u: &User)
        ensures
            u == &self.self_user,
    {
        &self.self_user
    }
}

impl Clone for ApiHandle {
    fn clone(&self) -> (h: Self)
        ensures
            h == *self,
    {
        Self { key: self.key, self_user: self.self_user.clone() }
    }
}

/// The position, among the assembled adapter handles, of the adapter that
/// owns the given routing key: the runtime routes every outbound send to
/// the adapter whose key the chat carries, so a reply always travels back
/// over the connection that produced it.
pub fn find_api(apis: &Vec<ApiHandle>, key: u64) -> (r: Option<usize>)
    ensures
        match r {
            Some(i) => i < apis@.len() && apis@[i as int].key == key && (forall|j: int|
                0 <= j < i ==> (#[trigger] apis@[j]).key != key),
            None => forall|j: int| 0 <= j < apis@.len() ==> (#[trigger] apis@[j]).key != key,
        },
{
    let n = apis.len();
    let mut i: usize = 0;
    while i < n
        invariant
            i <= n,
            n == apis@.len(),
            forall|j: int| 0 <= j < i ==> (#[trigger] apis@[j]).key != key,
        decreases n - i,
    {
        if apis[i].get_key() == key {
            return Some(i);
        }
        i = i + 1;
    }
    None
}

/// One typed unit of a structured message: plain text, or a mention of a user.
#[derive(Debug)]
pub enum MessageContent {
    Text(String),
    At(User),
}

impl Clone for MessageContent {
    fn clone(&self) -> (c: Self)
        ensures
            c == *self,
    {
        match self {
            MessageContent::Text(t) => MessageContent::Text(t.clone()),
            MessageContent::At(u) => MessageContent::At(u.clone()),
        }
    }
}

/// How one content unit is displayed: text verbatim; a mention as `@`, the
/// user's nickname (empty when unknown), and a trailing space.
pub open spec fn render_content(c: MessageContent) -> Seq<char> {
    match c {
        MessageContent::Text(t) => t@,
        MessageContent::At(u) => seq!['@'] + u.nickname_text() + seq![' '],
    }
}

/// How a sequence of content units is displayed: each unit in order.
pub open spec fn render_contents(cs: Seq<MessageContent>) -> Seq<char>
    decreases cs.len(),
{
    if cs.len() == 0 {
        Seq::empty()
    } else {
        render_content(cs[0]) + render_contents(cs.drop_first())
    }
}

pub proof fn lemma_render_contents_snoc(cs: Seq<MessageContent>, c: MessageContent)
    ensures
        render_contents(cs.push(c)) == render_contents(cs) + render_content(c),
    decreases cs.len(),
{
    if cs.len() == 0 {
        assert(cs.push(c)[0] == c);
        assert(cs.push(c).drop_first() =~= Seq::<MessageContent>::empty());
        assert(render_contents(Seq::<MessageContent>::empty()) == Seq::<char>::empty());
        assert(render_contents(cs.push(c)) =~= render_content(c));
        assert(render_contents(cs) + render_content(c) =~= render_content(c));
    } else {
        assert(cs.push(c).drop_first() =~= cs.drop_first().push(c));
        lemma_render_contents_snoc(cs.drop_first(), c);
        assert(render_contents(cs.push(c)) =~= render_contents(cs) + render_content(c));
    }
}

/// The mathematical shape of one decoded content unit: the text it carries,
/// or the mention it stands for.
pub enum SpecSegment {
    Text(Seq<char>),
    At { id: Seq<char>, nickname: Option<Seq<char>> },
}

/// The mathematical shape of a content unit value.
pub open spec fn seg_view(c: MessageContent) -> SpecSegment {
    match c {
        MessageContent::Text(t) => SpecSegment::Text(t@),
        MessageContent::At(u) => SpecSegment::At {
            id: u.id@,
            nickname: match u.nickname {
                Some(n) => Some(n@),
                None => None,
            },
        },
    }
}

/// The mathematical shape of a content sequence.
pub open spec fn segs_view(s: Seq<MessageContent>) -> Seq<SpecSegment> {
    s.map_values(|c: MessageContent| seg_view(c))
}

/// An ordered sequence of message content units. The order is rendering order
/// and is preserved exactly on display and on wire re-encoding.
#[derive(Debug)]
pub struct MessageContents(pub Vec<MessageContent>);

impl View for MessageContents {
    type V = Seq<MessageContent>;

    open spec fn view(&self) -> Seq<MessageContent> {
        self.0@
    }
}

impl MessageContents {
    /// Empty contents.
    pub fn new() -> (c: Self)
        ensures
            c@ == Seq::<MessageContent>::empty(),
    {
        Self(Vec::new())
    }

    /// The same contents with a text segment appended.
    pub fn text(self, s: String) -> (c: Self)
        ensures
            c@ == self@.push(MessageContent::Text(s)),
    {
        let mut contents = self.0;
        contents.push(MessageContent::Text(s));
        Self(contents)
    }

    /// The same contents with a mention of `user` appended.
    pub fn at(self, user: User) -> (c: Self)
        ensures
            c@ == self@.push(MessageContent::At(user)),
    {
        let mut contents = self.0;
        contents.push(MessageContent::At(user));
        Self(contents)
    }

    pub fn len(&self) -> (n: usize)
        ensures
            n == self@.len(),
    {
        self.0.len()
    }

    pub fn get(&self, i: usize) -> (c: &MessageContent)
        requires
            i < self@.len(),
        ensures
            c == &self@[i as int],
    {
        &self.0[i]
    }

    /// The displayed form of the contents.
    pub fn render(&self) -> (s: String)
        ensures
            s@ == render_contents(self@),
    {
        let mut s = String::new();
        let mut i: usize = 0;
        while i < self.0.len()
            invariant
                i <= self.0@.len(),
                s@ == render_contents(self.0@.subrange(0, i as int)),
            decreases self.0@.len() - i,
        {
            match &self.0[i] {
                MessageContent::Text(t) => {
                    s.append(t.as_str());
                },
                MessageContent::At(u) => {
                    crate::text::push_char(&mut s, '@');
                    s.append(u.get_nickname());
                    crate::text::push_char(&mut s, ' ');
                },
            }
            proof {
                lemma_render_contents_snoc(self.0@.subrange(0, i as int), self.0@[i as int]);
                assert(self.0@.subrange(0, i as int).push(self.0@[i as int]) =~= self.0@.subrange(
                    0,
                    i + 1,
                ));
                assert(s@ =~= render_contents(self.0@.subrange(0, i + 1)));
            }
            i = i + 1;
        }
        proof {
            assert(self.0@.subrange(0, i as int) =~= self.0@);
        }
        s
    }
}

impl Clone for MessageContents {
    fn clone(&self) -> (c: Self)
        ensures
            c@ == self@,
    {
        let mut contents: Vec<MessageContent> = Vec::new();
        let mut i: usize = 0;
        while i < self.0.len()
            invariant
                i <= self.0@.len(),
                contents@ == self.0@.subrange(0, i as int),
            decreases self.0@.len() - i,
        {
            contents.push(self.0[i].clone());
            i = i + 1;
            proof {
                assert(contents@ =~= self.0@.subrange(0, i as int));
            }
        }
        proof {
            assert(contents@ =~= self.0@);
        }
        Self(contents)
    }
}

impl Default for MessageContents {
    fn default() -> (c: Self)
        ensures
            c@ == Seq::<MessageContent>::empty(),
    {
        Self::new()
    }
}

/// What a chat is: a private conversation with one user, or a group room.
#[derive(Debug)]
pub enum ChatInfo {
    Private(User),
    Group(Group),
}

impl Clone for ChatInfo {
    fn clone(&self) -> (c: Self)
        ensures
            c == *self,
    {
        match self {
            ChatInfo::Private(u) => ChatInfo::Private(u.clone()),
            ChatInfo::Group(g) => ChatInfo::Group(g.clone()),
        }
    }
}

/// A conversation on some platform, together with the handle of the adapter
/// that produced it. Replies sent through this chat are routed to that same
/// adapter instance.
#[derive(Debug)]
pub struct Chat {
    pub info: ChatInfo,
    pub api: ApiHandle,
}

impl Chat {
    fn private(api: ApiHandle, user: User) -> (c: Self)
        ensures
            c.info == ChatInfo::Private(user),
            c.api == api,
    {
        Self { info: ChatInfo::Private(user), api }
    }

    fn group(api: ApiHandle, group: Group) -> (c: Self)
        ensures
            c.info == ChatInfo::Group(group),
            c.api == api,
    {
        Self { info: ChatInfo::Group(group), api }
    }

    /// A private chat with `user`, owned by the same adapter as this chat.
    pub fn spawn_private(&self, user: User) -> (c: Self)
        ensures
            c.info == ChatInfo::Private(user),
            c.api == self.api,
    {
        Self::private(self.api.clone(), user)
    }

    /// A group chat for `group`, owned by the same adapter as this chat.
    pub fn spawn_group(&self, group: Group) -> (c: Self)
        ensures
            c.info == ChatInfo::Group(group),
            c.api == self.api,
    {
        Self::group(self.api.clone(), group)
    }

    /// A chat from its wire encoding: chat type 1 is a group, anything else a
    /// private chat.
    pub fn from_raw(api: ApiHandle, chat_type: i32, chat_id: String) -> (c: Self)
        ensures
            c.api == api,
            chat_type == 1 ==> (c.info matches ChatInfo::Group(g) && g.id == chat_id),
            chat_type != 1 ==> (c.info matches ChatInfo::Private(u) && u.id == chat_id
                && u.nickname is None),
    {
        Self {
            info: match chat_type {
                1 => ChatInfo::Group(Group::new(chat_id)),
                _ => ChatInfo::Private(User::new(chat_id)),
            },
            api,
        }
    }

    pub fn get_info(&self) -> (info: &ChatInfo)
        ensures
            info == &self.info,
    {
        &self.info
    }

    /// The platform-native id of the chat partner or the group.
    pub fn get_id(&self) -> (id: &String)
        ensures
            match self.info {
                ChatInfo::Private(u) => id == u.id,
                ChatInfo::Group(g) => id == g.id,
            },
    {
        match &self.info {
            ChatInfo::Private(user) => user.get_id(),
            ChatInfo::Group(group) => group.get_id(),
        }
    }

    pub fn get_api(&self) -> (api: &ApiHandle)
        ensures
            api == &self.api,
    {
        &self.api
    }

    /// The wire encoding of the chat type: 0 for private, 1 for group.
    pub fn type_as_i32(&self) -> (t: i32)
        ensures
            t == match self.info {
                ChatInfo::Private(_) => 0i32,
                ChatInfo::Group(_) => 1i32,
            },
    {
        match &self.info {
            ChatInfo::Private(_) => 0,
            ChatInfo::Group(_) => 1,
        }
    }

    /// An outbound message for this chat, not replying to anything, to be
    /// carried out by the adapter this chat belongs to.
    pub fn send_msg(&self, contents: MessageContents) -> (r: SendRequest)
        ensures
            r.contents == contents,
            r.chat == *self,
            r.reply_to is None,
    {
        SendRequest { contents, chat: self.clone(), reply_to: None }
    }
}

impl Clone for Chat {
    fn clone(&self) -> (c: Self)
        ensures
            c == *self,
    {
        Self { info: self.info.clone(), api: self.api.clone() }
    }
}

/// An outbound send, routed by its chat's adapter handle. `reply_to` names the
/// platform-native id of the message being replied to, when any.
#[derive(Debug)]
pub struct SendRequest {
    pub contents: MessageContents,
    pub chat: Chat,
    pub reply_to: Option<String>,
}

/// The outcome of deciding whether a user may administer a chat without asking
/// the platform: in a private chat everyone is an admin; in a group the owning
/// adapter must be queried.
#[derive(Debug)]
pub enum AdminCheck {
    Admin,
    NeedGroupQuery(Group),
}

impl User {
    /// Whether this user administers `chat`, as far as it can be decided
    /// locally: private chats need no query, group chats name the group the
    /// owning adapter must be asked about.
    pub fn is_chat_admin(&self, chat: &Chat) -> (r: AdminCheck)
        ensures
            match chat.info {
                ChatInfo::Private(_) => r is Admin,
                ChatInfo::Group(g) => r matches AdminCheck::NeedGroupQuery(q) && q == g,
            },
    {
        match chat.get_info() {
            ChatInfo::Private(_) => AdminCheck::Admin,
            ChatInfo::Group(group) => AdminCheck::NeedGroupQuery(group.clone()),
        }
    }
}

/// One inbound message: its platform-native id, its contents, the chat it
/// arrived in, and its sender.
#[derive(Debug)]
pub struct Message {
    pub id: String,
    pub contents: MessageContents,
    pub chat: Chat,
    pub sender: User,
}

impl Message {
    pub fn new(id: String, contents: MessageContents, chat: Chat, sender: User) -> (m: Self)
        ensures
            m.id == id,
            m.contents == contents,
            m.chat == chat,
            m.sender == sender,
    {
        Self { id, contents, chat, sender }
    }

    pub fn get_id(&self) -> (id: &String)
        ensures
            id == &self.id,
    {
        &self.id
    }

    pub fn get_chat(&self) -> (c: &Chat)
        ensures
            c == &self.chat,
    {
        &self.chat
    }

    pub fn get_sender(&self) -> (u: &User)
        ensures
            u == &self.sender,
    {
        &self.sender
    }

    pub fn get_contents(&self) -> (c: &MessageContents)
        ensures
            c == &self.contents,
    {
        &self.contents
    }

    pub fn get_api(&self) -> (api: &ApiHandle)
        ensures
            api == &self.chat.api,
    {
        &self.chat.api
    }

    /// Whether some content unit mentions the bot identity of the adapter
    /// this message arrived through.
    pub fn be_at(&self) -> (r: bool)
        ensures
            r == exists|i: int|
                0 <= i < self.contents@.len() && ((#[trigger] self.contents@[i]) matches
                    MessageContent::At(u) && u.id@ == self.chat.api.self_user.id@),
    {
        let n = self.contents.len();
        let mut i: usize = 0;
        while i < n
            invariant
                n == self.contents@.len(),
                i <= n,
                forall|j: int|
                    0 <= j < i ==> !((#[trigger] self.contents@[j]) matches MessageContent::At(u)
                        && u.id@ == self.chat.api.self_user.id@),
            decreases n - i,
        {
            match self.contents.get(i) {
                MessageContent::At(user) => {
                    if crate::text::str_eq(user.get_id().as_str(), self.chat.api.self_user.get_id().as_str()) {
                        return true;
                    }
                },
                _ => {},
            }
            i = i + 1;
        }
        false
    }

    /// An outbound message answering this one: it goes to the chat this
    /// message arrived in, over the same adapter, and names this message as
    /// the one replied to.
    pub fn reply(&self, contents: MessageContents) -> (r: SendRequest)
        ensures
            r.contents == contents,
            r.chat == self.chat,
            r.reply_to == Some(self.id),
    {
        SendRequest { contents, chat: self.chat.clone(), reply_to: Some(self.id.clone()) }
    }

    /// Whether two messages carry the same data, field for field.
    pub open spec fn equiv(self, other: Message) -> bool {
        &&& self.id == other.id
        &&& self.contents@ == other.contents@
        &&& self.chat == other.chat
        &&& self.sender == other.sender
    }
}

impl Clone for Message {
    fn clone(&self) -> (m: Self)
        ensures
            m.equiv(*self),
    {
        Self {
            id: self.id.clone(),
            contents: self.contents.clone(),
            chat: self.chat.clone(),
            sender: self.sender.clone(),
        }
    }
}

/// One decoded platform event: a message the model represents, or anything
/// else, carried as an opaque diagnostic string so the stream never fails on
/// events the model does not know.
#[derive(Debug)]
pub enum Event {
    Message(Message),
    Other(String),
}

impl Event {
    /// The message the runtime dispatches for this event; any other event
    /// is absorbed without failing the stream.
    pub fn into_message(self) -> (r: Option<Message>)
        ensures
            match self {
                Event::Message(m) => r == Some(m),
                Event::Other(_) => r is None,
            },
    {
        match self {
            Event::Message(m) => Some(m),
            Event::Other(_) => None,
        }
    }

    /// Whether two events carry the same data.
    pub open spec fn equiv(self, other: Event) -> bool {
        match (self, other) {
            (Event::Message(a), Event::Message(b)) => a.equiv(b),
            (Event::Other(a), Event::Other(b)) => a == b,
            _ => false,
        }
    }
}

impl Clone for Event {
    fn clone(&self) -> (e: Self)
        ensures
            e.equiv(*self),
    {
        match self {
            Event::Message(m) => Event::Message(m.clone()),
            Event::Other(s) => Event::Other(s.clone()),
        }
    }
}

/// The application logic the runtime dispatches to: one handler per inbound
/// message, and one entry point for background work over the full adapter
/// set. Implemented by the application, outside this crate.
pub trait BotInstance {
    /// Handles one inbound message; an error is logged by the runtime and
    /// does not stop dispatching.
    fn handle_msg(&self, msg: Message) -> Result<(), String>;

    /// One round of background work, with the handles of every adapter in
    /// the runtime.
    fn run_jobs(&self, apis: &Vec<ApiHandle>) -> Result<(), String>;
}

/// Assembles the fixed adapter set of a runtime, one adapter handle at a
/// time, before anything runs.
pub struct BotMaidBuilder<I: BotInstance> {
    pub apis: Vec<ApiHandle>,
    pub instance: I,
}

impl<I: BotInstance> BotMaidBuilder<I> {
    /// Registers one more adapter and returns its handle back for the
    /// caller's own use.
    pub fn add_api(&mut self, api: ApiHandle) -> (r: ApiHandle)
        ensures
            final(self).apis@ == old(self).apis@.push(api),
            final(self).instance == old(self).instance,
            r == api,
    {
        let r = api.clone();
        self.apis.push(api);
        r
    }

    /// Freezes the assembled adapter set into a runtime.
    pub fn build(self) -> (m: BotMaid<I>)
        ensures
            m.apis@ == self.apis@,
            m.instance == self.instance,
    {
        BotMaid { apis: self.apis, instance: self.instance }
    }
}

/// The runtime multiplexer: a fixed set of adapters, assembled once, and the
/// application instance their events are dispatched to. The surrounding
/// process runs every adapter's ingestion loop and one drain loop per
/// adapter; the decisions — which events reach the handler, and that replies
/// carry their originating adapter's handle — are made here.
pub struct BotMaid<I: BotInstance> {
    pub apis: Vec<ApiHandle>,
    pub instance: I,
}

impl<I: BotInstance> BotMaid<I> {
    /// Starts assembling a runtime around the given application instance,
    /// with no adapters yet.
    pub fn new(instance: I) -> (b: BotMaidBuilder<I>)
        ensures
            b.apis@ == Seq::<ApiHandle>::empty(),
            b.instance == instance,
    {
        BotMaidBuilder { apis: Vec::new(), instance }
    }

    /// The handles of the assembled adapters.
    pub fn get_apis(&self) -> (apis: &Vec<ApiHandle>)
        ensures
            apis == &self.apis,
    {
        &self.apis
    }

    /// Dispatches one pulled event: messages go to the application handler,
    /// anything else is absorbed without failing the stream.
    pub fn handle_event(&self, event: Event) -> (r: Result<(), String>)
        ensures
            event is Other ==> r is Ok,
    {
        match event {
            Event::Message(msg) => self.instance.handle_msg(msg),
            Event::Other(_) => Ok(()),
        }
    }

    /// One round of the background task that is granted the full adapter set.
    pub fn run_jobs(&self) -> (r: Result<(), String>) {
        self.instance.run_jobs(&self.apis)
    }
}

} // verus!
