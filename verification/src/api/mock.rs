//! The in-process test double: events are injected directly, outbound sends
//! are recorded and can be drained for assertions.
use vstd::prelude::*;

use crate::api::{BotAPI, EventSlot, Polled};
use crate::{ApiHandle, Chat, ChatInfo, Event, Group, Message, MessageContent, MessageContents, User};

verus! {

/// The id the test double uses for its own bot identity.
pub const DEFAULT_BOT_ID: &'static str = "-";

/// The id the test double gives the simulated sender of injected messages.
pub const DEFAULT_SENDER_ID: &'static str = "0";

/// The nickname the test double gives the simulated sender.
pub const DEFAULT_SENDER_NICKNAME: &'static str = "tester";

/// Relies on `uuid::Uuid::new_v4` and its hyphenated display form: a fresh
/// random identifier, rendered as 36 characters. Nothing else can be promised
/// of a random value.
#[verifier::external_body]
fn fresh_uuid() -> (s: String)
    ensures
        s@.len() == 36,
{
    uuid::Uuid::new_v4().to_string()
}

/// One outbound action the test double has recorded.
#[derive(Debug)]
pub enum Action {
    SendMessage(Message),
    Other,
}

impl Action {
    /// The sent message, when the action was a send.
    pub fn send_msg(self) -> (r: Option<Message>)
        ensures
            match self {
                Action::SendMessage(m) => r == Some(m),
                Action::Other => r is None,
            },
    {
        if let Action::SendMessage(msg) = self {
            Some(msg)
        } else {
            None
        }
    }

    /// Whether two actions carry the same data.
    pub open spec fn equiv(self, other: Action) -> bool {
        match (self, other) {
            (Action::SendMessage(a), Action::SendMessage(b)) => a.equiv(b),
            (Action::Other, Action::Other) => true,
            _ => false,
        }
    }
}

impl Clone for Action {
    fn clone(&self) -> (a: Self)
        ensures
            a.equiv(*self),
    {
        match self {
            Action::SendMessage(m) => Action::SendMessage(m.clone()),
            Action::Other => Action::Other,
        }
    }
}

/// The test-double adapter: an adapter whose platform is the test itself.
#[derive(Debug)]
pub struct Mock {
    pub handle: ApiHandle,
    pub events: EventSlot,
    pub actions: Vec<Action>,
}

impl Mock {
    /// A fresh test double under the given runtime key, with an empty queue
    /// and no recorded actions.
    pub fn new(key: u64) -> (m: Self)
        ensures
            m.handle.key == key,
            m.handle.self_user.id@ == DEFAULT_BOT_ID@,
            m.handle.self_user.nickname is None,
            m.events.slot is None,
            !m.events.closed,
            m.actions@ == Seq::<Action>::empty(),
    {
        Self {
            handle: ApiHandle::new(key, User::new(String::from_str(DEFAULT_BOT_ID))),
            events: EventSlot::new(),
            actions: Vec::new(),
        }
    }

    /// Injects an event, as though the platform had delivered it. A full or
    /// closed queue hands the event back, exactly as the capacity-1 queue
    /// would make a real ingestion loop wait.
    pub fn happen(&mut self, event: Event) -> (r: Option<Event>)
        ensures
            final(self).handle == old(self).handle,
            final(self).actions@ == old(self).actions@,
            final(self).events.closed == old(self).events.closed,
            old(self).events.slot is None && !old(self).events.closed ==> final(self).events.slot
                == Some(event) && r is None,
            old(self).events.slot is Some || old(self).events.closed ==> final(self).events
                == old(self).events && r == Some(event),
    {
        self.events.push(event)
    }

    /// Injects a message with the given contents from the default simulated
    /// sender, in a private chat owned by this adapter.
    pub fn simple_msg(&mut self, contents: MessageContents) -> (r: Option<Event>)
        ensures
            final(self).handle == old(self).handle,
            final(self).actions@ == old(self).actions@,
            final(self).events.closed == old(self).events.closed,
            old(self).events.slot is Some || old(self).events.closed ==> final(self).events
                == old(self).events,
            old(self).events.slot is None && !old(self).events.closed ==> r is None
                && (final(self).events.slot matches Some(Event::Message(m))
                && m.contents@ == contents@
                && m.chat.api == old(self).handle
                && m.sender.id@ == DEFAULT_SENDER_ID@
                && (m.sender.nickname matches Some(n) && n@ == DEFAULT_SENDER_NICKNAME@)
                && m.chat.info == ChatInfo::Private(m.sender)),
    {
        let sender = User::new(String::from_str(DEFAULT_SENDER_ID)).nickname(
            String::from_str(DEFAULT_SENDER_NICKNAME),
        );
        let chat = Chat { info: ChatInfo::Private(sender.clone()), api: self.handle.clone() };
        let msg = Message::new(fresh_uuid(), contents, chat, sender);
        self.happen(Event::Message(msg))
    }

    /// Injects a message holding one plain text segment.
    pub fn simple_text(&mut self, text: String) -> (r: Option<Event>)
        ensures
            final(self).handle == old(self).handle,
            final(self).actions@ == old(self).actions@,
            final(self).events.closed == old(self).events.closed,
            old(self).events.slot is Some || old(self).events.closed ==> final(self).events
                == old(self).events,
            old(self).events.slot is None && !old(self).events.closed ==> r is None
                && (final(self).events.slot matches Some(Event::Message(m))
                && m.contents@ == seq![MessageContent::Text(text)]
                && m.chat.api == old(self).handle),
    {
        let contents = MessageContents::new().text(text);
        self.simple_msg(contents)
    }

    /// Drains every action recorded since the last drain. A second drain with
    /// nothing recorded in between yields nothing.
    pub fn get_actions(&mut self) -> (r: Vec<Action>)
        ensures
            final(self).handle == old(self).handle,
            final(self).events == old(self).events,
            final(self).actions@ == Seq::<Action>::empty(),
            r@ == old(self).actions@,
    {
        let mut drained: Vec<Action> = Vec::new();
        core::mem::swap(&mut self.actions, &mut drained);
        drained
    }

    /// Records an outbound send and answers with the default sender id, as
    /// the simulated platform's acknowledgement.
    pub fn send_msg_inner(
        &mut self,
        contents: MessageContents,
        chat: Chat,
        _reply_to: Option<&Message>,
    ) -> (r: String)
        ensures
            final(self).handle == old(self).handle,
            final(self).events == old(self).events,
            final(self).actions@.len() == old(self).actions@.len() + 1,
            final(self).actions@.subrange(0, old(self).actions@.len() as int)
                == old(self).actions@,
            (final(self).actions@.last() matches Action::SendMessage(m)
                && m.contents@ == contents@
                && m.chat == chat
                && m.sender == old(self).handle.self_user),
            r@ == DEFAULT_SENDER_ID@,
    {
        let msg = Message::new(fresh_uuid(), contents, chat, self.handle.self_user.clone());
        self.actions.push(Action::SendMessage(msg));
        proof {
            assert(self.actions@.subrange(0, old(self).actions@.len() as int)
                =~= old(self).actions@);
        }
        String::from_str(DEFAULT_SENDER_ID)
    }

    /// Whether the simulated platform reports the user as a group admin: only
    /// the default simulated sender is.
    pub fn is_group_admin(&self, user: &User, group: &Group) -> (r: bool)
        ensures
            r == (user.id@ == DEFAULT_SENDER_ID@),
    {
        crate::text::str_eq(user.get_id().as_str(), DEFAULT_SENDER_ID)
    }

    /// Closes the event queue: the stream ends once drained.
    pub fn close(&mut self)
        ensures
            final(self).handle == old(self).handle,
            final(self).actions@ == old(self).actions@,
            final(self).events.slot == old(self).events.slot,
            final(self).events.closed,
    {
        self.events.close()
    }
}

impl BotAPI for Mock {
    open spec fn api(&self) -> ApiHandle {
        self.handle
    }

    open spec fn events(&self) -> EventSlot {
        self.events
    }

    fn get_self_user(&self) -> (u: &User) {
        &self.handle.self_user
    }

    fn get_handle(&self) -> (h: &ApiHandle) {
        &self.handle
    }

    fn next_event(&mut self) -> (r: Polled)
        ensures
            final(self).actions@ == old(self).actions@,
    {
        self.events.pull()
    }
}

} // verus!
