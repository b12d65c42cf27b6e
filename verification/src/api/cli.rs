//! The debug adapter: lines read from the local terminal become inbound
//! messages, outbound messages are printed inside a fenced block, and the
//! local process owner stands in for the platform's notion of identity.
use std::io::Write;

use vstd::prelude::*;

use crate::api::{EventSlot, Polled};
use crate::{ApiHandle, Chat, ChatInfo, Event, Group, Message, MessageContent, MessageContents, SpecSegment, User, render_contents, segs_view};

verus! {

/// The id the debug adapter uses for its own bot identity.
pub const DEFAULT_BOT_ID: &'static str = "-";

/// Relies on `std::time::SystemTime::now` and the decimal rendering of
/// `u64`: the milliseconds since the epoch, or `0` when the clock stands
/// before the epoch or beyond the range. The clock decides the value, so
/// nothing more can be promised than that the result is the decimal digits
/// of some machine integer.
#[verifier::external_body]
pub fn now_as_id() -> (s: String)
    ensures
        exists|n: u64| s@ == crate::decimal::dec_digits(n as nat),
{
    let millis: u128 = std::time::SystemTime::now()
        .duration_since(std::time::UNIX_EPOCH)
        .map_or(0, |t| t.as_millis());
    let clipped: u64 = millis.try_into().unwrap_or(0);
    clipped.to_string()
}

/// Relies on `users::get_current_uid`: the uid of the calling process. The
/// environment decides the value.
#[verifier::external_body]
fn current_uid() -> (uid: u32) {
    users::get_current_uid()
}

/// Relies on `users::get_current_username`: the name of the user running
/// this process, when the system knows one that is valid text. The
/// environment decides the value.
#[verifier::external_body]
fn current_username() -> (name: Option<String>) {
    users::get_current_username().and_then(|n| n.into_string().ok())
}

/// Relies on `sudo::check`: whether the process runs as root. The
/// environment decides the value.
#[verifier::external_body]
fn running_as_root() -> (r: bool) {
    match sudo::check() {
        sudo::RunningAs::Root => true,
        _ => false,
    }
}

/// Relies on `std::io::Write::write_fmt` through `writeln`: prints the given
/// text and a newline on standard output, which is this adapter's outbound
/// wire.
#[verifier::external_body]
fn emit_line(s: &str) {
    let _ = writeln!(std::io::stdout(), "{}", s);
}

/// Whether the pattern occurs in `line` at position `j`.
pub open spec fn match_at(line: Seq<char>, pat: Seq<char>, j: int) -> bool {
    0 <= j && j + pat.len() <= line.len() && line.subrange(j, j + pat.len()) == pat
}

/// The position of the first occurrence of the pattern, when there is one.
pub open spec fn first_match(line: Seq<char>, pat: Seq<char>) -> Option<nat>
    decreases line.len(),
{
    if pat.len() == 0 || line.len() < pat.len() {
        None
    } else if line.subrange(0, pat.len() as int) == pat {
        Some(0)
    } else {
        match first_match(line.drop_first(), pat) {
            Some(p) => Some((p + 1) as nat),
            None => None,
        }
    }
}

/// `first_match` names exactly the least occurrence position.
pub proof fn lemma_first_match_spec(line: Seq<char>, pat: Seq<char>)
    requires
        pat.len() > 0,
    ensures
        match first_match(line, pat) {
            Some(p) => match_at(line, pat, p as int) && (forall|j: int|
                0 <= j < p ==> !match_at(line, pat, j)),
            None => forall|j: int| !match_at(line, pat, j),
        },
    decreases line.len(),
{
    if pat.len() == 0 || line.len() < pat.len() {
        assert(forall|j: int| !match_at(line, pat, j));
    } else if line.subrange(0, pat.len() as int) == pat {
    } else {
        lemma_first_match_spec(line.drop_first(), pat);
        assert forall|j: int| 1 <= j && j + pat.len() <= line.len() implies match_at(
            line,
            pat,
            j,
        ) == match_at(line.drop_first(), pat, j - 1) by {
            assert(line.subrange(j, j + pat.len()) =~= line.drop_first().subrange(
                j - 1,
                j - 1 + pat.len(),
            ));
        }
        assert(!match_at(line, pat, 0));
        match first_match(line.drop_first(), pat) {
            Some(p) => {
                assert(match_at(line, pat, p + 1int));
                assert forall|j: int| 0 <= j < p + 1 implies !match_at(line, pat, j) by {
                    if j >= 1 {
                        assert(!match_at(line.drop_first(), pat, j - 1));
                    }
                }
            },
            None => {
                assert forall|j: int| !match_at(line, pat, j) by {
                    if 1 <= j && j + pat.len() <= line.len() {
                        assert(!match_at(line.drop_first(), pat, j - 1));
                    }
                }
            },
        }
    }
}

/// An occurrence bound: a found position lies within the line.
pub proof fn lemma_first_match_bounds(line: Seq<char>, pat: Seq<char>)
    ensures
        first_match(line, pat) matches Some(p) ==> p + pat.len() <= line.len(),
    decreases line.len(),
{
    if pat.len() == 0 || line.len() < pat.len() {
    } else if line.subrange(0, pat.len() as int) == pat {
    } else {
        lemma_first_match_bounds(line.drop_first(), pat);
    }
}

/// The content units this adapter reads from one input line, against the
/// mention pattern `pat` (the marker character, the bot's own id, and a
/// space): each occurrence of the pattern becomes a mention of the bot,
/// preceded by the text since the previous one; whatever follows the last
/// occurrence stays as a final text unit, so the whole line is the inbound
/// message — a line without any occurrence is one text unit.
pub open spec fn cli_segs(line: Seq<char>, pat: Seq<char>, self_id: Seq<char>) -> Seq<SpecSegment>
    decreases line.len(),
    when pat.len() > 0
    via cli_segs_decreases
{
    match first_match(line, pat) {
        None => if line.len() > 0 {
            seq![SpecSegment::Text(line)]
        } else {
            Seq::empty()
        },
        Some(p) => (if p > 0 {
            seq![SpecSegment::Text(line.subrange(0, p as int))]
        } else {
            Seq::empty()
        }) + seq![SpecSegment::At { id: self_id, nickname: None }] + cli_segs(
            line.skip((p + pat.len()) as int),
            pat,
            self_id,
        ),
    }
}

#[via_fn]
proof fn cli_segs_decreases(line: Seq<char>, pat: Seq<char>, self_id: Seq<char>) {
    lemma_first_match_bounds(line, pat);
}

/// The mention pattern for a bot id: the marker character, the id, a space.
pub open spec fn mention_pat(id: Seq<char>) -> Seq<char> {
    seq!['@'] + id + seq![' ']
}

/// Whether the pattern occurs at `j`, checked character by character.
fn match_at_exec(chars: &Vec<char>, pat: &Vec<char>, j: usize) -> (r: bool)
    requires
        j + pat@.len() <= chars@.len(),
    ensures
        r == match_at(chars@, pat@, j as int),
{
    let plen = pat.len();
    let clen = chars.len();
    let mut k: usize = 0;
    while k < plen
        invariant
            k <= plen,
            plen == pat@.len(),
            clen == chars@.len(),
            j + pat@.len() <= chars@.len(),
            forall|t: int| 0 <= t < k ==> chars@[j + t] == pat@[t],
        decreases plen - k,
    {
        if chars[j + k] != pat[k] {
            proof {
                assert(chars@.subrange(j as int, j + pat@.len())[k as int] != pat@[k as int]);
            }
            return false;
        }
        k = k + 1;
    }
    proof {
        assert(chars@.subrange(j as int, j + pat@.len()) =~= pat@);
    }
    true
}

/// The first occurrence of the pattern at or after `from`, scanning left to
/// right.
fn find_match(chars: &Vec<char>, pat: &Vec<char>, from: usize) -> (r: Option<usize>)
    requires
        from <= chars@.len(),
        pat@.len() > 0,
    ensures
        match r {
            Some(j) => from <= j && j + pat@.len() <= chars@.len() && first_match(
                chars@.skip(from as int),
                pat@,
            ) == Some((j - from) as nat),
            None => first_match(chars@.skip(from as int), pat@) is None,
        },
{
    let ghost suffix = chars@.skip(from as int);
    proof {
        lemma_first_match_spec(suffix, pat@);
        assert forall|j: int|
            from <= j && j + pat@.len() <= chars@.len() implies match_at(chars@, pat@, j)
            == match_at(suffix, pat@, j - from) by {
            assert(chars@.subrange(j, j + pat@.len()) =~= suffix.subrange(
                j - from,
                j - from + pat@.len(),
            ));
        }
    }
    if pat.len() > chars.len() {
        return None;
    }
    let last_start = chars.len() - pat.len();
    if from > last_start {
        proof {
            match first_match(suffix, pat@) {
                Some(p) => {
                    assert(match_at(suffix, pat@, p as int));
                    lemma_first_match_bounds(suffix, pat@);
                    assert(match_at(chars@, pat@, p + from));
                    assert(false);
                },
                None => {},
            }
        }
        return None;
    }
    let clen = chars.len();
    let mut j = from;
    while j <= last_start
        invariant
            from <= j,
            pat@.len() > 0,
            pat@.len() <= chars@.len(),
            clen == chars@.len(),
            last_start == chars@.len() - pat@.len(),
            j <= last_start + 1,
            suffix == chars@.skip(from as int),
            forall|t: int| from <= t < j ==> !match_at(chars@, pat@, t),
        decreases last_start + 1 - j,
    {
        if match_at_exec(chars, pat, j) {
            proof {
                lemma_first_match_spec(suffix, pat@);
                assert forall|t: int|
                    from <= t && t + pat@.len() <= chars@.len() implies match_at(chars@, pat@, t)
                    == match_at(suffix, pat@, t - from) by {
                    assert(chars@.subrange(t, t + pat@.len()) =~= suffix.subrange(
                        t - from,
                        t - from + pat@.len(),
                    ));
                }
                assert(match_at(suffix, pat@, j - from));
                match first_match(suffix, pat@) {
                    Some(p) => {
                        if p < j - from {
                            assert(match_at(suffix, pat@, p as int));
                            assert(!match_at(chars@, pat@, p + from));
                        }
                        if p > j - from {
                            assert(!match_at(suffix, pat@, j - from));
                        }
                        assert(p == j - from);
                    },
                    None => {
                        assert(!match_at(suffix, pat@, j - from));
                    },
                }
            }
            return Some(j);
        }
        j = j + 1;
    }
    proof {
        lemma_first_match_spec(suffix, pat@);
        assert forall|t: int|
            from <= t && t + pat@.len() <= chars@.len() implies match_at(chars@, pat@, t)
            == match_at(suffix, pat@, t - from) by {
            assert(chars@.subrange(t, t + pat@.len()) =~= suffix.subrange(
                t - from,
                t - from + pat@.len(),
            ));
        }
        match first_match(suffix, pat@) {
            Some(p) => {
                assert(match_at(suffix, pat@, p as int));
                lemma_first_match_bounds(suffix, pat@);
                assert(!match_at(chars@, pat@, p + from));
            },
            None => {},
        }
    }
    None
}

/// Splits one input line at each occurrence of the mention pattern, from
/// position `from` on.
fn parse_from(
    chars: &Vec<char>,
    pat: &Vec<char>,
    self_id: &String,
    from: usize,
) -> (v: Vec<MessageContent>)
    requires
        from <= chars@.len(),
        pat@.len() > 0,
    ensures
        segs_view(v@) == cli_segs(chars@.skip(from as int), pat@, self_id@),
    decreases chars@.len() - from,
{
    let ghost suffix = chars@.skip(from as int);
    match find_match(chars, pat, from) {
        None => {
            let mut v: Vec<MessageContent> = Vec::new();
            let clen = chars.len();
            if from < clen {
                let t = crate::text::string_of_range(chars, from, clen);
                proof {
                    assert(chars@.subrange(from as int, clen as int) =~= suffix);
                }
                v.push(MessageContent::Text(t));
                proof {
                    assert(segs_view(v@) =~= seq![SpecSegment::Text(suffix)]);
                }
            } else {
                proof {
                    assert(segs_view(v@) =~= Seq::<SpecSegment>::empty());
                }
            }
            v
        },
        Some(j) => {
            let mut v: Vec<MessageContent> = Vec::new();
            let ghost gap: Seq<SpecSegment> = Seq::empty();
            if j > from {
                let t = crate::text::string_of_range(chars, from, j);
                proof {
                    gap = seq![SpecSegment::Text(t@)];
                    assert(chars@.subrange(from as int, j as int) =~= suffix.subrange(
                        0,
                        j - from,
                    ));
                }
                v.push(MessageContent::Text(t));
            }
            v.push(MessageContent::At(User::new(self_id.clone())));
            proof {
                assert(segs_view(v@) =~= gap + seq![
                    SpecSegment::At { id: self_id@, nickname: None },
                ]);
            }
            let plen = pat.len();
            let clen = chars.len();
            proof {
                assert(j + plen <= clen);
            }
            let next = j + plen;
            let mut tail = parse_from(chars, pat, self_id, next);
            let ghost tail_view = segs_view(tail@);
            proof {
                assert(chars@.skip(next as int) =~= suffix.skip(j - from + pat@.len()));
            }
            v.append(&mut tail);
            proof {
                assert(segs_view(v@) =~= gap + seq![
                    SpecSegment::At { id: self_id@, nickname: None },
                ] + tail_view);
            }
            v
        },
    }
}

/// The debug adapter's own state: its routing handle and its capacity-1
/// event queue.
#[derive(Debug)]
pub struct Cli {
    pub handle: ApiHandle,
    pub events: EventSlot,
}

impl Cli {
    /// A fresh debug adapter under the given runtime key, with an empty,
    /// open queue.
    pub fn new(key: u64) -> (c: Self)
        ensures
            c.handle.key == key,
            c.handle.self_user.id@ == DEFAULT_BOT_ID@,
            c.handle.self_user.nickname is None,
            c.events.slot is None,
            !c.events.closed,
    {
        Self {
            handle: ApiHandle::new(key, User::new(String::from_str(DEFAULT_BOT_ID))),
            events: EventSlot::new(),
        }
    }

    /// Reads one line from the terminal as an inbound message: each
    /// occurrence of the mention pattern (marker, own id, space) becomes a
    /// mention of this bot, with the text before it kept in between and the
    /// rest of the line kept after the last one. The message is owned by
    /// this adapter and arrives in a private chat with its sender, the
    /// local process owner, whose uid and username the environment decides.
    pub fn handle_line(&self, line: &String) -> (m: Message)
        ensures
            segs_view(m.contents@) == cli_segs(
                line@,
                mention_pat(self.handle.self_user.id@),
                self.handle.self_user.id@,
            ),
            m.chat.api == self.handle,
            m.chat.info == ChatInfo::Private(m.sender),
            m.sender.nickname is Some,
    {
        let chars = crate::text::chars_of(line.as_str());
        let mut pat: Vec<char> = Vec::new();
        pat.push('@');
        let id_chars = crate::text::chars_of(self.handle.self_user.get_id().as_str());
        let mut k: usize = 0;
        while k < id_chars.len()
            invariant
                k <= id_chars@.len(),
                id_chars@ == self.handle.self_user.id@,
                pat@ == seq!['@'] + id_chars@.subrange(0, k as int),
            decreases id_chars@.len() - k,
        {
            pat.push(id_chars[k]);
            k = k + 1;
            proof {
                assert(pat@ =~= seq!['@'] + id_chars@.subrange(0, k as int));
            }
        }
        pat.push(' ');
        proof {
            assert(id_chars@.subrange(0, id_chars@.len() as int) =~= id_chars@);
            assert(pat@ =~= mention_pat(self.handle.self_user.id@));
        }
        let contents = parse_from(&chars, &pat, self.handle.self_user.get_id(), 0);
        proof {
            assert(chars@.skip(0) =~= line@);
        }
        let username = match current_username() {
            Some(name) => name,
            None => String::new(),
        };
        let sender = User::new(crate::decimal::u64_to_string(current_uid() as u64)).nickname(
            username,
        );
        Message::new(
            now_as_id(),
            MessageContents(contents),
            Chat { info: ChatInfo::Private(sender.clone()), api: self.handle.clone() },
            sender,
        )
    }

    /// Offers a decoded event to the adapter's queue; hands it back when the
    /// slot is still full, so the reading side can wait and retry.
    pub fn push_event(&mut self, event: Event) -> (r: Option<Event>)
        ensures
            final(self).handle == old(self).handle,
            final(self).events.closed == old(self).events.closed,
            old(self).events.slot is None && !old(self).events.closed ==> final(self).events.slot
                == Some(event) && r is None,
            old(self).events.slot is Some || old(self).events.closed ==> final(self).events
                == old(self).events && r == Some(event),
    {
        self.events.push(event)
    }

    /// Closes the event queue, as when the terminal reaches end of input.
    pub fn close(&mut self)
        ensures
            final(self).handle == old(self).handle,
            final(self).events.slot == old(self).events.slot,
            final(self).events.closed,
    {
        self.events.close()
    }

    /// Sends a message to the terminal: the rendered contents are printed
    /// inside a fenced block (built by `fenced_block`, which pins its exact
    /// text), and the answered message id is taken from the clock — whatever
    /// the time is, the id is the decimal digits of some machine integer.
    pub fn send_msg_inner(
        &self,
        contents: MessageContents,
        _chat: Chat,
        _reply_to: Option<&Message>,
    ) -> (r: String)
        ensures
            exists|n: u64| r@ == crate::decimal::dec_digits(n as nat),
    {
        let block = fenced_block(&contents);
        emit_line(block.as_str());
        now_as_id()
    }

    /// Whether the user counts as a group admin on this adapter: the local
    /// process standing in for the platform, the answer is whether the
    /// process runs as root. The environment decides it.
    pub fn is_group_admin(&self, _user: &User, _group: &Group) -> (r: bool) {
        running_as_root()
    }
}

/// The fenced form of rendered contents, as this adapter prints it.
pub open spec fn fenced(rendered: Seq<char>) -> Seq<char> {
    "```\n"@ + rendered + "\n```"@
}

/// The fenced block printed for an outbound message.
pub fn fenced_block(contents: &MessageContents) -> (s: String)
    ensures
        s@ == fenced(render_contents(contents@)),
{
    let mut s = String::from_str("```\n");
    let rendered = contents.render();
    s.append(rendered.as_str());
    s.append("\n```");
    s
}

impl crate::api::BotAPI for Cli {
    open spec fn api(&self) -> ApiHandle {
        self.handle
    }

    open spec fn events(&self) -> EventSlot {
        self.events
    }

    fn get_self_user(&self) -> (u: &User) {
        &self.handle.self_user
    }

    fn get_handle(&self) -> (h: &ApiHandle) {
        &self.handle
    }

    fn next_event(&mut self) -> (r: Polled) {
        self.events.pull()
    }
}

} // verus!
