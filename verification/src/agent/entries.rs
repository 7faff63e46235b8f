//! The entries of a session and how a language model gets to see them.

use crate::json::{json_string, json_text};
use crate::llm::types::{text_message, ContentView, Message, MessageContent, MessageView};
use crate::text::{
    ends_with, has_suffix, is_blank, join, joined, joining_keeps_the_order, split, split_at_char,
    texts_come_apart, trim, trimmed, what_is_held_stands_inside,
};
use vstd::prelude::*;
use vstd::string::*;

verus! {

/// A file that came with a message.
#[derive(Debug)]
pub struct Attachment {
    pub filename: String,
    pub mime_type: String,
    pub size: String,
}

/// Emojis put to an earlier message.
#[derive(Debug)]
pub struct Reaction {
    pub message_id: String,
    pub emojis: Vec<String>,
}

/// An entry of a session file.
#[derive(Debug)]
pub enum SessionEntry {
    /// The first entry.
    Header { version: u32, created: String, jid: String },
    /// A message, by the user or by the assistant.
    Message {
        role: String,
        content: String,
        msg_id: Option<String>,
        sender: Option<String>,
        ts: Option<String>,
        attachments: Option<Vec<Attachment>>,
        reaction: Option<Reaction>,
    },
}

/// A line of a session file: an entry, or text that is none.
#[derive(Debug)]
pub enum SessionLine {
    Entry(SessionEntry),
    Unreadable(String),
}

/// The model of [`Attachment`].
pub ghost struct AttachmentView {
    pub filename: Seq<char>,
    pub mime_type: Seq<char>,
    pub size: Seq<char>,
}

/// The model of [`Reaction`].
pub ghost struct StoredReactionView {
    pub message_id: Seq<char>,
    pub emojis: Seq<Seq<char>>,
}

/// The model of a message in a session.
pub ghost struct StoredView {
    pub role: Seq<char>,
    pub content: Seq<char>,
    pub msg_id: Option<Seq<char>>,
    pub sender: Option<Seq<char>>,
    pub ts: Option<Seq<char>>,
    pub attachments: Option<Seq<AttachmentView>>,
    pub reaction: Option<StoredReactionView>,
}

/// The model of [`SessionEntry`].
pub ghost enum EntryView {
    Header { version: u32, created: Seq<char>, jid: Seq<char> },
    Message(StoredView),
}

/// The model of [`SessionLine`].
pub ghost enum LineView {
    Entry(EntryView),
    Unreadable(Seq<char>),
}

impl DeepView for Attachment {
    type V = AttachmentView;

    open spec fn deep_view(&self) -> AttachmentView {
        AttachmentView { filename: self.filename@, mime_type: self.mime_type@, size: self.size@ }
    }
}

impl DeepView for Reaction {
    type V = StoredReactionView;

    open spec fn deep_view(&self) -> StoredReactionView {
        StoredReactionView { message_id: self.message_id@, emojis: self.emojis.deep_view() }
    }
}

impl DeepView for SessionEntry {
    type V = EntryView;

    open spec fn deep_view(&self) -> EntryView {
        match self {
            SessionEntry::Header { version, created, jid } => EntryView::Header {
                version: *version,
                created: created@,
                jid: jid@,
            },
            SessionEntry::Message { role, content, msg_id, sender, ts, attachments, reaction } =>
                EntryView::Message(
                StoredView {
                    role: role@,
                    content: content@,
                    msg_id: msg_id.deep_view(),
                    sender: sender.deep_view(),
                    ts: ts.deep_view(),
                    attachments: attachments.deep_view(),
                    reaction: reaction.deep_view(),
                },
            ),
        }
    }
}

impl DeepView for SessionLine {
    type V = LineView;

    open spec fn deep_view(&self) -> LineView {
        match self {
            SessionLine::Entry(e) => LineView::Entry(e.deep_view()),
            SessionLine::Unreadable(s) => LineView::Unreadable(s@),
        }
    }
}

impl Clone for Attachment {
    fn clone(&self) -> (r: Self)
        ensures
            r.deep_view() == self.deep_view(),
    {
        Attachment {
            filename: self.filename.clone(),
            mime_type: self.mime_type.clone(),
            size: self.size.clone(),
        }
    }
}

impl Clone for Reaction {
    fn clone(&self) -> (r: Self)
        ensures
            r.deep_view() == self.deep_view(),
    {
        let emojis = self.emojis.clone();
        assert(emojis.deep_view() =~= self.emojis.deep_view());
        Reaction { message_id: self.message_id.clone(), emojis }
    }
}

/// A copy of an optional list of attachments.
pub fn copy_attachments(a: &Option<Vec<Attachment>>) -> (r: Option<Vec<Attachment>>)
    ensures
        r.deep_view() == a.deep_view(),
{
    match a {
        Some(list) => {
            let c = list.clone();
            assert(c.deep_view() =~= list.deep_view());
            Some(c)
        },
        None => None,
    }
}

/// A copy of an optional reaction.
pub fn copy_reaction(a: &Option<Reaction>) -> (r: Option<Reaction>)
    ensures
        r.deep_view() == a.deep_view(),
{
    match a {
        Some(x) => Some(x.clone()),
        None => None,
    }
}

/// A copy of an optional text.
pub fn copy_text(a: &Option<String>) -> (r: Option<String>)
    ensures
        r.deep_view() == a.deep_view(),
{
    match a {
        Some(s) => Some(s.clone()),
        None => None,
    }
}

/// An optional text of its own.
pub fn own_text(a: Option<&str>) -> (r: Option<String>)
    ensures
        r.deep_view() == a.deep_view(),
{
    match a {
        Some(s) => Some(s.to_owned()),
        None => None,
    }
}

/// An optional text, lent.
pub fn lend_text(a: &Option<String>) -> (r: Option<&str>)
    ensures
        r.deep_view() == a.deep_view(),
{
    match a {
        Some(s) => Some(s.as_str()),
        None => None,
    }
}

// ---- JSON of the metadata ----------------------------------------------

/// An attachment as compact JSON.
pub open spec fn attachment_json(a: AttachmentView) -> Seq<char> {
    "{\"filename\":"@ + json_string(a.filename) + ",\"mime_type\":"@ + json_string(a.mime_type)
        + ",\"size\":"@ + json_string(a.size) + "}"@
}

/// A reaction as compact JSON.
pub open spec fn reaction_json(r: StoredReactionView) -> Seq<char> {
    "{\"message_id\":"@ + json_string(r.message_id) + ",\"emojis\":["@ + joined(
        r.emojis.map_values(|e: Seq<char>| json_string(e)),
        ","@,
    ) + "]}"@
}

fn attachment_to_json(a: &Attachment) -> (r: String)
    ensures
        r@ == attachment_json(a.deep_view()),
{
    let mut s = "{\"filename\":".to_owned();
    s.append(json_text(a.filename.as_str()).as_str());
    s.append(",\"mime_type\":");
    s.append(json_text(a.mime_type.as_str()).as_str());
    s.append(",\"size\":");
    s.append(json_text(a.size.as_str()).as_str());
    s.append("}");
    s
}

fn reaction_to_json(x: &Reaction) -> (r: String)
    ensures
        r@ == reaction_json(x.deep_view()),
{
    let mut quoted: Vec<String> = Vec::new();
    let ghost all = x.emojis.deep_view();
    let mut i: usize = 0;
    while i < x.emojis.len()
        invariant
            all == x.emojis.deep_view(),
            0 <= i <= x.emojis@.len(),
            quoted.deep_view() == all.take(i as int).map_values(|e: Seq<char>| json_string(e)),
        decreases x.emojis@.len() - i,
    {
        let ghost so_far = quoted.deep_view();
        quoted.push(json_text(x.emojis[i].as_str()));
        assert(quoted.deep_view() =~= so_far.push(json_string(all[i as int])));
        assert(quoted.deep_view() =~= all.take(i + 1).map_values(
            |e: Seq<char>| json_string(e),
        ));
        i = i + 1;
    }
    assert(all.take(all.len() as int) == all);
    let mut s = "{\"message_id\":".to_owned();
    s.append(json_text(x.message_id.as_str()).as_str());
    s.append(",\"emojis\":[");
    s.append(join(&quoted, ",").as_str());
    s.append("]}");
    s
}

// ---- what the model sees -----------------------------------------------

/// The parts of what is shown of a message: its reaction and its attachments
/// as JSON, then its text, each only where there is one.
pub open spec fn display_parts(
    content: Seq<char>,
    attachments: Option<Seq<AttachmentView>>,
    reaction: Option<StoredReactionView>,
) -> Seq<Seq<char>> {
    let first = match reaction {
        Some(r) => seq![reaction_json(r)],
        None => Seq::empty(),
    };
    let second = match attachments {
        Some(a) => a.map_values(|x: AttachmentView| attachment_json(x)),
        None => Seq::empty(),
    };
    let third = if content.len() > 0 {
        seq![content]
    } else {
        Seq::empty()
    };
    first + second + third
}

/// What is shown of a message, line by line.
pub open spec fn display(
    content: Seq<char>,
    attachments: Option<Seq<AttachmentView>>,
    reaction: Option<StoredReactionView>,
) -> Seq<char> {
    joined(display_parts(content, attachments, reaction), "\n"@)
}

/// What is shown of a message, line by line.
pub fn build_display_content(
    content: &str,
    attachments: &Option<Vec<Attachment>>,
    reaction: &Option<Reaction>,
) -> (r: String)
    ensures
        r@ == display(content@, attachments.deep_view(), reaction.deep_view()),
{
    let mut parts: Vec<String> = Vec::new();
    if let Some(x) = reaction {
        parts.push(reaction_to_json(x));
    }
    let ghost first = parts.deep_view();
    assert(first =~= match reaction.deep_view() {
        Some(r) => seq![reaction_json(r)],
        None => Seq::empty(),
    });
    let ghost mut second: Seq<Seq<char>> = Seq::empty();
    if let Some(list) = attachments {
        let ghost all = list.deep_view();
        let mut i: usize = 0;
        assert(first + all.take(0).map_values(|x: AttachmentView| attachment_json(x)) =~= first);
        while i < list.len()
            invariant
                all == list.deep_view(),
                0 <= i <= list@.len(),
                parts.deep_view() == first + all.take(i as int).map_values(
                    |x: AttachmentView| attachment_json(x),
                ),
            decreases list@.len() - i,
        {
            let ghost so_far = parts.deep_view();
            parts.push(attachment_to_json(&list[i]));
            assert(parts.deep_view() =~= so_far.push(attachment_json(all[i as int])));
            assert(parts.deep_view() =~= first + all.take(i + 1).map_values(
                |x: AttachmentView| attachment_json(x),
            ));
            i = i + 1;
        }
        assert(all.take(all.len() as int) == all);
        proof {
            second = all.map_values(|x: AttachmentView| attachment_json(x));
        }
    }
    assert(parts.deep_view() =~= first + second);
    if !content.is_empty() {
        parts.push(content.to_owned());
    }
    assert(parts.deep_view() =~= display_parts(
        content@,
        attachments.deep_view(),
        reaction.deep_view(),
    ));
    join(&parts, "\n")
}

/// A text with the name of who said it, where one is given.
pub open spec fn attributed(sender: Option<Seq<char>>, content: Seq<char>) -> Seq<char> {
    match sender {
        Some(s) => s + ": "@ + content,
        None => content,
    }
}

/// The message that a model gets: the content, under the sender's name where
/// one is given.
pub fn build_message_for_llm(role: String, content: String, sender: Option<&str>) -> (r: Message)
    ensures
        r.deep_view() == text_message(role@, attributed(sender.deep_view(), content@)),
{
    let text = match sender {
        Some(s) => {
            let mut t = s.to_owned();
            t.append(": ");
            t.append(content.as_str());
            t
        },
        None => content,
    };
    Message { role, content: MessageContent::Text(text) }
}

/// The sender that a model is told of: one in a room, known by its suffix.
pub open spec fn room_sender(sender: Option<Seq<char>>) -> Option<Seq<char>> {
    match sender {
        Some(s) => if has_suffix(s, "@muc"@) {
            Some(s)
        } else {
            None
        },
        None => None,
    }
}

/// The message that a model gets of a stored one; none where there is nothing
/// to show.
pub open spec fn shown(m: StoredView) -> Option<MessageView> {
    let text = display(m.content, m.attachments, m.reaction);
    if text.len() == 0 {
        None
    } else {
        Some(text_message(m.role, attributed(room_sender(m.sender), text)))
    }
}

/// The messages that a model gets of the lines of a session: headers, lines
/// that are no entry and messages with nothing to show are passed over.
pub open spec fn messages_of(lines: Seq<LineView>) -> Seq<MessageView>
    decreases lines.len(),
{
    if lines.len() == 0 {
        Seq::empty()
    } else {
        let rest = messages_of(lines.drop_last());
        match lines.last() {
            LineView::Entry(EntryView::Message(m)) => match shown(m) {
                Some(message) => rest.push(message),
                None => rest,
            },
            _ => rest,
        }
    }
}

/// The messages that a model gets of the lines of a session.
pub fn parse_session(lines: &Vec<SessionLine>) -> (r: Vec<Message>)
    ensures
        r.deep_view() == messages_of(lines.deep_view()),
{
    let mut messages: Vec<Message> = Vec::new();
    let ghost all = lines.deep_view();
    let mut i: usize = 0;
    while i < lines.len()
        invariant
            all == lines.deep_view(),
            0 <= i <= lines@.len(),
            messages.deep_view() == messages_of(all.take(i as int)),
        decreases lines@.len() - i,
    {
        let ghost so_far = messages.deep_view();
        assert(all.take(i + 1).drop_last() == all.take(i as int));
        assert(all[i as int] == lines@[i as int].deep_view());
        match &lines[i] {
            SessionLine::Entry(
                SessionEntry::Message { role, content, sender, attachments, reaction, .. },
            ) => {
                let text = build_display_content(content.as_str(), attachments, reaction);
                if !text.as_str().is_empty() {
                    let in_room = match sender {
                        Some(s) => if ends_with(s.as_str(), "@muc") {
                            Some(s.as_str())
                        } else {
                            None
                        },
                        None => None,
                    };
                    messages.push(build_message_for_llm(role.clone(), text, in_room));
                    assert(messages.deep_view() =~= so_far.push(
                        text_message(
                            role@,
                            attributed(
                                room_sender(sender.deep_view()),
                                display(
                                    content@,
                                    attachments.deep_view(),
                                    reaction.deep_view(),
                                ),
                            ),
                        ),
                    ));
                }
            },
            _ => {},
        }
        i = i + 1;
    }
    assert(all.take(all.len() as int) == all);
    messages
}

/// The lines of a file that say something: split at line feeds, without white
/// space at their ends, blank ones left out.
pub open spec fn text_lines(content: Seq<char>) -> Seq<Seq<char>> {
    nonblank_trimmed(split(content, '\n'))
}

/// The parts that are not blank, without white space at their ends.
pub open spec fn nonblank_trimmed(parts: Seq<Seq<char>>) -> Seq<Seq<char>>
    decreases parts.len(),
{
    if parts.len() == 0 {
        Seq::empty()
    } else {
        let rest = nonblank_trimmed(parts.drop_last());
        if is_blank(parts.last()) {
            rest
        } else {
            rest.push(trimmed(parts.last()))
        }
    }
}

/// The lines of a file that say something.
pub fn session_lines(content: &str) -> (r: Vec<String>)
    ensures
        r.deep_view() == text_lines(content@),
{
    let parts = split_at_char(content, '\n');
    let ghost all = parts.deep_view();
    let mut out: Vec<String> = Vec::new();
    let mut i: usize = 0;
    while i < parts.len()
        invariant
            all == parts.deep_view(),
            0 <= i <= parts@.len(),
            out.deep_view() == nonblank_trimmed(all.take(i as int)),
        decreases parts@.len() - i,
    {
        let ghost so_far = out.deep_view();
        assert(all.take(i + 1).drop_last() == all.take(i as int));
        let line = trim(parts[i].as_str());
        if !line.as_str().is_empty() {
            out.push(line);
            assert(out.deep_view() =~= so_far.push(trimmed(all[i as int])));
        }
        i = i + 1;
    }
    assert(all.take(all.len() as int) == all);
    out
}

// ---- laws --------------------------------------------------------------

/// The messages of two runs of lines are the messages of the first and then
/// those of the second.
pub proof fn messages_of_concat(a: Seq<LineView>, b: Seq<LineView>)
    ensures
        messages_of(a + b) == messages_of(a) + messages_of(b),
    decreases b.len(),
{
    if b.len() == 0 {
        assert(a + b == a);
        assert(messages_of(a) + messages_of(b) =~= messages_of(a));
    } else {
        messages_of_concat(a, b.drop_last());
        assert((a + b).drop_last() =~= a + b.drop_last());
        assert((a + b).last() == b.last());
        assert(messages_of(a + b) =~= messages_of(a) + messages_of(b));
    }
}

/// Message ids and times are for the agent alone: they change nothing in what
/// a model gets to see.
pub proof fn runtime_metadata_is_not_shown(a: StoredView, b: StoredView)
    requires
        a.role == b.role,
        a.content == b.content,
        a.sender == b.sender,
        a.attachments == b.attachments,
        a.reaction == b.reaction,
    ensures
        shown(a) == shown(b),
{
}

/// A plain text by someone outside a room is shown word for word.
pub proof fn plain_text_is_shown_unchanged(m: StoredView)
    requires
        m.content.len() > 0,
        m.attachments is None,
        m.reaction is None,
        room_sender(m.sender) is None,
    ensures
        shown(m) == Some(text_message(m.role, m.content)),
{
    assert(display_parts(m.content, m.attachments, m.reaction) =~= seq![m.content]);
}

/// A plain text by someone in a room is shown under their name.
pub proof fn room_text_is_shown_with_its_sender(m: StoredView, nick: Seq<char>)
    requires
        m.content.len() > 0,
        m.attachments is None,
        m.reaction is None,
        m.sender == Some(nick + "@muc"@),
    ensures
        shown(m) == Some(text_message(m.role, nick + "@muc"@ + ": "@ + m.content)),
{
    assert(display_parts(m.content, m.attachments, m.reaction) =~= seq![m.content]);
    let label = nick + "@muc"@;
    assert(label.subrange(nick.len() as int, label.len() as int) =~= "@muc"@);
    assert(has_suffix(label, "@muc"@));
}

/// A message is shown as its reaction, its files and its text, in this order,
/// a line for each that is there.
pub proof fn parts_are_shown_in_order(
    content: Seq<char>,
    files: Seq<AttachmentView>,
    reaction: StoredReactionView,
)
    requires
        content.len() > 0,
        files.len() > 0,
    ensures
        ({
            let told = joined(files.map_values(|x: AttachmentView| attachment_json(x)), "\n"@);
            &&& display(content, None, None) == content
            &&& display(content, Some(files), None) == told + "\n"@ + content
            &&& display(Seq::empty(), Some(files), None) == told
            &&& display(content, None, Some(reaction)) == reaction_json(reaction) + "\n"@ + content
            &&& display(Seq::empty(), None, Some(reaction)) == reaction_json(reaction)
            &&& display(content, Some(files), Some(reaction)) == reaction_json(reaction) + "\n"@
                + told + "\n"@ + content
            &&& display(Seq::empty(), None, None).len() == 0
        }),
{
    let none = Seq::<Seq<char>>::empty();
    let first = seq![reaction_json(reaction)];
    let second = files.map_values(|x: AttachmentView| attachment_json(x));
    let third = seq![content];
    let nothing = Seq::<char>::empty();
    assert(display_parts(content, None, None) =~= third);
    assert(display_parts(content, Some(files), None) =~= second + third);
    assert(display_parts(nothing, Some(files), None) =~= second);
    assert(display_parts(content, None, Some(reaction)) =~= first + third);
    assert(display_parts(nothing, None, Some(reaction)) =~= first);
    assert(display_parts(content, Some(files), Some(reaction)) =~= first + second + third);
    assert(display_parts(nothing, None, None) =~= none);
    joining_keeps_the_order(first, third, "\n"@);
    joining_keeps_the_order(third, third, "\n"@);
    joining_keeps_the_order(second, third, "\n"@);
    joining_keeps_the_order(first, second, "\n"@);
    joining_keeps_the_order(first + second, third, "\n"@);
}

/// A file is told by its name, its type and its size, and a reaction by the
/// message that it is about and by each of its emojis.
pub proof fn files_and_reactions_are_told(
    a: AttachmentView,
    r: StoredReactionView,
    emoji: Seq<char>,
)
    ensures
        attachment_json(a) == "{\"filename\":"@ + json_string(a.filename) + ",\"mime_type\":"@
            + json_string(a.mime_type) + ",\"size\":"@ + json_string(a.size) + "}"@,
        r.emojis.len() == 0 ==> reaction_json(r) == "{\"message_id\":"@ + json_string(r.message_id)
            + ",\"emojis\":["@ + "]}"@,
        r.emojis == seq![emoji] ==> reaction_json(r) == "{\"message_id\":"@ + json_string(
            r.message_id,
        ) + ",\"emojis\":["@ + json_string(emoji) + "]}"@,
{
    let told = r.emojis.map_values(|e: Seq<char>| json_string(e));
    joining_keeps_the_order(told, told, ","@);
    let head = "{\"message_id\":"@ + json_string(r.message_id) + ",\"emojis\":["@;
    if r.emojis.len() == 0 {
        assert(joined(told, ","@) =~= Seq::empty());
        assert(head + Seq::<char>::empty() =~= head);
    }
}

/// The emojis of a reaction are told in their order.
pub proof fn emojis_are_told_in_order(id: Seq<char>, a: Seq<Seq<char>>, b: Seq<Seq<char>>)
    requires
        a.len() > 0 && b.len() > 0,
    ensures
        ({
            let told = |emojis: Seq<Seq<char>>|
                reaction_json(StoredReactionView { message_id: id, emojis });
            let head = "{\"message_id\":"@ + json_string(id) + ",\"emojis\":["@;
            let list = |emojis: Seq<Seq<char>>|
                joined(emojis.map_values(|e: Seq<char>| json_string(e)), ","@);
            told(a + b) == head + list(a) + ","@ + list(b) + "]}"@
        }),
{
    let list = |emojis: Seq<Seq<char>>| emojis.map_values(|e: Seq<char>| json_string(e));
    assert(list(a + b) =~= list(a) + list(b));
    joining_keeps_the_order(list(a), list(b), ","@);
    let head = "{\"message_id\":"@ + json_string(id) + ",\"emojis\":["@;
    let la = joined(list(a), ","@);
    let lb = joined(list(b), ","@);
    assert(head + (la + ","@ + lb) + "]}"@ =~= head + la + ","@ + lb + "]}"@);
}

/// Of the lines of a session, a stored message that has anything to show gives
/// one message, under its role, and no other line gives any.
pub proof fn lines_are_shown_one_by_one(line: LineView, m: StoredView)
    ensures
        line == LineView::Entry(EntryView::Message(m)) && m.content.len() > 0 && m.attachments
            is None && m.reaction is None ==> {
            &&& messages_of(seq![line]).len() == 1
            &&& messages_of(seq![line])[0].role == m.role
            &&& m.sender is None ==> messages_of(seq![line])[0].content == ContentView::Text(
                m.content,
            )
        },
        line == LineView::Entry(EntryView::Message(m)) && m.content.len() == 0 && m.attachments
            is None && m.reaction is None ==> messages_of(seq![line]).len() == 0,
        line matches LineView::Unreadable(_) ==> messages_of(seq![line]).len() == 0,
        line matches LineView::Entry(EntryView::Header { .. }) ==> messages_of(seq![line]).len()
            == 0,
{
    assert(seq![line].drop_last() =~= Seq::empty());
    assert(messages_of(seq![line].drop_last()).len() == 0);
    if m.attachments is None && m.reaction is None {
        if m.content.len() > 0 {
            assert(display_parts(m.content, m.attachments, m.reaction) =~= seq![m.content]);
        } else {
            assert(display_parts(m.content, m.attachments, m.reaction) =~= Seq::empty());
        }
    }
}

/// Only people in a room are named before what they say.
pub proof fn only_people_in_rooms_are_named(nick: Seq<char>, sender: Seq<char>, text: Seq<char>)
    ensures
        attributed(room_sender(Some(nick + "@muc"@)), text) == nick + "@muc"@ + ": "@ + text,
        !has_suffix(sender, "@muc"@) ==> attributed(room_sender(Some(sender)), text) == text,
        attributed(room_sender(None), text) == text,
{
    what_is_held_stands_inside(nick, "@muc"@, nick, nick);
}

/// The lines of a file that say anything are read in their order, each once and
/// without the white space around it.
pub proof fn lines_are_read_in_order(a: Seq<Seq<char>>, b: Seq<Seq<char>>, line: Seq<char>)
    ensures
        nonblank_trimmed(a + b) == nonblank_trimmed(a) + nonblank_trimmed(b),
        nonblank_trimmed(seq![line]) == if is_blank(line) {
            Seq::empty()
        } else {
            seq![trimmed(line)]
        },
    decreases b.len(),
{
    assert(seq![line].drop_last() =~= Seq::empty());
    assert(nonblank_trimmed(seq![line].drop_last()).len() == 0);
    assert(nonblank_trimmed(seq![line]) =~= if is_blank(line) {
        Seq::empty()
    } else {
        seq![trimmed(line)]
    });
    if b.len() > 0 {
        assert((a + b).drop_last() =~= a + b.drop_last());
        lines_are_read_in_order(a, b.drop_last(), line);
        assert(nonblank_trimmed(a + b) =~= nonblank_trimmed(a) + nonblank_trimmed(b));
    } else {
        assert(a + b =~= a);
        assert(nonblank_trimmed(b).len() == 0);
        assert(nonblank_trimmed(a) + nonblank_trimmed(b) =~= nonblank_trimmed(a));
    }
}

/// A file is read line by line: what stands before a line break is read before
/// what stands behind it.
pub proof fn files_are_read_line_by_line(head: Seq<char>, tail: Seq<char>)
    requires
        !head.contains('\n'),
    ensures
        text_lines(head + seq!['\n'] + tail) == (if is_blank(head) {
            Seq::empty()
        } else {
            seq![trimmed(head)]
        }) + text_lines(tail),
{
    texts_come_apart(head, '\n', tail);
    lines_are_read_in_order(seq![head], split(tail, '\n'), head);
}

} // verus!
