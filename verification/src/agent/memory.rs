//! The memory store: what the agent keeps of each conversation partner and of
//! itself, as the contents of its directory.

use super::entries::{
    messages_of, own_text, parse_session, shown, Attachment, AttachmentView, EntryView, LineView,
    Reaction, SessionEntry, SessionLine, StoredReactionView, StoredView,
};
use crate::clock::{is_compact_time, is_rfc3339, lemma_compact_time, now_compact, now_rfc3339};
use crate::llm::types::{Message, MessageView};
use crate::text::{
    begins_with, blank, chars_of, contains, decimal, has_prefix, has_suffix, has_text, is_blank,
    join, joined, last_index_below, lower_case_adds_up, lowercase, number, same, starts_with_char,
    string_of, to_lower, what_is_held_stands_inside,
};
use crate::text_map::{deep_insert, deep_remove, TextMap};
use crate::time::{Duration, NANOS_PER_SEC};
use vstd::prelude::*;
use vstd::string::*;
use vstd::utf8::is_ascii_chars;

verus! {

/// A piece of knowledge under its key.
#[derive(Debug)]
pub struct KnowledgeEntry {
    pub key: String,
    pub content: String,
    pub ts: String,
}

/// A line of a knowledge file: an entry, or text that is none.
#[derive(Debug)]
pub enum KnowledgeLine {
    Entry(KnowledgeEntry),
    Unreadable(String),
}

/// The texts that a system prompt is made of.
#[derive(Debug)]
pub struct WorkspaceContext {
    pub instructions: Option<String>,
    pub identity: Option<String>,
    pub personality: Option<String>,
    pub user_profile: Option<String>,
    pub user_memory: Option<String>,
}

/// The directory of a conversation partner.
pub struct UserDir {
    /// The text files, by name.
    pub texts: TextMap<String>,
    /// The lines of the current session, where there is one.
    pub history: Option<Vec<SessionLine>>,
    /// The lines of the knowledge file, where there is one.
    pub knowledge: Option<Vec<KnowledgeLine>>,
    /// The archived sessions, by file name.
    pub archives: TextMap<Vec<SessionLine>>,
    /// The names of the downloaded files, where there is a place for them.
    pub files: Option<Vec<String>>,
}

/// The memory store.
pub struct Memory {
    pub base_path: String,
    /// The text files that hold for everyone, by name.
    pub global: TextMap<String>,
    /// The directories, by JID.
    pub users: TextMap<UserDir>,
}

/// The model of [`KnowledgeEntry`].
pub ghost struct KnowledgeView {
    pub key: Seq<char>,
    pub content: Seq<char>,
    pub ts: Seq<char>,
}

/// The model of [`KnowledgeLine`].
pub ghost enum KnowledgeLineView {
    Entry(KnowledgeView),
    Unreadable(Seq<char>),
}

/// The model of [`WorkspaceContext`].
pub ghost struct WorkspaceView {
    pub instructions: Option<Seq<char>>,
    pub identity: Option<Seq<char>>,
    pub personality: Option<Seq<char>>,
    pub user_profile: Option<Seq<char>>,
    pub user_memory: Option<Seq<char>>,
}

/// The model of [`UserDir`].
pub ghost struct UserView {
    pub texts: Map<Seq<char>, Seq<char>>,
    pub history: Option<Seq<LineView>>,
    pub knowledge: Option<Seq<KnowledgeLineView>>,
    pub archives: Map<Seq<char>, Seq<LineView>>,
    pub files: Option<Seq<Seq<char>>>,
}

/// The model of [`Memory`].
pub ghost struct MemoryView {
    pub base_path: Seq<char>,
    pub global: Map<Seq<char>, Seq<char>>,
    pub users: Map<Seq<char>, UserView>,
}

impl DeepView for KnowledgeEntry {
    type V = KnowledgeView;

    open spec fn deep_view(&self) -> KnowledgeView {
        KnowledgeView { key: self.key@, content: self.content@, ts: self.ts@ }
    }
}

impl DeepView for KnowledgeLine {
    type V = KnowledgeLineView;

    open spec fn deep_view(&self) -> KnowledgeLineView {
        match self {
            KnowledgeLine::Entry(e) => KnowledgeLineView::Entry(e.deep_view()),
            KnowledgeLine::Unreadable(s) => KnowledgeLineView::Unreadable(s@),
        }
    }
}

impl DeepView for WorkspaceContext {
    type V = WorkspaceView;

    open spec fn deep_view(&self) -> WorkspaceView {
        WorkspaceView {
            instructions: self.instructions.deep_view(),
            identity: self.identity.deep_view(),
            personality: self.personality.deep_view(),
            user_profile: self.user_profile.deep_view(),
            user_memory: self.user_memory.deep_view(),
        }
    }
}

impl DeepView for UserDir {
    type V = UserView;

    open spec fn deep_view(&self) -> UserView {
        UserView {
            texts: self.texts.deep_view(),
            history: self.history.deep_view(),
            knowledge: self.knowledge.deep_view(),
            archives: self.archives.deep_view(),
            files: self.files.deep_view(),
        }
    }
}

impl DeepView for Memory {
    type V = MemoryView;

    open spec fn deep_view(&self) -> MemoryView {
        MemoryView {
            base_path: self.base_path@,
            global: self.global.deep_view(),
            users: self.users.deep_view(),
        }
    }
}

// ---- the model ---------------------------------------------------------

/// The directory with nothing in it.
pub open spec fn empty_user() -> UserView {
    UserView {
        texts: Map::empty(),
        history: None,
        knowledge: None,
        archives: Map::empty(),
        files: None,
    }
}

/// A text unless it is blank.
pub open spec fn unless_blank(t: Seq<char>) -> Option<Seq<char>> {
    if is_blank(t) {
        None
    } else {
        Some(t)
    }
}

/// The knowledge entries among the lines, in order.
pub open spec fn entries_of(lines: Seq<KnowledgeLineView>) -> Seq<KnowledgeView>
    decreases lines.len(),
{
    if lines.len() == 0 {
        Seq::empty()
    } else {
        let rest = entries_of(lines.drop_last());
        match lines.last() {
            KnowledgeLineView::Entry(e) => rest.push(e),
            _ => rest,
        }
    }
}

/// The first place at or behind `i` of an entry with this key.
pub open spec fn key_index_from(entries: Seq<KnowledgeView>, key: Seq<char>, i: int) -> Option<int>
    decreases entries.len() - i,
{
    if i >= entries.len() {
        None
    } else if entries[i].key == key {
        Some(i)
    } else {
        key_index_from(entries, key, i + 1)
    }
}

/// Entries as the lines of a file.
pub open spec fn as_lines(entries: Seq<KnowledgeView>) -> Seq<KnowledgeLineView> {
    entries.map_values(|e: KnowledgeView| KnowledgeLineView::Entry(e))
}

/// Whether an entry is about a query, in letters of either case.
pub open spec fn about(e: KnowledgeView, query: Seq<char>) -> bool {
    has_text(lowercase(e.key), lowercase(query)) || has_text(lowercase(e.content), lowercase(query))
}

/// The entries that a query finds; an empty query finds all.
pub open spec fn found(entries: Seq<KnowledgeView>, query: Seq<char>) -> Seq<KnowledgeView>
    decreases entries.len(),
{
    if entries.len() == 0 {
        Seq::empty()
    } else {
        let rest = found(entries.drop_last(), query);
        if query.len() == 0 || about(entries.last(), query) {
            rest.push(entries.last())
        } else {
            rest
        }
    }
}

/// The list of entries, numbered from one.
pub open spec fn numbered_list(entries: Seq<KnowledgeView>) -> Seq<char>
    decreases entries.len(),
{
    if entries.len() == 0 {
        Seq::empty()
    } else {
        numbered_list(entries.drop_last()) + (decimal(entries.len()) + ". ["@ + entries.last().key
            + "] "@ + entries.last().content + "\n"@)
    }
}

/// The answer to a query.
pub open spec fn search_text(entries: Seq<KnowledgeView>, query: Seq<char>) -> Seq<char> {
    let hits = found(entries, query);
    if entries.len() == 0 {
        "No knowledge entries stored yet."@
    } else if hits.len() == 0 {
        "No knowledge entries found matching: "@ + query
    } else {
        "Found "@ + decimal(hits.len()) + " knowledge entries:\n"@ + numbered_list(hits)
    }
}

/// The extension of a file name: what stands behind its last dot, unless that
/// is its first character.
pub open spec fn extension(name: Seq<char>) -> Option<Seq<char>> {
    match last_index_below(name, '.', name.len() as int) {
        Some(i) => if i > 0 {
            Some(name.skip(i + 1))
        } else {
            None
        },
        None => None,
    }
}

/// Whether a file name is that of an archived session.
pub open spec fn is_session_name(name: Seq<char>) -> bool {
    extension(name) == Some("jsonl"@) || extension(name) == Some("md"@)
}

impl UserView {
    /// The text file with this name, unless it is blank.
    pub open spec fn text(self, name: Seq<char>) -> Option<Seq<char>> {
        if self.texts.contains_key(name) {
            unless_blank(self.texts[name])
        } else {
            None
        }
    }

    /// The profile: `user.md` where that file is there, else `context.md`; a
    /// blank one counts as none.
    pub open spec fn profile(self) -> Option<Seq<char>> {
        if self.texts.contains_key("user.md"@) {
            unless_blank(self.texts["user.md"@])
        } else {
            self.text("context.md"@)
        }
    }

    /// The messages of the current session.
    pub open spec fn messages(self) -> Seq<MessageView> {
        match self.history {
            Some(lines) => messages_of(lines),
            None => Seq::empty(),
        }
    }

    /// The knowledge entries.
    pub open spec fn entries(self) -> Seq<KnowledgeView> {
        match self.knowledge {
            Some(lines) => entries_of(lines),
            None => Seq::empty(),
        }
    }

    /// The directory with one message more, behind a header where it is the
    /// first line of the session.
    pub open spec fn with_message(
        self,
        jid: Seq<char>,
        message: StoredView,
        created: Seq<char>,
    ) -> UserView {
        let lines = match self.history {
            Some(l) => l,
            None => seq![LineView::Entry(EntryView::Header { version: 1, created, jid })],
        };
        UserView { history: Some(lines.push(LineView::Entry(EntryView::Message(message)))), ..self }
    }

    /// The directory with the current session moved to the archive.
    pub open spec fn with_archived(self, name: Seq<char>) -> UserView {
        match self.history {
            Some(lines) => UserView {
                history: None,
                archives: self.archives.insert(name, lines),
                ..self
            },
            None => self,
        }
    }

    /// The directory with a piece of knowledge put under its key: in the place
    /// of the first entry with that key, or as a new last line.
    pub open spec fn with_knowledge(self, e: KnowledgeView) -> UserView {
        let entries = self.entries();
        let lines = match self.knowledge {
            Some(l) => l,
            None => Seq::empty(),
        };
        UserView {
            knowledge: Some(
                match key_index_from(entries, e.key, 0) {
                    Some(i) => as_lines(entries.update(i, e)),
                    None => lines.push(KnowledgeLineView::Entry(e)),
                },
            ),
            ..self
        }
    }

    /// The number of downloaded files.
    pub open spec fn file_count(self) -> nat {
        match self.files {
            Some(f) => f.len(),
            None => 0,
        }
    }

    /// The directory with all active memory erased: the session, the profile,
    /// the long-term notes, the knowledge and the downloaded files.
    pub open spec fn forgotten(self) -> UserView {
        UserView {
            texts: self.texts.remove("history.md"@).remove("user.md"@).remove(
                "context.md"@,
            ).remove("memory.md"@),
            history: None,
            knowledge: None,
            archives: self.archives,
            files: if self.file_count() > 0 {
                None
            } else {
                self.files
            },
        }
    }

    /// What there is to erase, in words.
    pub open spec fn erased_parts(self) -> Seq<Seq<char>> {
        let a = match self.history {
            Some(lines) => seq![decimal(messages_of(lines).len()) + " messages"@],
            None => if self.texts.contains_key("history.md"@) {
                seq!["legacy history"@]
            } else {
                Seq::empty()
            },
        };
        let b = if self.texts.contains_key("user.md"@) {
            seq!["user profile"@]
        } else if self.texts.contains_key("context.md"@) {
            seq!["context"@]
        } else {
            Seq::empty()
        };
        let c = if self.texts.contains_key("memory.md"@) {
            seq!["memory"@]
        } else {
            Seq::empty()
        };
        let d = match self.knowledge {
            Some(lines) => seq![decimal(entries_of(lines).len()) + " knowledge entries"@],
            None => Seq::empty(),
        };
        let e = if self.file_count() > 0 {
            seq![decimal(self.file_count()) + " files"@]
        } else {
            Seq::empty()
        };
        a + b + c + d + e
    }
}

impl MemoryView {
    /// The directory of a JID, empty where there is none.
    pub open spec fn user(self, jid: Seq<char>) -> UserView {
        if self.users.contains_key(jid) {
            self.users[jid]
        } else {
            empty_user()
        }
    }

    /// The store with another directory for a JID.
    pub open spec fn with_user(self, jid: Seq<char>, user: UserView) -> MemoryView {
        MemoryView { users: self.users.insert(jid, user), ..self }
    }

    /// The global file with this name, unless it is blank.
    pub open spec fn global_text(self, name: Seq<char>) -> Option<Seq<char>> {
        if self.global.contains_key(name) {
            unless_blank(self.global[name])
        } else {
            None
        }
    }

    /// The workspace file with this name: that of the JID, unless it is
    /// missing or blank, else the global one.
    pub open spec fn workspace_text(self, jid: Seq<char>, name: Seq<char>) -> Option<Seq<char>> {
        match self.user(jid).text(name) {
            Some(t) => Some(t),
            None => self.global_text(name),
        }
    }

    /// The texts that the system prompt for a JID is made of.
    pub open spec fn workspace(self, jid: Seq<char>) -> WorkspaceView {
        WorkspaceView {
            instructions: self.workspace_text(jid, "instructions.md"@),
            identity: self.workspace_text(jid, "identity.md"@),
            personality: self.workspace_text(jid, "personality.md"@),
            user_profile: self.user(jid).profile(),
            user_memory: self.user(jid).text("memory.md"@),
        }
    }

    /// The last `limit` messages of the current session.
    pub open spec fn recent(self, jid: Seq<char>, limit: nat) -> Seq<MessageView> {
        let all = self.user(jid).messages();
        if all.len() <= limit {
            all
        } else {
            all.skip(all.len() - limit)
        }
    }

    /// The store after `/new`: the session archived where it holds a message.
    pub open spec fn after_new_session(self, jid: Seq<char>, timestamp: Seq<char>) -> MemoryView {
        let user = self.user(jid);
        self.with_user(
            jid,
            if user.messages().len() > 0 {
                user.with_archived(timestamp + ".jsonl"@)
            } else {
                user
            },
        )
    }

    /// What is said after `/new`.
    pub open spec fn new_session_text(self, jid: Seq<char>) -> Seq<char> {
        let user = self.user(jid);
        if user.history is None {
            "No active session to archive."@
        } else if user.messages().len() == 0 {
            "Session is already empty."@
        } else {
            "Session archived ("@ + decimal(user.messages().len())
                + " messages). Starting fresh."@
        }
    }

    /// The store after `/forget`.
    pub open spec fn after_forget(self, jid: Seq<char>) -> MemoryView {
        if self.users.contains_key(jid) {
            self.with_user(jid, self.users[jid].forgotten())
        } else {
            self
        }
    }

    /// What is said after `/forget`.
    pub open spec fn forget_text(self, jid: Seq<char>) -> Seq<char> {
        if !self.users.contains_key(jid) {
            "No memory to erase."@
        } else if self.users[jid].erased_parts().len() == 0 {
            "No active memory to erase (archived sessions preserved)."@
        } else {
            "Erased: "@ + joined(self.users[jid].erased_parts(), ", "@)
                + ". Archived sessions preserved."@
        }
    }
}

/// The message that is stored: an empty list of attachments counts as none.
pub open spec fn stored(
    role: Seq<char>,
    content: Seq<char>,
    msg_id: Option<Seq<char>>,
    sender: Option<Seq<char>>,
    ts: Seq<char>,
    attachments: Option<Seq<AttachmentView>>,
    reaction: Option<StoredReactionView>,
) -> StoredView {
    StoredView {
        role,
        content,
        msg_id,
        sender,
        ts: Some(ts),
        attachments: match attachments {
            Some(a) => if a.len() == 0 {
                None
            } else {
                Some(a)
            },
            None => None,
        },
        reaction,
    }
}

/// Whether the second store is the first with a message stored at some time.
pub open spec fn message_stored(
    before: MemoryView,
    after: MemoryView,
    jid: Seq<char>,
    role: Seq<char>,
    content: Seq<char>,
    msg_id: Option<Seq<char>>,
    sender: Option<Seq<char>>,
    attachments: Option<Seq<AttachmentView>>,
    reaction: Option<StoredReactionView>,
) -> bool {
    exists|created: Seq<char>, ts: Seq<char>|
        is_rfc3339(created) && is_rfc3339(ts) && after == before.with_user(
            jid,
            #[trigger] before.user(jid).with_message(
                jid,
                stored(role, content, msg_id, sender, ts, attachments, reaction),
                created,
            ),
        )
}

/// The sender of a message: none unless a user wrote it.
pub open spec fn sender_for(role: Seq<char>, label: Option<Seq<char>>) -> Option<Seq<char>> {
    if role == "user"@ {
        label
    } else {
        None
    }
}

// ---- the store ---------------------------------------------------------

fn keep_unless_blank(t: &String) -> (r: Option<String>)
    ensures
        r.deep_view() == unless_blank(t@),
{
    if blank(t.as_str()) {
        None
    } else {
        Some(t.clone())
    }
}

impl UserDir {
    /// The directory with nothing in it.
    pub fn new() -> (r: Self)
        ensures
            r.deep_view() == empty_user(),
    {
        let r = UserDir {
            texts: TextMap::new(),
            history: None,
            knowledge: None,
            archives: TextMap::new(),
            files: None,
        };
        assert(r.texts.deep_view() =~= Map::empty());
        assert(r.archives.deep_view() =~= Map::empty());
        r
    }

    fn text(&self, name: &str) -> (r: Option<String>)
        ensures
            r.deep_view() == self.deep_view().text(name@),
    {
        match self.texts.get(name) {
            Some(t) => keep_unless_blank(t),
            None => None,
        }
    }

    fn profile(&self) -> (r: Option<String>)
        ensures
            r.deep_view() == self.deep_view().profile(),
    {
        match self.texts.get("user.md") {
            Some(t) => keep_unless_blank(t),
            None => self.text("context.md"),
        }
    }

    fn messages(&self) -> (r: Vec<Message>)
        ensures
            r.deep_view() == self.deep_view().messages(),
    {
        match &self.history {
            Some(lines) => parse_session(lines),
            None => {
                let none: Vec<Message> = Vec::new();
                assert(none.deep_view() =~= Seq::empty());
                none
            },
        }
    }

    fn entries(&self) -> (r: Vec<KnowledgeEntry>)
        ensures
            r.deep_view() == self.deep_view().entries(),
    {
        let mut out: Vec<KnowledgeEntry> = Vec::new();
        assert(out.deep_view() =~= Seq::empty());
        if let Some(lines) = &self.knowledge {
            let ghost all = lines.deep_view();
            let mut i: usize = 0;
            while i < lines.len()
                invariant
                    all == lines.deep_view(),
                    0 <= i <= lines@.len(),
                    out.deep_view() == entries_of(all.take(i as int)),
                decreases lines@.len() - i,
            {
                let ghost so_far = out.deep_view();
                assert(all.take(i + 1).drop_last() == all.take(i as int));
                assert(all[i as int] == lines@[i as int].deep_view());
                match &lines[i] {
                    KnowledgeLine::Entry(e) => {
                        out.push(
                            KnowledgeEntry {
                                key: e.key.clone(),
                                content: e.content.clone(),
                                ts: e.ts.clone(),
                            },
                        );
                        assert(out.deep_view() =~= so_far.push(e.deep_view()));
                    },
                    KnowledgeLine::Unreadable(_) => {},
                }
                i = i + 1;
            }
            assert(all.take(all.len() as int) == all);
        }
        out
    }

    fn file_count(&self) -> (n: usize)
        ensures
            n == self.deep_view().file_count(),
    {
        match &self.files {
            Some(f) => f.len(),
            None => 0,
        }
    }

    fn set_text(&mut self, name: &str, content: &str)
        ensures
            final(self).deep_view() == (UserView {
                texts: old(self).deep_view().texts.insert(name@, content@),
                ..old(self).deep_view()
            }),
    {
        let text = content.to_owned();
        proof {
            deep_insert(self.texts@, name@, text);
        }
        self.texts.insert(name.to_owned(), text);
    }

    fn drop_text(&mut self, name: &str) -> (r: bool)
        ensures
            r == old(self).deep_view().texts.contains_key(name@),
            final(self).deep_view() == (UserView {
                texts: old(self).deep_view().texts.remove(name@),
                ..old(self).deep_view()
            }),
    {
        proof {
            deep_remove(self.texts@, name@);
        }
        self.texts.remove(name).is_some()
    }
}

impl Memory {
    /// The store with nothing in it.
    pub fn open(base_path: String) -> (r: Self)
        ensures
            r.deep_view() == (MemoryView {
                base_path: base_path@,
                global: Map::empty(),
                users: Map::empty(),
            }),
    {
        let r = Memory { base_path, global: TextMap::new(), users: TextMap::new() };
        assert(r.global.deep_view() =~= Map::empty());
        assert(r.users.deep_view() =~= Map::empty());
        r
    }

    /// Where the store is.
    pub fn base_path(&self) -> (r: &str)
        ensures
            r@ == self.deep_view().base_path,
    {
        self.base_path.as_str()
    }

    fn take_user(&mut self, jid: &str) -> (r: UserDir)
        ensures
            r.deep_view() == old(self).deep_view().user(jid@),
            final(self).deep_view() == (MemoryView {
                users: old(self).deep_view().users.remove(jid@),
                ..old(self).deep_view()
            }),
    {
        proof {
            deep_remove(self.users@, jid@);
        }
        match self.users.remove(jid) {
            Some(u) => u,
            None => UserDir::new(),
        }
    }

    fn put_user(&mut self, jid: &str, user: UserDir)
        ensures
            final(self).deep_view() == old(self).deep_view().with_user(jid@, user.deep_view()),
    {
        proof {
            deep_insert(self.users@, jid@, user);
        }
        self.users.insert(jid.to_owned(), user);
    }

    /// The global file with this name, unless it is missing or blank.
    pub fn get_global_file(&self, filename: &str) -> (r: Option<String>)
        ensures
            r.deep_view() == self.deep_view().global_text(filename@),
    {
        match self.global.get(filename) {
            Some(t) => keep_unless_blank(t),
            None => None,
        }
    }

    /// Puts a global file in its place.
    pub fn set_global_file(&mut self, filename: &str, content: &str)
        ensures
            final(self).deep_view() == (MemoryView {
                global: old(self).deep_view().global.insert(filename@, content@),
                ..old(self).deep_view()
            }),
    {
        let text = content.to_owned();
        proof {
            deep_insert(self.global@, filename@, text);
        }
        self.global.insert(filename.to_owned(), text);
    }

    /// Puts a text file into the directory of a JID.
    pub fn set_user_file(&mut self, jid: &str, filename: &str, content: &str)
        ensures
            final(self).deep_view() == old(self).deep_view().with_user(
                jid@,
                (UserView {
                    texts: old(self).deep_view().user(jid@).texts.insert(filename@, content@),
                    ..old(self).deep_view().user(jid@)
                }),
            ),
    {
        let ghost before = self.deep_view();
        let mut user = self.take_user(jid);
        user.set_text(filename, content);
        self.put_user(jid, user);
        assert(before.users.remove(jid@).insert(jid@, user.deep_view()) =~= before.users.insert(
            jid@,
            user.deep_view(),
        ));
    }

    /// The workspace file for a JID: its own, else the global one.
    pub fn get_workspace_file(&self, jid: &str, filename: &str) -> (r: Option<String>)
        ensures
            r.deep_view() == self.deep_view().workspace_text(jid@, filename@),
    {
        if let Some(user) = self.users.get(jid) {
            if let Some(t) = user.text(filename) {
                return Some(t);
            }
        }
        self.get_global_file(filename)
    }

    /// The texts that the system prompt for a JID is made of.
    pub fn get_workspace_context(&self, jid: &str) -> (r: WorkspaceContext)
        ensures
            r.deep_view() == self.deep_view().workspace(jid@),
    {
        WorkspaceContext {
            instructions: self.get_workspace_file(jid, "instructions.md"),
            identity: self.get_workspace_file(jid, "identity.md"),
            personality: self.get_workspace_file(jid, "personality.md"),
            user_profile: self.get_user_profile(jid),
            user_memory: self.get_user_memory(jid),
        }
    }

    /// The profile of a user.
    pub fn get_user_profile(&self, jid: &str) -> (r: Option<String>)
        ensures
            r.deep_view() == self.deep_view().user(jid@).profile(),
    {
        match self.users.get(jid) {
            Some(user) => user.profile(),
            None => None,
        }
    }

    /// Writes the profile of a user.
    pub fn set_user_profile(&mut self, jid: &str, content: &str)
        ensures
            final(self).deep_view() == old(self).deep_view().with_user(
                jid@,
                (UserView {
                    texts: old(self).deep_view().user(jid@).texts.insert("user.md"@, content@),
                    ..old(self).deep_view().user(jid@)
                }),
            ),
    {
        self.set_user_file(jid, "user.md", content)
    }

    /// Whether there is a profile of a user.
    pub fn has_user_profile(&self, jid: &str) -> (r: bool)
        ensures
            r == (self.deep_view().user(jid@).profile() is Some),
    {
        self.get_user_profile(jid).is_some()
    }

    /// The long-term notes on a user.
    pub fn get_user_memory(&self, jid: &str) -> (r: Option<String>)
        ensures
            r.deep_view() == self.deep_view().user(jid@).text("memory.md"@),
    {
        match self.users.get(jid) {
            Some(user) => user.text("memory.md"),
            None => None,
        }
    }

    /// Writes the long-term notes on a user.
    pub fn set_user_memory(&mut self, jid: &str, content: &str)
        ensures
            final(self).deep_view() == old(self).deep_view().with_user(
                jid@,
                (UserView {
                    texts: old(self).deep_view().user(jid@).texts.insert("memory.md"@, content@),
                    ..old(self).deep_view().user(jid@)
                }),
            ),
    {
        self.set_user_file(jid, "memory.md", content)
    }

    /// Writes the profile of a user, under its former name.
    pub fn set_user_context(&mut self, jid: &str, context: &str)
        ensures
            final(self).deep_view() == old(self).deep_view().with_user(
                jid@,
                (UserView {
                    texts: old(self).deep_view().user(jid@).texts.insert("user.md"@, context@),
                    ..old(self).deep_view().user(jid@)
                }),
            ),
    {
        self.set_user_profile(jid, context)
    }

    /// The profile of a user, under its former name.
    pub fn get_user_context(&self, jid: &str) -> (r: Option<String>)
        ensures
            r.deep_view() == self.deep_view().user(jid@).profile(),
    {
        self.get_user_profile(jid)
    }
}

impl Memory {
    /// Stores a message at the given times.
    #[allow(clippy::too_many_arguments)]
    pub fn store_message_at(
        &mut self,
        jid: &str,
        role: &str,
        content: &str,
        msg_id: Option<&str>,
        sender: Option<&str>,
        attachments: Option<Vec<Attachment>>,
        reaction: Option<Reaction>,
        created: String,
        ts: String,
    )
        ensures
            final(self).deep_view() == old(self).deep_view().with_user(
                jid@,
                old(self).deep_view().user(jid@).with_message(
                    jid@,
                    stored(
                        role@,
                        content@,
                        msg_id.deep_view(),
                        sender.deep_view(),
                        ts@,
                        attachments.deep_view(),
                        reaction.deep_view(),
                    ),
                    created@,
                ),
            ),
    {
        let ghost before = self.deep_view();
        let ghost given = attachments.deep_view();
        let ghost now = ts@;
        let mut user = self.take_user(jid);
        let ghost dir = user.deep_view();
        let mut lines: Vec<SessionLine> = match user.history.take() {
            Some(l) => l,
            None => {
                let mut fresh: Vec<SessionLine> = Vec::new();
                let ghost start = created@;
                fresh.push(
                    SessionLine::Entry(
                        SessionEntry::Header { version: 1, created, jid: jid.to_owned() },
                    ),
                );
                assert(fresh.deep_view() =~= seq![
                    LineView::Entry(
                        EntryView::Header { version: 1, created: start, jid: jid@ },
                    ),
                ]);
                fresh
            },
        };
        let ghost head = lines.deep_view();
        let kept = match attachments {
            Some(a) => if a.len() == 0 {
                None
            } else {
                Some(a)
            },
            None => None,
        };
        let ghost message = stored(
            role@,
            content@,
            msg_id.deep_view(),
            sender.deep_view(),
            ts@,
            given,
            reaction.deep_view(),
        );
        lines.push(
            SessionLine::Entry(
                SessionEntry::Message {
                    role: role.to_owned(),
                    content: content.to_owned(),
                    msg_id: own_text(msg_id),
                    sender: own_text(sender),
                    ts: Some(ts),
                    attachments: kept,
                    reaction,
                },
            ),
        );
        assert(lines@[head.len() as int].deep_view() == LineView::Entry(
            EntryView::Message(message),
        ));
        assert(lines.deep_view() =~= head.push(LineView::Entry(EntryView::Message(message))));
        user.history = Some(lines);
        self.put_user(jid, user);
        assert(before.users.remove(jid@).insert(jid@, user.deep_view()) =~= before.users.insert(
            jid@,
            user.deep_view(),
        ));
    }

    /// Stores a message now, behind a session header where it is the first.
    #[allow(clippy::too_many_arguments)]
    pub fn store_message_full(
        &mut self,
        jid: &str,
        role: &str,
        content: &str,
        msg_id: Option<&str>,
        sender: Option<&str>,
        attachments: Option<Vec<Attachment>>,
        reaction: Option<Reaction>,
    )
        ensures
            message_stored(
                old(self).deep_view(),
                final(self).deep_view(),
                jid@,
                role@,
                content@,
                msg_id.deep_view(),
                sender.deep_view(),
                attachments.deep_view(),
                reaction.deep_view(),
            ),
    {
        let created = now_rfc3339();
        let ts = now_rfc3339();
        self.store_message_at(
            jid,
            role,
            content,
            msg_id,
            sender,
            attachments,
            reaction,
            created,
            ts,
        );
    }

    /// Stores a message without attachments and reaction, now.
    pub fn store_message_structured(
        &mut self,
        jid: &str,
        role: &str,
        content: &str,
        msg_id: Option<&str>,
        sender: Option<&str>,
    )
        ensures
            message_stored(
                old(self).deep_view(),
                final(self).deep_view(),
                jid@,
                role@,
                content@,
                msg_id.deep_view(),
                sender.deep_view(),
                None,
                None,
            ),
    {
        self.store_message_full(jid, role, content, msg_id, sender, None, None)
    }

    /// Stores a message under a sender of its own, where it is a user's.
    pub fn store_message_with_jid(
        &mut self,
        jid: &str,
        role: &str,
        content: &str,
        sender_label: Option<&str>,
    )
        ensures
            message_stored(
                old(self).deep_view(),
                final(self).deep_view(),
                jid@,
                role@,
                content@,
                None,
                sender_for(role@, sender_label.deep_view()),
                None,
                None,
            ),
    {
        let sender = if same(role, "user") {
            sender_label
        } else {
            None
        };
        self.store_message_structured(jid, role, content, None, sender)
    }

    /// Stores a message under the JID as its sender, where it is a user's.
    pub fn store_message(&mut self, jid: &str, role: &str, content: &str)
        ensures
            message_stored(
                old(self).deep_view(),
                final(self).deep_view(),
                jid@,
                role@,
                content@,
                None,
                sender_for(role@, Some(jid@)),
                None,
                None,
            ),
    {
        let sender = if same(role, "user") {
            Some(jid)
        } else {
            None
        };
        self.store_message_structured(jid, role, content, None, sender)
    }

    /// The last `limit` messages of the current session.
    pub fn get_history(&self, jid: &str, limit: usize) -> (r: Vec<Message>)
        ensures
            r.deep_view() == self.deep_view().recent(jid@, limit as nat),
    {
        let all = match self.users.get(jid) {
            Some(user) => user.messages(),
            None => {
                let none: Vec<Message> = Vec::new();
                assert(none.deep_view() =~= Seq::empty());
                none
            },
        };
        let ghost whole = all.deep_view();
        if all.len() <= limit {
            all
        } else {
            let mut all = all;
            let start: usize = all.len() - limit;
            let tail = all.split_off(start);
            assert(tail.deep_view() =~= whole.skip(start as int));
            tail
        }
    }

    /// How many messages the current session holds.
    pub fn message_count(&self, jid: &str) -> (n: usize)
        ensures
            n == self.deep_view().user(jid@).messages().len(),
    {
        match self.users.get(jid) {
            Some(user) => {
                let messages = user.messages();
                assert(messages.deep_view().len() == messages@.len());
                messages.len()
            },
            None => 0,
        }
    }

    /// Archives the current session under a time.
    pub fn new_session_at(&mut self, jid: &str, timestamp: &str) -> (r: String)
        ensures
            r@ == old(self).deep_view().new_session_text(jid@),
            final(self).deep_view() == old(self).deep_view().after_new_session(
                jid@,
                timestamp@,
            ),
    {
        let ghost before = self.deep_view();
        let mut user = self.take_user(jid);
        let ghost dir = user.deep_view();
        let messages = user.messages();
        assert(messages.deep_view().len() == messages@.len());
        let text = if user.history.is_none() {
            "No active session to archive.".to_owned()
        } else if messages.len() == 0 {
            "Session is already empty.".to_owned()
        } else {
            let mut s = "Session archived (".to_owned();
            s.append(number(messages.len() as u64).as_str());
            s.append(" messages). Starting fresh.");
            s
        };
        if messages.len() > 0 {
            if let Some(lines) = user.history.take() {
                let mut name = timestamp.to_owned();
                name.append(".jsonl");
                proof {
                    deep_insert(user.archives@, name@, lines);
                }
                user.archives.insert(name, lines);
            }
        }
        self.put_user(jid, user);
        assert(before.users.remove(jid@).insert(jid@, user.deep_view()) =~= before.users.insert(
            jid@,
            user.deep_view(),
        ));
        text
    }

    /// Archives the current session now.
    pub fn new_session(&mut self, jid: &str) -> (r: String)
        ensures
            r@ == old(self).deep_view().new_session_text(jid@),
            exists|timestamp: Seq<char>|
                is_compact_time(timestamp) && final(self).deep_view() == #[trigger] old(
                    self,
                ).deep_view().after_new_session(jid@, timestamp),
    {
        let timestamp = now_compact();
        self.new_session_at(jid, timestamp.as_str())
    }

    /// Whether the current session has been idle for longer than it may.
    pub open spec fn is_stale(
        memory: MemoryView,
        jid: Seq<char>,
        idle_timeout_mins: u64,
        idle: Duration,
    ) -> bool {
        &&& idle_timeout_mins > 0
        &&& memory.user(jid).history is Some
        &&& idle.nanos > idle_timeout_mins * 60 * NANOS_PER_SEC
    }

    /// Archives the current session where it has been idle for longer than it
    /// may and holds a message, and says whether it did; a timeout of zero
    /// switches this off.
    pub fn check_session_freshness(&mut self, jid: &str, idle_timeout_mins: u64, idle: Duration)
        -> (r: bool)
        requires
            idle_timeout_mins * 60 <= u64::MAX,
        ensures
            r == (Memory::is_stale(old(self).deep_view(), jid@, idle_timeout_mins, idle) && old(
                self,
            ).deep_view().user(jid@).messages().len() > 0),
            if r {
                exists|timestamp: Seq<char>|
                    is_compact_time(timestamp) && final(self).deep_view() == #[trigger] old(
                        self,
                    ).deep_view().after_new_session(jid@, timestamp)
            } else {
                final(self).deep_view() == old(self).deep_view()
            },
    {
        if idle_timeout_mins == 0 {
            return false;
        }
        if self.message_count(jid) == 0 {
            return false;
        }
        let timeout = Duration::from_secs(idle_timeout_mins * 60);
        if idle.nanos > timeout.nanos {
            let _ = self.new_session(jid);
            true
        } else {
            false
        }
    }
}

/// The names of the archived sessions.
pub open spec fn session_names(archives: Map<Seq<char>, Seq<LineView>>) -> Set<Seq<char>> {
    archives.dom().filter(|n: Seq<char>| is_session_name(n))
}

fn is_session_file(name: &str) -> (r: bool)
    ensures
        r == is_session_name(name@),
{
    let v = chars_of(name);
    let mut n: usize = v.len();
    while n > 0 && v[n - 1] != '.'
        invariant
            v@ == name@,
            0 <= n <= v@.len(),
            last_index_below(name@, '.', name@.len() as int) == last_index_below(
                name@,
                '.',
                n as int,
            ),
        decreases n,
    {
        n = n - 1;
    }
    if n <= 1 {
        return false;
    }
    let ext = string_of(&v, n, v.len());
    assert(ext@ == name@.skip(n as int));
    same(ext.as_str(), "jsonl") || same(ext.as_str(), "md")
}

/// The path of something below another path: with one slash between them, or
/// by itself where it starts at the root.
pub open spec fn path_below(base: Seq<char>, part: Seq<char>) -> Seq<char> {
    if begins_with(part, '/') {
        part
    } else if base.len() == 0 || base.last() == '/' {
        base + part
    } else {
        base + "/"@ + part
    }
}

fn join_path(base: &str, part: &str) -> (r: String)
    ensures
        r@ == path_below(base@, part@),
{
    if starts_with_char(part, '/') {
        return part.to_owned();
    }
    let v = chars_of(base);
    let mut path = base.to_owned();
    if v.len() > 0 && v[v.len() - 1] != '/' {
        path.append("/");
    }
    path.append(part);
    path
}

impl Memory {
    /// Makes a place for downloaded files, in the directory of the JID, and
    /// says where it is.
    pub fn files_dir(&mut self, jid: &str) -> (r: String)
        ensures
            r@ == path_below(path_below(old(self).deep_view().base_path, jid@), "files"@),
            final(self).deep_view() == old(self).deep_view().with_user(
                jid@,
                (UserView {
                    files: match old(self).deep_view().user(jid@).files {
                        Some(f) => Some(f),
                        None => Some(Seq::empty()),
                    },
                    ..old(self).deep_view().user(jid@)
                }),
            ),
    {
        let ghost before = self.deep_view();
        let mut user = self.take_user(jid);
        if user.files.is_none() {
            let none: Vec<String> = Vec::new();
            assert(none.deep_view() =~= Seq::empty());
            user.files = Some(none);
        }
        self.put_user(jid, user);
        assert(before.users.remove(jid@).insert(jid@, user.deep_view()) =~= before.users.insert(
            jid@,
            user.deep_view(),
        ));
        join_path(join_path(self.base_path.as_str(), jid).as_str(), "files")
    }

    /// How many downloaded files there are for a JID.
    pub fn file_count(&self, jid: &str) -> (n: usize)
        ensures
            n == self.deep_view().user(jid@).file_count(),
    {
        match self.users.get(jid) {
            Some(user) => user.file_count(),
            None => 0,
        }
    }

    /// How many archived sessions there are for a JID.
    pub fn session_count(&self, jid: &str) -> (n: usize)
        ensures
            n == session_names(self.deep_view().user(jid@).archives).len(),
    {
        match self.users.get(jid) {
            Some(user) => {
                let names = user.archives.keys();
                let ghost all = names.deep_view();
                let ghost p = |n: Seq<char>| is_session_name(n);
                assert(user.archives.deep_view().dom() =~= user.archives@.dom());
                let mut n: usize = 0;
                let mut i: usize = 0;
                assert(all.take(0).to_set().filter(p) =~= Set::empty());
                while i < names.len()
                    invariant
                        all == names.deep_view(),
                        all.no_duplicates(),
                        p == (|n: Seq<char>| is_session_name(n)),
                        0 <= i <= names@.len(),
                        n <= i,
                        n == all.take(i as int).to_set().filter(p).len(),
                        all.take(i as int).to_set().filter(p).finite(),
                    decreases names@.len() - i,
                {
                    let ghost so_far = all.take(i as int).to_set();
                    let ghost name = all[i as int];
                    proof {
                        assert(all.take(i + 1) =~= all.take(i as int).push(name));
                        assert(all.take(i + 1).to_set() =~= so_far.insert(name)) by {
                            assert forall|x: Seq<char>| so_far.insert(name).contains(
                                x,
                            ) implies all.take(i + 1).to_set().contains(x) by {
                                if x == name {
                                    assert(all.take(i + 1)[i as int] == x);
                                } else {
                                    let j = choose|j: int|
                                        0 <= j < all.take(i as int).len() && all.take(
                                            i as int,
                                        )[j] == x;
                                    assert(all.take(i + 1)[j] == x);
                                }
                            }
                        }
                        assert(!so_far.contains(name));
                    }
                    if is_session_file(names[i].as_str()) {
                        assert(all.take(i + 1).to_set().filter(p) =~= so_far.filter(p).insert(
                            name,
                        ));
                        n = n + 1;
                    } else {
                        assert(all.take(i + 1).to_set().filter(p) =~= so_far.filter(p));
                    }
                    i = i + 1;
                }
                assert(all.take(all.len() as int) == all);
                n
            },
            None => {
                assert(session_names(empty_user().archives) =~= Set::empty());
                0
            },
        }
    }

    /// Erases all active memory of a JID; archived sessions stay.
    pub fn forget(&mut self, jid: &str) -> (r: String)
        ensures
            r@ == old(self).deep_view().forget_text(jid@),
            final(self).deep_view() == old(self).deep_view().after_forget(jid@),
    {
        if !self.users.contains_key(jid) {
            return "No memory to erase.".to_owned();
        }
        let ghost before = self.deep_view();
        let mut user = self.take_user(jid);
        let ghost dir = user.deep_view();
        let mut erased: Vec<String> = Vec::new();
        let legacy = user.drop_text("history.md");
        match user.history.take() {
            Some(lines) => {
                let messages = parse_session(&lines);
                assert(messages.deep_view().len() == messages@.len());
                let mut s = number(messages.len() as u64);
                s.append(" messages");
                erased.push(s);
            },
            None => {
                if legacy {
                    erased.push("legacy history".to_owned());
                }
            },
        }
        let ghost a = erased.deep_view();
        assert(a =~= match dir.history {
            Some(lines) => seq![decimal(messages_of(lines).len()) + " messages"@],
            None => if dir.texts.contains_key("history.md"@) {
                seq!["legacy history"@]
            } else {
                Seq::empty()
            },
        });
        proof {
            distinct_names();
        }
        let had_profile = user.drop_text("user.md");
        let had_context = user.drop_text("context.md");
        if had_profile {
            erased.push("user profile".to_owned());
        } else if had_context {
            erased.push("context".to_owned());
        }
        let ghost b = erased.deep_view();
        assert(b =~= a + (if dir.texts.contains_key("user.md"@) {
            seq!["user profile"@]
        } else if dir.texts.contains_key("context.md"@) {
            seq!["context"@]
        } else {
            Seq::empty()
        }));
        if user.drop_text("memory.md") {
            erased.push("memory".to_owned());
        }
        let ghost c = erased.deep_view();
        assert(c =~= b + (if dir.texts.contains_key("memory.md"@) {
            seq!["memory"@]
        } else {
            Seq::empty()
        }));
        let entries = user.entries();
        assert(entries.deep_view().len() == entries@.len());
        if user.knowledge.is_some() {
            user.knowledge = None;
            let mut s = number(entries.len() as u64);
            s.append(" knowledge entries");
            erased.push(s);
        }
        let ghost d = erased.deep_view();
        assert(d =~= c + match dir.knowledge {
            Some(lines) => seq![decimal(entries_of(lines).len()) + " knowledge entries"@],
            None => Seq::empty(),
        });
        let file_count: usize = user.file_count();
        if file_count > 0 {
            user.files = None;
            let mut s = number(file_count as u64);
            s.append(" files");
            erased.push(s);
        }
        assert(erased.deep_view() =~= d + (if dir.file_count() > 0 {
            seq![decimal(dir.file_count()) + " files"@]
        } else {
            Seq::empty()
        }));
        assert(erased.deep_view() =~= dir.erased_parts());
        assert(user.deep_view() == dir.forgotten());
        self.put_user(jid, user);
        assert(before.users.remove(jid@).insert(jid@, user.deep_view()) =~= before.users.insert(
            jid@,
            user.deep_view(),
        ));
        assert(erased.deep_view().len() == erased@.len());
        if erased.len() == 0 {
            "No active memory to erase (archived sessions preserved).".to_owned()
        } else {
            let mut s = "Erased: ".to_owned();
            s.append(join(&erased, ", ").as_str());
            s.append(". Archived sessions preserved.");
            s
        }
    }
}

proof fn distinct_names()
    ensures
        "history.md"@ != "user.md"@,
        "history.md"@ != "context.md"@,
        "history.md"@ != "memory.md"@,
        "user.md"@ != "context.md"@,
        "user.md"@ != "memory.md"@,
        "context.md"@ != "memory.md"@,
{
    reveal_strlit("history.md");
    reveal_strlit("user.md");
    reveal_strlit("context.md");
    reveal_strlit("memory.md");
    assert("history.md"@[0] == 'h');
    assert("context.md"@[0] == 'c');
    assert("memory.md"@[0] == 'm');
    assert("user.md"@[0] == 'u');
}

fn key_position(entries: &Vec<KnowledgeEntry>, key: &str) -> (r: Option<usize>)
    ensures
        match r {
            Some(i) => key_index_from(entries.deep_view(), key@, 0) == Some(i as int) && i
                < entries@.len(),
            None => key_index_from(entries.deep_view(), key@, 0) is None,
        },
{
    let mut i: usize = 0;
    while i < entries.len()
        invariant
            0 <= i <= entries@.len(),
            key_index_from(entries.deep_view(), key@, 0) == key_index_from(
                entries.deep_view(),
                key@,
                i as int,
            ),
        decreases entries@.len() - i,
    {
        assert(entries.deep_view()[i as int].key == entries@[i as int].key@);
        if same(entries[i].key.as_str(), key) {
            return Some(i);
        }
        i = i + 1;
    }
    None
}

impl Memory {
    /// Stores a piece of knowledge at the given time.
    pub fn knowledge_store_at(&mut self, jid: &str, key: &str, content: &str, ts: String)
        ensures
            final(self).deep_view() == old(self).deep_view().with_user(
                jid@,
                old(self).deep_view().user(jid@).with_knowledge(
                    KnowledgeView { key: key@, content: content@, ts: ts@ },
                ),
            ),
    {
        let ghost before = self.deep_view();
        let mut user = self.take_user(jid);
        let ghost dir = user.deep_view();
        let ghost e = KnowledgeView { key: key@, content: content@, ts: ts@ };
        let entries = user.entries();
        let at = key_position(&entries, key);
        let new_entry = KnowledgeEntry { key: key.to_owned(), content: content.to_owned(), ts };
        match at {
            Some(pos) => {
                let mut lines: Vec<KnowledgeLine> = Vec::new();
                let ghost all = entries.deep_view().update(pos as int, e);
                let mut i: usize = 0;
                while i < entries.len()
                    invariant
                        all == entries.deep_view().update(pos as int, e),
                        new_entry.deep_view() == e,
                        0 <= pos < entries@.len(),
                        0 <= i <= entries@.len(),
                        lines.deep_view() == as_lines(all).take(i as int),
                    decreases entries@.len() - i,
                {
                    let ghost so_far = lines.deep_view();
                    let source: &KnowledgeEntry = if i == pos {
                        &new_entry
                    } else {
                        &entries[i]
                    };
                    assert(source.deep_view() == all[i as int]);
                    lines.push(
                        KnowledgeLine::Entry(
                            KnowledgeEntry {
                                key: source.key.clone(),
                                content: source.content.clone(),
                                ts: source.ts.clone(),
                            },
                        ),
                    );
                    assert(lines.deep_view() =~= so_far.push(
                        KnowledgeLineView::Entry(all[i as int]),
                    ));
                    assert(lines.deep_view() =~= as_lines(all).take(i + 1));
                    i = i + 1;
                }
                assert(as_lines(all).take(all.len() as int) =~= as_lines(all));
                user.knowledge = Some(lines);
            },
            None => {
                let mut lines: Vec<KnowledgeLine> = match user.knowledge.take() {
                    Some(l) => l,
                    None => {
                        let none: Vec<KnowledgeLine> = Vec::new();
                        assert(none.deep_view() =~= Seq::empty());
                        none
                    },
                };
                let ghost so_far = lines.deep_view();
                lines.push(KnowledgeLine::Entry(new_entry));
                assert(lines.deep_view() =~= so_far.push(KnowledgeLineView::Entry(e)));
                user.knowledge = Some(lines);
            },
        }
        assert(user.deep_view() == dir.with_knowledge(e));
        self.put_user(jid, user);
        assert(before.users.remove(jid@).insert(jid@, user.deep_view()) =~= before.users.insert(
            jid@,
            user.deep_view(),
        ));
    }

    /// Stores a piece of knowledge now.
    pub fn knowledge_store(&mut self, jid: &str, key: &str, content: &str)
        ensures
            exists|ts: Seq<char>|
                is_rfc3339(ts) && final(self).deep_view() == old(self).deep_view().with_user(
                    jid@,
                    #[trigger] old(self).deep_view().user(jid@).with_knowledge(
                        KnowledgeView { key: key@, content: content@, ts },
                    ),
                ),
    {
        let ts = now_rfc3339();
        self.knowledge_store_at(jid, key, content, ts)
    }

    fn load_knowledge(&self, jid: &str) -> (r: Vec<KnowledgeEntry>)
        ensures
            r.deep_view() == self.deep_view().user(jid@).entries(),
    {
        match self.users.get(jid) {
            Some(user) => user.entries(),
            None => {
                let none: Vec<KnowledgeEntry> = Vec::new();
                assert(none.deep_view() =~= Seq::empty());
                none
            },
        }
    }

    /// The knowledge under a key.
    pub fn knowledge_get(&self, jid: &str, key: &str) -> (r: Option<String>)
        ensures
            r.deep_view() == self.deep_view().user(jid@).knowledge_under(key@),
    {
        let entries = self.load_knowledge(jid);
        match key_position(&entries, key) {
            Some(i) => {
                assert(entries.deep_view()[i as int].content == entries@[i as int].content@);
                Some(entries[i].content.clone())
            },
            None => None,
        }
    }

    /// The answer to a query over keys and contents.
    pub fn knowledge_search(&self, jid: &str, query: &str) -> (r: String)
        ensures
            r@ == search_text(self.deep_view().user(jid@).entries(), query@),
    {
        let entries = self.load_knowledge(jid);
        let ghost all = entries.deep_view();
        assert(all.len() == entries@.len());
        if entries.len() == 0 {
            return "No knowledge entries stored yet.".to_owned();
        }
        let query_lower = to_lower(query);
        let mut list = String::new();
        let mut n: u64 = 0;
        let mut i: usize = 0;
        while i < entries.len()
            invariant
                all == entries.deep_view(),
                query_lower@ == lowercase(query@),
                0 <= i <= entries@.len(),
                n <= i,
                n == found(all.take(i as int), query@).len(),
                list@ == numbered_list(found(all.take(i as int), query@)),
            decreases entries@.len() - i,
        {
            let ghost hits = found(all.take(i as int), query@);
            assert(all.take(i + 1).drop_last() == all.take(i as int));
            let e = &entries[i];
            assert(all[i as int] == e.deep_view());
            let hit = query.is_empty() || contains(
                to_lower(e.key.as_str()).as_str(),
                query_lower.as_str(),
            ) || contains(to_lower(e.content.as_str()).as_str(), query_lower.as_str());
            if hit {
                n = n + 1;
                let mut line = number(n);
                line.append(". [");
                line.append(e.key.as_str());
                line.append("] ");
                line.append(e.content.as_str());
                line.append("\n");
                list.append(line.as_str());
                let ghost more = found(all.take(i + 1), query@);
                assert(more == hits.push(all[i as int]));
                assert(more.drop_last() == hits);
            }
            i = i + 1;
        }
        assert(all.take(all.len() as int) == all);
        if n == 0 {
            let mut s = "No knowledge entries found matching: ".to_owned();
            s.append(query);
            s
        } else {
            let mut s = "Found ".to_owned();
            s.append(number(n).as_str());
            s.append(" knowledge entries:\n");
            s.append(list.as_str());
            s
        }
    }

    /// How many pieces of knowledge there are for a JID.
    pub fn knowledge_count(&self, jid: &str) -> (n: usize)
        ensures
            n == self.deep_view().user(jid@).entries().len(),
    {
        let entries = self.load_knowledge(jid);
        assert(entries.deep_view().len() == entries@.len());
        entries.len()
    }
}

impl UserView {
    /// The knowledge under a key: that of the first entry with it.
    pub open spec fn knowledge_under(self, key: Seq<char>) -> Option<Seq<char>> {
        match key_index_from(self.entries(), key, 0) {
            Some(i) => Some(self.entries()[i].content),
            None => None,
        }
    }
}

// ---- laws --------------------------------------------------------------

/// What was stored last is what a reader sees last: the newest message of the
/// history is the one just stored, wherever it shows anything.
pub proof fn history_ends_with_what_was_stored(
    memory: MemoryView,
    jid: Seq<char>,
    message: StoredView,
    created: Seq<char>,
    limit: nat,
)
    requires
        limit > 0,
        shown(message) is Some,
    ensures
        ({
            let after = memory.with_user(jid, memory.user(jid).with_message(jid, message, created));
            let messages = after.recent(jid, limit);
            &&& messages.len() > 0
            &&& messages.last() == shown(message)->0
            &&& after.user(jid).messages() == memory.user(jid).messages().push(shown(message)->0)
        }),
{
    let user = memory.user(jid);
    let after = memory.with_user(jid, user.with_message(jid, message, created));
    let lines = after.user(jid).history->0;
    assert(lines.last() == LineView::Entry(EntryView::Message(message)));
    match user.history {
        Some(l) => {
            assert(lines.drop_last() =~= l);
        },
        None => {
            let header = LineView::Entry(EntryView::Header { version: 1, created, jid });
            assert(lines.drop_last() =~= seq![header]);
            assert(seq![header].drop_last() =~= Seq::<LineView>::empty());
            assert(seq![header].last() == header);
            assert(messages_of(Seq::<LineView>::empty()) =~= Seq::<MessageView>::empty());
            assert(messages_of(seq![header]) =~= Seq::<MessageView>::empty());
        },
    }
}

/// A history is never longer than asked for, and it is the end of the session.
pub proof fn history_is_a_tail(memory: MemoryView, jid: Seq<char>, limit: nat)
    ensures
        memory.recent(jid, limit).len() <= limit,
        memory.recent(jid, limit).is_suffix_of(memory.user(jid).messages()),
{
    let all = memory.user(jid).messages();
    if all.len() <= limit {
        assert(all =~= all.subrange(0, all.len() as int));
    } else {
        assert(all.skip(all.len() - limit) =~= all.subrange(
            all.len() - limit,
            all.len() as int,
        ));
    }
}

/// What is done for one JID leaves every other one as it was.
pub proof fn jids_are_isolated(
    memory: MemoryView,
    jid: Seq<char>,
    other: Seq<char>,
    user: UserView,
    limit: nat,
)
    requires
        jid != other,
    ensures
        memory.with_user(jid, user).user(other) == memory.user(other),
        memory.with_user(jid, user).recent(other, limit) == memory.recent(other, limit),
        memory.with_user(jid, user).workspace(other) == memory.workspace(other),
{
}

/// Archiving empties the session and keeps every line of it under the name of
/// its archive.
pub proof fn archiving_loses_nothing(memory: MemoryView, jid: Seq<char>, timestamp: Seq<char>)
    requires
        memory.user(jid).messages().len() > 0,
    ensures
        ({
            let after = memory.after_new_session(jid, timestamp).user(jid);
            let name = timestamp + ".jsonl"@;
            &&& after.history is None
            &&& after.messages().len() == 0
            &&& after.archives.contains_key(name)
            &&& Some(after.archives[name]) == memory.user(jid).history
            &&& after.archives.remove(name) == memory.user(jid).archives.remove(name)
            &&& after.texts == memory.user(jid).texts
            &&& after.knowledge == memory.user(jid).knowledge
        }),
{
    let name = timestamp + ".jsonl"@;
    let after = memory.after_new_session(jid, timestamp).user(jid);
    assert(after.archives.remove(name) =~= memory.user(jid).archives.remove(name));
}

/// An archive under a time is an archived session.
proof fn lemma_archive_name(timestamp: Seq<char>)
    requires
        is_compact_time(timestamp),
    ensures
        is_session_name(timestamp + ".jsonl"@),
{
    reveal_strlit(".jsonl");
    reveal_strlit("jsonl");
    reveal_with_fuel(last_index_below, 8);
    lemma_compact_time(timestamp);
    let name = timestamp + ".jsonl"@;
    assert(name.skip(timestamp.len() as int + 1) =~= "jsonl"@);
}

/// A new session closes the one before it: the answer counts its messages,
/// nothing of it is left to be seen, and there is one archived session more,
/// which holds exactly what the session held. No other archive, text,
/// knowledge or file changes. This is said of a time under which nothing is
/// archived yet.
pub proof fn a_new_session_adds_one_archive(
    memory: MemoryView,
    jid: Seq<char>,
    timestamp: Seq<char>,
    limit: nat,
)
    requires
        memory.user(jid).messages().len() > 0,
        memory.user(jid).archives.dom().finite(),
        is_compact_time(timestamp),
        !memory.user(jid).archives.contains_key(timestamp + ".jsonl"@),
    ensures
        ({
            let before = memory.user(jid);
            let after = memory.after_new_session(jid, timestamp);
            let user = after.user(jid);
            let name = timestamp + ".jsonl"@;
            &&& memory.new_session_text(jid) == "Session archived ("@ + decimal(
                before.messages().len(),
            ) + " messages). Starting fresh."@
            &&& user.messages().len() == 0
            &&& after.recent(jid, limit).len() == 0
            &&& session_names(user.archives).len() == session_names(before.archives).len() + 1
            &&& user.archives == before.archives.insert(name, before.history->0)
            &&& user == UserView { history: None, archives: user.archives, ..before }
        }),
{
    let before = memory.user(jid);
    let user = memory.after_new_session(jid, timestamp).user(jid);
    let name = timestamp + ".jsonl"@;
    lemma_archive_name(timestamp);
    assert(session_names(user.archives) =~= session_names(before.archives).insert(name));
}

/// Archiving where nothing is to be archived changes no file.
pub proof fn archiving_nothing_changes_nothing(
    memory: MemoryView,
    jid: Seq<char>,
    timestamp: Seq<char>,
)
    requires
        memory.user(jid).messages().len() == 0,
    ensures
        memory.after_new_session(jid, timestamp).user(jid) == memory.user(jid),
{
}

/// Forgetting erases all active memory and keeps the archive; forgetting again
/// finds nothing to erase.
pub proof fn forgetting_keeps_the_archive(memory: MemoryView, jid: Seq<char>)
    ensures
        ({
            let after = memory.after_forget(jid);
            let user = after.user(jid);
            &&& user.archives == memory.user(jid).archives
            &&& user.messages().len() == 0
            &&& user.profile() is None
            &&& user.text("memory.md"@) is None
            &&& user.entries().len() == 0
            &&& user.file_count() == 0
            &&& user.erased_parts().len() == 0
            &&& after.after_forget(jid) == after
        }),
{
    distinct_names();
    let after = memory.after_forget(jid);
    if memory.users.contains_key(jid) {
        let user = memory.users[jid];
        assert(user.forgotten().texts =~= user.forgotten().forgotten().texts);
        assert(after.users.insert(jid, after.users[jid].forgotten()) =~= after.users);
        assert(user.forgotten().erased_parts() =~= Seq::empty());
    } else {
        assert(empty_user().erased_parts() =~= Seq::empty());
    }
}

/// What was stored under a key is what is found under it.
pub proof fn knowledge_reads_back(user: UserView, e: KnowledgeView)
    ensures
        user.with_knowledge(e).knowledge_under(e.key) == Some(e.content),
{
    let entries = user.entries();
    lemma_key_index(entries, e.key, 0);
    lemma_with_knowledge(user, e);
    lemma_key_index(user.with_knowledge(e).entries(), e.key, 0);
    match key_index_from(entries, e.key, 0) {
        Some(i) => {
            let after = entries.update(i, e);
            assert(after[i].key == e.key);
        },
        None => {
            assert(entries.push(e)[entries.len() as int].key == e.key);
        },
    }
}

/// Storing under one key leaves what is found under any other.
pub proof fn other_keys_are_unchanged(user: UserView, e: KnowledgeView, key: Seq<char>)
    requires
        key != e.key,
    ensures
        user.with_knowledge(e).knowledge_under(key) == user.knowledge_under(key),
{
    let entries = user.entries();
    let after = user.with_knowledge(e).entries();
    lemma_key_index(entries, e.key, 0);
    lemma_key_index(entries, key, 0);
    lemma_with_knowledge(user, e);
    lemma_key_index(after, key, 0);
    let a = key_index_from(entries, key, 0);
    let b = key_index_from(after, key, 0);
    if a is Some {
        assert(after[a->0] == entries[a->0]);
    }
    if b is Some {
        assert(b->0 < entries.len());
        assert(after[b->0] == entries[b->0]);
    }
}

/// Storing under a known key replaces; only a new key adds an entry.
pub proof fn storing_again_does_not_grow(user: UserView, e: KnowledgeView)
    ensures
        user.with_knowledge(e).entries().len() == user.entries().len() + if user.knowledge_under(
            e.key,
        ) is Some {
            0int
        } else {
            1int
        },
{
    lemma_key_index(user.entries(), e.key, 0);
    lemma_with_knowledge(user, e);
}

/// A profile that says anything is read back as it was written.
pub proof fn profile_reads_back(user: UserView, content: Seq<char>)
    requires
        !is_blank(content),
    ensures
        (UserView { texts: user.texts.insert("user.md"@, content), ..user }).profile() == Some(
            content,
        ),
{
}

/// A file of the JID's own wins over the global one, unless it is blank.
pub proof fn own_files_win(memory: MemoryView, jid: Seq<char>, name: Seq<char>)
    ensures
        memory.user(jid).text(name) is Some ==> memory.workspace_text(jid, name) == memory.user(
            jid,
        ).text(name),
        memory.user(jid).text(name) is None ==> memory.workspace_text(jid, name)
            == memory.global_text(name),
{
}

proof fn lemma_key_index(entries: Seq<KnowledgeView>, key: Seq<char>, i: int)
    requires
        0 <= i,
    ensures
        match key_index_from(entries, key, i) {
            Some(k) => i <= k < entries.len() && entries[k].key == key && forall|j: int|
                i <= j < k ==> #[trigger] entries[j].key != key,
            None => forall|j: int| i <= j < entries.len() ==> #[trigger] entries[j].key != key,
        },
    decreases entries.len() - i,
{
    if i < entries.len() && entries[i].key != key {
        lemma_key_index(entries, key, i + 1);
    }
}

proof fn lemma_entries_of_lines(entries: Seq<KnowledgeView>)
    ensures
        entries_of(as_lines(entries)) == entries,
    decreases entries.len(),
{
    if entries.len() > 0 {
        lemma_entries_of_lines(entries.drop_last());
        assert(as_lines(entries).drop_last() =~= as_lines(entries.drop_last()));
        assert(entries.drop_last().push(entries.last()) =~= entries);
    } else {
        assert(entries_of(as_lines(entries)) =~= entries);
    }
}

proof fn lemma_with_knowledge(user: UserView, e: KnowledgeView)
    ensures
        user.with_knowledge(e).entries() == match key_index_from(user.entries(), e.key, 0) {
            Some(i) => user.entries().update(i, e),
            None => user.entries().push(e),
        },
{
    match key_index_from(user.entries(), e.key, 0) {
        Some(i) => {
            lemma_entries_of_lines(user.entries().update(i, e));
        },
        None => {
            let lines = match user.knowledge {
                Some(l) => l,
                None => Seq::empty(),
            };
            assert(lines.push(KnowledgeLineView::Entry(e)).drop_last() =~= lines);
            assert(entries_of(Seq::empty()) =~= Seq::<KnowledgeView>::empty());
        },
    }
}

/// A search looks at key and content, in letters of either case, and at
/// nothing else: an entry is found exactly where what is looked for stands in
/// one of the two.
pub proof fn searches_look_at_key_and_content(e: KnowledgeView, query: Seq<char>)
    ensures
        found(seq![e], query) == if query.len() == 0 || has_text(
            lowercase(e.key),
            lowercase(query),
        ) || has_text(lowercase(e.content), lowercase(query)) {
            seq![e]
        } else {
            Seq::empty()
        },
{
    let one = seq![e];
    assert(one.drop_last() =~= Seq::empty());
    assert(found(one.drop_last(), query).len() == 0);
    assert(found(one, query) =~= if query.len() == 0 || about(e, query) {
        one
    } else {
        Seq::empty()
    });
}

/// A search goes through the entries in their order: what it finds among two
/// runs of entries is what it finds in the first and then what it finds in the
/// second.
pub proof fn searches_keep_the_order(
    a: Seq<KnowledgeView>,
    b: Seq<KnowledgeView>,
    query: Seq<char>,
)
    ensures
        found(a + b, query) == found(a, query) + found(b, query),
    decreases b.len(),
{
    if b.len() > 0 {
        assert((a + b).drop_last() =~= a + b.drop_last());
        searches_keep_the_order(a, b.drop_last(), query);
        assert(found(a + b, query) =~= found(a, query) + found(b, query));
    } else {
        assert(a + b =~= a);
        assert(found(b, query).len() == 0);
        assert(found(a, query) + found(b, query) =~= found(a, query));
    }
}

/// An entry is found by a word of its key or of its content, however the word
/// is written.
pub proof fn words_find_their_entries(
    entries: Seq<KnowledgeView>,
    i: int,
    head: Seq<char>,
    word: Seq<char>,
    tail: Seq<char>,
    query: Seq<char>,
)
    requires
        0 <= i < entries.len(),
        is_ascii_chars(head) && is_ascii_chars(word) && is_ascii_chars(tail),
        lowercase(query) == lowercase(word),
        entries[i].key == head + word + tail || entries[i].content == head + word + tail,
    ensures
        found(entries, query).contains(entries[i]),
{
    lower_case_adds_up(head, word);
    lower_case_adds_up(head + word, tail);
    what_is_held_stands_inside(lowercase(head), lowercase(word), lowercase(tail), word);
    lemma_hit(entries, i, query);
}

/// A key finds its own entry.
pub proof fn keys_find_their_entries(entries: Seq<KnowledgeView>, i: int)
    requires
        0 <= i < entries.len(),
    ensures
        found(entries, entries[i].key).contains(entries[i]),
{
    let low = lowercase(entries[i].key);
    what_is_held_stands_inside(Seq::empty(), low, Seq::empty(), low);
    assert(Seq::<char>::empty() + low + Seq::empty() =~= low);
    lemma_hit(entries, i, entries[i].key);
}

proof fn lemma_hit(entries: Seq<KnowledgeView>, i: int, query: Seq<char>)
    requires
        0 <= i < entries.len(),
        has_text(lowercase(entries[i].key), lowercase(query)) || has_text(
            lowercase(entries[i].content),
            lowercase(query),
        ),
    ensures
        found(entries, query).contains(entries[i]),
{
    let e = entries[i];
    let before = entries.take(i);
    let after = entries.skip(i + 1);
    assert(entries =~= before + seq![e] + after);
    searches_keep_the_order(before, seq![e], query);
    searches_keep_the_order(before + seq![e], after, query);
    searches_look_at_key_and_content(e, query);
    assert(found(entries, query)[found(before, query).len() as int] == e);
}

/// Every entry that was found is listed under its number, with its key and its
/// content, and behind the ones found before it; and the answer says how many
/// there are.
pub proof fn hits_are_listed_in_order(entries: Seq<KnowledgeView>, query: Seq<char>, i: int)
    requires
        0 <= i < found(entries, query).len(),
    ensures
        ({
            let hits = found(entries, query);
            let said = search_text(entries, query);
            let line = decimal((i + 1) as nat) + ". ["@ + hits[i].key + "] "@ + hits[i].content
                + "\n"@;
            let lines = "Found "@ + decimal(hits.len()) + " knowledge entries:\n"@ + numbered_list(
                hits.take(i),
            ) + line;
            has_prefix(said, lines)
        }),
    decreases entries.len(),
{
    let hits = found(entries, query);
    assert(entries.len() > 0);
    lemma_list_grows(hits, i + 1);
    assert(hits.take(i + 1).drop_last() =~= hits.take(i));
    assert(hits.take(i + 1).last() == hits[i]);
    let head = "Found "@ + decimal(hits.len()) + " knowledge entries:\n"@;
    let line = decimal((i + 1) as nat) + ". ["@ + hits[i].key + "] "@ + hits[i].content + "\n"@;
    let list = numbered_list(hits);
    let some = numbered_list(hits.take(i + 1));
    assert(some == numbered_list(hits.take(i)) + line);
    assert(list =~= some + list.skip(some.len() as int));
    let lines = head + numbered_list(hits.take(i)) + line;
    assert(lines =~= head + some);
    assert(head + list =~= lines + list.skip(some.len() as int));
    what_is_held_stands_inside(head, lines, list.skip(some.len() as int), head);
}

proof fn lemma_list_grows(entries: Seq<KnowledgeView>, n: int)
    requires
        0 <= n <= entries.len(),
    ensures
        numbered_list(entries.take(n)).len() <= numbered_list(entries).len(),
        numbered_list(entries).take(numbered_list(entries.take(n)).len() as int) == numbered_list(
            entries.take(n),
        ),
    decreases entries.len() - n,
{
    if n < entries.len() {
        lemma_list_grows(entries, n + 1);
        assert(entries.take(n + 1).drop_last() =~= entries.take(n));
        let small = numbered_list(entries.take(n));
        let next = numbered_list(entries.take(n + 1));
        let all = numbered_list(entries);
        assert(next.take(small.len() as int) =~= small);
        assert(all.take(small.len() as int) =~= all.take(next.len() as int).take(
            small.len() as int,
        ));
    } else {
        assert(entries.take(n) =~= entries);
        let all = numbered_list(entries);
        assert(all.take(all.len() as int) =~= all);
    }
}

/// A search that finds nothing says what it looked for, and one without any
/// entries says that there are none.
pub proof fn nothing_found_is_said(entries: Seq<KnowledgeView>, query: Seq<char>)
    requires
        found(entries, query).len() == 0,
    ensures
        entries.len() > 0 ==> has_suffix(search_text(entries, query), query),
        entries.len() > 0 ==> query.len() > 0,
        entries.len() == 0 ==> search_text(entries, query) == "No knowledge entries stored yet."@,
{
    what_is_held_stands_inside("No knowledge entries found matching: "@, query, query, query);
    if entries.len() > 0 && query.len() == 0 {
        assert(found(entries, query).last() == entries.last());
    }
}

/// Stored knowledge keeps its place: a known key stays where it is, a new one
/// comes last, and no other entry moves or changes.
pub proof fn knowledge_keeps_its_place(user: UserView, e: KnowledgeView, i: int)
    requires
        0 <= i < user.entries().len(),
        forall|j: int| 0 <= j < i ==> (#[trigger] user.entries()[j]).key != e.key,
    ensures
        ({
            let before = user.entries();
            let after = user.with_knowledge(e).entries();
            &&& before[i].key == e.key ==> after == before.update(i, e)
            &&& before[i].key != e.key && i == before.len() - 1 ==> after == before.push(e)
        }),
{
    lemma_key_index(user.entries(), e.key, 0);
    lemma_with_knowledge(user, e);
}

/// Storing knowledge touches nothing else.
pub proof fn storing_knowledge_touches_nothing_else(user: UserView, e: KnowledgeView)
    ensures
        ({
            let after = user.with_knowledge(e);
            &&& after.texts == user.texts && after.history == user.history
            &&& after.archives == user.archives && after.files == user.files
        }),
{
}

/// Lines that are no entries are passed over, and the entries are read in their
/// order, each once.
pub proof fn entries_are_read_in_order(
    a: Seq<KnowledgeLineView>,
    b: Seq<KnowledgeLineView>,
    line: KnowledgeLineView,
)
    ensures
        entries_of(a + b) == entries_of(a) + entries_of(b),
        entries_of(seq![line]) == match line {
            KnowledgeLineView::Entry(e) => seq![e],
            KnowledgeLineView::Unreadable(_) => Seq::empty(),
        },
    decreases b.len(),
{
    let one = seq![line];
    assert(one.drop_last() =~= Seq::empty());
    assert(entries_of(one.drop_last()).len() == 0);
    assert(entries_of(one) =~= match line {
        KnowledgeLineView::Entry(e) => seq![e],
        KnowledgeLineView::Unreadable(_) => Seq::empty(),
    });
    if b.len() > 0 {
        assert((a + b).drop_last() =~= a + b.drop_last());
        entries_are_read_in_order(a, b.drop_last(), line);
        assert(entries_of(a + b) =~= entries_of(a) + entries_of(b));
    } else {
        assert(a + b =~= a);
        assert(entries_of(b).len() == 0);
        assert(entries_of(a) + entries_of(b) =~= entries_of(a));
    }
}

/// A history holds as many messages as were asked for, or all where there are
/// fewer, and they are the newest in their order.
pub proof fn history_holds_the_newest(memory: MemoryView, jid: Seq<char>, limit: nat, i: int)
    requires
        0 <= i < memory.recent(jid, limit).len(),
    ensures
        ({
            let all = memory.user(jid).messages();
            let recent = memory.recent(jid, limit);
            &&& recent.len() == if all.len() < limit {
                all.len()
            } else {
                limit
            }
            &&& recent[i] == all[all.len() - recent.len() + i]
        }),
{
}

/// A stored message goes behind the others; the first one of a session goes
/// behind a header with the JID, and nothing else is touched.
pub proof fn messages_are_appended(
    user: UserView,
    jid: Seq<char>,
    message: StoredView,
    created: Seq<char>,
)
    ensures
        ({
            let after = user.with_message(jid, message, created);
            let line = LineView::Entry(EntryView::Message(message));
            &&& after.history is Some
            &&& user.history is Some ==> after.history->0 == user.history->0.push(line)
            &&& user.history is None ==> after.history->0 == seq![
                LineView::Entry(EntryView::Header { version: 1, created, jid }),
                line,
            ]
            &&& after.texts == user.texts && after.knowledge == user.knowledge
            &&& after.archives == user.archives && after.files == user.files
        }),
{
}

/// What is stored of a message is what was said of it, with the time; an empty
/// list of files is none.
pub proof fn messages_are_stored_as_said(
    role: Seq<char>,
    content: Seq<char>,
    msg_id: Option<Seq<char>>,
    sender: Option<Seq<char>>,
    ts: Seq<char>,
    files: Seq<AttachmentView>,
    reaction: Option<StoredReactionView>,
)
    ensures
        ({
            let m = stored(role, content, msg_id, sender, ts, Some(files), reaction);
            &&& m.role == role && m.content == content && m.msg_id == msg_id
            &&& m.sender == sender && m.ts == Some(ts) && m.reaction == reaction
            &&& files.len() > 0 ==> m.attachments == Some(files)
            &&& files.len() == 0 ==> m.attachments is None
            &&& stored(role, content, msg_id, sender, ts, None, reaction).attachments is None
        }),
{
}

/// Only what people say is kept under a sender.
pub proof fn only_people_have_a_sender(role: Seq<char>, label: Option<Seq<char>>)
    ensures
        role == "user"@ ==> sender_for(role, label) == label,
        role != "user"@ ==> sender_for(role, label) is None,
{
}

/// A session has gone stale once it has been idle for longer than the
/// configured minutes, and never where none are configured or there is no
/// session.
pub proof fn sessions_go_stale(memory: MemoryView, jid: Seq<char>, mins: u64, idle: Duration)
    ensures
        mins == 0 ==> !Memory::is_stale(memory, jid, mins, idle),
        memory.user(jid).history is None ==> !Memory::is_stale(memory, jid, mins, idle),
        mins > 0 && memory.user(jid).history is Some ==> (Memory::is_stale(memory, jid, mins, idle)
            <==> idle.nanos > mins * 60_000_000_000),
{
}

/// What was written to a file of the workspace is what is read there, unless it
/// is blank: the JID's own file, or else the one for everyone.
pub proof fn workspace_files_are_read(memory: MemoryView, jid: Seq<char>, text: Seq<char>)
    requires
        !is_blank(text),
    ensures
        ({
            let user = memory.user(jid);
            let own = memory.workspace(jid);
            let has = |name: Seq<char>| user.texts.contains_key(name) && user.texts[name] == text;
            let shared = |name: Seq<char>|
                !user.texts.contains_key(name) && memory.global.contains_key(name)
                    && memory.global[name] == text;
            &&& has("instructions.md"@) || shared("instructions.md"@) ==> own.instructions == Some(
                text,
            )
            &&& has("identity.md"@) || shared("identity.md"@) ==> own.identity == Some(text)
            &&& has("personality.md"@) || shared("personality.md"@) ==> own.personality == Some(
                text,
            )
            &&& has("user.md"@) ==> own.user_profile == Some(text)
            &&& has("context.md"@) && !user.texts.contains_key("user.md"@) ==> own.user_profile
                == Some(text)
            &&& has("memory.md"@) ==> own.user_memory == Some(text)
        }),
{
}

/// Files that nobody wrote, or that are blank, read as nothing.
pub proof fn blank_files_read_as_nothing(memory: MemoryView, jid: Seq<char>, name: Seq<char>)
    requires
        memory.user(jid).texts.contains_key(name) ==> is_blank(memory.user(jid).texts[name]),
        memory.global.contains_key(name) ==> is_blank(memory.global[name]),
    ensures
        memory.workspace_text(jid, name) is None,
        memory.user(jid).text(name) is None,
        memory.global_text(name) is None,
{
}

/// Forgetting leaves the texts that are no memory: instructions, identity and
/// personality stay as they were. Nobody else is touched.
pub proof fn forgetting_spares_the_rest(
    memory: MemoryView,
    jid: Seq<char>,
    other: Seq<char>,
    name: Seq<char>,
)
    requires
        jid != other,
        name != "history.md"@ && name != "user.md"@ && name != "context.md"@ && name
            != "memory.md"@,
    ensures
        ({
            let after = memory.after_forget(jid);
            &&& after.user(jid).text(name) == memory.user(jid).text(name)
            &&& after.user(other) == memory.user(other)
            &&& after.global == memory.global
        }),
{
}

/// What forgetting erases is said, and nothing else is: the messages and the
/// knowledge with their number, the profile, the memory and the files.
pub proof fn what_is_erased_is_said(user: UserView)
    ensures
        ({
            let said = user.erased_parts();
            let texts = user.texts;
            &&& user.history is Some ==> said.len() > 0 && said[0] == decimal(user.messages().len())
                + " messages"@
            &&& user.history is None && texts.contains_key("history.md"@) ==> said.len() > 0
                && said[0] == "legacy history"@
            &&& texts.contains_key("user.md"@) ==> said.contains("user profile"@)
            &&& texts.contains_key("context.md"@) && !texts.contains_key("user.md"@)
                ==> said.contains("context"@)
            &&& texts.contains_key("memory.md"@) ==> said.contains("memory"@)
            &&& user.knowledge is Some ==> said.contains(
                decimal(user.entries().len()) + " knowledge entries"@,
            )
            &&& user.files is Some && user.files->0.len() > 0 ==> said.last() == decimal(
                user.files->0.len(),
            ) + " files"@
            &&& user.history is None && user.knowledge is None && user.files is None
                && !texts.contains_key("history.md"@) && !texts.contains_key("user.md"@)
                && !texts.contains_key("context.md"@) && !texts.contains_key("memory.md"@)
                ==> said.len() == 0
        }),
{
    let said = user.erased_parts();
    let a = if user.history is Some || user.texts.contains_key("history.md"@) {
        1int
    } else {
        0int
    };
    let b = if user.texts.contains_key("user.md"@) || user.texts.contains_key("context.md"@) {
        1int
    } else {
        0int
    };
    let c = if user.texts.contains_key("memory.md"@) {
        1int
    } else {
        0int
    };
    if b == 1 {
        assert(said.contains(said[a]));
    }
    if c == 1 {
        assert(said.contains(said[a + b]));
    }
    if user.knowledge is Some {
        assert(said.contains(said[a + b + c]));
    }
}

/// The answer to forgetting holds everything that was erased.
pub proof fn the_answer_to_forgetting(memory: MemoryView, jid: Seq<char>)
    ensures
        !memory.users.contains_key(jid) ==> memory.forget_text(jid) == "No memory to erase."@,
        memory.users.contains_key(jid) && memory.users[jid].erased_parts().len() > 0 ==> has_text(
            memory.forget_text(jid),
            joined(memory.users[jid].erased_parts(), ", "@),
        ),
{
    let parts = memory.users[jid].erased_parts();
    what_is_held_stands_inside(
        "Erased: "@,
        joined(parts, ", "@),
        ". Archived sessions preserved."@,
        parts[0],
    );
}

/// Archived sessions are the files that end in one of two extensions, behind a
/// name; a file without an extension is none.
pub proof fn sessions_have_an_extension(name: Seq<char>)
    ensures
        name.len() > 0 ==> is_session_name(name + ".jsonl"@) && is_session_name(name + ".md"@),
        !name.contains('.') ==> !is_session_name(name),
{
    reveal_strlit(".jsonl");
    reveal_strlit(".md");
    reveal_strlit("jsonl");
    reveal_strlit("md");
    assert(".jsonl"@ =~= seq!['.'] + "jsonl"@);
    assert(".md"@ =~= seq!['.'] + "md"@);
    let a = name + ".jsonl"@;
    let b = name + ".md"@;
    reveal_with_fuel(last_index_below, 7);
    assert(last_index_below(a, '.', a.len() as int) == Some(name.len() as int));
    assert(last_index_below(b, '.', b.len() as int) == Some(name.len() as int));
    assert(a.skip(name.len() as int + 1) =~= "jsonl"@);
    assert(b.skip(name.len() as int + 1) =~= "md"@);
    if !name.contains('.') {
        lemma_no_dot(name, name.len() as int);
    }
}

proof fn lemma_no_dot(name: Seq<char>, n: int)
    requires
        0 <= n <= name.len(),
        !name.contains('.'),
    ensures
        last_index_below(name, '.', n) is None,
    decreases n,
{
    if n > 0 {
        assert(name.contains(name[n - 1]));
        lemma_no_dot(name, n - 1);
    }
}

/// A path below another is the two with one slash between them, and a path from
/// the root is its own.
pub proof fn paths_have_one_slash_between(base: Seq<char>, part: Seq<char>)
    requires
        base.len() > 0 && base.last() != '/',
        part.len() > 0 && part[0] != '/',
    ensures
        path_below(base, part) == base + seq!['/'] + part,
        path_below(base + seq!['/'], part) == base + seq!['/'] + part,
        path_below(base, seq!['/'] + part) == seq!['/'] + part,
{
    reveal_strlit("/");
    assert("/"@ =~= seq!['/']);
}

/// The archived sessions are the files of the archive that are sessions.
pub proof fn archived_sessions_are_counted(
    archives: Map<Seq<char>, Seq<LineView>>,
    name: Seq<char>,
)
    ensures
        session_names(archives).contains(name) <==> archives.contains_key(name) && is_session_name(
            name,
        ),
{
}

} // verus!
