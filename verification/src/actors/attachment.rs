//! Messages with files: what the language model sees of the files, and what is
//! stored of them.

use super::dead_letter::StoreView;
use super::inference::{
    answer_request, asks, prepare, refreshed, InferenceRequest, MAX_HISTORY,
};
use super::memory_actor::MemoryRequest;
use super::message::answer_entry;
use crate::agent::entries::{own_text, Attachment, AttachmentView};
use crate::agent::files::{
    base64_text, file_block, file_to_content_block, size_text, DownloadedFile, FileCategory,
};
use crate::agent::memory::Memory;
use crate::config::Config;
use crate::ids::is_uuid_text;
use crate::llm::types::{
    BlockView, ContentView, InputContentBlock, Message, MessageContent, MessageView, SourceView,
};
use crate::text::{has_text, what_is_held_stands_inside};
use crate::time::Duration;
use crate::xmpp::{bare, bare_jid};
use vstd::prelude::*;
use vstd::string::*;

verus! {

/// What became of one file of a message.
#[derive(Debug)]
pub enum FileOutcome {
    /// It was fetched; its bytes, where they could be read.
    Fetched { file: DownloadedFile, data: Option<Vec<u8>> },
    /// It was not, for this reason.
    Failed(String),
}

/// The model of [`FileOutcome`].
pub ghost enum OutcomeView {
    Fetched {
        filename: Seq<char>,
        mime_type: Seq<char>,
        size: nat,
        category: FileCategory,
        data: Option<Seq<u8>>,
    },
    Failed(Seq<char>),
}

impl DeepView for FileOutcome {
    type V = OutcomeView;

    open spec fn deep_view(&self) -> OutcomeView {
        match self {
            FileOutcome::Fetched { file, data } => OutcomeView::Fetched {
                filename: file.filename@,
                mime_type: file.mime_type@,
                size: file.size as nat,
                category: file.category,
                data: match data {
                    Some(d) => Some(d@),
                    None => None,
                },
            },
            FileOutcome::Failed(e) => OutcomeView::Failed(e@),
        }
    }
}

impl FileOutcome {
    /// Whether the bytes are few enough to be written out as text.
    pub open spec fn fits(self) -> bool {
        match self {
            FileOutcome::Fetched { data: Some(d), .. } => d@.len() / 3 * 4 + 4 <= isize::MAX,
            _ => true,
        }
    }
}

/// What the language model sees of a file: the file itself where it is an
/// image or a document, and a note where it is neither, could not be read or
/// was not fetched.
pub open spec fn seen_of(outcome: OutcomeView) -> BlockView {
    match outcome {
        OutcomeView::Failed(e) => BlockView::Text("[File download failed: "@ + e + "]"@),
        OutcomeView::Fetched { filename, mime_type, category, data, .. } => if category
            == FileCategory::Other {
            BlockView::Text(
                "[File received: "@ + filename + " ("@ + mime_type
                    + ") — unsupported type, cannot analyze]"@,
            )
        } else {
            match data {
                Some(d) => file_block(category, mime_type, d)->0,
                None => BlockView::Text(
                    "[File received: "@ + filename + " — encoding error]"@,
                ),
            }
        },
    }
}

/// What is stored of a file.
pub open spec fn kept_of(outcome: OutcomeView) -> AttachmentView {
    match outcome {
        OutcomeView::Failed(_) => AttachmentView {
            filename: "unknown"@,
            mime_type: "unknown"@,
            size: "download failed"@,
        },
        OutcomeView::Fetched { filename, mime_type, size, .. } => AttachmentView {
            filename,
            mime_type,
            size: size_text(size),
        },
    }
}

/// What the language model sees of a message with files: the files in order,
/// and then the text where there is one.
pub open spec fn blocks_of(outcomes: Seq<OutcomeView>, body: Seq<char>) -> Seq<BlockView> {
    outcomes.map_values(|o: OutcomeView| seen_of(o)) + if body.len() == 0 {
        Seq::empty()
    } else {
        seq![BlockView::Text(body)]
    }
}

/// What is stored of the files of a message.
pub open spec fn kept_files(outcomes: Seq<OutcomeView>) -> Seq<AttachmentView> {
    outcomes.map_values(|o: OutcomeView| kept_of(o))
}

fn block_for(outcome: &FileOutcome) -> (r: InputContentBlock)
    requires
        outcome.fits(),
    ensures
        r.deep_view() == seen_of(outcome.deep_view()),
{
    match outcome {
        FileOutcome::Failed(e) => {
            let mut text = "[File download failed: ".to_owned();
            text.append(e.as_str());
            text.append("]");
            InputContentBlock::Text { text }
        },
        FileOutcome::Fetched { file, data } => {
            if file.category == FileCategory::Other {
                let mut text = "[File received: ".to_owned();
                text.append(file.filename.as_str());
                text.append(" (");
                text.append(file.mime_type.as_str());
                text.append(") — unsupported type, cannot analyze]");
                return InputContentBlock::Text { text };
            }
            if let Some(d) = data {
                if let Some(block) = file_to_content_block(file, d) {
                    return block;
                }
            }
            let mut text = "[File received: ".to_owned();
            text.append(file.filename.as_str());
            text.append(" — encoding error]");
            InputContentBlock::Text { text }
        },
    }
}

fn attachment_for(outcome: &FileOutcome) -> (r: Attachment)
    ensures
        r.deep_view() == kept_of(outcome.deep_view()),
{
    match outcome {
        FileOutcome::Failed(_) => Attachment {
            filename: "unknown".to_owned(),
            mime_type: "unknown".to_owned(),
            size: "download failed".to_owned(),
        },
        FileOutcome::Fetched { file, .. } => Attachment {
            filename: file.filename.clone(),
            mime_type: file.mime_type.clone(),
            size: file.human_size(),
        },
    }
}

/// What the language model sees of a message with files.
pub fn content_blocks(outcomes: &Vec<FileOutcome>, body: &str) -> (r: Vec<InputContentBlock>)
    requires
        forall|i: int| 0 <= i < outcomes@.len() ==> (#[trigger] outcomes@[i]).fits(),
    ensures
        r.deep_view() == blocks_of(outcomes.deep_view(), body@),
{
    let ghost all = outcomes.deep_view();
    let ghost wanted = all.map_values(|o: OutcomeView| seen_of(o));
    let mut out: Vec<InputContentBlock> = Vec::new();
    let mut i: usize = 0;
    while i < outcomes.len()
        invariant
            forall|i: int| 0 <= i < outcomes@.len() ==> (#[trigger] outcomes@[i]).fits(),
            all == outcomes.deep_view(),
            wanted == all.map_values(|o: OutcomeView| seen_of(o)),
            0 <= i <= outcomes@.len(),
            out.deep_view() == wanted.take(i as int),
        decreases outcomes@.len() - i,
    {
        let ghost so_far = out.deep_view();
        out.push(block_for(&outcomes[i]));
        assert(out.deep_view() =~= so_far.push(wanted[i as int]));
        assert(out.deep_view() =~= wanted.take(i + 1));
        i = i + 1;
    }
    assert(wanted.take(wanted.len() as int) =~= wanted);
    if !body.is_empty() {
        let ghost so_far = out.deep_view();
        out.push(InputContentBlock::Text { text: body.to_owned() });
        assert(out.deep_view() =~= so_far + seq![BlockView::Text(body@)]);
    } else {
        assert(out.deep_view() =~= wanted + Seq::<BlockView>::empty());
    }
    out
}

/// What is stored of the files of a message.
pub fn attachment_meta(outcomes: &Vec<FileOutcome>) -> (r: Vec<Attachment>)
    ensures
        r.deep_view() == kept_files(outcomes.deep_view()),
{
    let ghost all = outcomes.deep_view();
    let ghost wanted = kept_files(all);
    let mut out: Vec<Attachment> = Vec::new();
    let mut i: usize = 0;
    while i < outcomes.len()
        invariant
            all == outcomes.deep_view(),
            wanted == kept_files(all),
            0 <= i <= outcomes@.len(),
            out.deep_view() == wanted.take(i as int),
        decreases outcomes@.len() - i,
    {
        let ghost so_far = out.deep_view();
        out.push(attachment_for(&outcomes[i]));
        assert(out.deep_view() =~= so_far.push(wanted[i as int]));
        assert(out.deep_view() =~= wanted.take(i + 1));
        i = i + 1;
    }
    assert(wanted.take(wanted.len() as int) =~= wanted);
    out
}

/// How the user's message with files is stored.
pub open spec fn files_entry(
    jid: Seq<char>,
    body: Seq<char>,
    msg_id: Option<Seq<char>>,
    attachments: Seq<AttachmentView>,
) -> StoreView {
    StoreView {
        full: true,
        jid,
        role: "user"@,
        content: body,
        msg_id,
        sender: Some(jid),
        attachments: if attachments.len() == 0 {
            None
        } else {
            Some(attachments)
        },
        reaction: None,
    }
}

/// Asks the language model about messages with files.
#[derive(Debug, Clone, Copy)]
pub struct AttachmentActor;

impl AttachmentActor {
    /// What is asked for a message with files, which stands behind the
    /// messages before it.
    pub fn handle_message_with_attachments(
        memory: &mut Memory,
        from: &str,
        body: &str,
        outcomes: &Vec<FileOutcome>,
        config: &Config,
        idle: Duration,
    ) -> (r: InferenceRequest)
        requires
            config.session.idle_timeout_mins * 60 <= u64::MAX,
            forall|i: int| 0 <= i < outcomes@.len() ==> (#[trigger] outcomes@[i]).fits(),
        ensures
            refreshed(
                old(memory).deep_view(),
                final(memory).deep_view(),
                bare(from@),
                config.session.idle_timeout_mins,
                idle,
            ),
            asks(
                r,
                final(memory).deep_view(),
                bare(from@),
                config.agent.name@,
                seq![
                    MessageView {
                        role: "user"@,
                        content: ContentView::Blocks(blocks_of(outcomes.deep_view(), body@)),
                    },
                ],
            ),
    {
        let jid = bare_jid(from);
        let blocks = content_blocks(outcomes, body);
        let ghost seen = blocks.deep_view();
        let mut r = prepare(memory, jid.as_str(), config, idle);
        let ghost so_far = r.messages.deep_view();
        r.messages.push(
            Message { role: "user".to_owned(), content: MessageContent::Blocks(blocks) },
        );
        assert(r.messages.deep_view() =~= so_far + seq![
            MessageView { role: "user"@, content: ContentView::Blocks(seen) },
        ]);
        assert(so_far =~= memory.deep_view().recent(bare(from@), MAX_HISTORY as nat));
        r
    }

    /// What is stored, in this order, of an exchange about files.
    pub fn finish_message(
        from: &str,
        body: &str,
        msg_id: Option<&str>,
        outcomes: &Vec<FileOutcome>,
        text: &str,
    ) -> (r: Vec<MemoryRequest>)
        ensures
            exists|out_id: Seq<char>|
                is_uuid_text(out_id) && r.deep_view() == seq![
                    files_entry(
                        bare(from@),
                        body@,
                        msg_id.deep_view(),
                        kept_files(outcomes.deep_view()),
                    ),
                    #[trigger] answer_entry(bare(from@), text@, out_id),
                ],
    {
        let jid = bare_jid(from);
        let meta = attachment_meta(outcomes);
        let ghost kept = meta.deep_view();
        assert(kept.len() == meta@.len());
        let attachments = if meta.len() == 0 {
            None
        } else {
            Some(meta)
        };
        let mut r: Vec<MemoryRequest> = Vec::new();
        r.push(
            MemoryRequest::StoreMessageFull {
                jid: jid.clone(),
                role: "user".to_owned(),
                content: body.to_owned(),
                msg_id: own_text(msg_id),
                sender: Some(jid.clone()),
                attachments,
                reaction: None,
            },
        );
        let answer = answer_request(jid.as_str(), text);
        let ghost id = choose|out_id: Seq<char>|
            is_uuid_text(out_id) && answer.deep_view() == #[trigger] answer_entry(
                jid@,
                text@,
                out_id,
            );
        r.push(answer);
        assert(r.deep_view() =~= seq![
            files_entry(bare(from@), body@, msg_id.deep_view(), kept),
            answer_entry(bare(from@), text@, id),
        ]);
        r
    }
}

// ---- laws --------------------------------------------------------------

/// Nothing is passed over: each file of a message gives one block and one
/// stored attachment, whatever became of it.
pub proof fn every_file_is_accounted_for(outcomes: Seq<OutcomeView>, body: Seq<char>, i: int)
    requires
        0 <= i < outcomes.len(),
    ensures
        kept_files(outcomes).len() == outcomes.len(),
        kept_files(outcomes)[i] == kept_of(outcomes[i]),
        blocks_of(outcomes, body).len() == outcomes.len() + (if body.len() == 0 {
            0int
        } else {
            1
        }),
        blocks_of(outcomes, body)[i] == seen_of(outcomes[i]),
{
}

/// A file that can be shown is shown whole, under its own type; one that cannot
/// is named, with its type; and of one that did not come the reason is given.
pub proof fn files_are_shown_or_named(
    filename: Seq<char>,
    mime_type: Seq<char>,
    size: nat,
    bytes: Seq<u8>,
    data: Option<Seq<u8>>,
    error: Seq<char>,
)
    ensures
        ({
            let of = |category: FileCategory, data: Option<Seq<u8>>|
                seen_of(OutcomeView::Fetched { filename, mime_type, size, category, data });
            let source = SourceView {
                source_type: "base64"@,
                media_type: mime_type,
                data: base64_text(bytes),
            };
            &&& of(FileCategory::Image, Some(bytes)) == BlockView::Image(source)
            &&& of(FileCategory::Document, Some(bytes)) == BlockView::Document(source)
            &&& of(FileCategory::Other, data) matches BlockView::Text(t) && has_text(t, filename)
                && has_text(t, mime_type)
            &&& of(FileCategory::Image, None) matches BlockView::Text(t) && has_text(t, filename)
            &&& of(FileCategory::Document, None) matches BlockView::Text(t) && has_text(t, filename)
            &&& seen_of(OutcomeView::Failed(error)) matches BlockView::Text(t) && has_text(t, error)
        }),
{
    let unsupported = ") — unsupported type, cannot analyze]"@;
    let head = "[File received: "@;
    what_is_held_stands_inside(head, filename, " ("@ + mime_type + unsupported, filename);
    assert(head + filename + " ("@ + mime_type + unsupported =~= head + filename + (" ("@
        + mime_type + unsupported));
    what_is_held_stands_inside(head + filename + " ("@, mime_type, unsupported, filename);
    what_is_held_stands_inside(head, filename, " — encoding error]"@, filename);
    what_is_held_stands_inside("[File download failed: "@, error, "]"@, error);
}

/// What is kept of a file is its name, its type and its size.
pub proof fn files_are_kept_by_name(
    filename: Seq<char>,
    mime_type: Seq<char>,
    size: nat,
    category: FileCategory,
    data: Option<Seq<u8>>,
)
    ensures
        kept_of(OutcomeView::Fetched { filename, mime_type, size, category, data }) == (
        AttachmentView { filename, mime_type, size: size_text(size) }),
{
}

/// What was said with the files comes behind them, word for word.
pub proof fn the_body_comes_last(outcomes: Seq<OutcomeView>, body: Seq<char>)
    requires
        body.len() > 0,
    ensures
        blocks_of(outcomes, body).last() == BlockView::Text(body),
{
}

/// A message with files is stored under its sender, word for word, with its
/// identifier and its files.
pub proof fn messages_are_stored_with_their_files(
    jid: Seq<char>,
    body: Seq<char>,
    msg_id: Option<Seq<char>>,
    files: Seq<AttachmentView>,
)
    ensures
        ({
            let s = files_entry(jid, body, msg_id, files);
            &&& s.full && s.jid == jid && s.role == "user"@ && s.content == body
            &&& s.msg_id == msg_id && s.sender == Some(jid) && s.reaction is None
            &&& files.len() > 0 ==> s.attachments == Some(files)
            &&& files.len() == 0 ==> s.attachments is None
        }),
{
}

/// Of a file that did not come nothing is known but that.
pub proof fn failed_files_are_kept_as_such(error: Seq<char>)
    ensures
        ({
            let kept = kept_of(OutcomeView::Failed(error));
            &&& kept.filename == "unknown"@ && kept.mime_type == "unknown"@
            &&& kept.size == "download failed"@
        }),
{
}

} // verus!
