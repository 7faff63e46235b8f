//! The answer to a message with files.

use super::user_error::Failure;
use crate::ids::{is_uuid_text, new_id};
use crate::xmpp::{
    chat_state, chat_state_command, text_command, text_to, ChatState, CommandView, XmppCommand,
};
use vstd::prelude::*;
use vstd::string::*;

verus! {

/// The message of a failure: its outermost cause.
pub open spec fn outermost(causes: Seq<Seq<char>>) -> Seq<char> {
    if causes.len() == 0 {
        Seq::empty()
    } else {
        causes[0]
    }
}

/// What is sent when the answer to a message with files has come: its text
/// under a fresh identifier, or the end of the typing notice and what went
/// wrong.
pub open spec fn files_answered(
    from: Seq<char>,
    result: Result<Seq<char>, Seq<Seq<char>>>,
    fresh: Seq<char>,
) -> Seq<CommandView> {
    match result {
        Ok(text) => seq![text_to(from, text, Some(fresh), false)],
        Err(e) => seq![
            chat_state(from, ChatState::Paused, false),
            text_to(from, "Sorry, an error occurred: "@ + outermost(e), None, false),
        ],
    }
}

/// The result of asking the language model.
pub open spec fn result_view(r: Result<String, Failure>) -> Result<Seq<char>, Seq<Seq<char>>> {
    match r {
        Ok(t) => Ok(t@),
        Err(e) => Err(e.deep_view()),
    }
}

/// Answers messages.
#[derive(Debug, Clone, Copy)]
pub struct SessionResponderActor;

impl SessionResponderActor {
    /// What is sent when the answer to a message with files has come, under a
    /// given identifier.
    pub fn attachment_answer(from: &str, result: Result<String, Failure>, fresh: String) -> (r: Vec<
        XmppCommand,
    >)
        ensures
            r.deep_view() == files_answered(from@, result_view(result), fresh@),
    {
        let ghost given = result_view(result);
        let ghost id = fresh@;
        let mut out: Vec<XmppCommand> = Vec::new();
        match result {
            Ok(text) => {
                out.push(text_command(from, text, Some(fresh), false));
            },
            Err(e) => {
                out.push(chat_state_command(from, ChatState::Paused, false));
                let mut body = "Sorry, an error occurred: ".to_owned();
                assert(e.causes@.len() == e.deep_view().len());
                if e.causes.len() > 0 {
                    body.append(e.causes[0].as_str());
                }
                assert(body@ =~= "Sorry, an error occurred: "@ + outermost(e.deep_view()));
                out.push(text_command(from, body, None, false));
            },
        }
        assert(out.deep_view() =~= files_answered(from@, given, id));
        out
    }

    /// What is sent when the answer to a message with files has come.
    pub fn spawn_attachment_message_task(from: &str, result: Result<String, Failure>) -> (r: Vec<
        XmppCommand,
    >)
        ensures
            exists|fresh: Seq<char>|
                is_uuid_text(fresh) && r.deep_view() == #[trigger] files_answered(
                    from@,
                    result_view(result),
                    fresh,
                ),
    {
        let fresh = new_id();
        let ghost id = fresh@;
        let ghost given = result_view(result);
        let r = SessionResponderActor::attachment_answer(from, result, fresh);
        assert(r.deep_view() == files_answered(from@, given, id));
        r
    }
}

/// The answer to files goes to who sent them, word for word and under a fresh
/// identifier; where it failed, the announcement is taken back first and the
/// outermost cause is told.
pub proof fn answers_to_files_go_back(
    from: Seq<char>,
    text: Seq<char>,
    cause: Seq<char>,
    causes: Seq<Seq<char>>,
    fresh: Seq<char>,
)
    ensures
        files_answered(from, Ok(text), fresh) == seq![
            CommandView::SendMessage { to: from, body: text, id: Some(fresh) },
        ],
        files_answered(from, Err(seq![cause] + causes), fresh) == seq![
            CommandView::SendChatState {
                to: from,
                state: ChatState::Paused,
                msg_type: "chat"@,
            },
            CommandView::SendMessage {
                to: from,
                body: "Sorry, an error occurred: "@ + cause,
                id: None,
            },
        ],
{
}

} // verus!
