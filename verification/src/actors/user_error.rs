//! What a user is told when something failed inside.

use crate::ids::{is_uuid_text, new_id};
use crate::text::{
    ascii_lowercase, blank, contains, has_text, is_blank, to_ascii_lower,
    what_is_held_stands_inside,
};
use vstd::prelude::*;
use vstd::string::*;

verus! {

/// A failure as the messages of its causes, the outermost first.
#[derive(Debug)]
pub struct Failure {
    pub causes: Vec<String>,
}

impl DeepView for Failure {
    type V = Seq<Seq<char>>;

    open spec fn deep_view(&self) -> Seq<Seq<char>> {
        self.causes.deep_view()
    }
}

impl Failure {
    /// A failure with one cause.
    pub fn new(message: &str) -> (r: Self)
        ensures
            r.deep_view() == seq![message@],
    {
        let mut causes: Vec<String> = Vec::new();
        causes.push(message.to_owned());
        assert(causes.deep_view() =~= seq![message@]);
        Failure { causes }
    }
}

/// What a failure means to a user.
#[derive(Clone, Copy, Debug, PartialEq, Eq, Structural)]
pub enum UserErrorClass {
    Busy,
    Unavailable,
    Generic,
}

/// The codes of failures that pass by themselves.
pub open spec fn busy_codes() -> Seq<Seq<char>> {
    seq![
        "attachment_pipeline_busy"@,
        "session_message_busy"@,
        "session_reaction_busy"@,
        "planner_busy"@,
        "tool_executor_busy"@,
        "memory_busy"@,
        "dead_letter_service_busy"@,
        "timeout"@,
    ]
}

/// The codes of parts that do not answer.
pub open spec fn unavailable_codes() -> Seq<Seq<char>> {
    seq![
        "attachment_pipeline_unavailable"@,
        "session_message_unavailable"@,
        "session_reaction_unavailable"@,
        "planner_unavailable"@,
        "tool_executor_unavailable"@,
        "memory_unavailable"@,
        "dead_letter_service_unavailable"@,
    ]
}

fn busy_code_list() -> (r: Vec<&'static str>)
    ensures
        r.deep_view() == busy_codes(),
{
    let r = vec![
        "attachment_pipeline_busy",
        "session_message_busy",
        "session_reaction_busy",
        "planner_busy",
        "tool_executor_busy",
        "memory_busy",
        "dead_letter_service_busy",
        "timeout",
    ];
    assert(r.deep_view() =~= busy_codes());
    r
}

fn unavailable_code_list() -> (r: Vec<&'static str>)
    ensures
        r.deep_view() == unavailable_codes(),
{
    let r = vec![
        "attachment_pipeline_unavailable",
        "session_message_unavailable",
        "session_reaction_unavailable",
        "planner_unavailable",
        "tool_executor_unavailable",
        "memory_unavailable",
        "dead_letter_service_unavailable",
    ];
    assert(r.deep_view() =~= unavailable_codes());
    r
}

/// Whether any of the codes stands in the message.
pub open spec fn holds_code(message: Seq<char>, codes: Seq<Seq<char>>) -> bool {
    exists|i: int| 0 <= i < codes.len() && has_text(message, #[trigger] codes[i])
}

/// Whether some cause holds one of the codes, in letters of either case.
pub open spec fn chain_holds(chain: Seq<Seq<char>>, codes: Seq<Seq<char>>) -> bool {
    exists|i: int|
        0 <= i < chain.len() && holds_code(ascii_lowercase(#[trigger] chain[i]), codes)
}

/// The class of a failure: busy where any cause says so, else unavailable
/// where any cause says so.
pub open spec fn class_of(chain: Seq<Seq<char>>) -> UserErrorClass {
    if chain_holds(chain, busy_codes()) {
        UserErrorClass::Busy
    } else if chain_holds(chain, unavailable_codes()) {
        UserErrorClass::Unavailable
    } else {
        UserErrorClass::Generic
    }
}

/// The sentence for a class of failures.
pub open spec fn class_sentence(class: UserErrorClass) -> Seq<char> {
    match class {
        UserErrorClass::Busy => "System busy. Please retry in a few seconds."@,
        UserErrorClass::Unavailable =>
            "Service temporarily unavailable. Please retry in a few seconds."@,
        UserErrorClass::Generic => "Sorry, an internal error occurred. Please try again."@,
    }
}

/// What a user is told of a failure.
pub open spec fn safe_message(chain: Seq<Seq<char>>, correlation_id: Seq<char>) -> Seq<char> {
    class_sentence(class_of(chain)) + " (ref: "@ + correlation_id + ")"@
}

/// Whether any of the codes stands in the message.
pub fn contains_any(message: &str, codes: &Vec<&'static str>) -> (r: bool)
    ensures
        r == holds_code(message@, codes.deep_view()),
{
    let mut i: usize = 0;
    while i < codes.len()
        invariant
            0 <= i <= codes@.len(),
            forall|j: int| 0 <= j < i ==> !has_text(message@, #[trigger] codes.deep_view()[j]),
        decreases codes@.len() - i,
    {
        if contains(message, codes[i]) {
            assert(has_text(message@, codes.deep_view()[i as int]));
            return true;
        }
        i = i + 1;
    }
    false
}

/// The class of a failure.
pub fn classify(err: &Failure) -> (r: UserErrorClass)
    ensures
        r == class_of(err.deep_view()),
{
    let busy = busy_code_list();
    let gone = unavailable_code_list();
    let ghost chain = err.deep_view();
    let mut unavailable = false;
    let mut i: usize = 0;
    while i < err.causes.len()
        invariant
            chain == err.deep_view(),
            busy.deep_view() == busy_codes(),
            gone.deep_view() == unavailable_codes(),
            0 <= i <= err.causes@.len(),
            forall|j: int|
                0 <= j < i ==> !holds_code(ascii_lowercase(#[trigger] chain[j]), busy_codes()),
            unavailable == exists|j: int|
                0 <= j < i && holds_code(ascii_lowercase(#[trigger] chain[j]), unavailable_codes()),
        decreases err.causes@.len() - i,
    {
        let normalized = to_ascii_lower(err.causes[i].as_str());
        assert(normalized@ == ascii_lowercase(chain[i as int]));
        if contains_any(normalized.as_str(), &busy) {
            assert(chain_holds(chain, busy_codes()));
            return UserErrorClass::Busy;
        }
        if contains_any(normalized.as_str(), &gone) {
            unavailable = true;
        }
        i = i + 1;
    }
    if unavailable {
        UserErrorClass::Unavailable
    } else {
        UserErrorClass::Generic
    }
}

/// What a user is told of a failure: a sentence for its class and the
/// reference under which the log has the rest.
pub fn to_user_safe_message(err: &Failure, correlation_id: &str) -> (r: String)
    ensures
        r@ == safe_message(err.deep_view(), correlation_id@),
{
    let mut s = match classify(err) {
        UserErrorClass::Busy => "System busy. Please retry in a few seconds.".to_owned(),
        UserErrorClass::Unavailable => {
            "Service temporarily unavailable. Please retry in a few seconds.".to_owned()
        },
        UserErrorClass::Generic => {
            "Sorry, an internal error occurred. Please try again.".to_owned()
        },
    };
    s.append(" (ref: ");
    s.append(correlation_id);
    s.append(")");
    s
}

/// The reference of a failed request: the inbound id unless it is blank, else
/// the fresh one.
pub open spec fn reference(inbound: Option<Seq<char>>, fresh: Seq<char>) -> Seq<char> {
    match inbound {
        Some(id) => if is_blank(id) {
            fresh
        } else {
            id
        },
        None => fresh,
    }
}

/// The reference of a failed request, given a fresh identifier.
pub fn correlation_id_or(inbound_id: Option<&str>, fresh: String) -> (r: String)
    ensures
        r@ == reference(inbound_id.deep_view(), fresh@),
{
    match inbound_id {
        Some(id) => if blank(id) {
            fresh
        } else {
            id.to_owned()
        },
        None => fresh,
    }
}

/// The reference of a failed request: the inbound id unless it is blank, else
/// a fresh identifier.
pub fn correlation_id_or_new(inbound_id: Option<&str>) -> (r: String)
    ensures
        exists|fresh: Seq<char>|
            is_uuid_text(fresh) && r@ == #[trigger] reference(inbound_id.deep_view(), fresh),
{
    let fresh = new_id();
    let ghost id = fresh@;
    let r = correlation_id_or(inbound_id, fresh);
    assert(is_uuid_text(id) && r@ == reference(inbound_id.deep_view(), id));
    r
}

/// What a user is told depends on the class of the failure and on the
/// reference alone: nothing else of the causes gets out.
pub proof fn causes_stay_inside(a: Seq<Seq<char>>, b: Seq<Seq<char>>, correlation_id: Seq<char>)
    requires
        class_of(a) == class_of(b),
    ensures
        safe_message(a, correlation_id) == safe_message(b, correlation_id),
{
}

/// A busy cause anywhere in the chain decides, whatever else the chain says.
pub proof fn busy_comes_first(chain: Seq<Seq<char>>, i: int)
    requires
        0 <= i < chain.len(),
        holds_code(ascii_lowercase(chain[i]), busy_codes()),
    ensures
        class_of(chain) == UserErrorClass::Busy,
{
}

/// A cause that holds the code of something busy, in letters of either case,
/// makes the failure a busy one.
pub proof fn busy_codes_are_recognised(
    chain: Seq<Seq<char>>,
    i: int,
    head: Seq<char>,
    code: Seq<char>,
    tail: Seq<char>,
    id: Seq<char>,
)
    requires
        0 <= i < chain.len(),
        ascii_lowercase(chain[i]) == head + code + tail,
        code == "attachment_pipeline_busy"@ || code == "session_message_busy"@ || code
            == "session_reaction_busy"@ || code == "planner_busy"@ || code == "tool_executor_busy"@
            || code == "memory_busy"@ || code == "dead_letter_service_busy"@ || code == "timeout"@,
    ensures
        class_of(chain) == UserErrorClass::Busy,
        safe_message(chain, id) == "System busy. Please retry in a few seconds."@ + " (ref: "@ + id
            + ")"@,
{
    what_is_held_stands_inside(head, code, tail, code);
    let codes = busy_codes();
    let k = choose|k: int| 0 <= k < codes.len() && codes[k] == code;
    assert(codes[0] == "attachment_pipeline_busy"@ && codes[1] == "session_message_busy"@
        && codes[2] == "session_reaction_busy"@ && codes[3] == "planner_busy"@ && codes[4]
        == "tool_executor_busy"@ && codes[5] == "memory_busy"@ && codes[6]
        == "dead_letter_service_busy"@ && codes[7] == "timeout"@);
    assert(has_text(ascii_lowercase(chain[i]), codes[k]));
    busy_comes_first(chain, i);
}

/// A cause that holds the code of something unavailable, in letters of either
/// case, makes the failure an unavailable one, unless something is busy.
pub proof fn unavailable_codes_are_recognised(
    chain: Seq<Seq<char>>,
    i: int,
    head: Seq<char>,
    code: Seq<char>,
    tail: Seq<char>,
    id: Seq<char>,
)
    requires
        0 <= i < chain.len(),
        ascii_lowercase(chain[i]) == head + code + tail,
        code == "attachment_pipeline_unavailable"@ || code == "session_message_unavailable"@
            || code == "session_reaction_unavailable"@ || code == "planner_unavailable"@ || code
            == "tool_executor_unavailable"@ || code == "memory_unavailable"@ || code
            == "dead_letter_service_unavailable"@,
        class_of(chain) != UserErrorClass::Busy,
    ensures
        class_of(chain) == UserErrorClass::Unavailable,
        safe_message(chain, id)
            == "Service temporarily unavailable. Please retry in a few seconds."@ + " (ref: "@ + id
            + ")"@,
{
    what_is_held_stands_inside(head, code, tail, code);
    let codes = unavailable_codes();
    let k = choose|k: int| 0 <= k < codes.len() && codes[k] == code;
    assert(codes[0] == "attachment_pipeline_unavailable"@ && codes[1]
        == "session_message_unavailable"@ && codes[2] == "session_reaction_unavailable"@ && codes[3]
        == "planner_unavailable"@ && codes[4] == "tool_executor_unavailable"@ && codes[5]
        == "memory_unavailable"@ && codes[6] == "dead_letter_service_unavailable"@);
    assert(has_text(ascii_lowercase(chain[i]), codes[k]));
    assert(holds_code(ascii_lowercase(chain[i]), codes));
}

/// A failure none of whose causes is long enough to hold a code is an internal
/// error, and nothing is said of its causes.
pub proof fn other_failures_are_internal(chain: Seq<Seq<char>>, id: Seq<char>)
    requires
        forall|i: int| 0 <= i < chain.len() ==> (#[trigger] chain[i]).len() < 7,
    ensures
        class_of(chain) == UserErrorClass::Generic,
        safe_message(chain, id) == "Sorry, an internal error occurred. Please try again."@
            + " (ref: "@ + id + ")"@,
{
    lemma_codes_are_long();
    assert forall|i: int, codes: Seq<Seq<char>>|
        0 <= i < chain.len() && (codes == busy_codes() || codes == unavailable_codes()) implies !(
    #[trigger] holds_code(ascii_lowercase(chain[i]), codes)) by {
        let m = ascii_lowercase(chain[i]);
        if holds_code(m, codes) {
            let k = choose|k: int| 0 <= k < codes.len() && has_text(m, #[trigger] codes[k]);
            assert(codes[k].len() >= 7);
            let at = choose|at: int| #[trigger] crate::text::occurs_at(m, codes[k], at);
            assert(m.len() == chain[i].len());
        }
    }
}

proof fn lemma_codes_are_long()
    ensures
        forall|k: int| 0 <= k < busy_codes().len() ==> (#[trigger] busy_codes()[k]).len() >= 7,
        forall|k: int|
            0 <= k < unavailable_codes().len() ==> (#[trigger] unavailable_codes()[k]).len() >= 7,
{
    reveal_strlit("attachment_pipeline_busy");
    reveal_strlit("session_message_busy");
    reveal_strlit("session_reaction_busy");
    reveal_strlit("planner_busy");
    reveal_strlit("tool_executor_busy");
    reveal_strlit("memory_busy");
    reveal_strlit("dead_letter_service_busy");
    reveal_strlit("timeout");
    reveal_strlit("attachment_pipeline_unavailable");
    reveal_strlit("session_message_unavailable");
    reveal_strlit("session_reaction_unavailable");
    reveal_strlit("planner_unavailable");
    reveal_strlit("tool_executor_unavailable");
    reveal_strlit("memory_unavailable");
    reveal_strlit("dead_letter_service_unavailable");
}

/// A failure is followed under the identifier that came in, unless there is
/// none or it is blank.
pub proof fn references_are_what_came_in(id: Seq<char>, fresh: Seq<char>)
    ensures
        !is_blank(id) ==> reference(Some(id), fresh) == id,
        is_blank(id) ==> reference(Some(id), fresh) == fresh,
        reference(None, fresh) == fresh,
{
}

} // verus!
