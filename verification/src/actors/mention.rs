//! Whether a room message speaks to the agent, and what it says then.

use crate::text::{
    ascii_lower, ascii_lowercase, begins_with, behind, behind_bytes, byte_len, contains, has_prefix, has_text,
    is_white, lemma_ascii_byte_len, lemma_behind_prefix, lower_case_adds_up, lowercase, skip_run,
    starts_with, to_lower,
    trim_front, trim_leading, trim_start, what_is_held_stands_inside,
};
use vstd::prelude::*;
use vstd::string::*;
use vstd::utf8::is_ascii_chars;

verus! {

/// Whether the body mentions the nick, in letters of either case: behind an at
/// sign anywhere, or at its start before a colon or a space.
pub open spec fn mentions(nick: Seq<char>, body: Seq<char>) -> bool {
    let b = lowercase(body);
    let n = lowercase(nick);
    has_text(b, "@"@ + n) || has_prefix(b, n + ":"@) || has_prefix(b, n + " "@)
}

/// Whether the body mentions the nick.
pub fn is_mentioned(nick: &str, body: &str) -> (r: bool)
    ensures
        r == mentions(nick@, body@),
{
    let lower_body = to_lower(body);
    let lower_nick = to_lower(nick);
    let mut at_nick = "@".to_owned();
    at_nick.append(lower_nick.as_str());
    let mut with_colon = lower_nick.clone();
    with_colon.append(":");
    let mut with_space = lower_nick.clone();
    with_space.append(" ");
    contains(lower_body.as_str(), at_nick.as_str()) || starts_with(
        lower_body.as_str(),
        with_colon.as_str(),
    ) || starts_with(lower_body.as_str(), with_space.as_str())
}

/// What is left behind a mention: colons, then commas, then white space taken
/// off its start.
pub open spec fn after_mention(rest: Seq<char>) -> Seq<char> {
    trim_front(skip_run(skip_run(rest, ':'), ','))
}

/// Whether the body starts with the nick behind an at sign.
pub open spec fn starts_with_at(nick: Seq<char>, body: Seq<char>) -> bool {
    has_prefix(lowercase(body), "@"@ + lowercase(nick))
}

/// Whether the body starts with the nick before a colon or a space.
pub open spec fn starts_with_nick(nick: Seq<char>, body: Seq<char>) -> bool {
    has_prefix(lowercase(body), lowercase(nick) + ":"@) || has_prefix(
        lowercase(body),
        lowercase(nick) + " "@,
    )
}

/// What stands behind the mention at the start of the body, for either form of
/// mention; `None` where no character of the body ends there, which can only
/// be where small letters take another number of bytes than capital ones.
pub open spec fn behind_at(nick: Seq<char>, body: Seq<char>) -> Option<Seq<char>> {
    behind_bytes(body, byte_len("@"@ + lowercase(nick)) as int)
}

/// See [`behind_at`].
pub open spec fn behind_nick(nick: Seq<char>, body: Seq<char>) -> Option<Seq<char>> {
    behind_bytes(body, byte_len(nick) as int)
}

/// The text left behind the first form of mention, where something is left.
pub open spec fn said_after_at(nick: Seq<char>, body: Seq<char>) -> Option<Seq<char>> {
    match behind_at(nick, body) {
        Some(rest) => if starts_with_at(nick, body) && after_mention(rest).len() > 0 {
            Some(after_mention(rest))
        } else {
            None
        },
        None => None,
    }
}

/// The text left behind the second form of mention, where something is left.
pub open spec fn said_after_nick(nick: Seq<char>, body: Seq<char>) -> Option<Seq<char>> {
    match behind_nick(nick, body) {
        Some(rest) => if starts_with_nick(nick, body) && after_mention(rest).len() > 0 {
            Some(after_mention(rest))
        } else {
            None
        },
        None => None,
    }
}

/// Whether the body can be cut behind each mention that it starts with.
pub open spec fn can_strip(nick: Seq<char>, body: Seq<char>) -> bool {
    &&& starts_with_at(nick, body) ==> behind_at(nick, body) is Some
    &&& starts_with_nick(nick, body) && said_after_at(nick, body) is None ==> behind_nick(
        nick,
        body,
    ) is Some
}

/// The body without the mention at its start; all of it where no mention
/// starts it, or where nothing is left.
pub open spec fn stripped(nick: Seq<char>, body: Seq<char>) -> Seq<char> {
    match said_after_at(nick, body) {
        Some(t) => t,
        None => match said_after_nick(nick, body) {
            Some(t) => t,
            None => body,
        },
    }
}

fn clean(rest: &str) -> (r: String)
    ensures
        r@ == after_mention(rest@),
{
    let no_colon = trim_leading(rest, ':');
    let no_comma = trim_leading(no_colon.as_str(), ',');
    trim_start(no_comma.as_str())
}

fn try_strip(nick: &str, body: &str) -> (r: Option<String>)
    ensures
        match r {
            Some(t) => can_strip(nick@, body@) && t@ == stripped(nick@, body@),
            None => !can_strip(nick@, body@),
        },
{
    let lower_body = to_lower(body);
    let lower_nick = to_lower(nick);
    let mut at_nick = "@".to_owned();
    at_nick.append(lower_nick.as_str());
    if starts_with(lower_body.as_str(), at_nick.as_str()) {
        match behind(body, at_nick.as_str()) {
            Some(rest) => {
                let said = clean(rest.as_str());
                if !said.as_str().is_empty() {
                    return Some(said);
                }
            },
            None => {
                return None;
            },
        }
    }
    let mut with_colon = lower_nick.clone();
    with_colon.append(":");
    let mut with_space = lower_nick.clone();
    with_space.append(" ");
    if starts_with(lower_body.as_str(), with_colon.as_str()) || starts_with(
        lower_body.as_str(),
        with_space.as_str(),
    ) {
        match behind(body, nick) {
            Some(rest) => {
                let said = clean(rest.as_str());
                if !said.as_str().is_empty() {
                    return Some(said);
                }
            },
            None => {
                return None;
            },
        }
    }
    Some(body.to_owned())
}

/// The body without the mention at its start.
pub fn strip_mention(nick: &str, body: &str) -> (r: String)
    requires
        can_strip(nick@, body@),
    ensures
        r@ == stripped(nick@, body@),
{
    match try_strip(nick, body) {
        Some(t) => t,
        None => body.to_owned(),
    }
}

/// The body without the mention at its start, where it can be cut there.
pub fn checked_strip_mention(nick: &str, body: &str) -> (r: Option<String>)
    ensures
        match r {
            Some(t) => can_strip(nick@, body@) && t@ == stripped(nick@, body@),
            None => !can_strip(nick@, body@),
        },
{
    match try_strip(nick, body) {
        Some(_) => Some(strip_mention(nick, body)),
        None => None,
    }
}

proof fn lemma_lowercase_ascii(s: Seq<char>)
    requires
        is_ascii_chars(s),
    ensures
        lowercase(s).len() == s.len(),
        is_ascii_chars(lowercase(s)),
{
    let t = ascii_lowercase(s);
    assert(t.len() == s.len());
    assert forall|i: int| 0 <= i < t.len() implies (#[trigger] t[i]) as u32 <= 127 by {
        assert(t[i] == ascii_lower(s[i]));
    }
}

/// Where nick and body are ASCII, a mention can always be cut off.
pub proof fn ascii_mentions_can_be_stripped(nick: Seq<char>, body: Seq<char>)
    requires
        is_ascii_chars(nick),
        is_ascii_chars(body),
    ensures
        can_strip(nick, body),
{
    lemma_lowercase_ascii(nick);
    lemma_lowercase_ascii(body);
    reveal_strlit("@");
    reveal_strlit(":");
    reveal_strlit(" ");
    let at = "@"@ + lowercase(nick);
    assert(is_ascii_chars(at));
    lemma_ascii_byte_len(at);
    lemma_ascii_byte_len(nick);
    if starts_with_at(nick, body) {
        let head = body.take(at.len() as int);
        let rest = body.skip(at.len() as int);
        assert(is_ascii_chars(head));
        lemma_ascii_byte_len(head);
        assert(head + rest =~= body);
        lemma_behind_prefix(head, rest);
    }
    if starts_with_nick(nick, body) {
        let head = body.take(nick.len() as int);
        let rest = body.skip(nick.len() as int);
        assert(is_ascii_chars(head));
        lemma_ascii_byte_len(head);
        assert(head + rest =~= body);
        lemma_behind_prefix(head, rest);
    }
}

/// A body that starts with a slash does not start with a mention, unless the
/// nick starts with a slash too.
pub proof fn a_slash_starts_no_mention(nick: Seq<char>, body: Seq<char>)
    requires
        is_ascii_chars(nick),
        is_ascii_chars(body),
        begins_with(body, '/'),
        !begins_with(nick, '/'),
    ensures
        !starts_with_at(nick, body),
        !starts_with_nick(nick, body),
{
    reveal_strlit("@");
    reveal_strlit(":");
    reveal_strlit(" ");
    let b = lowercase(body);
    let n = lowercase(nick);
    assert(b[0] == ascii_lower(body[0]));
    if starts_with_at(nick, body) {
        let at = "@"@ + n;
        assert(b.subrange(0, at.len() as int)[0] == at[0]);
    }
    if nick.len() > 0 {
        assert(n[0] == ascii_lower(nick[0]));
    }
    if has_prefix(b, n + ":"@) {
        let p = n + ":"@;
        assert(b.subrange(0, p.len() as int)[0] == p[0]);
    }
    if has_prefix(b, n + " "@) {
        let p = n + " "@;
        assert(b.subrange(0, p.len() as int)[0] == p[0]);
    }
}

/// An at sign before the nick is a mention wherever it stands, and so is the
/// nick at the start before a colon or a space, in letters of either case.
pub proof fn nicks_are_recognised(
    nick: Seq<char>,
    written: Seq<char>,
    head: Seq<char>,
    tail: Seq<char>,
)
    requires
        is_ascii_chars(nick) && is_ascii_chars(written) && is_ascii_chars(head) && is_ascii_chars(
            tail,
        ),
        lowercase(written) == lowercase(nick),
    ensures
        mentions(nick, head + "@"@ + written + tail),
        mentions(nick, written + ":"@ + tail),
        mentions(nick, written + " "@ + tail),
{
    reveal_strlit("@");
    reveal_strlit(":");
    reveal_strlit(" ");
    assert(lowercase("@"@) =~= "@"@);
    assert(lowercase(":"@) =~= ":"@);
    assert(lowercase(" "@) =~= " "@);
    let n = lowercase(nick);
    lower_case_adds_up(head, "@"@);
    lower_case_adds_up(head + "@"@, written);
    lower_case_adds_up(head + "@"@ + written, tail);
    what_is_held_stands_inside(lowercase(head), "@"@ + n, lowercase(tail), n);
    assert(lowercase(head) + "@"@ + n + lowercase(tail) =~= lowercase(head) + ("@"@ + n)
        + lowercase(tail));
    lower_case_adds_up(written, ":"@);
    lower_case_adds_up(written + ":"@, tail);
    what_is_held_stands_inside(n, n + ":"@, lowercase(tail), n);
    lower_case_adds_up(written, " "@);
    lower_case_adds_up(written + " "@, tail);
    what_is_held_stands_inside(n, n + " "@, lowercase(tail), n);
}

/// A body without an at sign that does not start with the nick mentions
/// nobody.
pub proof fn others_are_not_mentioned(nick: Seq<char>, body: Seq<char>)
    requires
        is_ascii_chars(nick) && is_ascii_chars(body),
        !body.contains('@'),
        nick.len() > 0,
        body.len() == 0 || lowercase(body)[0] != lowercase(nick)[0],
    ensures
        !mentions(nick, body),
        stripped(nick, body) == body,
{
    reveal_strlit("@");
    reveal_strlit(":");
    reveal_strlit(" ");
    let b = lowercase(body);
    let n = lowercase(nick);
    if has_text(b, "@"@ + n) {
        let i = choose|i: int| #[trigger] crate::text::occurs_at(b, "@"@ + n, i);
        assert(b.subrange(i, i + ("@"@ + n).len())[0] == ("@"@ + n)[0]);
        assert(b[i] == '@');
        assert(b[i] == ascii_lower(body[i]));
        assert(body.contains(body[i]));
    }
    if starts_with_at(nick, body) {
        assert(crate::text::occurs_at(b, "@"@ + n, 0));
    }
    if has_prefix(b, n + ":"@) {
        assert(b.subrange(0, (n + ":"@).len() as int)[0] == (n + ":"@)[0]);
    }
    if has_prefix(b, n + " "@) {
        assert(b.subrange(0, (n + " "@).len() as int)[0] == (n + " "@)[0]);
    }
}

/// What is said behind a mention at the start is left as it was said: only the
/// mention goes, with the colon or comma and the blank behind it.
pub proof fn mentions_are_cut_off(
    nick: Seq<char>,
    written: Seq<char>,
    mark: Seq<char>,
    said: Seq<char>,
)
    requires
        is_ascii_chars(nick) && is_ascii_chars(written) && is_ascii_chars(said),
        lowercase(written) == lowercase(nick),
        mark == ": "@ || mark == ", "@ || mark == " "@,
        said.len() > 0 && !is_white(said[0]),
    ensures
        can_strip(nick, "@"@ + written + mark + said),
        stripped(nick, "@"@ + written + mark + said) == said,
        !begins_with(written, '@') && mark != ", "@ ==> stripped(nick, written + mark + said)
            == said,
{
    reveal_strlit("@");
    reveal_strlit(": ");
    reveal_strlit(", ");
    reveal_strlit(" ");
    reveal_strlit(":");
    let n = lowercase(nick);
    let rest = mark + said;
    assert(is_ascii_chars(mark));
    assert(is_ascii_chars(rest)) by {
        lower_case_adds_up(mark, said);
    }
    assert(lowercase("@"@) =~= "@"@);
    lemma_lowercase_ascii(nick);
    lemma_lowercase_ascii(written);
    assert(nick.len() == written.len());
    // what stands behind the mention
    assert(after_mention(rest) == said) by {
        reveal_with_fuel(skip_run, 3);
        reveal_with_fuel(trim_front, 3);
        let a = skip_run(rest, ':');
        let b = skip_run(a, ',');
        if mark == " "@ {
            assert(rest[0] == ' ');
            assert(b == rest);
            assert(b.drop_first() =~= said);
        } else if mark == ": "@ {
            assert(rest[0] == ':');
            assert(rest.drop_first()[0] == ' ');
            assert(a == rest.drop_first());
            assert(b == a);
            assert(b.drop_first() =~= said);
        } else {
            assert(rest[0] == ',');
            assert(a == rest);
            assert(rest.drop_first()[0] == ' ');
            assert(b == rest.drop_first());
            assert(b.drop_first() =~= said);
        }
        assert(is_white(' '));
    }
    // behind an at sign
    let head = "@"@ + written;
    let body = head + mark + said;
    assert(body =~= head + rest);
    lower_case_adds_up("@"@, written);
    lower_case_adds_up(head, rest);
    what_is_held_stands_inside(n, "@"@ + n, lowercase(rest), n);
    assert(starts_with_at(nick, body));
    lemma_ascii_byte_len(head);
    assert(is_ascii_chars("@"@ + n)) by {
        assert(lowercase(head) == "@"@ + n);
        lemma_lowercase_ascii(head);
    }
    lemma_ascii_byte_len("@"@ + n);
    lemma_behind_prefix(head, rest);
    // at the start
    if !begins_with(written, '@') && mark != ", "@ {
        let body = written + mark + said;
        assert(body =~= written + rest);
        lower_case_adds_up(written, rest);
        lower_case_adds_up(mark, said);
        let b = lowercase(body);
        assert(b.len() == body.len());
        if written.len() > 0 {
            assert(b[0] == ascii_lower(written[0]));
        } else {
            assert(b[0] == ascii_lower(mark[0]));
        }
        if starts_with_at(nick, body) {
            assert(b.subrange(0, ("@"@ + n).len() as int)[0] == '@');
        }
        let sign = mark.take(1);
        assert(lowercase(rest) =~= sign + lowercase(rest).skip(1)) by {
            assert(lowercase(rest)[0] == ascii_lower(mark[0]));
        }
        assert(b =~= n + sign + lowercase(rest).skip(1));
        what_is_held_stands_inside(n, n + sign, lowercase(rest).skip(1), n);
        assert(sign =~= ":"@ || sign =~= " "@);
        assert(starts_with_nick(nick, body));
        lemma_ascii_byte_len(written);
        lemma_ascii_byte_len(nick);
        lemma_behind_prefix(written, rest);
    }
}

} // verus!
