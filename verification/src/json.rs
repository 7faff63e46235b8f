//! The little that is decided about JSON: values that are carried along, and
//! strings as they are written.

use vstd::prelude::*;
use vstd::string::*;

verus! {

/// A JSON value of `serde_json`. It is carried along and never looked into.
#[verifier::external_type_specification]
#[verifier::external_body]
pub struct ExJsonValue(serde_json::Value);

/// `serde_json::Value::clone` gives an equal value.
pub assume_specification[ <serde_json::Value as Clone>::clone ](v: &serde_json::Value) -> (r:
    serde_json::Value)
    ensures
        r == *v,
;

/// The hexadecimal digit of `n`, for `n` below sixteen.
pub open spec fn hex_digit(n: nat) -> char {
    if n < 10 {
        ('0' as u32 + n) as char
    } else {
        ('a' as u32 + (n - 10)) as char
    }
}

/// How a character is written within a JSON string.
pub open spec fn json_char(c: char) -> Seq<char> {
    let n = c as u32 as nat;
    if c == '"' {
        seq!['\\', '"']
    } else if c == '\\' {
        seq!['\\', '\\']
    } else if n == 8 {
        seq!['\\', 'b']
    } else if n == 9 {
        seq!['\\', 't']
    } else if n == 10 {
        seq!['\\', 'n']
    } else if n == 12 {
        seq!['\\', 'f']
    } else if n == 13 {
        seq!['\\', 'r']
    } else if n < 32 {
        seq!['\\', 'u', '0', '0', hex_digit(n / 16), hex_digit(n % 16)]
    } else {
        seq![c]
    }
}

/// The characters of a JSON string, one behind the other.
pub open spec fn json_chars(s: Seq<char>) -> Seq<char>
    decreases s.len(),
{
    if s.len() == 0 {
        Seq::empty()
    } else {
        json_chars(s.drop_last()) + json_char(s.last())
    }
}

/// A text as a JSON string, quotes and all.
pub open spec fn json_string(s: Seq<char>) -> Seq<char> {
    "\""@ + json_chars(s) + "\""@
}

/// A text as a JSON string: `serde_json::to_string` on a `str`, which cannot
/// fail there. Quotes, backslashes and control characters are escaped, any
/// other character stands for itself.
#[verifier::external_body]
pub(crate) fn json_text(s: &str) -> (r: String)
    ensures
        r@ == json_string(s@),
{
    serde_json::to_string(s).unwrap_or_default()
}

/// A text is escaped character by character, in order.
pub proof fn texts_are_escaped_in_order(a: Seq<char>, b: Seq<char>, c: char)
    ensures
        json_chars(a + b) == json_chars(a) + json_chars(b),
        json_chars(seq![c]) == json_char(c),
        json_chars(Seq::empty()).len() == 0,
    decreases b.len(),
{
    assert(seq![c].drop_last() =~= Seq::empty());
    assert(json_chars(seq![c].drop_last()).len() == 0);
    assert(json_chars(seq![c]) =~= json_char(c));
    if b.len() > 0 {
        assert((a + b).drop_last() =~= a + b.drop_last());
        texts_are_escaped_in_order(a, b.drop_last(), c);
        assert(json_chars(a + b) =~= json_chars(a) + json_chars(b));
    } else {
        assert(a + b =~= a);
        assert(json_chars(b).len() == 0);
        assert(json_chars(a) + json_chars(b) =~= json_chars(a));
    }
}

/// A character that means nothing in a JSON string stands for itself; quotes
/// and backslashes stand behind a backslash; and control characters are
/// written out, so that none is left in the text.
pub proof fn characters_are_escaped(c: char, i: int)
    ensures
        c as u32 >= 32 && c != '"' && c != '\\' ==> json_char(c) == seq![c],
        c == '"' || c == '\\' ==> json_char(c) == seq!['\\', c],
        c == '\n' ==> json_char(c) == seq!['\\', 'n'],
        c == '\t' ==> json_char(c) == seq!['\\', 't'],
        c == '\r' ==> json_char(c) == seq!['\\', 'r'],
        c as u32 == 8 ==> json_char(c) == seq!['\\', 'b'],
        c as u32 == 12 ==> json_char(c) == seq!['\\', 'f'],
        (c as u32) < 32 && json_char(c)[1] == 'u' ==> json_char(c).len() == 6 && json_char(c)[4]
            == if (c as u32) < 16 {
            '0'
        } else {
            '1'
        } && (c as u32 % 16 < 10 ==> json_char(c)[5] as u32 == 48 + c as u32 % 16) && (c as u32 % 16
            >= 10 ==> json_char(c)[5] as u32 == 97 + c as u32 % 16 - 10),
        (c as u32) < 32 ==> json_char(c)[0] == '\\',
        0 <= i < json_char(c).len() ==> json_char(c)[i] as u32 >= 32,
{
}

/// A string is its text between quotes.
pub proof fn strings_stand_in_quotes(s: Seq<char>)
    requires
        forall|i: int|
            0 <= i < s.len() ==> (#[trigger] s[i]) as u32 >= 32 && s[i] != '"' && s[i] != '\\',
    ensures
        json_string(s) == seq!['"'] + s + seq!['"'],
{
    reveal_strlit("\"");
    lemma_plain_text(s);
    assert("\""@ =~= seq!['"']);
}

proof fn lemma_plain_text(s: Seq<char>)
    requires
        forall|i: int|
            0 <= i < s.len() ==> (#[trigger] s[i]) as u32 >= 32 && s[i] != '"' && s[i] != '\\',
    ensures
        json_chars(s) == s,
    decreases s.len(),
{
    if s.len() > 0 {
        let head = s.drop_last();
        assert forall|i: int| 0 <= i < head.len() implies (#[trigger] head[i]) as u32 >= 32
            && head[i] != '"' && head[i] != '\\' by {
            assert(head[i] == s[i]);
        }
        lemma_plain_text(head);
        assert(s[s.len() - 1] as u32 >= 32);
        assert(json_chars(s) =~= s);
    } else {
        assert(json_chars(s) =~= s);
    }
}

} // verus!
