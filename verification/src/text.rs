//! Text as a sequence of characters: the few string operations that the rest
//! of the library decides with, each stated over `Seq<char>`.

use vstd::prelude::*;
use vstd::string::*;
use vstd::utf8::is_ascii_chars;

verus! {

/// `String::push` adds the character at the end.
pub assume_specification[ String::push ](s: &mut String, c: char)
    ensures
        final(s)@ == old(s)@.push(c),
;

/// The characters of a string, in order.
pub fn chars_of(s: &str) -> (r: Vec<char>)
    ensures
        r@ == s@,
{
    let mut out: Vec<char> = Vec::new();
    for c in it: s.chars()
        invariant
            it.seq() == s@,
            out@ == s@.take(it.index() as int),
    {
        out.push(c);
    }
    assert(s@.take(s@.len() as int) == s@);
    out
}

/// The string made of `chars[from..to]`.
pub fn string_of(chars: &Vec<char>, from: usize, to: usize) -> (r: String)
    requires
        from <= to <= chars@.len(),
    ensures
        r@ == chars@.subrange(from as int, to as int),
{
    let mut out = String::new();
    let mut i: usize = from;
    while i < to
        invariant
            from <= i <= to <= chars@.len(),
            out@ == chars@.subrange(from as int, i as int),
        decreases to - i,
    {
        out.push(chars[i]);
        i = i + 1;
        assert(chars@.subrange(from as int, i as int) == chars@.subrange(
            from as int,
            i - 1,
        ).push(chars@[i - 1]));
    }
    out
}

/// The whole of `chars` as a string.
pub fn string_from(chars: &Vec<char>) -> (r: String)
    ensures
        r@ == chars@,
{
    let r = string_of(chars, 0, chars.len());
    assert(chars@.subrange(0, chars@.len() as int) == chars@);
    r
}

/// Whether two strings hold the same characters.
pub fn same(a: &str, b: &str) -> (r: bool)
    ensures
        r == (a@ == b@),
{
    let x = chars_of(a);
    let y = chars_of(b);
    if x.len() != y.len() {
        return false;
    }
    let mut i: usize = 0;
    while i < x.len()
        invariant
            x@ == a@,
            y@ == b@,
            x@.len() == y@.len(),
            0 <= i <= x@.len(),
            forall|j: int| 0 <= j < i ==> x@[j] == y@[j],
        decreases x@.len() - i,
    {
        if x[i] != y[i] {
            assert(x@[i as int] != y@[i as int]);
            return false;
        }
        i = i + 1;
    }
    assert(x@ == y@);
    true
}

// ---- white space -------------------------------------------------------

/// The characters with Unicode's `White_Space` property.
pub open spec fn is_white(c: char) -> bool {
    let n = c as u32;
    ||| 9 <= n <= 13
    ||| n == 0x20
    ||| n == 0x85
    ||| n == 0xA0
    ||| n == 0x1680
    ||| 0x2000 <= n <= 0x200A
    ||| n == 0x2028
    ||| n == 0x2029
    ||| n == 0x202F
    ||| n == 0x205F
    ||| n == 0x3000
}

/// Whether a character is white space.
pub fn is_white_space(c: char) -> (r: bool)
    ensures
        r == is_white(c),
{
    let n: u32 = c as u32;
    (9 <= n && n <= 13) || n == 0x20 || n == 0x85 || n == 0xA0 || n == 0x1680 || (0x2000 <= n
        && n <= 0x200A) || n == 0x2028 || n == 0x2029 || n == 0x202F || n == 0x205F || n == 0x3000
}

/// `s` without the white space at its start.
pub open spec fn trim_front(s: Seq<char>) -> Seq<char>
    decreases s.len(),
{
    if s.len() > 0 && is_white(s[0]) {
        trim_front(s.drop_first())
    } else {
        s
    }
}

/// `s` without the white space at its end.
pub open spec fn trim_back(s: Seq<char>) -> Seq<char>
    decreases s.len(),
{
    if s.len() > 0 && is_white(s.last()) {
        trim_back(s.drop_last())
    } else {
        s
    }
}

/// `s` without the white space at both ends.
pub open spec fn trimmed(s: Seq<char>) -> Seq<char> {
    trim_back(trim_front(s))
}

/// Whether `s` holds nothing but white space.
pub open spec fn is_blank(s: Seq<char>) -> bool {
    trimmed(s).len() == 0
}

/// `s` without the white space at its start.
pub fn trim_start(s: &str) -> (r: String)
    ensures
        r@ == trim_front(s@),
{
    let v = chars_of(s);
    let mut i: usize = 0;
    assert(v@.subrange(0, v@.len() as int) == s@);
    while i < v.len() && is_white_space(v[i])
        invariant
            v@ == s@,
            0 <= i <= v@.len(),
            trim_front(s@) == trim_front(v@.subrange(i as int, v@.len() as int)),
        decreases v@.len() - i,
    {
        assert(v@.subrange(i as int, v@.len() as int).drop_first() == v@.subrange(
            i + 1,
            v@.len() as int,
        ));
        i = i + 1;
    }
    string_of(&v, i, v.len())
}

/// `s` without the white space at both ends.
pub fn trim(s: &str) -> (r: String)
    ensures
        r@ == trimmed(s@),
{
    let front = trim_start(s);
    let v = chars_of(front.as_str());
    let mut n: usize = v.len();
    assert(v@.subrange(0, v@.len() as int) == front@);
    while n > 0 && is_white_space(v[n - 1])
        invariant
            v@ == front@,
            0 <= n <= v@.len(),
            trim_back(front@) == trim_back(v@.subrange(0, n as int)),
        decreases n,
    {
        assert(v@.subrange(0, n as int).drop_last() == v@.subrange(0, n - 1));
        n = n - 1;
    }
    string_of(&v, 0, n)
}

/// Whether `s` holds nothing but white space.
pub fn blank(s: &str) -> (r: bool)
    ensures
        r == is_blank(s@),
{
    trim(s).as_str().is_empty()
}

/// `s` without the leading run of `c`.
pub open spec fn skip_run(s: Seq<char>, c: char) -> Seq<char>
    decreases s.len(),
{
    if s.len() > 0 && s[0] == c {
        skip_run(s.drop_first(), c)
    } else {
        s
    }
}

/// `s` without the leading run of `c`.
pub fn trim_leading(s: &str, c: char) -> (r: String)
    ensures
        r@ == skip_run(s@, c),
{
    let v = chars_of(s);
    let mut i: usize = 0;
    assert(v@.subrange(0, v@.len() as int) == s@);
    while i < v.len() && v[i] == c
        invariant
            v@ == s@,
            0 <= i <= v@.len(),
            skip_run(s@, c) == skip_run(v@.subrange(i as int, v@.len() as int), c),
        decreases v@.len() - i,
    {
        assert(v@.subrange(i as int, v@.len() as int).drop_first() == v@.subrange(
            i + 1,
            v@.len() as int,
        ));
        i = i + 1;
    }
    string_of(&v, i, v.len())
}

/// `s` without the trailing run of `c`.
pub open spec fn drop_run(s: Seq<char>, c: char) -> Seq<char>
    decreases s.len(),
{
    if s.len() > 0 && s.last() == c {
        drop_run(s.drop_last(), c)
    } else {
        s
    }
}

/// `s` without the trailing run of `c`.
pub fn trim_trailing(s: &str, c: char) -> (r: String)
    ensures
        r@ == drop_run(s@, c),
{
    let v = chars_of(s);
    let mut n: usize = v.len();
    assert(v@.subrange(0, v@.len() as int) == s@);
    while n > 0 && v[n - 1] == c
        invariant
            v@ == s@,
            0 <= n <= v@.len(),
            drop_run(s@, c) == drop_run(v@.subrange(0, n as int), c),
        decreases n,
    {
        assert(v@.subrange(0, n as int).drop_last() == v@.subrange(0, n - 1));
        n = n - 1;
    }
    string_of(&v, 0, n)
}

// ---- searching ---------------------------------------------------------

/// Whether `p` stands in `s` at index `i`.
pub open spec fn occurs_at(s: Seq<char>, p: Seq<char>, i: int) -> bool {
    0 <= i && i + p.len() <= s.len() && s.subrange(i, i + p.len()) == p
}

/// Whether `s` starts with `p`.
pub open spec fn has_prefix(s: Seq<char>, p: Seq<char>) -> bool {
    occurs_at(s, p, 0)
}

/// Whether `s` ends with `p`.
pub open spec fn has_suffix(s: Seq<char>, p: Seq<char>) -> bool {
    occurs_at(s, p, s.len() - p.len())
}

/// Whether `p` stands anywhere in `s`.
pub open spec fn has_text(s: Seq<char>, p: Seq<char>) -> bool {
    exists|i: int| #[trigger] occurs_at(s, p, i)
}

/// The first index at or after `i` at which `p` stands in `s`.
pub open spec fn find_from(s: Seq<char>, p: Seq<char>, i: int) -> Option<int>
    decreases s.len() + 1 - i,
{
    if i + p.len() > s.len() {
        None
    } else if occurs_at(s, p, i) {
        Some(i)
    } else {
        find_from(s, p, i + 1)
    }
}

/// A search that finds something finds an occurrence with none before it; one
/// that finds nothing leaves none out.
pub proof fn lemma_find_from(s: Seq<char>, p: Seq<char>, i: int)
    requires
        0 <= i,
    ensures
        match find_from(s, p, i) {
            Some(k) => i <= k && occurs_at(s, p, k) && forall|j: int|
                i <= j < k ==> !occurs_at(s, p, j),
            None => forall|j: int| i <= j ==> !occurs_at(s, p, j),
        },
    decreases s.len() + 1 - i,
{
    if i + p.len() <= s.len() && !occurs_at(s, p, i) {
        lemma_find_from(s, p, i + 1);
    }
}

/// `find_from` finds something exactly where the text occurs.
pub proof fn lemma_find_has_text(s: Seq<char>, p: Seq<char>)
    ensures
        find_from(s, p, 0) is Some <==> has_text(s, p),
{
    lemma_find_from(s, p, 0);
}

fn stands_at(s: &Vec<char>, p: &Vec<char>, at: usize) -> (r: bool)
    requires
        at + p@.len() <= s@.len(),
    ensures
        r == occurs_at(s@, p@, at as int),
{
    let n: usize = s.len();
    let mut i: usize = 0;
    while i < p.len()
        invariant
            at + p@.len() <= s@.len(),
            n == s@.len(),
            0 <= i <= p@.len(),
            forall|j: int| 0 <= j < i ==> s@[at + j] == p@[j],
        decreases p@.len() - i,
    {
        if s[at + i] != p[i] {
            assert(s@.subrange(at as int, at + p@.len())[i as int] != p@[i as int]);
            return false;
        }
        i = i + 1;
    }
    assert(s@.subrange(at as int, at + p@.len()) == p@);
    true
}

fn find_in(s: &Vec<char>, p: &Vec<char>) -> (r: Option<usize>)
    ensures
        match r {
            Some(k) => find_from(s@, p@, 0) == Some(k as int),
            None => find_from(s@, p@, 0) is None,
        },
{
    if p.len() > s.len() {
        return None;
    }
    let last: usize = s.len() - p.len();
    let mut i: usize = 0;
    while i <= last
        invariant
            last == s@.len() - p@.len(),
            0 <= i <= last + 1,
            last + 1 <= usize::MAX || i <= last,
            find_from(s@, p@, 0) == find_from(s@, p@, i as int),
        decreases last + 1 - i,
    {
        if stands_at(s, p, i) {
            return Some(i);
        }
        if i == last {
            assert(find_from(s@, p@, last + 1) is None);
            return None;
        }
        i = i + 1;
    }
    None
}

/// Where `p` first stands in `s`, counted in characters.
pub fn find(s: &str, p: &str) -> (r: Option<usize>)
    ensures
        match r {
            Some(k) => find_from(s@, p@, 0) == Some(k as int),
            None => find_from(s@, p@, 0) is None,
        },
{
    find_in(&chars_of(s), &chars_of(p))
}

/// Whether `p` stands anywhere in `s`.
pub fn contains(s: &str, p: &str) -> (r: bool)
    ensures
        r == has_text(s@, p@),
{
    proof {
        lemma_find_has_text(s@, p@);
    }
    find(s, p).is_some()
}

/// Whether `s` starts with `p`.
pub fn starts_with(s: &str, p: &str) -> (r: bool)
    ensures
        r == has_prefix(s@, p@),
{
    let v = chars_of(s);
    let w = chars_of(p);
    w.len() <= v.len() && stands_at(&v, &w, 0)
}

/// Whether `s` ends with `p`.
pub fn ends_with(s: &str, p: &str) -> (r: bool)
    ensures
        r == has_suffix(s@, p@),
{
    let v = chars_of(s);
    let w = chars_of(p);
    if w.len() > v.len() {
        return false;
    }
    stands_at(&v, &w, v.len() - w.len())
}

/// Whether the first character of `s` is `c`.
pub open spec fn begins_with(s: Seq<char>, c: char) -> bool {
    s.len() > 0 && s[0] == c
}

/// Whether the first character of `s` is `c`.
pub fn starts_with_char(s: &str, c: char) -> (r: bool)
    ensures
        r == begins_with(s@, c),
{
    let v = chars_of(s);
    v.len() > 0 && v[0] == c
}

/// The first index at or after `i` that holds `c`.
pub open spec fn index_from(s: Seq<char>, c: char, i: int) -> Option<int>
    decreases s.len() - i,
{
    if i >= s.len() {
        None
    } else if s[i] == c {
        Some(i)
    } else {
        index_from(s, c, i + 1)
    }
}

/// What `index_from` finds is the first place of the character.
pub proof fn lemma_index_from(s: Seq<char>, c: char, i: int)
    requires
        0 <= i,
    ensures
        match index_from(s, c, i) {
            Some(k) => i <= k < s.len() && s[k] == c && forall|j: int| i <= j < k ==> s[j] != c,
            None => forall|j: int| i <= j < s.len() ==> s[j] != c,
        },
    decreases s.len() - i,
{
    if i < s.len() && s[i] != c {
        lemma_index_from(s, c, i + 1);
    }
}

fn index_in(s: &Vec<char>, c: char, from: usize) -> (r: Option<usize>)
    requires
        from <= s@.len(),
    ensures
        match r {
            Some(k) => index_from(s@, c, from as int) == Some(k as int) && from <= k < s@.len(),
            None => index_from(s@, c, from as int) is None,
        },
{
    let mut i: usize = from;
    while i < s.len()
        invariant
            from <= i <= s@.len(),
            index_from(s@, c, from as int) == index_from(s@, c, i as int),
        decreases s@.len() - i,
    {
        if s[i] == c {
            return Some(i);
        }
        i = i + 1;
    }
    None
}

/// The part of `s` before the first `c`, or all of `s`.
pub open spec fn before(s: Seq<char>, c: char) -> Seq<char> {
    match index_from(s, c, 0) {
        Some(i) => s.take(i),
        None => s,
    }
}

/// The part of `s` between the first `c` and the next one.
pub open spec fn second_part(s: Seq<char>, c: char) -> Option<Seq<char>> {
    match index_from(s, c, 0) {
        Some(i) => Some(before(s.skip(i + 1), c)),
        None => None,
    }
}

/// The last index below `n` that holds `c`.
pub open spec fn last_index_below(s: Seq<char>, c: char, n: int) -> Option<int>
    decreases n,
{
    if n <= 0 {
        None
    } else if s[n - 1] == c {
        Some(n - 1)
    } else {
        last_index_below(s, c, n - 1)
    }
}

/// The part of `s` behind the last `c`, or all of `s`.
pub open spec fn last_part(s: Seq<char>, c: char) -> Seq<char> {
    match last_index_below(s, c, s.len() as int) {
        Some(i) => s.skip(i + 1),
        None => s,
    }
}

/// The part of `s` before the first `c`, or all of `s`.
pub fn part_before(s: &str, c: char) -> (r: String)
    ensures
        r@ == before(s@, c),
{
    let v = chars_of(s);
    match index_in(&v, c, 0) {
        Some(i) => {
            assert(v@.subrange(0, i as int) == s@.take(i as int));
            string_of(&v, 0, i)
        },
        None => s.to_owned(),
    }
}

/// The part of `s` behind the first `c`.
pub open spec fn after_first(s: Seq<char>, c: char) -> Option<Seq<char>> {
    match index_from(s, c, 0) {
        Some(i) => Some(s.skip(i + 1)),
        None => None,
    }
}

/// The part of `s` behind the first `c`.
pub fn part_behind(s: &str, c: char) -> (r: Option<String>)
    ensures
        r.deep_view() == after_first(s@, c),
{
    let v = chars_of(s);
    let n: usize = v.len();
    match index_in(&v, c, 0) {
        Some(i) => {
            assert(i < n);
            assert(v@.subrange(i + 1, v@.len() as int) == s@.skip(i + 1));
            Some(string_of(&v, i + 1, v.len()))
        },
        None => None,
    }
}

/// The part of `s` between the first `c` and the next one.
pub fn part_after(s: &str, c: char) -> (r: Option<String>)
    ensures
        r.deep_view() == second_part(s@, c),
{
    match part_behind(s, c) {
        Some(rest) => Some(part_before(rest.as_str(), c)),
        None => None,
    }
}

/// The part of `s` behind the last `c`, or all of `s`.
pub fn part_last(s: &str, c: char) -> (r: String)
    ensures
        r@ == last_part(s@, c),
{
    let v = chars_of(s);
    let mut n: usize = v.len();
    while n > 0 && v[n - 1] != c
        invariant
            v@ == s@,
            0 <= n <= v@.len(),
            last_index_below(s@, c, s@.len() as int) == last_index_below(s@, c, n as int),
        decreases n,
    {
        n = n - 1;
    }
    assert(v@.subrange(n as int, v@.len() as int) == s@.skip(n as int));
    assert(s@.skip(0) == s@);
    string_of(&v, n, v.len())
}

/// The parts of `s` between the occurrences of `c`; one part more than there
/// are occurrences.
pub open spec fn split(s: Seq<char>, c: char) -> Seq<Seq<char>>
    decreases s.len(),
{
    match index_from(s, c, 0) {
        Some(i) => if 0 <= i < s.len() {
            seq![s.take(i)] + split(s.skip(i + 1), c)
        } else {
            seq![s]
        },
        None => seq![s],
    }
}

/// The parts of `s` between the occurrences of `c`.
pub fn split_at_char(s: &str, c: char) -> (r: Vec<String>)
    ensures
        r.deep_view() == split(s@, c),
{
    let v = chars_of(s);
    let n: usize = v.len();
    let mut out: Vec<String> = Vec::new();
    let mut from: usize = 0;
    assert(v@.skip(0) == s@);
    assert(out.deep_view() + split(s@, c) == split(s@, c));
    loop
        invariant_except_break
            v@ == s@,
            n == v@.len(),
            0 <= from <= v@.len(),
            out.deep_view() + split(v@.skip(from as int), c) == split(s@, c),
        ensures
            out.deep_view() == split(s@, c),
        decreases v@.len() - from,
    {
        let ghost rest = v@.skip(from as int);
        let ghost before_push = out.deep_view();
        proof {
            lemma_index_skip(v@, c, from as int);
            lemma_index_from(rest, c, 0);
        }
        match index_in(&v, c, from) {
            Some(i) => {
                out.push(string_of(&v, from, i));
                assert(v@.subrange(from as int, i as int) == rest.take(i - from));
                assert(rest.skip(i - from + 1) == v@.skip(i + 1));
                assert(out.deep_view() == before_push.push(rest.take(i - from)));
                assert(before_push + split(rest, c) == out.deep_view() + split(v@.skip(i + 1), c));
                from = i + 1;
            },
            None => {
                out.push(string_of(&v, from, v.len()));
                assert(v@.subrange(from as int, v@.len() as int) == rest);
                assert(out.deep_view() == before_push + seq![rest]);
                break;
            },
        }
    }
    out
}

proof fn lemma_index_skip(s: Seq<char>, c: char, n: int)
    requires
        0 <= n <= s.len(),
    ensures
        index_from(s, c, n) == match index_from(s.skip(n), c, 0) {
            Some(k) => Some(n + k),
            None => None::<int>,
        },
{
    lemma_index_from(s, c, n);
    lemma_index_from(s.skip(n), c, 0);
    let a = index_from(s, c, n);
    let b = index_from(s.skip(n), c, 0);
    assert forall|j: int| n <= j < s.len() implies s[j] == #[trigger] s.skip(n)[j - n] by {}
    if a is Some && b is Some {
        assert(s.skip(n)[a->0 - n] == c);
        assert(s[n + b->0] == c);
    } else if a is Some {
        assert(s.skip(n)[a->0 - n] == c);
    } else if b is Some {
        assert(s[n + b->0] == c);
    }
}

// ---- letter case -------------------------------------------------------

/// An ASCII capital letter as its small letter; any other character itself.
pub open spec fn ascii_lower(c: char) -> char {
    if 'A' <= c <= 'Z' {
        (c as u8 + 32) as char
    } else {
        c
    }
}

/// `s` with each ASCII capital letter made small.
pub open spec fn ascii_lowercase(s: Seq<char>) -> Seq<char> {
    s.map_values(|c: char| ascii_lower(c))
}

/// What `str::to_lowercase` makes of a text by Unicode's rules.
pub uninterp spec fn unicode_lowercase(s: Seq<char>) -> Seq<char>;

/// `s` in small letters: by the ASCII table where `s` is ASCII, by Unicode's
/// rules elsewhere.
pub open spec fn lowercase(s: Seq<char>) -> Seq<char> {
    if is_ascii_chars(s) {
        ascii_lowercase(s)
    } else {
        unicode_lowercase(s)
    }
}

/// Calls `str::to_lowercase`. Its result is a function of the text alone; the
/// contract names it and claims nothing else.
#[verifier::external_body]
fn std_lowercase(s: &str) -> (r: String)
    ensures
        r@ == unicode_lowercase(s@),
{
    s.to_lowercase()
}

/// `s` with each ASCII capital letter made small.
pub fn to_ascii_lower(s: &str) -> (r: String)
    ensures
        r@ == ascii_lowercase(s@),
{
    let v = chars_of(s);
    let mut out = String::new();
    let mut i: usize = 0;
    while i < v.len()
        invariant
            v@ == s@,
            0 <= i <= v@.len(),
            out@ == ascii_lowercase(s@.take(i as int)),
        decreases v@.len() - i,
    {
        let c = v[i];
        let small = if 'A' <= c && c <= 'Z' {
            (c as u8 + 32) as char
        } else {
            c
        };
        out.push(small);
        assert(s@.take(i + 1) == s@.take(i as int).push(c));
        i = i + 1;
    }
    assert(s@.take(s@.len() as int) == s@);
    out
}

/// `s` in small letters.
pub fn to_lower(s: &str) -> (r: String)
    ensures
        r@ == lowercase(s@),
{
    if s.is_ascii() {
        to_ascii_lower(s)
    } else {
        std_lowercase(s)
    }
}

// ---- numbers -----------------------------------------------------------

/// The decimal digit of `n`, for `n` below ten.
pub open spec fn digit(n: nat) -> char {
    ('0' as u32 + n) as char
}

/// `n` in decimal notation.
pub open spec fn decimal(n: nat) -> Seq<char>
    decreases n,
{
    if n < 10 {
        seq![digit(n)]
    } else {
        decimal(n / 10).push(digit(n % 10))
    }
}

fn digit_char(n: u64) -> (c: char)
    requires
        n < 10,
    ensures
        c == digit(n as nat),
{
    (48 + n as u8) as char
}

/// `n` in decimal notation.
pub fn number(n: u64) -> (r: String)
    ensures
        r@ == decimal(n as nat),
    decreases n,
{
    if n < 10 {
        let mut s = String::new();
        s.push(digit_char(n));
        assert(s@ == seq![digit(n as nat)]);
        s
    } else {
        let mut s = number(n / 10);
        s.push(digit_char(n % 10));
        s
    }
}

/// The value of a decimal digit.
pub open spec fn digit_value(c: char) -> nat {
    (c as u32 - '0' as u32) as nat
}

/// Whether every character is a decimal digit.
pub open spec fn all_digits(s: Seq<char>) -> bool {
    forall|i: int| 0 <= i < s.len() ==> '0' <= #[trigger] s[i] <= '9'
}

/// The number that a row of decimal digits stands for.
pub open spec fn digits_value(s: Seq<char>) -> nat
    decreases s.len(),
{
    if s.len() == 0 {
        0
    } else {
        digits_value(s.drop_last()) * 10 + digit_value(s.last())
    }
}

/// A number reads back from its decimal notation.
pub proof fn lemma_decimal_value(n: nat)
    ensures
        digits_value(decimal(n)) == n,
        all_digits(decimal(n)),
        decimal(n).len() > 0,
    decreases n,
{
    let d = decimal(n);
    if n < 10 {
        assert(d.drop_last() =~= Seq::empty());
        assert(digits_value(d.drop_last()) == 0);
    } else {
        lemma_decimal_value(n / 10);
        assert(d.drop_last() =~= decimal(n / 10));
    }
}

/// The digits of a number as written, without the plus sign that may stand
/// before them.
pub open spec fn unsigned_digits(s: Seq<char>) -> Seq<char> {
    if begins_with(s, '+') {
        s.skip(1)
    } else {
        s
    }
}

/// Whether `s` is an unsigned number that fits in `usize`: digits, with at
/// most one plus sign before them.
pub open spec fn is_usize_text(s: Seq<char>) -> bool {
    let d = unsigned_digits(s);
    d.len() > 0 && all_digits(d) && digits_value(d) <= usize::MAX
}

proof fn lemma_digits_value_grows(s: Seq<char>, n: int)
    requires
        0 <= n <= s.len(),
    ensures
        digits_value(s.take(n)) <= digits_value(s),
    decreases s.len() - n,
{
    if n < s.len() {
        lemma_digits_value_grows(s, n + 1);
        assert(s.take(n + 1).drop_last() == s.take(n));
    } else {
        assert(s.take(n) == s);
    }
}

/// Reads an unsigned number.
pub fn parse_usize(s: &str) -> (r: Option<usize>)
    ensures
        match r {
            Some(n) => is_usize_text(s@) && n == digits_value(unsigned_digits(s@)),
            None => !is_usize_text(s@),
        },
{
    let v = chars_of(s);
    let start: usize = if v.len() > 0 && v[0] == '+' {
        1
    } else {
        0
    };
    let ghost d = unsigned_digits(s@);
    assert(d == v@.skip(start as int));
    if start >= v.len() {
        return None;
    }
    let mut total: usize = 0;
    let mut i: usize = start;
    assert(d.take(0) == Seq::<char>::empty());
    while i < v.len()
        invariant
            v@ == s@,
            d == unsigned_digits(s@),
            d == v@.skip(start as int),
            start <= i <= v@.len(),
            forall|j: int| 0 <= j < i - start ==> '0' <= #[trigger] d[j] <= '9',
            total == digits_value(d.take(i - start)),
        decreases v@.len() - i,
    {
        let c = v[i];
        assert(d[i - start] == c);
        if c < '0' || '9' < c {
            return None;
        }
        let value: usize = (c as u32 - '0' as u32) as usize;
        assert(d.take(i - start + 1).drop_last() == d.take(i - start));
        assert(digits_value(d.take(i - start + 1)) == total * 10 + value);
        proof {
            lemma_digits_value_grows(d, i - start + 1);
        }
        match total.checked_mul(10) {
            Some(tens) => match tens.checked_add(value) {
                Some(sum) => {
                    total = sum;
                },
                None => {
                    return None;
                },
            },
            None => {
                return None;
            },
        }
        i = i + 1;
    }
    assert(d.take(d.len() as int) == d);
    Some(total)
}

// ---- joining -----------------------------------------------------------

/// The parts one behind the other, with `sep` between any two.
pub open spec fn joined(parts: Seq<Seq<char>>, sep: Seq<char>) -> Seq<char>
    decreases parts.len(),
{
    if parts.len() == 0 {
        Seq::empty()
    } else if parts.len() == 1 {
        parts[0]
    } else {
        joined(parts.drop_last(), sep) + sep + parts.last()
    }
}

/// The parts one behind the other, with `sep` between any two.
pub fn join(parts: &Vec<String>, sep: &str) -> (r: String)
    ensures
        r@ == joined(parts.deep_view(), sep@),
{
    let mut out = String::new();
    let mut i: usize = 0;
    let ghost all = parts.deep_view();
    while i < parts.len()
        invariant
            all == parts.deep_view(),
            0 <= i <= parts@.len(),
            out@ == joined(all.take(i as int), sep@),
        decreases parts@.len() - i,
    {
        if i > 0 {
            out.append(sep);
        }
        out.append(parts[i].as_str());
        assert(all.take(i + 1).drop_last() == all.take(i as int));
        assert(all[i as int] == parts@[i as int]@);
        assert(out@ == joined(all.take(i + 1), sep@));
        i = i + 1;
    }
    assert(all.take(all.len() as int) == all);
    out
}

// ---- byte offsets ------------------------------------------------------

/// The number of bytes that a character takes in UTF-8.
pub open spec fn utf8_len(c: char) -> nat {
    let n = c as u32;
    if n < 0x80 {
        1
    } else if n < 0x800 {
        2
    } else if n < 0x10000 {
        3
    } else {
        4
    }
}

/// The number of bytes that a text takes in UTF-8.
pub open spec fn byte_len(s: Seq<char>) -> nat
    decreases s.len(),
{
    if s.len() == 0 {
        0
    } else {
        byte_len(s.drop_last()) + utf8_len(s.last())
    }
}

/// The text behind the first `n` bytes of `s`, where a character ends there.
pub open spec fn behind_bytes(s: Seq<char>, n: int) -> Option<Seq<char>>
    decreases s.len(),
{
    if n == 0 {
        Some(s)
    } else if s.len() == 0 || n < utf8_len(s[0]) {
        None
    } else {
        behind_bytes(s.drop_first(), n - utf8_len(s[0]))
    }
}

fn char_bytes(c: char) -> (n: u128)
    ensures
        n == utf8_len(c),
{
    let v: u32 = c as u32;
    if v < 0x80 {
        1
    } else if v < 0x800 {
        2
    } else if v < 0x10000 {
        3
    } else {
        4
    }
}

fn count_bytes(s: &str) -> (n: u128)
    ensures
        n == byte_len(s@),
{
    let v = chars_of(s);
    let mut n: u128 = 0;
    let mut i: usize = 0;
    while i < v.len()
        invariant
            v@ == s@,
            0 <= i <= v@.len(),
            n == byte_len(s@.take(i as int)),
            n <= 4 * i,
        decreases v@.len() - i,
    {
        assert(s@.take(i + 1).drop_last() == s@.take(i as int));
        n = n + char_bytes(v[i]);
        i = i + 1;
    }
    assert(s@.take(s@.len() as int) == s@);
    n
}

/// The text of `s` behind as many bytes as `head` takes; `None` where no
/// character of `s` ends there.
pub fn behind(s: &str, head: &str) -> (r: Option<String>)
    ensures
        r.deep_view() == behind_bytes(s@, byte_len(head@) as int),
{
    let v = chars_of(s);
    let ghost whole = byte_len(head@) as int;
    let mut left: u128 = count_bytes(head);
    let mut i: usize = 0;
    assert(v@.skip(0) == s@);
    while left > 0
        invariant
            v@ == s@,
            whole == byte_len(head@),
            0 <= i <= v@.len(),
            behind_bytes(s@, whole) == behind_bytes(v@.skip(i as int), left as int),
        decreases v@.len() - i,
    {
        if i >= v.len() {
            return None;
        }
        let width: u128 = char_bytes(v[i]);
        if left < width {
            return None;
        }
        assert(v@.skip(i as int).drop_first() == v@.skip(i + 1));
        left = left - width;
        i = i + 1;
    }
    assert(v@.subrange(i as int, v@.len() as int) == v@.skip(i as int));
    Some(string_of(&v, i, v.len()))
}

/// A text cut behind a prefix of itself leaves the rest.
pub proof fn lemma_behind_prefix(head: Seq<char>, rest: Seq<char>)
    ensures
        behind_bytes(head + rest, byte_len(head) as int) == Some(rest),
    decreases head.len(),
{
    if head.len() == 0 {
        assert(head + rest == rest);
    } else {
        lemma_byte_len_first(head);
        lemma_behind_prefix(head.drop_first(), rest);
        assert((head + rest).drop_first() == head.drop_first() + rest);
    }
}

proof fn lemma_byte_len_first(s: Seq<char>)
    requires
        s.len() > 0,
    ensures
        byte_len(s) == utf8_len(s[0]) + byte_len(s.drop_first()),
    decreases s.len(),
{
    if s.len() > 1 {
        lemma_byte_len_first(s.drop_last());
        assert(s.drop_last().drop_first() == s.drop_first().drop_last());
        assert(s.drop_first().last() == s.last());
    } else {
        assert(s.last() == s[0]);
        assert(byte_len(s.drop_last()) == 0);
        assert(byte_len(s.drop_first()) == 0);
    }
}

/// In an ASCII text each character takes one byte.
pub proof fn lemma_ascii_byte_len(s: Seq<char>)
    requires
        is_ascii_chars(s),
    ensures
        byte_len(s) == s.len(),
    decreases s.len(),
{
    if s.len() > 0 {
        assert(is_ascii_chars(s.drop_last()));
        lemma_ascii_byte_len(s.drop_last());
    }
}

// ---- laws --------------------------------------------------------------

/// A text holds whatever it was put together around, and is put together
/// around whatever it holds.
pub proof fn what_is_held_stands_inside(head: Seq<char>, p: Seq<char>, tail: Seq<char>, s: Seq<char>)
    ensures
        has_text(head + p + tail, p),
        has_prefix(p + tail, p),
        has_suffix(head + p, p),
        has_text(s, p) ==> exists|i: int|
            0 <= i <= s.len() - p.len() && s == #[trigger] s.take(i) + p + s.skip(i + p.len()),
        has_prefix(s, p) ==> s == p + s.skip(p.len() as int),
        has_suffix(s, p) ==> s == s.take(s.len() - p.len()) + p,
{
    let whole = head + p + tail;
    assert(whole.subrange(head.len() as int, head.len() as int + p.len()) =~= p);
    assert(occurs_at(whole, p, head.len() as int));
    assert((p + tail).subrange(0, p.len() as int) =~= p);
    assert((head + p).subrange((head + p).len() - p.len(), (head + p).len() as int) =~= p);
    if has_text(s, p) {
        let i = choose|i: int| #[trigger] occurs_at(s, p, i);
        assert(s =~= s.take(i) + s.subrange(i, i + p.len()) + s.skip(i + p.len()));
    }
    if has_prefix(s, p) {
        assert(s =~= s.subrange(0, p.len() as int) + s.skip(p.len() as int));
    }
    if has_suffix(s, p) {
        assert(s =~= s.take(s.len() - p.len()) + s.subrange(s.len() - p.len(), s.len() as int));
    }
}

/// A text with a separator in it comes apart at the separator: at the first
/// one, where what stands before it has none, and at the last one, where what
/// stands behind it has none. One without a separator stays whole.
pub proof fn texts_come_apart(head: Seq<char>, c: char, tail: Seq<char>)
    ensures
        !head.contains(c) ==> {
            &&& before(head, c) == head
            &&& after_first(head, c) is None
            &&& second_part(head, c) is None
            &&& last_part(head, c) == head
            &&& split(head, c) == seq![head]
            &&& before(head + seq![c] + tail, c) == head
            &&& after_first(head + seq![c] + tail, c) == Some(tail)
            &&& split(head + seq![c] + tail, c) == seq![head] + split(tail, c)
            &&& !tail.contains(c) ==> second_part(head + seq![c] + tail, c) == Some(tail)
        },
        !tail.contains(c) ==> last_part(head + seq![c] + tail, c) == tail,
{
    let s = head + seq![c] + tail;
    lemma_index_from(head, c, 0);
    lemma_index_from(tail, c, 0);
    lemma_index_from(s, c, 0);
    lemma_last_index(head, c, head.len() as int);
    lemma_last_index(s, c, s.len() as int);
    assert(s[head.len() as int] == c);
    if !head.contains(c) {
        assert forall|j: int| 0 <= j < head.len() implies s[j] != c by {
            assert(head.contains(head[j]));
        }
        assert forall|j: int| 0 <= j < head.len() implies head[j] != c by {
            assert(head.contains(head[j]));
        }
        assert(index_from(head, c, 0) is None);
        assert(index_from(s, c, 0) == Some(head.len() as int));
        assert(s.take(head.len() as int) =~= head);
        assert(s.skip(head.len() as int + 1) =~= tail);
        if !tail.contains(c) {
            assert forall|j: int| 0 <= j < tail.len() implies tail[j] != c by {
                assert(tail.contains(tail[j]));
            }
        }
    }
    if !tail.contains(c) {
        assert forall|j: int| head.len() < j < s.len() implies s[j] != c by {
            assert(s[j] == tail[j - head.len() - 1]);
            assert(tail.contains(tail[j - head.len() - 1]));
        }
        assert(s.skip(head.len() as int + 1) =~= tail);
    }
}

proof fn lemma_last_index(s: Seq<char>, c: char, n: int)
    requires
        0 <= n <= s.len(),
    ensures
        match last_index_below(s, c, n) {
            Some(k) => 0 <= k < n && s[k] == c && forall|j: int| k < j < n ==> s[j] != c,
            None => forall|j: int| 0 <= j < n ==> s[j] != c,
        },
    decreases n,
{
    if n > 0 && s[n - 1] != c {
        lemma_last_index(s, c, n - 1);
    }
}

/// A text is its parts with the separator between them, and no part holds the
/// separator.
pub proof fn parts_make_up_the_text(s: Seq<char>, c: char)
    ensures
        joined(split(s, c), seq![c]) == s,
        split(s, c).len() > 0,
        forall|i: int| 0 <= i < split(s, c).len() ==> !(#[trigger] split(s, c)[i]).contains(c),
    decreases s.len(),
{
    lemma_index_from(s, c, 0);
    match index_from(s, c, 0) {
        Some(i) => {
            let rest = split(s.skip(i + 1), c);
            parts_make_up_the_text(s.skip(i + 1), c);
            assert(!s.take(i).contains(c));
            joining_keeps_the_order(seq![s.take(i)], rest, seq![c]);
            assert(s =~= s.take(i) + seq![c] + s.skip(i + 1));
            assert forall|k: int| 0 <= k < split(s, c).len() implies !(#[trigger] split(
                s,
                c,
            )[k]).contains(c) by {
                if k > 0 {
                    assert(split(s, c)[k] == rest[k - 1]);
                }
            }
        },
        None => {
            assert(!s.contains(c));
        },
    }
}

/// Two runs of texts that are joined give the two joined texts, with the
/// separator between them; one text alone stays as it is, and none give the
/// empty text.
pub proof fn joining_keeps_the_order(a: Seq<Seq<char>>, b: Seq<Seq<char>>, sep: Seq<char>)
    ensures
        a.len() == 0 ==> joined(a, sep).len() == 0,
        a.len() == 1 ==> joined(a, sep) == a[0],
        a.len() > 0 && b.len() > 0 ==> joined(a + b, sep) == joined(a, sep) + sep + joined(b, sep),
    decreases b.len(),
{
    if a.len() > 0 && b.len() > 0 {
        assert((a + b).drop_last() =~= a + b.drop_last());
        assert((a + b).last() == b.last());
        if b.len() == 1 {
            assert(a + b.drop_last() =~= a);
        } else {
            joining_keeps_the_order(a, b.drop_last(), sep);
        }
    }
}

/// Trimming takes white space off both ends, all of it, and nothing else.
pub proof fn trimming_takes_white_ends(s: Seq<char>)
    ensures
        exists|i: int, j: int|
            {
                &&& 0 <= i <= j <= s.len()
                &&& trimmed(s) == #[trigger] s.subrange(i, j)
                &&& forall|k: int| 0 <= k < i ==> is_white(#[trigger] s[k])
                &&& forall|k: int| j <= k < s.len() ==> is_white(#[trigger] s[k])
            },
        trimmed(s).len() > 0 ==> !is_white(trimmed(s)[0]) && !is_white(trimmed(s).last()),
{
    let i = lemma_trim_front(s);
    let front = trim_front(s);
    let n = lemma_trim_back(front);
    assert(trimmed(s) =~= s.subrange(i, i + n));
    assert forall|k: int| i + n <= k < s.len() implies is_white(#[trigger] s[k]) by {
        assert(s[k] == front[k - i]);
    }
}

proof fn lemma_trim_front(s: Seq<char>) -> (i: int)
    ensures
        0 <= i <= s.len(),
        trim_front(s) == s.skip(i),
        forall|k: int| 0 <= k < i ==> is_white(#[trigger] s[k]),
        i < s.len() ==> !is_white(s[i]),
    decreases s.len(),
{
    if s.len() > 0 && is_white(s[0]) {
        let rest = s.drop_first();
        let i = lemma_trim_front(rest);
        assert(rest.skip(i) =~= s.skip(i + 1));
        assert forall|k: int| 0 <= k < i + 1 implies is_white(#[trigger] s[k]) by {
            if k > 0 {
                assert(s[k] == rest[k - 1]);
            }
        }
        i + 1
    } else {
        assert(s.skip(0) =~= s);
        0
    }
}

proof fn lemma_trim_back(s: Seq<char>) -> (n: int)
    ensures
        0 <= n <= s.len(),
        trim_back(s) == s.take(n),
        forall|k: int| n <= k < s.len() ==> is_white(#[trigger] s[k]),
        n > 0 ==> !is_white(s[n - 1]),
    decreases s.len(),
{
    if s.len() > 0 && is_white(s.last()) {
        let rest = s.drop_last();
        let n = lemma_trim_back(rest);
        assert(rest.take(n) =~= s.take(n));
        assert forall|k: int| n <= k < s.len() implies is_white(#[trigger] s[k]) by {
            if k < rest.len() {
                assert(s[k] == rest[k]);
            }
        }
        n
    } else {
        assert(s.take(s.len() as int) =~= s);
        s.len() as int
    }
}

/// The white space of ASCII is what counts as such there, and no more.
pub proof fn ascii_white_space(c: char)
    requires
        c as u32 <= 0x7F,
    ensures
        is_white(c) <==> c == ' ' || c == '\t' || c == '\n' || c == '\r' || c as u32 == 11
            || c as u32 == 12,
{
}

/// A run at an end is taken off whole, and nothing behind it.
pub proof fn runs_are_taken_whole(s: Seq<char>, c: char)
    ensures
        !begins_with(skip_run(s, c), c),
        exists|n: int|
            0 <= n <= s.len() && skip_run(s, c) == #[trigger] s.skip(n) && forall|k: int|
                0 <= k < n ==> s[k] == c,
        drop_run(s, c).len() > 0 ==> drop_run(s, c).last() != c,
        exists|n: int|
            0 <= n <= s.len() && drop_run(s, c) == #[trigger] s.take(n) && forall|k: int|
                n <= k < s.len() ==> s[k] == c,
    decreases s.len(),
{
    if s.len() > 0 && s[0] == c {
        let rest = s.drop_first();
        runs_are_taken_whole(rest, c);
        let n = choose|n: int|
            0 <= n <= rest.len() && skip_run(rest, c) == #[trigger] rest.skip(n) && forall|k: int|
                0 <= k < n ==> rest[k] == c;
        assert(rest.skip(n) =~= s.skip(n + 1));
        assert forall|k: int| 0 <= k < n + 1 implies s[k] == c by {
            if k > 0 {
                assert(s[k] == rest[k - 1]);
            }
        }
    } else {
        assert(s.skip(0) =~= s);
    }
    if s.len() > 0 && s.last() == c {
        let rest = s.drop_last();
        runs_are_taken_whole(rest, c);
        let n = choose|n: int|
            0 <= n <= rest.len() && drop_run(rest, c) == #[trigger] rest.take(n) && forall|k: int|
                n <= k < rest.len() ==> rest[k] == c;
        assert(rest.take(n) =~= s.take(n));
        assert forall|k: int| n <= k < s.len() implies s[k] == c by {
            if k < rest.len() {
                assert(s[k] == rest[k]);
            }
        }
    } else {
        assert(s.take(s.len() as int) =~= s);
    }
}

/// Lower case keeps every character of an ASCII text but its capitals, which
/// become the letters that stand a fixed distance behind them.
pub proof fn lower_case_goes_by_the_letter(s: Seq<char>, i: int)
    requires
        is_ascii_chars(s),
        0 <= i < s.len(),
    ensures
        lowercase(s).len() == s.len(),
        65 <= s[i] as u32 <= 90 ==> lowercase(s)[i] as u32 == s[i] as u32 + 32,
        !(65 <= s[i] as u32 <= 90) ==> lowercase(s)[i] == s[i],
        lowercase(lowercase(s)) == lowercase(s),
{
    let low = lowercase(s);
    assert(is_ascii_chars(low));
    assert(lowercase(low) =~= low);
}

/// The bytes of two texts add up.
pub proof fn bytes_add_up(a: Seq<char>, b: Seq<char>)
    ensures
        byte_len(a + b) == byte_len(a) + byte_len(b),
    decreases b.len(),
{
    if b.len() > 0 {
        assert((a + b).drop_last() =~= a + b.drop_last());
        bytes_add_up(a, b.drop_last());
    } else {
        assert(a + b =~= a);
    }
}

/// A number in figures has no leading zero, and two numbers have different
/// figures.
pub proof fn figures_tell_the_number(n: nat, m: nat)
    ensures
        n >= 10 ==> decimal(n)[0] != '0',
        n < 10 ==> decimal(n).len() == 1,
        n != m ==> decimal(n) != decimal(m),
    decreases n,
{
    lemma_decimal_value(n);
    lemma_decimal_value(m);
    if n >= 10 {
        figures_tell_the_number(n / 10, n / 10);
        lemma_decimal_value(n / 10);
        assert(decimal(n)[0] == decimal(n / 10)[0]);
    }
}

/// Two ASCII texts in lower case are the lower case of the two.
pub proof fn lower_case_adds_up(a: Seq<char>, b: Seq<char>)
    requires
        is_ascii_chars(a),
        is_ascii_chars(b),
    ensures
        is_ascii_chars(a + b),
        lowercase(a + b) == lowercase(a) + lowercase(b),
{
    assert forall|i: int| 0 <= i < (a + b).len() implies '\0' <= #[trigger] (a + b)[i]
        <= '\u{7f}' by {
        if i < a.len() {
            assert((a + b)[i] == a[i]);
        } else {
            assert((a + b)[i] == b[i - a.len()]);
        }
    }
    assert(ascii_lowercase(a + b) =~= ascii_lowercase(a) + ascii_lowercase(b));
}

/// A number is read with leading zeros or a plus sign as without, and nothing
/// but figures is read as a number.
pub proof fn numbers_are_read(n: nat, s: Seq<char>, i: int)
    requires
        n <= usize::MAX,
    ensures
        is_usize_text(decimal(n)),
        digits_value(unsigned_digits(decimal(n))) == n,
        is_usize_text(seq!['+'] + decimal(n)),
        digits_value(unsigned_digits(seq!['+'] + decimal(n))) == n,
        digits_value(seq!['0'] + s) == digits_value(s),
        0 < i < s.len() && !('0' <= s[i] <= '9') ==> !is_usize_text(s),
        s.len() == 0 ==> !is_usize_text(s),
{
    lemma_decimal_value(n);
    let d = decimal(n);
    assert('0' <= d[0] <= '9');
    assert((seq!['+'] + d).skip(1) =~= d);
    lemma_leading_zero(s);
    if 0 < i < s.len() && !('0' <= s[i] <= '9') {
        if begins_with(s, '+') {
            assert(s.skip(1)[i - 1] == s[i]);
        }
    }
}

proof fn lemma_leading_zero(s: Seq<char>)
    ensures
        digits_value(seq!['0'] + s) == digits_value(s),
    decreases s.len(),
{
    let t = seq!['0'] + s;
    if s.len() > 0 {
        lemma_leading_zero(s.drop_last());
        assert(t.drop_last() =~= seq!['0'] + s.drop_last());
        assert(t.last() == s.last());
    } else {
        assert(t.drop_last() =~= Seq::empty());
        assert(digits_value(t.drop_last()) == 0);
    }
}

/// A text is blank where it is nothing but white space.
pub proof fn blank_texts_are_white(s: Seq<char>)
    ensures
        is_blank(s) <==> forall|k: int| 0 <= k < s.len() ==> is_white(#[trigger] s[k]),
{
    let i = lemma_trim_front(s);
    let front = trim_front(s);
    let n = lemma_trim_back(front);
    if is_blank(s) {
        assert forall|k: int| 0 <= k < s.len() implies is_white(#[trigger] s[k]) by {
            if k >= i {
                assert(s[k] == front[k - i]);
            }
        }
    } else {
        assert(front[n - 1] == s[i + n - 1]);
        assert(!is_white(s[i + n - 1]));
    }
}

/// A character takes one byte up to the end of ASCII, and two, three or four
/// where its code needs more than seven, eleven or sixteen bits.
pub proof fn characters_take_their_bytes(c: char)
    ensures
        1 <= utf8_len(c) <= 4,
        utf8_len(c) == 1 <==> c as u32 <= 127,
        utf8_len(c) == 2 <==> 128 <= c as u32 <= 2_047,
        utf8_len(c) == 3 <==> 2_048 <= c as u32 <= 65_535,
        byte_len(seq![c]) == utf8_len(c),
{
    assert(seq![c].drop_last() =~= Seq::empty());
    assert(byte_len(seq![c].drop_last()) == 0);
}

} // verus!
