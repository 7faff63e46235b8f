//! Files that come with messages: which are fetched, what they are, and how a
//! language model gets to see them.

use crate::actors::user_error::Failure;
use crate::agent::entries::lend_text;
use crate::ids::{is_uuid_text, new_id};
use crate::llm::types::{BlockView, DocumentSource, ImageSource, InputContentBlock, SourceView};
use crate::text::{
    before, begins_with, chars_of, decimal, has_text, is_white, last_part, lowercase, number,
    part_before, part_last, same, starts_with_char, string_from, string_of, texts_come_apart,
    to_lower, trim, trimmed, what_is_held_stands_inside,
};
use vstd::prelude::*;
use vstd::string::*;

verus! {

/// The largest file that is fetched: 25 MiB.
pub const MAX_FILE_SIZE: u64 = 26_214_400;

/// How long a download may take, in seconds.
pub const DOWNLOAD_TIMEOUT_SECS: u64 = 30;

/// What a file is to a language model.
#[derive(Debug, Clone, Copy, PartialEq, Eq, Structural)]
pub enum FileCategory {
    Image,
    Document,
    Other,
}

/// A file that was fetched.
#[derive(Debug)]
pub struct DownloadedFile {
    pub path: String,
    pub filename: String,
    pub mime_type: String,
    pub size: u64,
    pub category: FileCategory,
}

// ---- sizes -------------------------------------------------------------

/// `x / d` to the nearest whole number; of two that are equally near, the even
/// one.
pub open spec fn half_even(x: nat, d: nat) -> nat {
    let q = x / d;
    let r = x % d;
    if 2 * r < d || (2 * r == d && q % 2 == 0) {
        q
    } else {
        q + 1
    }
}

/// The distance between neighbouring numbers of 53 significant bits at `n`.
pub open spec fn spacing(n: nat) -> nat
    decreases n,
{
    if n < 0x20_0000_0000_0000 {
        1
    } else {
        2 * spacing(n / 2)
    }
}

/// `n` to 53 significant bits.
pub open spec fn to_53_bits(n: nat) -> nat {
    half_even(n, spacing(n)) * spacing(n)
}

/// A size in tenths of a mebibyte.
pub open spec fn tenths_of_mib(n: nat) -> nat {
    half_even(to_53_bits(n) * 10, 0x10_0000)
}

/// A size for people: bytes, whole kibibytes, or mebibytes to one decimal.
pub open spec fn size_text(n: nat) -> Seq<char> {
    if n < 1024 {
        decimal(n) + "B"@
    } else if n < 0x10_0000 {
        decimal(n / 1024) + "KB"@
    } else {
        decimal(tenths_of_mib(n) / 10) + "."@ + decimal(tenths_of_mib(n) % 10) + "MB"@
    }
}

fn round_half_even(x: u128, d: u128) -> (r: u128)
    requires
        0 < d <= 0x1_0000_0000_0000_0000,
    ensures
        r == half_even(x as nat, d as nat),
{
    let q: u128 = x / d;
    let rest: u128 = x % d;
    if 2 * rest < d || (2 * rest == d && q % 2 == 0) {
        q
    } else {
        assert(q < u128::MAX) by (nonlinear_arith)
            requires
                q == x / d,
                rest == x % d,
                d >= 1,
                2 * rest >= d,
        ;
        q + 1
    }
}

fn spacing_at(n: u64) -> (r: u64)
    ensures
        r == spacing(n as nat),
        1 <= r,
        r == 1 || r * 0x10_0000_0000_0000 <= n,
    decreases n,
{
    if n < 0x20_0000_0000_0000 {
        1
    } else {
        let half: u64 = spacing_at(n / 2);
        2 * half
    }
}

/// A size for people.
pub fn format_size(bytes: u64) -> (r: String)
    ensures
        r@ == size_text(bytes as nat),
{
    if bytes < 1024 {
        let mut s = number(bytes);
        s.append("B");
        s
    } else if bytes < 0x10_0000 {
        let mut s = number(bytes / 1024);
        s.append("KB");
        s
    } else {
        let step: u64 = spacing_at(bytes);
        let rounded: u128 = round_half_even(bytes as u128, step as u128);
        assert(rounded * step <= bytes + step) by (nonlinear_arith)
            requires
                rounded == half_even(bytes as nat, step as nat),
                step >= 1,
        {
            let q = bytes as int / step as int;
            assert(rounded <= q + 1);
            assert(q * step <= bytes);
        }
        let whole: u128 = rounded * step as u128;
        let tenths: u128 = round_half_even(whole * 10, 0x10_0000);
        assert(tenths <= whole * 10 / 0x10_0000 + 1);
        let mut s = number((tenths / 10) as u64);
        s.append(".");
        s.append(number((tenths % 10) as u64).as_str());
        s.append("MB");
        s
    }
}

impl DownloadedFile {
    /// The size of the file for people.
    pub fn human_size(&self) -> (r: String)
        ensures
            r@ == size_text(self.size as nat),
    {
        format_size(self.size)
    }
}

// ---- types and names ---------------------------------------------------

/// The category of a MIME type.
pub open spec fn category_of(mime: Seq<char>) -> FileCategory {
    if mime == "image/jpeg"@ || mime == "image/png"@ || mime == "image/gif"@ || mime
        == "image/webp"@ {
        FileCategory::Image
    } else if mime == "application/pdf"@ {
        FileCategory::Document
    } else {
        FileCategory::Other
    }
}

/// The category of a MIME type.
pub fn categorize_mime(mime: &str) -> (r: FileCategory)
    ensures
        r == category_of(mime@),
{
    if same(mime, "image/jpeg") || same(mime, "image/png") || same(mime, "image/gif") || same(
        mime,
        "image/webp",
    ) {
        FileCategory::Image
    } else if same(mime, "application/pdf") {
        FileCategory::Document
    } else {
        FileCategory::Other
    }
}

/// The MIME type that the extension of a file name tells: what stands behind
/// its last dot, in letters of either case.
pub open spec fn mime_by_extension(filename: Seq<char>) -> Seq<char> {
    let ext = lowercase(last_part(filename, '.'));
    if ext == "jpg"@ || ext == "jpeg"@ {
        "image/jpeg"@
    } else if ext == "png"@ {
        "image/png"@
    } else if ext == "gif"@ {
        "image/gif"@
    } else if ext == "webp"@ {
        "image/webp"@
    } else if ext == "pdf"@ {
        "application/pdf"@
    } else if ext == "txt"@ {
        "text/plain"@
    } else if ext == "html"@ || ext == "htm"@ {
        "text/html"@
    } else {
        "application/octet-stream"@
    }
}

/// The MIME type that the extension of a file name tells.
pub fn mime_from_extension(filename: &str) -> (r: String)
    ensures
        r@ == mime_by_extension(filename@),
{
    let last = part_last(filename, '.');
    let ext = to_lower(last.as_str());
    let e = ext.as_str();
    if same(e, "jpg") || same(e, "jpeg") {
        "image/jpeg".to_owned()
    } else if same(e, "png") {
        "image/png".to_owned()
    } else if same(e, "gif") {
        "image/gif".to_owned()
    } else if same(e, "webp") {
        "image/webp".to_owned()
    } else if same(e, "pdf") {
        "application/pdf".to_owned()
    } else if same(e, "txt") {
        "text/plain".to_owned()
    } else if same(e, "html") || same(e, "htm") {
        "text/html".to_owned()
    } else {
        "application/octet-stream".to_owned()
    }
}

/// Whether a character is a letter or a number by Unicode's tables.
pub uninterp spec fn unicode_alphanumeric(c: char) -> bool;

/// `char::is_alphanumeric` is a function of the character alone; the contract
/// names its result and claims nothing else.
pub assume_specification[ char::is_alphanumeric ](c: char) -> (b: bool)
    ensures
        b == unicode_alphanumeric(c),
;

/// Whether a character can stay in the name of a stored file: a letter, a
/// number, a dot, a hyphen or an underscore.
pub open spec fn stays(c: char) -> bool {
    if c as u32 <= 127 {
        'a' <= c <= 'z' || 'A' <= c <= 'Z' || '0' <= c <= '9' || c == '.' || c == '-' || c == '_'
    } else {
        unicode_alphanumeric(c)
    }
}

/// A file name with an underscore for each character that cannot stay.
pub open spec fn safe_name(name: Seq<char>) -> Seq<char> {
    name.map_values(
        |c: char|
            if stays(c) {
                c
            } else {
                '_'
            },
    )
}

/// A file name that is safe to store under.
pub fn sanitize_filename(name: &str) -> (r: String)
    ensures
        r@ == safe_name(name@),
{
    let v = chars_of(name);
    let mut out: Vec<char> = Vec::new();
    let mut i: usize = 0;
    while i < v.len()
        invariant
            v@ == name@,
            0 <= i <= v@.len(),
            out@ == safe_name(name@).take(i as int),
        decreases v@.len() - i,
    {
        let c = v[i];
        let keep = if c as u32 <= 127 {
            ('a' <= c && c <= 'z') || ('A' <= c && c <= 'Z') || ('0' <= c && c <= '9') || c == '.'
                || c == '-' || c == '_'
        } else {
            c.is_alphanumeric()
        };
        out.push(
            if keep {
                c
            } else {
                '_'
            },
        );
        assert(out@ =~= safe_name(name@).take(i + 1));
        i = i + 1;
    }
    assert(safe_name(name@).take(name@.len() as int) =~= safe_name(name@));
    string_from(&out)
}

/// A stored file never gets out of its directory: its name holds no separator
/// of paths.
pub proof fn safe_names_hold_no_separator(name: Seq<char>)
    ensures
        safe_name(name).len() == name.len(),
        !safe_name(name).contains('/'),
        !safe_name(name).contains('\\'),
{
    let s = safe_name(name);
    assert forall|i: int| 0 <= i < s.len() implies s[i] != '/' && s[i] != '\\' by {
        assert(s[i] == if stays(name[i]) {
            name[i]
        } else {
            '_'
        });
    }
}

/// A name that is safe stays as it is when it is made safe again. It holds no
/// separator of paths and no white space, unless Unicode's tables count that
/// as a letter or a number.
pub proof fn safe_names_stay_as_they_are(name: Seq<char>)
    ensures
        safe_name(safe_name(name)) == safe_name(name),
        forall|i: int|
            0 <= i < safe_name(name).len() ==> {
                let c = #[trigger] safe_name(name)[i];
                &&& c != '/' && c != '\\'
                &&& is_white(c) ==> c as u32 > 127 && unicode_alphanumeric(c)
            },
{
    let s = safe_name(name);
    assert forall|i: int| 0 <= i < s.len() implies stays(#[trigger] s[i]) by {
        assert(s[i] == if stays(name[i]) {
            name[i]
        } else {
            '_'
        });
    }
    assert(safe_name(s) =~= s);
}

// ---- what is fetched ---------------------------------------------------

/// The parts of a URL.
#[derive(Debug)]
pub struct UrlParts {
    pub scheme: String,
    pub host: Option<String>,
    pub path: String,
}

/// The scheme, host and path of a URL as `url` reads it, or why it does not.
pub uninterp spec fn url_parts_of(url: Seq<char>) -> Result<
    (Seq<char>, Option<Seq<char>>, Seq<char>),
    Seq<char>,
>;

/// The model of the parts of a URL.
pub open spec fn parts_view(parts: Result<UrlParts, String>) -> Result<
    (Seq<char>, Option<Seq<char>>, Seq<char>),
    Seq<char>,
> {
    match parts {
        Ok(p) => Ok((p.scheme@, p.host.deep_view(), p.path@)),
        Err(e) => Err(e@),
    }
}

/// Calls `url::Url::parse` and hands out the scheme, the host and the path, or
/// the text of the error. The result is a function of the text alone; the
/// contract names it.
#[verifier::external_body]
fn parse_url(url: &str) -> (r: Result<UrlParts, String>)
    ensures
        parts_view(r) == url_parts_of(url@),
{
    match url::Url::parse(url) {
        Ok(u) => Ok(
            UrlParts {
                scheme: u.scheme().to_string(),
                host: u.host_str().map(|h| h.to_string()),
                path: u.path().to_string(),
            },
        ),
        Err(e) => Err(e.to_string()),
    }
}

/// Whether a host is this machine.
pub open spec fn is_local(host: Option<Seq<char>>) -> bool {
    host == Some("localhost"@) || host == Some("127.0.0.1"@) || host == Some("::1"@)
}

/// The file name in the path of a URL: its last segment; paths without
/// segments have none.
pub open spec fn file_in_path(path: Seq<char>) -> Seq<char> {
    if begins_with(path, '/') {
        last_part(path.skip(1), '/')
    } else {
        "file"@
    }
}

/// The file that a URL names, or why it is not fetched: only HTTPS is, except
/// from this machine.
pub open spec fn target(
    parts: Result<(Seq<char>, Option<Seq<char>>, Seq<char>), Seq<char>>,
) -> Result<Seq<char>, Seq<char>> {
    match parts {
        Err(e) => Err("Invalid URL: "@ + e),
        Ok((scheme, host, path)) => if scheme != "https"@ && !is_local(host) {
            Err("Only HTTPS URLs are allowed (got "@ + scheme + "://)"@)
        } else {
            Ok(file_in_path(path))
        },
    }
}

/// A result over failures as its model.
pub open spec fn outcome_view(r: Result<String, Failure>) -> Result<Seq<char>, Seq<Seq<char>>> {
    match r {
        Ok(s) => Ok(s@),
        Err(f) => Err(f.deep_view()),
    }
}

/// A message as a failure with one cause.
pub open spec fn as_failure(r: Result<Seq<char>, Seq<char>>) -> Result<
    Seq<char>,
    Seq<Seq<char>>,
> {
    match r {
        Ok(s) => Ok(s),
        Err(e) => Err(seq![e]),
    }
}

/// The file that the parts of a URL name, or why it is not fetched.
pub fn check_parts(parts: Result<UrlParts, String>) -> (r: Result<String, Failure>)
    ensures
        outcome_view(r) == as_failure(target(parts_view(parts))),
{
    match parts {
        Err(e) => {
            let mut s = "Invalid URL: ".to_owned();
            s.append(e.as_str());
            Err(Failure::new(s.as_str()))
        },
        Ok(p) => {
            let local = match &p.host {
                Some(h) => same(h.as_str(), "localhost") || same(h.as_str(), "127.0.0.1") || same(
                    h.as_str(),
                    "::1",
                ),
                None => false,
            };
            if !same(p.scheme.as_str(), "https") && !local {
                let mut s = "Only HTTPS URLs are allowed (got ".to_owned();
                s.append(p.scheme.as_str());
                s.append("://)");
                Err(Failure::new(s.as_str()))
            } else {
                let name = if starts_with_char(p.path.as_str(), '/') {
                    let v = chars_of(p.path.as_str());
                    let rest = string_of(&v, 1, v.len());
                    assert(rest@ =~= p.path@.skip(1));
                    part_last(rest.as_str(), '/')
                } else {
                    "file".to_owned()
                };
                Ok(name)
            }
        },
    }
}

/// The file that a URL names, or why it is not fetched.
pub fn check_url(url: &str) -> (r: Result<String, Failure>)
    ensures
        outcome_view(r) == as_failure(target(url_parts_of(url@))),
{
    check_parts(parse_url(url))
}

/// The message about a file that is too large.
pub open spec fn too_large(size: nat) -> Seq<char> {
    "File too large: "@ + decimal(size) + " bytes (max "@ + decimal(MAX_FILE_SIZE as nat) + ")"@
}

/// Whether a file of this size is fetched, and why not.
pub fn check_size(size: u64) -> (r: Option<Failure>)
    ensures
        match r {
            Some(f) => size > MAX_FILE_SIZE && f.deep_view() == seq![too_large(size as nat)],
            None => size <= MAX_FILE_SIZE,
        },
{
    if size > MAX_FILE_SIZE {
        let mut s = "File too large: ".to_owned();
        s.append(number(size).as_str());
        s.append(" bytes (max ");
        s.append(number(MAX_FILE_SIZE).as_str());
        s.append(")");
        Some(Failure::new(s.as_str()))
    } else {
        None
    }
}

/// The message about a refused download.
pub fn http_failure(status: &str) -> (r: Failure)
    ensures
        r.deep_view() == seq!["Download failed: HTTP "@ + status@],
{
    let mut s = "Download failed: HTTP ".to_owned();
    s.append(status);
    Failure::new(s.as_str())
}

/// The MIME type in a `Content-Type` header: what stands before its
/// parameters; without a header, an empty text.
pub open spec fn content_type_of(header: Option<Seq<char>>) -> Seq<char> {
    match header {
        Some(h) => trimmed(before(h, ';')),
        None => Seq::empty(),
    }
}

/// The MIME type in a `Content-Type` header.
pub fn content_type(header: Option<&str>) -> (r: String)
    ensures
        r@ == content_type_of(header.deep_view()),
{
    match header {
        Some(h) => trim(part_before(h, ';').as_str()),
        None => {
            let s = String::new();
            assert(s@ =~= Seq::empty());
            s
        },
    }
}

/// What a server answers before the file itself.
#[derive(Debug)]
pub struct HttpReply {
    /// Whether the status tells of success.
    pub success: bool,
    /// The status.
    pub status: String,
    /// How long the file is, where the server says so.
    pub content_length: Option<u64>,
    /// The `Content-Type` header, where there is one.
    pub content_type: Option<String>,
}

/// The MIME type that an answer gives, or why the file is not fetched: the
/// status tells of a failure, or the file is too large.
pub open spec fn reply_outcome(reply: HttpReply) -> Result<Seq<char>, Seq<char>> {
    if !reply.success {
        Err("Download failed: HTTP "@ + reply.status@)
    } else if reply.content_length is Some && reply.content_length->0 > MAX_FILE_SIZE {
        Err(too_large(reply.content_length->0 as nat))
    } else {
        Ok(content_type_of(reply.content_type.deep_view()))
    }
}

/// Fetches files, so many at a time.
#[derive(Debug, Clone, Copy)]
pub struct FileDownloader {
    pub max_concurrent: usize,
    pub tls_verify: bool,
}

impl FileDownloader {
    /// One that checks certificates.
    pub fn new(max_concurrent: usize) -> (r: Self)
        ensures
            r == (FileDownloader { max_concurrent, tls_verify: true }),
    {
        FileDownloader::with_tls_verify(max_concurrent, true)
    }

    /// One that checks certificates or does not.
    pub fn with_tls_verify(max_concurrent: usize, tls_verify: bool) -> (r: Self)
        ensures
            r == (FileDownloader { max_concurrent, tls_verify }),
    {
        FileDownloader { max_concurrent, tls_verify }
    }

    /// The MIME type that the answer gives, or why the file is not fetched.
    pub fn on_reply(reply: &HttpReply) -> (r: Result<String, Failure>)
        ensures
            outcome_view(r) == as_failure(reply_outcome(*reply)),
    {
        if !reply.success {
            return Err(http_failure(reply.status.as_str()));
        }
        if let Some(length) = reply.content_length {
            if let Some(f) = check_size(length) {
                return Err(f);
            }
        }
        Ok(content_type(lend_text(&reply.content_type)))
    }

    /// What is known of the file once its bytes are there, or why it is not
    /// kept.
    pub fn on_body(filename: String, content_type: String, size: u64) -> (r: Result<
        DownloadedFile,
        Failure,
    >)
        ensures
            match r {
                Ok(f) => {
                    &&& size <= MAX_FILE_SIZE
                    &&& f.filename@ == filename@
                    &&& f.mime_type@ == mime_of(content_type@, filename@)
                    &&& f.size == size
                    &&& f.category == category_of(mime_of(content_type@, filename@))
                    &&& exists|fresh: Seq<char>|
                        is_uuid_text(fresh) && f.path@ == #[trigger] stored_name(fresh, filename@)
                },
                Err(e) => size > MAX_FILE_SIZE && e.deep_view() == seq![too_large(size as nat)],
            },
    {
        let fresh = new_id();
        let ghost id = fresh@;
        let ghost name = filename@;
        let r = accept_with_id(filename, content_type, size, fresh);
        assert(is_uuid_text(id) && stored_name(id, name) == stored_name(id, name));
        r
    }
}

/// The MIME type of a file: that of the header, unless it says nothing; then
/// that of the file name.
pub open spec fn mime_of(content_type: Seq<char>, filename: Seq<char>) -> Seq<char> {
    if content_type.len() == 0 || content_type == "application/octet-stream"@ {
        mime_by_extension(filename)
    } else {
        content_type
    }
}

/// The name under which a file is stored: a fresh identifier keeps it apart
/// from others.
pub open spec fn stored_name(fresh: Seq<char>, filename: Seq<char>) -> Seq<char> {
    fresh + "_"@ + safe_name(filename)
}

/// What is known of a file that was fetched, given a fresh identifier; `path`
/// is the name under which it is stored.
pub fn accept_with_id(filename: String, content_type: String, size: u64, fresh: String) -> (r:
    Result<DownloadedFile, Failure>)
    ensures
        match r {
            Ok(f) => {
                &&& size <= MAX_FILE_SIZE
                &&& f.filename@ == filename@
                &&& f.mime_type@ == mime_of(content_type@, filename@)
                &&& f.size == size
                &&& f.category == category_of(mime_of(content_type@, filename@))
                &&& f.path@ == stored_name(fresh@, filename@)
            },
            Err(e) => size > MAX_FILE_SIZE && e.deep_view() == seq![too_large(size as nat)],
        },
{
    if let Some(f) = check_size(size) {
        return Err(f);
    }
    let mime_type = if content_type.as_str().is_empty() || same(
        content_type.as_str(),
        "application/octet-stream",
    ) {
        mime_from_extension(filename.as_str())
    } else {
        content_type
    };
    let category = categorize_mime(mime_type.as_str());
    let mut path = fresh;
    path.append("_");
    path.append(sanitize_filename(filename.as_str()).as_str());
    Ok(DownloadedFile { path, filename, mime_type, size, category })
}

// ---- what the model sees -----------------------------------------------

/// The character of a six-bit value in base64.
pub open spec fn base64_char(n: int) -> char {
    if n < 26 {
        ('A' as int + n) as char
    } else if n < 52 {
        ('a' as int + n - 26) as char
    } else if n < 62 {
        ('0' as int + n - 52) as char
    } else if n == 62 {
        '+'
    } else {
        '/'
    }
}

/// Bytes in base64: each three become four characters, and the last ones are
/// filled up with equals signs.
pub open spec fn base64_text(b: Seq<u8>) -> Seq<char>
    decreases b.len(),
{
    if b.len() == 0 {
        Seq::empty()
    } else if b.len() == 1 {
        seq![base64_char(b[0] as int / 4), base64_char(b[0] as int % 4 * 16), '=', '=']
    } else if b.len() == 2 {
        seq![
            base64_char(b[0] as int / 4),
            base64_char(b[0] as int % 4 * 16 + b[1] as int / 16),
            base64_char(b[1] as int % 16 * 4),
            '=',
        ]
    } else {
        seq![
            base64_char(b[0] as int / 4),
            base64_char(b[0] as int % 4 * 16 + b[1] as int / 16),
            base64_char(b[1] as int % 16 * 4 + b[2] as int / 64),
            base64_char(b[2] as int % 64),
        ] + base64_text(b.skip(3))
    }
}

/// Calls `base64::Engine::encode` of `base64::engine::general_purpose::STANDARD`:
/// the standard alphabet, with padding. It fails on no input whose encoding is
/// no longer than a `String` can be.
#[verifier::external_body]
fn encode_base64(data: &Vec<u8>) -> (r: String)
    requires
        data@.len() / 3 * 4 + 4 <= isize::MAX,
    ensures
        r@ == base64_text(data@),
{
    base64::Engine::encode(&base64::engine::general_purpose::STANDARD, data)
}

/// What a language model gets of a file: an image or a document, in base64;
/// nothing of any other file.
pub open spec fn file_block(category: FileCategory, mime: Seq<char>, data: Seq<u8>) -> Option<
    BlockView,
> {
    let source = SourceView {
        source_type: "base64"@,
        media_type: mime,
        data: base64_text(data),
    };
    match category {
        FileCategory::Image => Some(BlockView::Image(source)),
        FileCategory::Document => Some(BlockView::Document(source)),
        FileCategory::Other => None,
    }
}

/// What a language model gets of a file with these bytes.
pub fn file_to_content_block(file: &DownloadedFile, data: &Vec<u8>) -> (r: Option<
    InputContentBlock,
>)
    requires
        data@.len() / 3 * 4 + 4 <= isize::MAX,
    ensures
        r.deep_view() == file_block(file.category, file.mime_type@, data@),
{
    match file.category {
        FileCategory::Image => Some(
            InputContentBlock::Image {
                source: ImageSource {
                    source_type: "base64".to_owned(),
                    media_type: file.mime_type.clone(),
                    data: encode_base64(data),
                },
            },
        ),
        FileCategory::Document => Some(
            InputContentBlock::Document {
                source: DocumentSource {
                    source_type: "base64".to_owned(),
                    media_type: file.mime_type.clone(),
                    data: encode_base64(data),
                },
            },
        ),
        FileCategory::Other => None,
    }
}

/// No file is fetched in the open, except from this machine.
pub proof fn only_https_is_fetched(
    parts: Result<(Seq<char>, Option<Seq<char>>, Seq<char>), Seq<char>>,
)
    requires
        target(parts) is Ok,
    ensures
        parts is Ok,
        parts->Ok_0.0 == "https"@ || is_local(parts->Ok_0.1),
{
}

/// Small sizes are told in bytes, larger ones in whole kibibytes, and the
/// largest in mebibytes to the nearest tenth.
pub proof fn sizes_are_told_to_the_nearest(n: nat)
    requires
        n < 0x20_0000_0000_0000,
    ensures
        n < 1024 ==> size_text(n) == decimal(n) + "B"@,
        1024 <= n < 1_048_576 ==> exists|k: nat|
            k * 1024 <= n < (k + 1) * 1024 && size_text(n) == #[trigger] decimal(k) + "KB"@,
        n >= 1_048_576 ==> exists|whole: nat, tenth: nat|
            tenth < 10 && size_text(n) == #[trigger] decimal(whole) + "."@ + #[trigger] decimal(
                tenth,
            ) + "MB"@ && -524_288 <= (10 * whole + tenth) * 1_048_576 - 10 * n <= 524_288,
{
    if 1024 <= n < 1_048_576 {
        let k = n / 1024;
        assert(size_text(n) == decimal(k) + "KB"@);
    }
    if n >= 1_048_576 {
        assert(spacing(n) == 1);
        assert(half_even(n, 1) == n);
        assert(to_53_bits(n) == n);
        let t = tenths_of_mib(n);
        let whole = t / 10;
        let tenth = t % 10;
        assert(-524_288 <= t * 1_048_576 - 10 * n <= 524_288);
        assert(size_text(n) == decimal(whole) + "."@ + decimal(tenth) + "MB"@);
    }
}

/// Of two whole numbers the nearer one is taken, and the even one where they
/// are equally near.
pub proof fn rounding_goes_to_the_nearest(x: nat, d: nat)
    requires
        d > 0,
    ensures
        -d <= 2 * (half_even(x, d) * d - x) <= d,
        2 * (half_even(x, d) * d - x) == d || 2 * (half_even(x, d) * d - x) == -d ==> half_even(x, d)
            % 2 == 0,
{
    let q = x / d;
    let r = x % d;
    vstd::arithmetic::div_mod::lemma_fundamental_div_mod(x as int, d as int);
    vstd::arithmetic::div_mod::lemma_mod_bound(x as int, d as int);
    assert(x == d * q + r);
    assert(q * d == d * q) by (nonlinear_arith);
    assert((q + 1) * d == d * q + d) by (nonlinear_arith);
}

/// Pictures in the common formats are shown as pictures, PDFs as documents, and
/// everything else is not shown.
pub proof fn files_are_sorted_by_their_type(mime: Seq<char>)
    ensures
        category_of(mime) == FileCategory::Image <==> mime == "image/jpeg"@ || mime
            == "image/png"@ || mime == "image/gif"@ || mime == "image/webp"@,
        category_of(mime) == FileCategory::Document <==> mime == "application/pdf"@,
{
    reveal_strlit("image/jpeg");
    reveal_strlit("image/png");
    reveal_strlit("image/gif");
    reveal_strlit("image/webp");
    reveal_strlit("application/pdf");
    assert("application/pdf"@[0] == 'a');
    assert("image/jpeg"@[0] == 'i' && "image/png"@[0] == 'i' && "image/gif"@[0] == 'i'
        && "image/webp"@[0] == 'i');
}

/// The type of a file without one goes by what stands behind the last dot of
/// its name, in letters of either case.
pub proof fn types_go_by_the_extension(name: Seq<char>, ext: Seq<char>)
    requires
        !ext.contains('.'),
    ensures
        ({
            let mime = mime_by_extension(name + seq!['.'] + ext);
            let e = lowercase(ext);
            &&& e == "jpg"@ || e == "jpeg"@ ==> mime == "image/jpeg"@
            &&& e == "png"@ ==> mime == "image/png"@
            &&& e == "gif"@ ==> mime == "image/gif"@
            &&& e == "webp"@ ==> mime == "image/webp"@
            &&& e == "pdf"@ ==> mime == "application/pdf"@
            &&& e == "txt"@ ==> mime == "text/plain"@
            &&& e == "html"@ || e == "htm"@ ==> mime == "text/html"@
            &&& e.len() > 4 ==> mime == "application/octet-stream"@
        }),
{
    texts_come_apart(name, '.', ext);
    reveal_strlit("jpg");
    reveal_strlit("jpeg");
    reveal_strlit("png");
    reveal_strlit("gif");
    reveal_strlit("webp");
    reveal_strlit("pdf");
    reveal_strlit("txt");
    reveal_strlit("html");
    reveal_strlit("htm");
    assert("jpg"@[0] == 'j' && "jpeg"@[0] == 'j' && "png"@[0] == 'p' && "png"@[1] == 'n'
        && "gif"@[0] == 'g' && "webp"@[0] == 'w' && "pdf"@[0] == 'p' && "pdf"@[1] == 'd'
        && "txt"@[0] == 't' && "html"@[0] == 'h' && "htm"@[0] == 'h');
}

/// The type that a server names is what stands before the semicolon, without
/// white space; it is taken unless it says nothing, and the name decides then.
pub proof fn types_are_taken_from_the_server(mime: Seq<char>, rest: Seq<char>, filename: Seq<char>)
    requires
        !mime.contains(';'),
    ensures
        content_type_of(Some(mime + seq![';'] + rest)) == trimmed(mime),
        content_type_of(Some(mime)) == trimmed(mime),
        content_type_of(None).len() == 0,
        mime.len() > 0 && mime != "application/octet-stream"@ ==> mime_of(mime, filename) == mime,
        mime_of(Seq::empty(), filename) == mime_by_extension(filename),
        mime_of("application/octet-stream"@, filename) == mime_by_extension(filename),
{
    texts_come_apart(mime, ';', rest);
}

/// A file is fetched over HTTPS, or from this machine, and from nowhere else;
/// it is named by the last part of its path.
pub proof fn files_are_fetched_by_name(
    scheme: Seq<char>,
    host: Option<Seq<char>>,
    folder: Seq<char>,
    name: Seq<char>,
    error: Seq<char>,
)
    requires
        !name.contains('/'),
    ensures
        ({
            let near = host == Some("localhost"@) || host == Some("127.0.0.1"@) || host == Some(
                "::1"@,
            );
            let deep = target(Ok((scheme, host, seq!['/'] + folder + seq!['/'] + name)));
            let flat = target(Ok((scheme, host, seq!['/'] + name)));
            if scheme == "https"@ || near {
                deep == Ok::<Seq<char>, Seq<char>>(name) && flat == Ok::<Seq<char>, Seq<char>>(name)
            } else {
                deep is Err && flat is Err && has_text(deep->Err_0, scheme)
            }
        }),
        target(Err(error)) == Err::<Seq<char>, Seq<char>>("Invalid URL: "@ + error),
{
    let deep = seq!['/'] + folder + seq!['/'] + name;
    let flat = seq!['/'] + name;
    assert(deep.skip(1) =~= folder + seq!['/'] + name);
    assert(flat.skip(1) =~= name);
    texts_come_apart(folder, '/', name);
    texts_come_apart(name, '/', name);
    what_is_held_stands_inside("Only HTTPS URLs are allowed (got "@, scheme, "://)"@, scheme);
}

/// A reply is taken where it succeeded and does not say that it is larger than
/// twenty-five mebibytes; otherwise it is refused with its status or its size.
pub proof fn replies_are_taken_or_refused(reply: HttpReply)
    ensures
        !reply.success ==> reply_outcome(reply) == Err::<Seq<char>, Seq<char>>(
            "Download failed: HTTP "@ + reply.status@,
        ),
        reply.success && reply.content_length is Some && reply.content_length->0 > 26_214_400
            ==> reply_outcome(reply) is Err && has_text(
            reply_outcome(reply)->Err_0,
            decimal(reply.content_length->0 as nat),
        ),
        reply.success && (reply.content_length is None || reply.content_length->0 <= 26_214_400)
            ==> reply_outcome(reply) is Ok,
{
    if reply.content_length is Some {
        let n = decimal(reply.content_length->0 as nat);
        let tail = " bytes (max "@ + decimal(MAX_FILE_SIZE as nat) + ")"@;
        what_is_held_stands_inside("File too large: "@, n, tail, n);
        assert(too_large(reply.content_length->0 as nat) =~= "File too large: "@ + n + tail);
    }
}

/// A file is stored behind its own identifier, under a name as long as its own,
/// in which every character that is not safe has become an underscore.
pub proof fn files_are_stored_under_safe_names(fresh: Seq<char>, filename: Seq<char>, i: int)
    requires
        0 <= i < filename.len(),
    ensures
        ({
            let name = stored_name(fresh, filename);
            let at = fresh.len() + 1 + i;
            &&& name.len() == fresh.len() + 1 + filename.len()
            &&& name.take(fresh.len() as int) == fresh
            &&& name[fresh.len() as int] == '_'
            &&& stays(filename[i]) ==> name[at] == filename[i]
            &&& !stays(filename[i]) ==> name[at] == '_'
        }),
{
    reveal_strlit("_");
    assert(stored_name(fresh, filename).take(fresh.len() as int) =~= fresh);
}

/// Bytes are written three at a time, in order, as four characters each.
pub proof fn bytes_are_written_by_threes(a: Seq<u8>, b: Seq<u8>)
    requires
        a.len() % 3 == 0,
    ensures
        base64_text(a + b) == base64_text(a) + base64_text(b),
        base64_text(a).len() == a.len() / 3 * 4,
    decreases a.len(),
{
    if a.len() == 0 {
        assert(a + b =~= b);
        assert(base64_text(a) + base64_text(b) =~= base64_text(b));
    } else {
        assert(a.len() >= 3);
        bytes_are_written_by_threes(a.skip(3), b);
        assert((a + b).skip(3) =~= a.skip(3) + b);
        assert(base64_text(a + b) =~= base64_text(a) + base64_text(b));
    }
}

/// The value of a character of Base64: capitals, small letters, figures, the
/// plus and the slash, in this order.
pub open spec fn base64_value(c: char) -> int {
    if 'A' <= c <= 'Z' {
        c as int - 65
    } else if 'a' <= c <= 'z' {
        c as int - 97 + 26
    } else if '0' <= c <= '9' {
        c as int - 48 + 52
    } else if c == '+' {
        62
    } else {
        63
    }
}

/// The four characters for three bytes hold the same bits as the bytes, and
/// where fewer are left, signs of equality fill them up.
pub proof fn bytes_can_be_read_back(b: Seq<u8>)
    requires
        1 <= b.len() <= 3,
    ensures
        ({
            let t = base64_text(b);
            let bits = base64_value(t[0]) * 262_144 + base64_value(t[1]) * 4_096;
            &&& t.len() == 4
            &&& b.len() == 3 ==> bits + base64_value(t[2]) * 64 + base64_value(t[3]) == b[0] * 65_536
                + b[1] * 256 + b[2] && t[3] != '='
            &&& b.len() == 2 ==> bits + base64_value(t[2]) * 64 == b[0] * 65_536 + b[1] * 256
                && t[3] == '=' && t[2] != '='
            &&& b.len() == 1 ==> bits == b[0] * 65_536 && t[2] == '=' && t[3] == '='
        }),
{
    if b.len() == 3 {
        assert(b.skip(3) =~= Seq::empty());
        assert(base64_text(b.skip(3)).len() == 0);
    }
    assert forall|n: int| 0 <= n < 64 implies base64_value(#[trigger] base64_char(n)) == n
        && base64_char(n) != '=' by {}
    let x = b[0] as int;
    assert(0 <= x / 4 < 64 && 0 <= x % 4 * 16 < 64);
    if b.len() > 1 {
        let y = b[1] as int;
        assert(0 <= x % 4 * 16 + y / 16 < 64 && 0 <= y % 16 * 4 < 64);
        if b.len() > 2 {
            let z = b[2] as int;
            assert(0 <= y % 16 * 4 + z / 64 < 64 && 0 <= z % 64 < 64);
        }
    }
}

/// A file that can be shown is shown under its type, with all of its bytes; any
/// other is not.
pub proof fn shown_files_hold_their_bytes(mime: Seq<char>, data: Seq<u8>)
    ensures
        ({
            let source = SourceView {
                source_type: "base64"@,
                media_type: mime,
                data: base64_text(data),
            };
            &&& file_block(FileCategory::Image, mime, data) == Some(BlockView::Image(source))
            &&& file_block(FileCategory::Document, mime, data) == Some(BlockView::Document(source))
            &&& file_block(FileCategory::Other, mime, data) is None
        }),
{
}

} // verus!
