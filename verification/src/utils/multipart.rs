//! The multipart/related transport codec: builds and parses the
//! boundary-delimited wire format used both to ingest batches of binary
//! objects and to stream multi-part responses.
//!
//! A message is a sequence of parts, each introduced by `--{boundary}` on
//! its own line, followed by a `Content-Type` header, optional `Content-ID`
//! and `Content-Transfer-Encoding` headers, a blank line, the raw payload,
//! and a line break; the message closes with `--{boundary}--`.

use crate::utils::uuid_like;
use vstd::prelude::*;
use vstd::string::StrSliceExecFns;
use vstd::string::StringSliceAdditionalSpecFns;
use vstd::utf8::encode_utf8;

verus! {

/// Failure of multipart building or parsing.
#[derive(Debug)]
pub enum MultipartError {
    /// The boundary holds whitespace, a double quote, or a backslash.
    InvalidBoundary(String),
    /// A message with no parts was asked for.
    EmptyMessage,
    /// The declared start Content-ID names no part.
    StartNotFound(String),
    /// The declared media type is not multipart/related, or carries no
    /// boundary.
    NotMultipartRelated,
    /// The byte stream does not follow the boundary-delimited format.
    MalformedMessage,
}

/// Whether a character carries the Unicode white-space property.
pub open spec fn is_space_char(c: char) -> bool {
    ||| c == ' '
    ||| c == '\t'
    ||| c == '\n'
    ||| c == '\u{b}'
    ||| c == '\u{c}'
    ||| c == '\r'
    ||| c == '\u{85}'
    ||| c == '\u{a0}'
    ||| c == '\u{1680}'
    ||| ('\u{2000}' <= c && c <= '\u{200a}')
    ||| c == '\u{2028}'
    ||| c == '\u{2029}'
    ||| c == '\u{202f}'
    ||| c == '\u{205f}'
    ||| c == '\u{3000}'
}

/// Whether a character may not appear in a boundary.
pub open spec fn boundary_invalid_char(c: char) -> bool {
    is_space_char(c) || c == '"' || c == '\\'
}

/// Whether a boundary is acceptable: free of whitespace, double quotes and
/// backslashes.
pub open spec fn boundary_valid(s: Seq<char>) -> bool {
    forall|i: int| 0 <= i < s.len() ==> !boundary_invalid_char(#[trigger] s[i])
}

fn is_invalid_boundary_char(c: char) -> (r: bool)
    ensures
        r == boundary_invalid_char(c),
{
    c == ' ' || c == '\t' || c == '\n' || c == '\u{b}' || c == '\u{c}' || c == '\r' || c == '\u{85}'
        || c == '\u{a0}' || c == '\u{1680}' || ('\u{2000}' <= c && c <= '\u{200a}') || c
        == '\u{2028}' || c == '\u{2029}' || c == '\u{202f}' || c == '\u{205f}' || c == '\u{3000}'
        || c == '"' || c == '\\'
}

/// A single part of a multipart message: a content type, an optional
/// content id, an optional transfer encoding, and the payload bytes. The
/// textual fields are kept as the bytes written on the wire.
#[derive(Debug)]
pub struct Part {
    pub content_type: Vec<u8>,
    pub body: Vec<u8>,
    pub content_id: Option<Vec<u8>>,
    pub encoding: Option<Vec<u8>>,
}

/// The mathematical content of a part.
#[verifier::ext_equal]
pub struct PartView {
    pub content_type: Seq<u8>,
    pub body: Seq<u8>,
    pub content_id: Option<Seq<u8>>,
    pub encoding: Option<Seq<u8>>,
}

impl View for Part {
    type V = PartView;

    open spec fn view(&self) -> PartView {
        PartView {
            content_type: self.content_type@,
            body: self.body@,
            content_id: match self.content_id {
                Some(v) => Some(v@),
                None => None,
            },
            encoding: match self.encoding {
                Some(v) => Some(v@),
                None => None,
            },
        }
    }
}

impl Part {
    /// A part with the given content type and payload.
    pub fn new(content_type: &str, body: Vec<u8>) -> (r: Part)
        ensures
            r@.content_type == content_type.spec_bytes(),
            r@.body == body@,
            r@.content_id is None,
            r@.encoding is None,
    {
        Part { content_type: content_type.as_bytes_vec(), body, content_id: None, encoding: None }
    }

    /// Set the Content-ID header of this part.
    pub fn with_id(self, id: &str) -> (r: Part)
        ensures
            r@.content_id == Some(id.spec_bytes()),
            r@.content_type == self@.content_type,
            r@.body == self@.body,
            r@.encoding == self@.encoding,
    {
        Part { content_id: Some(id.as_bytes_vec()), ..self }
    }

    /// Set the Content-Transfer-Encoding header of this part.
    pub fn with_encoding(self, encoding: &str) -> (r: Part)
        ensures
            r@.encoding == Some(encoding.spec_bytes()),
            r@.content_type == self@.content_type,
            r@.body == self@.body,
            r@.content_id == self@.content_id,
    {
        Part { encoding: Some(encoding.as_bytes_vec()), ..self }
    }
}

/// The views of a part list.
pub open spec fn part_views(parts: Seq<Part>) -> Seq<PartView> {
    parts.map_values(|p: Part| p@)
}

/// Configuration of a multipart/related message: the boundary and the
/// optional root type and start Content-ID carried on the outer media type.
#[derive(Debug)]
pub struct RelatedConfig {
    pub boundary: String,
    pub root_type: Option<String>,
    pub start: Option<String>,
}

impl RelatedConfig {
    /// Accept a boundary, rejecting any that holds whitespace, a double
    /// quote or a backslash.
    pub fn new(boundary: String) -> (r: Result<RelatedConfig, MultipartError>)
        ensures
            boundary_valid(boundary@) <==> r is Ok,
            match r {
                Ok(c) => c.boundary@ == boundary@ && c.root_type is None && c.start is None,
                Err(e) => e matches MultipartError::InvalidBoundary(b) && b@ == boundary@,
            },
    {
        let n = boundary.as_str().unicode_len();
        let mut i: usize = 0;
        while i < n
            invariant
                i <= n,
                n == boundary@.len(),
                forall|k: int| 0 <= k < i ==> !boundary_invalid_char(#[trigger] boundary@[k]),
            decreases n - i,
        {
            if is_invalid_boundary_char(boundary.as_str().get_char(i)) {
                return Err(MultipartError::InvalidBoundary(boundary));
            }
            i += 1;
        }
        Ok(RelatedConfig { boundary, root_type: None, start: None })
    }

    /// Set the root Content-Type declared on the outer media type.
    pub fn root_type(self, content_type: &str) -> (r: RelatedConfig)
        ensures
            r.root_type matches Some(s) && s@ == content_type@,
            r.boundary == self.boundary,
            r.start == self.start,
    {
        RelatedConfig { root_type: Some(String::from_str(content_type)), ..self }
    }

    /// Set the Content-ID of the starting part declared on the outer media
    /// type.
    pub fn start(self, content_id: &str) -> (r: RelatedConfig)
        ensures
            r.start matches Some(s) && s@ == content_id@,
            r.boundary == self.boundary,
            r.root_type == self.root_type,
    {
        RelatedConfig { start: Some(String::from_str(content_id)), ..self }
    }
}

/// Generate a boundary that is always acceptable: generated boundaries are
/// hyphenated-UUID shaped, which no boundary rule refuses.
pub fn random_boundary() -> (r: String)
    ensures
        uuid_like(r@),
        boundary_valid(r@),
{
    let token = crate::utils::fresh_token();
    proof {
        assert forall|i: int| 0 <= i < token@.len() implies !boundary_invalid_char(
            #[trigger] token@[i],
        ) by {
            assert(crate::utils::token_char(token@[i]));
        }
    }
    token
}

/// The header section of one part: its `Content-Type` line, the optional
/// id and encoding lines, and the blank line that closes the section.
pub open spec fn header_block(pv: PartView) -> Seq<u8> {
    ("Content-Type: ").spec_bytes() + pv.content_type + (match pv.content_id {
        Some(id) => ("\r\nContent-ID: <").spec_bytes() + id + (">").spec_bytes(),
        None => Seq::<u8>::empty(),
    }) + (match pv.encoding {
        Some(e) => ("\r\nContent-Transfer-Encoding: ").spec_bytes() + e,
        None => Seq::<u8>::empty(),
    }) + ("\r\n\r\n").spec_bytes()
}

/// The header section of one part followed by its payload: everything
/// between the part's opening delimiter line and its closing line break.
pub open spec fn part_inner(pv: PartView) -> Seq<u8> {
    header_block(pv) + pv.body
}

/// The bytes of a message after an opening `--{boundary}`: either the
/// closing `--` and line break, or a line break, one part, and the next
/// delimiter.
pub open spec fn message_tail(b: Seq<u8>, parts: Seq<PartView>) -> Seq<u8>
    decreases parts.len(),
{
    if parts.len() == 0 {
        ("--\r\n").spec_bytes()
    } else {
        ("\r\n").spec_bytes() + part_inner(parts[0]) + ("\r\n--").spec_bytes() + b + message_tail(
            b,
            parts.drop_first(),
        )
    }
}

/// The full wire encoding of a message.
pub open spec fn message_encoding(b: Seq<u8>, parts: Seq<PartView>) -> Seq<u8> {
    ("--").spec_bytes() + b + message_tail(b, parts)
}

/// Whether some part carries this Content-ID.
pub open spec fn start_found(parts: Seq<PartView>, s: Seq<u8>) -> bool {
    exists|i: int| 0 <= i < parts.len() && #[trigger] parts[i].content_id == Some(s)
}

/// The declared media type of a message: the multipart/related kind, its
/// boundary parameter, and the optional root type and start id parameters.
pub open spec fn message_content_type(
    boundary: Seq<char>,
    root_type: Option<Seq<char>>,
    start: Option<Seq<char>>,
) -> Seq<char> {
    "multipart/related; boundary="@ + boundary + (match root_type {
        Some(t) => "; type=\""@ + t + "\""@,
        None => Seq::<char>::empty(),
    }) + (match start {
        Some(s) => "; start=\"<"@ + s + ">\""@,
        None => Seq::<char>::empty(),
    })
}

/// Append bytes to a buffer.
fn append_bytes(out: &mut Vec<u8>, src: &[u8])
    ensures
        final(out)@ == old(out)@ + src@,
{
    let mut i: usize = 0;
    while i < src.len()
        invariant
            i <= src@.len(),
            out@ == old(out)@ + src@.take(i as int),
        decreases src@.len() - i,
    {
        out.push(src[i]);
        proof {
            assert(src@.take(i + 1 as int) =~= src@.take(i as int).push(src@[i as int]));
            assert(out@ =~= old(out)@ + src@.take(i + 1 as int));
        }
        i += 1;
    }
    proof {
        assert(src@.take(src@.len() as int) == src@);
    }
}

/// Append one part to the message buffer: its line break, header section,
/// payload, and the delimiter that follows it.
#[verifier::rlimit(100)]
#[verifier::spinoff_prover]
fn append_part(out: &mut Vec<u8>, part: &Part, bb: &Vec<u8>)
    ensures
        final(out)@ == old(out)@ + ("\r\n").spec_bytes() + part_inner(part@) + (
        "\r\n--"
        ).spec_bytes() + bb@,
{
    append_bytes(out, "\r\n".as_bytes());
    append_bytes(out, "Content-Type: ".as_bytes());
    append_bytes(out, part.content_type.as_slice());
    if let Some(id) = &part.content_id {
        append_bytes(out, "\r\nContent-ID: <".as_bytes());
        append_bytes(out, id.as_slice());
        append_bytes(out, ">".as_bytes());
    }
    if let Some(e) = &part.encoding {
        append_bytes(out, "\r\nContent-Transfer-Encoding: ".as_bytes());
        append_bytes(out, e.as_slice());
    }
    append_bytes(out, "\r\n\r\n".as_bytes());
    append_bytes(out, part.body.as_slice());
    append_bytes(out, "\r\n--".as_bytes());
    append_bytes(out, bb.as_slice());
    proof {
        assert(out@ =~= old(out)@ + ("\r\n").spec_bytes() + part_inner(part@) + (
        "\r\n--"
        ).spec_bytes() + bb@);
    }
}

/// A builder for multipart/related messages.
pub struct Related {
    pub config: RelatedConfig,
    pub parts: Vec<Part>,
}

impl Related {
    /// A builder with no parts yet.
    pub fn new(config: RelatedConfig) -> (r: Related)
        ensures
            r.config == config,
            r.parts@.len() == 0,
    {
        Related { config, parts: Vec::new() }
    }

    /// Add a part to the message.
    pub fn add_part(&mut self, part: Part)
        ensures
            final(self).parts@ == old(self).parts@.push(part),
            final(self).config == old(self).config,
    {
        self.parts.push(part);
    }

    /// The Content-Type header value declared for the whole message: the
    /// multipart/related type with the boundary and the optional root type
    /// and start id.
    pub fn build_content_type(&self) -> (r: String)
        ensures
            r@ == message_content_type(
                self.config.boundary@,
                match self.config.root_type {
                    Some(t) => Some(t@),
                    None => None,
                },
                match self.config.start {
                    Some(s) => Some(s@),
                    None => None,
                },
            ),
    {
        let mut out = String::from_str("multipart/related; boundary=");
        out.append(self.config.boundary.as_str());
        if let Some(t) = &self.config.root_type {
            out.append("; type=\"");
            out.append(t.as_str());
            out.append("\"");
        }
        if let Some(s) = &self.config.start {
            out.append("; start=\"<");
            out.append(s.as_str());
            out.append(">\"");
        }
        proof {
            assert(out@ =~= message_content_type(
                self.config.boundary@,
                match self.config.root_type {
                    Some(t) => Some(t@),
                    None => None,
                },
                match self.config.start {
                    Some(s) => Some(s@),
                    None => None,
                },
            ));
        }
        out
    }

    /// Encode the message: every part in order between boundary delimiter
    /// lines, closed by the final delimiter. Fails with `EmptyMessage` when
    /// no part was added, and with `StartNotFound` when a declared start
    /// Content-ID names no part.
    #[verifier::rlimit(100)]
    #[verifier::spinoff_prover]
    pub fn build(&self) -> (r: Result<Vec<u8>, MultipartError>)
        ensures
            ({
                let pvs = part_views(self.parts@);
                let bb = encode_utf8(self.config.boundary@);
                match r {
                    Ok(bytes) => self.parts@.len() >= 1 && (match self.config.start {
                        Some(s) => start_found(pvs, encode_utf8(s@)),
                        None => true,
                    }) && bytes@ == message_encoding(bb, pvs),
                    Err(e) => match e {
                        MultipartError::EmptyMessage => self.parts@.len() == 0,
                        MultipartError::StartNotFound(s) => self.parts@.len() >= 1 && (
                        self.config.start matches Some(cs) && s@ == cs@ && !start_found(
                            pvs,
                            encode_utf8(cs@),
                        )),
                        _ => false,
                    },
                }
            }),
    {
        let ghost pvs = part_views(self.parts@);
        if self.parts.len() == 0 {
            return Err(MultipartError::EmptyMessage);
        }
        if let Some(s) = &self.config.start {
            let sb = s.as_str().as_bytes_vec();
            let mut found = false;
            let mut i: usize = 0;
            while i < self.parts.len()
                invariant
                    i <= self.parts@.len(),
                    pvs == part_views(self.parts@),
                    pvs.len() == self.parts@.len(),
                    found <==> exists|k: int|
                        0 <= k < i && #[trigger] pvs[k].content_id == Some(sb@),
                decreases self.parts@.len() - i,
            {
                if !found {
                    if let Some(id) = &self.parts[i].content_id {
                        if bytes_eq(id, &sb) {
                            proof {
                                assert(pvs[i as int].content_id == Some(sb@));
                            }
                            found = true;
                        }
                    }
                }
                i += 1;
            }
            if !found {
                return Err(MultipartError::StartNotFound(String::from_str(s.as_str())));
            }
        }
        let bb = self.config.boundary.as_str().as_bytes_vec();
        let mut out: Vec<u8> = Vec::new();
        append_bytes(&mut out, "--".as_bytes());
        append_bytes(&mut out, bb.as_slice());
        let ghost head = out@;
        let mut i: usize = 0;
        while i < self.parts.len()
            invariant
                i <= self.parts@.len(),
                pvs == part_views(self.parts@),
                pvs.len() == self.parts@.len(),
                bb@ == encode_utf8(self.config.boundary@),
                head == ("--").spec_bytes() + bb@,
                out@ == head + encoded_prefix(bb@, pvs, i as int),
            decreases self.parts@.len() - i,
        {
            append_part(&mut out, &self.parts[i], &bb);
            proof {
                lemma_encoded_prefix_step(bb@, pvs, i as int);
                assert(out@ =~= head + encoded_prefix(bb@, pvs, i + 1 as int));
            }
            i += 1;
        }
        append_bytes(&mut out, "--\r\n".as_bytes());
        proof {
            lemma_encoded_prefix_full(bb@, pvs);
            assert(out@ =~= ("--").spec_bytes() + bb@ + message_tail(bb@, pvs));
        }
        Ok(out)
    }
}

/// The first `i` parts of a message as encoded bytes: each part between
/// its line break and the delimiter that follows it.
pub open spec fn encoded_prefix(b: Seq<u8>, parts: Seq<PartView>, i: int) -> Seq<u8>
    decreases i,
{
    if i <= 0 {
        Seq::empty()
    } else {
        encoded_prefix(b, parts, i - 1) + ("\r\n").spec_bytes() + part_inner(parts[i - 1]) + (
        "\r\n--"
        ).spec_bytes() + b
    }
}

proof fn lemma_encoded_prefix_step(b: Seq<u8>, parts: Seq<PartView>, i: int)
    requires
        0 <= i,
    ensures
        encoded_prefix(b, parts, i + 1) == encoded_prefix(b, parts, i) + ("\r\n").spec_bytes()
            + part_inner(parts[i]) + ("\r\n--").spec_bytes() + b,
{
}

proof fn lemma_encoded_prefix_full(b: Seq<u8>, parts: Seq<PartView>)
    ensures
        encoded_prefix(b, parts, parts.len() as int) + ("--\r\n").spec_bytes() == message_tail(
            b,
            parts,
        ),
    decreases parts.len(),
{
    if parts.len() == 0 {
        assert(encoded_prefix(b, parts, 0) + ("--\r\n").spec_bytes() =~= ("--\r\n").spec_bytes());
    } else {
        let sub = parts.drop_first();
        lemma_encoded_prefix_full(b, sub);
        lemma_encoded_prefix_shift(b, parts, parts.len() as int);
        assert(message_tail(b, parts) == ("\r\n").spec_bytes() + part_inner(parts[0]) + (
        "\r\n--"
        ).spec_bytes() + b + message_tail(b, sub));
        assert(encoded_prefix(b, parts, parts.len() as int) + ("--\r\n").spec_bytes() =~= (
        "\r\n"
        ).spec_bytes() + part_inner(parts[0]) + ("\r\n--").spec_bytes() + b + (encoded_prefix(
            b,
            sub,
            sub.len() as int,
        ) + ("--\r\n").spec_bytes()));
    }
}

proof fn lemma_encoded_prefix_shift(b: Seq<u8>, parts: Seq<PartView>, i: int)
    requires
        1 <= i <= parts.len(),
    ensures
        encoded_prefix(b, parts, i) == ("\r\n").spec_bytes() + part_inner(parts[0]) + (
        "\r\n--"
        ).spec_bytes() + b + encoded_prefix(b, parts.drop_first(), i - 1),
    decreases i,
{
    if i == 1 {
        assert(encoded_prefix(b, parts, 0) =~= Seq::<u8>::empty());
        assert(encoded_prefix(b, parts.drop_first(), 0) =~= Seq::<u8>::empty());
        assert(encoded_prefix(b, parts, 1) =~= ("\r\n").spec_bytes() + part_inner(parts[0]) + (
        "\r\n--"
        ).spec_bytes() + b + encoded_prefix(b, parts.drop_first(), 0));
    } else {
        lemma_encoded_prefix_shift(b, parts, i - 1);
        assert(parts.drop_first()[i - 2] == parts[i - 1]);
        assert(encoded_prefix(b, parts, i) =~= ("\r\n").spec_bytes() + part_inner(parts[0]) + (
        "\r\n--"
        ).spec_bytes() + b + encoded_prefix(b, parts.drop_first(), i - 1));
    }
}

/// Whether `n` occurs in `h` at position `i`.
pub open spec fn match_at(h: Seq<u8>, n: Seq<u8>, i: int) -> bool {
    0 <= i && i + n.len() <= h.len() && h.subrange(i, i + n.len()) == n
}

/// The first position at or after `i` where `n` occurs in `h`.
pub open spec fn find_from(h: Seq<u8>, n: Seq<u8>, i: int) -> Option<int>
    decreases h.len() + 1 - i,
{
    if i < 0 || i + n.len() > h.len() {
        None
    } else if match_at(h, n, i) {
        Some(i)
    } else {
        find_from(h, n, i + 1)
    }
}

pub proof fn lemma_find_from(h: Seq<u8>, n: Seq<u8>, from: int)
    requires
        0 <= from,
    ensures
        match find_from(h, n, from) {
            Some(i) => from <= i && match_at(h, n, i) && forall|j: int|
                from <= j < i ==> !match_at(h, n, j),
            None => forall|j: int| from <= j ==> !match_at(h, n, j),
        },
    decreases h.len() + 1 - from,
{
    if from + n.len() > h.len() {
    } else if !match_at(h, n, from) {
        lemma_find_from(h, n, from + 1);
    }
}

pub proof fn lemma_find_from_exact(h: Seq<u8>, n: Seq<u8>, from: int, i: int)
    requires
        0 <= from <= i,
        match_at(h, n, i),
        forall|j: int| from <= j < i ==> !match_at(h, n, j),
    ensures
        find_from(h, n, from) == Some(i),
    decreases i - from,
{
    if from < i {
        lemma_find_from_exact(h, n, from + 1, i);
    }
}

pub proof fn lemma_find_from_none(h: Seq<u8>, n: Seq<u8>, from: int)
    requires
        0 <= from,
        forall|j: int| from <= j ==> !match_at(h, n, j),
    ensures
        find_from(h, n, from) == None::<int>,
{
    lemma_find_from(h, n, from);
    match find_from(h, n, from) {
        Some(i) => {
            assert(!match_at(h, n, i));
        },
        None => {},
    }
}

/// The decoded header section of one part: the header values and how many
/// bytes the section occupies, blank line included.
#[verifier::ext_equal]
pub struct HeaderView {
    pub content_type: Seq<u8>,
    pub content_id: Option<Seq<u8>>,
    pub encoding: Option<Seq<u8>>,
    pub consumed: int,
}

/// Decode an optional `Content-ID` line at position `p`: absent lines
/// consume nothing; a present line must close its bracket before the line
/// break.
pub open spec fn decode_cid(bytes: Seq<u8>, p: int) -> Option<(Option<Seq<u8>>, int)> {
    let cidp = ("Content-ID: <").spec_bytes();
    if match_at(bytes, cidp, p) {
        match find_from(bytes, ("\r\n").spec_bytes(), p + cidp.len()) {
            None => None,
            Some(e) => {
                if p + cidp.len() <= e - 1 && bytes[e - 1] == 62 {
                    Some((Some(bytes.subrange(p + cidp.len(), e - 1)), e + 2))
                } else {
                    None
                }
            },
        }
    } else {
        Some((None, p))
    }
}

/// Decode an optional `Content-Transfer-Encoding` line at position `p`.
pub open spec fn decode_enc(bytes: Seq<u8>, p: int) -> Option<(Option<Seq<u8>>, int)> {
    let encp = ("Content-Transfer-Encoding: ").spec_bytes();
    if match_at(bytes, encp, p) {
        match find_from(bytes, ("\r\n").spec_bytes(), p + encp.len()) {
            None => None,
            Some(e) => Some((Some(bytes.subrange(p + encp.len(), e)), e + 2)),
        }
    } else {
        Some((None, p))
    }
}

/// Decode a part's header section: the `Content-Type` line, the optional
/// id and encoding lines in that order, and the blank line.
pub open spec fn decode_headers(bytes: Seq<u8>) -> Option<HeaderView> {
    let ctp = ("Content-Type: ").spec_bytes();
    if !match_at(bytes, ctp, 0) {
        None
    } else {
        match find_from(bytes, ("\r\n").spec_bytes(), ctp.len() as int) {
            None => None,
            Some(e1) => {
                let ct = bytes.subrange(ctp.len() as int, e1);
                match decode_cid(bytes, e1 + 2) {
                    None => None,
                    Some((cid, p2)) => match decode_enc(bytes, p2) {
                        None => None,
                        Some((enc, p3)) => {
                            if match_at(bytes, ("\r\n").spec_bytes(), p3) {
                                Some(
                                    HeaderView {
                                        content_type: ct,
                                        content_id: cid,
                                        encoding: enc,
                                        consumed: p3 + 2,
                                    },
                                )
                            } else {
                                None
                            }
                        },
                    },
                }
            },
        }
    }
}

/// Decode the bytes after an opening `--{boundary}`: the closing `--` line,
/// or a line break, one part, and the next delimiter.
pub open spec fn decode_after_delim(b: Seq<u8>, rest: Seq<u8>) -> Option<Seq<PartView>>
    decreases rest.len(),
{
    if rest == ("--\r\n").spec_bytes() {
        Some(Seq::empty())
    } else if rest.len() >= 2 && match_at(rest, ("\r\n").spec_bytes(), 0) {
        let after = rest.skip(2);
        match decode_headers(after) {
            None => None,
            Some(h) => {
                if 0 <= h.consumed <= after.len() {
                    let region = after.skip(h.consumed);
                    let needle = ("\r\n--").spec_bytes() + b;
                    match find_from(region, needle, 0) {
                        None => None,
                        Some(pos) => {
                            if 0 <= pos && 1 <= pos + needle.len() <= region.len() {
                                let body = region.take(pos);
                                let rest2 = region.skip(pos + needle.len());
                                match decode_after_delim(b, rest2) {
                                    None => None,
                                    Some(ps) => Some(
                                        seq![
                                            PartView {
                                                content_type: h.content_type,
                                                content_id: h.content_id,
                                                encoding: h.encoding,
                                                body,
                                            },
                                        ] + ps,
                                    ),
                                }
                            } else {
                                None
                            }
                        },
                    }
                } else {
                    None
                }
            },
        }
    } else {
        None
    }
}

/// Decode a whole message against its boundary.
pub open spec fn decode_msg(b: Seq<u8>, bytes: Seq<u8>) -> Option<Seq<PartView>> {
    let open = ("--").spec_bytes() + b;
    if match_at(bytes, open, 0) {
        decode_after_delim(b, bytes.skip(open.len() as int))
    } else {
        None
    }
}

/// The byte contents of the short wire literals, and the facts about the
/// header-line prefixes that the decoder's case analysis rests on.
pub proof fn lemma_wire_literals()
    ensures
        ("--").spec_bytes() =~= seq![45u8, 45u8],
        ("\r\n").spec_bytes() =~= seq![13u8, 10u8],
        ("\r\n--").spec_bytes() =~= seq![13u8, 10u8, 45u8, 45u8],
        ("--\r\n").spec_bytes() =~= seq![45u8, 45u8, 13u8, 10u8],
        (">").spec_bytes() =~= seq![62u8],
        ("\r\n\r\n").spec_bytes() =~= seq![13u8, 10u8, 13u8, 10u8],
        ("Content-Type: ").spec_bytes().len() == 14,
        ("Content-ID: <").spec_bytes().len() == 13,
        ("\r\nContent-ID: <").spec_bytes() =~= ("\r\n").spec_bytes() + (
        "Content-ID: <"
        ).spec_bytes(),
        ("\r\nContent-Transfer-Encoding: ").spec_bytes() =~= ("\r\n").spec_bytes() + (
        "Content-Transfer-Encoding: "
        ).spec_bytes(),
        ("Content-Transfer-Encoding: ").spec_bytes().len() == 27,
        forall|i: int|
            0 <= i < 14 ==> ("Content-Type: ").spec_bytes()[i] != 13 && (
            "Content-Type: "
            ).spec_bytes()[i] != 10,
        forall|i: int|
            0 <= i < 13 ==> ("Content-ID: <").spec_bytes()[i] != 13 && (
            "Content-ID: <"
            ).spec_bytes()[i] != 10,
        forall|i: int|
            0 <= i < 27 ==> ("Content-Transfer-Encoding: ").spec_bytes()[i] != 13 && (
            "Content-Transfer-Encoding: "
            ).spec_bytes()[i] != 10,
        ("Content-Type: ").spec_bytes()[0] == 67,
        ("Content-ID: <").spec_bytes()[0] == 67,
        ("Content-Transfer-Encoding: ").spec_bytes()[0] == 67,
        ("Content-ID: <").spec_bytes()[8] == 73,
        ("Content-Transfer-Encoding: ").spec_bytes()[8] == 84,
        ("Content-ID: <").spec_bytes()[12] == 60,
{
    broadcast use vstd::string::is_ascii_spec_bytes;

    reveal_strlit("--");
    reveal_strlit("\r\n");
    reveal_strlit("\r\n--");
    reveal_strlit("--\r\n");
    reveal_strlit(">");
    reveal_strlit("\r\n\r\n");
    reveal_strlit("Content-Type: ");
    reveal_strlit("Content-ID: <");
    reveal_strlit("\r\nContent-ID: <");
    reveal_strlit("Content-Transfer-Encoding: ");
    reveal_strlit("\r\nContent-Transfer-Encoding: ");
    assert(("--").is_ascii());
    assert(("\r\n").is_ascii());
    assert(("\r\n--").is_ascii());
    assert(("--\r\n").is_ascii());
    assert((">").is_ascii());
    assert(("\r\n\r\n").is_ascii());
    assert(("Content-Type: ").is_ascii());
    assert(("Content-ID: <").is_ascii());
    assert(("\r\nContent-ID: <").is_ascii());
    assert(("Content-Transfer-Encoding: ").is_ascii());
    assert(("\r\nContent-Transfer-Encoding: ").is_ascii());
}

/// Whether `pat` occurs in `h` at position `at`.
fn starts_with_at(h: &Vec<u8>, pat: &[u8], at: usize) -> (r: bool)
    ensures
        r == match_at(h@, pat@, at as int),
{
    if pat.len() > h.len() || at > h.len() - pat.len() {
        return false;
    }
    let hl = h.len();
    let pl = pat.len();
    let mut i: usize = 0;
    while i < pl
        invariant
            i <= pl,
            pl == pat@.len(),
            hl == h@.len(),
            at + pl <= hl,
            forall|k: int| 0 <= k < i ==> h@[at + k] == pat@[k],
        decreases pl - i,
    {
        if h[at + i] != pat[i] {
            proof {
                assert(h@.subrange(at as int, at + pat@.len())[i as int] != pat@[i as int]);
            }
            return false;
        }
        i += 1;
    }
    proof {
        assert(h@.subrange(at as int, at + pat@.len()) =~= pat@);
    }
    true
}

/// The first position at or after `from` where `n` occurs in `h`.
fn find_sub(h: &Vec<u8>, n: &[u8], from: usize) -> (r: Option<usize>)
    ensures
        match r {
            Some(i) => from <= i && i + n@.len() <= h@.len() && find_from(h@, n@, from as int)
                == Some(i as int),
            None => find_from(h@, n@, from as int) is None,
        },
{
    if n.len() > h.len() {
        proof {
            lemma_find_from_none(h@, n@, from as int);
        }
        return None;
    }
    if n.len() == 0 {
        if from <= h.len() {
            proof {
                assert(h@.subrange(from as int, from as int) =~= n@);
                assert(match_at(h@, n@, from as int));
                lemma_find_from_exact(h@, n@, from as int, from as int);
            }
            return Some(from);
        } else {
            proof {
                lemma_find_from_none(h@, n@, from as int);
            }
            return None;
        }
    }
    let hl = h.len();
    let last = h.len() - n.len();
    let mut i: usize = from;
    if from > last {
        proof {
            lemma_find_from_none(h@, n@, from as int);
        }
        return None;
    }
    while i <= last
        invariant
            from <= i <= last + 1,
            last + n@.len() == h@.len(),
            n@.len() >= 1,
            hl == h@.len(),
            forall|j: int| from <= j < i ==> !match_at(h@, n@, j),
        decreases last + 1 - i,
    {
        if starts_with_at(h, n, i) {
            proof {
                lemma_find_from_exact(h@, n@, from as int, i as int);
            }
            return Some(i);
        }
        i += 1;
    }
    proof {
        assert(forall|j: int| from <= j ==> !match_at(h@, n@, j));
        lemma_find_from_none(h@, n@, from as int);
    }
    None
}

/// Copy the byte range `[from, to)` out of `v`.
fn subvec(v: &Vec<u8>, from: usize, to: usize) -> (r: Vec<u8>)
    requires
        from <= to <= v@.len(),
    ensures
        r@ == v@.subrange(from as int, to as int),
{
    let mut out: Vec<u8> = Vec::new();
    let mut k: usize = from;
    while k < to
        invariant
            from <= k <= to <= v@.len(),
            out@ == v@.subrange(from as int, k as int),
        decreases to - k,
    {
        out.push(v[k]);
        proof {
            assert(v@.subrange(from as int, k + 1 as int) =~= v@.subrange(
                from as int,
                k as int,
            ).push(v@[k as int]));
        }
        k += 1;
    }
    out
}

/// Decode a part's header section, returning the header values and how
/// many bytes the section occupies.
fn parse_headers(after: &Vec<u8>) -> (r: Option<(Vec<u8>, Option<Vec<u8>>, Option<Vec<u8>>, usize)>)
    ensures
        match r {
            Some(h) => h.3 <= after@.len() && decode_headers(after@) == Some(
                HeaderView {
                    content_type: h.0@,
                    content_id: match h.1 {
                        Some(v) => Some(v@),
                        None => None,
                    },
                    encoding: match h.2 {
                        Some(v) => Some(v@),
                        None => None,
                    },
                    consumed: h.3 as int,
                },
            ),
            None => decode_headers(after@) is None,
        },
{
    proof {
        lemma_wire_literals();
    }
    let n = after.len();
    let ctp: &[u8] = "Content-Type: ".as_bytes();
    let crlf: &[u8] = "\r\n".as_bytes();
    if !starts_with_at(after, ctp, 0) {
        return None;
    }
    let e1 = match find_sub(after, crlf, ctp.len()) {
        Some(e) => e,
        None => {
            return None;
        },
    };
    let ct = subvec(after, ctp.len(), e1);
    let p1 = e1 + 2;
    let cidp: &[u8] = "Content-ID: <".as_bytes();
    let mut cid: Option<Vec<u8>> = None;
    let mut p2 = p1;
    if starts_with_at(after, cidp, p1) {
        let e2 = match find_sub(after, crlf, p1 + cidp.len()) {
            Some(e) => e,
            None => {
                return None;
            },
        };
        if !(p1 + cidp.len() <= e2 - 1 && after[e2 - 1] == 62) {
            return None;
        }
        cid = Some(subvec(after, p1 + cidp.len(), e2 - 1));
        p2 = e2 + 2;
    }
    let encp: &[u8] = "Content-Transfer-Encoding: ".as_bytes();
    let mut enc: Option<Vec<u8>> = None;
    let mut p3 = p2;
    if starts_with_at(after, encp, p2) {
        let e3 = match find_sub(after, crlf, p2 + encp.len()) {
            Some(e) => e,
            None => {
                return None;
            },
        };
        enc = Some(subvec(after, p2 + encp.len(), e3));
        p3 = e3 + 2;
    }
    if !starts_with_at(after, crlf, p3) {
        return None;
    }
    Some((ct, cid, enc, p3 + 2))
}

/// Decode the bytes after an opening `--{boundary}` into parts.
fn decode_after(bb: &Vec<u8>, rest: Vec<u8>) -> (r: Result<Vec<Part>, MultipartError>)
    ensures
        match r {
            Ok(ps) => decode_after_delim(bb@, rest@) == Some(part_views(ps@)),
            Err(e) => e is MalformedMessage && decode_after_delim(bb@, rest@) is None,
        },
    decreases rest@.len(),
{
    proof {
        lemma_wire_literals();
    }
    let close: &[u8] = "--\r\n".as_bytes();
    if rest.len() == 4 && starts_with_at(&rest, close, 0) {
        proof {
            assert(rest@ =~= ("--\r\n").spec_bytes());
            assert(part_views(Seq::<Part>::empty()) =~= Seq::<PartView>::empty());
        }
        return Ok(Vec::new());
    }
    proof {
        if rest@.len() == 4 {
            assert(rest@.subrange(0, 4) =~= rest@);
        }
        assert(rest@ != ("--\r\n").spec_bytes());
    }
    let crlf: &[u8] = "\r\n".as_bytes();
    if rest.len() >= 2 && starts_with_at(&rest, crlf, 0) {
        let after = subvec(&rest, 2, rest.len());
        proof {
            assert(after@ =~= rest@.skip(2));
        }
        match parse_headers(&after) {
            None => Err(MultipartError::MalformedMessage),
            Some((ct, cid, enc, consumed)) => {
                let region = subvec(&after, consumed, after.len());
                proof {
                    assert(region@ =~= after@.skip(consumed as int));
                }
                let mut needle: Vec<u8> = Vec::new();
                append_bytes(&mut needle, "\r\n--".as_bytes());
                append_bytes(&mut needle, bb.as_slice());
                match find_sub(&region, needle.as_slice(), 0) {
                    None => Err(MultipartError::MalformedMessage),
                    Some(pos) => {
                        let body = subvec(&region, 0, pos);
                        proof {
                            assert(body@ =~= region@.take(pos as int));
                        }
                        let rest2 = subvec(&region, pos + needle.len(), region.len());
                        proof {
                            assert(rest2@ =~= region@.skip(pos + needle@.len()));
                        }
                        match decode_after(bb, rest2) {
                            Err(e) => Err(e),
                            Ok(mut ps) => {
                                let part = Part { content_type: ct, body, content_id: cid, encoding: enc };
                                ps.insert(0, part);
                                proof {
                                    assert(part_views(ps@) =~~= seq![part@] + part_views(
                                        ps@.drop_first(),
                                    ));
                                    assert(ps@.drop_first() =~= ps@.subrange(1, ps@.len() as int));
                                }
                                Ok(ps)
                            },
                        }
                    },
                }
            },
        }
    } else {
        Err(MultipartError::MalformedMessage)
    }
}

/// Decode a whole message against its boundary: the parts between the
/// delimiter lines, exactly as the builder writes them.
pub fn decode_parts(boundary: &str, bytes: &Vec<u8>) -> (r: Result<Vec<Part>, MultipartError>)
    ensures
        match r {
            Ok(ps) => decode_msg(boundary.spec_bytes(), bytes@) == Some(part_views(ps@)),
            Err(e) => e is MalformedMessage && decode_msg(boundary.spec_bytes(), bytes@) is None,
        },
{
    let bb = boundary.as_bytes_vec();
    let mut open: Vec<u8> = Vec::new();
    append_bytes(&mut open, "--".as_bytes());
    append_bytes(&mut open, bb.as_slice());
    if !starts_with_at(bytes, open.as_slice(), 0) {
        return Err(MultipartError::MalformedMessage);
    }
    let rest = subvec(bytes, open.len(), bytes.len());
    proof {
        assert(rest@ =~= bytes@.skip(open@.len() as int));
    }
    decode_after(&bb, rest)
}

/// Whether a byte sequence is free of carriage returns and line feeds, so
/// that it fits on one header line.
pub open spec fn no_crlf(s: Seq<u8>) -> bool {
    forall|i: int| 0 <= i < s.len() ==> #[trigger] s[i] != 13 && s[i] != 10
}

/// Whether a payload can travel under this boundary: the part delimiter
/// must not occur inside the payload, nor astride the payload's end.
pub open spec fn body_admissible(b: Seq<u8>, body: Seq<u8>) -> bool {
    let needle = ("\r\n--").spec_bytes() + b;
    forall|j: int| 0 <= j < body.len() ==> !match_at(body + needle, needle, j)
}

/// Whether a part survives the wire unchanged: single-line header values
/// and a payload free of the delimiter.
pub open spec fn part_admissible(b: Seq<u8>, pv: PartView) -> bool {
    &&& no_crlf(pv.content_type)
    &&& match pv.content_id {
        Some(id) => no_crlf(id),
        None => true,
    }
    &&& match pv.encoding {
        Some(e) => no_crlf(e),
        None => true,
    }
    &&& body_admissible(b, pv.body)
}

/// Decoding the header section the encoder wrote gives back the header
/// values, and consumes exactly the section.
#[verifier::rlimit(100)]
#[verifier::spinoff_prover]
proof fn lemma_headers_round_trip(pv: PartView, suffix: Seq<u8>)
    requires
        no_crlf(pv.content_type),
        match pv.content_id {
            Some(id) => no_crlf(id),
            None => true,
        },
        match pv.encoding {
            Some(e) => no_crlf(e),
            None => true,
        },
    ensures
        decode_headers(header_block(pv) + suffix) == Some(
            HeaderView {
                content_type: pv.content_type,
                content_id: pv.content_id,
                encoding: pv.encoding,
                consumed: header_block(pv).len() as int,
            },
        ),
{
    lemma_wire_literals();
    let bytes = header_block(pv) + suffix;
    let ctp = ("Content-Type: ").spec_bytes();
    let crlf = ("\r\n").spec_bytes();
    let ct = pv.content_type;
    assert(match_at(bytes, ctp, 0)) by {
        assert(bytes.subrange(0, 14) =~= ctp);
    }
    let e1 = 14 + ct.len() as int;
    assert(match_at(bytes, crlf, e1)) by {
        assert(bytes.subrange(e1, e1 + 2) =~= crlf);
    }
    assert forall|j: int| 14 <= j < e1 implies !match_at(bytes, crlf, j) by {
        assert(bytes[j] == ct[j - 14]);
        if match_at(bytes, crlf, j) {
            assert(bytes.subrange(j, j + 2)[0] == 13);
        }
    }
    lemma_find_from_exact(bytes, crlf, 14, e1);
    assert(bytes.subrange(14, e1) =~= ct);
    let p1 = e1 + 2;
    let cidp = ("Content-ID: <").spec_bytes();
    let p2 = match pv.content_id {
        Some(id) => {
            assert(match_at(bytes, cidp, p1)) by {
                assert(bytes.subrange(p1, p1 + 13) =~= cidp);
            }
            let e2 = p1 + 13 + id.len() as int + 1;
            assert(match_at(bytes, crlf, e2)) by {
                assert(bytes.subrange(e2, e2 + 2) =~= crlf);
            }
            assert forall|j: int| p1 + 13 <= j < e2 implies !match_at(bytes, crlf, j) by {
                if j < e2 - 1 {
                    assert(bytes[j] == id[j - p1 - 13]);
                } else {
                    assert(bytes[j] == 62);
                }
                if match_at(bytes, crlf, j) {
                    assert(bytes.subrange(j, j + 2)[0] == 13);
                }
            }
            lemma_find_from_exact(bytes, crlf, p1 + 13, e2);
            assert(bytes[e2 - 1] == 62);
            assert(bytes.subrange(p1 + 13, e2 - 1) =~= id);
            assert(decode_cid(bytes, p1) == Some((Some(id), e2 + 2)));
            e2 + 2
        },
        None => {
            assert(!match_at(bytes, cidp, p1)) by {
                if match_at(bytes, cidp, p1) {
                    assert(bytes.subrange(p1, p1 + 13)[0] == 67);
                    match pv.encoding {
                        Some(e) => {
                            assert(bytes.subrange(p1, p1 + 13)[8] == cidp[8]);
                            assert(bytes[p1 + 8] == (
                            "Content-Transfer-Encoding: "
                            ).spec_bytes()[8]);
                        },
                        None => {
                            assert(bytes[p1] == 13);
                        },
                    }
                }
            }
            assert(decode_cid(bytes, p1) == Some((None::<Seq<u8>>, p1)));
            p1
        },
    };
    let encp = ("Content-Transfer-Encoding: ").spec_bytes();
    let p3 = match pv.encoding {
        Some(e) => {
            assert(match_at(bytes, encp, p2)) by {
                assert(bytes.subrange(p2, p2 + 27) =~= encp);
            }
            let e3 = p2 + 27 + e.len() as int;
            assert(match_at(bytes, crlf, e3)) by {
                assert(bytes.subrange(e3, e3 + 2) =~= crlf);
            }
            assert forall|j: int| p2 + 27 <= j < e3 implies !match_at(bytes, crlf, j) by {
                assert(bytes[j] == e[j - p2 - 27]);
                if match_at(bytes, crlf, j) {
                    assert(bytes.subrange(j, j + 2)[0] == 13);
                }
            }
            lemma_find_from_exact(bytes, crlf, p2 + 27, e3);
            assert(bytes.subrange(p2 + 27, e3) =~= e);
            assert(decode_enc(bytes, p2) == Some((Some(e), e3 + 2)));
            e3 + 2
        },
        None => {
            assert(!match_at(bytes, encp, p2)) by {
                if match_at(bytes, encp, p2) {
                    assert(bytes.subrange(p2, p2 + 27)[0] == 67);
                    assert(bytes[p2] == 13);
                }
            }
            assert(decode_enc(bytes, p2) == Some((None::<Seq<u8>>, p2)));
            p2
        },
    };
    assert(match_at(bytes, crlf, p3)) by {
        assert(bytes.subrange(p3, p3 + 2) =~= crlf);
    }
    assert(p3 + 2 == header_block(pv).len());
}

/// Decoding the bytes the encoder wrote after a delimiter gives back the
/// remaining parts.
#[verifier::rlimit(100)]
#[verifier::spinoff_prover]
proof fn lemma_tail_round_trip(b: Seq<u8>, parts: Seq<PartView>)
    requires
        forall|i: int| 0 <= i < parts.len() ==> part_admissible(b, #[trigger] parts[i]),
    ensures
        decode_after_delim(b, message_tail(b, parts)) == Some(parts),
    decreases parts.len(),
{
    lemma_wire_literals();
    let rest = message_tail(b, parts);
    let crlf = ("\r\n").spec_bytes();
    let close = ("--\r\n").spec_bytes();
    if parts.len() == 0 {
        assert(rest == close);
        assert(decode_after_delim(b, rest) == Some(Seq::<PartView>::empty()));
        assert(Seq::<PartView>::empty() =~= parts);
    } else {
        let pv = parts[0];
        let needle = ("\r\n--").spec_bytes() + b;
        let tail1 = message_tail(b, parts.drop_first());
        assert(rest == crlf + part_inner(pv) + ("\r\n--").spec_bytes() + b + tail1);
        assert(rest.len() >= 2 + part_inner(pv).len() + 4 + b.len());
        assert(rest[0] == 13);
        assert(rest != close) by {
            if rest == close {
                assert(rest[0] == 45);
            }
        }
        assert(match_at(rest, crlf, 0)) by {
            assert(rest.subrange(0, 2) =~= crlf);
        }
        let after = rest.skip(2);
        assert(after =~= header_block(pv) + (pv.body + needle + tail1));
        let hsuffix = pv.body + needle + tail1;
        lemma_headers_round_trip(pv, hsuffix);
        let hb = header_block(pv);
        let consumed = hb.len() as int;
        assert(decode_headers(after) == Some(
            HeaderView {
                content_type: pv.content_type,
                content_id: pv.content_id,
                encoding: pv.encoding,
                consumed,
            },
        ));
        let region = after.skip(consumed);
        assert(region =~= pv.body + needle + tail1);
        let bl = pv.body.len() as int;
        assert(match_at(region, needle, bl)) by {
            assert(region.subrange(bl, bl + needle.len()) =~= needle);
        }
        assert forall|j: int| 0 <= j < bl implies !match_at(region, needle, j) by {
            if match_at(region, needle, j) {
                assert((pv.body + needle).subrange(j, j + needle.len()) =~= region.subrange(
                    j,
                    j + needle.len(),
                ));
                assert(match_at(pv.body + needle, needle, j));
            }
        }
        lemma_find_from_exact(region, needle, 0, bl);
        assert(region.take(bl) =~= pv.body);
        let rest2 = region.skip(bl + needle.len());
        assert(rest2 =~= tail1);
        lemma_tail_round_trip(b, parts.drop_first());
        assert(decode_after_delim(b, rest2) == Some(parts.drop_first()));
        assert(seq![
            PartView {
                content_type: pv.content_type,
                content_id: pv.content_id,
                encoding: pv.encoding,
                body: region.take(bl),
            },
        ] + parts.drop_first() =~~= parts);
        assert(decode_after_delim(b, rest) == Some(parts));
    }
}

/// Round trip: decoding an encoded message gives back the same parts, in
/// the same order, with identical content type, content id, transfer
/// encoding and payload bytes. The parts must be wire-safe: header values
/// on one line, and no payload containing the part delimiter.
pub proof fn lemma_multipart_round_trip(b: Seq<u8>, parts: Seq<PartView>)
    requires
        parts.len() >= 1,
        forall|i: int| 0 <= i < parts.len() ==> part_admissible(b, #[trigger] parts[i]),
    ensures
        decode_msg(b, message_encoding(b, parts)) == Some(parts),
{
    let bytes = message_encoding(b, parts);
    let open = ("--").spec_bytes() + b;
    assert(match_at(bytes, open, 0)) by {
        assert(bytes.subrange(0, open.len() as int) =~= open);
    }
    assert(bytes.skip(open.len() as int) =~= message_tail(b, parts));
    lemma_tail_round_trip(b, parts);
}

/// The first position at or after `i` holding character `c`.
pub open spec fn find_char(s: Seq<char>, c: char, i: int) -> Option<int>
    decreases s.len() + 1 - i,
{
    if i < 0 || i >= s.len() {
        None
    } else if s[i] == c {
        Some(i)
    } else {
        find_char(s, c, i + 1)
    }
}

proof fn lemma_find_char(s: Seq<char>, c: char, from: int)
    requires
        0 <= from,
    ensures
        match find_char(s, c, from) {
            Some(i) => from <= i < s.len() && s[i] == c && forall|j: int|
                from <= j < i ==> s[j] != c,
            None => forall|j: int| from <= j < s.len() ==> s[j] != c,
        },
    decreases s.len() + 1 - from,
{
    if from < s.len() && s[from] != c {
        lemma_find_char(s, c, from + 1);
    }
}

/// The first non-space position in `[i, k)`, or `k`.
pub open spec fn skip_spaces(s: Seq<char>, i: int, k: int) -> int
    decreases k - i,
{
    if i < k && i < s.len() && s[i] == ' ' {
        skip_spaces(s, i + 1, k)
    } else {
        i
    }
}

/// The end of `[i, k)` with trailing spaces removed.
pub open spec fn rskip_spaces(s: Seq<char>, i: int, k: int) -> int
    decreases k - i,
{
    if i < k && k - 1 < s.len() && 0 <= k - 1 && s[k - 1] == ' ' {
        rskip_spaces(s, i, k - 1)
    } else {
        k
    }
}

/// ASCII-case-insensitive character equality: letters match their other
/// case, every other character only itself.
pub open spec fn char_eq_ci(a: char, b: char) -> bool {
    ||| a == b
    ||| ('A' <= a && a <= 'Z' && (b as u32) == (a as u32) + 32)
    ||| ('A' <= b && b <= 'Z' && (a as u32) == (b as u32) + 32)
}

/// ASCII-case-insensitive equality of two character sequences.
pub open spec fn seq_eq_ci(x: Seq<char>, y: Seq<char>) -> bool {
    x.len() == y.len() && forall|i: int| 0 <= i < x.len() ==> char_eq_ci(#[trigger] x[i], y[i])
}

pub proof fn lemma_seq_eq_ci_refl(x: Seq<char>)
    ensures
        seq_eq_ci(x, x),
{
}

/// A parameter value with its surrounding double quotes removed, when both
/// are present.
pub open spec fn strip_quotes(v: Seq<char>) -> Seq<char> {
    if v.len() >= 2 && v[0] == '"' && v.last() == '"' {
        v.subrange(1, v.len() - 1)
    } else {
        v
    }
}

/// The boundary value carried by the parameter written in `[i, k)`, if
/// that parameter is a boundary parameter. The parameter is trimmed of
/// surrounding spaces, its name matches case-insensitively, and a value in
/// double quotes is unwrapped; the value itself keeps its case.
pub open spec fn boundary_param_at(s: Seq<char>, i: int, k: int) -> Option<Seq<char>> {
    let bp = "boundary="@;
    let t = skip_spaces(s, i, k);
    let e = rskip_spaces(s, t, k);
    if t + bp.len() <= e && k <= s.len() && seq_eq_ci(s.subrange(t, t + bp.len()), bp) {
        Some(strip_quotes(s.subrange(t + bp.len(), e)))
    } else {
        None
    }
}

/// The value of the first boundary parameter at or after position `i` in a
/// semicolon-separated parameter list.
pub open spec fn scan_params(s: Seq<char>, i: int) -> Option<Seq<char>>
    decreases s.len() + 1 - i,
{
    match find_char(s, ';', i) {
        None => boundary_param_at(s, i, s.len() as int),
        Some(k) => {
            if i <= k < s.len() {
                match boundary_param_at(s, i, k) {
                    Some(v) => Some(v),
                    None => scan_params(s, k + 1),
                }
            } else {
                None
            }
        },
    }
}

/// The boundary parameter of a declared multipart/related media type, if
/// the type is multipart/related and carries one. Media-type kinds are
/// case-insensitive, so the multipart/related kind matches in any ASCII
/// case.
pub open spec fn parse_boundary_spec(s: Seq<char>) -> Option<Seq<char>> {
    let mp = "multipart/related"@;
    if mp.len() <= s.len() && seq_eq_ci(s.subrange(0, mp.len() as int), mp) && (s.len() == mp.len()
        || s[mp.len() as int] == ';') {
        scan_params(s, mp.len() as int)
    } else {
        None
    }
}

/// Whether `p` occurs in `s` at position `at`, ASCII case ignored.
fn chars_match_ci_at(s: &str, p: &str, at: usize) -> (r: bool)
    ensures
        r == (at + p@.len() <= s@.len() && seq_eq_ci(
            s@.subrange(at as int, at + p@.len()),
            p@,
        )),
{
    let sl = s.unicode_len();
    let pl = p.unicode_len();
    if pl > sl || at > sl - pl {
        return false;
    }
    let mut i: usize = 0;
    while i < pl
        invariant
            i <= pl,
            pl == p@.len(),
            sl == s@.len(),
            at + pl <= sl,
            forall|k: int| 0 <= k < i ==> char_eq_ci(#[trigger] s@[at + k], p@[k]),
        decreases pl - i,
    {
        let a = s.get_char(at + i);
        let b = p.get_char(i);
        let same = a == b || ('A' <= a && a <= 'Z' && (b as u32) == (a as u32) + 32) || ('A' <= b
            && b <= 'Z' && (a as u32) == (b as u32) + 32);
        if !same {
            proof {
                assert(s@.subrange(at as int, at + p@.len())[i as int] == s@[at + i]);
            }
            return false;
        }
        i += 1;
    }
    proof {
        assert(s@.subrange(at as int, at + p@.len()).len() == p@.len());
        assert forall|k: int|
            0 <= k < p@.len() implies char_eq_ci(
            #[trigger] s@.subrange(at as int, at + p@.len())[k],
            p@[k],
        ) by {
            assert(s@.subrange(at as int, at + p@.len())[k] == s@[at + k]);
        }
    }
    true
}

/// The first `;` at or after `from`.
fn find_semicolon(s: &str, from: usize) -> (r: Option<usize>)
    ensures
        match r {
            Some(i) => from <= i < s@.len() && find_char(s@, ';', from as int) == Some(i as int),
            None => find_char(s@, ';', from as int) is None,
        },
{
    let n = s.unicode_len();
    let mut i: usize = from;
    while i < n
        invariant
            from <= i,
            n == s@.len(),
            forall|j: int| from <= j < i ==> s@[j] != ';',
        decreases n - i,
    {
        if s.get_char(i) == ';' {
            proof {
                lemma_find_char_exact(s@, ';', from as int, i as int);
            }
            return Some(i);
        }
        i += 1;
    }
    proof {
        lemma_find_char_none(s@, ';', from as int);
    }
    None
}

pub proof fn lemma_find_char_exact(s: Seq<char>, c: char, from: int, i: int)
    requires
        0 <= from <= i < s.len(),
        s[i] == c,
        forall|j: int| from <= j < i ==> s[j] != c,
    ensures
        find_char(s, c, from) == Some(i),
    decreases i - from,
{
    if from < i {
        lemma_find_char_exact(s, c, from + 1, i);
    }
}

pub proof fn lemma_find_char_none(s: Seq<char>, c: char, from: int)
    requires
        0 <= from,
        forall|j: int| from <= j < s.len() ==> s[j] != c,
    ensures
        find_char(s, c, from) == None::<int>,
{
    lemma_find_char(s, c, from);
    match find_char(s, c, from) {
        Some(i) => {
            assert(s[i] != c);
        },
        None => {},
    }
}

/// The boundary value of the parameter written in `[i, k)`, when it is a
/// boundary parameter.
fn boundary_param_exec(s: &str, i: usize, k: usize) -> (r: Option<String>)
    requires
        i <= k <= s@.len(),
    ensures
        match r {
            Some(v) => boundary_param_at(s@, i as int, k as int) == Some(v@),
            None => boundary_param_at(s@, i as int, k as int) is None,
        },
{
    proof {
        reveal_strlit("boundary=");
    }
    let mut t: usize = i;
    while t < k && s.get_char(t) == ' '
        invariant
            i <= t <= k <= s@.len(),
            skip_spaces(s@, i as int, k as int) == skip_spaces(s@, t as int, k as int),
        decreases k - t,
    {
        t += 1;
    }
    proof {
        assert(skip_spaces(s@, t as int, k as int) == t as int);
    }
    let mut e: usize = k;
    while e > t && s.get_char(e - 1) == ' '
        invariant
            t <= e <= k <= s@.len(),
            rskip_spaces(s@, t as int, k as int) == rskip_spaces(s@, t as int, e as int),
        decreases e,
    {
        e -= 1;
    }
    proof {
        assert(rskip_spaces(s@, t as int, e as int) == e as int);
    }
    if e >= 9 && t <= e - 9 && chars_match_ci_at(s, "boundary=", t) {
        let vfrom = t + 9;
        let ghost vseq = s@.subrange(vfrom as int, e as int);
        let stripped = if e - vfrom >= 2 && s.get_char(vfrom) == '"' && s.get_char(e - 1) == '"' {
            proof {
                assert(vseq.len() >= 2 && vseq[0] == '"' && vseq.last() == '"');
                assert(strip_quotes(vseq) =~= s@.subrange(vfrom + 1 as int, e - 1 as int));
            }
            s.substring_char(vfrom + 1, e - 1)
        } else {
            proof {
                assert(strip_quotes(vseq) =~= vseq);
            }
            s.substring_char(vfrom, e)
        };
        Some(String::from_str(stripped))
    } else {
        None
    }
}

/// Parse the boundary parameter from a declared `multipart/related` media
/// type, failing with `NotMultipartRelated` when the type is another kind
/// or carries no boundary.
pub fn parse_boundary(content_type: &str) -> (r: Result<String, MultipartError>)
    ensures
        match r {
            Ok(b) => parse_boundary_spec(content_type@) == Some(b@),
            Err(e) => e is NotMultipartRelated && parse_boundary_spec(content_type@) is None,
        },
{
    proof {
        reveal_strlit("multipart/related");
    }
    let n = content_type.unicode_len();
    if !chars_match_ci_at(content_type, "multipart/related", 0) {
        return Err(MultipartError::NotMultipartRelated);
    }
    if !(n == 17 || content_type.get_char(17) == ';') {
        return Err(MultipartError::NotMultipartRelated);
    }
    let mut i: usize = 17;
    loop
        invariant
            17 <= i <= n,
            n == content_type@.len(),
            parse_boundary_spec(content_type@) == scan_params(content_type@, i as int),
        decreases n - i,
    {
        match find_semicolon(content_type, i) {
            None => {
                match boundary_param_exec(content_type, i, n) {
                    Some(v) => {
                        return Ok(v);
                    },
                    None => {
                        return Err(MultipartError::NotMultipartRelated);
                    },
                }
            },
            Some(k) => {
                match boundary_param_exec(content_type, i, k) {
                    Some(v) => {
                        return Ok(v);
                    },
                    None => {
                        i = k + 1;
                    },
                }
            },
        }
    }
}

/// Round trip of the declared media type: parsing the Content-Type value
/// the builder writes gives back the boundary it was built with. The
/// boundary must be acceptable and free of semicolons, which would read as
/// a parameter separator.
#[verifier::rlimit(100)]
#[verifier::spinoff_prover]
pub proof fn lemma_content_type_round_trip(
    boundary: Seq<char>,
    root_type: Option<Seq<char>>,
    start: Option<Seq<char>>,
)
    requires
        boundary_valid(boundary),
        forall|i: int| 0 <= i < boundary.len() ==> #[trigger] boundary[i] != ';',
    ensures
        parse_boundary_spec(message_content_type(boundary, root_type, start)) == Some(boundary),
{
    reveal_strlit("multipart/related; boundary=");
    reveal_strlit("multipart/related");
    reveal_strlit("boundary=");
    reveal_strlit("; type=\"");
    reveal_strlit("; start=\"<");
    let s = message_content_type(boundary, root_type, start);
    let head = "multipart/related; boundary="@;
    let tail = (match root_type {
        Some(t) => "; type=\""@ + t + "\""@,
        None => Seq::<char>::empty(),
    }) + (match start {
        Some(st) => "; start=\"<"@ + st + ">\""@,
        None => Seq::<char>::empty(),
    });
    assert(s =~= head + boundary + tail);
    assert(head.len() == 28);
    let bend = 28 + boundary.len() as int;
    // The declared kind is multipart/related, followed by a semicolon.
    assert(s.subrange(0, 17) =~= "multipart/related"@);
    lemma_seq_eq_ci_refl("multipart/related"@);
    assert(seq_eq_ci(s.subrange(0, 17), "multipart/related"@));
    assert(s[17] == ';');
    // The first parameter slot is empty: the semicolon sits at its start.
    lemma_find_char_exact(s, ';', 17, 17);
    assert(skip_spaces(s, 17, 17) == 17);
    assert(boundary_param_at(s, 17, 17) is None);
    assert(scan_params(s, 17) == scan_params(s, 18));
    // The next parameter is the boundary itself.
    assert forall|j: int| 18 <= j < bend implies s[j] != ';' by {
        if j < 28 {
            assert(s[j] == head[j]);
        } else {
            assert(s[j] == boundary[j - 28]);
        }
    }
    if tail.len() == 0 {
        lemma_find_char_none(s, ';', 18);
        assert(skip_spaces(s, 18, s.len() as int) == 19) by {
            reveal_with_fuel(skip_spaces, 3);
            assert(s[18] == ' ');
            assert(s[19] != ' ');
        }
        assert(rskip_spaces(s, 19, s.len() as int) == s.len() as int) by {
            if boundary.len() > 0 {
                assert(!boundary_invalid_char(boundary[boundary.len() - 1]));
                assert(s[s.len() - 1] == boundary[boundary.len() - 1]);
            } else {
                assert(s[s.len() - 1] == head[27]);
            }
        }
        assert(s.subrange(19, 28) =~= "boundary="@);
        lemma_seq_eq_ci_refl("boundary="@);
        assert(seq_eq_ci(s.subrange(19, 28), "boundary="@));
        let v = s.subrange(28, s.len() as int);
        assert(v =~= boundary);
        assert(strip_quotes(v) == v) by {
            if v.len() >= 2 {
                assert(!boundary_invalid_char(boundary[0]));
            }
        }
        assert(boundary_param_at(s, 18, s.len() as int) == Some(boundary));
    } else {
        assert(s[bend] == ';') by {
            match root_type {
                Some(t) => {
                    assert(tail[0] == ("; type=\""@)[0]);
                },
                None => {
                    match start {
                        Some(st) => {
                            assert(tail[0] == ("; start=\"<"@)[0]);
                        },
                        None => {},
                    }
                },
            }
        }
        lemma_find_char_exact(s, ';', 18, bend);
        assert(skip_spaces(s, 18, bend) == 19) by {
            reveal_with_fuel(skip_spaces, 3);
            assert(s[18] == ' ');
            assert(s[19] != ' ');
        }
        assert(rskip_spaces(s, 19, bend) == bend) by {
            if boundary.len() > 0 {
                assert(!boundary_invalid_char(boundary[boundary.len() - 1]));
                assert(s[bend - 1] == boundary[boundary.len() - 1]);
            } else {
                assert(s[bend - 1] == head[27]);
            }
        }
        assert(s.subrange(19, 28) =~= "boundary="@);
        lemma_seq_eq_ci_refl("boundary="@);
        assert(seq_eq_ci(s.subrange(19, 28), "boundary="@));
        let v = s.subrange(28, bend);
        assert(v =~= boundary);
        assert(strip_quotes(v) == v) by {
            if v.len() >= 2 {
                assert(!boundary_invalid_char(boundary[0]));
            }
        }
        assert(boundary_param_at(s, 18, bend) == Some(boundary));
    }
}

/// Handles parsing of multipart/related bodies: the decoded parts, handed
/// out one at a time.
pub struct RelatedBody {
    pub parts: Vec<Part>,
}

impl RelatedBody {
    /// The next field of the multipart body, in wire order; exhaustion is
    /// the end of the message.
    pub fn next_field(&mut self) -> (r: Option<Part>)
        ensures
            match r {
                Some(p) => old(self).parts@.len() > 0 && p == old(self).parts@[0]
                    && final(self).parts@ == old(self).parts@.drop_first(),
                None => old(self).parts@.len() == 0 && final(self).parts@ == old(self).parts@,
            },
    {
        if self.parts.len() == 0 {
            None
        } else {
            let p = self.parts.remove(0);
            proof {
                assert(self.parts@ =~= old(self).parts@.drop_first());
            }
            Some(p)
        }
    }
}

/// Parse a whole multipart/related message: verify the declared media
/// type, extract its boundary, and decode the byte stream into fields.
pub fn parse_related_message(content_type: &str, bytes: &Vec<u8>) -> (r: Result<
    RelatedBody,
    MultipartError,
>)
    ensures
        match r {
            Ok(rb) => parse_boundary_spec(content_type@) matches Some(b) && decode_msg(
                encode_utf8(b),
                bytes@,
            ) == Some(part_views(rb.parts@)),
            Err(e) => match e {
                MultipartError::NotMultipartRelated => parse_boundary_spec(content_type@) is None,
                MultipartError::MalformedMessage => parse_boundary_spec(content_type@)
                    matches Some(b) && decode_msg(encode_utf8(b), bytes@) is None,
                _ => false,
            },
        },
{
    let boundary = match parse_boundary(content_type) {
        Ok(b) => b,
        Err(e) => {
            return Err(MultipartError::NotMultipartRelated);
        },
    };
    match decode_parts(boundary.as_str(), bytes) {
        Ok(parts) => Ok(RelatedBody { parts }),
        Err(_) => Err(MultipartError::MalformedMessage),
    }
}

/// Byte-wise equality of two buffers.
pub fn bytes_eq(a: &Vec<u8>, b: &Vec<u8>) -> (r: bool)
    ensures
        r == (a@ == b@),
{
    if a.len() != b.len() {
        return false;
    }
    let mut i: usize = 0;
    while i < a.len()
        invariant
            i <= a@.len(),
            a@.len() == b@.len(),
            forall|k: int| 0 <= k < i ==> a@[k] == b@[k],
        decreases a@.len() - i,
    {
        if a[i] != b[i] {
            return false;
        }
        i += 1;
    }
    proof {
        assert(a@ =~= b@);
    }
    true
}

} // verus!
