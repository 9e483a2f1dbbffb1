//! The local tool server: which sessions its clients may name, the addresses of
//! transcripts, and what its tools say.
use vstd::prelude::*;
use vstd::utf8::{decode_utf8, encode_utf8, valid_utf8};

use crate::audio::device_label;
use crate::error::ComlinkError;
use crate::meet::{law_source_mode_round_trip, MeetSourceMode};
use crate::meet_service::{DeviceNote, StartOptions, DEFAULT_CHUNK_SECONDS};
use crate::meet_status::{MeetSessionList, MeetSessionSummary, MeetStatusReport, TranscriptResult};
use crate::meet_store::MeetingExportKind;
use crate::numbers::{decimal, is_digit, lemma_decimal_is_digits, usize_text};
use crate::output::session_name;
use crate::record::{DeviceSource, ResolvedRecordDevice};
use crate::strings::{
    cat2, cat3, cat4, cat5, char_is_ascii_alnum, chars_of, contains, copy_opt, find, first_at,
    is_ascii_alnum, lemma_texts_push, occurs_at, opt_text, quote, quoted, split_once, starts_with,
    str_contains, str_eq, str_split_once, str_strip_prefix, texts,
};

verus! {

/// The code of a tool whose call panicked.
pub const INTERNAL_PANIC_CODE: &'static str = "internal_panic";

/// The code of a call that was cancelled before it was done.
pub const INTERNAL_CANCELLED_CODE: &'static str = "internal_cancelled";

/// The code of an address that is none of a transcript.
pub const INVALID_RESOURCE_URI_CODE: &'static str = "invalid_resource_uri";

/// What addresses of transcripts start with.
pub const RESOURCE_URI_PREFIX: &'static str = "comlink://meetings/";

/// The form of addresses of Markdown transcripts.
pub const TRANSCRIPT_MD_TEMPLATE: &'static str = "comlink://meetings/{id}/transcript.md";

/// The form of addresses of JSON transcripts.
pub const TRANSCRIPT_JSON_TEMPLATE: &'static str = "comlink://meetings/{id}/transcript.json";

/// Whether a byte stands for itself in an address.
pub open spec fn is_unreserved(b: u8) -> bool {
    ||| 48 <= b <= 57
    ||| 65 <= b <= 90
    ||| 97 <= b <= 122
    ||| b == 45
    ||| b == 95
    ||| b == 46
    ||| b == 126
}

/// The digit for a number below sixteen, as a byte.
pub open spec fn hex_byte(n: int) -> u8 {
    (if n < 10 {
        48 + n
    } else {
        55 + n
    }) as u8
}

/// The number that a digit stands for.
pub open spec fn hex_value(b: u8) -> Option<int> {
    if 48 <= b <= 57 {
        Some(b - 48)
    } else if 65 <= b <= 70 {
        Some(b - 55)
    } else if 97 <= b <= 102 {
        Some(b - 87)
    } else {
        None
    }
}

/// A byte as it stands in an address.
pub open spec fn encoded_byte(b: u8) -> Seq<u8> {
    if is_unreserved(b) {
        seq![b]
    } else {
        seq![37u8, hex_byte(b as int / 16), hex_byte(b as int % 16)]
    }
}

/// Bytes as they stand in an address.
pub open spec fn encoded_bytes(b: Seq<u8>) -> Seq<u8>
    decreases b.len(),
{
    if b.len() == 0 {
        Seq::empty()
    } else {
        encoded_byte(b[0]) + encoded_bytes(b.drop_first())
    }
}

/// The byte that two bytes behind a percent sign stand for: two digits, or a digit
/// behind a plus sign.
pub open spec fn pair_value(a: u8, b: u8) -> Option<u8> {
    match hex_value(b) {
        None => None,
        Some(low) => if a == 43 {
            Some(low as u8)
        } else {
            match hex_value(a) {
                Some(high) => Some((16 * high + low) as u8),
                None => None,
            }
        },
    }
}

/// The bytes that stand in an address.
pub open spec fn decoded_bytes(b: Seq<u8>) -> Option<Seq<u8>>
    decreases b.len(),
{
    if b.len() == 0 {
        Some(Seq::empty())
    } else if b[0] == 37 {
        if b.len() < 3 {
            None
        } else {
            match (pair_value(b[1], b[2]), decoded_bytes(b.skip(3))) {
                (Some(v), Some(rest)) => Some(seq![v] + rest),
                _ => None,
            }
        }
    } else {
        match decoded_bytes(b.drop_first()) {
            Some(rest) => Some(seq![b[0]] + rest),
            None => None,
        }
    }
}

/// What was written as an address is read back.
proof fn lemma_bytes_round_trip(b: Seq<u8>)
    ensures
        decoded_bytes(encoded_bytes(b)) == Some(b),
    decreases b.len(),
{
    if b.len() > 0 {
        let rest = b.drop_first();
        lemma_bytes_round_trip(rest);
        let e = encoded_bytes(b);
        assert(b =~= seq![b[0]] + rest);
        if is_unreserved(b[0]) {
            assert(e.drop_first() =~= encoded_bytes(rest));
        } else {
            assert(e.skip(3) =~= encoded_bytes(rest));
            assert(pair_value(e[1], e[2]) == Some(b[0]));
        }
    }
}

/// A text as it stands in an address.
pub open spec fn percent_encoded(s: Seq<char>) -> Seq<char> {
    let b = encoded_bytes(encode_utf8(s));
    Seq::new(b.len(), |i: int| b[i] as char)
}

/// The text that stands in an address.
pub open spec fn percent_decoded(s: Seq<char>) -> Option<Seq<char>> {
    match decoded_bytes(encode_utf8(s)) {
        Some(b) => if valid_utf8(b) {
            Some(decode_utf8(b))
        } else {
            None
        },
        None => None,
    }
}

/// What stands in an address is ASCII and no slash.
proof fn lemma_encoded_ascii(b: Seq<u8>)
    ensures
        forall|i: int|
            0 <= i < encoded_bytes(b).len() ==> #[trigger] encoded_bytes(b)[i] < 128
                && encoded_bytes(b)[i] != 47,
    decreases b.len(),
{
    if b.len() > 0 {
        let rest = b.drop_first();
        let head = encoded_byte(b[0]);
        lemma_encoded_ascii(rest);
        assert forall|i: int| 0 <= i < encoded_bytes(b).len() implies #[trigger] encoded_bytes(b)[i]
            < 128 && encoded_bytes(b)[i] != 47 by {
            if i < head.len() {
                assert(encoded_bytes(b)[i] == head[i]);
            } else {
                assert(encoded_bytes(b)[i] == encoded_bytes(rest)[i - head.len()]);
            }
        }
    }
}

/// Any text that is written into an address is read back from it.
pub proof fn law_percent_round_trip(s: Seq<char>)
    ensures
        percent_decoded(percent_encoded(s)) == Some(s),
{
    let b = encoded_bytes(encode_utf8(s));
    let t = percent_encoded(s);
    lemma_encoded_ascii(encode_utf8(s));
    assert(vstd::utf8::is_ascii_chars(t));
    vstd::utf8::is_ascii_chars_encode_utf8(t);
    assert(encode_utf8(t) =~= b) by {
        assert forall|i: int| 0 <= i < b.len() implies encode_utf8(t)[i] == b[i] by {
            assert(t[i] == b[i] as char);
            assert((b[i] as char) as u8 == b[i]);
        }
    }
    lemma_bytes_round_trip(encode_utf8(s));
    vstd::utf8::encode_utf8_valid_utf8(s);
    vstd::utf8::encode_utf8_decode_utf8(s);
}

/// The digit for a number below sixteen.
fn hex_char(n: u8) -> (r: char)
    requires
        n < 16,
    ensures
        r == hex_byte(n as int) as char,
{
    if n < 10 {
        (48 + n) as char
    } else {
        (55 + n) as char
    }
}

/// A text as it stands in an address.
pub fn percent_encode(input: &str) -> (r: String)
    ensures
        r@ == percent_encoded(input@),
{
    let bytes = input.as_bytes();
    let ghost b = encode_utf8(input@);
    let total: usize = bytes.len();
    let mut r = String::new();
    let mut i: usize = 0;
    assert(b.skip(0) =~= b);
    assert(r@ + as_chars(encoded_bytes(b)) =~= as_chars(encoded_bytes(b)));
    while i < total
        invariant
            i <= total,
            total == bytes@.len(),
            bytes@ == b,
            r@ + as_chars(encoded_bytes(b.skip(i as int))) == as_chars(encoded_bytes(b)),
        decreases total - i,
    {
        let byte = bytes[i];
        let ghost before = r@;
        let ghost rest = as_chars(encoded_bytes(b.skip(i + 1)));
        assert(b.skip(i as int).drop_first() =~= b.skip(i + 1));
        assert(b.skip(i as int)[0] == byte);
        let plain = (48 <= byte && byte <= 57) || (65 <= byte && byte <= 90) || (97 <= byte && byte
            <= 122) || byte == 45 || byte == 95 || byte == 46 || byte == 126;
        if plain {
            r.push(byte as char);
            assert(before + as_chars(encoded_bytes(b.skip(i as int))) =~= r@ + rest);
        } else {
            r.push('%');
            r.push(hex_char(byte / 16));
            r.push(hex_char(byte % 16));
            assert(before + as_chars(encoded_bytes(b.skip(i as int))) =~= r@ + rest);
        }
        i += 1;
    }
    assert(b.skip(total as int) =~= Seq::empty());
    assert(r@ + as_chars(Seq::empty()) =~= r@);
    assert(as_chars(encoded_bytes(b)) =~= percent_encoded(input@));
    r
}

/// Bytes as characters.
pub open spec fn as_chars(b: Seq<u8>) -> Seq<char> {
    Seq::new(b.len(), |i: int| b[i] as char)
}

/// The number that a digit stands for.
fn hex_digit(b: u8) -> (r: Option<u8>)
    ensures
        match hex_value(b) {
            Some(n) => r matches Some(k) && k == n && k < 16,
            None => r is None,
        },
{
    if 48 <= b && b <= 57 {
        Some(b - 48)
    } else if 65 <= b && b <= 70 {
        Some(b - 55)
    } else if 97 <= b && b <= 102 {
        Some(b - 87)
    } else {
        None
    }
}

/// The byte that two bytes behind a percent sign stand for.
fn hex_pair(a: u8, b: u8) -> (r: Option<u8>)
    ensures
        r == pair_value(a, b),
{
    match hex_digit(b) {
        None => None,
        Some(low) => if a == 43 {
            Some(low)
        } else {
            match hex_digit(a) {
                Some(high) => Some(16 * high + low),
                None => None,
            }
        },
    }
}

/// `String::from_utf8`: the text that bytes encode, or nothing where they are not
/// valid UTF-8.
#[verifier::external_body]
fn text_of_utf8(bytes: Vec<u8>) -> (r: Option<String>)
    ensures
        match r {
            Some(s) => valid_utf8(bytes@) && s@ == decode_utf8(bytes@),
            None => !valid_utf8(bytes@),
        },
{
    String::from_utf8(bytes).ok()
}

/// The text that stands in an address.
pub fn percent_decode(input: &str) -> (r: Option<String>)
    ensures
        match percent_decoded(input@) {
            Some(text) => r matches Some(s) && s@ == text,
            None => r is None,
        },
{
    let bytes = input.as_bytes();
    let ghost b = encode_utf8(input@);
    let total: usize = bytes.len();
    let mut out: Vec<u8> = Vec::new();
    let mut i: usize = 0;
    assert(b.skip(0) =~= b);
    proof {
        if let Some(rest) = decoded_bytes(b) {
            assert(out@ + rest =~= rest);
        }
    }
    while i < total
        invariant
            i <= total,
            total == bytes@.len(),
            bytes@ == b,
            b == encode_utf8(input@),
            decoded_bytes(b) == match decoded_bytes(b.skip(i as int)) {
                Some(rest) => Some(out@ + rest),
                None => None,
            },
        decreases total - i,
    {
        let ghost here = b.skip(i as int);
        let ghost before = out@;
        if bytes[i] == 37 {
            if total - i < 3 {
                return None;
            }
            match hex_pair(bytes[i + 1], bytes[i + 2]) {
                Some(v) => {
                    out.push(v);
                    assert(here.skip(3) =~= b.skip(i + 3));
                    proof {
                        if let Some(rest) = decoded_bytes(b.skip(i + 3)) {
                            assert(before + (seq![v] + rest) =~= out@ + rest);
                        }
                    }
                    i += 3;
                },
                None => return None,
            }
        } else {
            out.push(bytes[i]);
            assert(here.drop_first() =~= b.skip(i + 1));
            proof {
                if let Some(rest) = decoded_bytes(b.skip(i + 1)) {
                    assert(before + (seq![here[0]] + rest) =~= out@ + rest);
                }
            }
            i += 1;
        }
    }
    assert(b.skip(total as int) =~= Seq::empty());
    assert(out@ + Seq::<u8>::empty() =~= out@);
    text_of_utf8(out)
}

/// Whether a character may stand in the id of a session.
pub open spec fn is_id_char(c: char) -> bool {
    is_ascii_alnum(c) || c == '-' || c == '_' || c == '.'
}

/// Whether a text may be the id of a session: it cannot lead out of the store.
pub open spec fn is_plausible(id: Seq<char>) -> bool {
    &&& id.len() > 0
    &&& id != "."@
    &&& id != ".."@
    &&& !contains(id, ".."@)
    &&& forall|i: int| 0 <= i < id.len() ==> is_id_char(#[trigger] id[i])
}

/// Whether a text may be the id of a session.
pub fn is_plausible_session_id(id: &str) -> (r: bool)
    ensures
        r == is_plausible(id@),
{
    if id.is_empty() || str_eq(id, ".") || str_eq(id, "..") || str_contains(id, "..") {
        return false;
    }
    let chars = chars_of(id);
    let mut i: usize = 0;
    while i < chars.len()
        invariant
            i <= chars@.len(),
            chars@ == id@,
            forall|j: int| 0 <= j < i ==> is_id_char(#[trigger] id@[j]),
        decreases chars@.len() - i,
    {
        let c = chars[i];
        if !(char_is_ascii_alnum(c) || c == '-' || c == '_' || c == '.') {
            assert(!is_id_char(id@[i as int]));
            return false;
        }
        i += 1;
    }
    true
}

/// The id that a client named, if any. One that could lead out of the store is not
/// found, before it reaches the store.
pub fn checked_session_id(id: Option<String>) -> (r: Result<Option<String>, ComlinkError>)
    ensures
        r == match id {
            Some(name) => if is_plausible(name@) {
                Ok::<Option<String>, ComlinkError>(id)
            } else {
                Err(ComlinkError::MeetingSessionNotFound(name))
            },
            None => Ok(None),
        },
{
    match id {
        Some(id) => if is_plausible_session_id(&id) {
            Ok(Some(id))
        } else {
            Err(ComlinkError::MeetingSessionNotFound(id))
        },
        None => Ok(None),
    }
}

/// A plausible id holds no slash and names no directory above: joined to the store
/// it stays within it.
pub proof fn law_plausible_ids_stay_in_the_store(id: Seq<char>)
    requires
        is_plausible(id),
    ensures
        !id.contains('/'),
        !id.contains('\0'),
        id != "."@ && id != ".."@ && id.len() > 0,
{
    assert forall|i: int| 0 <= i < id.len() implies id[i] != '/' && id[i] != '\0' by {
        assert(is_id_char(id[i]));
    }
}

/// Every id that a session is given is plausible, so that every session can be
/// named.
pub proof fn law_session_names_are_plausible(nanos: nat, pid: nat, sequence: nat)
    ensures
        is_plausible(session_name(nanos, pid, sequence)),
{
    lemma_decimal_is_digits(nanos);
    lemma_decimal_is_digits(pid);
    lemma_decimal_is_digits(sequence);
    reveal_strlit("s");
    reveal_strlit("-");
    reveal_strlit(".");
    reveal_strlit("..");
    let a = decimal(nanos);
    let b = decimal(pid);
    let c = decimal(sequence);
    let id = session_name(nanos, pid, sequence);
    assert forall|i: int| 0 <= i < id.len() implies is_id_char(#[trigger] id[i]) && id[i] != '.' by {
        if i == 0 {
            assert(id[i] == 's');
        } else if i < 1 + a.len() {
            assert(id[i] == a[i - 1]);
            assert(is_digit(a[i - 1]));
        } else if i == 1 + a.len() {
            assert(id[i] == '-');
        } else if i < 2 + a.len() + b.len() {
            assert(id[i] == b[i - 2 - a.len()]);
            assert(is_digit(b[i - 2 - a.len()]));
        } else if i == 2 + a.len() + b.len() {
            assert(id[i] == '-');
        } else {
            assert(id[i] == c[i - 3 - a.len() - b.len()]);
            assert(is_digit(c[i - 3 - a.len() - b.len()]));
        }
    }
    assert(id[0] == 's');
    assert("."@[0] == '.');
    assert(".."@[0] == '.');
    assert forall|i: int| !occurs_at(id, ".."@, i) by {
        if occurs_at(id, ".."@, i) {
            assert(id.subrange(i, i + 2)[0] == id[i]);
            assert(id[i] == '.');
        }
    }
}

/// The form of a transcript at an address.
#[derive(Debug, Clone, Copy, PartialEq, Eq, Structural)]
pub enum TranscriptUriKind {
    Markdown,
    Json,
}

impl TranscriptUriKind {
    /// The name of the document.
    pub open spec fn document(self) -> Seq<char> {
        match self {
            TranscriptUriKind::Markdown => "transcript.md"@,
            TranscriptUriKind::Json => "transcript.json"@,
        }
    }

    /// The kind of content.
    pub open spec fn mime(self) -> Seq<char> {
        match self {
            TranscriptUriKind::Markdown => "text/markdown"@,
            TranscriptUriKind::Json => "application/json"@,
        }
    }

    /// The kind of content.
    pub fn mime_type(self) -> (r: &'static str)
        ensures
            r@ == self.mime(),
    {
        match self {
            TranscriptUriKind::Markdown => "text/markdown",
            TranscriptUriKind::Json => "application/json",
        }
    }

    /// The export that holds the transcript.
    pub fn export_kind(self) -> (r: MeetingExportKind)
        ensures
            r == match self {
                TranscriptUriKind::Markdown => MeetingExportKind::Markdown,
                TranscriptUriKind::Json => MeetingExportKind::Json,
            },
    {
        match self {
            TranscriptUriKind::Markdown => MeetingExportKind::Markdown,
            TranscriptUriKind::Json => MeetingExportKind::Json,
        }
    }
}

/// The address of a transcript, taken apart.
#[derive(Debug, Clone, PartialEq, Eq)]
pub struct TranscriptUri {
    pub id: String,
    pub kind: TranscriptUriKind,
}

/// The address of a transcript.
pub open spec fn uri_of(id: Seq<char>, kind: TranscriptUriKind) -> Seq<char> {
    RESOURCE_URI_PREFIX@ + percent_encoded(id) + "/"@ + kind.document()
}

/// The address of a transcript.
pub fn transcript_uri(id: &str, kind: TranscriptUriKind) -> (r: String)
    ensures
        r@ == uri_of(id@, kind),
{
    let document: &str = match kind {
        TranscriptUriKind::Markdown => "transcript.md",
        TranscriptUriKind::Json => "transcript.json",
    };
    cat4(RESOURCE_URI_PREFIX, &percent_encode(id), "/", document)
}

/// The refusal of a document that is no transcript, given its name in quotes.
pub fn unsupported_document(name: &str, uri: &str) -> (r: String)
    ensures
        r@ == "unsupported transcript resource "@ + name@ + " in "@ + uri@
            + "; use transcript.md or transcript.json"@,
{
    cat5(
        "unsupported transcript resource ",
        name,
        " in ",
        uri,
        "; use transcript.md or transcript.json",
    )
}

/// The refusal of an id that is not plausible, given the id in quotes.
pub fn invalid_session_id(id: &str, uri: &str) -> (r: String)
    ensures
        r@ == "invalid meeting session id "@ + id@ + " in "@ + uri@,
{
    cat4("invalid meeting session id ", id, " in ", uri)
}

/// The document that a name stands for.
pub open spec fn document_kind(name: Seq<char>) -> Option<TranscriptUriKind> {
    if name == "transcript.md"@ {
        Some(TranscriptUriKind::Markdown)
    } else if name == "transcript.json"@ {
        Some(TranscriptUriKind::Json)
    } else {
        None
    }
}

/// The session and the form that an address stands for, or why it is none of a
/// transcript: the prefix, one segment that decodes to a plausible id, and the name
/// of a transcript.
pub open spec fn parsed_uri(uri: Seq<char>) -> Result<(Seq<char>, TranscriptUriKind), Seq<char>> {
    if !starts_with(uri, RESOURCE_URI_PREFIX@) {
        Err(
            "unsupported resource URI "@ + uri + "; expected "@ + TRANSCRIPT_MD_TEMPLATE@ + " or "@
                + TRANSCRIPT_JSON_TEMPLATE@,
        )
    } else {
        match split_once(uri.skip(RESOURCE_URI_PREFIX@.len() as int), "/"@) {
            None => Err("resource URI "@ + uri + " has no transcript suffix"@),
            Some((raw, name)) => match document_kind(name) {
                None => Err(
                    "unsupported transcript resource "@ + quoted(name) + " in "@ + uri
                        + "; use transcript.md or transcript.json"@,
                ),
                Some(kind) => match percent_decoded(raw) {
                    None => Err("invalid percent-encoding in "@ + uri),
                    Some(id) => if is_plausible(id) {
                        Ok((id, kind))
                    } else {
                        Err("invalid meeting session id "@ + quoted(id) + " in "@ + uri)
                    },
                },
            },
        }
    }
}

/// The session and the form that an address stands for, or why it is none of a
/// transcript.
pub fn parse_transcript_uri(uri: &str) -> (r: Result<TranscriptUri, String>)
    ensures
        match parsed_uri(uri@) {
            Ok((id, kind)) => r matches Ok(u) && u.id@ == id && u.kind == kind,
            Err(text) => r matches Err(m) && m@ == text,
        },
{
    let rest = match str_strip_prefix(uri, RESOURCE_URI_PREFIX) {
        Some(rest) => rest,
        None => {
            let mut m = cat5(
                "unsupported resource URI ",
                uri,
                "; expected ",
                TRANSCRIPT_MD_TEMPLATE,
                " or ",
            );
            m.append(TRANSCRIPT_JSON_TEMPLATE);
            return Err(m);
        },
    };
    let (raw, name) = match str_split_once(&rest, "/") {
        Some(parts) => parts,
        None => return Err(cat3("resource URI ", uri, " has no transcript suffix")),
    };
    let kind = if str_eq(&name, "transcript.md") {
        TranscriptUriKind::Markdown
    } else if str_eq(&name, "transcript.json") {
        TranscriptUriKind::Json
    } else {
        return Err(unsupported_document(&quote(&name), uri));
    };
    let id = match percent_decode(&raw) {
        Some(id) => id,
        None => return Err(cat2("invalid percent-encoding in ", uri)),
    };
    if !is_plausible_session_id(&id) {
        return Err(invalid_session_id(&quote(&id), uri));
    }
    Ok(TranscriptUri { id, kind })
}

/// The address of a session's transcript stands for that session and form, and the
/// address made of an id that is not plausible is refused, with that id.
pub proof fn law_uri_round_trip(id: Seq<char>, kind: TranscriptUriKind)
    ensures
        parsed_uri(uri_of(id, kind)) == if is_plausible(id) {
            Ok::<(Seq<char>, TranscriptUriKind), Seq<char>>((id, kind))
        } else {
            Err("invalid meeting session id "@ + quoted(id) + " in "@ + uri_of(id, kind))
        },
{
    let uri = uri_of(id, kind);
    let head = RESOURCE_URI_PREFIX@;
    let raw = percent_encoded(id);
    reveal_strlit("/");
    reveal_strlit("transcript.md");
    reveal_strlit("transcript.json");
    assert("transcript.md"@.len() == 13);
    assert("transcript.json"@.len() == 15);
    assert(uri.take(head.len() as int) =~= head);
    let rest = uri.skip(head.len() as int);
    assert(rest =~= raw + "/"@ + kind.document());
    lemma_encoded_ascii(encode_utf8(id));
    assert forall|j: int| 0 <= j < raw.len() implies !occurs_at(rest, "/"@, j) by {
        assert(rest.subrange(j, j + 1)[0] == raw[j]);
        assert(raw[j] != '/');
    }
    assert(rest.subrange(raw.len() as int, raw.len() as int + 1) =~= "/"@);
    assert(first_at(rest, "/"@, raw.len() as int));
    assert forall|i: int| first_at(rest, "/"@, i) implies i == raw.len() by {
        assert(occurs_at(rest, "/"@, i));
    }
    assert(find(rest, "/"@) == Some(raw.len() as int));
    assert(rest.take(raw.len() as int) =~= raw);
    assert(rest.skip(raw.len() as int + 1) =~= kind.document());
    law_percent_round_trip(id);
}

/// Only an address with the prefix stands for a transcript, and just a plausible id
/// comes out of it.
pub proof fn law_only_transcript_uris_are_read(uri: Seq<char>)
    requires
        parsed_uri(uri) is Ok,
    ensures
        starts_with(uri, RESOURCE_URI_PREFIX@),
        is_plausible(parsed_uri(uri)->Ok_0.0),
{
}

/// What a client says to record.
#[derive(Debug, Clone, Copy, PartialEq, Eq, Structural)]
pub enum MeetingSourceArg {
    MicOnly,
    SystemOnly,
    MicPlusSystem,
}

impl MeetingSourceArg {
    /// The mode that it stands for.
    pub open spec fn mode(self) -> MeetSourceMode {
        match self {
            MeetingSourceArg::MicOnly => MeetSourceMode::MicOnly,
            MeetingSourceArg::SystemOnly => MeetSourceMode::SystemOnly,
            MeetingSourceArg::MicPlusSystem => MeetSourceMode::MicPlusSystem,
        }
    }

    /// How clients write it: as the mode is called.
    pub fn as_str(self) -> (r: &'static str)
        ensures
            r@ == self.mode().name(),
    {
        match self {
            MeetingSourceArg::MicOnly => "mic-only",
            MeetingSourceArg::SystemOnly => "system-only",
            MeetingSourceArg::MicPlusSystem => "mic-plus-system",
        }
    }
}

/// What a client writes as the source is read as the mode that it stands for.
pub proof fn law_source_args_are_modes(arg: MeetingSourceArg)
    ensures
        MeetSourceMode::named(arg.mode().name()) == Some(arg.mode()),
{
    law_source_mode_round_trip(arg.mode());
}

/// The form of transcript that a client asks for.
#[derive(Debug, Clone, Copy, PartialEq, Eq, Structural)]
pub enum TranscriptFormatArg {
    Md,
    Json,
}

impl TranscriptFormatArg {
    /// The export that holds it.
    pub fn kind(self) -> (r: MeetingExportKind)
        ensures
            r == match self {
                TranscriptFormatArg::Md => MeetingExportKind::Markdown,
                TranscriptFormatArg::Json => MeetingExportKind::Json,
            },
    {
        match self {
            TranscriptFormatArg::Md => MeetingExportKind::Markdown,
            TranscriptFormatArg::Json => MeetingExportKind::Json,
        }
    }
}

/// What a client asks of a start.
#[derive(Debug, Clone)]
pub struct MeetingStartParams {
    pub source: MeetingSourceArg,
    pub mode: String,
    pub device: Option<String>,
    pub system_device: Option<String>,
    pub no_llm: Option<bool>,
}

/// What a client asks of a session.
#[derive(Debug, Clone)]
pub struct MeetingIdParams {
    pub id: Option<String>,
}

/// What a client asks of a transcript.
#[derive(Debug, Clone)]
pub struct MeetingTranscriptParams {
    pub id: Option<String>,
    pub format: TranscriptFormatArg,
}

/// What a client's start asks for; it is refused unless the user allows starts.
pub fn start_options(params: MeetingStartParams, allow_start: bool) -> (r: Result<
    StartOptions,
    ComlinkError,
>)
    ensures
        if allow_start {
            r matches Ok(o) && o.mode == params.mode && o.source@ == params.source.mode().name()
                && o.device == params.device && o.system_device == params.system_device
                && o.chunk_seconds == DEFAULT_CHUNK_SECONDS && o.no_llm == (params.no_llm == Some(
                true,
            ))
        } else {
            r == Err::<StartOptions, ComlinkError>(ComlinkError::McpStartDisabled)
        },
{
    if !allow_start {
        return Err(ComlinkError::McpStartDisabled);
    }
    Ok(
        StartOptions {
            mode: params.mode,
            source: params.source.as_str().to_owned(),
            device: params.device,
            system_device: params.system_device,
            chunk_seconds: DEFAULT_CHUNK_SECONDS,
            no_llm: match params.no_llm {
                Some(no_llm) => no_llm,
                None => false,
            },
        },
    )
}

/// What a panic carried.
#[derive(Debug)]
pub enum PanicPayload {
    Literal(&'static str),
    Text(String),
    Other,
}

/// What a panic said.
pub fn panic_detail(payload: PanicPayload) -> (r: String)
    ensures
        r@ == match payload {
            PanicPayload::Literal(text) => text@,
            PanicPayload::Text(text) => text@,
            PanicPayload::Other => "non-string panic payload"@,
        },
{
    match payload {
        PanicPayload::Literal(text) => text.to_owned(),
        PanicPayload::Text(text) => text,
        PanicPayload::Other => "non-string panic payload".to_owned(),
    }
}

/// Why a call gave no value.
#[derive(Debug)]
pub enum CallFailure {
    Service(ComlinkError),
    Panic(String),
    Cancelled(String),
}

/// How a failed read of a resource is classed.
#[derive(Debug, Clone, Copy, PartialEq, Eq, Structural)]
pub enum ResourceErrorKind {
    NotFound,
    InvalidRequest,
    Internal,
}

impl CallFailure {
    /// The code of the failure.
    pub open spec fn label(self) -> Seq<char> {
        match self {
            CallFailure::Service(e) => e.code(),
            CallFailure::Panic(_) => INTERNAL_PANIC_CODE@,
            CallFailure::Cancelled(_) => INTERNAL_CANCELLED_CODE@,
        }
    }

    /// The failure in words.
    pub open spec fn text(self) -> Seq<char> {
        match self {
            CallFailure::Service(e) => e.text(),
            CallFailure::Panic(detail) => "comlink service call panicked: "@ + detail@,
            CallFailure::Cancelled(detail) => "comlink service call was cancelled: "@ + detail@,
        }
    }

    /// How the failed read of a resource is classed: a session that is not there, one
    /// that is not ready, or anything else.
    pub open spec fn class(self) -> ResourceErrorKind {
        match self {
            CallFailure::Service(ComlinkError::MeetingSessionNotFound(_)) =>
                ResourceErrorKind::NotFound,
            CallFailure::Service(ComlinkError::MeetingStillTranscribing(_)) =>
                ResourceErrorKind::InvalidRequest,
            CallFailure::Service(ComlinkError::MeetingFinalizeFailed(_)) =>
                ResourceErrorKind::InvalidRequest,
            CallFailure::Service(ComlinkError::MeetingFinalizeFailedDetail { .. }) =>
                ResourceErrorKind::InvalidRequest,
            CallFailure::Service(ComlinkError::MeetingNotStopped(_)) =>
                ResourceErrorKind::InvalidRequest,
            CallFailure::Service(ComlinkError::MeetingExportUnavailable(_)) =>
                ResourceErrorKind::InvalidRequest,
            CallFailure::Service(ComlinkError::MeetingNoActiveSession) =>
                ResourceErrorKind::InvalidRequest,
            _ => ResourceErrorKind::Internal,
        }
    }

    /// The code of the failure.
    pub fn code(&self) -> (r: &'static str)
        ensures
            r@ == self.label(),
    {
        match self {
            CallFailure::Service(e) => e.error_code(),
            CallFailure::Panic(_) => INTERNAL_PANIC_CODE,
            CallFailure::Cancelled(_) => INTERNAL_CANCELLED_CODE,
        }
    }

    /// The failure in words.
    pub fn message(&self) -> (r: String)
        ensures
            r@ == self.text(),
    {
        match self {
            CallFailure::Service(e) => e.message(),
            CallFailure::Panic(detail) => cat2("comlink service call panicked: ", detail),
            CallFailure::Cancelled(detail) => cat2("comlink service call was cancelled: ", detail),
        }
    }

    /// What a failed tool says.
    pub fn tool_text(&self) -> (r: String)
        ensures
            r@ == "error ("@ + self.label() + "): "@ + self.text(),
    {
        cat4("error (", self.code(), "): ", &self.message())
    }

    /// How the failed read of a resource is classed.
    pub fn resource_error_kind(&self) -> (r: ResourceErrorKind)
        ensures
            r == self.class(),
    {
        match self {
            CallFailure::Service(e) => match e {
                ComlinkError::MeetingSessionNotFound(_) => ResourceErrorKind::NotFound,
                ComlinkError::MeetingStillTranscribing(_) => ResourceErrorKind::InvalidRequest,
                ComlinkError::MeetingFinalizeFailed(_) => ResourceErrorKind::InvalidRequest,
                ComlinkError::MeetingFinalizeFailedDetail { .. } =>
                    ResourceErrorKind::InvalidRequest,
                ComlinkError::MeetingNotStopped(_) => ResourceErrorKind::InvalidRequest,
                ComlinkError::MeetingExportUnavailable(_) => ResourceErrorKind::InvalidRequest,
                ComlinkError::MeetingNoActiveSession => ResourceErrorKind::InvalidRequest,
                _ => ResourceErrorKind::Internal,
            },
            _ => ResourceErrorKind::Internal,
        }
    }
}

/// Which microphone is recorded.
pub open spec fn device_line(d: ResolvedRecordDevice) -> Seq<char> {
    match d.source {
        DeviceSource::SystemDefault => match d.name {
            Some(name) => "Using system default input device: "@ + name@ + " ("@
                + d.avfoundation_input@ + ")"@,
            None => "Using system default input device "@ + d.avfoundation_input@,
        },
        DeviceSource::Fallback => "Using fallback input device "@ + device_label(opt_text(d.name), d.avfoundation_input@)
            + ": no system default input was found. If the capture is near-silent, pass `device`."@,
        DeviceSource::Flag => "Using input device "@ + device_label(opt_text(d.name), d.avfoundation_input@)
            + " (from the `device` argument)"@,
        DeviceSource::Env => "Using input device "@ + device_label(opt_text(d.name), d.avfoundation_input@)
            + " (from COMLINK_RECORD_DEVICE)"@,
    }
}

/// Which microphone is recorded.
pub fn input_device_line(device: &ResolvedRecordDevice) -> (r: String)
    ensures
        r@ == device_line(*device),
{
    let named = device.label();
    match device.source {
        DeviceSource::SystemDefault => DeviceNote {
            name: copy_opt(&device.name),
            avfoundation_input: device.avfoundation_input.clone(),
        }.message(),
        DeviceSource::Fallback => cat3(
            "Using fallback input device ",
            &named,
            ": no system default input was found. If the capture is near-silent, pass `device`.",
        ),
        DeviceSource::Flag => cat3("Using input device ", &named, " (from the `device` argument)"),
        DeviceSource::Env => cat3("Using input device ", &named, " (from COMLINK_RECORD_DEVICE)"),
    }
}

/// A line for each warning.
pub open spec fn warning_texts(w: Seq<Seq<char>>) -> Seq<Seq<char>> {
    Seq::new(w.len(), |i: int| "warning: "@ + w[i])
}

/// A line for each warning.
pub fn warning_lines(warnings: &Vec<String>) -> (r: Vec<String>)
    ensures
        texts(r@) == warning_texts(texts(warnings@)),
{
    let mut r: Vec<String> = Vec::new();
    let mut i: usize = 0;
    while i < warnings.len()
        invariant
            i <= warnings@.len(),
            texts(r@) =~= warning_texts(texts(warnings@)).take(i as int),
        decreases warnings@.len() - i,
    {
        broadcast use lemma_texts_push;

        r.push(cat2("warning: ", &warnings[i]));
        assert(texts(r@) =~= warning_texts(texts(warnings@)).take(i + 1));
        i += 1;
    }
    assert(texts(r@) =~= warning_texts(texts(warnings@)));
    r
}

/// Whether a source has a microphone.
pub fn records_microphone(source: MeetingSourceArg) -> (r: bool)
    ensures
        r == (source != MeetingSourceArg::SystemOnly),
{
    source != MeetingSourceArg::SystemOnly
}

/// What a start says first: the reminder of consent, the microphone that is
/// recorded, if any, and how to go on.
pub fn start_lead(consent_reminder: &str, mic: &Option<ResolvedRecordDevice>, session_id: &str) -> (r:
    Vec<String>)
    ensures
        texts(r@) == seq![consent_reminder@] + (match *mic {
            Some(d) => seq![device_line(d)],
            None => Seq::empty(),
        }) + seq![
            "Recording meeting "@ + session_id@
                + ". Call meeting_stop to stop, then poll meeting_status until `stopped`."@,
        ],
{
    broadcast use lemma_texts_push;

    let mut r: Vec<String> = Vec::new();
    r.push(consent_reminder.to_owned());
    if let Some(mic) = mic {
        r.push(input_device_line(mic));
    }
    r.push(
        cat3(
            "Recording meeting ",
            session_id,
            ". Call meeting_stop to stop, then poll meeting_status until `stopped`.",
        ),
    );
    assert(texts(r@) =~= seq![consent_reminder@] + (match *mic {
        Some(d) => seq![device_line(d)],
        None => Seq::empty(),
    }) + seq![
        "Recording meeting "@ + session_id@
            + ". Call meeting_stop to stop, then poll meeting_status until `stopped`."@,
    ]);
    r
}

/// What a report says first: the state, and the warnings.
pub fn status_lead(report: &MeetStatusReport) -> (r: Vec<String>)
    ensures
        texts(r@) == seq![
            match report.session_id {
                Some(id) => "Meeting "@ + id@ + ": "@ + report.status@,
                None => "No meeting session (status none)."@,
            },
        ] + warning_texts(texts(report.warnings@)),
{
    broadcast use {lemma_texts_push, crate::strings::lemma_texts_add};

    let mut r: Vec<String> = Vec::new();
    r.push(
        match &report.session_id {
            Some(id) => cat4("Meeting ", id, ": ", report.status),
            None => "No meeting session (status none).".to_owned(),
        },
    );
    let ghost first = r@;
    let mut more = warning_lines(&report.warnings);
    let ghost rest = more@;
    r.append(&mut more);
    assert(r@ =~= first + rest);
    assert(texts(first) =~= seq![
        match report.session_id {
            Some(id) => "Meeting "@ + id@ + ": "@ + report.status@,
            None => "No meeting session (status none)."@,
        },
    ]);
    r
}

/// What a stop says first.
pub fn stop_lead(session_id: &str) -> (r: String)
    ensures
        r@ == "Stopped recording meeting "@ + session_id@
            + "; transcribing in the background. Poll meeting_status until status is `stopped`, then call meeting_get_transcript."@,
{
    cat3(
        "Stopped recording meeting ",
        session_id,
        "; transcribing in the background. Poll meeting_status until status is `stopped`, then call meeting_get_transcript.",
    )
}

/// What a transcript says first: its warnings, and that its text was not kept.
pub fn transcript_lead(transcript: &TranscriptResult) -> (r: Vec<String>)
    ensures
        texts(r@) == warning_texts(texts(transcript.warnings@)) + (
        if transcript.transcript_retained {
            Seq::empty()
        } else {
            seq![
                "note: retention.transcripts is off for this meeting, so the transcript text was not kept."@,
            ]
        }),
{
    broadcast use lemma_texts_push;

    let mut r = warning_lines(&transcript.warnings);
    let ghost first = texts(r@);
    if !transcript.transcript_retained {
        r.push(
            "note: retention.transcripts is off for this meeting, so the transcript text was not kept.".to_owned(),
        );
        assert(texts(r@) =~= first + seq![
            "note: retention.transcripts is off for this meeting, so the transcript text was not kept."@,
        ]);
    } else {
        assert(first + Seq::<Seq<char>>::empty() =~= first);
    }
    r
}

/// What a list says first.
pub fn list_lead(list: &MeetSessionList) -> (r: String)
    ensures
        r@ == decimal(list.sessions@.len()) + " meeting session(s)."@,
{
    cat2(&usize_text(list.sessions.len()), " meeting session(s).")
}

/// A transcript that clients can read.
#[derive(Debug, Clone)]
pub struct TranscriptResource {
    pub uri: String,
    pub name: String,
    pub mime_type: &'static str,
}

/// Whether `r` is the resource for a session's transcript.
pub open spec fn is_resource(id: Seq<char>, kind: TranscriptUriKind, r: TranscriptResource) -> bool {
    &&& r.uri@ == uri_of(id, kind)
    &&& r.name@ == id + (match kind {
        TranscriptUriKind::Markdown => " transcript (Markdown)"@,
        TranscriptUriKind::Json => " transcript (JSON)"@,
    })
    &&& r.mime_type@ == kind.mime()
}

/// Whether `r` are the resources for the first `n` sessions: two for each that is
/// stopped.
pub open spec fn are_resources(s: Seq<MeetSessionSummary>, n: int, r: Seq<TranscriptResource>) -> bool
    decreases n,
{
    if n <= 0 {
        r.len() == 0
    } else if s[n - 1].status@ == "stopped"@ {
        &&& r.len() >= 2
        &&& is_resource(s[n - 1].session_id@, TranscriptUriKind::Markdown, r[r.len() - 2])
        &&& is_resource(s[n - 1].session_id@, TranscriptUriKind::Json, r[r.len() - 1])
        &&& are_resources(s, n - 1, r.take(r.len() - 2))
    } else {
        are_resources(s, n - 1, r)
    }
}

/// The resource for a session's transcript.
fn resource_of(id: &str, kind: TranscriptUriKind) -> (r: TranscriptResource)
    ensures
        is_resource(id@, kind, r),
{
    let label: &str = match kind {
        TranscriptUriKind::Markdown => " transcript (Markdown)",
        TranscriptUriKind::Json => " transcript (JSON)",
    };
    TranscriptResource {
        uri: transcript_uri(id, kind),
        name: cat2(id, label),
        mime_type: kind.mime_type(),
    }
}

/// The transcripts that clients can read: those of stopped meetings.
pub fn transcript_resources(list: &MeetSessionList) -> (r: Vec<TranscriptResource>)
    ensures
        are_resources(list.sessions@, list.sessions@.len() as int, r@),
{
    let mut r: Vec<TranscriptResource> = Vec::new();
    let mut i: usize = 0;
    while i < list.sessions.len()
        invariant
            i <= list.sessions@.len(),
            are_resources(list.sessions@, i as int, r@),
        decreases list.sessions@.len() - i,
    {
        let s = &list.sessions[i];
        let ghost before = r@;
        if str_eq(s.status, "stopped") {
            r.push(resource_of(&s.session_id, TranscriptUriKind::Markdown));
            r.push(resource_of(&s.session_id, TranscriptUriKind::Json));
            assert(r@.take(r@.len() - 2) =~= before);
        }
        i += 1;
    }
    r
}

/// Each session that is stopped has its transcript offered, first as Markdown and then as
/// JSON, under an address of its own, and nothing else is offered. `from` gives the session
/// of each two.
pub proof fn law_stopped_sessions_are_offered(
    s: Seq<MeetSessionSummary>,
    n: int,
    r: Seq<TranscriptResource>,
) -> (from: Seq<int>)
    requires
        are_resources(s, n, r),
        0 <= n <= s.len(),
    ensures
        r.len() == 2 * from.len(),
        forall|k: int|
            #![trigger from[k]]
            0 <= k < from.len() ==> {
                &&& 0 <= from[k] < n
                &&& s[from[k]].status@ == "stopped"@
                &&& r[2 * k].uri@ == uri_of(s[from[k]].session_id@, TranscriptUriKind::Markdown)
                &&& r[2 * k].mime_type@ == "text/markdown"@
                &&& r[2 * k + 1].uri@ == uri_of(s[from[k]].session_id@, TranscriptUriKind::Json)
                &&& r[2 * k + 1].mime_type@ == "application/json"@
            },
        forall|i: int|
            0 <= i < n && (#[trigger] s[i]).status@ == "stopped"@ ==> from.contains(i),
    decreases n,
{
    if n <= 0 {
        Seq::empty()
    } else if s[n - 1].status@ == "stopped"@ {
        let t = r.take(r.len() - 2);
        let rest = law_stopped_sessions_are_offered(s, n - 1, t);
        let from = rest.push(n - 1);
        assert forall|k: int|
            #![trigger from[k]]
            0 <= k < from.len() implies {
            &&& 0 <= from[k] < n
            &&& s[from[k]].status@ == "stopped"@
            &&& r[2 * k].uri@ == uri_of(s[from[k]].session_id@, TranscriptUriKind::Markdown)
            &&& r[2 * k].mime_type@ == "text/markdown"@
            &&& r[2 * k + 1].uri@ == uri_of(s[from[k]].session_id@, TranscriptUriKind::Json)
            &&& r[2 * k + 1].mime_type@ == "application/json"@
        } by {
            if k < rest.len() {
                assert(from[k] == rest[k]);
                assert(r[2 * k] == t[2 * k] && r[2 * k + 1] == t[2 * k + 1]);
            }
        }
        assert forall|i: int|
            0 <= i < n && (#[trigger] s[i]).status@ == "stopped"@ implies from.contains(i) by {
            if i < n - 1 {
                let k = choose|k: int| 0 <= k < rest.len() && rest[k] == i;
                assert(from[k] == i);
            } else {
                assert(from[rest.len() as int] == i);
            }
        }
        from
    } else {
        law_stopped_sessions_are_offered(s, n - 1, r)
    }
}

/// A letter, a digit, a hyphen or an underscore may stand in an id.
proof fn lemma_id_char(c: char)
    requires
        48 <= c as u32 <= 57 || 65 <= c as u32 <= 90 || 97 <= c as u32 <= 122 || c == '-' || c == '_',
    ensures
        is_id_char(c),
        c != '.',
{
}

/// An id is plausible just where it is made of letters, digits, hyphens, underscores and
/// dots, is not empty, and has no two dots in a row.
pub proof fn law_plausible_ids(id: Seq<char>)
    ensures
        is_plausible(id) ==> id.len() > 0 && !contains(id, ".."@) && forall|i: int|
            0 <= i < id.len() ==> {
                let c = #[trigger] id[i];
                48 <= c as u32 <= 57 || 65 <= c as u32 <= 90 || 97 <= c as u32 <= 122 || c == '-' || c
                    == '_' || c == '.'
            },
        id.len() > 0 && (forall|i: int|
            0 <= i < id.len() ==> {
                let c = #[trigger] id[i];
                48 <= c as u32 <= 57 || 65 <= c as u32 <= 90 || 97 <= c as u32 <= 122 || c == '-' || c
                    == '_'
            }) ==> is_plausible(id),
{
    reveal_strlit(".");
    reveal_strlit("..");
    if is_plausible(id) {
        assert forall|i: int| 0 <= i < id.len() implies {
            let c = #[trigger] id[i];
            48 <= c as u32 <= 57 || 65 <= c as u32 <= 90 || 97 <= c as u32 <= 122 || c == '-' || c
                == '_' || c == '.'
        } by {
            assert(is_id_char(id[i]));
        }
    }
    if id.len() > 0 && (forall|i: int|
        0 <= i < id.len() ==> {
            let c = #[trigger] id[i];
            48 <= c as u32 <= 57 || 65 <= c as u32 <= 90 || 97 <= c as u32 <= 122 || c == '-' || c
                == '_'
        }) {
        lemma_id_char(id[0]);
        assert(id != "."@ && id != ".."@);
        assert(!contains(id, ".."@)) by {
            if contains(id, ".."@) {
                let k = choose|k: int| occurs_at(id, ".."@, k);
                assert(id.subrange(k, k + 2)[0] == id[k]);
                lemma_id_char(id[k]);
            }
        }
        assert forall|i: int| 0 <= i < id.len() implies is_id_char(#[trigger] id[i]) by {
            lemma_id_char(id[i]);
        }
    }
}

/// Letters, digits, hyphens, underscores, dots and tildes stand for themselves in an
/// address, and any other byte is a percent sign and two digits: nothing else stands there.
pub proof fn law_addresses_hold_plain_characters(b: Seq<u8>)
    ensures
        forall|i: int|
            0 <= i < encoded_bytes(b).len() ==> {
                let c = #[trigger] encoded_bytes(b)[i];
                48 <= c <= 57 || 65 <= c <= 90 || 97 <= c <= 122 || c == 45 || c == 95 || c == 46 || c
                    == 126 || c == 37
            },
        (forall|i: int|
            0 <= i < b.len() ==> 48 <= #[trigger] b[i] <= 57 || 65 <= b[i] <= 90 || 97 <= b[i] <= 122
                || b[i] == 45 || b[i] == 95 || b[i] == 46 || b[i] == 126) ==> encoded_bytes(b) == b,
    decreases b.len(),
{
    if b.len() > 0 {
        let t = b.drop_first();
        law_addresses_hold_plain_characters(t);
        let x = encoded_byte(b[0]);
        let y = encoded_bytes(t);
        assert forall|i: int| 0 <= i < encoded_bytes(b).len() implies {
            let c = #[trigger] encoded_bytes(b)[i];
            48 <= c <= 57 || 65 <= c <= 90 || 97 <= c <= 122 || c == 45 || c == 95 || c == 46 || c
                == 126 || c == 37
        } by {
            if i < x.len() {
                assert(encoded_bytes(b)[i] == x[i]);
            } else {
                assert(encoded_bytes(b)[i] == y[i - x.len()]);
            }
        }
        if forall|i: int|
            0 <= i < b.len() ==> 48 <= #[trigger] b[i] <= 57 || 65 <= b[i] <= 90 || 97 <= b[i] <= 122
                || b[i] == 45 || b[i] == 95 || b[i] == 46 || b[i] == 126 {
            assert(is_unreserved(b[0]));
            assert forall|i: int| 0 <= i < t.len() implies 48 <= #[trigger] t[i] <= 57 || 65 <= t[i]
                <= 90 || 97 <= t[i] <= 122 || t[i] == 45 || t[i] == 95 || t[i] == 46 || t[i]
                == 126 by {
                assert(t[i] == b[i + 1]);
            }
            assert(seq![b[0]] + t =~= b);
        }
    } else {
        assert(encoded_bytes(b) =~= b);
    }
}

/// A transcript of a session that is not there is not found; one of a session that is not
/// ready is a request that cannot be met; a panic is an internal error.
pub proof fn law_failed_reads_are_classed(id: String, detail: String)
    ensures
        CallFailure::Service(ComlinkError::MeetingSessionNotFound(id)).class()
            == ResourceErrorKind::NotFound,
        CallFailure::Service(ComlinkError::MeetingStillTranscribing(id)).class()
            == ResourceErrorKind::InvalidRequest,
        CallFailure::Service(ComlinkError::MeetingNotStopped(id)).class()
            == ResourceErrorKind::InvalidRequest,
        CallFailure::Service(ComlinkError::MeetingFinalizeFailed(id)).class()
            == ResourceErrorKind::InvalidRequest,
        CallFailure::Service(ComlinkError::MeetingExportUnavailable(id)).class()
            == ResourceErrorKind::InvalidRequest,
        CallFailure::Panic(detail).class() == ResourceErrorKind::Internal,
        CallFailure::Cancelled(detail).class() == ResourceErrorKind::Internal,
{
}

} // verus!
