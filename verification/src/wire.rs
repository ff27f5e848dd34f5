//! The wire format: UTF-8 text without framing, typed by a literal prefix.
use vstd::prelude::*;
use vstd::utf8::{
    decode_utf8, encode_utf8, encode_utf8_decode_utf8, encode_utf8_valid_utf8, valid_utf8,
};
use crate::text::push_char;

verus! {

/// Tag of a registration request; the whole payload.
pub const REGISTER: &'static str = "REGISTER";

/// Tag of a lookup request; a colon and the code follow.
pub const ASK_CODE: &'static str = "ASK_CODE";

/// Tag of an introduction request; the code follows without a delimiter.
pub const BROADCAST: &'static str = "BROADCAST";

/// Tag of an introduction notice; the requester's `ip:port` follows.
pub const REQUEST: &'static str = "REQUEST";

/// Payload of a hole-punch probe.
pub const GREETING: &'static str = "Hi there";

/// The text that a payload carries, if it is well-formed UTF-8.
pub open spec fn payload_text(payload: Seq<u8>) -> Option<Seq<char>> {
    if valid_utf8(payload) {
        Some(decode_utf8(payload))
    } else {
        None
    }
}

/// Whether `text` begins with `prefix`.
pub open spec fn starts_with(text: Seq<char>, prefix: Seq<char>) -> bool {
    prefix.len() <= text.len() && text.subrange(0, prefix.len() as int) == prefix
}

/// Decodes a payload as UTF-8.
///
/// Trusted: `core::str::from_utf8`, which is documented to return the string
/// slice over the same bytes when they are valid UTF-8 and an error when they
/// are not. The characters of that slice are then the decoding of the bytes.
#[verifier::external_body]
pub(crate) fn decode_text<'a>(payload: &'a [u8]) -> (text: Option<&'a str>)
    ensures
        match text {
            Some(t) => payload_text(payload@) == Some(t@),
            None => payload_text(payload@).is_none(),
        },
{
    core::str::from_utf8(payload).ok()
}

/// Compares two pieces of text.
pub fn same_text(a: &str, b: &str) -> (same: bool)
    ensures
        same == (a@ == b@),
{
    let left = a.to_owned();
    let right = b.to_owned();
    left == right
}

/// If `text` begins with `prefix`, what follows the prefix.
pub fn strip_prefix<'a>(text: &'a str, prefix: &str) -> (rest: Option<&'a str>)
    ensures
        match rest {
            Some(r) => starts_with(text@, prefix@) && r@ == text@.skip(prefix@.len() as int),
            None => !starts_with(text@, prefix@),
        },
{
    let length: usize = text.unicode_len();
    let skipped: usize = prefix.unicode_len();
    if skipped <= length && same_text(text.substring_char(0, skipped), prefix) {
        let rest = text.substring_char(skipped, length);
        proof {
            assert(rest@ =~= text@.skip(prefix@.len() as int));
        }
        Some(rest)
    } else {
        None
    }
}

/// The prefix of a lookup request: the tag and its colon.
pub open spec fn ask_prefix() -> Seq<char> {
    ASK_CODE@.push(':')
}

/// What a client asks of the server.
#[derive(Clone, Debug, PartialEq, Eq)]
pub enum Request {
    /// Register the sender.
    Register,
    /// Tell the sender the address registered under `code`.
    AskCode { code: String },
    /// Introduce the sender to the holder of `code`.
    Broadcast { code: String },
    /// Well-formed text that is none of the above.
    Unrecognised,
    /// Not UTF-8.
    Malformed,
}

/// A request with its code as a sequence of characters.
pub enum RequestView {
    Register,
    AskCode { code: Seq<char> },
    Broadcast { code: Seq<char> },
    Unrecognised,
    Malformed,
}

impl View for Request {
    type V = RequestView;

    open spec fn view(&self) -> RequestView {
        match self {
            Request::Register => RequestView::Register,
            Request::AskCode { code } => RequestView::AskCode { code: code@ },
            Request::Broadcast { code } => RequestView::Broadcast { code: code@ },
            Request::Unrecognised => RequestView::Unrecognised,
            Request::Malformed => RequestView::Malformed,
        }
    }
}

/// The request that a piece of text makes: `REGISTER` must be the whole
/// text, the other two tags need only begin it.
pub open spec fn request_of_text(text: Seq<char>) -> RequestView {
    if text == REGISTER@ {
        RequestView::Register
    } else if starts_with(text, ask_prefix()) {
        RequestView::AskCode { code: text.skip(ask_prefix().len() as int) }
    } else if starts_with(text, BROADCAST@) {
        RequestView::Broadcast { code: text.skip(BROADCAST@.len() as int) }
    } else {
        RequestView::Unrecognised
    }
}

/// The request that a payload makes.
pub open spec fn request_of(payload: Seq<u8>) -> RequestView {
    match payload_text(payload) {
        Some(text) => request_of_text(text),
        None => RequestView::Malformed,
    }
}

/// Classifies an inbound payload.
pub fn parse_request(payload: &[u8]) -> (request: Request)
    ensures
        request@ == request_of(payload@),
{
    match decode_text(payload) {
        None => Request::Malformed,
        Some(text) => {
            if same_text(text, REGISTER) {
                return Request::Register;
            }
            let mut prefix = String::from_str(ASK_CODE);
            push_char(&mut prefix, ':');
            if let Some(code) = strip_prefix(text, prefix.as_str()) {
                return Request::AskCode { code: code.to_owned() };
            }
            if let Some(code) = strip_prefix(text, BROADCAST) {
                return Request::Broadcast { code: code.to_owned() };
            }
            Request::Unrecognised
        },
    }
}

/// The bytes that carry `text` on the wire.
pub fn encode_text(text: &str) -> (payload: Vec<u8>)
    ensures
        payload@ == encode_utf8(text@),
{
    text.as_bytes_vec()
}

/// Text survives the wire: what was encoded decodes to itself.
pub proof fn lemma_text_round_trip(text: Seq<char>)
    ensures
        payload_text(encode_utf8(text)) == Some(text),
{
    encode_utf8_valid_utf8(text);
    encode_utf8_decode_utf8(text);
}

/// The bare tag `REGISTER` is read as a registration request.
pub proof fn lemma_register_is_read()
    ensures
        request_of(encode_utf8(REGISTER@)) == RequestView::Register,
{
    lemma_text_round_trip(REGISTER@);
}

/// `ASK_CODE:` and then a code is read as a lookup of that very code,
/// whatever the code holds.
pub proof fn lemma_ask_is_read(code: Seq<char>)
    ensures
        request_of(encode_utf8(ask_prefix() + code)) == (RequestView::AskCode { code }),
{
    let text = ask_prefix() + code;
    lemma_text_round_trip(text);
    reveal_strlit("REGISTER");
    reveal_strlit("ASK_CODE");
    assert(text[0] == 'A');
    assert(REGISTER@[0] == 'R');
    assert(text.subrange(0, ask_prefix().len() as int) =~= ask_prefix());
    assert(text.skip(ask_prefix().len() as int) =~= code);
}

/// `BROADCAST` and then a code is read as an introduction request for that
/// very code, whatever the code holds.
pub proof fn lemma_broadcast_is_read(code: Seq<char>)
    ensures
        request_of(encode_utf8(BROADCAST@ + code)) == (RequestView::Broadcast { code }),
{
    let text = BROADCAST@ + code;
    lemma_text_round_trip(text);
    reveal_strlit("REGISTER");
    reveal_strlit("ASK_CODE");
    reveal_strlit("BROADCAST");
    assert(text[0] == 'B');
    assert(REGISTER@[0] == 'R');
    if starts_with(text, ask_prefix()) {
        assert(text.subrange(0, ask_prefix().len() as int)[0] == ask_prefix()[0]);
    }
    assert(text.subrange(0, BROADCAST@.len() as int) =~= BROADCAST@);
    assert(text.skip(BROADCAST@.len() as int) =~= code);
}

/// A payload that is not UTF-8 is read as malformed, and only such a
/// payload is.
pub proof fn lemma_malformed_iff_not_utf8(payload: Seq<u8>)
    ensures
        request_of(payload) is Malformed <==> !valid_utf8(payload),
{
}

} // verus!
