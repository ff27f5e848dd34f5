//! Connection codes: short random identifiers that a registrant shares with
//! the peer it wants to be reached by.
use vstd::prelude::*;
use vstd::utf8::{encode_utf8, is_ascii_chars, is_ascii_chars_encode_utf8};
use crate::text::push_char;

verus! {

/// How many characters a code has.
pub const CODE_LENGTH: usize = 4;

/// Whether `c` is an ASCII letter or digit.
pub open spec fn is_alphanumeric(c: char) -> bool {
    ('A' <= c && c <= 'Z') || ('a' <= c && c <= 'z') || ('0' <= c && c <= '9')
}

/// Whether `code` has the shape of a code: `CODE_LENGTH` characters, each an
/// ASCII letter or digit.
pub open spec fn is_code(code: Seq<char>) -> bool {
    code.len() == CODE_LENGTH && forall|i: int|
        0 <= i < code.len() ==> is_alphanumeric(#[trigger] code[i])
}

/// Checks that `code` has the shape of a code.
pub fn has_code_shape(code: &str) -> (ok: bool)
    ensures
        ok == is_code(code@),
{
    if code.unicode_len() != CODE_LENGTH {
        return false;
    }
    let mut i: usize = 0;
    while i < CODE_LENGTH
        invariant
            i <= CODE_LENGTH,
            code@.len() == CODE_LENGTH,
            forall|k: int| 0 <= k < i ==> is_alphanumeric(#[trigger] code@[k]),
        decreases CODE_LENGTH - i,
    {
        let c = code.get_char(i);
        let fits = ('A' <= c && c <= 'Z') || ('a' <= c && c <= 'z') || ('0' <= c && c <= '9');
        if !fits {
            return false;
        }
        i = i + 1;
    }
    true
}

/// Draws one character of a code.
///
/// Trusted: `rand::Rng::sample` on the thread-local generator with the
/// `rand::distributions::Alphanumeric` distribution, which picks one byte
/// out of `A-Z`, `a-z` and `0-9`. Nothing is claimed of which one. The
/// generator is seeded from the operating system on its first use in a
/// thread, and gives up only if the system has no randomness to give.
#[verifier::external_body]
fn sample_alphanumeric() -> (byte: u8)
    ensures
        is_alphanumeric(byte as char),
{
    rand::Rng::sample(&mut rand::thread_rng(), rand::distributions::Alphanumeric)
}

/// The text that a run of draws makes: one character for each draw, in the
/// order in which they were drawn.
pub open spec fn draws_text(draws: Seq<u8>) -> Seq<char> {
    Seq::new(draws.len(), |i: int| draws[i] as char)
}

/// Makes a code of four draws: the first draw is its first character, and
/// so on; every draw is used once.
pub fn code_of_draws(draws: [u8; 4]) -> (code: String)
    ensures
        code@ == draws_text(draws@),
        is_code(code@) <==> forall|i: int|
            0 <= i < CODE_LENGTH ==> is_alphanumeric(#[trigger] draws@[i] as char),
{
    let mut code = String::new();
    let mut used: usize = 0;
    while used < CODE_LENGTH
        invariant
            used <= CODE_LENGTH,
            code@ == draws_text(draws@.take(used as int)),
        decreases CODE_LENGTH - used,
    {
        push_char(&mut code, draws[used] as char);
        proof {
            assert(code@ =~= draws_text(draws@.take(used + 1)));
        }
        used = used + 1;
    }
    proof {
        assert(draws@.take(CODE_LENGTH as int) =~= draws@);
        if is_code(code@) {
            assert forall|i: int| 0 <= i < CODE_LENGTH implies is_alphanumeric(
                #[trigger] draws@[i] as char,
            ) by {
                assert(code@[i] == draws@[i] as char);
            }
        }
    }
    code
}

/// Generates a fresh code from four draws. Codes are not checked against
/// each other: two calls may return the same one.
pub fn generate() -> (code: String)
    ensures
        is_code(code@),
{
    let first: u8 = sample_alphanumeric();
    let second: u8 = sample_alphanumeric();
    let third: u8 = sample_alphanumeric();
    let fourth: u8 = sample_alphanumeric();
    code_of_draws([first, second, third, fourth])
}

/// On the wire a code takes one byte for each of its characters.
pub proof fn lemma_code_bytes(code: Seq<char>)
    requires
        is_code(code),
    ensures
        encode_utf8(code).len() == CODE_LENGTH,
        forall|i: int| 0 <= i < CODE_LENGTH ==> #[trigger] encode_utf8(code)[i] == code[i] as u8,
{
    assert(is_ascii_chars(code)) by {
        assert forall|i: int| 0 <= i < code.len() implies '\0' <= #[trigger] code[i]
            <= '\u{7f}' by {
            assert(is_alphanumeric(code[i]));
        }
    }
    is_ascii_chars_encode_utf8(code);
}

} // verus!
