//! Dotted-decimal form of an IPv4 address.
use vstd::prelude::*;
use crate::text::{
    decimal_digits, decimal_value, is_digit, lemma_decimal_digits, lemma_decimal_digits_len,
    push_char, push_decimal,
};

verus! {

/// The dotted-decimal text of four octets: each octet in decimal without
/// leading zeros, joined by dots.
pub open spec fn dotted_quad(octets: Seq<u8>) -> Seq<char>
    recommends
        octets.len() == 4,
{
    decimal_digits(octets[0] as nat) + seq!['.'] + decimal_digits(octets[1] as nat) + seq!['.']
        + decimal_digits(octets[2] as nat) + seq!['.'] + decimal_digits(octets[3] as nat)
}

/// Each of the four components of a dotted quad is one to three digits,
/// has no leading zero, and denotes its octet; so the whole text, with its
/// three dots, has seven to fifteen characters.
pub proof fn lemma_dotted_quad_components(octets: Seq<u8>)
    requires
        octets.len() == 4,
    ensures
        forall|k: int|
            0 <= k < 4 ==> {
                let part = #[trigger] decimal_digits(octets[k] as nat);
                &&& 1 <= part.len() <= 3
                &&& forall|i: int| 0 <= i < part.len() ==> is_digit(#[trigger] part[i])
                &&& part.len() > 1 ==> part[0] != '0'
                &&& decimal_value(part) == octets[k]
            },
        7 <= dotted_quad(octets).len() <= 15,
{
    assert forall|k: int| 0 <= k < 4 implies {
        let part = #[trigger] decimal_digits(octets[k] as nat);
        &&& 1 <= part.len() <= 3
        &&& forall|i: int| 0 <= i < part.len() ==> is_digit(#[trigger] part[i])
        &&& part.len() > 1 ==> part[0] != '0'
        &&& decimal_value(part) == octets[k]
    } by {
        lemma_decimal_digits(octets[k] as nat);
        lemma_decimal_digits_len(octets[k] as nat);
    }
}

/// Renders four octets as `a.b.c.d`.
pub fn octets_to_string(octets: [u8; 4]) -> (text: String)
    ensures
        text@ == dotted_quad(octets@),
{
    let mut text = String::new();
    push_decimal(&mut text, octets[0] as u16);
    push_char(&mut text, '.');
    push_decimal(&mut text, octets[1] as u16);
    push_char(&mut text, '.');
    push_decimal(&mut text, octets[2] as u16);
    push_char(&mut text, '.');
    push_decimal(&mut text, octets[3] as u16);
    proof {
        assert(text@ =~= dotted_quad(octets@));
    }
    text
}

} // verus!
