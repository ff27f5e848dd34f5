//! The exchanges between a client and the server, end to end: what one
//! side puts on the wire, the other side reads as it was meant.
use vstd::prelude::*;
use vstd::utf8::{encode_utf8, is_ascii_chars, is_ascii_chars_encode_utf8};
use crate::address::{AddressView, Ipv4Endpoint};
use crate::client::{
    ask_message, broadcast_message, lemma_code_reply_is_accepted, lemma_notice_starts_the_probing,
    probe_message, register_message, ClientError, ClientPhase, ClientView, EventView,
    Instruction, BROADCAST_LENGTH, NOTICE_CAPACITY,
};
use crate::code::is_code;
use crate::stun::{
    address_reply, code_reply, introduction, lemma_registration_reply_is_a_code,
    lemma_some_first_with_code, reaction, registered, registration_of_code, table_wf,
    Registration,
};
use crate::text::{decimal_digits, is_digit, lemma_decimal_digits};
use crate::wire::{
    lemma_ask_is_read, lemma_broadcast_is_read, lemma_register_is_read, lemma_text_round_trip,
    request_of, REQUEST,
};

verus! {

/// The `ip:port` of an IPv4 endpoint is plain ASCII and at least nine
/// characters long, so it takes as many bytes as it has characters.
pub proof fn lemma_endpoint_text_is_ascii(endpoint: Ipv4Endpoint)
    ensures
        is_ascii_chars(endpoint.text()),
        endpoint.text().len() >= 9,
        encode_utf8(endpoint.text()).len() == endpoint.text().len(),
{
    let o = endpoint.octets@;
    let d0 = decimal_digits(o[0] as nat);
    let d1 = decimal_digits(o[1] as nat);
    let d2 = decimal_digits(o[2] as nat);
    let d3 = decimal_digits(o[3] as nat);
    let p = decimal_digits(endpoint.port as nat);
    lemma_decimal_digits(o[0] as nat);
    lemma_decimal_digits(o[1] as nat);
    lemma_decimal_digits(o[2] as nat);
    lemma_decimal_digits(o[3] as nat);
    lemma_decimal_digits(endpoint.port as nat);
    let text = endpoint.text();
    assert(text =~= d0 + seq!['.'] + d1 + seq!['.'] + d2 + seq!['.'] + d3 + seq![':'] + p);
    assert forall|i: int| 0 <= i < text.len() implies '\0' <= #[trigger] text[i] <= '\u{7f}' by {
        let c = text[i];
        assert(is_digit(c) || c == '.' || c == ':');
    }
    is_ascii_chars_encode_utf8(text);
}

/// Registration, end to end: the server reads the client's request as a
/// registration, and the client that waits for its code takes the reply
/// for the code that the server has for it.
pub proof fn lemma_registration_exchange(
    table: Seq<Registration>,
    addr: Ipv4Endpoint,
    fresh: Seq<char>,
    client: ClientView,
)
    requires
        table_wf(table),
        is_code(fresh),
        client.phase == ClientPhase::AwaitingCode,
    ensures
        ({
            let source = AddressView::V4(addr);
            let outcome = reaction(table, source, request_of(register_message()), fresh);
            let code = registered(table, addr, fresh).2;
            &&& outcome.0 == registered(table, addr, fresh).0
            &&& outcome.1 == Some(code_reply(source, code))
            &&& client.step(EventView::Received { payload: code_reply(source, code).payload })
                == (ClientView { code, ..client }).go(
                ClientPhase::Listening,
                Instruction::Receive { capacity: NOTICE_CAPACITY },
            )
        }),
{
    lemma_register_is_read();
    lemma_registration_reply_is_a_code(table, addr, fresh);
    lemma_code_reply_is_accepted(client, registered(table, addr, fresh).2);
}

/// Lookup, end to end: the server reads the client's request as a lookup
/// of its code, answers with the address of the first holder, and the
/// client that waits for that address keeps it and asks to be introduced.
pub proof fn lemma_lookup_exchange(
    table: Seq<Registration>,
    k: int,
    source: AddressView,
    fresh: Seq<char>,
    client: ClientView,
)
    requires
        0 <= k < table.len(),
        table[k].code == client.connect_with,
        client.phase == ClientPhase::AwaitingPeer,
    ensures
        ({
            let code = client.connect_with;
            let outcome = reaction(table, source, request_of(ask_message(code)), fresh);
            let owner = registration_of_code(table, code);
            &&& owner is Some
            &&& owner->0.code == code
            &&& outcome == (table, Some(address_reply(source, owner->0.addr)))
            &&& client.step(
                EventView::Received { payload: address_reply(source, owner->0.addr).payload },
            ) == (ClientView { remote_address: owner->0.addr.text(), ..client }).go(
                ClientPhase::Broadcasting,
                Instruction::Send { payload: broadcast_message(code) },
            )
        }),
{
    let code = client.connect_with;
    lemma_ask_is_read(code);
    lemma_some_first_with_code(table, code, k);
    let owner = registration_of_code(table, code)->0;
    lemma_endpoint_text_is_ascii(owner.addr);
    lemma_text_round_trip(owner.addr.text());
}

/// Introduction, end to end: the server reads the client's request as an
/// introduction request for its code and tells the first holder of the
/// code, and nobody else, where the requester is; a holder that listens
/// keeps that address and turns to the requester.
pub proof fn lemma_introduction_exchange(
    table: Seq<Registration>,
    k: int,
    source: AddressView,
    fresh: Seq<char>,
    code: Seq<char>,
    holder: ClientView,
)
    requires
        0 <= k < table.len(),
        table[k].code == code,
        holder.phase == ClientPhase::Listening,
    ensures
        ({
            let outcome = reaction(table, source, request_of(broadcast_message(code)), fresh);
            let owner = registration_of_code(table, code);
            let notice = introduction(owner->0.addr, source.text());
            &&& owner is Some
            &&& outcome == (table, Some(notice))
            &&& notice.to == AddressView::V4(owner->0.addr)
            &&& notice.payload == encode_utf8(REQUEST@ + source.text())
            &&& holder.step(EventView::Received { payload: notice.payload }) == (ClientView {
                remote_address: source.text(),
                ..holder
            }).go(ClientPhase::Targeting, Instruction::Connect { address: source.text() })
        }),
{
    lemma_broadcast_is_read(code);
    lemma_some_first_with_code(table, code, k);
    lemma_notice_starts_the_probing(holder, source.text());
}

/// After the introduction both sides probe each other: the requester,
/// once its request has gone out whole, turns to the address under which
/// the holder of the code registered and sends the greeting; the holder,
/// once it has the notice, turns to the address from which the requester
/// was seen and sends the greeting.
pub proof fn lemma_both_sides_probe(
    table: Seq<Registration>,
    k: int,
    source: AddressView,
    requester: ClientView,
    holder: ClientView,
)
    requires
        0 <= k < table.len(),
        table[k].code == requester.connect_with,
        requester.phase == ClientPhase::AwaitingPeer,
        holder.phase == ClientPhase::Listening,
    ensures
        ({
            let owner = registration_of_code(table, requester.connect_with)->0;
            let reply = address_reply(source, owner.addr);
            let notice = introduction(owner.addr, source.text());
            let asked = requester.step(EventView::Received { payload: reply.payload });
            let turned = asked.0.step(EventView::Sent { length: BROADCAST_LENGTH });
            let probing = turned.0.step(EventView::Connected);
            let told = holder.step(EventView::Received { payload: notice.payload });
            let answering = told.0.step(EventView::Connected);
            &&& turned.1 == Ok::<Instruction, ClientError>(
                Instruction::Connect { address: owner.addr.text() },
            )
            &&& probing.1 == Ok::<Instruction, ClientError>(
                Instruction::Send { payload: probe_message() },
            )
            &&& told.1 == Ok::<Instruction, ClientError>(
                Instruction::Connect { address: source.text() },
            )
            &&& answering.1 == Ok::<Instruction, ClientError>(
                Instruction::Send { payload: probe_message() },
            )
        }),
{
    let code = requester.connect_with;
    lemma_lookup_exchange(table, k, source, Seq::<char>::empty(), requester);
    lemma_introduction_exchange(table, k, source, Seq::<char>::empty(), code, holder);
}

} // verus!
