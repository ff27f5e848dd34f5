//! The rendezvous server: its registration table and what it answers to
//! each datagram.
use vstd::prelude::*;
use crate::address::{AddressView, Ipv4Endpoint, SocketAddress};
use crate::code::{generate, has_code_shape, is_code, lemma_code_bytes, CODE_LENGTH};
use vstd::utf8::encode_utf8;
use crate::text::push_char;
use crate::wire::{
    encode_text, parse_request, payload_text, request_of, same_text, Request, RequestView,
};

pub use crate::wire::REQUEST;

verus! {

/// One registered client: the address its registration came from, and the
/// code it was given.
#[derive(Clone, Debug, PartialEq, Eq)]
pub struct RegisteredIpv4Address {
    pub addr: Ipv4Endpoint,
    pub code: String,
}

/// A registration with its code as a sequence of characters.
pub struct Registration {
    pub addr: Ipv4Endpoint,
    pub code: Seq<char>,
}

impl View for RegisteredIpv4Address {
    type V = Registration;

    open spec fn view(&self) -> Registration {
        Registration { addr: self.addr, code: self.code@ }
    }
}

/// Whether `i` is the first place in `table` registered from the IP address
/// of `addr`.
pub open spec fn is_first_with_ip(table: Seq<Registration>, addr: Ipv4Endpoint, i: int) -> bool {
    &&& 0 <= i < table.len()
    &&& table[i].addr.same_ip(addr)
    &&& forall|j: int| 0 <= j < i ==> !(#[trigger] table[j]).addr.same_ip(addr)
}

/// Whether `i` is the first place in `table` that holds `code`.
pub open spec fn is_first_with_code(table: Seq<Registration>, code: Seq<char>, i: int) -> bool {
    &&& 0 <= i < table.len()
    &&& table[i].code == code
    &&& forall|j: int| 0 <= j < i ==> (#[trigger] table[j]).code != code
}

/// The first registration from the IP address of `addr`, if there is one.
pub open spec fn registration_of_ip(table: Seq<Registration>, addr: Ipv4Endpoint) -> Option<
    Registration,
> {
    if exists|i: int| is_first_with_ip(table, addr, i) {
        Some(table[choose|i: int| is_first_with_ip(table, addr, i)])
    } else {
        None
    }
}

/// The first registration that holds `code`, if there is one.
pub open spec fn registration_of_code(table: Seq<Registration>, code: Seq<char>) -> Option<
    Registration,
> {
    if exists|i: int| is_first_with_code(table, code, i) {
        Some(table[choose|i: int| is_first_with_code(table, code, i)])
    } else {
        None
    }
}

/// A table is well formed when no two registrations share an IP address and
/// every code has the shape of a code.
pub open spec fn table_wf(table: Seq<Registration>) -> bool {
    &&& forall|i: int, j: int|
        0 <= i < j < table.len() ==> !(#[trigger] table[i]).addr.same_ip((#[trigger] table[j]).addr)
    &&& forall|i: int| 0 <= i < table.len() ==> is_code((#[trigger] table[i]).code)
}

/// What registering `addr` gives when `fresh` is the code at hand: the table
/// afterwards, whether a registration was made, and the code of `addr`.
pub open spec fn registered(table: Seq<Registration>, addr: Ipv4Endpoint, fresh: Seq<char>) -> (
    Seq<Registration>,
    bool,
    Seq<char>,
) {
    match registration_of_ip(table, addr) {
        Some(found) => (table, false, found.code),
        None => (table.push(Registration { addr, code: fresh }), true, fresh),
    }
}

/// The views of the entries of a table, in order.
pub open spec fn table_view(entries: Seq<RegisteredIpv4Address>) -> Seq<Registration> {
    Seq::new(entries.len(), |i: int| entries[i]@)
}

/// Finds the first entry registered from the IP address of `addr`.
pub fn find_ip(entries: &Vec<RegisteredIpv4Address>, addr: &Ipv4Endpoint) -> (found: Option<usize>)
    ensures
        match found {
            Some(i) => is_first_with_ip(table_view(entries@), *addr, i as int)
                && registration_of_ip(table_view(entries@), *addr) == Some(entries@[i as int]@),
            None => registration_of_ip(table_view(entries@), *addr).is_none(),
        },
{
    let ghost table = table_view(entries@);
    let mut i: usize = 0;
    while i < entries.len()
        invariant
            i <= entries.len(),
            table == table_view(entries@),
            forall|j: int| 0 <= j < i ==> !(#[trigger] table[j]).addr.same_ip(*addr),
        decreases entries.len() - i,
    {
        if entries[i].addr.has_ip_of(addr) {
            proof {
                assert(is_first_with_ip(table, *addr, i as int));
                let k = choose|k: int| is_first_with_ip(table, *addr, k);
                assert(k == i);
            }
            return Some(i);
        }
        i = i + 1;
    }
    proof {
        assert forall|k: int| !is_first_with_ip(table, *addr, k) by {}
    }
    None
}

/// Finds the first entry that holds `code`.
pub fn find_code(entries: &Vec<RegisteredIpv4Address>, code: &str) -> (found: Option<usize>)
    ensures
        match found {
            Some(i) => is_first_with_code(table_view(entries@), code@, i as int)
                && registration_of_code(table_view(entries@), code@) == Some(entries@[i as int]@),
            None => registration_of_code(table_view(entries@), code@).is_none(),
        },
{
    let ghost table = table_view(entries@);
    let mut i: usize = 0;
    while i < entries.len()
        invariant
            i <= entries.len(),
            table == table_view(entries@),
            forall|j: int| 0 <= j < i ==> (#[trigger] table[j]).code != code@,
        decreases entries.len() - i,
    {
        if same_text(entries[i].code.as_str(), code) {
            proof {
                assert(is_first_with_code(table, code@, i as int));
                let k = choose|k: int| is_first_with_code(table, code@, k);
                assert(k == i);
            }
            return Some(i);
        }
        i = i + 1;
    }
    proof {
        assert forall|k: int| !is_first_with_code(table, code@, k) by {}
    }
    None
}

/// How many bytes of a datagram the server reads.
pub const DATAGRAM_CAPACITY: usize = 128;

/// What a datagram of the server is for.
#[derive(Clone, Copy, Debug, PartialEq, Eq, Structural)]
pub enum ReplyKind {
    /// The code of a registrant, to the registrant.
    Code,
    /// The address registered under a code, to whoever asked for it.
    PeerAddress,
    /// The address of a requester, to the holder of the code it named.
    Introduction,
}

/// A datagram that the server wants sent.
#[derive(Clone, Debug, PartialEq, Eq)]
pub struct Outbound {
    pub kind: ReplyKind,
    pub to: SocketAddress,
    pub payload: Vec<u8>,
}

/// An outbound datagram with its destination and payload as mathematical
/// values.
pub struct OutboundView {
    pub kind: ReplyKind,
    pub to: AddressView,
    pub payload: Seq<u8>,
}

impl View for Outbound {
    type V = OutboundView;

    open spec fn view(&self) -> OutboundView {
        OutboundView { kind: self.kind, to: self.to@, payload: self.payload@ }
    }
}

/// The view of a datagram that may be there.
pub open spec fn reply_view(reply: Option<Outbound>) -> Option<OutboundView> {
    match reply {
        Some(outbound) => Some(outbound@),
        None => None,
    }
}

/// The reply to a registration: the code and nothing else, to the source.
pub open spec fn code_reply(source: AddressView, code: Seq<char>) -> OutboundView {
    OutboundView { kind: ReplyKind::Code, to: source, payload: encode_utf8(code) }
}

/// The reply to a lookup: the `ip:port` of the code's owner, to the source.
pub open spec fn address_reply(source: AddressView, owner: Ipv4Endpoint) -> OutboundView {
    OutboundView { kind: ReplyKind::PeerAddress, to: source, payload: encode_utf8(owner.text()) }
}

/// The introduction notice: the tag and then `remote_address`, to the owner
/// of the code.
pub open spec fn introduction(owner: Ipv4Endpoint, remote_address: Seq<char>) -> OutboundView {
    OutboundView {
        kind: ReplyKind::Introduction,
        to: AddressView::V4(owner),
        payload: encode_utf8(REQUEST@ + remote_address),
    }
}

/// What the server does with a request from `source` when `fresh` is the
/// code at hand: the table afterwards, and the datagram to send, if any.
pub open spec fn reaction(
    table: Seq<Registration>,
    source: AddressView,
    request: RequestView,
    fresh: Seq<char>,
) -> (Seq<Registration>, Option<OutboundView>) {
    match request {
        RequestView::Register => match source {
            AddressView::V4(addr) => {
                let outcome = registered(table, addr, fresh);
                (outcome.0, Some(code_reply(source, outcome.2)))
            },
            AddressView::V6 { .. } => (table, Some(code_reply(source, Seq::<char>::empty()))),
        },
        RequestView::AskCode { code } => match registration_of_code(table, code) {
            Some(owner) => (table, Some(address_reply(source, owner.addr))),
            None => (table, None),
        },
        RequestView::Broadcast { code } => match registration_of_code(table, code) {
            Some(owner) => (table, Some(introduction(owner.addr, source.text()))),
            None => (table, None),
        },
        RequestView::Unrecognised => (table, None),
        RequestView::Malformed => (table, None),
    }
}

/// Whether `table` and `reply` are what the server may have after a
/// datagram from `source`: its reaction for some code of the right shape.
pub open spec fn handled(
    before: Seq<Registration>,
    source: AddressView,
    payload: Seq<u8>,
    table: Seq<Registration>,
    reply: Option<OutboundView>,
) -> bool {
    exists|fresh: Seq<char>|
        is_code(fresh) && #[trigger] reaction(before, source, request_of(payload), fresh) == (
            table,
            reply,
        )
}

/// Where the server stands in its life.
#[derive(Clone, Copy, Debug, PartialEq, Eq, Structural)]
pub enum ServerState {
    /// Not bound yet.
    Idle,
    /// Bound, and taking datagrams.
    Listening,
    /// Done for good.
    Stopped,
}

/// Why the server gave up.
#[derive(Clone, Copy, Debug, PartialEq, Eq, Structural)]
pub enum ServerError {
    /// The socket could not be bound.
    Bind,
    /// Receiving failed.
    Receive,
    /// A reply that had to go out did not.
    Send,
    /// The event does not belong to the state the server is in.
    OutOfTurn,
    /// The server has stopped.
    Stopped,
}

/// What the transport reports to the server.
#[derive(Clone, Debug, PartialEq, Eq)]
pub enum ServerEvent {
    /// The socket is bound.
    Bound,
    /// The socket could not be bound.
    BindFailed,
    /// A datagram came in.
    Datagram { source: SocketAddress, payload: Vec<u8> },
    /// Receiving failed.
    ReceiveFailed,
    /// The datagram of this kind went out, `length` bytes of it.
    Sent { kind: ReplyKind, length: usize },
    /// The datagram of this kind could not be sent.
    SendFailed { kind: ReplyKind },
}

/// What the server wants done next.
#[derive(Clone, Debug, PartialEq, Eq)]
pub enum ServerAction {
    /// Bind a UDP socket to `address`, a `host:port`.
    Bind { address: String },
    /// Wait for the next datagram and hand over at most `capacity` bytes
    /// of it.
    Receive { capacity: usize },
    /// Send this datagram.
    Send(Outbound),
}

/// An action with its contents as mathematical values.
pub enum ActionView {
    Bind { address: Seq<char> },
    Receive { capacity: usize },
    Send(OutboundView),
}

impl View for ServerAction {
    type V = ActionView;

    open spec fn view(&self) -> ActionView {
        match self {
            ServerAction::Bind { address } => ActionView::Bind { address: address@ },
            ServerAction::Receive { capacity } => ActionView::Receive { capacity: *capacity },
            ServerAction::Send(outbound) => ActionView::Send(outbound@),
        }
    }
}

/// The view of a step's result.
pub open spec fn step_view(result: Result<ServerAction, ServerError>) -> Result<
    ActionView,
    ServerError,
> {
    match result {
        Ok(action) => Ok(action@),
        Err(error) => Err(error),
    }
}

/// The action of a server that goes on listening: wait for a datagram of
/// at most `DATAGRAM_CAPACITY` bytes.
pub open spec fn receive() -> ActionView {
    ActionView::Receive { capacity: DATAGRAM_CAPACITY }
}

/// The action that follows a datagram: send the reply, or go on receiving.
pub open spec fn action_after(reply: Option<OutboundView>) -> ActionView {
    match reply {
        Some(outbound) => ActionView::Send(outbound),
        None => ActionView::Receive { capacity: DATAGRAM_CAPACITY },
    }
}

/// Whether the server cannot go on when a datagram of this kind fails to go
/// out. A notice that is lost is only the owner's loss.
pub open spec fn send_failure_is_fatal(kind: ReplyKind) -> bool {
    kind != ReplyKind::Introduction
}

/// Whether the server cannot go on after a send of `length` bytes: an
/// address reply of which nothing went out.
pub open spec fn short_send_is_fatal(kind: ReplyKind, length: usize) -> bool {
    kind == ReplyKind::PeerAddress && length == 0
}

/// The state and the result after an event that is no datagram to a
/// listening server.
pub open spec fn transport_step(state: ServerState, event: ServerEvent) -> (
    ServerState,
    Result<ActionView, ServerError>,
)
    recommends
        !(state == ServerState::Listening && event is Datagram),
{
    match state {
        ServerState::Idle => match event {
            ServerEvent::Bound => (ServerState::Listening, Ok(receive())),
            ServerEvent::BindFailed => (ServerState::Stopped, Err(ServerError::Bind)),
            _ => (ServerState::Idle, Err(ServerError::OutOfTurn)),
        },
        ServerState::Listening => match event {
            ServerEvent::ReceiveFailed => (ServerState::Stopped, Err(ServerError::Receive)),
            ServerEvent::Sent { kind, length } => if short_send_is_fatal(kind, length) {
                (ServerState::Stopped, Err(ServerError::Send))
            } else {
                (ServerState::Listening, Ok(receive()))
            },
            ServerEvent::SendFailed { kind } => if send_failure_is_fatal(kind) {
                (ServerState::Stopped, Err(ServerError::Send))
            } else {
                (ServerState::Listening, Ok(receive()))
            },
            _ => (ServerState::Listening, Err(ServerError::OutOfTurn)),
        },
        ServerState::Stopped => (ServerState::Stopped, Err(ServerError::Stopped)),
    }
}

/// The rendezvous server: where it binds, and who has registered.
#[derive(Clone, Debug, PartialEq, Eq)]
pub struct StunServer<'a> {
    pub host: &'a str,
    pub port: &'a str,
    pub registered_ipv4_addresses: Vec<RegisteredIpv4Address>,
    pub state: ServerState,
}

/// A server for `host` and `port` that has not started and knows nobody.
pub fn new<'a>(host: &'a str, port: &'a str) -> (server: StunServer<'a>)
    ensures
        server.host@ == host@,
        server.port@ == port@,
        server.state == ServerState::Idle,
        server.table() == Seq::<Registration>::empty(),
        server.wf(),
{
    let server = StunServer {
        host,
        port,
        registered_ipv4_addresses: Vec::new(),
        state: ServerState::Idle,
    };
    proof {
        assert(server.table() =~= Seq::<Registration>::empty());
    }
    server
}

impl<'a> StunServer<'a> {
    /// The registration table, oldest registration first.
    pub open spec fn table(&self) -> Seq<Registration> {
        table_view(self.registered_ipv4_addresses@)
    }

    /// The table holds at most one registration per IP address, and only
    /// codes of the right shape.
    pub open spec fn wf(&self) -> bool {
        table_wf(self.table())
    }

    /// Whether `other` is this server but for its table.
    pub open spec fn same_settings(&self, other: &StunServer<'a>) -> bool {
        &&& self.host@ == other.host@
        &&& self.port@ == other.port@
        &&& self.state == other.state
    }

    /// Checks that the table is well formed.
    pub fn is_well_formed(&self) -> (ok: bool)
        ensures
            ok == self.wf(),
    {
        let ghost table = self.table();
        let mut j: usize = 0;
        while j < self.registered_ipv4_addresses.len()
            invariant
                j <= self.registered_ipv4_addresses.len(),
                table == self.table(),
                forall|a: int, b: int|
                    0 <= a < b < j ==> !(#[trigger] table[a]).addr.same_ip(
                        (#[trigger] table[b]).addr,
                    ),
                forall|a: int| 0 <= a < j ==> is_code((#[trigger] table[a]).code),
            decreases self.registered_ipv4_addresses.len() - j,
        {
            if !has_code_shape(self.registered_ipv4_addresses[j].code.as_str()) {
                proof {
                    assert(!is_code(table[j as int].code));
                }
                return false;
            }
            let mut i: usize = 0;
            while i < j
                invariant
                    i <= j < self.registered_ipv4_addresses.len(),
                    table == self.table(),
                    forall|a: int|
                        0 <= a < i ==> !(#[trigger] table[a]).addr.same_ip(table[j as int].addr),
                decreases j - i,
            {
                if self.registered_ipv4_addresses[i].addr.has_ip_of(
                    &self.registered_ipv4_addresses[j].addr,
                ) {
                    proof {
                        assert(table[i as int].addr.same_ip(table[j as int].addr));
                    }
                    return false;
                }
                i = i + 1;
            }
            j = j + 1;
        }
        true
    }

    /// Registers the source of a registration request. Only IPv4 sources
    /// can register: for any other the answer is `false` with an empty
    /// code, and nothing changes.
    pub fn register(&mut self, address: &SocketAddress) -> (outcome: (bool, String))
        requires
            old(self).wf(),
        ensures
            final(self).wf(),
            final(self).same_settings(old(self)),
            match address@ {
                AddressView::V4(addr) => match registration_of_ip(old(self).table(), addr) {
                    Some(found) => {
                        &&& final(self).table() == old(self).table()
                        &&& !outcome.0
                        &&& outcome.1@ == found.code
                    },
                    None => {
                        &&& final(self).table() == old(self).table().push(
                            Registration { addr, code: outcome.1@ },
                        )
                        &&& outcome.0
                        &&& is_code(outcome.1@)
                    },
                },
                AddressView::V6 { .. } => {
                    &&& final(self).table() == old(self).table()
                    &&& !outcome.0
                    &&& outcome.1@ == Seq::<char>::empty()
                },
            },
    {
        match address {
            SocketAddress::V4(addr_v4) => self.register_ipv4(*addr_v4),
            SocketAddress::V6(_) => (false, String::new()),
        }
    }

    /// Registers an IPv4 source: an IP address that is in the table keeps
    /// its code, a new one gets a fresh code and a place at the end.
    pub fn register_ipv4(&mut self, addr_v4: Ipv4Endpoint) -> (outcome: (bool, String))
        requires
            old(self).wf(),
        ensures
            final(self).wf(),
            final(self).same_settings(old(self)),
            match registration_of_ip(old(self).table(), addr_v4) {
                Some(found) => {
                    &&& final(self).table() == old(self).table()
                    &&& !outcome.0
                    &&& outcome.1@ == found.code
                },
                None => {
                    &&& final(self).table() == old(self).table().push(
                        Registration { addr: addr_v4, code: outcome.1@ },
                    )
                    &&& outcome.0
                    &&& is_code(outcome.1@)
                },
            },
    {
        let code = self.generate_code();
        self.register_with_code(addr_v4, code)
    }

    /// Registers an IPv4 source with `code` at hand for the case that its IP
    /// address is new.
    pub fn register_with_code(&mut self, addr_v4: Ipv4Endpoint, code: String) -> (outcome: (
        bool,
        String,
    ))
        requires
            old(self).wf(),
            is_code(code@),
        ensures
            final(self).wf(),
            final(self).same_settings(old(self)),
            (final(self).table(), outcome.0, outcome.1@) == registered(
                old(self).table(),
                addr_v4,
                code@,
            ),
    {
        match find_ip(&self.registered_ipv4_addresses, &addr_v4) {
            Some(i) => (false, self.registered_ipv4_addresses[i].code.clone()),
            None => {
                let issued = code.clone();
                self.registered_ipv4_addresses.push(RegisteredIpv4Address { addr: addr_v4, code });
                proof {
                    let before = old(self).table();
                    let after = final(self).table();
                    assert(after =~= before.push(Registration { addr: addr_v4, code: code@ }));
                    assert forall|k: int| 0 <= k < before.len() implies !(#[trigger] before[k])
                        .addr.same_ip(addr_v4) by {
                        if before[k].addr.same_ip(addr_v4) {
                            lemma_some_first_with_ip(before, addr_v4, k);
                        }
                    }
                }
                (true, issued)
            },
        }
    }

    /// Answers a lookup: the address registered under `code`, to `addr`.
    /// `None` when nobody holds the code.
    pub fn response_with_code(&self, addr: SocketAddress, code: &str) -> (reply: Option<Outbound>)
        ensures
            reply_view(reply) == match registration_of_code(self.table(), code@) {
                Some(owner) => Some(address_reply(addr@, owner.addr)),
                None => None,
            },
    {
        match find_code(&self.registered_ipv4_addresses, code) {
            Some(i) => {
                let remote_ip = self.registered_ipv4_addresses[i].addr.to_text();
                Some(
                    Outbound {
                        kind: ReplyKind::PeerAddress,
                        to: addr,
                        payload: encode_text(remote_ip.as_str()),
                    },
                )
            },
            None => None,
        }
    }

    /// Builds the notice that tells `peer` of a requester at
    /// `remote_address`.
    pub fn inform_other_peer(&self, peer: Ipv4Endpoint, remote_address: &str) -> (notice: Outbound)
        ensures
            notice@ == introduction(peer, remote_address@),
    {
        let mut message = String::from_str(REQUEST);
        message.append(remote_address);
        Outbound {
            kind: ReplyKind::Introduction,
            to: SocketAddress::V4(peer),
            payload: encode_text(message.as_str()),
        }
    }

    /// Serves one request from `source`, with `fresh` at hand for a
    /// registration that needs a new code.
    pub fn react(&mut self, source: SocketAddress, request: Request, fresh: String) -> (reply:
        Option<Outbound>)
        requires
            old(self).wf(),
            request@ is Register ==> is_code(fresh@),
        ensures
            final(self).wf(),
            final(self).same_settings(old(self)),
            (final(self).table(), reply_view(reply)) == reaction(
                old(self).table(),
                source@,
                request@,
                fresh@,
            ),
    {
        match request {
            Request::Register => {
                let code = match &source {
                    SocketAddress::V4(addr_v4) => self.register_with_code(*addr_v4, fresh).1,
                    SocketAddress::V6(_) => String::new(),
                };
                Some(
                    Outbound {
                        kind: ReplyKind::Code,
                        to: source,
                        payload: encode_text(code.as_str()),
                    },
                )
            },
            Request::AskCode { code } => self.response_with_code(source, code.as_str()),
            Request::Broadcast { code } => {
                match find_code(&self.registered_ipv4_addresses, code.as_str()) {
                    Some(i) => {
                        let remote_address = source.to_text();
                        Some(
                            self.inform_other_peer(
                                self.registered_ipv4_addresses[i].addr,
                                remote_address.as_str(),
                            ),
                        )
                    },
                    None => None,
                }
            },
            Request::Unrecognised => None,
            Request::Malformed => None,
        }
    }

    /// Serves one datagram: classifies the payload and reacts to it, with
    /// a newly generated code where it is a registration.
    pub fn handle_datagram(&mut self, source: SocketAddress, payload: &[u8]) -> (reply: Option<
        Outbound,
    >)
        requires
            old(self).wf(),
        ensures
            final(self).wf(),
            final(self).same_settings(old(self)),
            handled(
                old(self).table(),
                source@,
                payload@,
                final(self).table(),
                reply_view(reply),
            ),
            !(request_of(payload@) is Register) ==> final(self).table() == old(self).table(),
            request_of(payload@) is Malformed || request_of(payload@) is Unrecognised
                ==> reply.is_none(),
    {
        let request = parse_request(payload);
        let fresh = match request {
            Request::Register => self.generate_code(),
            _ => String::new(),
        };
        let ghost before = self.table();
        let reply = self.react(source, request, fresh);
        proof {
            let witness = if request@ is Register {
                fresh@
            } else {
                seq!['0', '0', '0', '0']
            };
            assert(is_code(witness));
            assert(reaction(before, source@, request_of(payload@), witness) == (
                self.table(),
                reply_view(reply),
            ));
        }
        reply
    }

    /// The `host:port` that the server binds.
    pub open spec fn bind_address(&self) -> Seq<char> {
        self.host@ + seq![':'] + self.port@
    }

    /// Starts the server: an idle server asks for its socket to be bound.
    /// A listening server is told that this is out of turn, a stopped one
    /// that it has stopped. Nothing changes.
    pub fn start(&self) -> (result: Result<ServerAction, ServerError>)
        ensures
            step_view(result) == match self.state {
                ServerState::Idle => Ok(ActionView::Bind { address: self.bind_address() }),
                ServerState::Listening => Err(ServerError::OutOfTurn),
                ServerState::Stopped => Err(ServerError::Stopped),
            },
    {
        match self.state {
            ServerState::Idle => {
                let mut address = String::from_str(self.host);
                push_char(&mut address, ':');
                address.append(self.port);
                proof {
                    assert(address@ =~= self.bind_address());
                }
                Ok(ServerAction::Bind { address })
            },
            ServerState::Listening => Err(ServerError::OutOfTurn),
            ServerState::Stopped => Err(ServerError::Stopped),
        }
    }

    /// Takes one event from the transport and says what to do next, or why
    /// the server is over.
    ///
    /// An idle server waits for its socket. A listening server answers
    /// datagrams, goes on after a send unless a reply that had to go out
    /// did not, and stops when receiving fails. An event that does not
    /// belong to the state changes nothing, and a stopped server stays
    /// stopped.
    pub fn step(&mut self, event: ServerEvent) -> (result: Result<ServerAction, ServerError>)
        requires
            old(self).wf(),
        ensures
            final(self).wf(),
            final(self).host@ == old(self).host@,
            final(self).port@ == old(self).port@,
            match (old(self).state, event) {
                (ServerState::Listening, ServerEvent::Datagram { source, payload }) => {
                    &&& final(self).state == ServerState::Listening
                    &&& exists|reply: Option<OutboundView>|
                        {
                            &&& #[trigger] handled(
                                old(self).table(),
                                source@,
                                payload@,
                                final(self).table(),
                                reply,
                            )
                            &&& step_view(result) == Ok::<ActionView, ServerError>(
                                action_after(reply),
                            )
                        }
                },
                (state, other) => {
                    &&& final(self).table() == old(self).table()
                    &&& (final(self).state, step_view(result)) == transport_step(state, other)
                },
            },
            old(self).state == ServerState::Listening && event is ReceiveFailed ==> {
                &&& final(self).state == ServerState::Stopped
                &&& result == Err::<ServerAction, ServerError>(ServerError::Receive)
            },
            old(self).state == ServerState::Listening && event is Datagram && payload_text(
                event->payload@,
            ).is_none() ==> {
                &&& final(self).state == ServerState::Listening
                &&& final(self).table() == old(self).table()
                &&& step_view(result) == Ok::<ActionView, ServerError>(
                    ActionView::Receive { capacity: DATAGRAM_CAPACITY },
                )
            },
    {
        match self.state {
            ServerState::Idle => match event {
                ServerEvent::Bound => {
                    self.state = ServerState::Listening;
                    Ok(ServerAction::Receive { capacity: DATAGRAM_CAPACITY })
                },
                ServerEvent::BindFailed => {
                    self.state = ServerState::Stopped;
                    Err(ServerError::Bind)
                },
                _ => Err(ServerError::OutOfTurn),
            },
            ServerState::Listening => match event {
                ServerEvent::Datagram { source, payload } => {
                    let ghost before = self.table();
                    let reply = self.handle_datagram(source, payload.as_slice());
                    proof {
                        assert(handled(
                            before,
                            source@,
                            payload@,
                            self.table(),
                            reply_view(reply),
                        ));
                    }
                    match reply {
                        Some(outbound) => Ok(ServerAction::Send(outbound)),
                        None => Ok(ServerAction::Receive { capacity: DATAGRAM_CAPACITY }),
                    }
                },
                ServerEvent::ReceiveFailed => {
                    self.state = ServerState::Stopped;
                    Err(ServerError::Receive)
                },
                ServerEvent::Sent { kind, length } => {
                    if kind == ReplyKind::PeerAddress && length == 0 {
                        self.state = ServerState::Stopped;
                        Err(ServerError::Send)
                    } else {
                        Ok(ServerAction::Receive { capacity: DATAGRAM_CAPACITY })
                    }
                },
                ServerEvent::SendFailed { kind } => {
                    if kind == ReplyKind::Introduction {
                        Ok(ServerAction::Receive { capacity: DATAGRAM_CAPACITY })
                    } else {
                        self.state = ServerState::Stopped;
                        Err(ServerError::Send)
                    }
                },
                _ => Err(ServerError::OutOfTurn),
            },
            ServerState::Stopped => Err(ServerError::Stopped),
        }
    }

    /// Generates a code for a new registration.
    pub fn generate_code(&mut self) -> (code: String)
        ensures
            *final(self) == *old(self),
            is_code(code@),
    {
        generate()
    }
}

/// Where some registration is from the IP address of `addr`, a first one is.
pub proof fn lemma_some_first_with_ip(table: Seq<Registration>, addr: Ipv4Endpoint, k: int)
    requires
        0 <= k < table.len(),
        table[k].addr.same_ip(addr),
    ensures
        exists|i: int| is_first_with_ip(table, addr, i),
    decreases k,
{
    if forall|j: int| 0 <= j < k ==> !(#[trigger] table[j]).addr.same_ip(addr) {
        assert(is_first_with_ip(table, addr, k));
    } else {
        let j = choose|j: int| 0 <= j < k && (#[trigger] table[j]).addr.same_ip(addr);
        lemma_some_first_with_ip(table, addr, j);
    }
}

/// Where some registration holds `code`, a first one does.
pub proof fn lemma_some_first_with_code(table: Seq<Registration>, code: Seq<char>, k: int)
    requires
        0 <= k < table.len(),
        table[k].code == code,
    ensures
        exists|i: int| is_first_with_code(table, code, i),
    decreases k,
{
    if forall|j: int| 0 <= j < k ==> (#[trigger] table[j]).code != code {
        assert(is_first_with_code(table, code, k));
    } else {
        let j = choose|j: int| 0 <= j < k && (#[trigger] table[j]).code == code;
        lemma_some_first_with_code(table, code, j);
    }
}

/// Registering keeps the table well formed: still at most one registration
/// for each IP address.
pub proof fn lemma_registered_keeps_wf(
    table: Seq<Registration>,
    addr: Ipv4Endpoint,
    fresh: Seq<char>,
)
    requires
        table_wf(table),
        is_code(fresh),
    ensures
        table_wf(registered(table, addr, fresh).0),
{
    if registration_of_ip(table, addr).is_none() {
        assert forall|k: int| 0 <= k < table.len() implies !(#[trigger] table[k]).addr.same_ip(
            addr,
        ) by {
            if table[k].addr.same_ip(addr) {
                lemma_some_first_with_ip(table, addr, k);
            }
        }
    }
}

/// Registering again from an IP address that has just registered makes no
/// new registration and gives the code of the first time, whatever the port
/// and whatever code is at hand.
pub proof fn lemma_register_again(
    table: Seq<Registration>,
    first: Ipv4Endpoint,
    again: Ipv4Endpoint,
    fresh: Seq<char>,
    unused: Seq<char>,
)
    requires
        first.same_ip(again),
    ensures
        ({
            let once = registered(table, first, fresh);
            let twice = registered(once.0, again, unused);
            &&& !twice.1
            &&& twice.2 == once.2
            &&& twice.0 == once.0
        }),
{
    let once = registered(table, first, fresh);
    if exists|i: int| is_first_with_ip(table, first, i) {
        let i = choose|i: int| is_first_with_ip(table, first, i);
        assert(is_first_with_ip(table, again, i));
        let j = choose|j: int| is_first_with_ip(table, again, j);
        assert(j == i);
    } else {
        let after = once.0;
        let last = table.len() as int;
        assert(after[last].addr == first);
        assert forall|j: int| 0 <= j < last implies !(#[trigger] after[j]).addr.same_ip(again) by {
            if table[j].addr.same_ip(first) {
                lemma_some_first_with_ip(table, first, j);
            }
        }
        assert(is_first_with_ip(after, again, last));
        let j = choose|j: int| is_first_with_ip(after, again, j);
        assert(j == last);
    }
}

/// Two strangers with different IP addresses are both registered, each
/// with the code that was at hand for it.
pub proof fn lemma_register_strangers(
    table: Seq<Registration>,
    one: Ipv4Endpoint,
    other: Ipv4Endpoint,
    code_one: Seq<char>,
    code_other: Seq<char>,
)
    requires
        registration_of_ip(table, one).is_none(),
        registration_of_ip(table, other).is_none(),
        !one.same_ip(other),
    ensures
        ({
            let first = registered(table, one, code_one);
            let second = registered(first.0, other, code_other);
            &&& first.1
            &&& first.2 == code_one
            &&& second.1
            &&& second.2 == code_other
            &&& second.0 == table.push(Registration { addr: one, code: code_one }).push(
                Registration { addr: other, code: code_other },
            )
        }),
{
    let after = registered(table, one, code_one).0;
    if exists|i: int| is_first_with_ip(after, other, i) {
        let i = choose|i: int| is_first_with_ip(after, other, i);
        if i < table.len() {
            assert(after[i] == table[i]);
            lemma_some_first_with_ip(table, other, i);
        }
    }
}

/// Once an address is registered under a code that nobody held before, a
/// lookup of that code is answered with exactly that address, to whoever
/// asked.
pub proof fn lemma_lookup_after_register(
    table: Seq<Registration>,
    addr: Ipv4Endpoint,
    code: Seq<char>,
    source: AddressView,
    fresh: Seq<char>,
)
    requires
        registration_of_ip(table, addr).is_none(),
        registration_of_code(table, code).is_none(),
    ensures
        ({
            let after = registered(table, addr, code).0;
            reaction(after, source, RequestView::AskCode { code }, fresh) == (
                after,
                Some(address_reply(source, addr)),
            )
        }),
{
    let after = registered(table, addr, code).0;
    let last = table.len() as int;
    assert(after[last].code == code);
    assert forall|j: int| 0 <= j < last implies (#[trigger] after[j]).code != code by {
        if table[j].code == code {
            lemma_some_first_with_code(table, code, j);
        }
    }
    assert(is_first_with_code(after, code, last));
    let i = choose|i: int| is_first_with_code(after, code, i);
    assert(i == last);
}

/// A lookup of a code that nobody holds gets no reply and changes nothing.
pub proof fn lemma_lookup_of_unknown_code(
    table: Seq<Registration>,
    code: Seq<char>,
    source: AddressView,
    fresh: Seq<char>,
)
    requires
        forall|i: int| 0 <= i < table.len() ==> (#[trigger] table[i]).code != code,
    ensures
        reaction(table, source, RequestView::AskCode { code }, fresh) == (
            table,
            None::<OutboundView>,
        ),
{
}

/// An introduction request for a code that somebody holds makes one
/// datagram: to the first holder of the code, and made of the tag and the
/// requester's `ip:port`. It goes to the requester only if the requester is
/// that holder. The table stays as it is.
pub proof fn lemma_broadcast_reaches_owner(
    table: Seq<Registration>,
    code: Seq<char>,
    source: AddressView,
    fresh: Seq<char>,
    k: int,
)
    requires
        0 <= k < table.len(),
        table[k].code == code,
    ensures
        ({
            let outcome = reaction(table, source, RequestView::Broadcast { code }, fresh);
            &&& outcome.0 == table
            &&& outcome.1 is Some
            &&& registration_of_code(table, code) is Some
            &&& outcome.1->0.kind == ReplyKind::Introduction
            &&& outcome.1->0.to == AddressView::V4(registration_of_code(table, code)->0.addr)
            &&& outcome.1->0.payload == encode_utf8(REQUEST@ + source.text())
            &&& registration_of_code(table, code)->0.code == code
            &&& source != AddressView::V4(registration_of_code(table, code)->0.addr)
                ==> outcome.1->0.to != source
        }),
{
    lemma_some_first_with_code(table, code, k);
}

/// A datagram that is not UTF-8 is dropped: the table stays as it is, no
/// reply is made, and the server goes on receiving.
pub proof fn lemma_malformed_is_dropped(
    before: Seq<Registration>,
    source: AddressView,
    payload: Seq<u8>,
    table: Seq<Registration>,
    reply: Option<OutboundView>,
)
    requires
        payload_text(payload).is_none(),
        handled(before, source, payload, table, reply),
    ensures
        table == before,
        reply.is_none(),
        action_after(reply) == (ActionView::Receive { capacity: DATAGRAM_CAPACITY }),
{
}

/// A failure to receive stops a listening server with an error, and a
/// stopped server answers every event with an error and stays stopped.
pub proof fn lemma_receive_failure_is_terminal(event: ServerEvent)
    ensures
        transport_step(ServerState::Listening, ServerEvent::ReceiveFailed) == (
            ServerState::Stopped,
            Err::<ActionView, ServerError>(ServerError::Receive),
        ),
        transport_step(ServerState::Stopped, event) == (
            ServerState::Stopped,
            Err::<ActionView, ServerError>(ServerError::Stopped),
        ),
{
}

/// The reply to a registration from an IPv4 source carries a code and
/// nothing else: as many bytes as a code has characters.
pub proof fn lemma_registration_reply_is_a_code(
    table: Seq<Registration>,
    addr: Ipv4Endpoint,
    fresh: Seq<char>,
)
    requires
        table_wf(table),
        is_code(fresh),
    ensures
        ({
            let source = AddressView::V4(addr);
            let outcome = reaction(table, source, RequestView::Register, fresh);
            let code = registered(table, addr, fresh).2;
            &&& outcome.1 == Some(code_reply(source, code))
            &&& is_code(code)
            &&& code_reply(source, code).payload.len() == CODE_LENGTH
        }),
{
    let code = registered(table, addr, fresh).2;
    if exists|i: int| is_first_with_ip(table, addr, i) {
        let i = choose|i: int| is_first_with_ip(table, addr, i);
        assert(is_code(table[i].code));
    }
    lemma_code_bytes(code);
}

} // verus!
