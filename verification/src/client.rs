//! The rendezvous client: registration, lookup and introduction with the
//! server, then the repeated probe toward the peer.
//!
//! The client owns no socket. It is a state machine: it is told what the
//! transport did and answers with what the transport should do next.
use vstd::prelude::*;
use vstd::utf8::encode_utf8;
use crate::text::push_char;
use crate::code::{is_code, lemma_code_bytes};
use crate::wire::{
    ask_prefix, decode_text, encode_text, lemma_text_round_trip, payload_text, starts_with,
    strip_prefix,
};

pub use crate::code::CODE_LENGTH;
pub use crate::wire::{ASK_CODE, BROADCAST, GREETING, REGISTER, REQUEST};

verus! {

/// Host that the client binds.
pub const LOCAL_HOST: &'static str = "0.0.0.0";

/// Port that the client binds.
pub const LOCAL_PORT: &'static str = "4823";

/// Room for the reply to a registration: one byte more than a code, so
/// that a reply that is too long is seen to be too long.
pub const CODE_CAPACITY: usize = CODE_LENGTH + 1;

/// Room for what a registered client hears after its code.
pub const NOTICE_CAPACITY: usize = 32;

/// Room for the reply to a lookup.
pub const ADDRESS_CAPACITY: usize = 64;

/// Milliseconds between two probes.
pub const PROBE_DELAY_MS: u64 = 500;

/// How many bytes of an introduction request must have gone out: the tag
/// and a code.
pub const BROADCAST_LENGTH: usize = 13;

/// Where the client stands.
#[derive(Clone, Copy, Debug, PartialEq, Eq, Structural)]
pub enum ClientPhase {
    /// Waiting for the local socket.
    Binding,
    /// Waiting for the socket to be pointed at the server.
    Connecting,
    /// `REGISTER` is on its way.
    Registering,
    /// Waiting for the code.
    AwaitingCode,
    /// Registered; listening for the notice that introduces a peer.
    Listening,
    /// The lookup is on its way.
    Asking,
    /// Waiting for the peer's address.
    AwaitingPeer,
    /// The introduction request is on its way.
    Broadcasting,
    /// Waiting for the socket to be pointed at the peer.
    Targeting,
    /// A probe is on its way.
    Probing,
    /// Waiting out the delay between two probes.
    Resting,
    /// Over.
    Stopped,
}

/// Why the client gave up.
#[derive(Clone, Copy, Debug, PartialEq, Eq, Structural)]
pub enum ClientError {
    /// The local socket could not be bound.
    Bind,
    /// The socket could not be pointed at the server or the peer.
    Connect,
    /// The transport failed to send.
    Send,
    /// The transport failed to receive.
    Receive,
    /// A request went out with no bytes in it.
    NothingSent,
    /// The reply to a registration was not as long as a code.
    InvalidCodeLength,
    /// The reply to a lookup was empty.
    EmptyReply,
    /// A reply was not UTF-8.
    Malformed,
    /// The introduction request did not go out whole.
    BroadcastIncomplete,
    /// The event does not belong to the phase the client is in.
    OutOfTurn,
    /// The client has stopped.
    Stopped,
}

/// What the transport reports to the client.
#[derive(Clone, Debug, PartialEq, Eq)]
pub enum ClientEvent {
    Bound,
    BindFailed,
    Connected,
    ConnectFailed,
    Sent { length: usize },
    SendFailed,
    Received { payload: Vec<u8> },
    ReceiveFailed,
    Slept,
    /// The owner of the client wants it to end.
    Cancelled,
}

/// What the client wants done next.
#[derive(Clone, Debug, PartialEq, Eq)]
pub enum ClientAction {
    /// Bind a UDP socket to `address`.
    Bind { address: String },
    /// Point the socket at `address`.
    Connect { address: String },
    /// Send `payload` to where the socket points.
    Send { payload: Vec<u8> },
    /// Wait for a datagram and hand over at most `capacity` bytes of it.
    Receive { capacity: usize },
    /// Wait for `millis` milliseconds.
    Sleep { millis: u64 },
    /// Nothing more.
    Finish,
}

/// An event with its payload as a sequence of bytes.
pub enum EventView {
    Bound,
    BindFailed,
    Connected,
    ConnectFailed,
    Sent { length: usize },
    SendFailed,
    Received { payload: Seq<u8> },
    ReceiveFailed,
    Slept,
    Cancelled,
}

impl View for ClientEvent {
    type V = EventView;

    open spec fn view(&self) -> EventView {
        match self {
            ClientEvent::Bound => EventView::Bound,
            ClientEvent::BindFailed => EventView::BindFailed,
            ClientEvent::Connected => EventView::Connected,
            ClientEvent::ConnectFailed => EventView::ConnectFailed,
            ClientEvent::Sent { length } => EventView::Sent { length: *length },
            ClientEvent::SendFailed => EventView::SendFailed,
            ClientEvent::Received { payload } => EventView::Received { payload: payload@ },
            ClientEvent::ReceiveFailed => EventView::ReceiveFailed,
            ClientEvent::Slept => EventView::Slept,
            ClientEvent::Cancelled => EventView::Cancelled,
        }
    }
}

/// An action with its contents as mathematical values.
pub enum Instruction {
    Bind { address: Seq<char> },
    Connect { address: Seq<char> },
    Send { payload: Seq<u8> },
    Receive { capacity: usize },
    Sleep { millis: u64 },
    Finish,
}

impl View for ClientAction {
    type V = Instruction;

    open spec fn view(&self) -> Instruction {
        match self {
            ClientAction::Bind { address } => Instruction::Bind { address: address@ },
            ClientAction::Connect { address } => Instruction::Connect { address: address@ },
            ClientAction::Send { payload } => Instruction::Send { payload: payload@ },
            ClientAction::Receive { capacity } => Instruction::Receive { capacity: *capacity },
            ClientAction::Sleep { millis } => Instruction::Sleep { millis: *millis },
            ClientAction::Finish => Instruction::Finish,
        }
    }
}

/// The rendezvous client.
#[derive(Clone, Debug, PartialEq, Eq)]
pub struct Client {
    pub phase: ClientPhase,
    /// `host:port` of the rendezvous server.
    pub stun_address: String,
    /// The code to connect with; empty to register instead.
    pub connect_with: String,
    /// The code that the server issued; empty until it has.
    pub code: String,
    /// `ip:port` of the peer; empty until the server has told it.
    pub remote_address: String,
}

/// A client as mathematical values.
pub struct ClientView {
    pub phase: ClientPhase,
    pub stun_address: Seq<char>,
    pub connect_with: Seq<char>,
    pub code: Seq<char>,
    pub remote_address: Seq<char>,
}

impl View for Client {
    type V = ClientView;

    open spec fn view(&self) -> ClientView {
        ClientView {
            phase: self.phase,
            stun_address: self.stun_address@,
            connect_with: self.connect_with@,
            code: self.code@,
            remote_address: self.remote_address@,
        }
    }
}

/// The view of a step's result.
pub open spec fn outcome_view(result: Result<ClientAction, ClientError>) -> Result<
    Instruction,
    ClientError,
> {
    match result {
        Ok(action) => Ok(action@),
        Err(error) => Err(error),
    }
}

/// The address that the client binds.
pub open spec fn local_address() -> Seq<char> {
    LOCAL_HOST@ + seq![':'] + LOCAL_PORT@
}

/// The registration request.
pub open spec fn register_message() -> Seq<u8> {
    encode_utf8(REGISTER@)
}

/// The lookup request for `code`.
pub open spec fn ask_message(code: Seq<char>) -> Seq<u8> {
    encode_utf8(ask_prefix() + code)
}

/// The introduction request for `code`.
pub open spec fn broadcast_message(code: Seq<char>) -> Seq<u8> {
    encode_utf8(BROADCAST@ + code)
}

/// The probe that the peers send each other.
pub open spec fn probe_message() -> Seq<u8> {
    encode_utf8(GREETING@)
}

/// The peer that a piece of text introduces: what follows the tag of an
/// introduction notice, if the text begins with that tag.
pub open spec fn introduced_peer(text: Seq<char>) -> Option<Seq<char>> {
    if starts_with(text, REQUEST@) {
        Some(text.skip(REQUEST@.len() as int))
    } else {
        None
    }
}

/// What the transport hands over of a datagram when there is room for
/// `capacity` bytes: the datagram, cut to that many bytes if it is longer.
pub open spec fn delivered(datagram: Seq<u8>, capacity: usize) -> Seq<u8> {
    if datagram.len() <= capacity {
        datagram
    } else {
        datagram.take(capacity as int)
    }
}

impl ClientView {
    /// The same client in another phase.
    pub open spec fn at(self, phase: ClientPhase) -> ClientView {
        ClientView { phase, ..self }
    }

    /// The client gives up with `error`.
    pub open spec fn fail(self, error: ClientError) -> (
        ClientView,
        Result<Instruction, ClientError>,
    ) {
        (self.at(ClientPhase::Stopped), Err(error))
    }

    /// The client moves to `phase` and asks for `instruction`.
    pub open spec fn go(self, phase: ClientPhase, instruction: Instruction) -> (
        ClientView,
        Result<Instruction, ClientError>,
    ) {
        (self.at(phase), Ok(instruction))
    }

    /// The client stays as it is and refuses the event.
    pub open spec fn refuse(self) -> (ClientView, Result<Instruction, ClientError>) {
        (self, Err(ClientError::OutOfTurn))
    }

    /// The client after `event`, and what it asks for or why it gave up.
    pub open spec fn step(self, event: EventView) -> (
        ClientView,
        Result<Instruction, ClientError>,
    ) {
        if self.phase == ClientPhase::Stopped {
            (self, Err(ClientError::Stopped))
        } else if event is Cancelled {
            self.go(ClientPhase::Stopped, Instruction::Finish)
        } else {
            match self.phase {
                ClientPhase::Binding => match event {
                    EventView::Bound => self.go(
                        ClientPhase::Connecting,
                        Instruction::Connect { address: self.stun_address },
                    ),
                    EventView::BindFailed => self.fail(ClientError::Bind),
                    _ => self.refuse(),
                },
                ClientPhase::Connecting => match event {
                    EventView::Connected => if self.connect_with.len() == 0 {
                        self.go(
                            ClientPhase::Registering,
                            Instruction::Send { payload: register_message() },
                        )
                    } else {
                        self.go(
                            ClientPhase::Asking,
                            Instruction::Send { payload: ask_message(self.connect_with) },
                        )
                    },
                    EventView::ConnectFailed => self.fail(ClientError::Connect),
                    _ => self.refuse(),
                },
                ClientPhase::Registering => match event {
                    EventView::Sent { length } => if length == 0 {
                        self.fail(ClientError::NothingSent)
                    } else {
                        self.go(
                            ClientPhase::AwaitingCode,
                            Instruction::Receive { capacity: CODE_CAPACITY },
                        )
                    },
                    EventView::SendFailed => self.fail(ClientError::Send),
                    _ => self.refuse(),
                },
                ClientPhase::AwaitingCode => match event {
                    EventView::Received { payload } => if payload.len() != CODE_LENGTH {
                        self.fail(ClientError::InvalidCodeLength)
                    } else {
                        match payload_text(payload) {
                            Some(code) => ClientView { code, ..self }.go(
                                ClientPhase::Listening,
                                Instruction::Receive { capacity: NOTICE_CAPACITY },
                            ),
                            None => self.fail(ClientError::Malformed),
                        }
                    },
                    EventView::ReceiveFailed => self.fail(ClientError::Receive),
                    _ => self.refuse(),
                },
                ClientPhase::Listening => match event {
                    EventView::Received { payload } => match payload_text(payload) {
                        Some(text) => match introduced_peer(text) {
                            Some(remote_address) => ClientView { remote_address, ..self }.go(
                                ClientPhase::Targeting,
                                Instruction::Connect { address: remote_address },
                            ),
                            None => self.go(
                                ClientPhase::Listening,
                                Instruction::Receive { capacity: NOTICE_CAPACITY },
                            ),
                        },
                        None => self.fail(ClientError::Malformed),
                    },
                    EventView::ReceiveFailed => self.fail(ClientError::Receive),
                    _ => self.refuse(),
                },
                ClientPhase::Asking => match event {
                    EventView::Sent { length } => if length == 0 {
                        self.fail(ClientError::NothingSent)
                    } else {
                        self.go(
                            ClientPhase::AwaitingPeer,
                            Instruction::Receive { capacity: ADDRESS_CAPACITY },
                        )
                    },
                    EventView::SendFailed => self.fail(ClientError::Send),
                    _ => self.refuse(),
                },
                ClientPhase::AwaitingPeer => match event {
                    EventView::Received { payload } => if payload.len() == 0 {
                        self.fail(ClientError::EmptyReply)
                    } else {
                        match payload_text(payload) {
                            Some(remote_address) => ClientView { remote_address, ..self }.go(
                                ClientPhase::Broadcasting,
                                Instruction::Send { payload: broadcast_message(self.connect_with) },
                            ),
                            None => self.fail(ClientError::Malformed),
                        }
                    },
                    EventView::ReceiveFailed => self.fail(ClientError::Receive),
                    _ => self.refuse(),
                },
                ClientPhase::Broadcasting => match event {
                    EventView::Sent { length } => if length != BROADCAST_LENGTH {
                        self.fail(ClientError::BroadcastIncomplete)
                    } else {
                        self.go(
                            ClientPhase::Targeting,
                            Instruction::Connect { address: self.remote_address },
                        )
                    },
                    EventView::SendFailed => self.fail(ClientError::Send),
                    _ => self.refuse(),
                },
                ClientPhase::Targeting => match event {
                    EventView::Connected => self.go(
                        ClientPhase::Probing,
                        Instruction::Send { payload: probe_message() },
                    ),
                    EventView::ConnectFailed => self.fail(ClientError::Connect),
                    _ => self.refuse(),
                },
                ClientPhase::Probing => match event {
                    EventView::Sent { .. } => self.go(
                        ClientPhase::Resting,
                        Instruction::Sleep { millis: PROBE_DELAY_MS },
                    ),
                    EventView::SendFailed => self.fail(ClientError::Send),
                    _ => self.refuse(),
                },
                ClientPhase::Resting => match event {
                    EventView::Slept => self.go(
                        ClientPhase::Targeting,
                        Instruction::Connect { address: self.remote_address },
                    ),
                    _ => self.refuse(),
                },
                ClientPhase::Stopped => (self, Err(ClientError::Stopped)),
            }
        }
    }
}

impl Client {
    /// A client for the server at `stun_address`, and its first wish: a
    /// local socket. With an empty `connect_with` it will register and
    /// listen; with a code it will look the code up, ask to be introduced
    /// and probe the peer.
    pub fn connect_stun(stun_address: &str, connect_with: &str) -> (started: (Client, ClientAction))
        ensures
            started.0@ == (ClientView {
                phase: ClientPhase::Binding,
                stun_address: stun_address@,
                connect_with: connect_with@,
                code: Seq::<char>::empty(),
                remote_address: Seq::<char>::empty(),
            }),
            started.1@ == (Instruction::Bind { address: local_address() }),
    {
        let client = Client {
            phase: ClientPhase::Binding,
            stun_address: String::from_str(stun_address),
            connect_with: String::from_str(connect_with),
            code: String::new(),
            remote_address: String::new(),
        };
        let mut address = String::from_str(LOCAL_HOST);
        push_char(&mut address, ':');
        address.append(LOCAL_PORT);
        proof {
            assert(address@ =~= local_address());
        }
        (client, ClientAction::Bind { address })
    }

    /// Asks the server for a code.
    pub fn register(&mut self) -> (action: ClientAction)
        ensures
            final(self)@ == old(self)@.at(ClientPhase::Registering),
            action@ == (Instruction::Send { payload: register_message() }),
    {
        self.phase = ClientPhase::Registering;
        ClientAction::Send { payload: encode_text(REGISTER) }
    }

    /// Asks the server who holds the code to connect with.
    pub fn ask_with_code(&mut self) -> (action: ClientAction)
        ensures
            final(self)@ == old(self)@.at(ClientPhase::Asking),
            action@ == (Instruction::Send { payload: ask_message(old(self)@.connect_with) }),
    {
        self.phase = ClientPhase::Asking;
        let mut message = String::from_str(ASK_CODE);
        push_char(&mut message, ':');
        message.append(self.connect_with.as_str());
        ClientAction::Send { payload: encode_text(message.as_str()) }
    }

    /// Asks the server to tell the holder of the code where this client is.
    pub fn broadcast_ip(&mut self) -> (action: ClientAction)
        ensures
            final(self)@ == old(self)@.at(ClientPhase::Broadcasting),
            action@ == (Instruction::Send { payload: broadcast_message(old(self)@.connect_with) }),
    {
        self.phase = ClientPhase::Broadcasting;
        let mut message = String::from_str(BROADCAST);
        message.append(self.connect_with.as_str());
        ClientAction::Send { payload: encode_text(message.as_str()) }
    }

    /// Turns the socket toward the peer, for the next probe.
    pub fn connect_remote(&mut self) -> (action: ClientAction)
        ensures
            final(self)@ == old(self)@.at(ClientPhase::Targeting),
            action@ == (Instruction::Connect { address: old(self)@.remote_address }),
    {
        self.phase = ClientPhase::Targeting;
        ClientAction::Connect { address: self.remote_address.clone() }
    }

    /// Gives up with `error`.
    fn fail(&mut self, error: ClientError) -> (result: Result<ClientAction, ClientError>)
        ensures
            (final(self)@, outcome_view(result)) == old(self)@.fail(error),
    {
        self.phase = ClientPhase::Stopped;
        Err(error)
    }

    /// Moves to `phase` and waits for a datagram of at most `capacity`
    /// bytes.
    fn await_reply(&mut self, phase: ClientPhase, capacity: usize) -> (result: Result<
        ClientAction,
        ClientError,
    >)
        ensures
            (final(self)@, outcome_view(result)) == old(self)@.go(
                phase,
                Instruction::Receive { capacity },
            ),
    {
        self.phase = phase;
        Ok(ClientAction::Receive { capacity })
    }

    /// Takes one event from the transport and says what to do next, or why
    /// the client is over.
    pub fn step(&mut self, event: ClientEvent) -> (result: Result<ClientAction, ClientError>)
        ensures
            (final(self)@, outcome_view(result)) == old(self)@.step(event@),
    {
        if self.phase == ClientPhase::Stopped {
            return Err(ClientError::Stopped);
        }
        if let ClientEvent::Cancelled = event {
            self.phase = ClientPhase::Stopped;
            return Ok(ClientAction::Finish);
        }
        match self.phase {
            ClientPhase::Binding => match event {
                ClientEvent::Bound => {
                    self.phase = ClientPhase::Connecting;
                    Ok(ClientAction::Connect { address: self.stun_address.clone() })
                },
                ClientEvent::BindFailed => self.fail(ClientError::Bind),
                _ => Err(ClientError::OutOfTurn),
            },
            ClientPhase::Connecting => match event {
                ClientEvent::Connected => {
                    if self.connect_with.as_str().is_empty() {
                        Ok(self.register())
                    } else {
                        Ok(self.ask_with_code())
                    }
                },
                ClientEvent::ConnectFailed => self.fail(ClientError::Connect),
                _ => Err(ClientError::OutOfTurn),
            },
            ClientPhase::Registering => match event {
                ClientEvent::Sent { length } => {
                    if length == 0 {
                        self.fail(ClientError::NothingSent)
                    } else {
                        self.await_reply(ClientPhase::AwaitingCode, CODE_CAPACITY)
                    }
                },
                ClientEvent::SendFailed => self.fail(ClientError::Send),
                _ => Err(ClientError::OutOfTurn),
            },
            ClientPhase::AwaitingCode => match event {
                ClientEvent::Received { payload } => {
                    if payload.len() != CODE_LENGTH {
                        self.fail(ClientError::InvalidCodeLength)
                    } else {
                        match decode_text(payload.as_slice()) {
                            Some(code) => {
                                self.code = String::from_str(code);
                                self.await_reply(ClientPhase::Listening, NOTICE_CAPACITY)
                            },
                            None => self.fail(ClientError::Malformed),
                        }
                    }
                },
                ClientEvent::ReceiveFailed => self.fail(ClientError::Receive),
                _ => Err(ClientError::OutOfTurn),
            },
            ClientPhase::Listening => match event {
                ClientEvent::Received { payload } => match decode_text(payload.as_slice()) {
                    Some(text) => match strip_prefix(text, REQUEST) {
                        Some(remote_address) => {
                            self.remote_address = String::from_str(remote_address);
                            Ok(self.connect_remote())
                        },
                        None => self.await_reply(ClientPhase::Listening, NOTICE_CAPACITY),
                    },
                    None => self.fail(ClientError::Malformed),
                },
                ClientEvent::ReceiveFailed => self.fail(ClientError::Receive),
                _ => Err(ClientError::OutOfTurn),
            },
            ClientPhase::Asking => match event {
                ClientEvent::Sent { length } => {
                    if length == 0 {
                        self.fail(ClientError::NothingSent)
                    } else {
                        self.await_reply(ClientPhase::AwaitingPeer, ADDRESS_CAPACITY)
                    }
                },
                ClientEvent::SendFailed => self.fail(ClientError::Send),
                _ => Err(ClientError::OutOfTurn),
            },
            ClientPhase::AwaitingPeer => match event {
                ClientEvent::Received { payload } => {
                    if payload.len() == 0 {
                        self.fail(ClientError::EmptyReply)
                    } else {
                        match decode_text(payload.as_slice()) {
                            Some(remote_address) => {
                                self.remote_address = String::from_str(remote_address);
                                Ok(self.broadcast_ip())
                            },
                            None => self.fail(ClientError::Malformed),
                        }
                    }
                },
                ClientEvent::ReceiveFailed => self.fail(ClientError::Receive),
                _ => Err(ClientError::OutOfTurn),
            },
            ClientPhase::Broadcasting => match event {
                ClientEvent::Sent { length } => {
                    if length != BROADCAST_LENGTH {
                        self.fail(ClientError::BroadcastIncomplete)
                    } else {
                        Ok(self.connect_remote())
                    }
                },
                ClientEvent::SendFailed => self.fail(ClientError::Send),
                _ => Err(ClientError::OutOfTurn),
            },
            ClientPhase::Targeting => match event {
                ClientEvent::Connected => {
                    self.phase = ClientPhase::Probing;
                    Ok(ClientAction::Send { payload: encode_text(GREETING) })
                },
                ClientEvent::ConnectFailed => self.fail(ClientError::Connect),
                _ => Err(ClientError::OutOfTurn),
            },
            ClientPhase::Probing => match event {
                ClientEvent::Sent { .. } => {
                    self.phase = ClientPhase::Resting;
                    Ok(ClientAction::Sleep { millis: PROBE_DELAY_MS })
                },
                ClientEvent::SendFailed => self.fail(ClientError::Send),
                _ => Err(ClientError::OutOfTurn),
            },
            ClientPhase::Resting => match event {
                ClientEvent::Slept => Ok(self.connect_remote()),
                _ => Err(ClientError::OutOfTurn),
            },
            ClientPhase::Stopped => Err(ClientError::Stopped),
        }
    }
}

/// A client that waits for its code accepts every code of the right
/// shape as the server puts it on the wire, keeps it, and goes on to
/// listen.
pub proof fn lemma_code_reply_is_accepted(client: ClientView, code: Seq<char>)
    requires
        client.phase == ClientPhase::AwaitingCode,
        is_code(code),
    ensures
        client.step(EventView::Received { payload: encode_utf8(code) }) == (ClientView {
            code,
            ..client
        }).go(ClientPhase::Listening, Instruction::Receive { capacity: NOTICE_CAPACITY }),
{
    lemma_code_bytes(code);
    lemma_text_round_trip(code);
}

/// A reply to a registration must be exactly as long as a code: of a
/// datagram of any other length, longer ones too, what the transport hands
/// over in the room that the client asked for is refused as a protocol
/// error.
pub proof fn lemma_code_reply_must_be_exact(client: ClientView, datagram: Seq<u8>)
    requires
        client.phase == ClientPhase::AwaitingCode,
        datagram.len() != CODE_LENGTH,
    ensures
        client.at(ClientPhase::Registering).step(EventView::Sent { length: 1 }).1 == Ok::<
            Instruction,
            ClientError,
        >(Instruction::Receive { capacity: CODE_CAPACITY }),
        client.step(EventView::Received { payload: delivered(datagram, CODE_CAPACITY) })
            == client.fail(ClientError::InvalidCodeLength),
{
}

/// A registered client that hears an introduction notice keeps the address
/// in it and turns to that peer; any other text leaves it listening.
pub proof fn lemma_notice_starts_the_probing(client: ClientView, text: Seq<char>)
    requires
        client.phase == ClientPhase::Listening,
    ensures
        client.step(EventView::Received { payload: encode_utf8(REQUEST@ + text) }) == (ClientView {
            remote_address: text,
            ..client
        }).go(ClientPhase::Targeting, Instruction::Connect { address: text }),
        !starts_with(text, REQUEST@) ==> client.step(
            EventView::Received { payload: encode_utf8(text) },
        ) == client.go(
            ClientPhase::Listening,
            Instruction::Receive { capacity: NOTICE_CAPACITY },
        ),
{
    let notice = REQUEST@ + text;
    lemma_text_round_trip(notice);
    lemma_text_round_trip(text);
    assert(notice.subrange(0, REQUEST@.len() as int) =~= REQUEST@);
    assert(notice.skip(REQUEST@.len() as int) =~= text);
}

/// A reply to a registration that is not as long as a code is refused as
/// a protocol error, whatever it holds.
pub proof fn lemma_wrong_code_length_is_an_error(client: ClientView, payload: Seq<u8>)
    requires
        client.phase == ClientPhase::AwaitingCode,
        payload.len() != CODE_LENGTH,
    ensures
        client.step(EventView::Received { payload }) == client.fail(
            ClientError::InvalidCodeLength,
        ),
{
}

/// The probing never ends by itself: from the moment the socket is to be
/// turned toward the peer, a connect, a send of any length and a rest lead
/// back to the same client asking for the same thing.
pub proof fn lemma_probing_repeats(client: ClientView, length: usize)
    requires
        client.phase == ClientPhase::Targeting,
    ensures
        ({
            let probing = client.step(EventView::Connected);
            let resting = probing.0.step(EventView::Sent { length });
            let again = resting.0.step(EventView::Slept);
            &&& probing.1 == Ok::<Instruction, ClientError>(
                Instruction::Send { payload: probe_message() },
            )
            &&& resting.1 == Ok::<Instruction, ClientError>(
                Instruction::Sleep { millis: PROBE_DELAY_MS },
            )
            &&& again.1 == Ok::<Instruction, ClientError>(
                Instruction::Connect { address: client.remote_address },
            )
            &&& again.0 == client
        }),
{
}

/// A client that has not stopped can be cancelled in every phase; after
/// that, and after every failure, it stays stopped.
pub proof fn lemma_cancel_and_stop(client: ClientView, event: EventView)
    ensures
        client.phase != ClientPhase::Stopped ==> client.step(EventView::Cancelled) == client.go(
            ClientPhase::Stopped,
            Instruction::Finish,
        ),
        client.phase == ClientPhase::Stopped ==> client.step(event) == (
            client,
            Err::<Instruction, ClientError>(ClientError::Stopped),
        ),
        client.step(event).1 is Err && client.step(event).1 != Err::<Instruction, ClientError>(
            ClientError::OutOfTurn,
        ) ==> client.step(event).0.phase == ClientPhase::Stopped,
{
}

} // verus!
