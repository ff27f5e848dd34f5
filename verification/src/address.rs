//! Transport addresses as the protocol sees them: the family, and for each
//! family what the messages are built from.
use vstd::prelude::*;
use crate::text::{decimal_digits, push_char, push_decimal};
use crate::utils::ip_address::{dotted_quad, octets_to_string};

verus! {

/// An IPv4 address with a UDP port.
#[derive(Clone, Copy, Debug, PartialEq, Eq)]
pub struct Ipv4Endpoint {
    pub octets: [u8; 4],
    pub port: u16,
}

/// An IPv6 address with a UDP port. The host is kept in its textual form,
/// which is all the protocol uses of it.
#[derive(Clone, Debug, PartialEq, Eq)]
pub struct Ipv6Endpoint {
    pub host: String,
    pub port: u16,
}

/// The source or destination of a datagram.
#[derive(Clone, Debug, PartialEq, Eq)]
pub enum SocketAddress {
    V4(Ipv4Endpoint),
    V6(Ipv6Endpoint),
}

/// `host:port`, the port in decimal.
pub open spec fn endpoint_text(host: Seq<char>, port: u16) -> Seq<char> {
    host + seq![':'] + decimal_digits(port as nat)
}

impl Ipv4Endpoint {
    /// The `a.b.c.d:port` form of the endpoint.
    pub open spec fn text(self) -> Seq<char> {
        endpoint_text(dotted_quad(self.octets@), self.port)
    }

    /// Whether two endpoints have the same IP address, whatever their ports.
    pub open spec fn same_ip(self, other: Ipv4Endpoint) -> bool {
        self.octets@ == other.octets@
    }

    /// Compares the IP addresses of two endpoints.
    pub fn has_ip_of(&self, other: &Ipv4Endpoint) -> (same: bool)
        ensures
            same == self.same_ip(*other),
    {
        let same = self.octets[0] == other.octets[0] && self.octets[1] == other.octets[1]
            && self.octets[2] == other.octets[2] && self.octets[3] == other.octets[3];
        proof {
            if same {
                assert(self.octets@ =~= other.octets@);
            }
        }
        same
    }

    /// Renders the endpoint as `a.b.c.d:port`.
    pub fn to_text(&self) -> (text: String)
        ensures
            text@ == self.text(),
    {
        let mut text = octets_to_string(self.octets);
        push_char(&mut text, ':');
        push_decimal(&mut text, self.port);
        text
    }
}

/// An address with its host text as a sequence of characters.
pub enum AddressView {
    V4(Ipv4Endpoint),
    V6 { host: Seq<char>, port: u16 },
}

impl AddressView {
    /// The `host:port` form of the address.
    pub open spec fn text(self) -> Seq<char> {
        match self {
            AddressView::V4(endpoint) => endpoint.text(),
            AddressView::V6 { host, port } => endpoint_text(host, port),
        }
    }
}

impl View for SocketAddress {
    type V = AddressView;

    open spec fn view(&self) -> AddressView {
        match self {
            SocketAddress::V4(endpoint) => AddressView::V4(*endpoint),
            SocketAddress::V6(endpoint) => AddressView::V6 {
                host: endpoint.host@,
                port: endpoint.port,
            },
        }
    }
}

impl SocketAddress {
    /// The `host:port` form of the address.
    pub open spec fn text(self) -> Seq<char> {
        self@.text()
    }

    /// Renders the address as `host:port`.
    pub fn to_text(&self) -> (text: String)
        ensures
            text@ == self.text(),
    {
        match self {
            SocketAddress::V4(endpoint) => endpoint.to_text(),
            SocketAddress::V6(endpoint) => {
                let mut text = String::new();
                text.append(endpoint.host.as_str());
                push_char(&mut text, ':');
                push_decimal(&mut text, endpoint.port);
                proof {
                    assert(text@ =~= endpoint_text(endpoint.host@, endpoint.port));
                }
                text
            },
        }
    }
}

} // verus!
