//! Small helpers shared by the server and the client.
pub mod ip_address;
