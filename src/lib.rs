//! Construction and parsing of minimal IPv4, ICMP echo, UDP and TCP packets,
//! with the Internet checksum that binds them.

pub mod checksum;
pub mod codec;
pub mod icmp_echo;
pub mod ipv4;
pub mod tcp;
pub mod udp;

use vstd::prelude::*;

verus! {

/// Protocol number of ICMP in the IPv4 header.
pub const PROTO_ICMP: u8 = 1;

/// Protocol number of TCP in the IPv4 header.
pub const PROTO_TCP: u8 = 6;

/// Protocol number of UDP in the IPv4 header.
pub const PROTO_UDP: u8 = 17;

} // verus!
