//! The parts of the kernel's link and address messages that the agent reads.
//!
//! A message of the routing socket carries many attributes. These types keep the ones
//! on which a decision rests and fold every other one into a variant `Other`.

use crate::net::address::IpAddr;
use vstd::prelude::*;

verus! {

/// Why a request to the kernel gave no usable answer.
#[derive(Debug, PartialEq, Eq)]
pub enum NetlinkError {
    /// The request was answered, but not with what was asked for.
    RequestFailed,
    /// The request could not be carried out; the text is the transport's message.
    Other(String),
}

impl Clone for NetlinkError {
    fn clone(&self) -> (r: Self)
        ensures
            r == *self,
    {
        match self {
            NetlinkError::RequestFailed => NetlinkError::RequestFailed,
            NetlinkError::Other(message) => NetlinkError::Other(message.clone()),
        }
    }
}

/// A state flag of a link.
#[derive(Clone, Copy, Debug, PartialEq, Eq, Structural)]
pub enum LinkFlag {
    Up,
    Loopback,
    Other,
}

/// The fixed part of a link message.
#[derive(Debug)]
pub struct LinkHeader {
    pub index: u32,
    pub flags: Vec<LinkFlag>,
}

/// The 64-bit counters of a link.
#[derive(Clone, Copy, Debug, PartialEq, Eq, Structural)]
pub struct Stats64 {
    pub rx_packets: u64,
    pub tx_packets: u64,
    pub rx_bytes: u64,
    pub tx_bytes: u64,
    pub rx_errors: u64,
    pub tx_errors: u64,
    pub rx_dropped: u64,
    pub tx_dropped: u64,
}

/// An attribute of a link message.
#[derive(Debug)]
pub enum LinkAttribute {
    IfName(String),
    Mtu(u32),
    Stats64(Stats64),
    Other,
}

/// What the kernel reports of one link.
#[derive(Debug)]
pub struct LinkMessage {
    pub header: LinkHeader,
    pub attributes: Vec<LinkAttribute>,
}

/// An attribute of an address message.
#[derive(Clone, Copy, Debug, PartialEq, Eq, Structural)]
pub enum AddressAttribute {
    Address(IpAddr),
    Local(IpAddr),
    Other,
}

/// The fixed part of an address message.
#[derive(Clone, Copy, Debug, PartialEq, Eq, Structural)]
pub struct AddressHeader {
    pub prefix_len: u8,
}

/// What the kernel reports of one address of a link.
#[derive(Debug)]
pub struct AddressMessage {
    pub header: AddressHeader,
    pub attributes: Vec<AddressAttribute>,
}

} // verus!
