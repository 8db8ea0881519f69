//! The row types of the `stat` and `addr` tables.

use crate::net::address::Ipv6Addr;
use vstd::prelude::*;

verus! {

/// One element of an address column: an address and its prefix length, each nullable.
pub type AddrEntry = (Option<Ipv6Addr>, Option<u8>);

/// One sample of an interface's counters, or the growth between two samples.
#[derive(Debug)]
pub struct Stat {
    pub server_id: String,
    pub interface: String,
    pub timestamp: u32,
    pub rx: u64,
    pub tx: u64,
    pub rx_p: u64,
    pub tx_p: u64,
    pub rx_d: u64,
    pub tx_d: u64,
    pub rx_e: u64,
    pub tx_e: u64,
}

/// What a [`Stat`] holds, with its strings as character sequences.
pub struct StatView {
    pub server_id: Seq<char>,
    pub interface: Seq<char>,
    pub timestamp: u32,
    pub rx: u64,
    pub tx: u64,
    pub rx_p: u64,
    pub tx_p: u64,
    pub rx_d: u64,
    pub tx_d: u64,
    pub rx_e: u64,
    pub tx_e: u64,
}

impl View for Stat {
    type V = StatView;

    open spec fn view(&self) -> StatView {
        StatView {
            server_id: self.server_id@,
            interface: self.interface@,
            timestamp: self.timestamp,
            rx: self.rx,
            tx: self.tx,
            rx_p: self.rx_p,
            tx_p: self.tx_p,
            rx_d: self.rx_d,
            tx_d: self.tx_d,
            rx_e: self.rx_e,
            tx_e: self.tx_e,
        }
    }
}

impl Clone for Stat {
    fn clone(&self) -> (r: Self)
        ensures
            r@ == self@,
    {
        Stat {
            server_id: self.server_id.clone(),
            interface: self.interface.clone(),
            timestamp: self.timestamp,
            rx: self.rx,
            tx: self.tx,
            rx_p: self.rx_p,
            tx_p: self.tx_p,
            rx_d: self.rx_d,
            tx_d: self.tx_d,
            rx_e: self.rx_e,
            tx_e: self.tx_e,
        }
    }
}

/// The views of a sequence of samples, in order.
pub open spec fn stat_views(s: Seq<Stat>) -> Seq<StatView> {
    s.map_values(|a: Stat| a@)
}

/// The addresses of one interface of one server.
#[derive(Debug, PartialEq, Eq, Hash)]
pub struct Addr {
    pub server_id: String,
    pub interface: String,
    pub ipv6: Vec<AddrEntry>,
    pub ipv6_peer: Vec<AddrEntry>,
}

/// What an [`Addr`] holds, with its strings and columns as sequences.
pub struct AddrView {
    pub server_id: Seq<char>,
    pub interface: Seq<char>,
    pub ipv6: Seq<AddrEntry>,
    pub ipv6_peer: Seq<AddrEntry>,
}

impl View for Addr {
    type V = AddrView;

    open spec fn view(&self) -> AddrView {
        AddrView {
            server_id: self.server_id@,
            interface: self.interface@,
            ipv6: self.ipv6@,
            ipv6_peer: self.ipv6_peer@,
        }
    }
}

/// A copy of an address column.
pub fn clone_entries(entries: &Vec<AddrEntry>) -> (r: Vec<AddrEntry>)
    ensures
        r@ == entries@,
{
    let mut out: Vec<AddrEntry> = Vec::new();
    let mut i: usize = 0;
    while i < entries.len()
        invariant
            i <= entries.len(),
            out@ == entries@.take(i as int),
        decreases entries.len() - i,
    {
        out.push(entries[i]);
        i += 1;
    }
    out
}

impl Clone for Addr {
    fn clone(&self) -> (r: Self)
        ensures
            r@ == self@,
    {
        Addr {
            server_id: self.server_id.clone(),
            interface: self.interface.clone(),
            ipv6: clone_entries(&self.ipv6),
            ipv6_peer: clone_entries(&self.ipv6_peer),
        }
    }
}

/// The views of a sequence of address rows, in order.
pub open spec fn addr_views(s: Seq<Addr>) -> Seq<AddrView> {
    s.map_values(|a: Addr| a@)
}

/// The record of one host: its identity and where it stands. The type `C` is that of a
/// coordinate, which the library carries and never computes with.
#[derive(Debug)]
pub struct Server<C> {
    pub server_id: String,
    pub hostname: String,
    pub label: String,
    pub lat: C,
    pub lng: C,
    pub interface_filter: Vec<Option<String>>,
    pub city: Option<String>,
    pub country: Option<String>,
    pub priority: Option<u8>,
    pub center: Option<bool>,
}

} // verus!
