//! What is read of one interface: its addresses and its counters.

use crate::db::schema::AddrEntry;
use vstd::prelude::*;

verus! {

/// One address of an interface as the kernel reports it: the peer's end (`address`) and
/// the host's end (`local`), each with the prefix length of the report.
#[derive(Clone, Copy, Debug)]
pub struct InterfaceAddr {
    pub address: AddrEntry,
    pub local: AddrEntry,
}

/// The raw counters of an interface.
#[derive(Debug)]
pub struct Stats {
    pub int_name: String,
    pub tx_packets: u64,
    pub rx_packets: u64,
    pub tx_bytes: u64,
    pub rx_bytes: u64,
    pub tx_dropped: u64,
    pub rx_dropped: u64,
    pub tx_error: u64,
    pub rx_error: u64,
}

/// What a [`Stats`] holds, with its name as a character sequence.
pub struct StatsView {
    pub int_name: Seq<char>,
    pub tx_packets: u64,
    pub rx_packets: u64,
    pub tx_bytes: u64,
    pub rx_bytes: u64,
    pub tx_dropped: u64,
    pub rx_dropped: u64,
    pub tx_error: u64,
    pub rx_error: u64,
}

impl View for Stats {
    type V = StatsView;

    open spec fn view(&self) -> StatsView {
        StatsView {
            int_name: self.int_name@,
            tx_packets: self.tx_packets,
            rx_packets: self.rx_packets,
            tx_bytes: self.tx_bytes,
            rx_bytes: self.rx_bytes,
            tx_dropped: self.tx_dropped,
            rx_dropped: self.rx_dropped,
            tx_error: self.tx_error,
            rx_error: self.rx_error,
        }
    }
}

} // verus!
