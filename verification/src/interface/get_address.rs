//! Address rows of the host's interfaces, and their reconciliation with the store.

use crate::db::schema::{addr_views, Addr, AddrEntry, AddrView};
use crate::interface::info::interface::InterfaceAddr;
use crate::interface::info::{
    get_interface_address, is_link_local_64, is_reported, last_address, last_local,
    message_addr, reported_addresses,
};
use crate::net::address::{
    is_ipv4_mapped_bits, is_link_local_bits, lemma_mapped_bits, mapped_ip, IpAddr, Ipv6Addr,
};
use crate::netlink::{AddressAttribute, AddressMessage, NetlinkError};
use vstd::prelude::*;

verus! {

/// The seconds between two reconciliation ticks.
pub const RECONCILE_INTERVAL_SECS: u64 = 5;

/// The number of interfaces whose addresses are asked for at one time, at most.
pub const MAX_CONCURRENT_REQUESTS: usize = 10;

/// The three batches that bring the store's rows of one server in line with the host.
#[derive(Debug)]
pub struct Updates {
    pub updates: Vec<Addr>,
    pub deletes: Vec<Addr>,
    pub creates: Vec<Addr>,
}

/// Some row of `rows` is about the interface `interface`.
pub open spec fn has_interface(rows: Seq<AddrView>, interface: Seq<char>) -> bool {
    exists|i: int| 0 <= i < rows.len() && (#[trigger] rows[i]).interface == interface
}

/// Some row of `stored` is about the interface of `row` and holds other addresses.
pub open spec fn differs_from(row: AddrView, stored: Seq<AddrView>) -> bool {
    exists|i: int|
        0 <= i < stored.len() && (#[trigger] stored[i]).interface == row.interface && (row.ipv6
            != stored[i].ipv6 || row.ipv6_peer != stored[i].ipv6_peer)
}

/// The fresh rows whose interface the store does not know, in the order of `fresh`.
pub open spec fn creates_of(fresh: Seq<AddrView>, stored: Seq<AddrView>) -> Seq<AddrView> {
    fresh.filter(|a: AddrView| !has_interface(stored, a.interface))
}

/// The fresh rows whose interface the store knows with other addresses, in the order of
/// `fresh`.
pub open spec fn updates_of(fresh: Seq<AddrView>, stored: Seq<AddrView>) -> Seq<AddrView> {
    fresh.filter(|a: AddrView| differs_from(a, stored))
}

/// The stored rows whose interface the host no longer has, in the order of `stored`.
pub open spec fn deletes_of(fresh: Seq<AddrView>, stored: Seq<AddrView>) -> Seq<AddrView> {
    stored.filter(|a: AddrView| !has_interface(fresh, a.interface))
}

fn same_entry(a: &AddrEntry, b: &AddrEntry) -> (r: bool)
    ensures
        r == (*a == *b),
{
    let ip = match (a.0, b.0) {
        (Some(x), Some(y)) => x.bits == y.bits,
        (None, None) => true,
        _ => false,
    };
    let prefix = match (a.1, b.1) {
        (Some(x), Some(y)) => x == y,
        (None, None) => true,
        _ => false,
    };
    ip && prefix
}

fn same_entries(a: &Vec<AddrEntry>, b: &Vec<AddrEntry>) -> (r: bool)
    ensures
        r == (a@ == b@),
{
    if a.len() != b.len() {
        return false;
    }
    let mut i: usize = 0;
    while i < a.len()
        invariant
            i <= a.len(),
            a.len() == b.len(),
            a@.take(i as int) == b@.take(i as int),
        decreases a.len() - i,
    {
        if !same_entry(&a[i], &b[i]) {
            return false;
        }
        assert(a@.take(i + 1) == a@.take(i as int).push(a@[i as int]));
        assert(b@.take(i + 1) == b@.take(i as int).push(b@[i as int]));
        i += 1;
    }
    assert(a@.take(a.len() as int) == a@);
    assert(b@.take(b.len() as int) == b@);
    true
}

fn knows_interface(rows: &Vec<Addr>, interface: &String) -> (r: bool)
    ensures
        r == has_interface(addr_views(rows@), interface@),
{
    let mut i: usize = 0;
    while i < rows.len()
        invariant
            i <= rows.len(),
            forall|j: int| 0 <= j < i ==> (#[trigger] addr_views(rows@)[j]).interface != interface@,
        decreases rows.len() - i,
    {
        if rows[i].interface == *interface {
            assert(addr_views(rows@)[i as int].interface == interface@);
            return true;
        }
        i += 1;
    }
    false
}

fn differs(row: &Addr, stored: &Vec<Addr>) -> (r: bool)
    ensures
        r == differs_from(row@, addr_views(stored@)),
{
    let mut i: usize = 0;
    while i < stored.len()
        invariant
            i <= stored.len(),
            forall|j: int|
                0 <= j < i ==> !((#[trigger] addr_views(stored@)[j]).interface == row@.interface
                    && (row@.ipv6 != addr_views(stored@)[j].ipv6 || row@.ipv6_peer != addr_views(
                    stored@,
                )[j].ipv6_peer)),
        decreases stored.len() - i,
    {
        if stored[i].interface == row.interface && (!same_entries(&row.ipv6, &stored[i].ipv6)
            || !same_entries(&row.ipv6_peer, &stored[i].ipv6_peer)) {
            assert(addr_views(stored@)[i as int] == stored@[i as int]@);
            return true;
        }
        i += 1;
    }
    false
}

/// The entry that an address of an interface gives to the address column: the host's
/// end where it is known, else the peer's end, else an empty entry.
pub open spec fn primary_entry(a: InterfaceAddr) -> AddrEntry {
    if a.local.0 is Some {
        a.local
    } else if a.address.0 is Some {
        a.address
    } else {
        (None, None)
    }
}

/// The test by which an address of an interface gives an entry to the peer column: both
/// ends are known and differ, or neither is known.
pub open spec fn has_peer_entry() -> spec_fn(InterfaceAddr) -> bool {
    |a: InterfaceAddr|
        (a.local.0 is Some && a.address.0 is Some && a.local != a.address) || (a.local.0 is None
            && a.address.0 is None)
}

/// The entry that an address of an interface gives to the peer column, where it gives
/// one: the peer's end where both ends are known, else an empty entry.
pub open spec fn peer_entry(a: InterfaceAddr) -> AddrEntry {
    if a.local.0 is Some {
        a.address
    } else {
        (None, None)
    }
}

/// The address column of an interface with these addresses.
pub open spec fn ipv6_column(addresses: Seq<InterfaceAddr>) -> Seq<AddrEntry> {
    addresses.map_values(|a: InterfaceAddr| primary_entry(a))
}

/// The peer column of an interface with these addresses.
pub open spec fn peer_column(addresses: Seq<InterfaceAddr>) -> Seq<AddrEntry> {
    addresses.filter(has_peer_entry()).map_values(|a: InterfaceAddr| peer_entry(a))
}

/// The row of the interface `interface` of the server `server_id` with these addresses.
pub open spec fn collected(
    addresses: Seq<InterfaceAddr>,
    server_id: Seq<char>,
    interface: Seq<char>,
) -> AddrView {
    AddrView {
        server_id,
        interface,
        ipv6: ipv6_column(addresses),
        ipv6_peer: peer_column(addresses),
    }
}

/// The test by which the collection of one interface's addresses succeeded.
pub open spec fn is_collected() -> spec_fn(Result<Addr, NetlinkError>) -> bool {
    |r: Result<Addr, NetlinkError>| r is Ok
}

/// The rows of the interfaces whose addresses could be collected, in their order.
pub open spec fn collected_rows(results: Seq<Result<Addr, NetlinkError>>) -> Seq<AddrView> {
    results.filter(is_collected()).map_values(|r: Result<Addr, NetlinkError>| r->Ok_0@)
}

/// The address rows of the watched interfaces, from the outcome of collecting each.
///
/// The rows of the interfaces that could be collected are returned, in their order,
/// as long as there is one. Where there is none, the result is the first error, or
/// `RequestFailed` where no interface was tried at all.
pub fn get_interface_addresses(results: &Vec<Result<Addr, NetlinkError>>) -> (r: Result<
    Vec<Addr>,
    NetlinkError,
>)
    ensures
        r is Ok <==> collected_rows(results@).len() > 0,
        r matches Ok(rows) ==> addr_views(rows@) == collected_rows(results@),
        r matches Err(e) ==> e == if results@.len() > 0 {
            results@[0]->Err_0
        } else {
            NetlinkError::RequestFailed
        },
{
    let mut successful_addrs: Vec<Addr> = Vec::new();
    let mut i: usize = 0;
    while i < results.len()
        invariant
            i <= results.len(),
            addr_views(successful_addrs@) == collected_rows(results@.take(i as int)),
            successful_addrs@.len() == 0 ==> forall|j: int| 0 <= j < i ==> results@[j] is Err,
        decreases results.len() - i,
    {
        let ghost before = successful_addrs@;
        proof {
            assert(results@.take(i + 1) == results@.take(i as int).push(results@[i as int]));
            results@.take(i as int).lemma_filter_push(results@[i as int], is_collected());
        }
        match &results[i] {
            Ok(addr) => {
                successful_addrs.push(addr.clone());
                assert(addr_views(successful_addrs@) == addr_views(before).push(addr@));
                assert(results@.take(i as int).filter(is_collected()).push(
                    results@[i as int],
                ).map_values(|r: Result<Addr, NetlinkError>| r->Ok_0@) == collected_rows(
                    results@.take(i as int),
                ).push(addr@));
            },
            Err(_) => {},
        }
        i += 1;
    }
    assert(results@.take(results.len() as int) == results@);
    if successful_addrs.len() > 0 {
        Ok(successful_addrs)
    } else if results.len() > 0 {
        match &results[0] {
            Ok(_) => Err(NetlinkError::RequestFailed),
            Err(e) => Err(e.clone()),
        }
    } else {
        Err(NetlinkError::RequestFailed)
    }
}

/// The address row of one interface, from the answer to a request for the addresses
/// of its link.
///
/// Each address that [`get_interface_address`] reports gives one entry to the address
/// column: the host's end where it is known, else the peer's end, else an empty entry.
/// It gives an entry to the peer column only where both ends are known and differ (the
/// peer's end), or where neither is known (an empty entry). So the peer column is never
/// longer than the address column, and neither column holds a link-local address with
/// prefix length 64. The request fails where [`get_interface_address`] does.
pub fn get_addresses(
    response: Result<Vec<AddressMessage>, NetlinkError>,
    name: String,
    server_id: &str,
) -> (r: Result<Addr, NetlinkError>)
    ensures
        r is Ok <==> (response matches Ok(messages) && reported_addresses(messages@).len() > 0),
        r matches Ok(addr) ==> addr@ == collected(
            reported_addresses(response->Ok_0@),
            server_id@,
            name@,
        ) && addr.ipv6_peer@.len() <= addr.ipv6@.len(),
        r matches Ok(addr) ==> forall|i: int|
            0 <= i < addr.ipv6@.len() ==> !entry_is_link_local_64(#[trigger] addr.ipv6@[i]),
        r matches Ok(addr) ==> forall|i: int|
            0 <= i < addr.ipv6_peer@.len() ==> !entry_is_link_local_64(
                #[trigger] addr.ipv6_peer@[i],
            ),
        r matches Err(e) ==> e is RequestFailed,
{
    let interface_addr = match get_interface_address(response) {
        Ok(interface_addr) => interface_addr,
        Err(e) => {
            return Err(e);
        },
    };
    let mut addresses: Vec<AddrEntry> = Vec::new();
    let mut peers: Vec<AddrEntry> = Vec::new();
    let mut i: usize = 0;
    while i < interface_addr.len()
        invariant
            i <= interface_addr.len(),
            addresses@ == ipv6_column(interface_addr@.take(i as int)),
            peers@ == peer_column(interface_addr@.take(i as int)),
            peers@.len() <= addresses@.len(),
        decreases interface_addr.len() - i,
    {
        let ip_addr = interface_addr[i].address;
        let ip_local = interface_addr[i].local;
        proof {
            assert(interface_addr@.take(i + 1) == interface_addr@.take(i as int).push(
                interface_addr@[i as int],
            ));
            interface_addr@.take(i as int).lemma_filter_push(
                interface_addr@[i as int],
                has_peer_entry(),
            );
        }
        let to_push_addresses = if ip_local.0.is_some() {
            ip_local
        } else if ip_addr.0.is_some() {
            ip_addr
        } else {
            (None, None)
        };
        addresses.push(to_push_addresses);

        if ip_local.0.is_some() && ip_addr.0.is_some() && !same_entry(&ip_local, &ip_addr) {
            peers.push(ip_addr);
            assert(interface_addr@.take(i as int).filter(has_peer_entry()).push(
                interface_addr@[i as int],
            ).map_values(|a: InterfaceAddr| peer_entry(a)) == peer_column(
                interface_addr@.take(i as int),
            ).push(ip_addr));
        } else if ip_local.0.is_none() && ip_addr.0.is_none() {
            peers.push((None, None));
            assert(interface_addr@.take(i as int).filter(has_peer_entry()).push(
                interface_addr@[i as int],
            ).map_values(|a: InterfaceAddr| peer_entry(a)) == peer_column(
                interface_addr@.take(i as int),
            ).push((None, None)));
        }
        i += 1;
    }
    assert(interface_addr@.take(interface_addr.len() as int) == interface_addr@);
    proof {
        let row = collected(reported_addresses(response->Ok_0@), server_id@, name@);
        lemma_no_link_local_64(response->Ok_0@, server_id@, name@);
        assert(addresses@ == row.ipv6);
        assert(peers@ == row.ipv6_peer);
        assert forall|i: int| 0 <= i < addresses@.len() implies !entry_is_link_local_64(
            #[trigger] addresses@[i],
        ) by {
            assert(!entry_is_link_local_64(row.ipv6[i]));
        }
        assert forall|i: int| 0 <= i < peers@.len() implies !entry_is_link_local_64(
            #[trigger] peers@[i],
        ) by {
            assert(!entry_is_link_local_64(row.ipv6_peer[i]));
        }
    }
    Ok(Addr { server_id: server_id.to_owned(), interface: name, ipv6: addresses, ipv6_peer: peers })
}

/// The message has an `Address` or a `Local` attribute that holds `ip`.
pub open spec fn reports(m: AddressMessage, ip: IpAddr) -> bool {
    exists|j: int|
        0 <= j < m.attributes@.len() && (#[trigger] m.attributes@[j] == AddressAttribute::Address(
            ip,
        ) || m.attributes@[j] == AddressAttribute::Local(ip))
}

/// `x` is the form in which `ip` is stored: an IPv6 address as it is, an IPv4 address
/// as the IPv4-mapped address with the IPv4 address in its low 32 bits.
pub open spec fn stands_for(x: Ipv6Addr, ip: IpAddr) -> bool {
    match ip {
        IpAddr::V4(v4) => is_ipv4_mapped_bits(x.bits) && x.bits & 0xffff_ffff == v4.bits,
        IpAddr::V6(v6) => x == v6,
    }
}

/// The address of the entry, if it has one, is the stored form of an address that one
/// of the messages reports.
pub open spec fn entry_reported(messages: Seq<AddressMessage>, e: AddrEntry) -> bool {
    e.0 matches Some(x) ==> exists|k: int, ip: IpAddr|
        0 <= k < messages.len() && #[trigger] reports(messages[k], ip) && stands_for(x, ip)
}

/// The entry is a link-local address (`fe80::/10`) with prefix length 64.
pub open spec fn entry_is_link_local_64(e: AddrEntry) -> bool {
    e.0 matches Some(x) && is_link_local_bits(x.bits) && e.1 == Some(64u8)
}

proof fn lemma_last_address_is_reported(attrs: Seq<AddressAttribute>)
    ensures
        last_address(attrs) matches Some(ip) ==> exists|j: int|
            0 <= j < attrs.len() && #[trigger] attrs[j] == AddressAttribute::Address(ip),
        last_local(attrs) matches Some(ip) ==> exists|j: int|
            0 <= j < attrs.len() && #[trigger] attrs[j] == AddressAttribute::Local(ip),
    decreases attrs.len(),
{
    if attrs.len() > 0 {
        let rest = attrs.drop_last();
        lemma_last_address_is_reported(rest);
        if let Some(ip) = last_address(attrs) {
            if attrs.last() == AddressAttribute::Address(ip) {
                assert(attrs[attrs.len() - 1] == AddressAttribute::Address(ip));
            } else {
                let j = choose|j: int|
                    0 <= j < rest.len() && #[trigger] rest[j] == AddressAttribute::Address(ip);
                assert(attrs[j] == AddressAttribute::Address(ip));
            }
        }
        if let Some(ip) = last_local(attrs) {
            if attrs.last() == AddressAttribute::Local(ip) {
                assert(attrs[attrs.len() - 1] == AddressAttribute::Local(ip));
            } else {
                let j = choose|j: int|
                    0 <= j < rest.len() && #[trigger] rest[j] == AddressAttribute::Local(ip);
                assert(attrs[j] == AddressAttribute::Local(ip));
            }
        }
    }
}

proof fn lemma_stored_form(ip: IpAddr)
    ensures
        stands_for(mapped_ip(ip), ip),
{
    match ip {
        IpAddr::V4(v4) => {
            lemma_mapped_bits(v4.bits);
        },
        IpAddr::V6(_) => {},
    }
}

/// The entry is the one that a message that is kept gives to the address column.
spec fn from_kept(messages: Seq<AddressMessage>, e: AddrEntry) -> bool {
    exists|k: int|
        0 <= k < messages.len() && !is_link_local_64(#[trigger] messages[k]) && e == primary_entry(
            message_addr(messages[k]),
        )
}

/// The entry is the one that a message that is kept gives to the peer column.
spec fn peer_from_kept(messages: Seq<AddressMessage>, e: AddrEntry) -> bool {
    exists|k: int|
        0 <= k < messages.len() && !is_link_local_64(#[trigger] messages[k]) && has_peer_entry()(
            message_addr(messages[k]),
        ) && e == peer_entry(message_addr(messages[k]))
}

spec fn kept_message(messages: Seq<AddressMessage>, m: AddressMessage) -> bool {
    exists|k: int|
        0 <= k < messages.len() && !is_link_local_64(#[trigger] messages[k]) && messages[k] == m
}

proof fn lemma_column_sources(messages: Seq<AddressMessage>)
    ensures
        forall|i: int|
            0 <= i < ipv6_column(reported_addresses(messages)).len() ==> from_kept(
                messages,
                #[trigger] ipv6_column(reported_addresses(messages))[i],
            ),
        forall|i: int|
            0 <= i < peer_column(reported_addresses(messages)).len() ==> peer_from_kept(
                messages,
                #[trigger] peer_column(reported_addresses(messages))[i],
            ),
{
    let kept = messages.filter(is_reported());
    let reported = reported_addresses(messages);
    assert forall|j: int| 0 <= j < kept.len() implies kept_message(messages, #[trigger] kept[j]) by {
        messages.lemma_filter_pred(is_reported(), j);
        assert(kept.contains(kept[j]));
        messages.lemma_filter_contains_rev(is_reported(), kept[j]);
        let k = choose|k: int| 0 <= k < messages.len() && messages[k] == kept[j];
        assert(!is_link_local_64(messages[k]));
    }
    assert forall|i: int| 0 <= i < ipv6_column(reported).len() implies from_kept(
        messages,
        #[trigger] ipv6_column(reported)[i],
    ) by {
        assert(kept_message(messages, kept[i]));
        let k = choose|k: int|
            0 <= k < messages.len() && !is_link_local_64(#[trigger] messages[k]) && messages[k]
                == kept[i];
        assert(ipv6_column(reported)[i] == primary_entry(message_addr(messages[k])));
    }
    let with_peer = reported.filter(has_peer_entry());
    assert forall|i: int| 0 <= i < peer_column(reported).len() implies peer_from_kept(
        messages,
        #[trigger] peer_column(reported)[i],
    ) by {
        reported.lemma_filter_pred(has_peer_entry(), i);
        assert(with_peer.contains(with_peer[i]));
        reported.lemma_filter_contains_rev(has_peer_entry(), with_peer[i]);
        let j = choose|j: int| 0 <= j < reported.len() && reported[j] == with_peer[i];
        assert(kept_message(messages, kept[j]));
        let k = choose|k: int|
            0 <= k < messages.len() && !is_link_local_64(#[trigger] messages[k]) && messages[k]
                == kept[j];
        assert(peer_column(reported)[i] == peer_entry(message_addr(messages[k])));
    }
}

/// Every address in the two columns of a collected row is the stored form of an
/// address that one of the messages reports in an `Address` or a `Local` attribute. An
/// IPv6 address is stored as it is; an IPv4 address is stored IPv4-mapped: the upper 80
/// bits zero, the next 16 bits `0xffff`, then the IPv4 address.
pub proof fn lemma_addresses_stand_for_reported(
    messages: Seq<AddressMessage>,
    server_id: Seq<char>,
    interface: Seq<char>,
)
    ensures
        ({
            let row = collected(reported_addresses(messages), server_id, interface);
            &&& forall|i: int|
                0 <= i < row.ipv6.len() ==> entry_reported(messages, #[trigger] row.ipv6[i])
            &&& forall|i: int|
                0 <= i < row.ipv6_peer.len() ==> entry_reported(
                    messages,
                    #[trigger] row.ipv6_peer[i],
                )
        }),
{
    let row = collected(reported_addresses(messages), server_id, interface);
    lemma_column_sources(messages);
    assert forall|k: int, x: Ipv6Addr|
        0 <= k < messages.len() && (message_addr(#[trigger] messages[k]).address.0 == Some(x)
            || message_addr(messages[k]).local.0 == Some(x)) implies #[trigger] entry_reported(
        messages,
        (Some(x), None),
    ) by {
        lemma_last_address_is_reported(messages[k].attributes@);
        if message_addr(messages[k]).address.0 == Some(x) {
            let ip = last_address(messages[k].attributes@)->Some_0;
            lemma_stored_form(ip);
            assert(reports(messages[k], ip) && stands_for(x, ip));
        } else {
            let ip = last_local(messages[k].attributes@)->Some_0;
            lemma_stored_form(ip);
            assert(reports(messages[k], ip) && stands_for(x, ip));
        }
    }
    assert forall|i: int| 0 <= i < row.ipv6.len() implies entry_reported(
        messages,
        #[trigger] row.ipv6[i],
    ) by {
        assert(from_kept(messages, row.ipv6[i]));
        let k = choose|k: int|
            0 <= k < messages.len() && !is_link_local_64(#[trigger] messages[k]) && row.ipv6[i]
                == primary_entry(message_addr(messages[k]));
        if let Some(x) = row.ipv6[i].0 {
            assert(entry_reported(messages, (Some(x), None)));
        }
    }
    assert forall|i: int| 0 <= i < row.ipv6_peer.len() implies entry_reported(
        messages,
        #[trigger] row.ipv6_peer[i],
    ) by {
        assert(peer_from_kept(messages, row.ipv6_peer[i]));
        let k = choose|k: int|
            0 <= k < messages.len() && !is_link_local_64(#[trigger] messages[k])
                && has_peer_entry()(message_addr(messages[k])) && row.ipv6_peer[i] == peer_entry(
                message_addr(messages[k]),
            );
        if let Some(x) = row.ipv6_peer[i].0 {
            assert(entry_reported(messages, (Some(x), None)));
        }
    }
}

/// No column of a collected row holds a link-local address (`fe80::/10`) with prefix
/// length 64.
pub proof fn lemma_no_link_local_64(
    messages: Seq<AddressMessage>,
    server_id: Seq<char>,
    interface: Seq<char>,
)
    ensures
        ({
            let row = collected(reported_addresses(messages), server_id, interface);
            &&& forall|i: int|
                0 <= i < row.ipv6.len() ==> !entry_is_link_local_64(#[trigger] row.ipv6[i])
            &&& forall|i: int|
                0 <= i < row.ipv6_peer.len() ==> !entry_is_link_local_64(
                    #[trigger] row.ipv6_peer[i],
                )
        }),
{
    let row = collected(reported_addresses(messages), server_id, interface);
    lemma_column_sources(messages);
    assert forall|i: int| 0 <= i < row.ipv6.len() implies !entry_is_link_local_64(
        #[trigger] row.ipv6[i],
    ) by {
        assert(from_kept(messages, row.ipv6[i]));
        let k = choose|k: int|
            0 <= k < messages.len() && !is_link_local_64(#[trigger] messages[k]) && row.ipv6[i]
                == primary_entry(message_addr(messages[k]));
        assert(is_reported()(messages[k]));
    }
    assert forall|i: int| 0 <= i < row.ipv6_peer.len() implies !entry_is_link_local_64(
        #[trigger] row.ipv6_peer[i],
    ) by {
        assert(peer_from_kept(messages, row.ipv6_peer[i]));
        let k = choose|k: int|
            0 <= k < messages.len() && !is_link_local_64(#[trigger] messages[k])
                && has_peer_entry()(message_addr(messages[k])) && row.ipv6_peer[i] == peer_entry(
                message_addr(messages[k]),
            );
        assert(is_reported()(messages[k]));
    }
}

/// The rows to insert, to rewrite and to remove so that the store's rows of this server
/// become the fresh ones.
///
/// A fresh row is created when the store has no row of its interface, and rewritten
/// when the store has a row of its interface with other addresses. A stored row is
/// removed when no fresh row is of its interface. Each batch keeps the order of the
/// sequence it was taken from.
pub fn compare(fresh: &Vec<Addr>, db: &Vec<Addr>) -> (r: Updates)
    ensures
        addr_views(r.creates@) == creates_of(addr_views(fresh@), addr_views(db@)),
        addr_views(r.updates@) == updates_of(addr_views(fresh@), addr_views(db@)),
        addr_views(r.deletes@) == deletes_of(addr_views(fresh@), addr_views(db@)),
{
    let mut updates: Vec<Addr> = Vec::new();
    let mut creates: Vec<Addr> = Vec::new();
    let mut deletes: Vec<Addr> = Vec::new();
    let ghost f = addr_views(fresh@);
    let ghost s = addr_views(db@);
    let ghost is_new = |a: AddrView| !has_interface(s, a.interface);
    let ghost is_changed = |a: AddrView| differs_from(a, s);
    let ghost is_gone = |a: AddrView| !has_interface(f, a.interface);

    let mut i: usize = 0;
    while i < fresh.len()
        invariant
            i <= fresh.len(),
            f == addr_views(fresh@),
            s == addr_views(db@),
            is_new == (|a: AddrView| !has_interface(s, a.interface)),
            is_changed == (|a: AddrView| differs_from(a, s)),
            addr_views(creates@) == f.take(i as int).filter(is_new),
            addr_views(updates@) == f.take(i as int).filter(is_changed),
        decreases fresh.len() - i,
    {
        let row = &fresh[i];
        proof {
            assert(f.take(i + 1) == f.take(i as int).push(f[i as int]));
            f.take(i as int).lemma_filter_push(f[i as int], is_new);
            f.take(i as int).lemma_filter_push(f[i as int], is_changed);
        }
        if knows_interface(db, &row.interface) {
            if differs(row, db) {
                let ghost before = updates@;
                updates.push(row.clone());
                assert(addr_views(updates@) == addr_views(before).push(f[i as int]));
            }
            assert(!differs_from(row@, s) ==> !is_changed(f[i as int]));
        } else {
            let ghost before = creates@;
            creates.push(row.clone());
            assert(addr_views(creates@) == addr_views(before).push(f[i as int]));
            assert(!differs_from(row@, s));
        }
        i += 1;
    }
    assert(f.take(fresh.len() as int) == f);

    let mut k: usize = 0;
    while k < db.len()
        invariant
            k <= db.len(),
            f == addr_views(fresh@),
            s == addr_views(db@),
            is_gone == (|a: AddrView| !has_interface(f, a.interface)),
            addr_views(deletes@) == s.take(k as int).filter(is_gone),
        decreases db.len() - k,
    {
        let row = &db[k];
        proof {
            assert(s.take(k + 1) == s.take(k as int).push(s[k as int]));
            s.take(k as int).lemma_filter_push(s[k as int], is_gone);
        }
        if !knows_interface(fresh, &row.interface) {
            let ghost before = deletes@;
            deletes.push(row.clone());
            assert(addr_views(deletes@) == addr_views(before).push(s[k as int]));
        }
        k += 1;
    }
    assert(s.take(db.len() as int) == s);

    Updates { updates, creates, deletes }
}

/// One write to the store.
#[derive(Debug)]
pub enum Batch {
    /// Insert these rows in one bulk insert.
    Insert(Vec<Addr>),
    /// Rewrite the address columns of the stored row of each of these rows.
    Update(Vec<Addr>),
    /// Remove the stored rows of these rows with one statement.
    Delete(Vec<Addr>),
}

/// What a [`Batch`] holds, with its rows as views.
pub enum BatchView {
    Insert(Seq<AddrView>),
    Update(Seq<AddrView>),
    Delete(Seq<AddrView>),
}

impl View for Batch {
    type V = BatchView;

    open spec fn view(&self) -> BatchView {
        match self {
            Batch::Insert(rows) => BatchView::Insert(addr_views(rows@)),
            Batch::Update(rows) => BatchView::Update(addr_views(rows@)),
            Batch::Delete(rows) => BatchView::Delete(addr_views(rows@)),
        }
    }
}

/// The views of a sequence of writes, in order.
pub open spec fn batch_views(s: Seq<Batch>) -> Seq<BatchView> {
    s.map_values(|b: Batch| b@)
}

/// The writes of one tick: first the rows to create, then the rows to rewrite, then
/// the rows to remove, each batch only where it has a row.
pub open spec fn writes_of(
    creates: Seq<AddrView>,
    updates: Seq<AddrView>,
    deletes: Seq<AddrView>,
) -> Seq<BatchView> {
    (if creates.len() > 0 {
        seq![BatchView::Insert(creates)]
    } else {
        Seq::empty()
    }) + (if updates.len() > 0 {
        seq![BatchView::Update(updates)]
    } else {
        Seq::empty()
    }) + (if deletes.len() > 0 {
        seq![BatchView::Delete(deletes)]
    } else {
        Seq::empty()
    })
}

/// The writes of one reconciliation tick, in the order in which they are to be made,
/// from the rows that the host gives now and the rows that the store holds.
///
/// The rows are compared as [`compare`] does. The creates come first, then the
/// updates, then the deletes; a batch without rows is not written.
pub fn check_for_interface_updates(addresses: &Vec<Addr>, db_addrs: &Vec<Addr>) -> (r: Vec<Batch>)
    ensures
        batch_views(r@) == writes_of(
            creates_of(addr_views(addresses@), addr_views(db_addrs@)),
            updates_of(addr_views(addresses@), addr_views(db_addrs@)),
            deletes_of(addr_views(addresses@), addr_views(db_addrs@)),
        ),
{
    let diff = compare(addresses, db_addrs);
    let mut writes: Vec<Batch> = Vec::new();
    if diff.creates.len() > 0 {
        writes.push(Batch::Insert(diff.creates));
    }
    if diff.updates.len() > 0 {
        writes.push(Batch::Update(diff.updates));
    }
    if diff.deletes.len() > 0 {
        writes.push(Batch::Delete(diff.deletes));
    }
    assert(batch_views(writes@) =~= writes_of(
        creates_of(addr_views(addresses@), addr_views(db_addrs@)),
        updates_of(addr_views(addresses@), addr_views(db_addrs@)),
        deletes_of(addr_views(addresses@), addr_views(db_addrs@)),
    ));
    writes
}

/// The store's rows after `rows` are inserted.
pub open spec fn insert_rows(store: Seq<AddrView>, rows: Seq<AddrView>) -> Seq<AddrView> {
    store + rows
}

/// `row` is the row of the store's key `(server_id, interface)` that `by` is about.
pub open spec fn same_key(row: AddrView, by: AddrView) -> bool {
    row.server_id == by.server_id && row.interface == by.interface
}

/// `after` is the store `before` once each of `rows` has rewritten the address columns
/// of the stored rows of its key. Where several of `rows` share a key, any one of them
/// may have been the last to write.
pub open spec fn rewritten_by(before: Seq<AddrView>, rows: Seq<AddrView>, after: Seq<AddrView>) -> bool {
    &&& after.len() == before.len()
    &&& forall|i: int|
        0 <= i < before.len() ==> {
            &&& same_key(#[trigger] after[i], before[i])
            &&& if exists|j: int| 0 <= j < rows.len() && same_key(before[i], #[trigger] rows[j]) {
                exists|j: int|
                    0 <= j < rows.len() && same_key(before[i], #[trigger] rows[j]) && after[i].ipv6
                        == rows[j].ipv6 && after[i].ipv6_peer == rows[j].ipv6_peer
            } else {
                after[i] == before[i]
            }
        }
}

/// The store's rows after the rows of each key of `rows` are removed.
pub open spec fn delete_rows(store: Seq<AddrView>, rows: Seq<AddrView>) -> Seq<AddrView> {
    store.filter(
        |a: AddrView| !(exists|j: int| 0 <= j < rows.len() && same_key(a, #[trigger] rows[j])),
    )
}

/// Rows of one interface hold the same addresses.
pub open spec fn one_row_per_interface(rows: Seq<AddrView>) -> bool {
    forall|i: int, j: int|
        0 <= i < rows.len() && 0 <= j < rows.len() && (#[trigger] rows[i]).interface == (
        #[trigger] rows[j]).interface ==> rows[i].ipv6 == rows[j].ipv6 && rows[i].ipv6_peer
            == rows[j].ipv6_peer
}

proof fn lemma_filter_has_interface(
    rows: Seq<AddrView>,
    pred: spec_fn(AddrView) -> bool,
    interface: Seq<char>,
)
    ensures
        has_interface(rows.filter(pred), interface) <==> exists|i: int|
            0 <= i < rows.len() && (#[trigger] rows[i]).interface == interface && pred(rows[i]),
{
    let kept = rows.filter(pred);
    if has_interface(kept, interface) {
        let k = choose|k: int| 0 <= k < kept.len() && (#[trigger] kept[k]).interface == interface;
        rows.lemma_filter_pred(pred, k);
        assert(kept.contains(kept[k]));
        rows.lemma_filter_contains_rev(pred, kept[k]);
        let i = choose|i: int| 0 <= i < rows.len() && rows[i] == kept[k];
        assert(rows[i].interface == interface && pred(rows[i]));
    }
    if exists|i: int|
        0 <= i < rows.len() && (#[trigger] rows[i]).interface == interface && pred(rows[i]) {
        let i = choose|i: int|
            0 <= i < rows.len() && (#[trigger] rows[i]).interface == interface && pred(rows[i]);
        rows.lemma_filter_contains(pred, i);
        let k = choose|k: int| 0 <= k < kept.len() && kept[k] == rows[i];
        assert(kept[k].interface == interface);
    }
}

/// No interface is in two of the three batches: a created one is neither rewritten nor
/// removed, and a rewritten one is not removed.
pub proof fn lemma_batches_disjoint(fresh: Seq<AddrView>, stored: Seq<AddrView>)
    ensures
        forall|interface: Seq<char>|
            !(has_interface(creates_of(fresh, stored), interface) && has_interface(
                updates_of(fresh, stored),
                interface,
            )),
        forall|interface: Seq<char>|
            !(has_interface(creates_of(fresh, stored), interface) && has_interface(
                deletes_of(fresh, stored),
                interface,
            )),
        forall|interface: Seq<char>|
            !(has_interface(updates_of(fresh, stored), interface) && has_interface(
                deletes_of(fresh, stored),
                interface,
            )),
{
    let is_new = |a: AddrView| !has_interface(stored, a.interface);
    let is_changed = |a: AddrView| differs_from(a, stored);
    let is_gone = |a: AddrView| !has_interface(fresh, a.interface);
    assert forall|interface: Seq<char>|
        !(has_interface(creates_of(fresh, stored), interface) && has_interface(
            updates_of(fresh, stored),
            interface,
        )) by {
        lemma_filter_has_interface(fresh, is_new, interface);
        lemma_filter_has_interface(fresh, is_changed, interface);
    }
    assert forall|interface: Seq<char>|
        !(has_interface(creates_of(fresh, stored), interface) && has_interface(
            deletes_of(fresh, stored),
            interface,
        )) by {
        lemma_filter_has_interface(fresh, is_new, interface);
        lemma_filter_has_interface(stored, is_gone, interface);
    }
    assert forall|interface: Seq<char>|
        !(has_interface(updates_of(fresh, stored), interface) && has_interface(
            deletes_of(fresh, stored),
            interface,
        )) by {
        lemma_filter_has_interface(fresh, is_changed, interface);
        lemma_filter_has_interface(stored, is_gone, interface);
    }
}

/// Once the three batches are applied to the store in their order (insert, rewrite,
/// remove), the store has a row of an interface exactly when the host has that
/// interface.
pub proof fn lemma_replay_interfaces(
    fresh: Seq<AddrView>,
    stored: Seq<AddrView>,
    rewritten: Seq<AddrView>,
)
    requires
        rewritten_by(
            insert_rows(stored, creates_of(fresh, stored)),
            updates_of(fresh, stored),
            rewritten,
        ),
    ensures
        forall|interface: Seq<char>|
            has_interface(delete_rows(rewritten, deletes_of(fresh, stored)), interface)
                <==> has_interface(fresh, interface),
{
    let creates = creates_of(fresh, stored);
    let deletes = deletes_of(fresh, stored);
    let inserted = insert_rows(stored, creates);
    let is_new = |a: AddrView| !has_interface(stored, a.interface);
    let is_gone = |a: AddrView| !has_interface(fresh, a.interface);
    let stays = |a: AddrView|
        !(exists|j: int| 0 <= j < deletes.len() && same_key(a, #[trigger] deletes[j]));
    assert forall|interface: Seq<char>|
        has_interface(delete_rows(rewritten, deletes), interface) <==> has_interface(
            fresh,
            interface,
        ) by {
        lemma_filter_has_interface(rewritten, stays, interface);
        lemma_filter_has_interface(fresh, is_new, interface);
        lemma_filter_has_interface(stored, is_gone, interface);
        if has_interface(delete_rows(rewritten, deletes), interface) {
            let i = choose|i: int|
                0 <= i < rewritten.len() && (#[trigger] rewritten[i]).interface == interface
                    && stays(rewritten[i]);
            assert(same_key(rewritten[i], inserted[i]));
            if i < stored.len() {
                assert(inserted[i] == stored[i]);
                if !has_interface(fresh, interface) {
                    assert(is_gone(stored[i]));
                    assert(has_interface(deletes, interface));
                    stored.lemma_filter_contains(is_gone, i);
                    let j = choose|j: int| 0 <= j < deletes.len() && deletes[j] == stored[i];
                    assert(same_key(rewritten[i], deletes[j]));
                }
            } else {
                assert(inserted[i] == creates[i - stored.len()]);
                assert(has_interface(creates, interface));
            }
        }
        if has_interface(fresh, interface) {
            assert forall|j: int| 0 <= j < deletes.len() implies (#[trigger] deletes[j]).interface
                != interface by {
                lemma_filter_has_interface(stored, is_gone, deletes[j].interface);
            }
            if has_interface(stored, interface) {
                let i = choose|i: int|
                    0 <= i < stored.len() && (#[trigger] stored[i]).interface == interface;
                assert(inserted[i] == stored[i]);
                assert(same_key(rewritten[i], inserted[i]));
                assert(stays(rewritten[i]));
            } else {
                assert(has_interface(creates, interface));
                let k = choose|k: int|
                    0 <= k < creates.len() && (#[trigger] creates[k]).interface == interface;
                let i = stored.len() + k;
                assert(inserted[i] == creates[k]);
                assert(same_key(rewritten[i], inserted[i]));
                assert(stays(rewritten[i]));
            }
        }
    }
}

/// Every row is of the server `server_id`.
pub open spec fn rows_of_server(rows: Seq<AddrView>, server_id: Seq<char>) -> bool {
    forall|i: int| 0 <= i < rows.len() ==> (#[trigger] rows[i]).server_id == server_id
}

/// Some fresh row is of the interface of `row` and holds the addresses of `row`.
pub open spec fn agrees_with(row: AddrView, fresh: Seq<AddrView>) -> bool {
    exists|j: int|
        0 <= j < fresh.len() && (#[trigger] fresh[j]).interface == row.interface && fresh[j].ipv6
            == row.ipv6 && fresh[j].ipv6_peer == row.ipv6_peer
}

/// Once the three batches are applied to the store in their order, every row that the
/// store holds has the addresses that the host gives for its interface, as long as all
/// rows, fresh and stored, are of one server.
pub proof fn lemma_replay_addresses(
    fresh: Seq<AddrView>,
    stored: Seq<AddrView>,
    rewritten: Seq<AddrView>,
    server_id: Seq<char>,
)
    requires
        rows_of_server(fresh, server_id),
        rows_of_server(stored, server_id),
        rewritten_by(
            insert_rows(stored, creates_of(fresh, stored)),
            updates_of(fresh, stored),
            rewritten,
        ),
    ensures
        forall|i: int|
            0 <= i < delete_rows(rewritten, deletes_of(fresh, stored)).len() ==> agrees_with(
                #[trigger] delete_rows(rewritten, deletes_of(fresh, stored))[i],
                fresh,
            ),
{
    let creates = creates_of(fresh, stored);
    let updates = updates_of(fresh, stored);
    let deletes = deletes_of(fresh, stored);
    let inserted = insert_rows(stored, creates);
    let after = delete_rows(rewritten, deletes);
    let is_new = |a: AddrView| !has_interface(stored, a.interface);
    let is_changed = |a: AddrView| differs_from(a, stored);
    let is_gone = |a: AddrView| !has_interface(fresh, a.interface);
    let stays = |a: AddrView|
        !(exists|j: int| 0 <= j < deletes.len() && same_key(a, #[trigger] deletes[j]));
    assert forall|u: int| 0 <= u < updates.len() implies agrees_with(#[trigger] updates[u], fresh) by {
        assert(updates.contains(updates[u]));
        fresh.lemma_filter_contains_rev(is_changed, updates[u]);
        let j = choose|j: int| 0 <= j < fresh.len() && fresh[j] == updates[u];
        assert(fresh[j].interface == updates[u].interface);
    }
    assert forall|c: int| 0 <= c < creates.len() implies agrees_with(#[trigger] creates[c], fresh) by {
        assert(creates.contains(creates[c]));
        fresh.lemma_filter_contains_rev(is_new, creates[c]);
        let j = choose|j: int| 0 <= j < fresh.len() && fresh[j] == creates[c];
        assert(fresh[j].interface == creates[c].interface);
    }
    assert forall|i: int| 0 <= i < after.len() implies agrees_with(#[trigger] after[i], fresh) by {
        rewritten.lemma_filter_pred(stays, i);
        assert(after.contains(after[i]));
        rewritten.lemma_filter_contains_rev(stays, after[i]);
        let k = choose|k: int| 0 <= k < rewritten.len() && rewritten[k] == after[i];
        let y = rewritten[k];
        let x = inserted[k];
        assert(same_key(y, x));
        if exists|j: int| 0 <= j < updates.len() && same_key(x, #[trigger] updates[j]) {
            let j = choose|j: int|
                0 <= j < updates.len() && same_key(x, #[trigger] updates[j]) && y.ipv6
                    == updates[j].ipv6 && y.ipv6_peer == updates[j].ipv6_peer;
            assert(agrees_with(updates[j], fresh));
            let f = choose|f: int|
                0 <= f < fresh.len() && (#[trigger] fresh[f]).interface == updates[j].interface
                    && fresh[f].ipv6 == updates[j].ipv6 && fresh[f].ipv6_peer
                    == updates[j].ipv6_peer;
            assert(fresh[f].interface == y.interface);
        } else {
            assert(y == x);
            if k < stored.len() {
                assert(x == stored[k]);
                if !has_interface(fresh, x.interface) {
                    stored.lemma_filter_contains(is_gone, k);
                    let d = choose|d: int| 0 <= d < deletes.len() && deletes[d] == stored[k];
                    assert(same_key(y, deletes[d]));
                }
                let f = choose|f: int|
                    0 <= f < fresh.len() && (#[trigger] fresh[f]).interface == x.interface;
                if fresh[f].ipv6 != x.ipv6 || fresh[f].ipv6_peer != x.ipv6_peer {
                    assert(differs_from(fresh[f], stored));
                    fresh.lemma_filter_contains(is_changed, f);
                    let u = choose|u: int| 0 <= u < updates.len() && updates[u] == fresh[f];
                    assert(same_key(x, updates[u]));
                }
            } else {
                assert(x == creates[k - stored.len()]);
                assert(agrees_with(creates[k - stored.len()], fresh));
            }
        }
    }
}

/// A store that already holds the fresh rows is left alone: all three batches are
/// empty.
pub proof fn lemma_compare_idempotent(fresh: Seq<AddrView>)
    requires
        one_row_per_interface(fresh),
    ensures
        creates_of(fresh, fresh).len() == 0,
        updates_of(fresh, fresh).len() == 0,
        deletes_of(fresh, fresh).len() == 0,
{
    let is_new = |a: AddrView| !has_interface(fresh, a.interface);
    let is_changed = |a: AddrView| differs_from(a, fresh);
    assert forall|i: int| 0 <= i < fresh.len() implies !is_new(#[trigger] fresh[i]) by {}
    assert forall|i: int| 0 <= i < fresh.len() implies !is_changed(#[trigger] fresh[i]) by {}
    fresh.lemma_all_neg_filter_empty(is_new);
    fresh.lemma_all_neg_filter_empty(is_changed);
}

} // verus!
