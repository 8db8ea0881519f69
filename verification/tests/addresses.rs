use netagent::db::schema::Addr;
use netagent::interface::get_address::{get_addresses, get_interface_addresses};
use netagent::interface::info::get_interface_address;
use netagent::net::address::{is_ipv6_link_local, IpAddr, Ipv4Addr, Ipv6Addr};
use netagent::netlink::{AddressAttribute, AddressHeader, AddressMessage, NetlinkError};

fn v6(a: u16, b: u16, c: u16, d: u16, e: u16, f: u16, g: u16, h: u16) -> IpAddr {
    IpAddr::V6(Ipv6Addr::new(a, b, c, d, e, f, g, h))
}

fn message(prefix_len: u8, attributes: Vec<AddressAttribute>) -> AddressMessage {
    AddressMessage { header: AddressHeader { prefix_len }, attributes }
}

fn is_mapped(addr: &Ipv6Addr) -> bool {
    addr.bits >> 32 == 0xffff
}

#[test]
fn segments_make_the_bits() {
    assert_eq!(
        Ipv6Addr::new(0x2001, 0x0db8, 0, 0, 0, 0, 0, 1).bits,
        0x2001_0db8_0000_0000_0000_0000_0000_0001
    );
    assert_eq!(
        Ipv6Addr::new(0x0102, 0x0304, 0x0506, 0x0708, 0x090a, 0x0b0c, 0x0d0e, 0x0f10).bits,
        0x0102_0304_0506_0708_090a_0b0c_0d0e_0f10
    );
    assert_eq!(Ipv4Addr::new(192, 0, 2, 1).bits, 0xc000_0201);
}

#[test]
fn ipv4_is_mapped_under_ffff() {
    let mapped = Ipv4Addr::new(192, 0, 2, 1).to_ipv6_mapped();
    assert_eq!(mapped, Ipv6Addr::new(0, 0, 0, 0, 0, 0xffff, 0xc000, 0x0201));
    assert_eq!(mapped.bits, 0x0000_0000_0000_0000_0000_ffff_c000_0201);
    assert_eq!(Ipv4Addr::new(0, 0, 0, 0).to_ipv6_mapped().bits, 0xffff_0000_0000);
    assert_eq!(Ipv4Addr::new(255, 255, 255, 255).to_ipv6_mapped().bits, 0xffff_ffff_ffff);
    assert_eq!(IpAddr::V4(Ipv4Addr::new(10, 0, 0, 1)).to_ipv6().bits, 0xffff_0a00_0001);
    assert_eq!(v6(0x2001, 0xdb8, 0, 0, 0, 0, 0, 2).to_ipv6(), Ipv6Addr::new(0x2001, 0xdb8, 0, 0, 0, 0, 0, 2));
}

#[test]
fn link_local_is_the_range_fe80_slash_10() {
    assert!(is_ipv6_link_local(&Ipv6Addr::new(0xfe80, 0, 0, 0, 0, 0, 0, 1)));
    assert!(is_ipv6_link_local(&Ipv6Addr::new(0xfebf, 0xffff, 0, 0, 0, 0, 0, 0)));
    assert!(!is_ipv6_link_local(&Ipv6Addr::new(0xfec0, 0, 0, 0, 0, 0, 0, 1)));
    assert!(!is_ipv6_link_local(&Ipv6Addr::new(0xfe7f, 0, 0, 0, 0, 0, 0, 1)));
    assert!(!is_ipv6_link_local(&Ipv6Addr::new(0x2001, 0xdb8, 0, 0, 0, 0, 0, 1)));
    assert!(!is_ipv6_link_local(&Ipv4Addr::new(254, 128, 0, 1).to_ipv6_mapped()));
}

#[test]
fn link_local_with_prefix_64_is_left_out() {
    let messages = vec![
        message(64, vec![AddressAttribute::Address(v6(0xfe80, 0, 0, 0, 0, 0, 0, 1))]),
        message(48, vec![AddressAttribute::Address(v6(0x2001, 0xdb8, 0, 0, 0, 0, 0, 0))]),
    ];
    let addr = get_addresses(Ok(messages), "eth0".to_string(), "srv").unwrap();
    assert_eq!(addr.server_id, "srv");
    assert_eq!(addr.interface, "eth0");
    assert_eq!(addr.ipv6, vec![(Some(Ipv6Addr::new(0x2001, 0xdb8, 0, 0, 0, 0, 0, 0)), Some(48))]);
    assert_eq!(addr.ipv6_peer, vec![]);
}

#[test]
fn link_local_with_another_prefix_is_kept() {
    let messages = vec![message(10, vec![AddressAttribute::Address(v6(0xfe80, 0, 0, 0, 0, 0, 0, 1))])];
    let reported = get_interface_address(Ok(messages)).unwrap();
    assert_eq!(reported.len(), 1);
    assert_eq!(reported[0].address, (Some(Ipv6Addr::new(0xfe80, 0, 0, 0, 0, 0, 0, 1)), Some(10)));
    assert_eq!(reported[0].local, (None, Some(10)));
}

#[test]
fn link_local_host_end_with_prefix_64_is_left_out() {
    let messages = vec![
        message(64, vec![AddressAttribute::Local(v6(0xfe80, 0, 0, 0, 0, 0, 0, 9))]),
        message(
            64,
            vec![
                AddressAttribute::Address(v6(0x2001, 0xdb8, 0, 0, 0, 0, 0, 1)),
                AddressAttribute::Local(v6(0xfe80, 0, 0, 0, 0, 0, 0, 2)),
            ],
        ),
        message(
            64,
            vec![
                AddressAttribute::Address(v6(0xfe80, 0, 0, 0, 0, 0, 0, 3)),
                AddressAttribute::Local(v6(0x2001, 0xdb8, 0, 0, 0, 0, 0, 4)),
            ],
        ),
        message(64, vec![AddressAttribute::Local(v6(0x2001, 0xdb8, 0, 0, 0, 0, 0, 5))]),
    ];
    let addr = get_addresses(Ok(messages), "eth0".to_string(), "srv").unwrap();
    assert_eq!(addr.ipv6, vec![(Some(Ipv6Addr::new(0x2001, 0xdb8, 0, 0, 0, 0, 0, 5)), Some(64))]);
    assert_eq!(addr.ipv6_peer, vec![]);

    let only_local = vec![message(64, vec![AddressAttribute::Local(v6(0xfe80, 0, 0, 0, 0, 0, 0, 1))])];
    assert_eq!(
        get_addresses(Ok(only_local), "eth0".to_string(), "srv").err(),
        Some(NetlinkError::RequestFailed)
    );
}

#[test]
fn no_row_holds_a_link_local_address_with_prefix_64() {
    let ends = [
        None,
        Some(v6(0xfe80, 0, 0, 0, 0, 0, 0, 1)),
        Some(v6(0xfebf, 0, 0, 0, 0, 0, 0, 2)),
        Some(v6(0x2001, 0xdb8, 0, 0, 0, 0, 0, 3)),
        Some(IpAddr::V4(Ipv4Addr::new(10, 0, 0, 1))),
    ];
    let mut messages = vec![];
    for prefix in [64u8, 63, 128] {
        for address in ends {
            for local in ends {
                let mut attributes = vec![];
                if let Some(ip) = address {
                    attributes.push(AddressAttribute::Address(ip));
                }
                if let Some(ip) = local {
                    attributes.push(AddressAttribute::Local(ip));
                }
                messages.push(message(prefix, attributes));
            }
        }
    }
    let addr = get_addresses(Ok(messages), "eth0".to_string(), "srv").unwrap();
    // with prefix 64 only the nine messages without a link-local end are kept
    assert_eq!(addr.ipv6.len(), 9 + 25 + 25);
    for (ip, prefix) in addr.ipv6.iter().chain(addr.ipv6_peer.iter()) {
        if let Some(ip) = ip {
            assert!(!(is_ipv6_link_local(ip) && *prefix == Some(64)));
        }
    }
}

#[test]
fn no_address_left_is_a_failed_request() {
    let only_link_local =
        vec![message(64, vec![AddressAttribute::Address(v6(0xfe80, 0, 0, 0, 0, 0, 0, 1))])];
    assert_eq!(get_interface_address(Ok(only_link_local)).err(), Some(NetlinkError::RequestFailed));
    assert_eq!(get_interface_address(Ok(vec![])).err(), Some(NetlinkError::RequestFailed));
    assert_eq!(
        get_addresses(Ok(vec![]), "eth0".to_string(), "srv").err(),
        Some(NetlinkError::RequestFailed)
    );
}

#[test]
fn failed_address_request_becomes_request_failed() {
    let failure = || Err(NetlinkError::Other("interrupted".to_string()));
    assert_eq!(get_interface_address(failure()).err(), Some(NetlinkError::RequestFailed));
    assert_eq!(
        get_addresses(failure(), "eth0".to_string(), "srv").err(),
        Some(NetlinkError::RequestFailed)
    );
}

#[test]
fn last_attribute_of_a_kind_wins() {
    let messages = vec![message(
        64,
        vec![
            AddressAttribute::Address(v6(0x2001, 0xdb8, 0, 0, 0, 0, 0, 1)),
            AddressAttribute::Other,
            AddressAttribute::Local(v6(0x2001, 0xdb8, 0, 0, 0, 0, 0, 3)),
            AddressAttribute::Address(v6(0x2001, 0xdb8, 0, 0, 0, 0, 0, 2)),
        ],
    )];
    let reported = get_interface_address(Ok(messages)).unwrap();
    assert_eq!(reported[0].address, (Some(Ipv6Addr::new(0x2001, 0xdb8, 0, 0, 0, 0, 0, 2)), Some(64)));
    assert_eq!(reported[0].local, (Some(Ipv6Addr::new(0x2001, 0xdb8, 0, 0, 0, 0, 0, 3)), Some(64)));
}

#[test]
fn ipv4_addresses_are_stored_mapped() {
    let messages = vec![message(
        24,
        vec![
            AddressAttribute::Address(IpAddr::V4(Ipv4Addr::new(10, 0, 0, 2))),
            AddressAttribute::Local(IpAddr::V4(Ipv4Addr::new(10, 0, 0, 1))),
        ],
    )];
    let addr = get_addresses(Ok(messages), "tun0".to_string(), "srv").unwrap();
    assert_eq!(addr.ipv6, vec![(Some(Ipv6Addr::new(0, 0, 0, 0, 0, 0xffff, 0x0a00, 0x0001)), Some(24))]);
    assert_eq!(
        addr.ipv6_peer,
        vec![(Some(Ipv6Addr::new(0, 0, 0, 0, 0, 0xffff, 0x0a00, 0x0002)), Some(24))]
    );
    for (ip, _) in addr.ipv6.iter().chain(addr.ipv6_peer.iter()) {
        assert!(is_mapped(&ip.unwrap()));
    }
}

#[test]
fn columns_follow_the_two_ends() {
    let a = v6(0x2001, 0xdb8, 0, 0, 0, 0, 0, 0xa);
    let b = v6(0x2001, 0xdb8, 0, 0, 0, 0, 0, 0xb);
    let messages = vec![
        // both ends known and different: the host's end, and the peer in the peer column
        message(64, vec![AddressAttribute::Address(a), AddressAttribute::Local(b)]),
        // both ends known and equal: one entry, no peer
        message(64, vec![AddressAttribute::Address(a), AddressAttribute::Local(a)]),
        // only the host's end
        message(56, vec![AddressAttribute::Local(b)]),
        // only the peer's end
        message(48, vec![AddressAttribute::Address(a)]),
        // neither: an empty entry in both columns
        message(32, vec![AddressAttribute::Other]),
    ];
    let addr = get_addresses(Ok(messages), "eth0".to_string(), "srv").unwrap();
    let a6 = Ipv6Addr::new(0x2001, 0xdb8, 0, 0, 0, 0, 0, 0xa);
    let b6 = Ipv6Addr::new(0x2001, 0xdb8, 0, 0, 0, 0, 0, 0xb);
    assert_eq!(
        addr.ipv6,
        vec![
            (Some(b6), Some(64)),
            (Some(a6), Some(64)),
            (Some(b6), Some(56)),
            (Some(a6), Some(48)),
            (None, None),
        ]
    );
    assert_eq!(addr.ipv6_peer, vec![(Some(a6), Some(64)), (None, None)]);
    assert!(addr.ipv6_peer.len() <= addr.ipv6.len());
}

#[test]
fn collected_rows_are_returned_when_there_is_one() {
    let row = |name: &str| Addr {
        server_id: "srv".to_string(),
        interface: name.to_string(),
        ipv6: vec![(Some(Ipv6Addr::new(0x2001, 0xdb8, 0, 0, 0, 0, 0, 1)), Some(64))],
        ipv6_peer: vec![],
    };
    let results = vec![
        Err(NetlinkError::Other("first".to_string())),
        Ok(row("eth0")),
        Err(NetlinkError::RequestFailed),
        Ok(row("eth1")),
    ];
    let rows = get_interface_addresses(&results).unwrap();
    assert_eq!(rows, vec![row("eth0"), row("eth1")]);
}

#[test]
fn first_error_is_returned_when_nothing_was_collected() {
    let results: Vec<Result<Addr, NetlinkError>> =
        vec![Err(NetlinkError::Other("first".to_string())), Err(NetlinkError::RequestFailed)];
    assert_eq!(get_interface_addresses(&results), Err(NetlinkError::Other("first".to_string())));
    let results: Vec<Result<Addr, NetlinkError>> =
        vec![Err(NetlinkError::RequestFailed), Err(NetlinkError::Other("second".to_string()))];
    assert_eq!(get_interface_addresses(&results), Err(NetlinkError::RequestFailed));
}

#[test]
fn no_interface_tried_is_a_failed_request() {
    assert_eq!(get_interface_addresses(&vec![]), Err(NetlinkError::RequestFailed));
}
