use netagent::interface::info::{
    get_filtered_interfaces_names, get_index_by_name, get_interface, get_interface_name_from_attribute,
    get_interface_stats, get_interface_status, get_loopback_from_header, pattern_compiles,
};
use netagent::netlink::{
    LinkAttribute, LinkFlag, LinkHeader, LinkMessage, NetlinkError, Stats64,
};

fn link(index: u32, name: Option<&str>, flags: Vec<LinkFlag>) -> LinkMessage {
    let mut attributes = vec![LinkAttribute::Mtu(1500)];
    if let Some(name) = name {
        attributes.push(LinkAttribute::IfName(name.to_string()));
    }
    attributes.push(LinkAttribute::Other);
    LinkMessage { header: LinkHeader { index, flags }, attributes }
}

fn host_links() -> Vec<LinkMessage> {
    vec![
        link(2, Some("eth0"), vec![LinkFlag::Up, LinkFlag::Other]),
        link(3, Some("wlan0"), vec![LinkFlag::Up]),
        link(1, Some("lo"), vec![LinkFlag::Up, LinkFlag::Loopback]),
    ]
}

fn counters(base: u64) -> Stats64 {
    Stats64 {
        rx_packets: base + 1,
        tx_packets: base + 2,
        rx_bytes: base + 3,
        tx_bytes: base + 4,
        rx_errors: base + 5,
        tx_errors: base + 6,
        rx_dropped: base + 7,
        tx_dropped: base + 8,
    }
}

#[test]
fn pattern_and_wildcard_select_eth0_and_wlan0() {
    let rules = vec![Some("^eth.*".to_string()), None];
    let names = get_filtered_interfaces_names(&host_links(), &rules);
    assert_eq!(names, vec!["eth0".to_string(), "wlan0".to_string()]);
}

#[test]
fn no_rule_selects_every_non_loopback() {
    let names = get_filtered_interfaces_names(&host_links(), &vec![]);
    assert_eq!(names, vec!["eth0".to_string(), "wlan0".to_string()]);
}

#[test]
fn single_wildcard_selects_every_non_loopback() {
    let names = get_filtered_interfaces_names(&host_links(), &vec![None]);
    assert_eq!(names, vec!["eth0".to_string(), "wlan0".to_string()]);
}

#[test]
fn pattern_alone_selects_only_what_it_matches() {
    let rules = vec![Some("^eth.*".to_string())];
    let names = get_filtered_interfaces_names(&host_links(), &rules);
    assert_eq!(names, vec!["eth0".to_string()]);
}

#[test]
fn pattern_matches_anywhere_in_the_name() {
    let rules = vec![Some("an".to_string())];
    let names = get_filtered_interfaces_names(&host_links(), &rules);
    assert_eq!(names, vec!["wlan0".to_string()]);
}

#[test]
fn pattern_never_selects_a_loopback() {
    let rules = vec![Some("^lo$".to_string()), Some(".*".to_string())];
    let names = get_filtered_interfaces_names(&host_links(), &rules);
    assert_eq!(names, vec!["eth0".to_string(), "wlan0".to_string()]);
}

#[test]
fn pattern_that_does_not_compile_matches_nothing() {
    let rules = vec![Some("(".to_string())];
    let names = get_filtered_interfaces_names(&host_links(), &rules);
    assert_eq!(names, Vec::<String>::new());
}

#[test]
fn pattern_that_does_not_compile_leaves_the_others_standing() {
    let rules = vec![Some("[".to_string()), Some("^wlan".to_string())];
    let names = get_filtered_interfaces_names(&host_links(), &rules);
    assert_eq!(names, vec!["wlan0".to_string()]);
}

#[test]
fn link_without_a_name_is_not_selected() {
    let links = vec![link(7, None, vec![LinkFlag::Up]), link(8, Some("eth1"), vec![])];
    let names = get_filtered_interfaces_names(&links, &vec![None]);
    assert_eq!(names, vec!["eth1".to_string()]);
}

#[test]
fn selection_keeps_the_order_of_the_links() {
    let links = vec![
        link(4, Some("eth2"), vec![]),
        link(2, Some("eth0"), vec![]),
        link(3, Some("eth1"), vec![]),
    ];
    let names = get_filtered_interfaces_names(&links, &vec![Some("eth".to_string())]);
    assert_eq!(names, vec!["eth2".to_string(), "eth0".to_string(), "eth1".to_string()]);
}

#[test]
fn no_links_select_nothing() {
    let names = get_filtered_interfaces_names(&vec![], &vec![None]);
    assert!(names.is_empty());
}

#[test]
fn first_interface_name_wins() {
    let attributes = vec![
        LinkAttribute::Other,
        LinkAttribute::IfName("first".to_string()),
        LinkAttribute::IfName("second".to_string()),
    ];
    assert_eq!(get_interface_name_from_attribute(attributes), Some("first".to_string()));
    assert_eq!(get_interface_name_from_attribute(vec![]), None);
}

#[test]
fn loopback_is_read_from_any_place_among_the_flags() {
    let header = LinkHeader { index: 1, flags: vec![LinkFlag::Up, LinkFlag::Other, LinkFlag::Loopback] };
    assert!(get_loopback_from_header(header));
    assert!(!get_loopback_from_header(LinkHeader { index: 1, flags: vec![] }));
}

#[test]
fn missing_link_is_a_failed_request() {
    assert_eq!(get_interface(Ok(None)).err(), Some(NetlinkError::RequestFailed));
    assert_eq!(get_index_by_name(Ok(None)), Err(NetlinkError::RequestFailed));
    assert_eq!(get_interface_status(Ok(None)), Err(NetlinkError::RequestFailed));
    assert_eq!(get_interface_stats(Ok(None)).err(), Some(NetlinkError::RequestFailed));
}

#[test]
fn error_of_the_request_is_handed_on() {
    let failure = || Err(NetlinkError::Other("no buffer space".to_string()));
    assert_eq!(get_interface(failure()).err(), Some(NetlinkError::Other("no buffer space".to_string())));
    assert_eq!(get_index_by_name(failure()), Err(NetlinkError::Other("no buffer space".to_string())));
    assert_eq!(get_interface_status(failure()), Err(NetlinkError::Other("no buffer space".to_string())));
    assert_eq!(
        get_interface_stats(failure()).err(),
        Some(NetlinkError::Other("no buffer space".to_string()))
    );
}

#[test]
fn answered_link_is_returned_with_its_index_and_status() {
    let found = get_interface(Ok(Some(link(5, Some("eth0"), vec![LinkFlag::Up])))).unwrap();
    assert_eq!(found.header.index, 5);
    assert_eq!(found.attributes.len(), 3);
    assert_eq!(get_index_by_name(Ok(Some(link(5, Some("eth0"), vec![LinkFlag::Up])))), Ok(5));
    assert_eq!(get_interface_status(Ok(Some(link(5, Some("eth0"), vec![LinkFlag::Up])))), Ok(true));
    assert_eq!(
        get_interface_status(Ok(Some(link(5, Some("eth0"), vec![LinkFlag::Loopback])))),
        Ok(false)
    );
}

#[test]
fn counters_are_the_first_ones_under_the_name_of_the_link() {
    let message = LinkMessage {
        header: LinkHeader { index: 2, flags: vec![LinkFlag::Up] },
        attributes: vec![
            LinkAttribute::Mtu(1500),
            LinkAttribute::IfName("eth0".to_string()),
            LinkAttribute::Stats64(counters(100)),
            LinkAttribute::IfName("late".to_string()),
            LinkAttribute::Stats64(counters(900)),
        ],
    };
    let stats = get_interface_stats(Ok(Some(message))).unwrap();
    assert_eq!(stats.int_name, "eth0");
    assert_eq!(stats.rx_packets, 101);
    assert_eq!(stats.tx_packets, 102);
    assert_eq!(stats.rx_bytes, 103);
    assert_eq!(stats.tx_bytes, 104);
    assert_eq!(stats.rx_error, 105);
    assert_eq!(stats.tx_error, 106);
    assert_eq!(stats.rx_dropped, 107);
    assert_eq!(stats.tx_dropped, 108);
}

#[test]
fn counters_before_the_name_are_under_the_name() {
    let message = LinkMessage {
        header: LinkHeader { index: 2, flags: vec![] },
        attributes: vec![
            LinkAttribute::Stats64(Stats64 {
                rx_bytes: 2000,
                tx_bytes: 3000,
                rx_packets: 200,
                tx_packets: 300,
                rx_dropped: 20,
                tx_dropped: 30,
                rx_errors: 2,
                tx_errors: 3,
            }),
            LinkAttribute::IfName("eth0".to_string()),
        ],
    };
    let stats = get_interface_stats(Ok(Some(message))).unwrap();
    assert_eq!(stats.int_name, "eth0");
    assert_eq!(stats.tx_packets, 300);
    assert_eq!(stats.rx_packets, 200);
    assert_eq!(stats.tx_bytes, 3000);
    assert_eq!(stats.rx_bytes, 2000);
    assert_eq!(stats.tx_dropped, 30);
    assert_eq!(stats.rx_dropped, 20);
    assert_eq!(stats.tx_error, 3);
    assert_eq!(stats.rx_error, 2);
}

#[test]
fn counters_of_a_link_without_a_name_have_the_empty_name() {
    let message = LinkMessage {
        header: LinkHeader { index: 2, flags: vec![] },
        attributes: vec![LinkAttribute::Mtu(1500), LinkAttribute::Stats64(counters(0))],
    };
    let stats = get_interface_stats(Ok(Some(message))).unwrap();
    assert_eq!(stats.int_name, "");
    assert_eq!(stats.rx_bytes, 3);
}

#[test]
fn link_without_counters_is_a_failed_request() {
    let result = get_interface_stats(Ok(Some(link(2, Some("eth0"), vec![LinkFlag::Up]))));
    assert_eq!(result.err(), Some(NetlinkError::RequestFailed));
}

#[test]
fn patterns_compile_or_not() {
    assert!(pattern_compiles("^eth.*"));
    assert!(pattern_compiles(""));
    assert!(pattern_compiles("wlan[0-9]+"));
    assert!(!pattern_compiles("("));
    assert!(!pattern_compiles("[a-"));
    assert!(!pattern_compiles("*"));
}

#[test]
fn tick_constants() {
    assert_eq!(netagent::interface::get_address::RECONCILE_INTERVAL_SECS, 5);
    assert_eq!(netagent::interface::get_address::MAX_CONCURRENT_REQUESTS, 10);
    assert_eq!(netagent::interface::get_stats::SAMPLE_INTERVAL_SECS, 1);
    assert_eq!(netagent::interface::get_stats::REFRESH_INTERVAL_SECS, 60);
    assert_eq!(netagent::interface::get_stats::MAX_CONCURRENT_POLLS, 10);
}
