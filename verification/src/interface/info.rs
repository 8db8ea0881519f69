//! Reading link and address messages: names, flags, counters, addresses, and the
//! choice of the interfaces to watch.

use crate::interface::info::interface::{InterfaceAddr, Stats, StatsView};
use crate::net::address::{
    is_ipv6_link_local, is_link_local_bits, mapped_ip, IpAddr, Ipv6Addr,
};
use crate::netlink::{
    AddressAttribute, AddressMessage, LinkAttribute, LinkFlag, LinkHeader, LinkMessage,
    NetlinkError, Stats64,
};
use crate::views::{option_view, string_views};
use vstd::prelude::*;

pub mod interface;

verus! {

/// The name that the first `IfName` attribute gives, if there is one.
pub open spec fn interface_name(attrs: Seq<LinkAttribute>) -> Option<Seq<char>>
    decreases attrs.len(),
{
    if attrs.len() == 0 {
        None
    } else {
        match attrs[0] {
            LinkAttribute::IfName(name) => Some(name@),
            _ => interface_name(attrs.drop_first()),
        }
    }
}

/// The name of a link with these attributes, empty where they give none.
pub open spec fn name_of(attrs: Seq<LinkAttribute>) -> Seq<char> {
    match interface_name(attrs) {
        Some(name) => name,
        None => Seq::empty(),
    }
}

/// What the first `Stats64` attribute holds, if there is one.
pub open spec fn first_counters(attrs: Seq<LinkAttribute>) -> Option<Stats64>
    decreases attrs.len(),
{
    if attrs.len() == 0 {
        None
    } else {
        match attrs[0] {
            LinkAttribute::Stats64(c) => Some(c),
            _ => first_counters(attrs.drop_first()),
        }
    }
}

/// The counters `c` under the name `name`.
pub open spec fn stats_of(name: Seq<char>, c: Stats64) -> StatsView {
    StatsView {
        int_name: name,
        tx_packets: c.tx_packets,
        rx_packets: c.rx_packets,
        tx_bytes: c.tx_bytes,
        rx_bytes: c.rx_bytes,
        tx_dropped: c.tx_dropped,
        rx_dropped: c.rx_dropped,
        tx_error: c.tx_errors,
        rx_error: c.rx_errors,
    }
}

/// The counters that the attributes of a link give: those of the first `Stats64`
/// attribute, under the name of the link, wherever among the attributes the name
/// stands (the empty name if the attributes give none).
pub open spec fn link_stats(attrs: Seq<LinkAttribute>) -> Option<StatsView> {
    match first_counters(attrs) {
        Some(c) => Some(stats_of(name_of(attrs), c)),
        None => None,
    }
}

/// The link that a request for one link by name was answered with: a missing link
/// counts as a failed request.
pub open spec fn requested_link(response: Result<Option<LinkMessage>, NetlinkError>) -> Result<
    LinkMessage,
    NetlinkError,
> {
    match response {
        Ok(Some(link)) => Ok(link),
        Ok(None) => Err(NetlinkError::RequestFailed),
        Err(e) => Err(e),
    }
}

/// The counters of the link that a request for one link by name was answered with, if
/// it was answered with a link that has counters.
pub open spec fn requested_stats(response: Result<Option<LinkMessage>, NetlinkError>) -> Option<
    StatsView,
> {
    match requested_link(response) {
        Ok(link) => link_stats(link.attributes@),
        Err(_) => None,
    }
}

/// What the last `Address` attribute holds, if there is one.
pub open spec fn last_address(attrs: Seq<AddressAttribute>) -> Option<IpAddr>
    decreases attrs.len(),
{
    if attrs.len() == 0 {
        None
    } else {
        match attrs.last() {
            AddressAttribute::Address(ip) => Some(ip),
            _ => last_address(attrs.drop_last()),
        }
    }
}

/// What the last `Local` attribute holds, if there is one.
pub open spec fn last_local(attrs: Seq<AddressAttribute>) -> Option<IpAddr>
    decreases attrs.len(),
{
    if attrs.len() == 0 {
        None
    } else {
        match attrs.last() {
            AddressAttribute::Local(ip) => Some(ip),
            _ => last_local(attrs.drop_last()),
        }
    }
}

/// The IPv6 form of an optional address of either family.
pub open spec fn mapped_option(ip: Option<IpAddr>) -> Option<Ipv6Addr> {
    match ip {
        Some(ip) => Some(mapped_ip(ip)),
        None => None,
    }
}

/// The address of an interface that a message reports: both ends in IPv6 form, each
/// with the prefix length of the message.
pub open spec fn message_addr(m: AddressMessage) -> InterfaceAddr {
    InterfaceAddr {
        address: (mapped_option(last_address(m.attributes@)), Some(m.header.prefix_len)),
        local: (mapped_option(last_local(m.attributes@)), Some(m.header.prefix_len)),
    }
}

/// The address, in its IPv6 form, lies in `fe80::/10`.
pub open spec fn is_link_local_ip(ip: Option<IpAddr>) -> bool {
    ip matches Some(ip) && is_link_local_bits(mapped_ip(ip).bits)
}

/// The message is left out: its prefix length is 64 and its `Address` or its `Local`,
/// in IPv6 form, is link-local.
pub open spec fn is_link_local_64(m: AddressMessage) -> bool {
    &&& m.header.prefix_len == 64
    &&& (is_link_local_ip(last_address(m.attributes@)) || is_link_local_ip(
        last_local(m.attributes@),
    ))
}

/// The test by which a message is kept.
pub open spec fn is_reported() -> spec_fn(AddressMessage) -> bool {
    |m: AddressMessage| !is_link_local_64(m)
}

/// The addresses of the messages that are kept, in the order of the messages.
pub open spec fn reported_addresses(messages: Seq<AddressMessage>) -> Seq<InterfaceAddr> {
    messages.filter(is_reported()).map_values(|m: AddressMessage| message_addr(m))
}

/// Whether `Regex::new` of the crate `regex` accepts the pattern.
pub uninterp spec fn regex_compiles(pattern: Seq<char>) -> bool;

/// Whether the regular expression that `Regex::new` of the crate `regex` makes of the
/// pattern matches somewhere in the text, as `Regex::is_match` tells.
pub uninterp spec fn regex_is_match(pattern: Seq<char>, text: Seq<char>) -> bool;

/// The rule lets an interface of this name in: a rule without a pattern lets every name
/// in, and a pattern that does not compile lets none in.
pub open spec fn rule_selects(rule: Option<String>, name: Seq<char>) -> bool {
    match rule {
        None => true,
        Some(pattern) => regex_compiles(pattern@) && regex_is_match(pattern@, name),
    }
}

/// The rules let an interface of this name in: there is no rule at all, or one of them
/// lets it in.
pub open spec fn rules_select(rules: Seq<Option<String>>, name: Seq<char>) -> bool {
    rules.len() == 0 || exists|i: int| 0 <= i < rules.len() && rule_selects(#[trigger] rules[i], name)
}

/// The link has the flag.
pub open spec fn has_flag(header: LinkHeader, flag: LinkFlag) -> bool {
    header.flags@.contains(flag)
}

/// The link is watched under the rules: it has a name, is no loopback, and the rules
/// let its name in.
pub open spec fn link_selected(link: LinkMessage, rules: Seq<Option<String>>) -> bool {
    &&& interface_name(link.attributes@) matches Some(name)
    &&& !has_flag(link.header, LinkFlag::Loopback)
    &&& rules_select(rules, name)
}

/// The test by which a link is watched under the rules.
pub open spec fn is_selected(rules: Seq<Option<String>>) -> spec_fn(LinkMessage) -> bool {
    |link: LinkMessage| link_selected(link, rules)
}

/// The name of a link, empty where it has none.
pub open spec fn name_or_empty() -> spec_fn(LinkMessage) -> Seq<char> {
    |link: LinkMessage| name_of(link.attributes@)
}

/// The names of the links that are watched under the rules, in the order of the links.
pub open spec fn selected_names(links: Seq<LinkMessage>, rules: Seq<Option<String>>) -> Seq<
    Seq<char>,
> {
    links.filter(is_selected(rules)).map_values(name_or_empty())
}

/// Compiles the pattern with `regex::Regex::new` and asks `regex::Regex::is_match`
/// whether it matches somewhere in the name. Nothing is returned where the pattern
/// does not compile. Both answers depend on the two texts alone.
#[verifier::external_body]
fn pattern_matches(pattern: &str, name: &str) -> (r: Option<bool>)
    ensures
        r == if regex_compiles(pattern@) {
            Some(regex_is_match(pattern@, name@))
        } else {
            None::<bool>
        },
{
    match regex::Regex::new(pattern) {
        Ok(re) => Some(re.is_match(name)),
        Err(_) => None,
    }
}

/// Whether the pattern of a rule compiles. A pattern that does not matches no name.
pub fn pattern_compiles(pattern: &str) -> (r: bool)
    ensures
        r == regex_compiles(pattern@),
{
    pattern_matches(pattern, "").is_some()
}

fn interface_name_of(attrs: &Vec<LinkAttribute>) -> (r: Option<String>)
    ensures
        option_view(r) == interface_name(attrs@),
{
    let mut i: usize = 0;
    assert(attrs@.skip(0) == attrs@);
    while i < attrs.len()
        invariant
            i <= attrs.len(),
            interface_name(attrs@) == interface_name(attrs@.skip(i as int)),
        decreases attrs.len() - i,
    {
        assert(attrs@.skip(i as int)[0] == attrs@[i as int]);
        assert(attrs@.skip(i as int).drop_first() == attrs@.skip(i + 1));
        match &attrs[i] {
            LinkAttribute::IfName(name) => {
                return Some(name.clone());
            },
            _ => {},
        }
        i += 1;
    }
    None
}

fn flag_set(header: &LinkHeader, flag: LinkFlag) -> (r: bool)
    ensures
        r == has_flag(*header, flag),
{
    let mut i: usize = 0;
    while i < header.flags.len()
        invariant
            i <= header.flags.len(),
            forall|j: int| 0 <= j < i ==> header.flags@[j] != flag,
        decreases header.flags.len() - i,
    {
        if header.flags[i] == flag {
            return true;
        }
        i += 1;
    }
    false
}

fn rules_let_in(rules: &Vec<Option<String>>, name: &String) -> (r: bool)
    ensures
        r == rules_select(rules@, name@),
{
    if rules.len() == 0 {
        return true;
    }
    let mut i: usize = 0;
    while i < rules.len()
        invariant
            i <= rules.len(),
            forall|j: int| 0 <= j < i ==> !rule_selects(#[trigger] rules@[j], name@),
        decreases rules.len() - i,
    {
        match &rules[i] {
            None => {
                return true;
            },
            Some(pattern) => {
                match pattern_matches(pattern.as_str(), name.as_str()) {
                    Some(true) => {
                        return true;
                    },
                    _ => {},
                }
            },
        }
        i += 1;
    }
    false
}

/// The names of the interfaces to watch among the links that the kernel lists.
///
/// A link is watched when it has a name, is no loopback, and the rules let its name in:
/// there is no rule, or a rule without a pattern, or a pattern that matches the name. A
/// pattern that does not compile matches no name. The names come in the order of the
/// links.
pub fn get_filtered_interfaces_names(links: &Vec<LinkMessage>, rules: &Vec<Option<String>>) -> (r:
    Vec<String>)
    ensures
        string_views(r@) == selected_names(links@, rules@),
{
    let mut names: Vec<String> = Vec::new();
    let mut i: usize = 0;
    while i < links.len()
        invariant
            i <= links.len(),
            string_views(names@) == selected_names(links@.take(i as int), rules@),
        decreases links.len() - i,
    {
        let link = &links[i];
        let ghost before = names@;
        proof {
            assert(links@.take(i + 1) == links@.take(i as int).push(links@[i as int]));
            links@.take(i as int).lemma_filter_push(links@[i as int], is_selected(rules@));
        }
        if let Some(name) = interface_name_of(&link.attributes) {
            if !flag_set(&link.header, LinkFlag::Loopback) && rules_let_in(rules, &name) {
                names.push(name);
                assert(string_views(names@) == string_views(before).push(name@));
                assert(links@.take(i as int).filter(is_selected(rules@)).push(
                    links@[i as int],
                ).map_values(name_or_empty()) == selected_names(links@.take(i as int), rules@).push(
                    name@,
                ));
            }
        }
        i += 1;
    }
    assert(links@.take(links.len() as int) == links@);
    names
}

/// The name of the interface that the attributes of a link message give: that of the
/// first `IfName` attribute, if there is one.
pub fn get_interface_name_from_attribute(attr: Vec<LinkAttribute>) -> (r: Option<String>)
    ensures
        option_view(r) == interface_name(attr@),
{
    interface_name_of(&attr)
}

/// Whether the link is a loopback: its flags hold `Loopback`.
pub fn get_loopback_from_header(header: LinkHeader) -> (r: bool)
    ensures
        r == has_flag(header, LinkFlag::Loopback),
{
    flag_set(&header, LinkFlag::Loopback)
}

/// The link that a request for one link by name was answered with. An answer without
/// a link is a failed request; an error of the request is handed on.
pub fn get_interface(response: Result<Option<LinkMessage>, NetlinkError>) -> (r: Result<
    LinkMessage,
    NetlinkError,
>)
    ensures
        r == requested_link(response),
{
    match response {
        Ok(Some(link)) => Ok(link),
        Ok(None) => Err(NetlinkError::RequestFailed),
        Err(e) => Err(e),
    }
}

/// The index of the link that a request for one link by name was answered with.
pub fn get_index_by_name(response: Result<Option<LinkMessage>, NetlinkError>) -> (r: Result<
    u32,
    NetlinkError,
>)
    ensures
        r == match requested_link(response) {
            Ok(link) => Ok::<u32, NetlinkError>(link.header.index),
            Err(e) => Err(e),
        },
{
    match get_interface(response) {
        Ok(link) => Ok(link.header.index),
        Err(e) => Err(e),
    }
}

/// Whether the link that a request for one link by name was answered with is up: its
/// flags hold `Up`.
pub fn get_interface_status(response: Result<Option<LinkMessage>, NetlinkError>) -> (r: Result<
    bool,
    NetlinkError,
>)
    ensures
        r == match requested_link(response) {
            Ok(link) => Ok::<bool, NetlinkError>(has_flag(link.header, LinkFlag::Up)),
            Err(e) => Err(e),
        },
{
    match get_interface(response) {
        Ok(link) => Ok(flag_set(&link.header, LinkFlag::Up)),
        Err(e) => Err(e),
    }
}

/// The counters of the link that a request for one link by name was answered with.
///
/// They are those of the first `Stats64` attribute, under the name of the link, which
/// is read as [`get_interface_name_from_attribute`] reads it, wherever it stands among
/// the attributes (the empty name if there is none). A link without a `Stats64`
/// attribute is a failed request; an error of the request is handed on.
pub fn get_interface_stats(response: Result<Option<LinkMessage>, NetlinkError>) -> (r: Result<
    Stats,
    NetlinkError,
>)
    ensures
        match requested_link(response) {
            Ok(link) => match link_stats(link.attributes@) {
                Some(counters) => r matches Ok(stats) && stats@ == counters,
                None => r matches Err(e) && e is RequestFailed,
            },
            Err(e) => r == Err::<Stats, NetlinkError>(e),
        },
{
    let link = match get_interface(response) {
        Ok(link) => link,
        Err(e) => {
            return Err(e);
        },
    };
    let int_name = match interface_name_of(&link.attributes) {
        Some(name) => name,
        None => String::new(),
    };
    let mut i: usize = 0;
    assert(link.attributes@.skip(0) == link.attributes@);
    while i < link.attributes.len()
        invariant
            i <= link.attributes.len(),
            requested_link(response) == Ok::<LinkMessage, NetlinkError>(link),
            int_name@ == name_of(link.attributes@),
            first_counters(link.attributes@) == first_counters(link.attributes@.skip(i as int)),
        decreases link.attributes.len() - i,
    {
        assert(link.attributes@.skip(i as int)[0] == link.attributes@[i as int]);
        assert(link.attributes@.skip(i as int).drop_first() == link.attributes@.skip(i + 1));
        match &link.attributes[i] {
            LinkAttribute::Stats64(status) => {
                return Ok(
                    Stats {
                        int_name,
                        tx_packets: status.tx_packets,
                        rx_packets: status.rx_packets,
                        tx_bytes: status.tx_bytes,
                        rx_bytes: status.rx_bytes,
                        tx_dropped: status.tx_dropped,
                        rx_dropped: status.rx_dropped,
                        tx_error: status.tx_errors,
                        rx_error: status.rx_errors,
                    },
                );
            },
            _ => {},
        }
        i += 1;
    }
    Err(NetlinkError::RequestFailed)
}

fn last_addresses(attrs: &Vec<AddressAttribute>) -> (r: (Option<IpAddr>, Option<IpAddr>))
    ensures
        r.0 == last_address(attrs@),
        r.1 == last_local(attrs@),
{
    let mut address: Option<IpAddr> = None;
    let mut local: Option<IpAddr> = None;
    let mut i: usize = 0;
    while i < attrs.len()
        invariant
            i <= attrs.len(),
            address == last_address(attrs@.take(i as int)),
            local == last_local(attrs@.take(i as int)),
        decreases attrs.len() - i,
    {
        assert(attrs@.take(i + 1).drop_last() == attrs@.take(i as int));
        assert(attrs@.take(i + 1).last() == attrs@[i as int]);
        match attrs[i] {
            AddressAttribute::Address(ip) => {
                address = Some(ip);
            },
            AddressAttribute::Local(ip) => {
                local = Some(ip);
            },
            AddressAttribute::Other => {},
        }
        i += 1;
    }
    assert(attrs@.take(attrs.len() as int) == attrs@);
    (address, local)
}

fn to_ipv6_option(ip: Option<IpAddr>) -> (r: Option<Ipv6Addr>)
    ensures
        r == mapped_option(ip),
{
    match ip {
        Some(ip) => Some(ip.to_ipv6()),
        None => None,
    }
}

/// The addresses of an interface, from the answer to a request for the addresses of
/// its link.
///
/// Each message gives one entry: the last `Address` and the last `Local` attribute, an
/// IPv4 address in its IPv4-mapped form, each with the prefix length of the message. A
/// message with prefix length 64 whose `Address` or `Local` is link-local (`fe80::/10`)
/// gives no entry. Where no entry is left, or the request itself failed, the result is
/// `RequestFailed`.
pub fn get_interface_address(response: Result<Vec<AddressMessage>, NetlinkError>) -> (r: Result<
    Vec<InterfaceAddr>,
    NetlinkError,
>)
    ensures
        r is Ok <==> (response matches Ok(messages) && reported_addresses(messages@).len() > 0),
        r matches Ok(addresses) ==> addresses@ == reported_addresses(response->Ok_0@),
        r matches Err(e) ==> e is RequestFailed,
{
    let messages = match response {
        Ok(messages) => messages,
        Err(_) => {
            return Err(NetlinkError::RequestFailed);
        },
    };
    let mut int_addresses: Vec<InterfaceAddr> = Vec::new();
    let mut i: usize = 0;
    while i < messages.len()
        invariant
            i <= messages.len(),
            int_addresses@ == reported_addresses(messages@.take(i as int)),
        decreases messages.len() - i,
    {
        let message = &messages[i];
        let ghost before = int_addresses@;
        proof {
            assert(messages@.take(i + 1) == messages@.take(i as int).push(messages@[i as int]));
            messages@.take(i as int).lemma_filter_push(messages@[i as int], is_reported());
        }
        let (address, local) = last_addresses(&message.attributes);
        let address_mapped = to_ipv6_option(address);
        let local_mapped = to_ipv6_option(local);
        let address_is_link_local = match address_mapped {
            Some(addr) => is_ipv6_link_local(&addr),
            None => false,
        };
        let local_is_link_local = match local_mapped {
            Some(addr) => is_ipv6_link_local(&addr),
            None => false,
        };
        if !((address_is_link_local || local_is_link_local) && message.header.prefix_len == 64) {
            int_addresses.push(
                InterfaceAddr {
                    address: (address_mapped, Some(message.header.prefix_len)),
                    local: (local_mapped, Some(message.header.prefix_len)),
                },
            );
            assert(messages@.take(i as int).filter(is_reported()).push(
                messages@[i as int],
            ).map_values(|m: AddressMessage| message_addr(m)) == reported_addresses(
                messages@.take(i as int),
            ).push(message_addr(messages@[i as int])));
        }
        i += 1;
    }
    assert(messages@.take(messages.len() as int) == messages@);
    if int_addresses.len() > 0 {
        Ok(int_addresses)
    } else {
        Err(NetlinkError::RequestFailed)
    }
}

/// The test by which a link has a name and is no loopback.
pub open spec fn is_named_non_loopback() -> spec_fn(LinkMessage) -> bool {
    |link: LinkMessage|
        interface_name(link.attributes@) is Some && !has_flag(link.header, LinkFlag::Loopback)
}

/// With no rule at all, or with a rule without a pattern among the rules, the
/// interfaces that are watched are exactly the named links that are no loopback.
pub proof fn lemma_wildcard_selects_non_loopback(
    links: Seq<LinkMessage>,
    rules: Seq<Option<String>>,
)
    requires
        rules.len() == 0 || exists|i: int| 0 <= i < rules.len() && #[trigger] rules[i] is None,
    ensures
        selected_names(links, rules) == links.filter(is_named_non_loopback()).map_values(
            name_or_empty(),
        ),
{
    assert forall|link: LinkMessage|
        #[trigger] is_selected(rules)(link) == is_named_non_loopback()(link) by {
        if let Some(name) = interface_name(link.attributes@) {
            if rules.len() > 0 {
                let i = choose|i: int| 0 <= i < rules.len() && #[trigger] rules[i] is None;
                assert(rule_selects(rules[i], name));
            }
        }
    }
    assert(is_selected(rules) =~= is_named_non_loopback());
}

} // verus!
