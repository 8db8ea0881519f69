//! Counter samples, the cache of each interface's previous sample, and the rows of
//! growth between two samples.

use crate::db::schema::{stat_views, Stat, StatView};
use crate::interface::info::interface::StatsView;
use crate::interface::info::{get_interface_stats, requested_stats};
use crate::netlink::{LinkMessage, NetlinkError};
use vstd::prelude::*;

verus! {

/// The seconds between two sample ticks.
pub const SAMPLE_INTERVAL_SECS: u64 = 1;

/// The seconds between two refresh ticks, on which the interfaces are listed anew.
pub const REFRESH_INTERVAL_SECS: u64 = 60;

/// The number of interfaces that are polled at one time, at most.
pub const MAX_CONCURRENT_POLLS: usize = 10;

/// The previous sample of each interface, by the interface's name.
///
/// No two entries are of one interface.
pub struct PreviousSampleCache {
    entries: Vec<Stat>,
}

/// Some entry is of the interface.
pub open spec fn has_entry(entries: Seq<Stat>, interface: Seq<char>) -> bool {
    exists|i: int| 0 <= i < entries.len() && (#[trigger] entries[i]).interface@ == interface
}

/// The place of an entry of the interface.
pub open spec fn entry_index(entries: Seq<Stat>, interface: Seq<char>) -> int {
    choose|i: int| 0 <= i < entries.len() && (#[trigger] entries[i]).interface@ == interface
}

/// No two entries are of one interface.
pub open spec fn distinct_interfaces(entries: Seq<Stat>) -> bool {
    forall|i: int, j: int|
        0 <= i < entries.len() && 0 <= j < entries.len() && i != j ==> (#[trigger] entries[i]).interface@
            != (#[trigger] entries[j]).interface@
}

impl View for PreviousSampleCache {
    type V = Map<Seq<char>, StatView>;

    closed spec fn view(&self) -> Map<Seq<char>, StatView> {
        Map::new(
            |interface: Seq<char>| has_entry(self.entries@, interface),
            |interface: Seq<char>| self.entries@[entry_index(self.entries@, interface)]@,
        )
    }
}

impl PreviousSampleCache {
    /// No two entries are of one interface. Every cache that this module hands out
    /// is well formed, and no other can be made.
    pub closed spec fn wf(&self) -> bool {
        distinct_interfaces(self.entries@)
    }

    /// A cache without samples.
    pub fn new() -> (r: Self)
        ensures
            r.wf(),
            r@ == Map::<Seq<char>, StatView>::empty(),
    {
        let r = PreviousSampleCache { entries: Vec::new() };
        assert(r@ =~= Map::<Seq<char>, StatView>::empty());
        r
    }

    fn position(&self, interface: &String) -> (r: Option<usize>)
        ensures
            match r {
                Some(i) => i < self.entries@.len() && self.entries@[i as int].interface@
                    == interface@,
                None => !has_entry(self.entries@, interface@),
            },
    {
        let mut i: usize = 0;
        while i < self.entries.len()
            invariant
                i <= self.entries.len(),
                forall|j: int| 0 <= j < i ==> (#[trigger] self.entries@[j]).interface@ != interface@,
            decreases self.entries.len() - i,
        {
            if self.entries[i].interface == *interface {
                return Some(i);
            }
            i += 1;
        }
        None
    }

    /// The previous sample of the interface, if there is one.
    pub fn get(&self, interface: &String) -> (r: Option<&Stat>)
        requires
            self.wf(),
        ensures
            match r {
                Some(stat) => self@.contains_key(interface@) && stat@ == self@[interface@],
                None => !self@.contains_key(interface@),
            },
    {
        match self.position(interface) {
            Some(i) => {
                assert(has_entry(self.entries@, interface@));
                assert(entry_index(self.entries@, interface@) == i);
                Some(&self.entries[i])
            },
            None => None,
        }
    }

    /// Makes `stat` the previous sample of its interface, in place of the one that was.
    pub fn insert(&mut self, stat: Stat)
        requires
            old(self).wf(),
        ensures
            final(self).wf(),
            final(self)@ == old(self)@.insert(stat.interface@, stat@),
    {
        let ghost before = self.entries@;
        let ghost name = stat.interface@;
        let ghost sample = stat@;
        match self.position(&stat.interface) {
            Some(i) => {
                self.entries.set(i, stat);
                assert(distinct_interfaces(self.entries@));
            },
            None => {
                self.entries.push(stat);
                assert(distinct_interfaces(self.entries@));
            },
        }
        proof {
            let after = self.entries@;
            assert forall|interface: Seq<char>|
                has_entry(after, interface) <==> (interface == name || has_entry(
                    before,
                    interface,
                )) by {
                if has_entry(after, interface) {
                    let k = entry_index(after, interface);
                    if after[k].interface@ != name {
                        assert(before[k].interface@ == interface);
                    }
                }
                if has_entry(before, interface) {
                    let k = entry_index(before, interface);
                    if interface != name {
                        assert(after[k].interface@ == interface);
                    }
                }
                if interface == name {
                    if has_entry(before, name) {
                        let k = entry_index(before, name);
                        assert(after[k].interface@ == name);
                    } else {
                        assert(after[after.len() - 1].interface@ == name);
                    }
                }
            }
            assert forall|interface: Seq<char>| has_entry(after, interface) implies after[entry_index(
                after,
                interface,
            )]@ == (if interface == name {
                sample
            } else {
                before[entry_index(before, interface)]@
            }) by {
                let k = entry_index(after, interface);
                if interface != name {
                    let b = entry_index(before, interface);
                    assert(after[b].interface@ == interface);
                    assert(k == b);
                }
            }
            assert(self@ =~= old(self)@.insert(name, sample));
        }
    }
}

/// No counter of `cur` is below its value in `prev`.
pub open spec fn grew(prev: StatView, cur: StatView) -> bool {
    &&& prev.rx <= cur.rx
    &&& prev.tx <= cur.tx
    &&& prev.rx_p <= cur.rx_p
    &&& prev.tx_p <= cur.tx_p
    &&& prev.rx_d <= cur.rx_d
    &&& prev.tx_d <= cur.tx_d
    &&& prev.rx_e <= cur.rx_e
    &&& prev.tx_e <= cur.tx_e
}

/// The row of growth from the sample `prev` to the sample `cur` of one interface: each
/// counter of `cur` less that of `prev`, under the server, interface and time of `cur`.
pub open spec fn growth(prev: StatView, cur: StatView) -> StatView {
    StatView {
        server_id: cur.server_id,
        interface: cur.interface,
        timestamp: cur.timestamp,
        rx: (cur.rx - prev.rx) as u64,
        tx: (cur.tx - prev.tx) as u64,
        rx_p: (cur.rx_p - prev.rx_p) as u64,
        tx_p: (cur.tx_p - prev.tx_p) as u64,
        rx_d: (cur.rx_d - prev.rx_d) as u64,
        tx_d: (cur.tx_d - prev.tx_d) as u64,
        rx_e: (cur.rx_e - prev.rx_e) as u64,
        tx_e: (cur.tx_e - prev.tx_e) as u64,
    }
}

/// The cache once each of the samples, in their order, has become the previous sample
/// of its interface.
pub open spec fn cache_after(cache: Map<Seq<char>, StatView>, samples: Seq<StatView>) -> Map<
    Seq<char>,
    StatView,
>
    decreases samples.len(),
{
    if samples.len() == 0 {
        cache
    } else {
        cache_after(cache, samples.drop_last()).insert(samples.last().interface, samples.last())
    }
}

/// The rows of growth that the samples give, in their order, against a cache that each
/// sample enters in its turn.
///
/// A sample gives a row where the cache holds a previous sample of its interface and no
/// counter has fallen since. It gives none where the interface is seen for the first
/// time, nor where a counter has fallen: the counters were reset, and the growth over
/// that interval is not known.
pub open spec fn rows_of(cache: Map<Seq<char>, StatView>, samples: Seq<StatView>) -> Seq<StatView>
    decreases samples.len(),
{
    if samples.len() == 0 {
        Seq::empty()
    } else {
        let before = cache_after(cache, samples.drop_last());
        let earlier = rows_of(cache, samples.drop_last());
        let cur = samples.last();
        if before.contains_key(cur.interface) && grew(before[cur.interface], cur) {
            earlier.push(growth(before[cur.interface], cur))
        } else {
            earlier
        }
    }
}

/// The low 32 bits of a count of seconds.
pub open spec fn low_32(seconds: u64) -> u32 {
    seconds as u32
}

/// The sample that the counters `c` make at the time `timestamp` on the server
/// `server_id`.
pub open spec fn sample_of(c: StatsView, server_id: Seq<char>, timestamp: u32) -> StatView {
    StatView {
        server_id,
        interface: c.int_name,
        timestamp,
        rx: c.rx_bytes,
        tx: c.tx_bytes,
        rx_p: c.rx_packets,
        tx_p: c.tx_packets,
        rx_d: c.rx_dropped,
        tx_d: c.tx_dropped,
        rx_e: c.rx_error,
        tx_e: c.tx_error,
    }
}

/// What one poll of an interface brought: the answer to the request for its link, and
/// the seconds since the epoch, where the clock gave them.
#[derive(Debug)]
pub struct Poll {
    pub response: Result<Option<LinkMessage>, NetlinkError>,
    pub since_the_epoch: Option<u64>,
}

/// The sample that a poll gives on the server `server_id`, if it gives one: the link
/// must have counters and the clock must have given a time.
pub open spec fn polled_sample(server_id: Seq<char>) -> spec_fn(Poll) -> Option<StatView> {
    |poll: Poll|
        match (requested_stats(poll.response), poll.since_the_epoch) {
            (Some(c), Some(seconds)) => Some(sample_of(c, server_id, low_32(seconds))),
            _ => None,
        }
}

/// The view of an optional sample.
pub open spec fn option_stat_view(o: Option<Stat>) -> Option<StatView> {
    match o {
        Some(stat) => Some(stat@),
        None => None,
    }
}

/// The sample of one interface, from the answer to a request for its link and from the
/// seconds since the epoch, where the clock gave them.
///
/// There is a sample where the link has counters and the clock gave a time. Its
/// timestamp is the low 32 bits of the seconds.
pub fn get_stats(
    response: Result<Option<LinkMessage>, NetlinkError>,
    since_the_epoch: Option<u64>,
    server_id: &str,
) -> (r: Option<Stat>)
    ensures
        option_stat_view(r) == polled_sample(server_id@)((Poll { response, since_the_epoch })),
{
    let stats = get_interface_stats(response);
    match (stats, since_the_epoch) {
        (Ok(stat), Some(timestamp)) => Some(
            Stat {
                server_id: server_id.to_owned(),
                interface: stat.int_name,
                timestamp: #[verifier::truncate]
                (timestamp as u32),
                rx: stat.rx_bytes,
                tx: stat.tx_bytes,
                rx_p: stat.rx_packets,
                tx_p: stat.tx_packets,
                rx_d: stat.rx_dropped,
                tx_d: stat.tx_dropped,
                rx_e: stat.rx_error,
                tx_e: stat.tx_error,
            },
        ),
        _ => None,
    }
}

/// The samples of one tick, from the polls of the watched interfaces: those of the
/// polls that give one, in the order of the polls.
pub fn filter_interfaces(polls: Vec<Poll>, server_id: &str) -> (r: Vec<Stat>)
    ensures
        stat_views(r@) == polls@.filter_map(polled_sample(server_id@)),
{
    let mut stats: Vec<Stat> = Vec::new();
    let ghost all = polls@;
    for poll in it: polls
        invariant
            it.seq() == all,
            stat_views(stats@) == all.take(it.index() as int).filter_map(polled_sample(server_id@)),
    {
        let ghost before = stats@;
        proof {
            all.lemma_filter_map_take_succ(polled_sample(server_id@), it.index() as int);
        }
        match get_stats(poll.response, poll.since_the_epoch, server_id) {
            Some(stat) => {
                stats.push(stat);
                assert(stat_views(stats@) == stat_views(before).push(stat@));
            },
            None => {},
        }
    }
    assert(all.take(all.len() as int) == all);
    stats
}

fn counters_grew(prev: &Stat, cur: &Stat) -> (r: bool)
    ensures
        r == grew(prev@, cur@),
{
    prev.rx <= cur.rx && prev.tx <= cur.tx && prev.rx_p <= cur.rx_p && prev.tx_p <= cur.tx_p
        && prev.rx_d <= cur.rx_d && prev.tx_d <= cur.tx_d && prev.rx_e <= cur.rx_e && prev.tx_e
        <= cur.tx_e
}

/// The rows of growth of one tick, against the cache of previous samples.
///
/// The samples are taken in their order. A sample gives a row where the cache holds a
/// previous sample of its interface and no counter has fallen since: each counter of
/// the row is the sample's less the previous one's. Each sample then becomes the
/// previous sample of its interface, whether it gave a row or not.
pub fn save_stat(last_stats: &mut PreviousSampleCache, stats: Vec<Stat>) -> (r: Option<Vec<Stat>>)
    requires
        old(last_stats).wf(),
    ensures
        final(last_stats).wf(),
        final(last_stats)@ == cache_after(old(last_stats)@, stat_views(stats@)),
        r matches Some(rows) && stat_views(rows@) == rows_of(
            old(last_stats)@,
            stat_views(stats@),
        ),
{
    let mut final_stats: Vec<Stat> = Vec::new();
    let ghost initial = last_stats@;
    let ghost samples = stat_views(stats@);
    let mut i: usize = 0;
    while i < stats.len()
        invariant
            i <= stats.len(),
            samples == stat_views(stats@),
            last_stats.wf(),
            last_stats@ == cache_after(initial, samples.take(i as int)),
            stat_views(final_stats@) == rows_of(initial, samples.take(i as int)),
        decreases stats.len() - i,
    {
        let curr_stat = &stats[i];
        let ghost before = final_stats@;
        proof {
            assert(samples.take(i + 1).drop_last() == samples.take(i as int));
            assert(samples.take(i + 1).last() == curr_stat@);
        }
        match last_stats.get(&curr_stat.interface) {
            Some(old_data) => {
                if counters_grew(old_data, curr_stat) {
                    let row = Stat {
                        server_id: curr_stat.server_id.clone(),
                        interface: curr_stat.interface.clone(),
                        timestamp: curr_stat.timestamp,
                        tx_p: curr_stat.tx_p - old_data.tx_p,
                        rx_p: curr_stat.rx_p - old_data.rx_p,
                        tx: curr_stat.tx - old_data.tx,
                        rx: curr_stat.rx - old_data.rx,
                        tx_d: curr_stat.tx_d - old_data.tx_d,
                        rx_d: curr_stat.rx_d - old_data.rx_d,
                        tx_e: curr_stat.tx_e - old_data.tx_e,
                        rx_e: curr_stat.rx_e - old_data.rx_e,
                    };
                    assert(row@ == growth(old_data@, curr_stat@));
                    final_stats.push(row);
                    assert(stat_views(final_stats@) == stat_views(before).push(row@));
                }
            },
            None => {},
        }
        last_stats.insert(curr_stat.clone());
        i += 1;
    }
    assert(samples.take(stats.len() as int) == samples);
    Some(final_stats)
}

/// The state of the sampling task: the names of the interfaces to poll, and the
/// previous sample of each interface.
pub struct Sampler {
    pub interfaces: Vec<String>,
    pub last_stats: PreviousSampleCache,
}

/// What the sampling task is told: the polls of a sample tick, or the outcome of
/// listing the interfaces anew on a refresh tick.
#[derive(Debug)]
pub enum SamplerEvent {
    Polled(Vec<Poll>),
    Refreshed(Result<Vec<String>, NetlinkError>),
}

impl Sampler {
    /// The state at the start of the task, from the outcome of the first listing of the
    /// interfaces: no previous samples yet. Without a first listing the task cannot
    /// start.
    pub fn new(listed: Result<Vec<String>, NetlinkError>) -> (r: Result<Sampler, NetlinkError>)
        ensures
            match listed {
                Ok(names) => r matches Ok(sampler) && sampler.interfaces == names
                    && sampler.last_stats.wf() && sampler.last_stats@ == Map::<
                    Seq<char>,
                    StatView,
                >::empty(),
                Err(e) => r == Err::<Sampler, NetlinkError>(e),
            },
    {
        match listed {
            Ok(names) => Ok(Sampler { interfaces: names, last_stats: PreviousSampleCache::new() }),
            Err(e) => Err(e),
        }
    }
}

/// One step of the sampling task: what becomes of its state on an event, and the rows
/// to write to the store, if any are to be written.
///
/// On the polls of a sample tick, while there are interfaces to poll, the samples that
/// the polls give are taken against the cache as [`save_stat`] does, and the rows of
/// growth are to be written (also where there are none). With no interface to poll
/// nothing happens. On a refresh, a listing that succeeded with at least one name
/// replaces the names; any other outcome leaves them. The cache outlives a refresh.
pub fn save_stats_every_second(sampler: &mut Sampler, event: SamplerEvent, server_id: &str) -> (r:
    Option<Vec<Stat>>)
    requires
        old(sampler).last_stats.wf(),
    ensures
        final(sampler).last_stats.wf(),
        match event {
            SamplerEvent::Polled(polls) => if old(sampler).interfaces@.len() == 0 {
                r is None && *final(sampler) == *old(sampler)
            } else {
                let samples = polls@.filter_map(polled_sample(server_id@));
                &&& final(sampler).interfaces == old(sampler).interfaces
                &&& final(sampler).last_stats@ == cache_after(old(sampler).last_stats@, samples)
                &&& r matches Some(rows) && stat_views(rows@) == rows_of(
                    old(sampler).last_stats@,
                    samples,
                )
            },
            SamplerEvent::Refreshed(listed) => {
                &&& r is None
                &&& final(sampler).last_stats == old(sampler).last_stats
                &&& final(sampler).interfaces == match listed {
                    Ok(names) if names@.len() > 0 => names,
                    _ => old(sampler).interfaces,
                }
            },
        },
{
    match event {
        SamplerEvent::Polled(polls) => {
            if sampler.interfaces.len() == 0 {
                None
            } else {
                let stats_result = filter_interfaces(polls, server_id);
                save_stat(&mut sampler.last_stats, stats_result)
            }
        },
        SamplerEvent::Refreshed(listed) => {
            match listed {
                Ok(new_interfaces) => {
                    if new_interfaces.len() > 0 {
                        sampler.interfaces = new_interfaces;
                    }
                },
                Err(_) => {},
            }
            None
        },
    }
}

} // verus!
