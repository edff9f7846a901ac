//! The store of the statistics of every host of a session: one entry for
//! each host address, made when the session starts and only written in
//! place afterwards.

use crate::addr::HostAddr;
use crate::app::{addrs_of, Host};
use crate::http_stats::text_opt;
use crate::stats::{AppMode, Stats, StatsModel};
use crate::timing::{duration_nanos, nanos_opt};
use std::collections::HashMap;
use std::hash::Hash;
use std::time::Duration;
use vstd::prelude::*;
use vstd::std_specs::hash::obeys_key_model;

verus! {

/// The store after the outcome of an echo probe for `ip` came in: the
/// entry of `ip` takes it in, if there is one and it holds echo statistics;
/// nothing else changes.
pub open spec fn with_ping(
    store: Map<HostAddr, StatsModel>,
    ip: HostAddr,
    outcome: Option<nat>,
) -> Map<HostAddr, StatsModel> {
    if store.contains_key(ip) && store[ip] is Ping {
        store.insert(ip, StatsModel::Ping(store[ip]->Ping_0.after(outcome)))
    } else {
        store
    }
}

/// The store after the outcome of an HTTP probe for `ip` came in: the entry
/// of `ip` takes it in, if there is one and it holds HTTP statistics;
/// nothing else changes.
pub open spec fn with_http(
    store: Map<HostAddr, StatsModel>,
    ip: HostAddr,
    status_code: Option<u16>,
    response_time: nat,
    content_size: Option<u64>,
    error: Option<Seq<char>>,
) -> Map<HostAddr, StatsModel> {
    if store.contains_key(ip) && store[ip] is Http {
        store.insert(
            ip,
            StatsModel::Http(
                store[ip]->Http_0.after(status_code, response_time, content_size, error),
            ),
        )
    } else {
        store
    }
}

/// Whether the entry of `ip`, if it is of the kind that counts probes of
/// the given mode, can count one more.
pub open spec fn has_room(store: Map<HostAddr, StatsModel>, ip: HostAddr) -> bool {
    store.contains_key(ip) ==> match store[ip] {
        StatsModel::Ping(p) => p.packets_sent < u64::MAX,
        StatsModel::Http(h) => h.requests_sent < u64::MAX,
    }
}

/// The statistics of the hosts of one address family as mathematical
/// values.
pub open spec fn models<K>(entries: Map<K, Stats>) -> Map<K, StatsModel> {
    entries.map_values(|s: Stats| s@)
}

/// Whether every entry is well formed.
pub open spec fn all_wf<K>(entries: Map<K, Stats>) -> bool {
    forall|k: K| entries.contains_key(k) ==> (#[trigger] entries[k]).wf()
}

/// The entries of the two address families as one map by host address.
pub open spec fn by_address(
    v4: Map<u32, StatsModel>,
    v6: Map<u128, StatsModel>,
) -> Map<HostAddr, StatsModel> {
    Map::new(
        |a: HostAddr|
            match a {
                HostAddr::V4(k) => v4.contains_key(k),
                HostAddr::V6(k) => v6.contains_key(k),
            },
        |a: HostAddr|
            match a {
                HostAddr::V4(k) => v4[k],
                HostAddr::V6(k) => v6[k],
            },
    )
}

/// The statistics of every host of a session, by host address: a hash map
/// for each address family, keyed by the bits of the address.
#[derive(Clone, Debug)]
pub struct StatsStore {
    v4: HashMap<u32, Stats>,
    v6: HashMap<u128, Stats>,
}

impl View for StatsStore {
    type V = Map<HostAddr, StatsModel>;

    closed spec fn view(&self) -> Map<HostAddr, StatsModel> {
        by_address(models(self.v4@), models(self.v6@))
    }
}

/// Puts the statistics of a host that no probe was sent to, of the kind of
/// `mode`, under `key`.
fn put_fresh<K: Eq + Hash + Copy>(entries: &mut HashMap<K, Stats>, key: K, mode: AppMode)
    requires
        obeys_key_model::<K>(),
        all_wf(old(entries)@),
    ensures
        all_wf(final(entries)@),
        models(final(entries)@) == models(old(entries)@).insert(key, StatsModel::initial(mode)),
{
    entries.insert(key, Stats::new(mode));
    assert(models(entries@) =~= models(old(entries)@).insert(key, StatsModel::initial(mode)));
}

/// The statistics under `key`, if there are any.
fn entry_of<K: Eq + Hash + Copy>(entries: &HashMap<K, Stats>, key: K) -> (found: Option<&Stats>)
    requires
        obeys_key_model::<K>(),
        all_wf(entries@),
    ensures
        match found {
            Some(stats) => entries@.contains_key(key) && stats@ == models(entries@)[key]
                && stats.wf(),
            None => !entries@.contains_key(key),
        },
{
    entries.get(&key)
}

/// Takes the outcome of an echo probe into the statistics under `key`, if
/// there are echo statistics under it.
fn record_ping_in<K: Eq + Hash + Copy>(
    entries: &mut HashMap<K, Stats>,
    key: K,
    latency: Option<Duration>,
)
    requires
        obeys_key_model::<K>(),
        all_wf(old(entries)@),
        old(entries)@.contains_key(key) ==> (old(entries)@[key]@ matches StatsModel::Ping(p)
            ==> p.packets_sent < u64::MAX),
    ensures
        all_wf(final(entries)@),
        models(final(entries)@) == (if old(entries)@.contains_key(key) && old(
            entries,
        )@[key]@ is Ping {
            models(old(entries)@).insert(
                key,
                StatsModel::Ping(old(entries)@[key]@->Ping_0.after(nanos_opt(latency))),
            )
        } else {
            models(old(entries)@)
        }),
{
    match entries.remove(&key) {
        Some(Stats::Ping(mut host_stats)) => {
            host_stats.update(latency);
            entries.insert(key, Stats::Ping(host_stats));
        },
        Some(other) => {
            entries.insert(key, other);
        },
        None => {},
    }
    assert(models(entries@) =~= (if old(entries)@.contains_key(key) && old(entries)@[key]@ is Ping {
        models(old(entries)@).insert(
            key,
            StatsModel::Ping(old(entries)@[key]@->Ping_0.after(nanos_opt(latency))),
        )
    } else {
        models(old(entries)@)
    }));
}

/// Takes the outcome of an HTTP probe into the statistics under `key`, if
/// there are HTTP statistics under it.
fn record_http_in<K: Eq + Hash + Copy>(
    entries: &mut HashMap<K, Stats>,
    key: K,
    status_code: Option<u16>,
    response_time: Duration,
    content_size: Option<u64>,
    error: Option<String>,
)
    requires
        obeys_key_model::<K>(),
        all_wf(old(entries)@),
        old(entries)@.contains_key(key) ==> (old(entries)@[key]@ matches StatsModel::Http(h)
            ==> h.requests_sent < u64::MAX),
    ensures
        all_wf(final(entries)@),
        models(final(entries)@) == (if old(entries)@.contains_key(key) && old(
            entries,
        )@[key]@ is Http {
            models(old(entries)@).insert(
                key,
                StatsModel::Http(
                    old(entries)@[key]@->Http_0.after(
                        status_code,
                        duration_nanos(response_time),
                        content_size,
                        text_opt(error),
                    ),
                ),
            )
        } else {
            models(old(entries)@)
        }),
{
    match entries.remove(&key) {
        Some(Stats::Http(mut host_stats)) => {
            host_stats.update(status_code, response_time, content_size, error);
            entries.insert(key, Stats::Http(host_stats));
        },
        Some(other) => {
            entries.insert(key, other);
        },
        None => {},
    }
    assert(models(entries@) =~= (if old(entries)@.contains_key(key) && old(entries)@[key]@ is Http {
        models(old(entries)@).insert(
            key,
            StatsModel::Http(
                old(entries)@[key]@->Http_0.after(
                    status_code,
                    duration_nanos(response_time),
                    content_size,
                    text_opt(error),
                ),
            ),
        )
    } else {
        models(old(entries)@)
    }));
}

impl StatsStore {
    /// Whether the store is that of some session: each of its entries is
    /// well formed.
    pub closed spec fn wf(&self) -> bool {
        &&& all_wf(self.v4@)
        &&& all_wf(self.v6@)
    }

    /// The store of a new session: an entry for the address of each host,
    /// with the statistics of a host that no probe was sent to, of the kind
    /// of `mode`.
    pub fn new(hosts: &Vec<Host>, mode: AppMode) -> (store: StatsStore)
        ensures
            store.wf(),
            forall|a: HostAddr| #[trigger] store@.contains_key(a) <==> addrs_of(hosts@).contains(a),
            forall|a: HostAddr| #[trigger]
                store@.contains_key(a) ==> store@[a] == StatsModel::initial(mode),
    {
        let mut store = StatsStore { v4: HashMap::new(), v6: HashMap::new() };
        let mut i: usize = 0;
        while i < hosts.len()
            invariant
                i <= hosts@.len(),
                store.wf(),
                forall|a: HostAddr| #[trigger]
                    store@.contains_key(a) <==> addrs_of(hosts@.subrange(0, i as int)).contains(a),
                forall|a: HostAddr| #[trigger]
                    store@.contains_key(a) ==> store@[a] == StatsModel::initial(mode),
            decreases hosts@.len() - i,
        {
            let ghost before = store@;
            let ghost upto = addrs_of(hosts@.subrange(0, i as int));
            let ghost next = addrs_of(hosts@.subrange(0, i + 1));
            let ip = hosts[i].ip;
            match ip {
                HostAddr::V4(key) => put_fresh(&mut store.v4, key, mode),
                HostAddr::V6(key) => put_fresh(&mut store.v6, key, mode),
            }
            proof {
                assert(store@ =~= before.insert(ip, StatsModel::initial(mode)));
                assert(next.drop_last() =~= upto);
                assert(next.last() == ip);
                assert forall|a: HostAddr| #[trigger]
                    store@.contains_key(a) <==> next.contains(a) by {
                    crate::distinct::lemma_contains_last(next, a);
                }
            }
            i = i + 1;
        }
        assert(hosts@.subrange(0, i as int) =~= hosts@);
        store
    }

    /// The statistics of the host at `ip`, if the store has an entry for
    /// it.
    pub fn get(&self, ip: HostAddr) -> (found: Option<&Stats>)
        requires
            self.wf(),
        ensures
            match found {
                Some(stats) => self@.contains_key(ip) && stats@ == self@[ip] && stats.wf(),
                None => !self@.contains_key(ip),
            },
    {
        match ip {
            HostAddr::V4(key) => entry_of(&self.v4, key),
            HostAddr::V6(key) => entry_of(&self.v6, key),
        }
    }

    /// Takes in the outcome of an echo probe of the host at `ip`: `Some`
    /// round-trip time for a reply, `None` for a probe that got none. A
    /// store without echo statistics for `ip` stays as it is.
    pub fn record_ping(&mut self, ip: HostAddr, latency: Option<Duration>)
        requires
            old(self).wf(),
            has_room(old(self)@, ip),
        ensures
            final(self).wf(),
            final(self)@ == with_ping(old(self)@, ip, nanos_opt(latency)),
            final(self)@.dom() == old(self)@.dom(),
    {
        match ip {
            HostAddr::V4(key) => record_ping_in(&mut self.v4, key, latency),
            HostAddr::V6(key) => record_ping_in(&mut self.v6, key, latency),
        }
        assert(self@ =~= with_ping(old(self)@, ip, nanos_opt(latency)));
        assert(self@.dom() =~= old(self)@.dom());
    }

    /// Takes in the outcome of an HTTP probe of the host at `ip`, which
    /// took `response_time`: the code of the response, or `None` where the
    /// transport failed and `error` says how. A store without HTTP
    /// statistics for `ip` stays as it is.
    pub fn record_http(
        &mut self,
        ip: HostAddr,
        status_code: Option<u16>,
        response_time: Duration,
        content_size: Option<u64>,
        error: Option<String>,
    )
        requires
            old(self).wf(),
            has_room(old(self)@, ip),
        ensures
            final(self).wf(),
            final(self)@ == with_http(
                old(self)@,
                ip,
                status_code,
                duration_nanos(response_time),
                content_size,
                text_opt(error),
            ),
            final(self)@.dom() == old(self)@.dom(),
    {
        match ip {
            HostAddr::V4(key) => record_http_in(
                &mut self.v4,
                key,
                status_code,
                response_time,
                content_size,
                error,
            ),
            HostAddr::V6(key) => record_http_in(
                &mut self.v6,
                key,
                status_code,
                response_time,
                content_size,
                error,
            ),
        }
        assert(self@ =~= with_http(
            old(self)@,
            ip,
            status_code,
            duration_nanos(response_time),
            content_size,
            text_opt(error),
        ));
        assert(self@.dom() =~= old(self)@.dom());
    }
}

} // verus!
