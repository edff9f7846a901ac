//! Host identity.

use crate::distinct::{first_occurrences, lemma_first_occurrences, with_all_new};
use vstd::prelude::*;

verus! {

/// The network address of a monitored host: an IPv4 address as its 32 bits,
/// or an IPv6 address as its 128 bits, most significant octet first.
#[derive(Clone, Copy, Debug, PartialEq, Eq, Hash, Structural)]
pub enum HostAddr {
    V4(u32),
    V6(u128),
}

/// Whether `ip` is among `ips`.
pub fn has_addr(ips: &Vec<HostAddr>, ip: HostAddr) -> (found: bool)
    ensures
        found == ips@.contains(ip),
{
    let mut i: usize = 0;
    while i < ips.len()
        invariant
            i <= ips@.len(),
            forall|k: int| 0 <= k < i ==> ips@[k] != ip,
        decreases ips@.len() - i,
    {
        if ips[i] == ip {
            return true;
        }
        i = i + 1;
    }
    false
}

/// The addresses of a host list made distinct: each address once, at the
/// place where it first occurs.
pub fn distinct_addrs(ips: &Vec<HostAddr>) -> (once: Vec<HostAddr>)
    ensures
        once@ == first_occurrences(ips@),
        once@.no_duplicates(),
{
    let mut once: Vec<HostAddr> = Vec::new();
    let mut i: usize = 0;
    while i < ips.len()
        invariant
            i <= ips@.len(),
            once@ == with_all_new(Seq::<HostAddr>::empty(), ips@.subrange(0, i as int)),
        decreases ips@.len() - i,
    {
        proof {
            let upto = ips@.subrange(0, i + 1);
            assert(upto.drop_last() =~= ips@.subrange(0, i as int));
        }
        if !has_addr(&once, ips[i]) {
            once.push(ips[i]);
        }
        i = i + 1;
    }
    proof {
        assert(ips@.subrange(0, i as int) =~= ips@);
        lemma_first_occurrences(ips@);
    }
    once
}

} // verus!
