//! The pool of ports that proxies may listen on.
//!
//! The pool is a `rand_set::RandSet`, so that a port picked for a client that
//! names none is a random free one. A port handed out by [`alloc_port`] is no
//! longer free until it is given back with [`PortManager::dealloc`].

use vstd::prelude::*;

use std::collections::HashSet;

use crate::config::server::PortRangeConfig;

verus! {

broadcast use vstd::std_specs::hash::group_hash_axioms;

/// `rand_set::RandSet`, carried through verified code as an opaque value.
#[verifier::external_type_specification]
#[verifier::external_body]
#[verifier::reject_recursive_types(T)]
#[verifier::reject_recursive_types(S)]
pub struct ExRandSet<T: std::hash::Hash + Eq + Clone, S: std::hash::BuildHasher>(
    rand_set::RandSet<T, S>,
);

/// The ports that a `RandSet<u16>` holds.
pub uninterp spec fn rand_set_view(s: rand_set::RandSet<u16>) -> Set<u16>;

/// `RandSet::from_iter` over a hash set: a `RandSet` that holds exactly its ports.
#[verifier::external_body]
fn rand_set_from_iter(ports: HashSet<u16>) -> (s: rand_set::RandSet<u16>)
    ensures
        rand_set_view(s) == ports@,
{
    rand_set::RandSet::from_iter(ports)
}

/// `RandSet::contains`.
#[verifier::external_body]
fn rand_set_contains(s: &rand_set::RandSet<u16>, port: u16) -> (b: bool)
    ensures
        b == rand_set_view(*s).contains(port),
{
    s.contains(&port)
}

/// `RandSet::get_rand`: a random port of the set, or `None` when it is empty.
/// Which port comes back is left open: only that it belongs to the set.
#[verifier::external_body]
fn rand_set_get_rand(s: &rand_set::RandSet<u16>) -> (p: Option<u16>)
    ensures
        p is None <==> rand_set_view(*s) == Set::<u16>::empty(),
        p matches Some(q) ==> rand_set_view(*s).contains(q),
{
    s.get_rand().copied()
}

/// `RandSet::remove`: takes `port` out of the set; says whether it was there.
#[verifier::external_body]
fn rand_set_remove(s: &mut rand_set::RandSet<u16>, port: u16) -> (was_there: bool)
    ensures
        rand_set_view(*final(s)) == rand_set_view(*old(s)).remove(port),
        was_there == rand_set_view(*old(s)).contains(port),
{
    s.remove(&port)
}

/// `RandSet::insert`: puts `port` into the set; says whether it was new.
#[verifier::external_body]
fn rand_set_insert(s: &mut rand_set::RandSet<u16>, port: u16) -> (was_new: bool)
    ensures
        rand_set_view(*final(s)) == rand_set_view(*old(s)).insert(port),
        was_new == !rand_set_view(*old(s)).contains(port),
{
    s.insert(port)
}

/// A port held by a proxy gateway.
#[derive(Debug, PartialEq, Eq)]
pub struct Port(pub u16);

/// Why no port could be handed out.
#[derive(Debug, Clone, Copy, PartialEq, Eq)]
pub enum PortError {
    /// The port that the client named is not free.
    PortNotFree(u16),
    /// Every allowed port is in use.
    NoFreePort,
}

/// The pool of free ports.
pub struct PortManager {
    free_ports: rand_set::RandSet<u16>,
}

/// The ports of the default pool: `0` up to `65534`.
pub open spec fn default_ports() -> Set<u16> {
    Set::new(|p: u16| p < 65535)
}

/// Whether `port` lies in the configured range `r`.
pub open spec fn range_contains(r: PortRangeConfig, port: u16) -> bool {
    match r {
        PortRangeConfig::Single(p) => port == p,
        PortRangeConfig::Range(start, end) => start <= port && port <= end,
    }
}

/// The ports that a list of configured ranges allows.
pub open spec fn ports_of_ranges(ranges: Seq<PortRangeConfig>) -> Set<u16> {
    Set::new(
        |port: u16|
            exists|i: int| 0 <= i < ranges.len() && #[trigger] range_contains(ranges[i], port),
    )
}

proof fn lemma_ports_of_ranges_step(s: Seq<PortRangeConfig>, i: int)
    requires
        0 <= i < s.len(),
    ensures
        ports_of_ranges(s.take(i + 1)) == ports_of_ranges(s.take(i)).union(
            Set::new(|q: u16| range_contains(s[i], q)),
        ),
{
    let a = ports_of_ranges(s.take(i + 1));
    let b = ports_of_ranges(s.take(i)).union(Set::new(|q: u16| range_contains(s[i], q)));
    assert forall|q: u16| a.contains(q) implies b.contains(q) by {
        let j = choose|j: int| 0 <= j < i + 1 && #[trigger] range_contains(s.take(i + 1)[j], q);
        if j < i {
            assert(s.take(i)[j] == s.take(i + 1)[j]);
        }
    }
    assert forall|q: u16| b.contains(q) implies a.contains(q) by {
        if range_contains(s[i], q) {
            assert(s.take(i + 1)[i] == s[i]);
        } else {
            let j = choose|j: int| 0 <= j < i && #[trigger] range_contains(s.take(i)[j], q);
            assert(s.take(i)[j] == s.take(i + 1)[j]);
        }
    }
    assert(a =~= b);
}

impl PortManager {
    /// The ports that are free.
    pub closed spec fn free(&self) -> Set<u16> {
        rand_set_view(self.free_ports)
    }

    /// Replaces the pool by the `allowed` ports.
    pub fn init(&mut self, allowed: HashSet<u16>)
        ensures
            final(self).free() == allowed@,
    {
        self.free_ports = rand_set_from_iter(allowed);
    }

    /// Takes a port out of the pool: the port named, if it is free, or else
    /// a random free one when none is named.
    pub fn alloc_port(&mut self, pointed_port: Option<u16>) -> (r: Result<u16, PortError>)
        ensures
            match pointed_port {
                Some(p) => if old(self).free().contains(p) {
                    r == Ok::<u16, PortError>(p) && final(self).free() == old(self).free().remove(p)
                } else {
                    r == Err::<u16, PortError>(PortError::PortNotFree(p)) && final(self).free()
                        == old(self).free()
                },
                None => if old(self).free() == Set::<u16>::empty() {
                    r == Err::<u16, PortError>(PortError::NoFreePort) && final(self).free()
                        == old(self).free()
                } else {
                    r matches Ok(q) && old(self).free().contains(q) && final(self).free()
                        == old(self).free().remove(q)
                },
            },
    {
        let target = match pointed_port {
            Some(port) => {
                if rand_set_contains(&self.free_ports, port) {
                    port
                } else {
                    return Err(PortError::PortNotFree(port));
                }
            },
            None => {
                if let Some(port) = rand_set_get_rand(&self.free_ports) {
                    port
                } else {
                    return Err(PortError::NoFreePort);
                }
            },
        };
        rand_set_remove(&mut self.free_ports, target);
        Ok(target)
    }

    /// Gives `port` back to the pool.
    pub fn dealloc(&mut self, port: u16)
        ensures
            final(self).free() == old(self).free().insert(port),
    {
        rand_set_insert(&mut self.free_ports, port);
    }
}

impl Default for PortManager {
    /// A pool of the ports `0` up to `65534`.
    fn default() -> (m: Self)
        ensures
            m.free() == default_ports(),
    {
        let mut ports: HashSet<u16> = HashSet::new();
        let mut p: u16 = 0;
        while p < 65535
            invariant
                p <= 65535,
                ports@ == Set::new(|q: u16| q < p),
            decreases 65535 - p,
        {
            ports.insert(p);
            p = p + 1;
            assert(ports@ =~= Set::new(|q: u16| q < p));
        }
        assert(ports@ =~= default_ports());
        PortManager { free_ports: rand_set_from_iter(ports) }
    }
}

/// The ports of one configured range, added to `ports`.
fn add_range(ports: &mut HashSet<u16>, r: PortRangeConfig)
    ensures
        final(ports)@ == old(ports)@.union(Set::new(|q: u16| range_contains(r, q))),
{
    match r {
        PortRangeConfig::Single(port) => {
            ports.insert(port);
            assert(ports@ =~= old(ports)@.union(Set::new(|q: u16| range_contains(r, q))));
        },
        PortRangeConfig::Range(start, end) => {
            let mut p: u32 = start as u32;
            while p <= end as u32
                invariant
                    start <= p <= end as u32 + 1 || (p == start && start > end),
                    ports@ == old(ports)@.union(Set::new(|q: u16| start <= q && (q as u32) < p)),
                decreases end as u32 + 1 - p,
            {
                ports.insert(p as u16);
                p = p + 1;
                assert(ports@ =~= old(ports)@.union(
                    Set::new(|q: u16| start <= q && (q as u32) < p),
                ));
            }
            assert(ports@ =~= old(ports)@.union(Set::new(|q: u16| range_contains(r, q))));
        },
    }
}

/// Hands out a port from the pool, as [`PortManager::alloc_port`] does.
pub fn alloc_port(manager: &mut PortManager, pointed_port: Option<u16>) -> (r: Result<Port, PortError>)
    ensures
        match pointed_port {
            Some(p) => if old(manager).free().contains(p) {
                r == Ok::<Port, PortError>(Port(p)) && final(manager).free() == old(
                    manager,
                ).free().remove(p)
            } else {
                r == Err::<Port, PortError>(PortError::PortNotFree(p)) && final(manager).free()
                    == old(manager).free()
            },
            None => if old(manager).free() == Set::<u16>::empty() {
                r == Err::<Port, PortError>(PortError::NoFreePort) && final(manager).free()
                    == old(manager).free()
            } else {
                r matches Ok(q) && old(manager).free().contains(q.0) && final(manager).free()
                    == old(manager).free().remove(q.0)
            },
        },
{
    let port = manager.alloc_port(pointed_port)?;
    Ok(Port(port))
}

/// Restricts the pool to the configured ranges, when the configuration names
/// any; leaves the pool as it is otherwise.
pub fn init(manager: &mut PortManager, allowed_ports: &Option<Vec<PortRangeConfig>>) -> (r: Result<
    (),
    PortError,
>)
    ensures
        r is Ok,
        match allowed_ports {
            Some(ranges) => final(manager).free() == ports_of_ranges(ranges@),
            None => final(manager).free() == old(manager).free(),
        },
{
    if let Some(allowed) = allowed_ports {
        let mut ports: HashSet<u16> = HashSet::new();
        let mut i: usize = 0;
        while i < allowed.len()
            invariant
                i <= allowed@.len(),
                ports@ == ports_of_ranges(allowed@.take(i as int)),
            decreases allowed@.len() - i,
        {
            add_range(&mut ports, allowed[i]);
            i = i + 1;
            proof {
                lemma_ports_of_ranges_step(allowed@, (i - 1) as int);
            }
        }
        assert(allowed@.take(allowed@.len() as int) =~= allowed@);
        manager.init(ports);
    }
    Ok(())
}

/// A port handed out by the pool and given back leaves the pool as it was.
pub proof fn lemma_dealloc_restores(free: Set<u16>, port: u16)
    requires
        free.contains(port),
    ensures
        free.remove(port).insert(port) == free,
        !free.remove(port).contains(port),
{
    assert(free.remove(port).insert(port) =~= free);
}

/// The default pool is every port below 65535, and not 65535 itself.
pub proof fn lemma_default_pool(p: u16)
    ensures
        default_ports().contains(p) <==> p < 65535,
{
}

/// A configured list allows a port exactly when one of its entries names it:
/// a `Single(q)` with `q == p`, or a `Range(s, e)` with `s <= p <= e` (both
/// bounds included, however wide the range).
pub proof fn lemma_ranges_allow(ranges: Seq<PortRangeConfig>, p: u16)
    ensures
        ports_of_ranges(ranges).contains(p) <==> exists|i: int|
            0 <= i < ranges.len() && match #[trigger] ranges[i] {
                PortRangeConfig::Single(q) => q == p,
                PortRangeConfig::Range(s, e) => s <= p && p <= e,
            },
{
    if ports_of_ranges(ranges).contains(p) {
        let i = choose|i: int| 0 <= i < ranges.len() && #[trigger] range_contains(ranges[i], p);
        assert(0 <= i < ranges.len() && match ranges[i] {
            PortRangeConfig::Single(q) => q == p,
            PortRangeConfig::Range(s, e) => s <= p && p <= e,
        });
    }
    if exists|i: int|
        0 <= i < ranges.len() && match #[trigger] ranges[i] {
            PortRangeConfig::Single(q) => q == p,
            PortRangeConfig::Range(s, e) => s <= p && p <= e,
        } {
        let i = choose|i: int|
            0 <= i < ranges.len() && match #[trigger] ranges[i] {
                PortRangeConfig::Single(q) => q == p,
                PortRangeConfig::Range(s, e) => s <= p && p <= e,
            };
        assert(range_contains(ranges[i], p));
    }
}

/// One step on the pool: a port handed out by [`alloc_port`], or a port
/// given back with [`PortManager::dealloc`].
pub enum PoolStep {
    Alloc(u16),
    Dealloc(u16),
}

/// The free ports and the ports in use after `steps`, from a pool of the
/// `start` ports with none in use. As [`alloc_port`] states, a port handed
/// out was free and leaves the pool; as [`PortManager::dealloc`] states, a
/// port given back joins it. `None` when a step hands out a port that is not
/// free, or gives back a port that is not in use.
pub open spec fn run_steps(start: Set<u16>, steps: Seq<PoolStep>) -> Option<(Set<u16>, Set<u16>)>
    decreases steps.len(),
{
    if steps.len() == 0 {
        Some((start, Set::empty()))
    } else {
        match run_steps(start, steps.drop_last()) {
            None => None,
            Some((free, live)) => match steps.last() {
                PoolStep::Alloc(q) => if free.contains(q) {
                    Some((free.remove(q), live.insert(q)))
                } else {
                    None
                },
                PoolStep::Dealloc(p) => if live.contains(p) {
                    Some((free.insert(p), live.remove(p)))
                } else {
                    None
                },
            },
        }
    }
}

/// Whatever ports are handed out and given back (each given back once, while
/// in use), the free ports and the ports in use split the starting pool: no
/// port in use is free, so none is handed out twice while in use, and every
/// port in use comes from the starting pool (after [`init`], from the
/// configured ranges).
pub proof fn lemma_pool_partitions(start: Set<u16>, steps: Seq<PoolStep>)
    requires
        run_steps(start, steps) is Some,
    ensures
        run_steps(start, steps) matches Some((free, live)) && free.disjoint(live) && free.union(
            live,
        ) == start,
    decreases steps.len(),
{
    if steps.len() > 0 {
        lemma_pool_partitions(start, steps.drop_last());
        let (free, live) = run_steps(start, steps.drop_last())->0;
        let (free2, live2) = run_steps(start, steps)->0;
        match steps.last() {
            PoolStep::Alloc(q) => {
                assert(free2.union(live2) =~= free.union(live));
            },
            PoolStep::Dealloc(p) => {
                assert(free2.union(live2) =~= free.union(live));
            },
        }
    } else {
        assert(start.union(Set::<u16>::empty()) =~= start);
    }
}

} // verus!
