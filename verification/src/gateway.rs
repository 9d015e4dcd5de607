//! Gateways and the per-guardian gateway registry.
//!
//! A gateway is identified by its network address.  Each guardian keeps its
//! own durable set of registered gateways; registration and removal are
//! idempotent per guardian, and the federation-wide view is reduced from the
//! individual registries elsewhere.

use vstd::prelude::*;

verus! {

/// A third-party service bridging the federation to the Lightning network,
/// identified by the address of its reachable API endpoint.
pub struct Gateway {
    pub addr: String,
}

impl View for Gateway {
    type V = Seq<char>;

    open spec fn view(&self) -> Seq<char> {
        self.addr@
    }
}

impl Clone for Gateway {
    fn clone(&self) -> (r: Gateway)
        ensures
            r == *self,
    {
        Gateway { addr: self.addr.clone() }
    }
}

/// A gateway address passes validation iff it is non-empty; an empty address
/// cannot name a reachable endpoint and is rejected by registration.
pub open spec fn valid_addr(a: Seq<char>) -> bool {
    a.len() > 0
}

/// Whether some gateway in `gs` has the address `a`.
pub open spec fn contains_addr(gs: Seq<Gateway>, a: Seq<char>) -> bool {
    exists|i: int| 0 <= i < gs.len() && (#[trigger] gs[i])@ == a
}

/// The set of gateway addresses in `gs`: the registry's mathematical content.
pub open spec fn addr_set(gs: Seq<Gateway>) -> Set<Seq<char>> {
    Set::new(|a: Seq<char>| contains_addr(gs, a))
}

/// No two gateways in `gs` share an address.
pub open spec fn no_dup_addrs(gs: Seq<Gateway>) -> bool {
    forall|i: int, j: int| 0 <= i < j < gs.len() ==> (#[trigger] gs[i])@ != (#[trigger] gs[j])@
}

/// The position of the first gateway in `gs` with address `addr`, if any.
pub fn find_addr(gs: &Vec<Gateway>, addr: &String) -> (r: Option<usize>)
    ensures
        match r {
            Some(i) => i < gs@.len() && gs@[i as int]@ == addr@,
            None => !contains_addr(gs@, addr@),
        },
{
    let n = gs.len();
    let mut i: usize = 0;
    while i < n
        invariant
            n == gs@.len(),
            0 <= i <= n,
            forall|k: int| 0 <= k < i ==> (#[trigger] gs@[k])@ != addr@,
        decreases n - i,
    {
        if gs[i].addr == *addr {
            return Some(i);
        }
        i += 1;
    }
    None
}

/// One guardian's durable set of registered gateways.
pub struct GuardianRegistry {
    pub gateways: Vec<Gateway>,
}

impl GuardianRegistry {
    /// Every address is valid and appears at most once.
    pub open spec fn wf(&self) -> bool {
        &&& no_dup_addrs(self.gateways@)
        &&& forall|i: int|
            0 <= i < self.gateways@.len() ==> valid_addr((#[trigger] self.gateways@[i])@)
    }

    /// The registry's content as a set of addresses.
    pub open spec fn registered(&self) -> Set<Seq<char>> {
        addr_set(self.gateways@)
    }

    pub fn new() -> (r: GuardianRegistry)
        ensures
            r.wf(),
            r.gateways@.len() == 0,
            r.registered() =~= Set::<Seq<char>>::empty(),
    {
        GuardianRegistry { gateways: Vec::new() }
    }

    /// The position of the gateway with address `addr`, if one is registered.
    pub fn find(&self, addr: &String) -> (r: Option<usize>)
        ensures
            match r {
                Some(i) => i < self.gateways@.len() && self.gateways@[i as int]@ == addr@,
                None => !contains_addr(self.gateways@, addr@),
            },
    {
        find_addr(&self.gateways, addr)
    }

    /// Register a gateway with this guardian.  Returns `true` both when the
    /// gateway is newly added and when it was already present (registration
    /// is an idempotent goal, not a one-shot action); returns `false` only
    /// when the address fails validation, and then changes nothing.
    pub fn add(&mut self, gateway: Gateway) -> (r: bool)
        requires
            old(self).wf(),
        ensures
            final(self).wf(),
            r == valid_addr(gateway@),
            !r ==> *final(self) == *old(self),
            r ==> final(self).registered() == old(self).registered().insert(gateway@),
            r && contains_addr(old(self).gateways@, gateway@) ==> *final(self) == *old(self),
            r && !contains_addr(old(self).gateways@, gateway@) ==> final(self).gateways@ == old(
                self,
            ).gateways@.push(gateway),
    {
        if gateway.addr.as_str().is_empty() {
            return false;
        }
        match self.find(&gateway.addr) {
            Some(_) => {
                proof {
                    assert(contains_addr(self.gateways@, gateway@));
                    assert(self.registered() =~= self.registered().insert(gateway@));
                }
                true
            },
            None => {
                let ghost old_gs = self.gateways@;
                self.gateways.push(gateway);
                proof {
                    assert(self.gateways@.drop_last() =~= old_gs);
                    assert forall|a: Seq<char>| #[trigger]
                        addr_set(self.gateways@).contains(a) implies addr_set(old_gs).insert(
                        gateway@,
                    ).contains(a) by {
                        let i = choose|i: int|
                            0 <= i < self.gateways@.len() && (#[trigger] self.gateways@[i])@ == a;
                        if i < old_gs.len() {
                            assert(old_gs[i]@ == a);
                        }
                    }
                    assert forall|a: Seq<char>|
                        addr_set(old_gs).insert(gateway@).contains(a) implies #[trigger]
                    addr_set(self.gateways@).contains(a) by {
                        if addr_set(old_gs).contains(a) {
                            let i = choose|i: int|
                                0 <= i < old_gs.len() && (#[trigger] old_gs[i])@ == a;
                            assert(self.gateways@[i]@ == a);
                        } else {
                            assert(self.gateways@[self.gateways@.len() - 1]@ == a);
                        }
                    }
                    assert(addr_set(self.gateways@) =~= addr_set(old_gs).insert(gateway@));
                }
                true
            },
        }
    }

    /// Remove a gateway from this guardian.  Returns `true` both when the
    /// gateway was removed and when it was not present (removal is treated
    /// as an already-achieved goal); returns `false` only when the address
    /// fails validation, and then changes nothing.
    pub fn remove(&mut self, addr: &String) -> (r: bool)
        requires
            old(self).wf(),
        ensures
            final(self).wf(),
            r == valid_addr(addr@),
            !r ==> *final(self) == *old(self),
            r ==> final(self).registered() == old(self).registered().remove(addr@),
            r && !contains_addr(old(self).gateways@, addr@) ==> *final(self) == *old(self),
    {
        if addr.as_str().is_empty() {
            return false;
        }
        match self.find(addr) {
            Some(i) => {
                let ghost old_gs = self.gateways@;
                self.gateways.remove(i);
                proof {
                    lemma_remove_preserves(old_gs, i as int);
                    assert(self.registered() =~= addr_set(old_gs).remove(addr@));
                }
                true
            },
            None => {
                proof {
                    assert(!self.registered().contains(addr@));
                    assert(self.registered() =~= self.registered().remove(addr@));
                }
                true
            },
        }
    }

    /// The gateways this guardian has registered, in registration order.
    pub fn list(&self) -> (r: Vec<Gateway>)
        ensures
            r@ == self.gateways@,
    {
        let n = self.gateways.len();
        let mut r: Vec<Gateway> = Vec::new();
        let mut i: usize = 0;
        while i < n
            invariant
                n == self.gateways@.len(),
                0 <= i <= n,
                r@ == self.gateways@.take(i as int),
            decreases n - i,
        {
            r.push(self.gateways[i].clone());
            proof {
                assert(self.gateways@.take(i + 1) =~= self.gateways@.take(i as int).push(
                    self.gateways@[i as int],
                ));
            }
            i += 1;
        }
        proof {
            assert(self.gateways@.take(n as int) =~= self.gateways@);
        }
        r
    }
}

/// Removing position `i` from a duplicate-free registry removes exactly the
/// address at `i` from the registry's content and keeps it duplicate-free.
proof fn lemma_remove_preserves(gs: Seq<Gateway>, i: int)
    requires
        0 <= i < gs.len(),
        no_dup_addrs(gs),
    ensures
        no_dup_addrs(gs.remove(i)),
        addr_set(gs.remove(i)) =~= addr_set(gs).remove(gs[i]@),
        forall|m: int|
            0 <= m < gs.remove(i).len() ==> exists|k: int|
                0 <= k < gs.len() && #[trigger] gs.remove(i)[m] == gs[k],
{
    let out = gs.remove(i);
    assert forall|m: int| 0 <= m < out.len() implies exists|k: int|
        0 <= k < gs.len() && #[trigger] out[m] == gs[k] by {
        let k0 = if m < i {
            m
        } else {
            m + 1
        };
        assert(out[m] == gs[k0]);
    }
    assert forall|p: int, q: int| 0 <= p < q < out.len() implies (#[trigger] out[p])@ != (
    #[trigger] out[q])@ by {
        let p0 = if p < i {
            p
        } else {
            p + 1
        };
        let q0 = if q < i {
            q
        } else {
            q + 1
        };
        assert(out[p] == gs[p0]);
        assert(out[q] == gs[q0]);
    }
    assert forall|a: Seq<char>| #[trigger] addr_set(out).contains(a) implies addr_set(gs).remove(
        gs[i]@,
    ).contains(a) by {
        let k = choose|k: int| 0 <= k < out.len() && (#[trigger] out[k])@ == a;
        let k0 = if k < i {
            k
        } else {
            k + 1
        };
        assert(out[k] == gs[k0]);
        assert(gs[k0]@ == a);
        assert(a != gs[i]@);
    }
    assert forall|a: Seq<char>| addr_set(gs).remove(gs[i]@).contains(a) implies #[trigger]
    addr_set(out).contains(a) by {
        let k = choose|k: int| 0 <= k < gs.len() && (#[trigger] gs[k])@ == a;
        assert(k != i);
        if k < i {
            assert(out[k] == gs[k]);
        } else {
            assert(out[k - 1] == gs[k]);
        }
    }
}

} // verus!
