//! The federation-wide view of the gateway registry.
//!
//! A federation is a fixed, ordered set of guardians with a fault threshold
//! `t`; with `n == 3 * t + 1` members, any `n - t` agreeing guardians form a
//! quorum.  Gateways are registered per guardian; the federation-agreed list
//! is the first guardian's registry that at least a quorum of guardians
//! report identically (compared as address sets, the canonical form of a
//! registry).  Selection picks deterministically from the agreed list,
//! preferring the gateway an invoice was issued against.

use vstd::prelude::*;

use crate::errors::ApiError;
use crate::gateway::{contains_addr, find_addr, no_dup_addrs, valid_addr, Gateway, GuardianRegistry};
use crate::invoice::Invoice;

verus! {

/// How many guardians report exactly the address set `s`.
pub open spec fn agree_count(gs: Seq<GuardianRegistry>, s: Set<Seq<char>>) -> nat
    decreases gs.len(),
{
    if gs.len() == 0 {
        0
    } else {
        agree_count(gs.drop_last(), s) + if gs.last().registered() == s {
            1nat
        } else {
            0nat
        }
    }
}

/// Guardian `i`'s registry is reported identically by at least `q` guardians.
pub open spec fn quorum_at(gs: Seq<GuardianRegistry>, q: nat, i: int) -> bool {
    agree_count(gs, gs[i].registered()) >= q
}

/// The first guardian whose registry a quorum agrees on, searching from `i`;
/// `-1` when there is none.
pub open spec fn first_quorum_from(gs: Seq<GuardianRegistry>, q: nat, i: int) -> int
    decreases gs.len() - i
        when 0 <= i <= gs.len()
{
    if i >= gs.len() {
        -1
    } else if quorum_at(gs, q, i) {
        i
    } else {
        first_quorum_from(gs, q, i + 1)
    }
}

/// The first guardian whose registry a quorum agrees on; `-1` when none.
pub open spec fn first_quorum_index(gs: Seq<GuardianRegistry>, q: nat) -> int {
    first_quorum_from(gs, q, 0)
}

/// What selection without an invoice returns for a registry snapshot: the
/// head of the federation-agreed list.  Selection is a function of the
/// snapshot, which is what makes repeated selection deterministic.
pub open spec fn selected_without_invoice(gs: Seq<GuardianRegistry>, q: nat) -> Result<
    Gateway,
    ApiError,
> {
    let f = first_quorum_index(gs, q);
    if f < 0 {
        Err(ApiError::NoConsensus)
    } else if gs[f].gateways@.len() == 0 {
        Err(ApiError::NoGatewaysAvailable)
    } else {
        Ok(gs[f].gateways@[0])
    }
}

proof fn lemma_agree_count_take_step(gs: Seq<GuardianRegistry>, s: Set<Seq<char>>, j: int)
    requires
        0 <= j < gs.len(),
    ensures
        agree_count(gs.take(j + 1), s) == agree_count(gs.take(j), s) + if gs[j].registered() == s {
            1int
        } else {
            0int
        },
{
    assert(gs.take(j + 1).drop_last() =~= gs.take(j));
    assert(gs.take(j + 1).last() == gs[j]);
}

/// When every guardian reports the set `s`, all `n` of them agree on it.
proof fn lemma_agree_count_all(gs: Seq<GuardianRegistry>, s: Set<Seq<char>>)
    requires
        forall|i: int| 0 <= i < gs.len() ==> (#[trigger] gs[i]).registered() == s,
    ensures
        agree_count(gs, s) == gs.len(),
    decreases gs.len(),
{
    if gs.len() > 0 {
        lemma_agree_count_all(gs.drop_last(), s);
    }
}

/// If no quorum is found at or after `i`, the search from `i` fails.
proof fn lemma_first_quorum_none(gs: Seq<GuardianRegistry>, q: nat, i: int)
    requires
        0 <= i <= gs.len(),
        forall|k: int| i <= k < gs.len() ==> !quorum_at(gs, q, k),
    ensures
        first_quorum_from(gs, q, i) == -1,
    decreases gs.len() - i,
{
    if i < gs.len() {
        lemma_first_quorum_none(gs, q, i + 1);
    }
}

/// If `i` is a quorum index and no earlier position from `k` on is one,
/// the search from `k` finds exactly `i`.
proof fn lemma_first_quorum_is(gs: Seq<GuardianRegistry>, q: nat, k: int, i: int)
    requires
        0 <= k <= i < gs.len(),
        quorum_at(gs, q, i),
        forall|m: int| k <= m < i ==> !quorum_at(gs, q, m),
    ensures
        first_quorum_from(gs, q, k) == i,
    decreases i - k,
{
    if k < i {
        lemma_first_quorum_is(gs, q, k + 1, i);
    }
}

/// Whether every address registered with `a` is also registered with `b`.
pub fn registry_subset(a: &GuardianRegistry, b: &GuardianRegistry) -> (r: bool)
    ensures
        r == a.registered().subset_of(b.registered()),
{
    let n = a.gateways.len();
    let mut i: usize = 0;
    while i < n
        invariant
            n == a.gateways@.len(),
            0 <= i <= n,
            forall|k: int|
                0 <= k < i ==> contains_addr(b.gateways@, (#[trigger] a.gateways@[k])@),
        decreases n - i,
    {
        match b.find(&a.gateways[i].addr) {
            Some(_) => {},
            None => {
                proof {
                    assert(a.registered().contains(a.gateways@[i as int]@));
                    assert(!b.registered().contains(a.gateways@[i as int]@));
                }
                return false;
            },
        }
        i += 1;
    }
    proof {
        assert forall|x: Seq<char>| a.registered().contains(x) implies b.registered().contains(
            x,
        ) by {
            let k = choose|k: int| 0 <= k < a.gateways@.len() && (#[trigger] a.gateways@[k])@ == x;
            assert(contains_addr(b.gateways@, a.gateways@[k]@));
        }
    }
    true
}

/// Whether two guardians report the same registry, compared as address sets
/// (the canonical form a consensus comparison works on).
pub fn registry_set_eq(a: &GuardianRegistry, b: &GuardianRegistry) -> (r: bool)
    ensures
        r == (a.registered() == b.registered()),
{
    let fwd = registry_subset(a, b);
    if !fwd {
        proof {
            let x = choose|x: Seq<char>|
                a.registered().contains(x) && !(#[trigger] b.registered().contains(x));
            assert(a.registered() != b.registered());
        }
        return false;
    }
    let bwd = registry_subset(b, a);
    if !bwd {
        proof {
            let x = choose|x: Seq<char>|
                b.registered().contains(x) && !(#[trigger] a.registered().contains(x));
            assert(a.registered() != b.registered());
        }
        return false;
    }
    proof {
        assert(a.registered() =~= b.registered());
    }
    true
}

/// The client-side model of one federation: the fault threshold and, for
/// each guardian, the durable registry state the client reaches through the
/// per-guardian delivery policies.
pub struct Federation {
    /// One registry per guardian, in the federation's fixed guardian order.
    pub guardians: Vec<GuardianRegistry>,
    /// The number `t` of guardians that may be faulty or offline.
    pub threshold: usize,
}

impl Federation {
    /// The classic BFT shape `n == 3 * t + 1`, with every registry sound.
    pub open spec fn wf(&self) -> bool {
        &&& self.guardians@.len() == 3 * self.threshold + 1
        &&& forall|i: int| 0 <= i < self.guardians@.len() ==> (#[trigger] self.guardians@[i]).wf()
    }

    /// The quorum size `n - t`.
    pub open spec fn quorum_size(&self) -> nat {
        (self.guardians@.len() - self.threshold) as nat
    }

    /// A fresh federation of `3 * threshold + 1` guardians, none of which
    /// has any gateway registered yet.
    pub fn new(threshold: usize) -> (r: Federation)
        requires
            threshold <= (usize::MAX - 1) / 3,
        ensures
            r.wf(),
            r.threshold == threshold,
            r.guardians@.len() == 3 * threshold + 1,
            forall|i: int|
                0 <= i < r.guardians@.len() ==> (#[trigger] r.guardians@[i]).gateways@.len() == 0,
    {
        let n = 3 * threshold + 1;
        let mut guardians: Vec<GuardianRegistry> = Vec::new();
        let mut i: usize = 0;
        while i < n
            invariant
                0 <= i <= n,
                guardians@.len() == i,
                forall|k: int| 0 <= k < i ==> (#[trigger] guardians@[k]).wf(),
                forall|k: int| 0 <= k < i ==> (#[trigger] guardians@[k]).gateways@.len() == 0,
            decreases n - i,
        {
            guardians.push(GuardianRegistry::new());
            i += 1;
        }
        Federation { guardians, threshold }
    }

    /// The number of guardians `n`.
    pub fn num_guardians(&self) -> (r: usize)
        ensures
            r == self.guardians@.len(),
    {
        self.guardians.len()
    }

    /// Register a gateway with one guardian.  This is a single-guardian
    /// write under admin authentication, not a consensus write: callers that
    /// want federation-wide registration call it once per guardian, and the
    /// registries may transiently disagree until all calls have succeeded.
    /// `true` when the gateway is registered afterwards (newly or already);
    /// `false` only when the address fails validation.
    pub fn add_gateway(&mut self, peer: usize, gateway: Gateway) -> (r: bool)
        requires
            old(self).wf(),
            peer < old(self).guardians@.len(),
        ensures
            final(self).wf(),
            final(self).threshold == old(self).threshold,
            final(self).guardians@.len() == old(self).guardians@.len(),
            forall|k: int|
                0 <= k < old(self).guardians@.len() && k != peer ==> final(self).guardians@[k]
                    == old(self).guardians@[k],
            r == valid_addr(gateway@),
            r ==> final(self).guardians@[peer as int].registered() == old(self).guardians@[peer as int].registered().insert(gateway@),
            !r ==> final(self).guardians@ == old(self).guardians@,
            r && contains_addr(old(self).guardians@[peer as int].gateways@, gateway@) ==> final(self).guardians@ == old(self).guardians@,
    {
        let ghost old_gs = self.guardians@;
        let r = self.guardians[peer].add(gateway);
        proof {
            if self.guardians@[peer as int] == old_gs[peer as int] {
                assert(self.guardians@ =~= old_gs);
            }
        }
        r
    }

    /// Remove a gateway from one guardian; symmetric to registration, and
    /// equally idempotent: removing an absent gateway reports success.
    pub fn remove_gateway(&mut self, peer: usize, addr: &String) -> (r: bool)
        requires
            old(self).wf(),
            peer < old(self).guardians@.len(),
        ensures
            final(self).wf(),
            final(self).threshold == old(self).threshold,
            final(self).guardians@.len() == old(self).guardians@.len(),
            forall|k: int|
                0 <= k < old(self).guardians@.len() && k != peer ==> final(self).guardians@[k]
                    == old(self).guardians@[k],
            r == valid_addr(addr@),
            r ==> final(self).guardians@[peer as int].registered() == old(self).guardians@[peer as int].registered().remove(addr@),
            !r ==> final(self).guardians@ == old(self).guardians@,
            r && !contains_addr(old(self).guardians@[peer as int].gateways@, addr@) ==> final(self).guardians@ == old(self).guardians@,
    {
        let ghost old_gs = self.guardians@;
        let r = self.guardians[peer].remove(addr);
        proof {
            if self.guardians@[peer as int] == old_gs[peer as int] {
                assert(self.guardians@ =~= old_gs);
            }
        }
        r
    }

    /// Register a gateway with every guardian in turn, the way a
    /// federation-wide registration is achieved, and report with how many
    /// of the guardians the gateway is registered afterwards: all of them
    /// for a valid address, none for a rejected one.  In a deployment where
    /// a guardian can be unreachable the count may fall short transiently;
    /// that is a recoverable state, and the caller repeats the per-guardian
    /// call until the count reaches the guardian total.
    pub fn register_with_all(&mut self, gateway: &Gateway) -> (r: usize)
        requires
            old(self).wf(),
        ensures
            final(self).wf(),
            final(self).threshold == old(self).threshold,
            final(self).guardians@.len() == old(self).guardians@.len(),
            valid_addr(gateway@) ==> r == old(self).guardians@.len() && forall|k: int|
                0 <= k < old(self).guardians@.len() ==> (#[trigger] final(self).guardians@[k]).registered() == old(self).guardians@[k].registered().insert(
                    gateway@,
                ),
            !valid_addr(gateway@) ==> r == 0 && final(self).guardians@ == old(self).guardians@,
    {
        let n = self.guardians.len();
        let ghost old_gs = old(self).guardians@;
        let mut registered: usize = 0;
        let mut peer: usize = 0;
        while peer < n
            invariant
                self.wf(),
                n == self.guardians@.len(),
                n == old_gs.len(),
                self.threshold == old(self).threshold,
                old(self).guardians@ == old_gs,
                0 <= peer <= n,
                valid_addr(gateway@) ==> registered == peer && forall|k: int|
                    0 <= k < peer ==> (#[trigger] self.guardians@[k]).registered()
                        == old_gs[k].registered().insert(gateway@),
                !valid_addr(gateway@) ==> registered == 0,
                !valid_addr(gateway@) ==> self.guardians@ == old_gs,
                forall|k: int| peer <= k < n ==> self.guardians@[k] == old_gs[k],
            decreases n - peer,
        {
            let accepted = self.add_gateway(peer, gateway.clone());
            if accepted {
                registered += 1;
            }
            peer += 1;
        }
        registered
    }

    /// Remove a gateway from every guardian in turn, symmetrically to
    /// federation-wide registration, and report from how many guardians it
    /// is absent afterwards: all of them for a valid address, none for a
    /// rejected one.
    pub fn remove_from_all(&mut self, addr: &String) -> (r: usize)
        requires
            old(self).wf(),
        ensures
            final(self).wf(),
            final(self).threshold == old(self).threshold,
            final(self).guardians@.len() == old(self).guardians@.len(),
            valid_addr(addr@) ==> r == old(self).guardians@.len() && forall|k: int|
                0 <= k < old(self).guardians@.len() ==> (#[trigger] final(self).guardians@[k]).registered() == old(self).guardians@[k].registered().remove(
                    addr@,
                ),
            !valid_addr(addr@) ==> r == 0 && final(self).guardians@ == old(self).guardians@,
    {
        let n = self.guardians.len();
        let ghost old_gs = old(self).guardians@;
        let mut removed: usize = 0;
        let mut peer: usize = 0;
        while peer < n
            invariant
                self.wf(),
                n == self.guardians@.len(),
                n == old_gs.len(),
                self.threshold == old(self).threshold,
                old(self).guardians@ == old_gs,
                0 <= peer <= n,
                valid_addr(addr@) ==> removed == peer && forall|k: int|
                    0 <= k < peer ==> (#[trigger] self.guardians@[k]).registered()
                        == old_gs[k].registered().remove(addr@),
                !valid_addr(addr@) ==> removed == 0,
                !valid_addr(addr@) ==> self.guardians@ == old_gs,
                forall|k: int| peer <= k < n ==> self.guardians@[k] == old_gs[k],
            decreases n - peer,
        {
            let accepted = self.remove_gateway(peer, addr);
            if accepted {
                removed += 1;
            }
            peer += 1;
        }
        removed
    }

    /// The registered gateways, from one guardian's local view (`Some(p)`,
    /// accepted without federation-wide guarantees) or as the
    /// federation-agreed view (`None`): the first guardian's registry that a
    /// quorum of `n - t` guardians report identically as an address set.
    /// Right after registrations or removals the registries may still
    /// disagree; the agreed view then fails with `NoConsensus` and the
    /// caller retries once convergence is expected.
    pub fn list_gateways(&self, peer: Option<usize>) -> (r: Result<Vec<Gateway>, ApiError>)
        requires
            self.wf(),
            peer matches Some(p) ==> p < self.guardians@.len(),
        ensures
            ({
                let gs = self.guardians@;
                let q = self.quorum_size();
                match peer {
                    Some(p) => r matches Ok(l) && l@ == gs[p as int].gateways@,
                    None => {
                        &&& (r is Ok <==> first_quorum_index(gs, q) >= 0)
                        &&& (r matches Ok(l) ==> l@ == gs[first_quorum_index(gs, q)].gateways@)
                        &&& (r is Err ==> r == Err::<Vec<Gateway>, ApiError>(ApiError::NoConsensus))
                    },
                }
            }),
    {
        let ghost gs = self.guardians@;
        match peer {
            Some(p) => Ok(self.guardians[p].list()),
            None => {
                let n = self.guardians.len();
                let q = n - self.threshold;
                let mut i: usize = 0;
                while i < n
                    invariant
                        peer is None,
                        self.wf(),
                        self.guardians@ == gs,
                        n == gs.len(),
                        q == n - self.threshold,
                        0 <= i <= n,
                        forall|k: int| 0 <= k < i ==> !quorum_at(gs, q as nat, k),
                    decreases n - i,
                {
                    let mut count: usize = 0;
                    let mut j: usize = 0;
                    while j < n
                        invariant
                            self.wf(),
                            self.guardians@ == gs,
                            n == gs.len(),
                            i < n,
                            0 <= j <= n,
                            count == agree_count(gs.take(j as int), gs[i as int].registered()),
                            count <= j,
                        decreases n - j,
                    {
                        proof {
                            lemma_agree_count_take_step(gs, gs[i as int].registered(), j as int);
                        }
                        if registry_set_eq(&self.guardians[i], &self.guardians[j]) {
                            count += 1;
                        }
                        j += 1;
                    }
                    proof {
                        assert(gs.take(n as int) =~= gs);
                    }
                    if count >= q {
                        proof {
                            lemma_first_quorum_is(gs, q as nat, 0, i as int);
                        }
                        return Ok(self.guardians[i].list());
                    }
                    i += 1;
                }
                proof {
                    lemma_first_quorum_none(gs, q as nat, 0);
                }
                Err(ApiError::NoConsensus)
            },
        }
    }

    /// Choose a gateway for a payment.  Without an invoice, the head of the
    /// federation-agreed list; with one, the agreed gateway the invoice's
    /// routing hint names — the gateway that issued it — falling back to the
    /// head when the hinted gateway is no longer registered.  Fails with
    /// `NoGatewaysAvailable` iff the agreed registry is empty, and passes a
    /// failed agreement through.
    pub fn select_gateway(&self, invoice: Option<&Invoice>) -> (r: Result<Gateway, ApiError>)
        requires
            self.wf(),
        ensures
            ({
                let gs = self.guardians@;
                let q = self.quorum_size();
                let f = first_quorum_index(gs, q);
                &&& (invoice is None ==> r == selected_without_invoice(gs, q))
                &&& (f < 0 ==> r == Err::<Gateway, ApiError>(ApiError::NoConsensus))
                &&& (f >= 0 ==> {
                    let l = gs[f].gateways@;
                    &&& (l.len() == 0 ==> r == Err::<Gateway, ApiError>(
                        ApiError::NoGatewaysAvailable,
                    ))
                    &&& (l.len() > 0 ==> r is Ok)
                    &&& (r matches Ok(g) ==> exists|i: int| 0 <= i < l.len() && g == l[i])
                    &&& (match invoice {
                        Some(inv) => {
                            &&& (contains_addr(l, inv.gateway_hint@) ==> (r matches Ok(g) && g@
                                == inv.gateway_hint@))
                            &&& (l.len() > 0 && !contains_addr(l, inv.gateway_hint@) ==> (
                            r matches Ok(g) && g == l[0]))
                        },
                        None => l.len() > 0 ==> (r matches Ok(g) && g == l[0]),
                    })
                })
            }),
    {
        let agreed = match self.list_gateways(None) {
            Ok(l) => l,
            Err(e) => {
                return Err(e);
            },
        };
        if agreed.len() == 0 {
            return Err(ApiError::NoGatewaysAvailable);
        }
        match invoice {
            None => Ok(agreed[0].clone()),
            Some(inv) => {
                match find_addr(&agreed, &inv.gateway_hint) {
                    Some(i) => Ok(agreed[i].clone()),
                    None => Ok(agreed[0].clone()),
                }
            },
        }
    }
}

/// Law: once registration has converged — every guardian reports the same
/// address set `s` — the federation-agreed view exists, is found at the
/// first guardian, and contains exactly `s`; and every individual guardian's
/// view agrees with it.
pub proof fn lemma_converged_views_agree(fed: Federation, s: Set<Seq<char>>)
    requires
        fed.wf(),
        forall|i: int|
            0 <= i < fed.guardians@.len() ==> (#[trigger] fed.guardians@[i]).registered() == s,
    ensures
        first_quorum_index(fed.guardians@, fed.quorum_size()) == 0,
        fed.guardians@[0].registered() == s,
        forall|p: int|
            0 <= p < fed.guardians@.len() ==> (#[trigger] fed.guardians@[p]).registered()
                == fed.guardians@[0].registered(),
{
    let gs = fed.guardians@;
    let q = fed.quorum_size();
    lemma_agree_count_all(gs, s);
    assert(gs[0].registered() == s);
    assert(quorum_at(gs, q, 0));
    lemma_first_quorum_is(gs, q, 0, 0);
}

/// The number of guardians reporting `s` and the number reporting a
/// different set `u` never exceed the guardian count together.
proof fn lemma_agree_counts_disjoint(
    gs: Seq<GuardianRegistry>,
    s: Set<Seq<char>>,
    u: Set<Seq<char>>,
)
    requires
        s != u,
    ensures
        agree_count(gs, s) + agree_count(gs, u) <= gs.len(),
    decreases gs.len(),
{
    if gs.len() > 0 {
        lemma_agree_counts_disjoint(gs.drop_last(), s, u);
    }
}

/// Law: the federation-agreed registry is unique.  Each guardian reports
/// exactly one address set, so with a majority quorum — `n - t` out of
/// `n == 3 * t + 1` guardians — two quorums always share a guardian, and
/// any two guardians a quorum agrees with report the same set.
pub proof fn lemma_agreed_set_unique(gs: Seq<GuardianRegistry>, q: nat, i: int, j: int)
    requires
        2 * q > gs.len(),
        0 <= i < gs.len(),
        0 <= j < gs.len(),
        quorum_at(gs, q, i),
        quorum_at(gs, q, j),
    ensures
        gs[i].registered() == gs[j].registered(),
{
    if gs[i].registered() != gs[j].registered() {
        lemma_agree_counts_disjoint(gs, gs[i].registered(), gs[j].registered());
    }
}

/// Law: gateway selection without an invoice is deterministic for a fixed
/// registry snapshot: two federations in the same snapshot select the same
/// gateway (selection is a function of the snapshot alone).
pub proof fn lemma_select_deterministic(a: Federation, b: Federation)
    requires
        a.guardians@ == b.guardians@,
        a.threshold == b.threshold,
    ensures
        selected_without_invoice(a.guardians@, a.quorum_size()) == selected_without_invoice(
            b.guardians@,
            b.quorum_size(),
        ),
{
}

/// Law: in a duplicate-free gateway list, the gateway carrying a hinted
/// address is unique, so selection by invoice hint cannot be ambiguous.
pub proof fn lemma_issuer_selection_unique(l: Seq<Gateway>, hint: Seq<char>, g1: Gateway, g2: Gateway)
    requires
        no_dup_addrs(l),
        g1@ == hint,
        g2@ == hint,
        exists|i: int| 0 <= i < l.len() && g1 == l[i],
        exists|j: int| 0 <= j < l.len() && g2 == l[j],
    ensures
        g1 == g2,
{
    let i = choose|i: int| 0 <= i < l.len() && g1 == l[i];
    let j = choose|j: int| 0 <= j < l.len() && g2 == l[j];
    if i != j {
        assert(l[i]@ != l[j]@);
    }
}

/// Law: registration is an idempotent goal.  Registering the same address a
/// second time leaves the registry content exactly as after the first
/// registration, and removing an address twice likewise; together with the
/// registration contracts this is what makes repeated `add` and `remove`
/// calls report success without duplicating or re-deleting anything.
pub proof fn lemma_registration_idempotent(s: Set<Seq<char>>, a: Seq<char>)
    ensures
        s.insert(a).insert(a) == s.insert(a),
        s.remove(a).remove(a) == s.remove(a),
{
    assert(s.insert(a).insert(a) =~= s.insert(a));
    assert(s.remove(a).remove(a) =~= s.remove(a));
}

} // verus!

