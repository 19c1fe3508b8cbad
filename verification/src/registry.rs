//! Discovery: which addresses on the bus answer, in ascending order.
//!
//! At startup every candidate address is probed once with an angle-register
//! request. The transport work — writing the probe and reading within the
//! timeout — happens outside the library; what each probe yielded comes
//! back as a [`ReadOutcome`], and discovery classifies them: an address
//! that answered with data is online, one that stayed silent or failed is
//! skipped. A sweep that finds no device at all is a fatal startup error.

use vstd::prelude::*;

verus! {

/// Outcome of one bounded transport read issued after a request.
#[derive(Debug)]
pub enum ReadOutcome {
    /// At least one byte arrived; the payload is the response window as
    /// it was read.
    Data(Vec<u8>),
    /// The read returned without a byte inside the timeout.
    Silent,
    /// The write or the read itself failed.
    Failed,
}

/// Why discovery could not produce a registry.
#[derive(Debug, Clone, Copy, PartialEq, Eq, Structural)]
pub enum DiscoveryError {
    /// No candidate address answered: there is nothing to poll.
    NoDevices,
}

/// The addresses among candidates `1..=n` whose probe answered with data,
/// in ascending order. Candidate address `a` corresponds to `outcomes[a - 1]`.
pub open spec fn responsive_prefix(outcomes: Seq<ReadOutcome>, n: nat) -> Seq<u8>
    recommends
        n <= outcomes.len(),
        outcomes.len() <= 255,
    decreases n,
{
    if n == 0 {
        Seq::empty()
    } else {
        let rest = responsive_prefix(outcomes, (n - 1) as nat);
        if outcomes[n - 1] is Data {
            rest.push(n as u8)
        } else {
            rest
        }
    }
}

/// The full discovery result over all probe outcomes.
pub open spec fn discovered(outcomes: Seq<ReadOutcome>) -> Seq<u8> {
    responsive_prefix(outcomes, outcomes.len())
}

/// The ordered list of responsive device addresses, fixed after discovery.
#[derive(Debug)]
pub struct DeviceRegistry {
    addresses: Vec<u8>,
}

impl View for DeviceRegistry {
    type V = Seq<u8>;

    closed spec fn view(&self) -> Seq<u8> {
        self.addresses@
    }
}

impl DeviceRegistry {
    /// Every registry is non-empty and lists its addresses in strictly
    /// ascending order, so each address appears at exactly one position.
    pub open spec fn wf(&self) -> bool {
        &&& self@.len() > 0
        &&& forall|i: int, j: int| 0 <= i < j < self@.len() ==> self@[i] < self@[j]
        &&& forall|i: int| 0 <= i < self@.len() ==> 1 <= self@[i]
    }

    /// Number of registered devices.
    pub fn len(&self) -> (r: usize)
        ensures
            r == self@.len(),
    {
        self.addresses.len()
    }

    /// The address at ordinal position `i`.
    pub fn address_at(&self, i: usize) -> (r: u8)
        requires
            i < self@.len(),
        ensures
            r == self@[i as int],
    {
        self.addresses[i]
    }

    /// The first ordinal position holding `address`, if the address is
    /// registered at all.
    pub fn position_of(&self, address: u8) -> (r: Option<usize>)
        ensures
            match r {
                Some(p) => p < self@.len() && self@[p as int] == address && forall|i: int|
                    0 <= i < p ==> self@[i] != address,
                None => forall|i: int| 0 <= i < self@.len() ==> self@[i] != address,
            },
    {
        let mut i: usize = 0;
        while i < self.addresses.len()
            invariant
                i <= self@.len(),
                forall|k: int| 0 <= k < i ==> self@[k] != address,
            decreases self@.len() - i,
        {
            if self.addresses[i] == address {
                return Some(i);
            }
            i = i + 1;
        }
        None
    }
}

/// Classifies the probe outcomes of candidate addresses `1..=outcomes.len()`
/// into the device registry, or reports that no device answered.
pub fn discover(outcomes: &Vec<ReadOutcome>) -> (r: Result<DeviceRegistry, DiscoveryError>)
    requires
        outcomes@.len() <= 255,
    ensures
        match r {
            Ok(reg) => reg@ == discovered(outcomes@) && reg.wf(),
            Err(e) => e == DiscoveryError::NoDevices && discovered(outcomes@) == Seq::<u8>::empty(),
        },
{
    let mut addresses: Vec<u8> = Vec::new();
    let mut i: usize = 0;
    while i < outcomes.len()
        invariant
            i <= outcomes@.len(),
            outcomes@.len() <= 255,
            addresses@ == responsive_prefix(outcomes@, i as nat),
        decreases outcomes@.len() - i,
    {
        match &outcomes[i] {
            ReadOutcome::Data(_) => {
                addresses.push((i + 1) as u8);
            },
            ReadOutcome::Silent => {},
            ReadOutcome::Failed => {},
        }
        i = i + 1;
    }
    if addresses.len() == 0 {
        assert(discovered(outcomes@) =~= Seq::<u8>::empty());
        Err(DiscoveryError::NoDevices)
    } else {
        let reg = DeviceRegistry { addresses };
        proof {
            lemma_responsive_prefix_sorted(outcomes@, outcomes@.len());
        }
        Ok(reg)
    }
}

/// The responsive addresses of candidates `1..=n` are strictly ascending
/// and drawn from `1..=n`.
pub proof fn lemma_responsive_prefix_sorted(outcomes: Seq<ReadOutcome>, n: nat)
    requires
        n <= outcomes.len(),
        outcomes.len() <= 255,
    ensures
        forall|i: int, j: int|
            0 <= i < j < responsive_prefix(outcomes, n).len() ==> responsive_prefix(outcomes, n)[i]
                < responsive_prefix(outcomes, n)[j],
        forall|i: int|
            0 <= i < responsive_prefix(outcomes, n).len() ==> 1 <= #[trigger] responsive_prefix(
                outcomes,
                n,
            )[i] <= n,
    decreases n,
{
    if n > 0 {
        lemma_responsive_prefix_sorted(outcomes, (n - 1) as nat);
        let rest = responsive_prefix(outcomes, (n - 1) as nat);
        let cur = responsive_prefix(outcomes, n);
        assert(n as u8 == n);
        if outcomes[n - 1] is Data {
            assert(cur == rest.push(n as u8));
            assert forall|i: int| 0 <= i < cur.len() implies 1 <= #[trigger] cur[i] <= n by {
                if i < rest.len() {
                    assert(cur[i] == rest[i]);
                } else {
                    assert(cur[i] == n as u8);
                }
            }
            assert forall|i: int, j: int| 0 <= i < j < cur.len() implies cur[i] < cur[j] by {
                if j < rest.len() {
                    assert(cur[i] == rest[i] && cur[j] == rest[j]);
                } else {
                    assert(cur[j] == n as u8);
                    assert(cur[i] == rest[i] && rest[i] <= n - 1);
                }
            }
        } else {
            assert(cur == rest);
        }
    }
}

/// Law: an address among the candidates is selected by discovery exactly
/// when its own probe answered with data.
pub proof fn lemma_discovered_membership(outcomes: Seq<ReadOutcome>, a: u8)
    requires
        outcomes.len() <= 255,
        1 <= a <= outcomes.len(),
    ensures
        discovered(outcomes).contains(a) <==> outcomes[a - 1] is Data,
{
    lemma_responsive_prefix_membership(outcomes, outcomes.len(), a);
}

proof fn lemma_responsive_prefix_membership(outcomes: Seq<ReadOutcome>, n: nat, a: u8)
    requires
        n <= outcomes.len(),
        outcomes.len() <= 255,
        1 <= a <= n,
    ensures
        responsive_prefix(outcomes, n).contains(a) <==> outcomes[a - 1] is Data,
    decreases n,
{
    lemma_responsive_prefix_sorted(outcomes, (n - 1) as nat);
    let rest = responsive_prefix(outcomes, (n - 1) as nat);
    if a == n {
        assert(!rest.contains(a)) by {
            assert(forall|i: int| 0 <= i < rest.len() ==> rest[i] <= n - 1);
        };
        if outcomes[n - 1] is Data {
            assert(responsive_prefix(outcomes, n)[rest.len() as int] == a);
        }
    } else {
        lemma_responsive_prefix_membership(outcomes, (n - 1) as nat, a);
        if outcomes[n - 1] is Data {
            let cur = rest.push(n as u8);
            assert(rest.contains(a) ==> cur.contains(a)) by {
                if rest.contains(a) {
                    let i = choose|i: int| 0 <= i < rest.len() && rest[i] == a;
                    assert(cur[i] == a);
                }
            };
            assert(cur.contains(a) ==> rest.contains(a)) by {
                if cur.contains(a) {
                    let i = choose|i: int| 0 <= i < cur.len() && cur[i] == a;
                    assert(i < rest.len() && rest[i] == a);
                }
            };
        }
    }
}

/// Law: discovery is a function of the probe outcomes alone. Two sweeps
/// against an unchanged transport and device set — the same outcome for
/// every candidate — select the same addresses in the same order.
pub proof fn lemma_discovery_idempotent(first: Seq<ReadOutcome>, second: Seq<ReadOutcome>)
    requires
        first == second,
    ensures
        discovered(first) == discovered(second),
{
}

} // verus!
