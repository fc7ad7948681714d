//! Probing an I2C bus: finding the devices on it, and finding how many bytes
//! a device accepts in one write or gives in one read.
use vstd::prelude::*;

verus! {

/// The first address a bus scan probes.
pub const FIRST_ADDRESS: u8 = 1;

/// The last address a bus scan probes.
pub const LAST_ADDRESS: u8 = 127;

/// The largest transfer a probe tries, in bytes.
pub const MAX_TRANSFER: usize = 1024;

/// The addresses that acknowledged, in the order probed, when `acks[i]` says
/// whether address `i + 1` acknowledged.
pub open spec fn acked_addresses(acks: Seq<bool>) -> Seq<u8>
    decreases acks.len(),
{
    if acks.len() == 0 {
        Seq::empty()
    } else {
        let rest = acked_addresses(acks.drop_last());
        if acks.last() {
            rest.push(acks.len() as u8)
        } else {
            rest
        }
    }
}

/// A scan of the bus: every address from 1 to 127 is probed in turn (the
/// caller writes to it), and the ones that acknowledge are collected.
pub struct BusScan {
    next: u8,
    found: Vec<u8>,
    acks: Ghost<Seq<bool>>,
}

impl BusScan {
    /// What the devices answered so far: entry `i` for address `i + 1`.
    pub closed spec fn acks(&self) -> Seq<bool> {
        self.acks@
    }

    #[verifier::type_invariant]
    spec fn inv(&self) -> bool {
        &&& 1 <= self.next <= 128
        &&& self.acks@.len() == self.next - 1
        &&& self.found@ == acked_addresses(self.acks@)
    }

    /// A scan that has probed nothing yet.
    pub fn new() -> (scan: Self)
        ensures
            scan.acks() == Seq::<bool>::empty(),
    {
        BusScan { next: FIRST_ADDRESS, found: Vec::new(), acks: Ghost(Seq::empty()) }
    }

    /// The address to probe next, if any is left.
    pub fn next_address(&self) -> (address: Option<u8>)
        ensures
            self.acks().len() < LAST_ADDRESS ==> address == Some((self.acks().len() + 1) as u8),
            self.acks().len() >= LAST_ADDRESS ==> address is None,
            self.acks().len() <= LAST_ADDRESS,
    {
        proof { use_type_invariant(self); }
        if self.next <= LAST_ADDRESS {
            Some(self.next)
        } else {
            None
        }
    }

    /// Records whether the address returned by `next_address` acknowledged.
    /// Once every address was probed, nothing changes.
    pub fn record(&mut self, acked: bool)
        ensures
            old(self).acks().len() < LAST_ADDRESS ==> final(self).acks() == old(self).acks().push(acked),
            old(self).acks().len() >= LAST_ADDRESS ==> final(self).acks() == old(self).acks(),
    {
        proof { use_type_invariant(&*self); }
        if self.next <= LAST_ADDRESS {
            let ghost old_acks = self.acks@;
            let mut found = self.found.clone();
            if acked {
                found.push(self.next);
            }
            let ghost new_acks = old_acks.push(acked);
            assert(new_acks.drop_last() =~= old_acks);
            *self = BusScan { next: self.next + 1, found, acks: Ghost(new_acks) };
        }
    }

    /// The addresses that acknowledged.
    pub fn found(&self) -> (found: Vec<u8>)
        ensures
            found@ == acked_addresses(self.acks()),
    {
        proof { use_type_invariant(self); }
        self.found.clone()
    }
}

/// The addresses a scan finds are in increasing order and between 1 and 127,
/// and an address is found exactly when it acknowledged.
pub proof fn lemma_found_addresses(acks: Seq<bool>)
    requires
        acks.len() <= LAST_ADDRESS,
    ensures
        forall|i: int, j: int|
            0 <= i < j < acked_addresses(acks).len() ==> acked_addresses(acks)[i] < acked_addresses(
                acks,
            )[j],
        forall|i: int|
            0 <= i < acked_addresses(acks).len() ==> 1 <= #[trigger] acked_addresses(acks)[i]
                <= acks.len(),
        forall|i: int|
            0 <= i < acks.len() ==> (#[trigger] acks[i] <==> acked_addresses(acks).contains((i + 1) as u8)),
    decreases acks.len(),
{
    if acks.len() > 0 {
        let rest = acks.drop_last();
        lemma_found_addresses(rest);
        assert forall|i: int| 0 <= i < acks.len() implies (#[trigger] acks[i] <==> acked_addresses(
            acks,
        ).contains((i + 1) as u8)) by {
            let a = i + 1;
            if a < acks.len() {
                assert(acks[a - 1] == rest[a - 1]);
                if acked_addresses(acks).contains(a as u8) && !acked_addresses(rest).contains(a as u8) {
                    let k = choose|k: int| 0 <= k < acked_addresses(acks).len() && acked_addresses(acks)[k] == a as u8;
                    assert(k == acked_addresses(rest).len());
                }
                if acked_addresses(rest).contains(a as u8) {
                    let k = choose|k: int| 0 <= k < acked_addresses(rest).len() && acked_addresses(rest)[k] == a as u8;
                    assert(acked_addresses(acks)[k] == a as u8);
                }
            } else {
                if acks.last() {
                    assert(acked_addresses(acks)[acked_addresses(rest).len() as int] == a as u8);
                } else {
                    if acked_addresses(acks).contains(a as u8) {
                        let k = choose|k: int| 0 <= k < acked_addresses(acks).len() && acked_addresses(acks)[k] == a as u8;
                        assert(acked_addresses(rest)[k] <= rest.len());
                    }
                }
            }
        }
    }
}

/// A transfer probe: transfers of 1, 2, ... up to 1024 bytes are tried in
/// turn (the caller performs them) until one fails. The limit is the largest
/// size that worked.
pub struct TransferProbe {
    next: usize,
    stopped: bool,
    results: Ghost<Seq<bool>>,
}

impl TransferProbe {
    /// The outcomes so far: entry `i` for a transfer of `i + 1` bytes.
    pub closed spec fn results(&self) -> Seq<bool> {
        self.results@
    }

    /// The largest size tried with success, all smaller sizes having worked.
    pub closed spec fn limit_spec(&self) -> nat {
        (self.next - 1) as nat
    }

    /// True when a transfer failed.
    pub closed spec fn stopped(&self) -> bool {
        self.stopped
    }

    #[verifier::type_invariant]
    spec fn inv(&self) -> bool {
        &&& 1 <= self.next <= MAX_TRANSFER + 1
        &&& self.results@.len() == self.next - 1 + (if self.stopped { 1int } else { 0int })
        &&& forall|i: int| 0 <= i < self.next - 1 ==> #[trigger] self.results@[i]
        &&& self.stopped ==> !self.results@[self.next - 1]
    }

    /// A probe that has tried nothing yet.
    pub fn new() -> (probe: Self)
        ensures
            probe.results() == Seq::<bool>::empty(),
            probe.limit_spec() == 0,
            !probe.stopped(),
    {
        TransferProbe { next: 1, stopped: false, results: Ghost(Seq::empty()) }
    }

    /// The size to try next, if the probe goes on.
    pub fn next_size(&self) -> (size: Option<usize>)
        ensures
            !self.stopped() && self.limit_spec() < MAX_TRANSFER ==> size == Some((self.limit_spec() + 1) as usize),
            self.stopped() || self.limit_spec() >= MAX_TRANSFER ==> size is None,
    {
        proof { use_type_invariant(self); }
        if !self.stopped && self.next <= MAX_TRANSFER {
            Some(self.next)
        } else {
            None
        }
    }

    /// Records whether the transfer of the size returned by `next_size`
    /// worked. Once the probe stopped or tried every size, nothing changes.
    pub fn record(&mut self, ok: bool)
        ensures
            !old(self).stopped() && old(self).limit_spec() < MAX_TRANSFER ==> {
                &&& final(self).results() == old(self).results().push(ok)
                &&& final(self).stopped() == !ok
                &&& final(self).limit_spec() == old(self).limit_spec() + (if ok { 1nat } else { 0nat })
            },
            old(self).stopped() || old(self).limit_spec() >= MAX_TRANSFER ==> {
                &&& final(self).results() == old(self).results()
                &&& final(self).stopped() == old(self).stopped()
                &&& final(self).limit_spec() == old(self).limit_spec()
            },
    {
        proof { use_type_invariant(&*self); }
        if !self.stopped && self.next <= MAX_TRANSFER {
            let ghost new_results = self.results@.push(ok);
            if ok {
                *self = TransferProbe { next: self.next + 1, stopped: false, results: Ghost(new_results) };
            } else {
                *self = TransferProbe { next: self.next, stopped: true, results: Ghost(new_results) };
            }
        }
    }

    /// The largest size that worked (0 when even one byte failed).
    pub fn limit(&self) -> (limit: usize)
        ensures
            limit == self.limit_spec(),
            limit <= MAX_TRANSFER,
            forall|i: int| 0 <= i < limit ==> #[trigger] self.results()[i],
            self.stopped() ==> !self.results()[limit as int],
    {
        proof { use_type_invariant(self); }
        self.next - 1
    }
}

} // verus!
