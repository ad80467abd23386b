// Bounded scans over a terminal inventory's records: the shared-activation
// pair scan, the live native-disposal cursor and the invocation-completion
// cursor. Each is charged per visit and restarts when what it scans moves.
use vstd::prelude::*;
use crate::native_custody::{join_shared_activation, native_view, PrivateNativeHold};
use crate::native_hold::PrivateNativeStatus;
use crate::settling_release::PrivateSettlingRelease;

verus! {

/// What one terminal visit established.
#[derive(Debug, Clone, Copy, PartialEq, Eq, Structural)]
pub enum PrivateTerminalVisit {
    SettlementStillOwned,
    InvocationOutstanding,
    InvocationScanning,
    InvocationCompleted,
    /// A kept custody place was visited; `retired` when its custody went.
    CustodyRetired { retired: bool },
    /// The visited custody belongs to another invocation.
    OtherInvocation,
}

/// One row of one obligation class is examined per charged visit. Any move
/// between the store's classes invalidates the scan before it can certify.
#[derive(Debug, Clone, Copy, PartialEq, Eq, Structural)]
pub struct PrivateInvocationCompletionCursor {
    pub epoch: Option<u64>,
    pub class: u8,
    pub row: usize,
    pub custody: usize,
}

impl PrivateInvocationCompletionCursor {
    pub fn new() -> (r: Self)
        ensures
            r == (PrivateInvocationCompletionCursor { epoch: None, class: 0, row: 0, custody: 0 }),
    {
        PrivateInvocationCompletionCursor { epoch: None, class: 0, row: 0, custody: 0 }
    }

    /// Begin the scan again from the first class, against `epoch`.
    pub fn restart(&mut self, epoch: Option<u64>)
        ensures
            *final(self) == (PrivateInvocationCompletionCursor {
                epoch,
                class: 0,
                row: 0,
                ..*old(self)
            }),
    {
        self.epoch = epoch;
        self.class = 0;
        self.row = 0;
    }

    /// Record what the examined row said: a match means an invocation is
    /// outstanding and the scan restarts; a non-match moves to the next row;
    /// an exhausted class moves to the first row of the next class.
    pub fn observe(&mut self, matching: Option<bool>) -> (r: PrivateTerminalVisit)
        requires
            matching == Some(false) ==> old(self).row < usize::MAX,
            matching is None ==> old(self).class < u8::MAX,
        ensures
            matching == Some(true) ==> r == PrivateTerminalVisit::InvocationOutstanding
                && *final(self) == (PrivateInvocationCompletionCursor {
                class: 0,
                row: 0,
                ..*old(self)
            }),
            matching == Some(false) ==> r == PrivateTerminalVisit::InvocationScanning
                && *final(self) == (PrivateInvocationCompletionCursor {
                row: (old(self).row + 1) as usize,
                ..*old(self)
            }),
            matching is None ==> r == PrivateTerminalVisit::InvocationScanning && *final(self) == (
            PrivateInvocationCompletionCursor {
                class: (old(self).class + 1) as u8,
                row: 0,
                ..*old(self)
            }),
    {
        match matching {
            Some(true) => {
                let epoch = self.epoch;
                self.restart(epoch);
                PrivateTerminalVisit::InvocationOutstanding
            },
            Some(false) => {
                self.row = self.row + 1;
                PrivateTerminalVisit::InvocationScanning
            },
            None => {
                self.class = self.class + 1;
                self.row = 0;
                PrivateTerminalVisit::InvocationScanning
            },
        }
    }
}

/// Progress through completed native records while the first executor is
/// still alive.
#[derive(Debug, Clone, Copy, PartialEq, Eq, Structural)]
pub struct PrivateLiveNativeDisposal {
    pub index: usize,
    /// The recipient the dependency scan was last pointed at.
    pub scan_recipient: usize,
    pub scanning: bool,
    pub due: bool,
}

impl PrivateLiveNativeDisposal {
    pub fn new() -> (r: Self)
        ensures
            r == (PrivateLiveNativeDisposal { index: 0, scan_recipient: 0, scanning: false, due: false }),
    {
        PrivateLiveNativeDisposal { index: 0, scan_recipient: 0, scanning: false, due: false }
    }

    /// Stop the dependency scan; the next visit begins it again.
    pub fn invalidate(&mut self)
        ensures
            *final(self) == (PrivateLiveNativeDisposal { scanning: false, ..*old(self) }),
    {
        self.scanning = false;
    }

    /// Move to the next completed record.
    pub fn next(&mut self)
        ensures
            *final(self) == (PrivateLiveNativeDisposal {
                index: if old(self).index < usize::MAX {
                    (old(self).index + 1) as usize
                } else {
                    old(self).index
                },
                scanning: false,
                ..*old(self)
            }),
    {
        self.index = self.index.saturating_add(1);
        self.invalidate();
    }
}

/// How many target/donor pairs one visit examines at most.
pub const PAIRS_PER_VISIT: usize = 8;

/// A bounded scan over source-owned shared-activation receipts. A new source
/// effect restarts the work count without resetting the position, so later
/// records are not starved.
#[derive(Debug, Clone, Copy, PartialEq, Eq, Structural)]
pub struct PrivateSharedActivationScan {
    pub next: usize,
    pub remaining: usize,
    pub changed: bool,
}

/// What a visit may do to the releases: at most the one target it joined is
/// changed, and only its native obligation, and only by being reconciled.
pub open spec fn releases_joined_at_most_once<E>(
    pre: Seq<PrivateSettlingRelease<E>>,
    post: Seq<PrivateSettlingRelease<E>>,
    joined: nat,
) -> bool {
    &&& post.len() == pre.len()
    &&& joined <= 1
    &&& forall|i: int|
        0 <= i < pre.len() ==> {
            &&& (#[trigger] post[i]).incarnation == pre[i].incarnation
            &&& post[i].custody == pre[i].custody
            &&& post[i].press_custody == pre[i].press_custody
            &&& post[i].native_recorded == pre[i].native_recorded
            &&& post[i].native_attempts == pre[i].native_attempts
            &&& post[i].delivery == pre[i].delivery
            &&& post[i].binding == pre[i].binding
        }
    &&& joined == 0 ==> forall|i: int| 0 <= i < pre.len() ==> (#[trigger] post[i]).native == pre[i].native
    &&& joined == 1 ==> exists|t: int|
        0 <= t < pre.len() && (forall|i: int|
            0 <= i < pre.len() && i != t ==> (#[trigger] post[i]).native == pre[i].native)
            && reconciled_native(#[trigger] post[t].native)
}

/// Whether a release carries a native obligation the source has reconciled.
pub open spec fn reconciled_native<E>(n: Option<PrivateNativeHold<E>>) -> bool {
    match n {
        Some(n) => native_view(n).status == PrivateNativeStatus::NativeReconciled,
        None => false,
    }
}

/// Where the pair counter lands after `k > 0` steps from `start`.
pub open spec fn advanced(start: nat, k: nat, pairs: nat) -> nat {
    ((start + k - 1) % (pairs as int) + 1) as nat
}

impl PrivateSharedActivationScan {
    pub fn new() -> (r: Self)
        ensures
            r == (PrivateSharedActivationScan { next: 0, remaining: 0, changed: false }),
    {
        PrivateSharedActivationScan { next: 0, remaining: 0, changed: false }
    }

    /// A source effect happened: the next visit starts a full round.
    pub fn invalidate(&mut self)
        ensures
            *final(self) == (PrivateSharedActivationScan { changed: true, ..*old(self) }),
    {
        self.changed = true;
    }

    /// Whether the scan still has work.
    pub fn pending(&self) -> (r: bool)
        ensures
            r == (self.changed || self.remaining != 0),
    {
        self.changed || self.remaining != 0
    }

    /// Examine at most `PAIRS_PER_VISIT` ordered (target, donor) pairs of
    /// distinct releases, joining a target with its donor's retirement
    /// receipt. Stops after the first join, giving recording and delivery a
    /// chance at once. Returns how many pairs were examined and joined, or
    /// `None` when there was nothing to do.
    pub fn visit<E>(&mut self, releases: &mut Vec<PrivateSettlingRelease<E>>) -> (r: Option<
        (usize, usize),
    >)
        requires
            old(releases)@.len() * old(releases)@.len() <= usize::MAX,
        ensures
            old(releases)@.len() < 2 ==> r is None && *final(self) == (PrivateSharedActivationScan {
                remaining: 0,
                changed: false,
                ..*old(self)
            }) && final(releases)@ == old(releases)@,
            old(releases)@.len() >= 2 ==> {
                let pairs = old(releases)@.len() * old(releases)@.len();
                let budget = if old(self).changed {
                    pairs as int
                } else {
                    old(self).remaining as int
                };
                &&& !final(self).changed
                &&& budget == 0 ==> r is None && final(self).remaining == 0 && final(self).next
                    == old(self).next && final(releases)@ == old(releases)@
                &&& budget > 0 ==> r is Some && {
                    let (observed, joined) = r.unwrap();
                    &&& 1 <= observed <= PAIRS_PER_VISIT
                    &&& observed <= budget
                    &&& final(self).remaining == budget - observed
                    &&& final(self).next == advanced(
                        (old(self).next % (pairs as usize)) as nat,
                        observed as nat,
                        pairs as nat,
                    )
                    &&& (joined == 0 && observed < PAIRS_PER_VISIT ==> observed == budget)
                    &&& releases_joined_at_most_once(
                        old(releases)@,
                        final(releases)@,
                        joined as nat,
                    )
                }
            },
    {
        let len = releases.len();
        if len < 2 {
            self.remaining = 0;
            self.changed = false;
            return None;
        }
        let pairs = len * len;
        if self.changed {
            self.remaining = pairs;
            self.changed = false;
        }
        if self.remaining == 0 {
            return None;
        }
        let ghost pre = releases@;
        let ghost start = (self.next % pairs) as nat;
        let ghost budget = self.remaining as int;
        let mut observed: usize = 0;
        let mut joined: usize = 0;
        proof {
            assert(releases_joined_at_most_once(pre, releases@, 0));
            assert(pairs >= 4) by (nonlinear_arith)
                requires
                    len >= 2,
                    pairs == len * len,
            ;
        }
        while observed < PAIRS_PER_VISIT && self.remaining != 0 && joined == 0
            invariant
                len == releases@.len(),
                len >= 2,
                pairs == len * len,
                pairs <= usize::MAX,
                pairs >= 4,
                start == (old(self).next % (pairs as usize)) as nat,
                !self.changed,
                joined <= 1,
                joined == 1 ==> observed >= 1,
                observed <= PAIRS_PER_VISIT,
                self.remaining + observed == budget,
                observed == 0 ==> self.next == old(self).next,
                observed > 0 ==> self.next == advanced(start, observed as nat, pairs as nat),
                releases_joined_at_most_once(pre, releases@, joined as nat),
                pre.len() == len,
            decreases PAIRS_PER_VISIT - observed,
        {
            proof {
                if observed > 0 {
                    assert(self.next <= pairs) by {
                        vstd::arithmetic::div_mod::lemma_mod_pos_bound(
                            (start + observed - 1) as int,
                            pairs as int,
                        );
                    }
                }
            }
            self.next = self.next % pairs;
            proof {
                if observed > 0 {
                    vstd::arithmetic::div_mod::lemma_add_mod_noop(
                        (start + observed - 1) as int,
                        1,
                        pairs as int,
                    );
                    vstd::arithmetic::div_mod::lemma_small_mod(1, pairs as nat);
                    assert(self.next == (start + observed) % (pairs as int));
                } else {
                    vstd::arithmetic::div_mod::lemma_small_mod(start, pairs as nat);
                }
            }
            let target = self.next / len;
            let donor = self.next % len;
            proof {
                vstd::arithmetic::div_mod::lemma_fundamental_div_mod(self.next as int, len as int);
                assert(target < len) by (nonlinear_arith)
                    requires
                        target == self.next / len,
                        self.next < len * len,
                        len > 0,
                ;
            }
            self.next = self.next + 1;
            self.remaining = self.remaining - 1;
            observed = observed + 1;
            if target == donor {
                continue;
            }
            let ghost before = releases@;
            let mut native = releases[target].native.take();
            let done = match (&mut native, &releases[donor].native) {
                (Some(t), Some(d)) => join_shared_activation(t, d),
                _ => false,
            };
            let ghost taken = native;
            releases[target].native = native;
            proof {
                assert forall|i: int| 0 <= i < len && i != target implies releases@[i] == before[i] by {}
                assert(releases@[target as int].native == taken);
                if done {
                    assert(reconciled_native(releases@[target as int].native));
                    assert(forall|i: int|
                        0 <= i < pre.len() && i != target ==> (#[trigger] releases@[i]).native
                            == pre[i].native);
                } else {
                    assert(releases@[target as int].native == before[target as int].native);
                }
            }
            if done {
                joined = joined + 1;
            }
        }
        Some((observed, joined))
    }
}

} // verus!
