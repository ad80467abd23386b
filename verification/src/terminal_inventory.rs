// What an instance still owes at its end: the holds it began, the releases
// settling them, and the slot a source installs into before it applies.
use vstd::prelude::*;
use crate::native_custody::{native_view, PrivateNativeHold, PrivateNativePending, pending_empty};
use crate::native_hold::HoldIncarnation;
use crate::settling_release::{
    recipient_output_settled_spec, settling_outcome, writer_settled_spec, PrivateDeliveryCustody,
    PrivateDispatchPhase, PrivateSettlingRelease, handover_unfinished_spec,
};
use crate::terminal_schedule::PrivateReceiptStep;
use crate::terminal_scan::{PrivateLiveNativeDisposal, PrivateSharedActivationScan};

verus! {

/// One hold this executor began, and what answering it needs.
pub struct PrivateHoldRecord<E> {
    /// The whole minted identity, not the number inside it.
    pub incarnation: HoldIncarnation,
    /// What this press owes its recipient, and how far it has got.
    pub custody: PrivateDeliveryCustody,
    /// The native obligation this press began; `None` while it is still in
    /// the inventory's pending slot.
    pub native: Option<PrivateNativeHold<E>>,
}

impl<E> PrivateHoldRecord<E> {
    /// Whether this press's own event is still owed to its recipient.
    pub fn owes_press_handover(&self) -> (r: bool)
        ensures
            r == (self.custody.completion && (self.custody.dispatch
                == crate::settling_release::PrivateDispatchPhase::Untaken || self.custody.dispatch
                == crate::settling_release::PrivateDispatchPhase::Pending)),
    {
        self.custody.owes_handover()
    }
}

/// The obligations an instance still carries.
pub struct PrivateTerminalInventory<E> {
    pub holds: Vec<PrivateHoldRecord<E>>,
    pub settling: Vec<PrivateSettlingRelease<E>>,
    pub native_pending: PrivateNativePending<E>,
    pub live_disposal: PrivateLiveNativeDisposal,
    pub shared_activation: PrivateSharedActivationScan,
    /// The attempt this inventory holds custody of, if any.
    pub attempt_custody: Option<u64>,
    /// Which settling release the next terminated-recipient visit looks at.
    pub recipient_termination_cursor: usize,
}

/// Where one custody's output stands once a terminated recipient's answer
/// was taken for it.
#[derive(Debug, Clone, Copy, PartialEq, Eq, Structural)]
pub struct PrivateOutputStanding {
    /// Whether a capsule is held here.
    pub pending: bool,
    pub dispatch: PrivateDispatchPhase,
}

/// The outside steps of answering a terminated recipient: the endpoint's
/// termination, the common authority, and recovery's adjudication of held
/// output. Their answers are their own.
pub trait PrivateTerminationAnswers<E> {
    /// Whether the endpoint of settling release `index`'s native hold has
    /// established its ordered termination.
    fn endpoint_terminated(&self, index: usize) -> bool;

    /// Settle the recipient's half with the common authority for this grant
    /// and incarnation, finishing `attempt` if one is open: whether the whole
    /// debt is now settled, or `None` when the authority did not answer.
    fn settle_recipient(&self, grant: u64, incarnation: HoldIncarnation, attempt: Option<u64>) -> Option<bool>;

    /// Stow `emission`, taken untaken from the hold, as the custody's capsule,
    /// and answer whatever output the custody holds for its terminated
    /// recipient: where the custody's output now stands.
    fn answer_output(
        &self,
        index: usize,
        press: bool,
        custody: PrivateDeliveryCustody,
        emission: Option<E>,
    ) -> PrivateOutputStanding;
}

/// Whether one settling release owes a live native disposal: its native bit
/// is in, no attempt is open, and its recipient's half is answered -- by a
/// termination or by a writer's settling outcome.
pub open spec fn owes_disposal<E>(r: PrivateSettlingRelease<E>) -> bool {
    r.native_recorded && r.custody.attempt is None && (r.custody.recipient_termination
        || settling_outcome(r.custody.outcome_seen))
}

/// Whether a release owes an answer for its terminated recipient: it has a
/// native hold whose endpoint terminated, and its recipient's half is not yet
/// settled on that termination or output is still held for it.
pub open spec fn owes_termination_answer<E>(r: PrivateSettlingRelease<E>, terminated: bool) -> bool {
    &&& r.native is Some
    &&& terminated
    &&& !r.custody.recipient_termination || owns_terminated_output_spec(r.custody) || (r.press_custody matches Some(
        p,
    ) && owns_terminated_output_spec(p))
}

/// Whether a custody still holds output a terminated recipient owes an
/// answer for.
pub open spec fn owns_terminated_output_spec(c: PrivateDeliveryCustody) -> bool {
    c.pending || (c.completion && c.dispatch == crate::settling_release::PrivateDispatchPhase::Untaken)
}

/// What a live disposal asks of the source and of the authority, read
/// through a shared handle: the outside state they consult is their own.
pub trait PrivateNativeDisposalChecks {
    /// Advance the source dependency scan pointed at a recipient: the
    /// recipient it now points at (it may move on to another), and whether
    /// nothing still depends on that recipient's native record.
    fn native_disposal_ready(&self, recipient: usize) -> (usize, bool);

    /// Whether the authority still holds a reconciliation record for this
    /// incarnation; `None` when it could not be asked.
    fn reconciliation_record_present(&self, incarnation: HoldIncarnation) -> Option<bool>;
}

/// The recipient a live disposal points the dependency scan at for release
/// `i`: where a scan in progress left it, else the release's own place after
/// the holds.
pub open spec fn scan_target(p: PrivateLiveNativeDisposal, holds: nat, i: int) -> usize {
    if p.scanning {
        p.scan_recipient
    } else {
        (holds + i) as usize
    }
}

/// The answers a disposable release's visit got: the scan's, pointed at
/// `target`, and, once it found nothing depending, the authority's for the
/// release's incarnation.
pub open spec fn disposal_answers<Fr, Fp>(
    ready: Fr,
    present: Fp,
    target: usize,
    incarnation: HoldIncarnation,
    landed: usize,
    ok: bool,
    record: Option<bool>,
) -> bool where Fr: FnOnce(usize) -> (usize, bool), Fp: FnOnce(HoldIncarnation) -> Option<bool> {
    &&& call_ensures(ready, (target,), (landed, ok))
    &&& ok ==> call_ensures(present, (incarnation,), record)
}

/// Whether a settling release may go, as far as the inventory's own facts
/// say: the source's proof names this release's own incarnation, its native
/// bit is recorded, its recipient's output and its press's writer are both
/// settled, and no delivery attempt is held.
pub open spec fn disposable<E>(r: PrivateSettlingRelease<E>, attempt_held: bool) -> bool {
    &&& (r.native matches Some(n) && native_view(n).proof matches Some(p) && p.incarnation == r.incarnation)
    &&& r.native_recorded
    &&& recipient_output_settled_spec(r)
    &&& (r.press_custody matches Some(c) && writer_settled_spec(c))
    &&& !attempt_held
}

/// The progress after moving on to the next completed record.
pub open spec fn moved_on(p: PrivateLiveNativeDisposal) -> PrivateLiveNativeDisposal {
    PrivateLiveNativeDisposal {
        index: if p.index < usize::MAX {
            (p.index + 1) as usize
        } else {
            p.index
        },
        scanning: false,
        ..p
    }
}

impl<E> PrivateTerminalInventory<E> {
    /// Only cached facts are read: a held or unanswered row alone does not
    /// turn an idle service into cleanup traffic.
    pub fn owes_live_native_disposal(&self) -> (r: bool)
        ensures
            r == exists|i: int| 0 <= i < self.settling@.len() && owes_disposal(#[trigger] self.settling@[i]),
    {
        let mut i: usize = 0;
        while i < self.settling.len()
            invariant
                i <= self.settling@.len(),
                forall|j: int| 0 <= j < i ==> !owes_disposal(#[trigger] self.settling@[j]),
            decreases self.settling.len() - i,
        {
            let release = &self.settling[i];
            let answered = release.custody.recipient_termination || match release.custody.outcome_seen {
                Some(crate::settling_release::PrivateDeliveryOutcome::Flushed) => true,
                Some(crate::settling_release::PrivateDeliveryOutcome::ClientDisconnected) => true,
                _ => false,
            };
            if release.native_recorded && release.custody.attempt.is_none() && answered {
                proof {
                    assert(owes_disposal(self.settling@[i as int]));
                }
                return true;
            }
            i = i + 1;
        }
        false
    }

    /// Whether a release whose recipient's endpoint has terminated still owes
    /// something for it: the recipient's half not yet settled on that
    /// termination, or output (its own or its press's) still held for it.
    /// `terminated[i]` says whether the endpoint of settling release `i`'s
    /// native hold has established its ordered termination.
    pub fn owes_terminated_recipient(&self, terminated: &Vec<bool>) -> (r: bool)
        requires
            terminated@.len() == self.settling@.len(),
        ensures
            r == exists|i: int|
                0 <= i < self.settling@.len() && owes_termination_answer(#[trigger] self.settling@[i], terminated@[i]),
    {
        let mut i: usize = 0;
        while i < self.settling.len()
            invariant
                i <= self.settling@.len(),
                terminated@.len() == self.settling@.len(),
                forall|j: int| 0 <= j < i ==> !owes_termination_answer(#[trigger] self.settling@[j], terminated@[j]),
            decreases self.settling.len() - i,
        {
            let release = &self.settling[i];
            let press_owns = match &release.press_custody {
                Some(press) => press.owns_terminated_output(),
                None => false,
            };
            if release.native.is_some() && terminated[i] && (!release.custody.recipient_termination
                || release.custody.owns_terminated_output() || press_owns) {
                proof {
                    assert(owes_termination_answer(self.settling@[i as int], terminated@[i as int]));
                }
                return true;
            }
            i = i + 1;
        }
        false
    }

    /// How many holds and settling releases there are, and whether the
    /// pending slot holds anything.
    pub fn native_shape(&self) -> (r: (usize, usize, bool))
        ensures
            r == (self.holds@.len() as usize, self.settling@.len() as usize, !pending_empty(
                self.native_pending,
            )),
    {
        (self.holds.len(), self.settling.len(), self.native_pending.is_some())
    }
    /// One live native-disposal visit, after the service's charge and watch.
    ///
    /// Looks at one settling release. One that is not disposable on this
    /// inventory's facts moves the visit on. One that is points the source's
    /// dependency scan at it, and goes only once the scan finds nothing
    /// depending on it and the authority answers that no reconciliation
    /// record remains. Nothing here derives recipient proof from a stopped
    /// owner's termination.
    pub fn visit_live_native_disposal<Fr, Fp>(&mut self, ready: Fr, present: Fp) -> (r: bool) where
        Fr: FnOnce(usize) -> (usize, bool),
        Fp: FnOnce(HoldIncarnation) -> Option<bool>,
        requires
            old(self).holds@.len() + old(self).settling@.len() <= usize::MAX,
            forall|recipient: usize| #[trigger] call_requires(ready, (recipient,)),
            forall|incarnation: HoldIncarnation| #[trigger] call_requires(present, (incarnation,)),
        ensures
            final(self).holds@ == old(self).holds@,
            final(self).native_pending == old(self).native_pending,
            final(self).attempt_custody == old(self).attempt_custody,
            old(self).settling@.len() == 0 ==> !r && final(self).settling@ == old(self).settling@
                && final(self).live_disposal == (PrivateLiveNativeDisposal {
                scanning: false,
                ..old(self).live_disposal
            }) && final(self).shared_activation == old(self).shared_activation,
            old(self).settling@.len() > 0 ==> ({
                let i = (old(self).live_disposal.index as int) % (old(self).settling@.len() as int);
                let at = PrivateLiveNativeDisposal { index: i as usize, ..old(self).live_disposal };
                let target = scan_target(old(self).live_disposal, old(self).holds@.len(), i);
                let candidate = (old(self).holds@.len() + i) as usize;
                &&& !disposable(old(self).settling@[i as int], old(self).attempt_custody is Some) ==> !r
                    && final(self).live_disposal == moved_on(at)
                &&& disposable(old(self).settling@[i as int], old(self).attempt_custody is Some) ==> exists|
                    landed: usize,
                    ok: bool,
                    record: Option<bool>,
                |
                    #[trigger] disposal_answers(
                        ready,
                        present,
                        target,
                        old(self).settling@[i as int].incarnation,
                        landed,
                        ok,
                        record,
                    ) && {
                        let scanned = PrivateLiveNativeDisposal {
                            index: i as usize,
                            scan_recipient: landed,
                            scanning: true,
                            ..old(self).live_disposal
                        };
                        &&& r == (ok && record == Some(false))
                        &&& !ok ==> final(self).live_disposal == if landed != candidate {
                            moved_on(scanned)
                        } else {
                            scanned
                        }
                        &&& ok && record != Some(false) ==> final(self).live_disposal == moved_on(scanned)
                    }
                &&& r ==> disposable(old(self).settling@[i as int], old(self).attempt_custody is Some)
                    && final(self).settling@ == old(self).settling@.remove(i as int)
                    && final(self).shared_activation == (PrivateSharedActivationScan {
                    changed: true,
                    ..old(self).shared_activation
                }) && final(self).live_disposal.index == i && !final(self).live_disposal.scanning
                &&& !r ==> final(self).settling@ == old(self).settling@ && final(self).shared_activation
                    == old(self).shared_activation
            }),
    {
        let count = self.settling.len();
        if count == 0 {
            self.live_disposal.invalidate();
            return false;
        }
        let index = self.live_disposal.index % count;
        self.live_disposal.index = index;
        let release = &self.settling[index];
        let native_proved = match &release.native {
            Some(native) => match native.native_proof() {
                Some(proof) => proof.incarnation == release.incarnation,
                None => false,
            },
            None => false,
        };
        let press_settled = match &release.press_custody {
            Some(custody) => custody.writer_settled(),
            None => false,
        };
        if !native_proved || !release.native_recorded || !release.recipient_output_settled() || !press_settled
            || self.attempt_custody.is_some() {
            self.live_disposal.next();
            return false;
        }
        let candidate = self.holds.len() + index;
        let ghost target = scan_target(self.live_disposal, self.holds@.len(), index as int);
        if !self.live_disposal.scanning {
            self.live_disposal.scan_recipient = candidate;
            self.live_disposal.scanning = true;
        }
        let incarnation = self.settling[index].incarnation;
        assert(disposable(self.settling@[index as int], self.attempt_custody is Some));
        assert(target == scan_target(old(self).live_disposal, old(self).holds@.len(), index as int));
        assert(incarnation == old(self).settling@[index as int].incarnation);
        assert(index as int == (old(self).live_disposal.index as int) % (old(self).settling@.len() as int));
        let (landed, ok) = ready(self.live_disposal.scan_recipient);
        self.live_disposal.scan_recipient = landed;
        if !ok {
            assert(disposal_answers(ready, present, target, incarnation, landed, ok, None));
            if self.live_disposal.scan_recipient != candidate {
                self.live_disposal.next();
            }
            return false;
        }
        let record = present(incarnation);
        assert(disposal_answers(ready, present, target, incarnation, landed, ok, record));
        match record {
            Some(false) => {},
            _ => {
                self.live_disposal.next();
                return false;
            },
        }
        self.settling.remove(index);
        self.shared_activation.invalidate();
        self.live_disposal.invalidate();
        true
    }

    /// One live native-disposal visit, keeping the visit's progress in the
    /// inventory.
    pub fn dispose_live_native_one<Fr, Fp>(&mut self, ready: Fr, present: Fp) -> (r: bool) where
        Fr: FnOnce(usize) -> (usize, bool),
        Fp: FnOnce(HoldIncarnation) -> Option<bool>,
        requires
            old(self).holds@.len() + old(self).settling@.len() <= usize::MAX,
            forall|recipient: usize| #[trigger] call_requires(ready, (recipient,)),
            forall|incarnation: HoldIncarnation| #[trigger] call_requires(present, (incarnation,)),
        ensures
            final(self).holds@ == old(self).holds@,
            final(self).native_pending == old(self).native_pending,
            final(self).attempt_custody == old(self).attempt_custody,
            old(self).settling@.len() == 0 ==> !r && final(self).settling@ == old(self).settling@
                && final(self).live_disposal == (PrivateLiveNativeDisposal {
                scanning: false,
                ..old(self).live_disposal
            }) && final(self).shared_activation == old(self).shared_activation,
            old(self).settling@.len() > 0 ==> ({
                let i = (old(self).live_disposal.index as int) % (old(self).settling@.len() as int);
                let at = PrivateLiveNativeDisposal { index: i as usize, ..old(self).live_disposal };
                let target = scan_target(old(self).live_disposal, old(self).holds@.len(), i);
                let candidate = (old(self).holds@.len() + i) as usize;
                &&& !disposable(old(self).settling@[i as int], old(self).attempt_custody is Some) ==> !r
                    && final(self).live_disposal == moved_on(at)
                &&& disposable(old(self).settling@[i as int], old(self).attempt_custody is Some) ==> exists|
                    landed: usize,
                    ok: bool,
                    record: Option<bool>,
                |
                    #[trigger] disposal_answers(
                        ready,
                        present,
                        target,
                        old(self).settling@[i as int].incarnation,
                        landed,
                        ok,
                        record,
                    ) && {
                        let scanned = PrivateLiveNativeDisposal {
                            index: i as usize,
                            scan_recipient: landed,
                            scanning: true,
                            ..old(self).live_disposal
                        };
                        &&& r == (ok && record == Some(false))
                        &&& !ok ==> final(self).live_disposal == if landed != candidate {
                            moved_on(scanned)
                        } else {
                            scanned
                        }
                        &&& ok && record != Some(false) ==> final(self).live_disposal == moved_on(scanned)
                    }
                &&& r ==> disposable(old(self).settling@[i as int], old(self).attempt_custody is Some)
                    && final(self).settling@ == old(self).settling@.remove(i as int)
                    && final(self).shared_activation == (PrivateSharedActivationScan {
                    changed: true,
                    ..old(self).shared_activation
                }) && final(self).live_disposal.index == i && !final(self).live_disposal.scanning
                &&& !r ==> final(self).settling@ == old(self).settling@ && final(self).shared_activation
                    == old(self).shared_activation
            }),
    {
        self.visit_live_native_disposal(ready, present)
    }
}


/// What settling a terminated recipient's half does to a release: its
/// recipient's half is settled by termination, its own and its press's, and
/// its attempt is closed.
pub open spec fn terminated_custody(c: PrivateDeliveryCustody) -> PrivateDeliveryCustody {
    PrivateDeliveryCustody { recipient_termination: true, attempt: None, ..c }
}

/// Whether release `r`'s native hold answers for the release's own
/// incarnation.
pub open spec fn own_native<E>(r: PrivateSettlingRelease<E>) -> bool {
    r.native is Some && native_view(r.native->0).incarnation == Some(r.incarnation)
}

impl<E> PrivateTerminalInventory<E> {
    /// One bounded visit to a release whose recipient terminated, in
    /// rotation.
    ///
    /// Only a release whose native hold answers for its own incarnation, and
    /// whose endpoint established its termination, is visited. If its
    /// recipient's half is not yet settled by that termination, the common
    /// authority is asked to settle it; an unanswered request changes
    /// nothing. An answered one marks the release's own custody and its
    /// press's as settled by termination, closes the release's attempt and,
    /// if the inventory held that attempt's custody, lets it go. Then output
    /// still owned locally is stowed from the hold and adjudicated for the
    /// terminated recipient.
    pub fn settle_one_terminated_recipient<A: PrivateTerminationAnswers<E>>(&mut self, answers: &A) -> (r:
        PrivateReceiptStep)
        ensures
            final(self).settling@.len() == old(self).settling@.len(),
            final(self).holds@ == old(self).holds@,
            r == PrivateReceiptStep::Unanswered || r is Settled,
            old(self).settling@.len() == 0 ==> r == PrivateReceiptStep::Unanswered && final(self).attempt_custody
                == old(self).attempt_custody && final(self).recipient_termination_cursor
                == old(self).recipient_termination_cursor,
            old(self).settling@.len() > 0 ==> ({
                let n = old(self).settling@.len() as int;
                let i = old(self).recipient_termination_cursor as int % n;
                let rel = old(self).settling@[i];
                let post = final(self).settling@[i];
                &&& final(self).recipient_termination_cursor == (i + 1) % n
                &&& forall|j: int| 0 <= j < n && j != i ==> final(self).settling@[j] == old(self).settling@[j]
                &&& !own_native(rel) ==> r == PrivateReceiptStep::Unanswered && post == rel
                &&& post.incarnation == rel.incarnation
                &&& post.reached == rel.reached
                &&& post.native_recorded == rel.native_recorded
                &&& (post.press_custody is Some <==> rel.press_custody is Some)
                &&& own_native(rel) ==> exists|terminated: bool|
                    #[trigger] call_ensures(A::endpoint_terminated, (answers, i as usize), terminated) && (!terminated
                        ==> r == PrivateReceiptStep::Unanswered && post == rel)
                &&& r is Settled ==> call_ensures(
                    A::settle_recipient,
                    (answers, native_view(rel.native->0).grant, rel.incarnation, rel.custody.attempt),
                    Some(r->debt_settled),
                )
                &&& (own_native(rel) && !rel.custody.recipient_termination && r == PrivateReceiptStep::Unanswered)
                    ==> post == rel && ((exists|terminated: bool|
                    #[trigger] call_ensures(A::endpoint_terminated, (answers, i as usize), terminated) && !terminated)
                    || call_ensures(
                    A::settle_recipient,
                    (answers, native_view(rel.native->0).grant, rel.incarnation, rel.custody.attempt),
                    None::<bool>,
                ))
                &&& (post.custody.pending != rel.custody.pending || post.custody.dispatch != rel.custody.dispatch)
                    ==> exists|custody: PrivateDeliveryCustody, emission: Option<E>, standing: PrivateOutputStanding|
                    #[trigger] call_ensures(A::answer_output, (answers, i as usize, false, custody, emission), standing)
                        && post.custody.pending == standing.pending && post.custody.dispatch == standing.dispatch
                &&& r is Settled ==> {
                    &&& own_native(rel)
                    &&& !rel.custody.recipient_termination
                    &&& post.custody.recipient_termination
                    &&& post.custody.attempt is None
                    &&& rel.press_custody is Some ==> post.press_custody->0.recipient_termination
                    &&& final(self).attempt_custody == if old(self).attempt_custody is Some
                        && old(self).attempt_custody == rel.custody.attempt {
                        None
                    } else {
                        old(self).attempt_custody
                    }
                }
                &&& !(r is Settled) ==> {
                    &&& final(self).attempt_custody == old(self).attempt_custody
                    &&& post.custody.recipient_termination == rel.custody.recipient_termination
                    &&& post.custody.attempt == rel.custody.attempt
                    &&& (rel.press_custody is Some ==> post.press_custody->0.recipient_termination
                        == rel.press_custody->0.recipient_termination)
                }
            }),
    {
        let count = self.settling.len();
        if count == 0 {
            return PrivateReceiptStep::Unanswered;
        }
        let index = self.recipient_termination_cursor % count;
        self.recipient_termination_cursor = (index + 1) % count;
        let ghost pre = self.settling@;
        let (grant, incarnation) = match &self.settling[index].native {
            Some(native) => {
                let own = match native.incarnation() {
                    Some(held) => held == self.settling[index].incarnation,
                    None => false,
                };
                if !own {
                    return PrivateReceiptStep::Unanswered;
                }
                (native.grant(), self.settling[index].incarnation)
            },
            None => return PrivateReceiptStep::Unanswered,
        };
        let ask_terminated = A::endpoint_terminated;
        let terminated = ask_terminated(answers, index);
        if !terminated {
            return PrivateReceiptStep::Unanswered;
        }
        let mut release = self.settling.remove(index);
        proof {
            assert(release == pre[index as int]);
        }
        let attempt = release.custody.attempt;
        let mut step = PrivateReceiptStep::Unanswered;
        if !release.custody.recipient_termination {
            let ask_settle = A::settle_recipient;
            let settled_answer = ask_settle(answers, grant, incarnation, attempt);
            match settled_answer {
                Some(debt_settled) => {
                    release.custody.recipient_termination = true;
                    match release.press_custody {
                        Some(press) => {
                            release.press_custody = Some(
                                PrivateDeliveryCustody { recipient_termination: true, ..press },
                            );
                        },
                        None => {},
                    }
                    release.custody.attempt = None;
                    let held_attempt = match (self.attempt_custody, attempt) {
                        (Some(held), Some(open)) => held == open,
                        _ => false,
                    };
                    if held_attempt {
                        self.attempt_custody = None;
                    }
                    step = PrivateReceiptStep::Settled { debt_settled };
                },
                None => {
                    self.settling.insert(index, release);
                    proof {
                        assert(self.settling@ =~= pre);
                    }
                    return PrivateReceiptStep::Unanswered;
                },
            }
        }
        let mut native = release.native.take();
        let release_emission = if release.custody.dispatch == PrivateDispatchPhase::Untaken {
            match &mut native {
                Some(hold) => hold.take_release_emission(),
                None => None,
            }
        } else {
            None
        };
        let answer = A::answer_output;
        let own = answer(answers, index, false, release.custody, release_emission);
        release.custody.pending = own.pending;
        release.custody.dispatch = own.dispatch;
        match release.press_custody {
            Some(press) => {
                let press_emission = if press.dispatch == PrivateDispatchPhase::Untaken {
                    match &mut native {
                        Some(hold) => hold.take_press_emission(),
                        None => None,
                    }
                } else {
                    None
                };
                let answered = answers.answer_output(index, true, press, press_emission);
                release.press_custody = Some(
                    PrivateDeliveryCustody { pending: answered.pending, dispatch: answered.dispatch, ..press },
                );
            },
            None => {},
        }
        release.native = native;
        self.settling.insert(index, release);
        step
    }
}

/// The terminal bookkeeping a native visit reaches: answering terminated
/// recipients and disposing of completed native records.
pub trait PrivateTerminalBookkeeping {
    /// Whether a terminated recipient still owes an answer.
    fn owes_terminated_recipient(&mut self) -> bool;

    /// Answer one terminated recipient.
    fn settle_one_terminated_recipient(&mut self) -> PrivateReceiptStep;

    /// Whether a completed native record is owed a disposal visit.
    fn owes_live_native_disposal(&self) -> bool;

    /// One live native-disposal visit: whether a record went.
    fn dispose_live_native_one(&mut self) -> bool;
}

/// An instance's terminal inventory, with the outside answers its
/// bookkeeping asks for.
pub struct PrivateTerminalState<E, A, C> {
    pub inventory: PrivateTerminalInventory<E>,
    pub answers: A,
    pub checks: C,
}

impl<E, A: PrivateTerminationAnswers<E>, C: PrivateNativeDisposalChecks> PrivateTerminalBookkeeping for PrivateTerminalState<
    E,
    A,
    C,
> {
    /// Asks each release's endpoint whether it terminated, then reads the
    /// inventory.
    fn owes_terminated_recipient(&mut self) -> (r: bool) {
        let mut terminated: Vec<bool> = Vec::new();
        let mut i: usize = 0;
        while i < self.inventory.settling.len()
            invariant
                i <= self.inventory.settling@.len(),
                terminated@.len() == i,
            decreases self.inventory.settling@.len() - i,
        {
            terminated.push(self.answers.endpoint_terminated(i));
            i = i + 1;
        }
        self.inventory.owes_terminated_recipient(&terminated)
    }

    fn settle_one_terminated_recipient(&mut self) -> (r: PrivateReceiptStep) {
        self.inventory.settle_one_terminated_recipient(&self.answers)
    }

    fn owes_live_native_disposal(&self) -> (r: bool) {
        self.inventory.owes_live_native_disposal()
    }

    fn dispose_live_native_one(&mut self) -> (r: bool) {
        if self.inventory.holds.len() > usize::MAX - self.inventory.settling.len() {
            return false;
        }
        let checks = &self.checks;
        self.inventory.dispose_live_native_one(
            move |recipient: usize| checks.native_disposal_ready(recipient),
            move |incarnation: HoldIncarnation| checks.reconciliation_record_present(incarnation),
        )
    }
}

} // verus!
