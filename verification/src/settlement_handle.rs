// What an abandoning instance hands over, and how it discharges it.
//
// The durable owner is where obligations live once nothing holds them; this
// is the handle that still does. It keeps the registry that accepted the
// work, so the work can be answered later against the instance that accepted
// it and never against another's.
use vstd::prelude::*;
use vstd::multiset::Multiset;
use crate::settlement::{
    carried_work_ended, disposed, identity_spec, lemma_disposed_partition, lemma_disposed_step,
    only_credits_changed, ownership_of, sat_sub, settle_one, FailedInstance, FailureSlot,
    PrivateIdentity, PrivateOperation, PrivateRouteRegistry, PrivateSettlementOwner,
    SettlementOwnership, SettlementView, SweepDisposition,
};

verus! {

/// What a shutdown could not settle, and the means to settle it later.
///
/// The origin is retained from the instance that accepted the work rather than
/// supplied by a caller, so one instance's obligations are never settled
/// against another's registry.
pub struct PrivateSettlement<R> {
    origin: R,
    /// What the instance's queue still held, carried so a failed instance
    /// hands over its queue rather than a note that one existed.
    queue: Vec<PrivateOperation>,
    pending: Vec<PrivateOperation>,
    /// Work that was routed and has not reached a terminal outcome. These
    /// hold credits, and some can still finish.
    outstanding: Vec<PrivateIdentity>,
    queue_unreadable: bool,
    /// Which pending obligation an attempt is under way for. Set before the
    /// attempt can emit, so an attempt that never returned is known to have
    /// an unknown outcome rather than being retried.
    settling: Option<usize>,
}

/// What a settlement handle holds.
pub ghost struct HandleView<R> {
    pub origin: R,
    pub queue: Seq<PrivateOperation>,
    pub pending: Seq<PrivateOperation>,
    pub outstanding: Seq<PrivateIdentity>,
    pub queue_unreadable: bool,
    pub settling: Option<usize>,
}

impl<R> View for PrivateSettlement<R> {
    type V = HandleView<R>;

    closed spec fn view(&self) -> HandleView<R> {
        HandleView {
            origin: self.origin,
            queue: self.queue@,
            pending: self.pending@,
            outstanding: self.outstanding@,
            queue_unreadable: self.queue_unreadable,
            settling: self.settling,
        }
    }
}

/// The items of `s` whose disposition is `which`, where they stood.
pub open spec fn in_place<T>(s: Seq<T>, d: Seq<SweepDisposition>, which: SweepDisposition) -> Seq<T>
    decreases s.len(),
{
    if s.len() == 0 || d.len() == 0 {
        Seq::empty()
    } else {
        let rest = in_place(s.skip(1), d.skip(1), which);
        if d[0] == which {
            seq![s[0]] + rest
        } else {
            rest
        }
    }
}

/// Identities carried on for `origin`, one for each operation of `s`.
pub open spec fn carried_on<R>(origin: R, s: Seq<PrivateOperation>) -> Seq<(R, PrivateIdentity)> {
    s.map_values(|op: PrivateOperation| (origin, identity_spec(op)))
}

/// Each operation of `s` paired with `origin`.
pub open spec fn with_origin<R, T>(origin: R, s: Seq<T>) -> Seq<(R, T)> {
    s.map_values(|x: T| (origin, x))
}

/// Only a control published with a completion registration can be answered
/// by someone else, so only such a control is ever handed on.
pub open spec fn handed_on_only_control(s: Seq<PrivateOperation>, d: Seq<SweepDisposition>) -> bool {
    forall|j: int|
        0 <= j < d.len() && #[trigger] d[j] == SweepDisposition::HandedOn ==> (s[j] matches PrivateOperation::Control {
            completion: Some(_),
            ..
        })
}

/// One attempt at each pending obligation, given how each was disposed of:
/// kept where it stood, handed on as an identity, or answered with its credit
/// released.
pub open spec fn settled_pending<R>(
    pre: HandleView<R>,
    post: HandleView<R>,
    owner_pre: SettlementView<R>,
    owner_post: SettlementView<R>,
    answered: nat,
    d: Seq<SweepDisposition>,
) -> bool {
    &&& d.len() == pre.pending.len()
    &&& handed_on_only_control(pre.pending, d)
    &&& post == HandleView { pending: in_place(pre.pending, d, SweepDisposition::Kept), ..pre }
    &&& answered == disposed(pre.pending, d, SweepDisposition::Answered).len()
    &&& owner_post == SettlementView {
        outstanding: owner_pre.outstanding + carried_on(
            pre.origin,
            disposed(pre.pending, d, SweepDisposition::HandedOn),
        ),
        reserved: sat_sub(owner_pre.reserved, answered),
        ..owner_pre
    }
}

/// The handle once an interrupted attempt is parked: the one obligation whose
/// outcome is unknown leaves it.
pub open spec fn parked_view<R>(pre: HandleView<R>) -> HandleView<R> {
    match pre.settling {
        Some(i) if i < pre.pending.len() => HandleView {
            pending: pre.pending.remove(i as int),
            settling: None,
            ..pre
        },
        _ => HandleView { settling: None, ..pre },
    }
}

/// The durable owner once an interrupted attempt is parked: the obligation
/// whose outcome is unknown is kept as indeterminate, with its credit.
pub open spec fn parked_owner<R>(pre: HandleView<R>, owner: SettlementView<R>) -> SettlementView<R> {
    match pre.settling {
        Some(i) if i < pre.pending.len() => SettlementView {
            indeterminate: owner.indeterminate.push((pre.origin, pre.pending[i as int])),
            ..owner
        },
        _ => owner,
    }
}

/// Whether the registry can be asked about an identity at all.
pub open spec fn observable(identity: PrivateIdentity) -> bool {
    ||| identity matches PrivateIdentity::Delivery(Some(_))
    ||| identity matches PrivateIdentity::Control { completion: Some(_), .. }
}

/// The identities of `s` that did not end, in order.
pub open spec fn unended(s: Seq<PrivateIdentity>, ended: Seq<bool>) -> Seq<PrivateIdentity>
    decreases s.len(),
{
    if s.len() == 0 || ended.len() == 0 {
        Seq::empty()
    } else {
        let rest = unended(s.drop_last(), ended.drop_last());
        if ended.last() {
            rest
        } else {
            rest.push(s.last())
        }
    }
}

/// How many of `ended` are set.
pub open spec fn ended_count(ended: Seq<bool>) -> nat
    decreases ended.len(),
{
    if ended.len() == 0 {
        0
    } else {
        ended_count(ended.drop_last()) + if ended.last() {
            1nat
        } else {
            0nat
        }
    }
}

/// Carried work reclaimed, given which of it the registry reported ended:
/// ended work leaves and frees its credit; live, unreadable and unobservable
/// work stays.
pub open spec fn reclaimed<R>(
    pre: HandleView<R>,
    post: HandleView<R>,
    owner_pre: SettlementView<R>,
    owner_post: SettlementView<R>,
    count: nat,
    ended: Seq<bool>,
) -> bool {
    &&& ended.len() == pre.outstanding.len()
    &&& forall|j: int| 0 <= j < ended.len() && #[trigger] ended[j] ==> observable(pre.outstanding[j])
    &&& post == HandleView { outstanding: unended(pre.outstanding, ended), ..pre }
    &&& count == ended_count(ended)
    &&& only_credits_changed(owner_pre, owner_post)
    &&& owner_post.reserved == sat_sub(owner_pre.reserved, count)
}

/// Everything an abandoned handle held, once handed to the durable owner.
///
/// After parking an interrupted attempt: carried work goes over as
/// identities, newest first; an unreadable queue goes over as a failed
/// instance; one attempt is made at what is pending, given how each was
/// disposed of; and what that attempt could not answer goes over whole,
/// newest first. Nothing is dropped.
pub open spec fn abandoned<R>(
    h: HandleView<R>,
    owner_pre: SettlementView<R>,
    owner_post: SettlementView<R>,
    d: Seq<SweepDisposition>,
) -> bool {
    let p = parked_view(h);
    let o = parked_owner(h, owner_pre);
    let answered = disposed(p.pending, d, SweepDisposition::Answered).len();
    &&& d.len() == p.pending.len()
    &&& handed_on_only_control(p.pending, d)
    &&& owner_post == SettlementView {
        outstanding: o.outstanding + with_origin(h.origin, p.outstanding.reverse()) + carried_on(
            h.origin,
            disposed(p.pending, d, SweepDisposition::HandedOn),
        ),
        reserved: sat_sub(o.reserved, answered),
        held: o.held + with_origin(h.origin, in_place(p.pending, d, SweepDisposition::Kept).reverse()),
        failed: owner_post.failed,
        ..o
    }
    &&& if h.queue_unreadable {
        &&& owner_post.failed.len() == o.failed.len() + 1
        &&& owner_post.failed.drop_last() == o.failed
        &&& owner_post.failed.last().origin == h.origin
        &&& owner_post.failed.last().queue@ == h.queue
        &&& owner_post.failed.last().uncollected@.len() == 0
        &&& owner_post.failed.last().slot == FailureSlot::Held
    } else {
        owner_post.failed == o.failed
    }
}

proof fn lemma_pop_reversed<R, T>(origin: R, s: Seq<T>, k: int)
    requires
        0 < k <= s.len(),
    ensures
        with_origin(origin, s.subrange(k - 1, s.len() as int).reverse()) == with_origin(
            origin,
            s.subrange(k, s.len() as int).reverse(),
        ).push((origin, s[k - 1])),
{
    assert(with_origin(origin, s.subrange(k - 1, s.len() as int).reverse()) =~= with_origin(
        origin,
        s.subrange(k, s.len() as int).reverse(),
    ).push((origin, s[k - 1])));
}

proof fn lemma_in_place_step<T>(s: Seq<T>, k: int, d: Seq<SweepDisposition>, x: SweepDisposition)
    requires
        0 < k <= s.len(),
        d.len() == s.len() - k,
    ensures
        forall|which: SweepDisposition|
            #[trigger] in_place(s.skip(k - 1), seq![x].add(d), which) == if x == which {
                seq![s[k - 1]] + in_place(s.skip(k), d, which)
            } else {
                in_place(s.skip(k), d, which)
            },
{
    let s2 = s.skip(k - 1);
    let d2 = seq![x].add(d);
    assert(s2.skip(1) =~= s.skip(k));
    assert(d2.skip(1) =~= d);
    assert(s2[0] == s[k - 1]);
    assert(d2[0] == x);
}

impl<R> PrivateSettlement<R> {
    /// A handle for what a closed instance still owes, with its queue read.
    pub fn new(origin: R, pending: Vec<PrivateOperation>, outstanding: Vec<PrivateIdentity>) -> (r:
        Self)
        ensures
            r@ == (HandleView {
                origin,
                queue: Seq::<PrivateOperation>::empty(),
                pending: pending@,
                outstanding: outstanding@,
                queue_unreadable: false,
                settling: None::<usize>,
            }),
    {
        PrivateSettlement {
            origin,
            queue: Vec::new(),
            pending,
            outstanding,
            queue_unreadable: false,
            settling: None,
        }
    }

    /// A handle for an instance whose queue could not be read: nothing in it
    /// was recovered, and the queue itself is carried for whoever can.
    pub fn unreadable(origin: R, queue: Vec<PrivateOperation>, outstanding: Vec<PrivateIdentity>) -> (r:
        Self)
        ensures
            r@ == (HandleView {
                origin,
                queue: queue@,
                pending: Seq::<PrivateOperation>::empty(),
                outstanding: outstanding@,
                queue_unreadable: true,
                settling: None::<usize>,
            }),
    {
        PrivateSettlement {
            origin,
            queue,
            pending: Vec::new(),
            outstanding,
            queue_unreadable: true,
            settling: None,
        }
    }

    /// Whether nothing is owed, nothing is outstanding, and the queue was
    /// read.
    pub fn is_settled(&self) -> (r: bool)
        ensures
            r == (self@.pending.len() == 0 && self@.outstanding.len() == 0
                && !self@.queue_unreadable),
    {
        self.pending.len() == 0 && self.outstanding.len() == 0 && !self.queue_unreadable
    }

    /// How many obligations remain undischarged.
    pub fn owed(&self) -> (r: usize)
        ensures
            r == self@.pending.len(),
    {
        self.pending.len()
    }

    /// How many routed operations have not reached a terminal outcome.
    pub fn outstanding(&self) -> (r: usize)
        ensures
            r == self@.outstanding.len(),
    {
        self.outstanding.len()
    }

    /// Whether the queue could not be read, so its contents were
    /// unrecoverable here.
    pub fn queue_unreadable(&self) -> (r: bool)
        ensures
            r == self@.queue_unreadable,
    {
        self.queue_unreadable
    }
}

impl<R: PrivateRouteRegistry + Copy> PrivateSettlement<R> {
    /// Hand an interrupted attempt to the durable owner as unproved.
    ///
    /// Whether its acknowledgement went out is exactly what the interruption
    /// destroyed, so it is moved somewhere that keeps it and its credit
    /// without ever driving it again.
    fn park_interrupted<P>(&mut self, durable: &mut PrivateSettlementOwner<R, P>)
        ensures
            final(self)@ == parked_view(old(self)@),
            final(durable)@ == parked_owner(old(self)@, old(durable)@),
            old(durable).wf() ==> final(durable).wf(),
    {
        let settling = self.settling;
        self.settling = None;
        match settling {
            None => {},
            Some(index) => {
                if index < self.pending.len() {
                    let unproved = self.pending.remove(index);
                    durable.take_indeterminate(self.origin, unproved);
                }
            },
        }
    }

    /// One attempt at each pending obligation, in place, from the end.
    ///
    /// An obligation is removed only once its attempt has returned and said
    /// what happened; what cannot be answered stays where it was.
    fn settle_pending<P>(&mut self, durable: &mut PrivateSettlementOwner<R, P>) -> (r: (
        usize,
        Ghost<Seq<SweepDisposition>>,
    ))
        requires
            old(self)@.settling is None,
        ensures
            settled_pending(old(self)@, final(self)@, old(durable)@, final(durable)@, r.0 as nat, r.1@),
            old(durable).wf() ==> final(durable).wf(),
    {
        let ghost pre = self@;
        let ghost owner_pre = durable@;
        let ghost s = pre.pending;
        let ghost mut d: Seq<SweepDisposition> = Seq::empty();
        let ghost n = s.len();
        let mut answered: usize = 0;
        let mut index = self.pending.len();
        proof {
            assert(s.skip(n as int) =~= Seq::<PrivateOperation>::empty());
            assert(s.take(n as int) =~= s);
            assert(self.pending@ =~= s.take(n as int) + in_place(s.skip(n as int), d, SweepDisposition::Kept));
            assert(carried_on(pre.origin, Seq::<PrivateOperation>::empty()) =~= Seq::<(R, PrivateIdentity)>::empty());
            assert(durable@.outstanding =~= owner_pre.outstanding + carried_on(
                pre.origin,
                disposed(s.skip(n as int), d, SweepDisposition::HandedOn),
            ));
        }
        while index > 0
            invariant
                index <= n,
                n == s.len(),
                n <= usize::MAX,
                d.len() == n - index,
                self.pending@ == s.take(index as int) + in_place(
                    s.skip(index as int),
                    d,
                    SweepDisposition::Kept,
                ),
                handed_on_only_control(s.skip(index as int), d),
                answered as nat == disposed(s.skip(index as int), d, SweepDisposition::Answered).len(),
                answered <= n - index,
                pre.settling is None,
                self@ == (HandleView { pending: self@.pending, ..pre }),
                durable@ == (SettlementView {
                    outstanding: owner_pre.outstanding + carried_on(
                        pre.origin,
                        disposed(s.skip(index as int), d, SweepDisposition::HandedOn),
                    ),
                    reserved: sat_sub(owner_pre.reserved, answered as nat),
                    ..owner_pre
                }),
                owner_pre == old(durable)@,
                old(durable).wf() ==> durable.wf(),
            decreases index,
        {
            let ghost rest = d;
            let ghost rest_kept = in_place(s.skip(index as int), d, SweepDisposition::Kept);
            proof {
                lemma_disposed_partition(s.skip(index as int), d);
                assert(self.pending@[index - 1] == s[index - 1]);
            }
            index = index - 1;
            let ownership = ownership_of(&self.origin, &self.pending[index]);
            let ghost mut x = SweepDisposition::Kept;
            match ownership {
                SettlementOwnership::Elsewhere => {
                    let operation = self.pending.remove(index);
                    let identity = PrivateIdentity::of(&operation);
                    durable.take_one_outstanding(self.origin, identity);
                    proof {
                        x = SweepDisposition::HandedOn;
                    }
                },
                SettlementOwnership::Unprovable => {
                    proof {
                        x = SweepDisposition::Kept;
                    }
                },
                SettlementOwnership::Ours => {
                    self.settling = Some(index);
                    let settled = settle_one(&self.origin, &self.pending[index]);
                    self.settling = None;
                    if settled {
                        let _answered_one = self.pending.remove(index);
                        durable.release();
                        answered = answered + 1;
                        proof {
                            x = SweepDisposition::Answered;
                        }
                    } else {
                        proof {
                            x = SweepDisposition::Kept;
                        }
                    }
                },
            }
            proof {
                d = seq![x].add(rest);
                let k = index + 1;
                lemma_disposed_step(s, k as int, rest, x);
                lemma_in_place_step(s, k as int, rest, x);
                assert(s.take(k as int) =~= s.take(index as int).push(s[index as int]));
                if x == SweepDisposition::Kept {
                    assert(self.pending@ =~= s.take(index as int) + in_place(
                        s.skip(index as int),
                        d,
                        SweepDisposition::Kept,
                    ));
                } else {
                    assert(self.pending@ =~= s.take(index as int) + in_place(
                        s.skip(index as int),
                        d,
                        SweepDisposition::Kept,
                    ));
                }
                if x == SweepDisposition::HandedOn {
                    assert(carried_on(
                        pre.origin,
                        disposed(s.skip(k as int), rest, SweepDisposition::HandedOn).push(s[index as int]),
                    ) =~= carried_on(
                        pre.origin,
                        disposed(s.skip(k as int), rest, SweepDisposition::HandedOn),
                    ).push((pre.origin, identity_spec(s[index as int]))));
                }
                assert forall|j: int|
                    0 <= j < d.len() && #[trigger] d[j] == SweepDisposition::HandedOn implies (s.skip(
                        index as int,
                    )[j] matches PrivateOperation::Control { completion: Some(_), .. }) by {
                    if j > 0 {
                        assert(d[j] == rest[j - 1]);
                        assert(s.skip(index as int)[j] == s.skip(k as int)[j - 1]);
                    }
                }
            }
        }
        proof {
            assert(s.skip(0) =~= s);
            assert(s.take(0) + in_place(s, d, SweepDisposition::Kept) =~= in_place(
                s,
                d,
                SweepDisposition::Kept,
            ));
        }
        (answered, Ghost(d))
    }
}

impl<R: PrivateRouteRegistry + Copy> PrivateSettlement<R> {
    /// Try again to discharge what remains, against the origin that accepted
    /// it, returning how many were discharged this time.
    ///
    /// An attempt that never returned is parked first, so it is not retried.
    /// Work that still cannot be answered stays pending rather than being
    /// counted off, so retrying twice answers nothing twice.
    pub fn retry<P>(&mut self, durable: &mut PrivateSettlementOwner<R, P>) -> (r: usize)
        ensures
            exists|d: Seq<SweepDisposition>|
                #[trigger] settled_pending(
                    parked_view(old(self)@),
                    final(self)@,
                    parked_owner(old(self)@, old(durable)@),
                    final(durable)@,
                    r as nat,
                    d,
                ),
            old(durable).wf() ==> final(durable).wf(),
    {
        self.park_interrupted(durable);
        let (answered, Ghost(d)) = self.settle_pending(durable);
        proof {
            assert(settled_pending(
                parked_view(old(self)@),
                self@,
                parked_owner(old(self)@, old(durable)@),
                durable@,
                answered as nat,
                d,
            ));
        }
        answered
    }

    /// Release credits for carried work that has since finished, returning
    /// how many were released.
    ///
    /// The same rule as on a live instance: ended releases; live, unreadable
    /// and unobservable work stays.
    pub fn reclaim_outstanding<P>(&mut self, durable: &mut PrivateSettlementOwner<R, P>) -> (r:
        usize)
        ensures
            exists|ended: Seq<bool>|
                #[trigger] reclaimed(
                    old(self)@,
                    final(self)@,
                    old(durable)@,
                    final(durable)@,
                    r as nat,
                    ended,
                ),
            old(durable).wf() ==> final(durable).wf(),
    {
        self.origin.reconcile_unstarted();
        let ghost pre = self@;
        let ghost s = pre.outstanding;
        let ghost mut ended: Seq<bool> = Seq::empty();
        let mut kept: Vec<PrivateIdentity> = Vec::new();
        let mut count: usize = 0;
        let mut i: usize = 0;
        proof {
            assert(s.take(0) =~= Seq::<PrivateIdentity>::empty());
        }
        while i < self.outstanding.len()
            invariant
                self@ == pre,
                s == pre.outstanding,
                i <= s.len(),
                ended.len() == i,
                kept@ == unended(s.take(i as int), ended),
                count as nat == ended_count(ended),
                count <= i,
                forall|j: int| 0 <= j < ended.len() && #[trigger] ended[j] ==> observable(s[j]),
            decreases s.len() - i,
        {
            let identity = self.outstanding[i];
            let done = carried_work_ended(&self.origin, &identity);
            if done {
                count = count + 1;
            } else {
                kept.push(identity);
            }
            proof {
                let e0 = ended;
                ended = ended.push(done);
                assert(ended.drop_last() =~= e0);
                assert(s.take(i + 1).drop_last() =~= s.take(i as int));
                assert(s.take(i + 1).last() == s[i as int]);
                assert forall|j: int| 0 <= j < ended.len() && #[trigger] ended[j] implies observable(
                    s[j],
                ) by {
                    if j < e0.len() {
                        assert(ended[j] == e0[j]);
                    }
                }
            }
            i = i + 1;
        }
        proof {
            assert(s.take(s.len() as int) =~= s);
        }
        self.outstanding = kept;
        let ghost owner_pre = durable@;
        let mut k: usize = 0;
        while k < count
            invariant
                k <= count,
                only_credits_changed(owner_pre, durable@),
                durable@.reserved == sat_sub(owner_pre.reserved, k as nat),
                owner_pre == old(durable)@,
                old(durable).wf() ==> durable.wf(),
            decreases count - k,
        {
            durable.release();
            k = k + 1;
        }
        proof {
            assert(reclaimed(pre, self@, owner_pre, durable@, count as nat, ended));
        }
        count
    }
}

impl<R: PrivateRouteRegistry + Copy> PrivateSettlement<R> {
    /// Give up this handle, handing everything it still holds to the durable
    /// owner.
    ///
    /// Carried work is handed over whether or not anything else is owed, and
    /// one item at a time from the list this handle still owns. One attempt
    /// is made at what is pending, not a loop: what it cannot answer moves to
    /// the owner rather than being destroyed here.
    pub fn abandon<P>(self, durable: &mut PrivateSettlementOwner<R, P>)
        ensures
            exists|d: Seq<SweepDisposition>| #[trigger] abandoned(self@, old(durable)@, final(durable)@, d),
            old(durable).wf() ==> final(durable).wf(),
    {
        let ghost h = self@;
        let mut this = self;
        this.park_interrupted(durable);
        let ghost p = this@;
        let ghost o = durable@;
        let ghost outs = p.outstanding;
        let ghost n = outs.len();
        proof {
            assert(outs.subrange(n as int, n as int).reverse() =~= Seq::<PrivateIdentity>::empty());
            assert(with_origin(h.origin, Seq::<PrivateIdentity>::empty()) =~= Seq::<(R, PrivateIdentity)>::empty());
            assert(durable@.outstanding =~= o.outstanding + with_origin(
                h.origin,
                outs.subrange(n as int, n as int).reverse(),
            ));
        }
        while this.outstanding.len() > 0
            invariant
                this@ == (HandleView { outstanding: this@.outstanding, ..p }),
                this@.outstanding == outs.take(this@.outstanding.len() as int),
                this@.outstanding.len() <= n,
                n == outs.len(),
                p.origin == h.origin,
                durable@ == (SettlementView {
                    outstanding: o.outstanding + with_origin(
                        h.origin,
                        outs.subrange(this@.outstanding.len() as int, n as int).reverse(),
                    ),
                    ..o
                }),
                o == parked_owner(h, old(durable)@),
                old(durable).wf() ==> durable.wf(),
            decreases this.outstanding.len(),
        {
            let ghost k = this.outstanding.len() as int;
            let identity = this.outstanding.pop().unwrap();
            durable.take_one_outstanding(this.origin, identity);
            proof {
                assert(outs.take(k)[k - 1] == outs[k - 1]);
                lemma_pop_reversed(h.origin, outs, k);
                assert(this@.outstanding =~= outs.take(k - 1));
            }
        }
        proof {
            assert(outs.subrange(0, n as int) =~= outs);
        }
        let ghost o2 = durable@;
        if this.queue_unreadable {
            let mut queue: Vec<PrivateOperation> = Vec::new();
            std::mem::swap(&mut queue, &mut this.queue);
            durable.take_failed_instance(this.origin, queue, Vec::new());
        }
        let ghost o3 = durable@;
        proof {
            assert(p == parked_view(h));
            assert(o == parked_owner(h, old(durable)@));
            if h.queue_unreadable {
                assert(o3.failed.len() == o.failed.len() + 1);
                assert(o3.failed.drop_last() == o.failed);
                assert(o3.failed.last().origin == h.origin);
                assert(o3.failed.last().queue@ == h.queue);
                assert(o3.failed.last().uncollected@.len() == 0);
            } else {
                assert(o3.failed == o.failed);
            }
            assert(o3 == SettlementView { failed: o3.failed, outstanding: o3.outstanding, ..o });
        }
        let ghost pend = this@.pending;
        assert(pend == p.pending);
        if this.pending.len() == 0 {
            proof {
                let d = Seq::<SweepDisposition>::empty();
                assert(in_place(pend, d, SweepDisposition::Kept).reverse() =~= Seq::<PrivateOperation>::empty());
                assert(with_origin(h.origin, Seq::<PrivateOperation>::empty()) =~= Seq::<(R, PrivateOperation)>::empty());
                assert(carried_on(h.origin, Seq::<PrivateOperation>::empty()) =~= Seq::<(R, PrivateIdentity)>::empty());
                assert(durable@.held =~= o.held + with_origin(h.origin, in_place(pend, d, SweepDisposition::Kept).reverse()));
                assert(durable@.outstanding =~= o.outstanding + with_origin(h.origin, outs.reverse()) + carried_on(
                    h.origin,
                    disposed(pend, d, SweepDisposition::HandedOn),
                ));
                assert(abandoned(h, old(durable)@, durable@, d));
            }
            return;
        }
        let (_answered, Ghost(d)) = this.settle_pending(durable);
        let ghost o4 = durable@;
        let ghost rest = this@.pending;
        let ghost m = rest.len();
        proof {
            assert(rest.subrange(m as int, m as int).reverse() =~= Seq::<PrivateOperation>::empty());
            assert(with_origin(h.origin, Seq::<PrivateOperation>::empty()) =~= Seq::<(R, PrivateOperation)>::empty());
            assert(durable@.held =~= o4.held + with_origin(h.origin, rest.subrange(m as int, m as int).reverse()));
        }
        while this.pending.len() > 0
            invariant
                this@.pending == rest.take(this@.pending.len() as int),
                this@.pending.len() <= m,
                m == rest.len(),
                this@.origin == h.origin,
                durable@ == (SettlementView {
                    held: o4.held + with_origin(
                        h.origin,
                        rest.subrange(this@.pending.len() as int, m as int).reverse(),
                    ),
                    ..o4
                }),
                old(durable).wf() ==> durable.wf(),
            decreases this.pending.len(),
        {
            let ghost k = this.pending.len() as int;
            let operation = this.pending.pop().unwrap();
            durable.take_one(this.origin, operation);
            proof {
                assert(rest.take(k)[k - 1] == rest[k - 1]);
                lemma_pop_reversed(h.origin, rest, k);
                assert(this@.pending =~= rest.take(k - 1));
            }
        }
        proof {
            assert(rest.subrange(0, m as int) =~= rest);
            assert(abandoned(h, old(durable)@, durable@, d));
        }
    }
}

/// Where a sweep leaves items in place, it leaves the same items it would
/// have gathered from the end.
pub proof fn lemma_in_place_gathers(s: Seq<PrivateOperation>, d: Seq<SweepDisposition>, which: SweepDisposition)
    requires
        d.len() == s.len(),
    ensures
        in_place(s, d, which).to_multiset() =~= disposed(s, d, which).to_multiset(),
        in_place(s, d, which).len() == disposed(s, d, which).len(),
    decreases s.len(),
{
    broadcast use vstd::seq_lib::group_to_multiset_ensures;

    if s.len() > 0 {
        lemma_in_place_gathers(s.skip(1), d.skip(1), which);
        if d[0] == which {
            let rest = in_place(s.skip(1), d.skip(1), which);
            vstd::seq_lib::lemma_multiset_commutative(seq![s[0]], rest);
            assert(seq![s[0]].to_multiset() =~= Multiset::singleton(s[0])) by {
                assert(seq![s[0]] =~= Seq::<PrivateOperation>::empty().push(s[0]));
            }
        }
    }
}

/// One attempt at each pending obligation answers, hands on or keeps each of
/// them, exactly once.
pub proof fn law_settling_conserves_pending<R>(
    pre: HandleView<R>,
    post: HandleView<R>,
    owner_pre: SettlementView<R>,
    owner_post: SettlementView<R>,
    answered: nat,
    d: Seq<SweepDisposition>,
)
    requires
        settled_pending(pre, post, owner_pre, owner_post, answered, d),
    ensures
        post.pending.to_multiset().add(
            disposed(pre.pending, d, SweepDisposition::Answered).to_multiset(),
        ).add(disposed(pre.pending, d, SweepDisposition::HandedOn).to_multiset())
            =~= pre.pending.to_multiset(),
        post.pending.len() + answered + disposed(pre.pending, d, SweepDisposition::HandedOn).len()
            == pre.pending.len(),
{
    lemma_disposed_partition(pre.pending, d);
    lemma_in_place_gathers(pre.pending, d, SweepDisposition::Kept);
}

/// Retrying twice answers nothing twice: what two successive attempts
/// answered was pending before the first, once.
pub proof fn law_retrying_twice_answers_nothing_twice<R>(
    first: HandleView<R>,
    second: HandleView<R>,
    third: HandleView<R>,
    o1: SettlementView<R>,
    o2: SettlementView<R>,
    o3: SettlementView<R>,
    a1: nat,
    a2: nat,
    d1: Seq<SweepDisposition>,
    d2: Seq<SweepDisposition>,
)
    requires
        settled_pending(first, second, o1, o2, a1, d1),
        settled_pending(second, third, o2, o3, a2, d2),
    ensures
        disposed(first.pending, d1, SweepDisposition::Answered).to_multiset().add(
            disposed(second.pending, d2, SweepDisposition::Answered).to_multiset(),
        ).subset_of(first.pending.to_multiset()),
        a1 + a2 <= first.pending.len(),
{
    law_settling_conserves_pending(first, second, o1, o2, a1, d1);
    law_settling_conserves_pending(second, third, o2, o3, a2, d2);
    let answered1 = disposed(first.pending, d1, SweepDisposition::Answered).to_multiset();
    let answered2 = disposed(second.pending, d2, SweepDisposition::Answered).to_multiset();
    let handed1 = disposed(first.pending, d1, SweepDisposition::HandedOn).to_multiset();
    let handed2 = disposed(second.pending, d2, SweepDisposition::HandedOn).to_multiset();
    assert(answered2.subset_of(second.pending.to_multiset())) by {
        assert forall|x: PrivateOperation| answered2.count(x) <= second.pending.to_multiset().count(x) by {
            assert(third.pending.to_multiset().add(answered2).add(handed2).count(x)
                == second.pending.to_multiset().count(x));
        }
    }
    assert forall|x: PrivateOperation|
        answered1.add(answered2).count(x) <= first.pending.to_multiset().count(x) by {
        assert(second.pending.to_multiset().add(answered1).add(handed1).count(x)
            == first.pending.to_multiset().count(x));
        assert(answered2.count(x) <= second.pending.to_multiset().count(x));
    }
}

/// Abandoning a handle loses nothing: every obligation it held, and every
/// identity it carried, ends up answered or with the durable owner.
pub proof fn law_abandoning_loses_nothing<R>(
    h: HandleView<R>,
    owner_pre: SettlementView<R>,
    owner_post: SettlementView<R>,
    d: Seq<SweepDisposition>,
)
    requires
        abandoned(h, owner_pre, owner_post, d),
    ensures
        owner_post.held.len() + owner_post.outstanding.len() + owner_post.indeterminate.len()
            + disposed(parked_view(h).pending, d, SweepDisposition::Answered).len()
            == owner_pre.held.len() + owner_pre.outstanding.len() + owner_pre.indeterminate.len()
            + h.pending.len() + h.outstanding.len(),
{
    let p = parked_view(h);
    lemma_disposed_partition(p.pending, d);
    lemma_in_place_gathers(p.pending, d, SweepDisposition::Kept);
    match h.settling {
        Some(i) => {
            if i < h.pending.len() {
                assert(p.pending.len() == h.pending.len() - 1);
            }
        },
        None => {},
    }
}

} // verus!
