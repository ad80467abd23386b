// Connection cleanup custody.
//
// One slot per connection the frontend may admit at once. A slot's mark says
// which incarnation it holds and whether that incarnation is still open: the
// open mark is twice the incarnation, and closing sets the low bit. A gate
// remembers the open mark it was minted with, so a gate from an earlier
// incarnation can never read as open again, whatever the slot holds now.
//
// Records stay until their cleanup is complete: the binding's grants retired
// and the native owner removed. Nothing here reopens an admission or reports
// a revocation complete.
use vstd::prelude::*;

verus! {

/// Why the cleanup custody refused.
#[derive(Debug, Clone, Copy, PartialEq, Eq)]
pub enum PrivateLifecycleRefusal {
    Unreachable,
    Capacity,
    IdentityExhausted,
    DifferentAdmission,
    AlreadyOwned,
    NotAdmitted,
}

/// A count of what the custody still holds.
#[derive(Debug, Clone, Copy, PartialEq, Eq)]
pub struct PrivateLifecycleInventory {
    pub open: usize,
    pub closed: usize,
    pub native_unknown: usize,
    /// Connections whose exact grant retirement has not yet been verified.
    pub retirement_checks_pending: usize,
}

/// The exact admission a record was made for.
#[derive(Debug, Clone, Copy, PartialEq, Eq, Structural)]
pub struct PrivateLifecycleIdentity {
    pub client: u64,
    pub admission: u64,
    pub generation: u64,
    pub namespace: u64,
}

/// How far a record's native cleanup got.
#[derive(Debug, Clone, Copy, PartialEq, Eq, Structural)]
pub enum PrivateLifecycleNative {
    Pending,
    /// Begun and not known to have finished. Never replayed: a blind second
    /// run could clear a newer contribution.
    Started,
    Complete,
}

/// One admitted connection's cleanup record.
#[derive(Debug, Clone, Copy, PartialEq, Eq)]
pub struct PrivateLifecycleRecord {
    pub identity: PrivateLifecycleIdentity,
    pub native: PrivateLifecycleNative,
    pub grants_pending: bool,
    pub leased: bool,
}

/// The native teardown receipt for one departed owner, with the identity it
/// was taken for.
pub struct PrivateNativeOwnerCleanup<R> {
    pub identity: PrivateLifecycleIdentity,
    pub removed: R,
}

/// The native input state the cleanup reaches into.
///
/// Its answers are its own: nothing here states what a cleanup removes.
pub trait PrivateNativeOwnerAuthority {
    type Receipt;

    /// Remove everything the ordered owner left behind.
    fn cleanup_ordered_owner(&mut self, namespace: u64, client: u64) -> Self::Receipt;

    /// Register a client whose queries read native state.
    fn register_query_client(&mut self, namespace: u64, client: u64);

    /// Whether a receipt answers for this owner.
    fn answers_for(&self, receipt: &Self::Receipt, namespace: u64, client: u64) -> bool;
}

struct PrivateLifecycleSlot<R> {
    mark: u64,
    incarnation: u64,
    record: Option<PrivateLifecycleRecord>,
    /// The receipt of the last native cleanup, with the incarnation it was
    /// taken under.
    cleanup: Option<(u64, PrivateNativeOwnerCleanup<R>)>,
}

/// Every slot of one frontend's cleanup custody.
pub struct PrivateLifecycleRecords<R> {
    slots: Vec<PrivateLifecycleSlot<R>>,
    cursor: usize,
    accepting: bool,
}

/// A check and close capability for one exact slot incarnation.
///
/// It cannot reopen an admission or report a revocation complete.
#[derive(Debug, Clone, Copy, PartialEq, Eq, Structural)]
pub struct PrivateLifecycleGate {
    slot: usize,
    open: u64,
}

/// One slot as it can be read.
pub ghost struct PrivateSlotView {
    pub mark: u64,
    pub incarnation: u64,
    pub record: Option<PrivateLifecycleRecord>,
    /// Whose native cleanup receipt the slot keeps, and under which
    /// incarnation it was taken.
    pub receipt: Option<(u64, PrivateLifecycleIdentity)>,
}

/// The custody as it can be read.
pub ghost struct PrivateLifecycleView {
    pub accepting: bool,
    pub cursor: int,
    pub slots: Seq<PrivateSlotView>,
}

/// The largest incarnation a slot may reach.
pub const PRIVATE_LIFECYCLE_LAST_INCARNATION: u64 = 0x7fff_ffff_ffff_ffff;

/// A mark with its closed bit set.
pub open spec fn closed_mark(m: u64) -> u64 {
    if m % 2 == 0 {
        (m + 1) as u64
    } else {
        m
    }
}

/// Whether a slot's current incarnation is still open.
pub open spec fn slot_open(v: PrivateSlotView) -> bool {
    v.mark % 2 == 0
}

/// A slot nobody has ever registered in.
pub open spec fn slot_fresh(v: PrivateSlotView) -> bool {
    v.mark == 1 && v.incarnation == 0 && v.record is None && v.receipt is None
}

/// The record made for a newly registered admission.
pub open spec fn fresh_record(identity: PrivateLifecycleIdentity) -> PrivateLifecycleRecord {
    PrivateLifecycleRecord {
        identity,
        native: PrivateLifecycleNative::Pending,
        grants_pending: true,
        leased: false,
    }
}

/// Whether a slot holds a record for this client.
pub open spec fn holds_client(v: PrivateSlotView, client: u64) -> bool {
    v.record matches Some(r) && r.identity.client == client
}

/// `new` keeps what `old` recorded: the same incarnations, no record where
/// there was none, each remaining record the same admission with its native
/// cleanup only moved on, a record gone only from a closed slot, and marks
/// changed only by closing an open incarnation.
pub open spec fn slots_kept(old: PrivateLifecycleView, new: PrivateLifecycleView) -> bool {
    &&& new.slots.len() == old.slots.len()
    &&& forall|i: int|
        0 <= i < old.slots.len() ==> {
            let o = #[trigger] old.slots[i];
            let n = new.slots[i];
            &&& n.incarnation == o.incarnation
            &&& (n.mark == o.mark || (slot_open(o) && n.mark == o.mark + 1))
            &&& (o.record is None ==> n.record is None)
            &&& (n.record matches Some(nr) ==> o.record matches Some(or) && nr.identity == or.identity
                && nr.leased == or.leased && (nr.native == or.native || (or.native
                == PrivateLifecycleNative::Pending && nr.native == PrivateLifecycleNative::Complete)))
            &&& (o.record is Some && n.record is None ==> !slot_open(n))
        }
}

/// The slots whose records went between `old` and `new`.
pub open spec fn retired_slots(old: PrivateLifecycleView, new: PrivateLifecycleView) -> Set<int> {
    Set::new(
        |i: int| 0 <= i < old.slots.len() && old.slots[i].record is Some && new.slots[i].record is None,
    )
}

pub proof fn lemma_slots_kept_refl(v: PrivateLifecycleView)
    ensures
        slots_kept(v, v),
{
}

pub proof fn lemma_slots_kept_trans(a: PrivateLifecycleView, b: PrivateLifecycleView, c: PrivateLifecycleView)
    requires
        slots_kept(a, b),
        slots_kept(b, c),
    ensures
        slots_kept(a, c),
{
    assert forall|i: int| 0 <= i < a.slots.len() implies {
        let o = #[trigger] a.slots[i];
        let n = c.slots[i];
        &&& n.incarnation == o.incarnation
        &&& (n.mark == o.mark || (slot_open(o) && n.mark == o.mark + 1))
        &&& (o.record is None ==> n.record is None)
        &&& (n.record matches Some(nr) ==> o.record matches Some(or) && nr.identity == or.identity
            && nr.leased == or.leased && (nr.native == or.native || (or.native
            == PrivateLifecycleNative::Pending && nr.native == PrivateLifecycleNative::Complete)))
        &&& (o.record is Some && n.record is None ==> !slot_open(n))
    } by {
        let m = b.slots[i];
        assert(m == b.slots[i]);
        if a.slots[i].record is Some && c.slots[i].record is None {
            if m.record is None {
                assert(!slot_open(m));
            }
        }
    }
}

/// Closing a gate keeps what the custody recorded.
pub proof fn lemma_after_close_kept(v: PrivateLifecycleView, g: PrivateLifecycleGate)
    ensures
        slots_kept(v, after_close(v, g)),
{
}

/// Settling a closed slot's record keeps what the custody recorded.
pub proof fn lemma_settle_kept(v: PrivateLifecycleView, i: int, grants_pending: bool)
    requires
        0 <= i < v.slots.len(),
        v.slots[i].record is Some,
        !slot_open(v.slots[i]),
    ensures
        slots_kept(v, PrivateLifecycleView { slots: v.slots.update(i, settled_slot(v.slots[i], grants_pending)), ..v }),
{
}

/// Whether a gate's incarnation is the one its slot holds, still open.
pub open spec fn gate_open(v: PrivateLifecycleView, g: PrivateLifecycleGate) -> bool {
    &&& g.open_mark() % 2 == 0
    &&& 0 <= g.index() < v.slots.len()
    &&& v.slots[g.index()].mark == g.open_mark()
}

/// The custody after one gate's close: its slot's closed bit is set when
/// that gate is the open one, and nothing else changes.
pub open spec fn after_close(v: PrivateLifecycleView, g: PrivateLifecycleGate) -> PrivateLifecycleView {
    if gate_open(v, g) {
        PrivateLifecycleView {
            slots: v.slots.update(
                g.index(),
                PrivateSlotView { mark: (g.open_mark() + 1) as u64, ..v.slots[g.index()] },
            ),
            ..v
        }
    } else {
        v
    }
}

/// The first slot with no record, if there is one.
pub open spec fn first_free(v: PrivateLifecycleView, i: int) -> bool {
    0 <= i < v.slots.len() && v.slots[i].record is None && forall|j: int|
        0 <= j < i ==> v.slots[j].record is Some
}

/// Why a registration for this client would be refused, if it would.
pub open spec fn registration_refusal(v: PrivateLifecycleView, client: u64) -> Option<PrivateLifecycleRefusal> {
    if !v.accepting {
        Some(PrivateLifecycleRefusal::NotAdmitted)
    } else if exists|i: int| 0 <= i < v.slots.len() && holds_client(#[trigger] v.slots[i], client) {
        Some(PrivateLifecycleRefusal::AlreadyOwned)
    } else if forall|i: int| 0 <= i < v.slots.len() ==> (#[trigger] v.slots[i]).record is Some {
        Some(PrivateLifecycleRefusal::Capacity)
    } else if v.slots[choose|i: int| first_free(v, i)].incarnation == PRIVATE_LIFECYCLE_LAST_INCARNATION {
        Some(PrivateLifecycleRefusal::IdentityExhausted)
    } else {
        None
    }
}

/// `w` is `v` after the first free slot took its next incarnation for this
/// identity, and `g` is that incarnation's gate.
pub open spec fn registered(
    v: PrivateLifecycleView,
    identity: PrivateLifecycleIdentity,
    g: PrivateLifecycleGate,
    w: PrivateLifecycleView,
) -> bool {
    let i = g.index();
    let o = v.slots[i];
    &&& first_free(v, i)
    &&& g.open_mark() == 2 * (o.incarnation + 1)
    &&& w == PrivateLifecycleView {
        slots: v.slots.update(
            i,
            PrivateSlotView {
                mark: (2 * (o.incarnation + 1)) as u64,
                incarnation: (o.incarnation + 1) as u64,
                record: Some(fresh_record(identity)),
                ..o
            },
        ),
        ..v
    }
}

/// Why leasing this client's record would be refused, if it would.
pub open spec fn lease_refusal(v: PrivateLifecycleView, client: u64) -> Option<PrivateLifecycleRefusal> {
    if forall|i: int| 0 <= i < v.slots.len() ==> !holds_client(#[trigger] v.slots[i], client) {
        Some(PrivateLifecycleRefusal::NotAdmitted)
    } else {
        let o = v.slots[choose|i: int| 0 <= i < v.slots.len() && holds_client(#[trigger] v.slots[i], client)];
        if o.record->0.leased {
            Some(PrivateLifecycleRefusal::AlreadyOwned)
        } else if !slot_open(o) {
            Some(PrivateLifecycleRefusal::NotAdmitted)
        } else {
            None
        }
    }
}

/// `w` is `v` after the client's record was leased through gate `g`.
pub open spec fn leased(v: PrivateLifecycleView, client: u64, g: PrivateLifecycleGate, w: PrivateLifecycleView) -> bool {
    let i = g.index();
    let o = v.slots[i];
    &&& 0 <= i < v.slots.len()
    &&& holds_client(o, client)
    &&& g.open_mark() == o.mark
    &&& w == PrivateLifecycleView {
        slots: v.slots.update(
            i,
            PrivateSlotView { record: Some(PrivateLifecycleRecord { leased: true, ..o.record->0 }), ..o },
        ),
        ..v
    }
}

/// What an inventory of the first `n` slots counts: open records, closed
/// records, records whose native cleanup is unknown, and records whose grant
/// retirement is unverified.
pub open spec fn tally(s: Seq<PrivateSlotView>, n: int) -> (nat, nat, nat, nat)
    decreases n,
{
    if n <= 0 {
        (0, 0, 0, 0)
    } else {
        let (a, b, c, d) = tally(s, n - 1);
        match s[n - 1].record {
            Some(r) => (
                a + if slot_open(s[n - 1]) {
                    1nat
                } else {
                    0nat
                },
                b + if slot_open(s[n - 1]) {
                    0nat
                } else {
                    1nat
                },
                c + if r.native == PrivateLifecycleNative::Started {
                    1nat
                } else {
                    0nat
                },
                d + if r.grants_pending {
                    1nat
                } else {
                    0nat
                },
            ),
            None => (a, b, c, d),
        }
    }
}

proof fn lemma_tally_bound(s: Seq<PrivateSlotView>, n: int)
    requires
        0 <= n,
    ensures
        tally(s, n).0 <= n,
        tally(s, n).1 <= n,
        tally(s, n).2 <= n,
        tally(s, n).3 <= n,
    decreases n,
{
    if n > 0 {
        lemma_tally_bound(s, n - 1);
    }
}

/// A slot after one drive visit settled it: its grant retirement noted,
/// its native cleanup run if it had not begun, and its record retired when
/// both are done.
pub open spec fn settled_slot(v: PrivateSlotView, grants_pending: bool) -> PrivateSlotView {
    let r = v.record->0;
    let native = if r.native == PrivateLifecycleNative::Pending {
        PrivateLifecycleNative::Complete
    } else {
        r.native
    };
    let receipt = if r.native == PrivateLifecycleNative::Pending {
        Some((v.incarnation, r.identity))
    } else {
        v.receipt
    };
    PrivateSlotView {
        record: if native == PrivateLifecycleNative::Complete && !grants_pending {
            None
        } else {
            Some(PrivateLifecycleRecord { native, grants_pending, ..r })
        },
        receipt,
        ..v
    }
}

/// Replacing one slot keeps the shape when the new slot keeps its own, and
/// names no client another slot already holds.
proof fn lemma_slot_replaced_wf(v: PrivateLifecycleView, i: int, n: PrivateSlotView)
    requires
        slots_wf(v),
        0 <= i < v.slots.len(),
        n.incarnation <= PRIVATE_LIFECYCLE_LAST_INCARNATION,
        n.mark == 2 * n.incarnation || n.mark == 2 * n.incarnation + 1,
        !v.accepting ==> !slot_open(n),
        n.record is Some ==> forall|j: int|
            0 <= j < v.slots.len() && j != i ==> !holds_client(#[trigger] v.slots[j], n.record->0.identity.client),
    ensures
        slots_wf(PrivateLifecycleView { slots: v.slots.update(i, n), ..v }),
{
    let w = PrivateLifecycleView { slots: v.slots.update(i, n), ..v };
    assert forall|a: int, b: int|
        #![trigger w.slots[a], w.slots[b]]
        0 <= a < w.slots.len() && 0 <= b < w.slots.len() && a != b && w.slots[a].record is Some
            && w.slots[b].record is Some implies w.slots[a].record->0.identity.client
        != w.slots[b].record->0.identity.client by {
        if a == i {
            assert(!holds_client(v.slots[b], n.record->0.identity.client));
        } else if b == i {
            assert(!holds_client(v.slots[a], n.record->0.identity.client));
        } else {
            assert(w.slots[a] == v.slots[a] && w.slots[b] == v.slots[b]);
        }
    }
    assert forall|j: int| 0 <= j < w.slots.len() implies {
        let s = #[trigger] w.slots[j];
        &&& s.incarnation <= PRIVATE_LIFECYCLE_LAST_INCARNATION
        &&& (s.mark == 2 * s.incarnation || s.mark == 2 * s.incarnation + 1)
        &&& (!w.accepting ==> !slot_open(s))
    } by {
        if j != i {
            assert(w.slots[j] == v.slots[j]);
        }
    }
}

/// A record just registered can be leased at once, through the very gate
/// its registration returned.
pub proof fn lemma_registered_leasable(
    v: PrivateLifecycleView,
    identity: PrivateLifecycleIdentity,
    g: PrivateLifecycleGate,
    w: PrivateLifecycleView,
)
    requires
        slots_wf(v),
        registration_refusal(v, identity.client) is None,
        registered(v, identity, g, w),
    ensures
        lease_refusal(w, identity.client) is None,
        forall|h: PrivateLifecycleGate, u: PrivateLifecycleView| #[trigger] leased(w, identity.client, h, u) ==> h == g,
{
    let k = g.index();
    assert(w.slots[k].record == Some(fresh_record(identity)));
    assert(forall|j: int| 0 <= j < w.slots.len() && j != k ==> w.slots[j] == v.slots[j]);
    assert forall|j: int| 0 <= j < w.slots.len() && holds_client(#[trigger] w.slots[j], identity.client) implies j == k by {
        if j != k {
            assert(holds_client(v.slots[j], identity.client));
        }
    }
    assert(holds_client(w.slots[k], identity.client));
    assert forall|h: PrivateLifecycleGate, u: PrivateLifecycleView| #[trigger] leased(w, identity.client, h, u) implies h == g by {
        assert(h.index() == k);
        assert(h.slot == g.slot);
    }
}

/// Whether a gate names an incarnation its slot has already reached.
pub open spec fn gate_minted(v: PrivateLifecycleView, g: PrivateLifecycleGate) -> bool {
    0 <= g.index() < v.slots.len() && g.open_mark() <= 2 * v.slots[g.index()].incarnation
}

/// One step the custody can take: keeping its records while closing and
/// settling, registering a new incarnation, or leasing a record.
pub open spec fn custody_step(v: PrivateLifecycleView, w: PrivateLifecycleView) -> bool {
    ||| slots_kept(v, w)
    ||| exists|id: PrivateLifecycleIdentity, h: PrivateLifecycleGate| #[trigger] registered(v, id, h, w)
    ||| exists|c: u64, h: PrivateLifecycleGate| #[trigger] leased(v, c, h, w)
}

/// A closed incarnation never reopens: once a gate the custody minted reads
/// closed, it reads closed after any step the custody takes.
pub proof fn law_closed_gate_stays_closed(v: PrivateLifecycleView, w: PrivateLifecycleView, g: PrivateLifecycleGate)
    requires
        slots_wf(v),
        gate_minted(v, g),
        !gate_open(v, g),
        custody_step(v, w),
    ensures
        gate_minted(w, g),
        !gate_open(w, g),
{
    let k = g.index();
    if slots_kept(v, w) {
        assert(v.slots[k] == v.slots[k]);
    } else if exists|id: PrivateLifecycleIdentity, h: PrivateLifecycleGate| #[trigger] registered(v, id, h, w) {
        let (id, h) = choose|id: PrivateLifecycleIdentity, h: PrivateLifecycleGate| #[trigger] registered(v, id, h, w);
        if h.index() != k {
            assert(w.slots[k] == v.slots[k]);
        }
    } else {
        let (c, h) = choose|c: u64, h: PrivateLifecycleGate| #[trigger] leased(v, c, h, w);
        if h.index() != k {
            assert(w.slots[k] == v.slots[k]);
        }
    }
}

impl PrivateLifecycleGate {
    /// The slot this gate names.
    pub closed spec fn index(&self) -> int {
        self.slot as int
    }

    /// The mark its slot carries while this gate's incarnation is open.
    pub closed spec fn open_mark(&self) -> u64 {
        self.open
    }
}

impl<R> PrivateLifecycleSlot<R> {
    spec fn view(&self) -> PrivateSlotView {
        PrivateSlotView {
            mark: self.mark,
            incarnation: self.incarnation,
            record: self.record,
            receipt: match self.cleanup {
                Some((inc, c)) => Some((inc, c.identity)),
                None => None,
            },
        }
    }
}

impl<R> View for PrivateLifecycleRecords<R> {
    type V = PrivateLifecycleView;

    closed spec fn view(&self) -> PrivateLifecycleView {
        PrivateLifecycleView {
            accepting: self.accepting,
            cursor: self.cursor as int,
            slots: self.slots@.map_values(|s: PrivateLifecycleSlot<R>| s.view()),
        }
    }
}

/// The shape every slot keeps: its mark names its incarnation, and the
/// incarnation never outgrows the marks.
pub open spec fn slots_wf(v: PrivateLifecycleView) -> bool {
    &&& v.slots.len() > 0
    &&& 0 <= v.cursor < v.slots.len()
    &&& forall|i: int|
        0 <= i < v.slots.len() ==> {
            let s = #[trigger] v.slots[i];
            &&& s.incarnation <= PRIVATE_LIFECYCLE_LAST_INCARNATION
            &&& (s.mark == 2 * s.incarnation || s.mark == 2 * s.incarnation + 1)
            &&& (!v.accepting ==> !slot_open(s))
        }
    &&& forall|i: int, j: int|
        #![trigger v.slots[i], v.slots[j]]
        0 <= i < v.slots.len() && 0 <= j < v.slots.len() && i != j && v.slots[i].record is Some
            && v.slots[j].record is Some ==> v.slots[i].record->0.identity.client
            != v.slots[j].record->0.identity.client
}

impl<R> PrivateLifecycleRecords<R> {
    /// The slots keep their shape.
    pub open spec fn wf(&self) -> bool {
        slots_wf(self@)
    }

    /// A custody of `capacity` slots, none ever registered in, accepting.
    ///
    /// Capacity is the frontend's configured admission limit.
    pub fn prepare(capacity: usize) -> (r: Self)
        requires
            capacity > 0,
        ensures
            r.wf(),
            r@.accepting,
            r@.cursor == 0,
            r@.slots.len() == capacity,
            forall|i: int| 0 <= i < capacity ==> slot_fresh(#[trigger] r@.slots[i]),
    {
        let mut slots: Vec<PrivateLifecycleSlot<R>> = Vec::new();
        let mut n: usize = 0;
        while n < capacity
            invariant
                n <= capacity,
                slots@.len() == n,
                forall|i: int| 0 <= i < n ==> slot_fresh(#[trigger] slots@[i].view()),
            decreases capacity - n,
        {
            slots.push(PrivateLifecycleSlot { mark: 1, incarnation: 0, record: None, cleanup: None });
            n = n + 1;
        }
        let r = PrivateLifecycleRecords { slots, cursor: 0, accepting: true };
        proof {
            assert forall|i: int| 0 <= i < capacity implies slot_fresh(#[trigger] r@.slots[i]) by {
                assert(r@.slots[i] == slots@[i].view());
            }
        }
        r
    }

    /// Shut every current and later admission: nothing is accepted any
    /// more, and every open incarnation closes.
    pub fn close_all(&mut self)
        requires
            old(self).wf(),
        ensures
            final(self).wf(),
            !final(self)@.accepting,
            final(self)@.cursor == old(self)@.cursor,
            final(self)@.slots.len() == old(self)@.slots.len(),
            forall|i: int|
                0 <= i < old(self)@.slots.len() ==> #[trigger] final(self)@.slots[i] == (PrivateSlotView {
                    mark: closed_mark(old(self)@.slots[i].mark),
                    ..old(self)@.slots[i]
                }),
    {
        self.accepting = false;
        let mut i: usize = 0;
        while i < self.slots.len()
            invariant
                0 <= i <= self.slots@.len(),
                self.slots@.len() == old(self).slots@.len(),
                !self.accepting,
                self.cursor == old(self).cursor,
                slots_wf(old(self)@),
                forall|j: int|
                    0 <= j < i ==> #[trigger] self.slots@[j].view() == (PrivateSlotView {
                        mark: closed_mark(old(self).slots@[j].mark),
                        ..old(self).slots@[j].view()
                    }),
                forall|j: int| i <= j < self.slots@.len() ==> #[trigger] self.slots@[j].view() == old(self).slots@[j].view(),
            decreases self.slots@.len() - i,
        {
            let ghost pre = self.slots@;
            proof {
                assert(old(self)@.slots[i as int] == old(self).slots@[i as int].view());
                assert(self.slots@[i as int].view() == old(self).slots@[i as int].view());
            }
            let slot = &mut self.slots[i];
            if slot.mark % 2 == 0 {
                slot.mark = slot.mark + 1;
            }
            proof {
                assert(self.slots@ == pre.update(i as int, self.slots@[i as int]));
                assert(self.slots@[i as int].view() == (PrivateSlotView {
                    mark: closed_mark(old(self).slots@[i as int].mark),
                    ..old(self).slots@[i as int].view()
                }));
            }
            i = i + 1;
        }
        proof {
            let v = self@;
            assert forall|j: int| 0 <= j < old(self)@.slots.len() implies #[trigger] v.slots[j] == (PrivateSlotView {
                mark: closed_mark(old(self)@.slots[j].mark),
                ..old(self)@.slots[j]
            }) by {
                assert(v.slots[j] == self.slots@[j].view());
                assert(old(self)@.slots[j] == old(self).slots@[j].view());
            }
            assert forall|a: int, b: int|
                #![trigger v.slots[a], v.slots[b]]
                0 <= a < v.slots.len() && 0 <= b < v.slots.len() && a != b && v.slots[a].record is Some
                    && v.slots[b].record is Some implies v.slots[a].record->0.identity.client
                != v.slots[b].record->0.identity.client by {
                assert(old(self)@.slots[a].record == v.slots[a].record);
                assert(old(self)@.slots[b].record == v.slots[b].record);
            }
            assert forall|j: int| 0 <= j < v.slots.len() implies {
                let s = #[trigger] v.slots[j];
                &&& s.incarnation <= PRIVATE_LIFECYCLE_LAST_INCARNATION
                &&& (s.mark == 2 * s.incarnation || s.mark == 2 * s.incarnation + 1)
                &&& (!v.accepting ==> !slot_open(s))
            } by {
                let o = old(self)@.slots[j];
                assert(o.mark == 2 * o.incarnation || o.mark == 2 * o.incarnation + 1);
            }
        }
    }

    /// Whether this gate's incarnation is still open.
    pub fn is_open(&self, gate: &PrivateLifecycleGate) -> (r: bool)
        ensures
            r == gate_open(self@, *gate),
    {
        gate.open % 2 == 0 && gate.slot < self.slots.len() && self.slots[gate.slot].mark == gate.open
    }

    /// Close this gate's incarnation, if it is the open one. An earlier
    /// incarnation's gate closes nothing.
    pub fn close(&mut self, gate: &PrivateLifecycleGate)
        requires
            old(self).wf(),
        ensures
            final(self).wf(),
            final(self)@ == after_close(old(self)@, *gate),
    {
        if gate.open % 2 == 0 && gate.slot < self.slots.len() && self.slots[gate.slot].mark == gate.open {
            let ghost pre = self@;
            proof {
                assert(pre.slots[gate.slot as int] == self.slots@[gate.slot as int].view());
            }
            let slot = &mut self.slots[gate.slot];
            slot.mark = gate.open + 1;
            proof {
                let v = self@;
                let g = gate.slot as int;
                assert(v.slots =~= pre.slots.update(
                    g,
                    PrivateSlotView { mark: (gate.open + 1) as u64, ..pre.slots[g] },
                )) by {
                    assert forall|j: int| 0 <= j < v.slots.len() implies v.slots[j] == pre.slots.update(
                        g,
                        PrivateSlotView { mark: (gate.open + 1) as u64, ..pre.slots[g] },
                    )[j] by {
                        assert(v.slots[j] == self.slots@[j].view());
                        assert(pre.slots[j] == old(self).slots@[j].view());
                    }
                }
                assert(slots_wf(v)) by {
                    assert forall|a: int, b: int|
                        #![trigger v.slots[a], v.slots[b]]
                        0 <= a < v.slots.len() && 0 <= b < v.slots.len() && a != b && v.slots[a].record is Some
                            && v.slots[b].record is Some implies v.slots[a].record->0.identity.client
                        != v.slots[b].record->0.identity.client by {
                        assert(pre.slots[a].record == v.slots[a].record);
                        assert(pre.slots[b].record == v.slots[b].record);
                    }
                }
            }
        }
    }

    /// Make one admission's record, before its connection can be exposed.
    ///
    /// Refused when the custody no longer accepts, when the client already
    /// has a record, when every slot is taken, and when the first free slot
    /// has no incarnation left. Otherwise the first free slot takes the next
    /// incarnation, opens, and its gate is returned.
    pub fn register_held(&mut self, identity: PrivateLifecycleIdentity) -> (r: Result<
        PrivateLifecycleGate,
        PrivateLifecycleRefusal,
    >)
        requires
            old(self).wf(),
        ensures
            final(self).wf(),
            match registration_refusal(old(self)@, identity.client) {
                Some(refusal) => r == Err::<PrivateLifecycleGate, PrivateLifecycleRefusal>(refusal)
                    && final(self)@ == old(self)@,
                None => r is Ok && registered(old(self)@, identity, r->Ok_0, final(self)@),
            },
    {
        if !self.accepting {
            return Err(PrivateLifecycleRefusal::NotAdmitted);
        }
        let ghost v = self@;
        let n = self.slots.len();
        let mut i: usize = 0;
        while i < n
            invariant
                n == self.slots@.len(),
                self@ == v,
                v == old(self)@,
                slots_wf(v),
                v.accepting,
                i <= n,
                forall|j: int| 0 <= j < i ==> !holds_client(#[trigger] v.slots[j], identity.client),
            decreases n - i,
        {
            proof {
                assert(v.slots[i as int] == self.slots@[i as int].view());
            }
            match self.slots[i].record {
                Some(record) => {
                    if record.identity.client == identity.client {
                        return Err(PrivateLifecycleRefusal::AlreadyOwned);
                    }
                },
                None => {},
            }
            i = i + 1;
        }
        let mut f: usize = 0;
        while f < n && self.slots[f].record.is_some()
            invariant
                n == self.slots@.len(),
                self@ == v,
                v == old(self)@,
                slots_wf(v),
                v.accepting,
                f <= n,
                forall|j: int| 0 <= j < f ==> (#[trigger] v.slots[j]).record is Some,
            decreases n - f,
        {
            proof {
                assert(v.slots[f as int] == self.slots@[f as int].view());
            }
            f = f + 1;
        }
        if f == n {
            return Err(PrivateLifecycleRefusal::Capacity);
        }
        proof {
            assert(v.slots[f as int] == self.slots@[f as int].view());
            assert(first_free(v, f as int));
            assert forall|i: int| #[trigger] first_free(v, i) implies i == f by {
                if i < f {
                    assert(v.slots[i].record is Some);
                } else if i > f {
                    assert(v.slots[f as int].record is Some);
                }
            }
        }
        let incarnation = self.slots[f].incarnation;
        if incarnation >= PRIVATE_LIFECYCLE_LAST_INCARNATION {
            return Err(PrivateLifecycleRefusal::IdentityExhausted);
        }
        let next = incarnation + 1;
        let open = next * 2;
        let ghost o = v.slots[f as int];
        let ghost n_view = PrivateSlotView {
            mark: open,
            incarnation: next,
            record: Some(fresh_record(identity)),
            ..o
        };
        let slot = &mut self.slots[f];
        slot.incarnation = next;
        slot.record = Some(
            PrivateLifecycleRecord {
                identity,
                native: PrivateLifecycleNative::Pending,
                grants_pending: true,
                leased: false,
            },
        );
        slot.mark = open;
        proof {
            assert(self@.slots =~= v.slots.update(f as int, n_view)) by {
                assert forall|j: int| 0 <= j < self@.slots.len() implies self@.slots[j] == v.slots.update(f as int, n_view)[j] by {
                    assert(self@.slots[j] == self.slots@[j].view());
                    assert(v.slots[j] == old(self).slots@[j].view());
                }
            }
            lemma_slot_replaced_wf(v, f as int, n_view);
        }
        Ok(PrivateLifecycleGate { slot: f, open })
    }

    /// Take the lease on a client's record: the one custody its connection
    /// holds, taken once, and only while its incarnation is open.
    pub fn lease(&mut self, client: u64) -> (r: Result<PrivateLifecycleGate, PrivateLifecycleRefusal>)
        requires
            old(self).wf(),
        ensures
            final(self).wf(),
            match lease_refusal(old(self)@, client) {
                Some(refusal) => r == Err::<PrivateLifecycleGate, PrivateLifecycleRefusal>(refusal)
                    && final(self)@ == old(self)@,
                None => r is Ok && leased(old(self)@, client, r->Ok_0, final(self)@),
            },
    {
        let ghost v = self@;
        let n = self.slots.len();
        let mut i: usize = 0;
        while i < n
            invariant
                n == self.slots@.len(),
                self@ == v,
                v == old(self)@,
                slots_wf(v),
                i <= n,
                forall|j: int| 0 <= j < i ==> !holds_client(#[trigger] v.slots[j], client),
            decreases n - i,
        {
            proof {
                assert(v.slots[i as int] == self.slots@[i as int].view());
            }
            let found = match self.slots[i].record {
                Some(record) => record.identity.client == client,
                None => false,
            };
            if found {
                proof {
                    assert forall|j: int| 0 <= j < n && j != i implies !holds_client(#[trigger] v.slots[j], client) by {
                        if holds_client(v.slots[j], client) {
                            assert(v.slots[i as int].record->0.identity.client != v.slots[j].record->0.identity.client);
                        }
                    }
                }
                let record = self.slots[i].record.unwrap();
                if record.leased {
                    return Err(PrivateLifecycleRefusal::AlreadyOwned);
                }
                let open = self.slots[i].incarnation * 2;
                if self.slots[i].mark != open {
                    return Err(PrivateLifecycleRefusal::NotAdmitted);
                }
                let ghost o = v.slots[i as int];
                let ghost n_view = PrivateSlotView {
                    record: Some(PrivateLifecycleRecord { leased: true, ..record }),
                    ..o
                };
                let slot = &mut self.slots[i];
                slot.record = Some(PrivateLifecycleRecord { leased: true, ..record });
                proof {
                    assert(self@.slots =~= v.slots.update(i as int, n_view)) by {
                        assert forall|j: int| 0 <= j < self@.slots.len() implies self@.slots[j] == v.slots.update(i as int, n_view)[j] by {
                            assert(self@.slots[j] == self.slots@[j].view());
                            assert(v.slots[j] == old(self).slots@[j].view());
                        }
                    }
                    lemma_slot_replaced_wf(v, i as int, n_view);
                }
                return Ok(PrivateLifecycleGate { slot: i, open });
            }
            i = i + 1;
        }
        Err(PrivateLifecycleRefusal::NotAdmitted)
    }

    /// Count what the custody still holds.
    pub fn inventory(&self) -> (r: PrivateLifecycleInventory)
        requires
            self.wf(),
        ensures
            (r.open as nat, r.closed as nat, r.native_unknown as nat, r.retirement_checks_pending as nat)
                == tally(self@.slots, self@.slots.len() as int),
    {
        let n = self.slots.len();
        let mut result = PrivateLifecycleInventory {
            open: 0,
            closed: 0,
            native_unknown: 0,
            retirement_checks_pending: 0,
        };
        let mut i: usize = 0;
        while i < n
            invariant
                n == self.slots@.len(),
                i <= n,
                (result.open as nat, result.closed as nat, result.native_unknown as nat,
                    result.retirement_checks_pending as nat) == tally(self@.slots, i as int),
            decreases n - i,
        {
            proof {
                assert(self@.slots[i as int] == self.slots@[i as int].view());
                lemma_tally_bound(self@.slots, i as int);
            }
            match self.slots[i].record {
                Some(record) => {
                    if self.slots[i].mark % 2 == 0 {
                        result.open = result.open + 1;
                    } else {
                        result.closed = result.closed + 1;
                    }
                    if record.native == PrivateLifecycleNative::Started {
                        result.native_unknown = result.native_unknown + 1;
                    }
                    if record.grants_pending {
                        result.retirement_checks_pending = result.retirement_checks_pending + 1;
                    }
                },
                None => {},
            }
            i = i + 1;
        }
        result
    }

    /// The native cleanup receipt an exact identity can read through its
    /// gate.
    ///
    /// A slot keeps the receipt of its latest native cleanup with the
    /// incarnation it was taken under, so an earlier incarnation's gate
    /// reads nothing once a later incarnation's cleanup has run. Whether the
    /// receipt answers for the owner is the native side's answer.
    pub fn cleanup_receipt<'a, N: PrivateNativeOwnerAuthority<Receipt = R>>(
        &'a self,
        gate: &PrivateLifecycleGate,
        identity: PrivateLifecycleIdentity,
        native: &N,
    ) -> (r: Option<&'a R>)
        ensures
            r is Some ==> 0 <= gate.index() < self@.slots.len() && self@.slots[gate.index()].receipt
                == Some(((gate.open_mark() / 2) as u64, identity)),
    {
        if gate.slot >= self.slots.len() {
            return None;
        }
        proof {
            assert(self@.slots[gate.slot as int] == self.slots@[gate.slot as int].view());
        }
        match &self.slots[gate.slot].cleanup {
            Some((incarnation, cleanup)) => {
                if *incarnation == gate.open / 2 && cleanup.identity == identity && native.answers_for(
                    &cleanup.removed,
                    identity.namespace,
                    identity.client,
                ) {
                    Some(&cleanup.removed)
                } else {
                    None
                }
            },
            None => None,
        }
    }

    /// How many slots the custody has.
    pub fn capacity(&self) -> (r: usize)
        ensures
            r == self@.slots.len(),
    {
        self.slots.len()
    }

    /// Move the drive cursor one slot on, returning the slot it stood at.
    pub(crate) fn advance(&mut self) -> (index: usize)
        requires
            old(self).wf(),
        ensures
            final(self).wf(),
            index == old(self)@.cursor,
            final(self)@ == (PrivateLifecycleView {
                cursor: (index + 1) % (old(self)@.slots.len() as int),
                ..old(self)@
            }),
    {
        let index = self.cursor;
        let n = self.slots.len();
        proof {
            assert(self@.slots.len() == n);
        }
        self.cursor = if index + 1 < n {
            proof {
                vstd::arithmetic::div_mod::lemma_small_mod((index + 1) as nat, n as nat);
            }
            index + 1
        } else {
            proof {
                vstd::arithmetic::div_mod::lemma_mod_self_0(n as int);
            }
            0
        };
        proof {
            assert(self@.slots =~= old(self)@.slots);
        }
        index
    }

    /// The identity a closed slot's record was made for, if the slot is
    /// closed and holds one.
    pub(crate) fn retiring(&self, index: usize) -> (r: Option<PrivateLifecycleIdentity>)
        requires
            self.wf(),
            index < self@.slots.len(),
        ensures
            r == (if !slot_open(self@.slots[index as int]) && self@.slots[index as int].record is Some {
                Some(self@.slots[index as int].record->0.identity)
            } else {
                None::<PrivateLifecycleIdentity>
            }),
    {
        proof {
            assert(self@.slots[index as int] == self.slots@[index as int].view());
        }
        if self.slots[index].mark % 2 == 0 {
            return None;
        }
        match self.slots[index].record {
            Some(record) => Some(record.identity),
            None => None,
        }
    }

    /// Settle one closed slot's record: note whether grant retirement is
    /// still pending, run its native cleanup once if it has not begun, and
    /// retire the record when both are done. Returns whether it retired.
    ///
    /// The native cleanup is marked begun before it runs and complete after
    /// it returns; a cleanup that never returns leaves it begun, and nothing
    /// replays it.
    pub(crate) fn settle<N: PrivateNativeOwnerAuthority<Receipt = R>>(
        &mut self,
        index: usize,
        grants_pending: bool,
        native: &mut N,
    ) -> (retired: bool)
        requires
            old(self).wf(),
            index < old(self)@.slots.len(),
            old(self)@.slots[index as int].record is Some,
        ensures
            final(self).wf(),
            final(self)@ == (PrivateLifecycleView {
                slots: old(self)@.slots.update(
                    index as int,
                    settled_slot(old(self)@.slots[index as int], grants_pending),
                ),
                ..old(self)@
            }),
            retired == (final(self)@.slots[index as int].record is None),
    {
        let ghost v = self@;
        proof {
            assert(v.slots[index as int] == self.slots@[index as int].view());
        }
        let incarnation = self.slots[index].incarnation;
        let mut record = self.slots[index].record.unwrap();
        record.grants_pending = grants_pending;
        if record.native == PrivateLifecycleNative::Pending {
            let removed = native.cleanup_ordered_owner(record.identity.namespace, record.identity.client);
            let slot = &mut self.slots[index];
            slot.cleanup = Some(
                (incarnation, PrivateNativeOwnerCleanup { identity: record.identity, removed }),
            );
            record.native = PrivateLifecycleNative::Complete;
        }
        let retired = record.native == PrivateLifecycleNative::Complete && !grants_pending;
        let slot = &mut self.slots[index];
        slot.record = if retired {
            None
        } else {
            Some(record)
        };
        proof {
            let n_view = settled_slot(v.slots[index as int], grants_pending);
            assert(self@.slots =~= v.slots.update(index as int, n_view)) by {
                assert forall|j: int| 0 <= j < self@.slots.len() implies self@.slots[j] == v.slots.update(index as int, n_view)[j] by {
                    assert(self@.slots[j] == self.slots@[j].view());
                    assert(v.slots[j] == old(self).slots@[j].view());
                }
            }
            if n_view.record is Some {
                assert forall|j: int| 0 <= j < v.slots.len() && j != index implies !holds_client(
                    #[trigger] v.slots[j],
                    n_view.record->0.identity.client,
                ) by {
                    if holds_client(v.slots[j], n_view.record->0.identity.client) {
                        assert(v.slots[index as int].record->0.identity.client != v.slots[j].record->0.identity.client);
                    }
                }
            }
            lemma_slot_replaced_wf(v, index as int, n_view);
        }
        retired
    }
}

} // verus!
