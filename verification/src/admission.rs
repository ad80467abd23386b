// Where admission and revocation cross into the private boundary.
//
// The controller answers who may act on the instance; this answers whether
// the client a request names is still admitted at the moment it would apply.
// A binding keeps the admission identity, not just the generation: a
// replacement admission for the same client under the same generation is a
// different admission, and a grant issued under the old one must not become
// current again because the numbers around it happen to match.
//
// Revocation closes first and retires behind it. A closed binding stays, with
// whatever grants could not yet be retired, until nothing is owed against it.
use vstd::prelude::*;
use crate::keyed::{
    keyed, keys_ascending, lemma_keyed, lemma_keyed_finite, lemma_keyed_insert, lemma_keyed_remove,
    lemma_keyed_update, lemma_weigh_remove, lemma_weigh_update, weigh,
};
use vstd::set_lib::lemma_len_subset;
use crate::lifecycle::{
    after_close, fresh_record, gate_open, holds_client, lease_refusal, leased, lemma_after_close_kept,
    lemma_registered_leasable, lemma_settle_kept, lemma_slots_kept_refl, lemma_slots_kept_trans, registered, registration_refusal,
    retired_slots, settled_slot, slot_open, slots_kept, PrivateLifecycleGate, PrivateLifecycleIdentity,
    PrivateLifecycleRecords, PrivateLifecycleRefusal, PrivateLifecycleView, PrivateNativeOwnerAuthority,
};
use vstd::set_lib::{lemma_int_range, set_int_range};

verus! {

/// The authority's refusal of a grant operation.
#[derive(Debug, Clone, Copy, PartialEq, Eq, Structural)]
pub enum PrivateRegistrationError {
    /// The grant is no longer one the authority holds.
    StaleGeneration,
    /// Any other refusal, by the authority's own code.
    Refused(u32),
}

/// Why the participant refused.
#[derive(Debug, Clone, Copy, PartialEq, Eq)]
pub enum PrivateAdmissionRefusal {
    /// Nothing is bound for this client here: never admitted, or revoked.
    NotAdmitted,
    /// Bound, but to a different admission than the one named.
    DifferentAdmission,
    /// Already bound. Re-admitting would replace the identity live grants
    /// were issued under.
    AlreadyAdmitted,
    /// This binding already holds as many grant records as it may.
    GrantRecordsExhausted,
    /// The frontend's admission capacity still owns every lifecycle record.
    ClientRecordsExhausted,
    /// The authority refused, with its own reason kept.
    Authority(PrivateRegistrationError),
    /// The boundary could not be reached.
    Unreachable,
}

/// Why a connection could not be attached to the private boundary.
#[derive(Debug, Clone, Copy, PartialEq, Eq)]
pub enum PrivateAttachRefusal {
    /// The participant refused to admit it.
    Admission(PrivateAdmissionRefusal),
    /// Its cleanup custody could not be taken.
    Lifecycle(PrivateLifecycleRefusal),
}

/// What a revocation closed and retired.
///
/// Closing a binding denies further work; retiring a grant is cleanup behind
/// it. A zero `retired` is not evidence that nothing was closed.
#[derive(Debug, Clone, Copy, PartialEq, Eq)]
pub struct PrivateRevocation {
    pub closed: usize,
    pub retired: usize,
}

impl Default for PrivateRevocation {
    fn default() -> (r: Self)
        ensures
            r.closed == 0 && r.retired == 0,
    {
        PrivateRevocation { closed: 0, retired: 0 }
    }
}

/// The admission a client arrives with.
#[derive(Debug, Clone, Copy, PartialEq, Eq)]
pub struct PrivateAdmissionContext {
    pub admission: u64,
    pub namespace: u64,
    pub generation: u64,
}

/// The connection a grant is issued to.
#[derive(Debug, Clone, Copy, PartialEq, Eq)]
pub struct PrivateConnectionIdentity {
    pub recipient: u64,
    pub connection_generation: u64,
}

/// What an issued reservation role carries.
#[derive(Debug, Clone, Copy, PartialEq, Eq)]
pub struct PrivateReservationRole {
    pub capability: u64,
    pub generation: u64,
    pub connection: PrivateConnectionIdentity,
    pub admission: u64,
    pub grant: u64,
}

/// The input authority's grant operations.
///
/// Its answers are its own: nothing here states when it issues, allocates
/// or retires.
pub trait PrivateGrantAuthority {
    /// Issue a grant to a connection: the grant and its generation.
    fn issue_grant(&mut self, connection: PrivateConnectionIdentity) -> Result<(u64, u64), PrivateRegistrationError>;

    /// Allocate a device under a grant: the capability.
    fn allocate_device(&mut self, grant: u64, generation: u64, device: u64) -> Result<u64, PrivateRegistrationError>;

    /// Retire a grant, keeping its debt with the authority.
    fn revoke_grant(&mut self, grant: u64) -> Result<(), PrivateRegistrationError>;
}

/// What the private boundary knows about one admitted client.
struct PrivateAdmissionBinding {
    lifecycle: Option<PrivateLifecycleGate>,
    admission: u64,
    namespace: u64,
    generation: u64,
    /// Grants issued while this binding was current, which revocation
    /// retires.
    grants: Vec<u64>,
    /// Marked before its grants are retired; the entry stays until they are.
    closed: bool,
}

/// One binding as it can be read.
pub ghost struct PrivateBindingView {
    pub lifecycle: Option<PrivateLifecycleGate>,
    pub admission: u64,
    pub namespace: u64,
    pub generation: u64,
    pub grants: Seq<u64>,
    pub closed: bool,
}

/// Admission and revocation for one frontend, with its cleanup custody once
/// that is installed.
pub struct PrivateAdmissionBoundary<R> {
    /// Ascending by client.
    bound: Vec<(u64, PrivateAdmissionBinding)>,
    /// How many grant records one binding may hold.
    grant_records: usize,
    lifecycle: Option<PrivateLifecycleRecords<R>>,
}

/// The boundary as it can be read.
pub ghost struct PrivateBoundaryView {
    pub bindings: Map<u64, PrivateBindingView>,
    pub grant_records: nat,
    pub lifecycle: Option<PrivateLifecycleView>,
}

impl PrivateAdmissionBinding {
    spec fn view(&self) -> PrivateBindingView {
        PrivateBindingView {
            lifecycle: self.lifecycle,
            admission: self.admission,
            namespace: self.namespace,
            generation: self.generation,
            grants: self.grants@,
            closed: self.closed,
        }
    }
}

/// A grant retirement's answer: retired, already gone, or unresolved.
pub type PrivateGrantOutcome = Result<(), PrivateRegistrationError>;

/// Whether a grant stays recorded after this answer.
pub open spec fn unresolved(o: PrivateGrantOutcome) -> bool {
    o is Err && o->Err_0 != PrivateRegistrationError::StaleGeneration
}

/// The grants that stay recorded, in order, when each is answered in turn.
pub open spec fn survivors(g: Seq<u64>, o: Seq<PrivateGrantOutcome>) -> Seq<u64>
    decreases g.len(),
{
    if g.len() == 0 || o.len() == 0 {
        Seq::empty()
    } else {
        (if unresolved(o[0]) {
            seq![g[0]]
        } else {
            Seq::empty()
        }) + survivors(g.drop_first(), o.drop_first())
    }
}

/// How many answers retired their grant.
pub open spec fn retired_count(o: Seq<PrivateGrantOutcome>) -> nat
    decreases o.len(),
{
    if o.len() == 0 {
        0
    } else {
        (if o[0] is Ok {
            1nat
        } else {
            0nat
        }) + retired_count(o.drop_first())
    }
}

/// A grant is retired or survives, never both.
proof fn lemma_retired_and_survivors(g: Seq<u64>, o: Seq<PrivateGrantOutcome>)
    requires
        o.len() == g.len(),
    ensures
        retired_count(o) + survivors(g, o).len() <= g.len(),
    decreases g.len(),
{
    if g.len() > 0 {
        lemma_retired_and_survivors(g.drop_first(), o.drop_first());
    }
}

proof fn lemma_survivors_len(g: Seq<u64>, o: Seq<PrivateGrantOutcome>)
    ensures
        survivors(g, o).len() <= g.len(),
        forall|k: int| 0 <= k < survivors(g, o).len() ==> g.contains(#[trigger] survivors(g, o)[k]),
    decreases g.len(),
{
    if g.len() > 0 && o.len() > 0 {
        lemma_survivors_len(g.drop_first(), o.drop_first());
        let head: Seq<u64> = if unresolved(o[0]) {
            seq![g[0]]
        } else {
            Seq::empty()
        };
        let tail = survivors(g.drop_first(), o.drop_first());
        assert forall|k: int| 0 <= k < survivors(g, o).len() implies g.contains(#[trigger] survivors(g, o)[k]) by {
            if k < head.len() {
                assert(survivors(g, o)[k] == g[0]);
            } else {
                assert(survivors(g, o)[k] == tail[k - head.len()]);
                let j = choose|j: int| 0 <= j < g.drop_first().len() && g.drop_first()[j] == tail[k - head.len()];
                assert(g[j + 1] == tail[k - head.len()]);
            }
        }
    }
}

proof fn lemma_retired_count_bound(o: Seq<PrivateGrantOutcome>)
    ensures
        retired_count(o) <= o.len(),
    decreases o.len(),
{
    if o.len() > 0 {
        lemma_retired_count_bound(o.drop_first());
    }
}

/// The binding a fresh admission makes.
pub open spec fn fresh_binding(context: PrivateAdmissionContext, lifecycle: Option<PrivateLifecycleGate>) -> PrivateBindingView {
    PrivateBindingView {
        lifecycle,
        admission: context.admission,
        namespace: context.namespace,
        generation: context.generation,
        grants: Seq::empty(),
        closed: false,
    }
}

/// The identity a lifecycle record is made for.
pub open spec fn lifecycle_identity(client: u64, context: PrivateAdmissionContext) -> PrivateLifecycleIdentity {
    PrivateLifecycleIdentity {
        client,
        admission: context.admission,
        generation: context.generation,
        namespace: context.namespace,
    }
}

/// What a lifecycle refusal of a registration is answered with.
pub open spec fn admission_refusal_of(refusal: PrivateLifecycleRefusal) -> PrivateAdmissionRefusal {
    match refusal {
        PrivateLifecycleRefusal::Capacity => PrivateAdmissionRefusal::ClientRecordsExhausted,
        PrivateLifecycleRefusal::AlreadyOwned => PrivateAdmissionRefusal::AlreadyAdmitted,
        PrivateLifecycleRefusal::NotAdmitted => PrivateAdmissionRefusal::NotAdmitted,
        _ => PrivateAdmissionRefusal::Unreachable,
    }
}

/// The custody after a binding's gate, if it has one, is closed.
pub open spec fn closed_for(l: Option<PrivateLifecycleView>, b: PrivateBindingView) -> Option<PrivateLifecycleView> {
    match (l, b.lifecycle) {
        (Some(v), Some(g)) => Some(after_close(v, g)),
        _ => l,
    }
}

/// `new` is `old` after closing the client's binding and asking the
/// authority to retire each of its grants, last first: `r` counts the
/// binding if it was open, and the grants the authority retired. A grant
/// the authority no longer holds goes from the record; one whose answer is
/// anything else stays. The binding goes once nothing is left owed.
pub open spec fn retired_binding(
    old: PrivateBoundaryView,
    new: PrivateBoundaryView,
    client: u64,
    r: PrivateRevocation,
) -> bool {
    if !old.bindings.contains_key(client) {
        new == old && r.closed == 0 && r.retired == 0
    } else {
        let b = old.bindings[client];
        &&& r.closed == (if b.closed {
            0int
        } else {
            1int
        })
        &&& new.grant_records == old.grant_records
        &&& new.lifecycle == closed_for(old.lifecycle, b)
        &&& exists|o: Seq<PrivateGrantOutcome>|
            #![trigger survivors(b.grants, o)]
            o.len() == b.grants.len() && r.retired == retired_count(o) && {
                let rest = survivors(b.grants, o);
                new.bindings == if rest.len() == 0 {
                    old.bindings.remove(client)
                } else {
                    old.bindings.insert(client, PrivateBindingView { closed: true, grants: rest, ..b })
                }
            }
    }
}

/// Whether a binding is an open admission in this namespace.
pub open spec fn open_in_namespace(b: PrivateBindingView, namespace: u64) -> bool {
    b.namespace == namespace && !b.closed
}

/// The clients whose bindings are open admissions in this namespace.
pub open spec fn open_clients(m: Map<u64, PrivateBindingView>, namespace: u64) -> Set<u64> {
    Set::new(|c: u64| m.contains_key(c) && open_in_namespace(m[c], namespace))
}

/// `after` is `before` closed, with some of its grants retired and the rest
/// still recorded.
pub open spec fn retired_from(before: PrivateBindingView, after: PrivateBindingView) -> bool {
    &&& after.closed
    &&& after.lifecycle == before.lifecycle
    &&& after.admission == before.admission
    &&& after.namespace == before.namespace
    &&& after.generation == before.generation
    &&& forall|k: int| 0 <= k < after.grants.len() ==> before.grants.contains(#[trigger] after.grants[k])
}

/// A list with every copy of one grant taken out, the rest in order.
pub open spec fn without(s: Seq<u64>, x: u64) -> Seq<u64>
    decreases s.len(),
{
    if s.len() == 0 {
        Seq::empty()
    } else if s.last() == x {
        without(s.drop_last(), x)
    } else {
        without(s.drop_last(), x).push(s.last())
    }
}

/// A binding's weight in the work still owed by closed bindings.
pub open spec fn closed_grants() -> spec_fn(PrivateBindingView) -> nat {
    |b: PrivateBindingView| if b.closed {
        b.grants.len()
    } else {
        0nat
    }
}

/// Whether a binding may act now: bound, open, and its lifecycle gate, if
/// it has one, still open.
pub open spec fn admitted_now(v: PrivateBoundaryView, client: u64) -> bool {
    &&& v.bindings.contains_key(client)
    &&& !v.bindings[client].closed
    &&& (v.bindings[client].lifecycle matches Some(g) ==> opens(v.lifecycle, g))
}

/// The boundary with one more grant recorded on a client's binding.
pub open spec fn with_grant(v: PrivateBoundaryView, client: u64, grant: u64) -> PrivateBoundaryView {
    let b = v.bindings[client];
    PrivateBoundaryView {
        bindings: v.bindings.insert(client, PrivateBindingView { grants: b.grants.push(grant), ..b }),
        ..v
    }
}

/// The boundary after a grant was recorded and retired again: every record
/// of it gone from the client's binding.
pub open spec fn with_grant_retired(v: PrivateBoundaryView, client: u64, grant: u64) -> PrivateBoundaryView {
    let b = v.bindings[client];
    PrivateBoundaryView {
        bindings: v.bindings.insert(
            client,
            PrivateBindingView { grants: without(b.grants.push(grant), grant), ..b },
        ),
        ..v
    }
}

/// Whether a binding's admission is the one a lifecycle record was made for.
pub open spec fn same_admission(b: PrivateBindingView, id: PrivateLifecycleIdentity) -> bool {
    b.admission == id.admission && b.generation == id.generation && b.namespace == id.namespace
}

/// Every lifecycle record agrees with its client's binding, where it has
/// one.
pub open spec fn records_agree(v: PrivateBoundaryView) -> bool {
    v.lifecycle matches Some(l) ==> forall|i: int|
        0 <= i < l.slots.len() && (#[trigger] l.slots[i]).record is Some && v.bindings.contains_key(
            l.slots[i].record->0.identity.client,
        ) ==> same_admission(v.bindings[l.slots[i].record->0.identity.client], l.slots[i].record->0.identity)
}

/// `new` holds no binding `old` did not, and each it keeps is unchanged or
/// closed with part of its grants retired.
pub open spec fn bindings_retired(old: Map<u64, PrivateBindingView>, new: Map<u64, PrivateBindingView>) -> bool {
    forall|c: u64| #[trigger]
        new.contains_key(c) ==> old.contains_key(c) && (new[c] == old[c] || retired_from(old[c], new[c]))
}

/// Whether a gate reads open in a custody that may not be installed.
pub open spec fn opens(l: Option<PrivateLifecycleView>, g: PrivateLifecycleGate) -> bool {
    l matches Some(v) && gate_open(v, g)
}

proof fn lemma_bindings_retired_refl(m: Map<u64, PrivateBindingView>)
    ensures
        bindings_retired(m, m),
{
}

proof fn lemma_bindings_retired_trans(
    a: Map<u64, PrivateBindingView>,
    b: Map<u64, PrivateBindingView>,
    c: Map<u64, PrivateBindingView>,
)
    requires
        bindings_retired(a, b),
        bindings_retired(b, c),
    ensures
        bindings_retired(a, c),
{
    assert forall|k: u64| #[trigger] c.contains_key(k) implies a.contains_key(k) && (c[k] == a[k] || retired_from(
        a[k],
        c[k],
    )) by {
        assert(b.contains_key(k));
        if c[k] != b[k] && b[k] != a[k] {
            assert forall|j: int| 0 <= j < c[k].grants.len() implies a[k].grants.contains(#[trigger] c[k].grants[j]) by {
                let x = c[k].grants[j];
                assert(b[k].grants.contains(x));
                let m = choose|m: int| 0 <= m < b[k].grants.len() && b[k].grants[m] == x;
                assert(a[k].grants.contains(b[k].grants[m]));
            }
        }
    }
}

/// What one close-and-retire leaves true of the whole boundary.
proof fn lemma_retired_binding_facts(v: PrivateBoundaryView, w: PrivateBoundaryView, client: u64, r: PrivateRevocation)
    requires
        retired_binding(v, w, client, r),
    ensures
        bindings_retired(v.bindings, w.bindings),
        w.grant_records == v.grant_records,
        v.bindings.contains_key(client) ==> w.lifecycle == closed_for(v.lifecycle, v.bindings[client]),
        !v.bindings.contains_key(client) ==> w == v,
        w.bindings.contains_key(client) ==> w.bindings[client].closed,
{
    if v.bindings.contains_key(client) {
        let b = v.bindings[client];
        let o = choose|o: Seq<PrivateGrantOutcome>|
            #![trigger survivors(b.grants, o)]
            o.len() == b.grants.len() && r.retired == retired_count(o) && {
                let rest = survivors(b.grants, o);
                w.bindings == if rest.len() == 0 {
                    v.bindings.remove(client)
                } else {
                    v.bindings.insert(client, PrivateBindingView { closed: true, grants: rest, ..b })
                }
            };
        lemma_survivors_len(b.grants, o);
    } else {
        lemma_bindings_retired_refl(v.bindings);
    }
}

/// Records that agreed with their bindings still agree once bindings have
/// only been closed or removed and records only settled.
proof fn lemma_records_agree_step(v: PrivateBoundaryView, w: PrivateBoundaryView)
    requires
        records_agree(v),
        v.lifecycle is Some,
        w.lifecycle is Some,
        slots_kept(v.lifecycle->0, w.lifecycle->0),
        bindings_retired(v.bindings, w.bindings),
    ensures
        records_agree(w),
{
    let l = v.lifecycle->0;
    let m = w.lifecycle->0;
    assert forall|i: int|
        0 <= i < m.slots.len() && (#[trigger] m.slots[i]).record is Some && w.bindings.contains_key(
            m.slots[i].record->0.identity.client,
        ) implies same_admission(w.bindings[m.slots[i].record->0.identity.client], m.slots[i].record->0.identity) by {
        assert(l.slots[i] == l.slots[i]);
        let c = m.slots[i].record->0.identity.client;
        assert(l.slots[i].record is Some);
        assert(l.slots[i].record->0.identity == m.slots[i].record->0.identity);
        assert(v.bindings.contains_key(c));
        assert(same_admission(v.bindings[c], l.slots[i].record->0.identity));
        if w.bindings[c] != v.bindings[c] {
            assert(retired_from(v.bindings[c], w.bindings[c]));
        }
    }
}

/// Records retired over two steps are those of the first step and those of
/// the second, and no slot is counted twice.
proof fn lemma_retired_slots_join(a: PrivateLifecycleView, b: PrivateLifecycleView, c: PrivateLifecycleView)
    requires
        slots_kept(a, b),
        slots_kept(b, c),
    ensures
        retired_slots(a, c) == retired_slots(a, b).union(retired_slots(b, c)),
        retired_slots(a, b).disjoint(retired_slots(b, c)),
{
    assert forall|i: int| #[trigger] retired_slots(a, c).contains(i) == retired_slots(a, b).union(retired_slots(b, c)).contains(i) by {
        if 0 <= i < a.slots.len() {
            assert(a.slots[i] == a.slots[i]);
            assert(b.slots[i] == b.slots[i]);
        }
    }
    assert(retired_slots(a, c) =~= retired_slots(a, b).union(retired_slots(b, c)));
}

/// Revocation closes a binding once: revoking the same client again closes
/// nothing more.
pub proof fn law_revocation_closes_once(
    v: PrivateBoundaryView,
    w: PrivateBoundaryView,
    x: PrivateBoundaryView,
    client: u64,
    first: PrivateRevocation,
    second: PrivateRevocation,
)
    requires
        retired_binding(v, w, client, first),
        retired_binding(w, x, client, second),
    ensures
        second.closed == 0,
{
    lemma_retired_binding_facts(v, w, client, first);
}

/// A fresh admission, revoked before any grant was issued under it, closes
/// once, retires nothing, and leaves no binding behind; every other binding
/// stays as it was.
pub proof fn law_fresh_admission_revokes_cleanly(
    v: PrivateBoundaryView,
    x: PrivateBoundaryView,
    client: u64,
    context: PrivateAdmissionContext,
    gate: Option<PrivateLifecycleGate>,
    r: PrivateRevocation,
)
    requires
        v.bindings.contains_key(client),
        v.bindings[client] == fresh_binding(context, gate),
        retired_binding(v, x, client, r),
    ensures
        r.closed == 1,
        r.retired == 0,
        x.bindings == v.bindings.remove(client),
{
    let b = v.bindings[client];
    let o = choose|o: Seq<PrivateGrantOutcome>|
        #![trigger survivors(b.grants, o)]
        o.len() == b.grants.len() && r.retired == retired_count(o) && {
            let rest = survivors(b.grants, o);
            x.bindings == if rest.len() == 0 {
                v.bindings.remove(client)
            } else {
                v.bindings.insert(client, PrivateBindingView { closed: true, grants: rest, ..b })
            }
        };
    assert(o.len() == 0);
    assert(survivors(b.grants, o).len() == 0);
}

impl<R> PrivateAdmissionBoundary<R> {
    spec fn entries(&self) -> Seq<(u64, PrivateBindingView)> {
        self.bound@.map_values(|e: (u64, PrivateAdmissionBinding)| (e.0, e.1.view()))
    }

    /// How many grants closed bindings still hold.
    pub closed spec fn closed_grants_owed(&self) -> nat {
        weigh(self.entries(), closed_grants())
    }

    /// The bindings are kept in client order, and any binding with a gate
    /// has the custody that minted it.
    pub closed spec fn wf(&self) -> bool {
        &&& keys_ascending(self.entries())
        &&& (self.lifecycle matches Some(l) ==> l.wf())
        &&& forall|j: int|
            0 <= j < self.bound@.len() && (#[trigger] self.bound@[j]).1.lifecycle is Some
                ==> self.lifecycle is Some && self.bound@[j].1.lifecycle->0.open_mark() % 2 == 0
    }

    pub closed spec fn view(&self) -> PrivateBoundaryView {
        PrivateBoundaryView {
            bindings: keyed(self.entries()),
            grant_records: self.grant_records as nat,
            lifecycle: match self.lifecycle {
                Some(l) => Some(l@),
                None => None,
            },
        }
    }

    /// A boundary with nothing admitted and no cleanup custody, whose
    /// bindings hold at most `grant_records` grant records each.
    pub fn new(grant_records: usize) -> (r: Self)
        ensures
            r.wf(),
            r.view().bindings == Map::<u64, PrivateBindingView>::empty(),
            r.view().grant_records == grant_records,
            r.view().lifecycle is None,
    {
        let r = PrivateAdmissionBoundary { bound: Vec::new(), grant_records, lifecycle: None };
        proof {
            assert(r.entries() =~= Seq::<(u64, PrivateBindingView)>::empty());
            assert(keyed(r.entries()) =~= Map::<u64, PrivateBindingView>::empty());
        }
        r
    }

    /// Install the cleanup custody. There is one: a second is refused.
    pub fn install_lifecycle(&mut self, records: PrivateLifecycleRecords<R>) -> (r: Result<
        (),
        PrivateLifecycleRefusal,
    >)
        requires
            old(self).wf(),
            records.wf(),
        ensures
            final(self).wf(),
            old(self).view().lifecycle is Some ==> r == Err::<(), PrivateLifecycleRefusal>(
                PrivateLifecycleRefusal::AlreadyOwned,
            ) && final(self).view() == old(self).view(),
            old(self).view().lifecycle is None ==> r is Ok && final(self).view() == (PrivateBoundaryView {
                lifecycle: Some(records@),
                ..old(self).view()
            }),
    {
        if self.lifecycle.is_some() {
            return Err(PrivateLifecycleRefusal::AlreadyOwned);
        }
        self.lifecycle = Some(records);
        Ok(())
    }

    /// The cleanup custody, once installed.
    pub fn lifecycle(&self) -> (r: Option<&PrivateLifecycleRecords<R>>)
        requires
            self.wf(),
        ensures
            match r {
                Some(l) => self.view().lifecycle == Some(l@) && l.wf(),
                None => self.view().lifecycle is None,
            },
    {
        match &self.lifecycle {
            Some(l) => Some(l),
            None => None,
        }
    }

    fn find(&self, client: u64) -> (r: Option<usize>)
        requires
            self.wf(),
        ensures
            match r {
                Some(i) => i < self.bound@.len() && self.bound@[i as int].0 == client
                    && self.view().bindings.contains_key(client)
                    && self.view().bindings[client] == self.bound@[i as int].1.view(),
                None => !self.view().bindings.contains_key(client),
            },
    {
        let mut i: usize = 0;
        while i < self.bound.len()
            invariant
                self.wf(),
                i <= self.bound@.len(),
                forall|j: int| 0 <= j < i ==> self.bound@[j].0 != client,
            decreases self.bound@.len() - i,
        {
            if self.bound[i].0 == client {
                proof {
                    lemma_keyed(self.entries());
                    assert(self.entries()[i as int] == (client, self.bound@[i as int].1.view()));
                }
                return Some(i);
            }
            i = i + 1;
        }
        proof {
            assert forall|j: int| 0 <= j < self.entries().len() implies self.entries()[j].0 != client by {
                assert(self.entries()[j].0 == self.bound@[j].0);
            }
            crate::keyed::lemma_keyed_absent(self.entries(), client);
        }
        None
    }

    /// Close the binding at `i` and retire what its admission authorised,
    /// last grant first.
    ///
    /// Closed first, so nothing can be admitted through it while its grants
    /// are still going. Each grant leaves the record only once its
    /// retirement has returned: retired, or already gone from the
    /// authority. Anything else stays recorded, closed, for a later attempt.
    /// The entry goes when nothing is left owed against it.
    fn retire_at<A: PrivateGrantAuthority>(&mut self, i: usize, authority: &mut A) -> (r: PrivateRevocation)
        requires
            old(self).wf(),
            i < old(self).bound@.len(),
        ensures
            final(self).wf(),
            final(self).grant_records == old(self).grant_records,
            ({
                let b = old(self).entries()[i as int].1;
                let client = old(self).entries()[i as int].0;
                &&& r.closed == (if b.closed {
                    0int
                } else {
                    1int
                })
                &&& final(self).view().lifecycle == closed_for(old(self).view().lifecycle, b)
                &&& exists|o: Seq<PrivateGrantOutcome>|
                    #![trigger survivors(b.grants, o)]
                    o.len() == b.grants.len() && r.retired == retired_count(o) && {
                        let rest = survivors(b.grants, o);
                        final(self).entries() == if rest.len() == 0 {
                            old(self).entries().remove(i as int)
                        } else {
                            old(self).entries().update(
                                i as int,
                                (client, PrivateBindingView { closed: true, grants: rest, ..b }),
                            )
                        }
                    }
            }),
    {
        let ghost e0 = self.entries();
        let ghost b = e0[i as int].1;
        let ghost client = e0[i as int].0;
        let ghost g = b.grants;
        let ghost l0 = self.view().lifecycle;
        proof {
            assert(e0[i as int] == (self.bound@[i as int].0, self.bound@[i as int].1.view()));
        }
        let closed: usize = if self.bound[i].1.closed {
            0
        } else {
            1
        };
        match self.bound[i].1.lifecycle {
            Some(gate) => {
                match &mut self.lifecycle {
                    Some(records) => {
                        records.close(&gate);
                    },
                    None => {},
                }
            },
            None => {},
        }
        let ghost l1 = self.view().lifecycle;
        proof {
            assert(l1 == closed_for(l0, b));
        }
        let entry = &mut self.bound[i];
        entry.1.closed = true;
        let ghost marked = PrivateBindingView { closed: true, ..b };
        proof {
            assert(self.entries() =~= e0.update(i as int, (client, marked))) by {
                assert forall|j: int| 0 <= j < e0.len() implies self.entries()[j] == e0.update(
                    i as int,
                    (client, marked),
                )[j] by {
                    assert(self.entries()[j] == (self.bound@[j].0, self.bound@[j].1.view()));
                    assert(e0[j] == (old(self).bound@[j].0, old(self).bound@[j].1.view()));
                }
            }
        }
        let mut retired: usize = 0;
        let mut index: usize = self.bound[i].1.grants.len();
        let ghost mut outs: Seq<PrivateGrantOutcome> = Seq::empty();
        proof {
            assert(self.entries()[i as int] == (client, marked));
            assert(self.bound@[i as int].1.view() == marked);
            assert(g.subrange(0, g.len() as int) =~= g);
            assert(survivors(g.subrange(g.len() as int, g.len() as int), outs) =~= Seq::<u64>::empty());
        }
        while index > 0
            invariant
                self.bound@.len() == e0.len(),
                i < e0.len(),
                self.grant_records == old(self).grant_records,
                self.view().lifecycle == l1,
                self.lifecycle matches Some(l) ==> l.wf(),
                g == b.grants,
                index <= g.len(),
                g.len() <= usize::MAX,
                outs.len() == g.len() - index,
                retired == retired_count(outs),
                retired <= g.len() - index,
                forall|j: int| 0 <= j < e0.len() && j != i ==> #[trigger] self.bound@[j] == old(self).bound@[j],
                self.bound@[i as int].0 == client,
                self.bound@[i as int].1.view() == (PrivateBindingView {
                    closed: true,
                    grants: g.subrange(0, index as int) + survivors(g.subrange(index as int, g.len() as int), outs),
                    ..b
                }),
            decreases index,
        {
            index = index - 1;
            let grant = self.bound[i].1.grants[index];
            proof {
                assert(grant == g[index as int]);
            }
            let outcome = authority.revoke_grant(grant);
            let ghost before = self.bound@[i as int].1.grants@;
            let ghost tail = survivors(g.subrange(index + 1, g.len() as int), outs);
            match outcome {
                Ok(()) => {
                    proof {
                        lemma_retired_count_bound(outs);
                    }
                    retired = retired + 1;
                    let entry = &mut self.bound[i];
                    entry.1.grants.remove(index);
                },
                Err(PrivateRegistrationError::StaleGeneration) => {
                    let entry = &mut self.bound[i];
                    entry.1.grants.remove(index);
                },
                Err(_) => {},
            }
            proof {
                let next = seq![outcome] + outs;
                let gs = g.subrange(index as int, g.len() as int);
                assert(gs.drop_first() =~= g.subrange(index + 1, g.len() as int));
                assert(next.drop_first() =~= outs);
                assert(next[0] == outcome);
                assert(retired_count(next) == (if outcome is Ok {
                    1nat
                } else {
                    0nat
                }) + retired_count(outs));
                assert(before =~= g.subrange(0, index as int) + seq![g[index as int]] + tail);
                if unresolved(outcome) {
                    assert(survivors(gs, next) =~= seq![g[index as int]] + tail);
                    assert(self.bound@[i as int].1.grants@ =~= g.subrange(0, index as int) + survivors(gs, next));
                } else {
                    assert(survivors(gs, next) =~= tail);
                    assert(self.bound@[i as int].1.grants@ =~= before.remove(index as int));
                    assert(self.bound@[i as int].1.grants@ =~= g.subrange(0, index as int) + survivors(gs, next));
                }
                outs = next;
            }
        }
        let ghost rest = survivors(g, outs);
        proof {
            assert(g.subrange(0, 0) + survivors(g.subrange(0, g.len() as int), outs) =~= rest) by {
                assert(g.subrange(0, g.len() as int) =~= g);
            }
        }
        if self.bound[i].1.grants.len() == 0 {
            self.bound.remove(i);
            proof {
                assert(self.entries() =~= e0.remove(i as int)) by {
                    assert forall|j: int| 0 <= j < self.entries().len() implies self.entries()[j] == e0.remove(i as int)[j] by {
                        if j < i {
                            assert(self.entries()[j] == (old(self).bound@[j].0, old(self).bound@[j].1.view()));
                        } else {
                            assert(self.entries()[j] == (old(self).bound@[j + 1].0, old(self).bound@[j + 1].1.view()));
                        }
                    }
                }
                lemma_keyed_remove(e0, i as int);
            }
        } else {
            proof {
                let nb = PrivateBindingView { closed: true, grants: rest, ..b };
                assert(self.entries() =~= e0.update(i as int, (client, nb))) by {
                    assert forall|j: int| 0 <= j < self.entries().len() implies self.entries()[j] == e0.update(
                        i as int,
                        (client, nb),
                    )[j] by {
                        assert(self.entries()[j] == (self.bound@[j].0, self.bound@[j].1.view()));
                        if j != i {
                            assert(e0[j] == (old(self).bound@[j].0, old(self).bound@[j].1.view()));
                        }
                    }
                }
                lemma_keyed_update(e0, i as int, nb);
            }
        }
        proof {
            assert forall|j: int|
                0 <= j < self.bound@.len() && (#[trigger] self.bound@[j]).1.lifecycle is Some implies self.lifecycle is Some
                    && self.bound@[j].1.lifecycle->0.open_mark() % 2 == 0 by {
                assert(self.entries()[j].1.lifecycle == self.bound@[j].1.lifecycle);
                if self.entries().len() < e0.len() {
                    if j < i {
                        assert(self.bound@[j] == old(self).bound@[j]);
                    } else {
                        assert(self.entries()[j] == e0[j + 1]);
                        assert(old(self).bound@[j + 1].1.lifecycle is Some);
                    }
                } else {
                    if j != i {
                        assert(self.bound@[j] == old(self).bound@[j]);
                    } else {
                        assert(old(self).bound@[j].1.lifecycle is Some);
                    }
                }
            }
        }
        PrivateRevocation { closed, retired }
    }

    /// Close one client's binding and retire what its admission authorised.
    fn close_and_retire<A: PrivateGrantAuthority>(&mut self, client: u64, authority: &mut A) -> (r: PrivateRevocation)
        requires
            old(self).wf(),
        ensures
            final(self).wf(),
            retired_binding(old(self).view(), final(self).view(), client, r),
    {
        match self.find(client) {
            None => PrivateRevocation { closed: 0, retired: 0 },
            Some(i) => {
                let ghost e0 = self.entries();
                proof {
                    assert(e0[i as int] == (self.bound@[i as int].0, self.bound@[i as int].1.view()));
                }
                let r = self.retire_at(i, authority);
                proof {
                    let b = e0[i as int].1;
                    let o = choose|o: Seq<PrivateGrantOutcome>|
                        #![trigger survivors(b.grants, o)]
                        o.len() == b.grants.len() && r.retired == retired_count(o) && {
                            let rest = survivors(b.grants, o);
                            self.entries() == if rest.len() == 0 {
                                e0.remove(i as int)
                            } else {
                                e0.update(i as int, (client, PrivateBindingView { closed: true, grants: rest, ..b }))
                            }
                        };
                    let rest = survivors(b.grants, o);
                    if rest.len() == 0 {
                        lemma_keyed_remove(e0, i as int);
                    } else {
                        lemma_keyed_update(e0, i as int, PrivateBindingView { closed: true, grants: rest, ..b });
                    }
                }
                r
            },
        }
    }

    /// Admit one client to the private boundary, before its ingress is
    /// exposed.
    ///
    /// Refused when the client is already bound: replacing in place would
    /// leave grants issued under the old identity answering to the new one.
    /// With cleanup custody installed, the client's lifecycle record is made
    /// first, and a refusal there publishes no binding.
    pub fn admit_client(&mut self, client: u64, context: PrivateAdmissionContext) -> (r: Result<
        (),
        PrivateAdmissionRefusal,
    >)
        requires
            old(self).wf(),
        ensures
            final(self).wf(),
            final(self).view().grant_records == old(self).view().grant_records,
            old(self).view().bindings.contains_key(client) ==> r == Err::<(), PrivateAdmissionRefusal>(
                PrivateAdmissionRefusal::AlreadyAdmitted,
            ) && final(self).view() == old(self).view(),
            !old(self).view().bindings.contains_key(client) ==> match old(self).view().lifecycle {
                None => r is Ok && final(self).view() == (PrivateBoundaryView {
                    bindings: old(self).view().bindings.insert(client, fresh_binding(context, None)),
                    ..old(self).view()
                }),
                Some(l) => match registration_refusal(l, client) {
                    Some(refusal) => r == Err::<(), PrivateAdmissionRefusal>(admission_refusal_of(refusal))
                        && final(self).view() == old(self).view(),
                    None => {
                        &&& r is Ok
                        &&& final(self).view().lifecycle is Some
                        &&& final(self).view().bindings.contains_key(client)
                        &&& final(self).view().bindings[client].lifecycle matches Some(g) && registered(
                            l,
                            lifecycle_identity(client, context),
                            g,
                            final(self).view().lifecycle->0,
                        ) && final(self).view().bindings == old(self).view().bindings.insert(
                            client,
                            fresh_binding(context, Some(g)),
                        )
                    },
                },
            },
    {
        if self.find(client).is_some() {
            return Err(PrivateAdmissionRefusal::AlreadyAdmitted);
        }
        let ghost e0 = self.entries();
        let identity = PrivateLifecycleIdentity {
            client,
            admission: context.admission,
            generation: context.generation,
            namespace: context.namespace,
        };
        let mut gate: Option<PrivateLifecycleGate> = None;
        match &mut self.lifecycle {
            Some(records) => {
                match records.register_held(identity) {
                    Ok(g) => {
                        gate = Some(g);
                    },
                    Err(refusal) => {
                        return Err(admission_refusal(refusal));
                    },
                }
            },
            None => {},
        }
        let binding = PrivateAdmissionBinding {
            lifecycle: gate,
            admission: context.admission,
            namespace: context.namespace,
            generation: context.generation,
            grants: Vec::with_capacity(self.grant_records),
            closed: false,
        };
        let mut pos: usize = 0;
        while pos < self.bound.len() && self.bound[pos].0 < client
            invariant
                pos <= self.bound@.len(),
                self.entries() == e0,
                forall|j: int| 0 <= j < pos ==> self.bound@[j].0 < client,
            decreases self.bound@.len() - pos,
        {
            pos = pos + 1;
        }
        proof {
            lemma_keyed(e0);
            assert forall|j: int| 0 <= j < pos implies e0[j].0 < client by {
                assert(e0[j].0 == self.bound@[j].0);
            }
            assert forall|j: int| pos <= j < e0.len() implies client < e0[j].0 by {
                assert(e0[j].0 == self.bound@[j].0);
                if e0[j].0 == client {
                    assert(keyed(e0).contains_key(client));
                }
                if j > pos {
                    assert(e0[pos as int].0 < e0[j].0);
                    assert(e0[pos as int].0 == self.bound@[pos as int].0);
                }
            }
        }
        self.bound.insert(pos, (client, binding));
        proof {
            let nb = fresh_binding(context, gate);
            assert(self.entries() =~= e0.insert(pos as int, (client, nb))) by {
                assert forall|j: int| 0 <= j < self.entries().len() implies self.entries()[j] == e0.insert(
                    pos as int,
                    (client, nb),
                )[j] by {
                    if j < pos {
                        assert(self.bound@[j] == old(self).bound@[j]);
                    } else if j > pos {
                        assert(self.bound@[j] == old(self).bound@[j - 1]);
                    }
                }
            }
            lemma_keyed_insert(e0, pos as int, client, nb);
            assert forall|j: int|
                0 <= j < self.bound@.len() && (#[trigger] self.bound@[j]).1.lifecycle is Some implies self.lifecycle is Some
                    && self.bound@[j].1.lifecycle->0.open_mark() % 2 == 0 by {
                if j < pos {
                    assert(self.bound@[j] == old(self).bound@[j]);
                } else if j > pos {
                    assert(self.bound@[j] == old(self).bound@[j - 1]);
                }
            }
        }
        Ok(())
    }

    /// Revoke one exact admission.
    ///
    /// A delayed revoke naming an admission that has been replaced does not
    /// close the replacement.
    pub fn revoke_admission<A: PrivateGrantAuthority>(
        &mut self,
        client: u64,
        admission: u64,
        authority: &mut A,
    ) -> (r: Result<PrivateRevocation, PrivateAdmissionRefusal>)
        requires
            old(self).wf(),
        ensures
            final(self).wf(),
            !old(self).view().bindings.contains_key(client) ==> r == Err::<
                PrivateRevocation,
                PrivateAdmissionRefusal,
            >(PrivateAdmissionRefusal::NotAdmitted) && final(self).view() == old(self).view(),
            old(self).view().bindings.contains_key(client) && old(self).view().bindings[client].admission
                != admission ==> r == Err::<PrivateRevocation, PrivateAdmissionRefusal>(
                PrivateAdmissionRefusal::DifferentAdmission,
            ) && final(self).view() == old(self).view(),
            old(self).view().bindings.contains_key(client) && old(self).view().bindings[client].admission
                == admission ==> r is Ok && retired_binding(old(self).view(), final(self).view(), client, r->Ok_0),
    {
        match self.find(client) {
            None => Err(PrivateAdmissionRefusal::NotAdmitted),
            Some(i) => {
                if self.bound[i].1.admission != admission {
                    return Err(PrivateAdmissionRefusal::DifferentAdmission);
                }
                Ok(self.close_and_retire(client, authority))
            },
        }
    }

    /// Revoke every admission in one namespace, in client order.
    ///
    /// Every open binding in the namespace closes, whatever it holds: one
    /// that issued nothing closes like any other. Bindings already closed,
    /// and bindings of other namespaces, are left as they are.
    pub fn revoke_namespace<A: PrivateGrantAuthority>(&mut self, namespace: u64, authority: &mut A) -> (r: PrivateRevocation)
        requires
            old(self).wf(),
        ensures
            final(self).wf(),
            final(self).view().grant_records == old(self).view().grant_records,
            r.closed == open_clients(old(self).view().bindings, namespace).len(),
            open_clients(final(self).view().bindings, namespace) == Set::<u64>::empty(),
            forall|c: u64| #[trigger]
                final(self).view().bindings.contains_key(c) ==> old(self).view().bindings.contains_key(c),
            forall|c: u64|
                old(self).view().bindings.contains_key(c) && !open_in_namespace(
                    #[trigger] old(self).view().bindings[c],
                    namespace,
                ) ==> final(self).view().bindings.contains_key(c) && final(self).view().bindings[c]
                    == old(self).view().bindings[c],
            forall|c: u64|
                #[trigger] open_clients(old(self).view().bindings, namespace).contains(c)
                    && final(self).view().bindings.contains_key(c) ==> retired_from(
                    old(self).view().bindings[c],
                    final(self).view().bindings[c],
                ),
            forall|c: u64|
                #[trigger] open_clients(old(self).view().bindings, namespace).contains(c)
                    && old(self).view().bindings[c].lifecycle is Some ==> !opens(
                    final(self).view().lifecycle,
                    old(self).view().bindings[c].lifecycle->0,
                ),
            forall|g: PrivateLifecycleGate| #[trigger]
                opens(final(self).view().lifecycle, g) ==> opens(old(self).view().lifecycle, g),
    {
        let ghost v0 = self.view();
        let mut total = PrivateRevocation { closed: 0, retired: 0 };
        let n = self.bound.len();
        proof {
            assert(self.entries().len() == n);
            lemma_keyed_finite(self.entries());
            lemma_len_subset(open_clients(v0.bindings, namespace), v0.bindings.dom());
        }
        loop
            invariant
                self.wf(),
                v0 == old(self).view(),
                self.view().grant_records == v0.grant_records,
                open_clients(v0.bindings, namespace).finite(),
                open_clients(v0.bindings, namespace).len() <= usize::MAX,
                open_clients(self.view().bindings, namespace).subset_of(open_clients(v0.bindings, namespace)),
                total.closed + open_clients(self.view().bindings, namespace).len() == open_clients(
                    v0.bindings,
                    namespace,
                ).len(),
                forall|c: u64| #[trigger]
                    self.view().bindings.contains_key(c) ==> v0.bindings.contains_key(c),
                forall|c: u64|
                    v0.bindings.contains_key(c) && !open_in_namespace(#[trigger] v0.bindings[c], namespace)
                        ==> self.view().bindings.contains_key(c) && self.view().bindings[c] == v0.bindings[c],
                forall|c: u64|
                    #[trigger] open_clients(v0.bindings, namespace).contains(c)
                        && self.view().bindings.contains_key(c) && !open_clients(self.view().bindings, namespace).contains(c)
                        ==> retired_from(v0.bindings[c], self.view().bindings[c]),
                forall|c: u64|
                    #[trigger] open_clients(self.view().bindings, namespace).contains(c) ==> self.view().bindings[c]
                        == v0.bindings[c],
                forall|c: u64|
                    #[trigger] open_clients(v0.bindings, namespace).contains(c) && !open_clients(
                        self.view().bindings,
                        namespace,
                    ).contains(c) && v0.bindings[c].lifecycle is Some ==> !opens(
                        self.view().lifecycle,
                        v0.bindings[c].lifecycle->0,
                    ),
                forall|g: PrivateLifecycleGate| #[trigger]
                    opens(self.view().lifecycle, g) ==> opens(v0.lifecycle, g),
            ensures
                open_clients(self.view().bindings, namespace) == Set::<u64>::empty(),
                total.closed == open_clients(v0.bindings, namespace).len(),
            decreases open_clients(self.view().bindings, namespace).len(),
        {
            let ghost cur = self.view();
            let mut i: usize = 0;
            while i < self.bound.len() && !(self.bound[i].1.namespace == namespace && !self.bound[i].1.closed)
                invariant
                    self.view() == cur,
                    self.wf(),
                    i <= self.bound@.len(),
                    forall|j: int| 0 <= j < i ==> !open_in_namespace(#[trigger] self.bound@[j].1.view(), namespace),
                decreases self.bound@.len() - i,
            {
                i = i + 1;
            }
            proof {
                lemma_keyed(self.entries());
                lemma_keyed_finite(self.entries());
                lemma_len_subset(open_clients(cur.bindings, namespace), cur.bindings.dom());
            }
            if i == self.bound.len() {
                proof {
                    assert(open_clients(cur.bindings, namespace) =~= Set::<u64>::empty()) by {
                        assert forall|c: u64| !open_clients(cur.bindings, namespace).contains(c) by {
                            if cur.bindings.contains_key(c) {
                                let j = choose|j: int| 0 <= j < self.entries().len() && self.entries()[j].0 == c;
                                assert(self.entries()[j] == (self.bound@[j].0, self.bound@[j].1.view()));
                                assert(!open_in_namespace(self.bound@[j].1.view(), namespace));
                            }
                        }
                    }
                }
                break;
            }
            let client = self.bound[i].0;
            proof {
                assert(self.entries()[i as int] == (self.bound@[i as int].0, self.bound@[i as int].1.view()));
                assert(open_clients(cur.bindings, namespace).contains(client));
            }
            let one = self.close_and_retire(client, authority);
            proof {
                let b = cur.bindings[client];
                let now = self.view();
                assert(open_clients(now.bindings, namespace) =~= open_clients(cur.bindings, namespace).remove(client)) by {
                    assert forall|c: u64| open_clients(now.bindings, namespace).contains(c)
                        == open_clients(cur.bindings, namespace).remove(client).contains(c) by {
                        if c == client {
                            if now.bindings.contains_key(c) {
                                assert(now.bindings[c].closed);
                            }
                        }
                    }
                }
                assert(one.closed == 1);
                assert(now.lifecycle == closed_for(cur.lifecycle, b));
                if b.lifecycle is Some && cur.lifecycle is Some {
                    let g = b.lifecycle->0;
                    let l = cur.lifecycle->0;
                    assert forall|h: PrivateLifecycleGate| #[trigger] opens(now.lifecycle, h) implies opens(cur.lifecycle, h) by {
                        if gate_open(l, g) && h.index() == g.index() {
                            assert(after_close(l, g).slots[g.index()].mark % 2 == 1);
                        }
                    }
                    assert(!opens(now.lifecycle, g)) by {
                        if gate_open(l, g) {
                            assert(after_close(l, g).slots[g.index()].mark % 2 == 1);
                        }
                    }
                }
                if now.bindings.contains_key(client) {
                    let o = choose|o: Seq<PrivateGrantOutcome>|
                        #![trigger survivors(b.grants, o)]
                        o.len() == b.grants.len() && one.retired == retired_count(o) && {
                            let rest = survivors(b.grants, o);
                            now.bindings == if rest.len() == 0 {
                                cur.bindings.remove(client)
                            } else {
                                cur.bindings.insert(client, PrivateBindingView { closed: true, grants: rest, ..b })
                            }
                        };
                    lemma_survivors_len(b.grants, o);
                }
                assert forall|c: u64|
                    #[trigger] open_clients(v0.bindings, namespace).contains(c) && !open_clients(
                        now.bindings,
                        namespace,
                    ).contains(c) && v0.bindings[c].lifecycle is Some implies !opens(
                        now.lifecycle,
                        v0.bindings[c].lifecycle->0,
                    ) by {
                    if c != client {
                        assert(!open_clients(cur.bindings, namespace).contains(c));
                    }
                }
            }
            total.closed = total.closed + one.closed;
            total.retired = total.retired.saturating_add(one.retired);
        }
        total
    }

    /// Resume retirement for bindings closed with grants still recorded, in
    /// client order.
    ///
    /// Each retires what it can and keeps what is still unresolved. The walk
    /// stops at the first binding where nothing moved, leaving it for a
    /// later attempt rather than spinning on it.
    pub fn resume_unresolved<A: PrivateGrantAuthority>(&mut self, authority: &mut A) -> (r: PrivateRevocation)
        requires
            old(self).wf(),
        ensures
            final(self).wf(),
            final(self).view().grant_records == old(self).view().grant_records,
            r.closed == 0,
            final(self).closed_grants_owed() <= old(self).closed_grants_owed(),
            r.retired <= old(self).closed_grants_owed() - final(self).closed_grants_owed(),
            forall|c: u64| #[trigger]
                final(self).view().bindings.contains_key(c) ==> old(self).view().bindings.contains_key(c),
            forall|c: u64|
                old(self).view().bindings.contains_key(c) && !(#[trigger] old(self).view().bindings[c]).closed
                    ==> final(self).view().bindings.contains_key(c) && final(self).view().bindings[c]
                    == old(self).view().bindings[c],
            forall|c: u64|
                old(self).view().bindings.contains_key(c) && (#[trigger] old(self).view().bindings[c]).closed
                    && final(self).view().bindings.contains_key(c) ==> retired_from(
                    old(self).view().bindings[c],
                    final(self).view().bindings[c],
                ),
            forall|g: PrivateLifecycleGate| #[trigger]
                opens(final(self).view().lifecycle, g) ==> opens(old(self).view().lifecycle, g),
    {
        let ghost v0 = self.view();
        let mut total = PrivateRevocation { closed: 0, retired: 0 };
        loop
            invariant
                self.wf(),
                v0 == old(self).view(),
                self.view().grant_records == v0.grant_records,
                total.closed == 0,
                self.closed_grants_owed() <= old(self).closed_grants_owed(),
                total.retired <= old(self).closed_grants_owed() - self.closed_grants_owed(),
                forall|c: u64| #[trigger]
                    self.view().bindings.contains_key(c) ==> v0.bindings.contains_key(c),
                forall|c: u64|
                    v0.bindings.contains_key(c) && !(#[trigger] v0.bindings[c]).closed
                        ==> self.view().bindings.contains_key(c) && self.view().bindings[c] == v0.bindings[c],
                forall|c: u64|
                    v0.bindings.contains_key(c) && (#[trigger] v0.bindings[c]).closed
                        && self.view().bindings.contains_key(c) ==> retired_from(v0.bindings[c], self.view().bindings[c]),
                forall|g: PrivateLifecycleGate| #[trigger]
                    opens(self.view().lifecycle, g) ==> opens(v0.lifecycle, g),
            decreases weigh(self.entries(), closed_grants()),
        {
            let ghost cur = self.view();
            let ghost e0 = self.entries();
            let mut i: usize = 0;
            while i < self.bound.len() && !(self.bound[i].1.closed && self.bound[i].1.grants.len() > 0)
                invariant
                    self.view() == cur,
                    self.entries() == e0,
                    self.wf(),
                    i <= self.bound@.len(),
                decreases self.bound@.len() - i,
            {
                i = i + 1;
            }
            if i == self.bound.len() {
                break;
            }
            let client = self.bound[i].0;
            let before = self.bound[i].1.grants.len();
            proof {
                assert(e0[i as int] == (self.bound@[i as int].0, self.bound@[i as int].1.view()));
                lemma_keyed(e0);
            }
            let one = self.retire_at(i, authority);
            total.retired = total.retired.saturating_add(one.retired);
            let ghost b = e0[i as int].1;
            proof {
                let o = choose|o: Seq<PrivateGrantOutcome>|
                    #![trigger survivors(b.grants, o)]
                    o.len() == b.grants.len() && one.retired == retired_count(o) && {
                        let rest = survivors(b.grants, o);
                        self.entries() == if rest.len() == 0 {
                            e0.remove(i as int)
                        } else {
                            e0.update(i as int, (client, PrivateBindingView { closed: true, grants: rest, ..b }))
                        }
                    };
                let rest = survivors(b.grants, o);
                lemma_survivors_len(b.grants, o);
                lemma_retired_and_survivors(b.grants, o);
                let nb = PrivateBindingView { closed: true, grants: rest, ..b };
                if rest.len() == 0 {
                    lemma_keyed_remove(e0, i as int);
                    lemma_weigh_remove(e0, i as int, closed_grants());
                } else {
                    lemma_keyed_update(e0, i as int, nb);
                    lemma_weigh_update(e0, i as int, (client, nb), closed_grants());
                }
                let now = self.view();
                assert(cur.bindings.contains_key(client));
                assert forall|c: u64| #[trigger] now.bindings.contains_key(c) implies cur.bindings.contains_key(c) by {}
                assert(now.lifecycle == closed_for(cur.lifecycle, b));
                if b.lifecycle is Some && cur.lifecycle is Some {
                    let g = b.lifecycle->0;
                    let l = cur.lifecycle->0;
                    assert forall|h: PrivateLifecycleGate| #[trigger] opens(now.lifecycle, h) implies opens(cur.lifecycle, h) by {
                        if gate_open(l, g) && h.index() == g.index() {
                            assert(after_close(l, g).slots[g.index()].mark % 2 == 1);
                        }
                    }
                }
            }
            let after = match self.find(client) {
                Some(j) => self.bound[j].1.grants.len(),
                None => 0,
            };
            if after >= before {
                break;
            }
        }
        total
    }

    /// Issue a reservation role for an admitted client.
    ///
    /// Refused before any grant exists when the client is not admitted now,
    /// or when its binding already holds as many grant records as it may:
    /// a grant the binding could not record is one nothing could retire. The
    /// grant is recorded before the device is allocated; if allocation is
    /// refused, the grant is retired again and its record removed only if
    /// that retirement returned.
    pub fn issue_role<A: PrivateGrantAuthority>(
        &mut self,
        client: u64,
        device: u64,
        authority: &mut A,
    ) -> (r: Result<PrivateReservationRole, PrivateAdmissionRefusal>)
        requires
            old(self).wf(),
        ensures
            final(self).wf(),
            !admitted_now(old(self).view(), client) ==> r == Err::<
                PrivateReservationRole,
                PrivateAdmissionRefusal,
            >(PrivateAdmissionRefusal::NotAdmitted) && final(self).view() == old(self).view(),
            admitted_now(old(self).view(), client) && old(self).view().bindings[client].grants.len()
                >= old(self).view().grant_records ==> r == Err::<
                PrivateReservationRole,
                PrivateAdmissionRefusal,
            >(PrivateAdmissionRefusal::GrantRecordsExhausted) && final(self).view() == old(self).view(),
            admitted_now(old(self).view(), client) && old(self).view().bindings[client].grants.len()
                < old(self).view().grant_records ==> ({
                let o = old(self).view();
                let b = o.bindings[client];
                match r {
                    Ok(role) => role.connection == (PrivateConnectionIdentity {
                        recipient: client,
                        connection_generation: b.generation,
                    }) && role.admission == b.admission && final(self).view() == with_grant(o, client, role.grant),
                    Err(refusal) => refusal is Authority && (final(self).view() == o || exists|grant: u64|
                        #![trigger with_grant(o, client, grant)]
                        #![trigger with_grant_retired(o, client, grant)]
                        final(self).view() == with_grant(o, client, grant) || final(self).view()
                            == with_grant_retired(o, client, grant)),
                }
            }),
    {
        let i = match self.find(client) {
            Some(i) => i,
            None => {
                return Err(PrivateAdmissionRefusal::NotAdmitted);
            },
        };
        let ghost e0 = self.entries();
        let ghost b = e0[i as int].1;
        proof {
            assert(e0[i as int] == (self.bound@[i as int].0, self.bound@[i as int].1.view()));
        }
        if self.bound[i].1.closed {
            return Err(PrivateAdmissionRefusal::NotAdmitted);
        }
        match self.bound[i].1.lifecycle {
            Some(gate) => {
                let open = match &self.lifecycle {
                    Some(records) => records.is_open(&gate),
                    None => false,
                };
                if !open {
                    return Err(PrivateAdmissionRefusal::NotAdmitted);
                }
            },
            None => {},
        }
        let connection = PrivateConnectionIdentity {
            recipient: client,
            connection_generation: self.bound[i].1.generation,
        };
        let admission = self.bound[i].1.admission;
        if self.bound[i].1.grants.len() >= self.grant_records {
            return Err(PrivateAdmissionRefusal::GrantRecordsExhausted);
        }
        let (grant, generation) = match authority.issue_grant(connection) {
            Ok(issued) => issued,
            Err(refused) => {
                return Err(PrivateAdmissionRefusal::Authority(refused));
            },
        };
        let entry = &mut self.bound[i];
        entry.1.grants.push(grant);
        let ghost recorded_entries = e0.update(
            i as int,
            (client, PrivateBindingView { grants: b.grants.push(grant), ..b }),
        );
        proof {
            assert(self.entries() =~= recorded_entries) by {
                assert forall|j: int| 0 <= j < e0.len() implies self.entries()[j] == recorded_entries[j] by {
                    assert(self.entries()[j] == (self.bound@[j].0, self.bound@[j].1.view()));
                    assert(e0[j] == (old(self).bound@[j].0, old(self).bound@[j].1.view()));
                }
            }
            lemma_keyed_update(e0, i as int, PrivateBindingView { grants: b.grants.push(grant), ..b });
            assert(forall|j: int| 0 <= j < self.bound@.len() && j != i ==> self.bound@[j] == old(self).bound@[j]);
        }
        proof {
            assert(b == old(self).view().bindings[client]);
            assert(self.view().bindings =~= with_grant(old(self).view(), client, grant).bindings);
            assert(self.view() == with_grant(old(self).view(), client, grant));
        }
        match authority.allocate_device(grant, generation, device) {
            Ok(capability) => Ok(
                PrivateReservationRole { capability, generation, connection, admission, grant },
            ),
            Err(refused) => {
                let retired = match authority.revoke_grant(grant) {
                    Ok(()) => true,
                    Err(PrivateRegistrationError::StaleGeneration) => true,
                    Err(_) => false,
                };
                if retired {
                    let kept = remove_every(&self.bound[i].1.grants, grant);
                    let entry = &mut self.bound[i];
                    entry.1.grants = kept;
                    proof {
                        let nb = PrivateBindingView { grants: without(b.grants.push(grant), grant), ..b };
                        assert(self.entries() =~= e0.update(i as int, (client, nb))) by {
                            assert forall|j: int| 0 <= j < e0.len() implies self.entries()[j] == e0.update(
                                i as int,
                                (client, nb),
                            )[j] by {
                                assert(self.entries()[j] == (self.bound@[j].0, self.bound@[j].1.view()));
                                assert(e0[j] == (old(self).bound@[j].0, old(self).bound@[j].1.view()));
                            }
                        }
                        lemma_keyed_update(e0, i as int, nb);
                        assert(self.view().bindings =~= with_grant_retired(old(self).view(), client, grant).bindings);
                        assert(self.view() == with_grant_retired(old(self).view(), client, grant));
                    }
                }
                Err(PrivateAdmissionRefusal::Authority(refused))
            },
        }
    }

    /// The connection a reserved request would run against, if its client
    /// is admitted now under the admission the request was issued for.
    ///
    /// Refused as not admitted when the binding is gone, closed, or its
    /// gate shut; refused as a different admission when the client was
    /// admitted again since. A replacement admission does not make an old
    /// grant current, whatever the generation says.
    pub fn current_connection(&self, client: u64, admission: u64) -> (r: Result<
        PrivateConnectionIdentity,
        PrivateAdmissionRefusal,
    >)
        requires
            self.wf(),
        ensures
            !admitted_now(self.view(), client) ==> r == Err::<PrivateConnectionIdentity, PrivateAdmissionRefusal>(
                PrivateAdmissionRefusal::NotAdmitted,
            ),
            admitted_now(self.view(), client) && self.view().bindings[client].admission != admission ==> r
                == Err::<PrivateConnectionIdentity, PrivateAdmissionRefusal>(
                PrivateAdmissionRefusal::DifferentAdmission,
            ),
            admitted_now(self.view(), client) && self.view().bindings[client].admission == admission ==> r
                == Ok::<PrivateConnectionIdentity, PrivateAdmissionRefusal>(
                PrivateConnectionIdentity {
                    recipient: client,
                    connection_generation: self.view().bindings[client].generation,
                },
            ),
    {
        let i = match self.find(client) {
            Some(i) => i,
            None => {
                return Err(PrivateAdmissionRefusal::NotAdmitted);
            },
        };
        if self.bound[i].1.closed {
            return Err(PrivateAdmissionRefusal::NotAdmitted);
        }
        match self.bound[i].1.lifecycle {
            Some(gate) => {
                let open = match &self.lifecycle {
                    Some(records) => records.is_open(&gate),
                    None => false,
                };
                if !open {
                    return Err(PrivateAdmissionRefusal::NotAdmitted);
                }
            },
            None => {},
        }
        if self.bound[i].1.admission != admission {
            return Err(PrivateAdmissionRefusal::DifferentAdmission);
        }
        Ok(
            PrivateConnectionIdentity {
                recipient: client,
                connection_generation: self.bound[i].1.generation,
            },
        )
    }

    /// Take the cleanup custody for an admitted connection, before its
    /// writer is exposed.
    ///
    /// The binding must be open and name the same admission. A binding
    /// admitted before the custody was installed has its record made now.
    /// The record is then leased once, while its incarnation is open.
    pub fn register(&mut self, client: u64, context: PrivateAdmissionContext) -> (r: Result<
        PrivateLifecycleGate,
        PrivateLifecycleRefusal,
    >)
        requires
            old(self).wf(),
        ensures
            final(self).wf(),
            final(self).view().bindings == old(self).view().bindings,
            final(self).view().grant_records == old(self).view().grant_records,
            final(self).view().lifecycle is Some <==> old(self).view().lifecycle is Some,
            r is Err ==> final(self).view() == old(self).view(),
            old(self).view().lifecycle is None ==> r == Err::<PrivateLifecycleGate, PrivateLifecycleRefusal>(
                PrivateLifecycleRefusal::Unreachable,
            ),
            old(self).view().lifecycle is Some && (!old(self).view().bindings.contains_key(client)
                || old(self).view().bindings[client].closed) ==> r == Err::<
                PrivateLifecycleGate,
                PrivateLifecycleRefusal,
            >(PrivateLifecycleRefusal::NotAdmitted),
            ({
                let o = old(self).view();
                let b = o.bindings[client];
                let id = lifecycle_identity(client, context);
                match o.lifecycle {
                    None => true,
                    Some(l) => o.bindings.contains_key(client) && !b.closed ==> {
                    if !same_admission(b, id) {
                        r == Err::<PrivateLifecycleGate, PrivateLifecycleRefusal>(
                            PrivateLifecycleRefusal::DifferentAdmission,
                        )
                    } else if b.lifecycle is Some {
                        match lease_refusal(l, client) {
                            Some(refusal) => r == Err::<PrivateLifecycleGate, PrivateLifecycleRefusal>(refusal),
                            None => r is Ok && leased(l, client, r->Ok_0, final(self).view().lifecycle->0),
                        }
                    } else {
                        match registration_refusal(l, client) {
                            Some(refusal) => r == Err::<PrivateLifecycleGate, PrivateLifecycleRefusal>(refusal),
                            None => r is Ok && exists|g: PrivateLifecycleGate, w: PrivateLifecycleView|
                                #[trigger] registered(l, id, g, w) && leased(
                                    w,
                                    client,
                                    r->Ok_0,
                                    final(self).view().lifecycle->0,
                                ),
                        }
                    }
                    },
                }
            }),
    {
        if self.lifecycle.is_none() {
            return Err(PrivateLifecycleRefusal::Unreachable);
        }
        let i = match self.find(client) {
            Some(i) => i,
            None => {
                return Err(PrivateLifecycleRefusal::NotAdmitted);
            },
        };
        if self.bound[i].1.closed {
            return Err(PrivateLifecycleRefusal::NotAdmitted);
        }
        if self.bound[i].1.admission != context.admission || self.bound[i].1.generation
            != context.generation || self.bound[i].1.namespace != context.namespace {
            return Err(PrivateLifecycleRefusal::DifferentAdmission);
        }
        let identity = PrivateLifecycleIdentity {
            client,
            admission: context.admission,
            generation: context.generation,
            namespace: context.namespace,
        };
        let unbound = self.bound[i].1.lifecycle.is_none();
        let ghost l0 = self.view().lifecycle->0;
        match &mut self.lifecycle {
            Some(records) => {
                if unbound {
                    match records.register_held(identity) {
                        Ok(g) => {
                            let ghost w = records@;
                            proof {
                                let k = g.index();
                                assert(w.slots[k].record == Some(fresh_record(identity)));
                                assert(forall|j: int| 0 <= j < w.slots.len() && j != k ==> w.slots[j] == l0.slots[j]);
                                assert forall|j: int| 0 <= j < w.slots.len() && holds_client(#[trigger] w.slots[j], client)
                                    implies j == k by {
                                    if j != k {
                                        assert(holds_client(l0.slots[j], client));
                                    }
                                }
                                assert(holds_client(w.slots[k], client));
                                assert(lease_refusal(w, client) is None);
                            }
                            let leased_gate = records.lease(client);
                            proof {
                                assert(registered(l0, identity, g, w));
                            }
                            leased_gate
                        },
                        Err(refusal) => Err(refusal),
                    }
                } else {
                    records.lease(client)
                }
            },
            None => Err(PrivateLifecycleRefusal::Unreachable),
        }
    }

    /// Register a client whose queries read native state.
    ///
    /// Refused unless the client's binding is open, in this namespace, and
    /// holds exactly this gate, still open.
    pub fn register_query_gate<N: PrivateNativeOwnerAuthority<Receipt = R>>(
        &self,
        gate: &PrivateLifecycleGate,
        namespace: u64,
        client: u64,
        native: &mut N,
    ) -> (r: Result<(), PrivateLifecycleRefusal>)
        requires
            self.wf(),
        ensures
            ({
                let v = self.view();
                let b = v.bindings[client];
                if v.lifecycle is None {
                    r == Err::<(), PrivateLifecycleRefusal>(PrivateLifecycleRefusal::Unreachable)
                } else if !v.bindings.contains_key(client) || b.closed || b.namespace != namespace
                    || !opens(v.lifecycle, *gate) || b.lifecycle != Some(*gate) {
                    r == Err::<(), PrivateLifecycleRefusal>(PrivateLifecycleRefusal::NotAdmitted)
                } else {
                    r is Ok
                }
            }),
    {
        let records = match &self.lifecycle {
            Some(records) => records,
            None => {
                return Err(PrivateLifecycleRefusal::Unreachable);
            },
        };
        let i = match self.find(client) {
            Some(i) => i,
            None => {
                return Err(PrivateLifecycleRefusal::NotAdmitted);
            },
        };
        if self.bound[i].1.closed || self.bound[i].1.namespace != namespace {
            return Err(PrivateLifecycleRefusal::NotAdmitted);
        }
        let bound_gate = match self.bound[i].1.lifecycle {
            Some(g) => g,
            None => {
                return Err(PrivateLifecycleRefusal::NotAdmitted);
            },
        };
        if !records.is_open(gate) || bound_gate != *gate {
            return Err(PrivateLifecycleRefusal::NotAdmitted);
        }
        native.register_query_client(namespace, client);
        Ok(())
    }

    /// Request every current and racing admission to close: nothing more is
    /// accepted, and every open incarnation closes.
    pub fn close_all(&mut self)
        requires
            old(self).wf(),
        ensures
            final(self).wf(),
            final(self).view().bindings == old(self).view().bindings,
            final(self).view().grant_records == old(self).view().grant_records,
            old(self).view().lifecycle is None ==> final(self).view().lifecycle is None,
            old(self).view().lifecycle is Some ==> (final(self).view().lifecycle matches Some(l) && !l.accepting
                && forall|g: PrivateLifecycleGate| !gate_open(l, g)),
    {
        match &mut self.lifecycle {
            Some(records) => {
                records.close_all();
                proof {
                    let l = records@;
                    assert forall|g: PrivateLifecycleGate| !gate_open(l, g) by {
                        if 0 <= g.index() < l.slots.len() {
                            assert(!slot_open(l.slots[g.index()]));
                        }
                    }
                }
            },
            None => {},
        }
    }

    /// Close one connection's custody through its gate.
    pub fn close_connection(&mut self, gate: &PrivateLifecycleGate)
        requires
            old(self).wf(),
        ensures
            final(self).wf(),
            final(self).view().bindings == old(self).view().bindings,
            final(self).view().grant_records == old(self).view().grant_records,
            final(self).view().lifecycle == (match old(self).view().lifecycle {
                Some(l) => Some(after_close(l, *gate)),
                None => None,
            }),
    {
        match &mut self.lifecycle {
            Some(records) => {
                records.close(gate);
            },
            None => {},
        }
    }

    /// One drive visit: move the cursor on, and settle the slot it stood at
    /// if that slot is closed and holds a record. Returns whether a record
    /// retired.
    fn drive_visit<A: PrivateGrantAuthority, N: PrivateNativeOwnerAuthority<Receipt = R>>(
        &mut self,
        authority: &mut A,
        native: &mut N,
    ) -> (r: Result<bool, PrivateLifecycleRefusal>)
        requires
            old(self).wf(),
            old(self).view().lifecycle is Some,
        ensures
            final(self).wf(),
            final(self).view().lifecycle is Some,
            final(self).view().grant_records == old(self).view().grant_records,
            ({
                let o = old(self).view();
                let f = final(self).view();
                let ol = o.lifecycle->0;
                let fl = f.lifecycle->0;
                &&& slots_kept(ol, fl)
                &&& bindings_retired(o.bindings, f.bindings)
                &&& forall|i: int| #[trigger]
                    retired_slots(ol, fl).contains(i) ==> !f.bindings.contains_key(ol.slots[i].record->0.identity.client)
                &&& (r == Ok::<bool, PrivateLifecycleRefusal>(false) ==> retired_slots(ol, fl) == Set::<int>::empty())
                &&& (r == Ok::<bool, PrivateLifecycleRefusal>(true) ==> exists|i: int| retired_slots(ol, fl) == set![i])
                &&& (r is Err ==> r == Err::<bool, PrivateLifecycleRefusal>(
                    PrivateLifecycleRefusal::DifferentAdmission,
                ) && !records_agree(f))
                &&& (records_agree(o) ==> r is Ok && records_agree(f))
                &&& fl.cursor == (ol.cursor + 1) % (ol.slots.len() as int)
                &&& (ol.slots.len() > 0 && (slot_open(ol.slots[ol.cursor]) || ol.slots[ol.cursor].record is None)
                    ==> r == Ok::<bool, PrivateLifecycleRefusal>(false) && fl.slots == ol.slots && f.bindings
                    == o.bindings)
            }),
    {
        let ghost before = self.view();
        let index = match &mut self.lifecycle {
            Some(records) => records.advance(),
            None => 0,
        };
        let ghost moved = self.view();
        proof {
            assert(moved.lifecycle->0.slots == before.lifecycle->0.slots);
            lemma_bindings_retired_refl(before.bindings);
        }
        let id = match &self.lifecycle {
            Some(records) => records.retiring(index),
            None => None,
        };
        let id = match id {
            None => {
                proof {
                    lemma_slots_kept_refl(before.lifecycle->0);
                    assert(retired_slots(before.lifecycle->0, moved.lifecycle->0) =~= Set::<int>::empty());
                    if records_agree(before) {
                        lemma_records_agree_step(before, moved);
                    }
                }
                return Ok(false);
            },
            Some(id) => id,
        };
        match self.find(id.client) {
            Some(j) => {
                if self.bound[j].1.admission != id.admission || self.bound[j].1.generation != id.generation
                    || self.bound[j].1.namespace != id.namespace {
                    proof {
                        let ml = moved.lifecycle->0;
                        assert(ml.slots[index as int].record is Some);
                        assert(!same_admission(moved.bindings[id.client], ml.slots[index as int].record->0.identity));
                        assert(!records_agree(self.view()));
                        assert(moved.lifecycle->0.slots == before.lifecycle->0.slots);
                        assert(!records_agree(before));
                    }
                    return Err(PrivateLifecycleRefusal::DifferentAdmission);
                }
            },
            None => {},
        }
        let one = self.close_and_retire(id.client, authority);
        let ghost retired_view = self.view();
        proof {
            lemma_retired_binding_facts(moved, retired_view, id.client, one);
            let ml = moved.lifecycle->0;
            let rl = retired_view.lifecycle->0;
            if moved.bindings.contains_key(id.client) {
                let b = moved.bindings[id.client];
                if b.lifecycle is Some {
                    lemma_after_close_kept(ml, b.lifecycle->0);
                } else {
                    lemma_slots_kept_refl(ml);
                }
            } else {
                lemma_slots_kept_refl(ml);
            }
            assert(forall|i: int| 0 <= i < rl.slots.len() ==> #[trigger] rl.slots[i].record == ml.slots[i].record);
            assert(!slot_open(rl.slots[index as int]));
        }
        let pending = self.find(id.client).is_some();
        let retired = match &mut self.lifecycle {
            Some(records) => records.settle(index, pending, native),
            None => false,
        };
        proof {
            let bl = before.lifecycle->0;
            let ml = moved.lifecycle->0;
            let rl = retired_view.lifecycle->0;
            let sl = self.view().lifecycle->0;
            lemma_slots_kept_refl(bl);
            assert(slots_kept(bl, ml));
            lemma_settle_kept(rl, index as int, pending);
            lemma_slots_kept_trans(ml, rl, sl);
            lemma_slots_kept_trans(bl, ml, sl);
            assert(self.view().bindings == retired_view.bindings);
            lemma_bindings_retired_refl(retired_view.bindings);
            lemma_bindings_retired_trans(before.bindings, moved.bindings, retired_view.bindings);
            if records_agree(before) {
                lemma_records_agree_step(before, moved);
                lemma_records_agree_step(moved, retired_view);
                lemma_records_agree_step(retired_view, self.view());
            }
            assert(bl.slots[index as int].record is Some);
            if retired {
                assert(retired_slots(bl, sl) =~= set![index as int]);
            } else {
                assert(retired_slots(bl, sl) =~= Set::<int>::empty());
            }
        }
        Ok(retired)
    }

    /// Visit up to `budget` slots of the cleanup custody, from where the
    /// last visit stopped, settling each closed connection's record.
    ///
    /// A visited slot that is closed and holds a record has its client's
    /// binding closed and retired first, and its native owner removed once;
    /// the record goes when both are done, and counts as completed. A record
    /// whose client is bound under a different admission stops the drive.
    pub fn drive<A: PrivateGrantAuthority, N: PrivateNativeOwnerAuthority<Receipt = R>>(
        &mut self,
        budget: usize,
        authority: &mut A,
        native: &mut N,
    ) -> (r: Result<usize, PrivateLifecycleRefusal>)
        requires
            old(self).wf(),
            budget > 0,
        ensures
            final(self).wf(),
            final(self).view().grant_records == old(self).view().grant_records,
            old(self).view().lifecycle is None ==> r == Err::<usize, PrivateLifecycleRefusal>(
                PrivateLifecycleRefusal::Unreachable,
            ) && final(self).view() == old(self).view(),
            ({
                let o = old(self).view();
                let f = final(self).view();
                match o.lifecycle {
                    None => true,
                    Some(l0) => {
                        &&& f.lifecycle is Some
                        &&& slots_kept(l0, f.lifecycle->0)
                        &&& bindings_retired(o.bindings, f.bindings)
                        &&& forall|i: int| #[trigger]
                            retired_slots(l0, f.lifecycle->0).contains(i) ==> !f.bindings.contains_key(
                                l0.slots[i].record->0.identity.client,
                            )
                        &&& (r matches Ok(n) ==> n == retired_slots(l0, f.lifecycle->0).len() && n <= budget)
                        &&& (r is Err ==> r == Err::<usize, PrivateLifecycleRefusal>(
                            PrivateLifecycleRefusal::DifferentAdmission,
                        ) && !records_agree(f))
                        &&& (records_agree(o) ==> r is Ok)
                    },
                }
            }),
    {
        let visits = match &self.lifecycle {
            Some(records) => {
                let n = records.capacity();
                if budget < n {
                    budget
                } else {
                    n
                }
            },
            None => {
                return Err(PrivateLifecycleRefusal::Unreachable);
            },
        };
        let ghost v0 = self.view();
        let ghost l0 = v0.lifecycle->0;
        let mut completed: usize = 0;
        let mut k: usize = 0;
        proof {
            lemma_slots_kept_refl(l0);
            lemma_bindings_retired_refl(v0.bindings);
            assert(retired_slots(l0, l0) =~= Set::<int>::empty());
        }
        while k < visits
            invariant
                self.wf(),
                v0 == old(self).view(),
                l0 == v0.lifecycle->0,
                v0.lifecycle is Some,
                self.view().lifecycle is Some,
                self.view().grant_records == v0.grant_records,
                k <= visits,
                visits <= budget,
                slots_kept(l0, self.view().lifecycle->0),
                bindings_retired(v0.bindings, self.view().bindings),
                forall|i: int| #[trigger]
                    retired_slots(l0, self.view().lifecycle->0).contains(i) ==> !self.view().bindings.contains_key(
                        l0.slots[i].record->0.identity.client,
                    ),
                retired_slots(l0, self.view().lifecycle->0).finite(),
                completed == retired_slots(l0, self.view().lifecycle->0).len(),
                completed <= k,
                records_agree(v0) ==> records_agree(self.view()),
            decreases visits - k,
        {
            k = k + 1;
            let ghost cur = self.view();
            let step = self.drive_visit(authority, native);
            proof {
                let cl = cur.lifecycle->0;
                let nl = self.view().lifecycle->0;
                lemma_slots_kept_trans(l0, cl, nl);
                lemma_bindings_retired_trans(v0.bindings, cur.bindings, self.view().bindings);
                lemma_retired_slots_join(l0, cl, nl);
                assert forall|i: int| #[trigger] retired_slots(l0, nl).contains(i) implies !self.view().bindings.contains_key(
                    l0.slots[i].record->0.identity.client,
                ) by {
                    if retired_slots(cl, nl).contains(i) {
                        assert(l0.slots[i] == l0.slots[i]);
                        assert(cl.slots[i].record->0.identity == l0.slots[i].record->0.identity);
                    }
                }
                if step == Ok::<bool, PrivateLifecycleRefusal>(true) {
                    let i = choose|i: int| retired_slots(cl, nl) == set![i];
                    assert(retired_slots(cl, nl).contains(i));
                    assert(!retired_slots(l0, cl).contains(i));
                    assert(retired_slots(l0, nl) =~= retired_slots(l0, cl).insert(i));
                } else if step == Ok::<bool, PrivateLifecycleRefusal>(false) {
                    assert(retired_slots(cl, nl) == Set::<int>::empty());
                    assert(retired_slots(l0, nl) =~= retired_slots(l0, cl));
                }
            }
            match step {
                Ok(retired) => {
                    if retired {
                        completed = completed + 1;
                    }
                },
                Err(refusal) => {
                    return Err(refusal);
                },
            }
        }
        Ok(completed)
    }

    /// Attach one connection to the private boundary: admit it, then take
    /// its cleanup custody, before anything of it is exposed. Without cleanup
    /// custody installed there is nothing to attach to, and nothing is done.
    pub fn attach(&mut self, client: u64, context: PrivateAdmissionContext) -> (r: Result<
        Option<PrivateLifecycleGate>,
        PrivateAttachRefusal,
    >)
        requires
            old(self).wf(),
        ensures
            final(self).wf(),
            final(self).view().grant_records == old(self).view().grant_records,
            ({
                let o = old(self).view();
                let f = final(self).view();
                match o.lifecycle {
                    None => r == Ok::<Option<PrivateLifecycleGate>, PrivateAttachRefusal>(None) && f == o,
                    Some(l) => if o.bindings.contains_key(client) {
                        r == Err::<Option<PrivateLifecycleGate>, PrivateAttachRefusal>(
                            PrivateAttachRefusal::Admission(PrivateAdmissionRefusal::AlreadyAdmitted),
                        ) && f == o
                    } else {
                        match registration_refusal(l, client) {
                            Some(refusal) => r == Err::<Option<PrivateLifecycleGate>, PrivateAttachRefusal>(
                                PrivateAttachRefusal::Admission(admission_refusal_of(refusal)),
                            ) && f == o,
                            None => {
                                &&& r matches Ok(Some(g))
                                &&& f.bindings == o.bindings.insert(client, fresh_binding(context, Some(g)))
                                &&& f.lifecycle is Some
                                &&& exists|w: PrivateLifecycleView|
                                    #[trigger] registered(l, lifecycle_identity(client, context), g, w) && leased(
                                        w,
                                        client,
                                        g,
                                        f.lifecycle->0,
                                    )
                            },
                        }
                    },
                }
            }),
    {
        if self.lifecycle.is_none() {
            return Ok(None);
        }
        let ghost o = self.view();
        match self.admit_client(client, context) {
            Ok(()) => {},
            Err(refusal) => {
                return Err(PrivateAttachRefusal::Admission(refusal));
            },
        }
        let ghost mid = self.view();
        proof {
            let l = o.lifecycle->0;
            let g = mid.bindings[client].lifecycle->0;
            let w = mid.lifecycle->0;
            let id = lifecycle_identity(client, context);
            assert(registered(l, id, g, w));
            lemma_registered_leasable(l, id, g, w);
            assert(same_admission(mid.bindings[client], id));
        }
        match self.register(client, context) {
            Ok(gate) => {
                proof {
                    let l = o.lifecycle->0;
                    let g = mid.bindings[client].lifecycle->0;
                    let w = mid.lifecycle->0;
                    assert(leased(w, client, gate, self.view().lifecycle->0));
                    assert(gate == g);
                    assert(registered(l, lifecycle_identity(client, context), gate, w));
                    assert(self.view().bindings == mid.bindings);
                    assert(mid.bindings == o.bindings.insert(client, fresh_binding(context, Some(g))));
                }
                Ok(Some(gate))
            },
            Err(refusal) => {
                proof {
                    assert(false);
                }
                Err(PrivateAttachRefusal::Lifecycle(refusal))
            },
        }
    }
}

/// A copy of a grant list with every copy of one grant taken out.
fn remove_every(grants: &Vec<u64>, grant: u64) -> (r: Vec<u64>)
    ensures
        r@ == without(grants@, grant),
{
    let mut kept: Vec<u64> = Vec::new();
    let mut i: usize = 0;
    while i < grants.len()
        invariant
            i <= grants@.len(),
            kept@ == without(grants@.subrange(0, i as int), grant),
        decreases grants@.len() - i,
    {
        proof {
            assert(grants@.subrange(0, i + 1).drop_last() =~= grants@.subrange(0, i as int));
        }
        if grants[i] != grant {
            kept.push(grants[i]);
        }
        i = i + 1;
    }
    proof {
        assert(grants@.subrange(0, grants@.len() as int) =~= grants@);
    }
    kept
}

/// What a lifecycle refusal of a registration is answered with.
fn admission_refusal(refusal: PrivateLifecycleRefusal) -> (r: PrivateAdmissionRefusal)
    ensures
        r == admission_refusal_of(refusal),
{
    match refusal {
        PrivateLifecycleRefusal::Capacity => PrivateAdmissionRefusal::ClientRecordsExhausted,
        PrivateLifecycleRefusal::AlreadyOwned => PrivateAdmissionRefusal::AlreadyAdmitted,
        PrivateLifecycleRefusal::NotAdmitted => PrivateAdmissionRefusal::NotAdmitted,
        _ => PrivateAdmissionRefusal::Unreachable,
    }
}

} // verus!
