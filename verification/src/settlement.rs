// Settling work a private instance accepted and could not answer.
//
// What is owed, who holds the means to answer it, and what happens when the
// holder goes away. The registry that accepted a piece of work is reached
// through `PrivateRouteRegistry`; everything this store decides about that
// work is decided here, over what the registry answered.
use vstd::prelude::*;
use vstd::multiset::Multiset;
use crate::continuation_places::{
    all_taken_readable, drive_bounded, first_retained_step, is_retained_place, occupied_place, places_wf,
    retained_count, rotated, PlacesView, PrivateContinuationPlaces,
    PrivateOrderedContinuationDuty, PrivateOrderedContinuationSlot,
};

verus! {

/// What one drive of a settlement owner achieved.
///
/// Answered and reclaimed are different things. The first emitted a receipt or
/// an acknowledgement to someone waiting for one; the second only observed
/// that work already finished elsewhere is finished, and freed what it held.
#[derive(Debug, Clone, Copy, Default, PartialEq, Eq)]
pub struct DriveProgress {
    /// Whether the owner could be read at all. A drive that achieved nothing
    /// and a drive that could not look are different answers.
    pub readable: bool,
    /// Obligations discharged by this drive.
    pub answered: usize,
    /// Credits released because their work reached a terminal outcome.
    pub reclaimed: usize,
}

impl DriveProgress {
    /// Whether this drive changed anything at all.
    ///
    /// Of what a drive can reach: a loop that runs until this is false has
    /// finished driving, not finished owing.
    pub fn made_progress(self) -> (r: bool)
        ensures
            r == (self.answered > 0 || self.reclaimed > 0),
    {
        self.answered > 0 || self.reclaimed > 0
    }
}

/// What a control completion registry knows of one record.
#[derive(Debug, Clone, Copy, PartialEq, Eq)]
pub enum ControlRecordState {
    /// Issued and no longer held: handed over or already settled.
    Retired,
    /// Still held by whoever may publish for it.
    Outstanding,
    /// The registry cannot say.
    Unanswerable,
}

/// One control command as it was accepted.
#[derive(Debug, Clone, Copy, PartialEq, Eq)]
pub struct PrivateControlCommand {
    pub client: u64,
    pub kind: u8,
    pub transaction: u64,
    pub surface: u64,
}

/// One accepted operation, in the shape settlement needs of it.
#[derive(Debug, Clone, Copy, PartialEq, Eq)]
pub enum PrivateOperation {
    /// Routed input, with the surface it targeted and the delivery it carried.
    RoutedInput { target_surface: u64, delivery: Option<u64> },
    /// A control command, with the completion registration that answers for it.
    Control { command: PrivateControlCommand, completion: Option<u64> },
    /// A route lease being retired.
    LeaseRelease { lease: u64 },
}

/// Which submitted operation a run corresponds to.
#[derive(Debug, Clone, Copy, PartialEq, Eq)]
pub enum PrivateIdentity {
    /// The delivery a routed input carried, when it carried one.
    Delivery(Option<u64>),
    /// The transaction a control named, with the registration that answers
    /// for it.
    Control { transaction: u64, completion: Option<u64> },
    /// The lease being retired.
    Lease(u64),
}

pub open spec fn identity_spec(operation: PrivateOperation) -> PrivateIdentity {
    match operation {
        PrivateOperation::RoutedInput { delivery, .. } => PrivateIdentity::Delivery(delivery),
        PrivateOperation::Control { command, completion } => PrivateIdentity::Control {
            transaction: command.transaction,
            completion,
        },
        PrivateOperation::LeaseRelease { lease } => PrivateIdentity::Lease(lease),
    }
}

impl PrivateIdentity {
    /// The identity an operation is answered by.
    pub fn of(operation: &PrivateOperation) -> (r: Self)
        ensures
            r == identity_spec(*operation),
    {
        match operation {
            PrivateOperation::RoutedInput { delivery, .. } => PrivateIdentity::Delivery(*delivery),
            PrivateOperation::Control { command, completion } => PrivateIdentity::Control {
                transaction: command.transaction,
                completion: *completion,
            },
            PrivateOperation::LeaseRelease { lease } => PrivateIdentity::Lease(*lease),
        }
    }
}

/// One operation the consumer took, and where it sat.
#[derive(Debug, Clone, Copy, PartialEq, Eq)]
pub struct PrivateRun {
    pub sequence: u64,
    pub class: u8,
    /// Which operation this was, not merely what kind.
    pub identity: PrivateIdentity,
}

/// Whether this settlement may answer an obligation itself.
#[derive(Debug, Clone, Copy, PartialEq, Eq)]
pub enum SettlementOwnership {
    /// No live completion record can publish for it.
    Ours,
    /// A record is still held by someone who can publish for it.
    Elsewhere,
    /// The registry cannot say.
    Unprovable,
}

/// Whether a failed instance still holds the slot it reserved.
#[derive(Debug, Clone, Copy, PartialEq, Eq)]
pub enum FailureSlot {
    /// Reserved before the instance was exposed and not yet given back.
    Held,
    /// Given back.
    Released,
}

/// Why a credit or a slot could not be taken.
#[derive(Debug, Clone, Copy, PartialEq, Eq)]
pub enum AdmissionRefusal {
    /// The owner's records could not be read.
    Unavailable,
    /// Every credit or slot is taken.
    Saturated,
}

/// The acknowledgement a refused control is answered with.
#[derive(Debug, Clone, Copy, PartialEq, Eq)]
pub struct PrivateControlRejection {
    pub client: u64,
    pub kind: u8,
    pub transaction: u64,
    pub surface: u64,
}

/// The route registry that accepted a piece of work: the only thing that can
/// answer it.
///
/// Implemented by the frontend's registry. Nothing here is promised of what
/// it answers; every decision this store makes holds for any answer.
pub trait PrivateRouteRegistry {
    /// The state of one control completion record, or `None` where this
    /// registry has no completion registry to ask.
    fn control_state(&self, token: u64) -> Option<ControlRecordState>;

    /// Take an outstanding control record, if it has not begun applying and
    /// is owed no receipt.
    fn discard_control(&self, token: u64) -> bool;

    /// The client a surface is routed to, if the surface table can say.
    fn surface_client(&self, surface: u64) -> Option<u64>;

    /// Send a route rejection for one delivery to one client.
    fn send_route_rejected(&self, client: u64, delivery: Option<u64>) -> bool;

    /// Offer one control acknowledgement to the acknowledgement channel.
    fn send_control_rejection(&self, acknowledgement: PrivateControlRejection) -> bool;

    /// Retire one route lease.
    fn release_route_lease(&self, lease: u64) -> bool;

    /// Whether the recovery ledger reports this delivery ended.
    fn delivery_ended(&self, delivery: u64) -> bool;

    /// Settle what the completion registry can settle on its own.
    fn reconcile_unstarted(&self);
}

/// Who may answer, given what the completion registry said.
///
/// `state` is the record's state, `None` where there is no registry to ask;
/// `discarded` is whether taking an outstanding record succeeded.
pub open spec fn ownership_spec(
    operation: PrivateOperation,
    state: Option<ControlRecordState>,
    discarded: bool,
) -> SettlementOwnership {
    match operation {
        PrivateOperation::Control { completion: Some(_), .. } => match state {
            None => SettlementOwnership::Unprovable,
            Some(ControlRecordState::Retired) => SettlementOwnership::Ours,
            Some(ControlRecordState::Outstanding) => if discarded {
                SettlementOwnership::Ours
            } else {
                SettlementOwnership::Elsewhere
            },
            Some(ControlRecordState::Unanswerable) => SettlementOwnership::Unprovable,
        },
        _ => SettlementOwnership::Ours,
    }
}

/// The decision of `ownership_of`, once the registry has answered.
pub fn decide_ownership(
    operation: &PrivateOperation,
    state: Option<ControlRecordState>,
    discarded: bool,
) -> (r: SettlementOwnership)
    ensures
        r == ownership_spec(*operation, state, discarded),
{
    match operation {
        PrivateOperation::Control { completion: Some(_), .. } => match state {
            None => SettlementOwnership::Unprovable,
            Some(ControlRecordState::Retired) => SettlementOwnership::Ours,
            Some(ControlRecordState::Outstanding) => if discarded {
                SettlementOwnership::Ours
            } else {
                SettlementOwnership::Elsewhere
            },
            Some(ControlRecordState::Unanswerable) => SettlementOwnership::Unprovable,
        },
        _ => SettlementOwnership::Ours,
    }
}

/// What a registry answered of control record `token`: its state, and,
/// where the record was outstanding, whether taking it succeeded.
pub open spec fn record_answered<R: PrivateRouteRegistry>(
    origin: &R,
    token: u64,
    state: Option<ControlRecordState>,
    discarded: bool,
) -> bool {
    &&& call_ensures(R::control_state, (origin, token), state)
    &&& state == Some(ControlRecordState::Outstanding) ==> call_ensures(R::discard_control, (origin, token), discarded)
    &&& state != Some(ControlRecordState::Outstanding) ==> !discarded
}

/// Establish who may answer an obligation, taking the record if it is free.
///
/// Asked before publication rather than after. Only control carries a
/// completion record; everything else has a single owner by construction.
pub fn ownership_of<R: PrivateRouteRegistry>(origin: &R, operation: &PrivateOperation) -> (r:
    SettlementOwnership)
    ensures
        !(operation matches PrivateOperation::Control { completion: Some(_), .. }) ==> r
            == SettlementOwnership::Ours,
        exists|state: Option<ControlRecordState>, discarded: bool|
            r == ownership_spec(*operation, state, discarded),
        // The record's state and the taking are the registry's own answers,
        // asked of the record this control names.
        (operation matches PrivateOperation::Control { completion: Some(token), .. }) ==> exists|
            state: Option<ControlRecordState>,
            discarded: bool,
        |
            #[trigger] record_answered(origin, operation->completion->0, state, discarded) && r == ownership_spec(
                *operation,
                state,
                discarded,
            ),
{
    match operation {
        PrivateOperation::Control { completion: Some(token), .. } => {
            let ask_state = R::control_state;
            let state = ask_state(origin, *token);
            let discarded = match state {
                Some(ControlRecordState::Outstanding) => {
                    let take = R::discard_control;
                    take(origin, *token)
                },
                _ => false,
            };
            assert(record_answered(origin, *token, state, discarded));
            decide_ownership(operation, state, discarded)
        },
        _ => {
            let r = decide_ownership(operation, None, false);
            assert(r == ownership_spec(*operation, None, false));
            r
        },
    }
}

/// The rejection a control command is answered with when nothing here ran it.
pub open spec fn rejection_spec(command: PrivateControlCommand) -> PrivateControlRejection {
    PrivateControlRejection {
        client: command.client,
        kind: command.kind,
        transaction: command.transaction,
        surface: command.surface,
    }
}

/// The single effect that answers an obligation nothing else answered.
#[derive(Debug, Clone, Copy, PartialEq, Eq)]
pub enum PrivateSettlementEffect {
    /// A route rejection for one delivery, sent to the client its target
    /// surface is routed to.
    RouteRejected { client: u64, delivery: Option<u64> },
    /// A rejection acknowledgement for a control command.
    ControlRejected(PrivateControlRejection),
    /// Retiring a route lease.
    LeaseReleased(u64),
}

/// Which effect answers an obligation, given the client its target surface
/// resolved to (asked only for routed input). Routed input whose surface
/// resolves to no client has no effect: ownership is kept rather than
/// resolved by guessing a recipient.
pub open spec fn settlement_effect_spec(operation: PrivateOperation, client: Option<u64>) -> Option<
    PrivateSettlementEffect,
> {
    match operation {
        PrivateOperation::RoutedInput { delivery, .. } => match client {
            Some(c) => Some(PrivateSettlementEffect::RouteRejected { client: c, delivery }),
            None => None,
        },
        PrivateOperation::Control { command, .. } => Some(
            PrivateSettlementEffect::ControlRejected(rejection_spec(command)),
        ),
        PrivateOperation::LeaseRelease { lease } => Some(PrivateSettlementEffect::LeaseReleased(lease)),
    }
}

/// Which effect answers an obligation, given the client its target surface
/// resolved to.
pub fn settlement_effect(operation: &PrivateOperation, client: Option<u64>) -> (r: Option<PrivateSettlementEffect>)
    ensures
        r == settlement_effect_spec(*operation, client),
{
    match operation {
        PrivateOperation::RoutedInput { delivery, .. } => match client {
            Some(c) => Some(PrivateSettlementEffect::RouteRejected { client: c, delivery: *delivery }),
            None => None,
        },
        PrivateOperation::Control { command, .. } => Some(
            PrivateSettlementEffect::ControlRejected(
                PrivateControlRejection {
                    client: command.client,
                    kind: command.kind,
                    transaction: command.transaction,
                    surface: command.surface,
                },
            ),
        ),
        PrivateOperation::LeaseRelease { lease } => Some(PrivateSettlementEffect::LeaseReleased(*lease)),
    }
}

/// Answer one obligation, saying whether it was answered.
///
/// Borrowed rather than taken, so the caller holds the obligation either way.
/// Only routed input asks the registry anything before its effect: the client
/// its target surface is routed to. Then the one effect `settlement_effect`
/// names is attempted, and the answer is whether the registry accepted it;
/// with no effect, nothing is sent and the obligation is not answered.
pub fn settle_one<R: PrivateRouteRegistry>(registry: &R, operation: &PrivateOperation) -> (r: bool)
    ensures
        exists|client: Option<u64>|
            (!(operation is RoutedInput) ==> client is None) && (settlement_effect_spec(*operation, client) is None
                ==> !r),
        // The answer is the registry's acceptance of exactly the one effect
        // `settlement_effect` names, for the client its surface table gave.
        exists|client: Option<u64>| #[trigger] effect_answered(registry, *operation, client, r),
{
    let client = match operation {
        PrivateOperation::RoutedInput { target_surface, .. } => {
            let ask_client = R::surface_client;
            ask_client(registry, *target_surface)
        },
        _ => None,
    };
    let r = match settlement_effect(operation, client) {
        None => false,
        Some(PrivateSettlementEffect::RouteRejected { client, delivery }) => {
            let send = R::send_route_rejected;
            send(registry, client, delivery)
        },
        Some(PrivateSettlementEffect::ControlRejected(acknowledgement)) => {
            let send = R::send_control_rejection;
            send(registry, acknowledgement)
        },
        Some(PrivateSettlementEffect::LeaseReleased(lease)) => {
            let release = R::release_route_lease;
            release(registry, lease)
        },
    };
    assert(effect_answered(registry, *operation, client, r));
    r
}

/// What the registry answered of one obligation's effect: routed input asks
/// for its surface's client first; then the effect `settlement_effect` names
/// is offered and `answered` is whether the registry accepted it; with no
/// effect nothing is answered.
pub open spec fn effect_answered<R: PrivateRouteRegistry>(
    registry: &R,
    operation: PrivateOperation,
    client: Option<u64>,
    answered: bool,
) -> bool {
    &&& match operation {
        PrivateOperation::RoutedInput { target_surface, .. } => call_ensures(
            R::surface_client,
            (registry, target_surface),
            client,
        ),
        _ => client is None,
    }
    &&& match settlement_effect_spec(operation, client) {
        None => !answered,
        Some(PrivateSettlementEffect::RouteRejected { client, delivery }) => call_ensures(
            R::send_route_rejected,
            (registry, client, delivery),
            answered,
        ),
        Some(PrivateSettlementEffect::ControlRejected(acknowledgement)) => call_ensures(
            R::send_control_rejection,
            (registry, acknowledgement),
            answered,
        ),
        Some(PrivateSettlementEffect::LeaseReleased(lease)) => call_ensures(
            R::release_route_lease,
            (registry, lease),
            answered,
        ),
    }
}

/// Whether carried routed work has reached a terminal outcome, given what the
/// registry reports of its delivery and of its control record.
pub open spec fn ended_spec(
    identity: PrivateIdentity,
    delivery_ended: bool,
    control: Option<ControlRecordState>,
) -> bool {
    match identity {
        PrivateIdentity::Delivery(Some(_)) => delivery_ended,
        PrivateIdentity::Control { completion: Some(_), .. } => control == Some(
            ControlRecordState::Retired,
        ),
        _ => false,
    }
}

/// Whether carried work ended, asking its registry only what its identity
/// makes observable. Nothing observable means nothing to conclude.
pub fn carried_work_ended<R: PrivateRouteRegistry>(origin: &R, identity: &PrivateIdentity) -> (r:
    bool)
    ensures
        exists|d: bool, c: Option<ControlRecordState>| r == ended_spec(*identity, d, c),
        (identity matches PrivateIdentity::Delivery(None)) ==> !r,
        (identity matches PrivateIdentity::Control { completion: None, .. }) ==> !r,
        (identity matches PrivateIdentity::Lease(_)) ==> !r,
        // What the registry itself reported of the one thing the identity
        // makes observable.
        identity matches PrivateIdentity::Delivery(Some(delivery)) ==> call_ensures(
            R::delivery_ended,
            (origin, *delivery),
            r,
        ),
        identity matches PrivateIdentity::Control { completion: Some(token), .. } ==> exists|
            c: Option<ControlRecordState>,
        |
            #[trigger] call_ensures(R::control_state, (origin, *token), c) && r == (c == Some(
                ControlRecordState::Retired,
            )),
{
    match identity {
        PrivateIdentity::Delivery(Some(delivery)) => {
            let ask_ended = R::delivery_ended;
            let d = ask_ended(origin, *delivery);
            assert(d == ended_spec(*identity, d, None));
            d
        },
        PrivateIdentity::Control { completion: Some(token), .. } => {
            let ask_state = R::control_state;
            let c = ask_state(origin, *token);
            let r = match c {
                Some(ControlRecordState::Retired) => true,
                _ => false,
            };
            assert(r == ended_spec(*identity, false, c));
            r
        },
        _ => {
            assert(false == ended_spec(*identity, false, None));
            false
        },
    }
}


/// One instance that closed with a queue nobody could read.
pub struct FailedInstance<R> {
    pub origin: R,
    /// What its queue still held, in order.
    pub queue: Vec<PrivateOperation>,
    /// Places whose registered worker was never collected when this instance
    /// was retained. An instance retained over one stands: recovery drains
    /// nothing from it and releases no charge for it.
    pub uncollected: Vec<usize>,
    /// Whether this instance's failure slot has been given back.
    pub slot: FailureSlot,
}

/// Where obligations go when the handle holding them is abandoned.
///
/// Bounded, but never by refusing a transfer: credits for abandoned work and
/// slots for failed instances are taken before the work or the instance
/// exists, so arriving here is always into space already set aside.
pub struct PrivateSettlementOwner<R, P> {
    /// Whether a holder panicked inside these records.
    poisoned: bool,
    /// Places reserved for connections' ordered continuations.
    continuations: PrivateContinuationPlaces<P>,
    held: Vec<(R, PrivateOperation)>,
    /// Obligations a sweep is part-way through.
    in_flight: Vec<(R, PrivateOperation)>,
    /// The same, for the routed work whose credits a sweep is checking.
    outstanding_in_flight: Vec<(R, PrivateIdentity)>,
    /// The same, for failed instances a recovery is part-way through.
    failed_in_flight: Vec<FailedInstance<R>>,
    /// Whether a sweep is inside the call that answers the last of `in_flight`.
    settling: bool,
    /// Obligations whose settlement was interrupted after it could have
    /// emitted. Kept, with their credits, and never driven again.
    indeterminate: Vec<(R, PrivateOperation)>,
    /// Routed work whose handle was abandoned before it finished.
    outstanding: Vec<(R, PrivateIdentity)>,
    /// Instances whose queue could not be read when they closed.
    failed: Vec<FailedInstance<R>>,
    /// The most failed instances this will hold.
    failed_capacity: usize,
    /// Failure slots taken by live and retained instances.
    failure_slots: usize,
    /// Credits taken when work was accepted, held until it is discharged.
    reserved: usize,
    capacity: usize,
}

/// What a settlement owner holds, as sequences.
pub ghost struct SettlementView<R> {
    pub readable: bool,
    pub continuations: PlacesView,
    pub held: Seq<(R, PrivateOperation)>,
    pub in_flight: Seq<(R, PrivateOperation)>,
    pub outstanding_in_flight: Seq<(R, PrivateIdentity)>,
    pub failed_in_flight: Seq<FailedInstance<R>>,
    pub settling: bool,
    pub indeterminate: Seq<(R, PrivateOperation)>,
    pub outstanding: Seq<(R, PrivateIdentity)>,
    pub failed: Seq<FailedInstance<R>>,
    pub failed_capacity: nat,
    pub failure_slots: nat,
    pub reserved: nat,
    pub capacity: nat,
}

impl<R, P> View for PrivateSettlementOwner<R, P> {
    type V = SettlementView<R>;

    closed spec fn view(&self) -> SettlementView<R> {
        SettlementView {
            readable: !self.poisoned,
            continuations: self.continuations@,
            held: self.held@,
            in_flight: self.in_flight@,
            outstanding_in_flight: self.outstanding_in_flight@,
            failed_in_flight: self.failed_in_flight@,
            settling: self.settling,
            indeterminate: self.indeterminate@,
            outstanding: self.outstanding@,
            failed: self.failed@,
            failed_capacity: self.failed_capacity as nat,
            failure_slots: self.failure_slots as nat,
            reserved: self.reserved as nat,
            capacity: self.capacity as nat,
        }
    }
}

/// `a - b`, floored at zero.
pub open spec fn sat_sub(a: nat, b: nat) -> nat {
    if a >= b { (a - b) as nat } else { 0 }
}

/// The carried identities of a sequence of obligations, with their origins.
pub open spec fn handed_on<R>(s: Seq<(R, PrivateOperation)>) -> Seq<(R, PrivateIdentity)> {
    s.map_values(|p: (R, PrivateOperation)| (p.0, identity_spec(p.1)))
}


/// What a sweep did with one obligation it took.
#[derive(Debug, Clone, Copy, PartialEq, Eq)]
pub enum SweepDisposition {
    /// Not answered: it stays owed, with its credit.
    Kept,
    /// Someone else publishes for it; it is carried on as an identity.
    HandedOn,
    /// Answered here; its credit is free.
    Answered,
}

/// The elements of `s` whose disposition is `which`, in the order a sweep
/// that works from the end of `s` reaches them.
pub open spec fn disposed<T>(s: Seq<T>, d: Seq<SweepDisposition>, which: SweepDisposition) -> Seq<
    T,
>
    decreases s.len(),
{
    if s.len() == 0 || d.len() == 0 {
        Seq::empty()
    } else {
        let rest = disposed(s.skip(1), d.skip(1), which);
        if d[0] == which {
            rest.push(s[0])
        } else {
            rest
        }
    }
}

/// The disposition an obligation gets from who may answer it and, when it
/// is ours, whether its one effect was accepted: handed on when another
/// publishes for it, answered only when its effect went out, kept otherwise.
pub open spec fn disposition_spec(ownership: SettlementOwnership, settled: bool) -> SweepDisposition {
    match ownership {
        SettlementOwnership::Elsewhere => SweepDisposition::HandedOn,
        SettlementOwnership::Unprovable => SweepDisposition::Kept,
        SettlementOwnership::Ours => if settled {
            SweepDisposition::Answered
        } else {
            SweepDisposition::Kept
        },
    }
}

/// Decide what a sweep does with one obligation, from who may answer it and
/// whether its effect was accepted.
pub fn sweep_disposition(ownership: SettlementOwnership, settled: bool) -> (d: SweepDisposition)
    ensures
        d == disposition_spec(ownership, settled),
{
    match ownership {
        SettlementOwnership::Elsewhere => SweepDisposition::HandedOn,
        SettlementOwnership::Unprovable => SweepDisposition::Kept,
        SettlementOwnership::Ours => if settled {
            SweepDisposition::Answered
        } else {
            SweepDisposition::Kept
        },
    }
}

/// The answers a sweep got for one obligation: `ownership_of` asked of the
/// registry that accepted it, and, when the obligation is ours, `settle_one`.
pub open spec fn sweep_answers<R: PrivateRouteRegistry>(
    item: (R, PrivateOperation),
    ownership: SettlementOwnership,
    settled: bool,
) -> bool {
    &&& call_ensures(ownership_of::<R>, (&item.0, &item.1), ownership)
    &&& ownership == SettlementOwnership::Ours ==> call_ensures(settle_one::<R>, (&item.0, &item.1), settled)
}

/// Obligation `j` of `s` got disposition `d[j]` from what its own registry
/// answered.
pub open spec fn decided_at<R: PrivateRouteRegistry>(s: Seq<(R, PrivateOperation)>, d: Seq<SweepDisposition>, j: int) -> bool {
    exists|ownership: SettlementOwnership, settled: bool|
        #[trigger] sweep_answers(s[j], ownership, settled) && d[j] == disposition_spec(ownership, settled)
}

/// Every obligation of `s` got disposition `d` from what its own registry
/// answered: nothing is counted answered unless its one effect was accepted.
pub open spec fn sweep_decided<R: PrivateRouteRegistry>(s: Seq<(R, PrivateOperation)>, d: Seq<SweepDisposition>) -> bool {
    &&& d.len() == s.len()
    &&& forall|j: int| 0 <= j < s.len() ==> #[trigger] decided_at(s, d, j)
}

/// What a sweep of `in_flight` leaves, given the disposition of each item.
pub open spec fn swept<R>(
    pre: SettlementView<R>,
    post: SettlementView<R>,
    answered: nat,
    d: Seq<SweepDisposition>,
) -> bool {
    &&& d.len() == pre.in_flight.len()
    &&& post.in_flight.len() == 0
    &&& !post.settling
    &&& post.held == pre.held + disposed(pre.in_flight, d, SweepDisposition::Kept)
    &&& post.outstanding == pre.outstanding + handed_on(
        disposed(pre.in_flight, d, SweepDisposition::HandedOn),
    )
    &&& answered == disposed(pre.in_flight, d, SweepDisposition::Answered).len()
    &&& post.reserved == sat_sub(pre.reserved, answered)
    &&& post.readable == pre.readable
    &&& post.outstanding_in_flight == pre.outstanding_in_flight
    &&& post.failed_in_flight == pre.failed_in_flight
    &&& post.indeterminate == pre.indeterminate
    &&& post.failed == pre.failed
    &&& post.failed_capacity == pre.failed_capacity
    &&& post.failure_slots == pre.failure_slots
    &&& post.capacity == pre.capacity
    &&& post.continuations == pre.continuations
}

/// Every item of `s` is disposed of exactly once.
pub proof fn lemma_disposed_partition<T>(s: Seq<T>, d: Seq<SweepDisposition>)
    requires
        d.len() == s.len(),
    ensures
        disposed(s, d, SweepDisposition::Kept).len() + disposed(s, d, SweepDisposition::HandedOn).len()
            + disposed(s, d, SweepDisposition::Answered).len() == s.len(),
        disposed(s, d, SweepDisposition::Kept).to_multiset().add(
            disposed(s, d, SweepDisposition::HandedOn).to_multiset(),
        ).add(disposed(s, d, SweepDisposition::Answered).to_multiset()) =~= s.to_multiset(),
    decreases s.len(),
{
    broadcast use vstd::seq_lib::group_to_multiset_ensures;

    if s.len() > 0 {
        lemma_disposed_partition(s.skip(1), d.skip(1));
        assert(s =~= seq![s[0]] + s.skip(1));
        vstd::seq_lib::lemma_multiset_commutative(seq![s[0]], s.skip(1));
        assert(seq![s[0]].to_multiset() =~= Multiset::singleton(s[0])) by {
            assert(seq![s[0]] =~= Seq::<T>::empty().push(s[0]));
        }
    }
}

/// How the dispositions of a sweep grow when it reaches one more item from
/// the end.
pub proof fn lemma_disposed_step<T>(s: Seq<T>, k: int, d: Seq<SweepDisposition>, x: SweepDisposition)
    requires
        0 < k <= s.len(),
        d.len() == s.len() - k,
    ensures
        forall|which: SweepDisposition|
            #[trigger] disposed(s.skip(k - 1), seq![x].add(d), which) == if x == which {
                disposed(s.skip(k), d, which).push(s[k - 1])
            } else {
                disposed(s.skip(k), d, which)
            },
{
    let s2 = s.skip(k - 1);
    let d2 = seq![x].add(d);
    assert(s2.skip(1) =~= s.skip(k));
    assert(d2.skip(1) =~= d);
    assert(s2[0] == s[k - 1]);
    assert(d2[0] == x);
    assert forall|which: SweepDisposition|
        #[trigger] disposed(s2, d2, which) == if x == which {
            disposed(s.skip(k), d, which).push(s[k - 1])
        } else {
            disposed(s.skip(k), d, which)
        } by {
        assert(disposed(s2, d2, which) == {
            let rest = disposed(s2.skip(1), d2.skip(1), which);
            if d2[0] == which {
                rest.push(s2[0])
            } else {
                rest
            }
        });
    }
}

proof fn lemma_handed_on_push<R>(s: Seq<(R, PrivateOperation)>, p: (R, PrivateOperation))
    ensures
        handed_on(s.push(p)) == handed_on(s).push((p.0, identity_spec(p.1))),
{
    assert(handed_on(s.push(p)) =~= handed_on(s).push((p.0, identity_spec(p.1))));
}

impl<R: PrivateRouteRegistry, P> PrivateSettlementOwner<R, P> {
    /// Settle everything in flight, returning how many were answered.
    ///
    /// Works from the end. The obligation stays in the in-flight list for the
    /// whole attempt and is removed once the attempt has said what happened.
    fn sweep_in_flight(&mut self) -> (r: (usize, Ghost<Seq<SweepDisposition>>))
        requires
            !old(self)@.settling,
        ensures
            swept(old(self)@, final(self)@, r.0 as nat, r.1@),
            sweep_decided(old(self)@.in_flight, r.1@),
    {
        let ghost pre = self@;
        let n0 = self.in_flight.len();
        let ghost n = n0 as nat;
        let ghost mut d: Seq<SweepDisposition> = Seq::empty();
        let mut answered: usize = 0;
        proof {
            assert(pre.in_flight.skip(n as int) =~= Seq::<(R, PrivateOperation)>::empty());
            assert(pre.in_flight.take(n as int) =~= pre.in_flight);
            assert(self.held@ =~= pre.held + Seq::empty());
            assert(self.outstanding@ =~= pre.outstanding + handed_on(Seq::empty()));
        }
        while self.in_flight.len() > 0
            invariant
                self.in_flight@ == pre.in_flight.take(self.in_flight@.len() as int),
                self.in_flight@.len() <= n,
                n == pre.in_flight.len(),
                n <= usize::MAX,
                d.len() == n - self.in_flight@.len(),
                !self.settling,
                self.held@ == pre.held + disposed(
                    pre.in_flight.skip(self.in_flight@.len() as int),
                    d,
                    SweepDisposition::Kept,
                ),
                self.outstanding@ == pre.outstanding + handed_on(
                    disposed(
                        pre.in_flight.skip(self.in_flight@.len() as int),
                        d,
                        SweepDisposition::HandedOn,
                    ),
                ),
                answered as nat == disposed(
                    pre.in_flight.skip(self.in_flight@.len() as int),
                    d,
                    SweepDisposition::Answered,
                ).len(),
                answered <= n - self.in_flight@.len(),
                self.reserved as nat == sat_sub(pre.reserved, answered as nat),
                self.poisoned == !pre.readable,
                self.outstanding_in_flight@ == pre.outstanding_in_flight,
                self.failed_in_flight@ == pre.failed_in_flight,
                self.indeterminate@ == pre.indeterminate,
                self.failed@ == pre.failed,
                self.failed_capacity as nat == pre.failed_capacity,
                self.failure_slots as nat == pre.failure_slots,
                self.capacity as nat == pre.capacity,
                self.continuations@ == pre.continuations,
                sweep_decided(pre.in_flight.skip(self.in_flight@.len() as int), d),
            decreases self.in_flight.len(),
        {
            let k = self.in_flight.len();
            let ghost rest = d;
            proof {
                lemma_disposed_partition(pre.in_flight.skip(k as int), d);
                assert(pre.in_flight.take(k as int)[k - 1] == pre.in_flight[k - 1]);
            }
            let ask_ownership = ownership_of::<R>;
            let ownership = ask_ownership(&self.in_flight[k - 1].0, &self.in_flight[k - 1].1);
            let mut settled = false;
            match ownership {
                SettlementOwnership::Ours => {
                    self.settling = true;
                    let attempt = settle_one::<R>;
                    settled = attempt(&self.in_flight[k - 1].0, &self.in_flight[k - 1].1);
                    self.settling = false;
                },
                _ => {},
            }
            let disposition = sweep_disposition(ownership, settled);
            let ghost item = pre.in_flight[k - 1];
            assert(sweep_answers(item, ownership, settled));
            match disposition {
                SweepDisposition::HandedOn => {
                    let (origin, operation) = self.in_flight.pop().unwrap();
                    let identity = PrivateIdentity::of(&operation);
                    self.outstanding.push((origin, identity));
                    proof {
                        d = seq![SweepDisposition::HandedOn].add(rest);
                        lemma_disposed_step(pre.in_flight, k as int, rest, SweepDisposition::HandedOn);
                        lemma_handed_on_push(
                            disposed(pre.in_flight.skip(k as int), rest, SweepDisposition::HandedOn),
                            pre.in_flight[k - 1],
                        );
                    }
                },
                SweepDisposition::Kept => {
                    let carried = self.in_flight.pop().unwrap();
                    self.held.push(carried);
                    proof {
                        d = seq![SweepDisposition::Kept].add(rest);
                        lemma_disposed_step(pre.in_flight, k as int, rest, SweepDisposition::Kept);
                    }
                },
                SweepDisposition::Answered => {
                    let _answered_one = self.in_flight.pop().unwrap();
                    self.reserved = self.reserved.saturating_sub(1);
                    answered = answered + 1;
                    proof {
                        d = seq![SweepDisposition::Answered].add(rest);
                        lemma_disposed_step(pre.in_flight, k as int, rest, SweepDisposition::Answered);
                    }
                },
            }
            proof {
                assert(self.in_flight@ =~= pre.in_flight.take(k - 1));
                assert(d[0] == disposition);
                let done = pre.in_flight.skip(k - 1);
                assert(done.skip(1) =~= pre.in_flight.skip(k as int));
                assert forall|j: int| 0 <= j < done.len() implies #[trigger] decided_at(done, d, j) by {
                    if j == 0 {
                        assert(done[0] == item);
                        assert(sweep_answers(done[j], ownership, settled));
                    } else {
                        assert(d[j] == rest[j - 1]);
                        assert(done[j] == pre.in_flight.skip(k as int)[j - 1]);
                        assert(decided_at(pre.in_flight.skip(k as int), rest, j - 1));
                        let (o, t) = choose|o: SettlementOwnership, t: bool|
                            #[trigger] sweep_answers(pre.in_flight.skip(k as int)[j - 1], o, t) && rest[j - 1]
                                == disposition_spec(o, t);
                        assert(sweep_answers(done[j], o, t));
                    }
                }
            }
        }
        proof {
            assert(pre.in_flight.skip(0) =~= pre.in_flight);
            assert(sweep_decided(pre.in_flight, d));
        }
        (answered, Ghost(d))
    }
}


/// How many abandoned obligations one owner keeps by default.
pub const PRIVATE_ABANDONED_CAPACITY: usize = 64;

/// The instances of `s` that still stand over an uncollected worker.
pub open spec fn standing_instances<R>(s: Seq<FailedInstance<R>>) -> Seq<FailedInstance<R>> {
    s.filter(|i: FailedInstance<R>| i.uncollected@.len() > 0)
}

/// The instances of `s` that recovery may drain.
pub open spec fn recoverable_instances<R>(s: Seq<FailedInstance<R>>) -> Seq<FailedInstance<R>> {
    s.filter(|i: FailedInstance<R>| i.uncollected@.len() == 0)
}

/// How many of `s` still hold their failure slot.
pub open spec fn slots_held<R>(s: Seq<FailedInstance<R>>) -> nat
    decreases s.len(),
{
    if s.len() == 0 {
        0
    } else {
        slots_held(s.drop_last()) + if s.last().slot == FailureSlot::Held {
            1nat
        } else {
            0nat
        }
    }
}

/// How many operations the queues of `s` still hold.
pub open spec fn queued_work<R>(s: Seq<FailedInstance<R>>) -> nat
    decreases s.len(),
{
    if s.len() == 0 {
        0
    } else {
        queued_work(s.drop_last()) + s.last().queue@.len()
    }
}

/// What `restore_interrupted` does: return what interrupted sweeps left part
/// way, parking the one whose attempt may already have emitted.
pub open spec fn restored<R>(pre: SettlementView<R>, post: SettlementView<R>, returned: nat) -> bool {
    let parked = pre.settling && pre.in_flight.len() > 0;
    let back = if parked {
        pre.in_flight.drop_last()
    } else {
        pre.in_flight
    };
    &&& returned == pre.in_flight.len() + pre.outstanding_in_flight.len()
        + pre.failed_in_flight.len()
    &&& post.indeterminate == if parked {
        pre.indeterminate.push(pre.in_flight.last())
    } else {
        pre.indeterminate
    }
    &&& !post.settling
    &&& post.held == pre.held + back
    &&& post.in_flight.len() == 0
    &&& post.outstanding == pre.outstanding + pre.outstanding_in_flight
    &&& post.outstanding_in_flight.len() == 0
    &&& post.failed == pre.failed + pre.failed_in_flight
    &&& post.failed_in_flight.len() == 0
    &&& post.readable == pre.readable
    &&& post.reserved == pre.reserved
    &&& post.capacity == pre.capacity
    &&& post.continuations == pre.continuations
    &&& post.failure_slots == pre.failure_slots
    &&& post.failed_capacity == pre.failed_capacity
}

/// The views of an owner before and after a change that touches only its
/// credit count.
pub open spec fn only_credits_changed<R>(pre: SettlementView<R>, post: SettlementView<R>) -> bool {
    &&& post == SettlementView { reserved: post.reserved, ..pre }
}

/// The views of an owner before and after a change that touches only its
/// failure slot count.
pub open spec fn only_slots_changed<R>(pre: SettlementView<R>, post: SettlementView<R>) -> bool {
    &&& post == SettlementView { failure_slots: post.failure_slots, ..pre }
}

impl<R, P> PrivateSettlementOwner<R, P> {
    /// The records are consistent between calls: no sweep is inside an
    /// attempt.
    pub closed spec fn wf(&self) -> bool {
        &&& !self.settling
        &&& self.continuations.wf()
        &&& self.in_flight@.len() == 0
        &&& self.outstanding_in_flight@.len() == 0
        &&& self.failed_in_flight@.len() == 0
    }

    /// Between calls nothing is part-way: no attempt is open and nothing is
    /// in flight.
    pub proof fn lemma_wf(&self)
        ensures
            self.wf() <==> (!self@.settling && places_wf(self@.continuations) && self@.in_flight.len() == 0
                && self@.outstanding_in_flight.len() == 0 && self@.failed_in_flight.len() == 0),
    {
    }

    /// An owner for `capacity` abandoned obligations and as many failed
    /// instances, holding nothing.
    pub fn with_capacity(capacity: usize) -> (r: Self)
        ensures
            r.wf(),
            r@.readable,
            r@.held.len() == 0,
            r@.in_flight.len() == 0,
            r@.outstanding_in_flight.len() == 0,
            r@.failed_in_flight.len() == 0,
            !r@.settling,
            r@.indeterminate.len() == 0,
            r@.outstanding.len() == 0,
            r@.failed.len() == 0,
            r@.failed_capacity == capacity,
            r@.failure_slots == 0,
            r@.reserved == 0,
            r@.capacity == capacity,
            r@.continuations == (PlacesView {
                places: Seq::empty(),
                slots: 0,
                bound_declared: false,
                capacity: 0,
                cursor: 0,
                abandoned: 0,
                next_record: 0,
            }),
    {
        PrivateSettlementOwner {
            poisoned: false,
            continuations: PrivateContinuationPlaces::new(),
            held: Vec::with_capacity(capacity),
            in_flight: Vec::with_capacity(capacity),
            outstanding_in_flight: Vec::with_capacity(capacity),
            failed_in_flight: Vec::with_capacity(capacity),
            settling: false,
            indeterminate: Vec::with_capacity(capacity),
            outstanding: Vec::with_capacity(capacity),
            failed: Vec::with_capacity(capacity),
            failed_capacity: capacity,
            failure_slots: 0,
            reserved: 0,
            capacity,
        }
    }

    /// Record that a holder panicked while holding these records.
    ///
    /// What a poisoned lock leaves: the data is intact, and every read that
    /// asks for a clean reading answers that it could not be read.
    pub fn mark_poisoned(&mut self)
        ensures
            final(self)@ == (SettlementView { readable: false, ..old(self)@ }),
            old(self).wf() ==> final(self).wf(),
    {
        self.poisoned = true;
    }

    /// How many operations are waiting for someone to drive them.
    ///
    /// `None` where the owner cannot be read: nothing owed and nothing
    /// knowable are different answers.
    pub fn owed(&self) -> (r: Option<usize>)
        ensures
            r == if self@.readable {
                Some(self@.held.len() as usize)
            } else {
                None::<usize>
            },
    {
        if self.poisoned {
            None
        } else {
            Some(self.held.len())
        }
    }

    /// How many abandoned operations are still waiting on a terminal outcome.
    pub fn outstanding(&self) -> (r: Option<usize>)
        ensures
            r == if self@.readable {
                Some(self@.outstanding.len() as usize)
            } else {
                None::<usize>
            },
    {
        if self.poisoned {
            None
        } else {
            Some(self.outstanding.len())
        }
    }

    /// Obligations whose settlement was interrupted while it was emitting.
    pub fn indeterminate(&self) -> (r: Option<usize>)
        ensures
            r == if self@.readable {
                Some(self@.indeterminate.len() as usize)
            } else {
                None::<usize>
            },
    {
        if self.poisoned {
            None
        } else {
            Some(self.indeterminate.len())
        }
    }

    /// How many credits are outstanding, across every instance sharing this.
    pub fn reserved(&self) -> (r: Option<usize>)
        ensures
            r == if self@.readable {
                Some(self@.reserved as usize)
            } else {
                None::<usize>
            },
    {
        if self.poisoned {
            None
        } else {
            Some(self.reserved)
        }
    }

    /// How many instances closed holding a queue nobody could read.
    pub fn failed_instances(&self) -> (r: Option<usize>)
        ensures
            r == if self@.readable {
                Some(self@.failed.len() as usize)
            } else {
                None::<usize>
            },
    {
        if self.poisoned {
            None
        } else {
            Some(self.failed.len())
        }
    }

    /// How many instance failure slots are charged, live and retained
    /// together.
    pub fn failure_slots_charged(&self) -> (r: Option<usize>)
        ensures
            r == if self@.readable {
                Some(self@.failure_slots as usize)
            } else {
                None::<usize>
            },
    {
        if self.poisoned {
            None
        } else {
            Some(self.failure_slots)
        }
    }

    /// Take a credit for work about to be accepted, if one is free.
    ///
    /// An unreadable owner and a full one are different answers.
    pub fn reserve(&mut self) -> (r: Result<(), AdmissionRefusal>)
        ensures
            r == if !old(self)@.readable {
                Err::<(), AdmissionRefusal>(AdmissionRefusal::Unavailable)
            } else if old(self)@.reserved >= old(self)@.capacity {
                Err(AdmissionRefusal::Saturated)
            } else {
                Ok(())
            },
            only_credits_changed(old(self)@, final(self)@),
            final(self)@.reserved == if r is Ok {
                old(self)@.reserved + 1
            } else {
                old(self)@.reserved
            },
            old(self).wf() ==> final(self).wf(),
    {
        if self.poisoned {
            return Err(AdmissionRefusal::Unavailable);
        }
        if self.reserved >= self.capacity {
            return Err(AdmissionRefusal::Saturated);
        }
        self.reserved = self.reserved + 1;
        Ok(())
    }

    /// Release a credit whose work has been answered.
    ///
    /// Cannot decline, poisoned or not: a release that does not happen is
    /// capacity lost for as long as this owner lives.
    pub fn release(&mut self)
        ensures
            only_credits_changed(old(self)@, final(self)@),
            final(self)@.reserved == sat_sub(old(self)@.reserved, 1),
            old(self).wf() ==> final(self).wf(),
    {
        self.reserved = self.reserved.saturating_sub(1);
    }

    /// Take a failure slot for an instance about to be exposed.
    pub fn reserve_failure_slot(&mut self) -> (r: Result<(), AdmissionRefusal>)
        ensures
            r == if !old(self)@.readable {
                Err::<(), AdmissionRefusal>(AdmissionRefusal::Unavailable)
            } else if old(self)@.failure_slots >= old(self)@.failed_capacity {
                Err(AdmissionRefusal::Saturated)
            } else {
                Ok(())
            },
            only_slots_changed(old(self)@, final(self)@),
            final(self)@.failure_slots == if r is Ok {
                old(self)@.failure_slots + 1
            } else {
                old(self)@.failure_slots
            },
            old(self).wf() ==> final(self).wf(),
    {
        if self.poisoned {
            return Err(AdmissionRefusal::Unavailable);
        }
        if self.failure_slots >= self.failed_capacity {
            return Err(AdmissionRefusal::Saturated);
        }
        self.failure_slots = self.failure_slots + 1;
        Ok(())
    }

    /// Release a failure slot whose instance closed without failing.
    pub fn release_failure_slot(&mut self)
        ensures
            only_slots_changed(old(self)@, final(self)@),
            final(self)@.failure_slots == sat_sub(old(self)@.failure_slots, 1),
            old(self).wf() ==> final(self).wf(),
    {
        self.failure_slots = self.failure_slots.saturating_sub(1);
    }

    /// Take one abandoned obligation. Cannot refuse: its credit was taken
    /// before it was accepted.
    pub fn take_one(&mut self, origin: R, operation: PrivateOperation)
        ensures
            final(self)@ == (SettlementView {
                held: old(self)@.held.push((origin, operation)),
                ..old(self)@
            }),
            old(self).wf() ==> final(self).wf(),
    {
        self.held.push((origin, operation));
    }

    /// Take the identity of routed work still waiting on a terminal outcome.
    pub fn take_one_outstanding(&mut self, origin: R, identity: PrivateIdentity)
        ensures
            final(self)@ == (SettlementView {
                outstanding: old(self)@.outstanding.push((origin, identity)),
                ..old(self)@
            }),
            old(self).wf() ==> final(self).wf(),
    {
        self.outstanding.push((origin, identity));
    }

    /// Take an obligation whose settlement was interrupted while emitting.
    /// Kept with its credit, and never driven again.
    pub fn take_indeterminate(&mut self, origin: R, operation: PrivateOperation)
        ensures
            final(self)@ == (SettlementView {
                indeterminate: old(self)@.indeterminate.push((origin, operation)),
                ..old(self)@
            }),
            old(self).wf() ==> final(self).wf(),
    {
        self.indeterminate.push((origin, operation));
    }

    /// Take an instance whose queue could not be read. No capacity check: its
    /// slot was reserved before it was exposed.
    pub fn take_failed_instance(
        &mut self,
        origin: R,
        queue: Vec<PrivateOperation>,
        uncollected: Vec<usize>,
    )
        ensures
            final(self)@ == (SettlementView {
                failed: old(self)@.failed.push(
                    FailedInstance { origin, queue, uncollected, slot: FailureSlot::Held },
                ),
                ..old(self)@
            }),
            old(self).wf() ==> final(self).wf(),
    {
        self.failed.push(FailedInstance { origin, queue, uncollected, slot: FailureSlot::Held });
    }

    /// Return whatever an interrupted sweep left part-way through.
    ///
    /// Answers nothing. The one obligation whose attempt may already have
    /// emitted is parked as indeterminate, keeping its credit. Doing it twice
    /// returns nothing the second time.
    pub fn restore_interrupted(&mut self) -> (returned: usize)
        requires
            places_wf(old(self)@.continuations),
            old(self)@.in_flight.len() + old(self)@.outstanding_in_flight.len()
                + old(self)@.failed_in_flight.len() <= usize::MAX,
        ensures
            restored(old(self)@, final(self)@, returned as nat),
            final(self).wf(),
    {
        let returned = self.in_flight.len() + self.outstanding_in_flight.len()
            + self.failed_in_flight.len();
        let ghost pre = self@;
        if self.settling {
            if self.in_flight.len() > 0 {
                let unproved = self.in_flight.pop().unwrap();
                self.indeterminate.push(unproved);
            }
            self.settling = false;
        }
        self.held.append(&mut self.in_flight);
        self.outstanding.append(&mut self.outstanding_in_flight);
        self.failed.append(&mut self.failed_in_flight);
        returned
    }
}


/// What the credit-reclaiming half of a drive does with carried routed work:
/// each identity whose work ended releases its credit; the rest stay.
pub open spec fn reclaimed_step<R>(
    pre: SettlementView<R>,
    post: SettlementView<R>,
    reclaimed: nat,
    e: Seq<SweepDisposition>,
) -> bool {
    let carried = pre.outstanding_in_flight + pre.outstanding;
    &&& e.len() == carried.len()
    &&& disposed(carried, e, SweepDisposition::HandedOn).len() == 0
    &&& post.outstanding == disposed(carried, e, SweepDisposition::Kept)
    &&& reclaimed == disposed(carried, e, SweepDisposition::Answered).len()
    &&& post.outstanding_in_flight.len() == 0
    &&& post.reserved == sat_sub(pre.reserved, reclaimed)
    &&& post == SettlementView {
        outstanding: post.outstanding,
        outstanding_in_flight: post.outstanding_in_flight,
        reserved: post.reserved,
        ..pre
    }
}

/// What reclaiming does with one carried identity, from whether its work
/// ended: its credit goes back only then.
pub open spec fn reclaim_spec(ended: bool) -> SweepDisposition {
    if ended {
        SweepDisposition::Answered
    } else {
        SweepDisposition::Kept
    }
}

/// Carried identity `j` of `s` got disposition `e[j]` from what
/// `carried_work_ended` answered for it.
pub open spec fn reclaimed_at<R: PrivateRouteRegistry>(s: Seq<(R, PrivateIdentity)>, e: Seq<SweepDisposition>, j: int) -> bool {
    exists|ended: bool| #[trigger] call_ensures(carried_work_ended::<R>, (&s[j].0, &s[j].1), ended) && e[j] == reclaim_spec(ended)
}

/// Every carried identity of `s` got disposition `e` from its own registry's
/// answer.
pub open spec fn reclaim_decided<R: PrivateRouteRegistry>(s: Seq<(R, PrivateIdentity)>, e: Seq<SweepDisposition>) -> bool {
    &&& e.len() == s.len()
    &&& forall|j: int| 0 <= j < s.len() ==> #[trigger] reclaimed_at(s, e, j)
}

/// What one drive of a readable owner does: every held obligation is swept
/// (answered, kept, or handed on as an identity), then every carried identity
/// whose work ended gives its credit back.
pub open spec fn drove<R>(
    pre: SettlementView<R>,
    post: SettlementView<R>,
    answered: nat,
    reclaimed: nat,
    d: Seq<SweepDisposition>,
    e: Seq<SweepDisposition>,
) -> bool {
    let gathered = SettlementView { in_flight: pre.in_flight + pre.held, held: Seq::empty(), ..pre };
    let mid = SettlementView {
        in_flight: Seq::empty(),
        held: disposed(gathered.in_flight, d, SweepDisposition::Kept),
        outstanding: pre.outstanding + handed_on(
            disposed(gathered.in_flight, d, SweepDisposition::HandedOn),
        ),
        reserved: sat_sub(pre.reserved, answered),
        ..gathered
    };
    &&& swept(gathered, mid, answered, d)
    &&& reclaimed_step(mid, post, reclaimed, e)
}

/// Each disposition of a drive came from the registries' own answers: the
/// sweep's from `ownership_of` and `settle_one` on every gathered
/// obligation, the reclaim's from `carried_work_ended` on every carried
/// identity, those the sweep handed on included.
pub open spec fn drive_decided<R: PrivateRouteRegistry>(
    pre: SettlementView<R>,
    d: Seq<SweepDisposition>,
    e: Seq<SweepDisposition>,
) -> bool {
    let gathered = pre.in_flight + pre.held;
    &&& sweep_decided(gathered, d)
    &&& reclaim_decided(
        pre.outstanding_in_flight + (pre.outstanding + handed_on(
            disposed(gathered, d, SweepDisposition::HandedOn),
        )),
        e,
    )
}

impl<R: PrivateRouteRegistry, P> PrivateSettlementOwner<R, P> {
    /// Release the credits of carried routed work that has since ended.
    ///
    /// Emits nothing. Each identity is asked of the registry that issued it;
    /// ended releases, live and unreadable do not.
    fn reclaim_outstanding(&mut self) -> (r: (usize, Ghost<Seq<SweepDisposition>>))
        requires
            !old(self)@.settling,
        ensures
            reclaimed_step(old(self)@, final(self)@, r.0 as nat, r.1@),
            reclaim_decided(old(self)@.outstanding_in_flight + old(self)@.outstanding, r.1@),
    {
        let ghost pre = self@;
        let mut i: usize = 0;
        while i < self.outstanding.len()
            invariant
                self@ == pre,
            decreases self.outstanding.len() - i,
        {
            self.outstanding[i].0.reconcile_unstarted();
            i = i + 1;
        }
        self.outstanding_in_flight.append(&mut self.outstanding);
        let ghost carried = pre.outstanding_in_flight + pre.outstanding;
        let n0 = self.outstanding_in_flight.len();
        let ghost n = n0 as nat;
        let ghost mut e: Seq<SweepDisposition> = Seq::empty();
        let mut reclaimed: usize = 0;
        proof {
            assert(carried.skip(n as int) =~= Seq::<(R, PrivateIdentity)>::empty());
            assert(carried.take(n as int) =~= carried);
            assert(self.outstanding@ =~= Seq::<(R, PrivateIdentity)>::empty());
        }
        while self.outstanding_in_flight.len() > 0
            invariant
                self.outstanding_in_flight@ == carried.take(
                    self.outstanding_in_flight@.len() as int,
                ),
                self.outstanding_in_flight@.len() <= n,
                n == carried.len(),
                n <= usize::MAX,
                e.len() == n - self.outstanding_in_flight@.len(),
                disposed(
                    carried.skip(self.outstanding_in_flight@.len() as int),
                    e,
                    SweepDisposition::HandedOn,
                ).len() == 0,
                self.outstanding@ == disposed(
                    carried.skip(self.outstanding_in_flight@.len() as int),
                    e,
                    SweepDisposition::Kept,
                ),
                reclaimed as nat == disposed(
                    carried.skip(self.outstanding_in_flight@.len() as int),
                    e,
                    SweepDisposition::Answered,
                ).len(),
                reclaimed <= n - self.outstanding_in_flight@.len(),
                self.reserved as nat == sat_sub(pre.reserved, reclaimed as nat),
                self@ == (SettlementView {
                    outstanding: self@.outstanding,
                    outstanding_in_flight: self@.outstanding_in_flight,
                    reserved: self@.reserved,
                    ..pre
                }),
                reclaim_decided(carried.skip(self.outstanding_in_flight@.len() as int), e),
            decreases self.outstanding_in_flight.len(),
        {
            let k = self.outstanding_in_flight.len();
            let ghost rest = e;
            proof {
                lemma_disposed_partition(carried.skip(k as int), e);
                assert(carried.take(k as int)[k - 1] == carried[k - 1]);
            }
            let ask_ended = carried_work_ended::<R>;
            let ended = ask_ended(&self.outstanding_in_flight[k - 1].0, &self.outstanding_in_flight[k - 1].1);
            let ghost item = carried[k - 1];
            let carried_one = self.outstanding_in_flight.pop().unwrap();
            if ended {
                self.reserved = self.reserved.saturating_sub(1);
                reclaimed = reclaimed + 1;
                proof {
                    e = seq![SweepDisposition::Answered].add(rest);
                    lemma_disposed_step(carried, k as int, rest, SweepDisposition::Answered);
                }
            } else {
                self.outstanding.push(carried_one);
                proof {
                    e = seq![SweepDisposition::Kept].add(rest);
                    lemma_disposed_step(carried, k as int, rest, SweepDisposition::Kept);
                }
            }
            proof {
                assert(self.outstanding_in_flight@ =~= carried.take(k - 1));
                let done = carried.skip(k - 1);
                assert(done.skip(1) =~= carried.skip(k as int));
                assert forall|j: int| 0 <= j < done.len() implies #[trigger] reclaimed_at(done, e, j) by {
                    if j == 0 {
                        assert(done[0] == item);
                        assert(call_ensures(carried_work_ended::<R>, (&done[j].0, &done[j].1), ended));
                    } else {
                        assert(e[j] == rest[j - 1]);
                        assert(done[j] == carried.skip(k as int)[j - 1]);
                        assert(reclaimed_at(carried.skip(k as int), rest, j - 1));
                    }
                }
            }
        }
        proof {
            assert(carried.skip(0) =~= carried);
        }
        (reclaimed, Ghost(e))
    }

    /// Try to discharge everything waiting.
    ///
    /// Each obligation is retried against the registry that accepted it. What
    /// still cannot be answered stays here. Answered and reclaimed are counted
    /// apart, and a drive that could not read the owner says so rather than
    /// reporting that it achieved nothing.
    pub fn drive(&mut self) -> (r: DriveProgress)
        requires
            old(self).wf(),
        ensures
            final(self).wf(),
            !old(self)@.readable ==> (r == (DriveProgress {
                readable: false,
                answered: 0,
                reclaimed: 0,
            }) && final(self)@ == old(self)@),
            old(self)@.readable ==> (r.readable && (exists|
                d: Seq<SweepDisposition>,
                e: Seq<SweepDisposition>,
            | drove(old(self)@, final(self)@, r.answered as nat, r.reclaimed as nat, d, e) && drive_decided(
                old(self)@,
                d,
                e,
            ))),
    {
        if self.poisoned {
            return DriveProgress { readable: false, answered: 0, reclaimed: 0 };
        }
        let ghost pre = self@;
        self.in_flight.append(&mut self.held);
        let ghost gathered = self@;
        proof {
            assert(gathered == (SettlementView {
                in_flight: pre.in_flight + pre.held,
                held: Seq::empty(),
                ..pre
            }));
        }
        let (answered, d) = self.sweep_in_flight();
        let ghost mid = self@;
        proof {
            assert(mid.in_flight =~= Seq::<(R, PrivateOperation)>::empty());
            assert(mid == (SettlementView {
                in_flight: Seq::empty(),
                held: disposed(gathered.in_flight, d@, SweepDisposition::Kept),
                outstanding: pre.outstanding + handed_on(
                    disposed(gathered.in_flight, d@, SweepDisposition::HandedOn),
                ),
                reserved: sat_sub(pre.reserved, answered as nat),
                ..gathered
            }));
        }
        let (reclaimed, e) = self.reclaim_outstanding();
        proof {
            assert(drove(pre, self@, answered as nat, reclaimed as nat, d@, e@));
            assert(self@.outstanding_in_flight =~= Seq::<(R, PrivateIdentity)>::empty());
        }
        let r = DriveProgress { readable: true, answered, reclaimed };
        proof {
            assert(drove(pre, self@, r.answered as nat, r.reclaimed as nat, d@, e@));
            assert(drive_decided(pre, d@, e@));
        }
        r
    }
}


/// What recovering failed instances does: instances standing over an
/// uncollected worker stay; every other instance's queue is drained and swept
/// against the registry that accepted it, and its slot, if it still held one,
/// is given back once.
pub open spec fn recovered_from<R>(pre: SettlementView<R>, post: SettlementView<R>, recovered: nat) -> bool {
    let rec = recoverable_instances(pre.failed);
    &&& post.failed == standing_instances(pre.failed)
    &&& post.failure_slots == sat_sub(pre.failure_slots, slots_held(rec))
    &&& post.held.len() >= pre.held.len()
    &&& post.held.subrange(0, pre.held.len() as int) == pre.held
    &&& post.outstanding.len() >= pre.outstanding.len()
    &&& post.outstanding.subrange(0, pre.outstanding.len() as int) == pre.outstanding
    &&& post.held.len() - pre.held.len() + post.outstanding.len() - pre.outstanding.len() + recovered
        == queued_work(rec)
    &&& post.reserved == sat_sub(pre.reserved, recovered)
    &&& post.readable == pre.readable
    &&& !post.settling
    &&& post.in_flight.len() == 0
    &&& post.outstanding_in_flight == pre.outstanding_in_flight
    &&& post.failed_in_flight.len() == 0
    &&& post.indeterminate == pre.indeterminate
    &&& post.capacity == pre.capacity
    &&& post.continuations == pre.continuations
    &&& post.failed_capacity == pre.failed_capacity
}

proof fn lemma_take_last<T>(s: Seq<T>, k: int)
    requires
        0 < k <= s.len(),
    ensures
        s.take(k).drop_last() == s.take(k - 1),
        s.take(k).last() == s[k - 1],
        s.take(k).len() == k,
{
    assert(s.take(k).drop_last() =~= s.take(k - 1));
}

impl<R: PrivateRouteRegistry + Clone, P> PrivateSettlementOwner<R, P> {
    /// Recover what failed instances' queues still hold, and answer it.
    ///
    /// An instance retained over an uncollected worker stands: nothing is
    /// drained from it and its charge is not released. Every other instance is
    /// drained into this owner's own in-flight list, swept against its origin,
    /// and its failure slot is released once -- only if its record still holds
    /// it. `None` where the owner cannot be read.
    pub fn recover_failed(&mut self) -> (r: Option<usize>)
        requires
            old(self).wf(),
            queued_work(recoverable_instances(old(self)@.failed)) <= usize::MAX,
        ensures
            final(self).wf(),
            !old(self)@.readable ==> r is None && final(self)@ == old(self)@,
            old(self)@.readable ==> r is Some && recovered_from(
                old(self)@,
                final(self)@,
                r.unwrap() as nat,
            ),
    {
        if self.poisoned {
            return None;
        }
        let ghost pre = self@;
        let ghost orig = pre.failed;
        let ghost rec = recoverable_instances(orig);
        let mut all: Vec<FailedInstance<R>> = Vec::new();
        std::mem::swap(&mut all, &mut self.failed);
        let ghost mut i: int = 0;
        proof {
            assert(orig.take(0) =~= Seq::<FailedInstance<R>>::empty());
            assert(orig.skip(0) =~= orig);
            assert(standing_instances(Seq::<FailedInstance<R>>::empty()) =~= Seq::empty());
            assert(recoverable_instances(Seq::<FailedInstance<R>>::empty()) =~= Seq::empty());
        }
        while all.len() > 0
            invariant
                0 <= i <= orig.len(),
                all@ == orig.skip(i),
                self.failed@ == standing_instances(orig.take(i)),
                self.failed_in_flight@ == recoverable_instances(orig.take(i)),
                self@ == (SettlementView {
                    failed: self@.failed,
                    failed_in_flight: self@.failed_in_flight,
                    ..pre
                }),
            decreases all.len(),
        {
            let instance = all.remove(0);
            proof {
                assert(instance == orig[i]);
                assert(orig.take(i + 1) =~= orig.take(i).push(orig[i]));
                orig.take(i).lemma_filter_push(orig[i], |x: FailedInstance<R>| x.uncollected@.len() > 0);
                orig.take(i).lemma_filter_push(orig[i], |x: FailedInstance<R>| x.uncollected@.len() == 0);
                assert(orig.skip(i + 1) =~= orig.skip(i).skip(1));
            }
            if instance.uncollected.len() > 0 {
                self.failed.push(instance);
            } else {
                self.failed_in_flight.push(instance);
            }
            proof {
                i = i + 1;
            }
        }
        proof {
            assert(orig.take(i) =~= orig);
        }
        let mut recovered: usize = 0;
        let ghost mut released: nat = 0;
        let ghost mut drained: nat = 0;
        let ghost held0 = pre.held.len();
        let ghost out0 = pre.outstanding.len();
        let ghost after_partition = self@;
        proof {
            assert(self.held@.subrange(0, held0 as int) =~= pre.held);
            assert(self.outstanding@.subrange(0, out0 as int) =~= pre.outstanding);
            assert(rec.take(rec.len() as int) =~= rec);
        }
        while self.failed_in_flight.len() > 0
            invariant
                self.failed_in_flight@ == rec.take(self.failed_in_flight@.len() as int),
                self.failed_in_flight@.len() <= rec.len(),
                rec == recoverable_instances(orig),
                orig == pre.failed,
                self.failed@ == standing_instances(orig),
                released + slots_held(self.failed_in_flight@) == slots_held(rec),
                drained + queued_work(self.failed_in_flight@) == queued_work(rec),
                queued_work(rec) <= usize::MAX,
                recovered <= drained,
                self.failure_slots as nat == sat_sub(pre.failure_slots, released),
                self.held@.len() >= held0,
                self.held@.subrange(0, held0 as int) == pre.held,
                self.outstanding@.len() >= out0,
                self.outstanding@.subrange(0, out0 as int) == pre.outstanding,
                self.held@.len() - held0 + self.outstanding@.len() - out0 + recovered == drained,
                self.reserved as nat == sat_sub(pre.reserved, recovered as nat),
                held0 == pre.held.len(),
                out0 == pre.outstanding.len(),
                !self.poisoned,
                pre.readable,
                !self.settling,
                self.in_flight@.len() == 0,
                self.outstanding_in_flight@ == pre.outstanding_in_flight,
                self.indeterminate@ == pre.indeterminate,
                self.capacity as nat == pre.capacity,
                self.continuations@ == pre.continuations,
                self.failed_capacity as nat == pre.failed_capacity,
            decreases self.failed_in_flight.len(),
        {
            let k = self.failed_in_flight.len();
            proof {
                lemma_take_last(rec, k as int);
                assert(self.failed_in_flight@.drop_last() == rec.take(k - 1));
            }
            let qlen = self.failed_in_flight[k - 1].queue.len();
            let mut j: usize = 0;
            let ghost before_drain = self@;
            while j < qlen
                invariant
                    1 <= k,
                    self@ == (SettlementView { in_flight: self@.in_flight, ..before_drain }),
                    before_drain.in_flight.len() == 0,
                    !self.poisoned,
                    j <= qlen,
                    qlen == self.failed_in_flight@[k - 1].queue@.len(),
                    k == self.failed_in_flight@.len(),
                    self.in_flight@.len() == j,
                    self.failed_in_flight@ == rec.take(k as int),
                decreases qlen - j,
            {
                let operation = self.failed_in_flight[k - 1].queue[j];
                let origin = self.failed_in_flight[k - 1].origin.clone();
                self.in_flight.push((origin, operation));
                j = j + 1;
            }
            let mut instance = self.failed_in_flight.pop().unwrap();
            let releasing = match instance.slot {
                FailureSlot::Held => true,
                FailureSlot::Released => false,
            };
            instance.slot = FailureSlot::Released;
            if releasing {
                self.failure_slots = self.failure_slots.saturating_sub(1);
            }
            proof {
                if releasing {
                    released = released + 1;
                }
                drained = drained + qlen as nat;
            }
            let ghost before_sweep = self@;
            let (answered, d) = self.sweep_in_flight();
            proof {
                lemma_disposed_partition(before_sweep.in_flight, d@);
                let kept = disposed(before_sweep.in_flight, d@, SweepDisposition::Kept);
                let handed = disposed(before_sweep.in_flight, d@, SweepDisposition::HandedOn);
                assert(handed_on(handed).len() == handed.len());
                assert(self.held@.subrange(0, held0 as int) =~= pre.held);
                assert(self.outstanding@.subrange(0, out0 as int) =~= pre.outstanding);
            }
            recovered = recovered + answered;
        }
        proof {
            assert(self.failed_in_flight@ =~= Seq::<FailedInstance<R>>::empty());
        }
        Some(recovered)
    }

    /// The places of every retained instance whose registered worker is
    /// still uncollected, one entry per instance. `None` where the owner
    /// cannot be read.
    pub fn uncollected_instances(&self) -> (r: Option<Vec<Vec<usize>>>)
        requires
            self.wf(),
        ensures
            !self@.readable ==> r is None,
            self@.readable ==> r is Some && r.unwrap()@.map_values(|v: Vec<usize>| v@)
                == standing_instances(self@.failed + self@.failed_in_flight).map_values(
                |i: FailedInstance<R>| i.uncollected@,
            ),
    {
        if self.poisoned {
            return None;
        }
        let ghost both = self@.failed + self@.failed_in_flight;
        let mut out: Vec<Vec<usize>> = Vec::new();
        let mut i: usize = 0;
        let total = self.failed.len() + self.failed_in_flight.len();
        proof {
            assert(both.take(0) =~= Seq::<FailedInstance<R>>::empty());
            assert(standing_instances(Seq::<FailedInstance<R>>::empty()) =~= Seq::empty());
        }
        while i < total
            invariant
                i <= total,
                total == both.len(),
                both == self@.failed + self@.failed_in_flight,
                out@.map_values(|v: Vec<usize>| v@) == standing_instances(both.take(i as int)).map_values(
                    |x: FailedInstance<R>| x.uncollected@,
                ),
            decreases total - i,
        {
            let instance = if i < self.failed.len() {
                &self.failed[i]
            } else {
                &self.failed_in_flight[i - self.failed.len()]
            };
            proof {
                assert(*instance == both[i as int]);
                assert(both.take(i + 1) =~= both.take(i as int).push(both[i as int]));
                both.take(i as int).lemma_filter_push(both[i as int], |x: FailedInstance<R>| x.uncollected@.len() > 0);
            }
            if instance.uncollected.len() > 0 {
                let copy = instance.uncollected.clone();
                proof {
                    assert(copy@ =~= instance.uncollected@);
                }
                let ghost before = out@;
                out.push(copy);
                proof {
                    assert(out@.map_values(|v: Vec<usize>| v@) =~= before.map_values(|v: Vec<usize>| v@).push(copy@));
                    let st = standing_instances(both.take(i as int));
                    assert(st.push(both[i as int]).map_values(|x: FailedInstance<R>| x.uncollected@)
                        =~= st.map_values(|x: FailedInstance<R>| x.uncollected@).push(both[i as int].uncollected@));
                }
            }
            i = i + 1;
        }
        proof {
            assert(both.take(total as int) =~= both);
        }
        Some(out)
    }
}


impl<R, P> Default for PrivateSettlementOwner<R, P> {
    /// An owner for the default number of abandoned obligations.
    fn default() -> (r: Self)
        ensures
            r.wf(),
            r@.readable,
            r@.held.len() == 0,
            r@.in_flight.len() == 0,
            r@.outstanding_in_flight.len() == 0,
            r@.failed_in_flight.len() == 0,
            r@.indeterminate.len() == 0,
            r@.outstanding.len() == 0,
            r@.failed.len() == 0,
            r@.failed_capacity == PRIVATE_ABANDONED_CAPACITY,
            r@.failure_slots == 0,
            r@.reserved == 0,
            r@.capacity == PRIVATE_ABANDONED_CAPACITY,
    {
        Self::with_capacity(PRIVATE_ABANDONED_CAPACITY)
    }
}

/// A drive counts an obligation answered only when the registry that accepted
/// it let this store answer it (`ownership_of` said ours) and the one effect
/// `settle_one` attempts for it was accepted; and it gives a carried
/// identity's credit back only when `carried_work_ended` said its work ended.
pub proof fn law_drive_answers_only_by_the_effect<R: PrivateRouteRegistry>(
    pre: SettlementView<R>,
    d: Seq<SweepDisposition>,
    e: Seq<SweepDisposition>,
    j: int,
)
    requires
        drive_decided(pre, d, e),
        0 <= j < d.len(),
    ensures
        ({
            let item = (pre.in_flight + pre.held)[j];
            d[j] == SweepDisposition::Answered ==> call_ensures(
                ownership_of::<R>,
                (&item.0, &item.1),
                SettlementOwnership::Ours,
            ) && call_ensures(settle_one::<R>, (&item.0, &item.1), true) && exists|client: Option<u64>|
                #[trigger] effect_answered(&item.0, item.1, client, true)
        }),
        ({
            let item = (pre.in_flight + pre.held)[j];
            d[j] == SweepDisposition::HandedOn ==> call_ensures(
                ownership_of::<R>,
                (&item.0, &item.1),
                SettlementOwnership::Elsewhere,
            )
        }),
{
    let gathered = pre.in_flight + pre.held;
    assert(decided_at(gathered, d, j));
    let (o, t) = choose|o: SettlementOwnership, t: bool|
        #[trigger] sweep_answers(gathered[j], o, t) && d[j] == disposition_spec(o, t);
    assert(sweep_answers(gathered[j], o, t));
}

/// With no interrupted sweep left in flight, a drive's counts add up: what is
/// owed and outstanding afterwards is what was owed and outstanding before,
/// less what it answered and what it reclaimed; reserved credits fall by the
/// same amount (floored at zero) and nothing becomes indeterminate or failed.
pub proof fn law_drive_counts<R>(
    pre: SettlementView<R>,
    post: SettlementView<R>,
    answered: nat,
    reclaimed: nat,
    d: Seq<SweepDisposition>,
    e: Seq<SweepDisposition>,
)
    requires
        drove(pre, post, answered, reclaimed, d, e),
        pre.in_flight.len() == 0,
        pre.outstanding_in_flight.len() == 0,
    ensures
        post.held.len() + post.outstanding.len() == pre.held.len() + pre.outstanding.len() - answered - reclaimed,
        post.reserved == sat_sub(pre.reserved, answered + reclaimed),
        post.indeterminate == pre.indeterminate,
        post.failed == pre.failed,
{
    law_drive_conserves_obligations(pre, post, answered, reclaimed, d, e);
    law_drive_releases_only_what_it_discharged(pre, post, answered, reclaimed, d, e);
}

/// A drive releases one credit per obligation it answered and one per carried
/// work it saw end, and no other credit.
pub proof fn law_drive_releases_only_what_it_discharged<R>(
    pre: SettlementView<R>,
    post: SettlementView<R>,
    answered: nat,
    reclaimed: nat,
    d: Seq<SweepDisposition>,
    e: Seq<SweepDisposition>,
)
    requires
        drove(pre, post, answered, reclaimed, d, e),
    ensures
        post.reserved == sat_sub(pre.reserved, answered + reclaimed),
        pre.reserved >= answered + reclaimed ==> post.reserved + answered + reclaimed == pre.reserved,
{
}

/// A drive loses nothing and invents nothing: every obligation it took is
/// still held, carried on as an identity, or answered; every carried identity
/// is still carried or reclaimed; what it keeps is what it took; and work
/// whose outcome nobody can prove is never touched.
pub proof fn law_drive_conserves_obligations<R>(
    pre: SettlementView<R>,
    post: SettlementView<R>,
    answered: nat,
    reclaimed: nat,
    d: Seq<SweepDisposition>,
    e: Seq<SweepDisposition>,
)
    requires
        drove(pre, post, answered, reclaimed, d, e),
    ensures
        post.held.len() + post.outstanding.len() + answered + reclaimed == pre.held.len()
            + pre.in_flight.len() + pre.outstanding.len() + pre.outstanding_in_flight.len(),
        post.held.to_multiset().subset_of((pre.in_flight + pre.held).to_multiset()),
        post.indeterminate == pre.indeterminate,
        post.failed == pre.failed,
        post.in_flight.len() == 0,
        post.outstanding_in_flight.len() == 0,
{
    broadcast use vstd::seq_lib::group_to_multiset_ensures;

    let gathered = pre.in_flight + pre.held;
    lemma_disposed_partition(gathered, d);
    let mid_out = pre.outstanding + handed_on(disposed(gathered, d, SweepDisposition::HandedOn));
    let carried = pre.outstanding_in_flight + mid_out;
    lemma_disposed_partition(carried, e);
    assert(handed_on(disposed(gathered, d, SweepDisposition::HandedOn)).len() == disposed(
        gathered,
        d,
        SweepDisposition::HandedOn,
    ).len());
    let kept = disposed(gathered, d, SweepDisposition::Kept);
    let handed = disposed(gathered, d, SweepDisposition::HandedOn);
    let ans = disposed(gathered, d, SweepDisposition::Answered);
    assert(kept.to_multiset().add(handed.to_multiset()).add(ans.to_multiset())
        =~= gathered.to_multiset());
    assert(kept.to_multiset().subset_of(gathered.to_multiset()));
}

/// Returning what interrupted sweeps left is done once: a second restore
/// returns nothing and changes nothing.
pub proof fn law_restore_twice_returns_nothing<R>(
    a: SettlementView<R>,
    b: SettlementView<R>,
    c: SettlementView<R>,
    first: nat,
    second: nat,
)
    requires
        restored(a, b, first),
        restored(b, c, second),
    ensures
        second == 0,
        c.held =~= b.held,
        c.outstanding =~= b.outstanding,
        c.failed =~= b.failed,
        c.indeterminate == b.indeterminate,
        c.reserved == b.reserved,
{
    assert(b.in_flight =~= Seq::<(R, PrivateOperation)>::empty());
    assert(b.outstanding_in_flight =~= Seq::<(R, PrivateIdentity)>::empty());
    assert(b.failed_in_flight =~= Seq::<FailedInstance<R>>::empty());
}

/// An obligation whose attempt may already have emitted is parked, never
/// returned to be driven again, and keeps its credit.
pub proof fn law_interrupted_attempt_is_parked<R>(
    pre: SettlementView<R>,
    post: SettlementView<R>,
    returned: nat,
)
    requires
        restored(pre, post, returned),
        pre.settling,
        pre.in_flight.len() > 0,
    ensures
        post.indeterminate.last() == pre.in_flight.last(),
        post.held == pre.held + pre.in_flight.drop_last(),
        post.reserved == pre.reserved,
{
}

/// Recovery is finished once it has run: a second recovery finds only the
/// instances that stand over an uncollected worker, drains nothing, answers
/// nothing and releases no slot.
pub proof fn law_recover_failed_twice_recovers_nothing<R>(
    a: SettlementView<R>,
    b: SettlementView<R>,
    c: SettlementView<R>,
    first: nat,
    second: nat,
)
    requires
        recovered_from(a, b, first),
        recovered_from(b, c, second),
    ensures
        second == 0,
        c.failed == b.failed,
        c.failure_slots == b.failure_slots,
        c.held == b.held,
        c.outstanding == b.outstanding,
        c.reserved == b.reserved,
{
    let p = |i: FailedInstance<R>| i.uncollected@.len() > 0;
    let q = |i: FailedInstance<R>| i.uncollected@.len() == 0;
    let st = standing_instances(a.failed);
    assert(b.failed == st);
    assert forall|j: int| 0 <= j < st.len() implies #[trigger] st[j].uncollected@.len() > 0 by {
        a.failed.lemma_filter_pred(p, j);
    }
    assert(recoverable_instances(st) =~= Seq::<FailedInstance<R>>::empty()) by {
        if recoverable_instances(st).len() > 0 {
            st.lemma_filter_pred(q, 0);
            st.lemma_filter_contains_rev(q, recoverable_instances(st)[0]);
        }
    }
    assert(standing_instances(st) =~= st) by {
        lemma_filter_all_is_identity(st, p);
    }
    assert(c.held =~= b.held);
    assert(c.outstanding =~= b.outstanding);
}

proof fn lemma_filter_all_is_identity<A>(s: Seq<A>, p: spec_fn(A) -> bool)
    requires
        forall|j: int| 0 <= j < s.len() ==> p(#[trigger] s[j]),
    ensures
        s.filter(p) == s,
    decreases s.len(),
{
    if s.len() > 0 {
        lemma_filter_all_is_identity(s.drop_last(), p);
        assert(s.drop_last().push(s.last()) =~= s);
        s.drop_last().lemma_filter_push(s.last(), p);
    } else {
        assert(s.filter(p) =~= s);
    }
}


impl<R, P> PrivateSettlementOwner<R, P> {
    /// The same owner, with the connection bound declared separately: a
    /// connection is not an operation.
    pub fn with_capacities(capacity: usize, connections: usize) -> (r: Self)
        ensures
            r.wf(),
            r@.readable,
            r@.held.len() == 0,
            r@.outstanding.len() == 0,
            r@.indeterminate.len() == 0,
            r@.failed.len() == 0,
            r@.failed_capacity == capacity,
            r@.failure_slots == 0,
            r@.reserved == 0,
            r@.capacity == capacity,
            r@.continuations == (PlacesView {
                places: Seq::empty(),
                slots: 0,
                bound_declared: true,
                capacity: connections as nat,
                cursor: 0,
                abandoned: 0,
                next_record: 0,
            }),
    {
        let mut owner = Self::with_capacity(capacity);
        owner.continuations = PrivateContinuationPlaces::with_bound(connections);
        owner
    }

    /// Declare how many connections may hold a place at once. The bound in
    /// force wins and is reported back. `None` for an unreadable store, which
    /// is not the same answer as a bound of nothing.
    pub fn declare_connection_bound(&mut self, connections: usize) -> (r: Option<usize>)
        requires
            old(self).wf(),
            connections > 0,
        ensures
            final(self).wf(),
            !old(self)@.readable ==> r is None && final(self)@ == old(self)@,
            old(self)@.readable ==> r == Some(
                if old(self)@.continuations.bound_declared {
                    old(self)@.continuations.capacity as usize
                } else {
                    connections
                },
            ) && final(self)@ == (SettlementView {
                continuations: if old(self)@.continuations.bound_declared {
                    old(self)@.continuations
                } else {
                    PlacesView {
                        capacity: connections as nat,
                        bound_declared: true,
                        ..old(self)@.continuations
                    }
                },
                ..old(self)@
            }),
    {
        if self.poisoned {
            return None;
        }
        Some(self.continuations.declare_connection_bound(connections))
    }

    /// Take the place one connection's ordered continuation will need, before
    /// that connection is exposed. An unreachable store and a full one are
    /// different answers.
    pub fn reserve_ordered_continuation(&mut self) -> (r: Result<
        PrivateOrderedContinuationSlot,
        AdmissionRefusal,
    >)
        requires
            old(self).wf(),
        ensures
            final(self).wf(),
            !old(self)@.readable ==> r == Err::<PrivateOrderedContinuationSlot, AdmissionRefusal>(
                AdmissionRefusal::Unavailable,
            ) && final(self)@ == old(self)@,
            old(self)@.readable && old(self)@.continuations.slots >= old(self)@.continuations.capacity
                ==> r == Err::<PrivateOrderedContinuationSlot, AdmissionRefusal>(
                AdmissionRefusal::Saturated,
            ),
            old(self)@.readable && old(self)@.continuations.slots < old(self)@.continuations.capacity
                && old(self)@.continuations.next_record < u64::MAX ==> r is Ok,
            r is Ok ==> final(self)@.continuations.slots == old(self)@.continuations.slots + 1
                && final(self)@ == (SettlementView {
                continuations: final(self)@.continuations,
                ..old(self)@
            }),
            r is Err ==> final(self)@ == old(self)@,
    {
        if self.poisoned {
            return Err(AdmissionRefusal::Unavailable);
        }
        self.continuations.reserve()
    }

    /// How many places are taken, live and retained together.
    pub fn continuations_reserved(&self) -> (r: Option<usize>)
        ensures
            r == if self@.readable {
                Some(self@.continuations.slots as usize)
            } else {
                None::<usize>
            },
    {
        if self.poisoned {
            return None;
        }
        Some(self.continuations.reserved())
    }

    /// How many continuations are actually retained here. An unreadable
    /// record is not an absent one: `None` if any place cannot be read.
    pub fn continuations_retained(&self) -> (r: Option<usize>)
        ensures
            r is Some <==> (self@.readable && all_taken_readable(self@.continuations.places)),
            r is Some ==> r.unwrap() == retained_count(self@.continuations.places),
    {
        if self.poisoned {
            return None;
        }
        self.continuations.retained()
    }

    /// How many places went with a holder that disposed of neither.
    pub fn continuations_abandoned(&self) -> (r: Option<usize>)
        ensures
            r == if self@.readable {
                Some(self@.continuations.abandoned as usize)
            } else {
                None::<usize>
            },
    {
        if self.poisoned {
            return None;
        }
        Some(self.continuations.abandoned())
    }

    /// The continuation places, for a lease to dispose of its own.
    pub fn continuation_places(&mut self) -> (r: &mut PrivateContinuationPlaces<P>)
        ensures
            r@ == old(self)@.continuations,
            old(self).wf() ==> r.wf(),
            final(self)@ == (SettlementView { continuations: final(r)@, ..old(self)@ }),
            old(self).wf() && final(r).wf() ==> final(self).wf(),
    {
        &mut self.continuations
    }
}

impl<R, P: PrivateOrderedContinuationDuty> PrivateSettlementOwner<R, P> {
    /// Give one bounded visit to each retained continuation in turn. Reaches
    /// through poison: finishing what connections left behind cannot refuse.
    #[verifier::spinoff_prover]
    pub fn drive_ordered_continuations(&mut self, visits: usize) -> (driven: usize)
        requires
            old(self).wf(),
        ensures
            final(self).wf(),
            driven <= visits,
            drive_bounded(old(self)@.continuations, final(self)@.continuations),
            final(self)@ == (SettlementView {
                continuations: final(self)@.continuations,
                ..old(self)@
            }),
            (forall|i: int|
                0 <= i < old(self)@.continuations.places.len() ==> !is_retained_place(
                    #[trigger] old(self)@.continuations.places[i],
                )) ==> driven == 0 && final(self)@.continuations == old(self)@.continuations,
            visits > 0 ==> forall|s: int|
                #[trigger] first_retained_step(old(self)@.continuations, s) && occupied_place(
                    old(self)@.continuations.places[rotated(
                        old(self)@.continuations.cursor as int,
                        old(self)@.continuations.places.len() as int,
                        s,
                    )],
                ) ==> driven >= 1,
    {
        self.continuations.drive(visits)
    }
}

} // verus!
