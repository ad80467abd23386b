// Who holds a client number, and for how long.
//
// A client number is an index into a namespace, not an identity. Two
// connections can hold the same number one after the other, and the second is
// not the first. A reservation on the number itself is taken before a
// connection can establish anything under it and given back only when reuse
// is safe. It is a permission and a lifetime rule; it settles nothing.
//
// The occupant is named by the incarnation its registration minted, so a
// successor is never mistaken for its predecessor.
use vstd::prelude::*;
use std::collections::BTreeMap;

verus! {

/// What is known about a held number, and nothing more than is known.
#[derive(Debug, Clone, Copy, PartialEq, Eq)]
pub enum PrivateNumberStanding {
    /// Claimed, and no ending has begun the effects keyed by it.
    Held,
    /// An ending began those effects, and nothing has established an outcome.
    ///
    /// A body still running and a body that never returned leave this same
    /// standing, so it is not evidence that anything is still running.
    Visiting,
    /// A visit returned without establishing that its effects were performed.
    /// Nothing here resolves it: no timeout, no retry and no second visit.
    Unestablished,
}

/// Why a client number could not be taken.
#[derive(Debug, Clone, Copy, PartialEq, Eq)]
pub enum PrivateNumberRefusal {
    /// A connection still holds it.
    Excluded,
    /// The occupancy record could not be read.
    Unreadable,
}

/// Which exact connection holds a client number, and how far its ending got.
#[derive(Debug, Clone, Copy, PartialEq, Eq)]
pub struct PrivateNumberClaim {
    /// The registration's own incarnation.
    pub incarnation: u64,
    pub standing: PrivateNumberStanding,
}

/// One registry's record of who holds which number, keyed by number.
pub struct PrivateNumberOccupancy {
    held: BTreeMap<u64, PrivateNumberClaim>,
    /// Whether a holder panicked inside this record.
    poisoned: bool,
}

/// The right to occupy one client number, held by whoever must end it.
#[derive(Debug, Clone, Copy, PartialEq, Eq)]
pub struct PrivateNumberRight {
    pub client: u64,
    pub incarnation: u64,
}

/// The occupancy as it can be read.
pub ghost struct OccupancyView {
    pub readable: bool,
    pub claims: Map<u64, PrivateNumberClaim>,
}

impl View for PrivateNumberOccupancy {
    type V = OccupancyView;

    closed spec fn view(&self) -> OccupancyView {
        OccupancyView { readable: !self.poisoned, claims: self.held@ }
    }
}

impl PrivateNumberOccupancy {
    /// A record in which nobody holds any number.
    pub fn new() -> (r: Self)
        ensures
            r@.readable,
            r@.claims == Map::<u64, PrivateNumberClaim>::empty(),
    {
        PrivateNumberOccupancy { held: BTreeMap::new(), poisoned: false }
    }

    /// Record that a holder panicked inside this record.
    pub fn mark_poisoned(&mut self)
        ensures
            final(self)@ == (OccupancyView { readable: false, ..old(self)@ }),
    {
        self.poisoned = true;
    }

    /// The claim on a number, if one is held.
    fn find(&self, client: u64) -> (r: Option<PrivateNumberClaim>)
        ensures
            match r {
                Some(claim) => self@.claims.contains_key(client) && self@.claims[client] == claim,
                None => !self@.claims.contains_key(client),
            },
    {
        match self.held.get(&client) {
            Some(claim) => Some(*claim),
            None => None,
        }
    }

    /// Take this number for this exact connection, before anything is
    /// established under it.
    ///
    /// Refused while anyone holds the number, in whatever standing; refused
    /// when the record cannot be read.
    pub fn claim(&mut self, client: u64, incarnation: u64) -> (r: Result<
        PrivateNumberRight,
        PrivateNumberRefusal,
    >)
        ensures
            !old(self)@.readable ==> r == Err::<PrivateNumberRight, PrivateNumberRefusal>(
                PrivateNumberRefusal::Unreadable,
            ) && final(self)@ == old(self)@,
            old(self)@.readable && old(self)@.claims.contains_key(client) ==> r == Err::<
                PrivateNumberRight,
                PrivateNumberRefusal,
            >(PrivateNumberRefusal::Excluded) && final(self)@ == old(self)@,
            old(self)@.readable && !old(self)@.claims.contains_key(client) ==> r == Ok::<
                PrivateNumberRight,
                PrivateNumberRefusal,
            >(PrivateNumberRight { client, incarnation }) && final(self)@ == (OccupancyView {
                claims: old(self)@.claims.insert(
                    client,
                    PrivateNumberClaim { incarnation, standing: PrivateNumberStanding::Held },
                ),
                ..old(self)@
            }),
    {
        if self.poisoned {
            return Err(PrivateNumberRefusal::Unreadable);
        }
        if self.find(client).is_some() {
            return Err(PrivateNumberRefusal::Excluded);
        }
        self.held.insert(client, PrivateNumberClaim { incarnation, standing: PrivateNumberStanding::Held });
        Ok(PrivateNumberRight { client, incarnation })
    }

    /// What is known about this number, if anything holds it.
    pub fn state_of(&self, client: u64) -> (r: Option<PrivateNumberStanding>)
        ensures
            r == if self@.readable && self@.claims.contains_key(client) {
                Some(self@.claims[client].standing)
            } else {
                None::<PrivateNumberStanding>
            },
    {
        if self.poisoned {
            return None;
        }
        match self.find(client) {
            Some(claim) => Some(claim.standing),
            None => None,
        }
    }
}

/// Whether a right is the occupant of its number.
pub open spec fn occupies(v: OccupancyView, right: PrivateNumberRight) -> bool {
    v.claims.contains_key(right.client) && v.claims[right.client].incarnation == right.incarnation
}

/// What `finish` does to the claims.
pub open spec fn finish_spec(
    v: OccupancyView,
    right: PrivateNumberRight,
    established: bool,
) -> Map<u64, PrivateNumberClaim> {
    if occupies(v, right) && v.claims[right.client].standing == PrivateNumberStanding::Visiting {
        if established {
            v.claims.remove(right.client)
        } else {
            v.claims.insert(
                right.client,
                PrivateNumberClaim {
                    incarnation: right.incarnation,
                    standing: PrivateNumberStanding::Unestablished,
                },
            )
        }
    } else {
        v.claims
    }
}

impl PrivateNumberRight {
    /// Open the interval in which this connection's number-keyed effects run.
    ///
    /// Validated and marked in one step. Only a claim that is still this
    /// right's, and that no visit has opened, admits one.
    pub fn begin_clearing(&self, occupancy: &mut PrivateNumberOccupancy) -> (r: bool)
        ensures
            r == (old(occupancy)@.readable && occupies(old(occupancy)@, *self)
                && old(occupancy)@.claims[self.client].standing == PrivateNumberStanding::Held),
            final(occupancy)@ == if r {
                OccupancyView {
                    claims: old(occupancy)@.claims.insert(
                        self.client,
                        PrivateNumberClaim {
                            incarnation: self.incarnation,
                            standing: PrivateNumberStanding::Visiting,
                        },
                    ),
                    ..old(occupancy)@
                }
            } else {
                old(occupancy)@
            },
    {
        if occupancy.poisoned {
            return false;
        }
        let Some(claim) = occupancy.find(self.client) else {
            return false;
        };
        if claim.incarnation != self.incarnation {
            return false;
        }
        match claim.standing {
            PrivateNumberStanding::Held => {},
            _ => return false,
        }
        let marked = PrivateNumberClaim {
            incarnation: claim.incarnation,
            standing: PrivateNumberStanding::Visiting,
        };
        occupancy.held.insert(self.client, marked);
        true
    }

    /// Give the number back, if this connection established that it is safe.
    ///
    /// Only the visit this right opened, returning with every effect
    /// performed, frees a number. A visit that could not establish that
    /// leaves the number unestablished. A report from a right that is not
    /// the occupant, or from no open visit, changes nothing.
    pub fn finish(&self, occupancy: &mut PrivateNumberOccupancy, established: bool)
        ensures
            final(occupancy)@ == if old(occupancy)@.readable {
                OccupancyView {
                    claims: finish_spec(old(occupancy)@, *self, established),
                    ..old(occupancy)@
                }
            } else {
                old(occupancy)@
            },
    {
        if occupancy.poisoned {
            return;
        }
        let Some(claim) = occupancy.find(self.client) else {
            return;
        };
        if claim.incarnation != self.incarnation {
            return;
        }
        match (established, claim.standing) {
            (true, PrivateNumberStanding::Visiting) => {
                occupancy.held.remove(&self.client);
            },
            (false, PrivateNumberStanding::Visiting) => {
                let marked = PrivateNumberClaim {
                    incarnation: claim.incarnation,
                    standing: PrivateNumberStanding::Unestablished,
                };
                occupancy.held.insert(self.client, marked);
            },
            _ => {},
        }
    }

    /// Give back a number nothing was ever established under.
    ///
    /// For a publication that failed, and only from unvisited: a number some
    /// ending has already been inside is not an unpublished one.
    pub fn relinquish_unpublished(&self, occupancy: &mut PrivateNumberOccupancy)
        ensures
            final(occupancy)@ == if old(occupancy)@.readable && occupies(old(occupancy)@, *self)
                && old(occupancy)@.claims[self.client].standing == PrivateNumberStanding::Held {
                OccupancyView {
                    claims: old(occupancy)@.claims.remove(self.client),
                    ..old(occupancy)@
                }
            } else {
                old(occupancy)@
            },
    {
        if occupancy.poisoned {
            return;
        }
        let Some(claim) = occupancy.find(self.client) else {
            return;
        };
        let unvisited = match claim.standing {
            PrivateNumberStanding::Held => true,
            _ => false,
        };
        if claim.incarnation == self.incarnation && unvisited {
            occupancy.held.remove(&self.client);
        }
    }
}


/// Whether `begin_clearing` admits a visit for this right.
pub open spec fn admits_visit(v: OccupancyView, right: PrivateNumberRight) -> bool {
    v.readable && occupies(v, right) && v.claims[right.client].standing
        == PrivateNumberStanding::Held
}

/// The occupancy after `begin_clearing`.
pub open spec fn after_begin(v: OccupancyView, right: PrivateNumberRight) -> OccupancyView {
    if admits_visit(v, right) {
        OccupancyView {
            claims: v.claims.insert(
                right.client,
                PrivateNumberClaim {
                    incarnation: right.incarnation,
                    standing: PrivateNumberStanding::Visiting,
                },
            ),
            ..v
        }
    } else {
        v
    }
}

/// The occupancy after `finish`.
pub open spec fn after_finish(
    v: OccupancyView,
    right: PrivateNumberRight,
    established: bool,
) -> OccupancyView {
    if v.readable {
        OccupancyView { claims: finish_spec(v, right, established), ..v }
    } else {
        v
    }
}

/// The occupancy after `relinquish_unpublished`.
pub open spec fn after_relinquish(v: OccupancyView, right: PrivateNumberRight) -> OccupancyView {
    if admits_visit(v, right) {
        OccupancyView { claims: v.claims.remove(right.client), ..v }
    } else {
        v
    }
}

/// A right that is not its number's occupant -- stale, relinquished, or
/// outlived by a successor -- can neither open a visit, nor release, nor mark
/// anything: the successor's claim is untouched.
pub proof fn law_stale_right_acts_on_nothing(
    v: OccupancyView,
    right: PrivateNumberRight,
    established: bool,
)
    requires
        !occupies(v, right),
    ensures
        !admits_visit(v, right),
        after_begin(v, right) == v,
        after_finish(v, right, established) == v,
        after_relinquish(v, right) == v,
{
    assert(after_finish(v, right, established) =~= v);
}

/// One right opens at most one visit: asking again after a visit was opened
/// is refused, so two bodies never run number-keyed effects at once.
pub proof fn law_one_visit_per_right(v: OccupancyView, right: PrivateNumberRight, other: PrivateNumberRight)
    requires
        admits_visit(v, right),
        other.client == right.client,
    ensures
        !admits_visit(after_begin(v, right), other),
{
}

/// Returning from a visit without establishing its effects keeps the number,
/// and nothing afterwards frees it: no later report, no relinquish, no new
/// claim.
pub proof fn law_unestablished_number_stays_held(
    v: OccupancyView,
    right: PrivateNumberRight,
    any: PrivateNumberRight,
    established: bool,
)
    requires
        admits_visit(v, right),
    ensures
        ({
            let w = after_finish(after_begin(v, right), right, false);
            &&& w.claims.contains_key(right.client)
            &&& w.claims[right.client].standing == PrivateNumberStanding::Unestablished
            &&& after_finish(w, any, established).claims.contains_key(right.client)
            &&& after_finish(w, any, established).claims[right.client] == w.claims[right.client]
            &&& after_relinquish(w, any).claims.contains_key(right.client)
            &&& after_relinquish(w, any).claims[right.client] == w.claims[right.client]
            &&& after_begin(w, any).claims.contains_key(right.client)
            &&& after_begin(w, any).claims[right.client] == w.claims[right.client]
        }),
{
}

/// A number is freed only by the visit its occupant opened returning with its
/// effects established, or by relinquishing a claim no visit ever entered;
/// once freed, the next connection's claim succeeds.
pub proof fn law_number_freed_only_by_its_completed_visit(
    v: OccupancyView,
    right: PrivateNumberRight,
    any: PrivateNumberRight,
    established: bool,
)
    requires
        v.readable,
        occupies(v, right),
    ensures
        after_finish(v, any, established).claims.contains_key(right.client) <== !(
        v.claims[right.client].standing == PrivateNumberStanding::Visiting && established
            && any.incarnation == right.incarnation && any.client == right.client),
        !after_finish(after_begin(v, right), right, true).claims.contains_key(right.client)
            <== admits_visit(v, right),
{
}

} // verus!
