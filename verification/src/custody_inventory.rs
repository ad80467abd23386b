// The bounded inventory of evidence custodies one service owner keeps.
//
// One place per connection the store's bound allows, made once and never
// grown. A custody is reserved before its connection is exposed, at most one
// per connection, and reached again only through the capability that names
// its exact place and occupant: a successor at the same place has a different
// occupant, so a stale capability finds nothing.
use vstd::prelude::*;
use crate::continuation_places::PrivateMaintenanceIdentity;
use crate::settlement::PrivateSettlementOwner;

verus! {

/// One kept custody: whose it is, which reservation made it, and the custody.
pub struct PrivateKeptCustody<C> {
    pub identity: PrivateMaintenanceIdentity,
    pub token: u64,
    pub custody: C,
}

/// A registration's exact way back to the custody reserved for it: its place
/// and the reservation that made it.
#[derive(Debug, Clone, Copy, PartialEq, Eq, Structural)]
pub struct PrivateRegisteredCustody {
    pub index: usize,
    pub token: u64,
}

/// What a reservation of an evidence custody found.
pub enum PrivateCustodyReserved {
    /// A custody for this connection exists, and here is the way back to it.
    Reserved(PrivateRegisteredCustody),
    /// This connection already has one, and it is untouched.
    AlreadyKept,
    /// Every place the declared bound allows holds a custody.
    Saturated,
    /// This name is not about this owner's store.
    Foreign,
    /// The inventory could not be reached: the answer of a keeper whose way
    /// back no longer resolves, before any inventory is asked.
    Unreadable,
}

/// What reaching for a registered custody found.
pub enum PrivateCustodyReach<'a, C> {
    /// The custody is here, for the length of this act.
    Reached(&'a C),
    /// The owner that kept it has gone.
    KeeperGone,
    /// The lease offered is a different owner's.
    ForeignKeeper,
    /// The place holds something else now.
    Replaced,
}

/// A place as it can be read: who holds it and under which reservation.
pub ghost struct KeptView {
    pub identity: PrivateMaintenanceIdentity,
    pub token: u64,
}

/// The inventory.
pub struct PrivateCustodyInventory<C> {
    places: Vec<Option<PrivateKeptCustody<C>>>,
    taken: usize,
    next_token: u64,
}

pub open spec fn kept_view<C>(p: Option<PrivateKeptCustody<C>>) -> Option<KeptView> {
    match p {
        Some(k) => Some(KeptView { identity: k.identity, token: k.token }),
        None => None,
    }
}

/// How many places hold a custody.
pub open spec fn kept_count(s: Seq<Option<KeptView>>) -> nat
    decreases s.len(),
{
    if s.len() == 0 {
        0
    } else {
        kept_count(s.drop_last()) + if s.last() is Some {
            1nat
        } else {
            0nat
        }
    }
}

/// Whether a place keeps `identity`'s custody.
pub open spec fn kept_for(p: Option<KeptView>, identity: PrivateMaintenanceIdentity) -> bool {
    match p {
        Some(k) => k.identity == identity,
        None => false,
    }
}

/// Whether a place keeps the custody `token`'s reservation made.
pub open spec fn kept_under(p: Option<KeptView>, token: u64) -> bool {
    match p {
        Some(k) => k.token == token,
        None => false,
    }
}

/// Whether some place keeps a custody for `identity`.
pub open spec fn keeps_identity(s: Seq<Option<KeptView>>, identity: PrivateMaintenanceIdentity) -> bool {
    exists|i: int| 0 <= i < s.len() && kept_for(#[trigger] s[i], identity)
}

/// Whether a capability's place still holds the custody it reserved.
pub open spec fn names_kept(s: Seq<Option<KeptView>>, cap: PrivateRegisteredCustody) -> bool {
    0 <= cap.index < s.len() && kept_under(s[cap.index as int], cap.token)
}

/// The first free place, if any.
pub open spec fn first_free(s: Seq<Option<KeptView>>) -> Option<int> {
    if exists|i: int| 0 <= i < s.len() && (#[trigger] s[i]) is None {
        Some(choose|i: int| 0 <= i < s.len() && (#[trigger] s[i]) is None && forall|j: int| 0 <= j < i ==> s[j] is Some)
    } else {
        None
    }
}

/// The inventory as it can be read.
pub ghost struct InventoryView {
    pub places: Seq<Option<KeptView>>,
    pub taken: nat,
    pub next_token: u64,
}

impl<C> View for PrivateCustodyInventory<C> {
    type V = InventoryView;

    closed spec fn view(&self) -> InventoryView {
        InventoryView {
            places: self.places@.map_values(|p: Option<PrivateKeptCustody<C>>| kept_view(p)),
            taken: self.taken as nat,
            next_token: self.next_token,
        }
    }
}

proof fn lemma_kept_count_bound(s: Seq<Option<KeptView>>)
    ensures
        kept_count(s) <= s.len(),
    decreases s.len(),
{
    if s.len() > 0 {
        lemma_kept_count_bound(s.drop_last());
    }
}

proof fn lemma_kept_count_free(s: Seq<Option<KeptView>>, i: int)
    requires
        0 <= i < s.len(),
        s[i] is None,
    ensures
        kept_count(s) < s.len(),
    decreases s.len(),
{
    if i == s.len() - 1 {
        lemma_kept_count_bound(s.drop_last());
    } else {
        lemma_kept_count_free(s.drop_last(), i);
    }
}

proof fn lemma_kept_count_update(s: Seq<Option<KeptView>>, i: int, v: Option<KeptView>)
    requires
        0 <= i < s.len(),
    ensures
        kept_count(s.update(i, v)) == kept_count(s) - (if s[i] is Some {
            1int
        } else {
            0int
        }) + (if v is Some {
            1int
        } else {
            0int
        }),
    decreases s.len(),
{
    if i == s.len() - 1 {
        assert(s.update(i, v).drop_last() =~= s.drop_last());
    } else {
        lemma_kept_count_update(s.drop_last(), i, v);
        assert(s.update(i, v).drop_last() =~= s.drop_last().update(i, v));
    }
}

proof fn lemma_kept_count_none(n: nat)
    ensures
        kept_count(Seq::new(n, |i: int| None::<KeptView>)) == 0,
    decreases n,
{
    if n > 0 {
        assert(Seq::new(n, |i: int| None::<KeptView>).drop_last() =~= Seq::new((n - 1) as nat, |i: int| None::<KeptView>));
        lemma_kept_count_none((n - 1) as nat);
    }
}

impl<C> PrivateCustodyInventory<C> {
    /// Whether the inventory is what its operations leave: `taken` counts the
    /// kept custodies, no connection has two, and every reservation's token
    /// is below the next one to be minted.
    pub open spec fn wf(&self) -> bool {
        &&& self@.taken == kept_count(self@.places)
        &&& forall|i: int, j: int|
            #![trigger self@.places[i], self@.places[j]]
            0 <= i < self@.places.len() && 0 <= j < self@.places.len() && i != j && self@.places[i] is Some
                && self@.places[j] is Some ==> self@.places[i].unwrap().identity != self@.places[j].unwrap().identity
        &&& forall|i: int|
            0 <= i < self@.places.len() && (#[trigger] self@.places[i]) is Some ==> self@.places[i].unwrap().token
                < self@.next_token
    }

    /// An inventory of `bound` empty places.
    pub fn with_bound(bound: usize) -> (r: Self)
        ensures
            r.wf(),
            r@.places == Seq::new(bound as nat, |i: int| None::<KeptView>),
            r@.taken == 0,
    {
        let mut places: Vec<Option<PrivateKeptCustody<C>>> = Vec::new();
        let mut i: usize = 0;
        while i < bound
            invariant
                i <= bound,
                places@.len() == i,
                forall|j: int| 0 <= j < i ==> places@[j] is None,
            decreases bound - i,
        {
            places.push(None);
            i = i + 1;
        }
        let r = PrivateCustodyInventory { places, taken: 0, next_token: 0 };
        proof {
            assert(r@.places =~= Seq::new(bound as nat, |i: int| None::<KeptView>));
            lemma_kept_count_none(bound as nat);
        }
        r
    }

    /// Establish an inventory over `store`, sized to the connection bound the
    /// store has in force once `connections` is declared to it; `None` when
    /// the store cannot say.
    pub fn established_over<R, P>(store: &mut PrivateSettlementOwner<R, P>, connections: usize) -> (r: Option<
        Self,
    >)
        requires
            connections > 0,
            old(store).wf(),
        ensures
            final(store).wf(),
            r is None <==> !old(store)@.readable,
            r matches Some(inv) ==> inv.wf() && inv@.taken == 0 && forall|i: int|
                0 <= i < inv@.places.len() ==> (#[trigger] inv@.places[i]) is None,
            r matches Some(inv) ==> inv@.places.len() == (if old(store)@.continuations.bound_declared {
                old(store)@.continuations.capacity as usize
            } else {
                connections
            }) as nat,
    {
        let bound = match store.declare_connection_bound(connections) {
            Some(bound) => bound,
            None => return None,
        };
        Some(Self::with_bound(bound))
    }

    /// How many custodies this inventory was sized for.
    pub fn custody_bound(&self) -> (r: usize)
        ensures
            r == self@.places.len(),
    {
        self.places.len()
    }

    /// How many custodies are kept.
    pub fn custodies_kept(&self) -> (r: usize)
        ensures
            r == self@.taken,
    {
        self.taken
    }

    /// How many more can be kept before the bound is reached.
    pub fn custody_capacity_remaining(&self) -> (r: usize)
        ensures
            r == if self@.taken <= self@.places.len() {
                (self@.places.len() - self@.taken) as usize
            } else {
                0usize
            },
    {
        if self.taken <= self.places.len() {
            self.places.len() - self.taken
        } else {
            0
        }
    }

    /// The custody kept for this name, if this inventory keeps one.
    pub fn custody_named(&self, identity: &PrivateMaintenanceIdentity) -> (r: Option<&C>)
        ensures
            r is Some <==> keeps_identity(self@.places, *identity),
    {
        let mut i: usize = 0;
        while i < self.places.len()
            invariant
                i <= self.places@.len(),
                forall|j: int|
                    0 <= j < i ==> !kept_for(#[trigger] self@.places[j], *identity),
            decreases self.places.len() - i,
        {
            match &self.places[i] {
                Some(kept) => {
                    if kept.identity.same_as(identity) {
                        proof {
                            assert(kept_for(self@.places[i as int], *identity));
                        }
                        return Some(&kept.custody);
                    }
                },
                None => {},
            }
            i = i + 1;
        }
        None
    }

    /// Reserve `identity`'s custody, before its connection is exposed, into
    /// the first free place. Refuses, with everything where it was, a name
    /// not about this store, a connection that already has one, and a full
    /// inventory, in that order.
    pub fn reserve_for(&mut self, identity: PrivateMaintenanceIdentity, same_store: bool, custody: C) -> (r:
        PrivateCustodyReserved)
        requires
            old(self).wf(),
            old(self)@.next_token < u64::MAX,
        ensures
            final(self).wf(),
            !same_store ==> r is Foreign && final(self)@ == old(self)@,
            same_store && keeps_identity(old(self)@.places, identity) ==> r is AlreadyKept && final(self)@ == old(
                self,
            )@,
            same_store && !keeps_identity(old(self)@.places, identity) && first_free(old(self)@.places) is None
                ==> r is Saturated && final(self)@ == old(self)@,
            same_store && !keeps_identity(old(self)@.places, identity) && first_free(old(self)@.places) is Some
                ==> ({
                let i = first_free(old(self)@.places).unwrap();
                &&& r == PrivateCustodyReserved::Reserved(
                    PrivateRegisteredCustody { index: i as usize, token: old(self)@.next_token },
                )
                &&& final(self)@ == (InventoryView {
                    places: old(self)@.places.update(
                        i,
                        Some(KeptView { identity, token: old(self)@.next_token }),
                    ),
                    taken: old(self)@.taken + 1,
                    next_token: (old(self)@.next_token + 1) as u64,
                })
            }),
    {
        if !same_store {
            return PrivateCustodyReserved::Foreign;
        }
        let mut i: usize = 0;
        let mut free: Option<usize> = None;
        while i < self.places.len()
            invariant
                i <= self.places@.len(),
                self@ == old(self)@,
                self.wf(),
                same_store,
                forall|j: int|
                    0 <= j < i ==> !kept_for(#[trigger] self@.places[j], identity),
                match free {
                    Some(f) => f < i && self@.places[f as int] is None && forall|j: int|
                        0 <= j < f ==> (#[trigger] self@.places[j]) is Some,
                    None => forall|j: int| 0 <= j < i ==> (#[trigger] self@.places[j]) is Some,
                },
            decreases self.places.len() - i,
        {
            match &self.places[i] {
                Some(kept) => {
                    if kept.identity.same_as(&identity) {
                        proof {
                            assert(kept_for(self@.places[i as int], identity));
                        }
                        return PrivateCustodyReserved::AlreadyKept;
                    }
                },
                None => {
                    if free.is_none() {
                        free = Some(i);
                    }
                },
            }
            i = i + 1;
        }
        let index = match free {
            Some(f) => f,
            None => {
                proof {
                    assert(!exists|j: int| 0 <= j < self@.places.len() && (#[trigger] self@.places[j]) is None);
                }
                return PrivateCustodyReserved::Saturated;
            },
        };
        proof {
            assert(exists|j: int| 0 <= j < self@.places.len() && (#[trigger] self@.places[j]) is None);
            let c = choose|j: int|
                0 <= j < self@.places.len() && (#[trigger] self@.places[j]) is None && forall|k: int|
                    0 <= k < j ==> self@.places[k] is Some;
            assert(c == index as int) by {
                if c < index as int {
                    assert(self@.places[c] is Some);
                } else if c > index as int {
                    assert(self@.places[index as int] is Some);
                }
            }
            lemma_kept_count_free(self@.places, index as int);
            lemma_kept_count_update(self@.places, index as int, Some(KeptView { identity, token: self@.next_token }));
        }
        let token = self.next_token;
        let ghost before = self@;
        self.places.set(index, Some(PrivateKeptCustody { identity, token, custody }));
        self.taken = self.taken + 1;
        self.next_token = self.next_token + 1;
        proof {
            assert(self@.places =~= before.places.update(index as int, Some(KeptView { identity, token })));
        }
        PrivateCustodyReserved::Reserved(PrivateRegisteredCustody { index, token })
    }

    /// Reach the custody a capability names, for one act: only on a lease of
    /// this inventory's own owner (`keeps`), and only while the capability's
    /// place still holds the very custody it reserved.
    pub fn pin<'a>(inventory: Option<&'a Self>, cap: &PrivateRegisteredCustody, keeps: bool) -> (r:
        PrivateCustodyReach<'a, C>)
        ensures
            !keeps ==> r is ForeignKeeper,
            keeps && inventory is None ==> r is KeeperGone,
            keeps && inventory is Some ==> (r is Reached <==> names_kept(inventory.unwrap()@.places, *cap)),
            keeps && inventory is Some && !names_kept(inventory.unwrap()@.places, *cap) ==> r is Replaced,
    {
        if !keeps {
            return PrivateCustodyReach::ForeignKeeper;
        }
        let inventory = match inventory {
            Some(inv) => inv,
            None => return PrivateCustodyReach::KeeperGone,
        };
        if cap.index < inventory.places.len() {
            match &inventory.places[cap.index] {
                Some(kept) => {
                    if kept.token == cap.token {
                        return PrivateCustodyReach::Reached(&kept.custody);
                    }
                },
                None => {},
            }
        }
        PrivateCustodyReach::Replaced
    }

    /// Give back a reservation whose connection was never exposed: exactly
    /// the place the capability names, and only while it still holds the
    /// custody that capability reserved. A sibling elsewhere, or a successor
    /// at the same place, keeps its own.
    pub fn release_unexposed(&mut self, cap: PrivateRegisteredCustody)
        requires
            old(self).wf(),
        ensures
            final(self).wf(),
            names_kept(old(self)@.places, cap) ==> final(self)@ == (InventoryView {
                places: old(self)@.places.update(cap.index as int, None),
                taken: (old(self)@.taken - 1) as nat,
                ..old(self)@
            }),
            !names_kept(old(self)@.places, cap) ==> final(self)@ == old(self)@,
    {
        if cap.index >= self.places.len() {
            return;
        }
        let ours = match &self.places[cap.index] {
            Some(kept) => kept.token == cap.token,
            None => false,
        };
        if !ours {
            return;
        }
        proof {
            lemma_kept_count_update(self@.places, cap.index as int, None);
        }
        let ghost before = self@;
        self.places.set(cap.index, None);
        self.taken = if self.taken > 0 {
            self.taken - 1
        } else {
            0
        };
        proof {
            assert(self@.places =~= before.places.update(cap.index as int, None));
        }
    }
}

/// A capability reaches only the custody it reserved: once its place is
/// given back or taken by a successor (whose reservation has a newer token),
/// the old capability names nothing there.
pub proof fn law_stale_capability_reaches_nothing(
    places: Seq<Option<KeptView>>,
    cap: PrivateRegisteredCustody,
    successor: KeptView,
)
    requires
        0 <= cap.index < places.len(),
        successor.token != cap.token,
    ensures
        !names_kept(places.update(cap.index as int, None), cap),
        !names_kept(places.update(cap.index as int, Some(successor)), cap),
{
}

} // verus!
