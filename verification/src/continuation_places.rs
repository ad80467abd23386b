// Places reserved for connections' ordered continuations.
//
// A connection that cannot be handed over is one whose accepted work has
// nowhere to go the moment anything fails, so its place is taken before it is
// exposed. Reserved is not free; a place comes back only when the work in it
// is gone; and a place is named by its record, not its number, so a lease that
// outlived its place never touches the connection that holds it now.
use vstd::prelude::*;
use crate::settlement::AdmissionRefusal;
use crate::ordered_home::{bind_spec, HomeView, PrivateHomeBinding, PrivateHomeStanding, PrivateOrderedHome};

verus! {

/// One place in the continuation store.
pub enum PrivateOrderedContinuationPlace<P> {
    /// Nobody holds this place.
    Free,
    /// Promised to a connection, with its home already made.
    Taken { record: u64, home: PrivateOrderedHome<P> },
}

/// A reserved place for one connection's ordered continuation: which place,
/// and whose.
pub struct PrivateOrderedContinuationSlot {
    index: usize,
    record: u64,
    /// Whether this lease still owes its place a disposal.
    armed: bool,
}

/// What committing a connection's place found.
#[derive(Debug, Clone, Copy, PartialEq, Eq)]
pub enum PrivateContinuationCommit {
    /// The place is retained: its home holds this connection's output.
    Retained,
    /// The place is not this lease's any more. Nothing was touched.
    NoPlace,
    /// The home is empty -- this connection never bound. Marked abandoned.
    NothingBound,
}


/// One bounded step of what a retained continuation still owes, and whether
/// it owes anything after it.
///
/// Implemented by the continuation itself; nothing is promised of either.
pub trait PrivateOrderedContinuationDuty {
    fn visit(&mut self);

    fn settled(&self) -> bool;
}

/// The places, reduced to who holds each.
pub ghost enum PlaceView {
    Free,
    Taken { record: u64, standing: PrivateHomeStanding, occupied: bool, readable: bool },
}

pub open spec fn place_view<P>(p: PrivateOrderedContinuationPlace<P>) -> PlaceView {
    match p {
        PrivateOrderedContinuationPlace::Free => PlaceView::Free,
        PrivateOrderedContinuationPlace::Taken { record, home } => PlaceView::Taken {
            record,
            standing: home@.standing,
            occupied: home@.payload is Some,
            readable: home@.readable,
        },
    }
}

/// How many places are taken.
pub open spec fn taken_count(s: Seq<PlaceView>) -> nat
    decreases s.len(),
{
    if s.len() == 0 {
        0
    } else {
        taken_count(s.drop_last()) + if s.last() is Taken {
            1nat
        } else {
            0nat
        }
    }
}

/// The record holding a place, if any.
pub open spec fn record_of(p: PlaceView) -> Option<u64> {
    match p {
        PlaceView::Taken { record, .. } => Some(record),
        PlaceView::Free => None,
    }
}

/// Whether the place at `index` is held by `record`.
pub open spec fn holds_record(s: Seq<PlaceView>, index: int, record: u64) -> bool {
    0 <= index < s.len() && record_of(s[index]) == Some(record)
}

/// The store of places.
pub struct PrivateContinuationPlaces<P> {
    places: Vec<PrivateOrderedContinuationPlace<P>>,
    /// How many places are taken, live and retained together.
    slots: usize,
    /// Whether the bound was declared, as against merely zero.
    bound_declared: bool,
    /// How many places may be taken at once.
    capacity: usize,
    /// Where the next round of visits starts.
    cursor: usize,
    /// Places whose holder went without disposing of them.
    abandoned: usize,
    /// The identity the next reserved record gets.
    next_record: u64,
}

pub ghost struct PlacesView {
    pub places: Seq<PlaceView>,
    pub slots: nat,
    pub bound_declared: bool,
    pub capacity: nat,
    pub cursor: nat,
    pub abandoned: nat,
    pub next_record: u64,
}

impl<P> View for PrivateContinuationPlaces<P> {
    type V = PlacesView;

    closed spec fn view(&self) -> PlacesView {
        PlacesView {
            places: self.places@.map_values(|p: PrivateOrderedContinuationPlace<P>| place_view(p)),
            slots: self.slots as nat,
            bound_declared: self.bound_declared,
            capacity: self.capacity as nat,
            cursor: self.cursor as nat,
            abandoned: self.abandoned as nat,
            next_record: self.next_record,
        }
    }
}

impl PrivateOrderedContinuationSlot {
    pub closed spec fn index(&self) -> int {
        self.index as int
    }

    pub closed spec fn record(&self) -> u64 {
        self.record
    }

    pub closed spec fn armed(&self) -> bool {
        self.armed
    }

    /// A lease names a place by a machine index.
    pub proof fn lemma_index_fits(&self)
        ensures
            0 <= self.index() <= usize::MAX,
    {
    }
}

/// The store's consistency: the count is the number of taken places, never
/// above the bound, and every record names one place and was issued here.
pub open spec fn places_wf(v: PlacesView) -> bool {
    &&& v.slots == taken_count(v.places)
    &&& v.slots <= v.capacity
    &&& !v.bound_declared ==> v.capacity == 0
    &&& v.cursor == 0 || v.cursor < v.places.len()
    &&& forall|i: int|
        0 <= i < v.places.len() && (#[trigger] record_of(v.places[i])) is Some ==> record_of(
            v.places[i],
        ).unwrap() < v.next_record
    &&& forall|i: int, j: int|
        0 <= i < v.places.len() && 0 <= j < v.places.len() && i != j && (#[trigger] record_of(
            v.places[i],
        )) is Some ==> record_of(v.places[i]) != #[trigger] record_of(v.places[j])
}

proof fn lemma_taken_count_update(s: Seq<PlaceView>, i: int, p: PlaceView)
    requires
        0 <= i < s.len(),
    ensures
        taken_count(s.update(i, p)) + (if s[i] is Taken {
            1int
        } else {
            0int
        }) == taken_count(s) + (if p is Taken {
            1int
        } else {
            0int
        }),
    decreases s.len(),
{
    let t = s.update(i, p);
    if i == s.len() - 1 {
        assert(t.drop_last() =~= s.drop_last());
    } else {
        lemma_taken_count_update(s.drop_last(), i, p);
        assert(t.drop_last() =~= s.drop_last().update(i, p));
    }
}

proof fn lemma_taken_count_push_free(s: Seq<PlaceView>)
    ensures
        taken_count(s.push(PlaceView::Free)) == taken_count(s),
{
    assert(s.push(PlaceView::Free).drop_last() =~= s);
}

proof fn lemma_taken_count_bound(s: Seq<PlaceView>)
    ensures
        taken_count(s) <= s.len(),
        taken_count(s) == s.len() ==> forall|i: int| 0 <= i < s.len() ==> #[trigger] s[i] is Taken,
    decreases s.len(),
{
    if s.len() > 0 {
        lemma_taken_count_bound(s.drop_last());
        if taken_count(s) == s.len() {
            assert forall|i: int| 0 <= i < s.len() implies #[trigger] s[i] is Taken by {
                if i < s.len() - 1 {
                    assert(s.drop_last()[i] == s[i]);
                }
            }
        }
    }
}

impl<P> PrivateContinuationPlaces<P> {
    pub open spec fn wf(&self) -> bool {
        places_wf(self@)
    }

    /// No places and no bound: a store told no bound admits no connection.
    pub fn new() -> (r: Self)
        ensures
            r.wf(),
            r@ == (PlacesView {
                places: Seq::empty(),
                slots: 0,
                bound_declared: false,
                capacity: 0,
                cursor: 0,
                abandoned: 0,
                next_record: 0,
            }),
    {
        let r = PrivateContinuationPlaces {
            places: Vec::new(),
            slots: 0,
            bound_declared: false,
            capacity: 0,
            cursor: 0,
            abandoned: 0,
            next_record: 0,
        };
        proof {
            assert(r@.places =~= Seq::<PlaceView>::empty());
        }
        r
    }

    /// A store with its connection bound declared at once.
    pub fn with_bound(connections: usize) -> (r: Self)
        ensures
            r.wf(),
            r@ == (PlacesView {
                places: Seq::empty(),
                slots: 0,
                bound_declared: true,
                capacity: connections as nat,
                cursor: 0,
                abandoned: 0,
                next_record: 0,
            }),
    {
        let r = PrivateContinuationPlaces {
            places: Vec::with_capacity(connections),
            slots: 0,
            bound_declared: true,
            capacity: connections,
            cursor: 0,
            abandoned: 0,
            next_record: 0,
        };
        proof {
            assert(r@.places =~= Seq::<PlaceView>::empty());
        }
        r
    }

    /// Declare how many connections may hold a place at once.
    ///
    /// Declared once, and never reset over retained work: the bound in force
    /// wins and is reported back.
    pub fn declare_connection_bound(&mut self, connections: usize) -> (r: usize)
        requires
            old(self).wf(),
            connections > 0,
        ensures
            final(self).wf(),
            old(self)@.bound_declared ==> r == old(self)@.capacity && final(self)@ == old(self)@,
            !old(self)@.bound_declared ==> r == connections && final(self)@ == (PlacesView {
                capacity: connections as nat,
                bound_declared: true,
                ..old(self)@
            }),
    {
        if self.bound_declared {
            return self.capacity;
        }
        self.capacity = connections;
        self.bound_declared = true;
        connections
    }

    fn free_index(&self) -> (r: Option<usize>)
        ensures
            match r {
                Some(i) => i < self@.places.len() && self@.places[i as int] is Free,
                None => forall|i: int| 0 <= i < self@.places.len() ==> #[trigger] self@.places[i] is Taken,
            },
    {
        let mut i: usize = 0;
        while i < self.places.len()
            invariant
                i <= self.places@.len(),
                forall|j: int| 0 <= j < i ==> #[trigger] self@.places[j] is Taken,
            decreases self.places.len() - i,
        {
            match &self.places[i] {
                PrivateOrderedContinuationPlace::Free => {
                    return Some(i);
                },
                PrivateOrderedContinuationPlace::Taken { .. } => {},
            }
            i = i + 1;
        }
        None
    }

    /// Take the place one connection's ordered continuation will need, before
    /// that connection is exposed.
    ///
    /// A free place, not merely an empty one: a place already promised holds
    /// nothing yet, and taking it again would give two connections the same
    /// destination. The home is made here, empty and live.
    pub fn reserve(&mut self) -> (r: Result<PrivateOrderedContinuationSlot, AdmissionRefusal>)
        requires
            old(self).wf(),
        ensures
            final(self).wf(),
            old(self)@.slots >= old(self)@.capacity ==> r == Err::<
                PrivateOrderedContinuationSlot,
                AdmissionRefusal,
            >(AdmissionRefusal::Saturated) && final(self)@ == old(self)@,
            old(self)@.slots < old(self)@.capacity && old(self)@.next_record == u64::MAX ==> r
                == Err::<PrivateOrderedContinuationSlot, AdmissionRefusal>(
                AdmissionRefusal::Saturated,
            ) && final(self)@ == old(self)@,
            r is Ok ==> {
                let slot = r.unwrap();
                &&& slot.armed()
                &&& slot.record() == old(self)@.next_record
                &&& final(self)@.next_record == old(self)@.next_record + 1
                &&& final(self)@.slots == old(self)@.slots + 1
                &&& 0 <= slot.index() < final(self)@.places.len()
                &&& final(self)@.places.len() == old(self)@.places.len() || (final(self)@.places.len()
                    == old(self)@.places.len() + 1 && slot.index() == old(self)@.places.len())
                &&& (slot.index() < old(self)@.places.len() ==> old(self)@.places[slot.index()] is Free)
                &&& final(self)@.places[slot.index()] == (PlaceView::Taken {
                    record: slot.record(),
                    standing: PrivateHomeStanding::Live,
                    occupied: false,
                    readable: true,
                })
                &&& forall|j: int|
                    0 <= j < old(self)@.places.len() && j != slot.index() ==> final(self)@.places[j]
                        == old(self)@.places[j]
                &&& final(self)@.capacity == old(self)@.capacity
                &&& final(self)@.abandoned == old(self)@.abandoned
            },
            old(self)@.slots < old(self)@.capacity && old(self)@.next_record < u64::MAX ==> r is Ok,
    {
        if self.slots >= self.capacity {
            return Err(AdmissionRefusal::Saturated);
        }
        if self.next_record == u64::MAX {
            return Err(AdmissionRefusal::Saturated);
        }
        let ghost pre = self@;
        let index = match self.free_index() {
            Some(index) => index,
            None => {
                proof {
                    lemma_taken_count_push_free(pre.places);
                }
                self.places.push(PrivateOrderedContinuationPlace::Free);
                proof {
                    assert(self@.places =~= pre.places.push(PlaceView::Free));
                }
                self.places.len() - 1
            },
        };
        let ghost mid = self@;
        let record = self.next_record;
        proof {
            lemma_taken_count_update(mid.places, index as int, PlaceView::Taken {
                record,
                standing: PrivateHomeStanding::Live,
                occupied: false,
                readable: true,
            });
        }
        self.places.set(
            index,
            PrivateOrderedContinuationPlace::Taken { record, home: PrivateOrderedHome::empty() },
        );
        self.slots = self.slots + 1;
        self.next_record = self.next_record + 1;
        proof {
            assert(self@.places =~= mid.places.update(index as int, PlaceView::Taken {
                record,
                standing: PrivateHomeStanding::Live,
                occupied: false,
                readable: true,
            }));
        }
        Ok(PrivateOrderedContinuationSlot { index, record, armed: true })
    }

    /// Whether the place at `index` still holds `record`.
    fn holds(&self, index: usize, record: u64) -> (r: bool)
        ensures
            r == holds_record(self@.places, index as int, record),
    {
        if index >= self.places.len() {
            return false;
        }
        match &self.places[index] {
            PrivateOrderedContinuationPlace::Taken { record: held, .. } => *held == record,
            PrivateOrderedContinuationPlace::Free => false,
        }
    }

    /// Free a place, if `record` still holds it.
    fn free_if_held(&mut self, index: usize, record: u64) -> (r: bool)
        requires
            old(self).wf(),
        ensures
            final(self).wf(),
            r == holds_record(old(self)@.places, index as int, record),
            r ==> final(self)@ == (PlacesView {
                places: old(self)@.places.update(index as int, PlaceView::Free),
                slots: (old(self)@.slots - 1) as nat,
                ..old(self)@
            }),
            !r ==> final(self)@ == old(self)@,
    {
        if !self.holds(index, record) {
            return false;
        }
        let ghost pre = self@;
        proof {
            lemma_taken_count_update(pre.places, index as int, PlaceView::Free);
        }
        self.places.set(index, PrivateOrderedContinuationPlace::Free);
        self.slots = self.slots - 1;
        proof {
            assert(self@.places =~= pre.places.update(index as int, PlaceView::Free));
        }
        true
    }

    /// How many places are taken, live and retained together.
    pub fn reserved(&self) -> (r: usize)
        ensures
            r == self@.slots,
    {
        self.slots
    }

    /// How many places went with a holder that disposed of neither.
    pub fn abandoned(&self) -> (r: usize)
        ensures
            r == self@.abandoned,
    {
        self.abandoned
    }
}


/// The place a home now in it makes.
pub open spec fn taken_place<P>(record: u64, h: HomeView<P>) -> PlaceView {
    PlaceView::Taken {
        record,
        standing: h.standing,
        occupied: h.payload is Some,
        readable: h.readable,
    }
}

impl<P> PrivateContinuationPlaces<P> {
    /// What the home at a held place looks like.
    pub closed spec fn home_view(&self, index: int) -> HomeView<P> {
        match self.places@[index] {
            PrivateOrderedContinuationPlace::Taken { home, .. } => home@,
            PrivateOrderedContinuationPlace::Free => HomeView {
                payload: None,
                standing: PrivateHomeStanding::Live,
                readable: true,
            },
        }
    }

    pub proof fn lemma_home_view(&self, index: int)
        requires
            0 <= index < self@.places.len(),
            self@.places[index] is Taken,
        ensures
            self@.places[index] == taken_place(record_of(self@.places[index]).unwrap(), self.home_view(index)),
    {
    }

    /// Bind a connection's output into its place's home, if `record` still
    /// holds the place. The offer comes back whole when there is no place.
    pub fn bind_home(&mut self, index: usize, record: u64, payload: P) -> (r: Result<
        PrivateHomeBinding<P>,
        P,
    >)
        requires
            old(self).wf(),
        ensures
            final(self).wf(),
            !holds_record(old(self)@.places, index as int, record) ==> r == Err::<
                PrivateHomeBinding<P>,
                P,
            >(payload) && final(self)@ == old(self)@,
            holds_record(old(self)@.places, index as int, record) ==> r is Ok && final(self).home_view(index as int)
                == bind_spec(old(self).home_view(index as int), payload) && final(self)@ == (
            PlacesView {
                places: old(self)@.places.update(
                    index as int,
                    taken_place(record, bind_spec(old(self).home_view(index as int), payload)),
                ),
                ..old(self)@
            }),
    {
        if !self.holds(index, record) {
            return Err(payload);
        }
        let ghost pre = self@;
        let ghost pre_raw = self.places@;
        let result = match &mut self.places[index] {
            PrivateOrderedContinuationPlace::Taken { home, .. } => home.bind(payload),
            PrivateOrderedContinuationPlace::Free => PrivateHomeBinding::Ended(payload),
        };
        proof {
            let np = taken_place(record, bind_spec(old(self).home_view(index as int), payload));
            assert(self@.places =~= pre.places.update(index as int, np));
            lemma_taken_count_update(pre.places, index as int, np);
            assert forall|i: int| 0 <= i < pre.places.len() implies record_of(self@.places[i])
                == record_of(pre.places[i]) by {}
        }
        Ok(result)
    }
}


proof fn lemma_same_records_wf(pre: PlacesView, post: PlacesView, index: int)
    requires
        places_wf(pre),
        0 <= index < pre.places.len(),
        pre.places[index] is Taken,
        post.places[index] is Taken,
        record_of(post.places[index]) == record_of(pre.places[index]),
        post == (PlacesView { places: pre.places.update(index, post.places[index]), ..pre }),
    ensures
        places_wf(post),
{
    lemma_taken_count_update(pre.places, index, post.places[index]);
    assert forall|i: int| 0 <= i < pre.places.len() implies record_of(post.places[i]) == record_of(
        pre.places[i],
    ) by {}
}

/// One more, unless the count is already at its limit.
pub open spec fn sat_inc(n: nat) -> nat {
    if n < usize::MAX {
        n + 1
    } else {
        n
    }
}

/// Whether a place is a retained one, in the order a drive looks at them.
pub open spec fn is_retained_place(p: PlaceView) -> bool {
    p matches PlaceView::Taken { standing: PrivateHomeStanding::Retained, .. }
}

impl<P> PrivateContinuationPlaces<P> {
    /// Say that the connection holding a place has ended, if `record` still
    /// holds it. Returns whether anything is in its home to be owed.
    pub fn retain_home(&mut self, index: usize, record: u64) -> (r: Option<bool>)
        requires
            old(self).wf(),
        ensures
            final(self).wf(),
            !holds_record(old(self)@.places, index as int, record) ==> r is None && final(self)@
                == old(self)@,
            holds_record(old(self)@.places, index as int, record) ==> r == Some(
                old(self).home_view(index as int).payload is Some,
            ) && final(self).home_view(index as int) == (HomeView {
                standing: PrivateHomeStanding::Retained,
                ..old(self).home_view(index as int)
            }) && final(self)@ == (PlacesView {
                places: old(self)@.places.update(
                    index as int,
                    taken_place(
                        record,
                        HomeView {
                            standing: PrivateHomeStanding::Retained,
                            ..old(self).home_view(index as int)
                        },
                    ),
                ),
                ..old(self)@
            }),
    {
        if !self.holds(index, record) {
            return None;
        }
        let ghost pre = self@;
        let owed = match &mut self.places[index] {
            PrivateOrderedContinuationPlace::Taken { home, .. } => home.retain(),
            PrivateOrderedContinuationPlace::Free => false,
        };
        proof {
            let np = taken_place(
                record,
                HomeView {
                    standing: PrivateHomeStanding::Retained,
                    ..old(self).home_view(index as int)
                },
            );
            assert(self@.places =~= pre.places.update(index as int, np));
            lemma_same_records_wf(pre, self@, index as int);
        }
        Some(owed)
    }

    /// Give a place back, once the work in it is gone -- only if `record`
    /// still holds it. A place that has moved on to another connection is
    /// theirs, and returning it would take somebody else's.
    pub fn return_ordered_continuation(&mut self, index: usize, record: u64) -> (r: bool)
        requires
            old(self).wf(),
        ensures
            final(self).wf(),
            r == holds_record(old(self)@.places, index as int, record),
            r ==> final(self)@ == (PlacesView {
                places: old(self)@.places.update(index as int, PlaceView::Free),
                slots: (old(self)@.slots - 1) as nat,
                ..old(self)@
            }),
            !r ==> final(self)@ == old(self)@,
    {
        self.free_if_held(index, record)
    }

    /// How many continuations are actually retained here: retained homes
    /// holding work.
    ///
    /// `None` if any taken home cannot be read: an unreadable record is not
    /// an absent one.
    pub fn retained(&self) -> (r: Option<usize>)
        ensures
            r is Some ==> all_taken_readable(self@.places),
            r is None ==> exists|i: int|
                0 <= i < self@.places.len() && #[trigger] self@.places[i] is Taken && !self@.places[i]->readable,
            r is Some ==> r.unwrap() == retained_count(self@.places),
    {
        let mut retained: usize = 0;
        let mut i: usize = 0;
        proof {
            assert(self@.places.take(0) =~= Seq::<PlaceView>::empty());
        }
        while i < self.places.len()
            invariant
                i <= self@.places.len(),
                forall|j: int|
                    0 <= j < i && #[trigger] self@.places[j] is Taken ==> self@.places[j]->readable,
                retained as nat == retained_count(self@.places.take(i as int)),
                retained <= i,
            decreases self.places.len() - i,
        {
            proof {
                assert(self@.places.take(i + 1).drop_last() =~= self@.places.take(i as int));
            }
            match &self.places[i] {
                PrivateOrderedContinuationPlace::Taken { home, .. } => {
                    match home.retaining() {
                        None => {
                            proof {
                                assert(self@.places[i as int] == place_view(self.places@[i as int]));
                            }
                            return None;
                        },
                        Some(true) => {
                            retained = retained + 1;
                        },
                        Some(false) => {},
                    }
                },
                PrivateOrderedContinuationPlace::Free => {},
            }
            i = i + 1;
        }
        proof {
            assert(self@.places.take(i as int) =~= self@.places);
        }
        Some(retained)
    }
}

/// How many places hold a retained home with work in it.
/// Whether every taken place's home can be read.
pub open spec fn all_taken_readable(s: Seq<PlaceView>) -> bool {
    forall|i: int| 0 <= i < s.len() && #[trigger] s[i] is Taken ==> s[i]->readable
}

pub open spec fn retained_count(s: Seq<PlaceView>) -> nat
    decreases s.len(),
{
    if s.len() == 0 {
        0
    } else {
        retained_count(s.drop_last()) + if s.last() matches PlaceView::Taken {
            standing: PrivateHomeStanding::Retained,
            occupied: true,
            ..
        } {
            1nat
        } else {
            0nat
        }
    }
}

impl PrivateOrderedContinuationSlot {
    /// Whether the place still holds the record this lease was made for.
    pub fn holds<P>(&self, store: &PrivateContinuationPlaces<P>) -> (r: bool)
        ensures
            r == holds_record(store@.places, self.index(), self.record()),
    {
        store.holds(self.index, self.record)
    }

    /// Give the place back, for a connection that was never exposed.
    pub fn relinquish_unexposed<P>(self, store: &mut PrivateContinuationPlaces<P>) -> (r: bool)
        requires
            old(store).wf(),
        ensures
            final(store).wf(),
            r == holds_record(old(store)@.places, self.index(), self.record()),
            r ==> final(store)@ == (PlacesView {
                places: old(store)@.places.update(self.index(), PlaceView::Free),
                slots: (old(store)@.slots - 1) as nat,
                ..old(store)@
            }),
            !r ==> final(store)@ == old(store)@,
    {
        self.give_back(store)
    }

    /// Give the place back, for a connection that finished owing nothing.
    pub fn finish<P>(self, store: &mut PrivateContinuationPlaces<P>) -> (r: bool)
        requires
            old(store).wf(),
        ensures
            final(store).wf(),
            r == holds_record(old(store)@.places, self.index(), self.record()),
            r ==> final(store)@ == (PlacesView {
                places: old(store)@.places.update(self.index(), PlaceView::Free),
                slots: (old(store)@.slots - 1) as nat,
                ..old(store)@
            }),
            !r ==> final(store)@ == old(store)@,
    {
        self.give_back(store)
    }

    /// The place is checked, not merely its number: freeing a place that has
    /// moved on takes it from whoever holds it now.
    fn give_back<P>(self, store: &mut PrivateContinuationPlaces<P>) -> (r: bool)
        requires
            old(store).wf(),
        ensures
            final(store).wf(),
            r == holds_record(old(store)@.places, self.index(), self.record()),
            r ==> final(store)@ == (PlacesView {
                places: old(store)@.places.update(self.index(), PlaceView::Free),
                slots: (old(store)@.slots - 1) as nat,
                ..old(store)@
            }),
            !r ==> final(store)@ == old(store)@,
    {
        store.free_if_held(self.index, self.record)
    }

    /// Give up this place without disposing of it, and say so -- only if this
    /// lease still owes the duty, and only over a place that is still its own.
    pub fn abandon<P>(&mut self, store: &mut PrivateContinuationPlaces<P>)
        requires
            old(store).wf(),
        ensures
            final(store).wf(),
            !final(self).armed(),
            final(self).index() == old(self).index(),
            final(self).record() == old(self).record(),
            final(store)@ == if old(self).armed() && holds_record(
                old(store)@.places,
                old(self).index(),
                old(self).record(),
            ) {
                PlacesView { abandoned: sat_inc(old(store)@.abandoned), ..old(store)@ }
            } else {
                old(store)@
            },
    {
        if self.armed && store.holds(self.index, self.record) {
            store.abandoned = store.abandoned.saturating_add(1);
        }
        self.armed = false;
    }
}


impl PrivateOrderedContinuationSlot {
    /// Say that this connection has ended, and account for its place on the
    /// home's answer. Consumes the lease: a place is accounted for once.
    pub fn commit<P>(self, store: &mut PrivateContinuationPlaces<P>, owed: bool) -> (r:
        PrivateContinuationCommit)
        requires
            old(store).wf(),
        ensures
            final(store).wf(),
            !holds_record(old(store)@.places, self.index(), self.record()) ==> r
                == PrivateContinuationCommit::NoPlace && final(store)@ == old(store)@,
            holds_record(old(store)@.places, self.index(), self.record()) && owed ==> r
                == PrivateContinuationCommit::Retained && final(store)@ == old(store)@,
            holds_record(old(store)@.places, self.index(), self.record()) && !owed ==> r
                == PrivateContinuationCommit::NothingBound && final(store)@ == if self.armed() {
                PlacesView { abandoned: sat_inc(old(store)@.abandoned), ..old(store)@ }
            } else {
                old(store)@
            },
    {
        let mut lease = self;
        if !store.holds(lease.index, lease.record) {
            lease.armed = false;
            return PrivateContinuationCommit::NoPlace;
        }
        if owed {
            lease.armed = false;
            PrivateContinuationCommit::Retained
        } else {
            lease.abandon(store);
            PrivateContinuationCommit::NothingBound
        }
    }

    /// What a lease that was neither installed into nor finished leaves when
    /// it goes: the place stays taken, and that nobody disposed of it is
    /// counted, if the place is still its own.
    pub fn dispose<P>(self, store: &mut PrivateContinuationPlaces<P>)
        requires
            old(store).wf(),
        ensures
            final(store).wf(),
            final(store)@ == if self.armed() && holds_record(
                old(store)@.places,
                self.index(),
                self.record(),
            ) {
                PlacesView { abandoned: sat_inc(old(store)@.abandoned), ..old(store)@ }
            } else {
                old(store)@
            },
    {
        if !self.armed {
            return;
        }
        if store.holds(self.index, self.record) {
            store.abandoned = store.abandoned.saturating_add(1);
        }
    }
}

/// What a drive may do to the places: live homes and free places are not
/// touched; a retained place keeps its record or is freed; nothing else moves.
pub open spec fn drive_bounded(pre: PlacesView, post: PlacesView) -> bool {
    &&& post.places.len() == pre.places.len()
    &&& forall|i: int|
        0 <= i < pre.places.len() && !is_retained_place(#[trigger] pre.places[i]) ==> post.places[i]
            == pre.places[i]
    &&& forall|i: int|
        0 <= i < pre.places.len() && is_retained_place(#[trigger] pre.places[i]) ==> (
        post.places[i] is Free || (is_retained_place(post.places[i]) && record_of(post.places[i])
            == record_of(pre.places[i])))
    &&& post.capacity == pre.capacity
    &&& post.bound_declared == pre.bound_declared
    &&& post.abandoned == pre.abandoned
    &&& post.next_record == pre.next_record
}

proof fn lemma_drive_bounded_trans(a: PlacesView, b: PlacesView, c: PlacesView)
    requires
        drive_bounded(a, b),
        drive_bounded(b, c),
    ensures
        drive_bounded(a, c),
{
    assert forall|i: int|
        0 <= i < a.places.len() && is_retained_place(#[trigger] a.places[i]) implies (
        c.places[i] is Free || (is_retained_place(c.places[i]) && record_of(c.places[i])
            == record_of(a.places[i]))) by {
        if b.places[i] is Free {
            assert(!is_retained_place(b.places[i]));
        }
    }
}

/// The place `s` steps on from `cursor`, wrapping at `places`.
pub open spec fn rotated(cursor: int, places: int, s: int) -> int {
    if s < places - cursor {
        cursor + s
    } else {
        s - (places - cursor)
    }
}

/// Whether step `s` of a rotation from the cursor reaches the first retained
/// place.
pub open spec fn first_retained_step(v: PlacesView, s: int) -> bool {
    let n = v.places.len() as int;
    &&& 0 <= s < n
    &&& is_retained_place(v.places[rotated(v.cursor as int, n, s)])
    &&& forall|t: int| 0 <= t < s ==> !is_retained_place(#[trigger] v.places[rotated(v.cursor as int, n, t)])
}

/// Whether a place's home holds something.
pub open spec fn occupied_place(p: PlaceView) -> bool {
    p matches PlaceView::Taken { occupied: true, .. }
}

proof fn lemma_first_retained_unique(v: PlacesView, s1: int, s2: int)
    requires
        first_retained_step(v, s1),
        first_retained_step(v, s2),
    ensures
        s1 == s2,
{
    let n = v.places.len() as int;
    if s1 < s2 {
        assert(!is_retained_place(v.places[rotated(v.cursor as int, n, s1)]));
    } else if s2 < s1 {
        assert(!is_retained_place(v.places[rotated(v.cursor as int, n, s2)]));
    }
}

impl<P: PrivateOrderedContinuationDuty> PrivateContinuationPlaces<P> {
    /// The first retained place from the cursor on, if any.
    fn next_retained(&self) -> (r: Option<usize>)
        requires
            self.wf(),
        ensures
            match r {
                Some(i) => i < self@.places.len() && is_retained_place(self@.places[i as int]) && exists|s: int|
                    first_retained_step(self@, s) && i == rotated(
                        self@.cursor as int,
                        self@.places.len() as int,
                        s,
                    ),
                None => forall|i: int|
                    0 <= i < self@.places.len() ==> !is_retained_place(#[trigger] self@.places[i]),
            },
    {
        let places = self.places.len();
        let mut step: usize = 0;
        while step < places
            invariant
                places == self@.places.len(),
                step <= places,
                self.cursor == 0 || self.cursor < places,
                forall|s: int|
                    0 <= s < step ==> !is_retained_place(
                        self@.places[#[trigger] rotated(self.cursor as int, places as int, s)],
                    ),
            decreases places - step,
        {
            let index = if step < places - self.cursor {
                self.cursor + step
            } else {
                step - (places - self.cursor)
            };
            proof {
                assert(self@.places[index as int] == place_view(self.places@[index as int]));
            }
            match &self.places[index] {
                PrivateOrderedContinuationPlace::Taken { home, .. } => {
                    match home.standing() {
                        PrivateHomeStanding::Retained => {
                            proof {
                                assert(index as int == rotated(self.cursor as int, places as int, step as int));
                                assert(first_retained_step(self@, step as int));
                            }
                            return Some(index);
                        },
                        PrivateHomeStanding::Live => {},
                    }
                },
                PrivateOrderedContinuationPlace::Free => {},
            }
            step = step + 1;
        }
        proof {
            assert forall|i: int| 0 <= i < places implies !is_retained_place(
                #[trigger] self@.places[i],
            ) by {
                let s = if i >= self.cursor {
                    i - self.cursor
                } else {
                    i + (places - self.cursor)
                };
                assert(0 <= s < step);
                assert(rotated(self.cursor as int, places as int, s) == i);
            }
        }
        None
    }

    /// Give one bounded visit to each retained continuation in turn.
    ///
    /// Fair: the cursor is kept, so the next round starts after the one
    /// served last. A live home is not this drive's to touch, a reserved home
    /// that never bound is not visited, and a place comes back only when its
    /// continuation says it is settled.
    pub fn drive(&mut self, visits: usize) -> (driven: usize)
        requires
            old(self).wf(),
        ensures
            final(self).wf(),
            driven <= visits,
            drive_bounded(old(self)@, final(self)@),
            (forall|i: int| 0 <= i < old(self)@.places.len() ==> !is_retained_place(#[trigger] old(self)@.places[i]))
                ==> driven == 0 && final(self)@ == old(self)@,
            visits > 0 ==> forall|s: int|
                #[trigger] first_retained_step(old(self)@, s) && occupied_place(
                    old(self)@.places[rotated(old(self)@.cursor as int, old(self)@.places.len() as int, s)],
                ) ==> driven >= 1,
    {
        let mut driven: usize = 0;
        let mut v: usize = 0;
        let ghost pre = self@;
        while v < visits
            invariant
                self.wf(),
                driven <= v <= visits,
                pre == old(self)@,
                drive_bounded(pre, self@),
                v == 0 ==> self@ == pre && driven == 0,
                (forall|i: int| 0 <= i < pre.places.len() ==> !is_retained_place(#[trigger] pre.places[i]))
                    ==> self@ == pre && driven == 0,
                v >= 1 ==> forall|s: int|
                    #[trigger] first_retained_step(pre, s) && occupied_place(
                        pre.places[rotated(pre.cursor as int, pre.places.len() as int, s)],
                    ) ==> driven >= 1,
            decreases visits - v,
        {
            let ghost v0 = v;
            v = v + 1;
            let places = self.places.len();
            if places == 0 {
                return driven;
            }
            let index = match self.next_retained() {
                Some(index) => index,
                None => {
                    return driven;
                },
            };
            let ghost before = self@;
            self.cursor = if index + 1 < places {
                index + 1
            } else {
                0
            };
            proof {
                assert(self@.places == before.places);
            }
            let ghost at_cursor = self@;
            proof {
                if v0 == 0 {
                    assert(before == pre);
                }
                assert(at_cursor.places[index as int] == place_view(self.places@[index as int]));
            }
            let outcome = match &mut self.places[index] {
                PrivateOrderedContinuationPlace::Taken { home, record } => {
                    let r = match home.borrow() {
                        Some(continuation) => {
                            continuation.visit();
                            Some(continuation.settled())
                        },
                        None => None,
                    };
                    (r, *record)
                },
                PrivateOrderedContinuationPlace::Free => (None, 0),
            };
            proof {
                let np = self@.places[index as int];
                assert(self@.places =~= at_cursor.places.update(index as int, np));
                assert(np == place_view(self.places@[index as int]));
                lemma_same_records_wf(at_cursor, self@, index as int);
                assert(drive_bounded(at_cursor, self@));
                lemma_drive_bounded_trans(pre, before, self@);
            }
            proof {
                if v0 == 0 {
                    assert forall|s: int|
                        #[trigger] first_retained_step(pre, s) && occupied_place(
                            pre.places[rotated(pre.cursor as int, pre.places.len() as int, s)],
                        ) implies outcome.0 is Some by {
                        let s0 = choose|s0: int|
                            first_retained_step(before, s0) && index == rotated(
                                before.cursor as int,
                                before.places.len() as int,
                                s0,
                            );
                        lemma_first_retained_unique(pre, s, s0);
                    }
                }
            }
            match outcome.0 {
                None => {},
                Some(settled) => {
                    driven = driven + 1;
                    if settled {
                        let ghost before_free = self@;
                        self.free_if_held(index, outcome.1);
                        proof {
                            assert(drive_bounded(before_free, self@));
                            lemma_drive_bounded_trans(pre, before_free, self@);
                        }
                    }
                },
            }
        }
        driven
    }
}


/// What an identity found when it went to its place. None of the answers is
/// "settled".
pub enum PrivateMaintenanceReach<R> {
    /// The place still holds this identity's own home, and here is what the
    /// act returned.
    Reached(R),
    /// The store has gone, and the place went with it.
    StoreGone,
    /// This is not the current occupant of that place.
    Stale,
}

impl<R> PrivateMaintenanceReach<R> {
    pub fn reached(self) -> (r: Option<R>)
        ensures
            match self {
                PrivateMaintenanceReach::Reached(v) => r == Some(v),
                _ => r is None,
            },
    {
        match self {
            PrivateMaintenanceReach::Reached(value) => Some(value),
            PrivateMaintenanceReach::StoreGone => None,
            PrivateMaintenanceReach::Stale => None,
        }
    }
}

/// The name one connection's obligation has: which place, and whose. It
/// names an occupant, not a number, and is inert.
#[derive(Debug, Clone, Copy, PartialEq, Eq, Structural)]
pub struct PrivateMaintenanceIdentity {
    pub index: usize,
    pub record: u64,
}

impl PrivateMaintenanceIdentity {
    /// Which place this names.
    pub fn place(&self) -> (r: usize)
        ensures
            r == self.index,
    {
        self.index
    }

    /// Whether this names the same connection's obligation as another.
    pub fn same_as(&self, other: &Self) -> (r: bool)
        ensures
            r == (self.index == other.index && self.record == other.record),
    {
        self.index == other.index && self.record == other.record
    }

    /// Whether the place this names still holds this identity's own home.
    /// Establishes reachability, nothing more.
    pub fn reaches<P>(&self, store: &PrivateContinuationPlaces<P>) -> (r: PrivateMaintenanceReach<()>)
        ensures
            r is Reached <==> holds_record(store@.places, self.index as int, self.record),
            !(r is StoreGone),
    {
        if store.holds(self.index, self.record) {
            PrivateMaintenanceReach::Reached(())
        } else {
            PrivateMaintenanceReach::Stale
        }
    }
}

impl PrivateOrderedContinuationSlot {
    /// The name of this connection's obligation: the same one every time.
    pub fn maintenance_identity(&self) -> (r: PrivateMaintenanceIdentity)
        ensures
            r == (PrivateMaintenanceIdentity { index: self.index() as usize, record: self.record() }),
    {
        PrivateMaintenanceIdentity { index: self.index, record: self.record }
    }
}

/// A lease that outlived its place -- returned, then reserved by the next
/// connection at the same number -- reaches nothing there: the successor's
/// place has an identity no earlier lease was given.
pub proof fn law_successor_place_is_not_the_predecessors(
    pre: PlacesView,
    post: PlacesView,
    index: int,
    old_record: u64,
)
    requires
        places_wf(pre),
        old_record < pre.next_record,
        0 <= index < post.places.len(),
        record_of(post.places[index]) == Some(pre.next_record),
    ensures
        !holds_record(post.places, index, old_record),
{
}

/// The store's count is the number of taken places and never exceeds the
/// declared bound; no two places carry one record.
pub proof fn law_reserved_is_taken_places(v: PlacesView)
    requires
        places_wf(v),
    ensures
        v.slots == taken_count(v.places),
        v.slots <= v.capacity,
        forall|i: int, j: int|
            0 <= i < v.places.len() && 0 <= j < v.places.len() && i != j && record_of(v.places[i])
                is Some ==> record_of(v.places[i]) != record_of(v.places[j]),
{
}

} // verus!
