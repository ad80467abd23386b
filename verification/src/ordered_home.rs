// Where one connection's ordered output lives, from before it is exposed
// until whoever is responsible for it is finished.
//
// A place is capacity in the store; this is the thing that sits in one.
// Nothing moves when the connection ends: what changes is its standing.
use vstd::prelude::*;

verus! {

/// Whether a home's connection is still there.
///
/// Not the same question as whether it holds anything. What this says is who
/// may act on it.
#[derive(Debug, Clone, Copy, PartialEq, Eq)]
pub enum PrivateHomeStanding {
    /// A registration still holds this. It may still bind into it.
    Live,
    /// The connection has ended, and what is here is owed to whoever drives
    /// it. Nothing will be bound into it again.
    Retained,
}

/// What a home said when something was offered to it.
pub enum PrivateHomeBinding<P> {
    /// It is in the home now.
    Bound,
    /// Something is already here. The offer comes back untouched.
    Occupied(P),
    /// The connection this home belongs to has ended. The offer comes back.
    Ended(P),
}

/// The one place a connection's ordered output lives.
///
/// One owner, many handles: the payload is owned here and borrowed in place.
pub struct PrivateOrderedHome<P> {
    payload: Option<P>,
    standing: PrivateHomeStanding,
    /// Whether a holder panicked inside this home.
    poisoned: bool,
}

/// A home as it can be read.
pub ghost struct HomeView<P> {
    pub payload: Option<P>,
    pub standing: PrivateHomeStanding,
    pub readable: bool,
}

impl<P> View for PrivateOrderedHome<P> {
    type V = HomeView<P>;

    closed spec fn view(&self) -> HomeView<P> {
        HomeView { payload: self.payload, standing: self.standing, readable: !self.poisoned }
    }
}

/// What `bind` leaves in the home.
pub open spec fn bind_spec<P>(v: HomeView<P>, payload: P) -> HomeView<P> {
    if v.standing == PrivateHomeStanding::Live && v.payload is None {
        HomeView { payload: Some(payload), ..v }
    } else {
        v
    }
}

impl<P> PrivateOrderedHome<P> {
    /// A home for a place that has just been reserved: empty and live.
    pub fn empty() -> (r: Self)
        ensures
            r@ == (HomeView::<P> {
                payload: None,
                standing: PrivateHomeStanding::Live,
                readable: true,
            }),
    {
        PrivateOrderedHome { payload: None, standing: PrivateHomeStanding::Live, poisoned: false }
    }

    /// Record that a holder panicked inside this home.
    pub fn mark_poisoned(&mut self)
        ensures
            final(self)@ == (HomeView { readable: false, ..old(self)@ }),
    {
        self.poisoned = true;
    }

    /// Put this connection's ordered output in its home.
    ///
    /// The offer comes back if it is refused: dropping it to report a refusal
    /// would destroy the thing the refusal is about.
    pub fn bind(&mut self, payload: P) -> (r: PrivateHomeBinding<P>)
        ensures
            final(self)@ == bind_spec(old(self)@, payload),
            match r {
                PrivateHomeBinding::Bound => old(self)@.standing == PrivateHomeStanding::Live
                    && old(self)@.payload is None,
                PrivateHomeBinding::Occupied(back) => old(self)@.standing
                    == PrivateHomeStanding::Live && old(self)@.payload is Some && back == payload,
                PrivateHomeBinding::Ended(back) => old(self)@.standing
                    == PrivateHomeStanding::Retained && back == payload,
            },
    {
        match self.standing {
            PrivateHomeStanding::Retained => PrivateHomeBinding::Ended(payload),
            PrivateHomeStanding::Live => {
                if self.payload.is_some() {
                    PrivateHomeBinding::Occupied(payload)
                } else {
                    self.payload = Some(payload);
                    PrivateHomeBinding::Bound
                }
            },
        }
    }

    /// Act on what is here, if anything is, in place.
    ///
    /// Goes ahead through poison, as every act that has to happen does.
    pub fn borrow(&mut self) -> (r: Option<&mut P>)
        ensures
            old(self)@.payload is None ==> r is None && final(self)@ == old(self)@,
            old(self)@.payload is Some ==> r is Some && *r.unwrap() == old(self)@.payload.unwrap()
                && final(self)@ == (HomeView {
                payload: Some(*final(r.unwrap())),
                ..old(self)@
            }),
    {
        self.payload.as_mut()
    }

    /// Read what is here, saying separately that it could not be read.
    ///
    /// `None` means a holder panicked inside this home; `Some(None)` means it
    /// holds nothing.
    pub fn peek(&self) -> (r: Option<Option<&P>>)
        ensures
            r == if self@.readable {
                Some(
                    match self@.payload {
                        Some(p) => Some(&p),
                        None => None,
                    },
                )
            } else {
                None
            },
    {
        if self.poisoned {
            return None;
        }
        Some(self.payload.as_ref())
    }

    /// Act on this home's own storage, for the one caller that replaces what
    /// is here. `None` means a holder panicked inside this home.
    pub fn occupy(&mut self) -> (r: Option<&mut Option<P>>)
        ensures
            !old(self)@.readable ==> r is None && final(self)@ == old(self)@,
            old(self)@.readable ==> r is Some && *r.unwrap() == old(self)@.payload
                && final(self)@ == (HomeView { payload: *final(r.unwrap()), ..old(self)@ }),
    {
        if self.poisoned {
            return None;
        }
        Some(&mut self.payload)
    }

    /// Whether a holder panicked inside this home.
    pub fn unreadable(&self) -> (r: bool)
        ensures
            r == !self@.readable,
    {
        self.poisoned
    }

    /// Whether anything is here.
    pub fn occupied(&self) -> (r: bool)
        ensures
            r == self@.payload is Some,
    {
        self.payload.is_some()
    }

    pub fn standing(&self) -> (r: PrivateHomeStanding)
        ensures
            r == self@.standing,
    {
        self.standing
    }

    /// Whether this home is a retained one holding work.
    ///
    /// `None` if it cannot be read, and not `false`: counting a home a holder
    /// panicked inside as holding nothing would publish a zero for an
    /// obligation that is still owned.
    pub fn retaining(&self) -> (r: Option<bool>)
        ensures
            r == if self@.readable {
                Some(self@.standing == PrivateHomeStanding::Retained && self@.payload is Some)
            } else {
                None::<bool>
            },
    {
        if self.poisoned {
            return None;
        }
        let retained = match self.standing {
            PrivateHomeStanding::Retained => true,
            PrivateHomeStanding::Live => false,
        };
        Some(retained && self.payload.is_some())
    }

    /// Say that the connection this belongs to has ended.
    ///
    /// Idempotent. Returns whether anything is here to be owed.
    pub fn retain(&mut self) -> (r: bool)
        ensures
            final(self)@ == (HomeView { standing: PrivateHomeStanding::Retained, ..old(self)@ }),
            r == old(self)@.payload is Some,
    {
        self.standing = PrivateHomeStanding::Retained;
        self.payload.is_some()
    }
}

/// Retaining twice is retaining once.
pub proof fn law_retain_is_idempotent<P>(v: HomeView<P>)
    ensures
        (HomeView { standing: PrivateHomeStanding::Retained, ..(HomeView {
            standing: PrivateHomeStanding::Retained,
            ..v
        }) }) == (HomeView { standing: PrivateHomeStanding::Retained, ..v }),
{
}

/// Nothing is bound into a home once its connection has ended, and nothing
/// already bound is displaced: a refused offer leaves the home exactly as it
/// was.
pub proof fn law_bind_never_displaces<P>(v: HomeView<P>, payload: P)
    ensures
        v.standing == PrivateHomeStanding::Retained ==> bind_spec(v, payload) == v,
        v.payload is Some ==> bind_spec(v, payload) == v,
        bind_spec(v, payload).standing == v.standing,
{
}

} // verus!
