// The wire form of one native key event: a core KeyPress/KeyRelease or the
// XI2 device event's state fields, and the XKB StateNotify that follows it
// when the client selected the state details that changed.
//
// Everything here encodes forms already decided under the source's guards;
// nothing selects, resolves or reads live state.
use vstd::prelude::*;

verus! {

/// The byte order a client asked for at setup.
#[derive(Debug, Clone, Copy, PartialEq, Eq, Structural)]
pub enum XByteOrder {
    LittleEndian,
    BigEndian,
}

/// The server's setup constants a frame names.
#[derive(Debug, Clone, Copy, PartialEq, Eq, Structural)]
pub struct PrivateXServerSetup {
    /// The default root window.
    pub root: u32,
    /// The XKB extension's first event code.
    pub keyboard_first_event: u8,
}

/// One encoded event frame.
#[derive(Debug, PartialEq, Eq)]
pub struct PrivateOrderedFrame {
    pub bytes: Vec<u8>,
}

/// One key event as the source decided it.
#[derive(Debug, Clone, Copy, PartialEq, Eq, Structural)]
pub struct XAuthorityKeyEvent {
    pub pressed: bool,
    pub keycode: u8,
    pub time_msec: u32,
    pub state: u16,
}

/// Where an event goes: the window and child it names, and its coordinates
/// there.
#[derive(Debug, Clone, Copy, PartialEq, Eq, Structural)]
pub struct PrivateResolvedTarget {
    pub window: u64,
    pub child: u64,
    pub event_x: i16,
    pub event_y: i16,
}

/// Coordinates, target and event forms decided under the exact source guards.
#[derive(Debug, Clone, Copy, PartialEq, Eq, Structural)]
pub struct KeyPlan {
    pub target: PrivateResolvedTarget,
    /// Core form rather than XI2.
    pub core: bool,
    /// The XKB state details the recipient selected.
    pub xkb_details: u16,
}

/// An XKB keyboard state, component by component in StateNotify order:
/// effective, base, latched and locked modifiers; effective, base, latched
/// and locked group; compatibility state; grab, compatibility grab, lookup
/// and compatibility lookup modifiers.
#[derive(Debug, Clone, Copy, PartialEq, Eq)]
pub struct XkbOrderedState {
    pub components: [u32; 13],
}

/// Why an applied routing view could not resolve or form an event.
#[derive(Debug, Clone, Copy, PartialEq, Eq, Structural)]
pub enum PrivateAppliedRefusal {
    /// A coordinate does not fit the wire form.
    CoordinateOverflow,
    /// No focus has been applied.
    FocusNotApplied,
    /// The focus belongs to another client.
    ForeignOrigin,
    /// Nothing on the path selected the event.
    NotSelected,
    /// A window the resolution needed is not in the hierarchy.
    HierarchyMissing,
    /// The projection was interrupted part-way through an application.
    Interrupted,
    /// The traversal spent its whole budget.
    TraversalExhausted,
}

/// One key emission: the event, its plan, its root position and the XKB
/// state before and after.
#[derive(Debug, Clone, Copy, PartialEq, Eq)]
pub struct KeyEmission {
    pub event: XAuthorityKeyEvent,
    pub plan: KeyPlan,
    pub root_x: i16,
    pub root_y: i16,
    pub before: XkbOrderedState,
    pub state: XkbOrderedState,
    pub changed: u16,
}

/// The little-endian or big-endian bytes of a 16-bit value.
pub open spec fn u16_bytes(order: XByteOrder, v: u16) -> Seq<u8> {
    let lo = (v % 256) as u8;
    let hi = (v / 256) as u8;
    match order {
        XByteOrder::LittleEndian => seq![lo, hi],
        XByteOrder::BigEndian => seq![hi, lo],
    }
}

/// The little-endian or big-endian bytes of a 32-bit value.
pub open spec fn u32_bytes(order: XByteOrder, v: u32) -> Seq<u8> {
    let b0 = (v % 256) as u8;
    let b1 = ((v / 256) % 256) as u8;
    let b2 = ((v / 65536) % 256) as u8;
    let b3 = (v / 16777216) as u8;
    match order {
        XByteOrder::LittleEndian => seq![b0, b1, b2, b3],
        XByteOrder::BigEndian => seq![b3, b2, b1, b0],
    }
}

/// `bytes` with `value` written at `at`.
pub open spec fn written(bytes: Seq<u8>, at: int, value: Seq<u8>) -> Seq<u8> {
    bytes.subrange(0, at) + value + bytes.subrange(at + value.len(), bytes.len() as int)
}

/// Write a 16-bit value at `at` in the client's byte order.
pub fn write_xi_u16(order: XByteOrder, bytes: &mut Vec<u8>, at: usize, value: u16)
    requires
        at + 2 <= old(bytes)@.len(),
    ensures
        final(bytes)@ == written(old(bytes)@, at as int, u16_bytes(order, value)),
{
    let _len = bytes.len();
    let lo = (value % 256) as u8;
    let hi = (value / 256) as u8;
    match order {
        XByteOrder::LittleEndian => {
            bytes.set(at, lo);
            bytes.set(at + 1, hi);
        },
        XByteOrder::BigEndian => {
            bytes.set(at, hi);
            bytes.set(at + 1, lo);
        },
    }
    proof {
        assert(bytes@ =~= written(old(bytes)@, at as int, u16_bytes(order, value)));
    }
}

/// Write a 32-bit value at `at` in the client's byte order.
pub fn write_xi_u32(order: XByteOrder, bytes: &mut Vec<u8>, at: usize, value: u32)
    requires
        at + 4 <= old(bytes)@.len(),
    ensures
        final(bytes)@ == written(old(bytes)@, at as int, u32_bytes(order, value)),
{
    let _len = bytes.len();
    let b0 = (value % 256) as u8;
    let b1 = ((value / 256) % 256) as u8;
    let b2 = ((value / 65536) % 256) as u8;
    let b3 = (value / 16777216) as u8;
    match order {
        XByteOrder::LittleEndian => {
            bytes.set(at, b0);
            bytes.set(at + 1, b1);
            bytes.set(at + 2, b2);
            bytes.set(at + 3, b3);
        },
        XByteOrder::BigEndian => {
            bytes.set(at, b3);
            bytes.set(at + 1, b2);
            bytes.set(at + 2, b1);
            bytes.set(at + 3, b0);
        },
    }
    proof {
        assert(bytes@ =~= written(old(bytes)@, at as int, u32_bytes(order, value)));
    }
}

/// Append a 16-bit value in the client's byte order.
fn push_u16(order: XByteOrder, bytes: &mut Vec<u8>, value: u16)
    ensures
        final(bytes)@ == old(bytes)@ + u16_bytes(order, value),
{
    let lo = (value % 256) as u8;
    let hi = (value / 256) as u8;
    match order {
        XByteOrder::LittleEndian => {
            bytes.push(lo);
            bytes.push(hi);
        },
        XByteOrder::BigEndian => {
            bytes.push(hi);
            bytes.push(lo);
        },
    }
    proof {
        assert(bytes@ =~= old(bytes)@ + u16_bytes(order, value));
    }
}

/// Append a 32-bit value in the client's byte order.
fn push_u32(order: XByteOrder, bytes: &mut Vec<u8>, value: u32)
    ensures
        final(bytes)@ == old(bytes)@ + u32_bytes(order, value),
{
    let b0 = (value % 256) as u8;
    let b1 = ((value / 256) % 256) as u8;
    let b2 = ((value / 65536) % 256) as u8;
    let b3 = (value / 16777216) as u8;
    match order {
        XByteOrder::LittleEndian => {
            bytes.push(b0);
            bytes.push(b1);
            bytes.push(b2);
            bytes.push(b3);
        },
        XByteOrder::BigEndian => {
            bytes.push(b3);
            bytes.push(b2);
            bytes.push(b1);
            bytes.push(b0);
        },
    }
    proof {
        assert(bytes@ =~= old(bytes)@ + u32_bytes(order, value));
    }
}

impl PrivateOrderedFrame {
    /// A frame of `len` zero bytes.
    pub fn zeroed(len: usize) -> (r: Self)
        ensures
            r.bytes@ == Seq::new(len as nat, |i: int| 0u8),
    {
        let mut bytes: Vec<u8> = Vec::new();
        let mut i: usize = 0;
        while i < len
            invariant
                i <= len,
                bytes@ == Seq::new(i as nat, |j: int| 0u8),
            decreases len - i,
        {
            bytes.push(0);
            i = i + 1;
            proof {
                assert(bytes@ =~= Seq::new(i as nat, |j: int| 0u8));
            }
        }
        PrivateOrderedFrame { bytes }
    }
}

/// The XKB StateNotify `changed` mask: one bit per component that differs.
pub open spec fn changed_spec(before: XkbOrderedState, after: XkbOrderedState) -> u16 {
    changed_upto(before, after, 13)
}

pub open spec fn changed_upto(before: XkbOrderedState, after: XkbOrderedState, n: nat) -> u16
    decreases n,
{
    if n == 0 {
        0
    } else {
        let rest = changed_upto(before, after, (n - 1) as nat);
        if before.components[n - 1] != after.components[n - 1] {
            (rest | (1u16 << ((n - 1) as u16))) as u16
        } else {
            rest
        }
    }
}

impl XkbOrderedState {
    /// Which StateNotify details differ between `before` and this state.
    pub fn changed_from(&self, before: XkbOrderedState) -> (r: u16)
        ensures
            r == changed_spec(before, *self),
    {
        let mut changed: u16 = 0;
        let mut i: usize = 0;
        while i < 13
            invariant
                i <= 13,
                changed == changed_upto(before, *self, i as nat),
            decreases 13 - i,
        {
            if before.components[i] != self.components[i] {
                changed = changed | (1u16 << (i as u16));
            }
            i = i + 1;
        }
        changed
    }
}

/// The components an XI2 group byte or an XKB signed group must fit.
pub open spec fn components_fit(state: XkbOrderedState, core: bool) -> bool {
    &&& state.components[4] <= 255
    &&& state.components[7] <= 255
    &&& (state.components[5] as i32) >= -32768 && (state.components[5] as i32) <= 32767
    &&& (state.components[6] as i32) >= -32768 && (state.components[6] as i32) <= 32767
    &&& !core ==> state.components[5] <= 255 && state.components[6] <= 255
}

/// The core KeyPress or KeyRelease frame.
pub open spec fn core_key_frame(
    e: KeyEmission,
    setup: PrivateXServerSetup,
    order: XByteOrder,
    sequence: u16,
) -> Seq<u8> {
    seq![if e.event.pressed { 2u8 } else { 3u8 }, e.event.keycode] + u16_bytes(order, sequence)
        + u32_bytes(order, e.event.time_msec) + u32_bytes(order, setup.root) + u32_bytes(
        order,
        e.plan.target.window as u32,
    ) + u32_bytes(order, e.plan.target.child as u32) + u16_bytes(order, e.root_x as u16)
        + u16_bytes(order, e.root_y as u16) + u16_bytes(order, e.plan.target.event_x as u16)
        + u16_bytes(order, e.plan.target.event_y as u16) + u16_bytes(order, e.event.state) + seq![
        1u8,
        0u8,
    ]
}

/// A core key frame is one 32-byte X event: code 2 (KeyPress) for a press
/// and 3 (KeyRelease) for a release, then the event's keycode, the
/// transport's sequence, the event's time, the root, the target window and
/// child, and, last, same-screen set; whatever the byte order.
pub proof fn law_core_key_frame_says_what_happened(
    e: KeyEmission,
    setup: PrivateXServerSetup,
    order: XByteOrder,
    sequence: u16,
)
    ensures
        ({
            let f = core_key_frame(e, setup, order, sequence);
            &&& f.len() == 32
            &&& f[0] == if e.event.pressed { 2u8 } else { 3u8 }
            &&& e.event.pressed ==> f[0] == 2u8
            &&& !e.event.pressed ==> f[0] == 3u8
            &&& f[1] == e.event.keycode
            &&& f.subrange(2, 4) == u16_bytes(order, sequence)
            &&& f.subrange(4, 8) == u32_bytes(order, e.event.time_msec)
            &&& f.subrange(8, 12) == u32_bytes(order, setup.root)
            &&& f.subrange(12, 16) == u32_bytes(order, e.plan.target.window as u32)
            &&& f.subrange(16, 20) == u32_bytes(order, e.plan.target.child as u32)
            &&& f[30] == 1u8
        }),
{
    let f = core_key_frame(e, setup, order, sequence);
    assert(f.subrange(2, 4) =~= u16_bytes(order, sequence));
    assert(f.subrange(4, 8) =~= u32_bytes(order, e.event.time_msec));
    assert(f.subrange(8, 12) =~= u32_bytes(order, setup.root));
    assert(f.subrange(12, 16) =~= u32_bytes(order, e.plan.target.window as u32));
    assert(f.subrange(16, 20) =~= u32_bytes(order, e.plan.target.child as u32));
}

/// The XKB StateNotify frame that follows a key event whose changed
/// details the recipient selected.
pub open spec fn state_notify_frame(
    e: KeyEmission,
    setup: PrivateXServerSetup,
    order: XByteOrder,
    sequence: u16,
) -> Seq<u8> {
    let c = e.state.components;
    seq![setup.keyboard_first_event, 2u8] + u16_bytes(order, sequence) + u32_bytes(
        order,
        e.event.time_msec,
    ) + seq![3u8, c[0] as u8, c[1] as u8, c[2] as u8, c[3] as u8, c[4] as u8] + u16_bytes(
        order,
        c[5] as u16,
    ) + u16_bytes(order, c[6] as u16) + seq![
        c[7] as u8,
        c[8] as u8,
        c[9] as u8,
        c[10] as u8,
        c[11] as u8,
        c[12] as u8,
    ] + u16_bytes(order, e.event.state & 0x1f00u16) + u16_bytes(order, e.changed) + seq![
        e.event.keycode,
        if e.event.pressed { 2u8 } else { 3u8 },
        0u8,
        0u8,
    ]
}

/// An XKB StateNotify frame is one 32-byte XKB event: the extension's first
/// event code, the StateNotify minor code (2), the transport's sequence, the
/// event's time, the core keyboard (3), the changed-details mask, and the
/// key event it follows -- its keycode and KeyPress (2) or KeyRelease (3).
pub proof fn law_state_notify_follows_its_key_event(
    e: KeyEmission,
    setup: PrivateXServerSetup,
    order: XByteOrder,
    sequence: u16,
)
    ensures
        ({
            let f = state_notify_frame(e, setup, order, sequence);
            &&& f.len() == 32
            &&& f[0] == setup.keyboard_first_event
            &&& f[1] == 2u8
            &&& f.subrange(2, 4) == u16_bytes(order, sequence)
            &&& f.subrange(4, 8) == u32_bytes(order, e.event.time_msec)
            &&& f[8] == 3u8
            &&& f.subrange(24, 26) == u16_bytes(order, e.event.state & 0x1f00u16)
            &&& f.subrange(26, 28) == u16_bytes(order, e.changed)
            &&& f[28] == e.event.keycode
            &&& f[29] == if e.event.pressed { 2u8 } else { 3u8 }
        }),
{
    let f = state_notify_frame(e, setup, order, sequence);
    assert(f.subrange(2, 4) =~= u16_bytes(order, sequence));
    assert(f.subrange(4, 8) =~= u32_bytes(order, e.event.time_msec));
    assert(f.subrange(24, 26) =~= u16_bytes(order, e.event.state & 0x1f00u16));
    assert(f.subrange(26, 28) =~= u16_bytes(order, e.changed));
}

/// What the XI2 device frame of a key event carries of the XKB state and
/// the root position, written over the device frame the XI codec produced.
pub open spec fn xi_state_overlay(e: KeyEmission, order: XByteOrder, base: Seq<u8>) -> Seq<u8> {
    let b = e.before.components;
    let with_root = written(
        written(base, 32, u32_bytes(order, (((e.root_x as u16) as u32) * 65536) as u32)),
        36,
        u32_bytes(order, (((e.root_y as u16) as u32) * 65536) as u32),
    );
    written(
        written(
            written(
                written(
                    written(with_root, 60, u32_bytes(order, b[1])),
                    64,
                    u32_bytes(order, b[2]),
                ),
                68,
                u32_bytes(order, b[3]),
            ),
            72,
            u32_bytes(order, b[0]),
        ),
        76,
        seq![b[5] as u8, b[6] as u8, b[7] as u8, b[4] as u8],
    )
}

impl KeyEmission {
    /// Build an emission, refusing source state no wire form can carry: XI2
    /// group components are bytes and XKB base and latched groups are signed
    /// shorts.
    pub fn new(
        event: XAuthorityKeyEvent,
        plan: KeyPlan,
        root_x: i16,
        root_y: i16,
        before: XkbOrderedState,
        after: XkbOrderedState,
    ) -> (r: Result<Self, PrivateAppliedRefusal>)
        ensures
            r is Ok <==> (components_fit(before, plan.core) && components_fit(after, plan.core)),
            r is Err ==> r->Err_0 == PrivateAppliedRefusal::CoordinateOverflow,
            r is Ok ==> r->Ok_0 == (KeyEmission {
                event,
                plan,
                root_x,
                root_y,
                before,
                state: after,
                changed: changed_spec(before, after),
            }),
    {
        if !Self::fits(before, plan.core) || !Self::fits(after, plan.core) {
            return Err(PrivateAppliedRefusal::CoordinateOverflow);
        }
        Ok(KeyEmission {
            event,
            plan,
            root_x,
            root_y,
            before,
            state: after,
            changed: after.changed_from(before),
        })
    }

    fn fits(state: XkbOrderedState, core: bool) -> (r: bool)
        ensures
            r == components_fit(state, core),
    {
        let c = state.components;
        if c[4] > 255 || c[7] > 255 {
            return false;
        }
        let base = c[5] as i32;
        let latched = c[6] as i32;
        if base < -32768 || base > 32767 || latched < -32768 || latched > 32767 {
            return false;
        }
        if !core && (c[5] > 255 || c[6] > 255) {
            return false;
        }
        true
    }

    /// One frame for the event, and a second for its StateNotify when a
    /// detail the recipient selected changed.
    pub fn frame_count(&self) -> (r: usize)
        ensures
            r == if self.changed & self.plan.xkb_details != 0 {
                2usize
            } else {
                1usize
            },
    {
        1 + if self.changed & self.plan.xkb_details != 0 {
            1usize
        } else {
            0usize
        }
    }

    /// XKBproto's xkbStateNotify, with no allocation beyond the frame and no
    /// live modifier read.
    #[verifier::spinoff_prover]
    #[verifier::rlimit(40)]
    pub fn state_notify(&self, setup: PrivateXServerSetup, order: XByteOrder, sequence: u16) -> (r:
        PrivateOrderedFrame)
        ensures
            r.bytes@ == state_notify_frame(*self, setup, order, sequence),
    {
        let c = self.state.components;
        let mut bytes: Vec<u8> = Vec::new();
        bytes.push(setup.keyboard_first_event);
        bytes.push(2);
        push_u16(order, &mut bytes, sequence);
        push_u32(order, &mut bytes, self.event.time_msec);
        bytes.push(3);
        let ghost head = bytes@;
        let mut index: usize = 0;
        while index < 5
            invariant
                index <= 5,
                bytes@ == head + Seq::new(index as nat, |j: int| c[j] as u8),
            decreases 5 - index,
        {
            bytes.push(c[index] as u8);
            index = index + 1;
            proof {
                assert(bytes@ =~= head + Seq::new(index as nat, |j: int| c[j] as u8));
            }
        }
        push_u16(order, &mut bytes, c[5] as u16);
        push_u16(order, &mut bytes, c[6] as u16);
        bytes.push(c[7] as u8);
        let ghost mid = bytes@;
        let mut index: usize = 8;
        while index < 13
            invariant
                8 <= index <= 13,
                bytes@ == mid + Seq::new((index - 8) as nat, |j: int| c[j + 8] as u8),
            decreases 13 - index,
        {
            bytes.push(c[index] as u8);
            index = index + 1;
            proof {
                assert(bytes@ =~= mid + Seq::new((index - 8) as nat, |j: int| c[j + 8] as u8));
            }
        }
        push_u16(order, &mut bytes, self.event.state & 0x1f00);
        push_u16(order, &mut bytes, self.changed);
        bytes.push(self.event.keycode);
        bytes.push(if self.event.pressed { 2 } else { 3 });
        bytes.push(0);
        bytes.push(0);
        proof {
            assert(bytes@ =~= state_notify_frame(*self, setup, order, sequence));
        }
        PrivateOrderedFrame { bytes }
    }

    /// The core KeyPress or KeyRelease frame.
    fn core_frame(&self, setup: PrivateXServerSetup, order: XByteOrder, sequence: u16) -> (r:
        PrivateOrderedFrame)
        ensures
            r.bytes@ == core_key_frame(*self, setup, order, sequence),
    {
        let target = self.plan.target;
        let mut bytes: Vec<u8> = Vec::new();
        bytes.push(if self.event.pressed { 2 } else { 3 });
        bytes.push(self.event.keycode);
        push_u16(order, &mut bytes, sequence);
        push_u32(order, &mut bytes, self.event.time_msec);
        push_u32(order, &mut bytes, setup.root);
        push_u32(order, &mut bytes, target.window as u32);
        push_u32(order, &mut bytes, target.child as u32);
        push_u16(order, &mut bytes, self.root_x as u16);
        push_u16(order, &mut bytes, self.root_y as u16);
        push_u16(order, &mut bytes, target.event_x as u16);
        push_u16(order, &mut bytes, target.event_y as u16);
        push_u16(order, &mut bytes, self.event.state);
        bytes.push(1);
        bytes.push(0);
        proof {
            assert(bytes@ =~= core_key_frame(*self, setup, order, sequence));
        }
        PrivateOrderedFrame { bytes }
    }

    /// Write the XKB state and root position over the XI2 device frame the
    /// XI codec produced for this event.
    #[verifier::spinoff_prover]
    #[verifier::rlimit(40)]
    fn xi_overlay(&self, order: XByteOrder, frame: &mut PrivateOrderedFrame)
        requires
            old(frame).bytes@.len() >= 80,
        ensures
            final(frame).bytes@ == xi_state_overlay(*self, order, old(frame).bytes@),
    {
        let before = self.before.components;
        let x = ((self.root_x as u16) as u32) * 65536;
        let y = ((self.root_y as u16) as u32) * 65536;
        write_xi_u32(order, &mut frame.bytes, 32, x);
        write_xi_u32(order, &mut frame.bytes, 36, y);
        write_xi_u32(order, &mut frame.bytes, 60, before[1]);
        write_xi_u32(order, &mut frame.bytes, 64, before[2]);
        write_xi_u32(order, &mut frame.bytes, 68, before[3]);
        write_xi_u32(order, &mut frame.bytes, 72, before[0]);
        let ghost mid = frame.bytes@;
        frame.bytes.set(76, before[5] as u8);
        frame.bytes.set(77, before[6] as u8);
        frame.bytes.set(78, before[7] as u8);
        frame.bytes.set(79, before[4] as u8);
        proof {
            assert(frame.bytes@ =~= written(
                mid,
                76,
                seq![before[5] as u8, before[6] as u8, before[7] as u8, before[4] as u8],
            ));
        }
    }

    /// Frame `index` of this emission: the event, then its StateNotify.
    ///
    /// The event is the core frame when the plan chose core delivery;
    /// otherwise it is `device_frame` -- the XI2 device event the XI codec
    /// encoded for this event -- carrying this emission's XKB state and root
    /// position.
    pub fn encode_frame(
        &self,
        index: usize,
        setup: PrivateXServerSetup,
        order: XByteOrder,
        sequence: u16,
        device_frame: PrivateOrderedFrame,
    ) -> (r: Option<PrivateOrderedFrame>)
        requires
            !self.plan.core ==> device_frame.bytes@.len() >= 80,
        ensures
            index >= (if self.changed & self.plan.xkb_details != 0 {
                2usize
            } else {
                1usize
            }) ==> r is None,
            index == 1 && self.changed & self.plan.xkb_details != 0 ==> r is Some && r.unwrap().bytes@
                == state_notify_frame(*self, setup, order, sequence),
            index == 1 && self.changed & self.plan.xkb_details != 0 ==> r.unwrap().bytes@.len() == 32
                && r.unwrap().bytes@[0] == setup.keyboard_first_event && r.unwrap().bytes@[1] == 2u8
                && r.unwrap().bytes@[28] == self.event.keycode && r.unwrap().bytes@[29] == (if self.event.pressed {
                2u8
            } else {
                3u8
            }),
            index == 0 && self.plan.core ==> r is Some && r.unwrap().bytes@ == core_key_frame(
                *self,
                setup,
                order,
                sequence,
            ),
            // A core frame is a KeyPress (2) for a press and a KeyRelease (3)
            // for a release, of the event's own keycode.
            index == 0 && self.plan.core ==> r.unwrap().bytes@.len() == 32 && r.unwrap().bytes@[0] == (if self.event.pressed {
                2u8
            } else {
                3u8
            }) && r.unwrap().bytes@[1] == self.event.keycode,
            index == 0 && !self.plan.core ==> r is Some && r.unwrap().bytes@ == xi_state_overlay(
                *self,
                order,
                device_frame.bytes@,
            ),
    {
        if index >= self.frame_count() {
            return None;
        }
        if index == 1 {
            return Some(self.state_notify(setup, order, sequence));
        }
        if self.plan.core {
            Some(self.core_frame(setup, order, sequence))
        } else {
            let mut frame = device_frame;
            self.xi_overlay(order, &mut frame);
            Some(frame)
        }
    }
}

} // verus!
