// The ordered records of one native pointer event, and the wire fields the
// ordinary codecs leave out.
//
// A resolved pointer plan names, per stream, the crossings it owes and the
// events it delivers. Its records come out source before master, each
// stream's crossings before that stream's transition; a release has no old
// crossings. Every record is encoded by the ordinary core or XI2 codec from
// the request described here, and then carries the exact decided child and
// device the codec's form has no field for.
use vstd::prelude::*;
use crate::key_emission::{
    u16_bytes, u32_bytes, write_xi_u16, write_xi_u32, written, PrivateOrderedFrame, PrivateResolvedTarget,
    XByteOrder,
};

verus! {

/// How many crossing places belong to the master stream; the rest of the
/// six belong to the source.
pub const PRIVATE_MASTER_CROSSINGS: usize = 4;

/// The XI2 event type of an Enter crossing.
pub const XI_ENTER: u8 = 7;

/// What a pointer event did.
#[derive(Debug, Clone, Copy, PartialEq, Eq, Structural)]
pub enum XAuthorityPointerEventKind {
    Motion,
    Button { button: u8, pressed: bool },
    Axis {
        button: u8,
        pressed: bool,
        horizontal_position_v120: Option<i32>,
        vertical_position_v120: Option<i32>,
    },
}

/// One pointer event as the source decided it.
#[derive(Debug, Clone, Copy, PartialEq, Eq, Structural)]
pub struct XAuthorityPointerEvent {
    pub kind: XAuthorityPointerEventKind,
    pub surface: u64,
    pub root_x: i16,
    pub root_y: i16,
    pub event_x: i16,
    pub event_y: i16,
    pub state: u16,
    pub time_msec: u32,
}

/// One XI2 device event a plan delivers.
#[derive(Debug, Clone, Copy, PartialEq, Eq, Structural)]
pub struct PrivateResolvedXi {
    pub event_type: u8,
    pub device: u16,
    pub target: PrivateResolvedTarget,
    pub flags: u32,
}

/// One crossing a plan owes: an XI2 crossing for `device`, or a core one.
#[derive(Debug, Clone, Copy, PartialEq, Eq, Structural)]
pub struct PrivateResolvedCrossing {
    pub event_type: u8,
    pub device: Option<u16>,
    pub target: PrivateResolvedTarget,
}

/// A resolved pointer plan: its crossings (the first
/// `PRIVATE_MASTER_CROSSINGS` for the master stream, the rest for the
/// source), the source and master XI2 events, and the core event.
pub struct PrivateResolvedPointer {
    pub crossings: [Option<PrivateResolvedCrossing>; 6],
    pub source: Vec<Option<PrivateResolvedXi>>,
    pub master: Vec<Option<PrivateResolvedXi>>,
    pub core: Option<PrivateResolvedTarget>,
}

/// One record of an emission.
#[derive(Debug, Clone, Copy, PartialEq, Eq, Structural)]
pub enum EmissionRecord {
    Core(PrivateResolvedTarget),
    Xi(PrivateResolvedXi),
    Crossing(PrivateResolvedCrossing),
}

/// The present entries of a sequence of places, in order.
pub open spec fn present<T>(s: Seq<Option<T>>) -> Seq<T>
    decreases s.len(),
{
    if s.len() == 0 {
        Seq::empty()
    } else {
        let rest = present(s.drop_last());
        match s.last() {
            Some(x) => rest.push(x),
            None => rest,
        }
    }
}

pub open spec fn crossing_records(s: Seq<Option<PrivateResolvedCrossing>>) -> Seq<EmissionRecord> {
    present(s).map_values(|c: PrivateResolvedCrossing| EmissionRecord::Crossing(c))
}

pub open spec fn xi_records(s: Seq<Option<PrivateResolvedXi>>) -> Seq<EmissionRecord> {
    present(s).map_values(|x: PrivateResolvedXi| EmissionRecord::Xi(x))
}

pub open spec fn core_records(core: Option<PrivateResolvedTarget>) -> Seq<EmissionRecord> {
    match core {
        Some(t) => seq![EmissionRecord::Core(t)],
        None => Seq::empty(),
    }
}

/// A plan's records in delivery order: the source's crossings, the source's
/// events, the master's crossings, the core event, the master's events.
pub open spec fn records_spec(plan: PrivateResolvedPointer) -> Seq<EmissionRecord> {
    crossing_records(plan.crossings@.skip(PRIVATE_MASTER_CROSSINGS as int)) + xi_records(plan.source@)
        + crossing_records(plan.crossings@.take(PRIVATE_MASTER_CROSSINGS as int)) + core_records(plan.core)
        + xi_records(plan.master@)
}

/// A core X pointer event, as the core codec encodes it.
#[derive(Debug, Clone, Copy, PartialEq, Eq, Structural)]
pub enum XClientPointerEvent {
    Motion {
        sequence: u16,
        time: u32,
        root: u64,
        event: u64,
        root_x: i16,
        root_y: i16,
        event_x: i16,
        event_y: i16,
        state: u16,
    },
    Button {
        sequence: u16,
        pressed: bool,
        button: u8,
        time: u32,
        root: u64,
        event: u64,
        root_x: i16,
        root_y: i16,
        event_x: i16,
        event_y: i16,
        state: u16,
    },
    Crossing {
        sequence: u16,
        entered: bool,
        detail: u8,
        time: u32,
        root: u64,
        event: u64,
        root_x: i16,
        root_y: i16,
        event_x: i16,
        event_y: i16,
        state: u16,
        mode: u8,
        focus: bool,
    },
}

/// What one record asks of the ordinary codecs.
#[derive(Debug, Clone, Copy, PartialEq, Eq, Structural)]
pub enum PrivateFrameRequest {
    /// A core event, 32 bytes.
    Core(XClientPointerEvent),
    /// An XI2 device event for `pointer`, at this target.
    XiDevice {
        sequence: u16,
        event_type: u8,
        pointer: XAuthorityPointerEvent,
        window: u64,
        child: u64,
        event_x: i16,
        event_y: i16,
        flags: u32,
    },
    /// An XI2 crossing for `pointer` (already at the crossing's coordinates)
    /// at `window`.
    XiCrossing { sequence: u16, event_type: u8, pointer: XAuthorityPointerEvent, window: u64 },
}

/// The request a record makes of the codecs.
pub open spec fn request_spec(record: EmissionRecord, pointer: XAuthorityPointerEvent, root: u64, sequence: u16) -> PrivateFrameRequest {
    match record {
        EmissionRecord::Core(target) => PrivateFrameRequest::Core(
            match pointer.kind {
                XAuthorityPointerEventKind::Motion => XClientPointerEvent::Motion {
                    sequence,
                    time: pointer.time_msec,
                    root,
                    event: target.window,
                    root_x: pointer.root_x,
                    root_y: pointer.root_y,
                    event_x: target.event_x,
                    event_y: target.event_y,
                    state: pointer.state,
                },
                XAuthorityPointerEventKind::Button { button, pressed } => XClientPointerEvent::Button {
                    sequence,
                    pressed,
                    button,
                    time: pointer.time_msec,
                    root,
                    event: target.window,
                    root_x: pointer.root_x,
                    root_y: pointer.root_y,
                    event_x: target.event_x,
                    event_y: target.event_y,
                    state: pointer.state,
                },
                XAuthorityPointerEventKind::Axis { button, pressed, .. } => XClientPointerEvent::Button {
                    sequence,
                    pressed,
                    button,
                    time: pointer.time_msec,
                    root,
                    event: target.window,
                    root_x: pointer.root_x,
                    root_y: pointer.root_y,
                    event_x: target.event_x,
                    event_y: target.event_y,
                    state: pointer.state,
                },
            },
        ),
        EmissionRecord::Xi(x) => PrivateFrameRequest::XiDevice {
            sequence,
            event_type: x.event_type,
            pointer,
            window: x.target.window,
            child: x.target.child,
            event_x: x.target.event_x,
            event_y: x.target.event_y,
            flags: x.flags,
        },
        EmissionRecord::Crossing(c) => match c.device {
            Some(_) => PrivateFrameRequest::XiCrossing {
                sequence,
                event_type: c.event_type,
                pointer: XAuthorityPointerEvent { event_x: c.target.event_x, event_y: c.target.event_y, ..pointer },
                window: c.target.window,
            },
            None => PrivateFrameRequest::Core(
                XClientPointerEvent::Crossing {
                    sequence,
                    entered: c.event_type == XI_ENTER,
                    detail: 3,
                    time: pointer.time_msec,
                    root,
                    event: c.target.window,
                    root_x: pointer.root_x,
                    root_y: pointer.root_y,
                    event_x: c.target.event_x,
                    event_y: c.target.event_y,
                    state: pointer.state,
                    mode: 0,
                    focus: true,
                },
            ),
        },
    }
}

/// What each record asks of the codecs, whatever it holds: a crossing with
/// no device becomes a core crossing that is an EnterNotify exactly when the
/// record is an XI Enter (7) and a LeaveNotify otherwise, at the crossing's
/// own window and under the transport's sequence; a crossing for a device
/// stays an XI2 crossing of the same type at the same window; a core record
/// of a button event reports the same button, pressed or released as the
/// event was, at the record's window; an XI2 record keeps its event type and
/// target.
pub proof fn law_requests_keep_their_kind(record: EmissionRecord, pointer: XAuthorityPointerEvent, root: u64, sequence: u16)
    ensures
        (record is Crossing && record->Crossing_0.device is None) ==> ({
            let c = record->Crossing_0;
            let r = request_spec(record, pointer, root, sequence);
            &&& r is Core && r->Core_0 is Crossing
            &&& r->Core_0->Crossing_entered == (c.event_type == 7u8)
            &&& r->Core_0->Crossing_event == c.target.window
            &&& r->Core_0->Crossing_sequence == sequence
            &&& r->Core_0->Crossing_root == root
        }),
        (record is Crossing && record->Crossing_0.device is Some) ==> ({
            let c = record->Crossing_0;
            let r = request_spec(record, pointer, root, sequence);
            &&& r is XiCrossing
            &&& r->XiCrossing_event_type == c.event_type
            &&& r->XiCrossing_window == c.target.window
            &&& r->XiCrossing_sequence == sequence
        }),
        (record is Core && pointer.kind is Button) ==> request_spec(record, pointer, root, sequence)
            == PrivateFrameRequest::Core(
            XClientPointerEvent::Button {
                sequence,
                pressed: pointer.kind->Button_pressed,
                button: pointer.kind->Button_button,
                time: pointer.time_msec,
                root,
                event: record->Core_0.window,
                root_x: pointer.root_x,
                root_y: pointer.root_y,
                event_x: record->Core_0.event_x,
                event_y: record->Core_0.event_y,
                state: pointer.state,
            },
        ),
        record is Xi ==> ({
            let x = record->Xi_0;
            let r = request_spec(record, pointer, root, sequence);
            &&& r is XiDevice
            &&& r->XiDevice_event_type == x.event_type
            &&& r->XiDevice_window == x.target.window
            &&& r->XiDevice_child == x.target.child
        }),
{
}

/// How many bytes a record's codec frame must have for its fields to be
/// written into it.
pub open spec fn frame_len_needed(record: EmissionRecord) -> int {
    match record {
        EmissionRecord::Core(_) => 32,
        EmissionRecord::Xi(_) => 12,
        EmissionRecord::Crossing(c) => 32,
    }
}

/// A record's frame: what the codec encoded, with the exact decided child
/// (core and XI2 crossing forms) and device (XI2 forms) written in.
pub open spec fn finished_spec(record: EmissionRecord, order: XByteOrder, encoded: Seq<u8>) -> Seq<u8> {
    match record {
        EmissionRecord::Core(target) => written(encoded, 16, u32_bytes(order, target.child as u32)),
        EmissionRecord::Xi(x) => written(encoded, 10, u16_bytes(order, x.device)),
        EmissionRecord::Crossing(c) => match c.device {
            Some(device) => written(
                written(encoded, 10, u16_bytes(order, device)),
                28,
                u32_bytes(order, c.target.child as u32),
            ),
            None => written(encoded, 16, u32_bytes(order, c.target.child as u32)),
        },
    }
}

/// Writing `value` at `at` changes exactly those bytes.
proof fn lemma_written(bytes: Seq<u8>, at: int, value: Seq<u8>)
    requires
        0 <= at,
        at + value.len() <= bytes.len(),
    ensures
        written(bytes, at, value).len() == bytes.len(),
        written(bytes, at, value).subrange(at, at + value.len()) == value,
        forall|i: int|
            0 <= i < bytes.len() && !(at <= i < at + value.len()) ==> #[trigger] written(bytes, at, value)[i]
                == bytes[i],
{
    assert(written(bytes, at, value).subrange(at, at + value.len()) =~= value);
}

/// Finishing a frame writes the decided child and device and nothing else:
/// a core event's child at byte 16, an XI2 event's device at byte 10, an
/// XI2 crossing's device at 10 and child at 28, a core crossing's child at
/// 16, each in the client's byte order; every other byte is the codec's.
pub proof fn law_finish_writes_only_child_and_device(record: EmissionRecord, order: XByteOrder, encoded: Seq<u8>)
    requires
        encoded.len() >= 32,
    ensures
        ({
            let f = finished_spec(record, order, encoded);
            &&& f.len() == encoded.len()
            &&& record is Core ==> f.subrange(16, 20) == u32_bytes(order, record->Core_0.child as u32) && forall|
                i: int,
            | 0 <= i < encoded.len() && !(16 <= i < 20) ==> #[trigger] f[i] == encoded[i]
            &&& record is Xi ==> f.subrange(10, 12) == u16_bytes(order, record->Xi_0.device) && forall|i: int|
                0 <= i < encoded.len() && !(10 <= i < 12) ==> #[trigger] f[i] == encoded[i]
            &&& (record is Crossing && record->Crossing_0.device is None) ==> f.subrange(16, 20) == u32_bytes(
                order,
                record->Crossing_0.target.child as u32,
            ) && forall|i: int| 0 <= i < encoded.len() && !(16 <= i < 20) ==> #[trigger] f[i] == encoded[i]
            &&& (record is Crossing && record->Crossing_0.device is Some) ==> f.subrange(10, 12) == u16_bytes(
                order,
                record->Crossing_0.device->0,
            ) && f.subrange(28, 32) == u32_bytes(order, record->Crossing_0.target.child as u32) && forall|
                i: int,
            | 0 <= i < encoded.len() && !(10 <= i < 12) && !(28 <= i < 32) ==> #[trigger] f[i] == encoded[i]
        }),
{
    match record {
        EmissionRecord::Core(t) => {
            lemma_written(encoded, 16, u32_bytes(order, t.child as u32));
        },
        EmissionRecord::Xi(x) => {
            lemma_written(encoded, 10, u16_bytes(order, x.device));
        },
        EmissionRecord::Crossing(c) => match c.device {
            Some(device) => {
                let first = written(encoded, 10, u16_bytes(order, device));
                lemma_written(encoded, 10, u16_bytes(order, device));
                lemma_written(first, 28, u32_bytes(order, c.target.child as u32));
                let f = finished_spec(record, order, encoded);
                assert(f.subrange(10, 12) =~= first.subrange(10, 12));
            },
            None => {
                lemma_written(encoded, 16, u32_bytes(order, c.target.child as u32));
            },
        },
    }
}

proof fn lemma_present_step<T>(s: Seq<Option<T>>, i: int)
    requires
        0 <= i < s.len(),
    ensures
        present(s.take(i + 1)) == match s[i] {
            Some(x) => present(s.take(i)).push(x),
            None => present(s.take(i)),
        },
{
    assert(s.take(i + 1).drop_last() =~= s.take(i));
}

/// Append the present crossings of `places[from..to]` to `out`.
fn push_crossings(out: &mut Vec<EmissionRecord>, places: &[Option<PrivateResolvedCrossing>; 6], from: usize, to: usize)
    requires
        from <= to <= 6,
    ensures
        final(out)@ == old(out)@ + crossing_records(places@.subrange(from as int, to as int)),
{
    let ghost start = out@;
    let ghost part = places@.subrange(from as int, to as int);
    let mut i: usize = from;
    while i < to
        invariant
            from <= i <= to <= 6,
            part == places@.subrange(from as int, to as int),
            out@ == start + crossing_records(part.take(i - from)),
        decreases to - i,
    {
        proof {
            lemma_present_step(part, (i - from) as int);
            assert(part[(i - from) as int] == places@[i as int]);
        }
        match places[i] {
            Some(c) => {
                out.push(EmissionRecord::Crossing(c));
            },
            None => {},
        }
        i = i + 1;
        proof {
            assert(out@ =~= start + crossing_records(part.take(i - from)));
        }
    }
    proof {
        assert(part.take(to - from) =~= part);
    }
}

/// Append the present XI2 events of `places` to `out`.
fn push_xi(out: &mut Vec<EmissionRecord>, places: &Vec<Option<PrivateResolvedXi>>)
    ensures
        final(out)@ == old(out)@ + xi_records(places@),
{
    let ghost start = out@;
    let mut i: usize = 0;
    while i < places.len()
        invariant
            i <= places@.len(),
            out@ == start + xi_records(places@.take(i as int)),
        decreases places.len() - i,
    {
        proof {
            lemma_present_step(places@, i as int);
        }
        match places[i] {
            Some(x) => {
                out.push(EmissionRecord::Xi(x));
            },
            None => {},
        }
        i = i + 1;
        proof {
            assert(out@ =~= start + xi_records(places@.take(i as int)));
        }
    }
    proof {
        assert(places@.take(places@.len() as int) =~= places@);
    }
}

impl PrivateResolvedPointer {
    /// This plan's records in delivery order.
    pub fn records(&self) -> (r: Vec<EmissionRecord>)
        ensures
            r@ == records_spec(*self),
    {
        let mut out: Vec<EmissionRecord> = Vec::new();
        push_crossings(&mut out, &self.crossings, PRIVATE_MASTER_CROSSINGS, 6);
        push_xi(&mut out, &self.source);
        push_crossings(&mut out, &self.crossings, 0, PRIVATE_MASTER_CROSSINGS);
        match self.core {
            Some(t) => {
                out.push(EmissionRecord::Core(t));
            },
            None => {},
        }
        push_xi(&mut out, &self.master);
        proof {
            assert(self.crossings@.subrange(PRIVATE_MASTER_CROSSINGS as int, 6) =~= self.crossings@.skip(
                PRIVATE_MASTER_CROSSINGS as int,
            ));
            assert(self.crossings@.subrange(0, PRIVATE_MASTER_CROSSINGS as int) =~= self.crossings@.take(
                PRIVATE_MASTER_CROSSINGS as int,
            ));
            assert(out@ =~= records_spec(*self));
        }
        out
    }

    /// How many frames this plan's emission has.
    pub fn frame_count(&self) -> (r: usize)
        ensures
            r == records_spec(*self).len(),
    {
        self.records().len()
    }
}

impl EmissionRecord {
    /// What this record asks the codecs to encode, for `pointer` at the
    /// server's `root` window under the transport's `sequence`.
    pub fn request(self, pointer: XAuthorityPointerEvent, root: u64, sequence: u16) -> (r: PrivateFrameRequest)
        ensures
            r == request_spec(self, pointer, root, sequence),
            (self is Crossing && self->Crossing_0.device is None) ==> (r is Core && r->Core_0 is Crossing
                && r->Core_0->Crossing_entered == (self->Crossing_0.event_type == 7u8) && r->Core_0->Crossing_event
                == self->Crossing_0.target.window && r->Core_0->Crossing_sequence == sequence),
    {
        match self {
            EmissionRecord::Core(target) => {
                let event = match pointer.kind {
                    XAuthorityPointerEventKind::Motion => XClientPointerEvent::Motion {
                        sequence,
                        time: pointer.time_msec,
                        root,
                        event: target.window,
                        root_x: pointer.root_x,
                        root_y: pointer.root_y,
                        event_x: target.event_x,
                        event_y: target.event_y,
                        state: pointer.state,
                    },
                    XAuthorityPointerEventKind::Button { button, pressed } => XClientPointerEvent::Button {
                        sequence,
                        pressed,
                        button,
                        time: pointer.time_msec,
                        root,
                        event: target.window,
                        root_x: pointer.root_x,
                        root_y: pointer.root_y,
                        event_x: target.event_x,
                        event_y: target.event_y,
                        state: pointer.state,
                    },
                    XAuthorityPointerEventKind::Axis { button, pressed, .. } => XClientPointerEvent::Button {
                        sequence,
                        pressed,
                        button,
                        time: pointer.time_msec,
                        root,
                        event: target.window,
                        root_x: pointer.root_x,
                        root_y: pointer.root_y,
                        event_x: target.event_x,
                        event_y: target.event_y,
                        state: pointer.state,
                    },
                };
                PrivateFrameRequest::Core(event)
            },
            EmissionRecord::Xi(x) => PrivateFrameRequest::XiDevice {
                sequence,
                event_type: x.event_type,
                pointer,
                window: x.target.window,
                child: x.target.child,
                event_x: x.target.event_x,
                event_y: x.target.event_y,
                flags: x.flags,
            },
            EmissionRecord::Crossing(c) => match c.device {
                Some(_) => PrivateFrameRequest::XiCrossing {
                    sequence,
                    event_type: c.event_type,
                    pointer: XAuthorityPointerEvent {
                        event_x: c.target.event_x,
                        event_y: c.target.event_y,
                        ..pointer
                    },
                    window: c.target.window,
                },
                None => PrivateFrameRequest::Core(
                    XClientPointerEvent::Crossing {
                        sequence,
                        entered: c.event_type == XI_ENTER,
                        detail: 3,
                        time: pointer.time_msec,
                        root,
                        event: c.target.window,
                        root_x: pointer.root_x,
                        root_y: pointer.root_y,
                        event_x: c.target.event_x,
                        event_y: c.target.event_y,
                        state: pointer.state,
                        mode: 0,
                        focus: true,
                    },
                ),
            },
        }
    }

    /// Finish the frame the codec encoded for this record's request: write
    /// in the decided child (core forms and XI2 crossings) and the device
    /// (XI2 forms), which the codecs' forms have no field for.
    pub fn finish(self, order: XByteOrder, encoded: PrivateOrderedFrame) -> (r: PrivateOrderedFrame)
        requires
            encoded.bytes@.len() >= frame_len_needed(self),
        ensures
            r.bytes@ == finished_spec(self, order, encoded.bytes@),
    {
        let mut frame = encoded;
        match self {
            EmissionRecord::Core(target) => {
                write_xi_u32(order, &mut frame.bytes, 16, target.child as u32);
            },
            EmissionRecord::Xi(x) => {
                write_xi_u16(order, &mut frame.bytes, 10, x.device);
            },
            EmissionRecord::Crossing(c) => match c.device {
                Some(device) => {
                    write_xi_u16(order, &mut frame.bytes, 10, device);
                    write_xi_u32(order, &mut frame.bytes, 28, c.target.child as u32);
                },
                None => {
                    write_xi_u32(order, &mut frame.bytes, 16, c.target.child as u32);
                },
            },
        }
        frame
    }
}

} // verus!
