use sophia_x_authority::key_emission::{PrivateOrderedFrame, PrivateResolvedTarget, XByteOrder};
use sophia_x_authority::pointer_emission::{
    EmissionRecord, PrivateFrameRequest, PrivateResolvedCrossing, PrivateResolvedPointer, PrivateResolvedXi,
    XAuthorityPointerEvent, XAuthorityPointerEventKind, XClientPointerEvent,
};

fn target(window: u64, child: u64) -> PrivateResolvedTarget {
    PrivateResolvedTarget { window, child, event_x: 3, event_y: 4 }
}

fn crossing(window: u64, device: Option<u16>) -> Option<PrivateResolvedCrossing> {
    Some(PrivateResolvedCrossing { event_type: 7, device, target: target(window, 0) })
}

fn xi(window: u64, device: u16) -> Option<PrivateResolvedXi> {
    Some(PrivateResolvedXi { event_type: 4, device, target: target(window, 9), flags: 0 })
}

fn press() -> XAuthorityPointerEvent {
    XAuthorityPointerEvent {
        kind: XAuthorityPointerEventKind::Button { button: 1, pressed: true },
        surface: 2,
        root_x: 10,
        root_y: 20,
        event_x: 1,
        event_y: 2,
        state: 0x100,
        time_msec: 77,
    }
}

#[test]
fn records_come_source_before_master_with_crossings_first() {
    let plan = PrivateResolvedPointer {
        crossings: [crossing(1, Some(2)), None, None, None, crossing(5, Some(3)), None],
        source: vec![xi(6, 3), None],
        master: vec![None, xi(8, 2)],
        core: Some(target(7, 0)),
    };
    let records = plan.records();
    let windows: Vec<u64> = records
        .iter()
        .map(|r| match r {
            EmissionRecord::Core(t) => t.window,
            EmissionRecord::Xi(x) => x.target.window,
            EmissionRecord::Crossing(c) => c.target.window,
        })
        .collect();
    assert_eq!(windows, vec![5, 6, 1, 7, 8]);
    assert_eq!(plan.frame_count(), 5);
}

#[test]
fn an_empty_plan_has_no_frames() {
    let plan = PrivateResolvedPointer { crossings: [None; 6], source: Vec::new(), master: Vec::new(), core: None };
    assert_eq!(plan.frame_count(), 0);
}

#[test]
fn a_core_record_asks_for_the_core_form_at_its_target() {
    let request = EmissionRecord::Core(target(7, 0)).request(press(), 1, 42);
    assert_eq!(
        request,
        PrivateFrameRequest::Core(XClientPointerEvent::Button {
            sequence: 42,
            pressed: true,
            button: 1,
            time: 77,
            root: 1,
            event: 7,
            root_x: 10,
            root_y: 20,
            event_x: 3,
            event_y: 4,
            state: 0x100,
        })
    );
    let core_crossing = EmissionRecord::Crossing(crossing(5, None).unwrap()).request(press(), 1, 42);
    match core_crossing {
        PrivateFrameRequest::Core(XClientPointerEvent::Crossing { entered, detail, event, event_x, .. }) => {
            assert!(entered);
            assert_eq!((detail, event, event_x), (3, 5, 3));
        }
        other => panic!("unexpected request {other:?}"),
    }
    match EmissionRecord::Crossing(crossing(5, Some(2)).unwrap()).request(press(), 1, 42) {
        PrivateFrameRequest::XiCrossing { pointer, window, .. } => {
            assert_eq!((pointer.event_x, pointer.event_y, window), (3, 4, 5));
        }
        other => panic!("unexpected request {other:?}"),
    }
}

#[test]
fn finishing_writes_the_decided_child_and_device() {
    let core = EmissionRecord::Core(PrivateResolvedTarget { window: 7, child: 0x0102_0304, event_x: 0, event_y: 0 });
    let frame = core.finish(XByteOrder::LittleEndian, PrivateOrderedFrame { bytes: vec![0; 32] });
    assert_eq!(&frame.bytes[16..20], &[4, 3, 2, 1]);
    let frame = core.finish(XByteOrder::BigEndian, PrivateOrderedFrame { bytes: vec![0; 32] });
    assert_eq!(&frame.bytes[16..20], &[1, 2, 3, 4]);

    let device = EmissionRecord::Xi(xi(6, 0x0a0b).unwrap());
    let frame = device.finish(XByteOrder::LittleEndian, PrivateOrderedFrame { bytes: vec![0xff; 40] });
    assert_eq!(&frame.bytes[10..12], &[0x0b, 0x0a]);
    assert_eq!(frame.bytes[12], 0xff);

    let xi_crossing = EmissionRecord::Crossing(PrivateResolvedCrossing {
        event_type: 8,
        device: Some(2),
        target: PrivateResolvedTarget { window: 5, child: 6, event_x: 0, event_y: 0 },
    });
    let frame = xi_crossing.finish(XByteOrder::BigEndian, PrivateOrderedFrame { bytes: vec![0; 40] });
    assert_eq!(&frame.bytes[10..12], &[0, 2]);
    assert_eq!(&frame.bytes[28..32], &[0, 0, 0, 6]);
}
