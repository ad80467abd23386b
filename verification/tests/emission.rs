use sophia_x_authority::key_emission::{
    write_xi_u16, write_xi_u32, KeyEmission, KeyPlan, PrivateAppliedRefusal, PrivateOrderedFrame,
    PrivateResolvedTarget, PrivateXServerSetup, XAuthorityKeyEvent, XByteOrder, XkbOrderedState,
};

const SETUP: PrivateXServerSetup = PrivateXServerSetup { root: 0x1122_3344, keyboard_first_event: 85 };

fn event() -> XAuthorityKeyEvent {
    XAuthorityKeyEvent { pressed: true, keycode: 38, time_msec: 0x0102_0304, state: 0x0005 }
}

fn plan(core: bool) -> KeyPlan {
    KeyPlan {
        target: PrivateResolvedTarget { window: 0x0A0B_0C0D, child: 0, event_x: 10, event_y: 20 },
        core,
        xkb_details: 0xFFFF,
    }
}

fn state(set: &[(usize, u32)]) -> XkbOrderedState {
    let mut components = [0u32; 13];
    for (index, value) in set {
        components[*index] = *value;
    }
    XkbOrderedState { components }
}

#[test]
fn changed_details_are_one_bit_per_component() {
    assert_eq!(state(&[(3, 1), (12, 2)]).changed_from(state(&[])), 0x1008);
    assert_eq!(state(&[(3, 1)]).changed_from(state(&[(3, 1)])), 0);
}

#[test]
fn state_no_wire_form_carries_is_refused() {
    let refused = KeyEmission::new(event(), plan(true), 100, 200, state(&[]), state(&[(4, 300)]));
    assert_eq!(refused, Err(PrivateAppliedRefusal::CoordinateOverflow));
    // A device event's group bytes are narrower than a core event's.
    let wide = state(&[(5, 1000)]);
    assert!(KeyEmission::new(event(), plan(true), 0, 0, state(&[]), wide).is_ok());
    assert!(KeyEmission::new(event(), plan(false), 0, 0, state(&[]), wide).is_err());
}

#[test]
fn a_core_key_event_and_its_state_notify() {
    let emission = KeyEmission::new(event(), plan(true), 100, 200, state(&[]), state(&[(0, 1)])).unwrap();
    assert_eq!(emission.changed, 1);
    assert_eq!(emission.frame_count(), 2);
    let core = emission
        .encode_frame(0, SETUP, XByteOrder::LittleEndian, 0x0102, PrivateOrderedFrame::zeroed(0))
        .unwrap();
    assert_eq!(
        core.bytes,
        vec![
            2, 38, 0x02, 0x01, 0x04, 0x03, 0x02, 0x01, 0x44, 0x33, 0x22, 0x11, 0x0D, 0x0C, 0x0B, 0x0A, 0, 0, 0, 0,
            100, 0, 200, 0, 10, 0, 20, 0, 5, 0, 1, 0,
        ]
    );
    let notify = emission
        .encode_frame(1, SETUP, XByteOrder::LittleEndian, 0x0102, PrivateOrderedFrame::zeroed(0))
        .unwrap();
    assert_eq!(
        notify.bytes,
        vec![
            85, 2, 0x02, 0x01, 0x04, 0x03, 0x02, 0x01, 3, 1, 0, 0, 0, 0, 0, 0, 0, 0, 0, 0, 0, 0, 0, 0, 0, 0, 1, 0, 38,
            2, 0, 0,
        ]
    );
    assert!(emission
        .encode_frame(2, SETUP, XByteOrder::LittleEndian, 0x0102, PrivateOrderedFrame::zeroed(0))
        .is_none());
}

#[test]
fn big_endian_frames_swap_every_field() {
    let emission = KeyEmission::new(event(), plan(true), 100, 200, state(&[]), state(&[])).unwrap();
    assert_eq!(emission.frame_count(), 1);
    let core = emission.encode_frame(0, SETUP, XByteOrder::BigEndian, 0x0102, PrivateOrderedFrame::zeroed(0)).unwrap();
    assert_eq!(&core.bytes[0..8], &[2, 38, 0x01, 0x02, 0x01, 0x02, 0x03, 0x04]);
    assert_eq!(&core.bytes[8..12], &[0x11, 0x22, 0x33, 0x44]);
    assert_eq!(&core.bytes[20..24], &[0, 100, 0, 200]);
    assert!(emission.encode_frame(1, SETUP, XByteOrder::BigEndian, 1, PrivateOrderedFrame::zeroed(0)).is_none());
}

#[test]
fn a_device_event_carries_the_state_before_it() {
    let before = state(&[(0, 9), (1, 2), (5, 4), (7, 6)]);
    let emission = KeyEmission::new(event(), plan(false), 100, 200, before, before).unwrap();
    let frame = emission
        .encode_frame(0, SETUP, XByteOrder::LittleEndian, 7, PrivateOrderedFrame::zeroed(80))
        .unwrap();
    assert_eq!(frame.bytes.len(), 80);
    assert_eq!(&frame.bytes[32..40], &[0, 0, 100, 0, 0, 0, 200, 0]);
    assert_eq!(&frame.bytes[60..64], &[2, 0, 0, 0]);
    assert_eq!(&frame.bytes[72..80], &[9, 0, 0, 0, 4, 0, 6, 0]);
    assert_eq!(&frame.bytes[0..32], &[0u8; 32]);
}

#[test]
fn values_are_written_in_the_client_byte_order() {
    let mut bytes = vec![0u8; 6];
    write_xi_u16(XByteOrder::LittleEndian, &mut bytes, 1, 0x1234);
    assert_eq!(bytes, vec![0, 0x34, 0x12, 0, 0, 0]);
    write_xi_u32(XByteOrder::BigEndian, &mut bytes, 2, 0xA1B2_C3D4);
    assert_eq!(bytes, vec![0, 0x34, 0xA1, 0xB2, 0xC3, 0xD4]);
    assert_eq!(PrivateOrderedFrame::zeroed(3).bytes, vec![0, 0, 0]);
}
