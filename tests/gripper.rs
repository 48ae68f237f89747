use kos_kbot::frame::write_register_frame;
use kos_kbot::rh56actuator::hand_position;
use kos_kbot::{FingerCommand, FingerMove, FingerRead, FrameError, Hand, HandError, RH56Actuator};

#[test]
fn new_hand_knows_no_position() {
    let hand = Hand::new(1);
    assert_eq!(hand.hand_id(), 1);
    for finger in 0..6 {
        assert_eq!(hand.get_finger_position(finger), Ok(-1));
    }
}

#[test]
fn set_finger_position_gripper_write_frame() {
    let mut hand = Hand::new(1);
    let frame = hand.set_finger_position(0, 500).unwrap();
    assert_eq!(
        frame,
        vec![
            0xEB, 0x90, 0x01, 0x0F, 0x12, 0xCE, 0x05, 0xF4, 0x01, 0xFF, 0xFF, 0xFF, 0xFF, 0xFF,
            0xFF, 0xFF, 0xFF, 0xFF, 0xFF, 0xE0
        ]
    );
    assert_eq!(hand.get_finger_position(0), Ok(500));
}

#[test]
fn set_finger_position_resends_all_six() {
    let mut hand = Hand::new(2);
    hand.set_finger_position(1, 200).unwrap();
    let frame = hand.set_finger_position(5, 1000).unwrap();
    let payload = vec![0xFF, 0xFF, 200, 0, 0xFF, 0xFF, 0xFF, 0xFF, 0xFF, 0xFF, 0xE8, 0x03];
    assert_eq!(frame, write_register_frame(2, 1486, &payload));
}

#[test]
fn finger_index_out_of_range_is_refused() {
    let mut hand = Hand::new(1);
    assert_eq!(hand.set_finger_position(6, 100), Err(HandError::InvalidFinger));
    assert_eq!(hand.set_finger_position(usize::MAX, 100), Err(HandError::InvalidFinger));
    assert_eq!(hand.get_finger_position(6), Err(HandError::InvalidFinger));
    for finger in 0..6 {
        assert_eq!(hand.get_finger_position(finger), Ok(-1));
    }
}

#[test]
fn poll_request_asks_for_measured_angles() {
    let hand = Hand::new(1);
    assert_eq!(
        hand.poll_request(),
        vec![0xEB, 0x90, 0x01, 0x04, 0x11, 0x0A, 0x06, 0x0C, 0x32]
    );
}

#[test]
fn poll_response_replaces_whole_cache() {
    let mut hand = Hand::new(1);
    hand.set_finger_position(2, 700).unwrap();
    let payload = vec![10, 0, 20, 0, 30, 0, 40, 0, 50, 0, 0xE8, 0x03];
    let resp = write_register_frame(1, 1546, &payload);
    assert_eq!(hand.apply_poll_response(&resp), Ok(()));
    let got: Vec<i32> = (0..6).map(|f| hand.get_finger_position(f).unwrap()).collect();
    assert_eq!(got, vec![10, 20, 30, 40, 50, 1000]);
}

#[test]
fn failed_poll_keeps_cache() {
    let mut hand = Hand::new(1);
    hand.set_finger_position(3, 321).unwrap();
    assert_eq!(
        hand.apply_poll_response(&vec![]),
        Err(HandError::Frame(FrameError::NoData))
    );
    assert_eq!(
        hand.apply_poll_response(&vec![1, 2]),
        Err(HandError::Frame(FrameError::Malformed))
    );
    assert_eq!(hand.get_finger_position(3), Ok(321));
    assert_eq!(hand.get_finger_position(0), Ok(-1));
}

#[test]
fn id_offset_mapping() {
    let adapter = RH56Actuator::new(51);
    assert_eq!(adapter.id_offset(), 51);
    assert_eq!(adapter.finger_index(53), Some(2));
    assert_eq!(adapter.finger_index(51), Some(0));
    assert_eq!(adapter.finger_index(56), Some(5));
    assert_eq!(adapter.finger_index(50), None);
    assert_eq!(adapter.finger_index(57), None);
    assert_eq!(adapter.finger_index(51 + 256), None);
}

#[test]
fn id_offset_near_top_of_byte_range() {
    let adapter = RH56Actuator::new(253);
    assert_eq!(adapter.finger_index(258), Some(5));
    assert_eq!(adapter.finger_index(2), None);
}

#[test]
fn hand_position_clamps() {
    assert_eq!(hand_position(-5), 0);
    assert_eq!(hand_position(0), 0);
    assert_eq!(hand_position(505), 505);
    assert_eq!(hand_position(1000), 1000);
    assert_eq!(hand_position(1001), 1000);
    assert_eq!(hand_position(i32::MAX), 1000);
    assert_eq!(hand_position(i32::MIN), 0);
}

#[test]
fn gripper_commands_become_finger_moves() {
    let adapter = RH56Actuator::new(61);
    let commands = vec![
        FingerCommand { actuator_id: 63, scaled_position: Some(500) },
        FingerCommand { actuator_id: 11, scaled_position: Some(100) },
        FingerCommand { actuator_id: 61, scaled_position: None },
        FingerCommand { actuator_id: 66, scaled_position: Some(1500) },
        FingerCommand { actuator_id: 62, scaled_position: Some(-3) },
    ];
    assert_eq!(
        adapter.command_actuators(&commands),
        vec![
            FingerMove { actuator_id: 63, finger: 2, position: 500 },
            FingerMove { actuator_id: 66, finger: 5, position: 1000 },
            FingerMove { actuator_id: 62, finger: 1, position: 0 },
        ]
    );
}

#[test]
fn gripper_state_reads_own_fingers() {
    let adapter = RH56Actuator::new(51);
    assert_eq!(
        adapter.get_actuators_state(&vec![53, 1, 51, 57]),
        vec![
            FingerRead { actuator_id: 53, finger: 2 },
            FingerRead { actuator_id: 51, finger: 0 },
        ]
    );
    assert_eq!(adapter.get_actuators_state(&vec![]), vec![]);
}
