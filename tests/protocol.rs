use kos_kbot::frame::{
    checksum, pack_6, parse_read_response, read_register_frame, unpack_6, write_register_frame,
};
use kos_kbot::hand::{read_6_request, read_6_response, write_6};
use kos_kbot::registers::register_address;
use kos_kbot::FrameError;

const ANGLE_SET_FRAME: [u8; 20] = [
    0xEB, 0x90, 0x01, 0x0F, 0x12, 0xCE, 0x05, 0xF4, 0x01, 0xFF, 0xFF, 0xFF, 0xFF, 0xFF, 0xFF,
    0xFF, 0xFF, 0xFF, 0xFF, 0xE0,
];

#[test]
fn write_6_angle_set_frame_is_bit_exact() {
    let frame = write_6(1, "angleSet", &[500, -1, -1, -1, -1, -1]).unwrap();
    assert_eq!(frame, ANGLE_SET_FRAME.to_vec());
}

#[test]
fn write_6_unknown_register_is_refused() {
    assert_eq!(write_6(1, "angle", &[0; 6]), Err(FrameError::UnknownRegister));
    assert_eq!(read_6_request(1, "AngleSet"), Err(FrameError::UnknownRegister));
}

#[test]
fn read_request_frame_bytes() {
    let frame = read_register_frame(1, 1546, 12);
    assert_eq!(frame, vec![0xEB, 0x90, 0x01, 0x04, 0x11, 0x0A, 0x06, 0x0C, 0x32]);
    assert_eq!(read_6_request(1, "angleAct").unwrap(), frame);
}

#[test]
fn write_frame_length_byte_and_address() {
    let frame = write_register_frame(7, 0x1234, &vec![9, 8, 7]);
    assert_eq!(frame.len(), 11);
    assert_eq!(&frame[..8], &[0xEB, 0x90, 7, 6, 0x12, 0x34, 0x12, 9]);
    let sum: u32 = frame[2..10].iter().map(|&b| b as u32).sum();
    assert_eq!(frame[10] as u32, sum % 256);
}

#[test]
fn empty_payload_write_frame() {
    let frame = write_register_frame(0, 1004, &vec![]);
    assert_eq!(frame, vec![0xEB, 0x90, 0x00, 0x03, 0x12, 0xEC, 0x03, 0x04]);
}

#[test]
fn checksum_wraps_at_256() {
    let bytes = vec![0xEB, 0x90, 0xFF, 0xFF, 0x03];
    assert_eq!(checksum(&bytes, 2), 0x01);
    assert_eq!(checksum(&bytes, 5), 0);
    assert_eq!(checksum(&bytes, 0), ((0xEBu32 + 0x90 + 0xFF + 0xFF + 0x03) % 256) as u8);
}

#[test]
fn checksum_is_last_byte_for_many_frames() {
    for id in [0u8, 1, 42, 255] {
        for addr in [0u16, 1000, 1486, 1606, 0xFFFF] {
            for len in [0usize, 1, 12, 100, 252] {
                let payload: Vec<u8> = (0..len).map(|i| (i * 37 + id as usize) as u8).collect();
                let frame = write_register_frame(id, addr, &payload);
                let sum = frame[2..frame.len() - 1]
                    .iter()
                    .fold(0u8, |acc, &b| acc.wrapping_add(b));
                assert_eq!(*frame.last().unwrap(), sum);
                assert_eq!(frame[3] as usize, len + 3);
            }
        }
    }
}

#[test]
fn register_dictionary() {
    let names = [
        ("ID", 1000),
        ("baudrate", 1001),
        ("clearErr", 1004),
        ("forceClb", 1009),
        ("angleSet", 1486),
        ("forceSet", 1498),
        ("speedSet", 1522),
        ("angleAct", 1546),
        ("forceAct", 1582),
        ("errCode", 1606),
    ];
    for (name, addr) in names {
        assert_eq!(register_address(name), Some(addr));
    }
    assert_eq!(register_address(""), None);
    assert_eq!(register_address("angleset"), None);
    assert_eq!(register_address("errCode "), None);
}

#[test]
fn empty_response_has_empty_payload() {
    assert_eq!(parse_read_response(&vec![]), Ok(vec![]));
}

#[test]
fn response_payload_from_length_byte() {
    let resp = vec![0x90, 0xEB, 0x01, 0x05, 0x11, 0x0A, 0x06, 0xAA, 0xBB, 0x00];
    assert_eq!(parse_read_response(&resp), Ok(vec![0xAA, 0xBB]));
}

#[test]
fn malformed_responses_are_refused() {
    assert_eq!(parse_read_response(&vec![1, 2, 3]), Err(FrameError::Malformed));
    assert_eq!(parse_read_response(&vec![0, 0, 0, 2, 0, 0, 0, 0]), Err(FrameError::Malformed));
    assert_eq!(parse_read_response(&vec![0, 0, 0, 6, 0, 0, 0, 1, 2]), Err(FrameError::Malformed));
    assert_eq!(parse_read_response(&vec![0, 0, 0, 3, 0, 0, 0]), Ok(vec![]));
}

#[test]
fn pack_6_little_endian() {
    let bytes = pack_6(&[1, 0x1234, -1, -2, 1000, 0]);
    assert_eq!(
        bytes,
        vec![1, 0, 0x34, 0x12, 0xFF, 0xFF, 0xFE, 0xFF, 0xE8, 0x03, 0, 0]
    );
}

#[test]
fn unpack_6_signed_values() {
    let bytes = vec![1, 0, 0x34, 0x12, 0xFF, 0xFF, 0xFE, 0xFF, 0xE8, 0x03, 0x00, 0x80, 0x77];
    assert_eq!(unpack_6(&bytes), Ok([1, 0x1234, -1, -2, 1000, -32768]));
    assert_eq!(unpack_6(&vec![0; 11]), Err(FrameError::NoData));
}

#[test]
fn write_frame_round_trips_through_response_parser() {
    let samples: [[i32; 6]; 4] = [
        [500, -1, -1, -1, -1, -1],
        [0, 1000, 250, 999, 1, 2],
        [-32768, 32767, 0, -1, 12345, -12345],
        [-1; 6],
    ];
    for values in samples {
        let frame = write_6(3, "angleSet", &values).unwrap();
        assert_eq!(read_6_response(&frame), Ok(values));
        let payload = parse_read_response(&frame).unwrap();
        assert_eq!(unpack_6(&payload), Ok(values));
    }
}

#[test]
fn read_6_response_errors() {
    assert_eq!(read_6_response(&vec![]), Err(FrameError::NoData));
    assert_eq!(read_6_response(&vec![0xEB, 0x90, 1]), Err(FrameError::Malformed));
    let short = write_register_frame(1, 1546, &vec![1, 2, 3, 4]);
    assert_eq!(read_6_response(&short), Err(FrameError::NoData));
}
