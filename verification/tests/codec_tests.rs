use nft_pipeline::grpcframe::{frame_grpc_message, unframe_grpc_message};
use nft_pipeline::hexstr::{from_hex, to_hex};

#[test]
fn hex_round_trips_bytes() {
    let data: Vec<u8> = vec![0, 1, 0x7f, 0x80, 0xfe, 0xff, 0xab];
    let hex = to_hex(&data);
    let back = from_hex(&hex).unwrap();
    assert_eq!(back, data);
}

#[test]
fn hex_spells_the_expected_digits() {
    let hex = to_hex(&vec![0x00, 0x0f, 0xa5]);
    assert_eq!(hex, b"000fa5".to_vec());
}

#[test]
fn hex_of_nothing_is_empty() {
    assert_eq!(to_hex(&vec![]), Vec::<u8>::new());
    assert_eq!(from_hex(&vec![]).unwrap(), Vec::<u8>::new());
}

#[test]
fn bad_hex_is_rejected() {
    assert!(from_hex(&b"0g".to_vec()).is_none());
    assert!(from_hex(&b"A5".to_vec()).is_none());
    assert!(from_hex(&b"abc".to_vec()).is_none());
    assert!(from_hex(&vec![0xff, 0xff]).is_none());
}

#[test]
fn grpc_framing_round_trips() {
    let msg = b"encoded-protobuf-message".to_vec();
    let framed = frame_grpc_message(&msg);
    assert_eq!(framed.len(), msg.len() + 5);
    assert_eq!(framed[0], 0);
    let back = unframe_grpc_message(&framed).unwrap();
    assert_eq!(back, msg);
}

#[test]
fn grpc_frame_spells_the_length_big_endian() {
    let framed = frame_grpc_message(&vec![7u8; 258]);
    assert_eq!(&framed[0..5], &[0, 0, 0, 1, 2]);
}

#[test]
fn bad_grpc_frames_are_rejected() {
    // Too short for any frame, the empty body of a vanished response included.
    assert!(unframe_grpc_message(&Vec::new()).is_none());
    assert!(unframe_grpc_message(&vec![0, 0, 0, 0]).is_none());
    // A compressed flag is not accepted.
    let mut framed = frame_grpc_message(&b"m".to_vec());
    framed[0] = 1;
    assert!(unframe_grpc_message(&framed).is_none());
    // A length that disagrees with the body is not accepted.
    let mut framed = frame_grpc_message(&b"mm".to_vec());
    framed.pop();
    assert!(unframe_grpc_message(&framed).is_none());
}
