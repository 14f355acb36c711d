use ghost_sync::protocol::{check_frame_header, check_frame_length, encode_frame, frame_header, frame_length, ReadFailure};
use ghost_sync::SyncError;

#[test]
fn header_is_big_endian_length() {
    assert_eq!(frame_header(5), [0, 0, 0, 5]);
    assert_eq!(frame_header(0x0102_0304), [1, 2, 3, 4]);
    assert_eq!(frame_header(64 * 1024), [0, 1, 0, 0]);
}

#[test]
fn header_truncates_to_32_bits() {
    if usize::BITS > 32 {
        let len = (1u64 << 32) as usize + 7;
        assert_eq!(frame_header(len), [0, 0, 0, 7]);
    }
}

#[test]
fn length_round_trips() {
    for n in [0usize, 1, 255, 256, 65535, 1 << 20, u32::MAX as usize] {
        assert_eq!(frame_length(frame_header(n)) as usize, n);
    }
}

#[test]
fn frame_within_limit_is_accepted() {
    let payload = b"hello".to_vec();
    let frame = encode_frame(&payload);
    assert_eq!(frame, vec![0, 0, 0, 5, b'h', b'e', b'l', b'l', b'o']);
    let header = [frame[0], frame[1], frame[2], frame[3]];
    match check_frame_length(header, 1024) {
        Ok(n) => {
            assert_eq!(n, 5);
            assert_eq!(&frame[4..4 + n], &payload[..]);
        }
        Err(_) => panic!("frame within the limit was refused"),
    }
    assert!(matches!(check_frame_length(header, 5), Ok(5)));
}

#[test]
fn frame_over_limit_is_refused() {
    match check_frame_length(frame_header(2048), 1024) {
        Err(SyncError::PayloadTooLarge { size, max }) => {
            assert_eq!(size, 2048);
            assert_eq!(max, 1024);
        }
        _ => panic!("expected PayloadTooLarge"),
    }
}

#[test]
fn empty_frame() {
    assert_eq!(encode_frame(&[]), vec![0, 0, 0, 0]);
    assert!(matches!(check_frame_length([0, 0, 0, 0], 0), Ok(0)));
}

#[test]
fn header_check_keeps_the_read_failure() {
    assert!(matches!(check_frame_header(frame_header(1024), 1024), Ok(1024)));
    match check_frame_header(frame_header(1025), 1024) {
        Err(ReadFailure::PayloadTooLarge { size, max }) => {
            assert_eq!(size, 1025);
            assert_eq!(max, 1024);
        }
        _ => panic!("expected PayloadTooLarge"),
    }
}

#[test]
fn read_failures_become_sync_errors() {
    let too_large = ReadFailure::PayloadTooLarge { size: 9, max: 8 };
    assert!(matches!(too_large.into_error(), SyncError::PayloadTooLarge { size: 9, max: 8 }));
    let io = ReadFailure::from(std::io::Error::new(std::io::ErrorKind::UnexpectedEof, "eof"));
    match io.into_error() {
        SyncError::Io(e) => assert_eq!(e.kind(), std::io::ErrorKind::UnexpectedEof),
        _ => panic!("expected an I/O error"),
    }
}
