use xcoffee::demux::{drain, Outcome};
use xcoffee::part::decode;
use xcoffee::scanner::find;

#[test]
fn find_token_at_start() {
    assert_eq!(find(b"--B rest", b"--B"), Some(0));
}

#[test]
fn find_token_in_middle() {
    assert_eq!(find(b"abc--Bdef", b"--B"), Some(3));
}

#[test]
fn find_token_at_end() {
    assert_eq!(find(b"abcdef--B", b"--B"), Some(6));
}

#[test]
fn find_token_split_across_two_chunks() {
    let mut buffer: Vec<u8> = b"payload-".to_vec();
    assert_eq!(find(&buffer, b"--B"), None);
    buffer.extend_from_slice(b"-B tail");
    assert_eq!(find(&buffer, b"--B"), Some(7));
}

#[test]
fn find_first_of_overlapping_occurrences() {
    assert_eq!(find(b"aaab", b"aab"), Some(1));
    assert_eq!(find(b"xx--B--B", b"--B"), Some(2));
}

#[test]
fn find_absent_token() {
    assert_eq!(find(b"no boundary here", b"--B"), None);
}

#[test]
fn find_in_empty_buffer() {
    assert_eq!(find(b"", b"--B"), None);
}

#[test]
fn find_token_longer_than_buffer() {
    assert_eq!(find(b"--", b"--B"), None);
}

#[test]
fn decode_jpeg_part() {
    let part = b"Content-Type: image/jpeg\r\n\r\n\xff\xd8payload";
    assert_eq!(decode(part), Some(b"\xff\xd8payload".to_vec()));
}

#[test]
fn decode_part_without_separator() {
    assert_eq!(decode(b"Content-Type: image/jpeg\r\npayload"), None);
}

#[test]
fn decode_part_with_empty_payload() {
    assert_eq!(decode(b"Content-Type: image/jpeg\r\n\r\n"), None);
}

#[test]
fn decode_uses_first_blank_line() {
    assert_eq!(decode(b"H\r\n\r\nA\r\n\r\nB"), Some(b"A\r\n\r\nB".to_vec()));
}

fn frame_of(outcome: Outcome) -> Option<Vec<u8>> {
    match outcome {
        Outcome::FrameReady(v) => Some(v),
        Outcome::NeedMoreData => None,
    }
}

#[test]
fn drain_well_formed_two_part_buffer() {
    let mut buffer: Vec<u8> =
        b"--B\r\nContent-Type: image/jpeg\r\n\r\nONE\r\n--B\r\nContent-Type: image/jpeg\r\n\r\nTWO\r\n--B"
            .to_vec();
    let first = frame_of(drain(&mut buffer, b"--B", true));
    assert_eq!(first, Some(b"ONE\r\n".to_vec()));
    let second = frame_of(drain(&mut buffer, b"--B", false));
    assert_eq!(second, Some(b"TWO".to_vec()));
    assert!(matches!(drain(&mut buffer, b"--B", false), Outcome::NeedMoreData));
    assert!(buffer.is_empty());
}

#[test]
fn drain_first_frame_boundary_distinction() {
    let mut buffer: Vec<u8> = b"--BOUND\r\nH\r\n\r\nA--BOUND\r\nH\r\n\r\nB--BOUND".to_vec();
    assert_eq!(frame_of(drain(&mut buffer, b"--BOUND", true)), Some(b"A".to_vec()));
    assert_eq!(frame_of(drain(&mut buffer, b"--BOUND", true)), Some(b"B".to_vec()));
    assert!(buffer.is_empty());
}

#[test]
fn drain_later_frames_need_crlf_before_boundary() {
    let mut buffer: Vec<u8> = b"--BOUND\r\nH\r\n\r\nA--BOUND\r\nH\r\n\r\nB--BOUND".to_vec();
    assert_eq!(frame_of(drain(&mut buffer, b"--BOUND", true)), Some(b"A".to_vec()));
    assert!(matches!(drain(&mut buffer, b"--BOUND", false), Outcome::NeedMoreData));
    assert_eq!(buffer, b"\r\nH\r\n\r\nB--BOUND".to_vec());
}

#[test]
fn drain_without_boundary_leaves_buffer() {
    let mut buffer: Vec<u8> = b"partial data".to_vec();
    assert!(matches!(drain(&mut buffer, b"--B", true), Outcome::NeedMoreData));
    assert_eq!(buffer, b"partial data".to_vec());
}

#[test]
fn drain_skips_malformed_parts() {
    let mut buffer: Vec<u8> = b"junk\r\n--Bno separator\r\n--BH\r\n\r\nOK\r\n--Brest".to_vec();
    assert_eq!(frame_of(drain(&mut buffer, b"--B", false)), Some(b"OK".to_vec()));
    assert_eq!(buffer, b"rest".to_vec());
}
