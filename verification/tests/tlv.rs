use bdl_rust_parser::tlv::MAX_FRAMES;
use bdl_rust_parser::{parse_example_tlv, TlvFrame, TlvSequenceAst};

fn frame(index: usize, offset: usize, frame_type: u8, value: &[u8]) -> TlvFrame {
    TlvFrame {
        index,
        offset,
        frameType: frame_type,
        length: value.len() as u8,
        valueHex: value.iter().map(|b| format!("{:02x}", b)).collect::<Vec<String>>().concat(),
    }
}

fn span(ast: &TlvSequenceAst) -> usize {
    ast.frames.iter().map(|f| 2 + f.length as usize).sum::<usize>()
}

#[test]
fn one_frame_fills_the_payload() {
    let ast = parse_example_tlv(&[0xAA, 0x02, 0x11, 0x22]);
    assert_eq!(ast.kind, "tlv-sequence");
    assert_eq!(
        ast.frames,
        vec![TlvFrame {
            index: 0,
            offset: 0,
            frameType: 0xAA,
            length: 2,
            valueHex: String::from("1122"),
        }]
    );
    assert_eq!(ast.remainderBytes, 0);
}

#[test]
fn truncated_frame_becomes_remainder() {
    let ast = parse_example_tlv(&[0xAA, 0x05, 0x11, 0x22]);
    assert_eq!(ast.frames, vec![]);
    assert_eq!(ast.remainderBytes, 4);
}

#[test]
fn empty_payload_has_no_frames() {
    let ast = parse_example_tlv(&[]);
    assert_eq!(ast.kind, "tlv-sequence");
    assert_eq!(ast.frames, vec![]);
    assert_eq!(ast.remainderBytes, 0);
}

#[test]
fn single_byte_is_remainder() {
    let ast = parse_example_tlv(&[0x01]);
    assert_eq!(ast.frames, vec![]);
    assert_eq!(ast.remainderBytes, 1);
}

#[test]
fn empty_value_is_a_frame() {
    let ast = parse_example_tlv(&[0x07, 0x00]);
    assert_eq!(ast.frames, vec![frame(0, 0, 0x07, &[])]);
    assert_eq!(ast.frames[0].valueHex, "");
    assert_eq!(ast.remainderBytes, 0);
}

#[test]
fn frames_follow_one_another() {
    let bytes = [0x01, 0x01, 0xFF, 0x02, 0x00, 0x03, 0x02, 0xAB, 0xCD, 0x09];
    let ast = parse_example_tlv(&bytes);
    assert_eq!(
        ast.frames,
        vec![
            frame(0, 0, 0x01, &[0xFF]),
            frame(1, 3, 0x02, &[]),
            frame(2, 5, 0x03, &[0xAB, 0xCD]),
        ]
    );
    assert_eq!(ast.remainderBytes, 1);
}

#[test]
fn frame_after_a_truncated_one_is_not_read() {
    // The second frame announces three bytes and two follow: reading stops
    // there, the bytes from its type byte on are remainder.
    let bytes = [0x01, 0x00, 0x02, 0x03, 0x0A, 0x0B];
    let ast = parse_example_tlv(&bytes);
    assert_eq!(ast.frames, vec![frame(0, 0, 0x01, &[])]);
    assert_eq!(ast.remainderBytes, 4);
}

#[test]
fn longest_value_is_read() {
    let mut bytes = vec![0x10, 0xFF];
    bytes.extend(std::iter::repeat(0x5A).take(255));
    let ast = parse_example_tlv(&bytes);
    assert_eq!(ast.frames.len(), 1);
    assert_eq!(ast.frames[0].length, 255);
    assert_eq!(ast.frames[0].valueHex, "5a".repeat(255));
    assert_eq!(ast.remainderBytes, 0);
}

#[test]
fn reading_stops_at_the_frame_limit() {
    assert_eq!(MAX_FRAMES, 64);
    let mut bytes = Vec::new();
    for i in 0..70u8 {
        bytes.push(i);
        bytes.push(0);
    }
    let ast = parse_example_tlv(&bytes);
    assert_eq!(ast.frames.len(), 64);
    for (i, f) in ast.frames.iter().enumerate() {
        assert_eq!(*f, frame(i, 2 * i, i as u8, &[]));
    }
    assert_eq!(ast.remainderBytes, 12);
}

#[test]
fn exactly_the_frame_limit_leaves_nothing() {
    let mut bytes = Vec::new();
    for i in 0..64u8 {
        bytes.extend([i, 1, i]);
    }
    let ast = parse_example_tlv(&bytes);
    assert_eq!(ast.frames.len(), 64);
    assert_eq!(ast.frames[63], frame(63, 189, 63, &[63]));
    assert_eq!(ast.remainderBytes, 0);
}

#[test]
fn frames_and_remainder_cover_the_payload() {
    let payloads: Vec<Vec<u8>> = vec![
        vec![],
        vec![0x00],
        vec![0xAA, 0x02, 0x11, 0x22],
        vec![0xAA, 0x05, 0x11, 0x22],
        vec![0x01, 0x01, 0xFF, 0x02, 0x00, 0x03, 0x02, 0xAB, 0xCD, 0x09],
        (0..=255u8).collect(),
        std::iter::repeat(0).take(300).collect(),
    ];
    for bytes in payloads {
        let ast = parse_example_tlv(&bytes);
        assert_eq!(span(&ast) + ast.remainderBytes, bytes.len());
    }
}

#[test]
fn framing_again_gives_the_same_frames() {
    let payloads: Vec<Vec<u8>> = vec![
        vec![0xAA, 0x02, 0x11, 0x22],
        vec![0x01, 0x01, 0xFF, 0x02, 0x00, 0x03, 0x02, 0xAB, 0xCD, 0x09],
        vec![0x01, 0x00, 0x02, 0x03, 0x0A, 0x0B],
        std::iter::repeat(0).take(300).collect(),
    ];
    for bytes in payloads {
        let first = parse_example_tlv(&bytes);
        let taken = bytes.len() - first.remainderBytes;
        let again = parse_example_tlv(&bytes[..taken]);
        assert_eq!(again.frames, first.frames);
        assert_eq!(again.remainderBytes, 0);
    }
}

fn encode(records: &[(u8, Vec<u8>)]) -> Vec<u8> {
    let mut bytes = Vec::new();
    for (frame_type, value) in records {
        bytes.push(*frame_type);
        bytes.push(value.len() as u8);
        bytes.extend(value);
    }
    bytes
}

#[test]
fn records_come_back_as_frames() {
    let lists: Vec<Vec<(u8, Vec<u8>)>> = vec![
        vec![],
        vec![(0xAA, vec![0x11, 0x22])],
        vec![(1, vec![]), (2, vec![9; 255]), (3, vec![0, 1, 2]), (1, vec![])],
        (0..64u8).map(|i| (i, vec![i; i as usize])).collect(),
    ];
    for records in lists {
        let ast = parse_example_tlv(&encode(&records));
        let mut offset = 0;
        let mut expected = Vec::new();
        for (index, (frame_type, value)) in records.iter().enumerate() {
            expected.push(frame(index, offset, *frame_type, value));
            offset += 2 + value.len();
        }
        assert_eq!(ast.frames, expected);
        assert_eq!(ast.remainderBytes, 0);
    }
}

#[test]
fn records_beyond_the_limit_are_remainder() {
    let records: Vec<(u8, Vec<u8>)> = (0..65u8).map(|i| (i, vec![])).collect();
    let ast = parse_example_tlv(&encode(&records));
    assert_eq!(ast.frames.len(), 64);
    assert_eq!(ast.remainderBytes, 2);
}
