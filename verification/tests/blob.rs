use bdl_rust_parser::blob::{count_bytes, parse_raw_blob, BYTE_VALUES, SHA256_BYTES};

/// The entropy estimate in bits per byte, from the histogram.
fn entropy(counts: &[usize], length: usize) -> f64 {
    if length == 0 {
        return 0.0;
    }
    let mut bits = 0.0;
    for &c in counts {
        if c == 0 {
            continue;
        }
        let p = c as f64 / length as f64;
        bits -= p * p.log2();
    }
    bits
}

#[test]
fn summary_of_nothing() {
    let ast = parse_raw_blob(&[]);
    assert_eq!(ast.kind, "raw-blob");
    assert_eq!(ast.length, 0);
    assert_eq!(ast.sha256, "e3b0c44298fc1c149afbf4c8996fb92427ae41e4649b934ca495991b7852b855");
    assert_eq!(ast.byteCounts, vec![0usize; 256]);
}

#[test]
fn summary_of_three_letters() {
    let ast = parse_raw_blob(b"abc");
    assert_eq!(ast.kind, "raw-blob");
    assert_eq!(ast.length, 3);
    assert_eq!(ast.sha256, "ba7816bf8f01cfea414140de5dae2223b00361a396177a9cb410ff61f20015ad");
    let mut expected = vec![0usize; 256];
    expected[0x61] = 1;
    expected[0x62] = 1;
    expected[0x63] = 1;
    assert_eq!(ast.byteCounts, expected);
}

#[test]
fn hash_is_sixty_four_lower_case_digits() {
    assert_eq!(SHA256_BYTES, 32);
    let ast = parse_raw_blob(&[0xFF; 100]);
    assert_eq!(ast.sha256.len(), 2 * SHA256_BYTES);
    assert_eq!(ast.sha256.len(), 64);
    assert!(ast.sha256.chars().all(|c| c.is_ascii_digit() || ('a'..='f').contains(&c)));
}

#[test]
fn histogram_counts_each_value() {
    assert_eq!(BYTE_VALUES, 256);
    let counts = count_bytes(&[0, 255, 7, 7, 0, 7]);
    assert_eq!(counts.len(), 256);
    assert_eq!(counts[0], 2);
    assert_eq!(counts[7], 3);
    assert_eq!(counts[255], 1);
    assert_eq!(counts.iter().sum::<usize>(), 6);
    assert_eq!(counts.iter().filter(|c| **c > 0).count(), 3);
}

#[test]
fn histogram_adds_up_to_the_length() {
    let samples: Vec<Vec<u8>> = vec![
        vec![],
        vec![1],
        (0..=255u8).collect(),
        (0..1000u32).map(|i| (i * 7 % 251) as u8).collect(),
    ];
    for bytes in samples {
        assert_eq!(count_bytes(&bytes).iter().sum::<usize>(), bytes.len());
    }
}

#[test]
fn repeated_byte_fills_one_bucket() {
    let ast = parse_raw_blob(&[0x41; 50]);
    let mut expected = vec![0usize; 256];
    expected[0x41] = 50;
    assert_eq!(ast.byteCounts, expected);
}

#[test]
fn entropy_is_zero_without_variety() {
    let nothing = parse_raw_blob(&[]);
    assert_eq!(entropy(&nothing.byteCounts, nothing.length), 0.0);
    let one = parse_raw_blob(&[9]);
    assert_eq!(entropy(&one.byteCounts, one.length), 0.0);
    let repeated = parse_raw_blob(&[0xEE; 4096]);
    assert_eq!(entropy(&repeated.byteCounts, repeated.length), 0.0);
}

#[test]
fn entropy_of_known_mixtures() {
    let halves = parse_raw_blob(&[0, 1, 0, 1]);
    assert_eq!(entropy(&halves.byteCounts, halves.length), 1.0);
    let quarters = parse_raw_blob(&[0, 1, 2, 3, 0, 1, 2, 3]);
    assert_eq!(entropy(&quarters.byteCounts, quarters.length), 2.0);
    let every: Vec<u8> = (0..=255u8).collect();
    let all = parse_raw_blob(&every);
    assert_eq!(entropy(&all.byteCounts, all.length), 8.0);
}

#[test]
fn entropy_stays_within_eight_bits() {
    let mut state: u32 = 0x1234_5678;
    let mut noise = Vec::new();
    for _ in 0..65536 {
        state ^= state << 13;
        state ^= state >> 17;
        state ^= state << 5;
        noise.push((state >> 11) as u8);
    }
    let samples: Vec<Vec<u8>> = vec![vec![], vec![0], b"hello world".to_vec(), noise.clone()];
    for bytes in samples {
        let ast = parse_raw_blob(&bytes);
        let bits = entropy(&ast.byteCounts, ast.length);
        assert!(bits >= 0.0 && bits <= 8.0);
    }
    let ast = parse_raw_blob(&noise);
    assert!(entropy(&ast.byteCounts, ast.length) > 7.9);
}
