use azalea::base122::{decode, encode, Base122OriginalEncoder, Error, ILLEGAL_BYTES};

#[test]
fn empty_vectors_alike() {
    assert_eq!(encode(&[]), Vec::<u8>::new());
}

#[test]
fn encode_hello_world() {
    assert_eq!(
        encode(b"hello world"),
        vec![52, 25, 45, 70, 99, 60, 64, 119, 55, 211, 141, 70, 32]
    );
}

#[test]
fn encode_very_long_text() {
    assert_eq!(
        encode(b"very very very very very very very very very very very very very very very very long text!!!"),
        vec![
            59, 25, 46, 39, 73, 1, 108, 101, 57, 30, 36, 7, 51, 21, 100, 121, 16, 29, 76, 87, 19, 100,
            64, 118, 50, 211, 143, 18, 3, 89, 74, 114, 60, 72, 14, 102, 43, 73, 114, 32, 59, 25, 46, 39,
            73, 1, 108, 101, 57, 30, 36, 7, 51, 21, 100, 121, 16, 29, 76, 87, 19, 100, 64, 118, 50, 211,
            143, 18, 3, 89, 74, 114, 60, 72, 14, 102, 43, 73, 114, 32, 59, 25, 46, 39, 73, 1, 108, 101,
            57, 30, 36, 6, 99, 61, 211, 167, 16, 29, 12, 87, 67, 80, 66, 33, 16, 64
        ]
    );
}

#[test]
fn encode_two_zeros() {
    assert_eq!(encode(&[0, 0]), vec![194, 128, 222, 128]);
}

#[test]
fn encode_three_zeros() {
    assert_eq!(encode(&[0, 0, 0]), vec![194, 128, 194, 128]);
}

#[test]
fn encode_four_zeros() {
    assert_eq!(encode(&[0, 0, 0, 0]), vec![194, 128, 194, 128, 222, 128]);
}

#[test]
fn encode_five_zeros() {
    assert_eq!(encode(&[0, 0, 0, 0, 0]), vec![194, 128, 194, 128, 194, 128]);
}

#[test]
fn encode_illegal_bytes() {
    assert_eq!(encode(&ILLEGAL_BYTES), vec![194, 130, 65, 82, 18, 112]);
}

#[test]
fn encode_all_ascii_bytes() {
    let input: Vec<u8> = (0..=255u8).collect();
    let expected: Vec<u8> = vec![
        194, 128, 32, 32, 24, 16, 198, 134, 3, 66, 1, 16, 80, 44, 24, 202, 135, 3, 98, 1, 8, 72, 38,
        20, 199, 133, 66, 113, 64, 100, 52, 27, 14, 7, 35, 97, 121, 195, 130, 206, 145, 73, 4, 82,
        49, 28, 80, 41, 21, 199, 165, 66, 105, 56, 94, 48, 24, 76, 70, 51, 33, 84, 108, 55, 28, 14,
        39, 35, 89, 112, 122, 62, 31, 80, 8, 20, 18, 202, 136, 69, 35, 17, 105, 4, 74, 41, 22, 76,
        38, 83, 73, 117, 2, 69, 36, 83, 42, 21, 42, 101, 58, 97, 50, 90, 45, 87, 11, 85, 114, 125,
        64, 97, 49, 24, 108, 70, 43, 25, 78, 104, 52, 90, 77, 54, 99, 53, 211, 175, 56, 28, 46, 39,
        27, 81, 106, 118, 59, 94, 15, 23, 83, 109, 120, 125, 63, 31, 112, 8, 12, 198, 135, 4, 66, 97,
        80, 120, 68, 38, 21, 11, 70, 35, 49, 104, 124, 66, 35, 18, 73, 101, 18, 89, 52, 94, 49, 25,
        77, 38, 115, 73, 108, 122, 63, 32, 80, 104, 84, 58, 37, 22, 77, 39, 84, 42, 53, 42, 93, 50,
        91, 46, 87, 108, 22, 27, 21, 78, 105, 53, 91, 45, 119, 11, 77, 106, 119, 60, 94, 111, 87,
        124, 6, 7, 5, 67, 98, 49, 56, 108, 62, 35, 19, 74, 101, 115, 25, 211, 182, 63, 33, 81, 105,
        52, 122, 77, 46, 91, 47, 88, 108, 118, 91, 61, 102, 119, 61, 95, 112, 56, 60, 46, 31, 19, 75,
        102, 115, 122, 29, 30, 87, 47, 89, 109, 119, 59, 126, 15, 15, 75, 103, 116, 122, 125, 94,
        127, 71, 103, 117, 123, 126, 63, 63, 111, 120,
    ];
    assert_eq!(encode(&input), expected);
}

#[test]
fn encoder_struct_matches_shorthand() {
    let data = b"the quick brown fox";
    assert_eq!(Base122OriginalEncoder::new(data).encode(), encode(data));
}

#[test]
fn output_avoids_forbidden_bytes_and_is_utf8() {
    let input: Vec<u8> = (0..=255u8).chain((0..=255u8).rev()).collect();
    let out = encode(&input);
    for b in &out {
        assert!(!ILLEGAL_BYTES.contains(b));
    }
    assert!(std::str::from_utf8(&out).is_ok());
}

#[test]
fn decode_round_trips_short_buffers() {
    let samples: Vec<Vec<u8>> = vec![
        vec![],
        vec![0],
        vec![0, 0],
        vec![0, 0, 0],
        vec![0, 0, 0, 0],
        vec![0, 0, 0, 0, 0],
        vec![92, 34, 13, 10, 0],
        ILLEGAL_BYTES.to_vec(),
        vec![255; 5],
        b"hello world".to_vec(),
    ];
    for sample in samples {
        assert_eq!(decode(&encode(&sample)), Ok(sample));
    }
}

#[test]
fn decode_round_trips_all_byte_values() {
    let input: Vec<u8> = (0..=255u8).collect();
    assert_eq!(decode(&encode(&input)), Ok(input));
}

#[test]
fn decode_round_trips_forbidden_only_buffers() {
    for len in 0..20 {
        for &b in ILLEGAL_BYTES.iter() {
            let input = vec![b; len];
            assert_eq!(decode(&encode(&input)), Ok(input));
        }
    }
}

#[test]
fn decode_hello_world_vector() {
    let encoded = vec![52, 25, 45, 70, 99, 60, 64, 119, 55, 211, 141, 70, 32];
    assert_eq!(decode(&encoded), Ok(b"hello world".to_vec()));
}

#[test]
fn decode_rejects_raw_forbidden_byte() {
    assert_eq!(decode(&[52, 0, 45]), Err(Error::Malformed));
}

#[test]
fn decode_rejects_truncated_escape() {
    assert_eq!(decode(&[194]), Err(Error::Malformed));
}

#[test]
fn decode_rejects_bad_continuation() {
    assert_eq!(decode(&[194, 65]), Err(Error::Malformed));
}

#[test]
fn decode_rejects_unused_escape_index() {
    // lead byte carrying index 5, which names no forbidden value
    assert_eq!(decode(&[0b1101_0110, 128]), Err(Error::Malformed));
}

#[test]
fn decode_rejects_shortened_escape_before_the_end() {
    assert_eq!(decode(&[222, 128, 65]), Err(Error::Malformed));
}

#[test]
fn decode_of_empty_is_empty() {
    assert_eq!(decode(&[]), Ok(vec![]));
}

#[test]
fn decode_rejects_a_lone_chunk() {
    // one chunk carries 7 bits, not a whole byte
    assert_eq!(decode(&[65]), Err(Error::Malformed));
}

#[test]
fn decode_rejects_nonzero_padding() {
    assert_eq!(decode(&[65, 65]), Err(Error::Malformed));
    assert_eq!(decode(&[65, 64]), Ok(vec![0x83]));
    assert_eq!(encode(&[0x83]), vec![65, 64]);
}
