use ptouch::tiff::{compress, decompress};

#[test]
fn repeat_line_compresses_to_two_bytes() {
    let line = [0x5A_u8; 16];
    let c = compress(&line);
    assert_eq!(c, vec![0xF1, 0x5A]);
}

#[test]
fn literal_line_compresses_to_seventeen_bytes() {
    let line: [u8; 16] = [0, 1, 2, 3, 4, 5, 6, 7, 8, 9, 10, 11, 12, 13, 14, 15];
    let c = compress(&line);
    assert_eq!(c.len(), 17);
    assert_eq!(c[0], 0x0F);
    assert_eq!(&c[1..], &line[..]);
}

#[test]
fn alternating_line_compresses_to_seventeen_bytes() {
    let line: [u8; 16] = [0, 1, 0, 1, 0, 1, 0, 1, 0, 1, 0, 1, 0, 1, 0, 1];
    let c = compress(&line);
    assert_eq!(c.len(), 17);
    assert_eq!(c[0], 0x0F);
}

#[test]
fn mixed_line_exact_encoding() {
    let line: [u8; 16] = [0, 0, 0, 0, 1, 2, 3, 3, 4, 5, 6, 7, 8, 9, 10, 11];
    let c = compress(&line);
    assert_eq!(
        c,
        vec![
            0xFD, 0x00, // run of four zero bytes
            0x01, 1, 2, // two literal bytes
            0xFF, 3, // run of two
            0x07, 4, 5, 6, 7, 8, 9, 10, 11, // eight literal bytes
        ]
    );
}

#[test]
fn round_trip_restores_the_line() {
    let lines: [[u8; 16]; 5] = [
        [0x5A; 16],
        [0, 1, 2, 3, 4, 5, 6, 7, 8, 9, 10, 11, 12, 13, 14, 15],
        [0, 0, 0, 0, 1, 2, 3, 3, 4, 5, 6, 7, 8, 9, 10, 11],
        [0; 16],
        [7, 7, 7, 1, 1, 2, 9, 9, 9, 9, 0, 0, 0, 0, 0, 3],
    ];
    for line in lines.iter() {
        let c = compress(line);
        let d = decompress(&c);
        assert_eq!(&d[..], &line[..]);
    }
}

#[test]
fn compressed_length_is_bounded() {
    let mut line = [0u8; 16];
    for seed in 0..64u32 {
        for (k, b) in line.iter_mut().enumerate() {
            *b = ((seed.wrapping_mul(31).wrapping_add(k as u32 * 7)) % 3) as u8;
        }
        let c = compress(&line);
        assert!(c.len() <= 32);
    }
}

#[test]
fn decompress_handles_stray_streams() {
    assert_eq!(decompress(&vec![]), Vec::<u8>::new());
    assert_eq!(decompress(&vec![0x00, 0xAA]), vec![0xAA]);
    assert_eq!(decompress(&vec![0xFF, 0x07]), vec![7, 7]);
    // literal chunk cut short: the remaining bytes come through
    assert_eq!(decompress(&vec![0x03, 1, 2]), vec![1, 2]);
    // repeat chunk missing its byte: nothing comes through
    assert_eq!(decompress(&vec![0xF1]), Vec::<u8>::new());
}

#[test]
fn decompress_expands_long_runs() {
    assert_eq!(decompress(&vec![0x81, 7]), vec![7u8; 128]);
    assert_eq!(decompress(&vec![0x80, 7]), vec![7u8; 129]);
}
