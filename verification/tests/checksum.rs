use checkflac::check::DecodedStream;
use checkflac::check::VerifyOutcome;
use checkflac::check::pack_samples;
use checkflac::check::u32_string;
use checkflac::check::verify_decoded;
use md5::Digest;
use md5::Md5;

fn md5_bytes(data: &[u8]) -> [u8; 16] {
    let digest = Md5::digest(data);
    let mut out = [0u8; 16];
    out.copy_from_slice(&digest);
    out
}

#[test]
fn pack_8_bit_is_unsigned_with_offset() {
    let samples: Vec<i32> = vec![0, -128, 127, 1, -1];
    let packed = pack_samples(&samples, 8);
    assert_eq!(packed, vec![128, 0, 255, 129, 127]);
}

#[test]
fn pack_16_bit_is_signed_little_endian() {
    let samples: Vec<i32> = vec![0, -1, 258, -32768, 32767];
    let packed = pack_samples(&samples, 16);
    assert_eq!(
        packed,
        vec![0, 0, 255, 255, 2, 1, 0, 128, 255, 127]
    );
}

#[test]
fn pack_24_bit_keeps_low_three_bytes() {
    let samples: Vec<i32> = vec![-2, 65536, 8388607, -8388608];
    let packed = pack_samples(&samples, 24);
    assert_eq!(
        packed,
        vec![254, 255, 255, 0, 0, 1, 255, 255, 127, 0, 0, 128]
    );
}

#[test]
fn pack_32_bit_is_signed_little_endian() {
    let samples: Vec<i32> = vec![1, -1, i32::MIN, i32::MAX];
    let packed = pack_samples(&samples, 32);
    assert_eq!(
        packed,
        vec![
            1, 0, 0, 0, 255, 255, 255, 255, 0, 0, 0, 128, 255, 255, 255, 127
        ]
    );
}

#[test]
fn digest_matches_reference_md5_for_each_depth() {
    for &(bits, ref samples) in &[
        (8u32, vec![0i32, -128, 127, 64]),
        (16u32, vec![0i32, -1, 12345, -20000]),
        (24u32, vec![-2i32, 65536, 7, -9000]),
        (32u32, vec![1i32, -1, 2_000_000_000, -2_000_000_000]),
    ] {
        let packed = pack_samples(samples, bits);
        let reference = md5_bytes(&packed);
        let decoded = DecodedStream {
            bits_per_sample: bits,
            md5sum: reference,
            samples: samples.clone(),
        };
        let outcome = verify_decoded(Ok(decoded));
        assert!(
            matches!(outcome, VerifyOutcome::Verified),
            "depth {} should verify against its own digest",
            bits
        );
    }
}

#[test]
fn mismatched_digest_reports_corrupt() {
    let samples: Vec<i32> = vec![5, 6, 7];
    let packed = pack_samples(&samples, 16);
    let mut reference = md5_bytes(&packed);
    reference[0] ^= 0xff;
    let decoded = DecodedStream {
        bits_per_sample: 16,
        md5sum: reference,
        samples,
    };
    match verify_decoded(Ok(decoded)) {
        VerifyOutcome::Corrupt(message) => {
            assert!(message.contains("mismatch"));
            assert_eq!(message, "checksum mismatch");
        }
        other => panic!("expected corrupt, got {:?}", other),
    }
}

#[test]
fn all_zero_sentinel_passes_without_comparing() {
    // The stored digest is the all-zero sentinel: decoding successfully is
    // enough, whatever digest the samples actually have.
    let decoded = DecodedStream {
        bits_per_sample: 16,
        md5sum: [0u8; 16],
        samples: vec![1, 2, 3, 4],
    };
    assert!(matches!(verify_decoded(Ok(decoded)), VerifyOutcome::Verified));
}

#[test]
fn decoder_error_reports_failed_with_its_text() {
    let outcome = verify_decoded(Err(String::from("FLAC decoding error: bad frame")));
    match outcome {
        VerifyOutcome::Failed(message) => {
            assert_eq!(message, "FLAC decoding error: bad frame");
        }
        other => panic!("expected failed, got {:?}", other),
    }
}

#[test]
fn unsupported_depth_reports_failed_with_depth() {
    let decoded = DecodedStream {
        bits_per_sample: 20,
        md5sum: [1u8; 16],
        samples: vec![1],
    };
    match verify_decoded(Ok(decoded)) {
        VerifyOutcome::Failed(message) => {
            assert_eq!(message, "unsupported bit depth: 20");
        }
        other => panic!("expected failed, got {:?}", other),
    }
}

#[test]
fn decimal_rendering_is_exact() {
    assert_eq!(u32_string(0), "0");
    assert_eq!(u32_string(9), "9");
    assert_eq!(u32_string(44), "44");
    assert_eq!(u32_string(1020), "1020");
    assert_eq!(u32_string(u32::MAX), "4294967295");
}
