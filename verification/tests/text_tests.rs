use dockdash::digest::content_digest;
use dockdash::push::megabytes;
use dockdash::text::{decimal, has_suffix, hex};

#[test]
fn hex_is_lowercase_with_two_digits() {
    assert_eq!(hex(&[0x00, 0x0f, 0xa5, 0xff]), "000fa5ff");
    assert_eq!(hex(&[]), "");
    let all: Vec<u8> = (0..=255).collect();
    let expected: String = all.iter().map(|b| format!("{b:02x}")).collect();
    assert_eq!(hex(&all), expected);
}

#[test]
fn decimal_has_no_leading_zeros() {
    for n in [0, 1, 9, 10, 99, 100, 4096, 18_446_744_073_709_551_615] {
        assert_eq!(decimal(n), n.to_string());
    }
}

#[test]
fn suffixes_are_found() {
    assert!(has_suffix("us-docker.pkg.dev", "-docker.pkg.dev"));
    assert!(has_suffix("x", ""));
    assert!(!has_suffix("dev", "pkg.dev"));
    assert!(!has_suffix("gcr.io.example", ".gcr.io"));
}

#[test]
fn digests_are_sha256_in_hex() {
    assert_eq!(
        content_digest(b""),
        "sha256:e3b0c44298fc1c149afbf4c8996fb92427ae41e4649b934ca495991b7852b855"
    );
    assert_eq!(
        content_digest(b"abc"),
        "sha256:ba7816bf8f01cfea414140de5dae2223b00361a396177a9cb410ff61f20015ad"
    );
}

#[test]
fn megabytes_agree_with_floating_point() {
    let mut samples: Vec<u64> = vec![0, 1, 52_428, 52_429, 104_857, 104_858];
    for quarter in 0..400 {
        samples.push(quarter * 262_144);
        samples.push(quarter * 262_144 + 1);
        samples.push((quarter * 262_144).saturating_sub(1));
    }
    let mut n: u64 = 7;
    for _ in 0..2000 {
        n = n.wrapping_mul(6_364_136_223_846_793_005).wrapping_add(1_442_695_040_888_963_407);
        samples.push(n);
        samples.push(n >> 11);
        samples.push(n >> 20);
        samples.push(n >> 33);
    }
    for shift in 52..64 {
        for step in 0..5 {
            samples.push((1 << shift) + step);
            samples.push((1u64 << shift) - 1 - step);
        }
    }
    samples.push(u64::MAX);
    for bytes in samples {
        let expected = format!("{:.1}", bytes as f64 / (1024.0 * 1024.0));
        assert_eq!(megabytes(bytes), expected, "{bytes}");
    }
}

#[test]
fn megabytes_round_ties_to_even() {
    assert_eq!(megabytes(10_747_904), "10.2");
    assert_eq!(megabytes(11_272_192), "10.8");
    assert_eq!(megabytes(10_485_761), "10.0");
    assert_eq!(megabytes(15_728_640), "15.0");
}
