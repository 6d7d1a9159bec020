use rlaunch::manifest::{hashRuntime, validateRuntime, TreeFile};

fn tf(path: &str, contents: &[u8]) -> TreeFile {
    TreeFile { path: path.as_bytes().to_vec(), contents: contents.to_vec() }
}

#[test]
fn round_trip_accepts_the_hashed_tree() {
    let files = vec![
        tf("bin/java", b"#!ELF machine code"),
        tf("lib/modules", b"lots of classes"),
        tf("release", b"JAVA_VERSION=\"20.1.2\"\n"),
    ];
    let manifest = hashRuntime(&files);
    assert!(validateRuntime(&manifest, &files));
}

#[test]
fn flipping_one_byte_is_detected() {
    let files = vec![tf("bin/java", b"#!ELF machine code"), tf("release", b"JAVA_VERSION\n")];
    let manifest = hashRuntime(&files);
    let mut tampered_contents = b"#!ELF machine code".to_vec();
    tampered_contents[3] ^= 0x01;
    let tampered = vec![
        TreeFile { path: b"bin/java".to_vec(), contents: tampered_contents },
        tf("release", b"JAVA_VERSION\n"),
    ];
    assert!(!validateRuntime(&manifest, &tampered));
}

#[test]
fn a_missing_file_is_a_mismatch() {
    let files = vec![tf("a", b"one"), tf("b", b"two")];
    let manifest = hashRuntime(&files);
    let shrunk = vec![tf("a", b"one")];
    assert!(!validateRuntime(&manifest, &shrunk));
}

#[test]
fn a_partial_trailing_record_is_rejected() {
    let files = vec![tf("a", b"one")];
    let mut manifest = hashRuntime(&files);
    manifest.pop();
    assert!(!validateRuntime(&manifest, &files));
}

#[test]
fn an_empty_manifest_asserts_nothing() {
    let manifest: Vec<u8> = Vec::new();
    let files = vec![tf("untracked", b"the format does not list this file")];
    assert!(validateRuntime(&manifest, &files));
}

#[test]
fn extra_untracked_files_still_pass() {
    let files = vec![tf("a", b"one")];
    let manifest = hashRuntime(&files);
    let grown = vec![tf("a", b"one"), tf("b", b"two")];
    assert!(validateRuntime(&manifest, &grown));
}

#[test]
fn duplicate_paths_with_differing_contents_fail() {
    let files = vec![tf("a", b"one"), tf("a", b"two")];
    let manifest = hashRuntime(&files);
    // the record for the second file finds the first file's contents
    assert!(!validateRuntime(&manifest, &files));
}

#[test]
fn the_longest_representable_path_round_trips() {
    let long = "d".repeat(255);
    let files = vec![TreeFile { path: long.into_bytes(), contents: b"deep".to_vec() }];
    let manifest = hashRuntime(&files);
    assert_eq!(manifest.len(), 1 + 255 + 64);
    assert!(validateRuntime(&manifest, &files));
}

#[test]
fn the_record_layout_is_length_path_digest() {
    let files = vec![tf("abc", b"abc")];
    let manifest = hashRuntime(&files);
    assert_eq!(manifest.len(), 1 + 3 + 64);
    assert_eq!(manifest[0], 3);
    assert_eq!(&manifest[1..4], b"abc");
    let known = hex::decode(
        "ddaf35a193617abacc417349ae20413112e6fa4e89a97ea20a9eeee64b55d39a\
         2192992a274fc1a836ba3c23a3feebbd454d4423643ce80e2a9ac94fa54ca49f",
    )
    .expect("the reference digest is valid hex");
    assert_eq!(&manifest[4..68], known.as_slice());
}

#[test]
fn a_handwritten_manifest_with_the_reference_digest_passes() {
    let digest = hex::decode(
        "ddaf35a193617abacc417349ae20413112e6fa4e89a97ea20a9eeee64b55d39a\
         2192992a274fc1a836ba3c23a3feebbd454d4423643ce80e2a9ac94fa54ca49f",
    )
    .expect("the reference digest is valid hex");
    let mut manifest = vec![1u8, b'f'];
    manifest.extend_from_slice(&digest);
    let files = vec![tf("f", b"abc")];
    assert!(validateRuntime(&manifest, &files));
    let wrong = vec![tf("f", b"abd")];
    assert!(!validateRuntime(&manifest, &wrong));
}
