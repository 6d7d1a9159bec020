use rlaunch::coordinate::{
    cacheDecision, dotsToSlashes, libraryFileName, libraryPath, librarySidecarPath,
    librarySidecarUrl, libraryUrl, resolveAction, sidecarMatches, CacheAction, LibraryCoordinate,
};

fn coord(group: &str, artifact: &str, classifier: Option<&str>, version: &str) -> LibraryCoordinate {
    LibraryCoordinate {
        group: String::from(group),
        artifact: String::from(artifact),
        classifier: classifier.map(String::from),
        version: String::from(version),
    }
}

const ABC_SHA1: &str = "a9993e364706816aba3e25717850c26c9cd0d89d";

#[test]
fn dots_become_slashes() {
    assert_eq!(dotsToSlashes("org.jetbrains"), "org/jetbrains");
    assert_eq!(dotsToSlashes("nodots"), "nodots");
    assert_eq!(dotsToSlashes(""), "");
}

#[test]
fn coordinate_resolution_is_deterministic() {
    let c = coord("org.jetbrains", "annotations", None, "24.0.1");
    let expected = "org/jetbrains/annotations/24.0.1/annotations-24.0.1.jar";
    assert_eq!(libraryPath(&c), expected);
    // no state takes part: a second resolution answers the same
    assert_eq!(libraryPath(&c), expected);
    assert_eq!(librarySidecarPath(&c), format!("{}.sha1", expected));
    assert_eq!(libraryUrl(&c), format!("https://repo1.maven.org/maven2/{}", expected));
    assert_eq!(
        librarySidecarUrl(&c),
        format!("https://repo1.maven.org/maven2/{}.sha1", expected)
    );
}

#[test]
fn a_classifier_lands_between_version_and_extension() {
    let c = coord("net.gudenau.cavegame", "cavegame", Some("logger"), "0.0.0");
    assert_eq!(libraryFileName(&c), "cavegame-0.0.0-logger.jar");
    assert_eq!(
        libraryPath(&c),
        "net/gudenau/cavegame/cavegame/0.0.0/cavegame-0.0.0-logger.jar"
    );
}

#[test]
fn a_matching_sidecar_is_accepted() {
    let artifact = b"abc".to_vec();
    assert!(sidecarMatches(&ABC_SHA1.as_bytes().to_vec(), &artifact));
    // one trailing newline is stripped before decoding
    let with_newline = format!("{}\n", ABC_SHA1).into_bytes();
    assert!(sidecarMatches(&with_newline, &artifact));
    // either case of hex digit is accepted
    let upper = ABC_SHA1.to_uppercase().into_bytes();
    assert!(sidecarMatches(&upper, &artifact));
}

#[test]
fn a_wrong_or_malformed_sidecar_is_rejected() {
    let artifact = b"abc".to_vec();
    let mut wrong = String::from(ABC_SHA1).into_bytes();
    wrong[0] = b'b';
    assert!(!sidecarMatches(&wrong, &artifact));
    let odd = b"a9993".to_vec();
    assert!(!sidecarMatches(&odd, &artifact));
    let not_hex = b"zz93e364706816aba3e25717850c26c9cd0d89d0".to_vec();
    assert!(!sidecarMatches(&not_hex, &artifact));
}

#[test]
fn an_undecodable_sidecar_is_a_fatal_decode_failure() {
    let artifact = Some(b"abc".to_vec());
    // non-hex characters
    let not_hex = Some(b"zz93e364706816aba3e25717850c26c9cd0d89d0".to_vec());
    assert_eq!(cacheDecision(&artifact, &not_hex), CacheAction::DecodeFailure);
    // odd length
    let odd = Some(b"a9993".to_vec());
    assert_eq!(cacheDecision(&artifact, &odd), CacheAction::DecodeFailure);
    // a \r\n line ending: only the \n is stripped, the leftover \r is not hex
    let crlf = Some(format!("{}\r\n", ABC_SHA1).into_bytes());
    assert_eq!(cacheDecision(&artifact, &crlf), CacheAction::DecodeFailure);
}

#[test]
fn a_consistent_cached_pair_is_reused() {
    let artifact = Some(b"abc".to_vec());
    let sidecar = Some(format!("{}\n", ABC_SHA1).into_bytes());
    assert_eq!(cacheDecision(&artifact, &sidecar), CacheAction::Reuse);
}

#[test]
fn a_corrupt_sidecar_refetches_both_files() {
    let artifact = Some(b"abc".to_vec());
    let mut corrupt = String::from(ABC_SHA1).into_bytes();
    corrupt[2] = b'0';
    assert_eq!(cacheDecision(&artifact, &Some(corrupt)), CacheAction::RefetchBoth);
}

#[test]
fn a_bundled_coordinate_is_taken_on_faith() {
    // remote resolution disabled: the path is used with no check at all
    assert_eq!(resolveAction(false, &None, &None), CacheAction::Reuse);
    // enabled, the cached pair decides as usual
    assert_eq!(resolveAction(true, &None, &None), CacheAction::RefetchBoth);
    let artifact = Some(b"abc".to_vec());
    let sidecar = Some(String::from(ABC_SHA1).into_bytes());
    assert_eq!(resolveAction(true, &artifact, &sidecar), CacheAction::Reuse);
}

#[test]
fn a_half_present_pair_refetches_both_files() {
    let artifact = Some(b"abc".to_vec());
    let sidecar = Some(String::from(ABC_SHA1).into_bytes());
    assert_eq!(cacheDecision(&artifact, &None), CacheAction::RefetchBoth);
    assert_eq!(cacheDecision(&None, &sidecar), CacheAction::RefetchBoth);
    assert_eq!(cacheDecision(&None, &None), CacheAction::RefetchBoth);
}
