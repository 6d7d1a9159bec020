use std::cmp::Ordering;

use rlaunch::version::{getBestJavaVersion, JavaVersion, JavaVersionRoot};

fn v(major: u32, minor: u32, security: u32, build: u32, label: &str) -> JavaVersion {
    JavaVersion { major, minor, security, build, openjdk_version: String::from(label) }
}

#[test]
fn cmp_orders_by_fields_lexicographically() {
    assert_eq!(v(20, 1, 2, 5, "a").cmp(&v(20, 1, 2, 7, "b")), Ordering::Less);
    assert_eq!(v(20, 1, 2, 7, "a").cmp(&v(20, 1, 2, 5, "b")), Ordering::Greater);
    assert_eq!(v(19, 9, 9, 9, "a").cmp(&v(20, 0, 0, 0, "b")), Ordering::Less);
    assert_eq!(v(20, 2, 0, 0, "a").cmp(&v(20, 1, 9, 9, "b")), Ordering::Greater);
    assert_eq!(v(20, 1, 3, 0, "a").cmp(&v(20, 1, 2, 9, "b")), Ordering::Greater);
}

#[test]
fn cmp_ignores_the_display_string() {
    assert_eq!(v(20, 1, 2, 7, "one label").cmp(&v(20, 1, 2, 7, "another")), Ordering::Equal);
}

#[test]
fn cmp_is_transitive_on_samples() {
    let a = v(19, 9, 9, 9, "a");
    let b = v(20, 1, 2, 5, "b");
    let c = v(20, 1, 2, 7, "c");
    assert_eq!(a.cmp(&b), Ordering::Less);
    assert_eq!(b.cmp(&c), Ordering::Less);
    assert_eq!(a.cmp(&c), Ordering::Less);
}

#[test]
fn selection_takes_the_maximum_of_the_requested_major() {
    let root = JavaVersionRoot {
        versions: vec![
            v(20, 1, 2, 5, "20.1.2+5"),
            v(20, 1, 2, 7, "20.1.2+7"),
            v(19, 9, 9, 9, "19.9.9+9"),
        ],
    };
    let best = getBestJavaVersion(root, 20).expect("a version qualifies");
    assert_eq!(best.major, 20);
    assert_eq!(best.minor, 1);
    assert_eq!(best.security, 2);
    assert_eq!(best.build, 7);
    assert_eq!(best.openjdk_version, "20.1.2+7");
}

#[test]
fn selection_with_no_matching_major_is_none() {
    let root = JavaVersionRoot {
        versions: vec![v(20, 1, 2, 5, "20.1.2+5"), v(19, 9, 9, 9, "19.9.9+9")],
    };
    assert!(getBestJavaVersion(root, 21).is_none());
    let empty = JavaVersionRoot { versions: Vec::new() };
    assert!(getBestJavaVersion(empty, 20).is_none());
}

#[test]
fn selection_ties_go_to_the_later_entry() {
    let root = JavaVersionRoot {
        versions: vec![v(20, 1, 2, 7, "first"), v(20, 1, 2, 7, "second")],
    };
    let best = getBestJavaVersion(root, 20).expect("a version qualifies");
    assert_eq!(best.openjdk_version, "second");
}

#[test]
fn version_string_is_the_display_label() {
    assert_eq!(v(20, 1, 2, 7, "20.1.2+7").versionString(), "20.1.2+7");
}
