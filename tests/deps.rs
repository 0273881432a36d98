use binding_tool::deps::{binding_entries, digest_matches};
use binding_tool::fetch::{fetch_action, join_reports};
use binding_tool::{Dependency, DependencyErrorKind, FetchAction, FetchError, FetchErrorKind, FetchQueue};

const HELLO_SHA256: &str = "2cf24dba5fb0a30e26e83b2ac5b9e29e1b161e5c1fa7425e73043362938b9824";

#[test]
fn dependency_filename() {
    assert_eq!(
        "filename",
        Dependency {
            sha256: "".into(),
            uri: "https://example.com/filename".into(),
        }
        .filename()
        .unwrap()
    );
}

#[test]
#[should_panic(expected = "no path segments for")]
fn dependency_filename_no_path() {
    assert_eq!(
        "filename",
        Dependency {
            sha256: "".into(),
            uri: "data:text/plain,HelloWorld".into(),
        }
        .filename()
        .unwrap()
    );
}

#[test]
fn dependency_filename_not_a_url() {
    let err = Dependency::new("not a url".into(), "".into()).filename().unwrap_err();
    assert_eq!(err.kind, DependencyErrorKind::InvalidUrl);
    assert_eq!(err.uri, "not a url");
}

#[test]
fn dependency_filename_last_segment() {
    let d = Dependency::new("https://example.com/path/artifact-1.0.tgz".into(), "".into());
    assert_eq!(d.filename().unwrap(), "artifact-1.0.tgz");
}

#[test]
fn digest_is_lower_case_hex() {
    assert!(digest_matches(&[0x00, 0x0f, 0xa0, 0xff], "000fa0ff"));
    assert!(!digest_matches(&[0x00, 0x0f, 0xa0, 0xff], "000FA0FF"));
    assert!(digest_matches(&[], ""));
}

#[test]
fn checksum_matches_sha256_of_file() {
    let d = Dependency::new("https://example.com/hello".into(), HELLO_SHA256.into());
    assert!(d.checksum_matches(Some(b"hello")));
    assert!(!d.checksum_matches(Some(b"hello!")));
    assert!(!d.checksum_matches(None));
}

#[test]
fn fetch_skips_file_with_declared_digest() {
    let d = Dependency::new("https://example.com/hello".into(), HELLO_SHA256.into());
    assert_eq!(fetch_action(&d, Some(b"hello")), FetchAction::Skip);
    assert_eq!(fetch_action(&d, Some(b"other")), FetchAction::Download);
    assert_eq!(fetch_action(&d, None), FetchAction::Download);
}

#[test]
fn binding_entries_point_at_binaries() {
    let deps = vec![
        Dependency::new("https://example.com/a/x.tgz".into(), "d1".into()),
        Dependency::new("data:text/plain,HelloWorld".into(), "d2".into()),
        Dependency::new("https://example.com/y.jar".into(), "d3".into()),
    ];
    let entries = binding_entries(&deps, "dependency-mapping");
    assert_eq!(
        entries,
        vec![
            "d1=file:///bindings/dependency-mapping/binaries/x.tgz".to_string(),
            "d3=file:///bindings/dependency-mapping/binaries/y.jar".to_string(),
        ]
    );
}

#[test]
fn queue_hands_out_each_dependency_once() {
    let deps = vec![
        Dependency::new("https://example.com/1".into(), "a".into()),
        Dependency::new("https://example.com/2".into(), "b".into()),
        Dependency::new("https://example.com/3".into(), "c".into()),
    ];
    let mut q = FetchQueue::new(deps);
    assert_eq!(q.len(), 3);
    let mut seen = vec![];
    while let Some(d) = q.pop() {
        seen.push(d.sha256);
    }
    assert_eq!(seen, vec!["c", "b", "a"]);
    assert!(q.pop().is_none());
}

#[test]
fn join_reports_first_failure_wins() {
    let fail = |s: &str| FetchError {
        kind: FetchErrorKind::Network,
        subject: s.to_string(),
        detail: String::new(),
    };
    assert!(join_reports(&vec![None, None]).is_ok());
    assert!(join_reports(&vec![]).is_ok());
    let err = join_reports(&vec![None, Some(fail("u1")), Some(fail("u2"))]).unwrap_err();
    assert_eq!(err.subject, "u1");
}
