use binding_tool::manifest::{buildpack_manifest_url, transform};
use binding_tool::{ManifestErrorKind, TomlValue};

fn table(entries: Vec<(&str, TomlValue)>) -> TomlValue {
    TomlValue::Table(entries.into_iter().map(|(k, v)| (k.to_string(), v)).collect())
}

fn text(s: &str) -> TomlValue {
    TomlValue::String(s.to_string())
}

/// `[[metadata.dependencies]]` holding the one entry given.
fn with_dependency(entry: Vec<(&str, TomlValue)>) -> TomlValue {
    table(vec![(
        "metadata",
        table(vec![("dependencies", TomlValue::Array(vec![table(entry)]))]),
    )])
}

#[test]
#[should_panic(expected = "no metadata present in buildpack.toml")]
fn transform_no_metadata() {
    transform(&table(vec![("foo", text("bar"))])).unwrap();
}

#[test]
#[should_panic(expected = "metadata should be a table")]
fn transform_metadata_not_a_table() {
    transform(&table(vec![("metadata", text("bar"))])).unwrap();
}

#[test]
#[should_panic(expected = "no dependencies present")]
fn transform_metadata_not_dependency() {
    transform(&table(vec![(
        "metadata",
        table(vec![(
            "configurations",
            TomlValue::Array(vec![table(vec![("foo", text("bar"))])]),
        )]),
    )]))
    .unwrap();
}

#[test]
#[should_panic(expected = "dependencies should be an array")]
fn transform_metadata_dependencies_should_be_an_array() {
    transform(&table(vec![("metadata", table(vec![("dependencies", text("foo"))]))])).unwrap();
}

#[test]
#[should_panic(expected = "dependency should be a table")]
fn transform_metadata_dependency_should_be_a_table() {
    transform(&table(vec![(
        "metadata",
        table(vec![(
            "dependencies",
            TomlValue::Array(vec![
                TomlValue::Integer(1),
                TomlValue::Integer(2),
                TomlValue::Integer(3),
            ]),
        )]),
    )]))
    .unwrap();
}

#[test]
#[should_panic(expected = "sha256 or checksum field is required")]
fn transform_metadata_dependency_should_have_an_sha256_or_checksum() {
    transform(&with_dependency(vec![("uri", text("fake")), ("foo", text("bar"))])).unwrap();
}

#[test]
#[should_panic(expected = "sha256 or checksum field is required")]
fn transform_metadata_dependency_should_not_have_both_an_sha256_or_checksum() {
    transform(&with_dependency(vec![
        ("uri", text("fake")),
        ("checksum", text("bar")),
        ("sha256", text("baz")),
    ]))
    .unwrap();
}

#[test]
#[should_panic(expected = "sha256 field should be a string")]
fn transform_metadata_dependency_sha256_should_be_str() {
    transform(&with_dependency(vec![("uri", text("fake")), ("sha256", TomlValue::Integer(1))]))
        .unwrap();
}

#[test]
#[should_panic(expected = "checksum field should be a string")]
fn transform_metadata_dependency_checksum_should_be_str() {
    transform(&with_dependency(vec![("uri", text("fake")), ("checksum", TomlValue::Integer(1))]))
        .unwrap();
}

#[test]
#[should_panic(expected = "only sha256 algorithm is supported")]
fn transform_metadata_dependency_checksum_should_use_sha256() {
    transform(&with_dependency(vec![("uri", text("fake")), ("checksum", text("1:fdfdff"))]))
        .unwrap();
}

#[test]
#[should_panic(expected = "uri field is required")]
fn transform_metadata_dependency_should_have_an_uri() {
    transform(&with_dependency(vec![("sha256", text("sha256")), ("foo", text("bar"))])).unwrap();
}

#[test]
#[should_panic(expected = "uri should be a string")]
fn transform_metadata_dependency_uri_should_be_str() {
    transform(&with_dependency(vec![("sha256", text("sha256")), ("uri", TomlValue::Integer(1))]))
        .unwrap();
}

#[test]
fn transform_not_a_table() {
    let err = transform(&TomlValue::Boolean(true)).unwrap_err();
    assert_eq!(err.kind, ManifestErrorKind::InvalidManifest);
    assert_eq!(err.message, "buildpack.toml format is invalid");
}

#[test]
fn transform_reads_sha256_and_checksum_in_order() {
    let doc = table(vec![(
        "metadata",
        table(vec![(
            "dependencies",
            TomlValue::Array(vec![
                table(vec![
                    ("id", text("a")),
                    ("uri", text("https://example.com/a-1.0.tgz")),
                    ("sha256", text("aa11")),
                ]),
                table(vec![
                    ("uri", text("https://example.com/b-2.0.tgz")),
                    ("checksum", text("sha256:bb22")),
                    ("version", TomlValue::Other),
                ]),
            ]),
        )]),
    )]);
    let deps = transform(&doc).unwrap();
    assert_eq!(deps.len(), 2);
    assert_eq!(deps[0].uri, "https://example.com/a-1.0.tgz");
    assert_eq!(deps[0].sha256, "aa11");
    assert_eq!(deps[1].uri, "https://example.com/b-2.0.tgz");
    assert_eq!(deps[1].sha256, "bb22");
}

#[test]
fn transform_empty_dependencies() {
    let doc = table(vec![("metadata", table(vec![("dependencies", TomlValue::Array(vec![]))]))]);
    assert!(transform(&doc).unwrap().is_empty());
}

#[test]
fn transform_first_bad_dependency_decides() {
    let doc = table(vec![(
        "metadata",
        table(vec![(
            "dependencies",
            TomlValue::Array(vec![
                table(vec![("uri", text("u")), ("sha256", text("s"))]),
                table(vec![("uri", text("u")), ("checksum", text("md5:00"))]),
                table(vec![("uri", text("u"))]),
            ]),
        )]),
    )]);
    let err = transform(&doc).unwrap_err();
    assert_eq!(err.kind, ManifestErrorKind::UnsupportedAlgorithm);
}

#[test]
fn transform_checksum_without_separator_is_unsupported() {
    let err = transform(&with_dependency(vec![("uri", text("u")), ("checksum", text("abcdef"))]))
        .unwrap_err();
    assert_eq!(err.kind, ManifestErrorKind::UnsupportedAlgorithm);
}

#[test]
fn manifest_url_defaults_to_main() {
    assert_eq!(
        buildpack_manifest_url("paketo-buildpacks/bellsoft-liberica"),
        "https://raw.githubusercontent.com/paketo-buildpacks/bellsoft-liberica/main/buildpack.toml"
    );
}

#[test]
fn manifest_url_uses_version() {
    assert_eq!(
        buildpack_manifest_url("paketo-buildpacks/maven@v6.1.0"),
        "https://raw.githubusercontent.com/paketo-buildpacks/maven/v6.1.0/buildpack.toml"
    );
}
