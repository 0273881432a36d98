//! Reading the dependency list out of a buildpack manifest document.
//!
//! The manifest has the shape
//! `{ metadata: { dependencies: [ { uri, sha256 | checksum }, .. ] } }`;
//! anything else is refused as a whole.
use vstd::prelude::*;
use vstd::string::*;

use crate::deps::{Dependency, DependencySpec};
use crate::text::{split_once, split_once_at};

verus! {

/// A structured document as a TOML parser hands it over.
#[derive(Debug)]
pub enum TomlValue {
    String(String),
    Integer(i64),
    Boolean(bool),
    Array(Vec<TomlValue>),
    /// A table: its keys with their values, keys distinct.
    Table(Vec<(String, TomlValue)>),
    /// A float or a date-time: values that a manifest is never asked for.
    Other,
}

/// Why a manifest was refused.
#[derive(Clone, Copy, Debug, PartialEq, Eq, Structural)]
pub enum ManifestErrorKind {
    /// The document is not a table.
    InvalidManifest,
    /// There is no `metadata` entry.
    MissingMetadata,
    /// `metadata` is not a table.
    InvalidMetadata,
    /// `metadata` has no `dependencies` entry.
    MissingDependencies,
    /// `metadata.dependencies` is not an array.
    InvalidDependencies,
    /// A dependency is not a table.
    InvalidDependency,
    /// A dependency has no `uri`.
    MissingUri,
    /// A dependency's `uri` is not a string.
    InvalidUri,
    /// A dependency has both `sha256` and `checksum`, or neither.
    AmbiguousChecksum,
    /// A dependency's `sha256` is not a string.
    InvalidSha256,
    /// A dependency's `checksum` is not a string.
    InvalidChecksum,
    /// A dependency's `checksum` names another algorithm than `sha256`.
    UnsupportedAlgorithm,
}

/// A refused manifest: the reason, and the reason in words.
#[derive(Clone, Debug)]
pub struct ManifestError {
    pub kind: ManifestErrorKind,
    pub message: &'static str,
}

/// The message that goes with each kind of refused manifest.
pub open spec fn manifest_message(kind: ManifestErrorKind) -> Seq<char> {
    match kind {
        ManifestErrorKind::InvalidManifest => "buildpack.toml format is invalid"@,
        ManifestErrorKind::MissingMetadata => "no metadata present in buildpack.toml"@,
        ManifestErrorKind::InvalidMetadata => "metadata should be a table"@,
        ManifestErrorKind::MissingDependencies => "no dependencies present"@,
        ManifestErrorKind::InvalidDependencies => "dependencies should be an array"@,
        ManifestErrorKind::InvalidDependency => "dependency should be a table"@,
        ManifestErrorKind::MissingUri => "uri field is required"@,
        ManifestErrorKind::InvalidUri => "uri should be a string"@,
        ManifestErrorKind::AmbiguousChecksum => "sha256 or checksum field is required"@,
        ManifestErrorKind::InvalidSha256 => "sha256 field should be a string"@,
        ManifestErrorKind::InvalidChecksum => "checksum field should be a string"@,
        ManifestErrorKind::UnsupportedAlgorithm => "only sha256 algorithm is supported"@,
    }
}

impl ManifestError {
    /// The error of the given kind, with its message.
    pub fn new(kind: ManifestErrorKind) -> (r: ManifestError)
        ensures
            r.kind == kind,
            r.message@ == manifest_message(kind),
    {
        let message = match kind {
            ManifestErrorKind::InvalidManifest => "buildpack.toml format is invalid",
            ManifestErrorKind::MissingMetadata => "no metadata present in buildpack.toml",
            ManifestErrorKind::InvalidMetadata => "metadata should be a table",
            ManifestErrorKind::MissingDependencies => "no dependencies present",
            ManifestErrorKind::InvalidDependencies => "dependencies should be an array",
            ManifestErrorKind::InvalidDependency => "dependency should be a table",
            ManifestErrorKind::MissingUri => "uri field is required",
            ManifestErrorKind::InvalidUri => "uri should be a string",
            ManifestErrorKind::AmbiguousChecksum => "sha256 or checksum field is required",
            ManifestErrorKind::InvalidSha256 => "sha256 field should be a string",
            ManifestErrorKind::InvalidChecksum => "checksum field should be a string",
            ManifestErrorKind::UnsupportedAlgorithm => "only sha256 algorithm is supported",
        };
        ManifestError { kind, message }
    }
}

/// The value under `key` in a table's entries.
pub open spec fn table_get(entries: Seq<(String, TomlValue)>, key: Seq<char>) -> Option<TomlValue>
    decreases entries.len(),
{
    if entries.len() == 0 {
        None
    } else if entries[0].0@ == key {
        Some(entries[0].1)
    } else {
        table_get(entries.drop_first(), key)
    }
}

/// The digest that a `checksum` entry names: the text after `sha256:`.
pub open spec fn checksum_digest(checksum: Seq<char>) -> Option<Seq<char>> {
    match split_once_at(checksum, ':') {
        Some((algorithm, digest)) => if algorithm == "sha256"@ {
            Some(digest)
        } else {
            None
        },
        None => None,
    }
}

/// The dependency that one entry of `metadata.dependencies` describes.
pub open spec fn dependency_of(item: TomlValue) -> Result<DependencySpec, ManifestErrorKind> {
    match item {
        TomlValue::Table(t) => match table_get(t@, "uri"@) {
            None => Err(ManifestErrorKind::MissingUri),
            Some(TomlValue::String(uri)) => {
                let sha256 = table_get(t@, "sha256"@);
                let checksum = table_get(t@, "checksum"@);
                if sha256 is Some == checksum is Some {
                    Err(ManifestErrorKind::AmbiguousChecksum)
                } else if sha256 is Some {
                    match sha256->0 {
                        TomlValue::String(h) => Ok(DependencySpec { uri: uri@, sha256: h@ }),
                        _ => Err(ManifestErrorKind::InvalidSha256),
                    }
                } else {
                    match checksum->0 {
                        TomlValue::String(c) => match checksum_digest(c@) {
                            Some(h) => Ok(DependencySpec { uri: uri@, sha256: h }),
                            None => Err(ManifestErrorKind::UnsupportedAlgorithm),
                        },
                        _ => Err(ManifestErrorKind::InvalidChecksum),
                    }
                }
            },
            Some(_) => Err(ManifestErrorKind::InvalidUri),
        },
        _ => Err(ManifestErrorKind::InvalidDependency),
    }
}

/// The dependencies that a list of entries describes, in order; the first
/// entry that describes none decides the error.
pub open spec fn dependencies_of(items: Seq<TomlValue>) -> Result<Seq<DependencySpec>, ManifestErrorKind>
    decreases items.len(),
{
    if items.len() == 0 {
        Ok(Seq::empty())
    } else {
        match dependencies_of(items.drop_last()) {
            Err(e) => Err(e),
            Ok(ds) => match dependency_of(items.last()) {
                Err(e) => Err(e),
                Ok(d) => Ok(ds.push(d)),
            },
        }
    }
}

/// An entry that describes no dependency decides the error of every list
/// that goes on from it.
proof fn lemma_error_in_prefix(items: Seq<TomlValue>, i: int)
    requires
        0 <= i <= items.len(),
        dependencies_of(items.subrange(0, i)) is Err,
    ensures
        dependencies_of(items) == dependencies_of(items.subrange(0, i)),
    decreases items.len() - i,
{
    if i == items.len() {
        assert(items.subrange(0, i) =~= items);
    } else {
        assert(items.drop_last().subrange(0, i) =~= items.subrange(0, i));
        lemma_error_in_prefix(items.drop_last(), i);
    }
}

/// The dependencies that a manifest document declares.
pub open spec fn manifest_dependencies(doc: TomlValue) -> Result<Seq<DependencySpec>, ManifestErrorKind> {
    match doc {
        TomlValue::Table(top) => match table_get(top@, "metadata"@) {
            None => Err(ManifestErrorKind::MissingMetadata),
            Some(TomlValue::Table(metadata)) => match table_get(metadata@, "dependencies"@) {
                None => Err(ManifestErrorKind::MissingDependencies),
                Some(TomlValue::Array(items)) => dependencies_of(items@),
                Some(_) => Err(ManifestErrorKind::InvalidDependencies),
            },
            Some(_) => Err(ManifestErrorKind::InvalidMetadata),
        },
        _ => Err(ManifestErrorKind::InvalidManifest),
    }
}

/// Where the manifest of a buildpack is published: `owner/name` or
/// `owner/name@ref` names it, the ref defaulting to `main`.
pub open spec fn manifest_url_of(buildpack: Seq<char>) -> Seq<char> {
    match split_once_at(buildpack, '@') {
        Some((id, version)) => "https://raw.githubusercontent.com/"@ + id + "/"@ + version
            + "/buildpack.toml"@,
        None => "https://raw.githubusercontent.com/"@ + buildpack + "/main/buildpack.toml"@,
    }
}

/// The URL of a buildpack's manifest, from `owner/name` or `owner/name@ref`:
/// `https://raw.githubusercontent.com/{owner}/{name}/{ref}/buildpack.toml`,
/// with `main` where no ref is given.
pub fn buildpack_manifest_url(buildpack: &str) -> (r: String)
    ensures
        r@ == manifest_url_of(buildpack@),
{
    let mut url = String::from_str("https://raw.githubusercontent.com/");
    match split_once(buildpack, '@') {
        Some((id, version)) => {
            url.append(id);
            url.append("/");
            url.append(version);
            url.append("/buildpack.toml");
        },
        None => {
            url.append(buildpack);
            url.append("/main/buildpack.toml");
        },
    }
    url
}

/// Looks `key` up among a table's entries.
pub fn table_lookup<'a>(entries: &'a Vec<(String, TomlValue)>, key: &str) -> (r: Option<&'a TomlValue>)
    ensures
        match table_get(entries@, key@) {
            Some(v) => r matches Some(x) && *x == v,
            None => r is None,
        },
{
    let wanted = String::from_str(key);
    let n = entries.len();
    let mut i: usize = 0;
    assert(entries@.subrange(0, n as int) =~= entries@);
    while i < n
        invariant
            n == entries@.len(),
            i <= n,
            wanted@ == key@,
            table_get(entries@, key@) == table_get(entries@.subrange(i as int, n as int), key@),
        decreases n - i,
    {
        assert(entries@.subrange(i as int, n as int).drop_first() =~= entries@.subrange(
            i + 1,
            n as int,
        ));
        assert(entries@.subrange(i as int, n as int)[0] == entries@[i as int]);
        if entries[i].0 == wanted {
            return Some(&entries[i].1);
        }
        i = i + 1;
    }
    None
}

fn string_value(v: Option<&TomlValue>) -> (r: Option<&String>)
    ensures
        match v {
            Some(TomlValue::String(s)) => r == Some(s),
            _ => r is None,
        },
{
    match v {
        Some(TomlValue::String(s)) => Some(s),
        _ => None,
    }
}

/// Reads one entry of `metadata.dependencies`.
pub fn dependency_from(item: &TomlValue) -> (r: Result<Dependency, ManifestError>)
    ensures
        match dependency_of(*item) {
            Ok(d) => r matches Ok(x) && x@ == d,
            Err(k) => r matches Err(e) && e.kind == k && e.message@ == manifest_message(k),
        },
{
    let table = match item {
        TomlValue::Table(t) => t,
        _ => return Err(ManifestError::new(ManifestErrorKind::InvalidDependency)),
    };
    let uri = match table_lookup(table, "uri") {
        None => return Err(ManifestError::new(ManifestErrorKind::MissingUri)),
        Some(TomlValue::String(u)) => u.clone(),
        Some(_) => return Err(ManifestError::new(ManifestErrorKind::InvalidUri)),
    };
    let sha256 = table_lookup(table, "sha256");
    let checksum = table_lookup(table, "checksum");
    if sha256.is_some() == checksum.is_some() {
        return Err(ManifestError::new(ManifestErrorKind::AmbiguousChecksum));
    }
    if sha256.is_some() {
        match string_value(sha256) {
            Some(h) => Ok(Dependency::new(uri, h.clone())),
            None => Err(ManifestError::new(ManifestErrorKind::InvalidSha256)),
        }
    } else {
        match string_value(checksum) {
            Some(c) => match split_once(c.as_str(), ':') {
                Some((algorithm, digest)) => {
                    if String::from_str(algorithm) == String::from_str("sha256") {
                        Ok(Dependency::new(uri, String::from_str(digest)))
                    } else {
                        Err(ManifestError::new(ManifestErrorKind::UnsupportedAlgorithm))
                    }
                },
                None => Err(ManifestError::new(ManifestErrorKind::UnsupportedAlgorithm)),
            },
            None => Err(ManifestError::new(ManifestErrorKind::InvalidChecksum)),
        }
    }
}

/// Turns a manifest document into its dependencies, in manifest order.
/// A document of another shape is refused as a whole, with the first
/// violation found.
pub fn transform(doc: &TomlValue) -> (r: Result<Vec<Dependency>, ManifestError>)
    ensures
        match manifest_dependencies(*doc) {
            Ok(ds) => r matches Ok(v) && v@.map_values(|d: Dependency| d@) == ds,
            Err(k) => r matches Err(e) && e.kind == k && e.message@ == manifest_message(k),
        },
{
    let top = match doc {
        TomlValue::Table(t) => t,
        _ => return Err(ManifestError::new(ManifestErrorKind::InvalidManifest)),
    };
    let metadata = match table_lookup(top, "metadata") {
        None => return Err(ManifestError::new(ManifestErrorKind::MissingMetadata)),
        Some(TomlValue::Table(m)) => m,
        Some(_) => return Err(ManifestError::new(ManifestErrorKind::InvalidMetadata)),
    };
    let items = match table_lookup(metadata, "dependencies") {
        None => return Err(ManifestError::new(ManifestErrorKind::MissingDependencies)),
        Some(TomlValue::Array(a)) => a,
        Some(_) => return Err(ManifestError::new(ManifestErrorKind::InvalidDependencies)),
    };
    let mut deps: Vec<Dependency> = Vec::new();
    let n = items.len();
    let mut i: usize = 0;
    assert(manifest_dependencies(*doc) == dependencies_of(items@));
    assert(items@.subrange(0, 0) =~= Seq::<TomlValue>::empty());
    assert(deps@.map_values(|d: Dependency| d@) =~= Seq::<DependencySpec>::empty());
    while i < n
        invariant
            n == items@.len(),
            i <= n,
            manifest_dependencies(*doc) == dependencies_of(items@),
            dependencies_of(items@.subrange(0, i as int)) == Ok::<
                Seq<DependencySpec>,
                ManifestErrorKind,
            >(deps@.map_values(|d: Dependency| d@)),
        decreases n - i,
    {
        assert(items@.subrange(0, i + 1).drop_last() =~= items@.subrange(0, i as int));
        assert(items@.subrange(0, i + 1).last() == items@[i as int]);
        match dependency_from(&items[i]) {
            Ok(d) => {
                let ghost before = deps@;
                deps.push(d);
                assert(deps@.map_values(|d: Dependency| d@) =~= before.map_values(
                    |d: Dependency| d@,
                ).push(d@));
            },
            Err(e) => {
                proof {
                    lemma_error_in_prefix(items@, i + 1);
                }
                return Err(e);
            },
        }
        i = i + 1;
    }
    assert(items@.subrange(0, n as int) =~= items@);
    Ok(deps)
}

} // verus!

verus! {

/// The entries of `metadata.dependencies`, where the document has them in
/// the expected shape.
pub open spec fn dependency_entries(doc: TomlValue) -> Option<Seq<TomlValue>> {
    match doc {
        TomlValue::Table(top) => match table_get(top@, "metadata"@) {
            Some(TomlValue::Table(metadata)) => match table_get(metadata@, "dependencies"@) {
                Some(TomlValue::Array(items)) => Some(items@),
                _ => None,
            },
            _ => None,
        },
        _ => None,
    }
}

/// A dependency entry whose checksum is ambiguous (both `sha256` and
/// `checksum`, or neither), or whose `checksum` names another algorithm than
/// `sha256`.
pub open spec fn checksum_refused(item: TomlValue, kind: ManifestErrorKind) -> bool {
    match item {
        TomlValue::Table(t) => {
            &&& table_get(t@, "uri"@) matches Some(TomlValue::String(_))
            &&& match kind {
                ManifestErrorKind::AmbiguousChecksum => (table_get(t@, "sha256"@) is Some)
                    == (table_get(t@, "checksum"@) is Some),
                ManifestErrorKind::UnsupportedAlgorithm => {
                    &&& table_get(t@, "sha256"@) is None
                    &&& table_get(t@, "checksum"@) matches Some(TomlValue::String(c))
                    &&& match split_once_at(c@, ':') {
                        Some((algorithm, _)) => algorithm != "sha256"@,
                        None => true,
                    }
                },
                _ => false,
            }
        },
        _ => false,
    }
}

/// A manifest is refused with `AmbiguousChecksum` where a dependency has both
/// `sha256` and `checksum`, or neither, and with `UnsupportedAlgorithm` where
/// its `checksum` names another algorithm than `sha256` (the first offending
/// dependency deciding).
pub proof fn lemma_checksum_validation(doc: TomlValue, i: int, kind: ManifestErrorKind)
    requires
        dependency_entries(doc) is Some,
        0 <= i < dependency_entries(doc)->0.len(),
        forall|j: int|
            0 <= j < i ==> #[trigger] dependency_of(dependency_entries(doc)->0[j]) is Ok,
        checksum_refused(dependency_entries(doc)->0[i], kind),
    ensures
        manifest_dependencies(doc) == Err::<Seq<DependencySpec>, ManifestErrorKind>(kind),
{
    let items = dependency_entries(doc)->0;
    lemma_prefix_valid(items, i);
    assert(items.subrange(0, i + 1).drop_last() =~= items.subrange(0, i));
    assert(items.subrange(0, i + 1).last() == items[i]);
    assert(dependency_of(items[i]) == Err::<DependencySpec, ManifestErrorKind>(kind));
    lemma_error_in_prefix(items, i + 1);
}

proof fn lemma_prefix_valid(items: Seq<TomlValue>, i: int)
    requires
        0 <= i <= items.len(),
        forall|j: int| 0 <= j < i ==> #[trigger] dependency_of(items[j]) is Ok,
    ensures
        dependencies_of(items.subrange(0, i)) is Ok,
    decreases i,
{
    if i > 0 {
        lemma_prefix_valid(items, i - 1);
        assert(items.subrange(0, i).drop_last() =~= items.subrange(0, i - 1));
        assert(items.subrange(0, i).last() == items[i - 1]);
    }
}

} // verus!
