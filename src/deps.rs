//! One dependency of a buildpack: where its artifact is downloaded from and
//! the SHA-256 digest that the artifact is expected to have.
use sha2::Digest;
use vstd::prelude::*;
use vstd::string::*;

verus! {

/// What `url::Url::parse` and then `Url::path_segments` make of a text:
/// `None` when the text is no URL, `Some(None)` when the URL has no path
/// segments (a cannot-be-a-base URL such as `data:`), else the last segment.
pub uninterp spec fn url_last_segment(uri: Seq<char>) -> Option<Option<Seq<char>>>;

/// The SHA-256 digest of some bytes, as `sha2::Sha256` computes it.
pub uninterp spec fn sha256_of(data: Seq<u8>) -> Seq<u8>;

/// Relies on `url::Url::parse` and `Url::path_segments`: parses the text as a
/// URL and gives the last segment of its path.
#[verifier::external_body]
fn url_last_path_segment(uri: &str) -> (r: Option<Option<String>>)
    ensures
        match url_last_segment(uri@) {
            None => r is None,
            Some(None) => r matches Some(None),
            Some(Some(seg)) => r matches Some(Some(s)) && s@ == seg,
        },
{
    match url::Url::parse(uri) {
        Ok(u) => Some(u.path_segments().and_then(|segments| segments.last()).map(|s| s.to_string())),
        Err(_) => None,
    }
}

/// Relies on `sha2::Sha256::digest`: the 32-byte SHA-256 digest of the data.
#[verifier::external_body]
fn sha256_digest(data: &[u8]) -> (r: Vec<u8>)
    ensures
        r@ == sha256_of(data@),
        r@.len() == 32,
{
    sha2::Sha256::digest(data).to_vec()
}

/// The digits of lower-case hexadecimal.
pub open spec fn hex_digit(n: u8) -> char
    recommends
        n < 16,
{
    seq!['0', '1', '2', '3', '4', '5', '6', '7', '8', '9', 'a', 'b', 'c', 'd', 'e', 'f'][n as int]
}

/// Lower-case hexadecimal text of some bytes: two digits per byte, the high
/// half first.
pub open spec fn hex_of(data: Seq<u8>) -> Seq<char>
    decreases data.len(),
{
    if data.len() == 0 {
        Seq::empty()
    } else {
        hex_of(data.drop_last()) + seq![hex_digit(data.last() / 16), hex_digit(data.last() % 16)]
    }
}

/// Relies on `hex::encode`: two lower-case hexadecimal digits for each byte,
/// the high half first.
#[verifier::external_body]
fn hex_encode(data: &[u8]) -> (r: String)
    ensures
        r@ == hex_of(data@),
{
    hex::encode(data)
}

/// Why a dependency's artifact cannot be placed.
#[derive(Clone, Copy, Debug, PartialEq, Eq, Structural)]
pub enum DependencyErrorKind {
    /// The URI is not a URL.
    InvalidUrl,
    /// The URL has no path segments to name a file after.
    NoPathSegments,
}

/// A dependency whose artifact cannot be placed, with its URI.
#[derive(Clone, Debug)]
pub struct DependencyError {
    pub kind: DependencyErrorKind,
    pub message: &'static str,
    pub uri: String,
}

/// The message that goes with each kind of unplaceable dependency.
pub open spec fn dependency_message(kind: DependencyErrorKind) -> Seq<char> {
    match kind {
        DependencyErrorKind::InvalidUrl => "not a valid URL"@,
        DependencyErrorKind::NoPathSegments => "no path segments for"@,
    }
}

/// The name of the file that a dependency's artifact is stored under: the
/// last segment of its URI's path.
pub open spec fn filename_of(uri: Seq<char>) -> Result<Seq<char>, DependencyErrorKind> {
    match url_last_segment(uri) {
        None => Err(DependencyErrorKind::InvalidUrl),
        Some(None) => Err(DependencyErrorKind::NoPathSegments),
        Some(Some(seg)) => Ok(seg),
    }
}

/// The binding entry that points at a fetched artifact:
/// `<digest>=file:///bindings/<binding name>/binaries/<file name>`.
pub open spec fn binding_entry_of(sha256: Seq<char>, binding_name: Seq<char>, filename: Seq<char>) -> Seq<char> {
    sha256 + "=file:///bindings/"@ + binding_name + "/binaries/"@ + filename
}

/// The binding entries for the dependencies whose artifacts have a file name,
/// in order; the others are left out.
pub open spec fn binding_entries_of(deps: Seq<DependencySpec>, binding_name: Seq<char>) -> Seq<Seq<char>>
    decreases deps.len(),
{
    if deps.len() == 0 {
        Seq::empty()
    } else {
        let before = binding_entries_of(deps.drop_last(), binding_name);
        let d = deps.last();
        match filename_of(d.uri) {
            Ok(f) => before.push(binding_entry_of(d.sha256, binding_name, f)),
            Err(_) => before,
        }
    }
}

/// The binding entries that point at the artifacts of `deps` in the binding
/// `binding_name`, one per dependency whose URI names a file, in order.
pub fn binding_entries(deps: &Vec<Dependency>, binding_name: &str) -> (r: Vec<String>)
    ensures
        r@.map_values(|s: String| s@) == binding_entries_of(
            deps@.map_values(|d: Dependency| d@),
            binding_name@,
        ),
{
    let mut entries: Vec<String> = Vec::new();
    let n = deps.len();
    let mut i: usize = 0;
    assert(deps@.map_values(|d: Dependency| d@).subrange(0, 0) =~= Seq::<DependencySpec>::empty());
    while i < n
        invariant
            n == deps@.len(),
            i <= n,
            entries@.map_values(|s: String| s@) == binding_entries_of(
                deps@.map_values(|d: Dependency| d@).subrange(0, i as int),
                binding_name@,
            ),
        decreases n - i,
    {
        let ghost views = deps@.map_values(|d: Dependency| d@);
        assert(views.subrange(0, i + 1).drop_last() =~= views.subrange(0, i as int));
        assert(views.subrange(0, i + 1).last() == deps@[i as int]@);
        let ghost before = entries@;
        match deps[i].binding_entry(binding_name) {
            Ok(entry) => {
                entries.push(entry);
                assert(entries@.map_values(|s: String| s@) =~= before.map_values(|s: String| s@).push(
                    entry@,
                ));
            },
            Err(_) => {},
        }
        i = i + 1;
    }
    assert(deps@.map_values(|d: Dependency| d@).subrange(0, n as int) =~= deps@.map_values(
        |d: Dependency| d@,
    ));
    entries
}

/// Whether a digest, hex-encoded, is the expected text.
pub fn digest_matches(digest: &[u8], expected: &str) -> (r: bool)
    ensures
        r == (hex_of(digest@) == expected@),
{
    let hex = hex_encode(digest);
    hex == String::from_str(expected)
}

/// A dependency as a pair of texts: its URI and its hex-encoded SHA-256 digest.
pub struct DependencySpec {
    pub uri: Seq<char>,
    pub sha256: Seq<char>,
}

/// One dependency of a buildpack manifest.
#[derive(Clone, Debug)]
pub struct Dependency {
    /// The expected digest of the artifact, hex-encoded.
    pub sha256: String,
    /// Where the artifact is downloaded from.
    pub uri: String,
}

impl View for Dependency {
    type V = DependencySpec;

    open spec fn view(&self) -> DependencySpec {
        DependencySpec { uri: self.uri@, sha256: self.sha256@ }
    }
}

impl Dependency {
    /// Makes a dependency from its URI and its digest.
    pub fn new(uri: String, sha256: String) -> (r: Dependency)
        ensures
            r@ == (DependencySpec { uri: uri@, sha256: sha256@ }),
    {
        Dependency { sha256, uri }
    }

    /// The name of the file that the artifact is stored under, taken from the
    /// last segment of the URI's path. Fails on a URI that is no URL, or whose
    /// URL has no path segments.
    pub fn filename(&self) -> (r: Result<String, DependencyError>)
        ensures
            match filename_of(self.uri@) {
                Ok(f) => r matches Ok(s) && s@ == f,
                Err(k) => r matches Err(e) && e.kind == k && e.uri@ == self.uri@ && e.message@
                    == dependency_message(k),
            },
    {
        match url_last_path_segment(self.uri.as_str()) {
            Some(Some(name)) => Ok(name),
            Some(None) => Err(
                DependencyError {
                    kind: DependencyErrorKind::NoPathSegments,
                    message: "no path segments for",
                    uri: self.uri.clone(),
                },
            ),
            None => Err(
                DependencyError {
                    kind: DependencyErrorKind::InvalidUrl,
                    message: "not a valid URL",
                    uri: self.uri.clone(),
                },
            ),
        }
    }

    /// Whether the artifact already on disk, if there is one, has the expected
    /// digest. `existing` holds the bytes of the file at the artifact's place,
    /// `None` where there is no such file.
    pub fn checksum_matches(&self, existing: Option<&[u8]>) -> (r: bool)
        ensures
            r == match existing {
                Some(bytes) => hex_of(sha256_of(bytes@)) == self.sha256@,
                None => false,
            },
    {
        match existing {
            Some(bytes) => {
                let digest = sha256_digest(bytes);
                digest_matches(digest.as_slice(), self.sha256.as_str())
            },
            None => false,
        }
    }

    /// The binding entry that points at this dependency's artifact in the
    /// binding `binding_name`.
    pub fn binding_entry(&self, binding_name: &str) -> (r: Result<String, DependencyError>)
        ensures
            match filename_of(self.uri@) {
                Ok(f) => r matches Ok(s) && s@ == binding_entry_of(self.sha256@, binding_name@, f),
                Err(k) => r matches Err(e) && e.kind == k,
            },
    {
        let filename = self.filename()?;
        let mut entry = self.sha256.clone();
        entry.append("=file:///bindings/");
        entry.append(binding_name);
        entry.append("/binaries/");
        entry.append(filename.as_str());
        Ok(entry)
    }
}

} // verus!
