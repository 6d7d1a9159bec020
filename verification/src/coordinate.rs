use vstd::prelude::*;

use crate::digest::{hex_decode_bytes, hex_decode_ok, hexDecode, sha1, sha1_of};
use crate::manifest::{bytesEqual, subVec};

verus! {

/// A library artifact's address in a remote repository: a dotted group
/// namespace, an artifact name, an optional classifier and a version.
pub struct LibraryCoordinate {
    pub group: String,
    pub artifact: String,
    pub classifier: Option<String>,
    pub version: String,
}

/// The group namespace as a path: every dot replaced by a slash.
pub open spec fn dots_to_slashes(s: Seq<char>) -> Seq<char> {
    s.map_values(|c: char| if c == '.' { '/' } else { c })
}

/// The artifact's file name: `artifact-version[-classifier].jar`.
pub open spec fn file_name_spec(c: &LibraryCoordinate) -> Seq<char> {
    match c.classifier {
        Some(m) => c.artifact@ + "-"@ + c.version@ + "-"@ + m@ + ".jar"@,
        None => c.artifact@ + "-"@ + c.version@ + ".jar"@,
    }
}

/// The artifact's path relative to a repository or cache root:
/// `group/as/path/artifact/version/file`. The same coordinate always maps
/// to the same path; no state takes part.
pub open spec fn relative_path_spec(c: &LibraryCoordinate) -> Seq<char> {
    dots_to_slashes(c.group@) + "/"@ + c.artifact@ + "/"@ + c.version@ + "/"@ + file_name_spec(c)
}

/// The checksum sidecar sits beside the artifact under the same name
/// suffixed `.sha1`.
pub open spec fn sidecar_path_spec(c: &LibraryCoordinate) -> Seq<char> {
    relative_path_spec(c) + ".sha1"@
}

/// The remote URL of the artifact in the coordinate repository.
pub open spec fn library_url_spec(c: &LibraryCoordinate) -> Seq<char> {
    "https://repo1.maven.org/maven2/"@ + relative_path_spec(c)
}

/// The remote URL of the artifact's checksum sidecar.
pub open spec fn sidecar_url_spec(c: &LibraryCoordinate) -> Seq<char> {
    library_url_spec(c) + ".sha1"@
}

/// Replaces every dot by a slash.
pub fn dotsToSlashes(s: &str) -> (r: String)
    ensures
        r@ == dots_to_slashes(s@),
{
    proof {
        reveal_strlit("/");
    }
    let n = s.unicode_len();
    let mut r = String::new();
    let mut i: usize = 0;
    while i < n
        invariant
            n == s@.len(),
            i <= n,
            r@ == dots_to_slashes(s@.take(i as int)),
        decreases n - i,
    {
        let c = s.get_char(i);
        if c == '.' {
            r.append("/");
        } else {
            let piece = s.substring_char(i, i + 1);
            r.append(piece);
        }
        proof {
            reveal_strlit("/");
            assert(r@ =~= dots_to_slashes(s@.take(i as int + 1)));
        }
        i = i + 1;
    }
    proof {
        assert(s@.take(n as int) =~= s@);
    }
    r
}

/// Builds the artifact's file name.
pub fn libraryFileName(c: &LibraryCoordinate) -> (r: String)
    ensures
        r@ == file_name_spec(c),
{
    let mut r = String::new();
    r.append(c.artifact.as_str());
    r.append("-");
    r.append(c.version.as_str());
    match &c.classifier {
        Some(m) => {
            r.append("-");
            r.append(m.as_str());
            r.append(".jar");
        },
        None => {
            r.append(".jar");
        },
    }
    proof {
        assert(r@ =~= file_name_spec(c));
    }
    r
}

/// Resolves a coordinate to its deterministic relative path.
pub fn libraryPath(c: &LibraryCoordinate) -> (r: String)
    ensures
        r@ == relative_path_spec(c),
{
    let mut r = dotsToSlashes(c.group.as_str());
    r.append("/");
    r.append(c.artifact.as_str());
    r.append("/");
    r.append(c.version.as_str());
    r.append("/");
    let name = libraryFileName(c);
    r.append(name.as_str());
    proof {
        assert(r@ =~= relative_path_spec(c));
    }
    r
}

/// Resolves a coordinate to its sidecar's relative path.
pub fn librarySidecarPath(c: &LibraryCoordinate) -> (r: String)
    ensures
        r@ == sidecar_path_spec(c),
{
    let mut r = libraryPath(c);
    r.append(".sha1");
    r
}

/// The artifact's remote URL.
pub fn libraryUrl(c: &LibraryCoordinate) -> (r: String)
    ensures
        r@ == library_url_spec(c),
{
    let mut r = String::from_str("https://repo1.maven.org/maven2/");
    let path = libraryPath(c);
    r.append(path.as_str());
    r
}

/// The sidecar's remote URL.
pub fn librarySidecarUrl(c: &LibraryCoordinate) -> (r: String)
    ensures
        r@ == sidecar_url_spec(c),
{
    let mut r = libraryUrl(c);
    r.append(".sha1");
    r
}

/// A sidecar line with one trailing newline stripped, as read back from
/// disk.
pub open spec fn strip_newline(s: Seq<u8>) -> Seq<u8> {
    if s.len() > 0 && s.last() == 10 {
        s.drop_last()
    } else {
        s
    }
}

/// The sidecar agrees with a digest when, after stripping one trailing
/// newline, it is well-formed hex that decodes to exactly that digest.
pub open spec fn sidecar_matches_spec(line: Seq<u8>, digest: Seq<u8>) -> bool {
    hex_decode_ok(strip_newline(line)) && hex_decode_bytes(strip_newline(line)) == digest
}

/// Recomputes the artifact's SHA-1 digest and compares it against the
/// decoded sidecar; false when the sidecar is not well-formed hex.
pub fn sidecarMatches(sidecar: &Vec<u8>, artifact: &Vec<u8>) -> (r: bool)
    ensures
        r == sidecar_matches_spec(sidecar@, sha1_of(artifact@)),
{
    let len = sidecar.len();
    let trimmed = if len > 0 && sidecar[len - 1] == 10 {
        subVec(sidecar, 0, len - 1)
    } else {
        subVec(sidecar, 0, len)
    };
    proof {
        assert(trimmed@ =~= strip_newline(sidecar@));
    }
    match hexDecode(&trimmed) {
        Some(decoded) => {
            let digest = sha1(artifact);
            bytesEqual(&decoded, &digest)
        },
        None => false,
    }
}

/// What to do with a cached artifact/sidecar pair before it is used.
#[derive(Clone, Copy, PartialEq, Eq, Structural, Debug)]
pub enum CacheAction {
    /// Both files are present and consistent: use the cached artifact with
    /// no network traffic.
    Reuse,
    /// Delete whichever of the two files exists and fetch both anew.
    RefetchBoth,
    /// Both files are present but the sidecar is not valid hex: a decode
    /// failure, which is unrecoverable. The caller stops fatally instead
    /// of refetching.
    DecodeFailure,
}

/// What a cached pair means, `None` standing for a file that does not
/// exist. The pair is reused exactly when both files are present and the
/// sidecar decodes to the artifact's SHA-1 digest. A sidecar that is
/// present beside its artifact but is not valid hex (after stripping one
/// trailing newline) is a decode failure, not a mismatch: only when both
/// files exist is the sidecar ever decoded, so a half-present or wholly
/// absent pair simply collapses to absent and is refetched.
pub open spec fn cache_decision_spec(artifact: Option<Seq<u8>>, sidecar: Option<Seq<u8>>) -> CacheAction {
    match (artifact, sidecar) {
        (Some(a), Some(s)) => if !hex_decode_ok(strip_newline(s)) {
            CacheAction::DecodeFailure
        } else if sidecar_matches_spec(s, sha1_of(a)) {
            CacheAction::Reuse
        } else {
            CacheAction::RefetchBoth
        },
        _ => CacheAction::RefetchBoth,
    }
}

/// The contents of an optional cached file.
pub open spec fn cached_view(o: &Option<Vec<u8>>) -> Option<Seq<u8>> {
    match o {
        Some(v) => Some(v@),
        None => None,
    }
}

/// Decides whether a cached pair can be used, `None` standing for a file
/// that does not exist.
pub fn cacheDecision(artifact: &Option<Vec<u8>>, sidecar: &Option<Vec<u8>>) -> (r: CacheAction)
    ensures
        r == cache_decision_spec(cached_view(artifact), cached_view(sidecar)),
{
    match (artifact, sidecar) {
        (Some(a), Some(s)) => {
            let len = s.len();
            let trimmed = if len > 0 && s[len - 1] == 10 {
                subVec(s, 0, len - 1)
            } else {
                subVec(s, 0, len)
            };
            proof {
                assert(trimmed@ =~= strip_newline(s@));
            }
            match hexDecode(&trimmed) {
                None => CacheAction::DecodeFailure,
                Some(decoded) => {
                    let digest = sha1(a);
                    if bytesEqual(&decoded, &digest) {
                        CacheAction::Reuse
                    } else {
                        CacheAction::RefetchBoth
                    }
                },
            }
        },
        _ => CacheAction::RefetchBoth,
    }
}

/// The full resolution policy for one coordinate: with remote resolution
/// disabled the local path is used as it stands, with no check of any
/// kind; otherwise the cached pair decides.
pub open spec fn resolve_action_spec(
    useRemote: bool,
    artifact: Option<Seq<u8>>,
    sidecar: Option<Seq<u8>>,
) -> CacheAction {
    if !useRemote {
        CacheAction::Reuse
    } else {
        cache_decision_spec(artifact, sidecar)
    }
}

/// Decides what resolving a coordinate does with the cache: a coordinate
/// expected to be present already (`useRemote` false) is taken on faith.
pub fn resolveAction(
    useRemote: bool,
    artifact: &Option<Vec<u8>>,
    sidecar: &Option<Vec<u8>>,
) -> (r: CacheAction)
    ensures
        r == resolve_action_spec(useRemote, cached_view(artifact), cached_view(sidecar)),
{
    if !useRemote {
        CacheAction::Reuse
    } else {
        cacheDecision(artifact, sidecar)
    }
}

/// A corrupted sidecar collapses the whole cached pair: when the sidecar
/// still reads as hex but does not decode to the artifact's own digest,
/// the decision is to delete and refetch both files, never the sidecar
/// alone. (A corruption that leaves the sidecar undecodable is out of this
/// statement's reach on purpose: that is a decode failure, and
/// unrecoverable.)
pub proof fn lemma_sidecar_mismatch_refetches_both(artifact: Seq<u8>, sidecar: Seq<u8>)
    requires
        hex_decode_ok(strip_newline(sidecar)),
        !sidecar_matches_spec(sidecar, sha1_of(artifact)),
    ensures
        cache_decision_spec(Some(artifact), Some(sidecar)) == CacheAction::RefetchBoth,
{
}

/// A sidecar that is not valid hex beside an existing artifact is a decode
/// failure, distinguished from every recoverable state.
pub proof fn lemma_undecodable_sidecar_is_fatal(artifact: Seq<u8>, sidecar: Seq<u8>)
    requires
        !hex_decode_ok(strip_newline(sidecar)),
    ensures
        cache_decision_spec(Some(artifact), Some(sidecar)) == CacheAction::DecodeFailure,
{
}

} // verus!
