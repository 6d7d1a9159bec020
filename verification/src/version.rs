use vstd::prelude::*;

verus! {

/// A runtime build advertised by the remote version feed.
///
/// The four numeric fields order the builds; `openjdk_version` is the
/// display string used to address the build on disk and in download URLs,
/// and takes no part in the ordering.
pub struct JavaVersion {
    pub major: u32,
    pub minor: u32,
    pub security: u32,
    pub build: u32,
    pub openjdk_version: String,
}

/// The top-level shape of the version feed: a list of candidate builds.
pub struct JavaVersionRoot {
    pub versions: Vec<JavaVersion>,
}

/// The major version line this launcher provisions.
pub const JAVA_VERSION: u32 = 20;

/// Lexicographic order over (major, minor, security, build).
pub open spec fn version_le(a: &JavaVersion, b: &JavaVersion) -> bool {
    if a.major != b.major {
        a.major < b.major
    } else if a.minor != b.minor {
        a.minor < b.minor
    } else if a.security != b.security {
        a.security < b.security
    } else {
        a.build <= b.build
    }
}

/// The comparison `cmp` must return: `Equal` exactly when all four
/// numeric fields agree, `Less`/`Greater` by the first disagreeing field.
pub open spec fn version_cmp_spec(a: &JavaVersion, b: &JavaVersion) -> core::cmp::Ordering {
    if version_le(a, b) {
        if version_le(b, a) {
            core::cmp::Ordering::Equal
        } else {
            core::cmp::Ordering::Less
        }
    } else {
        core::cmp::Ordering::Greater
    }
}

impl JavaVersion {
    /// Total order over the numeric fields, ignoring the display string.
    pub fn cmp(&self, other: &JavaVersion) -> (r: core::cmp::Ordering)
        ensures
            r == version_cmp_spec(self, other),
            r == core::cmp::Ordering::Equal <==> (self.major == other.major
                && self.minor == other.minor && self.security == other.security
                && self.build == other.build),
    {
        if self.major != other.major {
            if self.major < other.major {
                core::cmp::Ordering::Less
            } else {
                core::cmp::Ordering::Greater
            }
        } else if self.minor != other.minor {
            if self.minor < other.minor {
                core::cmp::Ordering::Less
            } else {
                core::cmp::Ordering::Greater
            }
        } else if self.security != other.security {
            if self.security < other.security {
                core::cmp::Ordering::Less
            } else {
                core::cmp::Ordering::Greater
            }
        } else {
            if self.build < other.build {
                core::cmp::Ordering::Less
            } else if self.build > other.build {
                core::cmp::Ordering::Greater
            } else {
                core::cmp::Ordering::Equal
            }
        }
    }

    /// The display string a launcher prints and builds paths from.
    pub fn versionString(&self) -> (r: String)
        ensures
            r@ == self.openjdk_version@,
    {
        self.openjdk_version.clone()
    }
}

/// Picks the best build from a fetched feed: keeps only entries whose major
/// version equals the requested one and returns the maximum under the
/// version order, `None` when no entry qualifies. Among entries tied on all
/// four numeric fields the last one in feed order wins, as a stable sort
/// followed by taking the final element would have it.
pub fn getBestJavaVersion(root: JavaVersionRoot, major: u32) -> (r: Option<JavaVersion>)
    ensures
        r is Some <==> exists|i: int|
            0 <= i < root.versions@.len() && (#[trigger] root.versions@[i]).major == major,
        r matches Some(v) ==> exists|j: int|
            {
                &&& 0 <= j < root.versions@.len()
                &&& v == root.versions@[j]
                &&& v.major == major
                &&& forall|k: int|
                    0 <= k < root.versions@.len() && (#[trigger] root.versions@[k]).major == major
                        ==> version_le(&root.versions@[k], &v)
                &&& forall|k: int|
                    j < k < root.versions@.len() && (#[trigger] root.versions@[k]).major == major
                        ==> !version_le(&v, &root.versions@[k])
            },
{
    let mut versions = root.versions;
    let ghost orig = versions@;
    let mut best: Option<usize> = None;
    let mut i: usize = 0;
    while i < versions.len()
        invariant
            versions@ == orig,
            i <= orig.len(),
            match best {
                Some(b) => {
                    &&& 0 <= b < i
                    &&& orig[b as int].major == major
                    &&& forall|k: int|
                        0 <= k < i && (#[trigger] orig[k]).major == major ==> version_le(
                            &orig[k],
                            &orig[b as int],
                        )
                    &&& forall|k: int|
                        b < k < i && (#[trigger] orig[k]).major == major ==> !version_le(
                            &orig[b as int],
                            &orig[k],
                        )
                },
                None => forall|k: int| 0 <= k < i ==> (#[trigger] orig[k]).major != major,
            },
        decreases orig.len() - i,
    {
        if versions[i].major == major {
            best = match best {
                None => Some(i),
                Some(b) => {
                    match versions[b].cmp(&versions[i]) {
                        core::cmp::Ordering::Greater => Some(b),
                        _ => {
                            proof {
                                assert forall|k: int|
                                    0 <= k < i && (#[trigger] orig[k]).major == major
                                    implies version_le(&orig[k], &orig[i as int]) by {
                                    lemma_version_order_transitive(
                                        &orig[k],
                                        &orig[b as int],
                                        &orig[i as int],
                                    );
                                }
                            }
                            Some(i)
                        },
                    }
                },
            };
        }
        i = i + 1;
    }
    match best {
        None => None,
        Some(b) => {
            let v = versions.remove(b);
            Some(v)
        },
    }
}

/// The order is total: any two versions are comparable.
pub proof fn lemma_version_order_total(a: &JavaVersion, b: &JavaVersion)
    ensures
        version_le(a, b) || version_le(b, a),
{
}

/// The order is transitive.
pub proof fn lemma_version_order_transitive(a: &JavaVersion, b: &JavaVersion, c: &JavaVersion)
    requires
        version_le(a, b),
        version_le(b, c),
    ensures
        version_le(a, c),
{
}

/// The order is antisymmetric on the numeric fields: two versions below
/// or equal to each other agree on all four, whatever their labels.
pub proof fn lemma_version_order_antisymmetric(a: &JavaVersion, b: &JavaVersion)
    requires
        version_le(a, b),
        version_le(b, a),
    ensures
        a.major == b.major && a.minor == b.minor && a.security == b.security && a.build == b.build,
{
}

/// The order agrees with field-wise lexicographic comparison: `cmp`
/// answers `Less` or `Equal` exactly when (major, minor, security, build)
/// is lexicographically no greater, and `Equal` exactly when both
/// directions hold.
pub proof fn lemma_version_cmp_lexicographic(a: &JavaVersion, b: &JavaVersion)
    ensures
        (version_cmp_spec(a, b) == core::cmp::Ordering::Less <==> (version_le(a, b) && !version_le(
            b,
            a,
        ))),
        (version_cmp_spec(a, b) == core::cmp::Ordering::Equal <==> (version_le(a, b) && version_le(
            b,
            a,
        ))),
        (version_cmp_spec(a, b) == core::cmp::Ordering::Greater <==> !version_le(a, b)),
{
}

} // verus!
