use vstd::prelude::*;

use crate::coordinate::{cache_decision_spec, sidecar_matches_spec, CacheAction};
use crate::digest::sha1_of;

verus! {

/// The steps one provisioning run performs, decided up front from what is
/// on disk. The machine runs once: no step is revisited.
pub struct ProvisionPlan {
    /// Delete the runtime tree (it exists but failed validation).
    pub wipeRuntime: bool,
    /// Delete the archive file together with the corrupt runtime.
    pub wipeArchive: bool,
    /// Download the archive (it is absent, or was just wiped).
    pub fetchArchive: bool,
    /// Unpack the archive into a fresh runtime tree.
    pub extract: bool,
    /// Build and persist the integrity manifest of the fresh tree.
    pub buildManifest: bool,
}

/// The plan a run follows, from three observations: whether the runtime
/// tree exists, whether it passed manifest validation (meaningful only when
/// it exists), and whether the archive file exists. A corrupt runtime is
/// wiped along with its archive; the archive is fetched only if absent
/// afterwards; extraction and manifest building happen only when no valid
/// runtime is kept.
pub open spec fn provision_plan_spec(
    runtimeExists: bool,
    runtimeValid: bool,
    archiveExists: bool,
) -> ProvisionPlan {
    let wipe = runtimeExists && !runtimeValid;
    let keepRuntime = runtimeExists && runtimeValid;
    ProvisionPlan {
        wipeRuntime: wipe,
        wipeArchive: wipe,
        fetchArchive: !(archiveExists && !wipe),
        extract: !keepRuntime,
        buildManifest: !keepRuntime,
    }
}

/// A plan touches the network exactly when it fetches the archive.
pub open spec fn plan_uses_network(p: ProvisionPlan) -> bool {
    p.fetchArchive
}

/// Decides the run's plan from what is on disk.
pub fn provisionPlan(runtimeExists: bool, runtimeValid: bool, archiveExists: bool) -> (p:
    ProvisionPlan)
    ensures
        p == provision_plan_spec(runtimeExists, runtimeValid, archiveExists),
{
    let wipe = runtimeExists && !runtimeValid;
    let keepRuntime = runtimeExists && runtimeValid;
    ProvisionPlan {
        wipeRuntime: wipe,
        wipeArchive: wipe,
        fetchArchive: !(archiveExists && !wipe),
        extract: !keepRuntime,
        buildManifest: !keepRuntime,
    }
}

/// Idempotence of provisioning: after a run that left a valid runtime, its
/// archive, and a consistent artifact/sidecar pair in the library cache,
/// the next run touches neither the network nor the disk — the plan wipes,
/// fetches, extracts and rebuilds nothing, and every cached library is
/// reused. (That a freshly built manifest validates its own tree is the
/// manifest round-trip lemma; a pair whose sidecar never matched its
/// artifact is excluded, since the run would refetch it.)
pub proof fn lemma_provisioning_idempotent(artifact: Seq<u8>, sidecar: Seq<u8>)
    requires
        sidecar_matches_spec(sidecar, sha1_of(artifact)),
    ensures
        provision_plan_spec(true, true, true) == (ProvisionPlan {
            wipeRuntime: false,
            wipeArchive: false,
            fetchArchive: false,
            extract: false,
            buildManifest: false,
        }),
        !plan_uses_network(provision_plan_spec(true, true, true)),
        cache_decision_spec(Some(artifact), Some(sidecar)) == CacheAction::Reuse,
{
}

/// The archive's file name under the versioned cache directory.
pub open spec fn archive_name_spec(version: Seq<char>, isWindows: bool) -> Seq<char> {
    if isWindows {
        "java-"@ + version + ".zip"@
    } else {
        "java-"@ + version + ".tar.gz"@
    }
}

/// The extracted runtime tree's directory name.
pub open spec fn runtime_dir_spec(version: Seq<char>) -> Seq<char> {
    "jdk-"@ + version
}

/// The integrity manifest's file name beside the runtime tree.
pub open spec fn manifest_name_spec(version: Seq<char>) -> Seq<char> {
    "java-"@ + version + ".hash"@
}

/// The version feed URL for the platform: the listing is filtered
/// server-side by architecture and operating system; paging asks for the
/// first page only.
pub open spec fn versions_url_spec(arch: Seq<char>, os: Seq<char>) -> Seq<char> {
    "https://api.adoptium.net/v3/info/release_versions?architecture="@ + arch
        + "&heap_size=normal&image_type=jre&jvm_impl=hotspot&lts=false&os="@ + os
        + "&page=0&page_size=10&project=jdk&release_type=ga&sort_method=DEFAULT&sort_order=DESC&vendor=eclipse"@
}

/// The archive download URL for a resolved version string.
pub open spec fn binary_url_spec(version: Seq<char>, os: Seq<char>, arch: Seq<char>) -> Seq<char> {
    "https://api.adoptium.net/v3/binary/version/jdk-"@ + version + "/"@ + os + "/"@ + arch
        + "/jdk/hotspot/normal/eclipse?project=jdk"@
}

/// Builds the archive's file name.
pub fn archiveFileName(version: &str, isWindows: bool) -> (r: String)
    ensures
        r@ == archive_name_spec(version@, isWindows),
{
    let mut r = String::from_str("java-");
    r.append(version);
    if isWindows {
        r.append(".zip");
    } else {
        r.append(".tar.gz");
    }
    r
}

/// Builds the runtime tree's directory name.
pub fn runtimeDirName(version: &str) -> (r: String)
    ensures
        r@ == runtime_dir_spec(version@),
{
    let mut r = String::from_str("jdk-");
    r.append(version);
    r
}

/// Builds the manifest's file name.
pub fn manifestFileName(version: &str) -> (r: String)
    ensures
        r@ == manifest_name_spec(version@),
{
    let mut r = String::from_str("java-");
    r.append(version);
    r.append(".hash");
    r
}

/// Builds the version feed URL.
pub fn versionsUrl(arch: &str, os: &str) -> (r: String)
    ensures
        r@ == versions_url_spec(arch@, os@),
{
    let mut r = String::from_str(
        "https://api.adoptium.net/v3/info/release_versions?architecture=",
    );
    r.append(arch);
    r.append("&heap_size=normal&image_type=jre&jvm_impl=hotspot&lts=false&os=");
    r.append(os);
    r.append(
        "&page=0&page_size=10&project=jdk&release_type=ga&sort_method=DEFAULT&sort_order=DESC&vendor=eclipse",
    );
    r
}

/// Builds the archive download URL.
pub fn binaryUrl(version: &str, os: &str, arch: &str) -> (r: String)
    ensures
        r@ == binary_url_spec(version@, os@, arch@),
{
    let mut r = String::from_str("https://api.adoptium.net/v3/binary/version/jdk-");
    r.append(version);
    r.append("/");
    r.append(os);
    r.append("/");
    r.append(arch);
    r.append("/jdk/hotspot/normal/eclipse?project=jdk");
    r
}

/// Maps the platform's operating-system name to the one the remote feed
/// uses: only `macos` is renamed, to `mac`.
pub fn mapOsName(raw: String) -> (r: String)
    ensures
        r@ == if raw@ == "macos"@ {
            "mac"@
        } else {
            raw@
        },
{
    let key = String::from_str("macos");
    if raw == key {
        String::from_str("mac")
    } else {
        raw
    }
}

/// Maps the platform's architecture name to the one the remote feed uses:
/// only `x86_64` is renamed, to `x64`.
pub fn mapArchName(raw: String) -> (r: String)
    ensures
        r@ == if raw@ == "x86_64"@ {
            "x64"@
        } else {
            raw@
        },
{
    let key = String::from_str("x86_64");
    if raw == key {
        String::from_str("x64")
    } else {
        raw
    }
}

/// Every resolved library path followed by the platform's separator, in
/// order: the argument string a module path is handed over as.
pub open spec fn module_path_spec(paths: Seq<Seq<char>>, sep: Seq<char>) -> Seq<char>
    decreases paths.len(),
{
    if paths.len() == 0 {
        Seq::empty()
    } else {
        paths[0] + sep + module_path_spec(paths.skip(1), sep)
    }
}

/// Appending one more path extends the joined string at its end.
proof fn lemma_module_path_push(paths: Seq<Seq<char>>, sep: Seq<char>, p: Seq<char>)
    ensures
        module_path_spec(paths.push(p), sep) == module_path_spec(paths, sep) + p + sep,
    decreases paths.len(),
{
    if paths.len() == 0 {
        let single = paths.push(p);
        assert(single[0] == p);
        assert(single.skip(1) =~= Seq::<Seq<char>>::empty());
        assert(module_path_spec(single.skip(1), sep) == Seq::<char>::empty());
        assert(p + sep + Seq::<char>::empty() =~= p + sep);
        assert(module_path_spec(paths, sep) + p + sep =~= p + sep);
    } else {
        assert(paths.push(p).skip(1) =~= paths.skip(1).push(p));
        lemma_module_path_push(paths.skip(1), sep, p);
        assert(module_path_spec(paths.push(p), sep) =~= module_path_spec(paths, sep) + p + sep);
    }
}

/// Joins resolved library paths into the single module-path argument,
/// `;`-separated on the Windows target and `:`-separated elsewhere, with a
/// separator after every entry.
pub fn joinModulePath(paths: &Vec<String>, isWindows: bool) -> (r: String)
    ensures
        r@ == module_path_spec(
            paths@.map_values(|p: String| p@),
            if isWindows {
                ";"@
            } else {
                ":"@
            },
        ),
{
    let ghost sep: Seq<char> = if isWindows {
        ";"@
    } else {
        ":"@
    };
    let ghost views = paths@.map_values(|p: String| p@);
    let mut r = String::new();
    let mut i: usize = 0;
    proof {
        assert(views.take(0) =~= Seq::<Seq<char>>::empty());
    }
    while i < paths.len()
        invariant
            views == paths@.map_values(|p: String| p@),
            sep == if isWindows {
                ";"@
            } else {
                ":"@
            },
            i <= paths@.len(),
            r@ == module_path_spec(views.take(i as int), sep),
        decreases paths@.len() - i,
    {
        r.append(paths[i].as_str());
        if isWindows {
            r.append(";");
        } else {
            r.append(":");
        }
        proof {
            assert(views.take(i as int + 1) =~= views.take(i as int).push(views[i as int]));
            lemma_module_path_push(views.take(i as int), sep, views[i as int]);
        }
        i = i + 1;
    }
    proof {
        assert(views.take(paths@.len() as int) =~= views);
    }
    r
}

} // verus!
