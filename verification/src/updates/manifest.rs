//! Builds as a manifest lists them.
use vstd::prelude::*;

use crate::keymap::{lists, KeyMap};
use crate::text::{before, law_before_is_strict, same, slice_in, texts};
use crate::utils::rid::{
    closest, find_rid, identifier, law_closest_is_wanted, law_own_platform_comes_first,
    search_start, Host, RidCatalog,
};

use super::error::{UResult, UpdateError};

verus! {

/// A moment: whole seconds since the epoch, and nanoseconds on top.
#[derive(Debug, Clone, Copy, PartialEq, Eq, Structural)]
pub struct Stamp {
    pub secs: i64,
    pub nanos: u32,
}

/// All builds, by version.
pub struct ManifestInfo {
    pub builds: KeyMap<VersionInfo>,
}

/// One version: when it was built, and where it is for each platform.
pub struct VersionInfo {
    pub time: Stamp,
    pub server: KeyMap<DownloadInfo>,
}

/// One file to download, and its SHA-256 in hexadecimal.
pub struct DownloadInfo {
    pub url: String,
    pub sha256: String,
}

/// Whether `a` is later than `b`.
pub open spec fn later(a: Stamp, b: Stamp) -> bool {
    a.secs > b.secs || (a.secs == b.secs && a.nanos > b.nanos)
}

fn is_later(a: Stamp, b: Stamp) -> (r: bool)
    ensures
        r == later(a, b),
{
    a.secs > b.secs || (a.secs == b.secs && a.nanos > b.nanos)
}

/// Whether `version` is the latest: none was built later, and of those that were
/// built at the same moment it is the last in dictionary order.
pub open spec fn is_latest(builds: Map<Seq<char>, VersionInfo>, version: Seq<char>) -> bool {
    &&& builds.contains_key(version)
    &&& forall|k: Seq<char>| #[trigger]
        builds.contains_key(k) && k != version ==> later(builds[version].time, builds[k].time) || (
        builds[version].time == builds[k].time && before(k, version))
}

/// The latest version, where there is one.
pub open spec fn latest_in(builds: Map<Seq<char>, VersionInfo>, r: Option<Seq<char>>) -> bool {
    match r {
        Some(version) => is_latest(builds, version),
        None => builds == Map::<Seq<char>, VersionInfo>::empty(),
    }
}

/// The latest version of a manifest, if it lists any.
pub fn latest_version(manifest: &ManifestInfo) -> (r: Option<&str>)
    ensures
        latest_in(manifest.builds@, slice_in(r)),
{
    let builds = &manifest.builds;
    let n = builds.len();
    if builds.is_empty() {
        return None;
    }
    let ghost order = builds.order();
    let mut best: usize = 0;
    let mut i: usize = 1;
    while i < n
        invariant
            n == order.len(),
            order == builds.order(),
            lists(order, builds@.dom()),
            best < i <= n,
            forall|k: int| #![trigger order[k]]
                0 <= k < i && k != best ==> later(
                    builds@[order[best as int]].time,
                    builds@[order[k]].time,
                ) || (builds@[order[best as int]].time == builds@[order[k]].time && k < best),
        decreases n - i,
    {
        if !is_later(builds.value_at(best).time, builds.value_at(i).time) {
            best = i;
        }
        i = i + 1;
    }
    proof {
        assert forall|k: Seq<char>| #[trigger]
            builds@.contains_key(k) && k != order[best as int] implies later(
            builds@[order[best as int]].time,
            builds@[k].time,
        ) || (builds@[order[best as int]].time == builds@[k].time && before(
            k,
            order[best as int],
        )) by {
            assert(builds@.dom().contains(k));
            assert(order.contains(k));
            let j = choose|j: int| 0 <= j < order.len() && order[j] == k;
            assert(order[j] == k);
        }
    }
    Some(builds.key_at(best).as_str())
}

/// There is one latest version at most.
pub proof fn law_latest_is_one(builds: Map<Seq<char>, VersionInfo>, a: Seq<char>, b: Seq<char>)
    requires
        is_latest(builds, a),
        is_latest(builds, b),
    ensures
        a == b,
{
    law_before_is_strict(a, b);
    assert(builds.contains_key(a));
    assert(builds.contains_key(b));
}

/// Whether `r` is the version to move to from `current`: the latest that is
/// listed, unless it is the current one. Without a manifest there is none.
pub open spec fn newer_in(
    manifest: Option<ManifestInfo>,
    current: Option<Seq<char>>,
    r: Option<Seq<char>>,
) -> bool {
    match manifest {
        None => r is None,
        Some(m) => match r {
            Some(version) => is_latest(m.builds@, version) && current != Some(version),
            None => m.builds@ == Map::<Seq<char>, VersionInfo>::empty() || (current is Some
                && is_latest(m.builds@, current.unwrap())),
        },
    }
}

/// The manifest that a reference may hold.
pub open spec fn manifest_in(m: Option<&ManifestInfo>) -> Option<ManifestInfo> {
    match m {
        Some(m) => Some(*m),
        None => None,
    }
}

/// The version to move to, if there is one.
pub fn newer_version<'a>(manifest: Option<&'a ManifestInfo>, current: Option<&str>) -> (r: Option<
    &'a str,
>)
    ensures
        newer_in(manifest_in(manifest), slice_in(current), slice_in(r)),
{
    match manifest {
        None => None,
        Some(m) => match latest_version(m) {
            None => None,
            Some(latest) => match current {
                Some(c) => if same(c, latest) {
                    None
                } else {
                    Some(latest)
                },
                None => Some(latest),
            },
        },
    }
}

/// Whether there is a version to move to. `manifest` is what could be fetched.
pub fn check_for_updates(manifest: Option<&ManifestInfo>, current: Option<&str>) -> (r: bool)
    ensures
        r == (exists|v: Seq<char>| #[trigger]
            newer_in(manifest_in(manifest), slice_in(current), Some(v))),
{
    let newer = newer_version(manifest, current);
    proof {
        let m = manifest_in(manifest);
        let c = slice_in(current);
        match newer {
            Some(v) => assert(newer_in(m, c, Some(v@))),
            None => assert forall|v: Seq<char>| !(#[trigger] newer_in(m, c, Some(v))) by {
                if newer_in(m, c, Some(v)) {
                    if c is Some && is_latest(m.unwrap().builds@, c.unwrap()) {
                        law_latest_is_one(m.unwrap().builds@, c.unwrap(), v);
                    }
                }
            },
        }
    }
    newer.is_some()
}

/// A build that is to be installed.
pub struct Download {
    pub version: String,
    pub rid: String,
    pub url: String,
    pub sha256: String,
}

/// Whether `r` is the file of `info` for the platform: the one whose identifier
/// is closest to it, and `NoRid` where none is near.
pub open spec fn fits(
    catalog: RidCatalog,
    host: Host,
    version: Seq<char>,
    info: VersionInfo,
    r: UResult<Download>,
) -> bool {
    let start = search_start(catalog@, host, None);
    match r {
        Ok(d) => {
            &&& info.server@.contains_key(d.rid@)
            &&& nearest_of(catalog, start, info, Some(d.rid@))
            &&& d.version@ == version
            &&& d.url@ == info.server@[d.rid@].url@
            &&& d.sha256@ == info.server@[d.rid@].sha256@
        },
        Err(e) => e == UpdateError::NoRid && nearest_of(catalog, start, info, None),
    }
}

/// Whether `rid` is the closest of the platforms that a version was built for.
pub open spec fn nearest_of(
    catalog: RidCatalog,
    start: Seq<char>,
    info: VersionInfo,
    rid: Option<Seq<char>>,
) -> bool {
    exists|keys: Seq<Seq<char>>| #[trigger]
        lists(keys, info.server@.dom()) && closest(catalog@, start, keys, rid)
}

/// The file of a version that fits the platform.
pub fn pick_build(catalog: &RidCatalog, host: &Host, version: &str, info: &VersionInfo) -> (r:
    UResult<Download>)
    ensures
        fits(*catalog, *host, version@, *info, r),
{
    let keys = info.server.keys();
    match find_rid(catalog, host, keys.as_slice(), None) {
        None => Err(UpdateError::NoRid),
        Some(rid) => {
            proof {
                let start = search_start(catalog@, *host, None);
                law_closest_is_wanted(catalog@, start, texts(keys@), rid@);
                assert(info.server@.dom().contains(rid@));
            }
            match info.server.get(rid.as_str()) {
                Some(build) => Ok(
                    Download {
                        version: version.to_string(),
                        url: build.url.clone(),
                        sha256: build.sha256.clone(),
                        rid,
                    },
                ),
                None => Err(UpdateError::NoRid),
            }
        },
    }
}

/// What is to be installed.
pub enum UpdatePlan {
    /// Nothing: there is no newer version.
    Nothing,
    /// This build.
    Install(Download),
    /// Nothing: the newer version cannot be installed here.
    Refused(UpdateError),
}

/// Whether `r` is what is to be installed over `current`.
pub open spec fn planned(
    catalog: RidCatalog,
    host: Host,
    manifest: Option<ManifestInfo>,
    current: Option<Seq<char>>,
    r: UpdatePlan,
) -> bool {
    match r {
        UpdatePlan::Nothing => newer_in(manifest, current, None),
        UpdatePlan::Install(d) => {
            &&& newer_in(manifest, current, Some(d.version@))
            &&& fits(catalog, host, d.version@, manifest.unwrap().builds@[d.version@], Ok(d))
        },
        UpdatePlan::Refused(e) => exists|v: Seq<char>| #[trigger]
            newer_in(manifest, current, Some(v)) && fits(
                catalog,
                host,
                v,
                manifest.unwrap().builds@[v],
                Err(e),
            ),
    }
}

/// What is to be installed over `current`. `manifest` is what could be fetched.
pub fn plan_update(
    catalog: &RidCatalog,
    host: &Host,
    manifest: Option<&ManifestInfo>,
    current: Option<&str>,
) -> (r: UpdatePlan)
    ensures
        planned(*catalog, *host, manifest_in(manifest), slice_in(current), r),
{
    let newer = newer_version(manifest, current);
    match (manifest, newer) {
        (Some(m), Some(latest)) => match m.builds.get(latest) {
            Some(info) => match pick_build(catalog, host, latest, info) {
                Ok(d) => UpdatePlan::Install(d),
                Err(e) => UpdatePlan::Refused(e),
            },
            None => UpdatePlan::Nothing,
        },
        _ => UpdatePlan::Nothing,
    }
}

/// A look for updates and the update itself agree: something is installed or
/// refused exactly where there is a version to move to, and the version that is
/// installed is the latest and not the current one.
pub proof fn law_update_follows_the_check(
    catalog: RidCatalog,
    host: Host,
    manifest: Option<ManifestInfo>,
    current: Option<Seq<char>>,
    r: UpdatePlan,
)
    requires
        planned(catalog, host, manifest, current, r),
    ensures
        r is Nothing <==> !(exists|v: Seq<char>| #[trigger] newer_in(manifest, current, Some(v))),
        r matches UpdatePlan::Install(d) ==> is_latest(manifest.unwrap().builds@, d.version@)
            && current != Some(d.version@),
{
    if r is Nothing {
        assert forall|v: Seq<char>| !(#[trigger] newer_in(manifest, current, Some(v))) by {
            if newer_in(manifest, current, Some(v)) {
                let builds = manifest.unwrap().builds@;
                if current is Some && is_latest(builds, current.unwrap()) {
                    law_latest_is_one(builds, current.unwrap(), v);
                }
            }
        }
    } else if r is Install {
        assert(newer_in(manifest, current, Some(r->Install_0.version@)));
    }
}

/// The latest version is listed, and no other was built at a later moment, by its
/// seconds and then its nanoseconds; where two were built at the very same moment, it
/// is the last of them in dictionary order.
pub proof fn law_latest_was_built_last(
    builds: Map<Seq<char>, VersionInfo>,
    version: Seq<char>,
    other: Seq<char>,
)
    requires
        is_latest(builds, version),
        builds.contains_key(other),
    ensures
        builds.contains_key(version),
        builds[other].time.secs <= builds[version].time.secs,
        builds[other].time.secs == builds[version].time.secs ==> builds[other].time.nanos
            <= builds[version].time.nanos,
        builds[other].time == builds[version].time && other != version ==> before(other, version),
{
}

/// A version that was built later than every other is the latest.
pub proof fn law_last_built_is_latest(
    builds: Map<Seq<char>, VersionInfo>,
    version: Seq<char>,
    found: Option<Seq<char>>,
)
    requires
        builds.contains_key(version),
        forall|k: Seq<char>| #[trigger]
            builds.contains_key(k) && k != version ==> builds[k].time.secs
                < builds[version].time.secs || (builds[k].time.secs == builds[version].time.secs
                && builds[k].time.nanos < builds[version].time.nanos),
        latest_in(builds, found),
    ensures
        found == Some(version),
{
    assert(is_latest(builds, version));
    match found {
        Some(v) => law_latest_is_one(builds, v, version),
        None => assert(builds.dom().contains(version)),
    }
}

/// There is a version to move to exactly where a manifest lists any and the latest is
/// not the current one, and then it is the latest; a server that has none installed
/// moves to the latest.
pub proof fn law_version_to_move_to(
    manifest: Option<ManifestInfo>,
    current: Option<Seq<char>>,
    latest: Seq<char>,
    r: Option<Seq<char>>,
)
    requires
        newer_in(manifest, current, r),
    ensures
        manifest is None ==> r is None,
        manifest matches Some(m) ==> (is_latest(m.builds@, latest) ==> r == if current == Some(
            latest,
        ) {
            None
        } else {
            Some(latest)
        }),
        manifest matches Some(m) ==> (m.builds@ == Map::<Seq<char>, VersionInfo>::empty() ==> r
            is None),
{
    if let Some(m) = manifest {
        if is_latest(m.builds@, latest) {
            assert(m.builds@.dom().contains(latest));
            match r {
                Some(v) => law_latest_is_one(m.builds@, v, latest),
                None => {
                    if current is Some && is_latest(m.builds@, current.unwrap()) {
                        law_latest_is_one(m.builds@, current.unwrap(), latest);
                    }
                },
            }
        }
        if m.builds@ == Map::<Seq<char>, VersionInfo>::empty() && r is Some {
            assert(m.builds@.dom().contains(r.unwrap()));
        }
    }
}

/// What is installed is a file that the manifest lists for that version, by the address
/// and the digest that stand there, for the platform closest to the host's; and nothing
/// is refused but for want of one.
pub proof fn law_planned_download(
    catalog: RidCatalog,
    host: Host,
    manifest: Option<ManifestInfo>,
    current: Option<Seq<char>>,
    plan: UpdatePlan,
)
    requires
        planned(catalog, host, manifest, current, plan),
    ensures
        plan matches UpdatePlan::Install(d) ==> {
            &&& manifest is Some
            &&& is_latest(manifest.unwrap().builds@, d.version@)
            &&& current != Some(d.version@)
            &&& manifest.unwrap().builds@[d.version@].server@.contains_key(d.rid@)
            &&& d.url@ == manifest.unwrap().builds@[d.version@].server@[d.rid@].url@
            &&& d.sha256@ == manifest.unwrap().builds@[d.version@].server@[d.rid@].sha256@
            &&& exists|keys: Seq<Seq<char>>| #[trigger]
                lists(keys, manifest.unwrap().builds@[d.version@].server@.dom()) && closest(
                    catalog@,
                    search_start(catalog@, host, None),
                    keys,
                    Some(d.rid@),
                )
        },
        plan matches UpdatePlan::Refused(e) ==> e == UpdateError::NoRid && manifest is Some,
{
    if let UpdatePlan::Install(d) = plan {
        assert(newer_in(manifest, current, Some(d.version@)));
    }
}

/// A build for exactly the platform of the host is the one that is downloaded.
pub proof fn law_own_build_is_downloaded(
    catalog: RidCatalog,
    host: Host,
    version: Seq<char>,
    info: VersionInfo,
    own: Seq<char>,
    r: UResult<Download>,
)
    requires
        fits(catalog, host, version, info, r),
        identifier(host) == Some(own),
        catalog@.contains_key(own),
        info.server@.contains_key(own),
    ensures
        r matches Ok(d) && d.rid@ == own && d.version@ == version && d.url@ == info.server@[own].url@
            && d.sha256@ == info.server@[own].sha256@,
{
    let start = search_start(catalog@, host, None);
    let rid = match r {
        Ok(d) => Some(d.rid@),
        Err(_) => None,
    };
    assert(nearest_of(catalog, start, info, rid));
    let keys = choose|keys: Seq<Seq<char>>| #[trigger]
        lists(keys, info.server@.dom()) && closest(catalog@, start, keys, rid);
    assert(info.server@.dom().contains(own));
    assert(keys.contains(own));
    law_own_platform_comes_first(catalog@, host, own, keys, rid);
}

/// A manifest that was fetched is the one that is looked into.
pub proof fn law_fetched_manifest(m: Option<&ManifestInfo>)
    ensures
        manifest_in(m) is Some <==> m is Some,
        m is Some ==> manifest_in(m) == Some(*m.unwrap()),
{
}

} // verus!
