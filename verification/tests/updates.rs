use cerberus::keymap::KeyMap;
use cerberus::paths::{FilePath, PathStep};
use cerberus::updates::checksum::{verify_digest, Checksum, MOST_BYTES};
use cerberus::updates::install::{
    sibling, InstallAction, InstallEvent, InstallPhase, Installation,
};
use cerberus::updates::manifest::{
    check_for_updates, latest_version, newer_version, pick_build, plan_update, Download,
    DownloadInfo, ManifestInfo, Stamp, UpdatePlan, VersionInfo,
};
use cerberus::updates::run::{
    after_digest, UpdateAction, UpdateEnd, UpdateEvent, UpdatePhase, UpdateRun,
};
use cerberus::updates::UpdateError;
use cerberus::utils::rid::{find_rid, guess_rid, runtime_identifier, Host, RidCatalog, Runtime};

const ABC: &str = "ba7816bf8f01cfea414140de5dae2223b00361a396177a9cb410ff61f20015ad";

fn catalog() -> RidCatalog {
    let mut runtimes = KeyMap::new();
    let mut put = |name: &str, imports: &[&str]| {
        let imports = imports.iter().map(|s| s.to_string()).collect();
        runtimes.insert(name.to_string(), Runtime { imports });
    };
    put("linux-x64", &["linux", "unix-x64"]);
    put("linux-musl-x64", &["linux-musl", "linux-x64"]);
    put("linux-musl", &["linux"]);
    put("linux", &["unix"]);
    put("unix-x64", &["unix"]);
    put("unix", &["any"]);
    put("any", &["base"]);
    put("base", &[]);
    put("loop", &["loop", "dangling"]);
    RidCatalog { runtimes }
}

fn host(os: &str, arch: &str) -> Host {
    Host { os: os.to_string(), arch: arch.to_string(), musl: false }
}

fn names(list: &[&str]) -> Vec<String> {
    list.iter().map(|s| s.to_string()).collect()
}

fn found(wanted: &[&str], current: Option<&str>) -> Option<String> {
    find_rid(&catalog(), &host("linux", "x86_64"), &names(wanted), current)
}

#[test]
fn exact_build_is_taken() {
    assert_eq!(found(&["any", "linux-x64"], None).unwrap(), "linux-x64");
    assert_eq!(found(&["any", "linux-x64"], Some("any")).unwrap(), "any");
}

#[test]
fn nearest_build_is_taken() {
    // Of two at one distance the import that is named first.
    assert_eq!(found(&["unix-x64", "linux"], None).unwrap(), "linux");
    assert_eq!(found(&["unix-x64", "unix"], None).unwrap(), "unix-x64");
    assert_eq!(found(&["base"], None).unwrap(), "base");
    assert_eq!(found(&["linux-x64", "unix"], Some("linux-musl-x64")).unwrap(), "linux-x64");
}

#[test]
fn unreachable_builds_are_not_taken() {
    assert_eq!(found(&["win-x64"], None), None);
    assert_eq!(found(&[], None), None);
    assert_eq!(found(&["any"], Some("nowhere")), None);
    // A cycle, and an import that the catalogue does not have.
    assert_eq!(found(&["any"], Some("loop")), None);
    assert_eq!(found(&["dangling"], Some("loop")).unwrap(), "dangling");
}

#[test]
fn identifiers_of_platforms() {
    assert_eq!(runtime_identifier(&host("linux", "x86_64")).unwrap(), "linux-x64");
    assert_eq!(runtime_identifier(&host("macos", "aarch64")).unwrap(), "osx-arm64");
    assert_eq!(runtime_identifier(&host("windows", "x86")).unwrap(), "win-x86");
    assert_eq!(runtime_identifier(&host("linux", "arm")).unwrap(), "linux-arm");
    assert_eq!(runtime_identifier(&host("linux", "riscv64")), None);
    assert_eq!(runtime_identifier(&host("freebsd", "x86_64")), None);
    let musl = Host { os: "linux".to_string(), arch: "x86_64".to_string(), musl: true };
    assert_eq!(runtime_identifier(&musl).unwrap(), "linux-musl-x64");
}

#[test]
fn guesses_for_platforms() {
    assert_eq!(guess_rid(&host("freebsd", "x86_64")), "freebsd-x64");
    assert_eq!(guess_rid(&host("freebsd", "x86")), "unknown");
    assert_eq!(guess_rid(&host("linux", "aarch64")), "linux-arm64");
    assert_eq!(guess_rid(&host("windows", "arm")), "win-arm");
    assert_eq!(guess_rid(&host("macos", "x86_64")), "osx-x64");
    assert_eq!(guess_rid(&host("macos", "x86")), "unknown");
    assert_eq!(guess_rid(&host("plan9", "x86")), "unknown");
}

#[test]
fn unknown_platform_is_guessed() {
    let mut c = catalog();
    c.runtimes.insert("freebsd-x64".to_string(), Runtime { imports: names(&["unix"]) });
    let r = find_rid(&c, &host("freebsd", "x86_64"), &names(&["any"]), None);
    assert_eq!(r.unwrap(), "any");
    assert_eq!(find_rid(&c, &host("plan9", "x86"), &names(&["any"]), None), None);
}

fn version(secs: i64, nanos: u32, rids: &[&str]) -> VersionInfo {
    let mut server = KeyMap::new();
    for r in rids {
        server.insert(
            r.to_string(),
            DownloadInfo { url: format!("https://cdn/{r}"), sha256: ABC.to_string() },
        );
    }
    VersionInfo { time: Stamp { secs, nanos }, server }
}

fn manifest(list: Vec<(&str, VersionInfo)>) -> ManifestInfo {
    let mut builds = KeyMap::new();
    for (k, v) in list {
        builds.insert(k.to_string(), v);
    }
    ManifestInfo { builds }
}

#[test]
fn latest_version_is_the_newest() {
    let m = manifest(vec![
        ("z", version(5, 0, &[])),
        ("a", version(9, 1, &[])),
        ("b", version(9, 0, &[])),
    ]);
    assert_eq!(latest_version(&m), Some("a"));
    let tie = manifest(vec![("a", version(9, 0, &[])), ("b", version(9, 0, &[]))]);
    assert_eq!(latest_version(&tie), Some("b"));
    assert_eq!(latest_version(&manifest(vec![])), None);
}

#[test]
fn updates_are_offered_for_newer_versions_only() {
    let m = manifest(vec![("1", version(1, 0, &[])), ("2", version(2, 0, &[]))]);
    assert!(check_for_updates(Some(&m), Some("1")));
    assert!(check_for_updates(Some(&m), None));
    assert!(!check_for_updates(Some(&m), Some("2")));
    assert!(!check_for_updates(None, Some("1")));
    assert!(!check_for_updates(Some(&manifest(vec![])), None));
    assert_eq!(newer_version(Some(&m), Some("1")), Some("2"));
}

#[test]
fn build_for_the_platform_is_picked() {
    let h = host("linux", "x86_64");
    let d = pick_build(&catalog(), &h, "3", &version(1, 0, &["win-x64", "unix"])).unwrap();
    assert_eq!((d.version.as_str(), d.rid.as_str()), ("3", "unix"));
    assert_eq!((d.url.as_str(), d.sha256.as_str()), ("https://cdn/unix", ABC));
    let e = pick_build(&catalog(), &h, "3", &version(1, 0, &["win-x64"]));
    assert!(matches!(e, Err(UpdateError::NoRid)));
}

#[test]
fn plans_for_an_update() {
    let h = host("linux", "x86_64");
    let m = manifest(vec![("1", version(1, 0, &["linux-x64"]))]);
    assert!(matches!(plan_update(&catalog(), &h, Some(&m), Some("1")), UpdatePlan::Nothing));
    assert!(matches!(plan_update(&catalog(), &h, None, None), UpdatePlan::Nothing));
    assert!(matches!(
        plan_update(&catalog(), &h, Some(&m), None),
        UpdatePlan::Install(d) if d.rid == "linux-x64"
    ));
    let m = manifest(vec![("1", version(1, 0, &["win-x64"]))]);
    assert!(matches!(
        plan_update(&catalog(), &h, Some(&m), None),
        UpdatePlan::Refused(UpdateError::NoRid)
    ));
}

#[test]
fn digest_of_a_download_in_pieces() {
    let c = Checksum::new().absorb(b"a").absorb(b"").absorb(b"bc");
    assert_eq!(c.downloaded(), 3);
    let digest = c.digest();
    assert_eq!(digest.len(), 32);
    assert_eq!(verify_digest(&digest, ABC).unwrap(), ABC);
    assert_eq!(verify_digest(&digest, &ABC.to_uppercase()).unwrap(), ABC);
    match verify_digest(&digest, "00") {
        Err(UpdateError::HashMismatch { expected, got }) => {
            assert_eq!((expected.as_str(), got.as_str()), ("00", ABC))
        }
        _ => panic!("accepted"),
    }
    let empty = Checksum::new().digest();
    assert!(verify_digest(&empty, ABC).is_err());
}

#[test]
fn digest_is_written_in_hexadecimal() {
    assert_eq!(verify_digest(&[0x0f, 0xa0, 0x9b], "0FA09b").unwrap(), "0fa09b");
    assert_eq!(verify_digest(&[], "").unwrap(), "");
}

#[test]
fn words_of_update_errors() {
    assert_eq!(UpdateError::Zip("z".to_string()).message(), "zip error: z");
    assert_eq!(UpdateError::Io("i".to_string()).message(), "io error: i");
    assert_eq!(UpdateError::Reqwest("r".to_string()).message(), "reqwest error: r");
    assert_eq!(UpdateError::Join("j".to_string()).message(), "join error: j");
    assert_eq!(
        UpdateError::NoRid.message(),
        "unable to find compatible build for a platform"
    );
    let e = UpdateError::HashMismatch { expected: "a".to_string(), got: "b".to_string() };
    assert_eq!(e.message(), "invalid hash, expected `a`, got `b`");
}

/// Where a path leads, by the rules of the platform.
fn text(path: &FilePath) -> String {
    let mut at = std::path::PathBuf::new();
    for step in &path.steps {
        at = match step {
            PathStep::Into(t) => at.join(t),
            PathStep::Beside(suffix) => {
                let mut name = at.file_name().unwrap_or_default().to_owned();
                name.push(suffix);
                at.with_file_name(name)
            }
        };
    }
    at.to_str().unwrap().to_string()
}

#[test]
fn names_beside_a_path() {
    let path = sibling(&FilePath::new("./instances").join("main").join("bin"), ".new");
    match path.steps.as_slice() {
        [PathStep::Into(root), PathStep::Into(key), PathStep::Into(bin), PathStep::Beside(suffix)] => {
            assert_eq!([root, key, bin, suffix], ["./instances", "main", "bin", ".new"])
        }
        _ => panic!("other steps"),
    }
    assert_eq!(text(&path), "./instances/main/bin.new");
    assert_eq!(text(&sibling(&FilePath::new("a/bin/"), ".new")), "a/bin.new");
    assert_eq!(text(&sibling(&FilePath::new(".."), ".new")), "../.new");
    assert_eq!(text(&sibling(&FilePath::new(""), ".new")), ".new");
}

#[test]
fn old_build_goes_last() {
    let i = Installation::new(&FilePath::new("a/bin"));
    assert!(matches!(i.action(), InstallAction::LookAt { path } if text(&path) == "a/bin.new"));
    let i = i.step(InstallEvent::Found(true));
    assert!(matches!(i.action(), InstallAction::RemoveDirectory { path } if text(&path) == "a/bin.new"));
    let i = i.step(InstallEvent::Finished(Ok(())));
    assert!(matches!(i.action(), InstallAction::MakeDirectory { path } if text(&path) == "a/bin.new"));
    let i = i.step(InstallEvent::Finished(Ok(())));
    assert!(matches!(i.action(), InstallAction::Unpack { path } if text(&path) == "a/bin.new"));
    let i = i.step(InstallEvent::Finished(Ok(())));
    assert!(matches!(i.action(), InstallAction::LookAt { path } if text(&path) == "a/bin"));
    let i = i.step(InstallEvent::Found(true));
    assert!(matches!(i.action(), InstallAction::RemoveDirectory { path } if text(&path) == "a/bin"));
    let i = i.step(InstallEvent::Finished(Ok(())));
    match i.action() {
        InstallAction::Rename { from, to } => {
            assert_eq!((text(&from).as_str(), text(&to).as_str()), ("a/bin.new", "a/bin"))
        }
        _ => panic!("not moved"),
    }
    let i = i.step(InstallEvent::Finished(Ok(())));
    assert!(matches!(i.phase, InstallPhase::Installed));
    assert!(matches!(i.action(), InstallAction::Finish));
}

#[test]
fn failed_unpacking_keeps_the_old_build() {
    let i = Installation::new(&FilePath::new("bin")).step(InstallEvent::Found(false));
    let i = i.step(InstallEvent::Finished(Ok(())));
    let i = i.step(InstallEvent::Finished(Err(UpdateError::Zip("bad".to_string()))));
    assert!(matches!(i.action(), InstallAction::RemoveDirectory { path } if text(&path) == "bin.new"));
    let i = i.step(InstallEvent::Found(true));
    let i = i.step(InstallEvent::Finished(Err(UpdateError::Io("x".to_string()))));
    assert!(matches!(i.phase, InstallPhase::Failed(UpdateError::Zip(why)) if why == "bad"));
}

fn started(current: Option<&str>, m: Option<ManifestInfo>) -> UpdateRun {
    let u = UpdateRun::new(current.map(|s| s.to_string()), FilePath::new("a/bin"));
    assert!(matches!(u.action(), UpdateAction::FetchManifest));
    u.step(&catalog(), &host("linux", "x86_64"), UpdateEvent::Fetched(m))
}

fn on(u: UpdateRun, e: UpdateEvent) -> UpdateRun {
    u.step(&catalog(), &host("linux", "x86_64"), e)
}

#[test]
fn whole_update_from_manifest_to_version() {
    let m = manifest(vec![("1", version(1, 0, &["linux-x64"]))]);
    let u = started(None, Some(m));
    assert!(matches!(u.action(), UpdateAction::Request { url } if url == "https://cdn/linux-x64"));
    let u = on(u, UpdateEvent::Answered(Ok(())));
    assert_eq!(u.room(), MOST_BYTES);
    let u = on(u, UpdateEvent::Piece(b"ab".to_vec()));
    let u = on(u, UpdateEvent::Piece(b"c".to_vec()));
    assert_eq!(u.room(), MOST_BYTES - 3);
    assert!(matches!(u.action(), UpdateAction::Receive));
    let u = on(u, UpdateEvent::Complete);
    assert!(matches!(u.action(), UpdateAction::Place(InstallAction::LookAt { .. })));
    let u = on(u, UpdateEvent::Placed(InstallEvent::Found(false)));
    let u = on(u, UpdateEvent::Placed(InstallEvent::Finished(Ok(()))));
    let u = on(u, UpdateEvent::Placed(InstallEvent::Finished(Ok(()))));
    let u = on(u, UpdateEvent::Placed(InstallEvent::Found(false)));
    assert_eq!(u.installed(), None);
    let u = on(u, UpdateEvent::Placed(InstallEvent::Finished(Ok(()))));
    assert_eq!(u.installed().unwrap(), "1");
    assert!(matches!(u.action(), UpdateAction::Finish));
}

#[test]
fn update_that_finds_nothing() {
    let m = manifest(vec![("1", version(1, 0, &["linux-x64"]))]);
    assert!(matches!(started(Some("1"), Some(m)).phase, UpdatePhase::Ended(UpdateEnd::Nothing)));
    assert!(matches!(started(None, None).phase, UpdatePhase::Ended(UpdateEnd::Nothing)));
    let m = manifest(vec![("1", version(1, 0, &["win-x64"]))]);
    assert!(matches!(
        started(None, Some(m)).phase,
        UpdatePhase::Ended(UpdateEnd::Failed(UpdateError::NoRid))
    ));
}

#[test]
fn wrong_download_is_never_unpacked() {
    let m = manifest(vec![("1", version(1, 0, &["linux-x64"]))]);
    let u = on(started(None, Some(m)), UpdateEvent::Answered(Ok(())));
    let u = on(u, UpdateEvent::Piece(b"abd".to_vec()));
    let u = on(u, UpdateEvent::Complete);
    assert!(matches!(
        &u.phase,
        UpdatePhase::Ended(UpdateEnd::Failed(UpdateError::HashMismatch { .. }))
    ));
    assert_eq!(u.installed(), None);
}

#[test]
fn broken_download_ends_the_update() {
    let m = manifest(vec![("1", version(1, 0, &["linux-x64"]))]);
    let u = started(None, Some(m));
    let u = on(u, UpdateEvent::Answered(Err(UpdateError::Reqwest("404".to_string()))));
    assert!(matches!(u.phase, UpdatePhase::Ended(UpdateEnd::Failed(UpdateError::Reqwest(_)))));
    let m = manifest(vec![("1", version(1, 0, &["linux-x64"]))]);
    let u = on(started(None, Some(m)), UpdateEvent::Answered(Ok(())));
    let u = on(u, UpdateEvent::Broken(UpdateError::Io("disk".to_string())));
    assert!(matches!(u.phase, UpdatePhase::Ended(UpdateEnd::Failed(UpdateError::Io(_)))));
}

#[test]
fn digest_decides() {
    let d = |sha: &str| Download {
        version: "1".to_string(),
        rid: "any".to_string(),
        url: "u".to_string(),
        sha256: sha.to_string(),
    };
    assert!(matches!(
        after_digest(&FilePath::new("bin"), d("AB01"), &[0xab, 0x01]),
        UpdatePhase::Installing { version, .. } if version == "1"
    ));
    assert!(matches!(
        after_digest(&FilePath::new("bin"), d("AB02"), &[0xab, 0x01]),
        UpdatePhase::Ended(UpdateEnd::Failed(UpdateError::HashMismatch { got, .. })) if got == "ab01"
    ));
}
