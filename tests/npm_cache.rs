use npm_cache::cache::{CacheSetting, CopyAction, EnsureAction, FolderStatus, NpmCache};
use npm_cache::codec::{
    decode_folder_path, encode_folder_dirs, mixed_case_package_name_decode, mixed_case_package_name_encode,
    NpmPackageCacheFolderId, NpmPackageNv,
};
use npm_cache::error::{NpmCacheError, PopulateFailure};
use npm_cache::readonly::{ReadonlyNpmCache, RegistryUrl};
use npm_cache::should_sync_download;
use npm_cache::sync_lock::{FolderSyncLock, LockStep, StepError, SYNC_LOCK_FILE_NAME};
use url::Url;

fn registry(text: &str) -> RegistryUrl {
    let url = Url::parse(text).unwrap();
    RegistryUrl {
        domain: url.domain().map(|d| d.to_string()),
        port: url.port(),
        path_segments: url
            .path_segments()
            .map(|segments| segments.map(|s| s.to_string()).collect())
            .unwrap_or_default(),
    }
}

fn path(parts: &[&str]) -> Vec<String> {
    parts.iter().map(|p| p.to_string()).collect()
}

fn root() -> Vec<String> {
    path(&["/", "home", "user", ".cache", "deno", "npm"])
}

fn joined(extra: &[&str]) -> Vec<String> {
    let mut p = root();
    p.extend(extra.iter().map(|s| s.to_string()));
    p
}

fn nv(name: &str, version: &str) -> NpmPackageNv {
    NpmPackageNv { name: name.to_string(), version: version.to_string() }
}

fn folder_id(name: &str, version: &str, copy_index: u8) -> NpmPackageCacheFolderId {
    NpmPackageCacheFolderId { nv: nv(name, version), copy_index }
}

fn id_parts(id: &NpmPackageCacheFolderId) -> (String, String, u8) {
    (id.nv.name.clone(), id.nv.version.clone(), id.copy_index)
}

#[test]
fn should_get_package_folder() {
    let cache = ReadonlyNpmCache::new(root());
    let registry_url = registry("https://registry.npmjs.org/");

    assert_eq!(
        cache.package_folder_for_id(&folder_id("json", "1.2.5", 0), &registry_url),
        joined(&["registry.npmjs.org", "json", "1.2.5"]),
    );
    assert_eq!(
        cache.package_folder_for_id(&folder_id("json", "1.2.5", 1), &registry_url),
        joined(&["registry.npmjs.org", "json", "1.2.5_1"]),
    );
    assert_eq!(
        cache.package_folder_for_id(&folder_id("JSON", "2.1.5", 0), &registry_url),
        joined(&["registry.npmjs.org", "_jjju6tq", "2.1.5"]),
    );
    assert_eq!(
        cache.package_folder_for_id(&folder_id("@types/JSON", "2.1.5", 0), &registry_url),
        joined(&["registry.npmjs.org", "_ib2hs4dfomxuuu2pjy", "2.1.5"]),
    );
}

#[test]
fn scoped_lower_case_name_is_two_directories() {
    let cache = ReadonlyNpmCache::new(root());
    let registry_url = registry("https://registry.npmjs.org/");
    assert_eq!(
        cache.package_folder_for_name_and_version(&nv("@types/node", "18.0.0"), &registry_url),
        joined(&["registry.npmjs.org", "@types", "node", "18.0.0"]),
    );
    assert_eq!(
        cache.package_name_folder("@types/node", &registry_url),
        joined(&["registry.npmjs.org", "@types", "node"]),
    );
}

#[test]
fn registry_folder_keeps_port_and_path() {
    let cache = ReadonlyNpmCache::new(root());
    assert_eq!(
        cache.registry_folder(&registry("http://localhost:4260/npm/registry/")),
        joined(&["localhost_4260", "npm", "registry"]),
    );
    assert_eq!(
        cache.registry_folder(&registry("https://registry.npmjs.org/")),
        joined(&["registry.npmjs.org"]),
    );
    assert_eq!(cache.get_cache_location(), root());
}

#[test]
fn mixed_case_name_encoding() {
    assert_eq!(mixed_case_package_name_encode("JSON"), "jjju6tq");
    assert_eq!(mixed_case_package_name_encode("@types/JSON"), "ib2hs4dfomxuuu2pjy");
    assert_eq!(mixed_case_package_name_decode("jjju6tq"), Some("JSON".to_string()));
    assert_eq!(mixed_case_package_name_decode("JJJU6TQ"), Some("JSON".to_string()));
    assert_eq!(mixed_case_package_name_decode("ib2hs4dfomxuuu2pjy"), Some("@types/JSON".to_string()));
    assert_eq!(mixed_case_package_name_decode("not base32!"), None);
}

#[test]
fn folder_paths_decode_back() {
    let cache = ReadonlyNpmCache::new(root());
    let registry_url = registry("https://registry.npmjs.org/");
    let ids = [
        folder_id("json", "1.2.5", 0),
        folder_id("json", "1.2.5", 1),
        folder_id("JSON", "2.1.5", 0),
        folder_id("@types/JSON", "2.1.5", 3),
        folder_id("@types/node", "18.0.0-rc.1", 255),
        folder_id("Chalk", "5.0.1", 12),
    ];
    for id in ids.iter() {
        let mut folder = cache.package_folder_for_id(id, &registry_url);
        assert_eq!(
            cache.maybe_resolve_package_folder_id_from_specifier(&folder, &registry_url).map(|r| id_parts(&r)),
            Some(id_parts(id)),
        );
        folder.push("lib".to_string());
        folder.push("index.js".to_string());
        let resolved = cache.resolve_package_folder_id_from_specifier(&folder, &registry_url);
        assert_eq!(resolved.ok().map(|r| id_parts(&r)), Some(id_parts(id)));
    }
}

#[test]
fn relative_folder_paths_decode_back() {
    let id = folder_id("@Scope/Pkg", "1.0.0", 2);
    let dirs = encode_folder_dirs(&id);
    assert_eq!(dirs.len(), 2);
    assert_eq!(decode_folder_path(&dirs).map(|r| id_parts(&r)), Some(id_parts(&id)));
}

#[test]
fn stray_paths_decode_to_nothing() {
    let cache = ReadonlyNpmCache::new(root());
    let registry_url = registry("https://registry.npmjs.org/");
    let cases: Vec<Vec<String>> = vec![
        path(&["/", "elsewhere", "json", "1.2.5"]),
        joined(&["registry.npmjs.org"]),
        joined(&["registry.npmjs.org", "json"]),
        joined(&["registry.npmjs.org", "json", "1.2.5_x"]),
        joined(&["registry.npmjs.org", "json", "1.2.5_256"]),
        joined(&["registry.npmjs.org", "json", "not-a-version"]),
        joined(&["registry.npmjs.org", "_!!!", "1.0.0"]),
        joined(&["other.registry", "json", "1.2.5"]),
    ];
    for p in cases.iter() {
        assert!(cache.maybe_resolve_package_folder_id_from_specifier(p, &registry_url).is_none());
        match cache.resolve_package_folder_id_from_specifier(p, &registry_url) {
            Err(NpmCacheError::PackageNotFoundForPath { path }) => assert_eq!(&path, p),
            _ => panic!("expected PackageNotFoundForPath"),
        }
    }
}

#[test]
fn copy_index_accepts_plus_sign_and_leading_zeros() {
    let cache = ReadonlyNpmCache::new(root());
    let registry_url = registry("https://registry.npmjs.org/");
    let p = joined(&["registry.npmjs.org", "json", "1.2.5_007"]);
    let id = cache.maybe_resolve_package_folder_id_from_specifier(&p, &registry_url).unwrap();
    assert_eq!(id_parts(&id), ("json".to_string(), "1.2.5".to_string(), 7));
    let p = joined(&["registry.npmjs.org", "json", "1.2.5_+4"]);
    let id = cache.maybe_resolve_package_folder_id_from_specifier(&p, &registry_url).unwrap();
    assert_eq!(id.copy_index, 4);
}

#[test]
fn reload_setting_downloads_once_per_run() {
    let readonly = ReadonlyNpmCache::new(root());
    let mut cache = NpmCache::new(readonly, CacheSetting::ReloadAll);
    let package = nv("chalk", "5.0.1");
    let valid = FolderStatus { exists: true, has_sync_lock: false };
    assert!(matches!(cache.ensure_package(&package, &valid), Ok(EnsureAction::Download)));
    assert!(matches!(cache.ensure_package(&package, &valid), Ok(EnsureAction::UseCached)));
    let other = nv("chalk", "5.0.2");
    assert!(matches!(cache.ensure_package(&other, &valid), Ok(EnsureAction::Download)));
}

#[test]
fn use_setting_takes_valid_folder() {
    let mut cache = NpmCache::new(ReadonlyNpmCache::new(root()), CacheSetting::Use);
    let package = nv("chalk", "5.0.1");
    let valid = FolderStatus { exists: true, has_sync_lock: false };
    let absent = FolderStatus { exists: false, has_sync_lock: false };
    assert!(matches!(cache.ensure_package(&package, &valid), Ok(EnsureAction::UseCached)));
    assert!(matches!(cache.ensure_package(&package, &absent), Ok(EnsureAction::Download)));
}

#[test]
fn sync_lock_folder_is_never_valid() {
    let locked = FolderStatus { exists: true, has_sync_lock: true };
    assert!(!locked.is_valid());
    let mut cache = NpmCache::new(ReadonlyNpmCache::new(root()), CacheSetting::Use);
    let package = nv("chalk", "5.0.1");
    assert!(matches!(cache.ensure_package(&package, &locked), Ok(EnsureAction::Download)));
    assert!(matches!(cache.ensure_package(&package, &locked), Ok(EnsureAction::Download)));
    let registry_url = registry("https://registry.npmjs.org/");
    let copy = folder_id("chalk", "5.0.1", 1);
    assert!(matches!(cache.ensure_copy_package(&copy, &registry_url, &locked), CopyAction::LinkFrom { .. }));
    assert_eq!(SYNC_LOCK_FILE_NAME, ".deno_sync_lock");
}

#[test]
fn cache_only_without_folder_is_not_cached() {
    let mut cache = NpmCache::new(ReadonlyNpmCache::new(root()), CacheSetting::Only);
    let package = nv("chalk", "5.0.1");
    let absent = FolderStatus { exists: false, has_sync_lock: false };
    match cache.ensure_package(&package, &absent) {
        Err(NpmCacheError::NotCached { package: p }) => {
            assert_eq!(p.name, "chalk");
            assert_eq!(p.version, "5.0.1");
        }
        _ => panic!("expected NotCached"),
    }
    let valid = FolderStatus { exists: true, has_sync_lock: false };
    assert!(matches!(cache.ensure_package(&package, &valid), Ok(EnsureAction::UseCached)));
}

#[test]
fn reload_some_names_packages() {
    let list = CacheSetting::ReloadSome(vec!["npm:chalk".to_string(), "https://deno.land/x/".to_string()]);
    assert!(!list.should_use_for_npm_package("chalk"));
    assert!(list.should_use_for_npm_package("json"));
    let all = CacheSetting::ReloadSome(vec!["npm:".to_string()]);
    assert!(!all.should_use_for_npm_package("json"));
    assert!(!CacheSetting::ReloadAll.should_use_for_npm_package("json"));
    assert!(CacheSetting::Use.should_use_for_npm_package("json"));
    assert!(CacheSetting::Only.should_use_for_npm_package("json"));
    assert!(CacheSetting::RespectHeaders.should_use_for_npm_package("json"));
}

#[test]
fn missing_tarball_is_an_error() {
    let package = nv("chalk", "5.0.1");
    let url = "https://registry.npmjs.org/chalk/-/chalk-5.0.1.tgz".to_string();
    match NpmCache::check_tarball(&package, &url, None) {
        Err(NpmCacheError::TarballNotFound { package: p, tarball_url }) => {
            assert_eq!(p.name, "chalk");
            assert_eq!(tarball_url, url);
        }
        _ => panic!("expected TarballNotFound"),
    }
    assert_eq!(NpmCache::check_tarball(&package, &url, Some(vec![1, 2, 3])).ok(), Some(vec![1, 2, 3]));
}

#[test]
fn copy_package_links_from_original() {
    let cache = NpmCache::new(ReadonlyNpmCache::new(root()), CacheSetting::Use);
    let registry_url = registry("https://registry.npmjs.org/");
    let copy = folder_id("json", "1.2.5", 2);
    let valid = FolderStatus { exists: true, has_sync_lock: false };
    let absent = FolderStatus { exists: false, has_sync_lock: false };
    assert!(matches!(cache.ensure_copy_package(&copy, &registry_url, &valid), CopyAction::UpToDate));
    match cache.ensure_copy_package(&copy, &registry_url, &absent) {
        CopyAction::LinkFrom { source, target } => {
            assert_eq!(source, joined(&["registry.npmjs.org", "json", "1.2.5"]));
            assert_eq!(target, joined(&["registry.npmjs.org", "json", "1.2.5_2"]));
        }
        CopyAction::UpToDate => panic!("expected LinkFrom"),
    }
    let reloading = NpmCache::new(ReadonlyNpmCache::new(root()), CacheSetting::ReloadAll);
    assert!(matches!(reloading.ensure_copy_package(&copy, &registry_url, &valid), CopyAction::LinkFrom { .. }));
}

fn failed(message: &str, not_found: bool) -> Result<(), StepError> {
    Err(StepError { message: message.to_string(), not_found })
}

fn lock() -> FolderSyncLock {
    FolderSyncLock::new(nv("chalk", "5.0.1"), joined(&["registry.npmjs.org", "chalk", "5.0.1"]))
}

#[test]
fn population_succeeds_through_every_step() {
    let mut l = lock();
    let steps = [LockStep::CreateFolder, LockStep::CreateSyncLock, LockStep::Populate, LockStep::RemoveSyncLock];
    for step in steps.iter() {
        assert_eq!(l.step, *step);
        l.advance(Ok(()));
    }
    assert_eq!(l.step, LockStep::Finished);
    assert!(l.folder_exists && !l.sync_lock_present);
    assert!(l.finish().is_ok());
}

#[test]
fn failed_population_removes_folder() {
    let mut l = lock();
    l.advance(Ok(()));
    l.advance(Ok(()));
    l.advance(failed("bad integrity", false));
    assert_eq!(l.step, LockStep::RemoveFolder);
    l.advance(Ok(()));
    assert_eq!(l.step, LockStep::Finished);
    assert!(!l.folder_exists && !l.sync_lock_present);
    match l.finish() {
        Err(NpmCacheError::SetupFailed { failure: PopulateFailure::Population { message }, .. }) => {
            assert_eq!(message, "bad integrity")
        }
        _ => panic!("expected SetupFailed"),
    }
}

#[test]
fn folder_already_gone_counts_as_removed() {
    let mut l = lock();
    l.advance(Ok(()));
    l.advance(Ok(()));
    l.advance(failed("bad integrity", false));
    l.advance(failed("no such directory", true));
    assert!(!l.folder_exists);
    assert!(matches!(l.finish(), Err(NpmCacheError::SetupFailed { .. })));
}

#[test]
fn failed_rollback_is_corrupt_cleanup() {
    let mut l = lock();
    l.advance(Ok(()));
    l.advance(Ok(()));
    l.advance(failed("bad integrity", false));
    l.advance(failed("permission denied", false));
    assert!(l.folder_exists && l.sync_lock_present);
    match l.finish() {
        Err(NpmCacheError::CorruptCleanup { failure, remove_error, folder, package }) => {
            assert!(matches!(failure, PopulateFailure::Population { .. }));
            assert_eq!(remove_error, "permission denied");
            assert_eq!(folder, joined(&["registry.npmjs.org", "chalk", "5.0.1"]));
            assert_eq!(package.name, "chalk");
        }
        _ => panic!("expected CorruptCleanup"),
    }
}

#[test]
fn held_sync_lock_is_a_conflict() {
    let mut l = lock();
    l.advance(Ok(()));
    l.advance(failed("file exists", false));
    assert_eq!(l.step, LockStep::RemoveFolder);
    l.advance(Ok(()));
    assert!(matches!(
        l.finish(),
        Err(NpmCacheError::SetupFailed { failure: PopulateFailure::SyncLockConflict { .. }, .. })
    ));
}

#[test]
fn folder_creation_failure_is_reported() {
    let mut l = lock();
    l.advance(failed("read-only file system", false));
    l.advance(Ok(()));
    assert!(matches!(
        l.finish(),
        Err(NpmCacheError::SetupFailed { failure: PopulateFailure::CreateFolder { .. }, .. })
    ));
}

#[test]
fn stray_sync_lock_after_success_stays_recorded() {
    let mut l = lock();
    l.advance(Ok(()));
    l.advance(Ok(()));
    l.advance(Ok(()));
    l.advance(failed("busy", false));
    assert!(l.sync_lock_present);
    assert!(l.finish().is_ok());
}

#[test]
fn start_extraction_targets_the_release_folder() {
    let cache = NpmCache::new(ReadonlyNpmCache::new(root()), CacheSetting::Use);
    let registry_url = registry("https://registry.npmjs.org/");
    let l = cache.start_extraction(&nv("Chalk", "5.0.1"), &registry_url);
    assert_eq!(l.step, LockStep::CreateFolder);
    assert_eq!(l.folder, joined(&["registry.npmjs.org", "_inugc3dl", "5.0.1"]));
    assert_eq!(cache.package_folder_for_name_and_version(&nv("Chalk", "5.0.1"), &registry_url), l.folder);
}

#[test]
fn sync_download_follows_variable() {
    assert!(should_sync_download(&Some("1".to_string())));
    assert!(!should_sync_download(&None));
}

#[test]
fn decoded_version_is_normalized() {
    let cache = ReadonlyNpmCache::new(root());
    let registry_url = registry("https://registry.npmjs.org/");
    let p = joined(&["registry.npmjs.org", "json", "v1.2.5_1", "index.js"]);
    let id = cache.maybe_resolve_package_folder_id_from_specifier(&p, &registry_url).unwrap();
    assert_eq!(id_parts(&id), ("json".to_string(), "1.2.5".to_string(), 1));
}
