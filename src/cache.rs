//! The cache that fills itself: which releases to download, when the cache
//! may be used, and which copies to link.

use vstd::prelude::*;

use crate::codec::{folder_dirs, name_dirs, NpmPackageCacheFolderId, NpmPackageNv};
use crate::error::NpmCacheError;
use crate::readonly::{ReadonlyNpmCache, RegistryUrl};
use crate::sync_lock::FolderSyncLock;
use crate::text::{append_text, texts};

verus! {

/// When the cache may be used in place of the network.
pub enum CacheSetting {
    /// Only the cache; never the network.
    Only,
    /// Download everything again.
    ReloadAll,
    /// Download again what the list names: `npm:` for every npm package,
    /// `npm:<name>` for one.
    ReloadSome(Vec<String>),
    /// Use the cache, going by HTTP caching headers.
    RespectHeaders,
    /// Use the cache.
    Use,
}

pub open spec fn npm_prefix() -> Seq<char> {
    seq!['n', 'p', 'm', ':']
}

/// Whether the cached copy of package `name` may be used under `setting`.
pub open spec fn uses_cache_for(setting: CacheSetting, name: Seq<char>) -> bool {
    match setting {
        CacheSetting::ReloadAll => false,
        CacheSetting::ReloadSome(list) => !(texts(list@).contains(npm_prefix()) || texts(list@).contains(
            npm_prefix() + name,
        )),
        _ => true,
    }
}

impl CacheSetting {
    pub fn should_use_for_npm_package(&self, package_name: &str) -> (r: bool)
        ensures
            r == uses_cache_for(*self, package_name@),
    {
        match self {
            CacheSetting::ReloadAll => false,
            CacheSetting::ReloadSome(list) => {
                let mut specifier = String::new();
                append_text(&mut specifier, "npm:");
                proof {
                    reveal_strlit("npm:");
                    assert(specifier@ =~= npm_prefix());
                }
                let mut named = String::new();
                append_text(&mut named, "npm:");
                append_text(&mut named, package_name);
                assert(named@ =~= npm_prefix() + package_name@);
                let mut i: usize = 0;
                while i < list.len()
                    invariant
                        *self == CacheSetting::ReloadSome(*list),
                        i <= list@.len(),
                        specifier@ == npm_prefix(),
                        named@ == npm_prefix() + package_name@,
                        forall|j: int| 0 <= j < i ==> texts(list@)[j] != npm_prefix() && texts(list@)[j]
                            != npm_prefix() + package_name@,
                    decreases list@.len() - i,
                {
                    if list[i] == specifier || list[i] == named {
                        assert(texts(list@)[i as int] == list@[i as int]@);
                        assert(texts(list@).contains(npm_prefix()) || texts(list@).contains(
                            npm_prefix() + package_name@,
                        ));
                        return false;
                    }
                    i = i + 1;
                }
                true
            },
            _ => true,
        }
    }

    pub fn is_only(&self) -> (r: bool)
        ensures
            r == (*self is Only),
    {
        match self {
            CacheSetting::Only => true,
            _ => false,
        }
    }
}

/// What the caller found at a package folder.
#[derive(PartialEq, Eq, Structural, Clone, Copy, Debug)]
pub struct FolderStatus {
    pub exists: bool,
    /// The folder holds a sync-lock file: its population did not finish.
    pub has_sync_lock: bool,
}

impl FolderStatus {
    /// A folder is valid when it exists and holds no sync-lock file.
    pub open spec fn valid(&self) -> bool {
        self.exists && !self.has_sync_lock
    }

    pub fn is_valid(&self) -> (r: bool)
        ensures
            r == self.valid(),
    {
        self.exists && !self.has_sync_lock
    }
}

/// What `ensure_package` asks of the caller.
#[derive(PartialEq, Eq, Structural, Clone, Copy, Debug)]
pub enum EnsureAction {
    /// The cached folder is used as it is.
    UseCached,
    /// Download the tarball and populate the folder.
    Download,
}

/// What `ensure_copy_package` asks of the caller.
pub enum CopyAction {
    /// The copy is in place.
    UpToDate,
    /// Populate `target` by linking the files of `source`.
    LinkFrom { source: Vec<String>, target: Vec<String> },
}

/// The decision for a release: `None` where it is not cached and only the
/// cache may be used.
pub open spec fn ensure_decision(
    setting: CacheSetting,
    reloaded: Set<(Seq<char>, Seq<char>)>,
    package: (Seq<char>, Seq<char>),
    folder: FolderStatus,
) -> Option<EnsureAction> {
    if (uses_cache_for(setting, package.0) || reloaded.contains(package)) && folder.valid() {
        Some(EnsureAction::UseCached)
    } else if setting is Only {
        None
    } else {
        Some(EnsureAction::Download)
    }
}

/// Stores one copy of each release, and linked copies where needed.
pub struct NpmCache {
    readonly: ReadonlyNpmCache,
    cache_setting: CacheSetting,
    /// The releases that this run has already decided on, so that each is
    /// downloaded at most once per run.
    previously_reloaded_packages: Vec<NpmPackageNv>,
}

impl NpmCache {
    pub closed spec fn readonly_view(&self) -> ReadonlyNpmCache {
        self.readonly
    }

    pub closed spec fn setting(&self) -> CacheSetting {
        self.cache_setting
    }

    /// The releases already seen in this run.
    pub closed spec fn reloaded(&self) -> Set<(Seq<char>, Seq<char>)> {
        self.previously_reloaded_packages@.map_values(|p: NpmPackageNv| p@).to_set()
    }

    /// A cache over `readonly` with `cache_setting`, at the start of a run.
    pub fn new(readonly: ReadonlyNpmCache, cache_setting: CacheSetting) -> (r: NpmCache)
        ensures
            r.readonly_view() == readonly,
            r.setting() == cache_setting,
            r.reloaded() == Set::<(Seq<char>, Seq<char>)>::empty(),
    {
        let r = NpmCache { readonly, cache_setting, previously_reloaded_packages: Vec::new() };
        assert(r.reloaded() =~= Set::<(Seq<char>, Seq<char>)>::empty());
        r
    }

    pub fn as_readonly(&self) -> (r: ReadonlyNpmCache)
        ensures
            r.root() == self.readonly_view().root(),
    {
        self.readonly.clone_view()
    }

    pub fn cache_setting(&self) -> (r: &CacheSetting)
        ensures
            *r == self.setting(),
    {
        &self.cache_setting
    }

    /// Whether the cache may be used for `package`. A release seen before in
    /// this run always may; every call records the release as seen.
    pub fn should_use_global_cache_for_package(&mut self, package: &NpmPackageNv) -> (r: bool)
        ensures
            r == (uses_cache_for(old(self).setting(), package.name@) || old(self).reloaded().contains(package@)),
            final(self).reloaded() == old(self).reloaded().insert(package@),
            final(self).setting() == old(self).setting(),
            final(self).readonly_view() == old(self).readonly_view(),
    {
        let by_setting = self.cache_setting.should_use_for_npm_package(package.name.as_str());
        let ghost m = self.previously_reloaded_packages@.map_values(|p: NpmPackageNv| p@);
        let mut seen = false;
        let mut i: usize = 0;
        while i < self.previously_reloaded_packages.len()
            invariant
                i <= self.previously_reloaded_packages@.len(),
                m == self.previously_reloaded_packages@.map_values(|p: NpmPackageNv| p@),
                !seen ==> forall|j: int| 0 <= j < i ==> m[j] != package@,
                seen ==> m.contains(package@),
            decreases self.previously_reloaded_packages@.len() - i,
        {
            let p = &self.previously_reloaded_packages[i];
            if p.name == package.name && p.version == package.version {
                seen = true;
                assert(m[i as int] == package@);
            }
            i = i + 1;
        }
        if !seen {
            self.previously_reloaded_packages.push(package.clone_nv());
            proof {
                let m2 = self.previously_reloaded_packages@.map_values(|p: NpmPackageNv| p@);
                assert(m2 =~= m.push(package@));
                assert(m2.to_set() =~= m.to_set().insert(package@)) by {
                    assert forall|x| m2.to_set().contains(x) <==> m.to_set().insert(package@).contains(x) by {
                        if m2.contains(x) {
                            let j = choose|j: int| 0 <= j < m2.len() && m2[j] == x;
                            if j < m.len() {
                                assert(m[j] == x);
                            }
                        }
                        if m.contains(x) {
                            let j = choose|j: int| 0 <= j < m.len() && m[j] == x;
                            assert(m2[j] == x);
                        }
                        if x == package@ {
                            assert(m2[m.len() as int] == x);
                        }
                    }
                }
            }
        } else {
            assert(m.to_set().insert(package@) =~= m.to_set());
        }
        by_setting || seen
    }

    /// Decides what caching `package` needs, given what the caller found at
    /// its folder (`package_folder_for_name_and_version`). Under `Only`, a
    /// release that is not validly cached is a `NotCached` error and nothing
    /// is downloaded.
    pub fn ensure_package(&mut self, package: &NpmPackageNv, folder: &FolderStatus) -> (r: Result<EnsureAction, NpmCacheError>)
        ensures
            match r {
                Ok(a) => ensure_decision(old(self).setting(), old(self).reloaded(), package@, *folder) == Some(a),
                Err(e) => ensure_decision(old(self).setting(), old(self).reloaded(), package@, *folder) is None
                    && e is NotCached && e->NotCached_package@ == package@,
            },
            final(self).reloaded() == old(self).reloaded().insert(package@),
            final(self).setting() == old(self).setting(),
            final(self).readonly_view() == old(self).readonly_view(),
    {
        let use_cache = self.should_use_global_cache_for_package(package);
        if use_cache && folder.is_valid() {
            Ok(EnsureAction::UseCached)
        } else if self.cache_setting.is_only() {
            Err(NpmCacheError::NotCached { package: package.clone_nv() })
        } else {
            Ok(EnsureAction::Download)
        }
    }

    pub fn package_folder_for_id(&self, id: &NpmPackageCacheFolderId, registry_url: &RegistryUrl) -> (r: Vec<String>)
        ensures
            texts(r@) == self.readonly_view().root() + registry_url.dirs() + folder_dirs(
                id.nv.name@,
                id.nv.version@,
                id.copy_index,
            ),
    {
        self.readonly.package_folder_for_id(id, registry_url)
    }

    pub fn package_folder_for_name_and_version(&self, package: &NpmPackageNv, registry_url: &RegistryUrl) -> (r: Vec<String>)
        ensures
            texts(r@) == self.readonly_view().root() + registry_url.dirs() + folder_dirs(
                package.name@,
                package.version@,
                0,
            ),
    {
        self.readonly.package_folder_for_name_and_version(package, registry_url)
    }

    pub fn package_name_folder(&self, name: &str, registry_url: &RegistryUrl) -> (r: Vec<String>)
        ensures
            texts(r@) == self.readonly_view().root() + registry_url.dirs() + name_dirs(name@),
    {
        self.readonly.package_name_folder(name, registry_url)
    }

    pub fn registry_folder(&self, registry_url: &RegistryUrl) -> (r: Vec<String>)
        ensures
            texts(r@) == self.readonly_view().root() + registry_url.dirs(),
    {
        self.readonly.registry_folder(registry_url)
    }

    pub fn resolve_package_folder_id_from_specifier(&self, specifier: &Vec<String>, registry_url: &RegistryUrl) -> (r: Result<NpmPackageCacheFolderId, NpmCacheError>)
        ensures
            match r {
                Ok(id) => self.readonly_view().decode_path(texts(specifier@), registry_url) == Some(id@),
                Err(e) => self.readonly_view().decode_path(texts(specifier@), registry_url) is None
                    && e is PackageNotFoundForPath && texts(e->path@) == texts(specifier@),
            },
    {
        self.readonly.resolve_package_folder_id_from_specifier(specifier, registry_url)
    }

    /// The tarball's bytes, or `TarballNotFound` where the download found nothing.
    pub fn check_tarball(package: &NpmPackageNv, tarball_url: &String, bytes: Option<Vec<u8>>) -> (r: Result<Vec<u8>, NpmCacheError>)
        ensures
            match r {
                Ok(b) => bytes == Some(b),
                Err(e) => bytes is None && e is TarballNotFound && e->TarballNotFound_package@ == package@
                    && e->tarball_url@ == tarball_url@,
            },
    {
        match bytes {
            Some(b) => Ok(b),
            None => Err(NpmCacheError::TarballNotFound { package: package.clone_nv(), tarball_url: tarball_url.clone() }),
        }
    }

    /// Starts populating the folder of `package` from its tarball.
    pub fn start_extraction(&self, package: &NpmPackageNv, registry_url: &RegistryUrl) -> (r: FolderSyncLock)
        ensures
            r.wf(),
            r.step == crate::sync_lock::LockStep::CreateFolder,
            r.package@ == package@,
            texts(r.folder@) == self.readonly_view().root() + registry_url.dirs() + folder_dirs(
                package.name@,
                package.version@,
                0,
            ),
    {
        let folder = self.readonly.package_folder_for_name_and_version(package, registry_url);
        FolderSyncLock::new(package.clone_nv(), folder)
    }

    /// Decides what a copy of a release needs, given what the caller found
    /// at the copy's folder (`package_folder_for_id`). The original folder
    /// is taken to be valid already.
    pub fn ensure_copy_package(&self, folder_id: &NpmPackageCacheFolderId, registry_url: &RegistryUrl, folder: &FolderStatus) -> (r: CopyAction)
        requires
            folder_id.copy_index != 0,
        ensures
            match r {
                CopyAction::UpToDate => folder.valid() && uses_cache_for(self.setting(), folder_id.nv.name@),
                CopyAction::LinkFrom { source, target } => !(folder.valid() && uses_cache_for(
                    self.setting(),
                    folder_id.nv.name@,
                )) && texts(source@) == self.readonly_view().root() + registry_url.dirs() + folder_dirs(
                    folder_id.nv.name@,
                    folder_id.nv.version@,
                    0,
                ) && texts(target@) == self.readonly_view().root() + registry_url.dirs() + folder_dirs(
                    folder_id.nv.name@,
                    folder_id.nv.version@,
                    folder_id.copy_index,
                ),
            },
    {
        if folder.is_valid() && self.cache_setting.should_use_for_npm_package(folder_id.nv.name.as_str()) {
            return CopyAction::UpToDate;
        }
        let target = self.readonly.package_folder_for_id(folder_id, registry_url);
        let source = self.readonly.package_folder_for_name_and_version(&folder_id.nv, registry_url);
        CopyAction::LinkFrom { source, target }
    }
}


/// A folder that holds a sync-lock file is never used as a cached release
/// nor as an up-to-date copy, whatever else holds.
pub proof fn lemma_sync_lock_never_valid(
    setting: CacheSetting,
    reloaded: Set<(Seq<char>, Seq<char>)>,
    package: (Seq<char>, Seq<char>),
    folder: FolderStatus,
)
    requires
        folder.has_sync_lock,
    ensures
        !folder.valid(),
        ensure_decision(setting, reloaded, package, folder) != Some(EnsureAction::UseCached),
{
}

/// Under a setting that reloads everything, the first request for a release
/// in a run downloads it, and once its folder is valid a second request is
/// served from the cache.
pub proof fn lemma_one_download_per_run(
    reloaded: Set<(Seq<char>, Seq<char>)>,
    package: (Seq<char>, Seq<char>),
    first: FolderStatus,
    second: FolderStatus,
)
    requires
        !reloaded.contains(package),
        second.valid(),
    ensures
        ensure_decision(CacheSetting::ReloadAll, reloaded, package, first) == Some(EnsureAction::Download),
        ensure_decision(CacheSetting::ReloadAll, reloaded.insert(package), package, second) == Some(
            EnsureAction::UseCached,
        ),
{
}

/// Under `Only`, a release without a folder is not downloaded: the decision
/// is the `NotCached` error.
pub proof fn lemma_cache_only_never_downloads(
    reloaded: Set<(Seq<char>, Seq<char>)>,
    package: (Seq<char>, Seq<char>),
    folder: FolderStatus,
)
    requires
        !folder.exists,
    ensures
        ensure_decision(CacheSetting::Only, reloaded, package, folder) is None,
{
}

} // verus!
