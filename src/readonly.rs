//! The read-only view of the cache: where folders are, and which folder a
//! path belongs to.

use vstd::prelude::*;

use crate::codec::{
    decode_folder_dirs, decode_folder_path, encode_folder_dirs, folder_dirs, name_dirs,
    package_name_dirs, valid_package_name, valid_version_text, NpmPackageCacheFolderId,
    NpmPackageNv,
};
use crate::error::NpmCacheError;
use crate::text::{clone_path, decimal_of, push_char, push_clones, push_decimal, texts};

verus! {

/// A registry's base URL, by the parts that name its directory.
pub struct RegistryUrl {
    pub domain: Option<String>,
    pub port: Option<u16>,
    pub path_segments: Vec<String>,
}

/// A character that cannot stand in a directory name.
pub open spec fn is_banned_dir_char(c: char) -> bool {
    c == '/' || c == '\\' || c == '<' || c == '>' || c == ':' || c == '"' || c == '|' || c == '?'
        || c == '*'
}

pub open spec fn sanitized(s: Seq<char>) -> Seq<char> {
    s.map_values(|c: char| if is_banned_dir_char(c) { '_' } else { c })
}

/// The host part of a registry directory: the sanitized domain, then `_`
/// and the port where there is one.
pub open spec fn host_dir(domain: Option<Seq<char>>, port: Option<u16>) -> Seq<char> {
    let d = match domain {
        Some(d) => sanitized(d),
        None => Seq::<char>::empty(),
    };
    match port {
        Some(p) => (if d.len() > 0 { d.push('_') } else { d }) + decimal_of(p as nat),
        None => d,
    }
}

/// The non-empty path segments, sanitized.
pub open spec fn path_dirs(segs: Seq<Seq<char>>) -> Seq<Seq<char>>
    decreases segs.len(),
{
    if segs.len() == 0 {
        Seq::<Seq<char>>::empty()
    } else if segs.last().len() == 0 {
        path_dirs(segs.drop_last())
    } else {
        path_dirs(segs.drop_last()).push(sanitized(segs.last()))
    }
}

/// The directories of a registry below the cache root.
pub open spec fn registry_dirs(domain: Option<Seq<char>>, port: Option<u16>, segs: Seq<Seq<char>>) -> Seq<Seq<char>> {
    let h = host_dir(domain, port);
    (if h.len() > 0 { seq![h] } else { Seq::<Seq<char>>::empty() }) + path_dirs(segs)
}

impl RegistryUrl {
    pub open spec fn domain_view(&self) -> Option<Seq<char>> {
        match self.domain {
            Some(d) => Some(d@),
            None => None,
        }
    }

    pub open spec fn dirs(&self) -> Seq<Seq<char>> {
        registry_dirs(self.domain_view(), self.port, texts(self.path_segments@))
    }
}

fn push_sanitized(out: &mut String, s: &str)
    ensures
        final(out)@ == old(out)@ + sanitized(s@),
{
    let n = s.unicode_len();
    let mut i: usize = 0;
    while i < n
        invariant
            n == s@.len(),
            i <= n,
            out@ == old(out)@ + sanitized(s@.subrange(0, i as int)),
        decreases n - i,
    {
        let c = s.get_char(i);
        let banned = c == '/' || c == '\\' || c == '<' || c == '>' || c == ':' || c == '"' || c
            == '|' || c == '?' || c == '*';
        if banned {
            push_char(out, '_');
        } else {
            push_char(out, c);
        }
        assert(sanitized(s@.subrange(0, i + 1)) =~= sanitized(s@.subrange(0, i as int)).push(
            if is_banned_dir_char(c) { '_' } else { c },
        ));
        i = i + 1;
    }
    assert(s@.subrange(0, n as int) =~= s@);
}

/// The directory name of a registry: a file-system safe form of its host,
/// port and path.
pub fn registry_dir_names(url: &RegistryUrl) -> (r: Vec<String>)
    ensures
        texts(r@) == url.dirs(),
{
    let mut host = String::new();
    match &url.domain {
        Some(d) => push_sanitized(&mut host, d.as_str()),
        None => {},
    }
    assert(host@ =~= match url.domain_view() {
        Some(d) => sanitized(d),
        None => Seq::<char>::empty(),
    });
    match url.port {
        Some(p) => {
            if host.as_str().unicode_len() > 0 {
                push_char(&mut host, '_');
            }
            push_decimal(&mut host, p as u64);
        },
        None => {},
    }
    let mut r: Vec<String> = Vec::new();
    let nonempty = host.as_str().unicode_len() > 0;
    if nonempty {
        r.push(host);
    }
    assert(texts(r@) =~= if nonempty { seq![host_dir(url.domain_view(), url.port)] } else { Seq::<Seq<char>>::empty() });
    let ghost head = texts(r@);
    let segs = &url.path_segments;
    let mut i: usize = 0;
    while i < segs.len()
        invariant
            i <= segs@.len(),
            texts(r@) == head + path_dirs(texts(segs@).subrange(0, i as int)),
        decreases segs@.len() - i,
    {
        let ghost before = r@;
        let ghost sub = texts(segs@).subrange(0, i + 1);
        assert(sub.drop_last() =~= texts(segs@).subrange(0, i as int));
        if segs[i].as_str().unicode_len() > 0 {
            let mut d = String::new();
            push_sanitized(&mut d, segs[i].as_str());
            assert(d@ =~= sanitized(segs@[i as int]@));
            r.push(d);
            assert(texts(r@) =~= texts(before).push(d@));
        }
        i = i + 1;
    }
    assert(texts(segs@).subrange(0, segs@.len() as int) =~= texts(segs@));
    r
}


/// `path` with `base` taken off its front, if it starts with `base`.
pub open spec fn relative_to(base: Seq<Seq<char>>, path: Seq<Seq<char>>) -> Option<Seq<Seq<char>>> {
    if base.len() <= path.len() && path.take(base.len() as int) == base {
        Some(path.skip(base.len() as int))
    } else {
        None
    }
}

fn strip_prefix_path(base: &Vec<String>, path: &Vec<String>) -> (r: Option<Vec<String>>)
    ensures
        match r {
            Some(rel) => relative_to(texts(base@), texts(path@)) == Some(texts(rel@)),
            None => relative_to(texts(base@), texts(path@)) is None,
        },
{
    if base.len() > path.len() {
        return None;
    }
    let mut i: usize = 0;
    while i < base.len()
        invariant
            base@.len() <= path@.len(),
            i <= base@.len(),
            texts(path@).take(i as int) == texts(base@).take(i as int),
        decreases base@.len() - i,
    {
        if base[i] != path[i] {
            assert(texts(path@).take(base@.len() as int)[i as int] != texts(base@)[i as int]);
            return None;
        }
        assert(texts(path@).take(i + 1) =~= texts(base@).take(i + 1)) by {
            assert(texts(path@).take(i + 1) =~= texts(path@).take(i as int).push(path@[i as int]@));
            assert(texts(base@).take(i + 1) =~= texts(base@).take(i as int).push(base@[i as int]@));
        }
        i = i + 1;
    }
    assert(texts(base@).take(base@.len() as int) =~= texts(base@));
    let mut rel: Vec<String> = Vec::new();
    push_clones(&mut rel, path, base.len(), path.len());
    assert(texts(rel@) =~= texts(path@).skip(base@.len() as int));
    Some(rel)
}

/// The cache's root directory, and the folder queries over it.
pub struct ReadonlyNpmCache {
    root_dir: Vec<String>,
}

impl ReadonlyNpmCache {
    pub closed spec fn root(&self) -> Seq<Seq<char>> {
        texts(self.root_dir@)
    }

    /// A view over the root directory `root_dir`, given by its components
    /// (already created and made canonical by the caller).
    pub fn new(root_dir: Vec<String>) -> (r: ReadonlyNpmCache)
        ensures
            r.root() == texts(root_dir@),
    {
        ReadonlyNpmCache { root_dir }
    }

    pub fn get_cache_location(&self) -> (r: Vec<String>)
        ensures
            texts(r@) == self.root(),
    {
        clone_path(&self.root_dir)
    }

    pub fn clone_view(&self) -> (r: ReadonlyNpmCache)
        ensures
            r.root() == self.root(),
    {
        ReadonlyNpmCache { root_dir: clone_path(&self.root_dir) }
    }

    /// The directory of a registry.
    pub fn registry_folder(&self, registry_url: &RegistryUrl) -> (r: Vec<String>)
        ensures
            texts(r@) == self.root() + registry_url.dirs(),
    {
        let mut r = clone_path(&self.root_dir);
        let reg = registry_dir_names(registry_url);
        push_clones(&mut r, &reg, 0, reg.len());
        assert(texts(reg@).subrange(0, reg@.len() as int) =~= texts(reg@));
        r
    }

    /// The directory of a package name: its parts, or one `_`-prefixed
    /// encoded directory for a name with upper-case letters.
    pub fn package_name_folder(&self, name: &str, registry_url: &RegistryUrl) -> (r: Vec<String>)
        ensures
            texts(r@) == self.root() + registry_url.dirs() + name_dirs(name@),
    {
        let mut r = self.registry_folder(registry_url);
        let dirs = package_name_dirs(name);
        push_clones(&mut r, &dirs, 0, dirs.len());
        assert(texts(dirs@).subrange(0, dirs@.len() as int) =~= texts(dirs@));
        r
    }

    /// The folder of the extracted release.
    pub fn package_folder_for_name_and_version(&self, package: &NpmPackageNv, registry_url: &RegistryUrl) -> (r: Vec<String>)
        ensures
            texts(r@) == self.root() + registry_url.dirs() + folder_dirs(package.name@, package.version@, 0),
    {
        let id = NpmPackageCacheFolderId { nv: package.clone_nv(), copy_index: 0 };
        self.package_folder_for_id(&id, registry_url)
    }

    /// The folder of a release's copy; index 0 is the extracted release.
    ///
    /// For a valid name and version, the folder's identity is decoded back
    /// from any path inside it.
    pub fn package_folder_for_id(&self, folder_id: &NpmPackageCacheFolderId, registry_url: &RegistryUrl) -> (r: Vec<String>)
        ensures
            texts(r@) == self.root() + registry_url.dirs() + folder_dirs(
                folder_id.nv.name@,
                folder_id.nv.version@,
                folder_id.copy_index,
            ),
            valid_package_name(folder_id.nv.name@) && valid_version_text(folder_id.nv.version@)
                ==> forall|rest: Seq<Seq<char>>| #[trigger] self.decode_path(texts(r@) + rest, registry_url) == Some(folder_id@),
    {
        let mut r = self.registry_folder(registry_url);
        let ghost base = texts(r@);
        let dirs = encode_folder_dirs(folder_id);
        push_clones(&mut r, &dirs, 0, dirs.len());
        assert(texts(dirs@).subrange(0, dirs@.len() as int) =~= texts(dirs@));
        proof {
            if valid_package_name(folder_id.nv.name@) && valid_version_text(folder_id.nv.version@) {
                assert forall|rest: Seq<Seq<char>>| #[trigger] self.decode_path(texts(r@) + rest, registry_url) == Some(folder_id@) by {
                    let p = texts(r@) + rest;
                    assert(p.take(base.len() as int) =~= base);
                    assert(p.skip(base.len() as int) =~= texts(dirs@) + rest);
                }
            }
        }
        r
    }

    /// The identity of the package folder that `path` lies in, if any.
    pub open spec fn decode_path(&self, path: Seq<Seq<char>>, registry_url: &RegistryUrl) -> Option<(Seq<char>, Seq<char>, u8)> {
        match relative_to(self.root() + registry_url.dirs(), path) {
            Some(rel) => decode_folder_dirs(rel),
            None => None,
        }
    }

    /// The identity of the package folder that the file at `specifier`
    /// lies in; `None` for a path outside the registry's directory or not
    /// inside a package folder.
    pub fn maybe_resolve_package_folder_id_from_specifier(&self, specifier: &Vec<String>, registry_url: &RegistryUrl) -> (r: Option<NpmPackageCacheFolderId>)
        ensures
            match r {
                Some(id) => self.decode_path(texts(specifier@), registry_url) == Some(id@),
                None => self.decode_path(texts(specifier@), registry_url) is None,
            },
    {
        let base = self.registry_folder(registry_url);
        match strip_prefix_path(&base, specifier) {
            Some(rel) => decode_folder_path(&rel),
            None => None,
        }
    }

    /// As `maybe_resolve_package_folder_id_from_specifier`, with an error
    /// naming the path where no package folder holds it.
    pub fn resolve_package_folder_id_from_specifier(&self, specifier: &Vec<String>, registry_url: &RegistryUrl) -> (r: Result<NpmPackageCacheFolderId, NpmCacheError>)
        ensures
            match r {
                Ok(id) => self.decode_path(texts(specifier@), registry_url) == Some(id@),
                Err(e) => self.decode_path(texts(specifier@), registry_url) is None
                    && e is PackageNotFoundForPath && texts(e->path@) == texts(specifier@),
            },
    {
        match self.maybe_resolve_package_folder_id_from_specifier(specifier, registry_url) {
            Some(id) => Ok(id),
            None => Err(NpmCacheError::PackageNotFoundForPath { path: clone_path(specifier) }),
        }
    }
}

} // verus!
