//! The mapping between a package folder identity and the folder's path below
//! a registry directory, and back.

use vstd::prelude::*;
use vstd::utf8::{decode_utf8, encode_utf8, is_ascii_chars, valid_utf8};

use crate::text::{
    texts, push_clones,
    lemma_join_split, lemma_split_first, lemma_split_nonempty, lemma_free_last_index,
    lemma_last_index_after, lemma_u8_decimal_round_trip, lemma_decimal_digits,
    free_of, is_digit, decimal_of, join_text, join_with, last_index_of, last_index_of_char, parse_u8_text,
    push_char, push_decimal, split_on, split_text, u8_of_text, append_text,
};

verus! {

/// A published release: package name and version text.
pub struct NpmPackageNv {
    pub name: String,
    pub version: String,
}

/// A folder of a release in the cache; `copy_index` 0 is the extracted
/// original, higher indexes are linked copies of it.
pub struct NpmPackageCacheFolderId {
    pub nv: NpmPackageNv,
    pub copy_index: u8,
}

impl View for NpmPackageNv {
    type V = (Seq<char>, Seq<char>);

    open spec fn view(&self) -> (Seq<char>, Seq<char>) {
        (self.name@, self.version@)
    }
}

impl View for NpmPackageCacheFolderId {
    type V = (Seq<char>, Seq<char>, u8);

    open spec fn view(&self) -> (Seq<char>, Seq<char>, u8) {
        (self.nv.name@, self.nv.version@, self.copy_index)
    }
}

impl NpmPackageNv {
    pub fn clone_nv(&self) -> (r: NpmPackageNv)
        ensures
            r@ == self@,
    {
        NpmPackageNv { name: self.name.clone(), version: self.version.clone() }
    }
}

/// What `base32::encode` with the unpadded RFC 4648 alphabet gives for some bytes.
pub uninterp spec fn base32_of(b: Seq<u8>) -> Seq<char>;

/// What `base32::decode` with the RFC 4648 alphabet gives for some text.
pub uninterp spec fn base32_decoded(s: Seq<char>) -> Option<Seq<u8>>;

/// What `str::to_lowercase` gives for some text.
pub uninterp spec fn lower_of(s: Seq<char>) -> Seq<char>;

/// The text of the version that `deno_semver::Version::parse_from_npm`
/// reads from some text, or `None` where it refuses the text.
pub uninterp spec fn npm_version_text_of(s: Seq<char>) -> Option<Seq<char>>;

pub open spec fn ascii_lower_char(c: char) -> char {
    if 'A' <= c <= 'Z' {
        ((c as u32) + 32) as char
    } else {
        c
    }
}

pub open spec fn ascii_lower(s: Seq<char>) -> Seq<char> {
    s.map_values(|c: char| ascii_lower_char(c))
}

pub open spec fn is_base32_char(c: char) -> bool {
    ('A' <= c <= 'Z') || ('2' <= c <= '7')
}

/// Relies on `base32::encode` (RFC 4648 alphabet, no padding): every output
/// character is from the alphabet, and `base32::decode`, which reads letters
/// in either case, gives the bytes back from the lower-cased output.
#[verifier::external_body]
fn base32_encode(b: &[u8]) -> (r: String)
    ensures
        r@ == base32_of(b@),
        forall|i: int| 0 <= i < r@.len() ==> is_base32_char(#[trigger] r@[i]),
        base32_decoded(ascii_lower(r@)) == Some(b@),
{
    base32::encode(base32::Alphabet::RFC4648 { padding: false }, b)
}

/// Relies on `base32::decode` with the RFC 4648 alphabet.
#[verifier::external_body]
fn base32_decode(s: &str) -> (r: Option<Vec<u8>>)
    ensures
        match r {
            Some(v) => base32_decoded(s@) == Some(v@),
            None => base32_decoded(s@) is None,
        },
{
    base32::decode(base32::Alphabet::RFC4648 { padding: false }, s)
}

/// Relies on `str::to_lowercase`, which on ASCII text lower-cases the
/// letters A to Z and keeps every other character.
#[verifier::external_body]
fn to_lowercase(s: &str) -> (r: String)
    ensures
        r@ == lower_of(s@),
        is_ascii_chars(s@) ==> r@ == ascii_lower(s@),
{
    s.to_lowercase()
}

/// Relies on `String::from_utf8`: succeeds exactly on valid UTF-8.
#[verifier::external_body]
fn text_from_utf8(b: Vec<u8>) -> (r: Option<String>)
    ensures
        match r {
            Some(s) => valid_utf8(b@) && s@ == decode_utf8(b@),
            None => !valid_utf8(b@),
        },
{
    String::from_utf8(b).ok()
}

/// Relies on `deno_semver::Version::parse_from_npm`, and on the version's
/// `Display` to hand the parsed version back as text.
#[verifier::external_body]
fn parse_npm_version(s: &str) -> (r: Option<String>)
    ensures
        match r {
            Some(t) => npm_version_text_of(s@) == Some(t@),
            None => npm_version_text_of(s@) is None,
        },
{
    match deno_semver::Version::parse_from_npm(s) {
        Ok(v) => Some(v.to_string()),
        Err(_) => None,
    }
}

/// A name with an upper-case letter is stored under an encoded directory.
pub open spec fn is_mixed_case(name: Seq<char>) -> bool {
    lower_of(name) != name
}

/// The single directory of a mixed-case name: `_` and the lower-cased
/// base-32 text of the name's UTF-8 bytes.
pub open spec fn encoded_name_dir(name: Seq<char>) -> Seq<char> {
    seq!['_'] + lower_of(base32_of(encode_utf8(name)))
}

/// The directories of a name: its `/`-separated parts, or one encoded directory.
pub open spec fn name_dirs(name: Seq<char>) -> Seq<Seq<char>> {
    if is_mixed_case(name) {
        seq![encoded_name_dir(name)]
    } else {
        split_on(name, '/')
    }
}

/// The version directory: the version, with `_<index>` for a copy.
pub open spec fn version_dir(version: Seq<char>, copy_index: u8) -> Seq<char> {
    if copy_index == 0 {
        version
    } else {
        version.push('_') + decimal_of(copy_index as nat)
    }
}

/// The path of a package folder below its registry directory.
pub open spec fn folder_dirs(name: Seq<char>, version: Seq<char>, copy_index: u8) -> Seq<Seq<char>> {
    name_dirs(name).push(version_dir(version, copy_index))
}

/// The text that an encoded name decodes to, if any.
pub open spec fn mixed_case_decoded(s: Seq<char>) -> Option<Seq<char>> {
    match base32_decoded(s) {
        Some(b) => if valid_utf8(b) {
            Some(decode_utf8(b))
        } else {
            None
        },
        None => None,
    }
}

/// The parts of a relative path once a leading encoded name directory is
/// decoded and split into its parts; `None` where that directory does not decode.
pub open spec fn expand_name_dir(rel: Seq<Seq<char>>) -> Option<Seq<Seq<char>>> {
    if rel.len() > 0 && rel[0].len() > 0 && rel[0][0] == '_' {
        match mixed_case_decoded(rel[0].drop_first()) {
            Some(n) => Some(split_on(n, '/') + rel.drop_first()),
            None => None,
        }
    } else {
        Some(rel)
    }
}

/// A version directory split at its last `_` into version text and copy index.
pub open spec fn split_version_dir(v: Seq<char>) -> Option<(Seq<char>, u8)> {
    let i = last_index_of(v, '_');
    if i < 0 {
        Some((v, 0u8))
    } else {
        match u8_of_text(v.subrange(i + 1, v.len() as int)) {
            Some(n) => Some((v.subrange(0, i), n)),
            None => None,
        }
    }
}

pub open spec fn starts_with_char(s: Seq<char>, c: char) -> bool {
    s.len() > 0 && s[0] == c
}

/// The identity (name, version, copy index) of the folder that a path below
/// a registry directory lies in, where there is one.
pub open spec fn decode_folder_dirs(rel: Seq<Seq<char>>) -> Option<(Seq<char>, Seq<char>, u8)> {
    match expand_name_dir(rel) {
        None => None,
        Some(parts) => {
            let k: int = if parts.len() > 0 && starts_with_char(parts[0], '@') { 3 } else { 2 };
            let taken = if parts.len() < k { parts } else { parts.take(k) };
            if taken.len() < 2 {
                None
            } else {
                match split_version_dir(taken.last()) {
                    None => None,
                    Some(vi) => match npm_version_text_of(vi.0) {
                        None => None,
                        Some(v) => Some((join_with(taken.drop_last(), '/'), v, vi.1)),
                    },
                }
            }
        },
    }
}

/// A package name of the shapes npm allows: `name` or `@scope/name`, not
/// starting with `_`.
pub open spec fn valid_package_name(n: Seq<char>) -> bool {
    &&& n.len() > 0
    &&& n[0] != '_'
    &&& n[0] != '/'
    &&& if n[0] == '@' {
        split_on(n, '/').len() == 2
    } else {
        split_on(n, '/').len() == 1
    }
}

/// Version text as the npm version parser prints it (so without `_`).
pub open spec fn valid_version_text(v: Seq<char>) -> bool {
    &&& npm_version_text_of(v) == Some(v)
    &&& crate::text::free_of(v, '_')
}


/// The lower-cased, unpadded base-32 text of a name's UTF-8 bytes.
pub fn mixed_case_package_name_encode(name: &str) -> (r: String)
    ensures
        r@ == lower_of(base32_of(encode_utf8(name@))),
        base32_decoded(r@) == Some(encode_utf8(name@)),
{
    let encoded = base32_encode(name.as_bytes());
    proof {
        assert(is_ascii_chars(encoded@)) by {
            assert forall|i: int| 0 <= i < encoded@.len() implies '\0' <= #[trigger] encoded@[i] <= '\u{7f}' by {
                assert(is_base32_char(encoded@[i]));
            }
        }
    }
    to_lowercase(encoded.as_str())
}

/// The name whose encoding `name` is, where it decodes to UTF-8 text.
pub fn mixed_case_package_name_decode(name: &str) -> (r: Option<String>)
    ensures
        match r {
            Some(t) => mixed_case_decoded(name@) == Some(t@),
            None => mixed_case_decoded(name@) is None,
        },
{
    match base32_decode(name) {
        Some(b) => text_from_utf8(b),
        None => None,
    }
}

/// The encoded directory of a mixed-case name; the name comes back from it.
fn encode_mixed_case_name(name: &str) -> (r: String)
    ensures
        r@ == encoded_name_dir(name@),
        base32_decoded(r@.drop_first()) == Some(encode_utf8(name@)),
{
    let lower = mixed_case_package_name_encode(name);
    let mut r = String::new();
    push_char(&mut r, '_');
    append_text(&mut r, lower.as_str());
    proof {
        assert(r@ =~= seq!['_'] + lower@);
        assert(r@.drop_first() =~= lower@);
    }
    r
}

/// The directories of a package name below the registry directory.
pub fn package_name_dirs(name: &str) -> (r: Vec<String>)
    ensures
        texts(r@) == name_dirs(name@),
        is_mixed_case(name@) ==> base32_decoded(texts(r@)[0].drop_first()) == Some(encode_utf8(name@)),
{
    let lower = to_lowercase(name);
    let owned = name.to_owned();
    if lower != owned {
        let mut r: Vec<String> = Vec::new();
        r.push(encode_mixed_case_name(name));
        assert(texts(r@) =~= seq![r@[0]@]);
        r
    } else {
        split_text(name, '/')
    }
}

/// The version directory of a folder.
pub fn version_dir_text(version: &str, copy_index: u8) -> (r: String)
    ensures
        r@ == version_dir(version@, copy_index),
{
    let mut r = String::new();
    append_text(&mut r, version);
    if copy_index != 0 {
        push_char(&mut r, '_');
        push_decimal(&mut r, copy_index as u64);
    }
    assert(Seq::<char>::empty() + version@ =~= version@);
    r
}

/// The path of a package folder below its registry directory.
///
/// For a valid name and version, decoding the path (with anything after it)
/// gives the identity back.
pub fn encode_folder_dirs(id: &NpmPackageCacheFolderId) -> (r: Vec<String>)
    ensures
        texts(r@) == folder_dirs(id.nv.name@, id.nv.version@, id.copy_index),
        valid_package_name(id.nv.name@) && valid_version_text(id.nv.version@) ==> forall|rest: Seq<Seq<char>>|
            decode_folder_dirs(#[trigger] (texts(r@) + rest)) == Some(id@),
{
    let mut r = package_name_dirs(id.nv.name.as_str());
    let ghost before = r@;
    r.push(version_dir_text(id.nv.version.as_str(), id.copy_index));
    assert(texts(r@) =~= texts(before).push(r@.last()@));
    proof {
        if valid_package_name(id.nv.name@) && valid_version_text(id.nv.version@) {
            assert forall|rest: Seq<Seq<char>>| decode_folder_dirs(#[trigger] (texts(r@) + rest)) == Some(id@) by {
                lemma_decode_folder_dirs(id.nv.name@, id.nv.version@, id.copy_index, rest);
            }
        }
    }
    r
}


fn starts_with_underscore(s: &String) -> (r: bool)
    ensures
        r == starts_with_char(s@, '_'),
{
    let t = s.as_str();
    t.unicode_len() > 0 && t.get_char(0) == '_'
}

fn starts_with_at(s: &String) -> (r: bool)
    ensures
        r == starts_with_char(s@, '@'),
{
    let t = s.as_str();
    t.unicode_len() > 0 && t.get_char(0) == '@'
}

fn expand_name_dir_exec(rel: &Vec<String>) -> (r: Option<Vec<String>>)
    ensures
        match r {
            Some(p) => expand_name_dir(texts(rel@)) == Some(texts(p@)),
            None => expand_name_dir(texts(rel@)) is None,
        },
{
    let mut parts: Vec<String> = Vec::new();
    if rel.len() > 0 && starts_with_underscore(&rel[0]) {
        let first = rel[0].as_str();
        let n = first.unicode_len();
        let payload = first.substring_char(1, n);
        assert(payload@ =~= texts(rel@)[0].drop_first());
        let name = match mixed_case_package_name_decode(payload) {
            Some(t) => t,
            None => return None,
        };
        parts = split_text(name.as_str(), '/');
        push_clones(&mut parts, rel, 1, rel.len());
        assert(texts(rel@).subrange(1, rel@.len() as int) =~= texts(rel@).drop_first());
    } else {
        push_clones(&mut parts, rel, 0, rel.len());
        assert(texts(rel@).subrange(0, rel@.len() as int) =~= texts(rel@));
        assert(texts(parts@) =~= texts(rel@));
    }
    Some(parts)
}

/// The copy index and version text of a version directory.
fn split_version_dir_exec(v: &str) -> (r: Option<(String, u8)>)
    ensures
        match r {
            Some(p) => split_version_dir(v@) == Some((p.0@, p.1)),
            None => split_version_dir(v@) is None,
        },
{
    match last_index_of_char(v, '_') {
        None => Some((v.to_owned(), 0)),
        Some(i) => {
            let n = v.unicode_len();
            match parse_u8_text(v.substring_char(i + 1, n)) {
                Some(idx) => Some((v.substring_char(0, i).to_owned(), idx)),
                None => None,
            }
        },
    }
}

/// The identity of the package folder that a path below a registry
/// directory lies in: `None` for paths that are not in a package folder.
pub fn decode_folder_path(rel: &Vec<String>) -> (r: Option<NpmPackageCacheFolderId>)
    ensures
        match r {
            Some(id) => decode_folder_dirs(texts(rel@)) == Some(id@),
            None => decode_folder_dirs(texts(rel@)) is None,
        },
{
    let parts = match expand_name_dir_exec(rel) {
        Some(p) => p,
        None => return None,
    };
    let k: usize = if parts.len() > 0 && starts_with_at(&parts[0]) { 3 } else { 2 };
    let m: usize = if parts.len() < k { parts.len() } else { k };
    let ghost ps = texts(parts@);
    let ghost taken = if ps.len() < k { ps } else { ps.take(k as int) };
    assert(taken =~= ps.subrange(0, m as int));
    if m < 2 {
        return None;
    }
    let (version_text, copy_index) = match split_version_dir_exec(parts[m - 1].as_str()) {
        Some(p) => p,
        None => return None,
    };
    let version = match parse_npm_version(version_text.as_str()) {
        Some(v) => v,
        None => return None,
    };
    let mut name_parts: Vec<String> = Vec::new();
    push_clones(&mut name_parts, &parts, 0, m - 1);
    assert(texts(name_parts@) =~= taken.drop_last());
    let name = join_text(&name_parts, '/');
    Some(NpmPackageCacheFolderId { nv: NpmPackageNv { name, version }, copy_index })
}


/// Decoding the path of a folder gives back its identity, whatever follows
/// the folder in the path. For a mixed-case name it rests on the encoded
/// directory decoding back to the name's bytes.
proof fn lemma_decode_folder_dirs(name: Seq<char>, version: Seq<char>, copy_index: u8, rest: Seq<Seq<char>>)
    requires
        valid_package_name(name),
        valid_version_text(version),
        is_mixed_case(name) ==> base32_decoded(encoded_name_dir(name).drop_first()) == Some(encode_utf8(name)),
    ensures
        decode_folder_dirs(folder_dirs(name, version, copy_index) + rest) == Some((name, version, copy_index)),
{
    broadcast use vstd::utf8::encode_utf8_valid_utf8, vstd::utf8::encode_utf8_decode_utf8;
    let vd = version_dir(version, copy_index);
    let rel = folder_dirs(name, version, copy_index) + rest;
    let sp = split_on(name, '/');
    lemma_split_nonempty(name, '/');
    lemma_split_first(name, '/');
    let parts = sp.push(vd) + rest;
    if is_mixed_case(name) {
        assert(rel[0] == encoded_name_dir(name));
        assert(rel.drop_first() =~= seq![vd] + rest);
        assert(parts =~= sp + rel.drop_first());
    } else {
        assert(rel =~= parts);
        assert(rel[0] == sp[0]);
    }
    assert(expand_name_dir(rel) == Some(parts));
    assert(parts[0] == sp[0]);
    let k: int = if parts.len() > 0 && starts_with_char(parts[0], '@') { 3 } else { 2 };
    assert(k == sp.len() + 1);
    let taken = if parts.len() < k { parts } else { parts.take(k) };
    assert(taken =~= sp.push(vd));
    assert(taken.drop_last() =~= sp);
    lemma_join_split(name, '/');
    if copy_index == 0 {
        lemma_free_last_index(version, '_');
        assert(split_version_dir(vd) == Some((version, 0u8)));
    } else {
        let d = decimal_of(copy_index as nat);
        lemma_decimal_digits(copy_index as nat);
        assert(free_of(d, '_')) by {
            assert forall|i: int| 0 <= i < d.len() implies #[trigger] d[i] != '_' by {
                assert(is_digit(d[i]));
            }
        }
        lemma_last_index_after(version, '_', d);
        lemma_u8_decimal_round_trip(copy_index);
        assert(vd.subrange(version.len() as int + 1, vd.len() as int) =~= d);
        assert(vd.subrange(0, version.len() as int) =~= version);
        assert(split_version_dir(vd) == Some((version, copy_index)));
    }
}

} // verus!
