//! Where the plugin state lives under the application data directory, and
//! the content-bound deployment lock of a release.
//!
//! A path is the sequence of its components, the application data directory
//! first.
use vstd::prelude::*;
use sha2::Digest;
use crate::plugins::{strings_view, ReleaseIdentity, PluginDeploymentLock};
use crate::plugins::error::PluginError;
use crate::text::{chars_of, push_char, string_from_chars};

verus! {

/// `base` extended by the component `name`.
pub open spec fn joined(base: Seq<String>, name: Seq<char>) -> Seq<Seq<char>> {
    strings_view(base).push(name)
}

/// `base` extended by the component `name`.
fn join(base: &Vec<String>, name: &str) -> (res: Vec<String>)
    ensures
        strings_view(res@) == joined(base@, name@),
{
    let mut out = crate::plugins::copy_strings(base);
    let ghost before = out@;
    let last = name.to_owned();
    out.push(last);
    assert(out@ == before.push(last));
    assert(strings_view(out@) =~= strings_view(before).push(name@));
    out
}

/// The root of all plugin state: `<app data>/n-plugin`.
pub fn plugin_root(app_data: &Vec<String>) -> (res: Vec<String>)
    ensures
        strings_view(res@) == joined(app_data@, "n-plugin"@),
{
    join(app_data, "n-plugin")
}

/// The offline cache of resolved dependency Components:
/// `<app data>/n-plugin/oci/cache`.
pub fn oci_cache_path(app_data: &Vec<String>) -> (res: Vec<String>)
    ensures
        strings_view(res@) == joined(app_data@, "n-plugin"@).push("oci"@).push("cache"@),
{
    let root = plugin_root(app_data);
    let oci = join(&root, "oci");
    join(&oci, "cache")
}

/// The committed product index: `<app data>/n-plugin/installed.json`.
pub fn index_path(app_data: &Vec<String>) -> (res: Vec<String>)
    ensures
        strings_view(res@) == joined(app_data@, "n-plugin"@).push("installed.json"@),
{
    join(&plugin_root(app_data), "installed.json")
}

/// The staged product index of a pending activation:
/// `<app data>/n-plugin/installed.pending.json`.
pub fn staged_index_path(app_data: &Vec<String>) -> (res: Vec<String>)
    ensures
        strings_view(res@) == joined(app_data@, "n-plugin"@).push("installed.pending.json"@),
{
    join(&plugin_root(app_data), "installed.pending.json")
}

/// The journal of a pending activation:
/// `<app data>/n-plugin/pending-activation.json`.
pub fn pending_activation_path(app_data: &Vec<String>) -> (res: Vec<String>)
    ensures
        strings_view(res@) == joined(app_data@, "n-plugin"@).push("pending-activation.json"@),
{
    join(&plugin_root(app_data), "pending-activation.json")
}

/// The activation registry database: `<app data>/n-plugin/registry.sqlite3`.
pub fn registry_database_path(app_data: &Vec<String>) -> (res: Vec<String>)
    ensures
        strings_view(res@) == joined(app_data@, "n-plugin"@).push("registry.sqlite3"@),
{
    join(&plugin_root(app_data), "registry.sqlite3")
}

/// The content-addressed store of the registry: `<app data>/n-plugin/cas`.
pub fn cas_path(app_data: &Vec<String>) -> (res: Vec<String>)
    ensures
        strings_view(res@) == joined(app_data@, "n-plugin"@).push("cas"@),
{
    join(&plugin_root(app_data), "cas")
}

/// The Gmail WKG lock shipped with this release:
/// `<app data>/n-plugin/wkg.lock`.
pub fn wkg_lock_path(app_data: &Vec<String>) -> (res: Vec<String>)
    ensures
        strings_view(res@) == joined(app_data@, "n-plugin"@).push("wkg.lock"@),
{
    join(&plugin_root(app_data), "wkg.lock")
}

/// The file name of the staged index, which a pending journal must name.
pub fn staged_index_file_name() -> (res: String)
    ensures
        res@ == "installed.pending.json"@,
{
    "installed.pending.json".to_owned()
}

/// The `sha256:` prefix of a release digest.
pub open spec fn sha256_prefix() -> Seq<char> {
    seq!['s', 'h', 'a', '2', '5', '6', ':']
}

/// A lower-case hexadecimal digit.
pub open spec fn is_lower_hex(c: char) -> bool {
    ('0' <= c && c <= '9') || ('a' <= c && c <= 'f')
}

/// `digest` is `sha256:` followed by 64 lower-case hexadecimal characters.
pub open spec fn valid_release_digest(digest: Seq<char>) -> bool {
    &&& digest.len() >= 7
    &&& digest.take(7) == sha256_prefix()
    &&& digest.len() == 71
    &&& forall|i: int| 7 <= i < 71 ==> is_lower_hex(#[trigger] digest[i])
}

/// The lock file of a release, relative to the plugin root:
/// `locks/<hex digest>.n-plugin.lock`.
pub open spec fn lock_relative_path(digest: Seq<char>) -> Seq<char> {
    "locks/"@ + digest.skip(7) + ".n-plugin.lock"@
}

/// Why a digest is not a valid release digest.
pub open spec fn digest_error(digest: Seq<char>) -> PluginError {
    if digest.len() >= 7 && digest.take(7) == sha256_prefix() {
        PluginError::DigestNotLowerHex
    } else {
        PluginError::DigestNotSha256
    }
}

/// The lock file of `release`, relative to the plugin root; the digest
/// must be `sha256:` with 64 lower-case hexadecimal characters.
pub fn deployment_lock_relative(release: &ReleaseIdentity) -> (res: Result<String, PluginError>)
    ensures
        res is Ok <==> valid_release_digest(release.digest@),
        res matches Ok(p) ==> p@ == lock_relative_path(release.digest@),
        res matches Err(e) ==> e == digest_error(release.digest@),
{
    let d = chars_of(release.digest.as_str());
    let prefix = chars_of("sha256:");
    proof {
        reveal_strlit("sha256:");
        assert(prefix@ =~= sha256_prefix());
    }
    if d.len() < 7 {
        return Err(PluginError::DigestNotSha256);
    }
    let mut i: usize = 0;
    while i < 7
        invariant
            i <= 7 <= d.len(),
            d@ == release.digest@,
            prefix@ == sha256_prefix(),
            forall|j: int| 0 <= j < i ==> d@[j] == prefix@[j],
        decreases 7 - i,
    {
        if d[i] != prefix[i] {
            assert(d@.take(7)[i as int] != sha256_prefix()[i as int]);
            return Err(PluginError::DigestNotSha256);
        }
        i = i + 1;
    }
    assert(d@.take(7) =~= sha256_prefix());
    if d.len() != 71 {
        return Err(PluginError::DigestNotLowerHex);
    }
    let mut k: usize = 7;
    while k < 71
        invariant
            7 <= k <= 71,
            d.len() == 71,
            d@ == release.digest@,
            d@.take(7) == sha256_prefix(),
            forall|j: int| 7 <= j < k ==> is_lower_hex(#[trigger] d@[j]),
        decreases 71 - k,
    {
        let c = d[k];
        if !(('0' <= c && c <= '9') || ('a' <= c && c <= 'f')) {
            assert(!is_lower_hex(d@[k as int]));
            return Err(PluginError::DigestNotLowerHex);
        }
        k = k + 1;
    }
    let mut path = "locks/".to_owned();
    let hex = string_from_chars(&d, 7, 71);
    path.append(hex.as_str());
    path.append(".n-plugin.lock");
    assert(d@.subrange(7, 71) =~= d@.skip(7));
    assert(path@ =~= lock_relative_path(release.digest@));
    Ok(path)
}

/// Every digest made of `sha256:` and 64 characters from `0`-`9` and
/// `a`-`f` is a valid release digest, and its lock file is named by exactly
/// those 64 characters; a valid digest is always of that form.
pub proof fn lower_hex_digests_are_valid(hex: Seq<char>)
    ensures
        (hex.len() == 64 && forall|i: int|
            0 <= i < 64 ==> ('0' <= #[trigger] hex[i] <= '9' || 'a' <= hex[i] <= 'f'))
            <==> valid_release_digest(sha256_prefix() + hex),
        lock_relative_path(sha256_prefix() + hex) == "locks/"@ + hex + ".n-plugin.lock"@,
{
    let d = sha256_prefix() + hex;
    assert(d.take(7) =~= sha256_prefix());
    assert(d.skip(7) =~= hex);
    if hex.len() == 64 && forall|i: int|
        0 <= i < 64 ==> ('0' <= #[trigger] hex[i] <= '9' || 'a' <= hex[i] <= 'f') {
        assert forall|i: int| 7 <= i < 71 implies is_lower_hex(#[trigger] d[i]) by {
            assert(d[i] == hex[i - 7]);
        }
    }
    if valid_release_digest(d) {
        assert forall|i: int| 0 <= i < 64 implies ('0' <= #[trigger] hex[i] <= '9' || 'a' <= hex[i]
            <= 'f') by {
            assert(d[i + 7] == hex[i]);
            assert(is_lower_hex(d[i + 7]));
        }
    }
}

/// The lock file of `release` under the plugin root.
pub fn deployment_lock_path(app_data: &Vec<String>, release: &ReleaseIdentity) -> (res: Result<
    Vec<String>,
    PluginError,
>)
    ensures
        res is Ok <==> valid_release_digest(release.digest@),
        res matches Ok(p) ==> strings_view(p@) == joined(app_data@, "n-plugin"@).push(
            lock_relative_path(release.digest@),
        ),
        res matches Err(e) ==> e == digest_error(release.digest@),
{
    let relative = deployment_lock_relative(release)?;
    Ok(join(&plugin_root(app_data), relative.as_str()))
}

/// The SHA-256 digest of `data`.
pub uninterp spec fn sha256(data: Seq<u8>) -> Seq<u8>;

/// SHA-256 of `data` through `sha2::Sha256::digest`; its output is a
/// 32-byte array.
#[verifier::external_body]
fn sha256_digest(data: &[u8]) -> (res: Vec<u8>)
    ensures
        res@ == sha256(data@),
        res@.len() == 32,
{
    sha2::Sha256::digest(data).to_vec()
}

/// The lower-case hexadecimal digit of `n < 16`.
pub open spec fn hex_lower(n: int) -> char {
    if n < 10 {
        (48 + n) as char
    } else {
        (87 + n) as char
    }
}

/// Two lower-case hexadecimal digits per byte, as `{:x}` prints a digest.
pub open spec fn lower_hex(b: Seq<u8>) -> Seq<char>
    decreases b.len(),
{
    if b.len() == 0 {
        Seq::<char>::empty()
    } else {
        lower_hex(b.drop_last()) + seq![
            hex_lower(b.last() as int / 16),
            hex_lower(b.last() as int % 16),
        ]
    }
}

/// The lower-case hexadecimal digit of `n < 16`.
fn lower_digit(n: u8) -> (c: char)
    requires
        n < 16,
    ensures
        c == hex_lower(n as int),
{
    if n < 10 {
        (n + 48) as char
    } else {
        (n + 87) as char
    }
}

/// The deployment lock record of `release`, whose lock file holds
/// `source`: its relative path and `sha256:` with the lower-case
/// hexadecimal SHA-256 of the file.
pub fn deployment_lock_metadata(release: &ReleaseIdentity, source: &[u8]) -> (res: Result<
    PluginDeploymentLock,
    PluginError,
>)
    ensures
        res is Ok <==> valid_release_digest(release.digest@),
        res matches Ok(lock) ==> lock.relative_path@ == lock_relative_path(release.digest@)
            && lock.digest@ == "sha256:"@ + lower_hex(sha256(source@)),
        res matches Err(e) ==> e == digest_error(release.digest@),
{
    let relative_path = deployment_lock_relative(release)?;
    let hash = sha256_digest(source);
    let mut digest = "sha256:".to_owned();
    let ghost start = digest@;
    assert(hash@.take(0) =~= Seq::<u8>::empty());
    assert(start + lower_hex(hash@.take(0)) =~= start);
    for i in 0..hash.len()
        invariant
            digest@ == start + lower_hex(hash@.take(i as int)),
    {
        let b = hash[i];
        assert(hash@.take(i + 1).drop_last() =~= hash@.take(i as int));
        push_char(&mut digest, lower_digit(b / 16));
        push_char(&mut digest, lower_digit(b % 16));
        assert(digest@ =~= start + lower_hex(hash@.take(i + 1)));
    }
    assert(hash@.take(hash@.len() as int) =~= hash@);
    Ok(PluginDeploymentLock { relative_path, digest })
}

} // verus!
