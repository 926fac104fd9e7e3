//! Release-asset preflight: the command line of `cargo xtask release-assets`
//! and the version check against `app/package.json`.
//!
//! The command never changes the repository: it only checks that the
//! requested version is a plain `X.Y.Z` release and that the manifest already
//! carries it.
use vstd::prelude::*;
use crate::text::{join_pieces, lemma_split_on_append, lemma_split_on_pieces, lemma_split_on_single, occurs_at, chars_of, find, find_char, find_char_from, find_sub, lemma_find_char_first,
    split_chars, split_on, views_of, str_eq};

verus! {

/// The manifest that holds the application's single source of version truth.
pub const MANIFEST_PATH: &'static str = "app/package.json";

/// An ASCII decimal digit.
pub open spec fn is_ascii_digit(c: char) -> bool {
    '0' <= c && c <= '9'
}

/// Every character of `s` is an ASCII decimal digit.
pub open spec fn all_digits(s: Seq<char>) -> bool {
    forall|i: int| 0 <= i < s.len() ==> is_ascii_digit(#[trigger] s[i])
}

/// `v` is a release version `X.Y.Z`: exactly three dot-separated parts, each
/// a non-empty run of ASCII digits.
pub open spec fn semver(v: Seq<char>) -> bool {
    let parts = split_on(v, '.');
    &&& parts.len() == 3
    &&& forall|i: int| 0 <= i < 3 ==> (#[trigger] parts[i]).len() > 0 && all_digits(parts[i])
}

/// The text that introduces the version value in `package.json`.
pub open spec fn version_marker() -> Seq<char> {
    seq!['"', 'v', 'e', 'r', 's', 'i', 'o', 'n', '"', ':', ' ', '"']
}

/// The version string that `manifest` declares: the text after the first
/// `"version": "` up to the next `"`, or the message for what is missing.
pub open spec fn manifest_version_of(manifest: Seq<char>) -> Result<Seq<char>, Seq<char>> {
    match find(manifest, version_marker()) {
        None => Err("app/package.json has no version field"@),
        Some(i) => {
            let rest = manifest.skip(i + version_marker().len());
            match find_char(rest, '"') {
                None => Err("app/package.json version is unterminated"@),
                Some(j) => Ok(rest.take(j)),
            }
        },
    }
}

/// The outcome of checking that `manifest` declares exactly `version`.
pub open spec fn manifest_check(manifest: Seq<char>, version: Seq<char>) -> Result<(), Seq<char>> {
    match manifest_version_of(manifest) {
        Err(e) => Err(e),
        Ok(current) => if current == version {
            Ok(())
        } else {
            Err("app/package.json has version "@ + current
                + "; check out the merged release tag v"@ + version + " first"@)
        },
    }
}

/// The usage line of the release command.
pub open spec fn usage_text() -> Seq<char> {
    "usage: cargo xtask release-assets <X.Y.Z>"@
}

/// The refusal of a version that is not `X.Y.Z`, or of extra arguments.
pub open spec fn version_format_text() -> Seq<char> {
    "version must be X.Y.Z, for example: cargo xtask release-assets 0.30.8"@
}

/// What the command line (without the program name) asks for: the version
/// of `release-assets X.Y.Z`, or the message that refuses it.
pub open spec fn release_request(args: Seq<Seq<char>>) -> Result<Seq<char>, Seq<char>> {
    if args.len() == 0 || args[0] != "release-assets"@ || args.len() == 1 {
        Err(usage_text())
    } else if args.len() > 2 || !semver(args[1]) {
        Err(version_format_text())
    } else {
        Ok(args[1])
    }
}

/// Whether every character of `part` is an ASCII digit.
fn digits_only(part: &Vec<char>) -> (res: bool)
    ensures
        res == all_digits(part@),
{
    let mut i: usize = 0;
    while i < part.len()
        invariant
            i <= part.len(),
            forall|j: int| 0 <= j < i ==> is_ascii_digit(#[trigger] part@[j]),
        decreases part.len() - i,
    {
        let c = part[i];
        if !('0' <= c && c <= '9') {
            assert(!is_ascii_digit(part@[i as int]));
            return false;
        }
        i = i + 1;
    }
    true
}

/// Accepts release versions `X.Y.Z` only.
pub fn is_semver(version: &str) -> (res: bool)
    ensures
        res == semver(version@),
{
    let chars = chars_of(version);
    let parts = split_chars(&chars, '.');
    proof {
        assert(views_of(parts@).len() == parts@.len());
    }
    if parts.len() != 3 {
        return false;
    }
    let mut i: usize = 0;
    while i < 3
        invariant
            i <= 3,
            parts.len() == 3,
            views_of(parts@) == split_on(version@, '.'),
            forall|k: int| 0 <= k < i ==> (#[trigger] split_on(version@, '.')[k]).len() > 0
                && all_digits(split_on(version@, '.')[k]),
        decreases 3 - i,
    {
        assert(views_of(parts@)[i as int] == parts@[i as int]@);
        if parts[i].len() == 0 || !digits_only(&parts[i]) {
            return false;
        }
        i = i + 1;
    }
    true
}

/// The version string declared by a `package.json` text.
pub fn manifest_version(manifest: &str) -> (res: Result<&str, String>)
    ensures
        match res {
            Ok(v) => manifest_version_of(manifest@) == Ok::<Seq<char>, Seq<char>>(v@),
            Err(e) => manifest_version_of(manifest@) == Err::<Seq<char>, Seq<char>>(e@),
        },
{
    let chars = chars_of(manifest);
    let marker = chars_of("\"version\": \"");
    proof {
        reveal_strlit("\"version\": \"");
        assert(marker@ =~= version_marker());
    }
    match find_sub(&chars, &marker) {
        None => Err("app/package.json has no version field".to_owned()),
        Some(i) => {
            assert(occurs_at(chars@, marker@, i as int));
            assert(i + marker@.len() <= chars@.len());
            assert(chars@.len() == chars.len());
            let start = i + marker.len();
            let ghost rest = manifest@.skip(start as int);
            match find_char_from(&chars, '"', start) {
                None => {
                    assert forall|j: int| 0 <= j < rest.len() implies rest[j] != '"' by {
                        assert(rest[j] == chars@[j + start]);
                    }
                    Err("app/package.json version is unterminated".to_owned())
                },
                Some(end) => {
                    proof {
                        lemma_find_char_first(rest, '"', end - start);
                        assert(rest.take(end - start) =~= manifest@.subrange(start as int, end as int));
                    }
                    Ok(manifest.substring_char(start, end))
                },
            }
        },
    }
}

/// Checks that `manifest` (the text of `app/package.json`) already declares
/// `version`; versions are bumped only by the release pull request.
pub fn require_manifest_version(manifest: &str, version: &str) -> (res: Result<(), String>)
    ensures
        match res {
            Ok(()) => manifest_check(manifest@, version@) == Ok::<(), Seq<char>>(()),
            Err(e) => manifest_check(manifest@, version@) == Err::<(), Seq<char>>(e@),
        },
{
    let current = manifest_version(manifest)?;
    if str_eq(current, version) {
        Ok(())
    } else {
        let mut message = "app/package.json has version ".to_owned();
        message.append(current);
        message.append("; check out the merged release tag v");
        message.append(version);
        message.append(" first");
        Err(message)
    }
}

/// The outcome of checking that the release tag `v<version>` exists and
/// names the checked-out commit `head`; `tag_commit` is the commit the tag
/// names, if the tag exists.
pub open spec fn tag_check(version: Seq<char>, tag_commit: Option<Seq<char>>, head: Seq<char>) -> Result<
    (),
    Seq<char>,
> {
    match tag_commit {
        None => Err("release tag v"@ + version + " does not exist; check out the merged release tag first"@),
        Some(commit) => if commit == head {
            Ok(())
        } else {
            Err("release tag v"@ + version + " does not point to HEAD; check out the merged release tag first"@)
        },
    }
}

/// Checks that the release tag `v<version>` points to the checked-out
/// commit, so that assets are built only from the merged release tag.
pub fn require_tag_at_head(version: &str, tag_commit: Option<&str>, head: &str) -> (res: Result<
    (),
    String,
>)
    ensures
        match res {
            Ok(()) => tag_check(
                version@,
                match tag_commit {
                    Some(c) => Some(c@),
                    None => None,
                },
                head@,
            ) == Ok::<(), Seq<char>>(()),
            Err(e) => tag_check(
                version@,
                match tag_commit {
                    Some(c) => Some(c@),
                    None => None,
                },
                head@,
            ) == Err::<(), Seq<char>>(e@),
        },
{
    match tag_commit {
        None => {
            let mut message = "release tag v".to_owned();
            message.append(version);
            message.append(" does not exist; check out the merged release tag first");
            Err(message)
        },
        Some(commit) => {
            if str_eq(commit, head) {
                Ok(())
            } else {
                let mut message = "release tag v".to_owned();
                message.append(version);
                message.append(" does not point to HEAD; check out the merged release tag first");
                Err(message)
            }
        },
    }
}

/// The usage line of the release command.
pub fn usage() -> (res: String)
    ensures
        res@ == usage_text(),
{
    "usage: cargo xtask release-assets <X.Y.Z>".to_owned()
}

/// Reads the command line (without the program name): the version asked for
/// by `release-assets X.Y.Z`, or the message that refuses the request.
pub fn release_assets_version(args: &Vec<String>) -> (res: Result<String, String>)
    ensures
        match res {
            Ok(v) => release_request(args@.map_values(|a: String| a@)) == Ok::<Seq<char>, Seq<char>>(v@),
            Err(e) => release_request(args@.map_values(|a: String| a@)) == Err::<Seq<char>, Seq<char>>(e@),
        },
{
    let ghost views = args@.map_values(|a: String| a@);
    if args.len() == 0 {
        return Err(usage());
    }
    assert(views[0] == args@[0]@);
    if !str_eq(args[0].as_str(), "release-assets") {
        return Err(usage());
    }
    if args.len() == 1 {
        return Err(usage());
    }
    assert(views[1] == args@[1]@);
    if args.len() > 2 || !is_semver(args[1].as_str()) {
        return Err("version must be X.Y.Z, for example: cargo xtask release-assets 0.30.8".to_owned());
    }
    Ok(args[1].clone())
}

/// The release command accepts exactly `release-assets X.Y.Z`: whatever it
/// accepts is a release version given as the only argument after the
/// command.
pub proof fn only_release_versions_are_accepted(args: Seq<Seq<char>>)
    ensures
        release_request(args) matches Ok(v) ==> semver(v) && args.len() == 2
            && args[0] == "release-assets"@ && args[1] == v,
        (args.len() == 2 && args[0] == "release-assets"@ && semver(args[1])) ==> release_request(
            args,
        ) == Ok::<Seq<char>, Seq<char>>(args[1]),
{
}

/// The manifest check passes exactly when the manifest declares the
/// requested version.
pub proof fn manifest_check_passes_only_for_its_version(manifest: Seq<char>, version: Seq<char>)
    ensures
        manifest_check(manifest, version) is Ok <==> manifest_version_of(manifest) == Ok::<
            Seq<char>,
            Seq<char>,
        >(version),
{
}

/// Every text of three non-empty runs of the digits `0` to `9`, joined by
/// dots, is a release version, and `release-assets` accepts it as the only
/// argument.
pub proof fn digit_triples_are_release_versions(x: Seq<char>, y: Seq<char>, z: Seq<char>)
    requires
        x.len() > 0,
        y.len() > 0,
        z.len() > 0,
        forall|i: int| 0 <= i < x.len() ==> '0' <= #[trigger] x[i] <= '9',
        forall|i: int| 0 <= i < y.len() ==> '0' <= #[trigger] y[i] <= '9',
        forall|i: int| 0 <= i < z.len() ==> '0' <= #[trigger] z[i] <= '9',
    ensures
        semver(x + seq!['.'] + y + seq!['.'] + z),
        release_request(seq!["release-assets"@, x + seq!['.'] + y + seq!['.'] + z]) == Ok::<
            Seq<char>,
            Seq<char>,
        >(x + seq!['.'] + y + seq!['.'] + z),
{
    let v = x + seq!['.'] + y + seq!['.'] + z;
    lemma_split_on_single(x, '.');
    lemma_split_on_append(x, '.', y);
    lemma_split_on_append(x + seq!['.'] + y, '.', z);
    let parts = split_on(v, '.');
    assert(parts =~= seq![x, y, z]);
    assert(all_digits(x) && all_digits(y) && all_digits(z));
    only_release_versions_are_accepted(seq!["release-assets"@, v]);
}

/// A release version is nothing but three non-empty runs of the digits
/// `0` to `9` joined by two dots: its pieces between the dots are such runs,
/// and joining them gives the version back.
pub proof fn release_versions_are_digit_triples(v: Seq<char>)
    requires
        semver(v),
    ensures
        ({
            let p = split_on(v, '.');
            &&& p.len() == 3
            &&& v == p[0] + seq!['.'] + p[1] + seq!['.'] + p[2]
            &&& forall|k: int, i: int|
                0 <= k < 3 && 0 <= i < p[k].len() ==> '0' <= #[trigger] p[k][i] <= '9'
            &&& forall|k: int| 0 <= k < 3 ==> (#[trigger] p[k]).len() > 0
        }),
{
    let p = split_on(v, '.');
    lemma_split_on_pieces(v, '.');
    assert(p.drop_last().drop_last() =~= seq![p[0]]);
    assert(p.drop_last() =~= seq![p[0], p[1]]);
    assert(join_pieces(p, '.') == join_pieces(p.drop_last(), '.') + seq!['.'] + p[2]);
    assert(join_pieces(p.drop_last(), '.') == join_pieces(p.drop_last().drop_last(), '.') + seq![
        '.',
    ] + p[1]);
    assert forall|k: int, i: int| 0 <= k < 3 && 0 <= i < p[k].len() implies '0' <= #[trigger] p[k][i]
        <= '9' by {
        assert(all_digits(p[k]));
        assert(is_ascii_digit(p[k][i]));
    }
}

} // verus!
