//! Paths on both sides of a sync: cloud folders, the cloud paths of files, and the relative
//! paths by which local and cloud files are paired.
use crate::text::{
    chars_of, concat2, concat3, char_index_of_byte, has_prefix, lemma_utf8_len_is_encoding_len,
    lemma_utf8_len_prefix_strict, lowercase, replace_all, replace_char, starts_with,
    starts_with_char, string_from_chars, to_lowercase, trim_end, trim_end_matches, trim_start,
    trim_start_matches, utf8_len,
};
use crate::api::opt_view;
use vstd::prelude::*;

verus! {

/// A cloud folder path that starts with '/': the path itself, or the path after a '/'.
pub open spec fn normalized_cloud_path_of(cloud_path: Seq<char>) -> Seq<char> {
    if cloud_path.len() > 0 && cloud_path[0] == '/' {
        cloud_path
    } else {
        "/"@ + cloud_path
    }
}

/// The cloud folder path of a sync item, made to start with '/'.
pub fn normalize_cloud_path(cloud_path: &str) -> (res: String)
    ensures
        res@ == normalized_cloud_path_of(cloud_path@),
{
    if starts_with_char(cloud_path, '/') {
        cloud_path.to_owned()
    } else {
        concat2("/", cloud_path)
    }
}

/// The form against which listed cloud paths are matched: the normalised folder path without
/// trailing '/', in lowercase (Dropbox paths ignore case).
pub open spec fn cloud_base_of(normalized: Seq<char>) -> Seq<char> {
    lowercase(trim_end(normalized, '/'))
}

/// The lowercase folder path against which listed cloud paths are matched.
pub fn cloud_base(normalized: &str) -> (res: String)
    ensures
        res@ == cloud_base_of(normalized@),
{
    let t = trim_end_matches(normalized, '/');
    to_lowercase(t.as_str())
}

/// The number of characters of `s` that make up its first `n` bytes, if some prefix of `s`
/// takes exactly `n` bytes.
pub open spec fn chars_in_bytes(s: Seq<char>, n: nat) -> Option<int> {
    if exists|k: int| 0 <= k <= s.len() && #[trigger] utf8_len(s.take(k)) == n {
        Some(choose|k: int| 0 <= k <= s.len() && #[trigger] utf8_len(s.take(k)) == n)
    } else {
        None
    }
}

/// The path of a listed cloud file relative to the synced folder.
///
/// When the lowercase path starts with `base`, the path loses as many leading bytes as `base`
/// has, then its leading '/'s; otherwise the file's name stands for it. `None` marks a path
/// whose first bytes, as many as `base` has, end inside a character, which cannot be cut there.
pub open spec fn relative_path_of(remote: Seq<char>, name: Seq<char>, base: Seq<char>) -> Option<
    Seq<char>,
> {
    relative_path_with(remote, lowercase(remote), name, base)
}

/// The relative path of a listed cloud file, given the lowercase form `lower` of its path.
pub open spec fn relative_path_with(
    remote: Seq<char>,
    lower: Seq<char>,
    name: Seq<char>,
    base: Seq<char>,
) -> Option<Seq<char>> {
    if has_prefix(lower, base) {
        match chars_in_bytes(remote, utf8_len(base)) {
            Some(k) => Some(trim_start(remote.skip(k), '/')),
            None => None,
        }
    } else {
        Some(name)
    }
}

/// The path of a listed cloud file relative to the synced folder whose lowercase path is
/// `base`, given the lowercase form `lower` of the file's path, or `None` when the path cannot
/// be cut after as many bytes as `base` has.
pub fn relative_path_given_lowercase(remote_path: &str, lower: &str, name: &str, base: &str) -> (res:
    Option<String>)
    ensures
        opt_view(res) == relative_path_with(remote_path@, lower@, name@, base@),
{
    if starts_with(lower, base) {
        let n = base.as_bytes().len();
        proof {
            lemma_utf8_len_is_encoding_len(base@);
        }
        match char_index_of_byte(remote_path, n) {
            Some(k) => {
                proof {
                    let s = remote_path@;
                    assert(utf8_len(s.take(k as int)) == utf8_len(base@));
                    let c = choose|j: int| 0 <= j <= s.len() && #[trigger] utf8_len(s.take(j)) == utf8_len(base@);
                    if c < k {
                        lemma_utf8_len_prefix_strict(s, c, k as int);
                    } else if c > k {
                        lemma_utf8_len_prefix_strict(s, k as int, c);
                    }
                }
                let v = chars_of(remote_path);
                let rest = string_from_chars(v.as_slice().split_at(k).1);
                Some(trim_start_matches(rest.as_str(), '/'))
            },
            None => None,
        }
    } else {
        Some(name.to_owned())
    }
}

/// The path of a listed cloud file relative to the synced folder whose lowercase path is
/// `base`, or `None` when the path cannot be cut after as many bytes as `base` has.
pub fn relative_remote_path(remote_path: &str, name: &str, base: &str) -> (res: Option<String>)
    ensures
        opt_view(res) == relative_path_of(remote_path@, name@, base@),
{
    let lower = to_lowercase(remote_path);
    relative_path_given_lowercase(remote_path, lower.as_str(), name, base)
}

/// The cloud path for uploading a local file: the item's cloud folder path without trailing
/// '/', then '/', then the file's relative path.
pub open spec fn upload_path_of(cloud_path: Seq<char>, rel_path: Seq<char>) -> Seq<char> {
    trim_end(cloud_path, '/') + "/"@ + rel_path
}

/// The cloud path for uploading a local file found at `rel_path` under the item's folder.
pub fn upload_remote_path(cloud_path: &str, rel_path: &str) -> (res: String)
    ensures
        res@ == upload_path_of(cloud_path@, rel_path@),
{
    let t = trim_end_matches(cloud_path, '/');
    concat3(t.as_str(), "/", rel_path)
}

/// A local relative path written with '/' as its only separator.
pub fn slash_separated(rel_path: &str) -> (res: String)
    ensures
        res@ == replace_all(rel_path@, '\\', '/'),
{
    replace_char(rel_path, '\\', '/')
}

/// A relative path written with the Windows separator '\\'.
pub fn backslash_separated(rel_path: &str) -> (res: String)
    ensures
        res@ == replace_all(rel_path@, '/', '\\'),
{
    replace_char(rel_path, '/', '\\')
}

/// A normalised cloud path starts with '/', and normalising it again changes nothing.
pub proof fn law_normalized_path(cloud_path: Seq<char>)
    ensures
        normalized_cloud_path_of(cloud_path).len() > 0,
        normalized_cloud_path_of(cloud_path)[0] == '/',
        normalized_cloud_path_of(normalized_cloud_path_of(cloud_path)) == normalized_cloud_path_of(
            cloud_path,
        ),
{
    reveal_strlit("/");
}

} // verus!
