//! Derivation of mirror paths and upstream URLs.
//!
//! Paths are slash-separated strings relative to the mirror root; the
//! application joins them onto the root directory when it touches disk.
use vstd::prelude::*;

use crate::strutil::join_slash;
use crate::strutil::join_slash_exec;
use crate::strutil::split_slash;
use crate::strutil::split_slash_exec;

verus! {

/// Appends a suffix to a path, as string concatenation.
pub fn append_to_path(path: &String, suffix: &str) -> (r: String)
    ensures
        r@ == path@ + suffix@,
{
    path.clone().concat(suffix)
}

/// The `.part` staging path of a destination.
pub fn part_path(path: &String) -> (r: String)
    ensures
        r@ == path@ + ".part"@,
{
    append_to_path(path, ".part")
}

/// The `.sha256` sidecar path of a destination.
pub fn sha256_path(path: &String) -> (r: String)
    ensures
        r@ == path@ + ".sha256"@,
{
    append_to_path(path, ".sha256")
}

/// The renames that move a file together with its sidecar: first the file
/// itself, then its sidecar, each only if it exists. The sidecar may lag
/// the moved file by one rename but never leads it, so a reader never
/// sees a fresh sidecar beside a stale file.
pub fn move_if_exists_with_sha256(from: &String, to: &String) -> (r: Vec<(String, String)>)
    ensures
        r@.len() == 2,
        r@[0].0@ == from@ && r@[0].1@ == to@,
        r@[1].0@ == from@ + ".sha256"@ && r@[1].1@ == to@ + ".sha256"@,
{
    let mut moves: Vec<(String, String)> = Vec::new();
    moves.push((from.clone(), to.clone()));
    moves.push((sha256_path(from), sha256_path(to)));
    moves
}

/// An artifact's position under the mirror root: the upstream URL with its
/// first three slash-separated segments dropped (scheme, empty authority
/// separator, host), the remainder joined back with `/`.
pub open spec fn rel_path_of(url: Seq<char>) -> Seq<char> {
    if split_slash(url).len() >= 3 {
        join_slash(split_slash(url).skip(3))
    } else {
        Seq::<char>::empty()
    }
}

/// Turns an upstream artifact URL into its mirror-relative path; a URL with
/// fewer than three leading segments has no such path.
pub fn url_rel_path(url: &String) -> (r: Option<String>)
    ensures
        r is Some <==> split_slash(url@).len() >= 3,
        r is Some ==> r->0@ == rel_path_of(url@),
{
    let parts = split_slash_exec(url);
    if parts.len() < 3 {
        return None;
    }
    let mut rest: Vec<String> = Vec::new();
    let mut i: usize = 3;
    while i < parts.len()
        invariant
            3 <= i <= parts@.len(),
            rest@.len() == i - 3,
            forall|k: int| 0 <= k < i - 3 ==> rest@[k]@ == parts@[3 + k]@,
        decreases parts@.len() - i,
    {
        rest.push(parts[i].clone());
        i = i + 1;
    }
    proof {
        assert forall|k: int| 0 <= k < rest.deep_view().len() implies rest.deep_view()[k]
            == parts.deep_view().skip(3)[k] by {
            assert(rest.deep_view()[k] == rest@[k]@);
            assert(parts.deep_view().skip(3)[k] == parts@[3 + k]@);
        }
        assert(rest.deep_view() =~= parts.deep_view().skip(3));
    }
    Some(join_slash_exec(&rest))
}

/// The upstream URL of a channel manifest.
pub fn channel_url(source: &String, channel: &String) -> (r: String)
    ensures
        r@ == source@ + "/dist/channel-rust-"@ + channel@ + ".toml"@,
{
    source.clone().concat("/dist/channel-rust-").concat(channel.as_str()).concat(".toml")
}

/// The published location of a channel manifest under the mirror root.
pub fn channel_path(channel: &String) -> (r: String)
    ensures
        r@ == "dist/channel-rust-"@ + channel@ + ".toml"@,
{
    String::from_str("dist/channel-rust-").concat(channel.as_str()).concat(".toml")
}

/// The location of a channel's history ledger under the mirror root.
pub fn channel_history_path(channel: &String) -> (r: String)
    ensures
        r@ == "mirror-"@ + channel@ + "-history.toml"@,
{
    String::from_str("mirror-").concat(channel.as_str()).concat("-history.toml")
}

/// The upstream URL of the installer release pointer.
pub fn release_url(source: &String) -> (r: String)
    ensures
        r@ == source@ + "/rustup/release-stable.toml"@,
{
    source.clone().concat("/rustup/release-stable.toml")
}

/// The published location of the installer release pointer under the
/// mirror root.
pub fn release_path() -> (r: String)
    ensures
        r@ == "rustup/release-stable.toml"@,
{
    String::from_str("rustup/release-stable.toml")
}

} // verus!
