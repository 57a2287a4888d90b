//! The channel manifest and the download set it induces.
//!
//! A channel manifest maps package names to versions and per-platform
//! targets; an available target carries a plain and a compressed artifact,
//! each as a (URL, digest) pair. The download set of a platform matrix is
//! every such pair of every kept target, the URL turned into its
//! mirror-relative path.
use vstd::prelude::*;

use crate::errors::SyncError;
use crate::paths::rel_path_of;
use crate::paths::url_rel_path;
use crate::platforms::Platforms;
use crate::strutil::contains_view;
use crate::strutil::split_slash;
use crate::strutil::vec_contains_string;

verus! {

/// The two artifact variants of an available target.
pub struct TargetUrls {
    /// URL of the plain artifact.
    pub url: String,
    /// Hex digest of the plain artifact.
    pub hash: String,
    /// URL of the compressed artifact.
    pub xz_url: String,
    /// Hex digest of the compressed artifact.
    pub xz_hash: String,
}

/// One platform's entry of a package: offered with its artifacts, or not
/// offered at all. The manifest's availability flag is authoritative; a
/// target is never taken as available merely because URLs are present.
pub enum Target {
    /// The target is offered; both artifact variants are given.
    Available(TargetUrls),
    /// The target is not offered for this release.
    Unavailable,
}

/// One package of a channel manifest.
pub struct Pkg {
    /// The package's version string.
    pub version: String,
    /// The per-platform targets, keyed by platform identifier.
    pub target: Vec<(String, Target)>,
}

/// A parsed channel manifest.
pub struct Channel {
    /// The manifest format version.
    pub manifest_version: String,
    /// The release date, ISO `YYYY-MM-DD`.
    pub date: String,
    /// The packages, keyed by package name.
    pub pkg: Vec<(String, Pkg)>,
}

/// A parsed installer release pointer.
pub struct Release {
    /// The pointer format version.
    pub schema_version: String,
    /// The current installer version.
    pub version: String,
}

/// The current installer version named by the release pointer.
pub fn get_rustup_version(release: &Release) -> (r: String)
    ensures
        r@ == release.version@,
{
    release.version.clone()
}

/// Whether a package is mirrored: the development-only compiler internals
/// package is skipped unless its download was enabled.
pub open spec fn pkg_included(name: Seq<char>, download_dev: bool) -> bool {
    download_dev || name != "rustc-dev"@
}

/// Whether a target is kept: a configured platform, or the synthetic `*`
/// platform of platform-independent artifacts, which is always kept.
pub open spec fn target_included(name: Seq<char>, platforms: &Platforms) -> bool {
    contains_view(platforms.unix@, name) || contains_view(platforms.windows@, name) || name
        == "*"@
}

/// The (relative path, digest) pairs of one kept target.
pub open spec fn target_pairs(t: Target) -> Seq<(Seq<char>, Seq<char>)> {
    match t {
        Target::Available(u) => seq![
            (rel_path_of(u.url@), u.hash@),
            (rel_path_of(u.xz_url@), u.xz_hash@),
        ],
        Target::Unavailable => Seq::empty(),
    }
}

/// The pairs of a package's targets, kept ones only, in manifest order.
pub open spec fn targets_pairs(ts: Seq<(String, Target)>, platforms: &Platforms) -> Seq<
    (Seq<char>, Seq<char>),
>
    decreases ts.len(),
{
    if ts.len() == 0 {
        Seq::empty()
    } else {
        targets_pairs(ts.drop_last(), platforms) + (if target_included(
            ts.last().0@,
            platforms,
        ) {
            target_pairs(ts.last().1)
        } else {
            Seq::empty()
        })
    }
}

/// The pairs of all included packages, in manifest order.
pub open spec fn pkgs_pairs(
    ps: Seq<(String, Pkg)>,
    download_dev: bool,
    platforms: &Platforms,
) -> Seq<(Seq<char>, Seq<char>)>
    decreases ps.len(),
{
    if ps.len() == 0 {
        Seq::empty()
    } else {
        pkgs_pairs(ps.drop_last(), download_dev, platforms) + (if pkg_included(
            ps.last().0@,
            download_dev,
        ) {
            targets_pairs(ps.last().1.target@, platforms)
        } else {
            Seq::empty()
        })
    }
}

/// Whether a URL can be turned into a mirror-relative path.
pub open spec fn url_ok(u: Seq<char>) -> bool {
    split_slash(u).len() >= 3
}

/// Whether a target's URLs, if any, are well-formed.
pub open spec fn target_urls_ok(t: Target) -> bool {
    match t {
        Target::Available(u) => url_ok(u.url@) && url_ok(u.xz_url@),
        Target::Unavailable => true,
    }
}

/// Whether every kept target of every included package has well-formed
/// URLs.
pub open spec fn channel_list_ok(c: &Channel, download_dev: bool, platforms: &Platforms) -> bool {
    forall|i: int, j: int|
        0 <= i < c.pkg@.len() && 0 <= j < (#[trigger] c.pkg@[i]).1.target@.len() && pkg_included(
            c.pkg@[i].0@,
            download_dev,
        ) && target_included((#[trigger] c.pkg@[i].1.target@[j]).0@, platforms) ==> target_urls_ok(
            c.pkg@[i].1.target@[j].1,
        )
}

/// The pairwise views of a download list.
pub open spec fn pairs_view(s: Seq<(String, String)>) -> Seq<(Seq<char>, Seq<char>)> {
    Seq::new(s.len(), |i: int| (s[i].0@, s[i].1@))
}

/// Derives the download set of a manifest: for every included package and
/// every kept, available target, the (mirror-relative path, digest) pair
/// of its plain and of its compressed artifact, together with the
/// manifest's release date. A kept URL with no mirror-relative position is
/// rejected.
pub fn rustup_download_list(channel: &Channel, download_dev: bool, platforms: &Platforms) -> (r:
    Result<(String, Vec<(String, String)>), SyncError>)
    ensures
        r is Ok <==> channel_list_ok(channel, download_dev, platforms),
        r is Ok ==> r->Ok_0.0@ == channel.date@,
        r is Ok ==> pairs_view(r->Ok_0.1@) == pkgs_pairs(channel.pkg@, download_dev, platforms),
        r is Err ==> r->Err_0 is Parse,
{
    let dev_pkg = String::from_str("rustc-dev");
    let star = String::from_str("*");
    let mut out: Vec<(String, String)> = Vec::new();
    let mut i: usize = 0;
    while i < channel.pkg.len()
        invariant
            i <= channel.pkg@.len(),
            dev_pkg@ == "rustc-dev"@,
            star@ == "*"@,
            pairs_view(out@) =~= pkgs_pairs(channel.pkg@.take(i as int), download_dev, platforms),
            forall|i2: int, j2: int|
                0 <= i2 < i && 0 <= j2 < (#[trigger] channel.pkg@[i2]).1.target@.len()
                    && pkg_included(channel.pkg@[i2].0@, download_dev) && target_included(
                    (#[trigger] channel.pkg@[i2].1.target@[j2]).0@,
                    platforms,
                ) ==> target_urls_ok(channel.pkg@[i2].1.target@[j2].1),
        decreases channel.pkg@.len() - i,
    {
        let ghost pkg_base = pairs_view(out@);
        proof {
            assert(channel.pkg@.take(i + 1).drop_last() =~= channel.pkg@.take(i as int));
            assert(channel.pkg@.take(i + 1).last() == channel.pkg@[i as int]);
        }
        if download_dev || !channel.pkg[i].0.eq(&dev_pkg) {
            let targets = &channel.pkg[i].1.target;
            let mut j: usize = 0;
            while j < targets.len()
                invariant
                    j <= targets@.len(),
                    star@ == "*"@,
                    targets == &channel.pkg@[i as int].1.target,
                    i < channel.pkg@.len(),
                    pkg_included(channel.pkg@[i as int].0@, download_dev),
                    pairs_view(out@) =~= pkg_base + targets_pairs(
                        targets@.take(j as int),
                        platforms,
                    ),
                    forall|j2: int|
                        0 <= j2 < j && target_included(
                            (#[trigger] targets@[j2]).0@,
                            platforms,
                        ) ==> target_urls_ok(targets@[j2].1),
                decreases targets@.len() - j,
            {
                proof {
                    assert(targets@.take(j + 1).drop_last() =~= targets@.take(j as int));
                    assert(targets@.take(j + 1).last() == targets@[j as int]);
                }
                let name = &targets[j].0;
                let kept = vec_contains_string(&platforms.unix, name) || vec_contains_string(
                    &platforms.windows,
                    name,
                ) || name.eq(&star);
                proof {
                    assert(kept == target_included(targets@[j as int].0@, platforms));
                }
                if kept {
                    match &targets[j].1 {
                        Target::Available(u) => {
                            let ghost before = pairs_view(out@);
                            let rp = match url_rel_path(&u.url) {
                                Some(rp) => rp,
                                None => {
                                    proof {
                                        assert(!target_urls_ok(
                                            channel.pkg@[i as int].1.target@[j as int].1,
                                        ));
                                        assert(!channel_list_ok(channel, download_dev, platforms));
                                    }
                                    return Err(
                                        SyncError::Parse(
                                            String::from_str("malformed artifact URL in manifest"),
                                        ),
                                    );
                                },
                            };
                            let xrp = match url_rel_path(&u.xz_url) {
                                Some(rp) => rp,
                                None => {
                                    proof {
                                        assert(!target_urls_ok(
                                            channel.pkg@[i as int].1.target@[j as int].1,
                                        ));
                                        assert(!channel_list_ok(channel, download_dev, platforms));
                                    }
                                    return Err(
                                        SyncError::Parse(
                                            String::from_str("malformed artifact URL in manifest"),
                                        ),
                                    );
                                },
                            };
                            out.push((rp, u.hash.clone()));
                            out.push((xrp, u.xz_hash.clone()));
                            proof {
                                assert(pairs_view(out@) =~= before + target_pairs(
                                    targets@[j as int].1,
                                ));
                            }
                        },
                        Target::Unavailable => {
                        },
                    }
                }
                proof {
                    assert(pairs_view(out@) =~= pkg_base + targets_pairs(
                        targets@.take(j + 1),
                        platforms,
                    ));
                }
                j = j + 1;
            }
            proof {
                assert(targets@.take(targets@.len() as int) =~= targets@);
                assert(pairs_view(out@) =~= pkgs_pairs(
                    channel.pkg@.take(i + 1),
                    download_dev,
                    platforms,
                ));
            }
        } else {
            proof {
                assert(!pkg_included(channel.pkg@[i as int].0@, download_dev));
                assert(pairs_view(out@) =~= pkgs_pairs(
                    channel.pkg@.take(i + 1),
                    download_dev,
                    platforms,
                ));
            }
        }
        i = i + 1;
    }
    proof {
        assert(channel.pkg@.take(channel.pkg@.len() as int) =~= channel.pkg@);
        assert(channel_list_ok(channel, download_dev, platforms));
    }
    Ok((channel.date.clone(), out))
}

} // verus!
