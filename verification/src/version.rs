//! Resolving the injector release version and its download URL.
//!
//! The upstream tag listing yields names such as `v1.2.0`. Resolution strips
//! the leading `v`s, parses each candidate as a semantic version, and picks
//! the highest release triple; the download URL interpolates the chosen
//! version into the vendor's installer URL, with a variant-specific suffix.

use vstd::prelude::*;
use vstd::string::*;

use crate::errors::ReShaderError;
use crate::errors::ReShaderResult;

verus! {

/// `s` with every leading `v` character removed.
pub open spec fn trimmed_v(s: Seq<char>) -> Seq<char>
    decreases s.len(),
{
    if s.len() > 0 && s[0] == 'v' {
        trimmed_v(s.skip(1))
    } else {
        s
    }
}

/// What `semver::Version::parse` yields on a string: the release triple
/// (major, minor, patch), or nothing when the string is not a valid
/// semantic version.
pub uninterp spec fn parsed_version(s: Seq<char>) -> Option<(u64, u64, u64)>;

/// Relies on `semver::Version::parse`: the result is a function of the
/// string alone; `major`, `minor` and `patch` are the release triple.
#[verifier::external_body]
fn parse_version_triple(s: &str) -> (r: Option<(u64, u64, u64)>)
    ensures
        r == parsed_version(s@),
{
    match semver::Version::parse(s) {
        Ok(v) => Some((v.major, v.minor, v.patch)),
        Err(_) => None,
    }
}

/// Lexicographic order on release triples.
pub open spec fn version_le(a: (u64, u64, u64), b: (u64, u64, u64)) -> bool {
    a.0 < b.0 || (a.0 == b.0 && (a.1 < b.1 || (a.1 == b.1 && a.2 <= b.2)))
}

/// `version_le` lifted to parse results: an unparsable candidate never
/// outranks anything.
pub open spec fn opt_version_le(a: Option<(u64, u64, u64)>, b: Option<(u64, u64, u64)>) -> bool {
    match a {
        Option::None => true,
        Option::Some(x) => b matches Some(y) && version_le(x, y),
    }
}

/// `v` is a trimmed tag of `ts` that parses, and no tag of `ts` parses to a
/// higher release triple.
pub open spec fn latest_of(ts: Seq<Seq<char>>, v: Seq<char>) -> bool {
    exists|i: int|
        0 <= i < ts.len() && v == #[trigger] trimmed_v(ts[i]) && parsed_version(v) is Some
            && forall|j: int|
            0 <= j < ts.len() ==> opt_version_le(
                parsed_version(#[trigger] trimmed_v(ts[j])),
                parsed_version(v),
            )
}

/// Removes the leading `v` characters of a tag name.
pub fn trim_v<'a>(s: &'a str) -> (r: &'a str)
    ensures
        r@ == trimmed_v(s@),
{
    let n = s.unicode_len();
    let mut i: usize = 0;
    let mut stop = false;
    proof {
        assert(s@.skip(0) =~= s@);
    }
    while !stop && i < n
        invariant
            n == s@.len(),
            0 <= i <= n,
            trimmed_v(s@) == trimmed_v(s@.skip(i as int)),
            stop ==> i < n && s@[i as int] != 'v',
        decreases n - i, (if stop {
            0int
        } else {
            1int
        }),
    {
        if s.get_char(i) == 'v' {
            proof {
                assert(s@.skip(i as int).skip(1) =~= s@.skip(i + 1));
                assert(s@.skip(i as int)[0] == s@[i as int]);
            }
            i = i + 1;
        } else {
            stop = true;
        }
    }
    let r = s.substring_char(i, n);
    proof {
        assert(s@.subrange(i as int, n as int) =~= s@.skip(i as int));
        if i < n {
            assert(s@.skip(i as int)[0] == s@[i as int]);
            assert(trimmed_v(s@.skip(i as int)) == s@.skip(i as int));
        } else {
            assert(s@.skip(i as int).len() == 0);
        }
    }
    r
}

/// Picks the highest release among the tag names, after stripping leading
/// `v`s. Tags that do not parse as semantic versions are passed over; when
/// none parses (in particular when the list is empty) resolution fails.
pub fn resolve_latest_version(tags: &Vec<String>) -> (r: ReShaderResult<String>)
    ensures
        r matches Ok(v) ==> latest_of(tags.deep_view(), v@),
        (r matches Ok(_)) <==> exists|i: int|
            0 <= i < tags.deep_view().len() && #[trigger] parsed_version(
                trimmed_v(tags.deep_view()[i]),
            ) is Some,
        r matches Err(e) ==> e matches ReShaderError::FetchLatestVersion(_),
{
    let ghost ts = tags.deep_view();
    let n = tags.len();
    let mut best: Option<(String, (u64, u64, u64))> = None;
    let ghost mut best_i: int = 0;
    let mut i: usize = 0;
    while i < n
        invariant
            n == tags.len(),
            ts == tags.deep_view(),
            0 <= i <= n,
            match best {
                Option::Some(b) => {
                    &&& 0 <= best_i < i
                    &&& b.0@ == trimmed_v(ts[best_i])
                    &&& parsed_version(b.0@) == Some(b.1)
                    &&& forall|j: int|
                        0 <= j < i ==> opt_version_le(
                            parsed_version(#[trigger] trimmed_v(ts[j])),
                            Some(b.1),
                        )
                },
                Option::None => forall|j: int|
                    0 <= j < i ==> parsed_version(#[trigger] trimmed_v(ts[j])) is None,
            },
        decreases n - i,
    {
        assert(tags.deep_view()[i as int] == tags@[i as int]@);
        let t = trim_v(tags[i].as_str());
        match parse_version_triple(t) {
            Option::Some(triple) => {
                let replace = match &best {
                    Option::Some(b) => version_triple_le(b.1, triple),
                    Option::None => true,
                };
                if replace {
                    best = Some((t.to_owned(), triple));
                    proof {
                        best_i = i as int;
                    }
                }
            },
            Option::None => {},
        }
        i = i + 1;
    }
    match best {
        Option::Some(b) => {
            proof {
                assert(b.0@ == trimmed_v(ts[best_i]));
            }
            Ok(b.0)
        },
        Option::None => Err(
            ReShaderError::FetchLatestVersion(String::from_str("no tags available")),
        ),
    }
}

/// Decides `version_le` on two release triples.
fn version_triple_le(a: (u64, u64, u64), b: (u64, u64, u64)) -> (r: bool)
    ensures
        r == version_le(a, b),
{
    a.0 < b.0 || (a.0 == b.0 && (a.1 < b.1 || (a.1 == b.1 && a.2 <= b.2)))
}

/// The installer download URL for a resolved version string: the
/// addon-enabled build by default, the vanilla build on request.
pub open spec fn spec_download_url(version: Seq<char>, vanilla: bool) -> Seq<char> {
    if vanilla {
        "https://reshade.me/downloads/ReShade_Setup_"@ + version + ".exe"@
    } else {
        "https://reshade.me/downloads/ReShade_Setup_"@ + version + "_Addon.exe"@
    }
}

/// Builds the installer download URL for a version string.
pub fn reshade_download_url(version: &str, vanilla: bool) -> (r: String)
    ensures
        r@ == spec_download_url(version@, vanilla),
{
    let mut url = String::from_str("https://reshade.me/downloads/ReShade_Setup_");
    url.append(version);
    if vanilla {
        url.append(".exe");
    } else {
        url.append("_Addon.exe");
    }
    url
}

/// The one-call version resolution: an explicitly requested version is used
/// unchecked, as handed in; otherwise the highest release among the tags is
/// chosen. The result is the matching installer URL.
pub fn resolve_installer_url(explicit: Option<String>, tags: &Vec<String>, vanilla: bool) -> (r:
    ReShaderResult<String>)
    ensures
        explicit matches Some(v) ==> r matches Ok(u) && u@ == spec_download_url(v@, vanilla),
        explicit is None ==> match r {
            Ok(u) => exists|v: Seq<char>|
                #[trigger] latest_of(tags.deep_view(), v) && u@ == spec_download_url(v, vanilla),
            Err(e) => e matches ReShaderError::FetchLatestVersion(_) && (forall|i: int|
                0 <= i < tags.deep_view().len() ==> parsed_version(
                    #[trigger] trimmed_v(tags.deep_view()[i]),
                ) is None),
        },
{
    match explicit {
        Option::Some(v) => Ok(reshade_download_url(v.as_str(), vanilla)),
        Option::None => {
            match resolve_latest_version(tags) {
                Ok(v) => {
                    let url = reshade_download_url(v.as_str(), vanilla);
                    proof {
                        assert(latest_of(tags.deep_view(), v@) && url@ == spec_download_url(
                            v@,
                            vanilla,
                        ));
                    }
                    Ok(url)
                },
                Err(e) => Err(e),
            }
        },
    }
}

} // verus!
