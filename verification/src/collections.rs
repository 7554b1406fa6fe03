//! The shader-collection manifest.
//!
//! A static manifest describes downloadable shader collections: name,
//! description, required/enabled flags, relative install paths and a
//! download URL, grouped in sections of an INI text. Each section's install
//! paths are rewritten from the manifest's notation (a `.\`-prefixed,
//! backslash-separated path under `reshade-shaders`) to the program's merged
//! tree (slash-separated under `Merged`).

use vstd::prelude::*;
use vstd::string::*;

verus! {

/// One downloadable shader collection of the manifest.
#[derive(Debug)]
pub struct ShaderCollection {
    /// Whether the shader collection is enabled by default.
    pub enabled: bool,
    /// Whether the shader collection is required.
    pub required: bool,
    /// The name of the shader collection.
    pub name: String,
    /// The description of the shader collection.
    pub description: String,
    /// The path to install the shaders to, relative to the data directory.
    pub install_path: String,
    /// The path to install the textures to, relative to the data directory.
    pub texture_install_path: String,
    /// The URL to download the shader collection from.
    pub download_url: String,
}

/// The fields of a collection as mathematical values.
pub open spec fn col_view(c: ShaderCollection) -> (bool, bool, Seq<char>, Seq<char>, Seq<
    char,
>, Seq<char>, Seq<char>) {
    (
        c.enabled,
        c.required,
        c.name@,
        c.description@,
        c.install_path@,
        c.texture_install_path@,
        c.download_url@,
    )
}

impl ShaderCollection {
    /// Creates a new shader collection.
    pub fn new(
        enabled: bool,
        required: bool,
        name: &str,
        description: &str,
        install_path: &str,
        texture_install_path: &str,
        download_url: &str,
    ) -> (r: Self)
        ensures
            col_view(r) == (
                enabled,
                required,
                name@,
                description@,
                install_path@,
                texture_install_path@,
                download_url@,
            ),
    {
        ShaderCollection {
            enabled,
            required,
            name: name.to_owned(),
            description: description.to_owned(),
            install_path: install_path.to_owned(),
            texture_install_path: texture_install_path.to_owned(),
            download_url: download_url.to_owned(),
        }
    }
}

impl Clone for ShaderCollection {
    /// Cloning keeps every field.
    fn clone(&self) -> (r: Self)
        ensures
            col_view(r) == col_view(*self),
            r.enabled == self.enabled,
            r.required == self.required,
    {
        ShaderCollection {
            enabled: self.enabled,
            required: self.required,
            name: self.name.clone(),
            description: self.description.clone(),
            install_path: self.install_path.clone(),
            texture_install_path: self.texture_install_path.clone(),
            download_url: self.download_url.clone(),
        }
    }
}

/// Whether `s` matches `pat` at offset `i`.
pub(crate) fn matches_at(s: &str, i: usize, pat: &str) -> (r: bool)
    requires
        i + pat@.len() <= s@.len(),
        s@.len() <= usize::MAX as int,
    ensures
        r == (s@.subrange(i as int, i + pat@.len()) == pat@),
{
    let m = pat.unicode_len();
    let mut j: usize = 0;
    while j < m
        invariant
            m == pat@.len(),
            i + m <= s@.len(),
            s@.len() <= usize::MAX as int,
            0 <= j <= m,
            forall|k: int| 0 <= k < j ==> s@[i + k] == pat@[k],
        decreases m - j,
    {
        if s.get_char(i + j) != pat.get_char(j) {
            proof {
                assert(s@.subrange(i as int, i + pat@.len())[j as int] != pat@[j as int]);
            }
            return false;
        }
        j = j + 1;
    }
    proof {
        assert(s@.subrange(i as int, i + pat@.len()) =~= pat@);
    }
    true
}

/// `s` with every occurrence of `from` replaced by `to`, scanning left to
/// right without overlap.
pub open spec fn spec_replace(s: Seq<char>, from: Seq<char>, to: Seq<char>) -> Seq<char>
    decreases s.len(),
{
    if from.len() == 0 || s.len() < from.len() {
        s
    } else if s.subrange(0, from.len() as int) == from {
        to + spec_replace(s.skip(from.len() as int), from, to)
    } else {
        seq![s[0]] + spec_replace(s.skip(1), from, to)
    }
}

/// Replaces every occurrence of `from` by `to`, scanning left to right.
pub fn replace_all(s: &str, from: &str, to: &str) -> (r: String)
    requires
        from@.len() > 0,
    ensures
        r@ == spec_replace(s@, from@, to@),
{
    let n = s.unicode_len();
    let m = from.unicode_len();
    let mut out = String::new();
    let mut i: usize = 0;
    proof {
        assert(s@.skip(0) =~= s@);
    }
    while i < n
        invariant
            n == s@.len(),
            m == from@.len(),
            m > 0,
            0 <= i <= n,
            spec_replace(s@, from@, to@) == out@ + spec_replace(s@.skip(i as int), from@, to@),
        decreases n - i,
    {
        let ghost rest = s@.skip(i as int);
        if m <= n - i && matches_at(s, i, from) {
            proof {
                assert(rest.subrange(0, m as int) =~= s@.subrange(i as int, i + m));
                assert(rest.skip(m as int) =~= s@.skip(i + m));
            }
            out.append(to);
            i = i + m;
        } else {
            proof {
                if i + m <= n {
                    assert(rest.subrange(0, m as int) =~= s@.subrange(i as int, i + m));
                }
                assert(rest.skip(1) =~= s@.skip(i + 1));
                assert(seq![rest[0]] =~= s@.subrange(i as int, i + 1));
            }
            let piece = s.substring_char(i, i + 1);
            out.append(piece);
            i = i + 1;
        }
    }
    proof {
        assert(s@.skip(n as int).len() == 0);
        assert(out@ + s@.skip(n as int) =~= out@);
    }
    out
}

/// Whether `c` is a decimal digit.
pub open spec fn is_digit(c: char) -> bool {
    '0' <= c && c <= '9'
}

/// The numeric value of a digit sequence, most significant first.
pub open spec fn digits_value(s: Seq<char>) -> int
    decreases s.len(),
{
    if s.len() == 0 {
        0
    } else {
        digits_value(s.drop_last()) * 10 + (s.last() as int - '0' as int)
    }
}

/// The value of a digit sequence is not negative, and appending digits never
/// shrinks it.
proof fn lemma_digits_value_nonneg(s: Seq<char>)
    requires
        forall|j: int| 0 <= j < s.len() ==> is_digit(#[trigger] s[j]),
    ensures
        digits_value(s) >= 0,
    decreases s.len(),
{
    if s.len() > 0 {
        lemma_digits_value_nonneg(s.drop_last());
    }
}

/// Every character of `s` is a decimal digit.
pub open spec fn all_digits(s: Seq<char>) -> bool {
    forall|j: int| 0 <= j < s.len() ==> is_digit(#[trigger] s[j])
}

/// The digits of a decimal number: `s` without its optional leading `+`.
pub open spec fn parse_u8_body(s: Seq<char>) -> Seq<char> {
    if s.len() > 0 && s[0] == '+' {
        s.skip(1)
    } else {
        s
    }
}

/// What `str::parse::<u8>` yields: an optional leading `+`, then at least
/// one digit, valued at most 255.
pub open spec fn spec_parse_u8(s: Seq<char>) -> Option<u8> {
    if parse_u8_body(s).len() > 0 && all_digits(parse_u8_body(s)) && digits_value(
        parse_u8_body(s),
    ) <= 255 {
        Some(digits_value(parse_u8_body(s)) as u8)
    } else {
        None
    }
}

/// Parses a decimal `u8`: an optional leading `+`, then at least one digit,
/// valued at most 255.
pub fn parse_u8(s: &str) -> (r: Option<u8>)
    ensures
        r == spec_parse_u8(s@),
{
    let n = s.unicode_len();
    let start: usize = if n > 0 && s.get_char(0) == '+' {
        1
    } else {
        0
    };
    let ghost body = parse_u8_body(s@);
    proof {
        if start == 1 {
            assert(body =~= s@.skip(1));
        } else {
            assert(body == s@);
            assert(body =~= s@.skip(0));
        }
    }
    if start >= n {
        proof {
            assert(body.len() == 0);
        }
        return None;
    }
    let mut value: u32 = 0;
    let mut over = false;
    let mut i: usize = start;
    proof {
        assert(body.take(0) =~= Seq::<char>::empty());
    }
    while i < n
        invariant
            n == s@.len(),
            start <= i <= n,
            start == if s@.len() > 0 && s@[0] == '+' {
                1int
            } else {
                0int
            },
            body == s@.skip(start as int),
            body == parse_u8_body(s@),
            forall|j: int| 0 <= j < i - start ==> is_digit(#[trigger] body[j]),
            !over ==> value == digits_value(body.take(i - start)) && value <= 255,
            over ==> digits_value(body.take(i - start)) > 255,
        decreases n - i,
    {
        let c = s.get_char(i);
        assert(body[i - start] == s@[i as int]);
        if c < '0' || c > '9' {
            proof {
                assert(!is_digit(body[i - start]));
                assert(!all_digits(body));
            }
            return None;
        }
        let d = (c as u32) - ('0' as u32);
        let ghost prefix = body.take(i - start);
        proof {
            assert(body.take(i + 1 - start).drop_last() =~= prefix);
            assert(body.take(i + 1 - start).last() == body[i - start]);
            lemma_digits_value_nonneg(prefix);
        }
        if over {
            proof {
                lemma_digits_value_nonneg(body.take(i + 1 - start).drop_last());
            }
        } else {
            let next = value * 10 + d;
            if next > 255 {
                over = true;
            } else {
                value = next;
            }
        }
        i = i + 1;
    }
    proof {
        assert(body.take(n - start) =~= body);
        assert(body.len() > 0);
        assert(all_digits(body));
    }
    if over {
        proof {
            assert(digits_value(body) > 255);
        }
        None
    } else {
        proof {
            assert(value == digits_value(body) && digits_value(body) <= 255);
        }
        Some(value as u8)
    }
}

/// The first value stored under `key`, scanning the entries from the front.
pub open spec fn first_value(entries: Seq<(Seq<char>, Seq<char>)>, key: Seq<char>) -> Option<
    Seq<char>,
>
    decreases entries.len(),
{
    if entries.len() == 0 {
        None
    } else if entries[0].0 == key {
        Some(entries[0].1)
    } else {
        first_value(entries.skip(1), key)
    }
}

/// Finds the first value stored under `key`.
fn lookup<'a>(entries: &'a Vec<(String, String)>, key: &String) -> (r: Option<&'a String>)
    ensures
        match r {
            Some(v) => first_value(entries.deep_view(), key@) == Some(v@),
            None => first_value(entries.deep_view(), key@) is None,
        },
{
    let ghost dv = entries.deep_view();
    let n = entries.len();
    let mut i: usize = 0;
    proof {
        assert(dv.skip(0) =~= dv);
    }
    while i < n
        invariant
            n == entries.len(),
            dv == entries.deep_view(),
            0 <= i <= n,
            first_value(dv, key@) == first_value(dv.skip(i as int), key@),
        decreases n - i,
    {
        proof {
            assert(dv[i as int] == entries@[i as int].deep_view());
            assert(dv.skip(i as int)[0] == dv[i as int]);
            assert(dv.skip(i as int).skip(1) =~= dv.skip(i + 1));
        }
        if entries[i].0.eq(key) {
            return Some(&entries[i].1);
        }
        i = i + 1;
    }
    proof {
        assert(dv.skip(n as int).len() == 0);
    }
    None
}

/// What `ini::Ini::load_from_str_noescape` parses a text into: the sections
/// in order, each with its name (none for a sectionless head) and its
/// key/value pairs in order; nothing when the text is not well-formed INI.
pub uninterp spec fn ini_sections(text: Seq<char>) -> Option<
    Seq<(Option<Seq<char>>, Seq<(Seq<char>, Seq<char>)>)>,
>;

/// Relies on `ini::Ini::load_from_str_noescape` and `Ini::iter`: the parse
/// is a function of the text alone, and iteration yields the sections in
/// order, each with its properties in order.
#[verifier::external_body]
fn load_ini_sections(text: &str) -> (r: Option<Vec<(Option<String>, Vec<(String, String)>)>>)
    ensures
        r.deep_view() == ini_sections(text@),
{
    let parsed = match ini::Ini::load_from_str_noescape(text) {
        Ok(i) => i,
        Err(_) => return None,
    };
    let mut sections = Vec::new();
    for (name, props) in parsed.iter() {
        let entries = props.iter().map(|(k, v)| (k.to_string(), v.to_string())).collect();
        sections.push((name.map(|n| n.to_string()), entries));
    }
    Some(sections)
}

/// A manifest install path rewritten for the merged tree: the two-character
/// `.\` prefix dropped, backslashes turned into slashes, and the
/// `reshade-shaders` root renamed to `Merged`.
pub open spec fn spec_rewrite_install_path(v: Seq<char>) -> Seq<char> {
    spec_replace(spec_replace(v.skip(2), "\\"@, "/"@), "reshade-shaders"@, "Merged"@)
}

/// Rewrites a manifest install path for the merged tree.
pub fn rewrite_install_path(v: &str) -> (r: String)
    requires
        v@.len() >= 2,
    ensures
        r@ == spec_rewrite_install_path(v@),
{
    proof {
        reveal_strlit("\\");
        reveal_strlit("reshade-shaders");
    }
    let n = v.unicode_len();
    let tail = v.substring_char(2, n);
    proof {
        assert(tail@ =~= v@.skip(2));
    }
    let slashes = replace_all(tail, "\\", "/");
    replace_all(slashes.as_str(), "reshade-shaders", "Merged")
}

/// The truth of a manifest flag entry: present and parsing to the number 1.
pub open spec fn flag_of(entries: Seq<(Seq<char>, Seq<char>)>, key: Seq<char>) -> bool {
    match first_value(entries, key) {
        Some(v) => spec_parse_u8(v) == Some(1u8),
        None => false,
    }
}

/// Whether a manifest section holds everything a collection needs: a name,
/// the package fields, and install paths long enough to carry the `.\`
/// prefix.
pub open spec fn section_collection_ok(
    sec: (Option<Seq<char>>, Seq<(Seq<char>, Seq<char>)>),
) -> bool {
    &&& sec.0 is Some
    &&& first_value(sec.1, "PackageName"@) is Some
    &&& first_value(sec.1, "PackageDescription"@) is Some
    &&& first_value(sec.1, "DownloadUrl"@) is Some
    &&& (first_value(sec.1, "InstallPath"@) matches Some(ip) && ip.len() >= 2)
    &&& (first_value(sec.1, "TextureInstallPath"@) matches Some(tp) && tp.len() >= 2)
}

/// The collection a manifest section describes.
pub open spec fn collection_matches_section(
    cv: (bool, bool, Seq<char>, Seq<char>, Seq<char>, Seq<char>, Seq<char>),
    sec: (Option<Seq<char>>, Seq<(Seq<char>, Seq<char>)>),
) -> bool {
    &&& cv.0 == flag_of(sec.1, "Enabled"@)
    &&& cv.1 == flag_of(sec.1, "Required"@)
    &&& (first_value(sec.1, "PackageName"@) matches Some(nm) && cv.2 == nm)
    &&& (first_value(sec.1, "PackageDescription"@) matches Some(d) && cv.3 == d)
    &&& (first_value(sec.1, "InstallPath"@) matches Some(ip) && cv.4
        == spec_rewrite_install_path(ip))
    &&& (first_value(sec.1, "TextureInstallPath"@) matches Some(tp) && cv.5
        == spec_rewrite_install_path(tp))
    &&& (first_value(sec.1, "DownloadUrl"@) matches Some(u) && cv.6 == u)
}

/// A section the manifest reader passes over: the sectionless head that the
/// INI reader reports even when nothing stands before the first header.
pub open spec fn section_skippable(sec: (Option<Seq<char>>, Seq<(Seq<char>, Seq<char>)>)) -> bool {
    sec.0 is None && sec.1.len() == 0
}

/// Every section of a parsed manifest is passed over or carries a
/// collection.
pub open spec fn all_sections_ok(
    secs: Seq<(Option<Seq<char>>, Seq<(Seq<char>, Seq<char>)>)>,
) -> bool {
    forall|i: int|
        0 <= i < secs.len() ==> section_skippable(#[trigger] secs[i]) || section_collection_ok(
            secs[i],
        )
}

/// The sections that carry collections, in order.
pub open spec fn kept_sections(
    secs: Seq<(Option<Seq<char>>, Seq<(Seq<char>, Seq<char>)>)>,
) -> Seq<(Option<Seq<char>>, Seq<(Seq<char>, Seq<char>)>)>
    decreases secs.len(),
{
    if secs.len() == 0 {
        Seq::empty()
    } else if section_skippable(secs.last()) {
        kept_sections(secs.drop_last())
    } else {
        kept_sections(secs.drop_last()).push(secs.last())
    }
}

/// The collections describe the manifest sections one for one, in order.
pub open spec fn collections_match_sections(
    cols: Seq<ShaderCollection>,
    secs: Seq<(Option<Seq<char>>, Seq<(Seq<char>, Seq<char>)>)>,
) -> bool {
    cols.len() == secs.len() && forall|i: int|
        0 <= i < secs.len() ==> collection_matches_section(col_view(cols[i]), #[trigger] secs[i])
}

/// Decides a manifest flag entry.
fn flag_value(entries: &Vec<(String, String)>, key: &String) -> (r: bool)
    ensures
        r == flag_of(entries.deep_view(), key@),
{
    match lookup(entries, key) {
        Some(v) => {
            match parse_u8(v.as_str()) {
                Some(x) => x == 1,
                None => false,
            }
        },
        None => false,
    }
}

/// Parses the shader-collection manifest: one collection per section, in
/// order, the empty sectionless head passed over. Yields nothing when the
/// text is not well-formed INI, or when any section lacks a name, one of the
/// package fields, or an install path long enough to carry the `.\` prefix.
pub fn parse_shader_collections(text: &str) -> (r: Option<Vec<ShaderCollection>>)
    ensures
        (r is Some) <==> (ini_sections(text@) matches Some(secs) && all_sections_ok(secs)),
        r matches Some(cols) ==> (ini_sections(text@) matches Some(secs)
            && collections_match_sections(cols@, kept_sections(secs))),
{
    let sections = match load_ini_sections(text) {
        Some(s) => s,
        None => {
            return None;
        },
    };
    let ghost secs = sections.deep_view();
    let n = sections.len();
    let mut cols: Vec<ShaderCollection> = Vec::new();
    let key_enabled = String::from_str("Enabled");
    let key_required = String::from_str("Required");
    let key_name = String::from_str("PackageName");
    let key_description = String::from_str("PackageDescription");
    let key_install = String::from_str("InstallPath");
    let key_texture = String::from_str("TextureInstallPath");
    let key_url = String::from_str("DownloadUrl");
    let mut i: usize = 0;
    proof {
        assert(secs.take(0) =~= Seq::<(Option<Seq<char>>, Seq<(Seq<char>, Seq<char>)>)>::empty());
        assert(collections_match_sections(cols@, kept_sections(secs.take(0))));
    }
    while i < n
        invariant
            n == sections.len(),
            secs == sections.deep_view(),
            ini_sections(text@) == Some(secs),
            key_enabled@ == "Enabled"@,
            key_required@ == "Required"@,
            key_name@ == "PackageName"@,
            key_description@ == "PackageDescription"@,
            key_install@ == "InstallPath"@,
            key_texture@ == "TextureInstallPath"@,
            key_url@ == "DownloadUrl"@,
            0 <= i <= n,
            forall|j: int|
                0 <= j < i ==> section_skippable(#[trigger] secs[j]) || section_collection_ok(
                    secs[j],
                ),
            collections_match_sections(cols@, kept_sections(secs.take(i as int))),
        decreases n - i,
    {
        let sec = &sections[i];
        proof {
            assert(secs[i as int] == sections@[i as int].deep_view());
            assert(secs[i as int].1 == sec.1.deep_view());
            assert(secs[i as int].0 == sec.0.deep_view());
            assert(secs.take(i + 1).drop_last() =~= secs.take(i as int));
            assert(secs.take(i + 1).last() == secs[i as int]);
        }
        if sec.0.is_none() {
            if sec.1.is_empty() {
                proof {
                    assert(section_skippable(secs[i as int]));
                    assert(kept_sections(secs.take(i + 1)) == kept_sections(secs.take(i as int)));
                }
                i = i + 1;
                continue;
            }
            proof {
                assert(secs[i as int].1.len() > 0);
                assert(!section_collection_ok(secs[i as int]));
                assert(!all_sections_ok(secs)) by {
                    if all_sections_ok(secs) {
                        assert(section_skippable(secs[i as int]) || section_collection_ok(
                            secs[i as int],
                        ));
                    }
                }
            }
            return None;
        }
        let name = match lookup(&sec.1, &key_name) {
            Some(v) => v,
            None => {
                proof {
                    assert(!section_collection_ok(secs[i as int]));
                assert(!section_skippable(secs[i as int]));
                assert(!all_sections_ok(secs)) by {
                    if all_sections_ok(secs) {
                        assert(section_skippable(secs[i as int]) || section_collection_ok(
                            secs[i as int],
                        ));
                    }
                }
                }
                return None;
            },
        };
        let description = match lookup(&sec.1, &key_description) {
            Some(v) => v,
            None => {
                proof {
                    assert(!section_collection_ok(secs[i as int]));
                assert(!section_skippable(secs[i as int]));
                assert(!all_sections_ok(secs)) by {
                    if all_sections_ok(secs) {
                        assert(section_skippable(secs[i as int]) || section_collection_ok(
                            secs[i as int],
                        ));
                    }
                }
                }
                return None;
            },
        };
        let url = match lookup(&sec.1, &key_url) {
            Some(v) => v,
            None => {
                proof {
                    assert(!section_collection_ok(secs[i as int]));
                assert(!section_skippable(secs[i as int]));
                assert(!all_sections_ok(secs)) by {
                    if all_sections_ok(secs) {
                        assert(section_skippable(secs[i as int]) || section_collection_ok(
                            secs[i as int],
                        ));
                    }
                }
                }
                return None;
            },
        };
        let install_raw = match lookup(&sec.1, &key_install) {
            Some(v) => v,
            None => {
                proof {
                    assert(!section_collection_ok(secs[i as int]));
                assert(!section_skippable(secs[i as int]));
                assert(!all_sections_ok(secs)) by {
                    if all_sections_ok(secs) {
                        assert(section_skippable(secs[i as int]) || section_collection_ok(
                            secs[i as int],
                        ));
                    }
                }
                }
                return None;
            },
        };
        let texture_raw = match lookup(&sec.1, &key_texture) {
            Some(v) => v,
            None => {
                proof {
                    assert(!section_collection_ok(secs[i as int]));
                assert(!section_skippable(secs[i as int]));
                assert(!all_sections_ok(secs)) by {
                    if all_sections_ok(secs) {
                        assert(section_skippable(secs[i as int]) || section_collection_ok(
                            secs[i as int],
                        ));
                    }
                }
                }
                return None;
            },
        };
        if install_raw.as_str().unicode_len() < 2 || texture_raw.as_str().unicode_len() < 2 {
            proof {
                assert(!section_collection_ok(secs[i as int]));
                assert(!section_skippable(secs[i as int]));
                assert(!all_sections_ok(secs)) by {
                    if all_sections_ok(secs) {
                        assert(section_skippable(secs[i as int]) || section_collection_ok(
                            secs[i as int],
                        ));
                    }
                }
            }
            return None;
        }
        let enabled = flag_value(&sec.1, &key_enabled);
        let required = flag_value(&sec.1, &key_required);
        let install_path = rewrite_install_path(install_raw.as_str());
        let texture_path = rewrite_install_path(texture_raw.as_str());
        let col = ShaderCollection::new(
            enabled,
            required,
            name.as_str(),
            description.as_str(),
            install_path.as_str(),
            texture_path.as_str(),
            url.as_str(),
        );
        proof {
            assert(section_collection_ok(secs[i as int]));
            assert(collection_matches_section(col_view(col), secs[i as int]));
        }
        let ghost pre = cols@;
        cols.push(col);
        proof {
            let kept = kept_sections(secs.take(i as int));
            let kept2 = kept_sections(secs.take(i + 1));
            assert(!section_skippable(secs[i as int]));
            assert(kept2 == kept.push(secs[i as int]));
            assert(cols@.len() == kept2.len());
            assert forall|j: int|
                0 <= j < kept2.len() implies collection_matches_section(
                col_view(cols@[j]),
                #[trigger] kept2[j],
            ) by {
                if j < kept2.len() - 1 {
                    assert(kept2[j] == kept[j]);
                    assert(cols@[j] == pre[j]);
                    assert(collection_matches_section(col_view(pre[j]), kept[j]));
                } else {
                    assert(kept2[j] == secs[i as int]);
                }
            }
            assert(collections_match_sections(cols@, kept2));
        }
        i = i + 1;
    }
    proof {
        assert(secs.take(n as int) =~= secs);
        assert(all_sections_ok(secs));
        assert(collections_match_sections(cols@, kept_sections(secs)));
    }
    Some(cols)
}

/// The enabled collections of a list, in order, by their field values.
pub open spec fn spec_enabled_only(
    v: Seq<(bool, bool, Seq<char>, Seq<char>, Seq<char>, Seq<char>, Seq<char>)>,
) -> Seq<(bool, bool, Seq<char>, Seq<char>, Seq<char>, Seq<char>, Seq<char>)>
    decreases v.len(),
{
    if v.len() == 0 {
        Seq::empty()
    } else if v.last().0 {
        spec_enabled_only(v.drop_last()).push(v.last())
    } else {
        spec_enabled_only(v.drop_last())
    }
}

/// The field values of each collection of a list.
pub open spec fn cols_view(s: Seq<ShaderCollection>) -> Seq<
    (bool, bool, Seq<char>, Seq<char>, Seq<char>, Seq<char>, Seq<char>),
> {
    Seq::new(s.len(), |i: int| col_view(s[i]))
}

/// The collections marked enabled, in order: the minimal set a default
/// shader download fetches.
pub fn enabled_collections(cols: &Vec<ShaderCollection>) -> (r: Vec<ShaderCollection>)
    ensures
        cols_view(r@) == spec_enabled_only(cols_view(cols@)),
{
    let n = cols.len();
    let mut out: Vec<ShaderCollection> = Vec::new();
    let mut i: usize = 0;
    proof {
        assert(cols_view(cols@).take(0) =~= Seq::<(
            bool,
            bool,
            Seq<char>,
            Seq<char>,
            Seq<char>,
            Seq<char>,
            Seq<char>,
        )>::empty());
        assert(cols_view(out@) =~= spec_enabled_only(cols_view(cols@).take(0)));
    }
    while i < n
        invariant
            n == cols.len(),
            0 <= i <= n,
            cols_view(out@) == spec_enabled_only(cols_view(cols@).take(i as int)),
        decreases n - i,
    {
        let ghost whole = cols_view(cols@);
        proof {
            assert(whole.take(i + 1).drop_last() =~= whole.take(i as int));
            assert(whole.take(i + 1).last() == whole[i as int]);
            assert(whole[i as int] == col_view(cols@[i as int]));
        }
        if cols[i].enabled {
            let picked = cols[i].clone();
            out.push(picked);
            proof {
                assert(cols_view(out@).drop_last() =~= spec_enabled_only(whole.take(i as int)));
                assert(cols_view(out@).last() == whole[i as int]);
                assert(cols_view(out@) =~= spec_enabled_only(whole.take(i as int)).push(
                    whole[i as int],
                ));
            }
        }
        i = i + 1;
    }
    proof {
        assert(cols_view(cols@).take(n as int) =~= cols_view(cols@));
    }
    out
}

/// The scratch file name a collection's archive is downloaded to.
pub fn zip_file_name(name: &str) -> (r: String)
    ensures
        r@ == name@ + ".zip"@,
{
    let mut r = name.to_owned();
    r.append(".zip");
    r
}

/// The root folder of an unpacked archive: the name of its first entry, or,
/// for an archive with no entries, a folder synthesized from the archive's
/// own name — the second component says whether it must be created.
pub fn archive_root_name(entry_names: &Vec<String>, collection_name: &str) -> (r: (String, bool))
    ensures
        entry_names@.len() > 0 ==> r.0@ == entry_names@[0]@ && !r.1,
        entry_names@.len() == 0 ==> r.0@ == collection_name@ + ".zip"@ && r.1,
{
    if entry_names.len() > 0 {
        (entry_names[0].clone(), false)
    } else {
        (zip_file_name(collection_name), true)
    }
}

/// Joins a base directory and a relative path with a slash.
pub fn join_path(base: &str, rel: &str) -> (r: String)
    ensures
        r@ == base@ + "/"@ + rel@,
{
    let mut r = base.to_owned();
    r.append("/");
    r.append(rel);
    r
}

} // verus!
