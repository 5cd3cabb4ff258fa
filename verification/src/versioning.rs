//! Release versions and where the latest release is found.

pub mod order;

use vstd::prelude::*;
use vstd::string::StringExecFns;
use crate::number::{
    all_digits, is_digit, lemma_decimal_round_trip, parse_usize, parsed_unsigned,
};
use crate::text::{
    append_decimal, chars_of, decimal_digits, is_text, lemma_split_pieces, split, split_on,
    strip_prefix, texts, without_prefix,
};

verus! {

/// A version: three numbers, the first weighing most.
#[derive(Clone, Copy, Debug, PartialEq, Eq, Structural)]
pub struct Version {
    pub major: usize,
    pub minor: usize,
    pub patch: usize,
}

/// Why a text is no version.
#[derive(Clone, Copy, Debug, PartialEq, Eq, Structural)]
pub enum VersionError {
    /// It has not three parts between points.
    Format,
    /// One of its three parts is no number that fits.
    Number,
}

/// A version text without the `v` in front of it.
pub open spec fn version_body(s: Seq<char>) -> Seq<char> {
    match without_prefix(s, "v"@) {
        Some(rest) => rest,
        None => s,
    }
}

/// The number that a part of a version writes.
pub open spec fn part_of(s: Seq<char>) -> Option<nat> {
    parsed_unsigned(s, usize::MAX as nat)
}

/// The version that a text writes: an optional `v`, then three numbers
/// with points between them.
pub open spec fn parsed_version(s: Seq<char>) -> Result<Version, VersionError> {
    let parts = split_on(version_body(s), '.');
    if parts.len() != 3 {
        Err(VersionError::Format)
    } else {
        match (part_of(parts[0]), part_of(parts[1]), part_of(parts[2])) {
            (Some(major), Some(minor), Some(patch)) => Ok(
                Version { major: major as usize, minor: minor as usize, patch: patch as usize },
            ),
            _ => Err(VersionError::Number),
        }
    }
}

/// The text of a version: `v`, then the three numbers with points between.
pub open spec fn version_text(v: Version) -> Seq<char> {
    "v"@ + decimal_digits(v.major as nat) + "."@ + decimal_digits(v.minor as nat) + "."@
        + decimal_digits(v.patch as nat)
}

impl Version {
    /// Reads a version from its text.
    pub fn parse(value: &str) -> (r: Result<Version, VersionError>)
        ensures
            r == parsed_version(value@),
    {
        let chars = chars_of(value);
        let body = match strip_prefix(&chars, &chars_of("v")) {
            Some(rest) => rest,
            None => chars,
        };
        let parts = split(&body, '.');
        if parts.len() != 3 {
            return Err(VersionError::Format);
        }
        assert(texts(parts@)[0] == parts@[0]@);
        assert(texts(parts@)[1] == parts@[1]@);
        assert(texts(parts@)[2] == parts@[2]@);
        let major = parse_usize(&parts[0]);
        let minor = parse_usize(&parts[1]);
        let patch = parse_usize(&parts[2]);
        match (major, minor, patch) {
            (Some(major), Some(minor), Some(patch)) => Ok(Version { major, minor, patch }),
            _ => Err(VersionError::Number),
        }
    }

    /// Writes the version as text.
    pub fn to_string(&self) -> (r: String)
        ensures
            r@ == version_text(*self),
    {
        let mut r = String::from_str("v");
        append_decimal(&mut r, self.major as u64);
        r.append(".");
        append_decimal(&mut r, self.minor as u64);
        r.append(".");
        append_decimal(&mut r, self.patch as u64);
        r
    }
}

/// A version that is written and read again is the same version.
pub proof fn lemma_version_round_trip(v: Version)
    ensures
        parsed_version(version_text(v)) == Ok::<Version, VersionError>(v),
{
    reveal_strlit("v");
    reveal_strlit(".");
    let major = decimal_digits(v.major as nat);
    let minor = decimal_digits(v.minor as nat);
    let patch = decimal_digits(v.patch as nat);
    lemma_decimal_round_trip(v.major as nat);
    lemma_decimal_round_trip(v.minor as nat);
    lemma_decimal_round_trip(v.patch as nat);
    let body = major + seq!['.'] + minor + seq!['.'] + patch;
    let text = version_text(v);
    assert("v"@ =~= seq!['v']);
    assert("."@ =~= seq!['.']);
    assert(text =~= seq!['v'] + body);
    assert(text.take(1) =~= "v"@);
    assert(text.skip(1) =~= body);
    assert(version_body(text) == body);
    assert forall|s: Seq<char>| #[trigger] all_digits(s) implies !s.contains('.') by {
        if s.contains('.') {
            let i = choose|i: int| 0 <= i < s.len() && s[i] == '.';
            assert(is_digit(s[i]));
        }
    }
    lemma_split_pieces(patch, Seq::empty(), '.');
    lemma_split_pieces(minor, patch, '.');
    lemma_split_pieces(major, minor + seq!['.'] + patch, '.');
    assert(body =~= major + seq!['.'] + (minor + seq!['.'] + patch));
    assert(split_on(body, '.') =~= seq![major, minor, patch]);
}

/// A published release.
#[derive(Debug)]
pub struct Release {
    pub tag_name: String,
    pub url: String,
}

/// The repository that releases are published in.
pub open spec fn repository() -> Seq<char> {
    "juliamertz/bol-scraping-empire"@
}

/// The address that lists the releases.
pub open spec fn releases_address() -> Seq<char> {
    "https://api.github.com/repos/"@ + repository() + "/releases"@
}

/// The address that lists the releases.
pub fn releases_url() -> (r: String)
    ensures
        r@ == releases_address(),
{
    let mut r = String::from_str("https://api.github.com/repos/");
    r.append("juliamertz/bol-scraping-empire");
    r.append("/releases");
    r
}

/// The latest release of a list: its first.
pub fn latest_release(releases: Vec<Release>) -> (r: Option<Release>)
    ensures
        match r {
            Some(release) => releases@.len() > 0 && release == releases@[0],
            None => releases@.len() == 0,
        },
{
    let mut releases = releases;
    if releases.len() == 0 {
        None
    } else {
        Some(releases.swap_remove(0))
    }
}

/// An operating system that binaries are published for.
#[derive(Clone, Copy, Debug, PartialEq, Eq, Structural)]
pub enum Platform {
    Linux,
    MacOs,
}

/// An operating system that no binary is published for.
#[derive(Clone, Copy, Debug, PartialEq, Eq, Structural)]
pub struct UnsupportedOs;

/// The platform of an operating system's name.
pub open spec fn platform_of(os: Seq<char>) -> Option<Platform> {
    if os == "linux"@ {
        Some(Platform::Linux)
    } else if os == "macos"@ {
        Some(Platform::MacOs)
    } else {
        None
    }
}

/// The vendor and kernel by which a platform's binaries are named.
pub open spec fn target_of(platform: Platform) -> Seq<char> {
    match platform {
        Platform::Linux => "unknown-linux-gnu"@,
        Platform::MacOs => "apple-darwin"@,
    }
}

/// The address of the latest binary of the program `name` for a machine of
/// the architecture `arch` on `platform`.
pub open spec fn asset_address(name: Seq<char>, arch: Seq<char>, platform: Platform) -> Seq<char> {
    "https://github.com/"@ + repository() + "/releases/latest/download/"@ + name + "-"@ + arch
        + "-"@ + target_of(platform) + ".tar.gz"@
}

/// The address of the latest binary of the program `name` for a machine of
/// the architecture `arch` that runs `os`.
pub fn latest_bin_url(name: &str, arch: &str, os: &str) -> (r: Result<String, UnsupportedOs>)
    ensures
        match r {
            Ok(url) => platform_of(os@) matches Some(p) && url@ == asset_address(name@, arch@, p),
            Err(_) => platform_of(os@) is None,
        },
{
    let os_chars = chars_of(os);
    let target = if is_text(&os_chars, "linux") {
        "unknown-linux-gnu"
    } else if is_text(&os_chars, "macos") {
        "apple-darwin"
    } else {
        return Err(UnsupportedOs);
    };
    let mut r = String::from_str("https://github.com/");
    r.append("juliamertz/bol-scraping-empire");
    r.append("/releases/latest/download/");
    r.append(name);
    r.append("-");
    r.append(arch);
    r.append("-");
    r.append(target);
    r.append(".tar.gz");
    Ok(r)
}

/// The name of the file that a downloaded release is kept in.
pub fn download_file_name(name: &str) -> (r: String)
    ensures
        r@ == name@ + ".latest.tar.gz"@,
{
    let mut r = String::from_str(name);
    r.append(".latest.tar.gz");
    r
}

} // verus!
