//! Contains data structures used to describe database platforms.

use vstd::prelude::*;

verus! {

/// Represents the platform that created the database this library connects to
#[derive(PartialEq, Eq, Debug, Clone, Copy)]
pub enum Platform {
    /// macOS-sourced data
    #[allow(non_camel_case_types)]
    macOS,
    /// iOS-sourced data
    #[allow(non_camel_case_types)]
    iOS,
    /// extracted ios backup
    #[allow(non_camel_case_types)]
    iOSFS,
}

/// The lowercase form of a string, as `str::to_lowercase` gives it.
pub uninterp spec fn lowercase(s: Seq<char>) -> Seq<char>;

/// Whether every character of `s` is ASCII.
pub open spec fn all_ascii(s: Seq<char>) -> bool {
    forall|i: int| 0 <= i < s.len() ==> (s[i] as u32) < 128
}

/// The ASCII lowercase form of a character: `A` to `Z` become `a` to `z`, others stay.
pub open spec fn ascii_lower(c: char) -> char {
    if 'A' <= c && c <= 'Z' {
        ((c as u32) + 32) as char
    } else {
        c
    }
}

/// The ASCII lowercase form of each character of `s`.
pub open spec fn ascii_lowercase(s: Seq<char>) -> Seq<char> {
    s.map_values(|c: char| ascii_lower(c))
}

/// The platform that a lowercase name stands for.
pub open spec fn platform_named(name: Seq<char>) -> Option<Platform> {
    if name == "macos"@ {
        Some(Platform::macOS)
    } else if name == "ios"@ {
        Some(Platform::iOS)
    } else if name == "iosfs"@ {
        Some(Platform::iOSFS)
    } else {
        None
    }
}

/// Calls `str::to_lowercase`. Its result is named [`lowercase`]; on ASCII text it maps `A` to
/// `Z` to `a` to `z` and keeps every other character, as the Unicode lowercase mapping does
/// for ASCII. What it gives for other characters is left unsaid.
#[verifier::external_body]
pub(crate) fn to_lowercase(s: &str) -> (lower: String)
    ensures
        lower@ == lowercase(s@),
        all_ascii(s@) ==> lower@ == ascii_lowercase(s@),
{
    s.to_lowercase()
}

impl Platform {
    /// Determine the platform from what the database path holds, defaulting to macOS: an iOS
    /// backup when its database file is there, an extracted iOS backup when the database of
    /// either layout is there, and macOS when the path is a file.
    ///
    /// When none of them holds the database is missing; that error is handled when connecting.
    pub fn determine(has_ios_database: bool, has_ios_fs_database: bool, is_file: bool) -> (platform:
        Self)
        ensures
            platform == if has_ios_database {
                Platform::iOS
            } else if has_ios_fs_database {
                Platform::iOSFS
            } else {
                Platform::macOS
            },
    {
        if has_ios_database {
            return Self::iOS;
        } else if has_ios_fs_database {
            return Self::iOSFS;
        } else if is_file {
            return Self::macOS;
        }
        Self::default()
    }

    /// Given user's input, return a variant if the input matches one
    ///
    /// The match ignores case: the input is lowercased first.
    pub fn from_cli(platform: &str) -> (parsed: Option<Self>)
        ensures
            parsed == platform_named(lowercase(platform@)),
            all_ascii(platform@) ==> parsed == platform_named(ascii_lowercase(platform@)),
    {
        let lower = to_lowercase(platform);
        let name = lower.as_str();
        if crate::util::text::str_eq(name, "macos") {
            Some(Self::macOS)
        } else if crate::util::text::str_eq(name, "ios") {
            Some(Self::iOS)
        } else if crate::util::text::str_eq(name, "iosfs") {
            Some(Self::iOSFS)
        } else {
            None
        }
    }

    /// The name under which the platform is displayed
    pub fn to_string(&self) -> (name: String)
        ensures
            name@ == match self {
                Platform::macOS => "macOS"@,
                Platform::iOS => "iOS"@,
                Platform::iOSFS => "iOS_fs"@,
            },
    {
        match self {
            Platform::macOS => "macOS".to_owned(),
            Platform::iOS => "iOS".to_owned(),
            Platform::iOSFS => "iOS_fs".to_owned(),
        }
    }
}

impl Default for Platform {
    /// The default Platform is [`Platform::macOS`].
    fn default() -> (platform: Self)
        ensures
            platform == Platform::macOS,
    {
        Self::macOS
    }
}

/// Two inputs that are ASCII and equal up to ASCII case name the same platform, if any.
pub proof fn lemma_from_cli_ignores_ascii_case(a: Seq<char>, b: Seq<char>)
    requires
        all_ascii(a),
        all_ascii(b),
        ascii_lowercase(a) == ascii_lowercase(b),
    ensures
        platform_named(ascii_lowercase(a)) == platform_named(ascii_lowercase(b)),
{
}

} // verus!
