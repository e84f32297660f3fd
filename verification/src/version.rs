//! The closed set of kernel versions that plans can target.

use crate::text::{
    ascii_lower, eq_ignore_case, is_whitespace, leading_space, to_lower_char, trailing_space, trim,
    trimmed,
};
use vstd::prelude::*;
use vstd::string::*;

verus! {

/// A supported Linux kernel version.
#[allow(non_camel_case_types)]
#[derive(Debug, Clone, Copy, PartialEq, Eq, Hash, Structural)]
pub enum KernelVersion {
    /// Linux 6.6, the long-term-support line.
    V6_6_Lts,
    /// Linux 6.17, the latest feature release.
    V6_17,
}

/// The short label of a version.
pub open spec fn version_label(version: KernelVersion) -> Seq<char> {
    match version {
        KernelVersion::V6_6_Lts => "6.6-LTS"@,
        KernelVersion::V6_17 => "6.17"@,
    }
}

/// The descriptive name of a version.
pub open spec fn version_full_name(version: KernelVersion) -> Seq<char> {
    match version {
        KernelVersion::V6_6_Lts => "Linux Kernel 6.6 LTS"@,
        KernelVersion::V6_17 => "Linux Kernel 6.17"@,
    }
}

/// `text` without its leading `v`, where it has one.
pub open spec fn without_v(text: Seq<char>) -> Seq<char> {
    if text.len() > 0 && text[0] == 'v' {
        text.drop_first()
    } else {
        text
    }
}

/// The version that a spelling names: the text is already trimmed, in lower
/// case and without a leading `v`. The long-term-support suffix may follow a
/// dot, a dash or an underscore, and the two numbers may stand with a dot or
/// an underscore between them. Only the spellings listed here name a version.
pub open spec fn version_of_spelling(spelling: Seq<char>) -> Option<KernelVersion> {
    if spelling == "6.6"@ || spelling == "6.6-lts"@ || spelling == "6.6_lts"@ || spelling
        == "6.6.lts"@ || spelling == "6_6_lts"@ {
        Some(KernelVersion::V6_6_Lts)
    } else if spelling == "6.17"@ || spelling == "6_17"@ {
        Some(KernelVersion::V6_17)
    } else {
        None
    }
}

/// The version that a text names: white space at its ends is dropped, upper
/// and lower case are not told apart, one leading `v` is dropped, and what is
/// left must be one of the accepted spellings.
pub open spec fn parse_version(text: Seq<char>) -> Option<KernelVersion> {
    version_of_spelling(without_v(ascii_lower(trimmed(text))))
}

/// Whether a text holds no upper-case ASCII letter and no white space at its
/// ends, so that trimming and lower-casing leave it as it is.
spec fn is_normal(text: Seq<char>) -> bool {
    &&& text.len() > 0
    &&& !is_whitespace(text[0])
    &&& !is_whitespace(text.last())
    &&& forall|i: int| 0 <= i < text.len() ==> !('A' <= #[trigger] text[i] && text[i] <= 'Z')
}

proof fn lemma_trimmed_identity(text: Seq<char>)
    requires
        text.len() > 0,
        !is_whitespace(text[0]),
        !is_whitespace(text.last()),
    ensures
        trimmed(text) == text,
{
    assert(leading_space(text) == 0);
    assert(text.skip(0) =~= text);
    assert(trailing_space(text) == 0);
    assert(text.take(text.len() as int) =~= text);
}

proof fn lemma_normal_identity(text: Seq<char>)
    requires
        is_normal(text),
    ensures
        ascii_lower(trimmed(text)) == text,
        ascii_lower(text) == text,
{
    lemma_trimmed_identity(text);
    assert(ascii_lower(text) =~= text);
}

proof fn lemma_spellings_normal()
    ensures
        is_normal("6.6"@),
        is_normal("6.6-lts"@),
        is_normal("6.6_lts"@),
        is_normal("6.6.lts"@),
        is_normal("6_6_lts"@),
        is_normal("6.17"@),
        is_normal("6_17"@),
{
    reveal_strlit("6.6");
    reveal_strlit("6.6-lts");
    reveal_strlit("6.6_lts");
    reveal_strlit("6.6.lts");
    reveal_strlit("6_6_lts");
    reveal_strlit("6.17");
    reveal_strlit("6_17");
}

/// Parsing the label of a version gives that version back, and so does
/// parsing other spellings of each version: with a leading `v`, and with a
/// leading `v` before the dashed long-term-support spelling.
pub proof fn lemma_parse_round_trip(version: KernelVersion)
    ensures
        parse_version(version_label(version)) == Some(version),
        parse_version("v6.6"@) == Some(KernelVersion::V6_6_Lts),
        parse_version("v6.6-lts"@) == Some(KernelVersion::V6_6_Lts),
        parse_version("v6.17"@) == Some(KernelVersion::V6_17),
{
    reveal_strlit("6.6-LTS");
    reveal_strlit("6.6-lts");
    reveal_strlit("6.6_lts");
    reveal_strlit("6.6.lts");
    reveal_strlit("6_6_lts");
    reveal_strlit("6.6");
    reveal_strlit("6.17");
    reveal_strlit("v6.6");
    reveal_strlit("v6.6-lts");
    reveal_strlit("v6.17");
    lemma_trimmed_identity("6.6-LTS"@);
    assert(ascii_lower("6.6-LTS"@) =~= "6.6-lts"@);
    lemma_trimmed_identity("6.17"@);
    assert(ascii_lower("6.17"@) =~= "6.17"@);
    assert("6.17"@.len() != "6.6"@.len() && "6.17"@.len() != "6.6-lts"@.len());
    lemma_trimmed_identity("v6.6"@);
    assert(ascii_lower("v6.6"@) =~= "v6.6"@);
    assert("v6.6"@.drop_first() =~= "6.6"@);
    lemma_trimmed_identity("v6.6-lts"@);
    assert(ascii_lower("v6.6-lts"@) =~= "v6.6-lts"@);
    assert("v6.6-lts"@.drop_first() =~= "6.6-lts"@);
    lemma_trimmed_identity("v6.17"@);
    assert(ascii_lower("v6.17"@) =~= "v6.17"@);
    assert("v6.17"@.drop_first() =~= "6.17"@);
}

impl KernelVersion {
    /// The version used when none is asked for: the long-term-support line.
    pub fn default_target() -> (version: Self)
        ensures
            version == KernelVersion::V6_6_Lts,
    {
        KernelVersion::V6_6_Lts
    }

    /// The version that `s` names, or `None` where it names none. White space
    /// at the ends, the case of letters and one leading `v` do not count. No
    /// text is ever read as a default.
    pub fn from_string(s: &str) -> (version: Option<Self>)
        ensures
            version == parse_version(s@),
    {
        let trimmed_text = trim(s);
        let n = trimmed_text.unicode_len();
        let text = if n > 0 && to_lower_char(trimmed_text.get_char(0)) == 'v' {
            trimmed_text.substring_char(1, n)
        } else {
            trimmed_text
        };
        proof {
            let lowered = ascii_lower(trimmed_text@);
            if n > 0 && lowered[0] == 'v' {
                assert(ascii_lower(text@) =~= lowered.drop_first());
            }
            assert(ascii_lower(text@) == without_v(lowered));
            lemma_spellings_normal();
            lemma_normal_identity("6.6"@);
            lemma_normal_identity("6.6-lts"@);
            lemma_normal_identity("6.6_lts"@);
            lemma_normal_identity("6.6.lts"@);
            lemma_normal_identity("6_6_lts"@);
            lemma_normal_identity("6.17"@);
            lemma_normal_identity("6_17"@);
        }
        if eq_ignore_case(text, "6.6") || eq_ignore_case(text, "6.6-lts") || eq_ignore_case(
            text,
            "6.6_lts",
        ) || eq_ignore_case(text, "6.6.lts") || eq_ignore_case(text, "6_6_lts") {
            Some(KernelVersion::V6_6_Lts)
        } else if eq_ignore_case(text, "6.17") || eq_ignore_case(text, "6_17") {
            Some(KernelVersion::V6_17)
        } else {
            None
        }
    }

    /// The short label of the version.
    pub fn to_string(&self) -> (label: &'static str)
        ensures
            label@ == version_label(*self),
    {
        match self {
            KernelVersion::V6_6_Lts => "6.6-LTS",
            KernelVersion::V6_17 => "6.17",
        }
    }

    /// The descriptive name of the version.
    pub fn full_name(&self) -> (name: &'static str)
        ensures
            name@ == version_full_name(*self),
    {
        match self {
            KernelVersion::V6_6_Lts => "Linux Kernel 6.6 LTS",
            KernelVersion::V6_17 => "Linux Kernel 6.17",
        }
    }

    /// Whether the version is a long-term-support release.
    pub fn is_lts(&self) -> (lts: bool)
        ensures
            lts == (*self == KernelVersion::V6_6_Lts),
    {
        match self {
            KernelVersion::V6_6_Lts => true,
            KernelVersion::V6_17 => false,
        }
    }

    /// The major version number.
    pub fn major(&self) -> (major: u32)
        ensures
            major == 6,
    {
        6
    }

    /// The minor version number.
    pub fn minor(&self) -> (minor: u32)
        ensures
            minor == match *self {
                KernelVersion::V6_6_Lts => 6u32,
                KernelVersion::V6_17 => 17u32,
            },
    {
        match self {
            KernelVersion::V6_6_Lts => 6,
            KernelVersion::V6_17 => 17,
        }
    }
}

impl Default for KernelVersion {
    fn default() -> (version: Self)
        ensures
            version == KernelVersion::V6_6_Lts,
    {
        Self::default_target()
    }
}

} // verus!
