//! The catalogue of kernel releases: entries made from what kernel.org
//! reports, the built-in list for when it cannot be reached, and the rules of
//! the cache. Fetching and storing are left to the caller.

use crate::text::{push_decimal, decimal, str_eq};
use vstd::prelude::*;
use vstd::string::*;

verus! {

/// A semantic version, as a value of the model.
pub struct SemVerView {
    pub major: u64,
    pub minor: u64,
    pub patch: u64,
    pub pre: Seq<char>,
    pub build: Seq<char>,
}

/// A parsed semantic version: the three numbers, the pre-release tag and the
/// build metadata, the last two empty where the version has none.
#[derive(Debug, PartialEq, Eq)]
pub struct SemVer {
    pub major: u64,
    pub minor: u64,
    pub patch: u64,
    pub pre: String,
    pub build: String,
}

impl View for SemVer {
    type V = SemVerView;

    open spec fn view(&self) -> SemVerView {
        SemVerView {
            major: self.major,
            minor: self.minor,
            patch: self.patch,
            pre: self.pre@,
            build: self.build@,
        }
    }
}

impl Clone for SemVer {
    fn clone(&self) -> (copy: Self)
        ensures
            copy@ == self@,
    {
        SemVer {
            major: self.major,
            minor: self.minor,
            patch: self.patch,
            pre: self.pre.clone(),
            build: self.build.clone(),
        }
    }
}

/// What `semver::Version::parse` makes of a text: the parsed version, or
/// `None` where the text is no semantic version.
pub uninterp spec fn semver_parse(text: Seq<char>) -> Option<SemVerView>;

/// Parses a semantic version with the `semver` crate.
///
/// Trusted: the body calls `semver::Version::parse`. The contract says only
/// that the outcome is the one that the crate gives for this text, whatever
/// it is: the fields of the version that it parsed, or nothing where it
/// reported an error.
#[verifier::external_body]
fn parse_semver(text: &str) -> (version: Option<SemVer>)
    ensures
        match version {
            Some(v) => semver_parse(text@) == Some(v@),
            None => semver_parse(text@) is None,
        },
{
    match semver::Version::parse(text) {
        Ok(v) => Some(
            SemVer {
                major: v.major,
                minor: v.minor,
                patch: v.patch,
                pre: v.pre.as_str().to_string(),
                build: v.build.as_str().to_string(),
            },
        ),
        Err(_) => None,
    }
}

/// The text of a semantic version: the three numbers with dots between,
/// then `-` and the pre-release tag where there is one, then `+` and the build
/// metadata where there is some.
pub open spec fn semver_text(version: SemVerView) -> Seq<char> {
    decimal(version.major as nat) + "."@ + decimal(version.minor as nat) + "."@ + decimal(
        version.patch as nat,
    ) + (if version.pre.len() > 0 {
        "-"@ + version.pre
    } else {
        Seq::empty()
    }) + (if version.build.len() > 0 {
        "+"@ + version.build
    } else {
        Seq::empty()
    })
}

impl SemVer {
    /// The text of the version.
    pub fn to_string(&self) -> (text: String)
        ensures
            text@ == semver_text(self@),
    {
        let mut text = String::new();
        push_decimal(&mut text, self.major);
        text.append(".");
        push_decimal(&mut text, self.minor);
        text.append(".");
        push_decimal(&mut text, self.patch);
        if self.pre.as_str().unicode_len() > 0 {
            text.append("-");
            text.append(self.pre.as_str());
        }
        if self.build.as_str().unicode_len() > 0 {
            text.append("+");
            text.append(self.build.as_str());
        }
        assert(text@ =~= semver_text(self@));
        text
    }
}

/// An entry of the catalogue, as a value of the model.
pub struct EntryView {
    pub version: Seq<char>,
    pub semver: Option<SemVerView>,
    pub channel: Seq<char>,
    pub released: Option<Seq<char>>,
    pub eol: bool,
}

/// A kernel release with what is known of it.
#[derive(Debug, PartialEq)]
pub struct KernelVersion {
    /// The version as released, such as `6.6.0`.
    pub version: String,
    /// The version parsed as a semantic version, where it is one.
    pub semver: Option<SemVer>,
    /// The channel: `stable`, `mainline`, `longterm` or `other`.
    pub channel: String,
    /// The day of the release.
    pub released: Option<String>,
    /// Whether the release has reached its end of life.
    pub eol: bool,
}

/// The view of a text that may be missing.
pub open spec fn text_view(text: Option<String>) -> Option<Seq<char>> {
    match text {
        Some(t) => Some(t@),
        None => None,
    }
}

impl View for KernelVersion {
    type V = EntryView;

    open spec fn view(&self) -> EntryView {
        EntryView {
            version: self.version@,
            semver: match self.semver {
                Some(v) => Some(v@),
                None => None,
            },
            channel: self.channel@,
            released: text_view(self.released),
            eol: self.eol,
        }
    }
}

impl Clone for KernelVersion {
    fn clone(&self) -> (copy: Self)
        ensures
            copy@ == self@,
    {
        KernelVersion {
            version: self.version.clone(),
            semver: match &self.semver {
                Some(v) => Some(v.clone()),
                None => None,
            },
            channel: self.channel.clone(),
            released: match &self.released {
                Some(day) => Some(day.clone()),
                None => None,
            },
            eol: self.eol,
        }
    }
}

/// The entry for a release whose version parsed to `semver`.
pub open spec fn entry_with(
    version: Seq<char>,
    semver: Option<SemVerView>,
    channel: Seq<char>,
    released: Option<Seq<char>>,
    eol: bool,
) -> EntryView {
    EntryView { version, semver, channel, released, eol }
}

/// The entry for a release: its version is parsed as a semantic version.
pub open spec fn entry_of(
    version: Seq<char>,
    channel: Seq<char>,
    released: Option<Seq<char>>,
    eol: bool,
) -> EntryView {
    entry_with(version, semver_parse(version), channel, released, eol)
}

impl KernelVersion {
    /// The entry for a release whose version was parsed already.
    pub fn with_semver(
        version: &str,
        semver: Option<SemVer>,
        channel: &str,
        released: Option<&str>,
        eol: bool,
    ) -> (entry: Self)
        ensures
            entry@ == entry_with(
                version@,
                match semver {
                    Some(v) => Some(v@),
                    None => None,
                },
                channel@,
                match released {
                    Some(day) => Some(day@),
                    None => None,
                },
                eol,
            ),
    {
        KernelVersion {
            version: String::from_str(version),
            semver,
            channel: String::from_str(channel),
            released: match released {
                Some(day) => Some(String::from_str(day)),
                None => None,
            },
            eol,
        }
    }

    /// The entry for a release. Its version is parsed as a semantic version;
    /// where it is none, the entry holds no parsed version.
    pub fn new(version: &str, channel: &str, released: Option<&str>, eol: bool) -> (entry: Self)
        ensures
            entry@ == entry_of(
                version@,
                channel@,
                match released {
                    Some(day) => Some(day@),
                    None => None,
                },
                eol,
            ),
    {
        Self::with_semver(version, parse_semver(version), channel, released, eol)
    }
}

/// The views of a run of entries.
pub open spec fn entry_views(entries: Seq<KernelVersion>) -> Seq<EntryView> {
    Seq::new(entries.len(), |i: int| entries[i]@)
}

/// Appending an entry appends its view.
pub proof fn lemma_entry_views_push(entries: Seq<KernelVersion>, last: KernelVersion)
    ensures
        entry_views(entries.push(last)) == entry_views(entries).push(last@),
{
    assert(entry_views(entries.push(last)) =~= entry_views(entries).push(last@));
}

/// A release as kernel.org reports it, as a value of the model.
pub struct ReleaseView {
    pub version: Seq<char>,
    pub moniker: Seq<char>,
    pub released: Option<Seq<char>>,
    pub iseol: bool,
}

/// A release as kernel.org reports it.
#[derive(Debug, PartialEq, Eq)]
pub struct KernelOrgRelease {
    pub version: String,
    pub moniker: String,
    /// The day of the release, in ISO form.
    pub released: Option<String>,
    pub iseol: bool,
}

impl View for KernelOrgRelease {
    type V = ReleaseView;

    open spec fn view(&self) -> ReleaseView {
        ReleaseView {
            version: self.version@,
            moniker: self.moniker@,
            released: text_view(self.released),
            iseol: self.iseol,
        }
    }
}

/// The views of a run of releases.
pub open spec fn release_views(releases: Seq<KernelOrgRelease>) -> Seq<ReleaseView> {
    Seq::new(releases.len(), |i: int| releases[i]@)
}

/// The channel of a moniker: the three known monikers are channels of their
/// own, every other moniker falls under `other`.
pub open spec fn channel_for(moniker: Seq<char>) -> Seq<char> {
    if moniker == "mainline"@ {
        "mainline"@
    } else if moniker == "stable"@ {
        "stable"@
    } else if moniker == "longterm"@ {
        "longterm"@
    } else {
        "other"@
    }
}

/// The channel of a moniker.
pub fn channel_of(moniker: &str) -> (channel: &'static str)
    ensures
        channel@ == channel_for(moniker@),
{
    if str_eq(moniker, "mainline") {
        "mainline"
    } else if str_eq(moniker, "stable") {
        "stable"
    } else if str_eq(moniker, "longterm") {
        "longterm"
    } else {
        "other"
    }
}

/// The catalogue entry of a reported release.
pub open spec fn entry_of_release(release: ReleaseView) -> EntryView {
    entry_of(release.version, channel_for(release.moniker), release.released, release.iseol)
}

/// The catalogue entries of reported releases, in order.
pub open spec fn entries_of_releases(releases: Seq<ReleaseView>) -> Seq<EntryView> {
    Seq::new(releases.len(), |i: int| entry_of_release(releases[i]))
}

/// The catalogue entries of reported releases, in order.
pub fn versions_from_releases(releases: &Vec<KernelOrgRelease>) -> (versions: Vec<KernelVersion>)
    ensures
        entry_views(versions@) == entries_of_releases(release_views(releases@)),
{
    let ghost goal = entries_of_releases(release_views(releases@));
    let mut versions: Vec<KernelVersion> = Vec::new();
    let mut i: usize = 0;
    while i < releases.len()
        invariant
            i <= releases.len(),
            goal == entries_of_releases(release_views(releases@)),
            entry_views(versions@) == goal.take(i as int),
        decreases releases.len() - i,
    {
        let release = &releases[i];
        let released = match &release.released {
            Some(day) => Some(day.as_str()),
            None => None,
        };
        let entry = KernelVersion::new(
            release.version.as_str(),
            channel_of(release.moniker.as_str()),
            released,
            release.iseol,
        );
        proof {
            assert(entry@ == goal[i as int]);
            lemma_entry_views_push(versions@, entry);
            assert(goal.take(i + 1) =~= goal.take(i as int).push(goal[i as int]));
        }
        versions.push(entry);
        i += 1;
    }
    assert(goal.take(i as int) =~= goal);
    versions
}

/// A row of the built-in list.
pub struct FallbackRow {
    pub version: &'static str,
    pub channel: &'static str,
    pub released: &'static str,
}

/// The rows of the built-in list as version, channel and day of release.
pub open spec fn fallback_rows() -> Seq<(Seq<char>, Seq<char>, Seq<char>)> {
    seq![
        ("6.6.0"@, "longterm"@, "2023-10-29"@),
        ("6.7.0"@, "stable"@, "2024-01-07"@),
        ("6.8.0"@, "stable"@, "2024-03-10"@),
        ("6.9.0"@, "stable"@, "2024-05-12"@),
        ("6.10.0"@, "stable"@, "2024-07-14"@),
        ("6.11.0"@, "stable"@, "2024-09-15"@),
        ("6.12.0"@, "stable"@, "2024-11-17"@),
        ("6.13.0"@, "mainline"@, "2025-01-19"@),
        ("6.14.0"@, "mainline"@, "2025-03-23"@),
        ("6.15.0"@, "mainline"@, "2025-05-25"@),
        ("6.16.0"@, "mainline"@, "2025-07-27"@),
        ("6.17.0"@, "mainline"@, "2025-09-28"@),
    ]
}

/// The views of rows.
pub open spec fn row_views(rows: Seq<FallbackRow>) -> Seq<(Seq<char>, Seq<char>, Seq<char>)> {
    Seq::new(rows.len(), |i: int| (rows[i].version@, rows[i].channel@, rows[i].released@))
}

/// The built-in list: one entry for each row, none of them at its end of
/// life.
pub open spec fn fallback_versions() -> Seq<EntryView> {
    Seq::new(
        fallback_rows().len(),
        |i: int|
            entry_of(fallback_rows()[i].0, fallback_rows()[i].1, Some(fallback_rows()[i].2), false),
    )
}

/// The rows of the built-in list.
fn fallback_table() -> (rows: Vec<FallbackRow>)
    ensures
        row_views(rows@) == fallback_rows(),
{
    let rows = vec![
        FallbackRow { version: "6.6.0", channel: "longterm", released: "2023-10-29" },
        FallbackRow { version: "6.7.0", channel: "stable", released: "2024-01-07" },
        FallbackRow { version: "6.8.0", channel: "stable", released: "2024-03-10" },
        FallbackRow { version: "6.9.0", channel: "stable", released: "2024-05-12" },
        FallbackRow { version: "6.10.0", channel: "stable", released: "2024-07-14" },
        FallbackRow { version: "6.11.0", channel: "stable", released: "2024-09-15" },
        FallbackRow { version: "6.12.0", channel: "stable", released: "2024-11-17" },
        FallbackRow { version: "6.13.0", channel: "mainline", released: "2025-01-19" },
        FallbackRow { version: "6.14.0", channel: "mainline", released: "2025-03-23" },
        FallbackRow { version: "6.15.0", channel: "mainline", released: "2025-05-25" },
        FallbackRow { version: "6.16.0", channel: "mainline", released: "2025-07-27" },
        FallbackRow { version: "6.17.0", channel: "mainline", released: "2025-09-28" },
    ];
    assert(row_views(rows@) =~= fallback_rows());
    rows
}

/// The built-in list of releases, for when kernel.org cannot be reached.
pub fn get_fallback_versions() -> (versions: Vec<KernelVersion>)
    ensures
        entry_views(versions@) == fallback_versions(),
{
    let rows = fallback_table();
    let ghost goal = fallback_versions();
    let mut versions: Vec<KernelVersion> = Vec::new();
    let mut i: usize = 0;
    while i < rows.len()
        invariant
            i <= rows.len(),
            row_views(rows@) == fallback_rows(),
            goal == fallback_versions(),
            entry_views(versions@) == goal.take(i as int),
        decreases rows.len() - i,
    {
        let row = &rows[i];
        let entry = KernelVersion::new(row.version, row.channel, Some(row.released), false);
        proof {
            assert(row_views(rows@)[i as int] == (row.version@, row.channel@, row.released@));
            assert(entry@ == goal[i as int]);
            lemma_entry_views_push(versions@, entry);
            assert(goal.take(i + 1) =~= goal.take(i as int).push(goal[i as int]));
        }
        versions.push(entry);
        i += 1;
    }
    assert(goal.take(i as int) =~= goal);
    versions
}

/// How long a cached catalogue stays good, in seconds: one day.
pub const CACHE_TTL_SECS: u64 = 86400;

/// Whether a cache of the given age is still good. The age is `None` where
/// it cannot be told, and such a cache is not good.
pub open spec fn cache_is_valid(age_secs: Option<u64>) -> bool {
    match age_secs {
        Some(age) => age < CACHE_TTL_SECS,
        None => false,
    }
}

/// Whether a cache of the given age is still good.
pub fn is_cache_valid(age_secs: Option<u64>) -> (valid: bool)
    ensures
        valid == cache_is_valid(age_secs),
{
    match age_secs {
        Some(age) => age < CACHE_TTL_SECS,
        None => false,
    }
}

/// A cached catalogue as read back: the entries, and the age of the cache in
/// whole seconds where it can be told.
#[derive(Debug)]
pub struct CachedCatalog {
    pub versions: Vec<KernelVersion>,
    pub age_secs: Option<u64>,
}

/// The entries to serve from the cache, or `None` where the catalogue has to
/// be fetched: on a forced refresh, without a cache, or with a stale one.
pub fn cached_versions(force_refresh: bool, cache: Option<CachedCatalog>) -> (versions: Option<
    Vec<KernelVersion>,
>)
    ensures
        versions is Some <==> (!force_refresh && cache is Some && cache_is_valid(
            cache->0.age_secs,
        )),
        versions is Some ==> versions->0 == cache->0.versions,
{
    if force_refresh {
        return None;
    }
    match cache {
        Some(cached) => {
            if is_cache_valid(cached.age_secs) {
                Some(cached.versions)
            } else {
                None
            }
        },
        None => None,
    }
}

/// The catalogue after a fetch: the entries of what was fetched, or the
/// built-in list where the fetch failed.
pub fn versions_or_fallback(fetched: Option<Vec<KernelOrgRelease>>) -> (versions: Vec<
    KernelVersion,
>)
    ensures
        entry_views(versions@) == match fetched {
            Some(releases) => entries_of_releases(release_views(releases@)),
            None => fallback_versions(),
        },
{
    match fetched {
        Some(releases) => versions_from_releases(&releases),
        None => get_fallback_versions(),
    }
}

} // verus!
