use kernelforge::version_catalog::{
    cached_versions, channel_of, get_fallback_versions, is_cache_valid, versions_from_releases,
    versions_or_fallback, CachedCatalog, KernelOrgRelease, KernelVersion, SemVer, CACHE_TTL_SECS,
};
use semver::Version;

#[test]
fn test_fallback_versions() {
    let versions = get_fallback_versions();
    assert!(!versions.is_empty());

    let has_6_6 = versions.iter().any(|v| v.version.starts_with("6.6"));
    let has_6_17 = versions.iter().any(|v| v.version.starts_with("6.17"));

    assert!(has_6_6, "Should include 6.6.x version");
    assert!(has_6_17, "Should include 6.17.x version");
}

#[test]
fn test_semver_parsing() {
    let version = KernelVersion::new("6.6.0", "stable", None, false);

    assert!(version.semver.is_some());
    assert_eq!(version.semver.unwrap().to_string(), "6.6.0");
}

#[test]
fn test_semver_comparison() {
    let v1 = Version::parse("6.6.0").unwrap();
    let v2 = Version::parse("6.17.0").unwrap();

    assert!(v2 > v1);
    assert!(v1 < v2);
    assert_eq!(v1.major, 6);
    assert_eq!(v1.minor, 6);
    assert_eq!(v2.minor, 17);
}

#[test]
fn test_entries_parse_their_version() {
    let entry = KernelVersion::new("6.17.3", "mainline", Some("2025-10-01"), true);
    assert_eq!(entry.version, "6.17.3");
    assert_eq!(entry.channel, "mainline");
    assert_eq!(entry.released, Some("2025-10-01".to_string()));
    assert!(entry.eol);
    assert_eq!(
        entry.semver,
        Some(SemVer { major: 6, minor: 17, patch: 3, pre: String::new(), build: String::new() })
    );

    let entry = KernelVersion::new("6.18.0-rc2+build.5", "mainline", None, false);
    let semver = entry.semver.unwrap();
    assert_eq!(
        semver,
        SemVer { major: 6, minor: 18, patch: 0, pre: "rc2".to_string(), build: "build.5".to_string() }
    );
    assert_eq!(semver.to_string(), "6.18.0-rc2+build.5");
    assert_eq!(semver.to_string(), Version::parse("6.18.0-rc2+build.5").unwrap().to_string());

    for text in ["6.6", "6.18-rc1", "next-20251001", "", "6.06.0", "6.6.0 "] {
        assert_eq!(KernelVersion::new(text, "other", None, false).semver, None);
    }
}

#[test]
fn test_semver_text() {
    let plain = SemVer { major: 0, minor: 10, patch: 18446744073709551615, pre: String::new(), build: String::new() };
    assert_eq!(plain.to_string(), "0.10.18446744073709551615");
    let build = SemVer { major: 1, minor: 2, patch: 3, pre: String::new(), build: "b".to_string() };
    assert_eq!(build.to_string(), "1.2.3+b");
    let pre = SemVer { major: 1, minor: 2, patch: 3, pre: "a.1".to_string(), build: String::new() };
    assert_eq!(pre.to_string(), "1.2.3-a.1");
}

#[test]
fn test_fallback_versions_exact() {
    let versions = get_fallback_versions();
    let rows: Vec<(&str, &str, &str)> = versions
        .iter()
        .map(|v| (v.version.as_str(), v.channel.as_str(), v.released.as_deref().unwrap()))
        .collect();
    assert_eq!(
        rows,
        vec![
            ("6.6.0", "longterm", "2023-10-29"),
            ("6.7.0", "stable", "2024-01-07"),
            ("6.8.0", "stable", "2024-03-10"),
            ("6.9.0", "stable", "2024-05-12"),
            ("6.10.0", "stable", "2024-07-14"),
            ("6.11.0", "stable", "2024-09-15"),
            ("6.12.0", "stable", "2024-11-17"),
            ("6.13.0", "mainline", "2025-01-19"),
            ("6.14.0", "mainline", "2025-03-23"),
            ("6.15.0", "mainline", "2025-05-25"),
            ("6.16.0", "mainline", "2025-07-27"),
            ("6.17.0", "mainline", "2025-09-28"),
        ]
    );
    for (i, entry) in versions.iter().enumerate() {
        assert!(!entry.eol);
        let semver = entry.semver.as_ref().unwrap();
        assert_eq!((semver.major, semver.minor, semver.patch), (6, 6 + i as u64, 0));
        assert_eq!(semver.to_string(), entry.version);
    }
}

#[test]
fn test_channels() {
    assert_eq!(channel_of("mainline"), "mainline");
    assert_eq!(channel_of("stable"), "stable");
    assert_eq!(channel_of("longterm"), "longterm");
    assert_eq!(channel_of("linux-next"), "other");
    assert_eq!(channel_of("Stable"), "other");
    assert_eq!(channel_of(""), "other");
}

fn release(version: &str, moniker: &str, released: Option<&str>, iseol: bool) -> KernelOrgRelease {
    KernelOrgRelease {
        version: version.to_string(),
        moniker: moniker.to_string(),
        released: released.map(|d| d.to_string()),
        iseol,
    }
}

#[test]
fn test_versions_from_releases() {
    let releases = vec![
        release("6.18-rc1", "mainline", Some("2025-10-12"), false),
        release("6.17.2", "stable", Some("2025-10-12"), false),
        release("5.4.300", "longterm", None, true),
        release("next-20251010", "linux-next", Some("2025-10-10"), false),
    ];
    let versions = versions_from_releases(&releases);
    assert_eq!(
        versions,
        vec![
            KernelVersion::new("6.18-rc1", "mainline", Some("2025-10-12"), false),
            KernelVersion::new("6.17.2", "stable", Some("2025-10-12"), false),
            KernelVersion::new("5.4.300", "longterm", None, true),
            KernelVersion::new("next-20251010", "other", Some("2025-10-10"), false),
        ]
    );
    assert_eq!(versions[0].semver, None);
    assert_eq!(versions[2].semver.as_ref().unwrap().patch, 300);
    assert!(versions_from_releases(&Vec::new()).is_empty());
}

#[test]
fn test_versions_or_fallback() {
    assert_eq!(versions_or_fallback(None), get_fallback_versions());
    assert!(versions_or_fallback(Some(Vec::new())).is_empty());
    let fetched = versions_or_fallback(Some(vec![release("6.17.2", "stable", None, false)]));
    assert_eq!(fetched, vec![KernelVersion::new("6.17.2", "stable", None, false)]);
}

#[test]
fn test_cache_validity() {
    assert_eq!(CACHE_TTL_SECS, 24 * 60 * 60);
    assert!(is_cache_valid(Some(0)));
    assert!(is_cache_valid(Some(86399)));
    assert!(!is_cache_valid(Some(86400)));
    assert!(!is_cache_valid(Some(u64::MAX)));
    assert!(!is_cache_valid(None));
}

#[test]
fn test_cached_versions() {
    let entries = || vec![KernelVersion::new("6.6.0", "longterm", None, false)];
    let cache = |age| Some(CachedCatalog { versions: entries(), age_secs: age });
    assert_eq!(cached_versions(false, cache(Some(10))), Some(entries()));
    assert_eq!(cached_versions(true, cache(Some(10))), None);
    assert_eq!(cached_versions(false, cache(Some(86400))), None);
    assert_eq!(cached_versions(false, cache(None)), None);
    assert_eq!(cached_versions(false, None), None);
    assert_eq!(cached_versions(true, None), None);
}
