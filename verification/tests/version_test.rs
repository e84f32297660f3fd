use kernelforge::version::KernelVersion;

#[test]
fn test_default_target() {
    assert_eq!(KernelVersion::default_target(), KernelVersion::V6_6_Lts);
}

#[test]
fn test_from_string_v6_6() {
    assert_eq!(KernelVersion::from_string("6.6"), Some(KernelVersion::V6_6_Lts));
    assert_eq!(KernelVersion::from_string("6.6-lts"), Some(KernelVersion::V6_6_Lts));
    assert_eq!(KernelVersion::from_string("6.6_lts"), Some(KernelVersion::V6_6_Lts));
    assert_eq!(KernelVersion::from_string("v6.6"), Some(KernelVersion::V6_6_Lts));
    assert_eq!(KernelVersion::from_string("v6_6_lts"), Some(KernelVersion::V6_6_Lts));
    assert_eq!(KernelVersion::from_string("V6.6"), Some(KernelVersion::V6_6_Lts));
}

#[test]
fn test_from_string_v6_17() {
    assert_eq!(KernelVersion::from_string("6.17"), Some(KernelVersion::V6_17));
    assert_eq!(KernelVersion::from_string("v6.17"), Some(KernelVersion::V6_17));
    assert_eq!(KernelVersion::from_string("v6_17"), Some(KernelVersion::V6_17));
    assert_eq!(KernelVersion::from_string("V6.17"), Some(KernelVersion::V6_17));
}

#[test]
fn test_from_string_invalid() {
    assert_eq!(KernelVersion::from_string(""), None);
    assert_eq!(KernelVersion::from_string("invalid"), None);
    assert_eq!(KernelVersion::from_string("5.10"), None);
    assert_eq!(KernelVersion::from_string("7.0"), None);
}

#[test]
fn test_to_string() {
    assert_eq!(KernelVersion::V6_6_Lts.to_string(), "6.6-LTS");
    assert_eq!(KernelVersion::V6_17.to_string(), "6.17");
}

#[test]
fn test_is_lts() {
    assert!(KernelVersion::V6_6_Lts.is_lts());
    assert!(!KernelVersion::V6_17.is_lts());
}

#[test]
fn test_version_numbers() {
    assert_eq!(KernelVersion::V6_6_Lts.major(), 6);
    assert_eq!(KernelVersion::V6_6_Lts.minor(), 6);
    assert_eq!(KernelVersion::V6_17.major(), 6);
    assert_eq!(KernelVersion::V6_17.minor(), 17);
}

#[test]
fn test_parse_round_trip_of_labels() {
    for version in [KernelVersion::V6_6_Lts, KernelVersion::V6_17] {
        assert_eq!(KernelVersion::from_string(version.to_string()), Some(version));
    }
}

#[test]
fn test_parse_same_tag_for_spellings() {
    let lts = Some(KernelVersion::V6_6_Lts);
    assert_eq!(KernelVersion::from_string("6.6-lts"), lts);
    assert_eq!(KernelVersion::from_string("V6_6_LTS"), lts);
    assert_eq!(KernelVersion::from_string("6.6"), lts);
    assert_eq!(KernelVersion::from_string("invalid"), None);
}

#[test]
fn test_parse_trims_white_space() {
    assert_eq!(KernelVersion::from_string("  6.17\t\n"), Some(KernelVersion::V6_17));
    assert_eq!(KernelVersion::from_string("\u{2003}6.6-LTS\u{a0}"), Some(KernelVersion::V6_6_Lts));
    assert_eq!(KernelVersion::from_string("6. 6"), None);
    assert_eq!(KernelVersion::from_string("   "), None);
}

#[test]
fn test_parse_rejects_near_misses() {
    assert_eq!(KernelVersion::from_string("6.6.1"), None);
    assert_eq!(KernelVersion::from_string("6.6-lt"), None);
    assert_eq!(KernelVersion::from_string("v"), None);
    assert_eq!(KernelVersion::from_string("v 6.6"), None);
    assert_eq!(KernelVersion::from_string("6_6"), None);
    assert_eq!(KernelVersion::from_string("6_6-lts"), None);
    assert_eq!(KernelVersion::from_string("6.17-lts"), None);
    assert_eq!(KernelVersion::from_string("6.6lts"), None);
    assert_eq!(KernelVersion::from_string("vv6.6"), None);
    assert_eq!(KernelVersion::from_string("6.170"), None);
    assert_eq!(KernelVersion::from_string("6,6"), None);
}

#[test]
fn test_full_names_and_default() {
    assert_eq!(KernelVersion::V6_6_Lts.full_name(), "Linux Kernel 6.6 LTS");
    assert_eq!(KernelVersion::V6_17.full_name(), "Linux Kernel 6.17");
    assert_eq!(KernelVersion::default(), KernelVersion::V6_6_Lts);
}

#[test]
fn test_leading_v_is_optional() {
    let lts = Some(KernelVersion::V6_6_Lts);
    for text in ["6.6", "6.6-lts", "6.6_lts", "6.6.lts", "6_6_lts"] {
        assert_eq!(KernelVersion::from_string(text), lts, "{}", text);
        assert_eq!(KernelVersion::from_string(&format!("v{}", text)), lts, "v{}", text);
        assert_eq!(KernelVersion::from_string(&format!("V{}", text.to_uppercase())), lts);
    }
    let latest = Some(KernelVersion::V6_17);
    for text in ["6.17", "6_17"] {
        assert_eq!(KernelVersion::from_string(text), latest, "{}", text);
        assert_eq!(KernelVersion::from_string(&format!("v{}", text)), latest, "v{}", text);
        assert_eq!(KernelVersion::from_string(&format!(" V{}\n", text)), latest);
    }
    assert_eq!(KernelVersion::from_string("v6.6-lts"), lts);
    assert_eq!(KernelVersion::from_string("V6_6_LTS"), lts);
}
