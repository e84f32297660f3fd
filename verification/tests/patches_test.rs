use kernelforge::patches::{Patch, PatchResolver};
use kernelforge::version::KernelVersion;

#[test]
fn test_get_patches_v6_6() {
    let patches = PatchResolver::get_patches_for_version(KernelVersion::V6_6_Lts);
    assert!(!patches.is_empty());
    assert!(patches.iter().any(|p| p.name == "BORE"));
    assert!(patches.iter().any(|p| p.name == "BBRv3"));
    assert!(patches.iter().any(|p| p.name == "FUTEX2"));
}

#[test]
fn test_get_patches_v6_17() {
    let patches = PatchResolver::get_patches_for_version(KernelVersion::V6_17);
    assert!(!patches.is_empty());
    assert!(patches.iter().any(|p| p.name == "BORE"));
    assert!(patches.iter().any(|p| p.name == "FUTEX2"));
}

#[test]
fn test_patch_availability() {
    assert!(PatchResolver::is_patch_available(KernelVersion::V6_6_Lts, "BORE"));
    assert!(PatchResolver::is_patch_available(KernelVersion::V6_17, "BORE"));

    assert!(PatchResolver::is_patch_available(KernelVersion::V6_6_Lts, "PREEMPT_RT"));
    assert!(!PatchResolver::is_patch_available(KernelVersion::V6_17, "PREEMPT_RT"));
}

#[test]
fn patches_test_external_patches() {
    let v6_6_external = PatchResolver::get_external_patches(KernelVersion::V6_6_Lts);
    let v6_17_external = PatchResolver::get_external_patches(KernelVersion::V6_17);

    assert!(v6_6_external.iter().any(|p| p.name == "BORE"));
    assert!(v6_17_external.iter().any(|p| p.name == "BORE"));

    assert!(!v6_6_external.iter().any(|p| p.name == "FUTEX2"));
    assert!(!v6_17_external.iter().any(|p| p.name == "FUTEX2"));
}

#[test]
fn test_get_patches_by_feature() {
    let bore_patches = PatchResolver::get_patches_by_feature(KernelVersion::V6_6_Lts, "bore");
    assert_eq!(bore_patches.len(), 1);
    assert_eq!(bore_patches[0].name, "BORE");
}

#[test]
fn test_upstream_vs_external() {
    let patches_6_6 = PatchResolver::get_patches_for_version(KernelVersion::V6_6_Lts);
    let futex2_patch = patches_6_6.iter().find(|p| p.name == "FUTEX2").unwrap();
    assert!(futex2_patch.is_upstream);

    let bore_patch = patches_6_6.iter().find(|p| p.name == "BORE").unwrap();
    assert!(!bore_patch.is_upstream);
}

#[test]
fn test_catalog_order_and_fields() {
    let patches = PatchResolver::get_patches_for_version(KernelVersion::V6_6_Lts);
    let names: Vec<&str> = patches.iter().map(|p| p.name.as_str()).collect();
    assert_eq!(names, vec!["BORE", "BBRv3", "FUTEX2", "PREEMPT_RT"]);
    assert_eq!(
        patches[0],
        Patch::new(
            "BORE",
            "Burst-Oriented Response Enhancer scheduler - reduces latency for gaming",
            "https://github.com/firelzrd/bore-scheduler/6.6",
            false,
        )
    );
    assert_eq!(patches[2].source, "upstream");

    let patches = PatchResolver::get_patches_for_version(KernelVersion::V6_17);
    let names: Vec<&str> = patches.iter().map(|p| p.name.as_str()).collect();
    assert_eq!(names, vec!["BORE", "BBRv3", "FUTEX2"]);
    assert_eq!(patches[1].source, "upstream");
    assert!(patches[1].is_upstream);
}

#[test]
fn test_external_and_upstream_partition_catalog() {
    for version in [KernelVersion::V6_6_Lts, KernelVersion::V6_17] {
        let all = PatchResolver::get_patches_for_version(version);
        let external = PatchResolver::get_external_patches(version);
        let upstream: Vec<Patch> = all.iter().filter(|p| p.is_upstream).cloned().collect();
        assert_eq!(external.len() + upstream.len(), all.len());
        for patch in &all {
            assert_ne!(external.contains(patch), upstream.contains(patch));
        }
        for patch in &external {
            assert!(all.contains(patch));
            assert!(!patch.is_upstream);
        }
    }
    let external = PatchResolver::get_external_patches(KernelVersion::V6_6_Lts);
    let names: Vec<&str> = external.iter().map(|p| p.name.as_str()).collect();
    assert_eq!(names, vec!["BORE", "BBRv3", "PREEMPT_RT"]);
    let external = PatchResolver::get_external_patches(KernelVersion::V6_17);
    let names: Vec<&str> = external.iter().map(|p| p.name.as_str()).collect();
    assert_eq!(names, vec!["BORE"]);
}

#[test]
fn test_availability_ignores_case_but_not_spelling() {
    assert!(PatchResolver::is_patch_available(KernelVersion::V6_6_Lts, "bbrV3"));
    assert!(PatchResolver::is_patch_available(KernelVersion::V6_6_Lts, "preempt_rt"));
    assert!(!PatchResolver::is_patch_available(KernelVersion::V6_6_Lts, "BOR"));
    assert!(!PatchResolver::is_patch_available(KernelVersion::V6_6_Lts, "BORE "));
    assert!(!PatchResolver::is_patch_available(KernelVersion::V6_6_Lts, ""));
}

#[test]
fn test_feature_filter() {
    let found = PatchResolver::get_patches_by_feature(KernelVersion::V6_6_Lts, "B");
    let names: Vec<&str> = found.iter().map(|p| p.name.as_str()).collect();
    assert_eq!(names, vec!["BORE", "BBRv3"]);
    let found = PatchResolver::get_patches_by_feature(KernelVersion::V6_6_Lts, "t");
    let names: Vec<&str> = found.iter().map(|p| p.name.as_str()).collect();
    assert_eq!(names, vec!["FUTEX2", "PREEMPT_RT"]);
    let all = PatchResolver::get_patches_by_feature(KernelVersion::V6_17, "");
    assert_eq!(all.len(), 3);
    let none = PatchResolver::get_patches_by_feature(KernelVersion::V6_17, "preempt");
    assert!(none.is_empty());
    let none = PatchResolver::get_patches_by_feature(KernelVersion::V6_17, "BOREX");
    assert!(none.is_empty());
}

#[test]
fn test_patch_clone_keeps_fields() {
    let patch = Patch::new("A", "b", "c", true);
    let copy = patch.clone();
    assert_eq!(copy, patch);
    assert_eq!(copy.description, "b");
}
