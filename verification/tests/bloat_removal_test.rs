use kernelforge::bloat_removal::{is_critical_module, BloatRemovalEngine, RemovableCategory};

fn strings(items: &[&str]) -> Vec<String> {
    items.iter().map(|s| s.to_string()).collect()
}

#[test]
fn test_engine_catalogue() {
    let engine = BloatRemovalEngine::new();
    let names: Vec<&str> = engine.removable_categories.iter().map(|c| c.name.as_str()).collect();
    assert_eq!(
        names,
        vec![
            "Architecture Cleanup",
            "Industrial Hardware Removal",
            "Enterprise Features Removal",
            "Embedded Systems Removal",
            "Legacy Hardware Removal",
            "Obscure Filesystems Removal",
            "Networking Protocols Cleanup",
            "Security Modules Cleanup",
            "Sound Drivers Cleanup",
        ]
    );
    assert_eq!(
        engine.removable_categories[2].modules,
        strings(&["CONFIG_CLUSTERING", "CONFIG_MAINFRAME_SUPPORT", "CONFIG_VIRTUALIZATION"])
    );
    assert_eq!(engine.removable_categories[8].modules, strings(&["CONFIG_ALSA", "CONFIG_PULSEWIRE"]));
    assert_eq!(engine.critical_modules, strings(&["CONFIG_X86_64"]));
    assert_eq!(engine.estimate_size_savings(), 1024);
}

#[test]
fn test_analyze_and_remove_in_catalogue_order() {
    let engine = BloatRemovalEngine::new();
    let removed = engine.analyze_and_remove(strings(&[
        "Industrial Hardware Removal",
        "Architecture Cleanup",
        "Unknown",
    ]));
    assert_eq!(
        removed,
        strings(&[
            "CONFIG_ARM",
            "CONFIG_MIPS",
            "CONFIG_POWERPC",
            "CONFIG_RISCV",
            "CONFIG_INFINIBAND",
            "CONFIG_FIBRE_CHANNEL",
            "CONFIG_SCSI_TAPE",
            "CONFIG_LEGACY_HARDWARE",
        ])
    );
    assert!(engine.analyze_and_remove(Vec::new()).is_empty());
    assert!(engine.analyze_and_remove(strings(&["architecture cleanup"])).is_empty());
}

#[test]
fn test_engine_spares_critical_modules() {
    let mut engine = BloatRemovalEngine::new();
    engine.removable_categories.push(RemovableCategory::new(
        "Everything",
        &vec!["CONFIG_X86_64", "CONFIG_FOO", "CONFIG_X86_64", "CONFIG_BAR"],
    ));
    engine.critical_modules.push("CONFIG_BAR".to_string());
    let removed = engine.analyze_and_remove(strings(&["Everything"]));
    assert_eq!(removed, strings(&["CONFIG_FOO"]));
    assert!(!engine.may_remove("CONFIG_X86_64"));
    assert!(!engine.may_remove("CONFIG_BAR"));
    assert!(engine.may_remove("CONFIG_FOO"));
    assert!(engine.may_remove("config_x86_64"));
}

#[test]
fn test_critical_module_names() {
    assert!(is_critical_module("CONFIG_X86_64"));
    assert!(!is_critical_module("CONFIG_X86_6"));
    assert!(!is_critical_module("CONFIG_X86_64 "));
    assert!(!is_critical_module(""));
}
