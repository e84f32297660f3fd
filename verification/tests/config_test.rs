use kernelforge::config::{KernelConfig, OptionRule};

#[test]
fn test_set_and_emit() {
    let mut config = KernelConfig::new();
    config.set("CONFIG_X86_64", "y");
    config.set("CONFIG_HZ", "1000");

    let output = config.emit();
    assert!(output.contains("CONFIG_X86_64=y"));
    assert!(output.contains("CONFIG_HZ=1000"));
}

#[test]
fn test_unset_and_emit() {
    let mut config = KernelConfig::new();
    config.unset("CONFIG_ARM");
    config.unset("CONFIG_MIPS");

    let output = config.emit();
    assert!(output.contains("# CONFIG_ARM is not set"));
    assert!(output.contains("# CONFIG_MIPS is not set"));
}

#[test]
fn test_mixed_set_unset() {
    let mut config = KernelConfig::new();
    config.set("CONFIG_X86_64", "y");
    config.unset("CONFIG_ARM");
    config.set("CONFIG_HZ", "1000");

    let output = config.emit();
    assert!(output.contains("CONFIG_X86_64=y"));
    assert!(output.contains("# CONFIG_ARM is not set"));
    assert!(output.contains("CONFIG_HZ=1000"));
}

#[test]
fn test_x86_64_baseline() {
    let config = KernelConfig::x86_64_baseline();
    let output = config.emit();

    assert!(output.contains("CONFIG_X86_64=y"));
    assert!(output.contains("CONFIG_64BIT=y"));

    assert!(output.contains("# CONFIG_ARM is not set"));
    assert!(output.contains("# CONFIG_ARM64 is not set"));
    assert!(output.contains("# CONFIG_MIPS is not set"));
    assert!(output.contains("# CONFIG_POWERPC is not set"));
    assert!(output.contains("# CONFIG_RISCV is not set"));
    assert!(output.contains("# CONFIG_S390 is not set"));
    assert!(output.contains("# CONFIG_SPARC is not set"));

    assert!(output.contains("# CONFIG_ISA is not set"));
    assert!(output.contains("# CONFIG_FLOPPY is not set"));
}

#[test]
fn test_desktop_optimizations() {
    let mut config = KernelConfig::new();
    config.apply_desktop_optimizations();

    let output = config.emit();

    assert!(output.contains("CONFIG_HZ_1000=y"));
    assert!(output.contains("CONFIG_HZ=1000"));
    assert!(output.contains("CONFIG_PREEMPT=y"));

    assert!(output.contains("CONFIG_FUTEX=y"));
    assert!(output.contains("CONFIG_FUTEX2=y"));

    assert!(output.contains("CONFIG_EXT4_FS=y"));
    assert!(output.contains("CONFIG_BTRFS_FS=y"));
    assert!(output.contains("# CONFIG_REISERFS_FS is not set"));
}

#[test]
fn test_bloat_removal() {
    let mut config = KernelConfig::new();
    config.apply_bloat_removal(&["Industrial Hardware Removal"]);

    let output = config.emit();
    assert!(output.contains("# CONFIG_INFINIBAND is not set"));
    assert!(output.contains("# CONFIG_FIBRE_CHANNEL is not set"));
}

#[test]
fn test_desktop_gaming_complete() {
    let config = KernelConfig::desktop_gaming();
    let output = config.emit();

    assert!(output.contains("CONFIG_X86_64=y"));
    assert!(output.contains("CONFIG_HZ=1000"));
    assert!(output.contains("# CONFIG_ARM is not set"));
    assert!(output.contains("# CONFIG_INFINIBAND is not set"));
}

#[test]
fn test_deterministic_output() {
    let mut config1 = KernelConfig::new();
    config1.set("CONFIG_A", "y");
    config1.set("CONFIG_B", "y");

    let mut config2 = KernelConfig::new();
    config2.set("CONFIG_B", "y");
    config2.set("CONFIG_A", "y");

    assert_eq!(config1.emit(), config2.emit());
}

#[test]
fn test_emit_exact_text_sorted() {
    let mut config = KernelConfig::new();
    config.set("CONFIG_Z", "y");
    config.unset("CONFIG_M");
    config.set("CONFIG_A", "1000");
    config.set("CONFIG_AB", "m");
    assert_eq!(
        config.emit(),
        "CONFIG_A=1000\nCONFIG_AB=m\n# CONFIG_M is not set\nCONFIG_Z=y\n"
    );
}

#[test]
fn test_emit_empty_is_lone_newline() {
    assert_eq!(KernelConfig::new().emit(), "\n");
    assert_eq!(KernelConfig::new().len(), 0);
}

#[test]
fn test_last_write_wins() {
    let mut config = KernelConfig::new();
    config.set("CONFIG_A", "y");
    config.unset("CONFIG_A");
    assert_eq!(config.emit(), "# CONFIG_A is not set\n");
    config.set("CONFIG_A", "m");
    config.set("CONFIG_A", "n");
    assert_eq!(config.emit(), "CONFIG_A=n\n");
    assert_eq!(config.len(), 1);
}

#[test]
fn test_order_independence_with_repeats() {
    let mut first = KernelConfig::new();
    first.unset("B");
    first.set("A", "1");
    first.set("C", "x");
    first.set("B", "2");
    first.unset("C");

    let mut second = KernelConfig::new();
    second.unset("C");
    second.set("B", "2");
    second.set("A", "0");
    second.set("A", "1");

    assert_eq!(first.emit(), second.emit());
    assert_eq!(first.emit(), "A=1\nB=2\n# C is not set\n");
}

#[test]
fn test_names_sort_by_code_point() {
    let mut config = KernelConfig::new();
    config.set("b", "1");
    config.set("B", "2");
    config.set("a_", "3");
    config.set("a", "4");
    config.set("", "5");
    config.set("\u{e9}", "6");
    config.set("z", "7");
    assert_eq!(config.emit(), "=5\nB=2\na=4\na_=3\nb=1\nz=7\n\u{e9}=6\n");
    assert_eq!(config.name_at(0), "");
    assert_eq!(config.name_at(1), "B");
    assert_eq!(config.value_at(1), Some("2"));
}

#[test]
fn test_baseline_exact_lines() {
    let output = KernelConfig::x86_64_baseline().emit();
    let lines: Vec<&str> = output.lines().collect();
    assert_eq!(lines.len(), 26);
    assert_eq!(lines[0], "CONFIG_64BIT=y");
    assert!(lines.contains(&"CONFIG_X86_64=y"));
    assert!(lines.contains(&"# CONFIG_IDE is not set"));
    assert!(lines.contains(&"# CONFIG_HEXAGON is not set"));
    let keys: Vec<&str> = lines
        .iter()
        .map(|l| l.trim_start_matches("# ").split(|c| c == '=' || c == ' ').next().unwrap())
        .collect();
    let mut sorted = keys.clone();
    sorted.sort();
    assert_eq!(keys, sorted);
    assert!(output.ends_with("CONFIG_X86_64=y\n"));
    assert!(!output.ends_with("\n\n"));
}

#[test]
fn test_industrial_hardware_removal() {
    let mut config = KernelConfig::x86_64_baseline();
    let before = config.emit();
    config.apply_bloat_removal(&["Industrial Hardware Removal"]);
    let output = config.emit();
    for key in [
        "CONFIG_INFINIBAND",
        "CONFIG_FIBRE_CHANNEL",
        "CONFIG_SCSI_TAPE",
        "CONFIG_LEGACY_HARDWARE",
    ] {
        assert!(output.lines().any(|l| l == format!("# {} is not set", key)));
    }
    assert!(before.lines().any(|l| l == "CONFIG_X86_64=y"));
    assert!(output.lines().any(|l| l == "CONFIG_X86_64=y"));
    assert_eq!(output.lines().count(), before.lines().count() + 4);
}

#[test]
fn test_unknown_and_overlapping_categories_change_nothing() {
    let mut config = KernelConfig::x86_64_baseline();
    let before = config.emit();
    config.apply_bloat_removal(&[
        "Architecture Cleanup",
        "Legacy Hardware Removal",
        "No Such Category",
        "industrial hardware removal",
        "Sound Drivers Cleanup",
        "",
    ]);
    assert_eq!(config.emit(), before);
    let mut empty = KernelConfig::new();
    empty.apply_bloat_removal(&[]);
    assert_eq!(empty.emit(), "\n");
}

#[test]
fn test_category_lists() {
    let mut config = KernelConfig::new();
    config.apply_bloat_removal(&["Enterprise Features Removal"]);
    assert_eq!(
        config.emit(),
        "# CONFIG_CLUSTERING is not set\n# CONFIG_MAINFRAME_SUPPORT is not set\n"
    );
    let mut config = KernelConfig::new();
    config.apply_bloat_removal(&["Embedded Systems Removal", "Networking Protocols Cleanup"]);
    assert_eq!(
        config.emit(),
        "# CONFIG_AMATEUR_RADIO is not set\n# CONFIG_APPLETALK is not set\n\
         # CONFIG_DECNET is not set\n# CONFIG_I2C_SENSORS is not set\n\
         # CONFIG_INDUSTRIAL_BUSES is not set\n# CONFIG_SPI is not set\n\
         # CONFIG_X25 is not set\n"
    );
}

#[test]
fn test_removal_keeps_critical_option() {
    let all = [
        "Architecture Cleanup",
        "Industrial Hardware Removal",
        "Enterprise Features Removal",
        "Embedded Systems Removal",
        "Legacy Hardware Removal",
        "Networking Protocols Cleanup",
    ];
    let mut config = KernelConfig::new();
    config.apply_bloat_removal(&all);
    assert!(!config.emit().contains("CONFIG_X86_64"));

    let mut config = KernelConfig::new();
    config.set("CONFIG_X86_64", "y");
    config.apply_bloat_removal(&all);
    assert!(config.emit().contains("CONFIG_X86_64=y\n"));
    assert!(!config.emit().contains("# CONFIG_X86_64 is not set"));
}

#[test]
fn test_desktop_layer_overrides() {
    let mut config = KernelConfig::new();
    config.set("CONFIG_HZ", "250");
    config.unset("CONFIG_PREEMPT");
    config.set("CONFIG_OTHER", "m");
    config.apply_desktop_optimizations();
    let output = config.emit();
    assert!(output.contains("CONFIG_HZ=1000\n"));
    assert!(output.contains("CONFIG_PREEMPT=y\n"));
    assert!(output.contains("CONFIG_OTHER=m\n"));
    assert!(output.contains("# CONFIG_EMBEDDED is not set\n"));
    assert_eq!(output.lines().count(), 24);
}

#[test]
fn test_desktop_gaming_size() {
    let config = KernelConfig::desktop_gaming();
    assert_eq!(config.len(), 26 + 23 + 4 + 2 + 3 + 4);
}

#[test]
fn test_default_config_is_empty() {
    assert_eq!(KernelConfig::default().emit(), KernelConfig::new().emit());
}

#[test]
fn test_rules_pass_over_clearing_a_critical_option() {
    let rules = vec![
        OptionRule { name: "CONFIG_A", value: Some("1") },
        OptionRule { name: "CONFIG_X86_64", value: None },
        OptionRule { name: "CONFIG_B", value: None },
    ];
    let mut config = KernelConfig::new();
    config.apply_rules(&rules);
    assert_eq!(config.emit(), "CONFIG_A=1\n# CONFIG_B is not set\n");

    let mut config = KernelConfig::new();
    config.set("CONFIG_X86_64", "y");
    config.apply_rules(&rules);
    assert_eq!(config.emit(), "CONFIG_A=1\n# CONFIG_B is not set\nCONFIG_X86_64=y\n");

    let mut config = KernelConfig::new();
    config.apply_rules(&vec![OptionRule { name: "CONFIG_X86_64", value: Some("m") }]);
    assert_eq!(config.emit(), "CONFIG_X86_64=m\n");

    let mut config = KernelConfig::new();
    config.set("CONFIG_X86_64", "y");
    config.apply_desktop_optimizations();
    assert!(config.emit().contains("CONFIG_X86_64=y\n"));
}
