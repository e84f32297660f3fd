use kernelforge::toolchain::{
    join_spaced, parse_version_output, BuildPlan, CommandLine, Detection, Findings, LtoConfig,
    Planning, PresenceProbe, Probe, Toolchain, ToolchainDetector, VersionProbe,
};

fn strings(items: &[&str]) -> Vec<String> {
    items.iter().map(|s| s.to_string()).collect()
}

fn succeeded(output: &str) -> VersionProbe {
    VersionProbe::Succeeded { output: output.to_string() }
}

/// Runs a detection to its end, answering each question from `answers`.
fn run_detection(detector: &ToolchainDetector, answers: &Findings) -> (Detection, Vec<Probe>) {
    let mut findings = Findings::new();
    let mut asked = Vec::new();
    loop {
        match detector.detect(&findings) {
            Detection::Run { probe, command } => {
                assert_eq!(command, detector.probe_command(probe));
                assert!(!asked.contains(&probe));
                asked.push(probe);
                match probe {
                    Probe::Clang => findings.clang = clone_probe(&answers.clang),
                    Probe::Lld => findings.lld = answers.lld,
                    Probe::Gcc => findings.gcc = clone_probe(&answers.gcc),
                }
            }
            done => return (done, asked),
        }
    }
}

fn clone_probe(probe: &VersionProbe) -> VersionProbe {
    match probe {
        VersionProbe::NotRun => VersionProbe::NotRun,
        VersionProbe::Failed => VersionProbe::Failed,
        VersionProbe::Succeeded { output } => succeeded(output),
    }
}

#[test]
fn test_toolchain_name() {
    let clang = Toolchain::Clang { version: "14.0.0".to_string() };
    assert_eq!(clang.name(), "clang");

    let gcc = Toolchain::Gcc { version: "11.3.0".to_string() };
    assert_eq!(gcc.name(), "gcc");
}

#[test]
fn test_toolchain_version() {
    let clang = Toolchain::Clang { version: "14.0.0".to_string() };
    assert_eq!(clang.version(), "14.0.0");

    let gcc = Toolchain::Gcc { version: "11.3.0".to_string() };
    assert_eq!(gcc.version(), "11.3.0");
}

#[test]
fn test_build_plan_clang() {
    let toolchain = Toolchain::Clang { version: "14.0.0".to_string() };
    let plan = BuildPlan::new(toolchain);

    assert_eq!(plan.lto, LtoConfig::ThinLto);
    assert!(plan.make_flags.contains(&"LLVM=1".to_string()));
    assert!(plan
        .kconfig_options
        .iter()
        .any(|(k, v)| k == "CONFIG_LTO_CLANG_THIN" && v == "y"));
}

#[test]
fn test_build_plan_gcc() {
    let toolchain = Toolchain::Gcc { version: "11.3.0".to_string() };
    let plan = BuildPlan::new(toolchain);

    assert_eq!(plan.lto, LtoConfig::Off);
    assert!(!plan.make_flags.contains(&"LLVM=1".to_string()));
    assert!(plan
        .kconfig_options
        .iter()
        .any(|(k, v)| k == "CONFIG_CC_OPTIMIZE_FOR_PERFORMANCE" && v == "y"));
}

#[test]
fn test_make_command() {
    let toolchain = Toolchain::Clang { version: "14.0.0".to_string() };
    let plan = BuildPlan::new(toolchain);

    let cmd = plan.make_command();
    assert_eq!(cmd[0], "make");
    assert!(cmd.contains(&"LLVM=1".to_string()));
}

#[test]
fn test_build_plan_description() {
    let toolchain = Toolchain::Clang { version: "14.0.0".to_string() };
    let plan = BuildPlan::new(toolchain);

    let desc = plan.description();
    assert!(desc.contains("clang"));
    assert!(desc.contains("14.0.0"));
    assert!(desc.contains("ThinLto"));
}

#[test]
fn test_detector_default() {
    let detector = ToolchainDetector::default();
    assert!(detector.custom_path().is_none());
}

#[test]
fn test_detector_with_path() {
    let detector = ToolchainDetector::with_path("/custom/path".to_string());
    assert_eq!(detector.custom_path(), Some("/custom/path"));
}

#[test]
fn test_detector_finds_toolchain() {
    let detector = ToolchainDetector::new();
    let answers = Findings {
        clang: VersionProbe::Failed,
        lld: PresenceProbe::Absent,
        gcc: succeeded("gcc (GCC) 13.2.1 20230801\nCopyright (C) 2023\n"),
    };
    let (result, _) = run_detection(&detector, &answers);
    match result {
        Detection::Found(toolchain) => {
            assert!(!toolchain.version().is_empty());
        }
        Detection::NotFound(_) => {}
        Detection::Run { .. } => unreachable!(),
    }
}

#[test]
fn test_create_build_plan() {
    let detector = ToolchainDetector::new();
    let findings = Findings {
        clang: succeeded("clang version 17.0.6\n"),
        lld: PresenceProbe::Present,
        gcc: VersionProbe::NotRun,
    };
    match detector.create_build_plan(&findings) {
        Planning::Planned(plan) => {
            assert!(!plan.toolchain.version().is_empty());
            assert!(!plan.make_command().is_empty());
        }
        Planning::NotFound(_) => {}
        Planning::Run { .. } => unreachable!(),
    }
}

#[test]
fn test_plans_exact() {
    let plan = BuildPlan::new(Toolchain::Clang { version: "17.0.6".to_string() });
    assert_eq!(plan.toolchain, Toolchain::Clang { version: "17.0.6".to_string() });
    assert_eq!(plan.make_flags, strings(&["LLVM=1"]));
    assert_eq!(
        plan.kconfig_options,
        vec![
            ("CONFIG_LTO_CLANG_THIN".to_string(), "y".to_string()),
            ("CONFIG_CC_OPTIMIZE_FOR_PERFORMANCE".to_string(), "y".to_string()),
        ]
    );
    assert_eq!(plan.make_command(), strings(&["make", "LLVM=1"]));
    assert_eq!(plan.description(), "Toolchain: clang 17.0.6, LTO: ThinLto");

    let plan = BuildPlan::new(Toolchain::Gcc { version: "13.2.1".to_string() });
    assert!(plan.make_flags.is_empty());
    assert_eq!(
        plan.kconfig_options,
        vec![("CONFIG_CC_OPTIMIZE_FOR_PERFORMANCE".to_string(), "y".to_string())]
    );
    assert_eq!(plan.make_command(), strings(&["make"]));
    assert_eq!(plan.description(), "Toolchain: gcc 13.2.1, LTO: None");
    assert_eq!(LtoConfig::FullLto.name(), "FullLto");
}

#[test]
fn test_parse_version_output() {
    assert_eq!(parse_version_output("clang version 17.0.6\nTarget: x86_64\n"), "17.0.6");
    assert_eq!(parse_version_output("gcc (GCC) 13.2.1 20230801\n"), "13.2.1");
    assert_eq!(parse_version_output("Ubuntu clang version 14.0.0-1ubuntu1.1"), "14.0.0-1ubuntu1.1");
    assert_eq!(parse_version_output("clang version\n17.0.6\n"), "unknown");
    assert_eq!(parse_version_output(""), "unknown");
    assert_eq!(parse_version_output("\n17.0.6"), "unknown");
    assert_eq!(parse_version_output("   \t "), "unknown");
    assert_eq!(parse_version_output("v17 x9 (9) 8"), "8");
    assert_eq!(parse_version_output("7"), "7");
    assert_eq!(parse_version_output("tool 1.2.3\r\nnext"), "1.2.3");
    assert_eq!(parse_version_output("tool\u{a0}4.5\u{2003}x"), "4.5");
    assert_eq!(parse_version_output("tool \u{661}2 3"), "3");
}

#[test]
fn test_commands_without_path() {
    let detector = ToolchainDetector::new();
    assert_eq!(
        detector.probe_command(Probe::Clang),
        CommandLine { program: "clang".to_string(), args: strings(&["--version"]) }
    );
    assert_eq!(
        detector.probe_command(Probe::Gcc),
        CommandLine { program: "gcc".to_string(), args: strings(&["--version"]) }
    );
    assert_eq!(
        detector.probe_command(Probe::Lld),
        CommandLine { program: "ld.lld".to_string(), args: strings(&["--version"]) }
    );
    assert_eq!(
        detector.version_command("cc", &["-v", "--help"]),
        CommandLine { program: "cc".to_string(), args: strings(&["-v", "--help"]) }
    );
}

#[test]
fn test_commands_with_path() {
    let detector = ToolchainDetector::with_path("/opt/llvm/bin".to_string());
    assert_eq!(
        detector.probe_command(Probe::Clang),
        CommandLine {
            program: "sh".to_string(),
            args: strings(&["-c", "PATH='/opt/llvm/bin' clang --version"]),
        }
    );
    assert_eq!(
        detector.probe_command(Probe::Lld),
        CommandLine {
            program: "sh".to_string(),
            args: strings(&["-c", "PATH='/opt/llvm/bin' command -v ld.lld", "--version"]),
        }
    );
    assert_eq!(
        detector.version_command("cc", &["-v", "--help"]),
        CommandLine {
            program: "sh".to_string(),
            args: strings(&["-c", "PATH='/opt/llvm/bin' cc -v --help"]),
        }
    );
    assert_eq!(
        detector.version_command("cc", &[]),
        CommandLine { program: "sh".to_string(), args: strings(&["-c", "PATH='/opt/llvm/bin' cc "]) }
    );
    assert_eq!(join_spaced(&["a", "", "b"]), "a  b");
    assert_eq!(join_spaced(&[]), "");
}

#[test]
fn test_detection_order_and_preference() {
    let detector = ToolchainDetector::new();
    let both = Findings {
        clang: succeeded("clang version 17.0.6"),
        lld: PresenceProbe::Present,
        gcc: succeeded("gcc (GCC) 13.2.1"),
    };
    let (result, asked) = run_detection(&detector, &both);
    assert_eq!(result, Detection::Found(Toolchain::Clang { version: "17.0.6".to_string() }));
    assert_eq!(asked, vec![Probe::Clang, Probe::Lld]);

    let no_lld = Findings {
        clang: succeeded("clang version 17.0.6"),
        lld: PresenceProbe::Absent,
        gcc: succeeded("gcc (GCC) 13.2.1"),
    };
    let (result, asked) = run_detection(&detector, &no_lld);
    assert_eq!(result, Detection::Found(Toolchain::Gcc { version: "13.2.1".to_string() }));
    assert_eq!(asked, vec![Probe::Clang, Probe::Lld, Probe::Gcc]);

    let no_clang = Findings {
        clang: VersionProbe::Failed,
        lld: PresenceProbe::Present,
        gcc: succeeded("gcc version"),
    };
    let (result, asked) = run_detection(&detector, &no_clang);
    assert_eq!(result, Detection::Found(Toolchain::Gcc { version: "unknown".to_string() }));
    assert_eq!(asked, vec![Probe::Clang, Probe::Gcc]);

    let nothing =
        Findings { clang: VersionProbe::Failed, lld: PresenceProbe::Absent, gcc: VersionProbe::Failed };
    let (result, asked) = run_detection(&detector, &nothing);
    assert_eq!(
        result,
        Detection::NotFound(
            "No suitable toolchain found. Please install clang+lld or gcc".to_string()
        )
    );
    assert_eq!(asked, vec![Probe::Clang, Probe::Gcc]);
}

#[test]
fn test_planning_steps() {
    let detector = ToolchainDetector::with_path("/x".to_string());
    match detector.create_build_plan(&Findings::new()) {
        Planning::Run { probe, command } => {
            assert_eq!(probe, Probe::Clang);
            assert_eq!(command, detector.probe_command(Probe::Clang));
        }
        _ => panic!("a question was expected"),
    }
    let findings =
        Findings { clang: VersionProbe::Failed, lld: PresenceProbe::NotRun, gcc: succeeded("gcc 9.4.0") };
    match detector.create_build_plan(&findings) {
        Planning::Planned(plan) => {
            assert_eq!(plan.toolchain, Toolchain::Gcc { version: "9.4.0".to_string() });
            assert_eq!(plan.lto, LtoConfig::Off);
        }
        _ => panic!("a plan was expected"),
    }
    let findings =
        Findings { clang: VersionProbe::Failed, lld: PresenceProbe::NotRun, gcc: VersionProbe::Failed };
    match detector.create_build_plan(&findings) {
        Planning::NotFound(message) => {
            assert_eq!(message, "No suitable toolchain found. Please install clang+lld or gcc");
        }
        _ => panic!("a failure was expected"),
    }
}

#[test]
fn test_toolchain_plan_clone() {
    let plan = BuildPlan::new(Toolchain::Clang { version: "17.0.6".to_string() });
    let copy = plan.clone();
    assert_eq!(copy.toolchain, plan.toolchain);
    assert_eq!(copy.lto, plan.lto);
    assert_eq!(copy.make_flags, plan.make_flags);
    assert_eq!(copy.kconfig_options, plan.kconfig_options);
}
