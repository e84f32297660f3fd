//! Toolchains: what was detected, the build settings that follow from it, and
//! the decisions of the detection itself. Running a compiler is left to the
//! caller; this module says which command to run next and reads its output.

use crate::text::{
    char_is_whitespace, chars_of, is_whitespace, lemma_string_views_push, str_views, string_views,
};
use vstd::prelude::*;
use vstd::string::*;

verus! {

/// A detected toolchain, as a value of the model.
pub enum ToolchainView {
    Clang { version: Seq<char> },
    Gcc { version: Seq<char> },
}

/// A detected toolchain with the version that it reported.
#[derive(Debug, PartialEq, Eq)]
pub enum Toolchain {
    /// LLVM/Clang.
    Clang { version: String },
    /// GCC.
    Gcc { version: String },
}

impl View for Toolchain {
    type V = ToolchainView;

    open spec fn view(&self) -> ToolchainView {
        match self {
            Toolchain::Clang { version } => ToolchainView::Clang { version: version@ },
            Toolchain::Gcc { version } => ToolchainView::Gcc { version: version@ },
        }
    }
}

impl Clone for Toolchain {
    fn clone(&self) -> (copy: Self)
        ensures
            copy@ == self@,
    {
        match self {
            Toolchain::Clang { version } => Toolchain::Clang { version: version.clone() },
            Toolchain::Gcc { version } => Toolchain::Gcc { version: version.clone() },
        }
    }
}

/// The name of a toolchain.
pub open spec fn toolchain_name(toolchain: ToolchainView) -> Seq<char> {
    match toolchain {
        ToolchainView::Clang { version } => "clang"@,
        ToolchainView::Gcc { version } => "gcc"@,
    }
}

/// The version that a toolchain reported.
pub open spec fn toolchain_version(toolchain: ToolchainView) -> Seq<char> {
    match toolchain {
        ToolchainView::Clang { version } => version,
        ToolchainView::Gcc { version } => version,
    }
}

impl Toolchain {
    /// The name of the toolchain.
    pub fn name(&self) -> (name: &str)
        ensures
            name@ == toolchain_name(self@),
    {
        match self {
            Toolchain::Clang { .. } => "clang",
            Toolchain::Gcc { .. } => "gcc",
        }
    }

    /// The version that the toolchain reported.
    pub fn version(&self) -> (version: &str)
        ensures
            version@ == toolchain_version(self@),
    {
        match self {
            Toolchain::Clang { version } => version.as_str(),
            Toolchain::Gcc { version } => version.as_str(),
        }
    }
}

/// Link-time optimization of a build.
#[derive(Debug, Clone, Copy, PartialEq, Eq, Structural)]
pub enum LtoConfig {
    /// Clang ThinLTO.
    ThinLto,
    /// Full link-time optimization.
    FullLto,
    /// No link-time optimization.
    Off,
}

/// The name of a link-time optimization as a description shows it.
pub open spec fn lto_config_name(lto: LtoConfig) -> Seq<char> {
    match lto {
        LtoConfig::ThinLto => "ThinLto"@,
        LtoConfig::FullLto => "FullLto"@,
        LtoConfig::Off => "None"@,
    }
}

impl LtoConfig {
    /// The name of the optimization as a description shows it.
    pub fn name(&self) -> (name: &'static str)
        ensures
            name@ == lto_config_name(*self),
    {
        match self {
            LtoConfig::ThinLto => "ThinLto",
            LtoConfig::FullLto => "FullLto",
            LtoConfig::Off => "None",
        }
    }
}

/// The views of a run of option pairs.
pub open spec fn pair_views(pairs: Seq<(String, String)>) -> Seq<(Seq<char>, Seq<char>)> {
    Seq::new(pairs.len(), |i: int| (pairs[i].0@, pairs[i].1@))
}

/// The build settings of a toolchain, as a value of the model.
pub struct ToolchainPlanView {
    pub toolchain: ToolchainView,
    pub lto: LtoConfig,
    pub make_flags: Seq<Seq<char>>,
    pub kconfig_options: Seq<(Seq<char>, Seq<char>)>,
}

/// The build settings that follow from a toolchain.
#[derive(Debug)]
pub struct BuildPlan {
    /// The toolchain.
    pub toolchain: Toolchain,
    /// Link-time optimization.
    pub lto: LtoConfig,
    /// Flags to pass to `make`.
    pub make_flags: Vec<String>,
    /// Configuration options to set, as pairs of name and value.
    pub kconfig_options: Vec<(String, String)>,
}

impl View for BuildPlan {
    type V = ToolchainPlanView;

    open spec fn view(&self) -> ToolchainPlanView {
        ToolchainPlanView {
            toolchain: self.toolchain@,
            lto: self.lto,
            make_flags: string_views(self.make_flags@),
            kconfig_options: pair_views(self.kconfig_options@),
        }
    }
}

/// Appending an option pair appends its view.
pub proof fn lemma_pair_views_push(pairs: Seq<(String, String)>, last: (String, String))
    ensures
        pair_views(pairs.push(last)) == pair_views(pairs).push((last.0@, last.1@)),
{
    assert(pair_views(pairs.push(last)) =~= pair_views(pairs).push((last.0@, last.1@)));
}

impl Clone for BuildPlan {
    fn clone(&self) -> (copy: Self)
        ensures
            copy@ == self@,
    {
        let ghost flags = string_views(self.make_flags@);
        let mut make_flags: Vec<String> = Vec::new();
        let mut i: usize = 0;
        while i < self.make_flags.len()
            invariant
                i <= self.make_flags.len(),
                flags == string_views(self.make_flags@),
                string_views(make_flags@) == flags.take(i as int),
            decreases self.make_flags.len() - i,
        {
            let flag = self.make_flags[i].clone();
            proof {
                lemma_string_views_push(make_flags@, flag);
                assert(flags.take(i + 1) =~= flags.take(i as int).push(flags[i as int]));
            }
            make_flags.push(flag);
            i += 1;
        }
        assert(flags.take(i as int) =~= flags);
        let ghost pairs = pair_views(self.kconfig_options@);
        let mut kconfig_options: Vec<(String, String)> = Vec::new();
        let mut j: usize = 0;
        while j < self.kconfig_options.len()
            invariant
                j <= self.kconfig_options.len(),
                pairs == pair_views(self.kconfig_options@),
                pair_views(kconfig_options@) == pairs.take(j as int),
            decreases self.kconfig_options.len() - j,
        {
            let option = (self.kconfig_options[j].0.clone(), self.kconfig_options[j].1.clone());
            proof {
                lemma_pair_views_push(kconfig_options@, option);
                assert(pairs.take(j + 1) =~= pairs.take(j as int).push(pairs[j as int]));
            }
            kconfig_options.push(option);
            j += 1;
        }
        assert(pairs.take(j as int) =~= pairs);
        BuildPlan { toolchain: self.toolchain.clone(), lto: self.lto, make_flags, kconfig_options }
    }
}

/// The build settings of a toolchain. Clang builds with ThinLTO: the ThinLTO
/// option is set and `make` is told to use LLVM. GCC builds without
/// link-time optimization and without extra flags. Both optimize for
/// performance.
pub open spec fn plan_for(toolchain: ToolchainView) -> ToolchainPlanView {
    match toolchain {
        ToolchainView::Clang { version } => ToolchainPlanView {
            toolchain,
            lto: LtoConfig::ThinLto,
            make_flags: seq!["LLVM=1"@],
            kconfig_options: seq![
                ("CONFIG_LTO_CLANG_THIN"@, "y"@),
                ("CONFIG_CC_OPTIMIZE_FOR_PERFORMANCE"@, "y"@),
            ],
        },
        ToolchainView::Gcc { version } => ToolchainPlanView {
            toolchain,
            lto: LtoConfig::Off,
            make_flags: Seq::empty(),
            kconfig_options: seq![("CONFIG_CC_OPTIMIZE_FOR_PERFORMANCE"@, "y"@)],
        },
    }
}

/// The description of build settings.
pub open spec fn description_text(plan: ToolchainPlanView) -> Seq<char> {
    "Toolchain: "@ + toolchain_name(plan.toolchain) + " "@ + toolchain_version(plan.toolchain)
        + ", LTO: "@ + lto_config_name(plan.lto)
}

/// An option pair.
fn pair(name: &str, value: &str) -> (p: (String, String))
    ensures
        p.0@ == name@,
        p.1@ == value@,
{
    (String::from_str(name), String::from_str(value))
}

impl BuildPlan {
    /// The build settings of `toolchain`.
    pub fn new(toolchain: Toolchain) -> (plan: Self)
        ensures
            plan@ == plan_for(toolchain@),
    {
        match &toolchain {
            Toolchain::Clang { .. } => {
                let make_flags = vec![String::from_str("LLVM=1")];
                let kconfig_options = vec![
                    pair("CONFIG_LTO_CLANG_THIN", "y"),
                    pair("CONFIG_CC_OPTIMIZE_FOR_PERFORMANCE", "y"),
                ];
                assert(string_views(make_flags@) =~= plan_for(toolchain@).make_flags);
                assert(pair_views(kconfig_options@) =~= plan_for(toolchain@).kconfig_options);
                BuildPlan { toolchain, lto: LtoConfig::ThinLto, make_flags, kconfig_options }
            },
            Toolchain::Gcc { .. } => {
                let make_flags: Vec<String> = Vec::new();
                let kconfig_options = vec![pair("CONFIG_CC_OPTIMIZE_FOR_PERFORMANCE", "y")];
                assert(string_views(make_flags@) =~= plan_for(toolchain@).make_flags);
                assert(pair_views(kconfig_options@) =~= plan_for(toolchain@).kconfig_options);
                BuildPlan { toolchain, lto: LtoConfig::Off, make_flags, kconfig_options }
            },
        }
    }

    /// The `make` command line: `make`, then the flags of the plan.
    pub fn make_command(&self) -> (command: Vec<String>)
        ensures
            string_views(command@) == seq!["make"@] + self@.make_flags,
    {
        let mut command: Vec<String> = Vec::new();
        let first = String::from_str("make");
        proof {
            lemma_string_views_push(command@, first);
        }
        command.push(first);
        let ghost flags = string_views(self.make_flags@);
        let mut i: usize = 0;
        while i < self.make_flags.len()
            invariant
                i <= self.make_flags.len(),
                flags == string_views(self.make_flags@),
                string_views(command@) == seq!["make"@] + flags.take(i as int),
            decreases self.make_flags.len() - i,
        {
            let flag = self.make_flags[i].clone();
            proof {
                lemma_string_views_push(command@, flag);
                assert((seq!["make"@] + flags.take(i as int)).push(flags[i as int]) =~= seq![
                    "make"@,
                ] + flags.take(i + 1));
            }
            command.push(flag);
            i += 1;
        }
        assert(flags.take(i as int) =~= flags);
        command
    }

    /// A one-line description of the plan.
    pub fn description(&self) -> (text: String)
        ensures
            text@ == description_text(self@),
    {
        let mut text = String::from_str("Toolchain: ");
        text.append(self.toolchain.name());
        text.append(" ");
        text.append(self.toolchain.version());
        text.append(", LTO: ");
        text.append(self.lto.name());
        text
    }
}

/// Whether a character is a decimal digit.
pub open spec fn is_ascii_digit(c: char) -> bool {
    '0' <= c && c <= '9'
}

/// The first line of a text: what stands before its first line feed, or all
/// of it where it holds none.
pub open spec fn first_line(text: Seq<char>) -> Seq<char>
    decreases text.len(),
{
    if text.len() == 0 || text[0] == '\n' {
        Seq::empty()
    } else {
        seq![text[0]] + first_line(text.drop_first())
    }
}

/// Where the word that starts at `from` ends: the place of the next white
/// space, or the end of the text.
pub open spec fn word_end(text: Seq<char>, from: int) -> int
    decreases text.len() - from,
{
    if 0 <= from < text.len() && !is_whitespace(text[from]) {
        word_end(text, from + 1)
    } else {
        from
    }
}

/// A word does not end before it starts, nor after the text.
pub proof fn lemma_word_end_bounds(text: Seq<char>, from: int)
    requires
        0 <= from <= text.len(),
    ensures
        from <= word_end(text, from) <= text.len(),
        from < text.len() && !is_whitespace(text[from]) ==> from < word_end(text, from),
        forall|i: int| from <= i < word_end(text, from) ==> !is_whitespace(text[i]),
        word_end(text, from) < text.len() ==> is_whitespace(text[word_end(text, from)]),
    decreases text.len() - from,
{
    if from < text.len() && !is_whitespace(text[from]) {
        lemma_word_end_bounds(text, from + 1);
    }
}

/// The first word at or after `from` that starts with a digit, words being
/// the runs of characters between white space.
pub open spec fn version_word(text: Seq<char>, from: int) -> Option<Seq<char>>
    decreases text.len() - from,
{
    if from < 0 || from >= text.len() {
        None
    } else if is_whitespace(text[from]) {
        version_word(text, from + 1)
    } else {
        let end = word_end(text, from);
        proof {
            lemma_word_end_bounds(text, from);
        }
        if is_ascii_digit(text[from]) {
            Some(text.subrange(from, end))
        } else {
            version_word(text, end)
        }
    }
}

/// The version that the output of a `--version` call reports: the first word
/// of its first line that starts with a digit, or `unknown` where that line
/// holds no such word. A carriage return at the end of the line is white
/// space and belongs to no word.
pub open spec fn version_of_output(output: Seq<char>) -> Seq<char> {
    match version_word(first_line(output), 0) {
        Some(word) => word,
        None => "unknown"@,
    }
}

proof fn lemma_first_line_prefix(text: Seq<char>, n: int)
    requires
        0 <= n <= text.len(),
        forall|i: int| 0 <= i < n ==> text[i] != '\n',
        n < text.len() ==> text[n] == '\n',
    ensures
        first_line(text) == text.take(n),
    decreases n,
{
    if n == 0 {
        assert(text.take(0) =~= Seq::<char>::empty());
    } else {
        let rest = text.drop_first();
        assert forall|i: int| 0 <= i < n - 1 implies rest[i] != '\n' by {
            assert(rest[i] == text[i + 1]);
        }
        lemma_first_line_prefix(rest, n - 1);
        assert(text.take(n) =~= seq![text[0]] + rest.take(n - 1));
    }
}

/// The version that the output of a `--version` call reports.
pub fn parse_version_output(output: &str) -> (version: String)
    ensures
        version@ == version_of_output(output@),
{
    let chars = chars_of(output);
    let mut line_end: usize = 0;
    while line_end < chars.len() && chars[line_end] != '\n'
        invariant
            line_end <= chars.len(),
            forall|i: int| 0 <= i < line_end ==> chars@[i] != '\n',
        decreases chars.len() - line_end,
    {
        line_end += 1;
    }
    let ghost line = output@.take(line_end as int);
    proof {
        lemma_first_line_prefix(output@, line_end as int);
    }
    let mut at: usize = 0;
    while at < line_end
        invariant
            at <= line_end <= chars.len(),
            chars@ == output@,
            line == output@.take(line_end as int),
            line == first_line(output@),
            version_word(line, 0) == version_word(line, at as int),
        decreases line_end - at,
    {
        assert(line[at as int] == chars@[at as int]);
        if char_is_whitespace(chars[at]) {
            at += 1;
        } else {
            let mut end: usize = at;
            while end < line_end && !char_is_whitespace(chars[end])
                invariant
                    at <= end <= line_end <= chars.len(),
                    chars@ == output@,
                    line == output@.take(line_end as int),
                    word_end(line, at as int) == word_end(line, end as int),
                decreases line_end - end,
            {
                assert(line[end as int] == chars@[end as int]);
                end += 1;
            }
            proof {
                if end < line_end {
                    assert(line[end as int] == chars@[end as int]);
                }
                lemma_word_end_bounds(line, at as int);
            }
            let c = chars[at];
            if c >= '0' && c <= '9' {
                assert(line.subrange(at as int, end as int) =~= output@.subrange(
                    at as int,
                    end as int,
                ));
                return String::from_str(output.substring_char(at, end));
            }
            at = end;
        }
    }
    String::from_str("unknown")
}


/// A command line, as a value of the model.
pub struct CommandLineView {
    pub program: Seq<char>,
    pub args: Seq<Seq<char>>,
}

/// A command line for the caller to run: the program and its arguments.
#[derive(Debug, PartialEq, Eq)]
pub struct CommandLine {
    pub program: String,
    pub args: Vec<String>,
}

impl View for CommandLine {
    type V = CommandLineView;

    open spec fn view(&self) -> CommandLineView {
        CommandLineView { program: self.program@, args: string_views(self.args@) }
    }
}

/// The words of `words` with one space between each two.
pub open spec fn joined(words: Seq<Seq<char>>) -> Seq<char>
    decreases words.len(),
{
    if words.len() == 0 {
        Seq::empty()
    } else if words.len() == 1 {
        words[0]
    } else {
        joined(words.drop_last()) + " "@ + words.last()
    }
}

/// The command that asks `cmd` for its version. With a search path of its
/// own the detector goes through the shell, which is given that path.
pub open spec fn version_command(
    custom_path: Option<Seq<char>>,
    cmd: Seq<char>,
    args: Seq<Seq<char>>,
) -> CommandLineView {
    match custom_path {
        Some(path) => CommandLineView {
            program: "sh"@,
            args: seq!["-c"@, "PATH='"@ + path + "' "@ + cmd + " "@ + joined(args)],
        },
        None => CommandLineView { program: cmd, args },
    }
}

/// The command that finds out whether `cmd` can be run.
pub open spec fn presence_command(custom_path: Option<Seq<char>>, cmd: Seq<char>) -> CommandLineView {
    match custom_path {
        Some(path) => CommandLineView {
            program: "sh"@,
            args: seq!["-c"@, "PATH='"@ + path + "' command -v "@ + cmd, "--version"@],
        },
        None => CommandLineView { program: cmd, args: seq!["--version"@] },
    }
}

/// A question that the detection puts to the system.
#[derive(Debug, Clone, Copy, PartialEq, Eq, Structural)]
pub enum Probe {
    /// Which version of Clang is installed.
    Clang,
    /// Whether the LLVM linker is installed.
    Lld,
    /// Which version of GCC is installed.
    Gcc,
}

/// The command that puts a question to the system.
pub open spec fn probe_command(custom_path: Option<Seq<char>>, probe: Probe) -> CommandLineView {
    match probe {
        Probe::Clang => version_command(custom_path, "clang"@, seq!["--version"@]),
        Probe::Lld => presence_command(custom_path, "ld.lld"@),
        Probe::Gcc => version_command(custom_path, "gcc"@, seq!["--version"@]),
    }
}

/// The answer to a version question, as a value of the model.
pub enum VersionProbeView {
    NotRun,
    Failed,
    Succeeded { output: Seq<char> },
}

/// The answer to a version question.
#[derive(Debug, PartialEq, Eq)]
pub enum VersionProbe {
    /// The question was not put yet.
    NotRun,
    /// The command could not be run, or ended in failure.
    Failed,
    /// The command ended well, with this output.
    Succeeded { output: String },
}

impl View for VersionProbe {
    type V = VersionProbeView;

    open spec fn view(&self) -> VersionProbeView {
        match self {
            VersionProbe::NotRun => VersionProbeView::NotRun,
            VersionProbe::Failed => VersionProbeView::Failed,
            VersionProbe::Succeeded { output } => VersionProbeView::Succeeded { output: output@ },
        }
    }
}

/// The answer to a presence question.
#[derive(Debug, Clone, Copy, PartialEq, Eq, Structural)]
pub enum PresenceProbe {
    /// The question was not put yet.
    NotRun,
    /// The command could not be run, or ended in failure.
    Absent,
    /// The command ended well.
    Present,
}

/// What the detection knows so far, as a value of the model.
pub struct FindingsView {
    pub clang: VersionProbeView,
    pub lld: PresenceProbe,
    pub gcc: VersionProbeView,
}

/// What the detection knows so far: the answer to each question that was put.
#[derive(Debug, PartialEq, Eq)]
pub struct Findings {
    pub clang: VersionProbe,
    pub lld: PresenceProbe,
    pub gcc: VersionProbe,
}

impl View for Findings {
    type V = FindingsView;

    open spec fn view(&self) -> FindingsView {
        FindingsView { clang: self.clang@, lld: self.lld, gcc: self.gcc@ }
    }
}

impl Findings {
    /// Findings before any question was put.
    pub fn new() -> (findings: Self)
        ensures
            findings@ == (FindingsView {
                clang: VersionProbeView::NotRun,
                lld: PresenceProbe::NotRun,
                gcc: VersionProbeView::NotRun,
            }),
    {
        Findings { clang: VersionProbe::NotRun, lld: PresenceProbe::NotRun, gcc: VersionProbe::NotRun }
    }
}

/// What to do next in a detection, as a value of the model.
pub enum DetectionView {
    Run { probe: Probe, command: CommandLineView },
    Found(ToolchainView),
    NotFound(Seq<char>),
}

/// What to do next in a detection.
#[derive(Debug, PartialEq, Eq)]
pub enum Detection {
    /// Run `command` and record what came of it as the answer to `probe`.
    Run { probe: Probe, command: CommandLine },
    /// The detection is over: this toolchain was found.
    Found(Toolchain),
    /// The detection is over: no toolchain can be used. The text says so.
    NotFound(String),
}

impl View for Detection {
    type V = DetectionView;

    open spec fn view(&self) -> DetectionView {
        match self {
            Detection::Run { probe, command } => DetectionView::Run {
                probe: *probe,
                command: command@,
            },
            Detection::Found(toolchain) => DetectionView::Found(toolchain@),
            Detection::NotFound(message) => DetectionView::NotFound(message@),
        }
    }
}

/// The question to put next, or `None` where the findings settle the
/// detection. Clang is asked first, and the linker only once Clang was found;
/// GCC is asked only where Clang or its linker is missing.
pub open spec fn next_probe(findings: FindingsView) -> Option<Probe> {
    match findings.clang {
        VersionProbeView::NotRun => Some(Probe::Clang),
        VersionProbeView::Succeeded { output } => match findings.lld {
            PresenceProbe::NotRun => Some(Probe::Lld),
            PresenceProbe::Present => None,
            PresenceProbe::Absent => gcc_probe(findings),
        },
        VersionProbeView::Failed => gcc_probe(findings),
    }
}

/// The question to put once Clang is out: GCC, unless it was asked already.
pub open spec fn gcc_probe(findings: FindingsView) -> Option<Probe> {
    match findings.gcc {
        VersionProbeView::NotRun => Some(Probe::Gcc),
        _ => None,
    }
}

/// The toolchain that settled findings give: Clang where it and its linker
/// were found, else GCC where it was found, else none.
pub open spec fn detected(findings: FindingsView) -> Option<ToolchainView> {
    match findings.clang {
        VersionProbeView::Succeeded { output } if findings.lld == PresenceProbe::Present => Some(
            ToolchainView::Clang { version: version_of_output(output) },
        ),
        _ => match findings.gcc {
            VersionProbeView::Succeeded { output } => Some(
                ToolchainView::Gcc { version: version_of_output(output) },
            ),
            _ => None,
        },
    }
}

/// What the detection says where no toolchain can be used.
pub open spec fn not_found_message() -> Seq<char> {
    "No suitable toolchain found. Please install clang+lld or gcc"@
}

/// What to do next with the findings so far.
pub open spec fn next_detection(custom_path: Option<Seq<char>>, findings: FindingsView) -> DetectionView {
    match next_probe(findings) {
        Some(probe) => DetectionView::Run { probe, command: probe_command(custom_path, probe) },
        None => match detected(findings) {
            Some(toolchain) => DetectionView::Found(toolchain),
            None => DetectionView::NotFound(not_found_message()),
        },
    }
}

/// Clang with its linker wins over GCC, whatever is known of GCC.
pub proof fn lemma_clang_preferred(findings: FindingsView)
    requires
        findings.clang is Succeeded,
        findings.lld == PresenceProbe::Present,
    ensures
        next_probe(findings) is None,
        detected(findings) is Some,
        detected(findings)->0 is Clang,
{
}

/// What to do next in the making of build settings, as a value of the model.
pub enum PlanningView {
    Run { probe: Probe, command: CommandLineView },
    Planned(ToolchainPlanView),
    NotFound(Seq<char>),
}

/// What to do next in the making of build settings.
#[derive(Debug)]
pub enum Planning {
    /// Run `command` and record what came of it as the answer to `probe`.
    Run { probe: Probe, command: CommandLine },
    /// The build settings of the toolchain that was found.
    Planned(BuildPlan),
    /// No toolchain can be used. The text says so.
    NotFound(String),
}

impl View for Planning {
    type V = PlanningView;

    open spec fn view(&self) -> PlanningView {
        match self {
            Planning::Run { probe, command } => PlanningView::Run { probe: *probe, command: command@ },
            Planning::Planned(plan) => PlanningView::Planned(plan@),
            Planning::NotFound(message) => PlanningView::NotFound(message@),
        }
    }
}

/// What to do next in the making of build settings: the detection goes
/// first, and the toolchain that it finds gives the settings.
pub open spec fn next_planning(custom_path: Option<Seq<char>>, findings: FindingsView) -> PlanningView {
    match next_detection(custom_path, findings) {
        DetectionView::Run { probe, command } => PlanningView::Run { probe, command },
        DetectionView::Found(toolchain) => PlanningView::Planned(plan_for(toolchain)),
        DetectionView::NotFound(message) => PlanningView::NotFound(message),
    }
}

/// The words of `words` with one space between each two.
pub fn join_spaced(words: &[&str]) -> (text: String)
    ensures
        text@ == joined(str_views(words@)),
{
    let ghost views = str_views(words@);
    let mut text = String::new();
    let mut i: usize = 0;
    while i < words.len()
        invariant
            i <= words.len(),
            views == str_views(words@),
            text@ == joined(views.take(i as int)),
        decreases words.len() - i,
    {
        proof {
            assert(views.take(i + 1).drop_last() =~= views.take(i as int));
            assert(views.take(i + 1).last() == words@[i as int]@);
        }
        if i > 0 {
            text.append(" ");
        } else {
            assert(text@ + words@[0]@ =~= words@[0]@);
        }
        text.append(words[i]);
        i += 1;
    }
    assert(views.take(i as int) =~= views);
    text
}

/// Finds the toolchain to build with. The detector decides; the caller runs
/// the commands that it asks for.
pub struct ToolchainDetector {
    custom_path: Option<String>,
}

impl ToolchainDetector {
    /// The search path that the detector was given, if any.
    pub closed spec fn path(&self) -> Option<Seq<char>> {
        match self.custom_path {
            Some(path) => Some(path@),
            None => None,
        }
    }

    /// A detector that searches the path of the system.
    pub fn new() -> (detector: Self)
        ensures
            detector.path() is None,
    {
        ToolchainDetector { custom_path: None }
    }

    /// A detector that searches `path`.
    pub fn with_path(path: String) -> (detector: Self)
        ensures
            detector.path() == Some(path@),
    {
        ToolchainDetector { custom_path: Some(path) }
    }

    /// The search path that the detector was given, if any.
    pub fn custom_path(&self) -> (path: Option<&str>)
        ensures
            match path {
                Some(p) => self.path() == Some(p@),
                None => self.path() is None,
            },
    {
        match &self.custom_path {
            Some(path) => Some(path.as_str()),
            None => None,
        }
    }

    /// The command that asks `cmd` for its version.
    pub fn version_command(&self, cmd: &str, args: &[&str]) -> (command: CommandLine)
        ensures
            command@ == version_command(self.path(), cmd@, str_views(args@)),
    {
        match &self.custom_path {
            Some(path) => {
                let mut script = String::from_str("PATH='");
                script.append(path.as_str());
                script.append("' ");
                script.append(cmd);
                script.append(" ");
                let words = join_spaced(args);
                script.append(words.as_str());
                let c = String::from_str("-c");
                let command_args = vec![c, script];
                assert(string_views(command_args@) =~= version_command(
                    self.path(),
                    cmd@,
                    str_views(args@),
                ).args);
                CommandLine { program: String::from_str("sh"), args: command_args }
            },
            None => {
                let mut command_args: Vec<String> = Vec::new();
                let mut i: usize = 0;
                while i < args.len()
                    invariant
                        i <= args.len(),
                        string_views(command_args@) == str_views(args@).take(i as int),
                    decreases args.len() - i,
                {
                    let arg = String::from_str(args[i]);
                    proof {
                        lemma_string_views_push(command_args@, arg);
                        assert(str_views(args@).take(i + 1) =~= str_views(args@).take(
                            i as int,
                        ).push(args@[i as int]@));
                    }
                    command_args.push(arg);
                    i += 1;
                }
                assert(str_views(args@).take(i as int) =~= str_views(args@));
                CommandLine { program: String::from_str(cmd), args: command_args }
            },
        }
    }

    /// The command that finds out whether `cmd` can be run.
    pub fn presence_command(&self, cmd: &str) -> (command: CommandLine)
        ensures
            command@ == presence_command(self.path(), cmd@),
    {
        match &self.custom_path {
            Some(path) => {
                let mut script = String::from_str("PATH='");
                script.append(path.as_str());
                script.append("' command -v ");
                script.append(cmd);
                let command_args = vec![
                    String::from_str("-c"),
                    script,
                    String::from_str("--version"),
                ];
                assert(string_views(command_args@) =~= presence_command(self.path(), cmd@).args);
                CommandLine { program: String::from_str("sh"), args: command_args }
            },
            None => {
                let command_args = vec![String::from_str("--version")];
                assert(string_views(command_args@) =~= presence_command(self.path(), cmd@).args);
                CommandLine { program: String::from_str(cmd), args: command_args }
            },
        }
    }

    /// The command that puts `probe` to the system.
    pub fn probe_command(&self, probe: Probe) -> (command: CommandLine)
        ensures
            command@ == probe_command(self.path(), probe),
    {
        match probe {
            Probe::Clang => {
                let args = ["--version"];
                assert(str_views(args@) =~= seq!["--version"@]);
                self.version_command("clang", &args)
            },
            Probe::Lld => self.presence_command("ld.lld"),
            Probe::Gcc => {
                let args = ["--version"];
                assert(str_views(args@) =~= seq!["--version"@]);
                self.version_command("gcc", &args)
            },
        }
    }

    /// The toolchain of settled findings, read from the outputs.
    fn found(findings: &Findings) -> (toolchain: Option<Toolchain>)
        ensures
            match toolchain {
                Some(t) => detected(findings@) == Some(t@),
                None => detected(findings@) is None,
            },
    {
        match &findings.clang {
            VersionProbe::Succeeded { output } => {
                if findings.lld == PresenceProbe::Present {
                    return Some(
                        Toolchain::Clang { version: parse_version_output(output.as_str()) },
                    );
                }
            },
            _ => {},
        }
        match &findings.gcc {
            VersionProbe::Succeeded { output } => Some(
                Toolchain::Gcc { version: parse_version_output(output.as_str()) },
            ),
            _ => None,
        }
    }

    /// The question to put next, or `None` where the findings settle the
    /// detection.
    fn probe_for(findings: &Findings) -> (probe: Option<Probe>)
        ensures
            probe == next_probe(findings@),
    {
        let gcc = match &findings.gcc {
            VersionProbe::NotRun => Some(Probe::Gcc),
            _ => None,
        };
        match &findings.clang {
            VersionProbe::NotRun => Some(Probe::Clang),
            VersionProbe::Succeeded { .. } => match findings.lld {
                PresenceProbe::NotRun => Some(Probe::Lld),
                PresenceProbe::Present => None,
                PresenceProbe::Absent => gcc,
            },
            VersionProbe::Failed => gcc,
        }
    }

    /// The next step of the detection: a command to run, or its outcome.
    /// Clang is preferred to GCC, but only together with the LLVM linker.
    pub fn detect(&self, findings: &Findings) -> (step: Detection)
        ensures
            step@ == next_detection(self.path(), findings@),
    {
        match Self::probe_for(findings) {
            Some(probe) => Detection::Run { probe, command: self.probe_command(probe) },
            None => match Self::found(findings) {
                Some(toolchain) => Detection::Found(toolchain),
                None => Detection::NotFound(
                    String::from_str("No suitable toolchain found. Please install clang+lld or gcc"),
                ),
            },
        }
    }

    /// The next step towards build settings: a command to run, the settings
    /// of the toolchain that was found, or the news that none was.
    pub fn create_build_plan(&self, findings: &Findings) -> (step: Planning)
        ensures
            step@ == next_planning(self.path(), findings@),
    {
        match self.detect(findings) {
            Detection::Run { probe, command } => Planning::Run { probe, command },
            Detection::Found(toolchain) => Planning::Planned(BuildPlan::new(toolchain)),
            Detection::NotFound(message) => Planning::NotFound(message),
        }
    }
}

impl Default for ToolchainDetector {
    fn default() -> (detector: Self)
        ensures
            detector.path() is None,
    {
        Self::new()
    }
}

} // verus!
