//! Build plans: a version, the patches to apply, the configuration options
//! and the toolchain, put together and checked.

use crate::generator::{
    baseline_table, clone_options, option_views, options_of, validation_error, ConfigGenerator,
    ConfigOption, OptionView,
};
use crate::patches::{
    catalog, clone_patches, external_of, patch_ref_views, patch_views, Patch, PatchResolver,
    PatchView,
};
use crate::text::{decimal, push_decimal};
use crate::version::{version_full_name, KernelVersion};
use vstd::prelude::*;
use vstd::string::*;

verus! {

/// The compiler that builds the kernel.
#[derive(Debug, Clone, Copy, PartialEq, Eq, Structural)]
pub enum Compiler {
    Clang,
    Gcc,
}

/// How far link-time optimization goes.
#[derive(Debug, Clone, Copy, PartialEq, Eq, Structural)]
pub enum LtoMode {
    /// No link-time optimization.
    Off,
    /// Thin link-time optimization.
    Thin,
    /// Full link-time optimization.
    Full,
}

/// The toolchain that a plan asks for.
#[derive(Debug, Clone, Copy, PartialEq, Eq, Structural)]
pub struct ToolchainConfig {
    /// The compiler.
    pub compiler: Compiler,
    /// Whether the LLVM linker is used.
    pub use_lld: bool,
    /// Link-time optimization. It is only ever switched on by request.
    pub lto: LtoMode,
}

/// The toolchain of a plan that asks for nothing else: Clang with its
/// linker, and no link-time optimization.
pub open spec fn default_toolchain() -> ToolchainConfig {
    ToolchainConfig { compiler: Compiler::Clang, use_lld: true, lto: LtoMode::Off }
}

impl Default for ToolchainConfig {
    fn default() -> (toolchain: Self)
        ensures
            toolchain == default_toolchain(),
    {
        ToolchainConfig { compiler: Compiler::Clang, use_lld: true, lto: LtoMode::Off }
    }
}

/// The name of a compiler as a summary shows it.
pub open spec fn compiler_name(compiler: Compiler) -> Seq<char> {
    match compiler {
        Compiler::Clang => "Clang"@,
        Compiler::Gcc => "Gcc"@,
    }
}

/// The name of an optimization mode as a summary shows it.
pub open spec fn lto_name(lto: LtoMode) -> Seq<char> {
    match lto {
        LtoMode::Off => "None"@,
        LtoMode::Thin => "Thin"@,
        LtoMode::Full => "Full"@,
    }
}

impl Compiler {
    /// The name of the compiler as a summary shows it.
    pub fn name(&self) -> (name: &'static str)
        ensures
            name@ == compiler_name(*self),
    {
        match self {
            Compiler::Clang => "Clang",
            Compiler::Gcc => "Gcc",
        }
    }
}

impl LtoMode {
    /// The name of the mode as a summary shows it.
    pub fn name(&self) -> (name: &'static str)
        ensures
            name@ == lto_name(*self),
    {
        match self {
            LtoMode::Off => "None",
            LtoMode::Thin => "Thin",
            LtoMode::Full => "Full",
        }
    }
}

/// A build plan, as a value of the model.
pub struct BuildPlanView {
    pub version: KernelVersion,
    pub patches: Seq<PatchView>,
    pub config_options: Seq<OptionView>,
    pub toolchain: ToolchainConfig,
}

/// A complete build plan for a kernel.
#[derive(Debug)]
pub struct BuildPlan {
    /// The kernel version to build.
    pub version: KernelVersion,
    /// The patches to apply, in order.
    pub patches: Vec<Patch>,
    /// The configuration options.
    pub config_options: Vec<ConfigOption>,
    /// The toolchain.
    pub toolchain: ToolchainConfig,
}

impl View for BuildPlan {
    type V = BuildPlanView;

    open spec fn view(&self) -> BuildPlanView {
        BuildPlanView {
            version: self.version,
            patches: patch_views(self.patches@),
            config_options: option_views(self.config_options@),
            toolchain: self.toolchain,
        }
    }
}

impl Clone for BuildPlan {
    fn clone(&self) -> (copy: Self)
        ensures
            copy@ == self@,
    {
        BuildPlan {
            version: self.version,
            patches: clone_patches(&self.patches),
            config_options: clone_options(&self.config_options),
            toolchain: self.toolchain,
        }
    }
}

/// The plan for `version` with the patches `patches` and the toolchain
/// `toolchain`: the options are the baseline of the version.
pub open spec fn plan_of(version: KernelVersion, patches: Seq<PatchView>, toolchain: ToolchainConfig) -> BuildPlanView {
    BuildPlanView {
        version,
        patches,
        config_options: options_of(baseline_table(version)),
        toolchain,
    }
}

/// The plan that `BuildPlan::new` makes for `version`.
pub open spec fn new_plan(version: KernelVersion) -> BuildPlanView {
    plan_of(version, catalog(version), default_toolchain())
}

/// The summary of a plan.
pub open spec fn summary_text(plan: BuildPlanView) -> Seq<char> {
    "Build Plan for "@ + version_full_name(plan.version) + "\n- Patches: "@ + decimal(
        plan.patches.len(),
    ) + " total ("@ + decimal(external_of(plan.patches).len()) + " external)\n- Config options: "@
        + decimal(plan.config_options.len()) + "\n- Compiler: "@ + compiler_name(
        plan.toolchain.compiler,
    ) + "\n- LTO: "@ + lto_name(plan.toolchain.lto)
}

impl BuildPlan {
    /// The plan for `version`: its catalogue of patches, its baseline options
    /// and the default toolchain.
    pub fn new(version: KernelVersion) -> (plan: Self)
        ensures
            plan@ == new_plan(version),
    {
        let patches = PatchResolver::get_patches_for_version(version);
        let config_options = ConfigGenerator::generate_baseline(version);
        BuildPlan { version, patches, config_options, toolchain: ToolchainConfig::default() }
    }

    /// The plan for `version` with the given patches in place of its
    /// catalogue.
    pub fn with_patches(version: KernelVersion, patches: Vec<Patch>) -> (plan: Self)
        ensures
            plan@ == plan_of(version, patch_views(patches@), default_toolchain()),
    {
        let config_options = ConfigGenerator::generate_baseline(version);
        BuildPlan { version, patches, config_options, toolchain: ToolchainConfig::default() }
    }

    /// The plan with another toolchain.
    pub fn with_toolchain(self, toolchain: ToolchainConfig) -> (plan: Self)
        ensures
            plan@ == (BuildPlanView { toolchain, ..self@ }),
    {
        let mut plan = self;
        plan.toolchain = toolchain;
        plan
    }

    /// The plan with thin link-time optimization.
    pub fn with_thin_lto(self) -> (plan: Self)
        ensures
            plan@ == (BuildPlanView {
                toolchain: ToolchainConfig { lto: LtoMode::Thin, ..self.toolchain },
                ..self@
            }),
    {
        let mut plan = self;
        plan.toolchain.lto = LtoMode::Thin;
        plan
    }

    /// The plan with GCC, and so without the LLVM linker.
    pub fn with_gcc(self) -> (plan: Self)
        ensures
            plan@ == (BuildPlanView {
                toolchain: ToolchainConfig {
                    compiler: Compiler::Gcc,
                    use_lld: false,
                    ..self.toolchain
                },
                ..self@
            }),
    {
        let mut plan = self;
        plan.toolchain.compiler = Compiler::Gcc;
        plan.toolchain.use_lld = false;
        plan
    }

    /// The patches of the plan that have to be applied by hand, in order.
    pub fn external_patches(&self) -> (patches: Vec<&Patch>)
        ensures
            patch_ref_views(patches@) == external_of(self@.patches),
    {
        let ghost views = patch_views(self.patches@);
        let mut patches: Vec<&Patch> = Vec::new();
        let mut i: usize = 0;
        while i < self.patches.len()
            invariant
                i <= self.patches.len(),
                views == patch_views(self.patches@),
                patch_ref_views(patches@) == external_of(views.take(i as int)),
            decreases self.patches.len() - i,
        {
            proof {
                assert(views.take(i + 1).drop_last() =~= views.take(i as int));
                assert(views.take(i + 1).last() == self.patches@[i as int]@);
            }
            if !self.patches[i].is_upstream {
                let ghost before = patches@;
                patches.push(&self.patches[i]);
                assert(patch_ref_views(patches@) =~= patch_ref_views(before).push(
                    self.patches@[i as int]@,
                ));
            }
            i += 1;
        }
        assert(views.take(i as int) =~= views);
        patches
    }

    /// Checks the plan: its options must pass the validation of its version,
    /// and the plan must hold options at all.
    pub fn validate(&self) -> (result: Result<(), String>)
        ensures
            match result {
                Ok(_) => validation_error(self@.version, self@.config_options) is None,
                Err(message) => validation_error(self@.version, self@.config_options) == Some(
                    message@,
                ),
            },
    {
        match ConfigGenerator::validate_config(self.version, &self.config_options) {
            Err(message) => {
                return Err(message);
            },
            Ok(_) => {},
        }
        if self.config_options.len() == 0 {
            return Err(String::from_str("Build plan has no configuration options"));
        }
        Ok(())
    }

    /// A digest of the plan for people to read.
    pub fn summary(&self) -> (text: String)
        ensures
            text@ == summary_text(self@),
    {
        let external = self.external_patches();
        let mut text = String::from_str("Build Plan for ");
        text.append(self.version.full_name());
        text.append("\n- Patches: ");
        push_decimal(&mut text, self.patches.len() as u64);
        text.append(" total (");
        push_decimal(&mut text, external.len() as u64);
        text.append(" external)\n- Config options: ");
        push_decimal(&mut text, self.config_options.len() as u64);
        text.append("\n- Compiler: ");
        text.append(self.toolchain.compiler.name());
        text.append("\n- LTO: ");
        text.append(self.toolchain.lto.name());
        text
    }
}

/// A builder, as a value of the model.
pub struct BuilderView {
    pub version: KernelVersion,
    pub patches: Option<Seq<PatchView>>,
    pub toolchain: ToolchainConfig,
}

/// The builder that `BuildPlanBuilder::new` makes for `version`.
pub open spec fn fresh_builder(version: KernelVersion) -> BuilderView {
    BuilderView { version, patches: None, toolchain: default_toolchain() }
}

/// The plan that a builder builds: patches that were not given are the
/// catalogue of the version.
pub open spec fn built_plan(builder: BuilderView) -> BuildPlanView {
    plan_of(
        builder.version,
        match builder.patches {
            Some(patches) => patches,
            None => catalog(builder.version),
        },
        builder.toolchain,
    )
}

/// A builder on which nothing was overridden builds the plan that
/// `BuildPlan::new` makes: the same patches, options and toolchain.
pub proof fn lemma_builder_defaults(version: KernelVersion)
    ensures
        built_plan(fresh_builder(version)) == new_plan(version),
{
}

/// Builds a plan step by step, with any of its parts overridden.
pub struct BuildPlanBuilder {
    version: KernelVersion,
    patches: Option<Vec<Patch>>,
    toolchain: ToolchainConfig,
}

impl View for BuildPlanBuilder {
    type V = BuilderView;

    closed spec fn view(&self) -> BuilderView {
        BuilderView {
            version: self.version,
            patches: match self.patches {
                Some(patches) => Some(patch_views(patches@)),
                None => None,
            },
            toolchain: self.toolchain,
        }
    }
}

impl BuildPlanBuilder {
    /// A builder for `version` with nothing overridden.
    pub fn new(version: KernelVersion) -> (builder: Self)
        ensures
            builder@ == fresh_builder(version),
    {
        BuildPlanBuilder { version, patches: None, toolchain: ToolchainConfig::default() }
    }

    /// The builder with the given patches.
    pub fn patches(self, patches: Vec<Patch>) -> (builder: Self)
        ensures
            builder@ == (BuilderView { patches: Some(patch_views(patches@)), ..self@ }),
    {
        let mut builder = self;
        builder.patches = Some(patches);
        builder
    }

    /// The builder with the given toolchain.
    pub fn toolchain(self, toolchain: ToolchainConfig) -> (builder: Self)
        ensures
            builder@ == (BuilderView { toolchain, ..self@ }),
    {
        let mut builder = self;
        builder.toolchain = toolchain;
        builder
    }

    /// The builder with thin link-time optimization.
    pub fn enable_thin_lto(self) -> (builder: Self)
        ensures
            builder@ == (BuilderView {
                toolchain: ToolchainConfig { lto: LtoMode::Thin, ..self@.toolchain },
                ..self@
            }),
    {
        let mut builder = self;
        builder.toolchain.lto = LtoMode::Thin;
        builder
    }

    /// The builder with GCC, and so without the LLVM linker.
    pub fn use_gcc(self) -> (builder: Self)
        ensures
            builder@ == (BuilderView {
                toolchain: ToolchainConfig {
                    compiler: Compiler::Gcc,
                    use_lld: false,
                    ..self@.toolchain
                },
                ..self@
            }),
    {
        let mut builder = self;
        builder.toolchain.compiler = Compiler::Gcc;
        builder.toolchain.use_lld = false;
        builder
    }

    /// The plan: every part that was not overridden is what `BuildPlan::new`
    /// would have taken.
    pub fn build(self) -> (plan: BuildPlan)
        ensures
            plan@ == built_plan(self@),
    {
        let version = self.version;
        let toolchain = self.toolchain;
        let patches = match self.patches {
            Some(patches) => patches,
            None => PatchResolver::get_patches_for_version(version),
        };
        let config_options = ConfigGenerator::generate_baseline(version);
        BuildPlan { version, patches, config_options, toolchain }
    }
}

} // verus!
