//! Build-plan resolution for optimized Linux kernel builds: from a kernel
//! version, a choice of patches and a toolchain to a checked configuration.

pub mod bloat_removal;
pub mod build_plan;
pub mod config;
pub mod generator;
pub mod patches;
pub mod text;
pub mod toolchain;
pub mod version;
pub mod version_catalog;

pub use build_plan::{BuildPlan, BuildPlanBuilder, Compiler, LtoMode, ToolchainConfig};
pub use config::KernelConfig;
pub use generator::{ConfigGenerator, ConfigOption, ConfigValue};
pub use patches::{Patch, PatchResolver};
pub use version::KernelVersion;
