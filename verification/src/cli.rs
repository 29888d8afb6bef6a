//! The `cista` command grammar as plain values: one type per command and
//! argument group. The command line itself is parsed outside the library,
//! which hands these values to the commands.

use vstd::prelude::*;

verus! {

/// `[path]`, default `.`.
#[derive(Debug)]
pub struct PathArg {
    pub path: String,
}

/// `[path] [--manifest M] [--target-language L] [--verify-target-build]`.
#[derive(Debug)]
pub struct CheckArgs {
    pub path: String,
    pub manifest: String,
    pub target_language: Option<String>,
    pub verify_target_build: bool,
}

/// `<value> [--store S]`: a package identifier or a filesystem path.
#[derive(Debug)]
pub struct PackageOrPathArg {
    pub value: String,
    pub store: Option<String>,
}

/// `[manifest]`, default `.`.
#[derive(Debug)]
pub struct ManifestArg {
    pub manifest: String,
}

/// `<package> [--store S] [--registry R | --registry-url U]`.
#[derive(Debug)]
pub struct PackageArg {
    pub package: String,
    pub store: Option<String>,
    pub registry: Option<String>,
    pub registry_url: Option<String>,
}

/// `(--path P | <package>) --target-language L [--manifest M] [--store S]
/// [--registry R] [--project D] [--verify-target-build]`.
#[derive(Debug)]
pub struct InstallArgs {
    pub path: Option<String>,
    pub package: Option<String>,
    pub manifest: String,
    pub target_language: String,
    pub store: Option<String>,
    pub registry: Option<String>,
    pub project: Option<String>,
    pub verify_target_build: bool,
}

/// `--path P [--manifest M] [--registry R | --registry-url U]`.
#[derive(Debug)]
pub struct PublishArgs {
    pub path: String,
    pub manifest: String,
    pub registry: Option<String>,
    pub registry_url: Option<String>,
}

/// `<package> [--store S] [-- args...]`.
#[derive(Debug)]
pub struct RunArgs {
    pub package: String,
    pub store: Option<String>,
    pub args: Vec<String>,
}

/// `[package]`.
#[derive(Debug)]
pub struct OptionalPackageArg {
    pub package: Option<String>,
}

/// `[--store S]`.
#[derive(Debug)]
pub struct StoreArg {
    pub store: Option<String>,
}

/// `<target>`.
#[derive(Debug)]
pub struct TargetArg {
    pub target: String,
}

/// `<package> --target T`.
#[derive(Debug)]
pub struct PackageTargetArg {
    pub package: String,
    pub target: String,
}

/// `<package> <version>`.
#[derive(Debug)]
pub struct YankArg {
    pub package: String,
    pub version: String,
}

/// `[--registry-url U] [--token-env E]`; the token itself is read from the
/// environment, never from the command line.
#[derive(Debug)]
pub struct RegistryAuthArgs {
    pub registry_url: String,
    pub token_env: String,
}

/// `[--registry-url U]`.
#[derive(Debug)]
pub struct RegistryOriginArg {
    pub registry_url: String,
}

/// Cache operations.
#[derive(Clone, Copy, Debug, PartialEq, Eq, Structural)]
pub enum CacheSubcommand {
    List,
    Path,
    Prune,
    Clean,
}

/// `cache <list|path|prune|clean>`.
#[derive(Debug)]
pub struct CacheCommand {
    pub command: CacheSubcommand,
}

/// Package inspection operations.
#[derive(Debug)]
pub enum PackageSubcommand {
    List(StoreArg),
    Show(PackageArg),
    Files(PackageArg),
    Interfaces(PackageArg),
    Runtimes(PackageArg),
}

/// `package <list|show|files|interfaces|runtimes>`.
#[derive(Debug)]
pub struct PackageCommand {
    pub command: PackageSubcommand,
}

/// Runtime binding inspection operations.
#[derive(Debug)]
pub enum RuntimeSubcommand {
    List,
    Show(PackageTargetArg),
    Verify(PackageTargetArg),
    Bindings(PackageTargetArg),
}

/// `runtime <list|show|verify|bindings>`.
#[derive(Debug)]
pub struct RuntimeCommand {
    pub command: RuntimeSubcommand,
}

/// Target metadata operations.
#[derive(Debug)]
pub enum TargetSubcommand {
    List,
    Show(TargetArg),
    Verify(TargetArg),
}

/// `target <list|show|verify>`.
#[derive(Debug)]
pub struct TargetCommand {
    pub command: TargetSubcommand,
}

/// The commands of `cista`.
#[derive(Debug)]
pub enum CistaCommand {
    Init(PathArg),
    Check(CheckArgs),
    Inspect(PackageOrPathArg),
    Metadata(PackageOrPathArg),
    Graph(ManifestArg),
    Resolve(ManifestArg),
    Fetch(PackageArg),
    Install(InstallArgs),
    Run(RunArgs),
    Remove(PackageArg),
    Update(OptionalPackageArg),
    Cache(CacheCommand),
    Package(PackageCommand),
    Runtime(RuntimeCommand),
    Target(TargetCommand),
    Publish(PublishArgs),
    Yank(YankArg),
    Login(RegistryAuthArgs),
    Logout(RegistryOriginArg),
    Doctor,
}

/// A parsed `cista` command line.
#[derive(Debug)]
pub struct CistaCli {
    pub command: CistaCommand,
}

} // verus!
