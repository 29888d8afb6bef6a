use cista::cache::CacheConfig;
use cista::diagnostics::Diagnostic;
use cista::manifest::{manifest_path, BindingPolicy, PackageRole, SourceKind, TargetMode};
use cista::package::PackageId;
use cista::resolver::PackageRequest;
use cista::runtime::RuntimeBinding;
use cista::target::TargetId;

#[test]
fn cache_is_writable_by_default() {
    assert!(CacheConfig::default().writable);
}

#[test]
fn identities_carry_their_names() {
    let id = PackageId::new("norma".to_owned());
    assert_eq!(id.name, "norma");
    let request = PackageRequest::new(id.clone());
    assert_eq!(request.package, id);
    let binding = RuntimeBinding::new(id.clone(), "rust".to_owned());
    assert_eq!(binding.target, "rust");
    assert_eq!(TargetId::new("rust".to_owned()).name, "rust");
    assert_eq!(Diagnostic::new("bad".to_owned()).message, "bad");
}

#[test]
fn manifest_spellings_are_kebab_case() {
    assert_eq!(SourceKind::Artifact.kebab_name(), "artifact");
    assert_eq!(BindingPolicy::Manifest.kebab_name(), "manifest");
    assert_eq!(TargetMode::Compile.kebab_name(), "compile");
    assert_eq!(PackageRole::Bin.kebab_name(), "bin");
    assert_eq!(manifest_path("/pkg", None), "/pkg/cista.toml");
    assert_eq!(manifest_path("/pkg", Some("alt/cista.toml")), "/pkg/alt/cista.toml");
}
