use cyclonedx_export::export_format::ExportFormat;
use cyclonedx_export::graph::PackageId;
use cyclonedx_export::identity::version_or_unknown;
use cyclonedx_export::{create_component, generate_bom_ref, generate_purl};

#[test]
fn bom_ref_joins_name_and_version() {
    assert_eq!(generate_bom_ref("requests", "2.0"), "requests@2.0");
    assert_eq!(generate_bom_ref("", ""), "@");
}

#[test]
fn purl_has_pypi_prefix() {
    assert_eq!(generate_purl("requests", "2.0"), "pkg:pypi/requests@2.0");
}

#[test]
fn bom_ref_is_repeatable_and_tells_inputs_apart() {
    assert_eq!(generate_bom_ref("a", "1"), generate_bom_ref("a", "1"));
    assert_ne!(generate_bom_ref("a", "1"), generate_bom_ref("a", "2"));
    assert_ne!(generate_bom_ref("a", "1"), generate_bom_ref("b", "1"));
}

#[test]
fn bom_ref_of_names_with_at_sign_can_collide() {
    assert_eq!(generate_bom_ref("a@b", "c"), generate_bom_ref("a", "b@c"));
}

#[test]
fn absent_version_is_unknown() {
    assert_eq!(version_or_unknown(&None), "unknown");
    assert_eq!(version_or_unknown(&Some("1.2.3".to_string())), "1.2.3");
    let id = PackageId { name: "name".to_string(), version: None };
    assert_eq!(id.resolved_version(), "unknown");
    assert_eq!(id.bom_ref(), "name@unknown");
    assert_eq!(generate_purl(&id.name, &id.resolved_version()), "pkg:pypi/name@unknown");
}

#[test]
fn present_version_is_kept() {
    let id = PackageId { name: "name".to_string(), version: Some("3.1".to_string()) };
    assert_eq!(id.resolved_version(), "3.1");
    assert_eq!(id.bom_ref(), "name@3.1");
}

#[test]
fn component_has_identity_and_no_scope() {
    let component = create_component("requests", "2.0", "library");
    assert_eq!(component.component_type, "library");
    assert_eq!(component.bom_ref, "requests@2.0");
    assert_eq!(component.name, "requests");
    assert_eq!(component.version, "2.0");
    assert_eq!(component.purl, "pkg:pypi/requests@2.0");
    assert_eq!(component.scope, None);
    assert_eq!(component.hashes, None);
}

#[test]
fn default_format_is_requirements_txt() {
    assert_eq!(ExportFormat::default(), ExportFormat::RequirementsTxt);
    assert_ne!(ExportFormat::default(), ExportFormat::CycloneDx16Json);
    assert_ne!(ExportFormat::PylockToml, ExportFormat::CycloneDx16Json);
}
