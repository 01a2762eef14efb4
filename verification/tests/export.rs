use cyclonedx_export::bom::{create_sbom_template, sbom_template_with, CycloneDxBom, Dependency};
use cyclonedx_export::cyclonedx::{extract_project_metadata, CycloneDxExport, LockError};
use cyclonedx_export::graph::{ExportableRequirement, Package, PackageId};

fn id(name: &str, version: Option<&str>) -> PackageId {
    PackageId { name: name.to_string(), version: version.map(|v| v.to_string()) }
}

fn node(
    package: PackageId,
    dependencies: Vec<PackageId>,
    dependents: Vec<PackageId>,
) -> ExportableRequirement {
    ExportableRequirement { package: Package { id: package, dependencies }, dependents }
}

fn export(
    nodes: Vec<ExportableRequirement>,
    name: Option<&str>,
    root: Option<&Package>,
) -> CycloneDxExport {
    CycloneDxExport::from_lock(Ok(nodes), name, root, "0.9.0").unwrap()
}

fn entry(reference: &str, depends_on: &[&str]) -> Dependency {
    Dependency {
        reference: reference.to_string(),
        depends_on: depends_on.iter().map(|s| s.to_string()).collect(),
    }
}

fn myapp() -> Package {
    Package { id: id("myapp", Some("1.0")), dependencies: vec![id("requests", Some("2.0"))] }
}

fn assert_closed(sbom: &CycloneDxBom) {
    for dependency in &sbom.dependencies {
        for reference in &dependency.depends_on {
            assert!(
                *reference == sbom.metadata.component.bom_ref
                    || sbom.components.iter().any(|c| c.bom_ref == *reference)
            );
        }
    }
    assert_eq!(sbom.dependencies.len(), sbom.components.len() + 1);
    for (i, component) in sbom.components.iter().enumerate() {
        assert_eq!(component.bom_ref, sbom.dependencies[i + 1].reference);
        assert_ne!(component.bom_ref, sbom.metadata.component.bom_ref);
    }
}

#[test]
fn root_with_one_dependency() {
    let root = myapp();
    let nodes = vec![
        node(id("myapp", Some("1.0")), vec![id("requests", Some("2.0"))], vec![]),
        node(id("requests", Some("2.0")), vec![], vec![id("myapp", Some("1.0"))]),
    ];
    let sbom = export(nodes, Some("myapp"), Some(&root)).build_with("u", "t");
    assert_eq!(sbom.components.len(), 1);
    assert_eq!(sbom.components[0].bom_ref, "requests@2.0");
    assert_eq!(sbom.components[0].component_type, "library");
    assert_eq!(sbom.components[0].name, "requests");
    assert_eq!(sbom.components[0].version, "2.0");
    assert_eq!(sbom.components[0].purl, "pkg:pypi/requests@2.0");
    assert_eq!(sbom.components[0].scope, Some("required".to_string()));
    assert_eq!(sbom.components[0].hashes, None);
    assert_eq!(
        sbom.dependencies,
        vec![entry("myapp@1.0", &["requests@2.0"]), entry("requests@2.0", &[])]
    );
    assert_closed(&sbom);
}

#[test]
fn envelope_of_document() {
    let root = myapp();
    let sbom = export(vec![], Some("myapp"), Some(&root)).build_with("1234", "2024-01-01T00:00:00Z");
    assert_eq!(sbom.bom_format, "CycloneDX");
    assert_eq!(sbom.spec_version, "1.6");
    assert_eq!(sbom.serial_number, "urn:uuid:1234");
    assert_eq!(sbom.version, 1);
    assert_eq!(sbom.metadata.timestamp, "2024-01-01T00:00:00Z");
    assert_eq!(sbom.metadata.tools.len(), 1);
    assert_eq!(sbom.metadata.tools[0].vendor, "Astral");
    assert_eq!(sbom.metadata.tools[0].name, "uv");
    assert_eq!(sbom.metadata.tools[0].version, "0.9.0");
    assert_eq!(sbom.metadata.component.component_type, "application");
    assert_eq!(sbom.metadata.component.bom_ref, "myapp@1.0");
    assert_eq!(sbom.metadata.component.name, "myapp");
    assert_eq!(sbom.metadata.component.version, "1.0");
    assert_eq!(sbom.metadata.component.purl, "pkg:pypi/myapp@1.0");
    assert_eq!(sbom.metadata.component.scope, None);
    assert_eq!(sbom.metadata.component.hashes, None);
    assert!(sbom.components.is_empty());
    assert_eq!(sbom.dependencies, vec![entry("myapp@1.0", &[])]);
}

#[test]
fn pruned_dependency_is_not_an_edge() {
    let root = myapp();
    let nodes = vec![
        node(
            id("requests", Some("2.0")),
            vec![id("urllib3", Some("1.0")), id("idna", Some("3.0")), id("myapp", Some("1.0"))],
            vec![id("myapp", Some("1.0"))],
        ),
        node(id("idna", Some("3.0")), vec![], vec![id("requests", Some("2.0"))]),
        node(id("myapp", Some("1.0")), vec![id("requests", Some("2.0"))], vec![]),
    ];
    let sbom = export(nodes, Some("myapp"), Some(&root)).build_with("u", "t");
    assert_eq!(
        sbom.dependencies,
        vec![
            entry("myapp@1.0", &["requests@2.0"]),
            entry("requests@2.0", &["idna@3.0", "myapp@1.0"]),
            entry("idna@3.0", &[]),
        ]
    );
    assert_eq!(sbom.components.len(), 2);
    assert_eq!(sbom.components[0].bom_ref, "requests@2.0");
    assert_eq!(sbom.components[1].bom_ref, "idna@3.0");
    assert_closed(&sbom);
}

#[test]
fn package_without_version_is_unknown() {
    let root = myapp();
    let nodes = vec![node(id("name", None), vec![id("name", None)], vec![id("myapp", Some("1.0"))])];
    let sbom = export(nodes, Some("myapp"), Some(&root)).build_with("u", "t");
    assert_eq!(sbom.components.len(), 1);
    assert_eq!(sbom.components[0].bom_ref, "name@unknown");
    assert_eq!(sbom.components[0].version, "unknown");
    assert_eq!(sbom.components[0].purl, "pkg:pypi/name@unknown");
    assert_eq!(
        sbom.dependencies,
        vec![entry("myapp@1.0", &["name@unknown"]), entry("name@unknown", &["name@unknown"])]
    );
}

#[test]
fn project_without_identity_uses_placeholders() {
    let nodes = vec![node(id("a", Some("1")), vec![], vec![id("unknown-project", Some("0.0.0"))])];
    let sbom = export(nodes, None, None).build_with("u", "t");
    assert_eq!(sbom.metadata.component.bom_ref, "unknown-project@0.0.0");
    assert_eq!(sbom.metadata.component.name, "unknown-project");
    assert_eq!(sbom.metadata.component.version, "0.0.0");
    assert_eq!(sbom.metadata.component.purl, "pkg:pypi/unknown-project@0.0.0");
    assert_eq!(sbom.metadata.component.component_type, "application");
    assert_eq!(
        sbom.dependencies,
        vec![entry("unknown-project@0.0.0", &["a@1"]), entry("a@1", &[])]
    );
    assert_closed(&sbom);
}

#[test]
fn project_without_name_keeps_root_version() {
    let root = Package { id: id("lib", Some("2.0")), dependencies: vec![] };
    let nodes = vec![
        node(id("a", Some("1")), vec![], vec![id("unknown-project", Some("2.0"))]),
        node(id("b", Some("1")), vec![], vec![id("unknown-project", Some("0.0.0"))]),
    ];
    let sbom = export(nodes, None, Some(&root)).build_with("u", "t");
    assert_eq!(sbom.metadata.component.bom_ref, "unknown-project@2.0");
    assert_eq!(sbom.metadata.component.name, "unknown-project");
    assert_eq!(sbom.metadata.component.version, "2.0");
    assert_eq!(sbom.metadata.component.purl, "pkg:pypi/unknown-project@2.0");
    assert_eq!(
        sbom.dependencies,
        vec![entry("unknown-project@2.0", &["a@1"]), entry("a@1", &[]), entry("b@1", &[])]
    );
    assert_closed(&sbom);
}

#[test]
fn project_metadata_fallbacks() {
    let with_version = myapp();
    let without_version = Package { id: id("myapp", None), dependencies: vec![] };
    assert_eq!(
        extract_project_metadata(Some("myapp"), Some(&with_version)),
        ("myapp".to_string(), "1.0".to_string())
    );
    assert_eq!(
        extract_project_metadata(Some("myapp"), Some(&without_version)),
        ("myapp".to_string(), "0.0.0".to_string())
    );
    assert_eq!(
        extract_project_metadata(Some("myapp"), None),
        ("myapp".to_string(), "0.0.0".to_string())
    );
    assert_eq!(
        extract_project_metadata(None, Some(&with_version)),
        ("unknown-project".to_string(), "1.0".to_string())
    );
    assert_eq!(
        extract_project_metadata(None, Some(&without_version)),
        ("unknown-project".to_string(), "0.0.0".to_string())
    );
    assert_eq!(
        extract_project_metadata(None, None),
        ("unknown-project".to_string(), "0.0.0".to_string())
    );
}

#[test]
fn root_dependencies_are_sorted_and_unique() {
    let root = myapp();
    let me = || id("myapp", Some("1.0"));
    let nodes = vec![
        node(id("zlib", Some("1")), vec![], vec![me(), me()]),
        node(id("attrs", Some("2")), vec![], vec![id("other", Some("1")), me()]),
        node(id("zlib", Some("1")), vec![], vec![me()]),
        node(id("click", Some("8")), vec![], vec![id("attrs", Some("2"))]),
        node(id("myapp", Some("1.0")), vec![], vec![me()]),
        node(id("attrs", Some("10")), vec![], vec![me()]),
    ];
    let sbom = export(nodes, Some("myapp"), Some(&root)).build_with("u", "t");
    assert_eq!(sbom.dependencies[0], entry("myapp@1.0", &["attrs@10", "attrs@2", "zlib@1"]));
    assert_eq!(sbom.components.len(), 5);
    assert_eq!(sbom.dependencies.len(), 6);
    assert_closed(&sbom);
}

#[test]
fn edges_keep_order_and_duplicates() {
    let root = myapp();
    let nodes = vec![
        node(
            id("a", Some("1")),
            vec![id("c", Some("1")), id("b", Some("1")), id("c", Some("1")), id("d", Some("1"))],
            vec![],
        ),
        node(id("b", Some("1")), vec![], vec![]),
        node(id("c", Some("1")), vec![], vec![]),
    ];
    let sbom = export(nodes, Some("myapp"), Some(&root)).build_with("u", "t");
    assert_eq!(
        sbom.dependencies,
        vec![
            entry("myapp@1.0", &[]),
            entry("a@1", &["c@1", "b@1", "c@1"]),
            entry("b@1", &[]),
            entry("c@1", &[]),
        ]
    );
    assert_closed(&sbom);
}

#[test]
fn nodes_with_one_reference_share_the_last_edges() {
    let root = myapp();
    let nodes = vec![
        node(id("a", Some("1")), vec![id("b", Some("1"))], vec![]),
        node(id("b", Some("1")), vec![], vec![]),
        node(id("a", Some("1")), vec![id("a", Some("1"))], vec![]),
    ];
    let sbom = export(nodes, Some("myapp"), Some(&root)).build_with("u", "t");
    assert_eq!(
        sbom.dependencies,
        vec![
            entry("myapp@1.0", &[]),
            entry("a@1", &["a@1"]),
            entry("b@1", &[]),
            entry("a@1", &["a@1"]),
        ]
    );
    assert_eq!(sbom.components.len(), 3);
    assert_closed(&sbom);
}

#[test]
fn lock_error_is_handed_on() {
    let error = LockError { message: "no version".to_string() };
    let result = CycloneDxExport::from_lock(Err(error.clone()), Some("myapp"), None, "0.9.0");
    assert_eq!(result.err(), Some(error));
}

#[test]
fn render_gives_text_or_message() {
    assert_eq!(CycloneDxExport::render(Ok("{}".to_string())), "{}");
    assert_eq!(
        CycloneDxExport::render(Err("key must be a string".to_string())),
        "Error serializing SBOM to JSON: key must be a string"
    );
}

#[test]
fn two_exports_differ_only_in_serial_number_and_timestamp() {
    let root = myapp();
    let nodes = vec![
        node(id("myapp", Some("1.0")), vec![id("requests", Some("2.0"))], vec![]),
        node(id("requests", Some("2.0")), vec![], vec![id("myapp", Some("1.0"))]),
    ];
    let export = export(nodes, Some("myapp"), Some(&root));
    let first = export.build_cyclone_dx_bom();
    let mut second = export.build_cyclone_dx_bom();
    assert_ne!(first.serial_number, second.serial_number);
    second.serial_number = first.serial_number.clone();
    second.metadata.timestamp = first.metadata.timestamp.clone();
    assert_eq!(first, second);
    assert_closed(&first);
}

#[test]
fn fresh_document_has_uuid_and_timestamp() {
    let sbom = create_sbom_template("myapp", "1.0", "0.9.0");
    assert!(sbom.serial_number.starts_with("urn:uuid:"));
    assert_eq!(sbom.serial_number.len(), 45);
    let uuid = &sbom.serial_number.as_bytes()[9..];
    assert_eq!(uuid[8], b'-');
    assert_eq!(uuid[13], b'-');
    assert_eq!(uuid[18], b'-');
    assert_eq!(uuid[23], b'-');
    assert_eq!(uuid[14], b'4');
    assert!(sbom.metadata.timestamp.ends_with('Z'));
    assert!(sbom.metadata.timestamp.contains('T'));
    assert_eq!(sbom.metadata.component.bom_ref, "myapp@1.0");
    assert!(sbom.components.is_empty());
    assert!(sbom.dependencies.is_empty());
    let mut expected = sbom_template_with("myapp", "1.0", "0.9.0", "", "");
    expected.serial_number = sbom.serial_number.clone();
    expected.metadata.timestamp = sbom.metadata.timestamp.clone();
    assert_eq!(sbom, expected);
}
