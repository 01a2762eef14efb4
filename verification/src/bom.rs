//! The CycloneDX document: its records, their views as texts, and the
//! construction of a component and of the empty document.

use vstd::prelude::*;
use crate::identity::{bom_ref_spec, generate_bom_ref, generate_purl, purl_spec};
use crate::order::texts;
use crate::provenance::{current_timestamp, is_hyphenated_v4, random_uuid};

verus! {

/// Cryptographic hash of a component.
#[derive(Debug, Clone, PartialEq, Eq)]
pub struct Hash {
    /// The hash algorithm (e.g., "SHA-256").
    pub alg: String,
    /// The hash value in hexadecimal format.
    pub content: String,
}

/// A hash as texts.
pub struct HashView {
    pub alg: Seq<char>,
    pub content: Seq<char>,
}

impl View for Hash {
    type V = HashView;

    open spec fn view(&self) -> HashView {
        HashView { alg: self.alg@, content: self.content@ }
    }
}

/// A software component in the document.
#[derive(Debug, Clone, PartialEq, Eq)]
pub struct Component {
    /// The type of component (e.g., "library", "application").
    pub component_type: String,
    /// Unique identifier for this component within the document.
    pub bom_ref: String,
    /// The name of the component.
    pub name: String,
    /// The version of the component.
    pub version: String,
    /// Package URL identifier for the component.
    pub purl: String,
    /// The scope of the component (e.g., "required", "optional").
    pub scope: Option<String>,
    /// Optional cryptographic hashes of the component.
    pub hashes: Option<Vec<Hash>>,
}

/// A component as texts.
pub struct ComponentView {
    pub component_type: Seq<char>,
    pub bom_ref: Seq<char>,
    pub name: Seq<char>,
    pub version: Seq<char>,
    pub purl: Seq<char>,
    pub scope: Option<Seq<char>>,
    pub hashes: Option<Seq<HashView>>,
}

impl View for Component {
    type V = ComponentView;

    open spec fn view(&self) -> ComponentView {
        ComponentView {
            component_type: self.component_type@,
            bom_ref: self.bom_ref@,
            name: self.name@,
            version: self.version@,
            purl: self.purl@,
            scope: match self.scope {
                Some(s) => Some(s@),
                None => None,
            },
            hashes: match self.hashes {
                Some(h) => Some(Seq::new(h@.len(), |i: int| h@[i]@)),
                None => None,
            },
        }
    }
}

/// The component of a given type for a name and a version, without scope
/// and without hashes.
pub open spec fn component_spec(
    name: Seq<char>,
    version: Seq<char>,
    component_type: Seq<char>,
) -> ComponentView {
    ComponentView {
        component_type,
        bom_ref: bom_ref_spec(name, version),
        name,
        version,
        purl: purl_spec(name, version),
        scope: None,
        hashes: None,
    }
}

/// A dependency relationship between components.
#[derive(Debug, Clone, PartialEq, Eq)]
pub struct Dependency {
    /// Reference to the component that has dependencies.
    pub reference: String,
    /// References of the components that this component depends on.
    pub depends_on: Vec<String>,
}

/// A dependency entry as texts.
pub struct DependencyView {
    pub reference: Seq<char>,
    pub depends_on: Seq<Seq<char>>,
}

impl View for Dependency {
    type V = DependencyView;

    open spec fn view(&self) -> DependencyView {
        DependencyView { reference: self.reference@, depends_on: texts(self.depends_on@) }
    }
}

/// Information about a tool used to create the document.
#[derive(Debug, Clone, PartialEq, Eq)]
pub struct Tool {
    /// The vendor of the tool.
    pub vendor: String,
    /// The name of the tool.
    pub name: String,
    /// The version of the tool.
    pub version: String,
}

/// A tool as texts.
pub struct ToolView {
    pub vendor: Seq<char>,
    pub name: Seq<char>,
    pub version: Seq<char>,
}

impl View for Tool {
    type V = ToolView;

    open spec fn view(&self) -> ToolView {
        ToolView { vendor: self.vendor@, name: self.name@, version: self.version@ }
    }
}

/// Metadata section of the document containing creation information.
#[derive(Debug, Clone, PartialEq, Eq)]
pub struct Metadata {
    /// Timestamp when the document was created.
    pub timestamp: String,
    /// List of tools used to create the document.
    pub tools: Vec<Tool>,
    /// The root component that the document describes.
    pub component: Component,
}

/// The metadata as texts.
pub struct MetadataView {
    pub timestamp: Seq<char>,
    pub tools: Seq<ToolView>,
    pub component: ComponentView,
}

impl View for Metadata {
    type V = MetadataView;

    open spec fn view(&self) -> MetadataView {
        MetadataView {
            timestamp: self.timestamp@,
            tools: Seq::new(self.tools@.len(), |i: int| self.tools@[i]@),
            component: self.component@,
        }
    }
}

/// A minimal CycloneDX 1.6 document with components and dependencies.
#[derive(Debug, Clone, PartialEq, Eq)]
pub struct CycloneDxBom {
    /// The format identifier.
    pub bom_format: String,
    /// The CycloneDX specification version.
    pub spec_version: String,
    /// A unique serial number for this document.
    pub serial_number: String,
    /// The version of this document.
    pub version: u32,
    /// Metadata about the creation of the document.
    pub metadata: Metadata,
    /// List of software components.
    pub components: Vec<Component>,
    /// List of dependency relationships.
    pub dependencies: Vec<Dependency>,
}

/// The document as texts.
pub struct BomView {
    pub bom_format: Seq<char>,
    pub spec_version: Seq<char>,
    pub serial_number: Seq<char>,
    pub version: u32,
    pub metadata: MetadataView,
    pub components: Seq<ComponentView>,
    pub dependencies: Seq<DependencyView>,
}

impl View for CycloneDxBom {
    type V = BomView;

    open spec fn view(&self) -> BomView {
        BomView {
            bom_format: self.bom_format@,
            spec_version: self.spec_version@,
            serial_number: self.serial_number@,
            version: self.version,
            metadata: self.metadata@,
            components: Seq::new(self.components@.len(), |i: int| self.components@[i]@),
            dependencies: Seq::new(self.dependencies@.len(), |i: int| self.dependencies@[i]@),
        }
    }
}

/// The root component of a project: an application, without scope.
pub open spec fn root_component(name: Seq<char>, version: Seq<char>) -> ComponentView {
    component_spec(name, version, "application"@)
}

/// The provenance entry of the exporting tool.
pub open spec fn tool_entry(tool_version: Seq<char>) -> ToolView {
    ToolView { vendor: "Astral"@, name: "uv"@, version: tool_version }
}

/// The serial number of a document with the given UUID: `urn:uuid:` and
/// the UUID.
pub open spec fn serial_number_spec(uuid: Seq<char>) -> Seq<char> {
    "urn:uuid:"@ + uuid
}

/// The document of a project before any component is entered: the
/// markers, the metadata with the root component, no components and no
/// dependencies.
pub open spec fn template_spec(
    project_name: Seq<char>,
    project_version: Seq<char>,
    tool_version: Seq<char>,
    uuid: Seq<char>,
    timestamp: Seq<char>,
) -> BomView {
    BomView {
        bom_format: "CycloneDX"@,
        spec_version: "1.6"@,
        serial_number: serial_number_spec(uuid),
        version: 1,
        metadata: MetadataView {
            timestamp,
            tools: seq![tool_entry(tool_version)],
            component: root_component(project_name, project_version),
        },
        components: Seq::empty(),
        dependencies: Seq::empty(),
    }
}

/// Create a component for the document, without scope and hashes.
pub fn create_component(name: &str, version: &str, component_type: &str) -> (component: Component)
    ensures
        component@ == component_spec(name@, version@, component_type@),
{
    let purl = generate_purl(name, version);
    let bom_ref = generate_bom_ref(name, version);
    Component {
        component_type: component_type.to_owned(),
        bom_ref,
        name: name.to_owned(),
        version: version.to_owned(),
        purl,
        scope: None,
        hashes: None,
    }
}

/// The empty document of a project with a given UUID and creation
/// timestamp.
pub fn sbom_template_with(
    project_name: &str,
    project_version: &str,
    uv_version: &str,
    uuid: &str,
    timestamp: &str,
) -> (sbom: CycloneDxBom)
    ensures
        sbom@ == template_spec(project_name@, project_version@, uv_version@, uuid@, timestamp@),
{
    let root_component = create_component(project_name, project_version, "application");
    let mut serial_number = "urn:uuid:".to_owned();
    serial_number.append(uuid);
    let mut tools: Vec<Tool> = Vec::new();
    tools.push(
        Tool { vendor: "Astral".to_owned(), name: "uv".to_owned(), version: uv_version.to_owned() },
    );
    let sbom = CycloneDxBom {
        bom_format: "CycloneDX".to_owned(),
        spec_version: "1.6".to_owned(),
        serial_number,
        version: 1,
        metadata: Metadata { timestamp: timestamp.to_owned(), tools, component: root_component },
        components: Vec::new(),
        dependencies: Vec::new(),
    };
    assert(sbom@.metadata.tools =~= seq![tool_entry(uv_version@)]);
    assert(sbom@.components =~= Seq::empty());
    assert(sbom@.dependencies =~= Seq::empty());
    sbom
}

/// Create a new document with basic metadata: a fresh random serial
/// number, the current instant as timestamp, the tool entry and the root
/// component of the project. Everything but the UUID and the timestamp is
/// determined by the arguments; the UUID has the hyphenated form of a
/// version 4 UUID.
pub fn create_sbom_template(project_name: &str, project_version: &str, uv_version: &str) -> (sbom:
    CycloneDxBom)
    ensures
        exists|uuid: Seq<char>, timestamp: Seq<char>|
            is_hyphenated_v4(uuid) && sbom@ == template_spec(
                project_name@,
                project_version@,
                uv_version@,
                uuid,
                timestamp,
            ),
{
    let timestamp = current_timestamp();
    let uuid = random_uuid();
    sbom_template_with(
        project_name,
        project_version,
        uv_version,
        uuid.as_str(),
        timestamp.as_str(),
    )
}

} // verus!
