//! Export of a resolved, filtered dependency graph as a CycloneDX 1.6
//! software bill of materials.
//!
//! The library takes the filtered requirement nodes and the project's
//! identity as plain values, and assembles the document: the root
//! component, one component per node, and the dependency entries.

pub mod export_format;
pub mod identity;
pub mod order;
pub mod graph;
pub mod provenance;
pub mod bom;
pub mod projection;
pub mod cyclonedx;
pub mod laws;

pub use crate::bom::{create_component, create_sbom_template, Component, CycloneDxBom, Dependency, Metadata, Tool};
pub use crate::cyclonedx::{extract_project_metadata, CycloneDxExport, LockError};
pub use crate::export_format::ExportFormat;
pub use crate::graph::{ExportableRequirement, Package, PackageId};
pub use crate::identity::{generate_bom_ref, generate_purl};
