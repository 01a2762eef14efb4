//! The filtered requirement nodes that an export starts from: locked
//! packages with their declared dependencies and their dependents.

use vstd::prelude::*;
use crate::identity::{bom_ref_spec, generate_bom_ref, version_or_unknown, version_text};

verus! {

/// The name of a locked package and, where it could be resolved, its
/// version.
#[derive(Debug, Clone, PartialEq, Eq)]
pub struct PackageId {
    pub name: String,
    pub version: Option<String>,
}

/// A package identifier as texts.
pub struct PackageIdView {
    pub name: Seq<char>,
    pub version: Option<Seq<char>>,
}

impl PackageIdView {
    /// The version as it is written in a document.
    pub open spec fn version_text(self) -> Seq<char> {
        version_text(self.version)
    }

    /// The reference of the component that stands for this package.
    pub open spec fn bom_ref(self) -> Seq<char> {
        bom_ref_spec(self.name, self.version_text())
    }
}

impl View for PackageId {
    type V = PackageIdView;

    open spec fn view(&self) -> PackageIdView {
        PackageIdView {
            name: self.name@,
            version: match self.version {
                Some(v) => Some(v@),
                None => None,
            },
        }
    }
}

impl PackageId {
    /// The version as it is written in a document: `unknown` where the
    /// package has none.
    pub fn resolved_version(&self) -> (version: String)
        ensures
            version@ == self@.version_text(),
    {
        version_or_unknown(&self.version)
    }

    /// The reference of the component that stands for this package.
    pub fn bom_ref(&self) -> (bom_ref: String)
        ensures
            bom_ref@ == self@.bom_ref(),
    {
        let version = self.resolved_version();
        generate_bom_ref(self.name.as_str(), version.as_str())
    }
}

/// The identifiers of a sequence of packages, as texts.
pub open spec fn ids_view(ids: Seq<PackageId>) -> Seq<PackageIdView> {
    Seq::new(ids.len(), |i: int| ids[i]@)
}

/// A locked package: its identifier and the identifiers of the packages
/// it declares as dependencies, in the order of declaration.
#[derive(Debug, Clone, PartialEq, Eq)]
pub struct Package {
    pub id: PackageId,
    pub dependencies: Vec<PackageId>,
}

/// A locked package as texts.
pub struct PackageView {
    pub id: PackageIdView,
    pub dependencies: Seq<PackageIdView>,
}

impl View for Package {
    type V = PackageView;

    open spec fn view(&self) -> PackageView {
        PackageView { id: self.id@, dependencies: ids_view(self.dependencies@) }
    }
}

/// A package that is left after filtering, with the packages that depend
/// on it.
#[derive(Debug, Clone, PartialEq, Eq)]
pub struct ExportableRequirement {
    pub package: Package,
    pub dependents: Vec<PackageId>,
}

/// A filtered requirement node as texts.
pub struct NodeView {
    pub package: PackageView,
    pub dependents: Seq<PackageIdView>,
}

impl NodeView {
    /// The reference of the node's package.
    pub open spec fn bom_ref(self) -> Seq<char> {
        self.package.id.bom_ref()
    }

    /// True if a package with the reference `root` is recorded among the
    /// node's dependents.
    pub open spec fn depends_on_it(self, root: Seq<char>) -> bool {
        exists|k: int|
            0 <= k < self.dependents.len() && #[trigger] self.dependents[k].bom_ref() == root
    }
}

impl View for ExportableRequirement {
    type V = NodeView;

    open spec fn view(&self) -> NodeView {
        NodeView { package: self.package@, dependents: ids_view(self.dependents@) }
    }
}

/// A sequence of nodes as texts.
pub open spec fn nodes_view(nodes: Seq<ExportableRequirement>) -> Seq<NodeView> {
    Seq::new(nodes.len(), |i: int| nodes[i]@)
}

/// The references of a sequence of nodes, in their order.
pub open spec fn node_refs(nodes: Seq<NodeView>) -> Seq<Seq<char>> {
    Seq::new(nodes.len(), |i: int| nodes[i].bom_ref())
}

} // verus!
