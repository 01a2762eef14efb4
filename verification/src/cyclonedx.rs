//! The export of a lock in CycloneDX format: what an export holds, the
//! document that it stands for, and the assembly of that document.

use vstd::prelude::*;
use vstd::string::*;
use crate::bom::{
    component_spec, create_component, root_component, sbom_template_with, serial_number_spec,
    tool_entry, BomView, Component, ComponentView, CycloneDxBom, Dependency, DependencyView,
};
use crate::graph::{
    node_refs, nodes_view, ExportableRequirement, NodeView, Package, PackageIdView,
};
use crate::identity::{bom_ref_spec, generate_bom_ref};
use crate::order::{is_strictly_sorted, sort_and_dedup, texts};
use crate::projection::{
    clone_strings, collect_refs, is_root_dependency, kept_edges, last_index_of,
    lemma_last_with_ref, project_edges, record_dependents, recorded_edges, root_among, same_text,
};
use crate::provenance::{current_timestamp, is_hyphenated_v4, random_uuid};

verus! {

/// An error in processing a lock, raised by whatever produced the
/// filtered nodes or the project's metadata.
#[derive(Debug, Clone, PartialEq, Eq)]
pub struct LockError {
    pub message: String,
}

/// An export of a lock that renders as a CycloneDX document.
#[derive(Debug)]
pub struct CycloneDxExport {
    nodes: Vec<ExportableRequirement>,
    project_name: String,
    project_version: String,
    uv_version: String,
}

/// An export as texts.
pub struct ExportView {
    pub nodes: Seq<NodeView>,
    pub project_name: Seq<char>,
    pub project_version: Seq<char>,
    pub uv_version: Seq<char>,
}

impl ExportView {
    /// The reference of the root component.
    pub open spec fn root_ref(self) -> Seq<char> {
        bom_ref_spec(self.project_name, self.project_version)
    }
}

impl View for CycloneDxExport {
    type V = ExportView;

    closed spec fn view(&self) -> ExportView {
        ExportView {
            nodes: nodes_view(self.nodes@),
            project_name: self.project_name@,
            project_version: self.project_version@,
            uv_version: self.uv_version@,
        }
    }
}

/// The name of a project that has none.
pub open spec fn placeholder_name() -> Seq<char> {
    "unknown-project"@
}

/// The version of a project whose version cannot be resolved.
pub open spec fn placeholder_version() -> Seq<char> {
    "0.0.0"@
}

/// The text of an optional string.
pub open spec fn optional_text(text: Option<&str>) -> Option<Seq<char>> {
    match text {
        Some(t) => Some(t@),
        None => None,
    }
}

/// The version of the lock's root package, if the lock has a root package
/// and that package has a version.
pub open spec fn root_version(root: Option<&Package>) -> Option<Option<Seq<char>>> {
    match root {
        Some(package) => Some(package@.id.version),
        None => None,
    }
}

/// The identity of the project that is exported. The name is the
/// project's name, or the placeholder where it has none. The version is
/// that of the lock's root package, or the placeholder where there is no
/// root package or it has no version. Each falls back on its own.
pub open spec fn project_identity(
    project_name: Option<Seq<char>>,
    root_version: Option<Option<Seq<char>>>,
) -> (Seq<char>, Seq<char>) {
    (
        match project_name {
            Some(name) => name,
            None => placeholder_name(),
        },
        match root_version {
            Some(Some(version)) => version,
            _ => placeholder_version(),
        },
    )
}

/// The component of a filtered package: a library that is required.
pub open spec fn library_component(id: PackageIdView) -> ComponentView {
    ComponentView {
        scope: Some("required"@),
        ..component_spec(id.name, id.version_text(), "library"@)
    }
}

/// The components of the nodes, in their order, without those that have
/// the root's reference.
pub open spec fn expected_components(nodes: Seq<NodeView>, root: Seq<char>) -> Seq<ComponentView>
    decreases nodes.len(),
{
    if nodes.len() == 0 {
        Seq::empty()
    } else {
        let rest = expected_components(nodes.drop_last(), root);
        if nodes.last().bom_ref() == root {
            rest
        } else {
            rest.push(library_component(nodes.last().package.id))
        }
    }
}

/// The dependency entries of the first nodes (`prefix`) of `nodes`, in
/// their order, without those that have the root's reference. Each entry
/// holds the edges that are recorded for its reference among all nodes.
pub open spec fn expected_entries(
    prefix: Seq<NodeView>,
    nodes: Seq<NodeView>,
    root: Seq<char>,
) -> Seq<DependencyView>
    decreases prefix.len(),
{
    if prefix.len() == 0 {
        Seq::empty()
    } else {
        let rest = expected_entries(prefix.drop_last(), nodes, root);
        let r = prefix.last().bom_ref();
        if r == root {
            rest
        } else {
            rest.push(DependencyView { reference: r, depends_on: recorded_edges(nodes, r) })
        }
    }
}

/// True if `doc` is a document of the export: everything in it but the
/// serial number and the timestamp is determined by the export.
///
/// The root component is the project's; the components are those of the
/// nodes other than the root. The first dependency entry is the root's:
/// strictly ascending, it holds the references of the nodes that record
/// the root among their dependents. One entry for each component follows.
pub open spec fn is_export_document(doc: BomView, export: ExportView) -> bool {
    &&& doc.bom_format == "CycloneDX"@
    &&& doc.spec_version == "1.6"@
    &&& doc.version == 1
    &&& doc.metadata.tools == seq![tool_entry(export.uv_version)]
    &&& doc.metadata.component == root_component(export.project_name, export.project_version)
    &&& doc.components == expected_components(export.nodes, export.root_ref())
    &&& doc.dependencies.len() > 0
    &&& doc.dependencies[0].reference == export.root_ref()
    &&& is_strictly_sorted(doc.dependencies[0].depends_on)
    &&& forall|x: Seq<char>| #[trigger]
        doc.dependencies[0].depends_on.contains(x) <==> is_root_dependency(
            export.nodes,
            export.root_ref(),
            x,
        )
    &&& doc.dependencies.drop_first() == expected_entries(
        export.nodes,
        export.nodes,
        export.root_ref(),
    )
}

/// The views of a list of components.
pub open spec fn components_view(list: Seq<Component>) -> Seq<ComponentView> {
    Seq::new(list.len(), |i: int| list[i]@)
}

/// The views of a list of dependency entries.
pub open spec fn dependencies_view(list: Seq<Dependency>) -> Seq<DependencyView> {
    Seq::new(list.len(), |i: int| list[i]@)
}

/// The identity of the project that is exported: its name, or the
/// placeholder name where it has none, and the version of the lock's root
/// package, or the placeholder version where that cannot be resolved.
pub fn extract_project_metadata(project_name: Option<&str>, root: Option<&Package>) -> (identity: (
    String,
    String,
))
    ensures
        (identity.0@, identity.1@) == project_identity(
            optional_text(project_name),
            root_version(root),
        ),
{
    let name = match project_name {
        Some(name) => name.to_owned(),
        None => "unknown-project".to_owned(),
    };
    let version = match root {
        Some(root_package) => match &root_package.id.version {
            Some(v) => v.clone(),
            None => "0.0.0".to_owned(),
        },
        None => "0.0.0".to_owned(),
    };
    (name, version)
}

impl CycloneDxExport {
    /// The export of the filtered nodes of a lock, for the project with
    /// the given name and root package, made by the tool of the given
    /// version. An error in producing the nodes is handed on unchanged.
    pub fn from_lock(
        filtered: Result<Vec<ExportableRequirement>, LockError>,
        project_name: Option<&str>,
        root: Option<&Package>,
        uv_version: &str,
    ) -> (export: Result<CycloneDxExport, LockError>)
        ensures
            match filtered {
                Ok(nodes) => export is Ok && export->Ok_0@ == (ExportView {
                    nodes: nodes_view(nodes@),
                    project_name: project_identity(
                        optional_text(project_name),
                        root_version(root),
                    ).0,
                    project_version: project_identity(
                        optional_text(project_name),
                        root_version(root),
                    ).1,
                    uv_version: uv_version@,
                }),
                Err(e) => export == Err::<CycloneDxExport, LockError>(e),
            },
    {
        match filtered {
            Ok(nodes) => {
                let (project_name, project_version) = extract_project_metadata(project_name, root);
                Ok(
                    CycloneDxExport {
                        nodes,
                        project_name,
                        project_version,
                        uv_version: uv_version.to_owned(),
                    },
                )
            },
            Err(e) => Err(e),
        }
    }

    /// The output of an export, given what the serializer made of the
    /// document: the text itself, or, where the serializer failed, a
    /// message that holds its error. Rendering never fails.
    pub fn render(serialized: Result<String, String>) -> (text: String)
        ensures
            text@ == match serialized {
                Ok(json) => json@,
                Err(e) => "Error serializing SBOM to JSON: "@ + e@,
            },
    {
        match serialized {
            Ok(json) => json,
            Err(e) => {
                let mut text = "Error serializing SBOM to JSON: ".to_owned();
                text.append(e.as_str());
                text
            },
        }
    }

    /// Build the document of the export with a given UUID and creation
    /// timestamp.
    pub fn build_with(&self, uuid: &str, timestamp: &str) -> (sbom: CycloneDxBom)
        ensures
            is_export_document(sbom@, self@),
            sbom@.serial_number == serial_number_spec(uuid@),
            sbom@.metadata.timestamp == timestamp@,
    {
        let mut sbom = sbom_template_with(
            self.project_name.as_str(),
            self.project_version.as_str(),
            self.uv_version.as_str(),
            uuid,
            timestamp,
        );
        let root_bom_ref = generate_bom_ref(
            self.project_name.as_str(),
            self.project_version.as_str(),
        );
        let refs = collect_refs(&self.nodes);
        let ghost nodes = self@.nodes;
        let ghost root = self@.root_ref();
        let n = self.nodes.len();
        assert(refs.len() == texts(refs@).len());

        let mut components: Vec<Component> = Vec::new();
        let mut edge_lists: Vec<Vec<String>> = Vec::new();
        let mut root_depends_on: Vec<String> = Vec::new();
        let mut i: usize = 0;
        assert(components_view(components@) =~= expected_components(nodes.take(0), root));
        while i < n
            invariant
                i <= n,
                n == self.nodes.len(),
                nodes == nodes_view(self.nodes@),
                root == root_bom_ref@,
                texts(refs@) == node_refs(nodes),
                n == refs.len(),
                edge_lists.len() == i,
                forall|k: int|
                    0 <= k < i && nodes[k].bom_ref() != root ==> texts(#[trigger] edge_lists[k]@)
                        == kept_edges(nodes[k].package.dependencies, node_refs(nodes)),
                components_view(components@) == expected_components(nodes.take(i as int), root),
                forall|x: Seq<char>| #[trigger]
                    texts(root_depends_on@).contains(x) <==> is_root_dependency(
                        nodes.take(i as int),
                        root,
                        x,
                    ),
            decreases n - i,
        {
            let node = &self.nodes[i];
            let bom_ref = &refs[i];
            let ghost collected = texts(root_depends_on@);
            proof {
                assert(nodes.take(i + 1).drop_last() =~= nodes.take(i as int));
                assert(nodes.take(i + 1).last() == node@);
                assert(bom_ref@ == texts(refs@)[i as int]);
                assert(bom_ref@ == node@.bom_ref());
            }
            if same_text(bom_ref, &root_bom_ref) {
                edge_lists.push(Vec::new());
            } else {
                let depends_on = project_edges(&node.package.dependencies, &refs);
                edge_lists.push(depends_on);
                root_depends_on = record_dependents(
                    &node.dependents,
                    &root_bom_ref,
                    bom_ref,
                    root_depends_on,
                );
                let version = node.package.id.resolved_version();
                let mut component = create_component(
                    node.package.id.name.as_str(),
                    version.as_str(),
                    "library",
                );
                component.scope = Some("required".to_owned());
                let ghost before = components_view(components@);
                components.push(component);
                assert(components_view(components@) =~= before.push(
                    library_component(node@.package.id),
                ));
            }
            proof {
                lemma_root_dependency_step(nodes, root, i as int);
                assert forall|x: Seq<char>| #[trigger]
                    texts(root_depends_on@).contains(x) <==> is_root_dependency(
                        nodes.take(i + 1),
                        root,
                        x,
                    ) by {
                    assert(collected.contains(x) <==> is_root_dependency(
                        nodes.take(i as int),
                        root,
                        x,
                    ));
                    assert(nodes[i as int] == node@);
                    assert(node@.dependents.len() == node.dependents@.len());
                    assert(node@.depends_on_it(root) <==> root_among(
                        node@.dependents,
                        root,
                        node.dependents@.len() as int,
                    ));
                    assert(is_root_dependency(nodes.take(i + 1), root, x) <==> (
                    is_root_dependency(nodes.take(i as int), root, x) || (x == nodes[i as int].bom_ref()
                        && x != root && nodes[i as int].depends_on_it(root))));
                }
            }
            i += 1;
        }
        assert(nodes.take(n as int) =~= nodes);
        sort_and_dedup(&mut root_depends_on);

        let mut dependencies: Vec<Dependency> = Vec::new();
        let root_reference = root_bom_ref.clone();
        let root_dependency = Dependency { reference: root_reference, depends_on: root_depends_on };
        let ghost root_entry = root_dependency@;
        dependencies.push(root_dependency);
        let mut i: usize = 0;
        assert(dependencies_view(dependencies@).drop_first() =~= expected_entries(
            nodes.take(0),
            nodes,
            root,
        ));
        while i < n
            invariant
                i <= n,
                n == self.nodes.len(),
                n == edge_lists.len(),
                n == refs.len(),
                nodes == nodes_view(self.nodes@),
                root == root_bom_ref@,
                texts(refs@) == node_refs(nodes),
                forall|k: int|
                    0 <= k < n && nodes[k].bom_ref() != root ==> texts(#[trigger] edge_lists[k]@)
                        == kept_edges(nodes[k].package.dependencies, node_refs(nodes)),
                dependencies.len() > 0,
                dependencies_view(dependencies@)[0] == root_entry,
                dependencies_view(dependencies@).drop_first() == expected_entries(
                    nodes.take(i as int),
                    nodes,
                    root,
                ),
            decreases n - i,
        {
            let bom_ref = &refs[i];
            proof {
                assert(nodes.take(i + 1).drop_last() =~= nodes.take(i as int));
                assert(nodes.take(i + 1).last() == nodes[i as int]);
                assert(bom_ref@ == texts(refs@)[i as int]);
                assert(bom_ref@ == nodes[i as int].bom_ref());
                lemma_last_with_ref(node_refs(nodes), bom_ref@);
            }
            if !same_text(bom_ref, &root_bom_ref) {
                let depends_on = match last_index_of(&refs, bom_ref) {
                    Some(j) => {
                        assert(node_refs(nodes)[j as int] == nodes[j as int].bom_ref());
                        clone_strings(&edge_lists[j])
                    },
                    None => Vec::new(),
                };
                assert(texts(depends_on@) =~= recorded_edges(nodes, bom_ref@));
                let reference = bom_ref.clone();
                let entry = Dependency { reference, depends_on };
                let ghost before = dependencies_view(dependencies@);
                dependencies.push(entry);
                assert(dependencies_view(dependencies@) =~= before.push(entry@));
                assert(dependencies_view(dependencies@).drop_first() =~= before.drop_first().push(
                    entry@,
                ));
            }
            i += 1;
        }
        assert(nodes.take(n as int) =~= nodes);
        sbom.components = components;
        sbom.dependencies = dependencies;
        assert(sbom@.components =~= components_view(components@));
        assert(sbom@.dependencies =~= dependencies_view(dependencies@));
        sbom
    }

    /// Build the document of the export, with a fresh random serial number
    /// and the current instant as creation timestamp.
    pub fn build_cyclone_dx_bom(&self) -> (sbom: CycloneDxBom)
        ensures
            is_export_document(sbom@, self@),
            exists|uuid: Seq<char>|
                is_hyphenated_v4(uuid) && sbom@.serial_number == serial_number_spec(uuid),
    {
        let timestamp = current_timestamp();
        let uuid = random_uuid();
        self.build_with(uuid.as_str(), timestamp.as_str())
    }
}

/// The nodes that the root depends on among the first `i + 1` nodes are
/// those among the first `i`, and the node at `i` if it is not the root
/// and records the root among its dependents.
pub proof fn lemma_root_dependency_step(nodes: Seq<NodeView>, root: Seq<char>, i: int)
    requires
        0 <= i < nodes.len(),
    ensures
        forall|x: Seq<char>| #[trigger]
            is_root_dependency(nodes.take(i + 1), root, x) <==> (is_root_dependency(
                nodes.take(i),
                root,
                x,
            ) || (x == nodes[i].bom_ref() && x != root && nodes[i].depends_on_it(root))),
{
    let shorter = nodes.take(i);
    let longer = nodes.take(i + 1);
    assert forall|x: Seq<char>| #[trigger]
        is_root_dependency(longer, root, x) <==> (is_root_dependency(shorter, root, x) || (x
            == nodes[i].bom_ref() && x != root && nodes[i].depends_on_it(root))) by {
        if is_root_dependency(longer, root, x) {
            let k = choose|k: int|
                0 <= k < longer.len() && #[trigger] longer[k].bom_ref() == x && x != root
                    && longer[k].depends_on_it(root);
            if k < i {
                assert(shorter[k].bom_ref() == x);
            }
        }
        if is_root_dependency(shorter, root, x) {
            let k = choose|k: int|
                0 <= k < shorter.len() && #[trigger] shorter[k].bom_ref() == x && x != root
                    && shorter[k].depends_on_it(root);
            assert(longer[k].bom_ref() == x);
        }
        if x == nodes[i].bom_ref() && x != root && nodes[i].depends_on_it(root) {
            assert(longer[i].bom_ref() == x);
        }
    }
}

} // verus!
