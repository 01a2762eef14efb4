//! What holds of every document of an export: its references are closed,
//! it has one dependency entry for the root and one for each component,
//! and it is determined by the export but for the serial number and the
//! timestamp.

use vstd::prelude::*;
use crate::bom::{BomView, ComponentView, MetadataView};
use crate::cyclonedx::{expected_components, expected_entries, is_export_document, ExportView};
use crate::graph::{node_refs, NodeView};
use crate::order::{is_sorted, lemma_strictly_sorted_unique};
use crate::projection::{last_with_ref, lemma_kept_edges_known, recorded_edges};

verus! {

/// True if one of the components has the reference `r`.
pub open spec fn has_component(components: Seq<ComponentView>, r: Seq<char>) -> bool {
    exists|c: int| 0 <= c < components.len() && #[trigger] components[c].bom_ref == r
}

/// True if `r` is the reference of the root component or of a component
/// of the document.
pub open spec fn is_known_ref(doc: BomView, r: Seq<char>) -> bool {
    r == doc.metadata.component.bom_ref || has_component(doc.components, r)
}

/// A document with the serial number and the timestamp of another.
pub open spec fn with_provenance_of(doc: BomView, other: BomView) -> BomView {
    BomView {
        serial_number: other.serial_number,
        metadata: MetadataView { timestamp: other.metadata.timestamp, ..doc.metadata },
        ..doc
    }
}

/// The components and the dependency entries of the first nodes go in
/// step: as many of each, with the same references, none of them the
/// root's, each the reference of one of these nodes; and every one of
/// these nodes but the root has a component.
pub proof fn lemma_components_and_entries(
    prefix: Seq<NodeView>,
    nodes: Seq<NodeView>,
    root: Seq<char>,
)
    ensures
        expected_components(prefix, root).len() == expected_entries(prefix, nodes, root).len(),
        forall|c: int|
            0 <= c < expected_components(prefix, root).len() ==> {
                &&& (#[trigger] expected_components(prefix, root)[c]).bom_ref == expected_entries(
                    prefix,
                    nodes,
                    root,
                )[c].reference
                &&& expected_components(prefix, root)[c].bom_ref != root
                &&& node_refs(prefix).contains(expected_components(prefix, root)[c].bom_ref)
            },
        forall|c: int|
            0 <= c < expected_entries(prefix, nodes, root).len() ==> (#[trigger] expected_entries(
                prefix,
                nodes,
                root,
            )[c]).depends_on == recorded_edges(nodes, expected_entries(prefix, nodes, root)[c].reference),
        forall|i: int|
            0 <= i < prefix.len() && (#[trigger] prefix[i]).bom_ref() != root ==> has_component(
                expected_components(prefix, root),
                prefix[i].bom_ref(),
            ),
    decreases prefix.len(),
{
    if prefix.len() > 0 {
        let shorter = prefix.drop_last();
        lemma_components_and_entries(shorter, nodes, root);
        let comps = expected_components(prefix, root);
        let before = expected_components(shorter, root);
        let r = prefix.last().bom_ref();
        assert forall|c: int| 0 <= c < comps.len() implies node_refs(prefix).contains(
            (#[trigger] comps[c]).bom_ref,
        ) by {
            if c < before.len() {
                assert(comps[c] == before[c]);
                let k = choose|k: int|
                    0 <= k < node_refs(shorter).len() && node_refs(shorter)[k] == before[c].bom_ref;
                assert(node_refs(prefix)[k] == before[c].bom_ref);
            } else {
                assert(node_refs(prefix)[prefix.len() - 1] == r);
            }
        }
        assert forall|i: int| 0 <= i < prefix.len() && (#[trigger] prefix[i]).bom_ref()
            != root implies has_component(comps, prefix[i].bom_ref()) by {
            if i < shorter.len() {
                assert(shorter[i] == prefix[i]);
                let c = choose|c: int|
                    0 <= c < before.len() && #[trigger] before[c].bom_ref == prefix[i].bom_ref();
                assert(comps[c].bom_ref == prefix[i].bom_ref());
            } else {
                assert(comps[comps.len() - 1].bom_ref == prefix[i].bom_ref());
            }
        }
    }
}

/// Closure: every reference in a list of dependencies of a document is
/// the reference of the root component or of one of the components.
pub proof fn lemma_closure(doc: BomView, export: ExportView)
    requires
        is_export_document(doc, export),
    ensures
        forall|d: int, k: int|
            0 <= d < doc.dependencies.len() && 0 <= k < doc.dependencies[d].depends_on.len()
                ==> is_known_ref(doc, #[trigger] doc.dependencies[d].depends_on[k]),
{
    let nodes = export.nodes;
    let root = export.root_ref();
    let refs = node_refs(nodes);
    lemma_components_and_entries(nodes, nodes, root);
    assert forall|d: int, k: int|
        0 <= d < doc.dependencies.len() && 0 <= k
            < doc.dependencies[d].depends_on.len() implies is_known_ref(
        doc,
        #[trigger] doc.dependencies[d].depends_on[k],
    ) by {
        let x = doc.dependencies[d].depends_on[k];
        if d == 0 {
            assert(doc.dependencies[0].depends_on.contains(x));
            let i = choose|i: int|
                0 <= i < nodes.len() && #[trigger] nodes[i].bom_ref() == x && x != root
                    && nodes[i].depends_on_it(root);
            assert(has_component(doc.components, nodes[i].bom_ref()));
        } else {
            let entries = expected_entries(nodes, nodes, root);
            assert(doc.dependencies[d] == doc.dependencies.drop_first()[d - 1]);
            assert(entries[d - 1].depends_on == recorded_edges(nodes, entries[d - 1].reference));
            let j = last_with_ref(refs, entries[d - 1].reference);
            if 0 <= j < nodes.len() {
                lemma_kept_edges_known(nodes[j].package.dependencies, refs);
                assert(refs.contains(x));
                let i = choose|i: int| 0 <= i < refs.len() && refs[i] == x;
                assert(nodes[i].bom_ref() == x);
                if x != root {
                    assert(has_component(doc.components, nodes[i].bom_ref()));
                }
            }
        }
    }
}

/// Cardinality: a document has one dependency entry for the root and one
/// for each component, in the order of the components; no component has
/// the root's reference, so the root component is none of them.
pub proof fn lemma_cardinality(doc: BomView, export: ExportView)
    requires
        is_export_document(doc, export),
    ensures
        doc.dependencies.len() == doc.components.len() + 1,
        doc.dependencies[0].reference == doc.metadata.component.bom_ref,
        forall|c: int|
            0 <= c < doc.components.len() ==> (#[trigger] doc.components[c]).bom_ref
                == doc.dependencies[c + 1].reference,
        forall|c: int|
            0 <= c < doc.components.len() ==> (#[trigger] doc.components[c])
                != doc.metadata.component,
        !has_component(doc.components, doc.metadata.component.bom_ref),
{
    let nodes = export.nodes;
    let root = export.root_ref();
    lemma_components_and_entries(nodes, nodes, root);
    assert(doc.dependencies.drop_first().len() == doc.dependencies.len() - 1);
    assert forall|c: int| 0 <= c < doc.components.len() implies (#[trigger] doc.components[c]).bom_ref
        == doc.dependencies[c + 1].reference by {
        assert(doc.dependencies[c + 1] == doc.dependencies.drop_first()[c]);
    }
}

/// The root's list of dependencies is sorted ascending and holds nothing
/// twice.
pub proof fn lemma_root_edges_sorted(doc: BomView, export: ExportView)
    requires
        is_export_document(doc, export),
    ensures
        is_sorted(doc.dependencies[0].depends_on),
        doc.dependencies[0].depends_on.no_duplicates(),
{
}

/// Two documents of one export are the same but for the serial number and
/// the timestamp.
pub proof fn lemma_repeatable(first: BomView, second: BomView, export: ExportView)
    requires
        is_export_document(first, export),
        is_export_document(second, export),
    ensures
        with_provenance_of(first, second) == second,
{
    let a = first.dependencies;
    let b = second.dependencies;
    lemma_strictly_sorted_unique(a[0].depends_on, b[0].depends_on);
    assert(a.len() == a.drop_first().len() + 1);
    assert(b.len() == b.drop_first().len() + 1);
    assert forall|i: int| 0 <= i < a.len() implies a[i] == b[i] by {
        if i > 0 {
            assert(a[i] == a.drop_first()[i - 1]);
            assert(b[i] == b.drop_first()[i - 1]);
        }
    }
    assert(a =~= b);
}

} // verus!
