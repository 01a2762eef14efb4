//! The projection of the filtered nodes onto the dependency graph of a
//! document: which edges of a node are kept, and which nodes the root
//! depends on.

use vstd::prelude::*;
use crate::graph::{ids_view, node_refs, nodes_view, ExportableRequirement, NodeView, PackageId, PackageIdView};
use crate::order::texts;

verus! {

/// The references of the declared dependencies that are references of
/// filtered nodes, in the order of declaration, duplicates kept.
pub open spec fn kept_edges(deps: Seq<PackageIdView>, refs: Seq<Seq<char>>) -> Seq<Seq<char>>
    decreases deps.len(),
{
    if deps.len() == 0 {
        Seq::empty()
    } else {
        let rest = kept_edges(deps.drop_last(), refs);
        let r = deps.last().bom_ref();
        if refs.contains(r) {
            rest.push(r)
        } else {
            rest
        }
    }
}

/// The place of the last occurrence of a reference in a list, or -1.
pub open spec fn last_with_ref(refs: Seq<Seq<char>>, r: Seq<char>) -> int
    decreases refs.len(),
{
    if refs.len() == 0 {
        -1
    } else if refs.last() == r {
        refs.len() - 1
    } else {
        last_with_ref(refs.drop_last(), r)
    }
}

/// The edges that are recorded for a reference: those of the last node
/// that has this reference.
pub open spec fn recorded_edges(nodes: Seq<NodeView>, r: Seq<char>) -> Seq<Seq<char>> {
    let j = last_with_ref(node_refs(nodes), r);
    if 0 <= j < nodes.len() {
        kept_edges(nodes[j].package.dependencies, node_refs(nodes))
    } else {
        Seq::empty()
    }
}

/// True if `x` is the reference of a node other than the root among whose
/// dependents the root is recorded.
pub open spec fn is_root_dependency(nodes: Seq<NodeView>, root: Seq<char>, x: Seq<char>) -> bool {
    exists|i: int|
        0 <= i < nodes.len() && #[trigger] nodes[i].bom_ref() == x && x != root
            && nodes[i].depends_on_it(root)
}

/// Where the last occurrence of a reference is, it is an occurrence.
pub proof fn lemma_last_with_ref(refs: Seq<Seq<char>>, r: Seq<char>)
    ensures
        -1 <= last_with_ref(refs, r) < refs.len(),
        last_with_ref(refs, r) >= 0 ==> refs[last_with_ref(refs, r)] == r,
        refs.contains(r) ==> last_with_ref(refs, r) >= 0,
    decreases refs.len(),
{
    if refs.len() > 0 {
        lemma_last_with_ref(refs.drop_last(), r);
        if refs.contains(r) && refs.last() != r {
            let k = choose|k: int| 0 <= k < refs.len() && refs[k] == r;
            assert(refs.drop_last()[k] == r);
        }
    }
}

/// Every kept edge is the reference of a filtered node.
pub proof fn lemma_kept_edges_known(deps: Seq<PackageIdView>, refs: Seq<Seq<char>>)
    ensures
        forall|k: int|
            0 <= k < kept_edges(deps, refs).len() ==> refs.contains(
                #[trigger] kept_edges(deps, refs)[k],
            ),
    decreases deps.len(),
{
    if deps.len() > 0 {
        lemma_kept_edges_known(deps.drop_last(), refs);
        let rest = kept_edges(deps.drop_last(), refs);
        assert forall|k: int| 0 <= k < kept_edges(deps, refs).len() implies refs.contains(
            #[trigger] kept_edges(deps, refs)[k],
        ) by {
            if k < rest.len() {
                assert(kept_edges(deps, refs)[k] == rest[k]);
            }
        }
    }
}

/// The texts of a list with one more string are the texts of the list
/// with one more text.
pub proof fn lemma_texts_push(list: Seq<String>, item: String)
    ensures
        texts(list.push(item)) == texts(list).push(item@),
{
    assert(texts(list.push(item)) =~= texts(list).push(item@));
}

/// True if the two strings hold the same text.
pub(crate) fn same_text(a: &String, b: &String) -> (same: bool)
    ensures
        same == (a@ == b@),
{
    *a == *b
}

/// A copy of a list of strings.
pub(crate) fn clone_strings(list: &Vec<String>) -> (copy: Vec<String>)
    ensures
        texts(copy@) == texts(list@),
{
    let mut copy: Vec<String> = Vec::new();
    let mut i: usize = 0;
    while i < list.len()
        invariant
            i <= list.len(),
            texts(copy@) == texts(list@.take(i as int)),
        decreases list.len() - i,
    {
        let item = list[i].clone();
        proof {
            lemma_texts_push(copy@, item);
            lemma_texts_push(list@.take(i as int), list@[i as int]);
            assert(list@.take(i + 1) =~= list@.take(i as int).push(list@[i as int]));
        }
        copy.push(item);
        i += 1;
    }
    assert(list@.take(i as int) =~= list@);
    copy
}

/// True if the list holds the text.
pub(crate) fn contains_text(list: &Vec<String>, text: &String) -> (found: bool)
    ensures
        found == texts(list@).contains(text@),
{
    let mut i: usize = 0;
    while i < list.len()
        invariant
            i <= list.len(),
            forall|k: int| 0 <= k < i ==> texts(list@)[k] != text@,
        decreases list.len() - i,
    {
        if same_text(&list[i], text) {
            assert(texts(list@)[i as int] == text@);
            return true;
        }
        i += 1;
    }
    false
}

/// The place of the last occurrence of the text in the list, if any.
pub(crate) fn last_index_of(list: &Vec<String>, text: &String) -> (index: Option<usize>)
    ensures
        match index {
            Some(j) => j as int == last_with_ref(texts(list@), text@) && j < list.len(),
            None => last_with_ref(texts(list@), text@) == -1,
        },
{
    let ghost all = texts(list@);
    let mut k: usize = list.len();
    assert(all.take(k as int) =~= all);
    while k > 0
        invariant
            k <= list.len(),
            all == texts(list@),
            last_with_ref(all, text@) == last_with_ref(all.take(k as int), text@),
        decreases k,
    {
        k -= 1;
        proof {
            assert(all.take(k + 1).drop_last() =~= all.take(k as int));
            assert(all.take(k + 1).last() == list@[k as int]@);
        }
        if same_text(&list[k], text) {
            return Some(k);
        }
    }
    None
}

/// The references of the nodes, in their order.
pub(crate) fn collect_refs(nodes: &Vec<ExportableRequirement>) -> (refs: Vec<String>)
    ensures
        texts(refs@) == node_refs(nodes_view(nodes@)),
{
    let mut refs: Vec<String> = Vec::new();
    let mut i: usize = 0;
    while i < nodes.len()
        invariant
            i <= nodes.len(),
            texts(refs@) == node_refs(nodes_view(nodes@)).take(i as int),
        decreases nodes.len() - i,
    {
        let bom_ref = nodes[i].package.id.bom_ref();
        proof {
            lemma_texts_push(refs@, bom_ref);
            assert(node_refs(nodes_view(nodes@)).take(i + 1) =~= node_refs(
                nodes_view(nodes@),
            ).take(i as int).push(nodes@[i as int]@.bom_ref()));
        }
        refs.push(bom_ref);
        i += 1;
    }
    assert(node_refs(nodes_view(nodes@)).take(i as int) =~= node_refs(nodes_view(nodes@)));
    refs
}

/// The edges of one node: the references of its declared dependencies
/// that are also references of filtered nodes.
pub(crate) fn project_edges(dependencies: &Vec<PackageId>, refs: &Vec<String>) -> (edges: Vec<
    String,
>)
    ensures
        texts(edges@) == kept_edges(ids_view(dependencies@), texts(refs@)),
{
    let ghost deps = ids_view(dependencies@);
    let mut edges: Vec<String> = Vec::new();
    let mut i: usize = 0;
    assert(texts(edges@) =~= kept_edges(deps.take(0), texts(refs@)));
    while i < dependencies.len()
        invariant
            i <= dependencies.len(),
            deps == ids_view(dependencies@),
            texts(edges@) == kept_edges(deps.take(i as int), texts(refs@)),
        decreases dependencies.len() - i,
    {
        let dep_bom_ref = dependencies[i].bom_ref();
        proof {
            assert(deps.take(i + 1).drop_last() =~= deps.take(i as int));
            assert(deps.take(i + 1).last() == dependencies@[i as int]@);
        }
        let ghost before = texts(edges@);
        if contains_text(refs, &dep_bom_ref) {
            edges.push(dep_bom_ref);
            assert(texts(edges@) =~= before.push(dep_bom_ref@));
        }
        i += 1;
    }
    assert(deps.take(i as int) =~= deps);
    edges
}

/// True if one of the first `upto` identifiers has the reference `root`.
pub open spec fn root_among(ids: Seq<PackageIdView>, root: Seq<char>, upto: int) -> bool {
    exists|k: int| 0 <= k < upto && #[trigger] ids[k].bom_ref() == root
}

/// Enters the reference of a node into the list of the root's
/// dependencies, once for each of its dependents that is the root.
pub(crate) fn record_dependents(
    dependents: &Vec<PackageId>,
    root: &String,
    bom_ref: &String,
    collected: Vec<String>,
) -> (root_depends_on: Vec<String>)
    ensures
        forall|x: Seq<char>|
            texts(root_depends_on@).contains(x) <==> (texts(collected@).contains(x) || (x
                == bom_ref@ && root_among(ids_view(dependents@), root@, dependents@.len() as int))),
{
    let mut root_depends_on = collected;
    let ghost before = texts(root_depends_on@);
    let ghost ids = ids_view(dependents@);
    let mut i: usize = 0;
    while i < dependents.len()
        invariant
            i <= dependents.len(),
            ids == ids_view(dependents@),
            forall|x: Seq<char>|
                #[trigger] texts(root_depends_on@).contains(x) <==> (before.contains(x) || (x
                    == bom_ref@ && root_among(ids, root@, i as int))),
        decreases dependents.len() - i,
    {
        let dep_bom_ref = dependents[i].bom_ref();
        let ghost list = texts(root_depends_on@);
        let ghost strings = root_depends_on@;
        proof {
            assert(ids[i as int] == dependents@[i as int]@);
            if root_among(ids, root@, i + 1) {
                let k = choose|k: int| 0 <= k < i + 1 && #[trigger] ids[k].bom_ref() == root@;
                if k < i {
                    assert(root_among(ids, root@, i as int));
                }
            }
            if root_among(ids, root@, i as int) {
                let k = choose|k: int| 0 <= k < i && #[trigger] ids[k].bom_ref() == root@;
                assert(0 <= k < i + 1 && ids[k].bom_ref() == root@);
            }
            assert(root_among(ids, root@, i + 1) <==> (root_among(ids, root@, i as int)
                || ids[i as int].bom_ref() == root@));
        }
        if same_text(&dep_bom_ref, root) {
            let copy = bom_ref.clone();
            root_depends_on.push(copy);
            proof {
                let after = texts(root_depends_on@);
                lemma_texts_push(strings, copy);
                assert(after == list.push(bom_ref@));
                assert forall|x: Seq<char>| after.contains(x) <==> (list.contains(x) || x
                    == bom_ref@) by {
                    if after.contains(x) {
                        let m = choose|m: int| 0 <= m < after.len() && after[m] == x;
                        if m < list.len() {
                            assert(list[m] == x);
                        }
                    }
                    if list.contains(x) {
                        let m = choose|m: int| 0 <= m < list.len() && list[m] == x;
                        assert(after[m] == x);
                    }
                    assert(after[list.len() as int] == bom_ref@);
                }
                assert forall|x: Seq<char>| after.contains(x) <==> (before.contains(x) || (x
                    == bom_ref@ && root_among(ids, root@, i + 1))) by {
                    assert(list.contains(x) <==> (before.contains(x) || (x == bom_ref@
                        && root_among(ids, root@, i as int))));
                }
            }
        }
        i += 1;
    }
    root_depends_on
}

} // verus!
