//! The properties the projector guarantees of every request stream it
//! issues: how many requests a tree owes, that no edge precedes its
//! endpoints' vertices, that the generic child relation makes the stored
//! graph a tree rooted at the root vertex, and that reset-then-project is
//! deterministic.

use crate::label::LabelView;
use crate::project::{
    apply_reqs, edge_group, empty_graph, eparts, reset_graph, spec_plan, vertex_data,
    vertex_req, vparts, GraphView, RequestView, VertexView,
};
use crate::tree::{wf_arena, NodeView};
use vstd::prelude::*;

verus! {

/// How many vertex-creation requests a stream holds.
pub open spec fn count_vertex_reqs(qs: Seq<RequestView>) -> int
    decreases qs.len(),
{
    if qs.len() == 0 {
        0
    } else {
        (if qs.first() is CreateVertex {
            1int
        } else {
            0int
        }) + count_vertex_reqs(qs.drop_first())
    }
}

/// How many edge-creation requests a stream holds.
pub open spec fn count_edge_reqs(qs: Seq<RequestView>) -> int
    decreases qs.len(),
{
    if qs.len() == 0 {
        0
    } else {
        (if qs.first() is CreateEdge {
            1int
        } else {
            0int
        }) + count_edge_reqs(qs.drop_first())
    }
}

/// How many generic child edges pointing at vertex `v` a stream holds.
pub open spec fn generic_in_degree(qs: Seq<RequestView>, v: int) -> int
    decreases qs.len(),
{
    if qs.len() == 0 {
        0
    } else {
        (match qs.first() {
            RequestView::CreateEdge(_, c, l) => if c == v && l is Child {
                1int
            } else {
                0int
            },
            RequestView::CreateVertex(_) => 0int,
        }) + generic_in_degree(qs.drop_first(), v)
    }
}

proof fn lemma_count_vertex_add(a: Seq<RequestView>, b: Seq<RequestView>)
    ensures
        count_vertex_reqs(a + b) == count_vertex_reqs(a) + count_vertex_reqs(b),
    decreases a.len(),
{
    if a.len() == 0 {
        assert(a + b =~= b);
    } else {
        assert((a + b).drop_first() =~= a.drop_first() + b);
        lemma_count_vertex_add(a.drop_first(), b);
    }
}

proof fn lemma_count_edge_add(a: Seq<RequestView>, b: Seq<RequestView>)
    ensures
        count_edge_reqs(a + b) == count_edge_reqs(a) + count_edge_reqs(b),
    decreases a.len(),
{
    if a.len() == 0 {
        assert(a + b =~= b);
    } else {
        assert((a + b).drop_first() =~= a.drop_first() + b);
        lemma_count_edge_add(a.drop_first(), b);
    }
}

proof fn lemma_in_degree_add(a: Seq<RequestView>, b: Seq<RequestView>, v: int)
    ensures
        generic_in_degree(a + b, v) == generic_in_degree(a, v) + generic_in_degree(b, v),
    decreases a.len(),
{
    if a.len() == 0 {
        assert(a + b =~= b);
    } else {
        assert((a + b).drop_first() =~= a.drop_first() + b);
        lemma_in_degree_add(a.drop_first(), b, v);
    }
}

proof fn lemma_vparts_facts(s: Seq<NodeView>, i: int)
    requires
        0 <= i <= s.len(),
    ensures
        vparts(s, i).len() == s.len() - i,
        count_vertex_reqs(vparts(s, i)) == s.len() - i,
        count_edge_reqs(vparts(s, i)) == 0,
        forall|k: int|
            0 <= k < s.len() - i ==> #[trigger] vparts(s, i)[k] == vertex_req(s, i + k),
    decreases s.len() - i,
{
    if i < s.len() {
        reveal_with_fuel(count_vertex_reqs, 3);
        reveal_with_fuel(count_edge_reqs, 3);
        lemma_vparts_facts(s, i + 1);
        lemma_count_vertex_add(seq![vertex_req(s, i)], vparts(s, i + 1));
        lemma_count_edge_add(seq![vertex_req(s, i)], vparts(s, i + 1));
        assert(seq![vertex_req(s, i)].drop_first() =~= Seq::<RequestView>::empty());
    }
}

proof fn lemma_vparts_in_degree(s: Seq<NodeView>, i: int, v: int)
    requires
        0 <= i <= s.len(),
    ensures
        generic_in_degree(vparts(s, i), v) == 0,
    decreases s.len() - i,
{
    if i < s.len() {
        reveal_with_fuel(generic_in_degree, 3);
        lemma_vparts_in_degree(s, i + 1, v);
        lemma_in_degree_add(seq![vertex_req(s, i)], vparts(s, i + 1), v);
        assert(seq![vertex_req(s, i)].drop_first() =~= Seq::<RequestView>::empty());
    }
}

/// The shape every edge-creation request of the stream's tail has: it
/// attaches some non-root node `c` (with index at least `i`) to its one
/// parent, under the generic label or under `c`'s normalized field role.
pub open spec fn edge_shape_ok(s: Seq<NodeView>, q: RequestView, i: int) -> bool {
    match q {
        RequestView::CreateEdge(p, c, l) => {
            &&& i <= c < s.len()
            &&& s[c].parent == Some(p)
            &&& match l {
                LabelView::Child => true,
                LabelView::Role(r) => s[c].field matches Some(f) && r
                    == crate::label::upper_snake_of(f),
            }
        },
        RequestView::CreateVertex(_) => false,
    }
}

proof fn lemma_group_counts(s: Seq<NodeView>, i: int, v: int)
    requires
        wf_arena(s),
        1 <= i < s.len(),
    ensures
        count_vertex_reqs(edge_group(s, i)) == 0,
        count_edge_reqs(edge_group(s, i)) == edge_group(s, i).len(),
        edge_group(s, i).len() == if s[i].field is Some {
            2int
        } else {
            1int
        },
        generic_in_degree(edge_group(s, i), v) == if v == i {
            1int
        } else {
            0int
        },
{
    reveal_with_fuel(count_vertex_reqs, 4);
    reveal_with_fuel(count_edge_reqs, 4);
    reveal_with_fuel(generic_in_degree, 4);
    match (s[i].parent, s[i].field) {
        (Some(p), None) => {
            let g = seq![RequestView::CreateEdge(p, i, LabelView::Child)];
            assert(edge_group(s, i) == g);
            assert(g.drop_first() =~= Seq::<RequestView>::empty());
            assert(count_vertex_reqs(g) == 0);
            assert(count_edge_reqs(g) == 1);
            assert(generic_in_degree(g, v) == if v == i {
                1int
            } else {
                0int
            });
        },
        (Some(p), Some(f)) => {
            let q1 = RequestView::CreateEdge(p, i, LabelView::Child);
            let q2 = RequestView::CreateEdge(p, i, LabelView::Role(crate::label::upper_snake_of(f)));
            let g = seq![q1, q2];
            assert(edge_group(s, i) == g);
            assert(g.drop_first() =~= seq![q2]);
            assert(seq![q2].drop_first() =~= Seq::<RequestView>::empty());
            assert(count_vertex_reqs(seq![q2]) == 0);
            assert(count_edge_reqs(seq![q2]) == 1);
            assert(count_vertex_reqs(g) == 0);
            assert(count_edge_reqs(g) == 2);
            assert(generic_in_degree(seq![q2], v) == 0);
            assert(generic_in_degree(g, v) == if v == i {
                1int
            } else {
                0int
            });
        },
        _ => {
            assert(false);
        },
    }
}

proof fn lemma_eparts_facts(s: Seq<NodeView>, i: int)
    requires
        wf_arena(s),
        1 <= i <= s.len(),
    ensures
        count_vertex_reqs(eparts(s, i)) == 0,
        count_edge_reqs(eparts(s, i)) == eparts(s, i).len(),
        s.len() - i <= eparts(s, i).len() <= 2 * (s.len() - i),
        (forall|j: int| i <= j < s.len() ==> (#[trigger] s[j].field) is Some) ==> eparts(
            s,
            i,
        ).len() == 2 * (s.len() - i),
        (forall|j: int| i <= j < s.len() ==> (#[trigger] s[j].field) is None) ==> eparts(
            s,
            i,
        ).len() == s.len() - i,
        forall|k: int|
            0 <= k < eparts(s, i).len() ==> edge_shape_ok(s, #[trigger] eparts(s, i)[k], i),
    decreases s.len() - i,
{
    if i < s.len() {
        lemma_eparts_facts(s, i + 1);
        lemma_group_counts(s, i, 0);
        lemma_count_vertex_add(edge_group(s, i), eparts(s, i + 1));
        lemma_count_edge_add(edge_group(s, i), eparts(s, i + 1));
        assert(forall|k: int|
            0 <= k < edge_group(s, i).len() ==> edge_shape_ok(s, #[trigger] edge_group(s, i)[k], i));
        assert(forall|k: int|
            0 <= k < eparts(s, i + 1).len() ==> edge_shape_ok(s, #[trigger] eparts(s, i + 1)[k], i));
    }
}

proof fn lemma_eparts_in_degree(s: Seq<NodeView>, i: int, v: int)
    requires
        wf_arena(s),
        1 <= i <= s.len(),
    ensures
        generic_in_degree(eparts(s, i), v) == if i <= v < s.len() {
            1int
        } else {
            0int
        },
    decreases s.len() - i,
{
    if i < s.len() {
        lemma_eparts_in_degree(s, i + 1, v);
        lemma_group_counts(s, i, v);
        lemma_in_degree_add(edge_group(s, i), eparts(s, i + 1), v);
    }
}

/// For a tree with N nodes — hence E = N - 1 structural parent-child
/// pairs — one projection run issues exactly N vertex-creation requests and
/// between E and 2E edge-creation requests, and nothing else: 2E exactly
/// when every pair carries a field role, E exactly when none does.
pub proof fn lemma_request_counts(s: Seq<NodeView>)
    requires
        wf_arena(s),
    ensures
        count_vertex_reqs(spec_plan(s)) == s.len(),
        count_vertex_reqs(spec_plan(s)) + count_edge_reqs(spec_plan(s)) == spec_plan(s).len(),
        s.len() - 1 <= count_edge_reqs(spec_plan(s)) <= 2 * (s.len() - 1),
        (forall|j: int| 1 <= j < s.len() ==> (#[trigger] s[j].field) is Some) ==> count_edge_reqs(
            spec_plan(s),
        ) == 2 * (s.len() - 1),
        (forall|j: int| 1 <= j < s.len() ==> (#[trigger] s[j].field) is None) ==> count_edge_reqs(
            spec_plan(s),
        ) == s.len() - 1,
{
    lemma_vparts_facts(s, 0);
    lemma_eparts_facts(s, 1);
    lemma_count_vertex_add(vparts(s, 0), eparts(s, 1));
    lemma_count_edge_add(vparts(s, 0), eparts(s, 1));
}

/// No forward references: the request at position `k` of the stream's edge
/// tail names endpoints whose vertex-creation requests both stand strictly
/// earlier in the stream.
pub open spec fn edge_after_endpoints(s: Seq<NodeView>, k: int) -> bool {
    match spec_plan(s)[k] {
        RequestView::CreateEdge(p, c, _) => {
            &&& 0 <= p < c < s.len()
            &&& p < k && c < k
            &&& spec_plan(s)[p] == vertex_req(s, p)
            &&& spec_plan(s)[c] == vertex_req(s, c)
        },
        RequestView::CreateVertex(_) => false,
    }
}

/// Every edge-creation request comes after the vertex-creation requests of
/// both of its endpoints: positions below N hold the vertices, one per node
/// and in arena order, and every later position holds an edge whose two
/// endpoints' vertices stand at the endpoints' own indices.
pub proof fn lemma_no_forward_references(s: Seq<NodeView>)
    requires
        wf_arena(s),
    ensures
        forall|k: int| 0 <= k < s.len() ==> #[trigger] spec_plan(s)[k] == vertex_req(s, k),
        forall|k: int| s.len() <= k < spec_plan(s).len() ==> #[trigger] edge_after_endpoints(s, k),
{
    lemma_vparts_facts(s, 0);
    lemma_eparts_facts(s, 1);
    assert forall|k: int| s.len() <= k < spec_plan(s).len() implies #[trigger] edge_after_endpoints(
        s,
        k,
    ) by {
        let tail = eparts(s, 1);
        assert(spec_plan(s)[k] == tail[k - s.len()]);
        assert(edge_shape_ok(s, tail[k - s.len()], 1));
    }
}

/// The generic child edges make the stored graph a tree rooted at the root
/// vertex: the root's vertex gets zero incoming generic child edges, every
/// other vertex exactly one.
pub proof fn lemma_generic_in_degree(s: Seq<NodeView>, v: int)
    requires
        wf_arena(s),
        0 <= v < s.len(),
    ensures
        generic_in_degree(spec_plan(s), v) == if v == 0 {
            0int
        } else {
            1int
        },
{
    lemma_vparts_in_degree(s, 0, v);
    lemma_eparts_in_degree(s, 1, v);
    lemma_in_degree_add(vparts(s, 0), eparts(s, 1), v);
}

/// The vertices a request stream creates, in creation order.
pub open spec fn vertex_list(qs: Seq<RequestView>) -> Seq<VertexView>
    decreases qs.len(),
{
    if qs.len() == 0 {
        Seq::empty()
    } else {
        vertex_list(qs.drop_last()) + match qs.last() {
            RequestView::CreateVertex(v) => seq![v],
            RequestView::CreateEdge(_, _, _) => Seq::empty(),
        }
    }
}

/// The edges a request stream creates, in creation order.
pub open spec fn edge_list(qs: Seq<RequestView>) -> Seq<(int, int, LabelView)>
    decreases qs.len(),
{
    if qs.len() == 0 {
        Seq::empty()
    } else {
        edge_list(qs.drop_last()) + match qs.last() {
            RequestView::CreateVertex(_) => Seq::empty(),
            RequestView::CreateEdge(p, c, l) => seq![(p, c, l)],
        }
    }
}

/// How many generic child edges of a store point at vertex `v`.
pub open spec fn stored_in_degree(es: Seq<(int, int, LabelView)>, v: int) -> int
    decreases es.len(),
{
    if es.len() == 0 {
        0
    } else {
        stored_in_degree(es.drop_last(), v) + if es.last().1 == v && es.last().2 is Child {
            1int
        } else {
            0int
        }
    }
}

/// Applying a stream appends exactly its vertices to the store's vertices
/// and exactly its edges to the store's edges.
proof fn lemma_apply_reqs_lists(g: GraphView, qs: Seq<RequestView>)
    ensures
        apply_reqs(g, qs).vertices == g.vertices + vertex_list(qs),
        apply_reqs(g, qs).edges == g.edges + edge_list(qs),
    decreases qs.len(),
{
    if qs.len() == 0 {
        assert(g.vertices + vertex_list(qs) =~= g.vertices);
        assert(g.edges + edge_list(qs) =~= g.edges);
    } else {
        lemma_apply_reqs_lists(g, qs.drop_last());
        match qs.last() {
            RequestView::CreateVertex(v) => {
                assert(apply_reqs(g, qs).vertices =~= (g.vertices + vertex_list(qs.drop_last()))
                    + seq![v]);
                assert((g.vertices + vertex_list(qs.drop_last())) + seq![v] =~= g.vertices + (
                vertex_list(qs.drop_last()) + seq![v]));
                assert(g.edges + edge_list(qs) =~= g.edges + edge_list(qs.drop_last()));
            },
            RequestView::CreateEdge(p, c, l) => {
                assert(apply_reqs(g, qs).edges =~= (g.edges + edge_list(qs.drop_last())) + seq![
                    (p, c, l),
                ]);
                assert((g.edges + edge_list(qs.drop_last())) + seq![(p, c, l)] =~= g.edges + (
                edge_list(qs.drop_last()) + seq![(p, c, l)]));
                assert(g.vertices + vertex_list(qs) =~= g.vertices + vertex_list(qs.drop_last()));
            },
        }
    }
}

proof fn lemma_vertex_list_add(a: Seq<RequestView>, b: Seq<RequestView>)
    ensures
        vertex_list(a + b) == vertex_list(a) + vertex_list(b),
    decreases b.len(),
{
    if b.len() == 0 {
        assert(a + b =~= a);
        assert(vertex_list(a) + vertex_list(b) =~= vertex_list(a));
    } else {
        lemma_vertex_list_add(a, b.drop_last());
        assert((a + b).drop_last() =~= a + b.drop_last());
        assert((a + b).last() == b.last());
        match b.last() {
            RequestView::CreateVertex(v) => {
                assert((vertex_list(a) + vertex_list(b.drop_last())) + seq![v] =~= vertex_list(a) + (
                vertex_list(b.drop_last()) + seq![v]));
            },
            RequestView::CreateEdge(_, _, _) => {
                assert(vertex_list(a) + vertex_list(b.drop_last()) =~= vertex_list(a) + vertex_list(
                    b,
                ));
            },
        }
    }
}

proof fn lemma_edge_list_add(a: Seq<RequestView>, b: Seq<RequestView>)
    ensures
        edge_list(a + b) == edge_list(a) + edge_list(b),
    decreases b.len(),
{
    if b.len() == 0 {
        assert(a + b =~= a);
        assert(edge_list(a) + edge_list(b) =~= edge_list(a));
    } else {
        lemma_edge_list_add(a, b.drop_last());
        assert((a + b).drop_last() =~= a + b.drop_last());
        assert((a + b).last() == b.last());
        match b.last() {
            RequestView::CreateEdge(p, c, l) => {
                assert((edge_list(a) + edge_list(b.drop_last())) + seq![(p, c, l)] =~= edge_list(a)
                    + (edge_list(b.drop_last()) + seq![(p, c, l)]));
            },
            RequestView::CreateVertex(_) => {
                assert(edge_list(a) + edge_list(b.drop_last()) =~= edge_list(a) + edge_list(b));
            },
        }
    }
}

/// The stored in-degree of `v` equals the stream's generic in-degree of `v`.
proof fn lemma_stored_in_degree(qs: Seq<RequestView>, v: int)
    ensures
        stored_in_degree(edge_list(qs), v) == generic_in_degree(qs, v),
    decreases qs.len(),
{
    if qs.len() > 0 {
        lemma_stored_in_degree(qs.drop_last(), v);
        lemma_in_degree_add(qs.drop_last(), seq![qs.last()], v);
        assert(qs.drop_last() + seq![qs.last()] =~= qs);
        reveal_with_fuel(generic_in_degree, 3);
        assert(seq![qs.last()].drop_first() =~= Seq::<RequestView>::empty());
        match qs.last() {
            RequestView::CreateVertex(_) => {},
            RequestView::CreateEdge(p, c, l) => {
                assert(edge_list(qs) == edge_list(qs.drop_last()) + seq![(p, c, l)]);
                assert(edge_list(qs).drop_last() =~= edge_list(qs.drop_last()));
                assert(edge_list(qs).last() == (p, c, l));
            },
        }
    }
}

proof fn lemma_vparts_lists(s: Seq<NodeView>, i: int)
    requires
        0 <= i <= s.len(),
    ensures
        vertex_list(vparts(s, i)).len() == s.len() - i,
        forall|k: int|
            0 <= k < s.len() - i ==> #[trigger] vertex_list(vparts(s, i))[k] == vertex_data(
                s,
                i + k,
            ),
        edge_list(vparts(s, i)) == Seq::<(int, int, LabelView)>::empty(),
    decreases s.len() - i,
{
    reveal_with_fuel(vertex_list, 3);
    reveal_with_fuel(edge_list, 3);
    if i < s.len() {
        lemma_vparts_lists(s, i + 1);
        lemma_vertex_list_add(seq![vertex_req(s, i)], vparts(s, i + 1));
        lemma_edge_list_add(seq![vertex_req(s, i)], vparts(s, i + 1));
        assert(seq![vertex_req(s, i)].drop_last() =~= Seq::<RequestView>::empty());
        assert(vertex_list(seq![vertex_req(s, i)]) =~= seq![vertex_data(s, i)]);
        assert(edge_list(seq![vertex_req(s, i)]) =~= Seq::<(int, int, LabelView)>::empty());
        assert(edge_list(vparts(s, i)) =~= Seq::<(int, int, LabelView)>::empty());
    }
}

/// The shape every stored edge has: it attaches some non-root node `c` to
/// its one parent, under the generic label or under `c`'s normalized role.
pub open spec fn stored_edge_ok(s: Seq<NodeView>, e: (int, int, LabelView)) -> bool {
    &&& 1 <= e.1 < s.len()
    &&& s[e.1].parent == Some(e.0)
    &&& match e.2 {
        LabelView::Child => true,
        LabelView::Role(r) => s[e.1].field matches Some(f) && r == crate::label::upper_snake_of(f),
    }
}

proof fn lemma_eparts_lists(s: Seq<NodeView>, i: int)
    requires
        wf_arena(s),
        1 <= i <= s.len(),
    ensures
        vertex_list(eparts(s, i)) == Seq::<VertexView>::empty(),
        edge_list(eparts(s, i)).len() == eparts(s, i).len(),
        forall|k: int|
            0 <= k < edge_list(eparts(s, i)).len() ==> stored_edge_ok(
                s,
                #[trigger] edge_list(eparts(s, i))[k],
            ),
    decreases s.len() - i,
{
    reveal_with_fuel(vertex_list, 3);
    reveal_with_fuel(edge_list, 3);
    if i < s.len() {
        lemma_eparts_lists(s, i + 1);
        lemma_vertex_list_add(edge_group(s, i), eparts(s, i + 1));
        lemma_edge_list_add(edge_group(s, i), eparts(s, i + 1));
        match (s[i].parent, s[i].field) {
            (Some(p), None) => {
                let g = seq![RequestView::CreateEdge(p, i, LabelView::Child)];
                assert(edge_group(s, i) == g);
                assert(g.drop_last() =~= Seq::<RequestView>::empty());
                assert(vertex_list(g) =~= Seq::<VertexView>::empty());
                assert(edge_list(g) =~= seq![(p, i, LabelView::Child)]);
            },
            (Some(p), Some(f)) => {
                let q1 = RequestView::CreateEdge(p, i, LabelView::Child);
                let q2 = RequestView::CreateEdge(
                    p,
                    i,
                    LabelView::Role(crate::label::upper_snake_of(f)),
                );
                let g = seq![q1, q2];
                assert(edge_group(s, i) == g);
                assert(g.drop_last() =~= seq![q1]);
                assert(seq![q1].drop_last() =~= Seq::<RequestView>::empty());
                assert(vertex_list(g) =~= Seq::<VertexView>::empty());
                assert(edge_list(g) =~= seq![
                    (p, i, LabelView::Child),
                    (p, i, LabelView::Role(crate::label::upper_snake_of(f))),
                ]);
            },
            _ => {
                assert(false);
            },
        }
        assert(vertex_list(eparts(s, i)) =~= Seq::<VertexView>::empty());
    }
}

/// What one full run leaves in a freshly reset store, node by node: exactly
/// one vertex per syntax node, in arena order and carrying that node's
/// projection, and only edges that attach a non-root node to its one parent
/// under the generic label or under its normalized field role. Every edge
/// points from a smaller identifier to a larger one, so the stored graph
/// has no cycles.
pub proof fn lemma_projected_graph(s: Seq<NodeView>)
    requires
        wf_arena(s),
    ensures
        ({
            let g = apply_reqs(empty_graph(), spec_plan(s));
            &&& g.vertices.len() == s.len()
            &&& forall|i: int| 0 <= i < s.len() ==> #[trigger] g.vertices[i] == vertex_data(s, i)
            &&& g.edges.len() == spec_plan(s).len() - s.len()
            &&& forall|k: int|
                0 <= k < g.edges.len() ==> stored_edge_ok(s, #[trigger] g.edges[k])
            &&& forall|k: int|
                0 <= k < g.edges.len() ==> (#[trigger] g.edges[k]).0 < g.edges[k].1
        }),
{
    lemma_apply_reqs_lists(empty_graph(), spec_plan(s));
    lemma_vertex_list_add(vparts(s, 0), eparts(s, 1));
    lemma_edge_list_add(vparts(s, 0), eparts(s, 1));
    lemma_vparts_lists(s, 0);
    lemma_eparts_lists(s, 1);
    lemma_vparts_facts(s, 0);
    let g = apply_reqs(empty_graph(), spec_plan(s));
    assert(g.vertices =~= vertex_list(spec_plan(s)));
    assert(g.edges =~= edge_list(spec_plan(s)));
    assert(vertex_list(spec_plan(s)) =~= vertex_list(vparts(s, 0)));
    assert(edge_list(spec_plan(s)) =~= edge_list(eparts(s, 1)));
}

/// The generic child edges make the stored graph a tree rooted at the root
/// vertex: in the store a full run leaves behind, the root's vertex has
/// zero incoming generic child edges and every other vertex exactly one.
pub proof fn lemma_stored_tree_shape(s: Seq<NodeView>, v: int)
    requires
        wf_arena(s),
        0 <= v < s.len(),
    ensures
        stored_in_degree(apply_reqs(empty_graph(), spec_plan(s)).edges, v) == if v == 0 {
            0int
        } else {
            1int
        },
{
    lemma_apply_reqs_lists(empty_graph(), spec_plan(s));
    lemma_stored_in_degree(spec_plan(s), v);
    lemma_generic_in_degree(s, v);
    assert(apply_reqs(empty_graph(), spec_plan(s)).edges =~= edge_list(spec_plan(s)));
}

/// Reset-then-project is deterministic: whatever two stores held before,
/// dropping and recreating the namespace and then projecting one tree
/// leaves them holding equal graphs. Identifiers are arena indices, so the
/// graphs come out equal outright — isomorphic under the identity
/// relabeling — and in particular a second reset-and-project run over the
/// result of a first reproduces it exactly.
pub proof fn lemma_reset_project_deterministic(g1: GraphView, g2: GraphView, s: Seq<NodeView>)
    ensures
        apply_reqs(reset_graph(g1), spec_plan(s)) == apply_reqs(reset_graph(g2), spec_plan(s)),
        apply_reqs(reset_graph(g1), spec_plan(s)) == apply_reqs(empty_graph(), spec_plan(s)),
{
}

} // verus!
