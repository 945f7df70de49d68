//! The graph projector: turns a well-formed syntax tree into the stream of
//! vertex- and edge-creation requests owed to the graph sink, and runs that
//! stream against an in-memory sink.
//!
//! The request stream is fixed by [`spec_plan`]: first one vertex-creation
//! request per node, in arena (preorder) order, then for every non-root node
//! a generic child edge followed, when the node carries a field role, by an
//! edge typed with the normalized role. A real store is driven by executing
//! [`plan`]'s output in order; [`MemSink`] is a verified in-memory sink that
//! also models a store refusing a request mid-run.

use crate::errors::{ProjectionFailure, SinkError};
use crate::label::{upper_snake_of, EdgeLabel, LabelView};
use crate::tree::{wf_arena, NodeView, Span, SyntaxTree};
use vstd::prelude::*;

verus! {

/// The properties carried by one vertex-creation request: the node's arena
/// identifier and its one-to-one projection (kind, named flag, text, span).
pub struct VertexProps {
    pub id: usize,
    pub kind: String,
    pub named: bool,
    pub text: String,
    pub span: Span,
}

/// The mathematical image of a vertex-creation request.
#[verifier::ext_equal]
pub ghost struct VertexView {
    pub id: int,
    pub kind: Seq<char>,
    pub named: bool,
    pub text: Seq<char>,
    pub span: Span,
}

impl View for VertexProps {
    type V = VertexView;

    open spec fn view(&self) -> VertexView {
        VertexView {
            id: self.id as int,
            kind: self.kind@,
            named: self.named,
            text: self.text@,
            span: self.span,
        }
    }
}

/// One request handed to the graph sink.
pub enum SinkRequest {
    CreateVertex(VertexProps),
    CreateEdge { parent_id: usize, child_id: usize, label: EdgeLabel },
}

/// The mathematical image of a sink request; an edge is the pair
/// (parent identifier, child identifier) plus its label.
#[verifier::ext_equal]
pub ghost enum RequestView {
    CreateVertex(VertexView),
    CreateEdge(int, int, LabelView),
}

impl View for SinkRequest {
    type V = RequestView;

    open spec fn view(&self) -> RequestView {
        match self {
            SinkRequest::CreateVertex(v) => RequestView::CreateVertex(v@),
            SinkRequest::CreateEdge { parent_id, child_id, label } => RequestView::CreateEdge(
                *parent_id as int,
                *child_id as int,
                label@,
            ),
        }
    }
}

/// The images of a vector of requests.
pub open spec fn reqs_view(s: Seq<SinkRequest>) -> Seq<RequestView> {
    s.map_values(|q: SinkRequest| q@)
}

/// The node a request is about: the vertex's own identifier, or for an edge
/// the child being attached (the node whose processing issued the edge).
pub open spec fn req_node(q: RequestView) -> int {
    match q {
        RequestView::CreateVertex(v) => v.id,
        RequestView::CreateEdge(_, c, _) => c,
    }
}

/// The one-to-one projection of node `i` into vertex properties: its arena
/// index as the identifier, its kind, named flag, text and span.
pub open spec fn vertex_data(s: Seq<NodeView>, i: int) -> VertexView {
    VertexView { id: i, kind: s[i].kind, named: s[i].named, text: s[i].text, span: s[i].span }
}

/// The vertex-creation request owed for node `i`.
pub open spec fn vertex_req(s: Seq<NodeView>, i: int) -> RequestView {
    RequestView::CreateVertex(vertex_data(s, i))
}

/// The edge-creation requests owed for non-root node `i`: a generic child
/// edge, then, when the slot carries a field name, an edge typed with the
/// normalized role.
pub open spec fn edge_group(s: Seq<NodeView>, i: int) -> Seq<RequestView> {
    match s[i].parent {
        Some(p) => match s[i].field {
            None => seq![RequestView::CreateEdge(p, i, LabelView::Child)],
            Some(f) => seq![
                RequestView::CreateEdge(p, i, LabelView::Child),
                RequestView::CreateEdge(p, i, LabelView::Role(upper_snake_of(f))),
            ],
        },
        None => Seq::empty(),
    }
}

/// The vertex-creation requests for nodes `i..`, in arena order.
pub open spec fn vparts(s: Seq<NodeView>, i: int) -> Seq<RequestView>
    decreases s.len() - i,
{
    if i < 0 || i >= s.len() {
        Seq::empty()
    } else {
        seq![vertex_req(s, i)] + vparts(s, i + 1)
    }
}

/// The edge-creation requests for the non-root nodes `i..`, in arena order.
pub open spec fn eparts(s: Seq<NodeView>, i: int) -> Seq<RequestView>
    decreases s.len() - i,
{
    if i < 1 || i >= s.len() {
        Seq::empty()
    } else {
        edge_group(s, i) + eparts(s, i + 1)
    }
}

/// The whole request stream of one projection run: every vertex, then every
/// edge. A vertex's position equals its identifier, so every edge stands
/// after both of its endpoints' vertices.
pub open spec fn spec_plan(s: Seq<NodeView>) -> Seq<RequestView> {
    vparts(s, 0) + eparts(s, 1)
}

/// Computes the request stream of one projection run for `t`.
#[verifier::loop_isolation(false)]
pub fn plan(t: &SyntaxTree) -> (r: Vec<SinkRequest>)
    requires
        t.wf(),
    ensures
        reqs_view(r@) == spec_plan(t@),
{
    let ghost s: Seq<NodeView> = t@;
    let n = t.len();
    let mut out: Vec<SinkRequest> = Vec::new();
    let mut i: usize = 0;
    while i < n
        invariant
            i <= n,
            vparts(s, 0) == reqs_view(out@) + vparts(s, i as int),
        decreases n - i,
    {
        let node = t.node(i);
        let q = SinkRequest::CreateVertex(
            VertexProps {
                id: i,
                kind: node.kind.clone(),
                named: node.named,
                text: node.text.clone(),
                span: node.span,
            },
        );
        proof {
            assert(q@ == vertex_req(s, i as int));
            assert(reqs_view(out@.push(q)) =~= reqs_view(out@) + seq![q@]);
            assert((reqs_view(out@) + seq![q@]) + vparts(s, i as int + 1) =~= reqs_view(out@)
                + (seq![q@] + vparts(s, i as int + 1)));
        }
        out.push(q);
        i += 1;
    }
    proof {
        assert(vparts(s, n as int) =~= Seq::<RequestView>::empty());
        assert(reqs_view(out@) + vparts(s, n as int) =~= reqs_view(out@));
    }
    let mut j: usize = 1;
    while j < n
        invariant
            1 <= j <= n || (n == 0 && j == 1),
            spec_plan(s) == reqs_view(out@) + eparts(s, j as int),
        decreases n - j,
    {
        let node = t.node(j);
        let p = match node.parent {
            Some(p) => p,
            None => {
                proof {
                    assert(s[j as int].parent is Some);
                }
                assert(false);
                0
            },
        };
        let generic = SinkRequest::CreateEdge {
            parent_id: p,
            child_id: j,
            label: EdgeLabel::Child,
        };
        match &node.field {
            None => {
                proof {
                    assert(edge_group(s, j as int) =~= seq![generic@]);
                    assert(reqs_view(out@.push(generic)) =~= reqs_view(out@) + seq![generic@]);
                    assert((reqs_view(out@) + seq![generic@]) + eparts(s, j as int + 1)
                        =~= reqs_view(out@) + (seq![generic@] + eparts(s, j as int + 1)));
                }
                out.push(generic);
            },
            Some(f) => {
                let role = SinkRequest::CreateEdge {
                    parent_id: p,
                    child_id: j,
                    label: EdgeLabel::Role(crate::label::normalize_field(f.as_str())),
                };
                proof {
                    assert(edge_group(s, j as int) =~= seq![generic@, role@]);
                    assert(reqs_view(out@.push(generic).push(role)) =~= reqs_view(out@)
                        + seq![generic@, role@]);
                    assert((reqs_view(out@) + seq![generic@, role@]) + eparts(s, j as int + 1)
                        =~= reqs_view(out@) + (seq![generic@, role@] + eparts(s, j as int + 1)));
                }
                out.push(generic);
                out.push(role);
            },
        }
        j += 1;
    }
    proof {
        assert(eparts(s, j as int) =~= Seq::<RequestView>::empty());
        assert(reqs_view(out@) + eparts(s, j as int) =~= reqs_view(out@));
    }
    out
}

/// The mathematical image of a graph store: the vertices and edges created
/// so far, in creation order.
#[verifier::ext_equal]
pub ghost struct GraphView {
    pub vertices: Seq<VertexView>,
    pub edges: Seq<(int, int, LabelView)>,
}

/// A store holding nothing, as a freshly reset namespace does.
pub open spec fn empty_graph() -> GraphView {
    GraphView { vertices: Seq::empty(), edges: Seq::empty() }
}

/// What dropping and recreating a namespace leaves of a store: the empty
/// region, whatever stood there before.
pub open spec fn reset_graph(g: GraphView) -> GraphView {
    empty_graph()
}

/// What one accepted request does to a store.
pub open spec fn apply_req(g: GraphView, q: RequestView) -> GraphView {
    match q {
        RequestView::CreateVertex(v) => GraphView { vertices: g.vertices.push(v), edges: g.edges },
        RequestView::CreateEdge(p, c, l) => GraphView {
            vertices: g.vertices,
            edges: g.edges.push((p, c, l)),
        },
    }
}

/// What a whole accepted request stream does to a store.
pub open spec fn apply_reqs(g: GraphView, qs: Seq<RequestView>) -> GraphView
    decreases qs.len(),
{
    if qs.len() == 0 {
        g
    } else {
        apply_req(apply_reqs(g, qs.drop_last()), qs.last())
    }
}

/// Whether the store holds a vertex with the given identifier.
pub open spec fn has_vertex(g: GraphView, id: int) -> bool {
    exists|j: int| 0 <= j < g.vertices.len() && (#[trigger] g.vertices[j]).id == id
}

/// An in-memory property graph, the durable half of the in-memory sink.
pub struct MemGraph {
    pub vertices: Vec<VertexProps>,
    pub edges: Vec<(usize, usize, EdgeLabel)>,
}

impl MemGraph {
    /// Whether a vertex with this identifier has been created.
    #[verifier::loop_isolation(false)]
    fn contains_vertex(&self, id: usize) -> (r: bool)
        ensures
            r == has_vertex(self@, id as int),
    {
        let n = self.vertices.len();
        let mut i: usize = 0;
        let mut found = false;
        while i < n
            invariant
                i <= n,
                found == exists|j: int|
                    0 <= j < i as int && (#[trigger] self@.vertices[j]).id == id as int,
            decreases n - i,
        {
            if self.vertices[i].id == id {
                found = true;
                proof {
                    assert(self@.vertices[i as int].id == id as int);
                }
            } else {
                proof {
                    assert(self@.vertices[i as int].id != id as int);
                }
            }
            i += 1;
        }
        found
    }
}

impl View for MemGraph {
    type V = GraphView;

    open spec fn view(&self) -> GraphView {
        GraphView {
            vertices: self.vertices@.map_values(|v: VertexProps| v@),
            edges: self.edges@.map_values(
                |e: (usize, usize, EdgeLabel)| (e.0 as int, e.1 as int, e.2@),
            ),
        }
    }
}

/// An in-memory graph sink. It counts the requests of the current run and
/// can be told to refuse one of them (`fail_at` names the zero-based call it
/// rejects, `fail_with` the error it reports), standing in for a store that
/// drops the connection or hits a constraint mid-run.
pub struct MemSink {
    pub graph: MemGraph,
    pub calls: usize,
    pub fail_at: Option<usize>,
    pub fail_with: SinkError,
}

impl MemSink {
    /// Whether this sink refuses call number `k` of the run.
    pub open spec fn spec_rejects(&self, k: int) -> bool {
        match self.fail_at {
            Some(f) => f == k,
            None => false,
        }
    }

    /// The call this sink refuses, or -1 when it accepts every request.
    pub open spec fn spec_fail_index(&self) -> int {
        match self.fail_at {
            Some(f) => f as int,
            None => -1,
        }
    }

    /// A sink that accepts every request, over an empty store.
    pub fn new() -> (r: MemSink)
        ensures
            r.graph@ == empty_graph(),
            r.calls == 0,
            r.fail_at is None,
    {
        let r = MemSink {
            graph: MemGraph { vertices: Vec::new(), edges: Vec::new() },
            calls: 0,
            fail_at: None,
            fail_with: SinkError::Unavailable,
        };
        proof {
            assert(r.graph@ =~~= empty_graph());
        }
        r
    }

    /// A sink over an empty store that refuses call number `k` of the run
    /// with `err`, and accepts every other request.
    pub fn failing_at(k: usize, err: SinkError) -> (r: MemSink)
        ensures
            r.graph@ == empty_graph(),
            r.calls == 0,
            r.fail_at == Some(k),
            r.fail_with == err,
    {
        let r = MemSink {
            graph: MemGraph { vertices: Vec::new(), edges: Vec::new() },
            calls: 0,
            fail_at: Some(k),
            fail_with: err,
        };
        proof {
            assert(r.graph@ =~~= empty_graph());
        }
        r
    }

    /// Drops and recreates the namespace: the store is empty afterwards and
    /// the call counter starts over, whatever was there before.
    pub fn reset(&mut self)
        ensures
            final (self).graph@ == reset_graph(old(self).graph@),
            final (self).calls == 0,
            final (self).fail_at == old(self).fail_at,
            final (self).fail_with == old(self).fail_with,
    {
        self.graph.vertices = Vec::new();
        self.graph.edges = Vec::new();
        self.calls = 0;
        proof {
            assert(self.graph@ =~~= empty_graph());
        }
    }

    /// Inserts one vertex, or refuses it when this is the rejected call.
    /// Either way the call is counted.
    pub fn create_vertex(&mut self, v: &VertexProps) -> (r: Result<(), SinkError>)
        requires
            old(self).calls < usize::MAX,
        ensures
            final (self).fail_at == old(self).fail_at,
            final (self).fail_with == old(self).fail_with,
            final (self).calls == old(self).calls + 1,
            old(self).spec_rejects(old(self).calls as int) ==> r == Err::<(), SinkError>(
                old(self).fail_with,
            ) && final (self).graph@ == old(self).graph@,
            !old(self).spec_rejects(old(self).calls as int) ==> r == Ok::<(), SinkError>(())
                && final (self).graph@ == apply_req(
                old(self).graph@,
                RequestView::CreateVertex(v@),
            ),
    {
        let rejected = match self.fail_at {
            Some(f) => f == self.calls,
            None => false,
        };
        self.calls = self.calls + 1;
        if rejected {
            return Err(self.fail_with);
        }
        let copy = VertexProps {
            id: v.id,
            kind: v.kind.clone(),
            named: v.named,
            text: v.text.clone(),
            span: v.span,
        };
        let ghost before: GraphView = self.graph@;
        self.graph.vertices.push(copy);
        proof {
            assert(self.graph@ =~~= apply_req(before, RequestView::CreateVertex(v@)));
        }
        Ok(())
    }

    /// Inserts one directed labeled edge. The call is counted whatever
    /// comes of it: a scripted rejection reports the scripted error;
    /// otherwise the sink refuses the edge with a constraint violation
    /// when either endpoint vertex has not been created, and accepts it
    /// else.
    pub fn create_edge(&mut self, parent_id: usize, child_id: usize, label: &EdgeLabel) -> (r:
        Result<(), SinkError>)
        requires
            old(self).calls < usize::MAX,
        ensures
            final (self).fail_at == old(self).fail_at,
            final (self).fail_with == old(self).fail_with,
            final (self).calls == old(self).calls + 1,
            old(self).spec_rejects(old(self).calls as int) ==> r == Err::<(), SinkError>(
                old(self).fail_with,
            ) && final (self).graph@ == old(self).graph@,
            !old(self).spec_rejects(old(self).calls as int) ==> if has_vertex(
                old(self).graph@,
                parent_id as int,
            ) && has_vertex(old(self).graph@, child_id as int) {
                r == Ok::<(), SinkError>(()) && final (self).graph@ == apply_req(
                    old(self).graph@,
                    RequestView::CreateEdge(parent_id as int, child_id as int, label@),
                )
            } else {
                r == Err::<(), SinkError>(SinkError::ConstraintViolation) && final (self).graph@
                    == old(self).graph@
            },
    {
        let rejected = match self.fail_at {
            Some(f) => f == self.calls,
            None => false,
        };
        self.calls = self.calls + 1;
        if rejected {
            return Err(self.fail_with);
        }
        if !self.graph.contains_vertex(parent_id) || !self.graph.contains_vertex(child_id) {
            return Err(SinkError::ConstraintViolation);
        }
        let copy = match label {
            EdgeLabel::Child => EdgeLabel::Child,
            EdgeLabel::Role(s) => EdgeLabel::Role(s.clone()),
        };
        let ghost before: GraphView = self.graph@;
        self.graph.edges.push((parent_id, child_id, copy));
        proof {
            assert(self.graph@ =~~= apply_req(
                before,
                RequestView::CreateEdge(parent_id as int, child_id as int, label@),
            ));
        }
        Ok(())
    }
}

/// Projects `t` into `sink`: issues the whole request stream in order,
/// stopping at the first refused request. On success the returned count is
/// the number of vertices created. On refusal no further request is issued,
/// the store keeps what was already accepted, and the failure names the node
/// whose request was refused together with the sink's error.
#[verifier::loop_isolation(false)]
pub fn project(t: &SyntaxTree, sink: &mut MemSink) -> (r: Result<usize, ProjectionFailure>)
    requires
        t.wf(),
        old(sink).calls == 0,
    ensures
        final (sink).fail_at == old(sink).fail_at,
        final (sink).fail_with == old(sink).fail_with,
        ({
            let pl = spec_plan(t@);
            let f = old(sink).spec_fail_index();
            if 0 <= f < pl.len() {
                &&& r matches Err(e) && e.cause == old(sink).fail_with && e.node_id as int
                    == req_node(pl[f])
                &&& final (sink).graph@ == apply_reqs(old(sink).graph@, pl.take(f))
                &&& final (sink).calls as int == f + 1
            } else {
                &&& r matches Ok(c) && c as int == t@.len()
                &&& final (sink).graph@ == apply_reqs(old(sink).graph@, pl)
                &&& final (sink).calls as int == pl.len()
            }
        }),
{
    let ghost pl: Seq<RequestView> = spec_plan(t@);
    proof {
        crate::laws::lemma_no_forward_references(t@);
    }
    let requests = plan(t);
    let mut k: usize = 0;
    while k < requests.len()
        invariant
            k <= requests.len(),
            reqs_view(requests@) == pl,
            sink.calls == k,
            sink.fail_at == old(sink).fail_at,
            sink.fail_with == old(sink).fail_with,
            sink.graph@ == apply_reqs(old(sink).graph@, pl.take(k as int)),
            !(0 <= old(sink).spec_fail_index() < k as int),
            forall|v: int| 0 <= v < k as int && v < t@.len() ==> has_vertex(sink.graph@, v),
        decreases requests.len() - k,
    {
        let q = &requests[k];
        proof {
            assert(q@ == pl[k as int]);
        }
        let ghost pre_graph: GraphView = sink.graph@;
        let res = match q {
            SinkRequest::CreateVertex(v) => {
                proof {
                    // a vertex request stands before position N: its
                    // identifier is its own position
                    if t@.len() <= k as int {
                        assert(crate::laws::edge_after_endpoints(t@, k as int));
                        assert(false);
                    }
                    assert(pl[k as int] == vertex_req(t@, k as int));
                }
                sink.create_vertex(v)
            },
            SinkRequest::CreateEdge { parent_id, child_id, label } => {
                proof {
                    // an edge request stands at or after position N, and
                    // both endpoints' vertices were created at their own
                    // positions, strictly earlier in this run
                    if (k as int) < t@.len() {
                        assert(pl[k as int] == vertex_req(t@, k as int));
                        assert(false);
                    }
                    assert(crate::laws::edge_after_endpoints(t@, k as int));
                    assert(has_vertex(sink.graph@, *parent_id as int));
                    assert(has_vertex(sink.graph@, *child_id as int));
                }
                sink.create_edge(*parent_id, *child_id, label)
            },
        };
        match res {
            Ok(_) => {
                proof {
                    assert(pl.take(k as int + 1).drop_last() =~= pl.take(k as int));
                    assert(pl.take(k as int + 1).last() == pl[k as int]);
                    match q@ {
                        RequestView::CreateVertex(vv) => {
                            assert(sink.graph@.vertices == pre_graph.vertices.push(vv));
                            assert(vv.id == k as int);
                            assert forall|v: int|
                                0 <= v < k as int + 1 && v < t@.len() implies has_vertex(
                                sink.graph@,
                                v,
                            ) by {
                                if v < k as int {
                                    assert(has_vertex(pre_graph, v));
                                    let j = choose|j: int|
                                        0 <= j < pre_graph.vertices.len() && (
                                        #[trigger] pre_graph.vertices[j]).id == v;
                                    assert(sink.graph@.vertices[j] == pre_graph.vertices[j]);
                                    assert(sink.graph@.vertices[j].id == v);
                                } else {
                                    assert(sink.graph@.vertices[pre_graph.vertices.len() as int].id
                                        == v);
                                }
                            }
                        },
                        RequestView::CreateEdge(_, _, _) => {
                            assert(sink.graph@.vertices == pre_graph.vertices);
                            if (k as int) < t@.len() {
                                assert(pl[k as int] == vertex_req(t@, k as int));
                                assert(false);
                            }
                            assert forall|v: int|
                                0 <= v < k as int + 1 && v < t@.len() implies has_vertex(
                                sink.graph@,
                                v,
                            ) by {
                                assert(v < k as int);
                                assert(has_vertex(pre_graph, v));
                                let j = choose|j: int|
                                    0 <= j < pre_graph.vertices.len() && (
                                    #[trigger] pre_graph.vertices[j]).id == v;
                                assert(sink.graph@.vertices[j].id == v);
                            }
                        },
                    }
                }
                k = k + 1;
            },
            Err(e) => {
                let node_id = match q {
                    SinkRequest::CreateVertex(v) => v.id,
                    SinkRequest::CreateEdge { child_id, .. } => *child_id,
                };
                proof {
                    assert(old(sink).spec_fail_index() == k as int);
                    assert(node_id as int == req_node(pl[k as int]));
                }
                return Err(ProjectionFailure { node_id, cause: e });
            },
        }
    }
    proof {
        assert(pl.take(requests.len() as int) =~= pl);
    }
    Ok(t.len())
}

} // verus!
