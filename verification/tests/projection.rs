use treegraph::errors::SinkError;
use treegraph::label::EdgeLabel;
use treegraph::project::{plan, project, MemGraph, MemSink, SinkRequest};
use treegraph::tree::{NodeRec, Span, SyntaxTree};

fn span() -> Span {
    Span { start_byte: 0, end_byte: 0, start_row: 0, start_column: 0, end_row: 0, end_column: 0 }
}

fn node(parent: Option<usize>, field: Option<&str>, kind: &str, named: bool, text: &str) -> NodeRec {
    NodeRec {
        parent,
        field: field.map(|f| f.to_string()),
        kind: kind.to_string(),
        named,
        text: text.to_string(),
        span: span(),
    }
}

/// The call-expression scenario: a call with a callee identifier and one
/// argument identifier carrying the "arguments" field role.
fn call_tree() -> SyntaxTree {
    let nodes = vec![
        node(None, None, "call_expression", true, "double(a)"),
        node(Some(0), None, "identifier", true, "double"),
        node(Some(0), Some("arguments"), "identifier", true, "a"),
    ];
    SyntaxTree::new(nodes).unwrap()
}

fn graphs_equal(a: &MemGraph, b: &MemGraph) -> bool {
    if a.vertices.len() != b.vertices.len() || a.edges.len() != b.edges.len() {
        return false;
    }
    for (x, y) in a.vertices.iter().zip(b.vertices.iter()) {
        if x.id != y.id || x.kind != y.kind || x.named != y.named || x.text != y.text
            || x.span != y.span
        {
            return false;
        }
    }
    for (x, y) in a.edges.iter().zip(b.edges.iter()) {
        let labels_match = match (&x.2, &y.2) {
            (EdgeLabel::Child, EdgeLabel::Child) => true,
            (EdgeLabel::Role(r), EdgeLabel::Role(s)) => r == s,
            _ => false,
        };
        if x.0 != y.0 || x.1 != y.1 || !labels_match {
            return false;
        }
    }
    true
}

#[test]
fn rejects_ill_formed_arenas() {
    assert!(SyntaxTree::new(vec![]).is_none());
    // a root that claims a parent
    assert!(SyntaxTree::new(vec![node(Some(0), None, "program", true, "")]).is_none());
    // a node whose parent does not precede it
    let bad = vec![
        node(None, None, "program", true, ""),
        node(Some(1), None, "identifier", true, "x"),
    ];
    assert!(SyntaxTree::new(bad).is_none());
    // a second root
    let two_roots = vec![
        node(None, None, "program", true, ""),
        node(None, None, "identifier", true, "x"),
    ];
    assert!(SyntaxTree::new(two_roots).is_none());
}

#[test]
fn children_come_in_source_order() {
    let t = call_tree();
    assert_eq!(t.children(0), vec![1, 2]);
    assert_eq!(t.children(1), Vec::<usize>::new());
    assert_eq!(t.children(2), Vec::<usize>::new());
    assert_eq!(t.node(2).field.as_deref(), Some("arguments"));
}

#[test]
fn call_expression_scenario() {
    let t = call_tree();
    let requests = plan(&t);
    // exactly 3 vertex creations, then the edges: one generic edge for the
    // callee, a generic plus an ARGUMENTS-typed edge for the argument
    assert_eq!(requests.len(), 6);
    for (i, q) in requests.iter().take(3).enumerate() {
        match q {
            SinkRequest::CreateVertex(v) => {
                assert_eq!(v.id, i);
                assert!(v.named);
            },
            _ => panic!("expected a vertex creation at position {}", i),
        }
    }
    match &requests[3] {
        SinkRequest::CreateEdge { parent_id, child_id, label } => {
            assert_eq!((*parent_id, *child_id), (0, 1));
            assert!(matches!(label, EdgeLabel::Child));
        },
        _ => panic!("expected an edge creation"),
    }
    match &requests[4] {
        SinkRequest::CreateEdge { parent_id, child_id, label } => {
            assert_eq!((*parent_id, *child_id), (0, 2));
            assert!(matches!(label, EdgeLabel::Child));
        },
        _ => panic!("expected an edge creation"),
    }
    match &requests[5] {
        SinkRequest::CreateEdge { parent_id, child_id, label } => {
            assert_eq!((*parent_id, *child_id), (0, 2));
            match label {
                EdgeLabel::Role(r) => assert_eq!(r, "ARGUMENTS"),
                _ => panic!("expected the field-typed edge"),
            }
        },
        _ => panic!("expected an edge creation"),
    }
}

#[test]
fn field_label_normalization() {
    let nodes = vec![
        node(None, None, "class_declaration", true, ""),
        node(Some(0), Some("typeParameters"), "type_parameters", true, ""),
        node(Some(0), None, "identifier", true, "c"),
    ];
    let t = SyntaxTree::new(nodes).unwrap();
    let requests = plan(&t);
    let mut labels_for_1: Vec<String> = Vec::new();
    let mut labels_for_2: Vec<String> = Vec::new();
    for q in requests.iter() {
        if let SinkRequest::CreateEdge { child_id, label, .. } = q {
            let text = match label {
                EdgeLabel::Child => "CHILD".to_string(),
                EdgeLabel::Role(r) => r.clone(),
            };
            if *child_id == 1 {
                labels_for_1.push(text);
            } else {
                labels_for_2.push(text);
            }
        }
    }
    // "typeParameters" yields TYPE_PARAMETERS beside the generic edge;
    // a slot without a field yields the generic edge alone
    assert_eq!(labels_for_1, vec!["CHILD".to_string(), "TYPE_PARAMETERS".to_string()]);
    assert_eq!(labels_for_2, vec!["CHILD".to_string()]);
}

#[test]
fn request_counts_with_and_without_fields() {
    // no field roles at all: exactly E = N - 1 edges
    let bare = vec![
        node(None, None, "program", true, ""),
        node(Some(0), None, "identifier", true, "x"),
        node(Some(1), None, "token", false, "x"),
    ];
    let t = SyntaxTree::new(bare).unwrap();
    assert_eq!(plan(&t).len(), 3 + 2);
    // every pair carries a field role: exactly 2E edges
    let full = vec![
        node(None, None, "program", true, ""),
        node(Some(0), Some("left"), "identifier", true, "x"),
        node(Some(0), Some("right"), "identifier", true, "y"),
    ];
    let t = SyntaxTree::new(full).unwrap();
    assert_eq!(plan(&t).len(), 3 + 4);
}

#[test]
fn repeated_field_names_stay_independent_edges() {
    let nodes = vec![
        node(None, None, "call_expression", true, ""),
        node(Some(0), Some("arguments"), "identifier", true, "a"),
        node(Some(0), Some("arguments"), "identifier", true, "b"),
    ];
    let t = SyntaxTree::new(nodes).unwrap();
    let requests = plan(&t);
    let role_edges: Vec<(usize, usize)> = requests
        .iter()
        .filter_map(|q| match q {
            SinkRequest::CreateEdge { parent_id, child_id, label: EdgeLabel::Role(r) }
                if r == "ARGUMENTS" => Some((*parent_id, *child_id)),
            _ => None,
        })
        .collect();
    assert_eq!(role_edges, vec![(0, 1), (0, 2)]);
}

#[test]
fn project_fills_the_sink() {
    let t = call_tree();
    let mut sink = MemSink::new();
    let count = project(&t, &mut sink).unwrap();
    assert_eq!(count, 3);
    assert_eq!(sink.graph.vertices.len(), 3);
    assert_eq!(sink.graph.edges.len(), 3);
    assert_eq!(sink.graph.vertices[1].text, "double");
    assert_eq!(sink.graph.edges[0].0, 0);
    assert_eq!(sink.graph.edges[0].1, 1);
    assert_eq!(sink.calls, 6);
}

#[test]
fn third_vertex_rejection_aborts_the_run() {
    let t = call_tree();
    // the third vertex-creation request is the sink's call number 2
    let mut sink = MemSink::failing_at(2, SinkError::Unavailable);
    let err = project(&t, &mut sink).unwrap_err();
    assert_eq!(err.node_id, 2);
    assert_eq!(err.cause, SinkError::Unavailable);
    // no further call was issued after the refusal
    assert_eq!(sink.calls, 3);
    // the store keeps exactly what was accepted before the refusal
    assert_eq!(sink.graph.vertices.len(), 2);
    assert_eq!(sink.graph.edges.len(), 0);
}

#[test]
fn constraint_violation_is_surfaced() {
    let t = call_tree();
    // refuse the first edge creation (call number 3)
    let mut sink = MemSink::failing_at(3, SinkError::ConstraintViolation);
    let err = project(&t, &mut sink).unwrap_err();
    assert_eq!(err.node_id, 1);
    assert_eq!(err.cause, SinkError::ConstraintViolation);
    assert_eq!(sink.graph.vertices.len(), 3);
    assert_eq!(sink.graph.edges.len(), 0);
}

#[test]
fn dangling_edges_violate_the_sink_constraint() {
    let mut sink = MemSink::new();
    // no vertex exists yet: the sink refuses the edge
    let err = sink.create_edge(0, 1, &EdgeLabel::Child).unwrap_err();
    assert_eq!(err, SinkError::ConstraintViolation);
    assert_eq!(sink.graph.edges.len(), 0);
    assert_eq!(sink.calls, 1);
    // with only one endpoint present it still refuses
    let t = call_tree();
    let requests = plan(&t);
    match &requests[0] {
        SinkRequest::CreateVertex(v) => sink.create_vertex(v).unwrap(),
        _ => panic!("expected a vertex creation"),
    }
    let err = sink.create_edge(0, 1, &EdgeLabel::Child).unwrap_err();
    assert_eq!(err, SinkError::ConstraintViolation);
    // with both endpoints present it accepts
    match &requests[1] {
        SinkRequest::CreateVertex(v) => sink.create_vertex(v).unwrap(),
        _ => panic!("expected a vertex creation"),
    }
    sink.create_edge(0, 1, &EdgeLabel::Child).unwrap();
    assert_eq!(sink.graph.edges.len(), 1);
}

#[test]
fn reset_then_project_reproduces_the_graph() {
    let t = call_tree();
    let mut first = MemSink::new();
    first.reset();
    project(&t, &mut first).unwrap();
    // a second run over a sink still holding the first run's graph
    let mut second = MemSink::new();
    second.reset();
    project(&t, &mut second).unwrap();
    second.reset();
    project(&t, &mut second).unwrap();
    assert!(graphs_equal(&first.graph, &second.graph));
}

#[test]
fn skipping_reset_duplicates_vertices() {
    let t = call_tree();
    let mut sink = MemSink::new();
    project(&t, &mut sink).unwrap();
    // a fresh run over a store nobody reset
    let mut second = MemSink { graph: sink.graph, calls: 0, fail_at: None, fail_with: SinkError::Unavailable };
    project(&t, &mut second).unwrap();
    // without the reset the second run doubles the store
    assert_eq!(second.graph.vertices.len(), 6);
    assert_eq!(second.graph.edges.len(), 6);
}
