use treegraph::label::EdgeLabel;
use treegraph::materialize::materialize_typescript;
use treegraph::project::{plan, project, MemSink, SinkRequest};

#[test]
fn parses_a_call_expression() {
    let t = materialize_typescript("double(a)").unwrap();
    let n = t.len();
    assert!(n >= 3);
    // the root is the whole program, parentless, covering the full source
    let root = t.node(0);
    assert_eq!(root.kind, "program");
    assert!(root.parent.is_none());
    assert_eq!(root.text, "double(a)");
    // the tree holds the call and both identifiers
    let mut kinds: Vec<String> = Vec::new();
    for i in 0..n {
        kinds.push(t.node(i).kind.clone());
    }
    assert!(kinds.iter().any(|k| k == "call_expression"));
    assert_eq!(kinds.iter().filter(|k| *k == "identifier").count(), 2);
    // every non-root node names a parent that stands before it
    for i in 1..n {
        let p = t.node(i).parent.unwrap();
        assert!(p < i);
    }
}

#[test]
fn materialized_trees_project_cleanly() {
    let src = "function double(x: number) { return x * 2; }\n\ndouble(a)\n";
    let t = materialize_typescript(src).unwrap();
    let n = t.len();
    let requests = plan(&t);
    // one vertex per node, then only edges
    for (k, q) in requests.iter().enumerate() {
        if k < n {
            assert!(matches!(q, SinkRequest::CreateVertex(_)));
        } else {
            assert!(matches!(q, SinkRequest::CreateEdge { .. }));
        }
    }
    assert!(requests.len() >= n + (n - 1));
    assert!(requests.len() <= n + 2 * (n - 1));
    // each vertex identifier equals its arena index; texts are byte-exact
    for (k, q) in requests.iter().take(n).enumerate() {
        if let SinkRequest::CreateVertex(v) = q {
            assert_eq!(v.id, k);
            assert_eq!(&v.text, &src[v.span.start_byte..v.span.end_byte]);
        }
    }
    // exactly one vertex — the root — has no incoming generic edge
    let mut in_degree = vec![0usize; n];
    for q in requests.iter() {
        if let SinkRequest::CreateEdge { child_id, label: EdgeLabel::Child, .. } = q {
            in_degree[*child_id] += 1;
        }
    }
    assert_eq!(in_degree[0], 0);
    for d in in_degree.iter().skip(1) {
        assert_eq!(*d, 1);
    }
    // the whole stream runs against a sink
    let mut sink = MemSink::new();
    let count = project(&t, &mut sink).unwrap();
    assert_eq!(count, n);
    assert_eq!(sink.graph.vertices.len(), n);
}

#[test]
fn parameters_field_is_normalized_from_the_grammar() {
    let t = materialize_typescript("function double(x) { return x; }").unwrap();
    // the grammar attaches the formal parameters under the "parameters"
    // field; the projector must type that edge PARAMETERS
    let requests = plan(&t);
    let mut saw_parameters = false;
    for q in requests.iter() {
        if let SinkRequest::CreateEdge { label: EdgeLabel::Role(r), .. } = q {
            if r == "PARAMETERS" {
                saw_parameters = true;
            }
        }
    }
    assert!(saw_parameters);
}

#[test]
fn recoverable_errors_still_yield_a_tree() {
    // a syntax error the parser recovers from: the tree still materializes
    let t = materialize_typescript("function (").unwrap();
    assert!(t.len() >= 1);
}

#[test]
fn texts_are_byte_exact_on_multibyte_sources() {
    // a two-byte character ahead of the call keeps byte offsets and
    // character offsets apart
    let src = "let caf\u{e9} = 1;\ndouble(caf\u{e9})\n";
    let t = materialize_typescript(src).unwrap();
    for i in 0..t.len() {
        let node = t.node(i);
        assert_eq!(&node.text, &src[node.span.start_byte..node.span.end_byte]);
    }
}

#[test]
fn anonymous_tokens_are_kept() {
    let t = materialize_typescript("double(a)").unwrap();
    let mut saw_anonymous = false;
    for i in 0..t.len() {
        if !t.node(i).named {
            saw_anonymous = true;
        }
    }
    // the concrete tree keeps punctuation such as the parentheses
    assert!(saw_anonymous);
}
