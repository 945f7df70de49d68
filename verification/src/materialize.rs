//! The tree materializer: invokes the outside parser on source text and
//! flattens the resulting concrete syntax tree into the arena form of
//! [`crate::tree::SyntaxTree`].
//!
//! The parser and its tree are opaque outside values; every call into them
//! goes through a trusted wrapper below. The flattening walk itself — the
//! assignment of arena indices, the parent bookkeeping, the preorder
//! layout — is the library's own verified code, and it alone establishes
//! the well-formedness the projector relies on.

use crate::errors::ParseError;
use crate::tree::{wf_arena, NodeRec, NodeView, Span, SyntaxTree};
use vstd::prelude::*;
use vstd::string::StringSliceAdditionalSpecFns;
use vstd::utf8::encode_utf8;

verus! {

#[verifier::external_type_specification]
#[verifier::external_body]
pub struct ExLanguage(tree_sitter::Language);

#[verifier::external_type_specification]
#[verifier::external_body]
pub struct ExParser(tree_sitter::Parser);

#[verifier::external_type_specification]
#[verifier::external_body]
pub struct ExTree(tree_sitter::Tree);

#[verifier::external_type_specification]
#[verifier::external_body]
pub struct ExNode<'a>(tree_sitter::Node<'a>);

/// Relies on tree_sitter_typescript::LANGUAGE_TYPESCRIPT: the TypeScript
/// grammar, handed over as a tree_sitter::Language.
#[verifier::external_body]
fn typescript_language() -> tree_sitter::Language {
    tree_sitter::Language::from(tree_sitter_typescript::LANGUAGE_TYPESCRIPT)
}

/// Relies on tree_sitter::Parser::new: a parser with no language assigned.
#[verifier::external_body]
fn parser_new() -> tree_sitter::Parser {
    tree_sitter::Parser::new()
}

/// Relies on tree_sitter::Parser::set_language: true exactly when the
/// parser accepted the grammar (it refuses a grammar built with an
/// incompatible ABI version, or one that is not usable for parsing).
#[verifier::external_body]
fn parser_set_language(p: &mut tree_sitter::Parser, lang: &tree_sitter::Language) -> bool {
    p.set_language(lang).is_ok()
}

/// Relies on tree_sitter::Parser::parse: `None` only when no language was
/// assigned or parsing was cancelled; otherwise the full concrete tree.
#[verifier::external_body]
fn parser_parse(p: &mut tree_sitter::Parser, src: &str) -> Option<tree_sitter::Tree> {
    p.parse(src, None)
}

/// Relies on tree_sitter::Tree::root_node: the root of the parsed tree.
#[verifier::external_body]
fn tree_root<'t>(t: &'t tree_sitter::Tree) -> tree_sitter::Node<'t> {
    t.root_node()
}

/// Relies on tree_sitter::Node::kind: the name of the node's grammar
/// production or token type.
#[verifier::external_body]
fn node_kind(n: &tree_sitter::Node) -> String {
    n.kind().to_string()
}

/// Relies on tree_sitter::Node::is_named: whether the node is a named
/// production rather than an anonymous token.
#[verifier::external_body]
fn node_is_named(n: &tree_sitter::Node) -> bool {
    n.is_named()
}

/// Relies on tree_sitter::Node::start_byte.
#[verifier::external_body]
fn node_start_byte(n: &tree_sitter::Node) -> usize {
    n.start_byte()
}

/// Relies on tree_sitter::Node::end_byte.
#[verifier::external_body]
fn node_end_byte(n: &tree_sitter::Node) -> usize {
    n.end_byte()
}

/// Relies on tree_sitter::Node::start_position: the node's start as a
/// zero-indexed (row, column) pair.
#[verifier::external_body]
fn node_start_position(n: &tree_sitter::Node) -> (usize, usize) {
    let p = n.start_position();
    (p.row, p.column)
}

/// Relies on tree_sitter::Node::end_position: the node's end as a
/// zero-indexed (row, column) pair.
#[verifier::external_body]
fn node_end_position(n: &tree_sitter::Node) -> (usize, usize) {
    let p = n.end_position();
    (p.row, p.column)
}

/// Relies on tree_sitter::Node::child_count.
#[verifier::external_body]
fn node_child_count(n: &tree_sitter::Node) -> u32 {
    n.child_count()
}

/// Relies on tree_sitter::Node::child: the child at the given index in
/// source order, `None` when there is no child at that index.
#[verifier::external_body]
fn node_child<'t>(n: &tree_sitter::Node<'t>, i: u32) -> Option<tree_sitter::Node<'t>> {
    n.child(i)
}

/// Relies on tree_sitter::Node::field_name_for_child: the grammatical role
/// of the child at the given index, when the grammar names one.
#[verifier::external_body]
fn node_field_name(n: &tree_sitter::Node, i: u32) -> Option<String> {
    match n.field_name_for_child(i) {
        Some(s) => Some(s.to_string()),
        None => None,
    }
}

/// Relies on str::get over a byte range: it never panics, returns `None`
/// when the range is out of bounds or off character boundaries, and
/// otherwise the substring whose UTF-8 bytes are exactly bytes `a..b` of
/// `src`.
#[verifier::external_body]
fn str_get(src: &str, a: usize, b: usize) -> (r: Option<String>)
    ensures
        r matches Some(t) ==> a <= b && b <= src.spec_bytes().len() && encode_utf8(t@)
            == src.spec_bytes().subrange(a as int, b as int),
{
    match src.get(a..b) {
        Some(s) => Some(s.to_string()),
        None => None,
    }
}

/// A child waiting to be materialized: the arena index of its already
/// materialized parent, its field role under that parent, and the opaque
/// node itself.
struct Pending<'t> {
    parent: usize,
    field: Option<String>,
    node: tree_sitter::Node<'t>,
}

/// Reads the data every node contributes to its arena record: the text is
/// the exact source substring the node's span covers, and `None` comes
/// only when that span does not line up with `src`.
fn read_node(n: &tree_sitter::Node, src: &str) -> (r: Option<(String, bool, String, Span)>)
    ensures
        r matches Some(d) ==> d.3.start_byte <= d.3.end_byte && d.3.end_byte
            <= src.spec_bytes().len() && encode_utf8(d.2@) == src.spec_bytes().subrange(
            d.3.start_byte as int,
            d.3.end_byte as int,
        ),
{
    let kind = node_kind(n);
    let named = node_is_named(n);
    let start_byte = node_start_byte(n);
    let end_byte = node_end_byte(n);
    let text = match str_get(src, start_byte, end_byte) {
        Some(t) => t,
        None => {
            return None;
        },
    };
    let (start_row, start_column) = node_start_position(n);
    let (end_row, end_column) = node_end_position(n);
    let span = Span { start_byte, end_byte, start_row, start_column, end_row, end_column };
    Some((kind, named, text, span))
}

/// Pushes the children of `node` onto the work stack in reverse source
/// order, so that popping yields them in source order and the arena comes
/// out in preorder. Every new entry names `parent` as its parent.
#[verifier::loop_isolation(false)]
fn push_children<'t>(stack: &mut Vec<Pending<'t>>, node: &tree_sitter::Node<'t>, parent: usize)
    ensures
        final (stack)@.len() >= old(stack)@.len(),
        forall|k: int|
            0 <= k < old(stack)@.len() ==> #[trigger] final (stack)@[k] == old(stack)@[k],
        forall|k: int|
            old(stack)@.len() <= k < final (stack)@.len() ==> (#[trigger] final (stack)@[k]).parent
                == parent,
{
    let mut j: u32 = node_child_count(node);
    while j > 0
        invariant
            stack@.len() >= old(stack)@.len(),
            forall|k: int|
                0 <= k < old(stack)@.len() ==> #[trigger] stack@[k] == old(stack)@[k],
            forall|k: int|
                old(stack)@.len() <= k < stack@.len() ==> (#[trigger] stack@[k]).parent == parent,
        decreases j,
    {
        j = j - 1;
        match node_child(node, j) {
            Some(child) => {
                let field = node_field_name(node, j);
                stack.push(Pending { parent, field, node: child });
            },
            None => {},
        }
    }
}

/// How many nodes one materialization is willing to flatten before giving
/// up on the input as unmanageable.
pub const NODE_BUDGET: u64 = 0xFFFF_FFFF;

/// Byte-exact text extraction: every node's text is the exact substring of
/// the source bytes that its span covers.
pub open spec fn texts_exact(s: Seq<NodeView>, src: Seq<u8>) -> bool {
    forall|i: int|
        0 <= i < s.len() ==> {
            let nv = #[trigger] s[i];
            &&& nv.span.start_byte <= nv.span.end_byte
            &&& nv.span.end_byte <= src.len()
            &&& encode_utf8(nv.text) == src.subrange(
                nv.span.start_byte as int,
                nv.span.end_byte as int,
            )
        }
}

/// Parses `src` with the given grammar and flattens the resulting concrete
/// syntax tree into a well-formed arena, in preorder, the root at index 0.
///
/// Fails with `GrammarUnavailable` when the parser refuses the grammar, and
/// with `ParseRejected` when the parser yields no tree at all, when a
/// node's span does not line up with the source text, or when the input
/// holds more than [`NODE_BUDGET`] nodes. Recoverable syntax errors still
/// yield a tree (with error-marked nodes) and are not failures.
#[verifier::loop_isolation(false)]
pub fn materialize(lang: &tree_sitter::Language, src: &str) -> (r: Result<SyntaxTree, ParseError>)
    ensures
        r matches Ok(t) ==> t.wf() && texts_exact(t@, src.spec_bytes()),
{
    let mut parser = parser_new();
    if !parser_set_language(&mut parser, lang) {
        return Err(ParseError::GrammarUnavailable);
    }
    let tree = match parser_parse(&mut parser, src) {
        Some(t) => t,
        None => {
            return Err(ParseError::ParseRejected);
        },
    };
    let root = tree_root(&tree);
    let mut nodes: Vec<NodeRec> = Vec::new();
    let (kind, named, text, span) = match read_node(&root, src) {
        Some(d) => d,
        None => {
            return Err(ParseError::ParseRejected);
        },
    };
    nodes.push(NodeRec { parent: None, field: None, kind, named, text, span });
    proof {
        let v = nodes@.map_values(|n: NodeRec| n@);
        assert(v.len() == 1);
        assert(v[0].text == text@ && v[0].span == span);
    }
    let mut stack: Vec<Pending> = Vec::new();
    push_children(&mut stack, &root, 0);
    let mut fuel: u64 = NODE_BUDGET;
    while stack.len() > 0
        invariant
            nodes@.len() >= 1,
            wf_arena(nodes@.map_values(|n: NodeRec| n@)),
            texts_exact(nodes@.map_values(|n: NodeRec| n@), src.spec_bytes()),
            forall|k: int|
                0 <= k < stack@.len() ==> (#[trigger] stack@[k]).parent < nodes@.len(),
        decreases fuel,
    {
        if fuel == 0 {
            return Err(ParseError::ParseRejected);
        }
        fuel = fuel - 1;
        let entry = match stack.pop() {
            Some(e) => e,
            None => {
                assert(false);
                return Err(ParseError::ParseRejected);
            },
        };
        let i = nodes.len();
        let (kind, named, text, span) = match read_node(&entry.node, src) {
            Some(d) => d,
            None => {
                return Err(ParseError::ParseRejected);
            },
        };
        let ghost before: Seq<crate::tree::NodeView> = nodes@.map_values(|n: NodeRec| n@);
        nodes.push(
            NodeRec { parent: Some(entry.parent), field: entry.field, kind, named, text, span },
        );
        proof {
            let after = nodes@.map_values(|n: NodeRec| n@);
            assert(after.len() == before.len() + 1);
            assert(forall|k: int| 0 <= k < before.len() ==> after[k] == before[k]);
            assert(after[i as int].parent == Some(entry.parent as int));
            assert(after[i as int].text == text@ && after[i as int].span == span);
        }
        push_children(&mut stack, &entry.node, i);
    }
    match SyntaxTree::new(nodes) {
        Some(t) => Ok(t),
        None => {
            assert(false);
            Err(ParseError::ParseRejected)
        },
    }
}

/// [`materialize`] with the TypeScript grammar selected.
pub fn materialize_typescript(src: &str) -> (r: Result<SyntaxTree, ParseError>)
    ensures
        r matches Ok(t) ==> t.wf() && texts_exact(t@, src.spec_bytes()),
{
    let lang = typescript_language();
    materialize(&lang, src)
}

} // verus!
