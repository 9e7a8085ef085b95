use glsl_nav::context::ParserContext;
use glsl_nav::model::{NodeKind, Position, Range, SyntaxNode};
use glsl_nav::search::{is_in_subtree, run_query, SearchKind};

fn pos(line: u32, character: u32) -> Position {
    Position { line, character }
}

fn rng(start: (u32, u32), end: (u32, u32)) -> Range {
    Range { start: pos(start.0, start.1), end: pos(end.0, end.1) }
}

fn node(
    kind: NodeKind,
    parent: Option<usize>,
    start: (u32, u32),
    end: (u32, u32),
    text: &str,
) -> SyntaxNode {
    SyntaxNode {
        kind,
        parent,
        start: pos(start.0, start.1),
        end: pos(end.0, end.1),
        text: text.as_bytes().to_vec(),
    }
}

// A function whose parameter `x` is shadowed by a local `x` declared in an
// inner block, where `x` is then passed to a call.
fn shadow_source() -> Vec<u8> {
    b"void f(int x) {\n  int y = x + 1;\n  {\n    int x = 2;\n    g(x);\n  }\n}\n".to_vec()
}

fn shadow_tree() -> Vec<SyntaxNode> {
    vec![
        node(NodeKind::Other, None, (0, 0), (6, 1), ""),                      // 0 translation unit
        node(NodeKind::Other, Some(0), (0, 0), (6, 1), ""),                   // 1 function definition
        node(NodeKind::Other, Some(1), (0, 0), (0, 4), "void"),               // 2
        node(NodeKind::FunctionDeclarator, Some(1), (0, 5), (0, 13), ""),     // 3
        node(NodeKind::Identifier, Some(3), (0, 5), (0, 6), "f"),             // 4
        node(NodeKind::Other, Some(3), (0, 6), (0, 13), ""),                  // 5 parameter list
        node(NodeKind::ParameterDeclaration, Some(5), (0, 7), (0, 12), ""),   // 6
        node(NodeKind::Other, Some(6), (0, 7), (0, 10), "int"),               // 7
        node(NodeKind::Identifier, Some(6), (0, 11), (0, 12), "x"),           // 8
        node(NodeKind::Other, Some(1), (0, 14), (6, 1), ""),                  // 9 outer body
        node(NodeKind::Declaration, Some(9), (1, 2), (1, 16), ""),            // 10
        node(NodeKind::Other, Some(10), (1, 2), (1, 5), "int"),               // 11
        node(NodeKind::InitDeclarator, Some(10), (1, 6), (1, 15), ""),        // 12
        node(NodeKind::Identifier, Some(12), (1, 6), (1, 7), "y"),            // 13
        node(NodeKind::BinaryExpression, Some(12), (1, 10), (1, 15), ""),     // 14
        node(NodeKind::Identifier, Some(14), (1, 10), (1, 11), "x"),          // 15
        node(NodeKind::Other, Some(14), (1, 14), (1, 15), "1"),               // 16
        node(NodeKind::Other, Some(9), (2, 2), (5, 3), ""),                   // 17 inner block
        node(NodeKind::Declaration, Some(17), (3, 4), (3, 14), ""),           // 18
        node(NodeKind::Other, Some(18), (3, 4), (3, 7), "int"),               // 19
        node(NodeKind::InitDeclarator, Some(18), (3, 8), (3, 13), ""),        // 20
        node(NodeKind::Identifier, Some(20), (3, 8), (3, 9), "x"),            // 21
        node(NodeKind::Other, Some(20), (3, 12), (3, 13), "2"),               // 22
        node(NodeKind::Other, Some(17), (4, 4), (4, 9), ""),                  // 23 statement
        node(NodeKind::CallExpression, Some(23), (4, 4), (4, 8), ""),         // 24
        node(NodeKind::Identifier, Some(24), (4, 4), (4, 5), "g"),            // 25
        node(NodeKind::ArgumentList, Some(24), (4, 5), (4, 8), ""),           // 26
        node(NodeKind::Identifier, Some(26), (4, 6), (4, 7), "x"),            // 27
    ]
}

fn shadow_ctx() -> ParserContext {
    ParserContext::new(shadow_source(), shadow_tree()).unwrap()
}

const PATH: &str = "/proj/shadow.glsl";

// The use of `x` inside the inner block resolves to the inner declaration
// only; the shadowed parameter is never part of the result.
#[test]
fn inner_declaration_shadows_outer() {
    let ctx = shadow_ctx();
    let locs = ctx.find_definitions(PATH, pos(4, 6)).unwrap().unwrap();
    assert_eq!(locs.len(), 1);
    // the span of the inner init declarator `x = 2`
    assert_eq!(locs[0].range, rng((3, 8), (3, 13)));
    let param = rng((0, 7), (0, 12));
    assert!(locs.iter().all(|l| l.range != param));
}

// The same search run over the whole tree sees both the parameter and the
// local; restricted to the inner block it sees the local only.
#[test]
fn query_is_restricted_to_its_subtree() {
    let nodes = shadow_tree();
    let all = run_query(&nodes, SearchKind::VariableDefinition, &b"x".to_vec(), 0);
    assert_eq!(all.len(), 2);
    // the parameter declaration `int x`, then the init declarator `x = 2`
    assert_eq!(all[0], rng((0, 7), (0, 12)));
    assert_eq!(all[1], rng((3, 8), (3, 13)));
    let inner = run_query(&nodes, SearchKind::VariableDefinition, &b"x".to_vec(), 17);
    assert_eq!(inner.len(), 1);
    assert_eq!(inner[0], rng((3, 8), (3, 13)));
}

#[test]
fn subtree_membership_follows_parent_links() {
    let nodes = shadow_tree();
    assert!(is_in_subtree(&nodes, 21, 17));
    assert!(is_in_subtree(&nodes, 27, 24));
    assert!(!is_in_subtree(&nodes, 8, 17));
    assert!(is_in_subtree(&nodes, 8, 0));
}

#[test]
fn boundary_cursors_agree_on_argument() {
    let ctx = shadow_ctx();
    // before the `x` of `g(x)`, and just after it
    assert_eq!(ctx.find_node_at_point(pos(4, 6)), Some(27));
    assert_eq!(ctx.find_node_at_point(pos(4, 7)), Some(27));
}

#[test]
fn cursor_at_column_zero_looking_behind_yields_none() {
    let ctx = shadow_ctx();
    // line 6 holds only `}`: its byte is no letter and there is no column
    // to its left
    assert_eq!(ctx.find_node_at_point(pos(6, 0)), None);
}

// The `x` of `x + 1` sits under a binary expression, so the climb starts
// there; the nearest enclosing subtree with a declaration of `x` is the
// outer body, whose whole match set — here the inner block's later
// declaration — is reported.
#[test]
fn climb_stops_at_first_scope_with_a_match() {
    let ctx = shadow_ctx();
    let locs = ctx.find_definitions(PATH, pos(1, 10)).unwrap().unwrap();
    assert_eq!(locs.len(), 1);
    assert_eq!(locs[0].range, rng((3, 8), (3, 13)));
}
