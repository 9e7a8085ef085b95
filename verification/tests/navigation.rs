use glsl_nav::context::ParserContext;
use glsl_nav::model::{NavError, NodeKind, Position, Range, SyntaxNode};

fn pos(line: u32, character: u32) -> Position {
    Position { line, character }
}

fn rng(start: (u32, u32), end: (u32, u32)) -> Range {
    Range { start: pos(start.0, start.1), end: pos(end.0, end.1) }
}

fn node(
    kind: NodeKind,
    parent: Option<usize>,
    start: (u32, u32),
    end: (u32, u32),
    text: &str,
) -> SyntaxNode {
    SyntaxNode {
        kind,
        parent,
        start: pos(start.0, start.1),
        end: pos(end.0, end.1),
        text: text.as_bytes().to_vec(),
    }
}

// A small shader: a function `shade` with a parameter, a local, a return,
// and a call site in `main`. The arena mirrors the grammar's parse of this
// text, named nodes only, in preorder.
fn shade_source() -> Vec<u8> {
    b"vec3 shade(vec3 n) {\n  vec3 c = n;\n  return c;\n}\nvoid main() {\n  vec3 q = shade(normal);\n}\n"
        .to_vec()
}

fn shade_tree() -> Vec<SyntaxNode> {
    vec![
        node(NodeKind::Other, None, (0, 0), (6, 1), ""),                       // 0 translation unit
        node(NodeKind::Other, Some(0), (0, 0), (3, 1), ""),                    // 1 function definition
        node(NodeKind::Other, Some(1), (0, 0), (0, 4), "vec3"),                // 2 type
        node(NodeKind::FunctionDeclarator, Some(1), (0, 5), (0, 18), ""),      // 3
        node(NodeKind::Identifier, Some(3), (0, 5), (0, 10), "shade"),         // 4
        node(NodeKind::Other, Some(3), (0, 10), (0, 18), ""),                  // 5 parameter list
        node(NodeKind::ParameterDeclaration, Some(5), (0, 11), (0, 17), ""),   // 6
        node(NodeKind::Other, Some(6), (0, 11), (0, 15), "vec3"),              // 7 type
        node(NodeKind::Identifier, Some(6), (0, 16), (0, 17), "n"),            // 8
        node(NodeKind::Other, Some(1), (0, 19), (3, 1), ""),                   // 9 body
        node(NodeKind::Declaration, Some(9), (1, 2), (1, 13), ""),             // 10
        node(NodeKind::Other, Some(10), (1, 2), (1, 6), "vec3"),               // 11 type
        node(NodeKind::InitDeclarator, Some(10), (1, 7), (1, 12), ""),         // 12
        node(NodeKind::Identifier, Some(12), (1, 7), (1, 8), "c"),             // 13
        node(NodeKind::Identifier, Some(12), (1, 11), (1, 12), "n"),           // 14
        node(NodeKind::ReturnStatement, Some(9), (2, 2), (2, 12), ""),         // 15
        node(NodeKind::Identifier, Some(15), (2, 9), (2, 10), "c"),            // 16
        node(NodeKind::Other, Some(0), (4, 0), (6, 1), ""),                    // 17 function definition
        node(NodeKind::Other, Some(17), (4, 0), (4, 4), "void"),               // 18 type
        node(NodeKind::FunctionDeclarator, Some(17), (4, 5), (4, 11), ""),     // 19
        node(NodeKind::Identifier, Some(19), (4, 5), (4, 9), "main"),          // 20
        node(NodeKind::Other, Some(19), (4, 9), (4, 11), ""),                  // 21 parameter list
        node(NodeKind::Other, Some(17), (4, 12), (6, 1), ""),                  // 22 body
        node(NodeKind::Declaration, Some(22), (5, 2), (5, 25), ""),            // 23
        node(NodeKind::Other, Some(23), (5, 2), (5, 6), "vec3"),               // 24 type
        node(NodeKind::InitDeclarator, Some(23), (5, 7), (5, 24), ""),         // 25
        node(NodeKind::Identifier, Some(25), (5, 7), (5, 8), "q"),             // 26
        node(NodeKind::CallExpression, Some(25), (5, 11), (5, 24), ""),        // 27
        node(NodeKind::Identifier, Some(27), (5, 11), (5, 16), "shade"),       // 28
        node(NodeKind::ArgumentList, Some(27), (5, 16), (5, 24), ""),          // 29
        node(NodeKind::Identifier, Some(29), (5, 17), (5, 23), "normal"),      // 30
    ]
}

fn shade_ctx() -> ParserContext {
    ParserContext::new(shade_source(), shade_tree()).unwrap()
}

// One function `f` called from two other functions: the symmetry scenario.
fn calls_source() -> Vec<u8> {
    b"float f() { return 1; }\nvoid a() { f(); }\nvoid b() { f(); }\n".to_vec()
}

fn calls_tree() -> Vec<SyntaxNode> {
    vec![
        node(NodeKind::Other, None, (0, 0), (2, 17), ""),                    // 0
        node(NodeKind::Other, Some(0), (0, 0), (0, 23), ""),                 // 1
        node(NodeKind::Other, Some(1), (0, 0), (0, 5), "float"),             // 2
        node(NodeKind::FunctionDeclarator, Some(1), (0, 6), (0, 9), ""),     // 3
        node(NodeKind::Identifier, Some(3), (0, 6), (0, 7), "f"),            // 4
        node(NodeKind::Other, Some(3), (0, 7), (0, 9), ""),                  // 5 parameter list
        node(NodeKind::Other, Some(1), (0, 10), (0, 23), ""),                // 6 body
        node(NodeKind::ReturnStatement, Some(6), (0, 12), (0, 21), ""),      // 7
        node(NodeKind::Other, Some(7), (0, 19), (0, 20), "1"),               // 8 literal
        node(NodeKind::Other, Some(0), (1, 0), (1, 17), ""),                 // 9
        node(NodeKind::Other, Some(9), (1, 0), (1, 4), "void"),              // 10
        node(NodeKind::FunctionDeclarator, Some(9), (1, 5), (1, 8), ""),     // 11
        node(NodeKind::Identifier, Some(11), (1, 5), (1, 6), "a"),           // 12
        node(NodeKind::Other, Some(11), (1, 6), (1, 8), ""),                 // 13
        node(NodeKind::Other, Some(9), (1, 9), (1, 17), ""),                 // 14 body
        node(NodeKind::Other, Some(14), (1, 11), (1, 15), ""),               // 15 statement
        node(NodeKind::CallExpression, Some(15), (1, 11), (1, 14), ""),      // 16
        node(NodeKind::Identifier, Some(16), (1, 11), (1, 12), "f"),         // 17
        node(NodeKind::ArgumentList, Some(16), (1, 12), (1, 14), ""),        // 18
        node(NodeKind::Other, Some(0), (2, 0), (2, 17), ""),                 // 19
        node(NodeKind::Other, Some(19), (2, 0), (2, 4), "void"),             // 20
        node(NodeKind::FunctionDeclarator, Some(19), (2, 5), (2, 8), ""),    // 21
        node(NodeKind::Identifier, Some(21), (2, 5), (2, 6), "b"),           // 22
        node(NodeKind::Other, Some(21), (2, 6), (2, 8), ""),                 // 23
        node(NodeKind::Other, Some(19), (2, 9), (2, 17), ""),                // 24 body
        node(NodeKind::Other, Some(24), (2, 11), (2, 15), ""),               // 25 statement
        node(NodeKind::CallExpression, Some(25), (2, 11), (2, 14), ""),      // 26
        node(NodeKind::Identifier, Some(26), (2, 11), (2, 12), "f"),         // 27
        node(NodeKind::ArgumentList, Some(26), (2, 12), (2, 14), ""),        // 28
    ]
}

fn calls_ctx() -> ParserContext {
    ParserContext::new(calls_source(), calls_tree()).unwrap()
}

const PATH: &str = "/proj/shader.glsl";

#[test]
fn definition_found_from_call_site() {
    let ctx = shade_ctx();
    let locs = ctx.find_definitions(PATH, pos(5, 11)).unwrap().unwrap();
    assert_eq!(locs.len(), 1);
    // the span of the whole declarator `shade(vec3 n)`
    assert_eq!(locs[0].range, rng((0, 5), (0, 18)));
    assert_eq!(locs[0].uri, "file:///proj/shader.glsl");
}

#[test]
fn references_found_from_declarator() {
    let ctx = shade_ctx();
    let locs = ctx.find_references(PATH, pos(0, 7)).unwrap().unwrap();
    assert_eq!(locs.len(), 1);
    // the span of the whole call `shade(normal)`
    assert_eq!(locs[0].range, rng((5, 11), (5, 24)));
    assert_eq!(locs[0].uri, "file:///proj/shader.glsl");
}

// The `c` of `return c;` climbs to the enclosing body and resolves to the
// init declarator `c = n` of its declaration, and to nothing else.
#[test]
fn return_site_resolves_to_init_declarator() {
    let ctx = shade_ctx();
    let locs = ctx.find_definitions(PATH, pos(2, 9)).unwrap().unwrap();
    assert_eq!(locs.len(), 1);
    assert_eq!(locs[0].range, rng((1, 7), (1, 12)));
}

// An argument never declared anywhere: the climb passes every enclosing
// scope up to file scope and ends with an empty result, not an error.
#[test]
fn climb_over_undeclared_name_is_empty() {
    let ctx = shade_ctx();
    let locs = ctx.find_definitions(PATH, pos(5, 17)).unwrap().unwrap();
    assert_eq!(locs.len(), 0);
}

#[test]
fn whitespace_cursor_yields_none() {
    let ctx = shade_ctx();
    assert_eq!(ctx.find_definitions(PATH, pos(0, 4)).unwrap(), None);
    assert_eq!(ctx.find_references(PATH, pos(0, 4)).unwrap(), None);
}

#[test]
fn keyword_cursor_yields_none() {
    let ctx = shade_ctx();
    assert_eq!(ctx.find_definitions(PATH, pos(2, 2)).unwrap(), None);
    assert_eq!(ctx.find_references(PATH, pos(2, 2)).unwrap(), None);
}

#[test]
fn punctuation_cursor_yields_none() {
    let ctx = shade_ctx();
    assert_eq!(ctx.find_definitions(PATH, pos(1, 9)).unwrap(), None);
    assert_eq!(ctx.find_references(PATH, pos(1, 9)).unwrap(), None);
}

#[test]
fn boundary_cursors_resolve_to_the_same_node() {
    let ctx = shade_ctx();
    // before the `s` of `shade`, and just after its `e`
    assert_eq!(ctx.find_node_at_point(pos(0, 5)), Some(4));
    assert_eq!(ctx.find_node_at_point(pos(0, 10)), Some(4));
}

#[test]
fn references_cover_exactly_the_two_call_sites() {
    let ctx = calls_ctx();
    let locs = ctx.find_references(PATH, pos(0, 6)).unwrap().unwrap();
    assert_eq!(locs.len(), 2);
    let c1 = rng((1, 11), (1, 14));
    let c2 = rng((2, 11), (2, 14));
    assert!(locs.iter().any(|l| l.range == c1));
    assert!(locs.iter().any(|l| l.range == c2));
}

#[test]
fn definitions_from_either_call_site_agree() {
    let ctx = calls_ctx();
    let def = rng((0, 6), (0, 9));
    let from_first = ctx.find_definitions(PATH, pos(1, 11)).unwrap().unwrap();
    let from_second = ctx.find_definitions(PATH, pos(2, 11)).unwrap().unwrap();
    assert_eq!(from_first.len(), 1);
    assert_eq!(from_second.len(), 1);
    assert_eq!(from_first[0].range, def);
    assert_eq!(from_second[0].range, def);
}

#[test]
fn relative_path_is_a_uri_error_only_when_there_are_results() {
    let ctx = calls_ctx();
    let r = ctx.find_definitions("shader.glsl", pos(1, 11));
    assert_eq!(r.err(), Some(NavError::UriConstruction));
    // nothing to report: no URI is built, no error either
    assert_eq!(ctx.find_definitions("shader.glsl", pos(0, 10)).unwrap(), None);
}
