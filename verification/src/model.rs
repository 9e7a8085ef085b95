//! The data model: syntax-tree nodes held as plain values, positions, spans
//! and navigation results.

use vstd::prelude::*;

verus! {

/// The node kinds that navigation distinguishes. Every other kind of the
/// grammar plays no role in the decision table and is mapped to `Other` by
/// whoever builds the tree.
#[derive(Clone, Copy, PartialEq, Eq, Structural, Debug)]
pub enum NodeKind {
    Identifier,
    CallExpression,
    FunctionDeclarator,
    ParameterDeclaration,
    InitDeclarator,
    Declaration,
    ArgumentList,
    FieldExpression,
    BinaryExpression,
    AssignmentExpression,
    ReturnStatement,
    Other,
}

/// A zero-based (line, character) position, as editors supply it.
#[derive(Clone, Copy, PartialEq, Eq, Structural, Debug)]
pub struct Position {
    pub line: u32,
    pub character: u32,
}

/// A span between two positions, in document order.
#[derive(Clone, Copy, PartialEq, Eq, Structural, Debug)]
pub struct Range {
    pub start: Position,
    pub end: Position,
}

/// A navigation result: a file identifier plus the span of the matched node.
#[derive(Clone, PartialEq, Eq, Debug)]
pub struct Location {
    pub uri: String,
    pub range: Range,
}

/// One node of the syntax tree, as plain values: its kind, the arena index
/// of its parent, its span, and its source text. Nodes live in an arena in
/// preorder, so a parent always stands before its children.
#[derive(Clone, Debug)]
pub struct SyntaxNode {
    pub kind: NodeKind,
    pub parent: Option<usize>,
    pub start: Position,
    pub end: Position,
    pub text: Vec<u8>,
}

/// The errors of the navigation core. Reading the file and parsing it happen
/// outside; what can still fail here is the shape of the data handed in and
/// the conversion of a path into a URI.
#[derive(Clone, Copy, PartialEq, Eq, Structural, Debug)]
pub enum NavError {
    /// The node arena is not a well-formed tree: it is empty, its first node
    /// is no root, some node does not point to an earlier parent, or some
    /// node's span ends before it starts.
    InvalidTree,
    /// The source text is too large for cursor arithmetic on 32-bit
    /// line/character positions.
    SourceTooLarge,
    /// The file path could not be turned into a URI.
    UriConstruction,
}

/// Document order on positions: `a` lies at or before `b`.
pub open spec fn pos_le(a: Position, b: Position) -> bool {
    a.line < b.line || (a.line == b.line && a.character <= b.character)
}

/// Decides `pos_le` in executable code.
pub fn pos_le_exec(a: Position, b: Position) -> (r: bool)
    ensures
        r == pos_le(a, b),
{
    a.line < b.line || (a.line == b.line && a.character <= b.character)
}

/// The span of a node, as a `Range`.
pub open spec fn range_of(n: SyntaxNode) -> Range {
    Range { start: n.start, end: n.end }
}

/// The node covers columns `c0` (inclusive) to `c1` on row `row`.
pub open spec fn spans_cols(n: SyntaxNode, row: int, c0: int, c1: int) -> bool {
    &&& n.start.line < row || (n.start.line == row && n.start.character <= c0)
    &&& row < n.end.line || (row == n.end.line && c1 <= n.end.character)
}

/// Decides `spans_cols` in executable code.
pub fn spans_cols_exec(n: &SyntaxNode, row: u32, c0: u32, c1: u32) -> (r: bool)
    ensures
        r == spans_cols(*n, row as int, c0 as int, c1 as int),
{
    (n.start.line < row || (n.start.line == row && n.start.character <= c0)) && (row < n.end.line
        || (row == n.end.line && c1 <= n.end.character))
}

/// An ASCII letter, the shape of bytes that can begin or continue an
/// identifier for the cursor-adjustment heuristic.
pub open spec fn is_ascii_alpha(b: u8) -> bool {
    (65 <= b && b <= 90) || (97 <= b && b <= 122)
}

/// Decides `is_ascii_alpha` in executable code.
pub fn is_ascii_alpha_exec(b: u8) -> (r: bool)
    ensures
        r == is_ascii_alpha(b),
{
    (65 <= b && b <= 90) || (97 <= b && b <= 122)
}

/// Byte-wise equality of two texts: the exact-match anchor of every search.
pub fn bytes_eq(a: &Vec<u8>, b: &Vec<u8>) -> (r: bool)
    ensures
        r == (a@ == b@),
{
    if a.len() != b.len() {
        return false;
    }
    let mut i: usize = 0;
    while i < a.len()
        invariant
            i <= a.len(),
            a@.len() == b@.len(),
            forall|j: int| 0 <= j < i ==> a@[j] == b@[j],
        decreases a.len() - i,
    {
        if a[i] != b[i] {
            return false;
        }
        i = i + 1;
    }
    proof {
        assert(a@ =~= b@);
    }
    true
}

} // verus!
