//! One file snapshot: the source text, its syntax tree and its position
//! map, plus the navigation entry points. A located node's kind and its
//! parent's kind pick the search strategy; the chosen search reports the
//! spans of the matched declarators or call expressions, which are turned
//! into locations under the file's URI.

use vstd::prelude::*;

use crate::linemap::{lemma_line_starts_props, offset_of, LineMap};
use crate::model::{
    is_ascii_alpha, is_ascii_alpha_exec, pos_le, pos_le_exec, spans_cols, spans_cols_exec,
    Location, NavError, NodeKind, Position, Range, SyntaxNode,
};
use crate::search::{
    climb_ranges, climb_search, match_ranges, run_query, tree_wf, SearchKind,
};
use crate::uri::{uri_for_path, uri_of};

verus! {

/// The innermost node among the first `n` whose span covers columns
/// `[c0, c1)` of `row`: in a preorder arena a node stands before its
/// descendants, so the covering node with the highest index is the deepest.
pub open spec fn innermost_spanning_below(
    nodes: Seq<SyntaxNode>,
    row: int,
    c0: int,
    c1: int,
    n: int,
) -> Option<int>
    decreases n,
{
    if n <= 0 {
        Option::None
    } else if spans_cols(nodes[n - 1], row, c0, c1) {
        Option::Some(n - 1)
    } else {
        innermost_spanning_below(nodes, row, c0, c1, n - 1)
    }
}

/// The innermost node of the whole arena covering columns `[c0, c1)` of
/// `row`, if any node does.
pub open spec fn innermost_spanning(nodes: Seq<SyntaxNode>, row: int, c0: int, c1: int) -> Option<
    int,
> {
    innermost_spanning_below(nodes, row, c0, c1, nodes.len() as int)
}

/// The node under the cursor. The byte at the cursor's offset decides the
/// side that holds the identifier: on a letter the cursor sits before or
/// inside one, so the column to its right is queried; on anything else the
/// cursor is taken to sit just after an identifier's last character and the
/// column to its left is queried. A cursor outside the text, at its very
/// end, or looking behind from column 0 resolves to nothing.
pub open spec fn located_at(source: Seq<u8>, nodes: Seq<SyntaxNode>, pos: Position) -> Option<
    int,
> {
    match offset_of(source, pos) {
        Option::None => Option::None,
        Option::Some(o) => if o >= source.len() {
            Option::None
        } else if is_ascii_alpha(source[o]) {
            innermost_spanning(nodes, pos.line as int, pos.character as int, pos.character + 1)
        } else if pos.character == 0 {
            Option::None
        } else {
            innermost_spanning(nodes, pos.line as int, pos.character - 1, pos.character as int)
        },
    }
}

/// The definition decision table, applied to the located node and its
/// parent. Under a call expression the function-definition search runs over
/// the whole tree; an identifier under an argument list, field expression,
/// binary expression, assignment expression or return statement — a use
/// site of a lexically scoped name — starts the scope climb at its parent;
/// every other shape — including a node with no parent — yields nothing.
pub open spec fn definition_ranges_spec(
    source: Seq<u8>,
    nodes: Seq<SyntaxNode>,
    pos: Position,
) -> Option<Seq<Range>> {
    match located_at(source, nodes, pos) {
        Option::None => Option::None,
        Option::Some(i) => match nodes[i].parent {
            Option::None => Option::None,
            Option::Some(p) => if nodes[p as int].kind is CallExpression {
                Option::Some(
                    match_ranges(nodes, SearchKind::FunctionDefinition, nodes[i].text@, 0),
                )
            } else if nodes[i].kind is Identifier && (nodes[p as int].kind is ArgumentList
                || nodes[p as int].kind is FieldExpression
                || nodes[p as int].kind is BinaryExpression
                || nodes[p as int].kind is AssignmentExpression
                || nodes[p as int].kind is ReturnStatement) {
                Option::Some(climb_ranges(nodes, nodes[i].text@, p as int))
            } else {
                Option::None
            },
        },
    }
}

/// The reference decision table: only a node directly under a function
/// declarator has references, found by the call-site search over the whole
/// tree.
pub open spec fn reference_ranges_spec(
    source: Seq<u8>,
    nodes: Seq<SyntaxNode>,
    pos: Position,
) -> Option<Seq<Range>> {
    match located_at(source, nodes, pos) {
        Option::None => Option::None,
        Option::Some(i) => match nodes[i].parent {
            Option::None => Option::None,
            Option::Some(p) => if nodes[p as int].kind is FunctionDeclarator {
                Option::Some(
                    match_ranges(nodes, SearchKind::FunctionReference, nodes[i].text@, 0),
                )
            } else {
                Option::None
            },
        },
    }
}

/// Attaches one URI to every span, in order: the verified step that follows
/// the outside URI conversion, exact for every value that conversion may
/// hand back.
pub fn make_locations(uri: &String, ranges: &Vec<Range>) -> (r: Vec<Location>)
    ensures
        r@.len() == ranges@.len(),
        forall|j: int| 0 <= j < ranges@.len() ==> (#[trigger] r@[j].range) == ranges@[j],
        forall|j: int| 0 <= j < ranges@.len() ==> (#[trigger] r@[j].uri)@ == uri@,
{
    let mut out: Vec<Location> = Vec::new();
    let mut i: usize = 0;
    while i < ranges.len()
        invariant
            i <= ranges@.len(),
            out@.len() == i,
            forall|j: int| 0 <= j < i ==> (#[trigger] out@[j].range) == ranges@[j],
            forall|j: int| 0 <= j < i ==> (#[trigger] out@[j].uri)@ == uri@,
        decreases ranges@.len() - i,
    {
        out.push(Location { uri: uri.clone(), range: ranges[i] });
        i = i + 1;
    }
    out
}

/// One parsed file snapshot: source text, syntax-tree arena and position
/// map, immutable for the lifetime of the context.
pub struct ParserContext {
    source: Vec<u8>,
    nodes: Vec<SyntaxNode>,
    linemap: LineMap,
}

impl ParserContext {
    /// The node arena, as mathematical data.
    pub closed spec fn nodes_spec(self) -> Seq<SyntaxNode> {
        self.nodes@
    }

    /// The source bytes.
    pub closed spec fn source_spec(self) -> Seq<u8> {
        self.source@
    }

    /// A well-formed context: the arena is a tree, the position map belongs
    /// to the source, and the source is small enough for 32-bit columns.
    pub closed spec fn wf(self) -> bool {
        &&& tree_wf(self.nodes@)
        &&& self.linemap.wf(self.source@)
        &&& self.source@.len() < 0xFFFF_FFFF
    }

    /// Builds a context from one file's text and its node arena, checking
    /// that the arena is a well-formed tree and building the position map.
    pub fn new(source: Vec<u8>, nodes: Vec<SyntaxNode>) -> (r: Result<ParserContext, NavError>)
        ensures
            match r {
                Result::Ok(ctx) => {
                    &&& ctx.wf()
                    &&& ctx.source_spec() == source@
                    &&& ctx.nodes_spec() == nodes@
                    &&& tree_wf(nodes@)
                    &&& source@.len() < 0xFFFF_FFFF
                },
                Result::Err(e) => (e == NavError::SourceTooLarge && source@.len() >= 0xFFFF_FFFF)
                    || (e == NavError::InvalidTree && source@.len() < 0xFFFF_FFFF && !tree_wf(
                    nodes@,
                )),
            },
    {
        if source.len() >= 0xFFFF_FFFF {
            return Result::Err(NavError::SourceTooLarge);
        }
        if nodes.len() == 0 {
            return Result::Err(NavError::InvalidTree);
        }
        match nodes[0].parent {
            Option::Some(_) => {
                return Result::Err(NavError::InvalidTree);
            },
            Option::None => {},
        }
        if !pos_le_exec(nodes[0].start, nodes[0].end) {
            proof {
                assert(!tree_wf(nodes@)) by {
                    if tree_wf(nodes@) {
                        assert(pos_le(nodes@[0].start, nodes@[0].end));
                    }
                }
            }
            return Result::Err(NavError::InvalidTree);
        }
        let mut i: usize = 1;
        while i < nodes.len()
            invariant
                1 <= i <= nodes@.len(),
                source@.len() < 0xFFFF_FFFF,
                nodes@.len() > 0,
                nodes@[0].parent is None,
                forall|j: int|
                    1 <= j < i ==> ((#[trigger] nodes@[j].parent) matches Some(p) && p < j),
                forall|j: int|
                    0 <= j < i ==> pos_le((#[trigger] nodes@[j]).start, nodes@[j].end),
            decreases nodes@.len() - i,
        {
            match nodes[i].parent {
                Option::None => {
                    proof {
                        assert(!tree_wf(nodes@)) by {
                            if tree_wf(nodes@) {
                                assert((nodes@[i as int].parent) matches Some(p) && p < i as int);
                            }
                        }
                    }
                    return Result::Err(NavError::InvalidTree);
                },
                Option::Some(p) => {
                    if p >= i {
                        proof {
                            assert(!tree_wf(nodes@)) by {
                                if tree_wf(nodes@) {
                                    assert((nodes@[i as int].parent) matches Some(q) && q
                                        < i as int);
                                }
                            }
                        }
                        return Result::Err(NavError::InvalidTree);
                    }
                },
            }
            if !pos_le_exec(nodes[i].start, nodes[i].end) {
                proof {
                    assert(!tree_wf(nodes@)) by {
                        if tree_wf(nodes@) {
                            assert(pos_le(nodes@[i as int].start, nodes@[i as int].end));
                        }
                    }
                }
                return Result::Err(NavError::InvalidTree);
            }
            i = i + 1;
        }
        let linemap = LineMap::new(&source);
        Result::Ok(ParserContext { source, nodes, linemap })
    }

    /// Resolves the smallest named node under (or, at a boundary, just
    /// before) the cursor, as the index of that node in the arena.
    pub fn find_node_at_point(&self, pos: Position) -> (r: Option<usize>)
        requires
            self.wf(),
        ensures
            match r {
                Option::None => located_at(self.source_spec(), self.nodes_spec(), pos) is None,
                Option::Some(i) => located_at(self.source_spec(), self.nodes_spec(), pos) == Some(
                    i as int,
                ) && i < self.nodes_spec().len(),
            },
    {
        let off = match self.linemap.offset_for_position(&self.source, pos) {
            Option::None => {
                return Option::None;
            },
            Option::Some(o) => o,
        };
        if off >= self.source.len() {
            return Option::None;
        }
        if is_ascii_alpha_exec(self.source[off]) {
            proof {
                lemma_line_starts_props(self.source@);
                assert(pos.character < 0xFFFF_FFFFu32);
            }
            self.innermost(pos.line, pos.character, pos.character + 1)
        } else if pos.character == 0 {
            Option::None
        } else {
            self.innermost(pos.line, pos.character - 1, pos.character)
        }
    }

    /// Scans the arena from its highest index down for the first node that
    /// covers the queried columns: the innermost covering node, in preorder.
    fn innermost(&self, row: u32, c0: u32, c1: u32) -> (r: Option<usize>)
        ensures
            match r {
                Option::None => innermost_spanning(
                    self.nodes@,
                    row as int,
                    c0 as int,
                    c1 as int,
                ) is None,
                Option::Some(i) => innermost_spanning(self.nodes@, row as int, c0 as int, c1 as int)
                    == Some(i as int) && i < self.nodes@.len(),
            },
    {
        let mut n = self.nodes.len();
        while n > 0
            invariant
                n <= self.nodes@.len(),
                innermost_spanning(self.nodes@, row as int, c0 as int, c1 as int)
                    == innermost_spanning_below(
                    self.nodes@,
                    row as int,
                    c0 as int,
                    c1 as int,
                    n as int,
                ),
            decreases n,
        {
            let idx = n - 1;
            if spans_cols_exec(&self.nodes[idx], row, c0, c1) {
                return Option::Some(idx);
            }
            n = n - 1;
        }
        Option::None
    }

    /// The global strategy: runs pattern `k` for `name` over the whole tree.
    pub fn simple_global_search(&self, k: SearchKind, name: &Vec<u8>) -> (r: Vec<Range>)
        requires
            self.wf(),
        ensures
            r@ == match_ranges(self.nodes_spec(), k, name@, 0),
    {
        run_query(&self.nodes, k, name, 0)
    }

    /// The scoped strategy: climbs from the use-site node's parent toward
    /// the root and stops at the first enclosing subtree that declares the
    /// node's text.
    pub fn tree_climbing_search(&self, start: usize) -> (r: Vec<Range>)
        requires
            self.wf(),
            start < self.nodes_spec().len(),
        ensures
            r@ == match self.nodes_spec()[start as int].parent {
                Option::None => Seq::<Range>::empty(),
                Option::Some(p) => climb_ranges(
                    self.nodes_spec(),
                    self.nodes_spec()[start as int].text@,
                    p as int,
                ),
            },
    {
        match self.nodes[start].parent {
            Option::None => Vec::new(),
            Option::Some(p) => climb_search(&self.nodes, &self.nodes[start].text, p),
        }
    }

    /// The spans of the definitions of the symbol under the cursor: nothing
    /// when the cursor is on no navigable symbol, otherwise exactly what the
    /// strategy picked by the decision table reports.
    pub fn definition_ranges(&self, pos: Position) -> (r: Option<Vec<Range>>)
        requires
            self.wf(),
        ensures
            match r {
                Option::None => definition_ranges_spec(
                    self.source_spec(),
                    self.nodes_spec(),
                    pos,
                ) is None,
                Option::Some(v) => definition_ranges_spec(self.source_spec(), self.nodes_spec(), pos)
                    == Some(v@),
            },
    {
        let i = match self.find_node_at_point(pos) {
            Option::None => {
                return Option::None;
            },
            Option::Some(i) => i,
        };
        let p = match self.nodes[i].parent {
            Option::None => {
                return Option::None;
            },
            Option::Some(p) => p,
        };
        if matches!(self.nodes[p].kind, NodeKind::CallExpression) {
            Option::Some(
                self.simple_global_search(SearchKind::FunctionDefinition, &self.nodes[i].text),
            )
        } else if matches!(self.nodes[i].kind, NodeKind::Identifier) && matches!(
            self.nodes[p].kind,
            NodeKind::ArgumentList | NodeKind::FieldExpression | NodeKind::BinaryExpression
            | NodeKind::AssignmentExpression | NodeKind::ReturnStatement,
        ) {
            Option::Some(self.tree_climbing_search(i))
        } else {
            Option::None
        }
    }

    /// The spans of the references to the function declared under the
    /// cursor: nothing unless the cursor's node stands directly under a
    /// function declarator.
    pub fn reference_ranges(&self, pos: Position) -> (r: Option<Vec<Range>>)
        requires
            self.wf(),
        ensures
            match r {
                Option::None => reference_ranges_spec(
                    self.source_spec(),
                    self.nodes_spec(),
                    pos,
                ) is None,
                Option::Some(v) => reference_ranges_spec(self.source_spec(), self.nodes_spec(), pos)
                    == Some(v@),
            },
    {
        let i = match self.find_node_at_point(pos) {
            Option::None => {
                return Option::None;
            },
            Option::Some(i) => i,
        };
        let p = match self.nodes[i].parent {
            Option::None => {
                return Option::None;
            },
            Option::Some(p) => p,
        };
        if matches!(self.nodes[p].kind, NodeKind::FunctionDeclarator) {
            Option::Some(
                self.simple_global_search(SearchKind::FunctionReference, &self.nodes[i].text),
            )
        } else {
            Option::None
        }
    }

    /// Definition lookup: `None` when the cursor is on no navigable symbol,
    /// otherwise the definitions' locations under the file's URI. The URI
    /// conversion is consulted only when there are spans to report; a path
    /// it rejects — one that is not absolute — is an error, never a panic.
    pub fn find_definitions(&self, path: &str, pos: Position) -> (r: Result<
        Option<Vec<Location>>,
        NavError,
    >)
        requires
            self.wf(),
        ensures
            ({
                let plan = definition_ranges_spec(self.source_spec(), self.nodes_spec(), pos);
                match r {
                    Result::Ok(opt) => match opt {
                        Option::None => plan is None,
                        Option::Some(locs) => {
                            &&& plan matches Some(rs)
                            &&& locs@.len() == rs.len()
                            &&& forall|j: int| 0 <= j < locs@.len() ==> locs@[j].range == rs[j]
                            &&& forall|j: int|
                                0 <= j < locs@.len() ==> (#[trigger] locs@[j].uri)@ == uri_of(path@)
                            &&& locs@.len() > 0 ==> path@.len() > 0 && path@[0] == '/'
                        },
                    },
                    Result::Err(e) => {
                        &&& e == NavError::UriConstruction
                        &&& plan matches Some(rs) && rs.len() > 0
                        &&& !(path@.len() > 0 && path@[0] == '/')
                    },
                }
            }),
    {
        let ranges = match self.definition_ranges(pos) {
            Option::None => {
                return Result::Ok(Option::None);
            },
            Option::Some(rs) => rs,
        };
        if ranges.len() == 0 {
            return Result::Ok(Option::Some(Vec::new()));
        }
        match uri_for_path(path) {
            Option::None => Result::Err(NavError::UriConstruction),
            Option::Some(uri) => Result::Ok(Option::Some(make_locations(&uri, &ranges))),
        }
    }

    /// Reference lookup: the same contract as definition lookup, for the
    /// reference direction.
    pub fn find_references(&self, path: &str, pos: Position) -> (r: Result<
        Option<Vec<Location>>,
        NavError,
    >)
        requires
            self.wf(),
        ensures
            ({
                let plan = reference_ranges_spec(self.source_spec(), self.nodes_spec(), pos);
                match r {
                    Result::Ok(opt) => match opt {
                        Option::None => plan is None,
                        Option::Some(locs) => {
                            &&& plan matches Some(rs)
                            &&& locs@.len() == rs.len()
                            &&& forall|j: int| 0 <= j < locs@.len() ==> locs@[j].range == rs[j]
                            &&& forall|j: int|
                                0 <= j < locs@.len() ==> (#[trigger] locs@[j].uri)@ == uri_of(path@)
                            &&& locs@.len() > 0 ==> path@.len() > 0 && path@[0] == '/'
                        },
                    },
                    Result::Err(e) => {
                        &&& e == NavError::UriConstruction
                        &&& plan matches Some(rs) && rs.len() > 0
                        &&& !(path@.len() > 0 && path@[0] == '/')
                    },
                }
            }),
    {
        let ranges = match self.reference_ranges(pos) {
            Option::None => {
                return Result::Ok(Option::None);
            },
            Option::Some(rs) => rs,
        };
        if ranges.len() == 0 {
            return Result::Ok(Option::Some(Vec::new()));
        }
        match uri_for_path(path) {
            Option::None => Result::Err(NavError::UriConstruction),
            Option::Some(uri) => Result::Ok(Option::Some(make_locations(&uri, &ranges))),
        }
    }
}

} // verus!
