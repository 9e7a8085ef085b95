//! The query engine and the two search strategies: a whole-tree structural
//! search with an exactly-matched identifier, and the ancestor-climbing,
//! scope-aware variant used for lexically scoped names.

use vstd::prelude::*;

use crate::model::{bytes_eq, pos_le, range_of, NodeKind, Range, SyntaxNode};

verus! {

/// Arena well-formedness: the tree is non-empty, node 0 is the root, every
/// later node points to an earlier parent, and every node's span ends at or
/// after its start. The arena is built in preorder, so ascending index
/// order is tree-traversal order.
pub open spec fn tree_wf(nodes: Seq<SyntaxNode>) -> bool {
    &&& nodes.len() > 0
    &&& nodes[0].parent is None
    &&& forall|i: int|
        1 <= i < nodes.len() ==> ((#[trigger] nodes[i].parent) matches Some(p) && p < i)
    &&& forall|i: int| 0 <= i < nodes.len() ==> pos_le((#[trigger] nodes[i]).start, nodes[i].end)
}

/// Node `i` lies in the subtree rooted at `r`: `r` is reachable from `i`
/// along parent links.
pub open spec fn in_subtree(nodes: Seq<SyntaxNode>, i: int, r: int) -> bool
    decreases i,
    when tree_wf(nodes) && 0 <= i < nodes.len()
{
    i == r || match nodes[i].parent {
        Option::None => false,
        Option::Some(p) => in_subtree(nodes, p as int, r),
    }
}

/// Which structural pattern a search runs. Each pattern matches an
/// identifier node by the kind of its parent.
#[derive(Clone, Copy, PartialEq, Eq, Structural, Debug)]
pub enum SearchKind {
    /// An identifier directly under a function declarator: a function's
    /// defining occurrence.
    FunctionDefinition,
    /// An identifier directly under a call expression: the callee name at a
    /// call site.
    FunctionReference,
    /// An identifier directly under an init declarator, a parameter
    /// declaration, or a plain declaration: a variable's or parameter's
    /// defining occurrence.
    VariableDefinition,
}

/// The parent kinds that make an identifier a match for `k`.
pub open spec fn parent_kind_matches(k: SearchKind, pk: NodeKind) -> bool {
    match k {
        SearchKind::FunctionDefinition => pk is FunctionDeclarator,
        SearchKind::FunctionReference => pk is CallExpression,
        SearchKind::VariableDefinition => pk is InitDeclarator || pk is ParameterDeclaration
            || pk is Declaration,
    }
}

/// Node `i` matches a search for `name` with pattern `k` in the subtree
/// rooted at `root`: an identifier whose text equals `name` exactly, whose
/// parent kind fits the pattern, lying under `root`.
pub open spec fn match_at(
    nodes: Seq<SyntaxNode>,
    k: SearchKind,
    name: Seq<u8>,
    root: int,
    i: int,
) -> bool {
    &&& 0 <= i < nodes.len()
    &&& nodes[i].kind is Identifier
    &&& nodes[i].text@ == name
    &&& nodes[i].parent matches Some(p) && parent_kind_matches(k, nodes[p as int].kind)
    &&& in_subtree(nodes, i, root)
}

/// The matching indices below `n`, in ascending (traversal) order.
pub open spec fn match_indices_below(
    nodes: Seq<SyntaxNode>,
    k: SearchKind,
    name: Seq<u8>,
    root: int,
    n: int,
) -> Seq<int>
    decreases n,
{
    if n <= 0 {
        Seq::empty()
    } else if match_at(nodes, k, name, root, n - 1) {
        match_indices_below(nodes, k, name, root, n - 1).push(n - 1)
    } else {
        match_indices_below(nodes, k, name, root, n - 1)
    }
}

/// Every match of the search, in traversal order.
pub open spec fn match_indices(
    nodes: Seq<SyntaxNode>,
    k: SearchKind,
    name: Seq<u8>,
    root: int,
) -> Seq<int> {
    match_indices_below(nodes, k, name, root, nodes.len() as int)
}

/// The span a match is reported at: the span of the construct that binds
/// the matched identifier — the declarator for a definition, the call
/// expression for a reference — that is, of the identifier's parent. (Every
/// match has a parent; for a parentless node the node's own span stands in,
/// to keep the function total.)
pub open spec fn reported_range(nodes: Seq<SyntaxNode>, i: int) -> Range {
    match nodes[i].parent {
        Option::None => range_of(nodes[i]),
        Option::Some(p) => range_of(nodes[p as int]),
    }
}

/// The reported spans of the matches, in the shape searches hand out.
pub open spec fn match_ranges(
    nodes: Seq<SyntaxNode>,
    k: SearchKind,
    name: Seq<u8>,
    root: int,
) -> Seq<Range> {
    match_indices(nodes, k, name, root).map_values(|i: int| reported_range(nodes, i))
}

/// The scope-climbing search, started at ancestor `a`: the variable
/// definitions matched in the subtree of the nearest enclosing ancestor that
/// has any, or empty once the climb has passed the root without a match.
pub open spec fn climb_from(nodes: Seq<SyntaxNode>, name: Seq<u8>, a: int) -> Seq<int>
    decreases a,
    when tree_wf(nodes) && 0 <= a < nodes.len()
{
    if match_indices(nodes, SearchKind::VariableDefinition, name, a).len() > 0 {
        match_indices(nodes, SearchKind::VariableDefinition, name, a)
    } else {
        match nodes[a].parent {
            Option::None => Seq::empty(),
            Option::Some(p) => climb_from(nodes, name, p as int),
        }
    }
}

/// The reported spans of the scope-climbing search's result.
pub open spec fn climb_ranges(nodes: Seq<SyntaxNode>, name: Seq<u8>, a: int) -> Seq<Range> {
    climb_from(nodes, name, a).map_values(|i: int| reported_range(nodes, i))
}

/// Decides subtree membership by climbing the parent links from `i`.
pub fn is_in_subtree(nodes: &Vec<SyntaxNode>, i: usize, r: usize) -> (b: bool)
    requires
        tree_wf(nodes@),
        i < nodes@.len(),
        r < nodes@.len(),
    ensures
        b == in_subtree(nodes@, i as int, r as int),
{
    let mut j = i;
    loop
        invariant
            tree_wf(nodes@),
            j < nodes@.len(),
            r < nodes@.len(),
            in_subtree(nodes@, j as int, r as int) == in_subtree(nodes@, i as int, r as int),
        decreases j,
    {
        if j == r {
            return true;
        }
        match nodes[j].parent {
            Option::None => {
                return false;
            },
            Option::Some(p) => {
                j = p;
            },
        }
    }
}

/// The query engine: runs pattern `k` with the exactly-matched `name` over
/// the subtree rooted at `root`, reporting the span of every match's parent
/// construct — declarator or call expression — in traversal order.
pub fn run_query(nodes: &Vec<SyntaxNode>, k: SearchKind, name: &Vec<u8>, root: usize) -> (r: Vec<
    Range,
>)
    requires
        tree_wf(nodes@),
        root < nodes@.len(),
    ensures
        r@ == match_ranges(nodes@, k, name@, root as int),
{
    let mut out: Vec<Range> = Vec::new();
    let mut n: usize = 0;
    while n < nodes.len()
        invariant
            tree_wf(nodes@),
            root < nodes@.len(),
            n <= nodes@.len(),
            out@ == match_indices_below(nodes@, k, name@, root as int, n as int).map_values(
                |i: int| reported_range(nodes@, i),
            ),
        decreases nodes@.len() - n,
    {
        let node = &nodes[n];
        // the parent whose span is reported, when the node matches
        let mut hit: Option<usize> = Option::None;
        if matches!(node.kind, NodeKind::Identifier) {
            if bytes_eq(&node.text, name) {
                match node.parent {
                    Option::Some(p) => {
                        let pk_ok = match k {
                            SearchKind::FunctionDefinition => matches!(
                                nodes[p].kind,
                                NodeKind::FunctionDeclarator
                            ),
                            SearchKind::FunctionReference => matches!(
                                nodes[p].kind,
                                NodeKind::CallExpression
                            ),
                            SearchKind::VariableDefinition => matches!(
                                nodes[p].kind,
                                NodeKind::InitDeclarator | NodeKind::ParameterDeclaration
                                | NodeKind::Declaration
                            ),
                        };
                        if pk_ok && is_in_subtree(nodes, n, root) {
                            hit = Option::Some(p);
                        }
                    },
                    Option::None => {},
                }
            }
        }
        proof {
            assert((hit is Some) == match_at(nodes@, k, name@, root as int, n as int));
        }
        match hit {
            Option::Some(p) => {
                out.push(Range { start: nodes[p].start, end: nodes[p].end });
            },
            Option::None => {},
        }
        proof {
            let prev = match_indices_below(nodes@, k, name@, root as int, n as int);
            let cur = match_indices_below(nodes@, k, name@, root as int, n as int + 1);
            let f = |i: int| reported_range(nodes@, i);
            if hit is Some {
                assert(cur == prev.push(n as int));
                assert(cur.map_values(f) =~= prev.map_values(f).push(
                    reported_range(nodes@, n as int),
                ));
            }
        }
        n = n + 1;
    }
    out
}

/// The scope-climbing strategy: from ancestor `start` upward, runs the
/// variable-definition query over each enclosing subtree in turn and stops
/// at the first one that yields any match.
pub fn climb_search(nodes: &Vec<SyntaxNode>, name: &Vec<u8>, start: usize) -> (r: Vec<Range>)
    requires
        tree_wf(nodes@),
        start < nodes@.len(),
    ensures
        r@ == climb_ranges(nodes@, name@, start as int),
{
    let mut a = start;
    loop
        invariant
            tree_wf(nodes@),
            a < nodes@.len(),
            climb_ranges(nodes@, name@, a as int) == climb_ranges(nodes@, name@, start as int),
        decreases a,
    {
        let found = run_query(nodes, SearchKind::VariableDefinition, name, a);
        if found.len() > 0 {
            proof {
                let ms = match_indices(nodes@, SearchKind::VariableDefinition, name@, a as int);
                assert(found@ == ms.map_values(|i: int| reported_range(nodes@, i)));
                assert(ms.len() > 0);
            }
            return found;
        }
        proof {
            let ms = match_indices(nodes@, SearchKind::VariableDefinition, name@, a as int);
            assert(ms.map_values(|i: int| reported_range(nodes@, i)).len() == ms.len());
        }
        match nodes[a].parent {
            Option::None => {
                return Vec::new();
            },
            Option::Some(p) => {
                a = p;
            },
        }
    }
}

} // verus!
