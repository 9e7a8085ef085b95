//! The guarantees of the searches, stated and proved: exact matching,
//! soundness and completeness of the structural search, definition/reference
//! symmetry, the shadowing rule of the scope climb, climb termination with
//! an empty result, and the boundary-cursor rule of the node locator.

use vstd::prelude::*;

use crate::context::{innermost_spanning, innermost_spanning_below, located_at};
use crate::linemap::offset_of;
use crate::model::{is_ascii_alpha, spans_cols, Position, SyntaxNode};
use crate::search::{
    climb_from, in_subtree, match_at, match_indices, match_indices_below, match_ranges,
    reported_range, tree_wf, SearchKind,
};

verus! {

proof fn lemma_match_indices_below_exact(
    nodes: Seq<SyntaxNode>,
    k: SearchKind,
    name: Seq<u8>,
    root: int,
    n: int,
)
    requires
        0 <= n <= nodes.len(),
    ensures
        forall|j: int|
            #[trigger] match_indices_below(nodes, k, name, root, n).contains(j) <==> (match_at(
                nodes,
                k,
                name,
                root,
                j,
            ) && j < n),
    decreases n,
{
    let cur = match_indices_below(nodes, k, name, root, n);
    if n > 0 {
        lemma_match_indices_below_exact(nodes, k, name, root, n - 1);
        let prev = match_indices_below(nodes, k, name, root, n - 1);
        assert forall|j: int| #[trigger] cur.contains(j) implies (match_at(nodes, k, name, root, j)
            && j < n) by {
            if match_at(nodes, k, name, root, n - 1) {
                assert(cur == prev.push(n - 1));
                let idx = choose|idx: int| 0 <= idx < cur.len() && cur[idx] == j;
                if idx < prev.len() {
                    assert(prev[idx] == j);
                    assert(prev.contains(j));
                } else {
                    assert(j == n - 1);
                }
            } else {
                assert(cur == prev);
                assert(prev.contains(j));
            }
        }
        assert forall|j: int| match_at(nodes, k, name, root, j) && j < n implies #[trigger] cur.contains(
            j,
        ) by {
            if j < n - 1 {
                assert(prev.contains(j));
                let idx = choose|idx: int| 0 <= idx < prev.len() && prev[idx] == j;
                if match_at(nodes, k, name, root, n - 1) {
                    assert(cur == prev.push(n - 1));
                    assert(cur[idx] == j);
                } else {
                    assert(cur == prev);
                }
            } else {
                assert(cur == prev.push(n - 1));
                assert(cur[prev.len() as int] == j);
            }
        }
    }
}

/// The structural search is sound and complete: it reports an index exactly
/// when that index holds an identifier whose text is the searched name,
/// whose parent kind fits the pattern, inside the searched subtree.
pub proof fn lemma_match_indices_exact(
    nodes: Seq<SyntaxNode>,
    k: SearchKind,
    name: Seq<u8>,
    root: int,
)
    ensures
        forall|j: int|
            #[trigger] match_indices(nodes, k, name, root).contains(j) <==> match_at(
                nodes,
                k,
                name,
                root,
                j,
            ),
{
    lemma_match_indices_below_exact(nodes, k, name, root, nodes.len() as int);
}

proof fn lemma_match_indices_below_ordered(
    nodes: Seq<SyntaxNode>,
    k: SearchKind,
    name: Seq<u8>,
    root: int,
    n: int,
)
    ensures
        forall|i: int|
            0 <= i < match_indices_below(nodes, k, name, root, n).len()
                ==> #[trigger] match_indices_below(nodes, k, name, root, n)[i] < n,
        forall|i1: int, i2: int|
            0 <= i1 < i2 < match_indices_below(nodes, k, name, root, n).len()
                ==> match_indices_below(nodes, k, name, root, n)[i1] < match_indices_below(
                nodes,
                k,
                name,
                root,
                n,
            )[i2],
    decreases n,
{
    if n > 0 {
        lemma_match_indices_below_ordered(nodes, k, name, root, n - 1);
        let prev = match_indices_below(nodes, k, name, root, n - 1);
        let cur = match_indices_below(nodes, k, name, root, n);
        if match_at(nodes, k, name, root, n - 1) {
            assert(cur == prev.push(n - 1));
            assert forall|i: int| 0 <= i < cur.len() implies #[trigger] cur[i] < n by {
                if i < prev.len() {
                    assert(cur[i] == prev[i]);
                }
            }
            assert forall|i1: int, i2: int| 0 <= i1 < i2 < cur.len() implies cur[i1] < cur[i2] by {
                assert(cur[i1] == prev[i1]);
                if i2 < prev.len() {
                    assert(cur[i2] == prev[i2]);
                }
            }
        }
    }
}

/// Results come in traversal order: the arena is laid out in preorder, and
/// the index sequence a search reports ascends strictly.
pub proof fn lemma_match_indices_ordered(
    nodes: Seq<SyntaxNode>,
    k: SearchKind,
    name: Seq<u8>,
    root: int,
)
    ensures
        forall|i1: int, i2: int|
            0 <= i1 < i2 < match_indices(nodes, k, name, root).len() ==> match_indices(
                nodes,
                k,
                name,
                root,
            )[i1] < match_indices(nodes, k, name, root)[i2],
{
    lemma_match_indices_below_ordered(nodes, k, name, root, nodes.len() as int);
}

/// Exact matching: a search for a name reports a node only if that node's
/// text equals the name byte for byte — an identifier that merely extends
/// or contains the searched name is never reported.
pub proof fn lemma_search_exact_match(
    nodes: Seq<SyntaxNode>,
    k: SearchKind,
    name: Seq<u8>,
    root: int,
    j: int,
)
    requires
        match_indices(nodes, k, name, root).contains(j),
    ensures
        0 <= j < nodes.len(),
        nodes[j].text@ == name,
{
    lemma_match_indices_exact(nodes, k, name, root);
}

/// A search with exactly one matching identifier reports exactly one
/// location: the span of that identifier's parent construct. This is the
/// definition half of definition/reference symmetry: a function declared by
/// a single declarator resolves, from any of its call sites, to that
/// declarator's span and to nothing else.
pub proof fn lemma_single_match_ranges(
    nodes: Seq<SyntaxNode>,
    k: SearchKind,
    name: Seq<u8>,
    root: int,
    i1: int,
)
    requires
        match_at(nodes, k, name, root, i1),
        forall|j: int| #[trigger] match_at(nodes, k, name, root, j) ==> j == i1,
    ensures
        match_indices(nodes, k, name, root) =~= seq![i1],
        match_ranges(nodes, k, name, root) =~= seq![reported_range(nodes, i1)],
{
    lemma_match_indices_exact(nodes, k, name, root);
    lemma_match_indices_ordered(nodes, k, name, root);
    let s = match_indices(nodes, k, name, root);
    assert(s.contains(i1));
    assert forall|x: int| 0 <= x < s.len() implies s[x] == i1 by {
        assert(s.contains(s[x]));
    }
    if s.len() > 1 {
        assert(s[0] == i1 && s[1] == i1);
        assert(false);
    }
    assert(s =~= seq![i1]);
    assert(match_ranges(nodes, k, name, root) =~= seq![reported_range(nodes, i1)]);
}

/// A search with exactly two matching identifiers reports exactly the spans
/// of their two parent constructs, each once, in traversal order. This is
/// the reference half of definition/reference symmetry: a function called
/// at exactly two sites has, as its references, exactly the two call
/// expressions covering those sites — as a set, without duplicates.
pub proof fn lemma_two_match_ranges(
    nodes: Seq<SyntaxNode>,
    k: SearchKind,
    name: Seq<u8>,
    root: int,
    i1: int,
    i2: int,
)
    requires
        i1 < i2,
        match_at(nodes, k, name, root, i1),
        match_at(nodes, k, name, root, i2),
        forall|j: int| #[trigger] match_at(nodes, k, name, root, j) ==> j == i1 || j == i2,
    ensures
        match_indices(nodes, k, name, root) =~= seq![i1, i2],
        match_ranges(nodes, k, name, root) =~= seq![
            reported_range(nodes, i1),
            reported_range(nodes, i2),
        ],
{
    lemma_match_indices_exact(nodes, k, name, root);
    lemma_match_indices_ordered(nodes, k, name, root);
    let s = match_indices(nodes, k, name, root);
    assert(s.contains(i1));
    assert(s.contains(i2));
    let a1 = choose|x: int| 0 <= x < s.len() && s[x] == i1;
    let a2 = choose|x: int| 0 <= x < s.len() && s[x] == i2;
    assert(a1 != a2);
    assert forall|x: int| 0 <= x < s.len() implies s[x] == i1 || s[x] == i2 by {
        assert(s.contains(s[x]));
    }
    if s.len() > 2 {
        assert(s[0] < s[1] && s[1] < s[2]);
        assert(false);
    }
    assert(s.len() == 2);
    assert(s[0] < s[1]);
    assert(s[0] == i1 && s[1] == i2);
    assert(s =~= seq![i1, i2]);
    assert(match_ranges(nodes, k, name, root) =~= seq![
        reported_range(nodes, i1),
        reported_range(nodes, i2),
    ]);
}

/// Parent links only descend: a subtree's root index never exceeds the
/// index of a node inside it.
proof fn lemma_in_subtree_le(nodes: Seq<SyntaxNode>, i: int, r: int)
    requires
        tree_wf(nodes),
        0 <= i < nodes.len(),
        in_subtree(nodes, i, r),
    ensures
        r <= i,
    decreases i,
{
    if i != r {
        if nodes[i].parent is Some {
            let p = nodes[i].parent->Some_0 as int;
            assert(in_subtree(nodes, p, r));
            lemma_in_subtree_le(nodes, p, r);
        }
    }
}

proof fn lemma_reaches_root(nodes: Seq<SyntaxNode>, i: int)
    requires
        tree_wf(nodes),
        0 <= i < nodes.len(),
    ensures
        in_subtree(nodes, i, 0),
    decreases i,
{
    if i != 0 {
        let p = nodes[i].parent->Some_0 as int;
        lemma_reaches_root(nodes, p);
    }
}

/// Every node of a well-formed tree lies in the subtree of the root, so a
/// search rooted at node 0 is a whole-file search.
pub proof fn lemma_root_reaches_all(nodes: Seq<SyntaxNode>)
    requires
        tree_wf(nodes),
    ensures
        forall|i: int| 0 <= i < nodes.len() ==> in_subtree(nodes, i, 0),
{
    assert forall|i: int| 0 <= i < nodes.len() implies in_subtree(nodes, i, 0) by {
        lemma_reaches_root(nodes, i);
    }
}

/// Definition/reference symmetry: over the whole tree, the reference search
/// matches exactly the call-site identifiers bearing the searched name, and
/// the definition search matches exactly the declarator identifiers bearing
/// it. For a function declared once and called at two sites, the references
/// found from its declarator are those two call sites (their call
/// expressions' spans are what is reported) and the definition found from
/// either call site is that one declarator.
pub proof fn lemma_def_ref_symmetry(nodes: Seq<SyntaxNode>, name: Seq<u8>)
    requires
        tree_wf(nodes),
    ensures
        forall|j: int|
            #[trigger] match_indices(nodes, SearchKind::FunctionReference, name, 0).contains(j)
                <==> (0 <= j < nodes.len() && nodes[j].kind is Identifier && nodes[j].text@ == name
                && (nodes[j].parent matches Some(p) && nodes[p as int].kind is CallExpression)),
        forall|j: int|
            #[trigger] match_indices(nodes, SearchKind::FunctionDefinition, name, 0).contains(j)
                <==> (0 <= j < nodes.len() && nodes[j].kind is Identifier && nodes[j].text@ == name
                && (nodes[j].parent matches Some(p)
                && nodes[p as int].kind is FunctionDeclarator)),
{
    lemma_root_reaches_all(nodes);
    lemma_match_indices_exact(nodes, SearchKind::FunctionReference, name, 0);
    lemma_match_indices_exact(nodes, SearchKind::FunctionDefinition, name, 0);
}

/// Climb termination with an empty result: the climb from ancestor `a`
/// yields nothing exactly when no enclosing subtree up to the file scope —
/// `a`'s own included — declares the name. That the climb terminates at all
/// is the verifier's `decreases` check on `climb_from` itself.
pub proof fn lemma_climb_empty(nodes: Seq<SyntaxNode>, name: Seq<u8>, a: int)
    requires
        tree_wf(nodes),
        0 <= a < nodes.len(),
    ensures
        climb_from(nodes, name, a).len() == 0 <==> (forall|s: int|
            0 <= s < nodes.len() && in_subtree(nodes, a, s) ==> #[trigger] match_indices(
                nodes,
                SearchKind::VariableDefinition,
                name,
                s,
            ).len() == 0),
    decreases a,
{
    let ms = match_indices(nodes, SearchKind::VariableDefinition, name, a);
    if ms.len() > 0 {
        assert(in_subtree(nodes, a, a));
    } else {
        if nodes[a].parent is None {
            assert forall|s: int|
                0 <= s < nodes.len() && in_subtree(nodes, a, s) implies #[trigger] match_indices(
                nodes,
                SearchKind::VariableDefinition,
                name,
                s,
            ).len() == 0 by {
                assert(s == a);
            }
        } else {
            let p = nodes[a].parent->Some_0 as int;
            lemma_climb_empty(nodes, name, p);
            assert(climb_from(nodes, name, a) == climb_from(nodes, name, p));
            if climb_from(nodes, name, a).len() == 0 {
                assert forall|s: int|
                    0 <= s < nodes.len() && in_subtree(nodes, a, s) implies #[trigger] match_indices(
                    nodes,
                    SearchKind::VariableDefinition,
                    name,
                    s,
                ).len() == 0 by {
                    if s != a {
                        assert(in_subtree(nodes, p, s));
                    }
                }
            } else {
                let s = choose|s: int|
                    0 <= s < nodes.len() && in_subtree(nodes, p, s) && match_indices(
                        nodes,
                        SearchKind::VariableDefinition,
                        name,
                        s,
                    ).len() != 0;
                assert(in_subtree(nodes, a, s));
            }
        }
    }
}

/// The subtree at which the climb from `a` stops: `a` itself when its
/// subtree declares the name, otherwise its parent's stopping subtree; the
/// last ancestor when nothing declares the name anywhere on the way up.
pub open spec fn climb_scope(nodes: Seq<SyntaxNode>, name: Seq<u8>, a: int) -> int
    decreases a,
    when tree_wf(nodes) && 0 <= a < nodes.len()
{
    if match_indices(nodes, SearchKind::VariableDefinition, name, a).len() > 0 {
        a
    } else {
        match nodes[a].parent {
            Option::None => a,
            Option::Some(p) => climb_scope(nodes, name, p as int),
        }
    }
}

/// Shadowing: when the climb started at ancestor `a` finds anything, its
/// whole result is the match set of the nearest enclosing subtree that has
/// one — `climb_scope` — every strictly nearer ancestor has no match, and
/// every reported node lies inside that subtree. A declaration outside it,
/// in particular one in an outer scope, is never part of the result.
pub proof fn lemma_climb_shadowing(nodes: Seq<SyntaxNode>, name: Seq<u8>, a: int)
    requires
        tree_wf(nodes),
        0 <= a < nodes.len(),
    ensures
        0 <= climb_scope(nodes, name, a) <= a,
        in_subtree(nodes, a, climb_scope(nodes, name, a)),
        climb_from(nodes, name, a).len() != 0 ==> climb_from(nodes, name, a) == match_indices(
            nodes,
            SearchKind::VariableDefinition,
            name,
            climb_scope(nodes, name, a),
        ) && match_indices(
            nodes,
            SearchKind::VariableDefinition,
            name,
            climb_scope(nodes, name, a),
        ).len() != 0,
        forall|b: int|
            0 <= b < nodes.len() && in_subtree(nodes, a, b) && in_subtree(
                nodes,
                b,
                climb_scope(nodes, name, a),
            ) && b != climb_scope(nodes, name, a) ==> #[trigger] match_indices(
                nodes,
                SearchKind::VariableDefinition,
                name,
                b,
            ).len() == 0,
        forall|j: int|
            #[trigger] climb_from(nodes, name, a).contains(j) ==> in_subtree(
                nodes,
                j,
                climb_scope(nodes, name, a),
            ),
    decreases a,
{
    let s = climb_scope(nodes, name, a);
    let ms = match_indices(nodes, SearchKind::VariableDefinition, name, a);
    if ms.len() > 0 {
        assert(s == a);
        assert(in_subtree(nodes, a, a));
        assert forall|b: int|
            0 <= b < nodes.len() && in_subtree(nodes, a, b) && in_subtree(nodes, b, s) && b
                != s implies #[trigger] match_indices(
            nodes,
            SearchKind::VariableDefinition,
            name,
            b,
        ).len() == 0 by {
            lemma_in_subtree_le(nodes, a, b);
            lemma_in_subtree_le(nodes, b, a);
        }
        lemma_match_indices_exact(nodes, SearchKind::VariableDefinition, name, a);
    } else {
        if nodes[a].parent is None {
            assert(s == a);
            assert(in_subtree(nodes, a, a));
            assert forall|b: int|
                0 <= b < nodes.len() && in_subtree(nodes, a, b) && in_subtree(nodes, b, s) && b
                    != s implies #[trigger] match_indices(
                nodes,
                SearchKind::VariableDefinition,
                name,
                b,
            ).len() == 0 by {
                assert(b == a);
            }
        } else {
            let p = nodes[a].parent->Some_0 as int;
            lemma_climb_shadowing(nodes, name, p);
            assert(s == climb_scope(nodes, name, p));
            assert(climb_from(nodes, name, a) == climb_from(nodes, name, p));
            assert(in_subtree(nodes, a, s));
            assert forall|b: int|
                0 <= b < nodes.len() && in_subtree(nodes, a, b) && in_subtree(nodes, b, s) && b
                    != s implies #[trigger] match_indices(
                nodes,
                SearchKind::VariableDefinition,
                name,
                b,
            ).len() == 0 by {
                if b != a {
                    assert(in_subtree(nodes, p, b));
                }
            }
        }
    }
}

proof fn lemma_innermost_below_at(
    nodes: Seq<SyntaxNode>,
    row: int,
    c0: int,
    c1: int,
    n: int,
    m: int,
)
    requires
        0 <= n < m <= nodes.len(),
        spans_cols(nodes[n], row, c0, c1),
        forall|j: int|
            0 <= j < nodes.len() && #[trigger] spans_cols(nodes[j], row, c0, c1) ==> j <= n,
    ensures
        innermost_spanning_below(nodes, row, c0, c1, m) == Some(n),
    decreases m,
{
    if m - 1 > n {
        assert(!spans_cols(nodes[m - 1], row, c0, c1));
        lemma_innermost_below_at(nodes, row, c0, c1, n, m - 1);
    }
}

/// A node that covers the queried columns, and above which (in index order)
/// nothing covers them, is what the locator's scan resolves.
proof fn lemma_innermost_is(nodes: Seq<SyntaxNode>, row: int, c0: int, c1: int, n: int)
    requires
        0 <= n < nodes.len(),
        spans_cols(nodes[n], row, c0, c1),
        forall|j: int|
            0 <= j < nodes.len() && #[trigger] spans_cols(nodes[j], row, c0, c1) ==> j <= n,
    ensures
        innermost_spanning(nodes, row, c0, c1) == Some(n),
{
    lemma_innermost_below_at(nodes, row, c0, c1, n, nodes.len() as int);
}

/// Boundary cursors: a cursor immediately before an identifier's first
/// character and one immediately after its last character resolve to the
/// same node. The hypotheses are the boundary situation itself: the node
/// occupies columns `[s, e)` of one row and is the innermost over every
/// piece of that span, the byte under the front cursor is a letter, and the
/// byte under the back cursor — the one just past the identifier — is not.
pub proof fn lemma_boundary_cursor(
    source: Seq<u8>,
    nodes: Seq<SyntaxNode>,
    n: int,
    row: u32,
    s: u32,
    e: u32,
)
    requires
        0 <= n < nodes.len(),
        nodes[n].start == (Position { line: row, character: s }),
        nodes[n].end == (Position { line: row, character: e }),
        s < e,
        forall|j: int, c0: int, c1: int|
            0 <= j < nodes.len() && s <= c0 && c0 < c1 && c1 <= e && #[trigger] spans_cols(
                nodes[j],
                row as int,
                c0,
                c1,
            ) ==> j <= n,
        offset_of(source, Position { line: row, character: s }) matches Some(o1) && o1
            < source.len() && is_ascii_alpha(source[o1]),
        offset_of(source, Position { line: row, character: e }) matches Some(o2) && o2
            < source.len() && !is_ascii_alpha(source[o2]),
    ensures
        located_at(source, nodes, Position { line: row, character: s }) == Some(n),
        located_at(source, nodes, Position { line: row, character: e }) == Some(n),
{
    assert(spans_cols(nodes[n], row as int, s as int, s as int + 1));
    assert forall|j: int|
        0 <= j < nodes.len() && #[trigger] spans_cols(nodes[j], row as int, s as int, s as int + 1)
            implies j <= n by {}
    lemma_innermost_is(nodes, row as int, s as int, s as int + 1, n);
    assert(spans_cols(nodes[n], row as int, e as int - 1, e as int));
    assert forall|j: int|
        0 <= j < nodes.len() && #[trigger] spans_cols(nodes[j], row as int, e as int - 1, e as int)
            implies j <= n by {}
    lemma_innermost_is(nodes, row as int, e as int - 1, e as int, n);
}

} // verus!
