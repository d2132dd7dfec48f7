//! Properties of the cursor that span several of its operations.
use vstd::prelude::*;

use crate::rooted_vec::{bottomed, deref_opt, try_backtracked, with_top, MutCursorRootedVec};

verus! {

/// The stack after `k` successive calls of `backtrack`.
pub open spec fn backtracked_times<NodeT>(nodes: Seq<NodeT>, k: nat) -> Seq<NodeT>
    decreases k,
{
    if k == 0 {
        nodes
    } else {
        backtracked_times(nodes.drop_last(), (k - 1) as nat)
    }
}

/// The stack after `k` successive calls of `try_backtrack_node`.
pub open spec fn try_backtracked_times<NodeT>(nodes: Seq<NodeT>, k: nat) -> Seq<NodeT>
    decreases k,
{
    if k == 0 {
        nodes
    } else {
        try_backtracked_times(try_backtracked(nodes), (k - 1) as nat)
    }
}

/// Handing out the top node for modification (`top_mut`, `top_or_advance_mut` on a
/// cursor with nodes) changes only the top: the stack keeps its length, every node
/// below the top keeps its place and value, and the top becomes the value left in
/// the handed-out reference.
pub proof fn law_top_write_changes_only_top<NodeT>(nodes: Seq<NodeT>, t: NodeT)
    requires
        nodes.len() > 0,
    ensures
        with_top(nodes, t).len() == nodes.len(),
        forall|i: int| 0 <= i < nodes.len() - 1 ==> #[trigger] with_top(nodes, t)[i] == nodes[i],
        with_top(nodes, t)[nodes.len() - 1] == t,
        with_top(nodes, t).last() == t,
{
}

/// One call of `try_backtrack_node` on a stack of two or more nodes removes exactly the
/// top node: the stack is one shorter, every remaining node keeps its place and value,
/// and the new top is the node that was second from the top.  On a stack of at most
/// one node it changes nothing.
pub proof fn law_try_backtrack_pops_exactly_top<NodeT>(nodes: Seq<NodeT>)
    ensures
        nodes.len() > 1 ==> {
            &&& try_backtracked(nodes).len() == nodes.len() - 1
            &&& forall|i: int|
                0 <= i < nodes.len() - 1 ==> #[trigger] try_backtracked(nodes)[i] == nodes[i]
            &&& try_backtracked(nodes).last() == nodes[nodes.len() - 2]
        },
        nodes.len() <= 1 ==> try_backtracked(nodes) == nodes,
{
}

/// `to_bottom` on a stack of two or more nodes leaves exactly the bottom node; on a
/// stack of at most one node it changes nothing.
pub proof fn law_to_bottom_keeps_only_bottom<NodeT>(nodes: Seq<NodeT>)
    ensures
        nodes.len() > 1 ==> {
            &&& bottomed(nodes).len() == 1
            &&& bottomed(nodes)[0] == nodes[0]
        },
        nodes.len() <= 1 ==> bottomed(nodes) == nodes,
{
}

/// The value seen through an optional shared reference is the referenced value, and
/// there is none when there is no reference.
pub proof fn law_deref_opt_reads_through<T>(x: T)
    ensures
        deref_opt(Some(&x)) == Some(x),
        deref_opt(None::<&T>) == None::<T>,
{
}

/// `depth` counts the calls of `backtrack` that can be made before the stack is
/// empty: after `k` of them, for any `k` up to the depth, the bottom `depth - k`
/// nodes remain, so each call before the last finds a node to pop, and after
/// `depth` of them only the root remains.
pub proof fn law_depth_counts_backtracks<NodeT>(nodes: Seq<NodeT>, k: nat)
    requires
        k <= nodes.len(),
    ensures
        backtracked_times(nodes, k) == nodes.take(nodes.len() - k),
        k < nodes.len() ==> backtracked_times(nodes, k).len() > 0,
        backtracked_times(nodes, nodes.len()) == Seq::<NodeT>::empty(),
    decreases k,
{
    if k > 0 {
        law_depth_counts_backtracks(nodes.drop_last(), (k - 1) as nat);
        assert(nodes.drop_last().take(nodes.drop_last().len() - (k - 1)) =~= nodes.take(
            nodes.len() - k,
        ));
    }
    lemma_backtracked_all_is_empty(nodes);
}

proof fn lemma_backtracked_all_is_empty<NodeT>(nodes: Seq<NodeT>)
    ensures
        backtracked_times(nodes, nodes.len()) == Seq::<NodeT>::empty(),
    decreases nodes.len(),
{
    if nodes.len() > 0 {
        lemma_backtracked_all_is_empty(nodes.drop_last());
    } else {
        assert(nodes =~= Seq::<NodeT>::empty());
    }
}

/// Backtracking right after an advance that pushed a node gives back the stack,
/// and the root, as they stood before the advance.
pub proof fn law_backtrack_undoes_advance<RootT, NodeT>(
    before: MutCursorRootedVec<RootT, NodeT>,
    advanced: MutCursorRootedVec<RootT, NodeT>,
    back: MutCursorRootedVec<RootT, NodeT>,
    n: NodeT,
)
    requires
        advanced.root_slot() == before.root_slot(),
        advanced.nodes() == before.nodes().push(n),
        back.root_slot() == advanced.root_slot(),
        back.nodes() == advanced.nodes().drop_last(),
    ensures
        back.root_slot() == before.root_slot(),
        back.nodes() == before.nodes(),
{
    assert(before.nodes().push(n).drop_last() =~= before.nodes());
}

/// `try_backtrack_node` never removes the last node: it leaves a non-empty stack
/// non-empty, and once only the bottom node is left further calls change nothing.
pub proof fn law_try_backtrack_keeps_bottom<NodeT>(nodes: Seq<NodeT>)
    ensures
        nodes.len() > 0 ==> try_backtracked(nodes).len() > 0,
        nodes.len() > 0 ==> try_backtracked(nodes)[0] == nodes[0],
        try_backtracked(bottomed(nodes)) == bottomed(nodes),
{
}

/// Calling `try_backtrack_node` as many times as there are nodes leaves the same
/// stack as one call of `to_bottom`.
pub proof fn law_try_backtrack_reaches_bottom<NodeT>(nodes: Seq<NodeT>)
    ensures
        try_backtracked_times(nodes, nodes.len()) == bottomed(nodes),
    decreases nodes.len(),
{
    if nodes.len() > 1 {
        law_try_backtrack_reaches_bottom(nodes.drop_last());
        let rest = nodes.drop_last();
        assert(bottomed(rest) =~= bottomed(nodes));
        lemma_try_backtracked_short_is_fixed(bottomed(nodes), 1);
        assert(try_backtracked_times(nodes, nodes.len()) == try_backtracked_times(
            rest,
            (nodes.len() - 1) as nat,
        ));
        assert(try_backtracked_times(rest, (nodes.len() - 1) as nat) == try_backtracked_times(
            rest,
            rest.len(),
        ));
    } else {
        lemma_try_backtracked_short_is_fixed(nodes, nodes.len());
    }
}

proof fn lemma_try_backtracked_short_is_fixed<NodeT>(nodes: Seq<NodeT>, k: nat)
    requires
        nodes.len() <= 1,
    ensures
        try_backtracked_times(nodes, k) == nodes,
    decreases k,
{
    if k > 0 {
        lemma_try_backtracked_short_is_fixed(nodes, (k - 1) as nat);
    }
}

/// `to_bottom` returns to the first node pushed after the root, whatever nodes were
/// pushed above it since.
pub proof fn law_to_bottom_returns_to_first<NodeT>(first: NodeT, above: Seq<NodeT>)
    ensures
        bottomed(seq![first] + above) == seq![first],
{
    if above.len() == 0 {
        assert(seq![first] + above =~= seq![first]);
    }
}

/// `top_or_advance_mut` does what `advance_if_empty` followed by `top_mut().unwrap()`
/// does.  Take a cursor `before`, let `advance_if_empty` bring it to `middle` (where a
/// step from the root, if one is taken, leaves the root as `left` and yields `n`), and
/// let `top_mut` then hand out the top `cur`, left as `fin`, bringing it to `after`.
/// Then `top_mut` finds a top, so the `unwrap` cannot fail, and `cur` and `after` are
/// exactly what the contract of `top_or_advance_mut` describes for the same step
/// outcome; that contract leaves no other state, so the two agree.  The same holds of
/// the two-step forms, whose step outcome is again a root left behind and a handle.
pub proof fn law_top_or_advance_is_advance_then_top<RootT, NodeT>(
    before: MutCursorRootedVec<RootT, NodeT>,
    middle: MutCursorRootedVec<RootT, NodeT>,
    after: MutCursorRootedVec<RootT, NodeT>,
    left: RootT,
    n: NodeT,
    cur: NodeT,
    fin: NodeT,
)
    requires
        before.nodes().len() > 0 ==> {
            &&& middle.nodes() == before.nodes()
            &&& middle.root_slot() == before.root_slot()
        },
        before.nodes().len() == 0 ==> {
            &&& middle.root_slot() == Some(left)
            &&& middle.nodes() == seq![n]
        },
        middle.nodes().len() > 0 ==> {
            &&& cur == middle.nodes().last()
            &&& after.nodes() == with_top(middle.nodes(), fin)
            &&& after.root_slot() == middle.root_slot()
        },
    ensures
        middle.nodes().len() > 0,
        before.nodes().len() > 0 ==> {
            &&& cur == before.nodes().last()
            &&& after.nodes() == with_top(before.nodes(), fin)
            &&& after.root_slot() == before.root_slot()
        },
        before.nodes().len() == 0 ==> {
            &&& cur == n
            &&& after.root_slot() == Some(left)
            &&& after.nodes() == with_top(seq![n], fin)
        },
{
}

} // verus!
