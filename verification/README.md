# mutcursor

A cursor that walks down from a root value it owns through a stack of node
handles: it can step deeper from the top node, backtrack, jump back to the
first node or to the root, and hand out the top node or the root for
modification.

- `src/rooted_vec.rs` — the verified stack, `MutCursorRootedVec<RootT, NodeT>`,
  generic over the handle type kept for each node, with a contract on every
  operation over its abstract state (`root_slot()`, `nodes()`).
- `src/laws.rs` — proved properties that span several operations.
- `tests/` — executable tests, including a walk down a linked tree with
  shared-reference handles.
- `app/` — the form that keeps real mutable borrows of the nodes, as pointers,
  on top of the verified stack; it owns the root through `MaybeDangling` and
  asks for `StableDeref` roots.
