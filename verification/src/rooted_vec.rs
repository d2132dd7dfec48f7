use vstd::prelude::*;

verus! {

/// The value behind an optional shared reference.
pub open spec fn deref_opt<T>(o: Option<&T>) -> Option<T> {
    match o {
        Some(x) => Some(*x),
        None => None,
    }
}

/// The stack with its top node replaced by `t`.
pub open spec fn with_top<NodeT>(nodes: Seq<NodeT>, t: NodeT) -> Seq<NodeT> {
    nodes.update(nodes.len() - 1, t)
}

/// The stack after popping the top node unless it is the only one.
pub open spec fn try_backtracked<NodeT>(nodes: Seq<NodeT>) -> Seq<NodeT> {
    if nodes.len() > 1 {
        nodes.drop_last()
    } else {
        nodes
    }
}

/// The stack cut down to its bottom node, when it holds more than one.
pub open spec fn bottomed<NodeT>(nodes: Seq<NodeT>) -> Seq<NodeT> {
    if nodes.len() > 1 {
        seq![nodes[0]]
    } else {
        nodes
    }
}

/// Returns how many elements `v` can hold without reallocating (`Vec::capacity`).
///
/// The capacity depends on the allocator, so only what holds of every outcome is
/// claimed: it is at least the length, and, for element types that occupy memory,
/// it fits in `isize` because a vector never holds more than `isize::MAX` bytes.
#[verifier::external_body]
fn vec_capacity<T>(v: &Vec<T>) -> (cap: usize)
    ensures
        cap >= v@.len(),
        vstd::layout::size_of::<T>() != 0 ==> cap <= isize::MAX,
{
    v.capacity()
}

/// The room for node handles when the stack's vector has room for `cap`: the top is
/// held apart from the vector, so it adds one.
fn count_top_slot(cap: usize) -> (c: usize)
    requires
        cap <= isize::MAX,
    ensures
        c == cap + 1,
{
    cap + 1
}

/// A stack of node handles that descends from a root value the cursor owns.
///
/// The bottom of the stack is the root, of type `RootT`; above it sit zero or more
/// node handles of type `NodeT`, the last of which is the top.  The stack may hold
/// only the root, and the root itself may have been taken out.
pub struct MutCursorRootedVec<RootT, NodeT> {
    top: Option<NodeT>,
    root: Option<RootT>,
    stack: Vec<NodeT>,
}

impl<RootT, NodeT> MutCursorRootedVec<RootT, NodeT> {
    /// The root slot: `Some` while the cursor holds its root, `None` once taken.
    pub closed spec fn root_slot(&self) -> Option<RootT> {
        self.root
    }

    /// The node handles above the root, from the bottom to the top.
    pub closed spec fn nodes(&self) -> Seq<NodeT> {
        match self.top {
            Some(t) => self.stack@.push(t),
            None => Seq::empty(),
        }
    }

    /// The cursor's internal invariant: a stack with no top holds no other node,
    /// nodes are only ever stacked on a root that is still held, and the number of
    /// nodes fits in `usize`.
    pub closed spec fn wf(&self) -> bool {
        &&& self.top is None ==> self.stack@.len() == 0
        &&& self.top is Some ==> self.root is Some
        &&& self.stack@.len() < usize::MAX
    }

    /// A cursor with nodes above the root still holds its root: the root can only be
    /// taken once every node has been removed.
    pub proof fn law_nodes_rest_on_root(&self)
        requires
            self.wf(),
        ensures
            self.nodes().len() > 0 ==> self.root_slot() is Some,
    {
    }

    /// Returns a new cursor that holds `root` and no nodes.
    pub fn new(root: RootT) -> (s: Self)
        ensures
            s.wf(),
            s.root_slot() == Some(root),
            s.nodes() == Seq::<NodeT>::empty(),
    {
        Self { top: None, root: Some(root), stack: Vec::new() }
    }

    /// Returns a new cursor that holds `root` and no nodes, with room reserved for
    /// `capacity` node handles.
    pub fn new_with_capacity(root: RootT, capacity: usize) -> (s: Self)
        requires
            vstd::layout::size_of::<NodeT>() * capacity <= isize::MAX,
        ensures
            s.wf(),
            s.root_slot() == Some(root),
            s.nodes() == Seq::<NodeT>::empty(),
    {
        Self { top: None, root: Some(root), stack: Vec::with_capacity(capacity) }
    }

    /// Returns `true` exactly when the stack holds no node above the root.
    pub fn is_root(&self) -> (b: bool)
        requires
            self.wf(),
        ensures
            b == (self.nodes().len() == 0),
    {
        self.top.is_none()
    }

    /// Returns the root when no node obscures it and it has not been taken.
    pub fn root(&self) -> (r: Option<&RootT>)
        requires
            self.wf(),
        ensures
            deref_opt(r) == (if self.nodes().len() == 0 { self.root_slot() } else { None }),
    {
        if self.top.is_none() {
            self.root.as_ref()
        } else {
            None
        }
    }

    /// Returns the node handle on the top of the stack, or `None` at the root.
    pub fn top(&self) -> (r: Option<&NodeT>)
        requires
            self.wf(),
        ensures
            deref_opt(r) == (if self.nodes().len() == 0 { None } else { Some(self.nodes().last()) }),
    {
        self.top.as_ref()
    }

    /// Returns the root for modification when no node obscures it and it has not
    /// been taken; otherwise returns `None` and leaves the cursor as it was.
    pub fn root_mut(&mut self) -> (r: Option<&mut RootT>)
        requires
            old(self).wf(),
        ensures
            final(self).wf(),
            final(self).nodes() == old(self).nodes(),
            (old(self).nodes().len() == 0 && old(self).root_slot() is Some) ==> {
                &&& r is Some
                &&& *r.unwrap() == old(self).root_slot().unwrap()
                &&& final(self).root_slot() == Some(*final(r.unwrap()))
            },
            !(old(self).nodes().len() == 0 && old(self).root_slot() is Some) ==> {
                &&& r is None
                &&& final(self).root_slot() == old(self).root_slot()
            },
    {
        if self.top.is_none() {
            self.root.as_mut()
        } else {
            None
        }
    }

    /// Removes every node and then takes the root out, returning it (or `None` if
    /// it was already taken).
    pub fn take_root(&mut self) -> (r: Option<RootT>)
        requires
            old(self).wf(),
        ensures
            final(self).wf(),
            r == old(self).root_slot(),
            final(self).root_slot() == None::<RootT>,
            final(self).nodes() == Seq::<NodeT>::empty(),
    {
        self.to_root();
        assert(self.nodes().len() == 0);
        self.root.take()
    }

    /// Puts `root` in the root slot, replacing any root held there.
    pub fn replace_root(&mut self, root: RootT)
        requires
            old(self).wf(),
            old(self).nodes().len() == 0,
        ensures
            final(self).wf(),
            final(self).root_slot() == Some(root),
            final(self).nodes() == Seq::<NodeT>::empty(),
    {
        self.root = Some(root);
    }

    /// Returns the node handle on the top of the stack for modification, or `None`
    /// at the root.
    pub fn top_mut(&mut self) -> (r: Option<&mut NodeT>)
        requires
            old(self).wf(),
        ensures
            final(self).wf(),
            final(self).root_slot() == old(self).root_slot(),
            old(self).nodes().len() == 0 ==> r is None && final(self).nodes() == old(self).nodes(),
            old(self).nodes().len() > 0 ==> {
                &&& r is Some
                &&& *r.unwrap() == old(self).nodes().last()
                &&& final(self).nodes() == with_top(old(self).nodes(), *final(r.unwrap()))
            },
    {
        self.top.as_mut()
    }

    /// Removes every node handle, leaving only the root.
    pub fn to_root(&mut self)
        requires
            old(self).wf(),
        ensures
            final(self).wf(),
            final(self).root_slot() == old(self).root_slot(),
            final(self).nodes() == Seq::<NodeT>::empty(),
    {
        self.stack.clear();
        self.top = None;
    }

    /// Consumes the cursor and returns its root.
    pub fn into_root(self) -> (r: RootT)
        requires
            self.root_slot() is Some,
        ensures
            r == self.root_slot().unwrap(),
    {
        self.root.unwrap()
    }

    /// Returns the node handle on the top of the stack for modification; when the
    /// stack holds only the root, first steps from the root with `step_f` and makes
    /// the handle it returns the only node.
    pub fn top_or_advance_mut<F>(&mut self, step_f: F) -> (r: &mut NodeT)
        where
            F: FnOnce(&mut RootT) -> NodeT,
        requires
            old(self).wf(),
            old(self).nodes().len() == 0 ==> old(self).root_slot() is Some,
            old(self).nodes().len() == 0 ==> forall|x: &mut RootT|
                *x == old(self).root_slot().unwrap() ==> call_requires(step_f, (x,)),
        ensures
            final(self).wf(),
            old(self).nodes().len() > 0 ==> {
                &&& *r == old(self).nodes().last()
                &&& final(self).nodes() == with_top(old(self).nodes(), *final(r))
                &&& final(self).root_slot() == old(self).root_slot()
            },
            old(self).nodes().len() == 0 ==> exists|x: &mut RootT, n: NodeT|
                {
                    &&& *x == old(self).root_slot().unwrap()
                    &&& call_ensures(step_f, (x,), n)
                    &&& *r == n
                    &&& final(self).root_slot() == Some(*final(x))
                    &&& final(self).nodes() == with_top(seq![n], *final(r))
                },
    {
        if self.top.is_none() {
            let n = step_f(self.root.as_mut().unwrap());
            self.top = Some(n);
        }
        self.top.as_mut().unwrap()
    }

    /// Like [`Self::top_or_advance_mut`], but steps from the root in two stages: `step_f1`
    /// yields an intermediate handle from the root, and `step_f2` yields the node
    /// handle from that intermediate handle.
    pub fn top_or_advance_mut_twostep<F, G, IntermediateRef>(
        &mut self,
        step_f1: F,
        step_f2: G,
    ) -> (r: &mut NodeT)
        where
            F: FnOnce(&mut RootT) -> IntermediateRef,
            G: FnOnce(&mut IntermediateRef) -> NodeT,
        requires
            old(self).wf(),
            old(self).nodes().len() == 0 ==> old(self).root_slot() is Some,
            old(self).nodes().len() == 0 ==> forall|x: &mut RootT|
                *x == old(self).root_slot().unwrap() ==> call_requires(step_f1, (x,)),
            old(self).nodes().len() == 0 ==> forall|
                x: &mut RootT,
                i: IntermediateRef,
                y: &mut IntermediateRef,
            |
                *x == old(self).root_slot().unwrap() && call_ensures(step_f1, (x,), i)
                    && *y == i ==> call_requires(step_f2, (y,)),
        ensures
            final(self).wf(),
            old(self).nodes().len() > 0 ==> {
                &&& *r == old(self).nodes().last()
                &&& final(self).nodes() == with_top(old(self).nodes(), *final(r))
                &&& final(self).root_slot() == old(self).root_slot()
            },
            old(self).nodes().len() == 0 ==> exists|
                x: &mut RootT,
                i: IntermediateRef,
                y: &mut IntermediateRef,
                n: NodeT,
            |
                {
                    &&& *x == old(self).root_slot().unwrap()
                    &&& call_ensures(step_f1, (x,), i)
                    &&& *y == i
                    &&& call_ensures(step_f2, (y,), n)
                    &&& *r == n
                    &&& final(self).root_slot() == Some(*final(x))
                    &&& final(self).nodes() == with_top(seq![n], *final(r))
                },
    {
        if self.top.is_none() {
            let mut intermediate = step_f1(self.root.as_mut().unwrap());
            let n = step_f2(&mut intermediate);
            self.top = Some(n);
        }
        self.top.as_mut().unwrap()
    }

    /// When the stack holds only the root, steps from the root with `step_f` and
    /// makes the handle it returns the only node; otherwise does nothing.
    pub fn advance_if_empty<F>(&mut self, step_f: F)
        where
            F: FnOnce(&mut RootT) -> NodeT,
        requires
            old(self).wf(),
            old(self).nodes().len() == 0 ==> old(self).root_slot() is Some,
            old(self).nodes().len() == 0 ==> forall|x: &mut RootT|
                *x == old(self).root_slot().unwrap() ==> call_requires(step_f, (x,)),
        ensures
            final(self).wf(),
            old(self).nodes().len() > 0 ==> {
                &&& final(self).nodes() == old(self).nodes()
                &&& final(self).root_slot() == old(self).root_slot()
            },
            old(self).nodes().len() == 0 ==> exists|x: &mut RootT, n: NodeT|
                {
                    &&& *x == old(self).root_slot().unwrap()
                    &&& call_ensures(step_f, (x,), n)
                    &&& final(self).root_slot() == Some(*final(x))
                    &&& final(self).nodes() == seq![n]
                },
    {
        if self.top.is_none() {
            let n = step_f(self.root.as_mut().unwrap());
            self.top = Some(n);
        }
    }

    /// Like [`Self::advance_if_empty`], but steps from the root in two stages.
    pub fn advance_if_empty_twostep<F, G, IntermediateRef>(&mut self, step_f1: F, step_f2: G)
        where
            F: FnOnce(&mut RootT) -> IntermediateRef,
            G: FnOnce(&mut IntermediateRef) -> NodeT,
        requires
            old(self).wf(),
            old(self).nodes().len() == 0 ==> old(self).root_slot() is Some,
            old(self).nodes().len() == 0 ==> forall|x: &mut RootT|
                *x == old(self).root_slot().unwrap() ==> call_requires(step_f1, (x,)),
            old(self).nodes().len() == 0 ==> forall|
                x: &mut RootT,
                i: IntermediateRef,
                y: &mut IntermediateRef,
            |
                *x == old(self).root_slot().unwrap() && call_ensures(step_f1, (x,), i)
                    && *y == i ==> call_requires(step_f2, (y,)),
        ensures
            final(self).wf(),
            old(self).nodes().len() > 0 ==> {
                &&& final(self).nodes() == old(self).nodes()
                &&& final(self).root_slot() == old(self).root_slot()
            },
            old(self).nodes().len() == 0 ==> exists|
                x: &mut RootT,
                i: IntermediateRef,
                y: &mut IntermediateRef,
                n: NodeT,
            |
                {
                    &&& *x == old(self).root_slot().unwrap()
                    &&& call_ensures(step_f1, (x,), i)
                    &&& *y == i
                    &&& call_ensures(step_f2, (y,), n)
                    &&& final(self).root_slot() == Some(*final(x))
                    &&& final(self).nodes() == seq![n]
                },
    {
        if self.top.is_none() {
            let mut intermediate = step_f1(self.root.as_mut().unwrap());
            let n = step_f2(&mut intermediate);
            self.top = Some(n);
        }
    }

    /// Removes every node, then steps from the root with `step_f`; when the step
    /// yields a handle it becomes the only node and `true` is returned, otherwise
    /// the stack is left holding only the root and `false` is returned.
    pub fn advance_from_root<F>(&mut self, step_f: F) -> (b: bool)
        where
            F: FnOnce(&mut RootT) -> Option<NodeT>,
        requires
            old(self).wf(),
            old(self).root_slot() is Some,
            forall|x: &mut RootT|
                *x == old(self).root_slot().unwrap() ==> call_requires(step_f, (x,)),
        ensures
            final(self).wf(),
            exists|x: &mut RootT, o: Option<NodeT>|
                {
                    &&& *x == old(self).root_slot().unwrap()
                    &&& call_ensures(step_f, (x,), o)
                    &&& final(self).root_slot() == Some(*final(x))
                    &&& b == o is Some
                    &&& final(self).nodes() == match o {
                        Some(n) => seq![n],
                        None => Seq::<NodeT>::empty(),
                    }
                },
    {
        self.to_root();
        match step_f(self.root.as_mut().unwrap()) {
            Some(n) => {
                self.top = Some(n);
                true
            },
            None => false,
        }
    }

    /// Like [`Self::advance_from_root`], but steps from the root in two stages; the stack
    /// is left holding only the root when either stage yields `None`.
    pub fn advance_from_root_twostep<F, G, IntermediateRef>(
        &mut self,
        step_f1: F,
        step_f2: G,
    ) -> (b: bool)
        where
            F: FnOnce(&mut RootT) -> Option<IntermediateRef>,
            G: FnOnce(&mut IntermediateRef) -> Option<NodeT>,
        requires
            old(self).wf(),
            old(self).root_slot() is Some,
            forall|x: &mut RootT|
                *x == old(self).root_slot().unwrap() ==> call_requires(step_f1, (x,)),
            forall|x: &mut RootT, i: IntermediateRef, y: &mut IntermediateRef|
                #![trigger call_ensures(step_f1, (x,), Some(i)), call_requires(step_f2, (y,))]
                *x == old(self).root_slot().unwrap() && call_ensures(step_f1, (x,), Some(i))
                    && *y == i ==> call_requires(step_f2, (y,)),
        ensures
            final(self).wf(),
            exists|x: &mut RootT, oi: Option<IntermediateRef>|
                {
                    &&& *x == old(self).root_slot().unwrap()
                    &&& call_ensures(step_f1, (x,), oi)
                    &&& final(self).root_slot() == Some(*final(x))
                    &&& oi is None ==> !b && final(self).nodes() == Seq::<NodeT>::empty()
                    &&& oi is Some ==> exists|y: &mut IntermediateRef, o: Option<NodeT>|
                        {
                            &&& *y == oi.unwrap()
                            &&& call_ensures(step_f2, (y,), o)
                            &&& b == o is Some
                            &&& final(self).nodes() == match o {
                                Some(n) => seq![n],
                                None => Seq::<NodeT>::empty(),
                            }
                        }
                },
    {
        self.to_root();
        if let Some(mut intermediate) = step_f1(self.root.as_mut().unwrap()) {
            if let Some(n) = step_f2(&mut intermediate) {
                self.top = Some(n);
                return true;
            }
        }
        false
    }

    /// Steps deeper from the top node with `step_f`.  When the step yields a handle it
    /// is pushed as the new top and `true` is returned; otherwise the stack is left
    /// unmodified and `false` is returned.
    pub fn advance<F>(&mut self, step_f: F) -> (b: bool)
        where
            F: FnOnce(&NodeT) -> Option<NodeT>,
        requires
            old(self).wf(),
            old(self).nodes().len() > 0,
            old(self).nodes().len() < usize::MAX,
            call_requires(step_f, (&old(self).nodes().last(),)),
        ensures
            final(self).wf(),
            final(self).root_slot() == old(self).root_slot(),
            !b ==> {
                &&& call_ensures(step_f, (&old(self).nodes().last(),), None)
                &&& final(self).nodes() == old(self).nodes()
            },
            b ==> exists|n: NodeT|
                {
                    &&& call_ensures(step_f, (&old(self).nodes().last(),), Some(n))
                    &&& final(self).nodes() == old(self).nodes().push(n)
                },
    {
        let top = self.top.as_ref().unwrap();
        match step_f(top) {
            Some(n) => {
                let ghost pushed = n;
                if let Some(old_top) = self.top.take() {
                    self.stack.push(old_top);
                }
                self.top = Some(n);
                assert(self.nodes() =~= old(self).nodes().push(pushed));
                true
            },
            None => false,
        }
    }

    /// Pops the top node, exposing the one below it (or the root) as the new top.
    pub fn backtrack(&mut self)
        requires
            old(self).wf(),
            old(self).nodes().len() > 0,
        ensures
            final(self).wf(),
            final(self).root_slot() == old(self).root_slot(),
            final(self).nodes() == old(self).nodes().drop_last(),
    {
        match self.stack.pop() {
            Some(top_ptr) => {
                self.top = Some(top_ptr);
            },
            None => {
                self.top = None;
            },
        }
    }

    /// Pops the top node unless it is the bottom node; never removes the last node
    /// and never fails.
    pub fn try_backtrack_node(&mut self)
        requires
            old(self).wf(),
        ensures
            final(self).wf(),
            final(self).root_slot() == old(self).root_slot(),
            final(self).nodes() == try_backtracked(old(self).nodes()),
    {
        match self.stack.pop() {
            Some(top_ptr) => {
                self.top = Some(top_ptr);
            },
            None => {},
        }
    }

    /// Pops every node above the bottom one, leaving the first node pushed after the
    /// root as the top; does nothing when at most one node is on the stack.
    pub fn to_bottom(&mut self)
        requires
            old(self).wf(),
        ensures
            final(self).wf(),
            final(self).root_slot() == old(self).root_slot(),
            final(self).nodes() == bottomed(old(self).nodes()),
    {
        if self.stack.len() > 0 {
            self.stack.truncate(1);
            match self.stack.pop() {
                Some(top_ptr) => self.top = Some(top_ptr),
                None => {},
            }
        }
    }

    /// Returns the number of node handles above the root.
    pub fn depth(&self) -> (d: usize)
        requires
            self.wf(),
        ensures
            d == self.nodes().len(),
    {
        if self.top.is_some() {
            self.stack.len() + 1
        } else {
            0
        }
    }

    /// Returns how many node handles the cursor can hold without reallocating.
    pub fn capacity(&self) -> (c: usize)
        requires
            self.wf(),
            vstd::layout::size_of::<NodeT>() != 0,
        ensures
            c >= self.nodes().len(),
            1 <= c <= isize::MAX + 1,
    {
        count_top_slot(vec_capacity(&self.stack))
    }
}

} // verus!
