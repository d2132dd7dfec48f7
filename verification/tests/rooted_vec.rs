use mutcursor::MutCursorRootedVec;

struct TreeNode {
    val: usize,
    next: Option<Box<TreeNode>>,
}

impl TreeNode {
    fn new(count: usize) -> Self {
        if count > 0 {
            Self { val: count, next: Some(Box::new(Self::new(count - 1))) }
        } else {
            Self { val: 0, next: None }
        }
    }
    fn traverse_to_box(&self) -> Option<&Box<Self>> {
        self.next.as_ref()
    }
    fn traverse(&self) -> Option<&Self> {
        self.traverse_to_box().map(|boxed| &**boxed)
    }
}

type TreeCursor<'a> = MutCursorRootedVec<&'a TreeNode, &'a TreeNode>;

fn step_to_box<'a>(root: &mut &'a TreeNode) -> Option<&'a Box<TreeNode>> {
    let r: &'a TreeNode = *root;
    r.traverse_to_box()
}

fn unbox<'a>(node: &mut &'a Box<TreeNode>) -> Option<&'a TreeNode> {
    let b: &'a Box<TreeNode> = *node;
    Some(&**b)
}

fn step_down<'a>(node: &&'a TreeNode) -> Option<&'a TreeNode> {
    TreeNode::traverse(*node)
}

#[test]
fn rooted_vec_basics() {
    let tree = TreeNode::new(10);
    let mut node_stack: TreeCursor = MutCursorRootedVec::new(&tree);
    node_stack.advance_from_root_twostep(step_to_box, unbox);

    while node_stack.advance(step_down) {}

    assert_eq!(node_stack.top().unwrap().val, 0);
    assert_eq!(node_stack.depth(), 10);

    node_stack.backtrack();
    assert_eq!(node_stack.top().unwrap().val, 1);
    assert_eq!(node_stack.depth(), 9);

    node_stack.backtrack();
    node_stack.backtrack();
    node_stack.backtrack();
    assert_eq!(node_stack.top().unwrap().val, 4);
    assert_eq!(node_stack.depth(), 6);

    while node_stack.advance(step_down) {}
    assert_eq!(node_stack.top().unwrap().val, 0);
    assert_eq!(node_stack.depth(), 10);

    node_stack.backtrack();
    node_stack.backtrack();
    node_stack.backtrack();
    node_stack.backtrack();
    node_stack.backtrack();
    node_stack.backtrack();
    assert_eq!(node_stack.top().unwrap().val, 6);
    assert_eq!(node_stack.depth(), 4);

    node_stack.backtrack();
    node_stack.backtrack();
    node_stack.backtrack();
    assert_eq!(node_stack.top().unwrap().val, 9);
    assert_eq!(node_stack.depth(), 1);

    node_stack.backtrack();
    assert!(node_stack.top().is_none());
    assert_eq!(node_stack.root().unwrap().val, 10);
    assert_eq!(node_stack.into_root().val, 10);
}

/// A cursor over a stack of plain integer handles, with an owned vector as the root.
fn int_cursor() -> MutCursorRootedVec<Vec<u32>, u32> {
    MutCursorRootedVec::new(vec![7, 8, 9])
}

#[test]
fn new_starts_at_root() {
    let c = int_cursor();
    assert!(c.is_root());
    assert_eq!(c.depth(), 0);
    assert!(c.top().is_none());
    assert_eq!(c.root(), Some(&vec![7, 8, 9]));
}

#[test]
fn new_with_capacity_reserves_room() {
    let c: MutCursorRootedVec<u8, u64> = MutCursorRootedVec::new_with_capacity(3, 16);
    assert!(c.is_root());
    assert_eq!(c.root(), Some(&3));
    assert!(c.capacity() >= 17);
}

#[test]
fn capacity_counts_the_top() {
    let mut c = int_cursor();
    assert!(c.capacity() >= 1);
    c.advance_from_root(|r| Some(r[0]));
    c.advance(|t| Some(t + 1));
    c.advance(|t| Some(t + 1));
    assert!(c.capacity() >= c.depth());
}

#[test]
fn advance_from_root_pushes_one_node() {
    let mut c = int_cursor();
    assert!(c.advance_from_root(|r| Some(r[1])));
    assert_eq!(c.depth(), 1);
    assert_eq!(c.top(), Some(&8));
    assert!(!c.is_root());
    assert!(c.root().is_none());
}

#[test]
fn advance_from_root_none_leaves_only_root() {
    let mut c = int_cursor();
    c.advance_from_root(|r| Some(r[0]));
    c.advance(|t| Some(t + 1));
    assert!(!c.advance_from_root(|_r| None));
    assert!(c.is_root());
    assert_eq!(c.depth(), 0);
}

#[test]
fn advance_from_root_may_change_root() {
    let mut c = int_cursor();
    assert!(c.advance_from_root(|r| {
        r.push(10);
        Some(r.len() as u32)
    }));
    assert_eq!(c.top(), Some(&4));
    c.to_root();
    assert_eq!(c.root(), Some(&vec![7, 8, 9, 10]));
}

#[test]
fn advance_from_root_twostep_either_step_may_fail() {
    let mut c = int_cursor();
    assert!(!c.advance_from_root_twostep(|_r| None::<u32>, |i| Some(*i)));
    assert!(c.is_root());
    assert!(!c.advance_from_root_twostep(|r| Some(r[2]), |_i| None));
    assert!(c.is_root());
    assert!(c.advance_from_root_twostep(|r| Some(r[2]), |i| Some(*i * 2)));
    assert_eq!(c.top(), Some(&18));
    assert_eq!(c.depth(), 1);
}

#[test]
fn advance_pushes_or_leaves_stack() {
    let mut c = int_cursor();
    c.advance_from_root(|r| Some(r[0]));
    assert!(c.advance(|t| Some(t * 10)));
    assert_eq!(c.top(), Some(&70));
    assert_eq!(c.depth(), 2);
    assert!(!c.advance(|_t| None));
    assert_eq!(c.top(), Some(&70));
    assert_eq!(c.depth(), 2);
}

#[test]
fn backtrack_undoes_advance() {
    let mut c = int_cursor();
    c.advance_from_root(|r| Some(r[0]));
    c.advance(|t| Some(t + 1));
    let depth = c.depth();
    c.advance(|t| Some(t + 1));
    c.backtrack();
    assert_eq!(c.depth(), depth);
    assert_eq!(c.top(), Some(&8));
}

#[test]
fn depth_counts_backtracks() {
    let mut c = int_cursor();
    c.advance_from_root(|r| Some(r[0]));
    for _ in 0..4 {
        c.advance(|t| Some(t + 1));
    }
    let depth = c.depth();
    assert_eq!(depth, 5);
    for _ in 0..depth {
        assert!(!c.is_root());
        c.backtrack();
    }
    assert!(c.is_root());
    assert_eq!(c.root(), Some(&vec![7, 8, 9]));
}

#[test]
fn try_backtrack_node_keeps_bottom() {
    let mut c = int_cursor();
    c.try_backtrack_node();
    assert!(c.is_root());
    c.advance_from_root(|r| Some(r[0]));
    c.advance(|t| Some(t + 1));
    c.advance(|t| Some(t + 1));
    c.try_backtrack_node();
    assert_eq!(c.top(), Some(&8));
    c.try_backtrack_node();
    assert_eq!(c.top(), Some(&7));
    c.try_backtrack_node();
    assert_eq!(c.top(), Some(&7));
    assert_eq!(c.depth(), 1);
}

#[test]
fn to_bottom_returns_to_first_node() {
    let mut c = int_cursor();
    c.to_bottom();
    assert!(c.is_root());
    c.advance_from_root(|r| Some(r[2]));
    c.to_bottom();
    assert_eq!(c.top(), Some(&9));
    for _ in 0..5 {
        c.advance(|t| Some(t + 100));
    }
    c.to_bottom();
    assert_eq!(c.depth(), 1);
    assert_eq!(c.top(), Some(&9));
}

#[test]
fn to_root_clears_nodes_and_keeps_root() {
    let mut c = int_cursor();
    c.to_root();
    assert!(c.is_root());
    c.advance_from_root(|r| Some(r[0]));
    c.advance(|t| Some(t + 1));
    c.to_root();
    assert!(c.is_root());
    assert_eq!(c.depth(), 0);
    assert_eq!(c.root(), Some(&vec![7, 8, 9]));
}

#[test]
fn root_mut_only_at_root() {
    let mut c = int_cursor();
    c.root_mut().unwrap().push(1);
    assert_eq!(c.root(), Some(&vec![7, 8, 9, 1]));
    c.advance_from_root(|r| Some(r[0]));
    assert!(c.root_mut().is_none());
    assert_eq!(c.top(), Some(&7));
}

#[test]
fn top_mut_changes_top() {
    let mut c = int_cursor();
    assert!(c.top_mut().is_none());
    c.advance_from_root(|r| Some(r[0]));
    c.advance(|t| Some(t + 1));
    *c.top_mut().unwrap() = 42;
    assert_eq!(c.top(), Some(&42));
    c.backtrack();
    assert_eq!(c.top(), Some(&7));
}

#[test]
fn take_root_twice() {
    let mut c = int_cursor();
    c.advance_from_root(|r| Some(r[0]));
    assert_eq!(c.take_root(), Some(vec![7, 8, 9]));
    assert!(c.is_root());
    assert_eq!(c.take_root(), None);
    assert!(c.root().is_none());
}

#[test]
fn replace_root_then_take() {
    let mut c = int_cursor();
    c.take_root();
    c.replace_root(vec![1]);
    assert_eq!(c.root(), Some(&vec![1]));
    c.replace_root(vec![2, 3]);
    assert_eq!(c.take_root(), Some(vec![2, 3]));
}

#[test]
fn top_or_advance_mut_steps_only_at_root() {
    let mut c = int_cursor();
    *c.top_or_advance_mut(|r| r[1]) += 1;
    assert_eq!(c.top(), Some(&9));
    assert_eq!(c.depth(), 1);
    let t = c.top_or_advance_mut(|_r| 100);
    assert_eq!(*t, 9);
    assert_eq!(c.depth(), 1);
}

#[test]
fn top_or_advance_mut_twostep_steps_only_at_root() {
    let mut c = int_cursor();
    let t = c.top_or_advance_mut_twostep(|r| r.len(), |len| *len as u32 * 3);
    assert_eq!(*t, 9);
    c.advance(|t| Some(t + 1));
    let t = c.top_or_advance_mut_twostep(|_r| 0usize, |_len| 0);
    assert_eq!(*t, 10);
    assert_eq!(c.depth(), 2);
}

#[test]
fn advance_if_empty_only_at_root() {
    let mut c = int_cursor();
    c.advance_if_empty(|r| r[0]);
    assert_eq!(c.top(), Some(&7));
    c.advance_if_empty(|r| r[2]);
    assert_eq!(c.top(), Some(&7));
    assert_eq!(c.depth(), 1);
}

#[test]
fn advance_if_empty_twostep_only_at_root() {
    let mut c = int_cursor();
    c.advance_if_empty_twostep(|r| r[1], |x| *x + 1);
    assert_eq!(c.top(), Some(&9));
    c.advance_if_empty_twostep(|r| r[0], |x| *x);
    assert_eq!(c.top(), Some(&9));
    assert_eq!(c.depth(), 1);
}


#[test]
fn try_backtrack_repeated_is_to_bottom() {
    let mut a = int_cursor();
    let mut b = int_cursor();
    for c in [&mut a, &mut b] {
        c.advance_from_root(|r| Some(r[1]));
        for _ in 0..3 {
            c.advance(|t| Some(t * 2));
        }
    }
    let depth = a.depth();
    for _ in 0..depth {
        a.try_backtrack_node();
    }
    b.to_bottom();
    assert_eq!(a.depth(), b.depth());
    assert_eq!(a.top(), b.top());
    assert_eq!(a.top(), Some(&8));
}

#[test]
fn nodes_rest_on_root() {
    let mut c = int_cursor();
    c.advance_from_root(|r| Some(r[0]));
    c.advance(|t| Some(t + 1));
    assert!(c.root().is_none());
    c.to_root();
    assert_eq!(c.root(), Some(&vec![7, 8, 9]));
}

#[test]
fn capacity_is_bounded() {
    let c: MutCursorRootedVec<u8, u64> = MutCursorRootedVec::new_with_capacity(0, 4);
    let cap = c.capacity();
    assert!(cap >= 5);
    assert!(cap <= isize::MAX as usize + 1);
}
