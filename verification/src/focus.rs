//! The widget focus tree: a two-level analog of the dock cursor engine.
//!
//! A [`Tree`] tracks windows, nodes within the current window, and leaves
//! within the current node, each level a flat id list with one wrapping
//! integer cursor.  Unlike the dock hierarchy, a node or leaf belongs to
//! exactly one parent, so no filtered projection is needed.  Selecting
//! stores the chosen leaf's widget id as a pending focus request for the
//! presentation layer, a one-shot signal cleared after being read once.
//! An operation on an empty level reports failure by returning nothing
//! and changes no cursor; it never panics.

use vstd::prelude::*;

verus! {

/// Advance a positional cursor with wrap-around: one past `i`, back to 0
/// past the end; a stale cursor also wraps to 0.
pub open spec fn wrap_next(len: nat, i: nat) -> nat {
    if i + 1 >= len {
        0
    } else {
        i + 1
    }
}

/// Retreat a positional cursor with wrap-around: one before `i`, to the
/// last position before 0.
pub open spec fn wrap_prev(len: nat, i: nat) -> nat
    recommends
        len > 0,
{
    if i == 0 || i > len {
        (len - 1) as nat
    } else {
        (i - 1) as nat
    }
}

/// A focusable widget: its widget id and its place in the tree.
#[derive(Debug, Copy, Clone, PartialEq, Eq, Structural)]
pub struct Leaf {
    /// The widget id the presentation layer focuses.
    pub id: u64,
    /// The leaf's own id within the tree.
    pub leaf_id: u64,
    /// The node holding the leaf, once attached.
    pub parent: Option<u64>,
}

/// A panel of leaves (and possibly child nodes) within one window.
#[derive(Debug, Clone, PartialEq, Eq)]
pub struct Node {
    /// The node's own id within the tree.
    pub id: u64,
    /// The parent node, for nested nodes.
    pub parent: Option<u64>,
    /// Child nodes, in insertion order.
    pub nodes: Vec<u64>,
    /// Leaves of the node, in insertion order.
    pub leaves: Vec<u64>,
    /// The window holding the node, once attached.
    pub window: Option<u64>,
    /// Cursor over `nodes`.
    pub node_index: usize,
    /// Cursor over `leaves`.
    pub leaf_index: usize,
}

/// Mathematical state of a node.
#[verifier::ext_equal]
pub ghost struct NodeView {
    /// The node's own id within the tree.
    pub id: u64,
    /// The parent node, for nested nodes.
    pub parent: Option<u64>,
    /// Child nodes, in insertion order.
    pub nodes: Seq<u64>,
    /// Leaves of the node, in insertion order.
    pub leaves: Seq<u64>,
    /// The window holding the node, once attached.
    pub window: Option<u64>,
    /// Cursor over `nodes`.
    pub node_index: usize,
    /// Cursor over `leaves`.
    pub leaf_index: usize,
}

impl View for Node {
    type V = NodeView;

    open spec fn view(&self) -> NodeView {
        NodeView {
            id: self.id,
            parent: self.parent,
            nodes: self.nodes@,
            leaves: self.leaves@,
            window: self.window,
            node_index: self.node_index,
            leaf_index: self.leaf_index,
        }
    }
}

impl DeepView for Node {
    type V = NodeView;

    open spec fn deep_view(&self) -> NodeView {
        self.view()
    }
}

impl Node {
    /// A bare node with the given id.
    pub fn empty(id: u64) -> (r: Node)
        ensures
            r@.id == id,
            r@.parent is None,
            r@.nodes.len() == 0,
            r@.leaves.len() == 0,
            r@.window is None,
            r@.node_index == 0,
            r@.leaf_index == 0,
    {
        Node {
            id,
            parent: None,
            nodes: Vec::new(),
            leaves: Vec::new(),
            window: None,
            node_index: 0,
            leaf_index: 0,
        }
    }

    /// Attach a child node.
    pub fn with_branch(&mut self, node: &mut Node)
        ensures
            final(node)@ == (NodeView { parent: Some(old(self)@.id), ..old(node)@ }),
            final(self)@ == (NodeView { nodes: old(self)@.nodes.push(old(node)@.id), ..old(self)@ }),
    {
        node.parent = Some(self.id);
        let id = node.id;
        self.nodes.push(id);
        proof {
            assert(node@ =~= (NodeView { parent: Some(old(self)@.id), ..old(node)@ }));
            assert(self@ =~= (NodeView { nodes: old(self)@.nodes.push(old(node)@.id), ..old(self)@ }));
        }
    }

    /// Attach the node to a window.
    pub fn with_window(&mut self, window: u64)
        ensures
            final(self)@ == (NodeView { window: Some(window), ..old(self)@ }),
    {
        self.window = Some(window);
        proof {
            assert(self@ =~= (NodeView { window: Some(window), ..old(self)@ }));
        }
    }

    /// The leaf under the cursor, when there is one.
    pub fn current_leaf(&self) -> (r: Option<u64>)
        ensures
            r == (if self.leaf_index < self.leaves@.len() {
                Some(self.leaves@[self.leaf_index as int])
            } else {
                None::<u64>
            }),
    {
        if self.leaf_index < self.leaves.len() {
            Some(self.leaves[self.leaf_index])
        } else {
            None
        }
    }

    /// Advance the leaf cursor with wrap-around; an empty leaf list is a
    /// failure with no movement.
    pub fn next_leaf(&mut self) -> (r: Option<u64>)
        ensures
            old(self)@.leaves.len() == 0 ==> r is None && final(self)@ == old(self)@,
            old(self)@.leaves.len() > 0 ==> {
                let idx = wrap_next(old(self)@.leaves.len(), old(self)@.leaf_index as nat);
                &&& final(self)@ == (NodeView { leaf_index: idx as usize, ..old(self)@ })
                &&& r == Some(old(self)@.leaves[idx as int])
            },
    {
        let len = self.leaves.len();
        if len == 0 {
            return None;
        }
        if self.leaf_index >= len - 1 {
            self.leaf_index = 0;
        } else {
            self.leaf_index = self.leaf_index + 1;
        }
        proof {
            assert(self@ =~= (NodeView {
                leaf_index: wrap_next(old(self)@.leaves.len(), old(self)@.leaf_index as nat) as usize,
                ..old(self)@
            }));
        }
        Some(self.leaves[self.leaf_index])
    }

    /// Retreat the leaf cursor with wrap-around.
    pub fn previous_leaf(&mut self) -> (r: Option<u64>)
        ensures
            old(self)@.leaves.len() == 0 ==> r is None && final(self)@ == old(self)@,
            old(self)@.leaves.len() > 0 ==> {
                let idx = wrap_prev(old(self)@.leaves.len(), old(self)@.leaf_index as nat);
                &&& final(self)@ == (NodeView { leaf_index: idx as usize, ..old(self)@ })
                &&& r == Some(old(self)@.leaves[idx as int])
            },
    {
        let len = self.leaves.len();
        if len == 0 {
            return None;
        }
        if self.leaf_index == 0 || self.leaf_index > len {
            self.leaf_index = len - 1;
        } else {
            self.leaf_index = self.leaf_index - 1;
        }
        proof {
            assert(self@ =~= (NodeView {
                leaf_index: wrap_prev(old(self)@.leaves.len(), old(self)@.leaf_index as nat) as usize,
                ..old(self)@
            }));
        }
        Some(self.leaves[self.leaf_index])
    }

    /// The child node under the cursor, when there is one.
    pub fn current_node(&self) -> (r: Option<u64>)
        ensures
            r == (if self.node_index < self.nodes@.len() {
                Some(self.nodes@[self.node_index as int])
            } else {
                None::<u64>
            }),
    {
        if self.node_index < self.nodes.len() {
            Some(self.nodes[self.node_index])
        } else {
            None
        }
    }

    /// Advance the child-node cursor with wrap-around.
    pub fn next_node(&mut self) -> (r: Option<u64>)
        ensures
            old(self)@.nodes.len() == 0 ==> r is None && final(self)@ == old(self)@,
            old(self)@.nodes.len() > 0 ==> {
                let idx = wrap_next(old(self)@.nodes.len(), old(self)@.node_index as nat);
                &&& final(self)@ == (NodeView { node_index: idx as usize, ..old(self)@ })
                &&& r == Some(old(self)@.nodes[idx as int])
            },
    {
        let len = self.nodes.len();
        if len == 0 {
            return None;
        }
        if self.node_index >= len - 1 {
            self.node_index = 0;
        } else {
            self.node_index = self.node_index + 1;
        }
        proof {
            assert(self@ =~= (NodeView {
                node_index: wrap_next(old(self)@.nodes.len(), old(self)@.node_index as nat) as usize,
                ..old(self)@
            }));
        }
        Some(self.nodes[self.node_index])
    }

    /// Retreat the child-node cursor with wrap-around.
    pub fn previous_node(&mut self) -> (r: Option<u64>)
        ensures
            old(self)@.nodes.len() == 0 ==> r is None && final(self)@ == old(self)@,
            old(self)@.nodes.len() > 0 ==> {
                let idx = wrap_prev(old(self)@.nodes.len(), old(self)@.node_index as nat);
                &&& final(self)@ == (NodeView { node_index: idx as usize, ..old(self)@ })
                &&& r == Some(old(self)@.nodes[idx as int])
            },
    {
        let len = self.nodes.len();
        if len == 0 {
            return None;
        }
        if self.node_index == 0 || self.node_index > len {
            self.node_index = len - 1;
        } else {
            self.node_index = self.node_index - 1;
        }
        proof {
            assert(self@ =~= (NodeView {
                node_index: wrap_prev(old(self)@.nodes.len(), old(self)@.node_index as nat) as usize,
                ..old(self)@
            }));
        }
        Some(self.nodes[self.node_index])
    }
}

/// Position of the node with the given id, or -1 when absent.
pub open spec fn node_pos(ns: Seq<NodeView>, id: u64) -> int
    decreases ns.len(),
{
    if ns.len() == 0 {
        -1
    } else if ns[0].id == id {
        0
    } else {
        let r = node_pos(ns.skip(1), id);
        if r < 0 {
            -1
        } else {
            r + 1
        }
    }
}

/// Position of the leaf with the given leaf id, or -1 when absent.
pub open spec fn leaf_pos(ls: Seq<Leaf>, leaf_id: u64) -> int
    decreases ls.len(),
{
    if ls.len() == 0 {
        -1
    } else if ls[0].leaf_id == leaf_id {
        0
    } else {
        let r = leaf_pos(ls.skip(1), leaf_id);
        if r < 0 {
            -1
        } else {
            r + 1
        }
    }
}

proof fn lemma_node_pos(ns: Seq<NodeView>, id: u64)
    ensures
        -1 <= node_pos(ns, id) < ns.len(),
        node_pos(ns, id) >= 0 ==> ns[node_pos(ns, id)].id == id,
        node_pos(ns, id) >= 0 ==> forall|j: int| 0 <= j < node_pos(ns, id) ==> ns[j].id != id,
        node_pos(ns, id) < 0 ==> forall|j: int| 0 <= j < ns.len() ==> ns[j].id != id,
    decreases ns.len(),
{
    if ns.len() > 0 && ns[0].id != id {
        lemma_node_pos(ns.skip(1), id);
        assert(forall|j: int| 1 <= j < ns.len() ==> ns[j] == ns.skip(1)[j - 1]);
    }
}

proof fn lemma_leaf_pos(ls: Seq<Leaf>, leaf_id: u64)
    ensures
        -1 <= leaf_pos(ls, leaf_id) < ls.len(),
        leaf_pos(ls, leaf_id) >= 0 ==> ls[leaf_pos(ls, leaf_id)].leaf_id == leaf_id,
        leaf_pos(ls, leaf_id) >= 0 ==> forall|j: int|
            0 <= j < leaf_pos(ls, leaf_id) ==> ls[j].leaf_id != leaf_id,
        leaf_pos(ls, leaf_id) < 0 ==> forall|j: int|
            0 <= j < ls.len() ==> ls[j].leaf_id != leaf_id,
    decreases ls.len(),
{
    if ls.len() > 0 && ls[0].leaf_id != leaf_id {
        lemma_leaf_pos(ls.skip(1), leaf_id);
        assert(forall|j: int| 1 <= j < ls.len() ==> ls[j] == ls.skip(1)[j - 1]);
    }
}

/// Removing an element and inserting another at the same position is an
/// update.
proof fn lemma_remove_insert_is_update<T>(s: Seq<T>, i: int, x: T)
    requires
        0 <= i < s.len(),
    ensures
        s.remove(i).insert(i, x) == s.update(i, x),
{
    s.remove_ensures(i);
    s.remove(i).insert_ensures(i, x);
    assert(s.remove(i).insert(i, x) =~= s.update(i, x));
}

/// The ids, among the first `j` nodes, of nodes attached to the window.
pub open spec fn window_nodes_upto(ns: Seq<NodeView>, window: u64, j: int) -> Seq<u64>
    decreases j,
{
    if j <= 0 {
        Seq::empty()
    } else {
        window_nodes_upto(ns, window, j - 1) + if ns[j - 1].window == Some(window) {
            seq![ns[j - 1].id]
        } else {
            Seq::empty()
        }
    }
}

/// The node ids attached to a window, in insertion order.
pub open spec fn window_nodes(ns: Seq<NodeView>, window: u64) -> Seq<u64> {
    window_nodes_upto(ns, window, ns.len() as int)
}

/// Mathematical state of the focus tree.
#[verifier::ext_equal]
pub ghost struct TreeView {
    /// Activation flag per window.
    pub flags: Seq<(u64, bool)>,
    /// Every registered leaf.
    pub leaves: Seq<Leaf>,
    /// Every registered node.
    pub nodes: Seq<NodeView>,
    /// Every registered window id, in creation order.
    pub windows: Seq<u64>,
    /// The pending one-shot focus request: a widget id.
    pub select: Option<u64>,
    /// Cursor over the current window's node list.
    pub node_index: usize,
    /// Cursor over the window list.
    pub window_index: usize,
    /// Source of fresh tree ids.
    pub counter: u64,
}

/// The widget focus tree.
#[derive(Debug, Clone, PartialEq, Eq)]
pub struct Tree {
    /// Activation flag per window.
    pub flags: Vec<(u64, bool)>,
    /// Every registered leaf.
    pub leaves: Vec<Leaf>,
    /// Every registered node.
    pub nodes: Vec<Node>,
    /// Every registered window id, in creation order.
    pub windows: Vec<u64>,
    /// The pending one-shot focus request: a widget id.
    pub select: Option<u64>,
    /// Cursor over the current window's node list.
    pub node_index: usize,
    /// Cursor over the window list.
    pub window_index: usize,
    /// Source of fresh tree ids.
    pub counter: u64,
}

impl View for Tree {
    type V = TreeView;

    open spec fn view(&self) -> TreeView {
        TreeView {
            flags: self.flags@,
            leaves: self.leaves@,
            nodes: self.nodes.deep_view(),
            windows: self.windows@,
            select: self.select,
            node_index: self.node_index,
            window_index: self.window_index,
            counter: self.counter,
        }
    }
}

/// The current window id, when the window cursor is in bounds.
pub open spec fn spec_current_window(t: TreeView) -> Option<u64> {
    if t.window_index < t.windows.len() {
        Some(t.windows[t.window_index as int])
    } else {
        None
    }
}

/// The current node id: the node-list cursor resolved inside the current
/// window's node ids.
pub open spec fn spec_current_node(t: TreeView) -> Option<u64> {
    match spec_current_window(t) {
        Some(w) => {
            let ids = window_nodes(t.nodes, w);
            if t.node_index < ids.len() {
                Some(ids[t.node_index as int])
            } else {
                None
            }
        },
        None => None,
    }
}

/// The current leaf id: the current node's leaf cursor resolved.
pub open spec fn spec_current_leaf(t: TreeView) -> Option<u64> {
    match spec_current_node(t) {
        Some(id) => {
            let p = node_pos(t.nodes, id);
            if p >= 0 {
                let n = t.nodes[p];
                if n.leaf_index < n.leaves.len() {
                    Some(n.leaves[n.leaf_index as int])
                } else {
                    None
                }
            } else {
                None
            }
        },
        None => None,
    }
}

impl Default for Tree {
    fn default() -> (r: Self)
        ensures
            r@.flags.len() == 0,
            r@.leaves.len() == 0,
            r@.nodes.len() == 0,
            r@.windows.len() == 0,
            r@.select is None,
            r@.node_index == 0,
            r@.window_index == 0,
            r@.counter == 0,
    {
        Tree {
            flags: Vec::new(),
            leaves: Vec::new(),
            nodes: Vec::new(),
            windows: Vec::new(),
            select: None,
            node_index: 0,
            window_index: 0,
            counter: 0,
        }
    }
}

impl Tree {
    /// An empty focus tree.
    pub fn new() -> (r: Self)
        ensures
            r@.flags.len() == 0,
            r@.leaves.len() == 0,
            r@.nodes.len() == 0,
            r@.windows.len() == 0,
            r@.select is None,
            r@.node_index == 0,
            r@.window_index == 0,
            r@.counter == 0,
    {
        Default::default()
    }

    /// Register a leaf for a widget id; yields the leaf's tree id.
    pub fn leaf(&mut self, id: u64) -> (r: u64)
        requires
            old(self)@.counter < u64::MAX,
        ensures
            r == old(self)@.counter,
            final(self)@ == (TreeView {
                leaves: old(self)@.leaves.push(Leaf { id, leaf_id: old(self)@.counter, parent: None }),
                counter: (old(self)@.counter + 1) as u64,
                ..old(self)@
            }),
    {
        let leaf_id = self.counter;
        self.counter = self.counter + 1;
        self.leaves.push(Leaf { id, leaf_id, parent: None });
        proof {
            assert(self@ =~= (TreeView {
                leaves: old(self)@.leaves.push(Leaf { id, leaf_id: old(self)@.counter, parent: None }),
                counter: (old(self)@.counter + 1) as u64,
                ..old(self)@
            }));
        }
        leaf_id
    }

    /// Register an empty node; yields the node's tree id.
    pub fn node(&mut self) -> (r: u64)
        requires
            old(self)@.counter < u64::MAX,
        ensures
            r == old(self)@.counter,
            final(self)@.nodes.len() == old(self)@.nodes.len() + 1,
            final(self)@.nodes[final(self)@.nodes.len() - 1].id == r,
            final(self)@.nodes[final(self)@.nodes.len() - 1].leaves.len() == 0,
            final(self)@.nodes[final(self)@.nodes.len() - 1].window is None,
            forall|k: int|
                0 <= k < old(self)@.nodes.len() ==> final(self)@.nodes[k] == old(self)@.nodes[k],
            final(self)@ == (TreeView {
                nodes: final(self)@.nodes,
                counter: (old(self)@.counter + 1) as u64,
                ..old(self)@
            }),
    {
        let id = self.counter;
        self.counter = self.counter + 1;
        self.nodes.push(Node::empty(id));
        proof {
            assert(self@ =~= (TreeView {
                nodes: self@.nodes,
                counter: (old(self)@.counter + 1) as u64,
                ..old(self)@
            }));
        }
        id
    }

    /// Register a window; yields its id, with its flag off.
    pub fn window(&mut self) -> (r: u64)
        requires
            old(self)@.counter < u64::MAX,
        ensures
            r == old(self)@.counter,
            final(self)@ == (TreeView {
                windows: old(self)@.windows.push(old(self)@.counter),
                flags: old(self)@.flags.push((old(self)@.counter, false)),
                counter: (old(self)@.counter + 1) as u64,
                ..old(self)@
            }),
    {
        let id = self.counter;
        self.counter = self.counter + 1;
        self.windows.push(id);
        self.flags.push((id, false));
        proof {
            assert(self@ =~= (TreeView {
                windows: old(self)@.windows.push(old(self)@.counter),
                flags: old(self)@.flags.push((old(self)@.counter, false)),
                counter: (old(self)@.counter + 1) as u64,
                ..old(self)@
            }));
        }
        id
    }

    /// Request focus for a widget id on the next draw pass.
    pub fn select(&mut self, id: u64)
        ensures
            final(self)@ == (TreeView { select: Some(id), ..old(self)@ }),
    {
        self.select = Some(id);
        proof {
            assert(self@ =~= (TreeView { select: Some(id), ..old(self)@ }));
        }
    }

    /// The pending focus request, if any.
    pub fn selected(&self) -> (r: Option<u64>)
        ensures
            r == self@.select,
    {
        self.select
    }

    /// Clear the pending focus request: the one-shot signal was read.
    pub fn clear_selected(&mut self)
        ensures
            final(self)@ == (TreeView { select: None, ..old(self)@ }),
    {
        self.select = None;
        proof {
            assert(self@ =~= (TreeView { select: None, ..old(self)@ }));
        }
    }

    /// Attach a registered leaf to a registered node: the leaf's parent
    /// is set and the node's leaf list grows; a missing leaf changes
    /// nothing, and a missing node still adopts the leaf's parent, as a
    /// dangling attachment.
    pub fn with_leaf(&mut self, node: u64, leaf: u64)
        ensures
            ({
                let lp = leaf_pos(old(self)@.leaves, leaf);
                let np = node_pos(old(self)@.nodes, node);
                if lp < 0 {
                    final(self)@ == old(self)@
                } else {
                    let leaves2 = old(self)@.leaves.update(
                        lp,
                        Leaf { parent: Some(node), ..old(self)@.leaves[lp] },
                    );
                    if np < 0 {
                        final(self)@ == (TreeView { leaves: leaves2, ..old(self)@ })
                    } else {
                        final(self)@ == (TreeView {
                            leaves: leaves2,
                            nodes: old(self)@.nodes.update(
                                np,
                                NodeView {
                                    leaves: old(self)@.nodes[np].leaves.push(leaf),
                                    ..old(self)@.nodes[np]
                                },
                            ),
                            ..old(self)@
                        })
                    }
                }
            }),
    {
        proof {
            lemma_leaf_pos(old(self)@.leaves, leaf);
            lemma_node_pos(old(self)@.nodes, node);
        }
        let lp = match self.find_leaf(leaf) {
            Some(lp) => lp,
            None => {
                proof {
                    assert(self@ =~= old(self)@);
                }
                return ;
            },
        };
        let llen = self.leaves.len();
        proof {
            assert(old(self)@.leaves.len() == llen);
        }
        let mut entry = self.leaves.remove(lp);
        entry.parent = Some(node);
        let ghost entry2 = entry;
        self.leaves.insert(lp, entry);
        proof {
            lemma_remove_insert_is_update(old(self)@.leaves, lp as int, entry2);
            assert(self@.leaves =~= old(self)@.leaves.update(
                leaf_pos(old(self)@.leaves, leaf),
                Leaf {
                    parent: Some(node),
                    ..old(self)@.leaves[leaf_pos(old(self)@.leaves, leaf)]
                },
            ));
        }
        match self.find_node(node) {
            Some(np) => {
                let nlen = self.nodes.len();
                proof {
                    assert(self@.nodes.len() == nlen);
                }
                let ghost pre_nodes = self.nodes@;
                let mut n = self.nodes.remove(np);
                n.leaves.push(leaf);
                let ghost n2 = n;
                self.nodes.insert(np, n);
                proof {
                    let np0 = node_pos(old(self)@.nodes, node);
                    lemma_remove_insert_is_update(pre_nodes, np as int, n2);
                    assert(self.nodes@ == pre_nodes.update(np as int, n2));
                    assert(np as int == np0);
                    assert(pre_nodes[np0].deep_view() == old(self)@.nodes[np0]);
                    assert(n2@ == (NodeView {
                        leaves: old(self)@.nodes[np0].leaves.push(leaf),
                        ..old(self)@.nodes[np0]
                    }));
                    assert(self@.nodes =~= old(self)@.nodes.update(
                        np0,
                        NodeView {
                            leaves: old(self)@.nodes[np0].leaves.push(leaf),
                            ..old(self)@.nodes[np0]
                        },
                    ));
                    assert(self@ =~= (TreeView {
                        leaves: self@.leaves,
                        nodes: self@.nodes,
                        ..old(self)@
                    }));
                }
            },
            None => {
                proof {
                    assert(self@ =~= (TreeView { leaves: self@.leaves, ..old(self)@ }));
                }
            },
        }
    }

    /// Register a prepared node under its own id.
    pub fn with_node(&mut self, node: Node)
        ensures
            final(self)@ == (TreeView { nodes: old(self)@.nodes.push(node@), ..old(self)@ }),
    {
        let ghost n = node;
        self.nodes.push(node);
        proof {
            assert(self@ =~= (TreeView { nodes: old(self)@.nodes.push(n@), ..old(self)@ }));
        }
    }

    /// Attach a registered node to a window; a missing node changes
    /// nothing.
    pub fn with_window(&mut self, node: u64, window: u64)
        ensures
            ({
                let np = node_pos(old(self)@.nodes, node);
                if np < 0 {
                    final(self)@ == old(self)@
                } else {
                    final(self)@ == (TreeView {
                        nodes: old(self)@.nodes.update(
                            np,
                            NodeView { window: Some(window), ..old(self)@.nodes[np] },
                        ),
                        ..old(self)@
                    })
                }
            }),
    {
        proof {
            lemma_node_pos(old(self)@.nodes, node);
        }
        match self.find_node(node) {
            Some(np) => {
                let nlen = self.nodes.len();
                proof {
                    assert(self@.nodes.len() == nlen);
                }
                let ghost pre_nodes = self.nodes@;
                let mut n = self.nodes.remove(np);
                n.with_window(window);
                let ghost n2 = n;
                self.nodes.insert(np, n);
                proof {
                    let np0 = node_pos(old(self)@.nodes, node);
                    lemma_remove_insert_is_update(pre_nodes, np as int, n2);
                    assert(self.nodes@ == pre_nodes.update(np as int, n2));
                    assert(np as int == np0);
                    assert(pre_nodes[np0].deep_view() == old(self)@.nodes[np0]);
                    assert(n2@ == (NodeView { window: Some(window), ..old(self)@.nodes[np0] }));
                    assert(self@.nodes =~= old(self)@.nodes.update(
                        np0,
                        NodeView { window: Some(window), ..old(self)@.nodes[np0] },
                    ));
                    assert(self@ =~= (TreeView { nodes: self@.nodes, ..old(self)@ }));
                }
            },
            None => {
                proof {
                    assert(self@ =~= old(self)@);
                }
            },
        }
    }

    /// Position of the node with the given id.
    fn find_node(&self, id: u64) -> (r: Option<usize>)
        ensures
            node_pos(self@.nodes, id) >= 0 ==> r == Some(node_pos(self@.nodes, id) as usize),
            node_pos(self@.nodes, id) < 0 ==> r is None,
    {
        proof {
            lemma_node_pos(self@.nodes, id);
        }
        let mut i: usize = 0;
        while i < self.nodes.len()
            invariant
                i <= self@.nodes.len(),
                forall|j: int| 0 <= j < i ==> self@.nodes[j].id != id,
            decreases self@.nodes.len() - i,
        {
            if self.nodes[i].id == id {
                proof {
                    lemma_node_pos(self@.nodes, id);
                    let p = node_pos(self@.nodes, id);
                    if p < i {
                        assert(self@.nodes[p].id != id);
                    }
                    if p > i {
                        assert(self@.nodes[i as int].id != id);
                    }
                }
                return Some(i);
            }
            i += 1;
        }
        proof {
            lemma_node_pos(self@.nodes, id);
        }
        None
    }

    /// Position of the leaf with the given leaf id.
    fn find_leaf(&self, leaf_id: u64) -> (r: Option<usize>)
        ensures
            leaf_pos(self@.leaves, leaf_id) >= 0 ==> r == Some(
                leaf_pos(self@.leaves, leaf_id) as usize,
            ),
            leaf_pos(self@.leaves, leaf_id) < 0 ==> r is None,
    {
        proof {
            lemma_leaf_pos(self@.leaves, leaf_id);
        }
        let mut i: usize = 0;
        while i < self.leaves.len()
            invariant
                i <= self@.leaves.len(),
                forall|j: int| 0 <= j < i ==> self@.leaves[j].leaf_id != leaf_id,
            decreases self@.leaves.len() - i,
        {
            if self.leaves[i].leaf_id == leaf_id {
                proof {
                    lemma_leaf_pos(self@.leaves, leaf_id);
                    let p = leaf_pos(self@.leaves, leaf_id);
                    if p < i {
                        assert(self@.leaves[p].leaf_id != leaf_id);
                    }
                    if p > i {
                        assert(self@.leaves[i as int].leaf_id != leaf_id);
                    }
                }
                return Some(i);
            }
            i += 1;
        }
        proof {
            lemma_leaf_pos(self@.leaves, leaf_id);
        }
        None
    }

    /// The node ids attached to a window, in insertion order.
    pub fn get_window(&self, window: u64) -> (r: Vec<u64>)
        ensures
            r@ == window_nodes(self@.nodes, window),
    {
        let mut out: Vec<u64> = Vec::new();
        let mut i: usize = 0;
        while i < self.nodes.len()
            invariant
                i <= self@.nodes.len(),
                out@ == window_nodes_upto(self@.nodes, window, i as int),
            decreases self@.nodes.len() - i,
        {
            let n = &self.nodes[i];
            let is_here = match n.window {
                Some(w) => w == window,
                None => false,
            };
            if is_here {
                let id = n.id;
                out.push(id);
                proof {
                    assert(out@ =~= window_nodes_upto(self@.nodes, window, i as int) + seq![
                        self@.nodes[i as int].id,
                    ]);
                }
            } else {
                proof {
                    assert(out@ =~= window_nodes_upto(self@.nodes, window, i as int)
                        + Seq::<u64>::empty());
                }
            }
            i += 1;
        }
        out
    }

    /// The current window id; an empty window list is a failure.
    pub fn current_window(&self) -> (r: Option<u64>)
        ensures
            r == spec_current_window(self@),
    {
        if self.window_index < self.windows.len() {
            Some(self.windows[self.window_index])
        } else {
            None
        }
    }

    /// Advance the window cursor with wrap-around; an empty window list
    /// fails and moves nothing.
    pub fn next_window(&mut self) -> (r: Option<u64>)
        ensures
            old(self)@.windows.len() == 0 ==> r is None && final(self)@ == old(self)@,
            old(self)@.windows.len() > 0 ==> {
                let idx = wrap_next(old(self)@.windows.len(), old(self)@.window_index as nat);
                &&& final(self)@ == (TreeView { window_index: idx as usize, ..old(self)@ })
                &&& r == Some(old(self)@.windows[idx as int])
            },
    {
        let len = self.windows.len();
        if len == 0 {
            proof {
                assert(self@ =~= old(self)@);
            }
            return None;
        }
        if self.window_index >= len - 1 {
            self.window_index = 0;
        } else {
            self.window_index = self.window_index + 1;
        }
        proof {
            assert(self@ =~= (TreeView {
                window_index: wrap_next(old(self)@.windows.len(), old(self)@.window_index as nat) as usize,
                ..old(self)@
            }));
        }
        Some(self.windows[self.window_index])
    }

    /// Retreat the window cursor with wrap-around.
    pub fn previous_window(&mut self) -> (r: Option<u64>)
        ensures
            old(self)@.windows.len() == 0 ==> r is None && final(self)@ == old(self)@,
            old(self)@.windows.len() > 0 ==> {
                let idx = wrap_prev(old(self)@.windows.len(), old(self)@.window_index as nat);
                &&& final(self)@ == (TreeView { window_index: idx as usize, ..old(self)@ })
                &&& r == Some(old(self)@.windows[idx as int])
            },
    {
        let len = self.windows.len();
        if len == 0 {
            proof {
                assert(self@ =~= old(self)@);
            }
            return None;
        }
        if self.window_index == 0 || self.window_index > len {
            self.window_index = len - 1;
        } else {
            self.window_index = self.window_index - 1;
        }
        proof {
            assert(self@ =~= (TreeView {
                window_index: wrap_prev(old(self)@.windows.len(), old(self)@.window_index as nat) as usize,
                ..old(self)@
            }));
        }
        Some(self.windows[self.window_index])
    }

    /// The current node id within the current window.
    pub fn current_node(&self) -> (r: Option<u64>)
        ensures
            r == spec_current_node(self@),
    {
        match self.current_window() {
            Some(w) => {
                let ids = self.get_window(w);
                if self.node_index < ids.len() {
                    Some(ids[self.node_index])
                } else {
                    None
                }
            },
            None => None,
        }
    }

    /// Advance the node cursor over the current window's nodes with
    /// wrap-around; an empty level fails and moves nothing.
    pub fn next_node(&mut self) -> (r: Option<u64>)
        ensures
            ({
                match spec_current_window(old(self)@) {
                    Some(w) => {
                        let ids = window_nodes(old(self)@.nodes, w);
                        if ids.len() == 0 {
                            r is None && final(self)@ == old(self)@
                        } else {
                            let idx = wrap_next(ids.len(), old(self)@.node_index as nat);
                            &&& final(self)@ == (TreeView { node_index: idx as usize, ..old(self)@ })
                            &&& r == Some(ids[idx as int])
                        }
                    },
                    None => r is None && final(self)@ == old(self)@,
                }
            }),
    {
        let w = match self.current_window() {
            Some(w) => w,
            None => {
                return None;
            },
        };
        let ids = self.get_window(w);
        let len = ids.len();
        if len == 0 {
            return None;
        }
        if self.node_index >= len - 1 {
            self.node_index = 0;
        } else {
            self.node_index = self.node_index + 1;
        }
        proof {
            assert(self@ =~= (TreeView {
                node_index: wrap_next(ids@.len(), old(self)@.node_index as nat) as usize,
                ..old(self)@
            }));
        }
        Some(ids[self.node_index])
    }

    /// Retreat the node cursor over the current window's nodes.
    pub fn previous_node(&mut self) -> (r: Option<u64>)
        ensures
            ({
                match spec_current_window(old(self)@) {
                    Some(w) => {
                        let ids = window_nodes(old(self)@.nodes, w);
                        if ids.len() == 0 {
                            r is None && final(self)@ == old(self)@
                        } else {
                            let idx = wrap_prev(ids.len(), old(self)@.node_index as nat);
                            &&& final(self)@ == (TreeView { node_index: idx as usize, ..old(self)@ })
                            &&& r == Some(ids[idx as int])
                        }
                    },
                    None => r is None && final(self)@ == old(self)@,
                }
            }),
    {
        let w = match self.current_window() {
            Some(w) => w,
            None => {
                return None;
            },
        };
        let ids = self.get_window(w);
        let len = ids.len();
        if len == 0 {
            return None;
        }
        if self.node_index == 0 || self.node_index > len {
            self.node_index = len - 1;
        } else {
            self.node_index = self.node_index - 1;
        }
        proof {
            assert(self@ =~= (TreeView {
                node_index: wrap_prev(ids@.len(), old(self)@.node_index as nat) as usize,
                ..old(self)@
            }));
        }
        Some(ids[self.node_index])
    }

    /// The current leaf id within the current node.
    pub fn current_leaf(&self) -> (r: Option<u64>)
        ensures
            r == spec_current_leaf(self@),
    {
        let id = match self.current_node() {
            Some(id) => id,
            None => {
                return None;
            },
        };
        proof {
            lemma_node_pos(self@.nodes, id);
        }
        match self.find_node(id) {
            Some(p) => {
                let nlen = self.nodes.len();
                proof {
                    assert(self@.nodes.len() == nlen);
                    assert(p as int == node_pos(self@.nodes, id));
                    assert(self.nodes@[p as int].deep_view() == self@.nodes[p as int]);
                }
                self.nodes[p].current_leaf()
            },
            None => None,
        }
    }

    /// Advance the current node's leaf cursor; yields the new leaf id.
    pub fn next_leaf(&mut self) -> (r: Option<u64>)
        ensures
            ({
                match spec_current_node(old(self)@) {
                    Some(id) => {
                        let p = node_pos(old(self)@.nodes, id);
                        if p >= 0 {
                            let n = old(self)@.nodes[p];
                            if n.leaves.len() == 0 {
                                r is None && final(self)@ == old(self)@
                            } else {
                                let idx = wrap_next(n.leaves.len(), n.leaf_index as nat);
                                &&& final(self)@ == (TreeView {
                                    nodes: old(self)@.nodes.update(
                                        p,
                                        NodeView { leaf_index: idx as usize, ..n },
                                    ),
                                    ..old(self)@
                                })
                                &&& r == Some(n.leaves[idx as int])
                            }
                        } else {
                            r is None && final(self)@ == old(self)@
                        }
                    },
                    None => r is None && final(self)@ == old(self)@,
                }
            }),
    {
        let id = match self.current_node() {
            Some(id) => id,
            None => {
                return None;
            },
        };
        proof {
            lemma_node_pos(self@.nodes, id);
        }
        match self.find_node(id) {
            Some(p) => {
                let nlen = self.nodes.len();
                proof {
                    assert(self@.nodes.len() == nlen);
                }
                let ghost pre_nodes = self.nodes@;
                let mut n = self.nodes.remove(p);
                let out = n.next_leaf();
                let ghost n2 = n;
                self.nodes.insert(p, n);
                proof {
                    let p0 = node_pos(old(self)@.nodes, id);
                    lemma_remove_insert_is_update(pre_nodes, p as int, n2);
                    assert(self.nodes@ == pre_nodes.update(p as int, n2));
                    assert(p as int == p0);
                    assert(pre_nodes[p0].deep_view() == old(self)@.nodes[p0]);
                    if out is None {
                        assert(n2@ == old(self)@.nodes[p0]);
                        assert(self@.nodes =~= old(self)@.nodes);
                        assert(self@ =~= old(self)@);
                    } else {
                        assert(n2@ == (NodeView {
                            leaf_index: wrap_next(
                                old(self)@.nodes[p0].leaves.len(),
                                old(self)@.nodes[p0].leaf_index as nat,
                            ) as usize,
                            ..old(self)@.nodes[p0]
                        }));
                        assert(self@.nodes =~= old(self)@.nodes.update(
                            p0,
                            NodeView {
                                leaf_index: wrap_next(
                                    old(self)@.nodes[p0].leaves.len(),
                                    old(self)@.nodes[p0].leaf_index as nat,
                                ) as usize,
                                ..old(self)@.nodes[p0]
                            },
                        ));
                        assert(self@ =~= (TreeView { nodes: self@.nodes, ..old(self)@ }));
                    }
                }
                out
            },
            None => None,
        }
    }

    /// Retreat the current node's leaf cursor; yields the new leaf id.
    pub fn previous_leaf(&mut self) -> (r: Option<u64>)
        ensures
            ({
                match spec_current_node(old(self)@) {
                    Some(id) => {
                        let p = node_pos(old(self)@.nodes, id);
                        if p >= 0 {
                            let n = old(self)@.nodes[p];
                            if n.leaves.len() == 0 {
                                r is None && final(self)@ == old(self)@
                            } else {
                                let idx = wrap_prev(n.leaves.len(), n.leaf_index as nat);
                                &&& final(self)@ == (TreeView {
                                    nodes: old(self)@.nodes.update(
                                        p,
                                        NodeView { leaf_index: idx as usize, ..n },
                                    ),
                                    ..old(self)@
                                })
                                &&& r == Some(n.leaves[idx as int])
                            }
                        } else {
                            r is None && final(self)@ == old(self)@
                        }
                    },
                    None => r is None && final(self)@ == old(self)@,
                }
            }),
    {
        let id = match self.current_node() {
            Some(id) => id,
            None => {
                return None;
            },
        };
        proof {
            lemma_node_pos(self@.nodes, id);
        }
        match self.find_node(id) {
            Some(p) => {
                let nlen = self.nodes.len();
                proof {
                    assert(self@.nodes.len() == nlen);
                }
                let ghost pre_nodes = self.nodes@;
                let mut n = self.nodes.remove(p);
                let out = n.previous_leaf();
                let ghost n2 = n;
                self.nodes.insert(p, n);
                proof {
                    let p0 = node_pos(old(self)@.nodes, id);
                    lemma_remove_insert_is_update(pre_nodes, p as int, n2);
                    assert(self.nodes@ == pre_nodes.update(p as int, n2));
                    assert(p as int == p0);
                    assert(pre_nodes[p0].deep_view() == old(self)@.nodes[p0]);
                    if out is None {
                        assert(n2@ == old(self)@.nodes[p0]);
                        assert(self@.nodes =~= old(self)@.nodes);
                        assert(self@ =~= old(self)@);
                    } else {
                        assert(n2@ == (NodeView {
                            leaf_index: wrap_prev(
                                old(self)@.nodes[p0].leaves.len(),
                                old(self)@.nodes[p0].leaf_index as nat,
                            ) as usize,
                            ..old(self)@.nodes[p0]
                        }));
                        assert(self@.nodes =~= old(self)@.nodes.update(
                            p0,
                            NodeView {
                                leaf_index: wrap_prev(
                                    old(self)@.nodes[p0].leaves.len(),
                                    old(self)@.nodes[p0].leaf_index as nat,
                                ) as usize,
                                ..old(self)@.nodes[p0]
                            },
                        ));
                        assert(self@ =~= (TreeView { nodes: self@.nodes, ..old(self)@ }));
                    }
                }
                out
            },
            None => None,
        }
    }
}

} // verus!

verus! {

/// Step of the window cursor, with the window it lands on.
pub open spec fn spec_next_window(t: TreeView) -> (TreeView, Option<u64>) {
    if t.windows.len() == 0 {
        (t, None)
    } else {
        let idx = wrap_next(t.windows.len(), t.window_index as nat);
        (TreeView { window_index: idx as usize, ..t }, Some(t.windows[idx as int]))
    }
}

/// Retreat of the window cursor, with the window it lands on.
pub open spec fn spec_previous_window(t: TreeView) -> (TreeView, Option<u64>) {
    if t.windows.len() == 0 {
        (t, None)
    } else {
        let idx = wrap_prev(t.windows.len(), t.window_index as nat);
        (TreeView { window_index: idx as usize, ..t }, Some(t.windows[idx as int]))
    }
}

/// Step of the node cursor within the current window.
pub open spec fn spec_next_node(t: TreeView) -> (TreeView, Option<u64>) {
    match spec_current_window(t) {
        Some(w) => {
            let ids = window_nodes(t.nodes, w);
            if ids.len() == 0 {
                (t, None)
            } else {
                let idx = wrap_next(ids.len(), t.node_index as nat);
                (TreeView { node_index: idx as usize, ..t }, Some(ids[idx as int]))
            }
        },
        None => (t, None),
    }
}

/// Retreat of the node cursor within the current window.
pub open spec fn spec_previous_node(t: TreeView) -> (TreeView, Option<u64>) {
    match spec_current_window(t) {
        Some(w) => {
            let ids = window_nodes(t.nodes, w);
            if ids.len() == 0 {
                (t, None)
            } else {
                let idx = wrap_prev(ids.len(), t.node_index as nat);
                (TreeView { node_index: idx as usize, ..t }, Some(ids[idx as int]))
            }
        },
        None => (t, None),
    }
}

/// Step of the current node's leaf cursor, with the leaf it lands on.
pub open spec fn spec_next_leaf(t: TreeView) -> (TreeView, Option<u64>) {
    match spec_current_node(t) {
        Some(id) => {
            let p = node_pos(t.nodes, id);
            if p >= 0 {
                let n = t.nodes[p];
                if n.leaves.len() == 0 {
                    (t, None)
                } else {
                    let idx = wrap_next(n.leaves.len(), n.leaf_index as nat);
                    (
                        TreeView {
                            nodes: t.nodes.update(p, NodeView { leaf_index: idx as usize, ..n }),
                            ..t
                        },
                        Some(n.leaves[idx as int]),
                    )
                }
            } else {
                (t, None)
            }
        },
        None => (t, None),
    }
}

/// Retreat of the current node's leaf cursor.
pub open spec fn spec_previous_leaf(t: TreeView) -> (TreeView, Option<u64>) {
    match spec_current_node(t) {
        Some(id) => {
            let p = node_pos(t.nodes, id);
            if p >= 0 {
                let n = t.nodes[p];
                if n.leaves.len() == 0 {
                    (t, None)
                } else {
                    let idx = wrap_prev(n.leaves.len(), n.leaf_index as nat);
                    (
                        TreeView {
                            nodes: t.nodes.update(p, NodeView { leaf_index: idx as usize, ..n }),
                            ..t
                        },
                        Some(n.leaves[idx as int]),
                    )
                }
            } else {
                (t, None)
            }
        },
        None => (t, None),
    }
}

/// Store the widget id of the given leaf as the pending focus request;
/// an unknown or missing leaf changes nothing.
pub open spec fn spec_select_on(t: TreeView, leaf: Option<u64>) -> TreeView {
    match leaf {
        Some(lid) => {
            let p = leaf_pos(t.leaves, lid);
            if p >= 0 {
                TreeView { select: Some(t.leaves[p].id), ..t }
            } else {
                t
            }
        },
        None => t,
    }
}

impl Tree {
    /// Request focus for the current leaf's widget on the next draw
    /// pass; a missing leaf changes nothing.
    pub fn select_current(&mut self)
        ensures
            final(self)@ == spec_select_on(old(self)@, spec_current_leaf(old(self)@)),
    {
        let lid = match self.current_leaf() {
            Some(lid) => lid,
            None => {
                return ;
            },
        };
        let llen = self.leaves.len();
        proof {
            assert(self@.leaves.len() == llen);
            lemma_leaf_pos(self@.leaves, lid);
        }
        match self.find_leaf(lid) {
            Some(p) => {
                let widget = self.leaves[p].id;
                self.select = Some(widget);
                proof {
                    assert(self@ =~= spec_select_on(old(self)@, spec_current_leaf(old(self)@)));
                }
            },
            None => {},
        }
    }

    /// Advance the leaf cursor, then request focus for the leaf reached.
    pub fn select_next(&mut self)
        ensures
            final(self)@ == ({
                let (t1, leaf) = spec_next_leaf(old(self)@);
                spec_select_on(t1, leaf)
            }),
    {
        let leaf = self.next_leaf();
        let ghost t1 = self@;
        match leaf {
            Some(lid) => {
                let llen = self.leaves.len();
                proof {
                    assert(self@.leaves.len() == llen);
                    lemma_leaf_pos(self@.leaves, lid);
                }
                match self.find_leaf(lid) {
                    Some(p) => {
                        let widget = self.leaves[p].id;
                        self.select = Some(widget);
                        proof {
                            assert(self@ =~= spec_select_on(t1, Some(lid)));
                        }
                    },
                    None => {},
                }
            },
            None => {},
        }
    }

    /// Retreat the leaf cursor, then request focus for the leaf reached.
    pub fn select_previous(&mut self)
        ensures
            final(self)@ == ({
                let (t1, leaf) = spec_previous_leaf(old(self)@);
                spec_select_on(t1, leaf)
            }),
    {
        let leaf = self.previous_leaf();
        let ghost t1 = self@;
        match leaf {
            Some(lid) => {
                let llen = self.leaves.len();
                proof {
                    assert(self@.leaves.len() == llen);
                    lemma_leaf_pos(self@.leaves, lid);
                }
                match self.find_leaf(lid) {
                    Some(p) => {
                        let widget = self.leaves[p].id;
                        self.select = Some(widget);
                        proof {
                            assert(self@ =~= spec_select_on(t1, Some(lid)));
                        }
                    },
                    None => {},
                }
            },
            None => {},
        }
    }

    /// Advance the node cursor, then request focus for its current leaf.
    pub fn select_next_node(&mut self)
        ensures
            final(self)@ == ({
                let (t1, _) = spec_next_node(old(self)@);
                spec_select_on(t1, spec_current_leaf(t1))
            }),
    {
        let _ = self.next_node();
        self.select_current();
    }

    /// Retreat the node cursor, then request focus for its current leaf.
    pub fn select_previous_node(&mut self)
        ensures
            final(self)@ == ({
                let (t1, _) = spec_previous_node(old(self)@);
                spec_select_on(t1, spec_current_leaf(t1))
            }),
    {
        let _ = self.previous_node();
        self.select_current();
    }

    /// Advance the window cursor, then request focus for its current
    /// leaf.
    pub fn select_next_window(&mut self)
        ensures
            final(self)@ == ({
                let (t1, _) = spec_next_window(old(self)@);
                spec_select_on(t1, spec_current_leaf(t1))
            }),
    {
        let _ = self.next_window();
        self.select_current();
    }

    /// Retreat the window cursor, then request focus for its current
    /// leaf.
    pub fn select_previous_window(&mut self)
        ensures
            final(self)@ == ({
                let (t1, _) = spec_previous_window(old(self)@);
                spec_select_on(t1, spec_current_leaf(t1))
            }),
    {
        let _ = self.previous_window();
        self.select_current();
    }

    /// Dispatch one widget focus action to the tree; the row motions
    /// belong to the table widget, not the tree, so they and the no-op
    /// leave it alone.
    pub fn act(&mut self, act: &crate::acts::EguiAct)
        ensures
            final(self)@ == spec_tree_act(old(self)@, *act),
    {
        match act {
            crate::acts::EguiAct::Right => {
                let _ = self.next_node();
                self.select_current();
            },
            crate::acts::EguiAct::Left => {
                let _ = self.previous_node();
                self.select_current();
            },
            crate::acts::EguiAct::Up => self.select_previous(),
            crate::acts::EguiAct::Down => self.select_next(),
            crate::acts::EguiAct::Next => self.select_next_node(),
            crate::acts::EguiAct::Previous => self.select_previous_node(),
            crate::acts::EguiAct::NextWindow => self.select_next_window(),
            crate::acts::EguiAct::PreviousWindow => self.select_previous_window(),
            crate::acts::EguiAct::NextRow => {},
            crate::acts::EguiAct::PreviousRow => {},
            crate::acts::EguiAct::FocusedLeaf => {},
            crate::acts::EguiAct::Be => {},
        }
    }
}

/// What one widget focus action does to the tree.
pub open spec fn spec_tree_act(t: TreeView, act: crate::acts::EguiAct) -> TreeView {
    match act {
        crate::acts::EguiAct::Right => {
            let (t1, _) = spec_next_node(t);
            spec_select_on(t1, spec_current_leaf(t1))
        },
        crate::acts::EguiAct::Left => {
            let (t1, _) = spec_previous_node(t);
            spec_select_on(t1, spec_current_leaf(t1))
        },
        crate::acts::EguiAct::Up => {
            let (t1, leaf) = spec_previous_leaf(t);
            spec_select_on(t1, leaf)
        },
        crate::acts::EguiAct::Down => {
            let (t1, leaf) = spec_next_leaf(t);
            spec_select_on(t1, leaf)
        },
        crate::acts::EguiAct::Next => {
            let (t1, _) = spec_next_node(t);
            spec_select_on(t1, spec_current_leaf(t1))
        },
        crate::acts::EguiAct::Previous => {
            let (t1, _) = spec_previous_node(t);
            spec_select_on(t1, spec_current_leaf(t1))
        },
        crate::acts::EguiAct::NextWindow => {
            let (t1, _) = spec_next_window(t);
            spec_select_on(t1, spec_current_leaf(t1))
        },
        crate::acts::EguiAct::PreviousWindow => {
            let (t1, _) = spec_previous_window(t);
            spec_select_on(t1, spec_current_leaf(t1))
        },
        crate::acts::EguiAct::NextRow => t,
        crate::acts::EguiAct::PreviousRow => t,
        crate::acts::EguiAct::FocusedLeaf => t,
        crate::acts::EguiAct::Be => t,
    }
}

} // verus!
