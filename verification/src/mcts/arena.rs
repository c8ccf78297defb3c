use vstd::prelude::*;

use crate::domain::action::RelativeAction;

use super::node::{action_code, fresh_node, wrap_dec, wrap_inc, Node, NO_NODE};

verus! {

/// Preallocated storage for the nodes of one search; nodes `0..len()` are in use.
pub struct TreeArena {
    nodes: Vec<Node>,
    alloc_index: usize,
}

/// Whether child slot `k` of node `i` holds a node in use that points back to `i` and
/// is reached by action `k`.
pub open spec fn child_links_back(nodes: Seq<Node>, len: int, i: int, k: int) -> bool {
    let c = nodes[i].children[k] as int;
    &&& 0 <= c < len
    &&& nodes[c].parent == i
    &&& nodes[c].action_taken == k
}

/// Whether node `i` has either no children or three children in use that point back
/// to it, reached by actions 0, 1, 2.
pub open spec fn node_links_ok(nodes: Seq<Node>, len: int, i: int) -> bool {
    if nodes[i].children[0] == NO_NODE {
        nodes[i].children[1] == NO_NODE && nodes[i].children[2] == NO_NODE
    } else {
        child_links_back(nodes, len, i, 0) && child_links_back(nodes, len, i, 1)
            && child_links_back(nodes, len, i, 2)
    }
}

/// Whether the nodes in use form a tree of linked children.
pub open spec fn tree_links_wf(nodes: Seq<Node>, len: int) -> bool {
    forall|i: int| 0 <= i < len ==> #[trigger] node_links_ok(nodes, len, i)
}

/// Linking three fresh children, stored just past the nodes in use, to a node without
/// children keeps the nodes a linked tree.
proof fn lemma_expand_keeps_links(old_nodes: Seq<Node>, len0: int, node_idx: int, nodes: Seq<Node>)
    requires
        tree_links_wf(old_nodes, len0),
        0 <= node_idx < len0,
        len0 + 3 <= old_nodes.len(),
        nodes.len() == old_nodes.len(),
        old_nodes[node_idx].children[0] == NO_NODE,
        nodes[node_idx].children == [len0 as u32, (len0 + 1) as u32, (len0 + 2) as u32],
        nodes[node_idx].parent == old_nodes[node_idx].parent,
        nodes[node_idx].action_taken == old_nodes[node_idx].action_taken,
        len0 + 2 <= u32::MAX,
        forall|k: int|
            0 <= k < 3 ==> (#[trigger] nodes[len0 + k]).parent == node_idx && nodes[len0 + k].action_taken == k
                && nodes[len0 + k].children == [NO_NODE, NO_NODE, NO_NODE],
        forall|i: int|
            0 <= i < len0 && i != node_idx ==> #[trigger] nodes[i] == old_nodes[i],
    ensures
        tree_links_wf(nodes, len0 + 3),
{
    let len = len0 + 3;
    assert forall|i: int| 0 <= i < len implies #[trigger] node_links_ok(nodes, len, i) by {
        if i < len0 && i != node_idx {
            assert(node_links_ok(old_nodes, len0, i));
            assert(nodes[i] == old_nodes[i]);
            if old_nodes[i].children[0] != NO_NODE {
                assert forall|k: int| 0 <= k < 3 implies child_links_back(nodes, len, i, k) by {
                    assert(child_links_back(old_nodes, len0, i, k));
                    let c = old_nodes[i].children[k] as int;
                    if c != node_idx {
                        assert(nodes[c] == old_nodes[c]);
                    }
                }
            }
        } else if i >= len0 {
            let k = i - len0;
            assert(nodes[len0 + k].children == [NO_NODE, NO_NODE, NO_NODE]);
        } else {
            assert(nodes[len0 + 0].parent == node_idx);
            assert(nodes[len0 + 1].parent == node_idx);
            assert(nodes[len0 + 2].parent == node_idx);
        }
    }
}

/// The range of a `u32` counter.
pub open spec fn counter_modulus() -> int {
    0x1_0000_0000
}

/// Number of entries of `path` at positions `from..to` that name node `idx`.
pub open spec fn occurrences(path: Seq<u32>, from: int, to: int, idx: int) -> nat
    decreases to - from,
{
    if to <= from {
        0
    } else {
        occurrences(path, from, to - 1, idx) + if path[to - 1] as int == idx {
            1nat
        } else {
            0nat
        }
    }
}

/// Searches in flight that backing up the first `to` entries of `path` takes off node
/// `idx`: one per entry, except at the root `path[0]`, which is never marked.
pub open spec fn released(path: Seq<u32>, to: int, idx: int) -> nat {
    if idx == path[0] as int {
        0
    } else {
        occurrences(path, 0, to, idx)
    }
}

/// The nodes after the first `to` entries of a search path (root first) are backed up:
/// one more visit per entry and one search in flight fewer per entry below the root,
/// both counters wrapping as atomic ones do; every other field is kept.
pub open spec fn backed_up_upto(nodes: Seq<Node>, path: Seq<u32>, to: int) -> Seq<Node> {
    Seq::new(
        nodes.len(),
        |i: int|
            Node {
                visit_count: ((nodes[i].visit_count + occurrences(path, 0, to, i)) % counter_modulus()) as u32,
                virtual_loss_active: ((nodes[i].virtual_loss_active - released(path, to, i))
                    % counter_modulus()) as u32,
                ..nodes[i]
            },
    )
}

/// The nodes after a whole search path is backed up.
pub open spec fn backed_up(nodes: Seq<Node>, path: Seq<u32>) -> Seq<Node> {
    backed_up_upto(nodes, path, path.len() as int)
}

/// The nodes after a search descends along the first `k` entries of `path` (root
/// first), marking each node it moves to as one more search in flight, in order, as
/// `TreeArena::mark_in_flight` does.
pub open spec fn descended(nodes: Seq<Node>, path: Seq<u32>, k: int) -> Seq<Node>
    decreases k,
{
    if k <= 1 {
        nodes
    } else {
        let prev = descended(nodes, path, k - 1);
        let c = path[k - 1] as int;
        prev.update(c, Node { virtual_loss_active: wrap_inc(prev[c].virtual_loss_active), ..prev[c] })
    }
}

proof fn lemma_wrap_inc_mod(a: int)
    ensures
        wrap_inc((a % counter_modulus()) as u32) == ((a + 1) % counter_modulus()) as u32,
{
    let m = counter_modulus();
    vstd::arithmetic::div_mod::lemma_fundamental_div_mod(a, m);
    let q = a / m;
    let r = a % m;
    if r == m - 1 {
        vstd::arithmetic::div_mod::lemma_fundamental_div_mod_converse(a + 1, m, q + 1, 0);
    } else {
        vstd::arithmetic::div_mod::lemma_fundamental_div_mod_converse(a + 1, m, q, r + 1);
    }
}

proof fn lemma_wrap_dec_mod(a: int)
    ensures
        wrap_dec((a % counter_modulus()) as u32) == ((a - 1) % counter_modulus()) as u32,
{
    let m = counter_modulus();
    vstd::arithmetic::div_mod::lemma_fundamental_div_mod(a, m);
    let q = a / m;
    let r = a % m;
    if r == 0 {
        vstd::arithmetic::div_mod::lemma_fundamental_div_mod_converse(a - 1, m, q - 1, m - 1);
    } else {
        vstd::arithmetic::div_mod::lemma_fundamental_div_mod_converse(a - 1, m, q, r - 1);
    }
}

proof fn lemma_counter_round_trip(v: int, c: int)
    requires
        0 <= v < counter_modulus(),
    ensures
        ((v + c) % counter_modulus() - c) % counter_modulus() == v,
{
    let m = counter_modulus();
    vstd::arithmetic::div_mod::lemma_fundamental_div_mod(v + c, m);
    let q = (v + c) / m;
    vstd::arithmetic::div_mod::lemma_fundamental_div_mod_converse((v + c) % m - c, m, -q, v);
}

proof fn lemma_occurrences_split(path: Seq<u32>, to: int, idx: int)
    requires
        1 <= to <= path.len(),
    ensures
        occurrences(path, 0, to, idx) == occurrences(path, 1, to, idx) + if path[0] as int == idx {
            1nat
        } else {
            0nat
        },
    decreases to,
{
    if to > 1 {
        lemma_occurrences_split(path, to - 1, idx);
    } else {
        assert(occurrences(path, 1, 1, idx) == 0);
        assert(occurrences(path, 0, 0, idx) == 0);
    }
}

proof fn lemma_occurrences_absent(path: Seq<u32>, from: int, to: int, idx: int)
    requires
        forall|k: int| from <= k < to ==> path[k] as int != idx,
    ensures
        occurrences(path, from, to, idx) == 0,
    decreases to - from,
{
    if to > from {
        lemma_occurrences_absent(path, from, to - 1, idx);
    }
}

proof fn lemma_descended_counts(nodes: Seq<Node>, path: Seq<u32>, k: int)
    requires
        1 <= k <= path.len(),
        forall|j: int| 0 <= j < path.len() ==> path[j] < nodes.len(),
    ensures
        descended(nodes, path, k).len() == nodes.len(),
        forall|i: int|
            0 <= i < nodes.len() ==> #[trigger] descended(nodes, path, k)[i] == (Node {
                virtual_loss_active: ((nodes[i].virtual_loss_active + occurrences(path, 1, k, i))
                    % counter_modulus()) as u32,
                ..nodes[i]
            }),
    decreases k,
{
    if k == 1 {
        assert forall|i: int| 0 <= i < nodes.len() implies #[trigger] descended(nodes, path, k)[i]
            == (Node {
            virtual_loss_active: ((nodes[i].virtual_loss_active + occurrences(path, 1, k, i))
                % counter_modulus()) as u32,
            ..nodes[i]
        }) by {
            assert(occurrences(path, 1, 1, i) == 0);
        }
    } else {
        lemma_descended_counts(nodes, path, k - 1);
        let prev = descended(nodes, path, k - 1);
        let c = path[k - 1] as int;
        assert forall|i: int| 0 <= i < nodes.len() implies #[trigger] descended(nodes, path, k)[i]
            == (Node {
            virtual_loss_active: ((nodes[i].virtual_loss_active + occurrences(path, 1, k, i))
                % counter_modulus()) as u32,
            ..nodes[i]
        }) by {
            assert(prev[i] == (Node {
                virtual_loss_active: ((nodes[i].virtual_loss_active + occurrences(path, 1, k - 1, i))
                    % counter_modulus()) as u32,
                ..nodes[i]
            }));
            if i == c {
                lemma_wrap_inc_mod(nodes[i].virtual_loss_active + occurrences(path, 1, k - 1, i));
            }
        }
    }
}

/// Descending along a search path marks every node below the root as in flight, and
/// backing up along the same path takes exactly those marks off again: afterwards every
/// node has as many searches in flight as before, every node on the path one more visit
/// per entry, the root exactly one more, and nothing else has changed.
pub proof fn lemma_search_path_round_trip(nodes: Seq<Node>, path: Seq<u32>)
    requires
        path.len() > 0,
        forall|k: int| 0 <= k < path.len() ==> path[k] < nodes.len(),
        forall|k: int| 1 <= k < path.len() ==> #[trigger] path[k] != path[0],
    ensures
        ({
            let after = backed_up(descended(nodes, path, path.len() as int), path);
            &&& after.len() == nodes.len()
            &&& forall|i: int|
                0 <= i < nodes.len() ==> #[trigger] after[i] == (Node {
                    visit_count: ((nodes[i].visit_count + occurrences(path, 0, path.len() as int, i))
                        % counter_modulus()) as u32,
                    ..nodes[i]
                })
            &&& after[path[0] as int].visit_count == wrap_inc(nodes[path[0] as int].visit_count)
        }),
{
    let n = path.len() as int;
    let d = descended(nodes, path, n);
    lemma_descended_counts(nodes, path, n);
    let root = path[0] as int;
    assert forall|i: int| 0 <= i < nodes.len() implies #[trigger] backed_up(d, path)[i] == (Node {
        visit_count: ((nodes[i].visit_count + occurrences(path, 0, n, i)) % counter_modulus()) as u32,
        ..nodes[i]
    }) by {
        assert(d[i] == (Node {
            virtual_loss_active: ((nodes[i].virtual_loss_active + occurrences(path, 1, n, i))
                % counter_modulus()) as u32,
            ..nodes[i]
        }));
        lemma_occurrences_split(path, n, i);
        lemma_counter_round_trip(nodes[i].virtual_loss_active as int, occurrences(path, 1, n, i) as int);
        if i == root {
            lemma_occurrences_absent(path, 1, n, i);
        }
    }
    lemma_occurrences_split(path, n, root);
    lemma_occurrences_absent(path, 1, n, root);
    lemma_wrap_inc_mod(nodes[root].visit_count as int);
}

impl TreeArena {
    /// The nodes of the storage, in use or not.
    pub closed spec fn nodes(&self) -> Seq<Node> {
        self.nodes@
    }

    /// The number of nodes in use.
    pub closed spec fn spec_len(&self) -> nat {
        self.alloc_index as nat
    }

    /// The storage's invariant: no more nodes in use than stored, and every index fits
    /// below the "no node" marker.
    pub open spec fn wf(&self) -> bool {
        &&& self.spec_len() <= self.nodes().len()
        &&& self.nodes().len() <= NO_NODE
    }

    /// Storage for `capacity` fresh nodes, none in use.
    pub fn new(capacity: usize) -> (a: TreeArena)
        requires
            capacity <= NO_NODE,
        ensures
            a.wf(),
            a.nodes().len() == capacity,
            a.spec_len() == 0,
            tree_links_wf(a.nodes(), 0),
            forall|i: int| 0 <= i < capacity ==> a.nodes()[i] == fresh_node(NO_NODE, 0, 3),
    {
        let mut nodes: Vec<Node> = Vec::new();
        let mut i: usize = 0;
        while i < capacity
            invariant
                i <= capacity,
                nodes@.len() == i,
                forall|k: int| 0 <= k < i ==> nodes@[k] == fresh_node(NO_NODE, 0, 3),
            decreases capacity - i,
        {
            nodes.push(Node::new());
            i = i + 1;
        }
        TreeArena { nodes, alloc_index: 0 }
    }

    /// Takes the next unused node, as it is, and returns its index. Running out of
    /// storage is a fault of the caller, which sizes the arena.
    pub fn alloc_node(&mut self) -> (idx: u32)
        requires
            old(self).wf(),
            old(self).spec_len() < old(self).nodes().len(),
        ensures
            final(self).wf(),
            idx == old(self).spec_len(),
            final(self).spec_len() == old(self).spec_len() + 1,
            final(self).nodes() == old(self).nodes(),
    {
        let idx = self.alloc_index;
        self.alloc_index = idx + 1;
        idx as u32
    }

    /// The node at `index`.
    pub fn get(&self, index: u32) -> (n: &Node)
        requires
            index < self.nodes().len(),
        ensures
            *n == self.nodes()[index as int],
    {
        &self.nodes[index as usize]
    }

    /// The node at `index`, for update.
    pub fn get_mut(&mut self, index: u32) -> (n: &mut Node)
        requires
            index < old(self).nodes().len(),
        ensures
            *n == old(self).nodes()[index as int],
            final(self).nodes() == old(self).nodes().update(index as int, *final(n)),
            final(self).spec_len() == old(self).spec_len(),
    {
        &mut self.nodes[index as usize]
    }

    /// Releases every node; the storage is kept for the next search.
    pub fn clear(&mut self)
        ensures
            final(self).spec_len() == 0,
            final(self).nodes() == old(self).nodes(),
            tree_links_wf(final(self).nodes(), 0),
    {
        self.alloc_index = 0;
    }

    /// The number of nodes in use.
    pub fn len(&self) -> (n: usize)
        ensures
            n == self.spec_len(),
    {
        self.alloc_index
    }

    /// Whether no node is in use.
    pub fn is_empty(&self) -> (b: bool)
        ensures
            b == (self.spec_len() == 0),
    {
        self.alloc_index == 0
    }

    /// The number of nodes stored, in use or not.
    pub fn capacity(&self) -> (n: usize)
        ensures
            n == self.nodes().len(),
    {
        self.nodes.len()
    }

    /// Takes the next unused node and resets it under `parent`, reached by `action`.
    pub fn new_node(&mut self, parent: Option<u32>, prior_bits: u32, action: Option<RelativeAction>) -> (idx: u32)
        requires
            old(self).wf(),
            old(self).spec_len() < old(self).nodes().len(),
        ensures
            final(self).wf(),
            idx == old(self).spec_len(),
            final(self).spec_len() == old(self).spec_len() + 1,
            final(self).nodes() == old(self).nodes().update(
                idx as int,
                fresh_node(
                    match parent {
                        Some(p) => p,
                        None => NO_NODE,
                    },
                    prior_bits,
                    action_code(action),
                ),
            ),
            tree_links_wf(old(self).nodes(), old(self).spec_len() as int) ==> tree_links_wf(
                final(self).nodes(),
                final(self).spec_len() as int,
            ),
    {
        let ghost old_nodes = self.nodes@;
        let ghost len0 = self.alloc_index as int;
        let idx = self.alloc_node();
        self.nodes[idx as usize].init(parent, prior_bits, action);
        proof {
            if tree_links_wf(old_nodes, len0) {
                let nodes = self.nodes@;
                assert forall|i: int| 0 <= i < len0 + 1 implies #[trigger] node_links_ok(
                    nodes,
                    len0 + 1,
                    i,
                ) by {
                    if i < len0 {
                        assert(node_links_ok(old_nodes, len0, i));
                        if old_nodes[i].children[0] != NO_NODE {
                            assert(child_links_back(old_nodes, len0, i, 0));
                            assert(child_links_back(old_nodes, len0, i, 1));
                            assert(child_links_back(old_nodes, len0, i, 2));
                        }
                    }
                }
            }
        }
        idx
    }

    /// Marks node `idx`, which a search has just moved to, as one more search in flight.
    pub fn mark_in_flight(&mut self, idx: u32)
        requires
            old(self).wf(),
            idx < old(self).nodes().len(),
        ensures
            final(self).wf(),
            final(self).spec_len() == old(self).spec_len(),
            final(self).nodes() == old(self).nodes().update(
                idx as int,
                Node {
                    virtual_loss_active: wrap_inc(old(self).nodes()[idx as int].virtual_loss_active),
                    ..old(self).nodes()[idx as int]
                },
            ),
            tree_links_wf(old(self).nodes(), old(self).spec_len() as int) ==> tree_links_wf(
                final(self).nodes(),
                final(self).spec_len() as int,
            ),
    {
        let ghost old_nodes = self.nodes@;
        self.nodes[idx as usize].add_virtual_loss();
        proof {
            let nodes = self.nodes@;
            let len = self.alloc_index as int;
            if tree_links_wf(old_nodes, len) {
                assert forall|j: int| 0 <= j < len implies #[trigger] node_links_ok(nodes, len, j) by {
                    assert(node_links_ok(old_nodes, len, j));
                    if old_nodes[j].children[0] != NO_NODE {
                        assert forall|k: int| 0 <= k < 3 implies child_links_back(nodes, len, j, k) by {
                            assert(child_links_back(old_nodes, len, j, k));
                        }
                    }
                }
            }
        }
    }

    /// Counts one finished simulation along `path` (root first): every entry gets one
    /// more visit, and every entry other than the root one search in flight fewer.
    pub fn backup_visits(&mut self, path: &Vec<u32>)
        requires
            old(self).wf(),
            path@.len() > 0,
            forall|k: int| 0 <= k < path@.len() ==> path@[k] < old(self).nodes().len(),
        ensures
            final(self).wf(),
            final(self).nodes() == backed_up(old(self).nodes(), path@),
            final(self).spec_len() == old(self).spec_len(),
            tree_links_wf(old(self).nodes(), old(self).spec_len() as int) ==> tree_links_wf(
                final(self).nodes(),
                final(self).spec_len() as int,
            ),
    {
        let ghost old_nodes = self.nodes@;
        let ghost old_len = self.alloc_index;
        let root = path[0];
        let n = path.len();
        let mut i: usize = 0;
        proof {
            assert forall|j: int| 0 <= j < old_nodes.len() implies #[trigger] self.nodes@[j]
                == backed_up_upto(old_nodes, path@, 0)[j] by {
                assert(occurrences(path@, 0, 0, j) == 0);
                vstd::arithmetic::div_mod::lemma_small_mod(old_nodes[j].visit_count as nat, counter_modulus() as nat);
                vstd::arithmetic::div_mod::lemma_small_mod(
                    old_nodes[j].virtual_loss_active as nat,
                    counter_modulus() as nat,
                );
            }
        }
        while i < n
            invariant
                n == path@.len(),
                i <= n,
                root == path@[0],
                self.alloc_index == old_len,
                forall|k: int| 0 <= k < path@.len() ==> path@[k] < old_nodes.len(),
                self.nodes@.len() == old_nodes.len(),
                forall|j: int| 0 <= j < old_nodes.len() ==> #[trigger] self.nodes@[j]
                    == backed_up_upto(old_nodes, path@, i as int)[j],
            decreases n - i,
        {
            let idx = path[i];
            let ghost before = self.nodes@;
            if idx != root {
                self.nodes[idx as usize].remove_virtual_loss();
            }
            self.nodes[idx as usize].add_visit();
            proof {
                assert forall|j: int| 0 <= j < old_nodes.len() implies #[trigger] self.nodes@[j]
                    == backed_up_upto(old_nodes, path@, i + 1)[j] by {
                    assert(before[j] == backed_up_upto(old_nodes, path@, i as int)[j]);
                    if j == idx as int {
                        lemma_wrap_inc_mod(old_nodes[j].visit_count + occurrences(path@, 0, i as int, j));
                        lemma_wrap_dec_mod(old_nodes[j].virtual_loss_active - released(path@, i as int, j));
                    }
                }
            }
            i = i + 1;
        }
        proof {
            let nodes = self.nodes@;
            assert(nodes =~= backed_up(old_nodes, path@));
            let len = old_len as int;
            assert(len <= old_nodes.len());
            if tree_links_wf(old_nodes, len) {
                assert forall|j: int| 0 <= j < len implies #[trigger] node_links_ok(nodes, len, j) by {
                    assert(node_links_ok(old_nodes, len, j));
                    assert(nodes[j].children == old_nodes[j].children);
                    if old_nodes[j].children[0] != NO_NODE {
                        assert forall|k: int| 0 <= k < 3 implies child_links_back(nodes, len, j, k) by {
                            assert(child_links_back(old_nodes, len, j, k));
                            let c = old_nodes[j].children[k] as int;
                            assert(nodes[c].parent == old_nodes[c].parent);
                        }
                    }
                }
            }
        }
    }

    /// Gives a node without children three fresh children, one per action, with the
    /// given prior probability bits. Returns whether it linked them; a node that has
    /// children already is left as it is.
    pub fn expand(&mut self, node_idx: u32, priors: [u32; 3]) -> (linked: bool)
        requires
            old(self).wf(),
            node_idx < old(self).spec_len(),
            old(self).spec_len() + 3 <= old(self).nodes().len(),
            tree_links_wf(old(self).nodes(), old(self).spec_len() as int),
        ensures
            final(self).wf(),
            tree_links_wf(final(self).nodes(), final(self).spec_len() as int),
            linked == (old(self).nodes()[node_idx as int].children[0] == NO_NODE),
            !linked ==> *final(self) == *old(self),
            linked ==> {
                let base = old(self).spec_len() as int;
                &&& final(self).spec_len() == base + 3
                &&& forall|k: int|
                    0 <= k < 3 ==> final(self).nodes()[base + k] == fresh_node(
                        node_idx,
                        priors[k],
                        k as u32,
                    )
                &&& final(self).nodes()[node_idx as int] == (Node {
                    children: [base as u32, (base + 1) as u32, (base + 2) as u32],
                    ..old(self).nodes()[node_idx as int]
                })
                &&& forall|i: int|
                    0 <= i < final(self).nodes().len() && i != node_idx && !(base <= i < base + 3)
                        ==> final(self).nodes()[i] == old(self).nodes()[i]
            },
    {
        if self.nodes[node_idx as usize].is_expanded() {
            return false;
        }
        let ghost old_nodes = self.nodes@;
        let ghost len0 = self.alloc_index as int;
        let c0 = self.new_node(Some(node_idx), priors[0], Some(RelativeAction::Straight));
        let c1 = self.new_node(Some(node_idx), priors[1], Some(RelativeAction::TurnLeft));
        let c2 = self.new_node(Some(node_idx), priors[2], Some(RelativeAction::TurnRight));
        self.nodes[node_idx as usize].children = [c0, c1, c2];
        proof {
            lemma_expand_keeps_links(old_nodes, len0, node_idx as int, self.nodes@);
        }
        true
    }
}

} // verus!
