//! The mathematical model of a reference-counted ownership graph.
//!
//! A [`Graph`] is a sequence of node records addressed by index. A node is
//! kept alive by its holders: the handles that the outside world has on it, and
//! the nodes that list it among their children. The reference that a child
//! keeps to its parent is weak: it is a plain index that counts for nothing,
//! and that has to be looked up before use.

use crate::counting::{lemma_occurrences_add, lemma_occurrences_contains, occurrences};
use vstd::prelude::*;

verus! {

/// The stable address of a node.
pub type NodeId = usize;

/// What is recorded of one node.
pub struct NodeModel {
    /// The scalar that the node carries.
    pub value: i32,
    /// The children that the node owns, in the order in which they were attached.
    pub children: Seq<NodeId>,
    /// The weak reference to the parent, if one was set.
    pub parent: Option<NodeId>,
    /// The number of handles that the outside world holds on the node.
    pub handles: nat,
    /// The number of owning references that nodes hold on this one.
    pub owners: nat,
}

/// The whole graph: every node that was ever created, the reclaimed ones included.
pub struct Graph {
    pub nodes: Seq<NodeModel>,
}

/// How many of the first `n` nodes list `id` among their children.
pub open spec fn listings(nodes: Seq<NodeModel>, n: nat, id: NodeId) -> nat
    decreases n,
{
    if n == 0 {
        0
    } else {
        listings(nodes, (n - 1) as nat, id) + if nodes[n - 1].children.contains(id) {
            1nat
        } else {
            0nat
        }
    }
}

/// The number of strong references, of either kind, in the first `n` nodes.
pub open spec fn total_strong(nodes: Seq<NodeModel>, n: nat) -> nat
    decreases n,
{
    if n == 0 {
        0
    } else {
        total_strong(nodes, (n - 1) as nat) + nodes[n - 1].handles + nodes[n - 1].owners
    }
}

impl NodeModel {
    /// A node is alive as long as it has a holder of either kind.
    pub open spec fn alive(self) -> bool {
        self.handles + self.owners > 0
    }

    /// The record of a node that was just created: one handle, no owner, no
    /// children, no parent.
    pub open spec fn fresh(value: i32) -> NodeModel {
        NodeModel { value, children: Seq::empty(), parent: None, handles: 1, owners: 0 }
    }
}

impl Graph {
    /// The graph without any node.
    pub open spec fn empty() -> Graph {
        Graph { nodes: Seq::empty() }
    }

    /// The number of nodes ever created.
    pub open spec fn len(self) -> nat {
        self.nodes.len()
    }

    /// Whether `id` addresses a node that has not been reclaimed.
    pub open spec fn live(self, id: NodeId) -> bool {
        id < self.nodes.len() && self.nodes[id as int].alive()
    }

    /// The scalar of node `id`.
    pub open spec fn value(self, id: NodeId) -> i32 {
        self.nodes[id as int].value
    }

    /// The children of node `id`, oldest first.
    pub open spec fn children(self, id: NodeId) -> Seq<NodeId> {
        self.nodes[id as int].children
    }

    /// The number of strong references to node `id`.
    pub open spec fn strong_count(self, id: NodeId) -> nat {
        self.nodes[id as int].handles + self.nodes[id as int].owners
    }

    /// Node `i` is consistent with the rest of the graph, where `pending` lists
    /// owning references that have been given up but not yet taken off the
    /// counts.
    pub open spec fn node_ok(self, pending: Seq<NodeId>, i: int) -> bool {
        let n = self.nodes[i];
        &&& n.children.no_duplicates()
        &&& forall|k: int| 0 <= k < n.children.len() ==> (#[trigger] n.children[k]) < self.nodes.len()
        &&& (n.parent matches Some(p) ==> p < self.nodes.len())
        &&& n.handles <= usize::MAX
        &&& n.owners == listings(self.nodes, self.nodes.len(), i as usize) + occurrences(
            pending,
            i as usize,
        )
        &&& (!n.alive() ==> n.children.len() == 0 && n.parent is None)
    }

    /// The graph is consistent but for the references in `pending`, which are
    /// still counted though their owners have let go of them.
    pub open spec fn consistent(self, pending: Seq<NodeId>) -> bool {
        &&& self.nodes.len() <= usize::MAX
        &&& forall|k: int| 0 <= k < pending.len() ==> (#[trigger] pending[k]) < self.nodes.len()
        &&& forall|i: int| 0 <= i < self.nodes.len() ==> #[trigger] self.node_ok(pending, i)
    }

    /// The invariant of the graph: child lists hold no node twice and only
    /// addresses of the graph, every owner count is the number of nodes that
    /// list the node, and a reclaimed node holds nothing.
    pub open spec fn wf(self) -> bool {
        self.consistent(Seq::empty())
    }

    /// The graph after a node with the scalar `value` was created. Its address
    /// is the former length.
    pub open spec fn create(self, value: i32) -> Graph {
        Graph { nodes: self.nodes.push(NodeModel::fresh(value)) }
    }

    /// Whether one more handle on `id` can be handed out.
    pub open spec fn can_acquire(self, id: NodeId) -> bool {
        self.live(id) && self.nodes[id as int].handles < usize::MAX
    }

    /// The graph after one more handle on `id` was handed out.
    pub open spec fn acquire(self, id: NodeId) -> Graph {
        if self.can_acquire(id) {
            let n = self.nodes[id as int];
            Graph { nodes: self.nodes.update(id as int, NodeModel { handles: n.handles + 1, ..n }) }
        } else {
            self
        }
    }

    /// The graph in which `parent` lists `child` as its last child.
    pub open spec fn with_child(self, parent: NodeId, child: NodeId) -> Graph {
        let p = self.nodes[parent as int];
        Graph {
            nodes: self.nodes.update(
                parent as int,
                NodeModel { children: p.children.push(child), ..p },
            ),
        }
    }

    /// The graph in which `child` has one more owner.
    pub open spec fn with_owner(self, child: NodeId) -> Graph {
        let c = self.nodes[child as int];
        Graph { nodes: self.nodes.update(child as int, NodeModel { owners: c.owners + 1, ..c }) }
    }

    /// The graph in which the weak reference of `child` is `parent`.
    pub open spec fn with_parent(self, child: NodeId, parent: Option<NodeId>) -> Graph {
        let c = self.nodes[child as int];
        Graph { nodes: self.nodes.update(child as int, NodeModel { parent, ..c }) }
    }

    /// The graph after `child` was attached to `parent`.
    ///
    /// Where both are alive, the weak reference of `child` names `parent`, and
    /// `child` is appended to the children of `parent` unless it is among them
    /// already: a child list never holds a node twice. Where either has been
    /// reclaimed, nothing changes.
    pub open spec fn attach(self, parent: NodeId, child: NodeId) -> Graph {
        if self.live(parent) && self.live(child) {
            if self.children(parent).contains(child) {
                self.with_parent(child, Some(parent))
            } else {
                self.with_child(parent, child).with_owner(child).with_parent(child, Some(parent))
            }
        } else {
            self
        }
    }

    /// The number of strong references in the whole graph.
    pub open spec fn total(self) -> nat {
        total_strong(self.nodes, self.nodes.len())
    }

    /// The graph in which `id` has one owner fewer.
    pub open spec fn without_owner(self, id: NodeId) -> Graph {
        let n = self.nodes[id as int];
        Graph {
            nodes: self.nodes.update(id as int, NodeModel { owners: (n.owners - 1) as nat, ..n }),
        }
    }

    /// The graph in which `id` has one handle fewer.
    pub open spec fn without_handle(self, id: NodeId) -> Graph {
        let n = self.nodes[id as int];
        Graph {
            nodes: self.nodes.update(id as int, NodeModel { handles: (n.handles - 1) as nat, ..n }),
        }
    }

    /// The graph in which `parent` no longer lists its child number `k`.
    pub open spec fn without_child(self, parent: NodeId, k: int) -> Graph {
        let p = self.nodes[parent as int];
        Graph {
            nodes: self.nodes.update(parent as int, NodeModel { children: p.children.remove(k), ..p }),
        }
    }

    /// The graph in which `id` holds nothing any more: no children, no parent.
    pub open spec fn cleared(self, id: NodeId) -> Graph {
        let n = self.nodes[id as int];
        Graph {
            nodes: self.nodes.update(
                id as int,
                NodeModel { children: Seq::empty(), parent: None, ..n },
            ),
        }
    }

    /// The graph after the owning references in `pending` were given up, last
    /// one first.
    ///
    /// Each takes one owner off the node it points to. A node that is left
    /// without any holder is reclaimed: it lets go of its parent and of its
    /// children, whose references are given up in turn.
    pub open spec fn reclaim(self, pending: Seq<NodeId>) -> Graph
        decreases self.total(), pending.len(),
    {
        if pending.len() == 0 {
            self
        } else {
            let id = pending.last();
            let rest = pending.drop_last();
            if id < self.nodes.len() && self.nodes[id as int].owners > 0 {
                let next = self.without_owner(id);
                proof {
                    lemma_total_update(self.nodes, self.nodes.len(), id as int, next.nodes[id as int]);
                    lemma_total_update(
                        next.nodes,
                        next.nodes.len(),
                        id as int,
                        next.cleared(id).nodes[id as int],
                    );
                }
                if next.live(id) {
                    next.reclaim(rest)
                } else {
                    next.cleared(id).reclaim(rest + next.children(id))
                }
            } else {
                self.reclaim(rest)
            }
        }
    }

    /// Whether a handle on `id` is there to be given back.
    pub open spec fn can_release(self, id: NodeId) -> bool {
        id < self.nodes.len() && self.nodes[id as int].handles > 0
    }

    /// The graph after one handle on `id` was given back.
    ///
    /// Where that was the last holder, the node is reclaimed, and with it
    /// every node that it alone kept alive. Where no handle is out, nothing
    /// changes.
    pub open spec fn release(self, id: NodeId) -> Graph {
        if self.can_release(id) {
            let next = self.without_handle(id);
            if next.live(id) {
                next
            } else {
                next.cleared(id).reclaim(next.children(id))
            }
        } else {
            self
        }
    }

    /// Whether `parent` lists `child`.
    pub open spec fn lists(self, parent: NodeId, child: NodeId) -> bool {
        parent < self.nodes.len() && self.children(parent).contains(child)
    }

    /// The graph after `child` was detached from `parent`.
    ///
    /// Where `parent` lists `child`, the child leaves the list, its weak
    /// reference is cleared, whichever node it named, and the owning reference
    /// that the parent held is given up. Where it does not, nothing changes.
    pub open spec fn detach(self, parent: NodeId, child: NodeId) -> Graph {
        if self.lists(parent, child) {
            let k = self.children(parent).index_of(child);
            self.without_child(parent, k).with_parent(child, None).reclaim(seq![child])
        } else {
            self
        }
    }

    /// What the weak reference of `id` resolves to: the parent, where one was
    /// set and is still alive.
    pub open spec fn resolve_parent(self, id: NodeId) -> Option<NodeId> {
        if self.live(id) {
            match self.nodes[id as int].parent {
                Some(p) => if self.live(p) {
                    Some(p)
                } else {
                    None
                },
                None => None,
            }
        } else {
            None
        }
    }
}

/// An update of node `i` changes the number of strong references by what the
/// node itself holds.
pub proof fn lemma_total_update(nodes: Seq<NodeModel>, n: nat, i: int, m: NodeModel)
    requires
        0 <= i < nodes.len(),
        n <= nodes.len(),
    ensures
        total_strong(nodes.update(i, m), n) + (if i < n {
            nodes[i].handles + nodes[i].owners
        } else {
            0nat
        }) == total_strong(nodes, n) + (if i < n {
            m.handles + m.owners
        } else {
            0nat
        }),
    decreases n,
{
    if n > 0 {
        lemma_total_update(nodes, (n - 1) as nat, i, m);
    }
}

/// An update of node `i` changes the number of listings of `id` by what the
/// node itself contributes.
pub proof fn lemma_listings_update(nodes: Seq<NodeModel>, n: nat, i: int, m: NodeModel, id: NodeId)
    requires
        0 <= i < nodes.len(),
        n <= nodes.len(),
    ensures
        listings(nodes.update(i, m), n, id) + (if i < n && nodes[i].children.contains(id) {
            1nat
        } else {
            0nat
        }) == listings(nodes, n, id) + (if i < n && m.children.contains(id) {
            1nat
        } else {
            0nat
        }),
    decreases n,
{
    if n > 0 {
        lemma_listings_update(nodes, (n - 1) as nat, i, m, id);
    }
}

/// A node that is appended changes no listing among the nodes before it.
pub proof fn lemma_listings_push(nodes: Seq<NodeModel>, n: nat, m: NodeModel, id: NodeId)
    requires
        n <= nodes.len(),
    ensures
        listings(nodes.push(m), n, id) == listings(nodes, n, id),
    decreases n,
{
    if n > 0 {
        lemma_listings_push(nodes, (n - 1) as nat, m, id);
    }
}

/// A node is listed at most once by each node, and not at all by a node that
/// does not hold it.
pub proof fn lemma_listings_bound(nodes: Seq<NodeModel>, n: nat, j: int, id: NodeId)
    requires
        n <= nodes.len(),
    ensures
        listings(nodes, n, id) <= n,
        0 <= j < n && !nodes[j].children.contains(id) ==> listings(nodes, n, id) < n,
        0 <= j < n && nodes[j].children.contains(id) ==> listings(nodes, n, id) > 0,
    decreases n,
{
    if n > 0 {
        lemma_listings_bound(nodes, (n - 1) as nat, j, id);
    }
}

/// A node with a listing is held by some node.
pub proof fn lemma_listed_somewhere(nodes: Seq<NodeModel>, n: nat, id: NodeId) -> (j: int)
    requires
        n <= nodes.len(),
        listings(nodes, n, id) > 0,
    ensures
        0 <= j < n,
        nodes[j].children.contains(id),
    decreases n,
{
    if nodes[n - 1].children.contains(id) {
        n - 1
    } else {
        lemma_listed_somewhere(nodes, (n - 1) as nat, id)
    }
}

/// No node lists an address that no child list holds.
pub proof fn lemma_unlisted(nodes: Seq<NodeModel>, n: nat, id: NodeId)
    requires
        n <= nodes.len(),
        forall|j: int| 0 <= j < n ==> !(#[trigger] nodes[j]).children.contains(id),
    ensures
        listings(nodes, n, id) == 0,
    decreases n,
{
    if n > 0 {
        lemma_unlisted(nodes, (n - 1) as nat, id);
    }
}

/// Giving up references changes neither the number of nodes nor any scalar or
/// handle count, adds no owner, and leaves the nodes that stay alive as they
/// were.
pub proof fn lemma_reclaim_frame(f: Graph, pending: Seq<NodeId>)
    ensures
        f.reclaim(pending).nodes.len() == f.nodes.len(),
        forall|x: int|
            0 <= x < f.nodes.len() ==> {
                let before = f.nodes[x];
                let after = #[trigger] f.reclaim(pending).nodes[x];
                &&& after.value == before.value
                &&& after.handles == before.handles
                &&& after.owners <= before.owners
                &&& (after.alive() ==> after.children == before.children && after.parent
                    == before.parent)
            },
    decreases f.total(), pending.len(),
{
    if pending.len() > 0 {
        let id = pending.last();
        let rest = pending.drop_last();
        if id < f.nodes.len() && f.nodes[id as int].owners > 0 {
            let next = f.without_owner(id);
            lemma_total_update(f.nodes, f.nodes.len(), id as int, next.nodes[id as int]);
            lemma_total_update(next.nodes, next.nodes.len(), id as int, next.cleared(id).nodes[id as int]);
            if next.live(id) {
                lemma_reclaim_frame(next, rest);
            } else {
                lemma_reclaim_frame(next.cleared(id), rest + next.children(id));
            }
        } else {
            lemma_reclaim_frame(f, rest);
        }
    }
}

/// Once every reference that was given up is taken off the counts, the graph
/// is consistent again.
pub proof fn lemma_reclaim_wf(f: Graph, pending: Seq<NodeId>)
    requires
        f.consistent(pending),
    ensures
        f.reclaim(pending).wf(),
    decreases f.total(), pending.len(),
{
    let len = f.nodes.len();
    if pending.len() == 0 {
        assert(pending =~= Seq::empty());
    } else {
        let id = pending.last();
        let rest = pending.drop_last();
        assert(pending[pending.len() - 1] < len);
        assert(f.node_ok(pending, id as int));
        let next = f.without_owner(id);
        lemma_total_update(f.nodes, len, id as int, next.nodes[id as int]);
        lemma_total_update(next.nodes, len, id as int, next.cleared(id).nodes[id as int]);
        if next.live(id) {
            assert forall|i: int| 0 <= i < len implies #[trigger] next.node_ok(rest, i) by {
                assert(f.node_ok(pending, i));
                lemma_listings_update(f.nodes, len, id as int, next.nodes[id as int], i as usize);
            }
            assert forall|k: int| 0 <= k < rest.len() implies (#[trigger] rest[k]) < len by {
                assert(rest[k] == pending[k]);
            }
            lemma_reclaim_wf(next, rest);
        } else {
            let kids = f.children(id);
            let done = next.cleared(id);
            let todo = rest + kids;
            lemma_listings_bound(f.nodes, len, id as int, id);
            assert forall|i: int| 0 <= i < len implies #[trigger] done.node_ok(todo, i) by {
                assert(f.node_ok(pending, i));
                lemma_listings_update(f.nodes, len, id as int, next.nodes[id as int], i as usize);
                lemma_listings_update(next.nodes, len, id as int, done.nodes[id as int], i as usize);
                lemma_occurrences_add(rest, kids, i as usize);
                lemma_occurrences_contains(kids, i as usize);
                assert(Seq::<NodeId>::empty().contains(i as usize) == false);
            }
            assert forall|k: int| 0 <= k < todo.len() implies (#[trigger] todo[k]) < len by {
                if k < rest.len() {
                    assert(todo[k] == pending[k]);
                } else {
                    assert(todo[k] == kids[k - rest.len()]);
                }
            }
            lemma_reclaim_wf(done, todo);
        }
    }
}

/// A node of a consistent graph keeps its children alive.
pub proof fn lemma_children_live(f: Graph, parent: NodeId, k: int)
    requires
        f.wf(),
        parent < f.nodes.len(),
        0 <= k < f.children(parent).len(),
    ensures
        f.live(parent),
        f.live(f.children(parent)[k]),
{
    let child = f.children(parent)[k];
    assert(f.node_ok(Seq::empty(), parent as int));
    assert(child < f.nodes.len());
    assert(f.node_ok(Seq::empty(), child as int));
    lemma_listings_bound(f.nodes, f.nodes.len(), parent as int, child);
}

/// Creating a node keeps the graph consistent.
pub proof fn lemma_create_wf(f: Graph, value: i32)
    requires
        f.wf(),
        f.nodes.len() < usize::MAX,
    ensures
        f.create(value).wf(),
{
    let g = f.create(value);
    let len = f.nodes.len();
    let none = Seq::<NodeId>::empty();
    assert forall|i: int| 0 <= i < g.nodes.len() implies #[trigger] g.node_ok(none, i) by {
        lemma_listings_push(f.nodes, len, NodeModel::fresh(value), i as usize);
        assert(!Seq::<NodeId>::empty().contains(i as usize));
        if i < len {
            assert(f.node_ok(none, i));
        } else {
            assert forall|j: int| 0 <= j < len implies !(#[trigger] f.nodes[j]).children.contains(
                i as usize,
            ) by {
                assert(f.node_ok(none, j));
            }
            lemma_unlisted(f.nodes, len, i as usize);
        }
    }
}

/// Handing out a handle keeps the graph consistent.
pub proof fn lemma_acquire_wf(f: Graph, id: NodeId)
    requires
        f.wf(),
    ensures
        f.acquire(id).wf(),
{
    let g = f.acquire(id);
    let none = Seq::<NodeId>::empty();
    if f.can_acquire(id) {
        assert forall|i: int| 0 <= i < g.nodes.len() implies #[trigger] g.node_ok(none, i) by {
            assert(f.node_ok(none, i));
            lemma_listings_update(f.nodes, f.nodes.len(), id as int, g.nodes[id as int], i as usize);
        }
    }
}

/// Attaching a child keeps the graph consistent.
pub proof fn lemma_attach_wf(f: Graph, parent: NodeId, child: NodeId)
    requires
        f.wf(),
    ensures
        f.attach(parent, child).wf(),
{
    let g = f.attach(parent, child);
    let len = f.nodes.len();
    let none = Seq::<NodeId>::empty();
    if f.live(parent) && f.live(child) {
        if f.children(parent).contains(child) {
            assert forall|i: int| 0 <= i < len implies #[trigger] g.node_ok(none, i) by {
                assert(f.node_ok(none, i));
                lemma_listings_update(f.nodes, len, child as int, g.nodes[child as int], i as usize);
            }
        } else {
            let f1 = f.with_child(parent, child);
            let f2 = f1.with_owner(child);
            let kids = f.children(parent);
            assert(f.node_ok(none, parent as int));
            assert forall|i: int| 0 <= i < len implies #[trigger] g.node_ok(none, i) by {
                assert(f.node_ok(none, i));
                lemma_listings_update(f.nodes, len, parent as int, f1.nodes[parent as int], i as usize);
                lemma_listings_update(f1.nodes, len, child as int, f2.nodes[child as int], i as usize);
                lemma_listings_update(f2.nodes, len, child as int, g.nodes[child as int], i as usize);
                lemma_push_contains(kids, child, i as usize);
            }
            lemma_push_no_duplicates(kids, child);
        }
    }
}

/// What an appended element adds to a sequence.
pub proof fn lemma_push_contains(s: Seq<NodeId>, x: NodeId, id: NodeId)
    ensures
        s.push(x).contains(id) <==> s.contains(id) || id == x,
{
    if s.contains(id) {
        let k = choose|k: int| 0 <= k < s.len() && s[k] == id;
        assert(s.push(x)[k] == id);
    }
    if id == x {
        assert(s.push(x)[s.len() as int] == id);
    }
}

/// Appending what a sequence does not hold keeps it free of duplicates.
pub proof fn lemma_push_no_duplicates(s: Seq<NodeId>, x: NodeId)
    requires
        s.no_duplicates(),
        !s.contains(x),
    ensures
        s.push(x).no_duplicates(),
{
    let t = s.push(x);
    assert forall|i: int, j: int| 0 <= i < t.len() && 0 <= j < t.len() && i != j implies t[i]
        != t[j] by {
        if i < s.len() && j < s.len() {
        } else if i < s.len() {
            assert(s.contains(s[i]));
        } else {
            assert(s.contains(s[j]));
        }
    }
}

/// What is left of a duplicate-free sequence when the element at `k` leaves.
pub proof fn lemma_remove_contains(s: Seq<NodeId>, k: int, id: NodeId)
    requires
        s.no_duplicates(),
        0 <= k < s.len(),
    ensures
        s.remove(k).no_duplicates(),
        s.remove(k).contains(id) <==> s.contains(id) && id != s[k],
        s.remove(k).len() == s.len() - 1,
{
    let t = s.remove(k);
    assert forall|i: int| 0 <= i < t.len() implies #[trigger] t[i] == s[if i < k {
        i
    } else {
        i + 1
    }] by {}
    if t.contains(id) {
        let i = choose|i: int| 0 <= i < t.len() && t[i] == id;
        let j = if i < k {
            i
        } else {
            i + 1
        };
        assert(s[j] == id);
    }
    if s.contains(id) && id != s[k] {
        let j = choose|j: int| 0 <= j < s.len() && s[j] == id;
        let i = if j < k {
            j
        } else {
            j - 1
        };
        assert(t[i] == id);
    }
}

/// Giving back a handle keeps the graph consistent.
pub proof fn lemma_release_wf(f: Graph, id: NodeId)
    requires
        f.wf(),
    ensures
        f.release(id).wf(),
{
    let len = f.nodes.len();
    let none = Seq::<NodeId>::empty();
    if f.can_release(id) {
        let next = f.without_handle(id);
        assert(f.node_ok(none, id as int));
        if next.live(id) {
            assert forall|i: int| 0 <= i < len implies #[trigger] next.node_ok(none, i) by {
                assert(f.node_ok(none, i));
                lemma_listings_update(f.nodes, len, id as int, next.nodes[id as int], i as usize);
            }
        } else {
            let kids = f.children(id);
            let done = next.cleared(id);
            lemma_listings_bound(f.nodes, len, id as int, id);
            assert forall|i: int| 0 <= i < len implies #[trigger] done.node_ok(kids, i) by {
                assert(f.node_ok(none, i));
                lemma_listings_update(f.nodes, len, id as int, next.nodes[id as int], i as usize);
                lemma_listings_update(next.nodes, len, id as int, done.nodes[id as int], i as usize);
                lemma_occurrences_contains(kids, i as usize);
                assert(Seq::<NodeId>::empty().contains(i as usize) == false);
            }
            lemma_reclaim_wf(done, kids);
        }
    }
}

/// Detaching a child keeps the graph consistent.
pub proof fn lemma_detach_wf(f: Graph, parent: NodeId, child: NodeId)
    requires
        f.wf(),
    ensures
        f.detach(parent, child).wf(),
{
    let len = f.nodes.len();
    let none = Seq::<NodeId>::empty();
    if f.lists(parent, child) {
        let kids = f.children(parent);
        let k = kids.index_of(child);
        let f1 = f.without_child(parent, k);
        let f2 = f1.with_parent(child, None);
        let todo = seq![child];
        assert(f.node_ok(none, parent as int));
        assert(kids[k] == child);
        lemma_children_live(f, parent, k);
        lemma_listings_bound(f.nodes, len, parent as int, child);
        assert(todo.drop_last() =~= none);
        assert forall|i: int| 0 <= i < len implies #[trigger] f2.node_ok(todo, i) by {
            assert(f.node_ok(none, i));
            lemma_listings_update(f.nodes, len, parent as int, f1.nodes[parent as int], i as usize);
            lemma_listings_update(f1.nodes, len, child as int, f2.nodes[child as int], i as usize);
            lemma_remove_contains(kids, k, i as usize);
            assert forall|j: int| 0 <= j < f2.nodes[i].children.len() implies (
            #[trigger] f2.nodes[i].children[j]) < len by {
                if i == parent {
                    assert(kids.remove(k)[j] == kids[if j < k {
                        j
                    } else {
                        j + 1
                    }]);
                }
            }
        }
        lemma_reclaim_wf(f2, todo);
    }
}

/// A child that was attached finds its parent: as long as both are alive, the
/// weak reference of the child resolves to the parent, whose scalar is what
/// it was.
pub proof fn law_attached_child_finds_parent(f: Graph, parent: NodeId, child: NodeId)
    requires
        f.wf(),
        f.live(parent),
        f.live(child),
    ensures
        f.attach(parent, child).resolve_parent(child) == Some(parent),
        f.attach(parent, child).value(parent) == f.value(parent),
        f.attach(parent, child).live(parent),
        f.attach(parent, child).live(child),
{
}

/// A handle that is given back elsewhere does not disturb the way from a child
/// to its parent: where both are still alive afterwards, the child finds the
/// same parent with the same scalar.
pub proof fn law_parent_found_while_held(f: Graph, parent: NodeId, child: NodeId, id: NodeId)
    requires
        f.wf(),
        f.resolve_parent(child) == Some(parent),
        f.release(id).live(parent),
        f.release(id).live(child),
    ensures
        f.release(id).resolve_parent(child) == Some(parent),
        f.release(id).value(parent) == f.value(parent),
{
    if f.can_release(id) {
        let next = f.without_handle(id);
        if !next.live(id) {
            lemma_reclaim_frame(next.cleared(id), next.children(id));
        }
    }
}

/// With the last strong holder of a parent gone, the parent is reclaimed, and
/// the weak reference of every node that named it resolves to nothing.
pub proof fn law_parent_gone_after_last_release(f: Graph, parent: NodeId, child: NodeId)
    requires
        f.wf(),
        f.live(parent),
        f.strong_count(parent) == 1,
        f.can_release(parent),
        child < f.len(),
        f.nodes[child as int].parent == Some(parent),
    ensures
        !f.release(parent).live(parent),
        f.release(parent).resolve_parent(child) is None,
{
    let next = f.without_handle(parent);
    lemma_reclaim_frame(next.cleared(parent), next.children(parent));
}

/// However a parent came to be reclaimed, the weak reference of a node that
/// names it resolves to nothing.
pub proof fn law_reclaimed_parent_is_absent(f: Graph, parent: NodeId, child: NodeId)
    requires
        child < f.len(),
        f.nodes[child as int].parent == Some(parent),
        !f.live(parent),
    ensures
        f.resolve_parent(child) is None,
{
}

/// Attaching lists the child exactly once, however often it is done.
pub proof fn law_attach_lists_child_once(f: Graph, parent: NodeId, child: NodeId)
    requires
        f.wf(),
        f.live(parent),
        f.live(child),
    ensures
        occurrences(f.attach(parent, child).children(parent), child) == 1,
        f.attach(parent, child).attach(parent, child) == f.attach(parent, child),
{
    let g = f.attach(parent, child);
    lemma_attach_wf(f, parent, child);
    assert(g.node_ok(Seq::empty(), parent as int));
    lemma_push_contains(f.children(parent), child, child);
    lemma_occurrences_contains(g.children(parent), child);
    assert(g.attach(parent, child).nodes =~= g.nodes);
}

/// Detaching a child that the parent does not list changes nothing.
pub proof fn law_detach_unlisted_changes_nothing(f: Graph, parent: NodeId, child: NodeId)
    requires
        !f.lists(parent, child),
    ensures
        f.detach(parent, child) == f,
{
}

/// Detaching undoes attaching: the child is no longer listed, and its weak
/// reference resolves to nothing.
pub proof fn law_detached_child_is_unlisted(f: Graph, parent: NodeId, child: NodeId)
    requires
        f.wf(),
        f.lists(parent, child),
    ensures
        !f.detach(parent, child).lists(parent, child),
        f.detach(parent, child).resolve_parent(child) is None,
{
    let kids = f.children(parent);
    let k = kids.index_of(child);
    let g = f.without_child(parent, k).with_parent(child, None);
    assert(f.node_ok(Seq::empty(), parent as int));
    lemma_remove_contains(kids, k, child);
    lemma_reclaim_frame(g, seq![child]);
    let h = g.reclaim(seq![child]);
    assert(h == f.detach(parent, child));
    if h.nodes[parent as int].alive() {
        assert(h.children(parent) == g.children(parent));
    } else {
        lemma_detach_wf(f, parent, child);
        assert(h.node_ok(Seq::empty(), parent as int));
        assert(!Seq::<NodeId>::empty().contains(child));
    }
}

/// Two nodes that own each other keep each other alive: when the last handle
/// on either is given back, neither is reclaimed, and nothing can reach them
/// any more.
pub proof fn law_cycle_is_never_reclaimed(f: Graph, a: NodeId, b: NodeId)
    requires
        f.wf(),
        a != b,
        f.live(a),
        f.live(b),
        f.nodes[a as int].handles == 1,
        f.nodes[b as int].handles == 1,
        !f.lists(a, b),
        !f.lists(b, a),
    ensures
        ({
            let tied = f.attach(a, b).attach(b, a);
            let left = tied.release(a).release(b);
            &&& left.live(a)
            &&& left.live(b)
            &&& left.nodes[a as int].handles == 0
            &&& left.nodes[b as int].handles == 0
            &&& left.children(a) == tied.children(a)
            &&& left.children(b) == tied.children(b)
        }),
{
    let first = f.attach(a, b);
    lemma_push_contains(f.children(a), b, a);
    assert(!first.children(b).contains(a));
}

/// Nothing is alive without a holder: a node that has not been reclaimed is
/// held by a handle, or listed by a node that is alive itself.
pub proof fn law_live_node_has_a_holder(f: Graph, id: NodeId)
    requires
        f.wf(),
        f.live(id),
    ensures
        f.nodes[id as int].handles > 0 || exists|parent: NodeId|
            f.live(parent) && #[trigger] f.lists(parent, id),
{
    assert(f.node_ok(Seq::empty(), id as int));
    if f.nodes[id as int].handles == 0 {
        let j = lemma_listed_somewhere(f.nodes, f.nodes.len(), id);
        let k = f.nodes[j].children.index_of(id);
        lemma_children_live(f, j as usize, k);
        assert(f.lists(j as usize, id));
    }
}

/// A node that is held from outside is never reclaimed when somebody else
/// gives back a handle, and keeps what it holds.
pub proof fn law_held_node_survives(f: Graph, id: NodeId, held: NodeId)
    requires
        f.wf(),
        held != id,
        held < f.len(),
        f.nodes[held as int].handles > 0,
    ensures
        f.release(id).live(held),
        f.release(id).nodes[held as int].handles == f.nodes[held as int].handles,
        f.release(id).children(held) == f.children(held),
        f.release(id).value(held) == f.value(held),
{
    if f.can_release(id) {
        let next = f.without_handle(id);
        if !next.live(id) {
            lemma_reclaim_frame(next.cleared(id), next.children(id));
        }
    }
}

/// The reference from a child to its parent is weak: attaching a child adds
/// no strong reference to the parent.
pub proof fn law_back_reference_counts_for_nothing(f: Graph, parent: NodeId, child: NodeId)
    requires
        parent != child,
        parent < f.len(),
    ensures
        f.attach(parent, child).strong_count(parent) == f.strong_count(parent),
{
}

} // verus!
