//! A tree of reference-counted nodes, held in an arena.
//!
//! A parent owns its children; a child points back to its parent without
//! owning it. Nodes live in the slots of an [`Arena`] and are addressed by
//! index. An owning reference is an entry in a child list, or a handle that
//! was handed out to the caller; both are counted. The reference to the
//! parent is a plain index, which [`Arena::resolve_parent`] looks up: it finds
//! the parent only as long as somebody else keeps it alive.
//!
//! Slots are never used twice, so the address of a reclaimed node can never
//! come to name another node.

use crate::ownership::{
    lemma_acquire_wf, lemma_attach_wf, lemma_children_live, lemma_create_wf, lemma_detach_wf,
    lemma_listings_bound, lemma_release_wf, lemma_total_update, Graph, NodeId, NodeModel,
};
use vstd::prelude::*;

verus! {

/// One node of the tree.
pub struct Node {
    /// The scalar that the node carries.
    pub value: i32,
    /// The children that the node owns, in the order in which they were attached.
    pub children: Vec<NodeId>,
    /// The weak reference to the parent, if one was set.
    pub parent: Option<NodeId>,
}

impl Node {
    /// A detached node: no parent, no children.
    pub fn new(value: i32) -> (node: Node)
        ensures
            node.value == value,
            node.children@ == Seq::<NodeId>::empty(),
            node.parent is None,
    {
        Node { value, children: Vec::new(), parent: None }
    }
}

/// A node with the counts of its holders.
struct Slot {
    node: Node,
    handles: usize,
    owners: usize,
}

impl Slot {
    spec fn model(self) -> NodeModel {
        NodeModel {
            value: self.node.value,
            children: self.node.children@,
            parent: self.node.parent,
            handles: self.handles as nat,
            owners: self.owners as nat,
        }
    }
}

/// The arena that holds the nodes. Its view is the [`Graph`] of their records.
pub struct Arena {
    slots: Vec<Slot>,
}

impl View for Arena {
    type V = Graph;

    closed spec fn view(&self) -> Graph {
        Graph { nodes: self.slots@.map_values(|s: Slot| s.model()) }
    }
}

/// The records of the slots after one of them was replaced.
proof fn lemma_slot_update(before: Seq<Slot>, after: Seq<Slot>, i: int)
    requires
        0 <= i < before.len(),
        after.len() == before.len(),
        forall|j: int| 0 <= j < before.len() && j != i ==> after[j] == before[j],
    ensures
        after.map_values(|s: Slot| s.model()) == before.map_values(|s: Slot| s.model()).update(
            i,
            after[i].model(),
        ),
{
    assert(after.map_values(|s: Slot| s.model()) =~= before.map_values(|s: Slot| s.model()).update(
        i,
        after[i].model(),
    ));
}

impl Arena {
    /// An arena without any node.
    pub fn new() -> (arena: Arena)
        ensures
            arena@ == Graph::empty(),
            arena@.wf(),
    {
        let arena = Arena { slots: Vec::new() };
        assert(arena@.nodes =~= Seq::empty());
        arena
    }

    /// The number of nodes ever created, the reclaimed ones included.
    pub fn len(&self) -> (n: usize)
        ensures
            n == self@.len(),
    {
        self.slots.len()
    }

    /// Creates a detached node that carries `value`, hands out the first
    /// handle on it, and returns its address.
    pub fn create(&mut self, value: i32) -> (id: NodeId)
        requires
            old(self)@.wf(),
        ensures
            id == old(self)@.len(),
            final(self)@ == old(self)@.create(value),
            final(self)@.wf(),
            final(self)@.live(id),
    {
        let id = self.slots.len();
        self.slots.push(Slot { node: Node::new(value), handles: 1, owners: 0 });
        let grown = self.slots.len();
        proof {
            assert(grown == id + 1);
            assert(self@.nodes =~= old(self)@.create(value).nodes);
            lemma_create_wf(old(self)@, value);
        }
        id
    }

    /// Whether `id` addresses a node that has not been reclaimed.
    pub fn is_live(&self, id: NodeId) -> (live: bool)
        ensures
            live == self@.live(id),
    {
        id < self.slots.len() && (self.slots[id].handles > 0 || self.slots[id].owners > 0)
    }

    /// The node at `id`, as long as it has not been reclaimed.
    pub fn get(&self, id: NodeId) -> (found: Option<&Node>)
        ensures
            found is Some <==> self@.live(id),
            found matches Some(node) ==> {
                &&& node.value == self@.value(id)
                &&& node.children@ == self@.children(id)
                &&& node.parent == self@.nodes[id as int].parent
            },
    {
        if self.is_live(id) {
            Some(&self.slots[id].node)
        } else {
            None
        }
    }

    /// The number of handles that are out on `id`: none for an address that
    /// names no node.
    pub fn handle_count(&self, id: NodeId) -> (n: usize)
        ensures
            n == if id < self@.len() {
                self@.nodes[id as int].handles
            } else {
                0
            },
    {
        if id < self.slots.len() {
            self.slots[id].handles
        } else {
            0
        }
    }

    /// The number of nodes that list `id` among their children: none for an
    /// address that names no node.
    pub fn owner_count(&self, id: NodeId) -> (n: usize)
        ensures
            n == if id < self@.len() {
                self@.nodes[id as int].owners
            } else {
                0
            },
    {
        if id < self.slots.len() {
            self.slots[id].owners
        } else {
            0
        }
    }

    /// Hands out one more handle on `id`, and says whether it did. It does
    /// not where the node has been reclaimed, or where the count of handles
    /// is at the largest number that it can hold.
    pub fn acquire(&mut self, id: NodeId) -> (done: bool)
        requires
            old(self)@.wf(),
        ensures
            done == old(self)@.can_acquire(id),
            final(self)@ == old(self)@.acquire(id),
            final(self)@.wf(),
    {
        proof {
            lemma_acquire_wf(self@, id);
        }
        if self.is_live(id) && self.slots[id].handles < usize::MAX {
            self.slots[id].handles = self.slots[id].handles + 1;
            proof {
                lemma_slot_update(old(self).slots@, self.slots@, id as int);
            }
            true
        } else {
            false
        }
    }

    /// Gives up the owning references in `pending`, last one first, and
    /// reclaims every node that is left without a holder.
    fn reclaim(&mut self, pending: Vec<NodeId>)
        ensures
            final(self)@ == old(self)@.reclaim(pending@),
    {
        let ghost given = pending@;
        let mut pending = pending;
        while pending.len() > 0
            invariant
                self@.reclaim(pending@) == old(self)@.reclaim(given),
            decreases self@.total(), pending@.len(),
        {
            let ghost before = self@;
            let ghost slots_before = self.slots@;
            let ghost todo = pending@;
            let id = pending.pop().unwrap();
            assert(pending@ == todo.drop_last());
            if id < self.slots.len() && self.slots[id].owners > 0 {
                self.slots[id].owners = self.slots[id].owners - 1;
                proof {
                    lemma_slot_update(slots_before, self.slots@, id as int);
                    assert(self@ == before.without_owner(id));
                    lemma_total_update(before.nodes, before.nodes.len(), id as int, self@.nodes[id as int]);
                }
                if self.slots[id].handles == 0 && self.slots[id].owners == 0 {
                    let ghost next = self@;
                    let ghost slots_next = self.slots@;
                    self.slots[id].node.parent = None;
                    pending.append(&mut self.slots[id].node.children);
                    proof {
                        lemma_slot_update(slots_next, self.slots@, id as int);
                        assert(self@ == next.cleared(id));
                        lemma_total_update(next.nodes, next.nodes.len(), id as int, self@.nodes[id as int]);
                    }
                }
            }
        }
    }

    /// Gives back one handle on `id`, and says whether one was out.
    ///
    /// With the last holder gone the node is reclaimed, and so is every node
    /// that it alone kept alive. The weak references that point to a
    /// reclaimed node stay as they are, and resolve to nothing from then on.
    pub fn release(&mut self, id: NodeId) -> (done: bool)
        requires
            old(self)@.wf(),
        ensures
            done == old(self)@.can_release(id),
            final(self)@ == old(self)@.release(id),
            final(self)@.wf(),
    {
        proof {
            lemma_release_wf(self@, id);
        }
        if id < self.slots.len() && self.slots[id].handles > 0 {
            self.slots[id].handles = self.slots[id].handles - 1;
            proof {
                lemma_slot_update(old(self).slots@, self.slots@, id as int);
                assert(self@ == old(self)@.without_handle(id));
            }
            if self.slots[id].handles == 0 && self.slots[id].owners == 0 {
                let ghost next = self@;
                let ghost slots_next = self.slots@;
                let mut pending: Vec<NodeId> = Vec::new();
                self.slots[id].node.parent = None;
                pending.append(&mut self.slots[id].node.children);
                proof {
                    lemma_slot_update(slots_next, self.slots@, id as int);
                    assert(self@ == next.cleared(id));
                    assert(pending@ =~= next.children(id));
                }
                self.reclaim(pending);
            }
            true
        } else {
            false
        }
    }

    /// Attaches `child` to `parent`.
    ///
    /// Where both are alive, the weak reference of `child` comes to name
    /// `parent`, and `child` is appended to the children of `parent`, which
    /// thereby holds one owning reference to it. A child that `parent` lists
    /// already is not listed again. Where either has been reclaimed, nothing
    /// changes.
    pub fn attach(&mut self, parent: NodeId, child: NodeId)
        requires
            old(self)@.wf(),
        ensures
            final(self)@ == old(self)@.attach(parent, child),
            final(self)@.wf(),
    {
        proof {
            lemma_attach_wf(self@, parent, child);
        }
        if self.is_live(parent) && self.is_live(child) {
            let at = position(&self.slots[parent].node.children, child);
            if at.is_none() {
                proof {
                    assert(self@.node_ok(Seq::empty(), child as int));
                    lemma_listings_bound(self@.nodes, self@.nodes.len(), parent as int, child);
                }
                self.slots[parent].node.children.push(child);
                proof {
                    lemma_slot_update(old(self).slots@, self.slots@, parent as int);
                    assert(self@ == old(self)@.with_child(parent, child));
                }
                let ghost listed = self@;
                let ghost slots_listed = self.slots@;
                self.slots[child].owners = self.slots[child].owners + 1;
                proof {
                    lemma_slot_update(slots_listed, self.slots@, child as int);
                    assert(self@ == listed.with_owner(child));
                }
            }
            let ghost counted = self@;
            let ghost slots_counted = self.slots@;
            self.slots[child].node.parent = Some(parent);
            proof {
                lemma_slot_update(slots_counted, self.slots@, child as int);
                assert(self@ == counted.with_parent(child, Some(parent)));
            }
        }
    }

    /// Detaches `child` from `parent`.
    ///
    /// Where `parent` lists `child`, the child leaves the list, its weak
    /// reference is cleared, whichever node it named, and the owning reference
    /// that `parent` held is given up: a child without another holder is
    /// reclaimed. Where `parent` does not list `child`, nothing changes.
    pub fn detach(&mut self, parent: NodeId, child: NodeId)
        requires
            old(self)@.wf(),
        ensures
            final(self)@ == old(self)@.detach(parent, child),
            final(self)@.wf(),
    {
        proof {
            lemma_detach_wf(self@, parent, child);
        }
        if parent < self.slots.len() {
            let at = position(&self.slots[parent].node.children, child);
            if let Some(k) = at {
                proof {
                    let kids = self@.children(parent);
                    let chosen = kids.index_of(child);
                    assert(self@.node_ok(Seq::empty(), parent as int));
                    assert(kids[k as int] == child && kids[chosen] == child);
                    assert(chosen == k);
                    lemma_children_live(self@, parent, k as int);
                }
                self.slots[parent].node.children.remove(k);
                proof {
                    lemma_slot_update(old(self).slots@, self.slots@, parent as int);
                    assert(self@ == old(self)@.without_child(parent, k as int));
                }
                let ghost unlisted = self@;
                let ghost slots_unlisted = self.slots@;
                self.slots[child].node.parent = None;
                proof {
                    lemma_slot_update(slots_unlisted, self.slots@, child as int);
                    assert(self@ == unlisted.with_parent(child, None));
                }
                let mut pending: Vec<NodeId> = Vec::new();
                pending.push(child);
                assert(pending@ =~= seq![child]);
                self.reclaim(pending);
            }
        }
    }

    /// Looks up the parent of `id` through its weak reference.
    ///
    /// The parent is found where one was set and is still alive. The lookup
    /// counts for nothing: it keeps nobody alive.
    pub fn resolve_parent(&self, id: NodeId) -> (found: Option<NodeId>)
        ensures
            found == self@.resolve_parent(id),
    {
        if self.is_live(id) {
            match self.slots[id].node.parent {
                Some(p) => if self.is_live(p) {
                    Some(p)
                } else {
                    None
                },
                None => None,
            }
        } else {
            None
        }
    }
}

/// The first place at which `list` holds `id`.
fn position(list: &Vec<NodeId>, id: NodeId) -> (at: Option<usize>)
    ensures
        at is Some <==> list@.contains(id),
        at matches Some(k) ==> {
            &&& k < list@.len()
            &&& list@[k as int] == id
            &&& forall|j: int| 0 <= j < k ==> list@[j] != id
        },
{
    let mut k: usize = 0;
    while k < list.len()
        invariant
            k <= list@.len(),
            forall|j: int| 0 <= j < k ==> list@[j] != id,
        decreases list@.len() - k,
    {
        if list[k] == id {
            return Some(k);
        }
        k = k + 1;
    }
    None
}

} // verus!
