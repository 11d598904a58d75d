//! The node table: every entry of the filesystem, keyed by inode number.
//!
//! Containment is expressed through each node's parent inode alone; there is
//! no child list, so the children of a directory are found by walking the
//! whole table.

use crate::attr::FileAttr;
use crate::error::FsError;
use std::collections::HashMap;
use vstd::prelude::*;
use vstd::std_specs::hash::*;
use vstd::std_specs::iter::IteratorSpec;

verus! {

/// Identity and metadata of one filesystem entry.
#[derive(Clone, Debug, PartialEq, Eq)]
pub struct Node {
    /// Inode number of the entry.
    pub inode: u64,
    /// Inode number of the directory that holds the entry.
    pub parent_inode: u64,
    /// Name of the entry within its parent.
    pub name: String,
    /// Attribute record of the entry.
    pub attributes: FileAttr,
}

/// A node as contracts see it: the name is a sequence of characters.
pub struct NodeView {
    pub inode: u64,
    pub parent_inode: u64,
    pub name: Seq<char>,
    pub attributes: FileAttr,
}

impl View for Node {
    type V = NodeView;

    open spec fn view(&self) -> NodeView {
        NodeView {
            inode: self.inode,
            parent_inode: self.parent_inode,
            name: self.name@,
            attributes: self.attributes,
        }
    }
}

/// Every node is stored under its own inode number.
pub open spec fn keyed_by_inode(t: Map<u64, NodeView>) -> bool {
    forall|k: u64| t.contains_key(k) ==> (#[trigger] t[k]).inode == k
}

/// The node under `k` is an entry called `name` of the directory `parent`.
pub open spec fn is_entry(t: Map<u64, NodeView>, k: u64, parent: u64, name: Seq<char>) -> bool {
    t.contains_key(k) && t[k].parent_inode == parent && t[k].name == name
}

/// The node under `k` is the entry called `name` of the directory `parent`
/// with the smallest inode number.
pub open spec fn is_first_entry(
    t: Map<u64, NodeView>,
    k: u64,
    parent: u64,
    name: Seq<char>,
) -> bool {
    &&& is_entry(t, k, parent, name)
    &&& forall|j: u64| #[trigger] is_entry(t, j, parent, name) ==> k <= j
}

/// Inode numbers of the nodes whose parent is `parent`.
pub open spec fn children_of(t: Map<u64, NodeView>, parent: u64) -> Set<u64> {
    Set::new(|k: u64| t.contains_key(k) && t[k].parent_inode == parent)
}

/// `nodes` holds each child of `parent` exactly once, in some order, and
/// nothing else.
pub open spec fn lists_children(t: Map<u64, NodeView>, parent: u64, nodes: Seq<NodeView>) -> bool {
    &&& forall|i: int|
        0 <= i < nodes.len() ==> children_of(t, parent).contains((#[trigger] nodes[i]).inode)
            && t[nodes[i].inode] == nodes[i]
    &&& forall|i: int, j: int|
        0 <= i < j < nodes.len() ==> (#[trigger] nodes[i]).inode != (#[trigger] nodes[j]).inode
    &&& forall|k: u64| #[trigger]
        children_of(t, parent).contains(k) ==> exists|i: int|
            0 <= i < nodes.len() && (#[trigger] nodes[i]).inode == k
}

/// The views of a sequence of borrowed nodes.
pub open spec fn node_views(nodes: Seq<&Node>) -> Seq<NodeView> {
    nodes.map_values(|n: &Node| n@)
}

/// Mapping from inode number to node.
pub struct NodeTable {
    nodes: HashMap<u64, Node>,
}

impl View for NodeTable {
    type V = Map<u64, NodeView>;

    closed spec fn view(&self) -> Map<u64, NodeView> {
        self.nodes@.map_values(|n: Node| n@)
    }
}

impl NodeTable {
    /// The table is finite and every node is stored under its own inode.
    pub open spec fn wf(&self) -> bool {
        &&& self@.dom().finite()
        &&& keyed_by_inode(self@)
    }

    /// An empty table.
    pub fn new() -> (table: NodeTable)
        ensures
            table.wf(),
            table@ == Map::<u64, NodeView>::empty(),
    {
        let table = NodeTable { nodes: HashMap::new() };
        table
    }

    /// Number of nodes in the table.
    pub fn len(&self) -> (n: usize)
        ensures
            n == self@.len(),
    {
        broadcast use group_hash_axioms;

        assert(self@.dom() =~= self.nodes@.dom());
        self.nodes.len()
    }

    /// The node with the given inode number.
    pub fn lookup_by_inode(&self, ino: u64) -> (r: Result<&Node, FsError>)
        ensures
            match r {
                Ok(node) => self@.contains_key(ino) && node@ == self@[ino],
                Err(e) => e == FsError::NotFound && !self@.contains_key(ino),
            },
    {
        broadcast use group_hash_axioms;

        match self.nodes.get(&ino) {
            Some(node) => Ok(node),
            None => Err(FsError::NotFound),
        }
    }

    /// Resolves one path segment: among the nodes whose parent is `parent`
    /// and whose name is exactly `name`, the one with the smallest inode.
    pub fn lookup_by_parent_and_name(&self, parent: u64, name: &str) -> (r: Result<&Node, FsError>)
        requires
            self.wf(),
        ensures
            match r {
                Ok(node) => is_first_entry(self@, node.inode, parent, name@) && node@
                    == self@[node.inode],
                Err(e) => e == FsError::NotFound && forall|k: u64|
                    !is_entry(self@, k, parent, name@),
            },
    {
        broadcast use group_hash_axioms;

        let wanted = name.to_owned();
        let mut best: Option<u64> = None;
        for pair in it: self.nodes.iter()
            invariant
                wanted@ == name@,
                it.seq() == self.nodes.iter().remaining(),
                match best {
                    Some(b) => is_entry(self@, b, parent, name@) && forall|i: int|
                        0 <= i < it.index() && (#[trigger] it.seq()[i]).1@.parent_inode == parent
                            && it.seq()[i].1@.name == name@ ==> b <= *it.seq()[i].0,
                    None => forall|i: int|
                        0 <= i < it.index() ==> !((#[trigger] it.seq()[i]).1@.parent_inode
                            == parent && it.seq()[i].1@.name == name@),
                },
        {
            let (k, node) = pair;
            if node.parent_inode == parent && node.name == wanted {
                let better: bool = match best {
                    Some(b) => *k < b,
                    None => true,
                };
                if better {
                    best = Some(*k);
                }
            }
        }
        match best {
            Some(b) => {
                match self.nodes.get(&b) {
                    Some(node) => Ok(node),
                    None => Err(FsError::NotFound),
                }
            },
            None => Err(FsError::NotFound),
        }
    }

    /// Every node whose parent is `parent`, each once, in no particular
    /// order.
    pub fn list_children(&self, parent: u64) -> (children: Vec<&Node>)
        requires
            self.wf(),
        ensures
            lists_children(self@, parent, node_views(children@)),
            children.len() <= self@.len(),
    {
        broadcast use group_hash_axioms;

        let mut children: Vec<&Node> = Vec::new();
        let ghost walk = self.nodes.iter().remaining();
        for pair in it: self.nodes.iter()
            invariant
                self.wf(),
                it.seq() == walk,
                walk.no_duplicates(),
                walk.len() == self.nodes@.dom().len(),
                children.len() <= it.index(),
                forall|i: int|
                    0 <= i < children.len() ==> (#[trigger] children[i]).parent_inode == parent
                        && exists|j: int|
                        0 <= j < it.index() && (#[trigger] walk[j]) == (
                            &children[i].inode,
                            children[i],
                        ),
                forall|i: int, j: int|
                    0 <= i < j < children.len() ==> (#[trigger] children[i]).inode
                        != (#[trigger] children[j]).inode,
                forall|j: int|
                    0 <= j < it.index() && (#[trigger] walk[j]).1.parent_inode == parent
                        ==> exists|i: int|
                        0 <= i < children.len() && (#[trigger] children[i]).inode == *walk[j].0,
        {
            let (k, node) = pair;
            let ghost before = children@;
            if node.parent_inode == parent {
                assert(self@.contains_key(*k) && self@[*k] == node@);
                children.push(node);
            }
            assert forall|j: int|
                0 <= j <= it.index() && (#[trigger] walk[j]).1.parent_inode
                    == parent implies exists|i: int|
                0 <= i < children.len() && (#[trigger] children[i]).inode == *walk[j].0 by {
                if j < it.index() {
                    let i = choose|i: int|
                        0 <= i < before.len() && (#[trigger] before[i]).inode == *walk[j].0;
                    assert(children[i] == before[i]);
                } else {
                    assert(children[children.len() - 1].inode == *k);
                }
            }
        }
        proof {
            let views = node_views(children@);
            assert(self@.dom() =~= self.nodes@.dom());
            assert forall|k: u64| #[trigger]
                children_of(self@, parent).contains(k) implies exists|i: int|
                0 <= i < views.len() && (#[trigger] views[i]).inode == k by {
                let j = walk.index_of((&k, &self.nodes@[k]));
                let i = choose|i: int|
                    0 <= i < children.len() && (#[trigger] children[i]).inode == *walk[j].0;
                assert(views[i].inode == k);
            }
        }
        children
    }

    /// Adds a node under its own inode number, unless that number is taken.
    pub fn insert(&mut self, node: Node) -> (r: Result<(), FsError>)
        requires
            old(self).wf(),
        ensures
            final(self).wf(),
            match r {
                Ok(_) => !old(self)@.contains_key(node.inode) && final(self)@ == old(self)@.insert(
                    node.inode,
                    node@,
                ),
                Err(e) => e == FsError::DuplicateInode && old(self)@.contains_key(node.inode)
                    && final(self)@ == old(self)@,
            },
    {
        broadcast use group_hash_axioms;

        let ino: u64 = node.inode;
        if self.nodes.contains_key(&ino) {
            Err(FsError::DuplicateInode)
        } else {
            let ghost view = node@;
            self.nodes.insert(ino, node);
            assert(self@ =~= old(self)@.insert(ino, view));
            Ok(())
        }
    }

    /// Replaces the attribute record of the node with the given inode.
    pub fn update_attributes(&mut self, ino: u64, new_attributes: FileAttr) -> (r: Result<
        (),
        FsError,
    >)
        requires
            old(self).wf(),
        ensures
            final(self).wf(),
            match r {
                Ok(_) => old(self)@.contains_key(ino) && final(self)@ == old(self)@.insert(
                    ino,
                    NodeView { attributes: new_attributes, ..old(self)@[ino] },
                ),
                Err(e) => e == FsError::NotFound && !old(self)@.contains_key(ino) && final(self)@
                    == old(self)@,
            },
    {
        broadcast use group_hash_axioms;

        match self.nodes.remove(&ino) {
            Some(node) => {
                let updated = Node {
                    inode: node.inode,
                    parent_inode: node.parent_inode,
                    name: node.name,
                    attributes: new_attributes,
                };
                self.nodes.insert(ino, updated);
                assert(self@ =~= old(self)@.insert(
                    ino,
                    NodeView { attributes: new_attributes, ..old(self)@[ino] },
                ));
                Ok(())
            },
            None => {
                assert(self@ =~= old(self)@);
                Err(FsError::NotFound)
            },
        }
    }
}

} // verus!
