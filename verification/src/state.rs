//! The engine's state as mathematics: a map of nodes, a map of contents and
//! the last inode handed out, with each request as a function over them.

use crate::attr::{fresh_attr, Context, FileAttr, FileType};
use crate::error::FsError;
use crate::node_table::{children_of, is_entry, is_first_entry, keyed_by_inode, NodeView};
use vstd::prelude::*;

verus! {

/// Inode number of the root directory.
pub const ROOT_INODE: u64 = 1;

/// Parent recorded for the root directory, which has none.
pub const NO_PARENT: u64 = 0;

/// Largest inode number ever handed out. With at most this many nodes, every
/// position in a directory listing fits a signed 64-bit offset.
pub const MAX_INODE: u64 = 0x7FFF_FFFF_FFFF_FFFE;

/// Name of the root directory.
pub open spec fn root_name() -> Seq<char> {
    seq!['/']
}

/// The root directory as created at startup.
pub open spec fn root_node(ctx: Context) -> NodeView {
    NodeView {
        inode: ROOT_INODE,
        parent_inode: NO_PARENT,
        name: root_name(),
        attributes: fresh_attr(ROOT_INODE, 0, FileType::Directory, ctx),
    }
}

/// One line of a directory listing as contracts see it.
pub struct DirEntryView {
    pub ino: u64,
    pub offset: i64,
    pub kind: FileType,
    pub name: Seq<char>,
}

/// The synthetic entry for the directory itself.
pub open spec fn dot_entry() -> DirEntryView {
    DirEntryView { ino: 1, offset: 0, kind: FileType::Directory, name: seq!['.'] }
}

/// The synthetic entry for the parent directory.
pub open spec fn dotdot_entry() -> DirEntryView {
    DirEntryView { ino: 2, offset: 1, kind: FileType::Directory, name: seq!['.', '.'] }
}

/// The listing line of `node` at position `offset`.
pub open spec fn entry_for(node: NodeView, offset: i64) -> DirEntryView {
    DirEntryView { ino: node.attributes.ino, offset, kind: node.attributes.kind, name: node.name }
}

/// State of the engine.
pub struct FsState {
    /// Every node, by inode number.
    pub nodes: Map<u64, NodeView>,
    /// Payload of every file that was written, by inode number.
    pub contents: Map<u64, Seq<u8>>,
    /// The inode number handed out last.
    pub last_inode: u64,
}

impl FsState {
    /// The state at startup: the root directory alone, nothing written.
    pub open spec fn initial(ctx: Context) -> FsState {
        FsState::resumed(ctx, ROOT_INODE)
    }

    /// The state at a restart that follows an engine whose last inode was
    /// `floor`: the root directory alone, nothing written, and numbering
    /// that goes on above `floor`.
    pub open spec fn resumed(ctx: Context, floor: u64) -> FsState {
        FsState {
            nodes: Map::<u64, NodeView>::empty().insert(ROOT_INODE, root_node(ctx)),
            contents: Map::<u64, Seq<u8>>::empty(),
            last_inode: if floor < ROOT_INODE {
                ROOT_INODE
            } else if floor > MAX_INODE {
                MAX_INODE
            } else {
                floor
            },
        }
    }

    /// Number of bytes stored for `ino`; a file that was never written
    /// counts as empty.
    pub open spec fn stored_len(self, ino: u64) -> nat {
        if self.contents.contains_key(ino) {
            self.contents[ino].len()
        } else {
            0
        }
    }

    /// What holds of every state the engine reaches.
    ///
    /// The table is finite and keyed by inode; inode numbers are non-zero,
    /// not above the last one handed out, and repeated in each node's
    /// attribute record, whose size is the number of bytes stored for the
    /// node; the root is present under its name and sentinel parent; content
    /// exists only for nodes, which are then regular files.
    pub open spec fn wf(self) -> bool {
        &&& self.nodes.dom().finite()
        &&& keyed_by_inode(self.nodes)
        &&& self.nodes.len() <= self.last_inode <= MAX_INODE
        &&& forall|k: u64| #[trigger]
            self.nodes.contains_key(k) ==> 1 <= k <= self.last_inode
                && self.nodes[k].attributes.ino == k && self.nodes[k].attributes.size
                == self.stored_len(k)
        &&& self.nodes.contains_key(ROOT_INODE)
        &&& self.nodes[ROOT_INODE].parent_inode == NO_PARENT
        &&& self.nodes[ROOT_INODE].name == root_name()
        &&& forall|k: u64| #[trigger]
            self.contents.contains_key(k) ==> self.nodes.contains_key(k)
                && self.nodes[k].attributes.kind == FileType::RegularFile
    }

    /// Every node but the root lies in a directory that is in the table and
    /// has a smaller inode, so that following parents leads to the root and
    /// never runs in a circle.
    pub open spec fn hierarchy_closed(self) -> bool {
        forall|k: u64| #[trigger]
            self.nodes.contains_key(k) && k != ROOT_INODE ==> self.nodes.contains_key(
                self.nodes[k].parent_inode,
            ) && self.nodes[k].parent_inode < k
    }

    /// Reply to an attribute query.
    pub open spec fn getattr(self, ino: u64) -> Result<FileAttr, FsError> {
        if self.nodes.contains_key(ino) {
            Ok(self.nodes[ino].attributes)
        } else {
            Err(FsError::NotFound)
        }
    }

    /// Reply to an attribute change: the current record, with nothing
    /// applied.
    pub open spec fn setattr(self, ino: u64) -> Result<FileAttr, FsError> {
        if self.nodes.contains_key(ino) {
            Ok(self.nodes[ino].attributes)
        } else {
            Err(FsError::PermissionDenied)
        }
    }

    /// Inode of the entry called `name` in `parent`; where several entries
    /// share the name, the smallest inode among them.
    pub open spec fn first_entry(self, parent: u64, name: Seq<char>) -> u64 {
        choose|k: u64| is_first_entry(self.nodes, k, parent, name)
    }

    /// Reply to a name lookup.
    pub open spec fn lookup(self, parent: u64, name: Seq<char>) -> Result<FileAttr, FsError> {
        if exists|k: u64| is_entry(self.nodes, k, parent, name) {
            Ok(self.nodes[self.first_entry(parent, name)].attributes)
        } else {
            Err(FsError::NotFound)
        }
    }

    /// Reply to a read: the whole stored payload.
    pub open spec fn read(self, ino: u64) -> Result<Seq<u8>, FsError> {
        if self.contents.contains_key(ino) {
            Ok(self.contents[ino])
        } else {
            Err(FsError::PermissionDenied)
        }
    }

    /// Whether a fresh inode number is left to hand out.
    pub open spec fn can_allocate(self) -> bool {
        self.last_inode < MAX_INODE
    }

    /// The inode number handed out next.
    pub open spec fn next_inode(self) -> u64 {
        (self.last_inode + 1) as u64
    }

    /// Reply to the creation of an entry stamped with `ctx`.
    pub open spec fn create_reply(self, ctx: Context) -> Result<FileAttr, FsError> {
        if self.can_allocate() {
            Ok(fresh_attr(self.next_inode(), 0, FileType::RegularFile, ctx))
        } else {
            Err(FsError::DuplicateInode)
        }
    }

    /// State after the creation of an entry called `name` in `parent`,
    /// stamped with `ctx`.
    pub open spec fn after_create(self, parent: u64, name: Seq<char>, ctx: Context) -> FsState {
        if self.can_allocate() {
            FsState {
                nodes: self.nodes.insert(
                    self.next_inode(),
                    NodeView {
                        inode: self.next_inode(),
                        parent_inode: parent,
                        name,
                        attributes: fresh_attr(self.next_inode(), 0, FileType::RegularFile, ctx),
                    },
                ),
                contents: self.contents,
                last_inode: self.next_inode(),
            }
        } else {
            self
        }
    }

    /// Reply to a write of `data`: the number of bytes accepted.
    pub open spec fn write_reply(self, ino: u64, data: Seq<u8>) -> Result<usize, FsError> {
        if self.nodes.contains_key(ino) {
            Ok(data.len() as usize)
        } else {
            Err(FsError::NotFound)
        }
    }

    /// State after a write of `data` to `ino`, stamped with `ctx`.
    pub open spec fn after_write(self, ino: u64, data: Seq<u8>, ctx: Context) -> FsState {
        if self.nodes.contains_key(ino) {
            FsState {
                nodes: self.nodes.insert(
                    ino,
                    NodeView {
                        attributes: fresh_attr(
                            ino,
                            data.len() as u64,
                            FileType::RegularFile,
                            ctx,
                        ),
                        ..self.nodes[ino]
                    },
                ),
                contents: self.contents.insert(ino, data),
                last_inode: self.last_inode,
            }
        } else {
            self
        }
    }

    /// `entries` is a reply to a listing of `dir` from `offset`.
    ///
    /// From a positive offset nothing is listed. Otherwise the two synthetic
    /// entries come first, then each child of `dir` exactly once, in some
    /// order, each at its own position in the listing.
    pub open spec fn lists_directory(
        self,
        dir: u64,
        offset: i64,
        entries: Seq<DirEntryView>,
    ) -> bool {
        if offset > 0 {
            entries.len() == 0
        } else {
            &&& entries.len() >= 2
            &&& entries[0] == dot_entry()
            &&& entries[1] == dotdot_entry()
            &&& forall|i: int|
                2 <= i < entries.len() ==> children_of(self.nodes, dir).contains(
                    (#[trigger] entries[i]).ino,
                ) && entries[i].offset == i && entries[i] == entry_for(
                    self.nodes[entries[i].ino],
                    entries[i].offset,
                )
            &&& forall|i: int, j: int|
                2 <= i < j < entries.len() ==> (#[trigger] entries[i]).ino
                    != (#[trigger] entries[j]).ino
            &&& forall|k: u64| #[trigger]
                children_of(self.nodes, dir).contains(k) ==> exists|i: int|
                    2 <= i < entries.len() && (#[trigger] entries[i]).ino == k
        }
    }

    /// The state at startup or at a restart satisfies the invariant, and
    /// its one node needs no parent.
    pub proof fn resumed_is_wf(ctx: Context, floor: u64)
        ensures
            FsState::resumed(ctx, floor).wf(),
            FsState::resumed(ctx, floor).hierarchy_closed(),
    {
    }

    /// Creating an entry keeps the invariant; it keeps the hierarchy closed
    /// when the parent is in the table.
    pub proof fn create_preserves_wf(self, parent: u64, name: Seq<char>, ctx: Context)
        requires
            self.wf(),
        ensures
            self.after_create(parent, name, ctx).wf(),
            self.hierarchy_closed() && self.nodes.contains_key(parent) ==> self.after_create(
                parent,
                name,
                ctx,
            ).hierarchy_closed(),
    {
    }

    /// Writing keeps the invariant and the hierarchy.
    pub proof fn write_preserves_wf(self, ino: u64, data: Seq<u8>, ctx: Context)
        requires
            self.wf(),
            data.len() <= usize::MAX,
        ensures
            self.after_write(ino, data, ctx).wf(),
            self.hierarchy_closed() ==> self.after_write(ino, data, ctx).hierarchy_closed(),
    {
    }

    /// A lookup answers with the attributes of the entry that has the
    /// smallest inode among those of the given parent and name.
    pub proof fn lookup_is_first_entry(self, parent: u64, name: Seq<char>, k: u64)
        requires
            is_first_entry(self.nodes, k, parent, name),
        ensures
            self.first_entry(parent, name) == k,
            self.lookup(parent, name) == Ok::<FileAttr, FsError>(self.nodes[k].attributes),
    {
    }

    /// A lookup that succeeds answers with the attributes of an entry of the
    /// given parent and name, the one with the smallest inode; a lookup
    /// fails only where no entry has that parent and name.
    pub proof fn lookup_resolves_to_first_entry(self, parent: u64, name: Seq<char>)
        ensures
            match self.lookup(parent, name) {
                Ok(attr) => is_first_entry(
                    self.nodes,
                    self.first_entry(parent, name),
                    parent,
                    name,
                ) && attr == self.nodes[self.first_entry(parent, name)].attributes,
                Err(e) => e == FsError::NotFound && forall|k: u64|
                    !is_entry(self.nodes, k, parent, name),
            },
    {
        if exists|k: u64| is_entry(self.nodes, k, parent, name) {
            let witness = choose|k: u64| is_entry(self.nodes, k, parent, name);
            self.smallest_entry_exists(parent, name, witness, witness);
        }
    }

    /// Among the entries called `name` in `parent` one has the smallest
    /// inode, given that `witness` is such an entry and that no inode
    /// strictly between `bound` and `witness` is.
    proof fn smallest_entry_exists(self, parent: u64, name: Seq<char>, witness: u64, bound: u64)
        requires
            is_entry(self.nodes, witness, parent, name),
            bound <= witness,
            forall|j: u64| bound < j < witness ==> !is_entry(self.nodes, j, parent, name),
        ensures
            exists|k: u64| is_first_entry(self.nodes, k, parent, name),
        decreases bound,
    {
        if is_entry(self.nodes, bound, parent, name) {
            if bound == 0 {
                assert(is_first_entry(self.nodes, bound, parent, name));
            } else {
                self.smallest_entry_exists(parent, name, bound, (bound - 1) as u64);
            }
        } else if bound == 0 {
            assert(is_first_entry(self.nodes, witness, parent, name));
        } else {
            self.smallest_entry_exists(parent, name, witness, (bound - 1) as u64);
        }
    }
}

} // verus!
