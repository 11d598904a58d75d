//! The operation engine: one method per request of the kernel bridge.

pub use crate::attr::file_create;
use crate::attr::{Context, FileAttr, FileType, Timespec};
use crate::error::FsError;
use crate::node_table::{
    children_of, is_entry, is_first_entry, lists_children, node_views, Node, NodeTable,
};
use crate::state::{
    dot_entry, dotdot_entry, entry_for, DirEntryView, FsState, MAX_INODE, NO_PARENT, ROOT_INODE,
};
use std::collections::HashMap;
use vstd::prelude::*;
use vstd::slice::slice_to_vec;
use vstd::std_specs::hash::*;

verus! {

/// One line of a directory listing.
#[derive(Clone, Debug, PartialEq, Eq)]
pub struct DirEntry {
    /// Inode number of the entry.
    pub ino: u64,
    /// Position of the entry in the listing.
    pub offset: i64,
    /// Kind of the entry.
    pub kind: FileType,
    /// Name of the entry.
    pub name: String,
}

impl View for DirEntry {
    type V = DirEntryView;

    open spec fn view(&self) -> DirEntryView {
        DirEntryView { ino: self.ino, offset: self.offset, kind: self.kind, name: self.name@ }
    }
}

/// The views of a listing.
pub open spec fn entry_views(entries: Seq<DirEntry>) -> Seq<DirEntryView> {
    entries.map_values(|e: DirEntry| e@)
}

/// The fields that a request to change attributes may carry. The engine
/// accepts them and applies none.
#[derive(Clone, Copy, Debug, PartialEq, Eq)]
pub struct AttrChanges {
    /// Permission bits.
    pub mode: Option<u32>,
    /// Owning user.
    pub uid: Option<u32>,
    /// Owning group.
    pub gid: Option<u32>,
    /// Size in bytes.
    pub size: Option<u64>,
    /// Time of last access.
    pub atime: Option<Timespec>,
    /// Time of last modification.
    pub mtime: Option<Timespec>,
    /// Handle of the open file the request came through.
    pub fh: Option<u64>,
    /// Time of creation.
    pub crtime: Option<Timespec>,
    /// Time of last change.
    pub chgtime: Option<Timespec>,
    /// Time of last backup.
    pub bkuptime: Option<Timespec>,
    /// Flags.
    pub flags: Option<u32>,
}

/// The in-memory filesystem: the node table, the content store and the
/// inode allocator.
pub struct MemoryFS {
    /// Every node, by inode number.
    inodes: NodeTable,
    /// Payload of every file that was written, by inode number.
    datas: HashMap<u64, Vec<u8>>,
    /// The inode number handed out last.
    last_inode: u64,
}

impl View for MemoryFS {
    type V = FsState;

    closed spec fn view(&self) -> FsState {
        FsState {
            nodes: self.inodes@,
            contents: self.datas@.map_values(|d: Vec<u8>| d@),
            last_inode: self.last_inode,
        }
    }
}

impl MemoryFS {
    /// The engine's state satisfies the invariant of [`FsState`].
    pub open spec fn wf(&self) -> bool {
        self@.wf()
    }

    /// An engine that holds the root directory, stamped with `ctx`, and
    /// nothing else, and that numbers its entries above `floor`. With the
    /// last inode of an earlier engine as `floor`, no inode of that engine
    /// is handed out again.
    pub fn resume_with(ctx: &Context, floor: u64) -> (fs: MemoryFS)
        ensures
            fs.wf(),
            fs@ == FsState::resumed(*ctx, floor),
            fs@.hierarchy_closed(),
    {
        broadcast use group_hash_axioms;

        let mut inodes = NodeTable::new();
        let root = Node {
            inode: ROOT_INODE,
            parent_inode: NO_PARENT,
            name: "/".to_owned(),
            attributes: FileAttr::stamped(ROOT_INODE, 0, FileType::Directory, ctx),
        };
        proof {
            reveal_strlit("/");
            assert(root.name@ =~= seq!['/']);
            FsState::resumed_is_wf(*ctx, floor);
        }
        let inserted = inodes.insert(root);
        let last_inode: u64 = if floor < ROOT_INODE {
            ROOT_INODE
        } else if floor > MAX_INODE {
            MAX_INODE
        } else {
            floor
        };
        let fs = MemoryFS { inodes, datas: HashMap::new(), last_inode };
        assert(fs@.contents =~= Map::<u64, Seq<u8>>::empty());
        fs
    }

    /// An engine that holds the root directory, stamped with `ctx`, and
    /// nothing else.
    pub fn new_with(ctx: &Context) -> (fs: MemoryFS)
        ensures
            fs.wf(),
            fs@ == FsState::initial(*ctx),
            fs@.hierarchy_closed(),
    {
        MemoryFS::resume_with(ctx, ROOT_INODE)
    }

    /// An engine that holds the root directory, created now by the running
    /// process, and nothing else.
    pub fn new() -> (fs: MemoryFS)
        ensures
            fs.wf(),
            fs@ == FsState::initial(fs@.nodes[ROOT_INODE].attributes.context()),
            fs@.nodes[ROOT_INODE].attributes.atime.wf(),
            fs@.hierarchy_closed(),
    {
        let ctx = Context::current();
        MemoryFS::new_with(&ctx)
    }

    /// The inode number handed out last.
    pub fn last_inode(&self) -> (ino: u64)
        ensures
            ino == self@.last_inode,
    {
        self.last_inode
    }

    /// The node table.
    pub fn nodes(&self) -> (table: &NodeTable)
        ensures
            table@ == self@.nodes,
    {
        &self.inodes
    }

    /// One-time setup. The root directory is all the state there is.
    pub fn init(&mut self) -> (r: Result<(), FsError>)
        ensures
            r is Ok,
            *final(self) == *old(self),
    {
        Ok(())
    }

    /// Teardown hook. Nothing is released.
    pub fn destroy(&mut self)
        ensures
            *final(self) == *old(self),
    {
    }

    /// The attribute record of the node with the given inode.
    pub fn getattr(&self, ino: u64) -> (r: Result<FileAttr, FsError>)
        ensures
            r == self@.getattr(ino),
    {
        match self.inodes.lookup_by_inode(ino) {
            Ok(node) => Ok(node.attributes),
            Err(_) => Err(FsError::NotFound),
        }
    }

    /// Answers a request to change attributes with the node's current
    /// record; none of `changes` is applied.
    pub fn setattr(&self, ino: u64, changes: &AttrChanges) -> (r: Result<FileAttr, FsError>)
        ensures
            r == self@.setattr(ino),
    {
        match self.inodes.lookup_by_inode(ino) {
            Ok(node) => Ok(node.attributes),
            Err(_) => Err(FsError::PermissionDenied),
        }
    }

    /// The attribute record of the entry called `name` in `parent`; where
    /// several entries share the name, that of the smallest inode.
    pub fn lookup(&self, parent: u64, name: &str) -> (r: Result<FileAttr, FsError>)
        requires
            self.wf(),
        ensures
            r == self@.lookup(parent, name@),
            match r {
                Ok(attr) => is_first_entry(self@.nodes, attr.ino, parent, name@) && attr
                    == self@.nodes[attr.ino].attributes,
                Err(e) => e == FsError::NotFound && forall|k: u64|
                    !is_entry(self@.nodes, k, parent, name@),
            },
    {
        match self.inodes.lookup_by_parent_and_name(parent, name) {
            Ok(node) => {
                proof {
                    self@.lookup_is_first_entry(parent, name@, node.inode);
                }
                Ok(node.attributes)
            },
            Err(_) => Err(FsError::NotFound),
        }
    }

    /// The whole stored payload of the file with the given inode.
    pub fn read(&self, ino: u64) -> (r: Result<&Vec<u8>, FsError>)
        ensures
            match r {
                Ok(data) => self@.read(ino) == Ok::<Seq<u8>, FsError>(data@),
                Err(e) => self@.read(ino) == Err::<Seq<u8>, FsError>(e),
            },
    {
        broadcast use group_hash_axioms;

        match self.datas.get(&ino) {
            Some(data) => Ok(data),
            None => Err(FsError::PermissionDenied),
        }
    }

    /// Lists the directory `ino` from `offset`: nothing from a positive
    /// offset, else `.` and `..` followed by every child.
    pub fn readdir(&self, ino: u64, offset: i64) -> (entries: Vec<DirEntry>)
        requires
            self.wf(),
        ensures
            self@.lists_directory(ino, offset, entry_views(entries@)),
    {
        let mut entries: Vec<DirEntry> = Vec::new();
        if offset > 0 {
            return entries;
        }
        proof {
            reveal_strlit(".");
            reveal_strlit("..");
        }
        let dot = DirEntry { ino: 1, offset: 0, kind: FileType::Directory, name: ".".to_owned() };
        let dotdot = DirEntry {
            ino: 2,
            offset: 1,
            kind: FileType::Directory,
            name: "..".to_owned(),
        };
        assert(dot.name@ =~= seq!['.']);
        assert(dotdot.name@ =~= seq!['.', '.']);
        entries.push(dot);
        entries.push(dotdot);
        let children = self.inodes.list_children(ino);
        let ghost listed = node_views(children@);
        let mut i: usize = 0;
        while i < children.len()
            invariant
                i <= children.len(),
                children.len() <= MAX_INODE,
                listed == node_views(children@),
                entries.len() == i + 2,
                entries[0]@ == dot_entry(),
                entries[1]@ == dotdot_entry(),
                forall|j: int|
                    0 <= j < i ==> (#[trigger] entries[j + 2]).offset == j + 2 && entries[j + 2]@
                        == entry_for(listed[j], entries[j + 2].offset),
            decreases children.len() - i,
        {
            let node = children[i];
            let position: i64 = (i as i64) + 2;
            entries.push(
                DirEntry {
                    ino: node.attributes.ino,
                    offset: position,
                    kind: node.attributes.kind,
                    name: node.name.clone(),
                },
            );
            i = i + 1;
        }
        proof {
            let views = entry_views(entries@);
            let nodes = self@.nodes;
            assert(lists_children(nodes, ino, listed));
            assert forall|p: int| 2 <= p < views.len() implies (#[trigger] views[p]) == entry_for(
                listed[p - 2],
                views[p].offset,
            ) && views[p].offset == p && views[p].ino == listed[p - 2].inode by {
                assert(entries[(p - 2) + 2].offset == (p - 2) + 2);
            }
            assert forall|k: u64| #[trigger]
                children_of(nodes, ino).contains(k) implies exists|p: int|
                2 <= p < views.len() && (#[trigger] views[p]).ino == k by {
                let j = choose|j: int| 0 <= j < listed.len() && (#[trigger] listed[j]).inode == k;
                assert(views[j + 2].ino == k);
            }
        }
        entries
    }

    /// Creates an empty regular file called `name` in `parent`, stamped with
    /// `ctx`, under the next inode number, and returns its attribute record.
    /// Fails only when no inode number is left.
    pub fn create_with(&mut self, ctx: &Context, parent: u64, name: &str) -> (r: Result<
        FileAttr,
        FsError,
    >)
        requires
            old(self).wf(),
        ensures
            final(self).wf(),
            r == old(self)@.create_reply(*ctx),
            final(self)@ == old(self)@.after_create(parent, name@, *ctx),
            old(self)@.hierarchy_closed() && old(self)@.nodes.contains_key(parent)
                ==> final(self)@.hierarchy_closed(),
    {
        if self.last_inode >= MAX_INODE {
            return Err(FsError::DuplicateInode);
        }
        let ino: u64 = self.last_inode + 1;
        let attributes = FileAttr::stamped(ino, 0, FileType::RegularFile, ctx);
        let node = Node { inode: ino, parent_inode: parent, name: name.to_owned(), attributes };
        proof {
            self@.create_preserves_wf(parent, name@, *ctx);
        }
        match self.inodes.insert(node) {
            Ok(_) => {
                self.last_inode = ino;
                Ok(attributes)
            },
            Err(e) => Err(e),
        }
    }

    /// Creates an empty regular file called `name` in `parent`, owned by the
    /// running process and stamped with the current time.
    pub fn create(&mut self, parent: u64, name: &str) -> (r: Result<FileAttr, FsError>)
        requires
            old(self).wf(),
        ensures
            final(self).wf(),
            old(self)@.hierarchy_closed() && old(self)@.nodes.contains_key(parent)
                ==> final(self)@.hierarchy_closed(),
            match r {
                Ok(attr) => {
                    &&& r == old(self)@.create_reply(attr.context())
                    &&& final(self)@ == old(self)@.after_create(parent, name@, attr.context())
                    &&& attr.atime.wf()
                },
                Err(e) => {
                    &&& e == FsError::DuplicateInode
                    &&& !old(self)@.can_allocate()
                    &&& final(self)@ == old(self)@
                },
            },
    {
        let ctx = Context::current();
        self.create_with(&ctx, parent, name)
    }

    /// Replaces the payload of the file `ino` with `data`, rewrites its
    /// attribute record as a regular file of that size stamped with `ctx`,
    /// and returns the number of bytes accepted.
    pub fn write_with(&mut self, ctx: &Context, ino: u64, data: &[u8]) -> (r: Result<
        usize,
        FsError,
    >)
        requires
            old(self).wf(),
        ensures
            final(self).wf(),
            r == old(self)@.write_reply(ino, data@),
            final(self)@ == old(self)@.after_write(ino, data@, *ctx),
            old(self)@.hierarchy_closed() ==> final(self)@.hierarchy_closed(),
    {
        broadcast use group_hash_axioms;

        let size: usize = data.len();
        let attributes = FileAttr::stamped(ino, size as u64, FileType::RegularFile, ctx);
        proof {
            self@.write_preserves_wf(ino, data@, *ctx);
        }
        match self.inodes.update_attributes(ino, attributes) {
            Ok(_) => {
                self.datas.insert(ino, slice_to_vec(data));
                assert(self@.contents =~= old(self)@.contents.insert(ino, data@));
                Ok(size)
            },
            Err(_) => Err(FsError::NotFound),
        }
    }

    /// Replaces the payload of the file `ino` with `data` on behalf of the
    /// running process, at the current time.
    pub fn write(&mut self, ino: u64, data: &[u8]) -> (r: Result<usize, FsError>)
        requires
            old(self).wf(),
        ensures
            final(self).wf(),
            r == old(self)@.write_reply(ino, data@),
            old(self)@.hierarchy_closed() ==> final(self)@.hierarchy_closed(),
            match r {
                Ok(_) => {
                    &&& final(self)@.getattr(ino) matches Ok(attr)
                    &&& final(self)@ == old(self)@.after_write(ino, data@, attr.context())
                    &&& attr.atime.wf()
                },
                Err(_) => final(self)@ == old(self)@,
            },
    {
        let ctx = Context::current();
        self.write_with(&ctx, ino, data)
    }
}

} // verus!
