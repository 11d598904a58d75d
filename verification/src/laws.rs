//! Laws that relate the requests to one another, proved over the model of
//! the engine's state.

use crate::attr::{Context, FileAttr, FileType};
use crate::error::FsError;
use crate::node_table::{children_of, is_entry};
use crate::state::{DirEntryView, FsState};
use vstd::prelude::*;

verus! {

/// Right after an entry is created, a query for its attributes answers with
/// the record that the creation returned: a regular file of size zero under
/// the new inode.
pub proof fn created_entry_is_empty_file(
    s: FsState,
    parent: u64,
    name: Seq<char>,
    ctx: Context,
)
    requires
        s.wf(),
    ensures
        s.create_reply(ctx) matches Ok(attr) ==> {
            &&& s.after_create(parent, name, ctx).getattr(attr.ino) == Ok::<_, FsError>(attr)
            &&& attr.kind == FileType::RegularFile
            &&& attr.size == 0
            &&& s.getattr(attr.ino) is Err
        },
{
}

/// Creating an entry changes neither the attributes nor the content of a
/// node that was there before.
pub proof fn create_keeps_existing_nodes(
    s: FsState,
    ino: u64,
    parent: u64,
    name: Seq<char>,
    ctx: Context,
)
    requires
        s.wf(),
        s.nodes.contains_key(ino),
    ensures
        s.after_create(parent, name, ctx).getattr(ino) == s.getattr(ino),
        s.after_create(parent, name, ctx).read(ino) == s.read(ino),
{
}

/// A write to one file changes neither the attributes nor the content of
/// another.
pub proof fn write_keeps_other_files(
    s: FsState,
    ino: u64,
    other: u64,
    data: Seq<u8>,
    ctx: Context,
)
    requires
        ino != other,
    ensures
        s.after_write(other, data, ctx).getattr(ino) == s.getattr(ino),
        s.after_write(other, data, ctx).read(ino) == s.read(ino),
{
}

/// A read that follows a successful write returns the written payload,
/// byte for byte, whatever the bytes are and whatever was stored before.
pub proof fn read_returns_written_payload(s: FsState, ino: u64, data: Seq<u8>, ctx: Context)
    ensures
        s.write_reply(ino, data) is Ok ==> s.after_write(ino, data, ctx).read(ino) == Ok::<
            _,
            FsError,
        >(data),
        s.write_reply(ino, data) is Err ==> s.after_write(ino, data, ctx) == s,
{
}

/// Right after a successful write, the file is a regular file whose size is
/// the length of the payload, and the write reported that length.
pub proof fn size_follows_write(s: FsState, ino: u64, data: Seq<u8>, ctx: Context)
    requires
        data.len() <= usize::MAX,
    ensures
        s.write_reply(ino, data) is Ok ==> {
            &&& s.write_reply(ino, data) == Ok::<_, FsError>(data.len() as usize)
            &&& s.after_write(ino, data, ctx).getattr(ino) matches Ok(attr)
            &&& attr.size == data.len()
            &&& attr.kind == FileType::RegularFile
        },
{
}

/// Two creations in a row, even with the same parent, name and context,
/// yield two different inodes, both unused before, and leave both entries
/// in the table.
pub proof fn create_twice_yields_distinct_inodes(
    s: FsState,
    parent: u64,
    name: Seq<char>,
    first_ctx: Context,
    second_ctx: Context,
)
    requires
        s.wf(),
    ensures
        ({
            let once = s.after_create(parent, name, first_ctx);
            let twice = once.after_create(parent, name, second_ctx);
            s.create_reply(first_ctx) matches Ok(first) ==> (once.create_reply(
                second_ctx,
            ) matches Ok(second) ==> {
                &&& first.ino != second.ino
                &&& !s.nodes.contains_key(first.ino)
                &&& !s.nodes.contains_key(second.ino)
                &&& is_entry(twice.nodes, first.ino, parent, name)
                &&& is_entry(twice.nodes, second.ino, parent, name)
            })
        }),
{
}

/// A name that no entry of the directory carries resolves, right after an
/// entry of that name is created there, to the new entry.
pub proof fn lookup_resolves_created_entry(
    s: FsState,
    parent: u64,
    name: Seq<char>,
    ctx: Context,
)
    requires
        s.wf(),
        s.lookup(parent, name) is Err,
    ensures
        s.create_reply(ctx) is Ok ==> s.after_create(parent, name, ctx).lookup(parent, name)
            == s.create_reply(ctx),
{
    if s.can_allocate() {
        let after = s.after_create(parent, name, ctx);
        let ino = s.next_inode();
        assert forall|j: u64| #[trigger] is_entry(after.nodes, j, parent, name) implies ino
            <= j by {
            if j != ino {
                assert(is_entry(s.nodes, j, parent, name));
            }
        }
        after.lookup_is_first_entry(parent, name, ino);
    }
}

/// A name that already resolves keeps resolving to the same entry when
/// further entries are created, whatever they are called: the entry with
/// the smallest inode wins, and new inodes are larger. A name that does not
/// resolve stays so when an entry of another name or parent is created.
pub proof fn lookup_keeps_first_entry(
    s: FsState,
    parent: u64,
    name: Seq<char>,
    new_parent: u64,
    new_name: Seq<char>,
    ctx: Context,
)
    requires
        s.wf(),
        s.lookup(parent, name) is Ok || new_parent != parent || new_name != name,
    ensures
        s.after_create(new_parent, new_name, ctx).lookup(parent, name) == s.lookup(parent, name),
{
    if s.can_allocate() {
        let after = s.after_create(new_parent, new_name, ctx);
        let ino = s.next_inode();
        if s.lookup(parent, name) is Ok {
            s.lookup_resolves_to_first_entry(parent, name);
            let before = s.first_entry(parent, name);
            assert forall|j: u64| #[trigger]
                is_entry(after.nodes, j, parent, name) implies before <= j by {
                if j != ino {
                    assert(is_entry(s.nodes, j, parent, name));
                }
            }
            after.lookup_is_first_entry(parent, name, before);
        } else {
            assert forall|j: u64| !is_entry(after.nodes, j, parent, name) by {
                if j != ino {
                    assert(!is_entry(s.nodes, j, parent, name));
                }
            }
        }
    }
}

/// A write renames and moves nothing: every name resolves to the same inode
/// after it as before.
pub proof fn write_keeps_names(
    s: FsState,
    ino: u64,
    data: Seq<u8>,
    ctx: Context,
    parent: u64,
    name: Seq<char>,
)
    ensures
        forall|k: u64|
            is_entry(s.after_write(ino, data, ctx).nodes, k, parent, name) == is_entry(
                s.nodes,
                k,
                parent,
                name,
            ),
        s.after_write(ino, data, ctx).lookup(parent, name) is Ok == s.lookup(parent, name) is Ok,
        s.lookup(parent, name) is Ok ==> s.after_write(ino, data, ctx).first_entry(parent, name)
            == s.first_entry(parent, name),
{
    let after = s.after_write(ino, data, ctx);
    assert forall|k: u64|
        is_entry(after.nodes, k, parent, name) == is_entry(s.nodes, k, parent, name) by {}
    if s.lookup(parent, name) is Ok {
        s.lookup_resolves_to_first_entry(parent, name);
        let first = s.first_entry(parent, name);
        after.lookup_is_first_entry(parent, name, first);
    }
}

/// A listing from a positive offset is empty. Any other listing starts with
/// `.` and `..`, goes on with entries that each stand for a node of the
/// directory, and holds one entry for each such node and no more.
pub proof fn listing_shape(s: FsState, dir: u64, offset: i64, entries: Seq<DirEntryView>)
    requires
        s.lists_directory(dir, offset, entries),
    ensures
        offset > 0 ==> entries.len() == 0,
        offset <= 0 ==> {
            &&& entries.len() == children_of(s.nodes, dir).len() + 2
            &&& entries[0].name == seq!['.']
            &&& entries[1].name == seq!['.', '.']
            &&& forall|i: int|
                2 <= i < entries.len() ==> s.nodes.contains_key((#[trigger] entries[i]).ino)
                    && s.nodes[entries[i].ino].parent_inode == dir && entries[i].name
                    == s.nodes[entries[i].ino].name && entries[i].offset == i
        },
{
    if offset <= 0 {
        let inodes = Seq::new((entries.len() - 2) as nat, |i: int| entries[i + 2].ino);
        let children = children_of(s.nodes, dir);
        assert(inodes.to_set() =~= children) by {
            assert forall|k: u64| children.contains(k) implies inodes.to_set().contains(k) by {
                let i = choose|i: int| 2 <= i < entries.len() && (#[trigger] entries[i]).ino == k;
                assert(inodes[i - 2] == k);
            }
        }
        inodes.unique_seq_to_set();
    }
}

/// A request that changes the state of the engine.
pub enum Change {
    /// Creation of an entry called `name` in `parent`.
    Create { parent: u64, name: Seq<char>, ctx: Context },
    /// Write of `data` to the file `ino`.
    Write { ino: u64, data: Seq<u8>, ctx: Context },
}

impl Change {
    /// The payload, if any, has a length that a machine can hold.
    pub open spec fn fits(self) -> bool {
        self matches Change::Write { data, .. } ==> data.len() <= usize::MAX
    }

    /// The change is a write to the file `ino`.
    pub open spec fn writes_to(self, ino: u64) -> bool {
        self matches Change::Write { ino: target, .. } && target == ino
    }
}

/// State after one change.
pub open spec fn after(s: FsState, change: Change) -> FsState {
    match change {
        Change::Create { parent, name, ctx } => s.after_create(parent, name, ctx),
        Change::Write { ino, data, ctx } => s.after_write(ino, data, ctx),
    }
}

/// State after a sequence of changes, applied in order.
pub open spec fn after_all(s: FsState, changes: Seq<Change>) -> FsState
    decreases changes.len(),
{
    if changes.len() == 0 {
        s
    } else {
        after(after_all(s, changes.drop_last()), changes.last())
    }
}

/// Whatever is changed and in whatever order, the invariant holds, no node
/// leaves the table, and the last inode handed out never goes down.
pub proof fn changes_preserve_wf(s: FsState, changes: Seq<Change>)
    requires
        s.wf(),
        forall|i: int| 0 <= i < changes.len() ==> (#[trigger] changes[i]).fits(),
    ensures
        after_all(s, changes).wf(),
        s.last_inode <= after_all(s, changes).last_inode,
        forall|k: u64| s.nodes.contains_key(k) ==> #[trigger] after_all(
            s,
            changes,
        ).nodes.contains_key(k),
    decreases changes.len(),
{
    if changes.len() > 0 {
        let before = after_all(s, changes.drop_last());
        changes_preserve_wf(s, changes.drop_last());
        match changes.last() {
            Change::Create { parent, name, ctx } => {
                before.create_preserves_wf(parent, name, ctx);
            },
            Change::Write { ino, data, ctx } => {
                before.write_preserves_wf(ino, data, ctx);
            },
        }
    }
}

/// An entry that was created answers every later query for its attributes
/// with the record its creation returned, a regular file of size zero, for
/// as long as nothing is written to it.
pub proof fn created_entry_stays_empty_until_written(
    s: FsState,
    parent: u64,
    name: Seq<char>,
    ctx: Context,
    later: Seq<Change>,
)
    requires
        s.wf(),
        s.create_reply(ctx) is Ok,
        forall|i: int| 0 <= i < later.len() ==> (#[trigger] later[i]).fits(),
        forall|i: int|
            0 <= i < later.len() ==> !(#[trigger] later[i]).writes_to(s.next_inode()),
    ensures
        after_all(s.after_create(parent, name, ctx), later).getattr(s.next_inode())
            == s.create_reply(ctx),
        s.create_reply(ctx) matches Ok(attr) && attr.ino == s.next_inode() && attr.kind
            == FileType::RegularFile && attr.size == 0,
    decreases later.len(),
{
    let created = s.after_create(parent, name, ctx);
    s.create_preserves_wf(parent, name, ctx);
    if later.len() > 0 {
        let earlier = later.drop_last();
        created_entry_stays_empty_until_written(s, parent, name, ctx, earlier);
        changes_preserve_wf(created, earlier);
        let before = after_all(created, earlier);
        match later.last() {
            Change::Create { parent: p, name: n, ctx: c } => {
                create_keeps_existing_nodes(before, s.next_inode(), p, n, c);
            },
            Change::Write { ino, data, ctx: c } => {
                write_keeps_other_files(before, s.next_inode(), ino, data, c);
            },
        }
    }
}

/// A file that was written answers every later read with the written
/// payload, and every later query for its attributes with a regular file of
/// the payload's length, for as long as nothing else is written to it.
pub proof fn written_file_stays_until_rewritten(
    s: FsState,
    ino: u64,
    data: Seq<u8>,
    ctx: Context,
    later: Seq<Change>,
)
    requires
        s.wf(),
        s.write_reply(ino, data) is Ok,
        data.len() <= usize::MAX,
        forall|i: int| 0 <= i < later.len() ==> (#[trigger] later[i]).fits(),
        forall|i: int| 0 <= i < later.len() ==> !(#[trigger] later[i]).writes_to(ino),
    ensures
        after_all(s.after_write(ino, data, ctx), later).read(ino) == Ok::<
            _,
            FsError,
        >(data),
        after_all(s.after_write(ino, data, ctx), later).getattr(ino) matches Ok(attr) && attr.size
            == data.len() && attr.kind == FileType::RegularFile,
    decreases later.len(),
{
    let written = s.after_write(ino, data, ctx);
    s.write_preserves_wf(ino, data, ctx);
    if later.len() > 0 {
        let earlier = later.drop_last();
        written_file_stays_until_rewritten(s, ino, data, ctx, earlier);
        changes_preserve_wf(written, earlier);
        let before = after_all(written, earlier);
        match later.last() {
            Change::Create { parent: p, name: n, ctx: c } => {
                create_keeps_existing_nodes(before, ino, p, n, c);
            },
            Change::Write { ino: other, data: d, ctx: c } => {
                write_keeps_other_files(before, ino, other, d, c);
            },
        }
    }
}

/// An engine that is restarted after one whose last inode was `floor` hands
/// out only inodes above `floor`, whatever it is asked to do: no inode of
/// the earlier engine comes back.
pub proof fn restart_never_reuses(ctx: Context, floor: u64, changes: Seq<Change>, new_ctx: Context)
    requires
        forall|i: int| 0 <= i < changes.len() ==> (#[trigger] changes[i]).fits(),
    ensures
        after_all(FsState::resumed(ctx, floor), changes).create_reply(new_ctx) matches Ok(attr)
            ==> attr.ino > floor,
{
    FsState::resumed_is_wf(ctx, floor);
    changes_preserve_wf(FsState::resumed(ctx, floor), changes);
}

/// Reply to the creation at position `at` of a sequence of changes.
pub open spec fn reply_of_create(s: FsState, changes: Seq<Change>, at: int) -> Result<
    FileAttr,
    FsError,
> {
    after_all(s, changes.take(at)).create_reply(changes[at]->Create_ctx)
}

/// No inode is handed out twice: two creations that succeed at different
/// positions of any sequence of changes return different inodes.
pub proof fn inodes_are_never_reused(s: FsState, changes: Seq<Change>, first: int, second: int)
    requires
        s.wf(),
        forall|i: int| 0 <= i < changes.len() ==> (#[trigger] changes[i]).fits(),
        0 <= first < second < changes.len(),
        changes[first] is Create,
        changes[second] is Create,
    ensures
        reply_of_create(s, changes, first) matches Ok(a) ==> (reply_of_create(
            s,
            changes,
            second,
        ) matches Ok(b) ==> a.ino < b.ino),
{
    let upto_first = changes.take(first);
    let through_first = changes.take(first + 1);
    let upto_second = changes.take(second);
    assert(through_first.drop_last() =~= upto_first);
    changes_preserve_wf(s, through_first);
    let rest = changes.subrange(first + 1, second);
    after_all_concat(s, through_first, rest);
    assert(through_first + rest =~= upto_second);
    changes_preserve_wf(after_all(s, through_first), rest);
}

/// Applying two sequences of changes one after the other is applying their
/// concatenation.
pub proof fn after_all_concat(s: FsState, head: Seq<Change>, tail: Seq<Change>)
    ensures
        after_all(s, head + tail) == after_all(after_all(s, head), tail),
    decreases tail.len(),
{
    if tail.len() > 0 {
        after_all_concat(s, head, tail.drop_last());
        assert((head + tail).drop_last() =~= head + tail.drop_last());
    }
}

} // verus!
