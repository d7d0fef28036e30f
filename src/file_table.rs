use crate::errno::{Errno, Error};
use vstd::prelude::*;

verus! {

/// A file descriptor.
pub type FileDesc = u32;

/// A handle of an open file object. The objects themselves (sealed files,
/// the standard streams) live with the host side of the library; the table
/// only records which handle each descriptor refers to.
#[derive(Clone, Copy, Debug, PartialEq, Eq, Structural)]
pub struct FileRef {
    pub id: u64,
}

/// One occupied descriptor slot.
#[derive(Clone, Copy, Debug, PartialEq, Eq, Structural)]
pub struct FileEntry {
    pub file: FileRef,
    pub close_on_spawn: bool,
}

/// A dense table from descriptors to open files.
pub struct FileTable {
    slots: Vec<Option<FileEntry>>,
}

/// What slot `fd` of the slot sequence `t` holds; beyond the end, nothing.
pub open spec fn slot(t: Seq<Option<FileEntry>>, fd: int) -> Option<FileEntry> {
    if 0 <= fd < t.len() {
        t[fd]
    } else {
        None
    }
}

/// The slots after forcing `e` into slot `fd`.
pub open spec fn spec_put_at(t: Seq<Option<FileEntry>>, fd: int, e: FileEntry) -> Seq<Option<FileEntry>> {
    if fd < t.len() {
        t.update(fd, Some(e))
    } else {
        t + Seq::new((fd - t.len()) as nat, |i: int| None::<FileEntry>) + seq![Some(e)]
    }
}

/// The slots after freeing slot `fd`.
pub open spec fn spec_del(t: Seq<Option<FileEntry>>, fd: int) -> Seq<Option<FileEntry>> {
    if 0 <= fd < t.len() {
        t.update(fd, None)
    } else {
        t
    }
}

/// The slots after the close-on-spawn sweep.
pub open spec fn spec_close_on_spawn(t: Seq<Option<FileEntry>>) -> Seq<Option<FileEntry>> {
    Seq::new(
        t.len(),
        |i: int|
            match t[i] {
                Some(e) => if e.close_on_spawn {
                    None
                } else {
                    Some(e)
                },
                None => None,
            },
    )
}

/// The lowest free descriptor of `t`.
pub open spec fn lowest_free(t: Seq<Option<FileEntry>>, fd: int) -> bool {
    &&& 0 <= fd <= t.len()
    &&& slot(t, fd) is None
    &&& forall|j: int| 0 <= j < fd ==> (#[trigger] t[j]) is Some
}

impl View for FileTable {
    type V = Seq<Option<FileEntry>>;

    closed spec fn view(&self) -> Seq<Option<FileEntry>> {
        self.slots@
    }
}

impl FileTable {
    /// An empty table.
    pub fn new() -> (r: FileTable)
        ensures
            r@ == Seq::<Option<FileEntry>>::empty(),
    {
        FileTable { slots: Vec::new() }
    }

    /// A copy of this table.
    pub fn duplicate(&self) -> (r: FileTable)
        ensures
            r@ == self@,
    {
        let mut slots: Vec<Option<FileEntry>> = Vec::new();
        let mut i: usize = 0;
        while i < self.slots.len()
            invariant
                i <= self.slots@.len(),
                slots@ == self.slots@.subrange(0, i as int),
            decreases self.slots@.len() - i,
        {
            slots.push(self.slots[i]);
            i = i + 1;
            assert(slots@ =~= self.slots@.subrange(0, i as int));
        }
        assert(slots@ =~= self.slots@);
        FileTable { slots }
    }

    /// Puts `file` into the lowest free descriptor and returns it.
    pub fn put(&mut self, file: FileRef, close_on_spawn: bool) -> (fd: FileDesc)
        requires
            old(self)@.len() < u32::MAX,
        ensures
            lowest_free(old(self)@, fd as int),
            final(self)@ == spec_put_at(old(self)@, fd as int, (FileEntry { file, close_on_spawn })),
    {
        let entry = FileEntry { file, close_on_spawn };
        let mut i: usize = 0;
        while i < self.slots.len()
            invariant
                i <= self.slots@.len(),
                self.slots@.len() < u32::MAX,
                self.slots@ == old(self)@,
                entry == (FileEntry { file, close_on_spawn }),
                forall|j: int| 0 <= j < i ==> (#[trigger] self.slots@[j]) is Some,
            decreases self.slots@.len() - i,
        {
            if self.slots[i].is_none() {
                self.slots.set(i, Some(entry));
                assert(self.slots@ =~= spec_put_at(old(self)@, i as int, entry));
                let r: u32 = i as u32;
                return r;
            }
            i = i + 1;
        }
        self.slots.push(Some(entry));
        proof {
            assert(self.slots@ =~= spec_put_at(old(self)@, i as int, entry));
        }
        i as u32
    }

    /// Forces `file` into descriptor `fd`, dropping any earlier occupant.
    pub fn put_at(&mut self, fd: FileDesc, file: FileRef, close_on_spawn: bool)
        ensures
            final(self)@ == spec_put_at(old(self)@, fd as int, (FileEntry { file, close_on_spawn })),
    {
        let entry = FileEntry { file, close_on_spawn };
        let fdu = fd as usize;
        if fdu < self.slots.len() {
            self.slots.set(fdu, Some(entry));
            return;
        }
        let ghost pad_start = self.slots@.len();
        while self.slots.len() < fdu
            invariant
                pad_start <= self.slots@.len() <= fdu,
                pad_start == old(self)@.len(),
                self.slots@ == old(self)@ + Seq::new(
                    (self.slots@.len() - pad_start) as nat,
                    |i: int| None::<FileEntry>,
                ),
            decreases fdu - self.slots@.len(),
        {
            self.slots.push(None);
            assert(self.slots@ =~= old(self)@ + Seq::new(
                (self.slots@.len() - pad_start) as nat,
                |i: int| None::<FileEntry>,
            ));
        }
        self.slots.push(Some(entry));
        assert(self.slots@ =~= spec_put_at(old(self)@, fd as int, entry));
    }

    /// The file at descriptor `fd`.
    pub fn get(&self, fd: FileDesc) -> (r: Result<FileRef, Error>)
        ensures
            match slot(self@, fd as int) {
                Some(e) => r == Ok::<FileRef, Error>(e.file),
                None => r is Err && r->Err_0.errno == Errno::EBADF,
            },
    {
        let fdu = fd as usize;
        if fdu < self.slots.len() {
            match self.slots[fdu] {
                Some(e) => return Ok(e.file),
                None => {},
            }
        }
        Err(Error::new(Errno::EBADF, "bad file descriptor"))
    }

    /// The entry at descriptor `fd`, with its close-on-spawn bit.
    pub fn get_entry(&self, fd: FileDesc) -> (r: Option<FileEntry>)
        ensures
            r == slot(self@, fd as int),
    {
        let fdu = fd as usize;
        if fdu < self.slots.len() {
            self.slots[fdu]
        } else {
            None
        }
    }

    /// Frees descriptor `fd` and returns the file it held.
    pub fn del(&mut self, fd: FileDesc) -> (r: Result<FileRef, Error>)
        ensures
            match slot(old(self)@, fd as int) {
                Some(e) => r == Ok::<FileRef, Error>(e.file),
                None => r is Err && r->Err_0.errno == Errno::EBADF,
            },
            final(self)@ == spec_del(old(self)@, fd as int),
    {
        let fdu = fd as usize;
        if fdu < self.slots.len() {
            match self.slots[fdu] {
                Some(e) => {
                    self.slots.set(fdu, None);
                    return Ok(e.file);
                },
                None => {},
            }
        }
        proof {
            if (fd as int) < old(self)@.len() {
                assert(old(self)@.update(fd as int, None) =~= old(self)@);
            }
        }
        Err(Error::new(Errno::EBADF, "bad file descriptor"))
    }

    /// Frees every descriptor whose close-on-spawn bit is set.
    pub fn close_on_spawn(&mut self)
        ensures
            final(self)@ == spec_close_on_spawn(old(self)@),
    {
        let mut i: usize = 0;
        while i < self.slots.len()
            invariant
                i <= self.slots@.len(),
                self.slots@.len() == old(self)@.len(),
                forall|j: int|
                    0 <= j < i ==> #[trigger] self.slots@[j] == spec_close_on_spawn(old(self)@)[j],
                forall|j: int| i <= j < self.slots@.len() ==> #[trigger] self.slots@[j] == old(self)@[j],
            decreases self.slots@.len() - i,
        {
            match self.slots[i] {
                Some(e) => {
                    if e.close_on_spawn {
                        self.slots.set(i, None);
                    }
                },
                None => {},
            }
            i = i + 1;
        }
        assert(self.slots@ =~= spec_close_on_spawn(old(self)@));
    }
}

/// A file put at `fd` is what `get(fd)` then finds; once that slot is
/// deleted, `get(fd)` finds nothing.
pub proof fn put_at_then_get(t: Seq<Option<FileEntry>>, fd: int, e: FileEntry)
    requires
        0 <= fd,
    ensures
        slot(spec_put_at(t, fd, e), fd) == Some(e),
        slot(spec_del(spec_put_at(t, fd, e), fd), fd) is None,
        forall|j: int| j != fd && 0 <= j ==> #[trigger] slot(spec_put_at(t, fd, e), j) == slot(t, j),
{
}

/// After the close-on-spawn sweep no slot is marked close-on-spawn.
pub proof fn close_on_spawn_leaves_none_marked(t: Seq<Option<FileEntry>>)
    ensures
        forall|fd: int|
            #[trigger] slot(spec_close_on_spawn(t), fd) is Some ==> !slot(
                spec_close_on_spawn(t),
                fd,
            )->Some_0.close_on_spawn,
        forall|fd: int|
            slot(t, fd) is Some && !slot(t, fd)->Some_0.close_on_spawn ==> #[trigger] slot(
                spec_close_on_spawn(t),
                fd,
            ) == slot(t, fd),
{
}

} // verus!
