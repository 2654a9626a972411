//! File system calls of a task: its table of open files over one file system
//! whose root directory holds every name.
use vstd::prelude::*;
use crate::efs::{lemma_kinds_kept, lemma_kinds_kept_two, EasyFileSystem};
use crate::layout::{
    blocks_needed_spec, is_first_match, written, DiskInodeType, DIRENT_SZ, MAX_FILE_SIZE,
};
use crate::vfs::{lookup, name_fits, Inode};

verus! {

/// Open for reading only.
pub const RDONLY: u32 = 0;
/// Open for writing only.
pub const WRONLY: u32 = 1;
/// Open for reading and writing.
pub const RDWR: u32 = 2;
/// Create the file, or empty it when it exists.
pub const CREATE: u32 = 512;
/// Empty the file when it exists.
pub const TRUNC: u32 = 1024;

/// `bits` holds no flag but those above.
pub open spec fn flags_valid(bits: u32) -> bool {
    bits & !(WRONLY | RDWR | CREATE | TRUNC) == 0
}

/// Whether a file opened with `bits` can be read and written.
pub open spec fn access_of(bits: u32) -> (bool, bool) {
    if bits == 0 {
        (true, false)
    } else if bits & WRONLY != 0 {
        (false, true)
    } else {
        (true, true)
    }
}

/// Flags of an `open` call.
#[derive(Clone, Copy)]
pub struct OpenFlags {
    pub bits: u32,
}

impl OpenFlags {
    /// The flags `bits`, when it holds no unknown flag.
    pub fn from_bits(bits: u32) -> (r: Option<OpenFlags>)
        ensures
            r is Some <==> flags_valid(bits),
            r is Some ==> r->0.bits == bits,
    {
        if bits & !(WRONLY | RDWR | CREATE | TRUNC) == 0 {
            Some(OpenFlags { bits })
        } else {
            None
        }
    }

    /// Whether the file can be read and written.
    pub fn read_write(&self) -> (r: (bool, bool))
        ensures
            r == access_of(self.bits),
    {
        if self.bits == 0 {
            (true, false)
        } else if self.bits & WRONLY != 0 {
            (false, true)
        } else {
            (true, true)
        }
    }

    /// The flags ask for creation.
    pub fn creates(&self) -> (r: bool)
        ensures
            r == (self.bits & CREATE != 0),
    {
        self.bits & CREATE != 0
    }

    /// The flags ask for truncation.
    pub fn truncates(&self) -> (r: bool)
        ensures
            r == (self.bits & TRUNC != 0),
    {
        self.bits & TRUNC != 0
    }
}

/// An open file: its access rights, its current offset, and its inode.
#[derive(Clone, Copy)]
pub struct OSInode {
    pub readable: bool,
    pub writable: bool,
    pub offset: usize,
    pub inode: Inode,
}

impl OSInode {
    /// The inode is an existing file of `fs`.
    pub open spec fn wf_in(&self, fs: &EasyFileSystem) -> bool {
        &&& self.inode.wf_in(fs)
        &&& self.inode.disk(fs).type_ == DiskInodeType::File
    }

    /// An open file at offset 0.
    pub fn new(readable: bool, writable: bool, inode: Inode) -> (r: OSInode)
        ensures
            r == (OSInode { readable, writable, offset: 0, inode }),
    {
        OSInode { readable, writable, offset: 0, inode }
    }

    /// Reads from the current offset into `buf` and moves the offset past
    /// the bytes read; returns how many.
    pub fn read(&mut self, fs: &EasyFileSystem, buf: &mut Vec<u8>) -> (r: usize)
        requires
            fs.wf(),
            old(self).wf_in(fs),
        ensures
            r <= MAX_FILE_SIZE,
            final(buf)@.subrange(0, r as int) == crate::layout::read_range(
                old(self).inode.disk(fs).data@,
                old(self).offset as nat,
                old(buf)@.len(),
            ),
            r == crate::layout::read_range(
                old(self).inode.disk(fs).data@,
                old(self).offset as nat,
                old(buf)@.len(),
            ).len(),
            final(buf)@.len() == old(buf)@.len(),
            *final(self) == (OSInode { offset: (old(self).offset + r) as usize, ..*old(self) }),
    {
        proof {
            assert(fs.inodes@[self.inode.id(fs)].wf());
        }
        let n = self.inode.read_at(fs, self.offset, buf);
        self.offset = self.offset + n;
        n
    }

    /// Writes `buf` at the current offset and moves the offset past it;
    /// returns the number of bytes written.
    pub fn write(&mut self, fs: &mut EasyFileSystem, buf: &[u8]) -> (r: usize)
        requires
            old(fs).wf(),
            old(self).wf_in(old(fs)),
            old(self).offset + buf@.len() <= MAX_FILE_SIZE,
            old(fs).free_blocks@.len() >= blocks_needed_spec(
                old(self).inode.disk(old(fs)).size as nat,
                (old(self).offset + buf@.len()) as nat,
            ),
        ensures
            r == buf@.len(),
            final(fs).wf(),
            old(fs).kinds_kept(final(fs)),
            old(fs).same_except(final(fs), old(self).inode.id(old(fs))),
            final(self).wf_in(final(fs)),
            old(self).inode.disk(final(fs)).data@ == written(
                old(self).inode.disk(old(fs)).data@,
                old(self).offset as nat,
                buf@,
            ),
            old(self).inode.disk(final(fs)).nlinks == old(self).inode.disk(old(fs)).nlinks,
            *final(self) == (OSInode { offset: (old(self).offset + r) as usize, ..*old(self) }),
    {
        let n = self.inode.write_at(fs, self.offset, buf);
        proof {
            lemma_kinds_kept(old(fs), fs, old(self).inode.id(old(fs)));
        }
        self.offset = self.offset + n;
        n
    }
}

/// The table of open files of a task, indexed by descriptor.
pub struct TaskFiles {
    pub fd_table: Vec<Option<OSInode>>,
}

/// Descriptor `fd` is open.
pub open spec fn fd_open(t: Seq<Option<OSInode>>, fd: int) -> bool {
    0 <= fd < t.len() && t[fd] is Some
}

/// `fd` is the first closed descriptor of `t`, or its length when all are
/// open.
pub open spec fn is_first_free_fd(t: Seq<Option<OSInode>>, fd: int) -> bool {
    &&& 0 <= fd <= t.len()
    &&& fd < t.len() ==> t[fd] is None
    &&& forall|j: int| 0 <= j < fd ==> t[j] is Some
}

impl TaskFiles {
    /// Every open file is an existing file of `fs`.
    pub open spec fn wf_in(&self, fs: &EasyFileSystem) -> bool {
        forall|fd: int| fd_open(self.fd_table@, fd) ==> (#[trigger] self.fd_table@[fd])->0.wf_in(fs)
    }

    /// A task with no open file.
    pub fn new() -> (r: TaskFiles)
        ensures
            r.fd_table@.len() == 0,
    {
        TaskFiles { fd_table: Vec::new() }
    }

    /// The first closed descriptor, the table growing by one when all are
    /// open.
    pub fn alloc_fd(&mut self) -> (r: usize)
        requires
            old(self).fd_table@.len() < usize::MAX,
        ensures
            is_first_free_fd(old(self).fd_table@, r as int),
            r < final(self).fd_table@.len(),
            final(self).fd_table@[r as int] is None,
            final(self).fd_table@ == (if r < old(self).fd_table@.len() {
                old(self).fd_table@
            } else {
                old(self).fd_table@.push(None)
            }),
    {
        let mut i: usize = 0;
        while i < self.fd_table.len()
            invariant
                i <= self.fd_table@.len(),
                self.fd_table@ == old(self).fd_table@,
                forall|j: int| 0 <= j < i ==> self.fd_table@[j] is Some,
            decreases self.fd_table@.len() - i,
        {
            if self.fd_table[i].is_none() {
                return i;
            }
            i = i + 1;
        }
        self.fd_table.push(None);
        i
    }
}

/// A file system whose kinds are kept keeps every open file valid.
pub proof fn lemma_files_kept(task: &TaskFiles, a: &EasyFileSystem, b: &EasyFileSystem)
    requires
        a.wf(),
        task.wf_in(a),
        a.kinds_kept(b),
    ensures
        task.wf_in(b),
{
    assert forall|fd: int| fd_open(task.fd_table@, fd) implies (#[trigger] task.fd_table@[fd])->0.wf_in(b) by {
        let f = task.fd_table@[fd]->0;
        assert(f.wf_in(a));
        assert(b.inodes@[f.inode.id(a)].type_ == a.inodes@[f.inode.id(a)].type_);
    }
}

/// Descriptor `fd` is an open file with write access.
pub open spec fn fd_writable(t: Seq<Option<OSInode>>, fd: int) -> bool {
    fd_open(t, fd) && t[fd]->0.writable
}

/// Descriptor `fd` is an open file with read access.
pub open spec fn fd_readable(t: Seq<Option<OSInode>>, fd: int) -> bool {
    fd_open(t, fd) && t[fd]->0.readable
}

/// A write of `len` bytes through `fd` stays addressable and finds the
/// blocks it needs in the free pool.
pub open spec fn write_fits(fs: &EasyFileSystem, task: &TaskFiles, fd: int, len: nat) -> bool {
    fd_writable(task.fd_table@, fd) ==> {
        let f = task.fd_table@[fd]->0;
        &&& f.offset + len <= MAX_FILE_SIZE
        &&& fs.free_blocks@.len() >= blocks_needed_spec(
            f.inode.disk(fs).size as nat,
            (f.offset + len) as nat,
        )
    }
}

/// The root directory can take one more record.
pub open spec fn root_can_grow(fs: &EasyFileSystem) -> bool {
    let d = fs.inodes@[0];
    &&& d.size + DIRENT_SZ <= MAX_FILE_SIZE
    &&& fs.free_blocks@.len() >= blocks_needed_spec(d.size as nat, (d.size + DIRENT_SZ) as nat)
}

/// Inode that `name` names in the root directory, if any.
pub open spec fn root_lookup(fs: &EasyFileSystem, name: Seq<char>) -> Option<u32> {
    lookup(fs.inodes@[0].entries@, name)
}

/// Writes `buf` through descriptor `fd` at its offset; returns the number of
/// bytes written, or -1 when `fd` is not open for writing.
pub fn sys_write(fs: &mut EasyFileSystem, task: &mut TaskFiles, fd: usize, buf: &[u8]) -> (r: isize)
    requires
        old(fs).wf(),
        old(task).wf_in(old(fs)),
        write_fits(old(fs), old(task), fd as int, buf@.len()),
    ensures
        final(fs).wf(),
        final(task).wf_in(final(fs)),
        !fd_writable(old(task).fd_table@, fd as int) ==> r == -1 && *final(fs) == *old(fs)
            && final(task).fd_table@ == old(task).fd_table@,
        fd_writable(old(task).fd_table@, fd as int) ==> {
            let f = old(task).fd_table@[fd as int]->0;
            &&& r == buf@.len()
            &&& old(fs).same_except(final(fs), f.inode.id(old(fs)))
            &&& f.inode.disk(final(fs)).data@ == written(
                f.inode.disk(old(fs)).data@,
                f.offset as nat,
                buf@,
            )
            &&& final(task).fd_table@ == old(task).fd_table@.update(
                fd as int,
                Some(OSInode { offset: (f.offset + buf@.len()) as usize, ..f }),
            )
        },
{
    if fd >= task.fd_table.len() {
        return -1;
    }
    match task.fd_table[fd] {
        Some(file) => {
            if !file.writable {
                return -1;
            }
            let mut file = file;
            assert(task.fd_table@[fd as int]->0.wf_in(fs));
            let n = file.write(fs, buf);
            proof {
                lemma_files_kept(task, old(fs), fs);
            }
            task.fd_table.set(fd, Some(file));
            n as isize
        },
        None => -1,
    }
}

/// Reads through descriptor `fd` from its offset into `buf`; returns the
/// number of bytes read, or -1 when `fd` is not open for reading.
pub fn sys_read(fs: &EasyFileSystem, task: &mut TaskFiles, fd: usize, buf: &mut Vec<u8>) -> (r: isize)
    requires
        fs.wf(),
        old(task).wf_in(fs),
    ensures
        final(task).wf_in(fs),
        !fd_readable(old(task).fd_table@, fd as int) ==> r == -1 && final(buf)@ == old(buf)@
            && final(task).fd_table@ == old(task).fd_table@,
        fd_readable(old(task).fd_table@, fd as int) ==> {
            let f = old(task).fd_table@[fd as int]->0;
            let got = crate::layout::read_range(
                f.inode.disk(fs).data@,
                f.offset as nat,
                old(buf)@.len(),
            );
            &&& r == got.len()
            &&& final(buf)@.len() == old(buf)@.len()
            &&& final(buf)@.subrange(0, r as int) == got
            &&& final(task).fd_table@ == old(task).fd_table@.update(
                fd as int,
                Some(OSInode { offset: (f.offset + got.len()) as usize, ..f }),
            )
        },
{
    if fd >= task.fd_table.len() {
        return -1;
    }
    match task.fd_table[fd] {
        Some(file) => {
            if !file.readable {
                return -1;
            }
            let mut file = file;
            assert(task.fd_table@[fd as int]->0.wf_in(fs));
            let n = file.read(fs, buf);
            task.fd_table.set(fd, Some(file));
            n as isize
        },
        None => -1,
    }
}

/// Closes descriptor `fd`; returns 0, or -1 when it is not open.
pub fn sys_close(task: &mut TaskFiles, fd: usize) -> (r: isize)
    ensures
        !fd_open(old(task).fd_table@, fd as int) ==> r == -1 && final(task).fd_table@ == old(task).fd_table@,
        fd_open(old(task).fd_table@, fd as int) ==> r == 0 && final(task).fd_table@ == old(task).fd_table@.update(fd as int, None),
        forall|fs: &EasyFileSystem| old(task).wf_in(fs) ==> final(task).wf_in(fs),
{
    if fd >= task.fd_table.len() {
        return -1;
    }
    if task.fd_table[fd].is_none() {
        return -1;
    }
    task.fd_table.set(fd, None);
    0
}

/// Whether the flags `bits` empty the file that an `open` finds.
pub open spec fn empties(bits: u32) -> bool {
    bits & CREATE != 0 || bits & TRUNC != 0
}

/// An `open` of `name` with `bits` creates a file.
pub open spec fn open_creates(fs: &EasyFileSystem, name: Seq<char>, bits: u32) -> bool {
    bits & CREATE != 0 && root_lookup(fs, name) is None
}

/// Opens `name` in the root directory of `fs`: with creation, an existing
/// file is emptied and a missing one created; without, a missing name gives
/// `None` and truncation empties the file found.
pub fn open_file(fs: &mut EasyFileSystem, name: &str, flags: OpenFlags) -> (r: Option<OSInode>)
    requires
        old(fs).wf(),
        open_creates(old(fs), name@, flags.bits) ==> {
            &&& name_fits(name)
            &&& old(fs).inodes@.len() < old(fs).inode_capacity
            &&& root_can_grow(old(fs))
        },
    ensures
        final(fs).wf(),
        old(fs).kinds_kept(final(fs)),
        root_lookup(old(fs), name@) is None && flags.bits & CREATE == 0 ==> r is None && *final(fs) == *old(fs),
        root_lookup(old(fs), name@) is Some || flags.bits & CREATE != 0 ==> {
            let f = r->0;
            &&& r is Some
            &&& f.wf_in(final(fs))
            &&& (f.readable, f.writable) == access_of(flags.bits)
            &&& f.offset == 0
            &&& f.inode.id(final(fs)) == (if root_lookup(old(fs), name@) is Some {
                root_lookup(old(fs), name@)->0 as int
            } else {
                old(fs).inodes@.len() as int
            })
            &&& empties(flags.bits) || root_lookup(old(fs), name@) is None ==> f.inode.disk(
                final(fs),
            ).size == 0
            &&& !empties(flags.bits) && root_lookup(old(fs), name@) is Some ==> *final(fs) == *old(fs)
        },
{
    let root = fs.root_inode();
    let (readable, writable) = flags.read_write();
    let found = root.find(fs, name);
    proof {
        if let Some(h) = found {
            let es = fs.inodes@[0].entries@;
            let k = crate::vfs::lemma_lookup_found(es, name@);
            assert(crate::layout::entry_names(es)[k] == name@);
            assert(fs.links_to_file(es[k].inode_id));
        }
        lemma_kinds_kept(fs, fs, 0);
    }
    if flags.creates() {
        match found {
            Some(inode) => {
                inode.clear(fs);
                proof {
                    lemma_kinds_kept(old(fs), fs, inode.id(old(fs)));
                }
                Some(OSInode::new(readable, writable, inode))
            },
            None => {
                match root.create(fs, name) {
                    Some(inode) => {
                        proof {
                            lemma_kinds_kept(old(fs), fs, 0);
                        }
                        Some(OSInode::new(readable, writable, inode))
                    },
                    None => None,
                }
            },
        }
    } else {
        match found {
            Some(inode) => {
                if flags.truncates() {
                    inode.clear(fs);
                    proof {
                        lemma_kinds_kept(old(fs), fs, inode.id(old(fs)));
                    }
                }
                Some(OSInode::new(readable, writable, inode))
            },
            None => None,
        }
    }
}

/// Opens `path` with the flags `flags` and gives it the first closed
/// descriptor; returns the descriptor, or -1 when the file is missing and
/// creation was not asked for.
pub fn sys_open(fs: &mut EasyFileSystem, task: &mut TaskFiles, path: &str, flags: u32) -> (r: isize)
    requires
        old(fs).wf(),
        old(task).wf_in(old(fs)),
        flags_valid(flags),
        old(task).fd_table@.len() < isize::MAX,
        open_creates(old(fs), path@, flags) ==> {
            &&& name_fits(path)
            &&& old(fs).inodes@.len() < old(fs).inode_capacity
            &&& root_can_grow(old(fs))
        },
    ensures
        final(fs).wf(),
        final(task).wf_in(final(fs)),
        root_lookup(old(fs), path@) is None && flags & CREATE == 0 ==> r == -1 && *final(fs)
            == *old(fs) && final(task).fd_table@ == old(task).fd_table@,
        root_lookup(old(fs), path@) is Some || flags & CREATE != 0 ==> {
            let t = old(task).fd_table@;
            let f = final(task).fd_table@[r as int]->0;
            &&& is_first_free_fd(t, r as int)
            &&& final(task).fd_table@ == (if r < t.len() {
                t
            } else {
                t.push(None)
            }).update(r as int, Some(f))
            &&& (f.readable, f.writable) == access_of(flags)
            &&& f.offset == 0
            &&& f.inode.id(final(fs)) == (if root_lookup(old(fs), path@) is Some {
                root_lookup(old(fs), path@)->0 as int
            } else {
                old(fs).inodes@.len() as int
            })
            &&& empties(flags) || root_lookup(old(fs), path@) is None ==> f.inode.disk(
                final(fs),
            ).size == 0
        },
{
    let open_flags = OpenFlags::from_bits(flags).unwrap();
    if let Some(inode) = open_file(fs, path, open_flags) {
        proof {
            lemma_files_kept(task, old(fs), fs);
        }
        let fd = task.alloc_fd();
        task.fd_table.set(fd, Some(inode));
        fd as isize
    } else {
        -1
    }
}

/// Adds the name `new_name` to the root directory for the inode that
/// `old_name` names; returns 0, or -1 without any change when the names are
/// equal.
pub fn sys_linkat(fs: &mut EasyFileSystem, old_name: &str, new_name: &str) -> (r: isize)
    requires
        old(fs).wf(),
        old_name@ != new_name@ ==> {
            &&& name_fits(new_name)
            &&& root_lookup(old(fs), old_name@) is Some
            &&& root_can_grow(old(fs))
            &&& old(fs).inodes@[root_lookup(old(fs), old_name@)->0 as int].nlinks < u32::MAX
        },
    ensures
        final(fs).wf(),
        old(fs).kinds_kept(final(fs)),
        old_name@ == new_name@ ==> r == -1 && *final(fs) == *old(fs),
        old_name@ != new_name@ ==> {
            let t = root_lookup(old(fs), old_name@)->0 as int;
            &&& r == 0
            &&& final(fs).inodes@[0].names() == old(fs).inodes@[0].names().push(new_name@)
            &&& final(fs).inodes@[t].nlinks == old(fs).inodes@[t].nlinks + 1
        },
{
    let root = fs.root_inode();
    let r = root.linkat(fs, old_name, new_name);
    proof {
        if old_name@ != new_name@ {
            lemma_kinds_kept_two(old(fs), fs, 0, root_lookup(old(fs), old_name@)->0 as int);
        } else {
            lemma_kinds_kept(old(fs), fs, 0);
        }
    }
    r
}

/// Removes the first record named `name` from the root directory and drops
/// one link of its inode; returns 0, or -1 without any change when the name
/// is missing.
pub fn sys_unlinkat(fs: &mut EasyFileSystem, name: &str) -> (r: isize)
    requires
        old(fs).wf(),
        root_lookup(old(fs), name@) is Some ==> old(fs).inodes@[root_lookup(
            old(fs),
            name@,
        )->0 as int].nlinks > 0,
    ensures
        final(fs).wf(),
        old(fs).kinds_kept(final(fs)),
        root_lookup(old(fs), name@) is None ==> r == -1 && *final(fs) == *old(fs),
        root_lookup(old(fs), name@) is Some ==> {
            let t = root_lookup(old(fs), name@)->0 as int;
            &&& r == 0
            &&& exists|i: int|
                is_first_match(old(fs).inodes@[0].names(), name@, i)
                    && final(fs).inodes@[0].entries@ == old(fs).inodes@[0].entries@.remove(i)
            &&& final(fs).inodes@[t].nlinks == old(fs).inodes@[t].nlinks - 1
        },
{
    let root = fs.root_inode();
    let r = root.unlinkat(fs, name);
    proof {
        if root_lookup(old(fs), name@) is Some {
            lemma_kinds_kept_two(old(fs), fs, 0, root_lookup(old(fs), name@)->0 as int);
        } else {
            lemma_kinds_kept(old(fs), fs, 0);
        }
    }
    r
}

/// Kind of a file as a status query reports it.
#[derive(PartialEq, Eq, Structural, Clone, Copy, Debug)]
pub enum StatMode {
    Null,
    Dir,
    File,
}

/// Status of an open file.
#[derive(Clone, Copy, Debug)]
pub struct Stat {
    pub dev: u64,
    pub ino: u64,
    pub mode: StatMode,
    pub nlink: u32,
}

/// Fills `st` with the status of the file open on descriptor `fd`: its
/// inode id, its link count and its kind; returns 0.
pub fn sys_fstat(fs: &EasyFileSystem, task: &TaskFiles, fd: usize, st: &mut Stat) -> (r: isize)
    requires
        fs.wf(),
        task.wf_in(fs),
        fd_open(task.fd_table@, fd as int),
    ensures
        r == 0,
        ({
            let f = task.fd_table@[fd as int]->0;
            let d = fs.inodes@[f.inode.id(fs)];
            &&& final(st).dev == 0
            &&& final(st).ino == f.inode.id(fs)
            &&& final(st).nlink == d.nlinks
            &&& final(st).mode == (if d.type_ == DiskInodeType::File {
                StatMode::File
            } else {
                StatMode::Dir
            })
        }),
{
    let file = task.fd_table[fd].unwrap();
    assert(task.fd_table@[fd as int]->0.wf_in(fs));
    let root = fs.root_inode();
    let ino = file.inode.inode_id(fs);
    let (nlink, is_file) = root.state(fs, ino as u64);
    st.dev = 0;
    st.ino = ino as u64;
    st.nlink = nlink;
    st.mode = if is_file { StatMode::File } else { StatMode::Dir };
    0
}

} // verus!
