//! Inode handles: name lookup, creation, listing, byte I/O and hard links on
//! top of the file system object.
use vstd::prelude::*;
use vstd::string::StringSliceAdditionalSpecFns;
use crate::efs::{lemma_replace_keeps_wf, EasyFileSystem};
use crate::layout::{
    blocks_needed_spec, entry_ids, entry_names, is_first_match, read_range, total_blocks_spec,
    written, DirEntry, DiskInode, DiskInodeType, DIRENT_SZ, DISK_INODE_SZ, INODES_PER_BLOCK,
    MAX_FILE_SIZE, NAME_LENGTH_LIMIT,
};

verus! {

broadcast use vstd::seq_lib::group_to_multiset_ensures, vstd::multiset::group_multiset_axioms,
    vstd::seq_lib::lemma_multiset_commutative;

/// Inode that the first record named `name` points at, if any.
pub open spec fn lookup(es: Seq<DirEntry>, name: Seq<char>) -> Option<u32> {
    if entry_names(es).contains(name) {
        let i = choose|i: int| is_first_match(entry_names(es), name, i);
        Some(es[i].inode_id)
    } else {
        None
    }
}

/// A name fits in a directory record.
pub open spec fn name_fits(name: &str) -> bool {
    name.spec_bytes().len() <= NAME_LENGTH_LIMIT + 1
}

/// There is one first position of a name.
pub proof fn lemma_first_match_unique(names: Seq<Seq<char>>, name: Seq<char>, i: int, j: int)
    requires
        is_first_match(names, name, i),
        is_first_match(names, name, j),
    ensures
        i == j,
{
}

/// A name held at `k` has a first position.
pub proof fn lemma_first_match_exists(names: Seq<Seq<char>>, name: Seq<char>, k: int)
    requires
        0 <= k < names.len(),
        names[k] == name,
    ensures
        exists|i: int| is_first_match(names, name, i),
    decreases k,
{
    if forall|j: int| 0 <= j < k ==> names[j] != name {
        assert(is_first_match(names, name, k));
    } else {
        let j = choose|j: int| 0 <= j < k && names[j] == name;
        lemma_first_match_exists(names, name, j);
    }
}

/// A name that a directory holds is found at its first position.
pub proof fn lemma_lookup_found(es: Seq<DirEntry>, name: Seq<char>) -> (i: int)
    requires
        entry_names(es).contains(name),
    ensures
        is_first_match(entry_names(es), name, i),
        lookup(es, name) == Some(es[i].inode_id),
{
    let k = choose|k: int| 0 <= k < entry_names(es).len() && entry_names(es)[k] == name;
    lemma_first_match_exists(entry_names(es), name, k);
    choose|i: int| is_first_match(entry_names(es), name, i)
}

/// The lookup of a name at its first position `i` gives the record at `i`.
pub proof fn lemma_lookup_at(es: Seq<DirEntry>, name: Seq<char>, i: int)
    requires
        is_first_match(entry_names(es), name, i),
    ensures
        lookup(es, name) == Some(es[i].inode_id),
{
    assert(entry_names(es)[i] == name);
    assert(entry_names(es).contains(name));
    let k = choose|k: int| is_first_match(entry_names(es), name, k);
    lemma_first_match_unique(entry_names(es), name, i, k);
}

impl EasyFileSystem {
    /// Handle on the root directory, inode 0.
    pub fn root_inode(&self) -> (r: Inode)
        requires
            self.wf(),
            self.inodes@.len() >= 1,
        ensures
            r.wf_in(self),
            r.id(self) == 0,
    {
        Inode::of_id(self, 0)
    }
}

/// Handle on one inode record, located by block and byte offset; it holds
/// none of the record's content.
#[derive(Clone, Copy)]
pub struct Inode {
    pub block_id: usize,
    pub block_offset: usize,
}

impl Inode {
    /// Id of the inode that the handle locates in `fs`.
    pub open spec fn id(&self, fs: &EasyFileSystem) -> int {
        (self.block_id - fs.inode_area_start_block) * 4 + self.block_offset / 128
    }

    /// The handle locates an existing record of `fs`.
    pub open spec fn wf_in(&self, fs: &EasyFileSystem) -> bool {
        &&& fs.inode_area_start_block <= self.block_id
        &&& self.block_offset < 512
        &&& self.block_offset % 128 == 0
        &&& 0 <= self.id(fs) < fs.inodes@.len()
    }

    /// The record that the handle locates.
    pub open spec fn disk(&self, fs: &EasyFileSystem) -> DiskInode {
        fs.inodes@[self.id(fs)]
    }

    /// Handle on the record at `block_offset` in block `block_id`.
    pub fn new(block_id: u32, block_offset: usize) -> (r: Inode)
        ensures
            r.block_id == block_id,
            r.block_offset == block_offset,
    {
        Inode { block_id: block_id as usize, block_offset }
    }

    /// Handle on the record of inode `id`.
    pub fn of_id(fs: &EasyFileSystem, id: u32) -> (r: Inode)
        requires
            fs.wf(),
            id < fs.inodes@.len(),
        ensures
            r.wf_in(fs),
            r.id(fs) == id,
    {
        let (block_id, block_offset) = fs.get_disk_inode_pos(id);
        let r = Self::new(block_id, block_offset);
        proof {
            let s = fs.inode_area_start_block as int;
            let x = id as int;
            assert(r.block_id == s + x / 4);
            assert(r.block_offset == (x % 4) * 128);
            assert(((x % 4) * 128) / 128 == x % 4) by (nonlinear_arith);
            assert((x / 4) * 4 + x % 4 == x) by (nonlinear_arith);
        }
        r
    }

    /// Id of the inode that the handle locates.
    fn disk_id(&self, fs: &EasyFileSystem) -> (r: usize)
        requires
            fs.wf(),
            self.wf_in(fs),
        ensures
            r == self.id(fs),
    {
        (self.block_id - fs.inode_area_start_block as usize) * INODES_PER_BLOCK + self.block_offset
            / DISK_INODE_SZ
    }

    /// Id of the inode that the handle locates.
    pub fn inode_id(&self, fs: &EasyFileSystem) -> (r: u32)
        requires
            fs.wf(),
            self.wf_in(fs),
        ensures
            r == self.id(fs),
    {
        self.disk_id(fs) as u32
    }

    /// The record that the handle locates.
    pub fn read_disk_inode<'a>(&self, fs: &'a EasyFileSystem) -> (r: &'a DiskInode)
        requires
            fs.wf(),
            self.wf_in(fs),
        ensures
            *r == self.disk(fs),
    {
        let id = self.disk_id(fs);
        &fs.inodes[id]
    }

    /// Mutable access to the record that the handle locates; the caller
    /// keeps the record consistent.
    pub fn modify_disk_inode<'a>(&self, fs: &'a mut EasyFileSystem) -> (r: &'a mut DiskInode)
        requires
            old(fs).wf(),
            self.wf_in(old(fs)),
        ensures
            *r == self.disk(old(fs)),
            final(fs).inodes@ == old(fs).inodes@.update(self.id(old(fs)), *final(r)),
            final(fs).free_blocks@ == old(fs).free_blocks@,
            final(fs).inode_area_start_block == old(fs).inode_area_start_block,
            final(fs).inode_capacity == old(fs).inode_capacity,
    {
        let id = self.disk_id(fs);
        &mut fs.inodes[id]
    }

    /// Id of the inode that the first record named `name` of the directory
    /// `disk_inode` points at.
    pub fn find_inode_id(&self, name: &str, disk_inode: &DiskInode) -> (r: Option<u32>)
        requires
            disk_inode.wf(),
            disk_inode.type_ == DiskInodeType::Directory,
        ensures
            r == lookup(disk_inode.entries@, name@),
    {
        let target = name.to_owned();
        let file_count = disk_inode.entries.len();
        let mut i: usize = 0;
        while i < file_count
            invariant
                i <= file_count == disk_inode.entries@.len(),
                target@ == name@,
                forall|j: int| 0 <= j < i ==> entry_names(disk_inode.entries@)[j] != name@,
            decreases file_count - i,
        {
            let dirent = &disk_inode.entries[i];
            if dirent.name == target {
                proof {
                    lemma_lookup_at(disk_inode.entries@, name@, i as int);
                }
                return Some(dirent.inode_id());
            }
            i = i + 1;
        }
        proof {
            if entry_names(disk_inode.entries@).contains(name@) {
                let k = choose|k: int| 0 <= k < entry_names(disk_inode.entries@).len() && entry_names(disk_inode.entries@)[k] == name@;
                assert(entry_names(disk_inode.entries@)[k] != name@);
            }
        }
        None
    }

    /// Handle on the inode that the first record named `name` of this
    /// directory points at.
    pub fn find(&self, fs: &EasyFileSystem, name: &str) -> (r: Option<Inode>)
        requires
            fs.wf(),
            self.wf_in(fs),
            self.disk(fs).type_ == DiskInodeType::Directory,
        ensures
            r is None <==> lookup(self.disk(fs).entries@, name@) is None,
            r is Some ==> r->0.wf_in(fs) && r->0.id(fs) == lookup(
                self.disk(fs).entries@,
                name@,
            )->0,
    {
        let disk_inode = self.read_disk_inode(fs);
        match self.find_inode_id(name, disk_inode) {
            Some(inode_id) => {
                proof {
                    let es = disk_inode.entries@;
                    let k = lemma_lookup_found(es, name@);
                    assert(entry_names(es)[k] == name@);
                    assert(fs.links_to_file(es[k].inode_id));
                }
                Some(Self::of_id(fs, inode_id))
            },
            None => None,
        }
    }

    /// Takes `n` blocks from the free pool, last first.
    fn alloc_blocks(fs: &mut EasyFileSystem, n: u32) -> (r: Vec<u32>)
        requires
            old(fs).free_blocks@.len() >= n,
        ensures
            r@.len() == n,
            r@.to_multiset().add(final(fs).free_blocks@.to_multiset()) == old(
                fs,
            ).free_blocks@.to_multiset(),
            final(fs).free_blocks@ == old(fs).free_blocks@.subrange(
                0,
                old(fs).free_blocks@.len() - n,
            ),
            final(fs).inodes@ == old(fs).inodes@,
            final(fs).inode_area_start_block == old(fs).inode_area_start_block,
            final(fs).inode_capacity == old(fs).inode_capacity,
    {
        let mut v: Vec<u32> = Vec::new();
        let mut k: u32 = 0;
        while k < n
            invariant
                k <= n <= old(fs).free_blocks@.len(),
                v@.len() == k,
                v@.to_multiset().add(fs.free_blocks@.to_multiset()) == old(
                    fs,
                ).free_blocks@.to_multiset(),
                fs.free_blocks@ == old(fs).free_blocks@.subrange(0, old(fs).free_blocks@.len() - k),
                fs.inodes@ == old(fs).inodes@,
                fs.inode_area_start_block == old(fs).inode_area_start_block,
                fs.inode_capacity == old(fs).inode_capacity,
            decreases n - k,
        {
            let ghost before = fs.free_blocks@;
            let b = fs.alloc_data();
            proof {
                assert(before =~= fs.free_blocks@.push(b));
            }
            v.push(b);
            k = k + 1;
        }
        v
    }

    /// Returns every block of `blocks` to the free pool, in order.
    fn dealloc_blocks(fs: &mut EasyFileSystem, blocks: Vec<u32>)
        ensures
            final(fs).free_blocks@ == old(fs).free_blocks@ + blocks@,
            final(fs).inodes@ == old(fs).inodes@,
            final(fs).inode_area_start_block == old(fs).inode_area_start_block,
            final(fs).inode_capacity == old(fs).inode_capacity,
    {
        let mut i: usize = 0;
        while i < blocks.len()
            invariant
                i <= blocks@.len(),
                fs.free_blocks@ == old(fs).free_blocks@ + blocks@.subrange(0, i as int),
                fs.inodes@ == old(fs).inodes@,
                fs.inode_area_start_block == old(fs).inode_area_start_block,
                fs.inode_capacity == old(fs).inode_capacity,
            decreases blocks@.len() - i,
        {
            fs.dealloc_data(blocks[i]);
            assert(blocks@.subrange(0, i + 1) =~= blocks@.subrange(0, i as int).push(blocks@[i as int]));
            i = i + 1;
        }
        assert(blocks@.subrange(0, blocks@.len() as int) =~= blocks@);
    }

    /// Grows this file to `new_size` bytes, taking the blocks it needs from
    /// the free pool; a smaller size leaves it as it is.
    fn increase_size(&self, new_size: u32, fs: &mut EasyFileSystem)
        requires
            old(fs).wf(),
            self.wf_in(old(fs)),
            self.disk(old(fs)).type_ == DiskInodeType::File,
            new_size <= MAX_FILE_SIZE,
            old(fs).free_blocks@.len() >= blocks_needed_spec(
                self.disk(old(fs)).size as nat,
                new_size as nat,
            ),
        ensures
            final(fs).wf(),
            old(fs).same_except(final(fs), self.id(old(fs))),
            self.wf_in(final(fs)),
            ({
                let (a, b) = (self.disk(old(fs)), self.disk(final(fs)));
                let n = blocks_needed_spec(a.size as nat, new_size as nat);
                &&& b.size == (if new_size < a.size { a.size } else { new_size })
                &&& b.nlinks == a.nlinks
                &&& b.type_ == a.type_
                &&& b.data@ == a.data@ + Seq::new((b.size - a.size) as nat, |i: int| 0u8)
                &&& final(fs).free_blocks@ == old(fs).free_blocks@.subrange(
                    0,
                    old(fs).free_blocks@.len() - n,
                )
            }),
    {
        let id = self.disk_id(fs);
        if new_size < fs.inodes[id].size {
            assert(fs.inodes@[id as int].data@ =~= fs.inodes@[id as int].data@ + Seq::new(0, |i: int| 0u8));
            assert(fs.free_blocks@ =~= fs.free_blocks@.subrange(0, fs.free_blocks@.len() as int));
            return;
        }
        let needed = fs.inodes[id].blocks_num_needed(new_size);
        let ghost f0 = *fs;
        let v = Self::alloc_blocks(fs, needed);
        fs.inodes[id].increase_size(new_size, v);
        proof {
            lemma_replace_keeps_wf(&f0, fs, id as int);
        }
    }

    /// Reads bytes of this file from `offset` into the front of `buf`;
    /// returns how many.
    pub fn read_at(&self, fs: &EasyFileSystem, offset: usize, buf: &mut Vec<u8>) -> (r: usize)
        requires
            fs.wf(),
            self.wf_in(fs),
            self.disk(fs).type_ == DiskInodeType::File,
        ensures
            r == read_range(self.disk(fs).data@, offset as nat, old(buf)@.len()).len(),
            final(buf)@.len() == old(buf)@.len(),
            final(buf)@.subrange(0, r as int) == read_range(
                self.disk(fs).data@,
                offset as nat,
                old(buf)@.len(),
            ),
            final(buf)@.subrange(r as int, final(buf)@.len() as int) == old(buf)@.subrange(
                r as int,
                old(buf)@.len() as int,
            ),
    {
        self.read_disk_inode(fs).read_at(offset, buf)
    }

    /// Writes `buf` at `offset` of this file, growing it first when the write
    /// ends past its size; returns the number of bytes written.
    pub fn write_at(&self, fs: &mut EasyFileSystem, offset: usize, buf: &[u8]) -> (r: usize)
        requires
            old(fs).wf(),
            self.wf_in(old(fs)),
            self.disk(old(fs)).type_ == DiskInodeType::File,
            offset + buf@.len() <= MAX_FILE_SIZE,
            old(fs).free_blocks@.len() >= blocks_needed_spec(
                self.disk(old(fs)).size as nat,
                (offset + buf@.len()) as nat,
            ),
        ensures
            r == buf@.len(),
            final(fs).wf(),
            old(fs).same_except(final(fs), self.id(old(fs))),
            self.wf_in(final(fs)),
            ({
                let (a, b) = (self.disk(old(fs)), self.disk(final(fs)));
                let n = blocks_needed_spec(a.size as nat, (offset + buf@.len()) as nat);
                &&& b.data@ == written(a.data@, offset as nat, buf@)
                &&& b.size == b.data@.len()
                &&& b.nlinks == a.nlinks
                &&& b.type_ == a.type_
                &&& final(fs).free_blocks@ == old(fs).free_blocks@.subrange(
                    0,
                    old(fs).free_blocks@.len() - n,
                )
            }),
    {
        let ghost a = self.disk(fs);
        self.increase_size((offset + buf.len()) as u32, fs);
        let id = self.disk_id(fs);
        let ghost mid = *fs;
        let ghost grown = fs.inodes@[id as int].data@;
        let size = self.modify_disk_inode(fs).write_at(offset, buf);
        proof {
            lemma_replace_keeps_wf(&mid, fs, id as int);
            assert(written(grown, offset as nat, buf@) =~= written(a.data@, offset as nat, buf@));
        }
        size
    }

    /// Truncates this inode to zero bytes and returns all its blocks to the
    /// free pool.
    pub fn clear(&self, fs: &mut EasyFileSystem)
        requires
            old(fs).wf(),
            self.wf_in(old(fs)),
        ensures
            final(fs).wf(),
            old(fs).same_except(final(fs), self.id(old(fs))),
            self.wf_in(final(fs)),
            ({
                let (a, b) = (self.disk(old(fs)), self.disk(final(fs)));
                &&& b.size == 0
                &&& b.nlinks == a.nlinks
                &&& b.type_ == a.type_
                &&& b.data@.len() == 0
                &&& b.entries@.len() == 0
                &&& final(fs).free_blocks@ == old(fs).free_blocks@ + a.blocks@
            }),
    {
        let id = self.disk_id(fs);
        let ghost size = fs.inodes@[id as int].size;
        let ghost mid = *fs;
        assert(mid.inodes@[id as int].wf());
        let data_blocks_dealloc = self.modify_disk_inode(fs).clear_size();
        // the blocks handed back are exactly those the old size needed
        assert(data_blocks_dealloc@.len() == total_blocks_spec(size as nat));
        Self::dealloc_blocks(fs, data_blocks_dealloc);
        proof {
            assert(fs.inodes@[id as int].blocks@ =~= Seq::<u32>::empty());
            lemma_replace_keeps_wf(&mid, fs, id as int);
        }
    }

    /// This directory can take one more record: the size stays addressable
    /// and the free pool holds the blocks it needs.
    pub open spec fn can_grow(&self, fs: &EasyFileSystem) -> bool {
        let d = self.disk(fs);
        &&& d.size + DIRENT_SZ <= MAX_FILE_SIZE
        &&& fs.free_blocks@.len() >= blocks_needed_spec(
            d.size as nat,
            (d.size + DIRENT_SZ) as nat,
        )
    }

    /// The free pool after one record is appended to this directory.
    pub open spec fn pool_after_grow(&self, fs: &EasyFileSystem) -> Seq<u32> {
        let d = self.disk(fs);
        let n = blocks_needed_spec(d.size as nat, (d.size + DIRENT_SZ) as nat);
        fs.free_blocks@.subrange(0, fs.free_blocks@.len() - n)
    }

    /// Appends the record `{name, inode_id}` at the end of this directory.
    fn append_dirent(&self, fs: &mut EasyFileSystem, name: &str, inode_id: u32)
        requires
            old(fs).wf(),
            self.wf_in(old(fs)),
            self.disk(old(fs)).type_ == DiskInodeType::Directory,
            self.can_grow(old(fs)),
            old(fs).links_to_file(inode_id),
        ensures
            final(fs).wf(),
            old(fs).same_except(final(fs), self.id(old(fs))),
            self.wf_in(final(fs)),
            ({
                let (a, b) = (self.disk(old(fs)), self.disk(final(fs)));
                &&& b.size == a.size + DIRENT_SZ
                &&& b.nlinks == a.nlinks
                &&& b.type_ == a.type_
                &&& b.names() == a.names().push(name@)
                &&& entry_ids(b.entries@) == entry_ids(a.entries@).push(inode_id)
                &&& final(fs).free_blocks@ == self.pool_after_grow(old(fs))
            }),
    {
        let id = self.disk_id(fs);
        let size = fs.inodes[id].size;
        let new_size: u32 = size + DIRENT_SZ as u32;
        let needed = fs.inodes[id].blocks_num_needed(new_size);
        let ghost mid = *fs;
        let v = Self::alloc_blocks(fs, needed);
        let dirent = DirEntry::new(name, inode_id);
        let ghost es = fs.inodes@[id as int].entries@;
        fs.inodes[id].append_entry(dirent, v);
        proof {
            assert(fs.inodes@[id as int].entries@ == es.push(dirent));
            assert forall|k: int|
                0 <= k < fs.inodes@[id as int].entries@.len() implies mid.links_to_file(
                    #[trigger] fs.inodes@[id as int].entries@[k].inode_id,
                ) by {
                if k < es.len() {
                    assert(fs.inodes@[id as int].entries@[k] == mid.inodes@[id as int].entries@[k]);
                }
            }
            lemma_replace_keeps_wf(&mid, fs, id as int);
            assert(entry_names(es.push(dirent)) =~= entry_names(es).push(name@));
            assert(entry_ids(es.push(dirent)) =~= entry_ids(es).push(inode_id));
        }
    }

    /// Creates an empty file named `name` in this directory and returns a
    /// handle on it; a name that the directory already holds is rejected and
    /// nothing changes.
    pub fn create(&self, fs: &mut EasyFileSystem, name: &str) -> (r: Option<Inode>)
        requires
            old(fs).wf(),
            self.wf_in(old(fs)),
            self.disk(old(fs)).type_ == DiskInodeType::Directory,
            !self.disk(old(fs)).names().contains(name@) ==> {
                &&& name_fits(name)
                &&& old(fs).inodes@.len() < old(fs).inode_capacity
                &&& self.can_grow(old(fs))
            },
        ensures
            final(fs).wf(),
            final(fs).inode_area_start_block == old(fs).inode_area_start_block,
            final(fs).inode_capacity == old(fs).inode_capacity,
            self.wf_in(final(fs)),
            self.disk(old(fs)).names().contains(name@) ==> r is None && *final(fs) == *old(fs),
            !self.disk(old(fs)).names().contains(name@) ==> {
                let (a, b) = (self.disk(old(fs)), self.disk(final(fs)));
                let id = old(fs).inodes@.len();
                &&& r is Some
                &&& r->0.wf_in(final(fs))
                &&& r->0.id(final(fs)) == id
                &&& final(fs).inodes@.len() == id + 1
                &&& final(fs).inodes@[id as int].type_ == DiskInodeType::File
                &&& final(fs).inodes@[id as int].size == 0
                &&& final(fs).inodes@[id as int].nlinks == 1
                &&& b.size == a.size + DIRENT_SZ
                &&& b.nlinks == a.nlinks
                &&& b.type_ == a.type_
                &&& b.names() == a.names().push(name@)
                &&& entry_ids(b.entries@) == entry_ids(a.entries@).push(id as u32)
                &&& forall|j: int|
                    0 <= j < id && j != self.id(old(fs)) ==> final(fs).inodes@[j]
                        == old(fs).inodes@[j]
                &&& final(fs).free_blocks@ == self.pool_after_grow(old(fs))
            },
    {
        let dir_id = self.disk_id(fs);
        if self.find_inode_id(name, &fs.inodes[dir_id]).is_some() {
            return None;
        }
        let new_inode_id = fs.alloc_inode();
        let ghost mid = *fs;
        fs.inodes[new_inode_id as usize].initialize(DiskInodeType::File);
        proof {
            lemma_replace_keeps_wf(&mid, fs, new_inode_id as int);
        }
        self.append_dirent(fs, name, new_inode_id);
        Some(Self::of_id(fs, new_inode_id))
    }

    /// Adds the record `new_name` to this directory, pointing at the inode
    /// that `old_name` names, and counts one more link on that inode; returns
    /// 0, or -1 without any change when the two names are equal.
    pub fn linkat(&self, fs: &mut EasyFileSystem, old_name: &str, new_name: &str) -> (r: isize)
        requires
            old(fs).wf(),
            self.wf_in(old(fs)),
            self.disk(old(fs)).type_ == DiskInodeType::Directory,
            old_name@ != new_name@ ==> {
                let t = lookup(self.disk(old(fs)).entries@, old_name@);
                &&& name_fits(new_name)
                &&& t is Some
                &&& self.can_grow(old(fs))
                &&& old(fs).inodes@[t->0 as int].nlinks < u32::MAX
            },
        ensures
            final(fs).wf(),
            final(fs).inode_area_start_block == old(fs).inode_area_start_block,
            final(fs).inode_capacity == old(fs).inode_capacity,
            self.wf_in(final(fs)),
            old_name@ == new_name@ ==> r == -1 && *final(fs) == *old(fs),
            old_name@ != new_name@ ==> {
                let (a, b) = (self.disk(old(fs)), self.disk(final(fs)));
                let t = lookup(a.entries@, old_name@)->0 as int;
                let (ta, tb) = (old(fs).inodes@[t], final(fs).inodes@[t]);
                &&& r == 0
                &&& t != self.id(old(fs))
                &&& b.size == a.size + DIRENT_SZ
                &&& b.nlinks == a.nlinks
                &&& b.type_ == a.type_
                &&& b.names() == a.names().push(new_name@)
                &&& entry_ids(b.entries@) == entry_ids(a.entries@).push(t as u32)
                &&& tb.nlinks == ta.nlinks + 1
                &&& tb.size == ta.size
                &&& tb.type_ == ta.type_
                &&& tb.data@ == ta.data@
                &&& tb.blocks@ == ta.blocks@
                &&& tb.entries@ == ta.entries@
                &&& final(fs).inodes@.len() == old(fs).inodes@.len()
                &&& forall|j: int|
                    0 <= j < old(fs).inodes@.len() && j != self.id(old(fs)) && j != t
                        ==> final(fs).inodes@[j] == old(fs).inodes@[j]
                &&& final(fs).free_blocks@ == self.pool_after_grow(old(fs))
            },
    {
        if old_name.to_owned() == new_name.to_owned() {
            return -1;
        }
        let dir_id = self.disk_id(fs);
        let found = self.find_inode_id(old_name, &fs.inodes[dir_id]);
        let inode_id = found.unwrap();
        proof {
            let k = lemma_lookup_found(fs.inodes@[dir_id as int].entries@, old_name@);
            assert(fs.links_to_file(fs.inodes@[dir_id as int].entries@[k].inode_id));
        }
        self.append_dirent(fs, new_name, inode_id);
        let t = inode_id as usize;
        let ghost mid = *fs;
        assert(mid.inodes@[t as int].wf());
        fs.inodes[t].nlinks = fs.inodes[t].nlinks + 1;
        proof {
            lemma_replace_keeps_wf(&mid, fs, t as int);
        }
        0
    }

    /// Removes the first record named `name` from the directory
    /// `disk_inode` and hands back the blocks the smaller directory no longer
    /// needs; without such a record nothing changes.
    pub fn modify_entry(&self, name: &str, disk_inode: &mut DiskInode) -> (r: Vec<u32>)
        requires
            old(disk_inode).wf(),
            old(disk_inode).type_ == DiskInodeType::Directory,
        ensures
            final(disk_inode).wf(),
            final(disk_inode).nlinks == old(disk_inode).nlinks,
            final(disk_inode).type_ == old(disk_inode).type_,
            final(disk_inode).blocks@.to_multiset().add(r@.to_multiset()) == old(
                disk_inode,
            ).blocks@.to_multiset(),
            !old(disk_inode).names().contains(name@) ==> *final(disk_inode) == *old(disk_inode)
                && r@.len() == 0,
            old(disk_inode).names().contains(name@) ==> {
                &&& exists|i: int|
                    is_first_match(old(disk_inode).names(), name@, i)
                        && final(disk_inode).entries@ == old(disk_inode).entries@.remove(i)
                &&& final(disk_inode).size == old(disk_inode).size - DIRENT_SZ
                &&& r@.len() + total_blocks_spec(final(disk_inode).size as nat)
                    == old(disk_inode).blocks@.len()
            },
    {
        let target = name.to_owned();
        let file_count = disk_inode.entries.len();
        let mut i: usize = 0;
        while i < file_count
            invariant
                i <= file_count == disk_inode.entries@.len(),
                target@ == name@,
                *disk_inode == *old(disk_inode),
                disk_inode.wf(),
                disk_inode.type_ == DiskInodeType::Directory,
                forall|j: int| 0 <= j < i ==> entry_names(disk_inode.entries@)[j] != name@,
            decreases file_count - i,
        {
            if disk_inode.entries[i].name == target {
                assert(is_first_match(old(disk_inode).names(), name@, i as int));
                return disk_inode.remove_entry(i);
            }
            i = i + 1;
        }
        proof {
            if entry_names(disk_inode.entries@).contains(name@) {
                let k = choose|k: int|
                    0 <= k < entry_names(disk_inode.entries@).len() && entry_names(
                        disk_inode.entries@,
                    )[k] == name@;
                assert(entry_names(disk_inode.entries@)[k] != name@);
            }
        }
        let freed = Vec::new();
        assert(disk_inode.blocks@.to_multiset().add(freed@.to_multiset()) =~= disk_inode.blocks@.to_multiset());
        freed
    }

    /// Removes the first record named `name` from this directory and counts
    /// one link less on its inode, whose blocks go back to the free pool when
    /// no link is left; returns 0, or -1 without any change when no record
    /// has that name.
    pub fn unlinkat(&self, fs: &mut EasyFileSystem, name: &str) -> (r: isize)
        requires
            old(fs).wf(),
            self.wf_in(old(fs)),
            self.disk(old(fs)).type_ == DiskInodeType::Directory,
            lookup(self.disk(old(fs)).entries@, name@) is Some ==> old(fs).inodes@[lookup(
                self.disk(old(fs)).entries@,
                name@,
            )->0 as int].nlinks > 0,
        ensures
            final(fs).wf(),
            final(fs).inode_area_start_block == old(fs).inode_area_start_block,
            final(fs).inode_capacity == old(fs).inode_capacity,
            self.wf_in(final(fs)),
            lookup(self.disk(old(fs)).entries@, name@) is None ==> r == -1 && *final(fs) == *old(
                fs,
            ),
            lookup(self.disk(old(fs)).entries@, name@) is Some ==> {
                let (a, b) = (self.disk(old(fs)), self.disk(final(fs)));
                let t = lookup(a.entries@, name@)->0 as int;
                let (ta, tb) = (old(fs).inodes@[t], final(fs).inodes@[t]);
                let reclaimed: nat = if tb.nlinks == 0 { ta.blocks@.len() } else { 0 };
                &&& r == 0
                &&& t != self.id(old(fs))
                &&& exists|i: int|
                    is_first_match(a.names(), name@, i) && b.entries@ == a.entries@.remove(i)
                &&& b.size == a.size - DIRENT_SZ
                &&& b.nlinks == a.nlinks
                &&& b.type_ == a.type_
                &&& tb.nlinks == ta.nlinks - 1
                &&& tb.type_ == ta.type_
                &&& tb.nlinks > 0 ==> tb.size == ta.size && tb.data@ == ta.data@ && tb.blocks@
                    == ta.blocks@
                &&& tb.nlinks == 0 ==> tb.size == 0 && tb.data@.len() == 0 && tb.blocks@.len() == 0
                &&& final(fs).inodes@.len() == old(fs).inodes@.len()
                &&& forall|j: int|
                    0 <= j < old(fs).inodes@.len() && j != self.id(old(fs)) && j != t
                        ==> final(fs).inodes@[j] == old(fs).inodes@[j]
                &&& final(fs).free_blocks@.subrange(0, old(fs).free_blocks@.len() as int)
                    == old(fs).free_blocks@
                &&& final(fs).free_blocks@.len() + total_blocks_spec(b.size as nat)
                    == old(fs).free_blocks@.len() + reclaimed + a.blocks@.len()
            },
    {
        let dir_id = self.disk_id(fs);
        let inode_id = self.find_inode_id(name, &fs.inodes[dir_id]);
        if let Some(i_id) = inode_id {
            let ghost f0 = *fs;
            proof {
                let k = lemma_lookup_found(fs.inodes@[dir_id as int].entries@, name@);
                assert(fs.links_to_file(fs.inodes@[dir_id as int].entries@[k].inode_id));
                assert(fs.inodes@[i_id as int].wf());
            }
            let t = i_id as usize;
            fs.inodes[t].nlinks = fs.inodes[t].nlinks - 1;
            proof {
                lemma_replace_keeps_wf(&f0, fs, t as int);
            }
            if fs.inodes[t].nlinks == 0 {
                let ghost f1 = *fs;
                let freed = fs.inodes[t].clear_size();
                Self::dealloc_blocks(fs, freed);
                proof {
                    assert(fs.inodes@[t as int].blocks@ =~= Seq::<u32>::empty());
                    lemma_replace_keeps_wf(&f1, fs, t as int);
                }
            }
            let ghost f2 = *fs;
            let ghost es = fs.inodes@[dir_id as int].entries@;
            let freed = self.modify_entry(name, &mut fs.inodes[dir_id]);
            Self::dealloc_blocks(fs, freed);
            proof {
                let k0 = lemma_lookup_found(es, name@);
                assert(entry_names(es)[k0] == name@);
                let i = choose|i: int|
                    is_first_match(entry_names(es), name@, i)
                        && fs.inodes@[dir_id as int].entries@ == es.remove(i);
                assert forall|k: int|
                    0 <= k < fs.inodes@[dir_id as int].entries@.len() implies f2.links_to_file(
                        #[trigger] fs.inodes@[dir_id as int].entries@[k].inode_id,
                    ) by {
                    if k < i {
                        assert(fs.inodes@[dir_id as int].entries@[k] == es[k]);
                    } else {
                        assert(fs.inodes@[dir_id as int].entries@[k] == es[k + 1]);
                    }
                }
                lemma_replace_keeps_wf(&f2, fs, dir_id as int);
            }
            return 0;
        };
        -1
    }

    /// Names in this directory, in record order.
    pub fn ls(&self, fs: &EasyFileSystem) -> (r: Vec<String>)
        requires
            fs.wf(),
            self.wf_in(fs),
            self.disk(fs).type_ == DiskInodeType::Directory,
        ensures
            r@.map_values(|s: String| s@) == self.disk(fs).names(),
    {
        let disk_inode = self.read_disk_inode(fs);
        let file_count = disk_inode.entries.len();
        let mut v: Vec<String> = Vec::new();
        let mut i: usize = 0;
        while i < file_count
            invariant
                i <= file_count == disk_inode.entries@.len(),
                v@.len() == i,
                forall|j: int| 0 <= j < i ==> v@[j]@ == disk_inode.entries@[j].name@,
            decreases file_count - i,
        {
            let dirent = &disk_inode.entries[i];
            v.push(dirent.name.clone());
            i = i + 1;
        }
        assert(v@.map_values(|s: String| s@) =~= disk_inode.names());
        v
    }

    /// Link count of inode `inode_id`, and whether it is a file.
    pub fn state(&self, fs: &EasyFileSystem, inode_id: u64) -> (r: (u32, bool))
        requires
            fs.wf(),
            inode_id < fs.inodes@.len(),
        ensures
            r.0 == fs.inodes@[inode_id as int].nlinks,
            r.1 == (fs.inodes@[inode_id as int].type_ == DiskInodeType::File),
    {
        let handle = Self::of_id(fs, inode_id as u32);
        let disk_inode = handle.read_disk_inode(fs);
        (disk_inode.nlinks, disk_inode.is_file())
    }

    /// Id of the inode that the first record named `name` of this directory
    /// points at; the name must be there.
    pub fn get_inode_id_from_name(&self, fs: &EasyFileSystem, name: &str) -> (r: u32)
        requires
            fs.wf(),
            self.wf_in(fs),
            self.disk(fs).type_ == DiskInodeType::Directory,
            lookup(self.disk(fs).entries@, name@) is Some,
        ensures
            r == lookup(self.disk(fs).entries@, name@)->0,
    {
        let inode_id = self.find_inode_id(name, self.read_disk_inode(fs));
        inode_id.unwrap()
    }
}

} // verus!
