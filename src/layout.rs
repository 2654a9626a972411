//! On-disk inode records and directory entries, with their block accounting.
use vstd::prelude::*;

verus! {

broadcast use vstd::seq_lib::group_to_multiset_ensures, vstd::multiset::group_multiset_axioms;

/// Size in bytes of one block of the device.
pub const BLOCK_SZ: usize = 512;
/// Size in bytes of one directory entry record.
pub const DIRENT_SZ: usize = 32;
/// Longest name, in bytes, that a directory entry keeps with its terminator.
pub const NAME_LENGTH_LIMIT: usize = 27;
/// Data blocks addressed directly from the inode record.
pub const INODE_DIRECT_COUNT: usize = 28;
/// Block ids held by one indirect block.
pub const INODE_INDIRECT1_COUNT: usize = 128;
/// Data blocks reachable without the doubly indirect block.
pub const INDIRECT1_BOUND: usize = 156;
/// Largest size in bytes that the pointer scheme can address.
pub const MAX_FILE_SIZE: usize = 8468480;
/// Size in bytes of one on-disk inode record.
pub const DISK_INODE_SZ: usize = 128;
/// Inode records stored in one block.
pub const INODES_PER_BLOCK: usize = 4;

/// Number of data blocks that hold `size` bytes.
pub open spec fn data_blocks_spec(size: nat) -> nat {
    ((size + 511) / 512) as nat
}

/// Number of blocks, data and index blocks together, that an inode of `size`
/// bytes owns.
pub open spec fn total_blocks_spec(size: nat) -> nat {
    let d = data_blocks_spec(size);
    if d <= 28 {
        d
    } else if d <= 156 {
        d + 1
    } else {
        (d + 2 + (d - 156 + 127) / 128) as nat
    }
}

/// Number of blocks to add when an inode of `old_size` bytes grows to `new_size`.
pub open spec fn blocks_needed_spec(old_size: nat, new_size: nat) -> nat {
    if new_size <= old_size {
        0
    } else {
        (total_blocks_spec(new_size) - total_blocks_spec(old_size)) as nat
    }
}

/// A larger size never owns fewer blocks.
pub proof fn lemma_total_blocks_monotonic(a: nat, b: nat)
    requires
        a <= b,
    ensures
        total_blocks_spec(a) <= total_blocks_spec(b),
        data_blocks_spec(a) <= data_blocks_spec(b),
{
    vstd::arithmetic::div_mod::lemma_div_is_ordered(a + 511int, b + 511int, 512);
    let da = data_blocks_spec(a);
    let db = data_blocks_spec(b);
    if da > 156 {
        vstd::arithmetic::div_mod::lemma_div_is_ordered(da - 156int + 127, db - 156int + 127, 128);
    }
}

/// Kind of an inode record.
#[derive(PartialEq, Eq, Structural, Clone, Copy, Debug)]
pub enum DiskInodeType {
    File,
    Directory,
}

/// One directory record: a name and the id of the inode it points at.
pub struct DirEntry {
    pub name: String,
    pub inode_id: u32,
}

impl DirEntry {
    /// Record for `name` pointing at `inode_id`.
    pub fn new(name: &str, inode_id: u32) -> (r: DirEntry)
        ensures
            r.name@ == name@,
            r.inode_id == inode_id,
    {
        DirEntry { name: name.to_owned(), inode_id }
    }

    /// Name of the record.
    pub fn name(&self) -> (r: &str)
        ensures
            r@ == self.name@,
    {
        self.name.as_str()
    }

    /// Inode id that the record points at.
    pub fn inode_id(&self) -> (r: u32)
        ensures
            r == self.inode_id,
    {
        self.inode_id
    }
}

/// Names of a sequence of directory records, in order.
pub open spec fn entry_names(es: Seq<DirEntry>) -> Seq<Seq<char>> {
    es.map_values(|e: DirEntry| e.name@)
}

/// Inode ids of a sequence of directory records, in order.
pub open spec fn entry_ids(es: Seq<DirEntry>) -> Seq<u32> {
    es.map_values(|e: DirEntry| e.inode_id)
}

/// `i` is the first position that holds `name`.
pub open spec fn is_first_match(names: Seq<Seq<char>>, name: Seq<char>, i: int) -> bool {
    &&& 0 <= i < names.len()
    &&& names[i] == name
    &&& forall|j: int| 0 <= j < i ==> names[j] != name
}

/// Bytes of `data` after `buf` is written at `offset`: the file grows to the
/// end of the write if needed, a gap reads as zeros.
pub open spec fn written(data: Seq<u8>, offset: nat, buf: Seq<u8>) -> Seq<u8> {
    let end = offset + buf.len();
    let len = if end > data.len() { end } else { data.len() };
    Seq::new(
        len,
        |i: int|
            if offset <= i < end {
                buf[i - offset]
            } else if i < data.len() {
                data[i]
            } else {
                0u8
            },
    )
}

/// Bytes that a read of at most `len` bytes at `offset` returns.
pub open spec fn read_range(data: Seq<u8>, offset: nat, len: nat) -> Seq<u8> {
    if offset >= data.len() {
        Seq::empty()
    } else if offset + len > data.len() {
        data.subrange(offset as int, data.len() as int)
    } else {
        data.subrange(offset as int, (offset + len) as int)
    }
}

/// An inode record: its kind, size, link count, the blocks it owns, and its
/// content (bytes for a file, records for a directory).
pub struct DiskInode {
    pub size: u32,
    pub nlinks: u32,
    pub type_: DiskInodeType,
    pub blocks: Vec<u32>,
    pub data: Vec<u8>,
    pub entries: Vec<DirEntry>,
}

impl DiskInode {
    /// The record is consistent: it owns the blocks its size needs, and its
    /// content matches its size (a directory is a packed run of records).
    pub open spec fn wf(&self) -> bool {
        &&& self.size <= MAX_FILE_SIZE
        &&& self.blocks@.len() == total_blocks_spec(self.size as nat)
        &&& match self.type_ {
            DiskInodeType::File => self.data@.len() == self.size && self.entries@.len() == 0,
            DiskInodeType::Directory => {
                &&& self.data@.len() == 0
                &&& self.entries@.len() * DIRENT_SZ == self.size
            },
        }
    }

    /// Names in the directory, in record order.
    pub open spec fn names(&self) -> Seq<Seq<char>> {
        entry_names(self.entries@)
    }

    /// A fresh record of the given kind, with no links yet.
    pub fn empty(type_: DiskInodeType) -> (r: DiskInode)
        ensures
            r.wf(),
            r.size == 0,
            r.nlinks == 0,
            r.type_ == type_,
            r.blocks@.len() == 0,
            r.data@.len() == 0,
            r.entries@.len() == 0,
    {
        DiskInode {
            size: 0,
            nlinks: 0,
            type_,
            blocks: Vec::new(),
            data: Vec::new(),
            entries: Vec::new(),
        }
    }

    /// Makes the record an empty inode of the given kind with one link.
    pub fn initialize(&mut self, type_: DiskInodeType)
        ensures
            final(self).wf(),
            final(self).size == 0,
            final(self).nlinks == 1,
            final(self).type_ == type_,
            final(self).blocks@.len() == 0,
            final(self).data@.len() == 0,
            final(self).entries@.len() == 0,
    {
        *self = DiskInode::empty(type_);
        self.nlinks = 1;
    }

    /// The record is a directory.
    pub fn is_dir(&self) -> (r: bool)
        ensures
            r == (self.type_ == DiskInodeType::Directory),
    {
        self.type_ == DiskInodeType::Directory
    }

    /// The record is a file.
    pub fn is_file(&self) -> (r: bool)
        ensures
            r == (self.type_ == DiskInodeType::File),
    {
        self.type_ == DiskInodeType::File
    }

    /// Number of data blocks that hold `size` bytes.
    pub fn data_blocks(size: u32) -> (r: u32)
        ensures
            r == data_blocks_spec(size as nat),
    {
        ((size as u64 + 511) / 512) as u32
    }

    /// Number of blocks an inode of `size` bytes owns.
    pub fn total_blocks(size: u32) -> (r: u32)
        requires
            size <= MAX_FILE_SIZE,
        ensures
            r == total_blocks_spec(size as nat),
    {
        let data_blocks = Self::data_blocks(size) as usize;
        let mut total = data_blocks;
        if data_blocks > INODE_DIRECT_COUNT {
            total = total + 1;
        }
        if data_blocks > INDIRECT1_BOUND {
            total = total + 1;
            total = total + (data_blocks - INDIRECT1_BOUND + INODE_INDIRECT1_COUNT - 1)
                / INODE_INDIRECT1_COUNT;
        }
        total as u32
    }

    /// Number of blocks to add for the record to grow to `new_size`.
    pub fn blocks_num_needed(&self, new_size: u32) -> (r: u32)
        requires
            self.wf(),
            new_size <= MAX_FILE_SIZE,
        ensures
            r == blocks_needed_spec(self.size as nat, new_size as nat),
    {
        if new_size <= self.size {
            return 0;
        }
        proof {
            lemma_total_blocks_monotonic(self.size as nat, new_size as nat);
        }
        Self::total_blocks(new_size) - Self::total_blocks(self.size)
    }

    /// Moves every block of `more` to the end of the record's block list.
    fn take_blocks(&mut self, more: Vec<u32>)
        ensures
            final(self).blocks@ == old(self).blocks@ + more@,
            final(self).size == old(self).size,
            final(self).nlinks == old(self).nlinks,
            final(self).type_ == old(self).type_,
            final(self).data@ == old(self).data@,
            final(self).entries@ == old(self).entries@,
    {
        let mut more = more;
        let mut i: usize = 0;
        let n = more.len();
        while i < n
            invariant
                n == more.len(),
                i <= n,
                self.blocks@ == old(self).blocks@ + more@.subrange(0, i as int),
                self.size == old(self).size,
                self.nlinks == old(self).nlinks,
                self.type_ == old(self).type_,
                self.data@ == old(self).data@,
                self.entries@ == old(self).entries@,
            decreases n - i,
        {
            self.blocks.push(more[i]);
            assert(more@.subrange(0, i + 1) =~= more@.subrange(0, i as int).push(more@[i as int]));
            i = i + 1;
        }
        assert(more@.subrange(0, n as int) =~= more@);
    }

    /// Grows a file to `new_size` bytes with the blocks `new_blocks`; the new
    /// bytes are zeros.
    pub fn increase_size(&mut self, new_size: u32, new_blocks: Vec<u32>)
        requires
            old(self).wf(),
            old(self).type_ == DiskInodeType::File,
            old(self).size <= new_size <= MAX_FILE_SIZE,
            new_blocks@.len() == blocks_needed_spec(old(self).size as nat, new_size as nat),
        ensures
            final(self).wf(),
            final(self).size == new_size,
            final(self).nlinks == old(self).nlinks,
            final(self).type_ == old(self).type_,
            final(self).blocks@ == old(self).blocks@ + new_blocks@,
            final(self).data@ == old(self).data@ + Seq::new(
                (new_size - old(self).size) as nat,
                |i: int| 0u8,
            ),
    {
        proof {
            lemma_total_blocks_monotonic(self.size as nat, new_size as nat);
        }
        self.take_blocks(new_blocks);
        let ghost old_data = self.data@;
        let ghost mid = *self;
        let mut k: u32 = self.size;
        while k < new_size
            invariant
                self.nlinks == mid.nlinks,
                self.type_ == mid.type_,
                self.blocks@ == mid.blocks@,
                self.entries@ == mid.entries@,
                self.blocks@.len() == total_blocks_spec(new_size as nat),
                self.size <= k <= new_size,
                self.data@.len() == k,
                self.data@ == old_data + Seq::new((k - self.size) as nat, |i: int| 0u8),
            decreases new_size - k,
        {
            self.data.push(0u8);
            k = k + 1;
            assert(self.data@ =~= old_data + Seq::new((k - self.size) as nat, |i: int| 0u8));
        }
        self.size = new_size;
    }

    /// Reads bytes from `offset` into the front of `buf`, as many as fit and
    /// as the file holds; returns how many.
    pub fn read_at(&self, offset: usize, buf: &mut Vec<u8>) -> (r: usize)
        requires
            self.wf(),
            self.type_ == DiskInodeType::File,
        ensures
            r == read_range(self.data@, offset as nat, old(buf)@.len()).len(),
            final(buf)@.len() == old(buf)@.len(),
            final(buf)@.subrange(0, r as int) == read_range(self.data@, offset as nat, old(buf)@.len()),
            final(buf)@.subrange(r as int, final(buf)@.len() as int)
                == old(buf)@.subrange(r as int, old(buf)@.len() as int),
    {
        let size = self.size as usize;
        if offset >= size {
            return 0;
        }
        let n: usize = if size - offset < buf.len() { size - offset } else { buf.len() };
        let mut i: usize = 0;
        while i < n
            invariant
                i <= n,
                offset + n <= size,
                size == self.data@.len(),
                n <= buf@.len(),
                buf@.len() == old(buf)@.len(),
                forall|j: int| 0 <= j < i ==> buf@[j] == self.data@[offset + j],
                forall|j: int| i <= j < buf@.len() ==> buf@[j] == old(buf)@[j],
            decreases n - i,
        {
            buf.set(i, self.data[offset + i]);
            i = i + 1;
        }
        assert(buf@.subrange(0, n as int) =~= read_range(self.data@, offset as nat, old(buf)@.len()));
        assert(buf@.subrange(n as int, buf@.len() as int) =~= old(buf)@.subrange(n as int, old(buf)@.len() as int));
        n
    }

    /// Writes `buf` at `offset`, which the file already covers; returns the
    /// number of bytes written.
    pub fn write_at(&mut self, offset: usize, buf: &[u8]) -> (r: usize)
        requires
            old(self).wf(),
            old(self).type_ == DiskInodeType::File,
            offset + buf@.len() <= old(self).size,
        ensures
            r == buf@.len(),
            final(self).wf(),
            final(self).blocks@ == old(self).blocks@,
            final(self).size == old(self).size,
            final(self).nlinks == old(self).nlinks,
            final(self).type_ == old(self).type_,
            final(self).data@ == written(old(self).data@, offset as nat, buf@),
    {
        let mut i: usize = 0;
        while i < buf.len()
            invariant
                i <= buf@.len(),
                offset + buf@.len() <= self.size,
                self.wf(),
                self.size == old(self).size,
                self.nlinks == old(self).nlinks,
                self.type_ == DiskInodeType::File,
                self.blocks@ == old(self).blocks@,
                self.entries@.len() == 0,
                self.data@.len() == old(self).data@.len(),
                forall|j: int|
                    0 <= j < self.data@.len() ==> self.data@[j] == (if offset <= j < offset + i {
                        buf@[j - offset]
                    } else {
                        old(self).data@[j]
                    }),
            decreases buf@.len() - i,
        {
            self.data.set(offset + i, buf[i]);
            i = i + 1;
        }
        assert(self.data@ =~= written(old(self).data@, offset as nat, buf@));
        buf.len()
    }

    /// Truncates the record to zero bytes and hands back every block it owned.
    pub fn clear_size(&mut self) -> (r: Vec<u32>)
        requires
            old(self).wf(),
        ensures
            final(self).wf(),
            final(self).size == 0,
            final(self).nlinks == old(self).nlinks,
            final(self).type_ == old(self).type_,
            final(self).blocks@.len() == 0,
            final(self).data@.len() == 0,
            final(self).entries@.len() == 0,
            r@ == old(self).blocks@,
    {
        let mut freed = Vec::new();
        std::mem::swap(&mut freed, &mut self.blocks);
        self.data = Vec::new();
        self.entries = Vec::new();
        self.size = 0;
        freed
    }

    /// Appends `entry` at the end of a directory, which grows by one record
    /// and takes the blocks `new_blocks`.
    pub fn append_entry(&mut self, entry: DirEntry, new_blocks: Vec<u32>)
        requires
            old(self).wf(),
            old(self).type_ == DiskInodeType::Directory,
            old(self).size + DIRENT_SZ <= MAX_FILE_SIZE,
            new_blocks@.len() == blocks_needed_spec(
                old(self).size as nat,
                (old(self).size + DIRENT_SZ) as nat,
            ),
        ensures
            final(self).wf(),
            final(self).size == old(self).size + DIRENT_SZ,
            final(self).nlinks == old(self).nlinks,
            final(self).type_ == old(self).type_,
            final(self).entries@ == old(self).entries@.push(entry),
            final(self).blocks@ == old(self).blocks@ + new_blocks@,
    {
        proof {
            lemma_total_blocks_monotonic(self.size as nat, (self.size + DIRENT_SZ) as nat);
        }
        self.take_blocks(new_blocks);
        self.entries.push(entry);
        self.size = self.size + DIRENT_SZ as u32;
    }

    /// Removes the record at `i` from a directory: the later records move
    /// one slot forward, the size drops by one record, and the blocks the
    /// smaller size no longer needs are handed back.
    pub fn remove_entry(&mut self, i: usize) -> (r: Vec<u32>)
        requires
            old(self).wf(),
            old(self).type_ == DiskInodeType::Directory,
            i < old(self).entries@.len(),
        ensures
            final(self).wf(),
            final(self).size == old(self).size - DIRENT_SZ,
            final(self).nlinks == old(self).nlinks,
            final(self).type_ == old(self).type_,
            final(self).entries@ == old(self).entries@.remove(i as int),
            r@.len() + total_blocks_spec(final(self).size as nat) == old(self).blocks@.len(),
            final(self).blocks@.to_multiset().add(r@.to_multiset()) == old(
                self,
            ).blocks@.to_multiset(),
    {
        self.entries.remove(i);
        let new_size: u32 = self.size - DIRENT_SZ as u32;
        proof {
            lemma_total_blocks_monotonic(new_size as nat, self.size as nat);
        }
        let keep = Self::total_blocks(new_size) as usize;
        let mut freed: Vec<u32> = Vec::new();
        while self.blocks.len() > keep
            invariant
                keep <= self.blocks@.len(),
                freed@.len() + self.blocks@.len() == old(self).blocks@.len(),
                self.blocks@.to_multiset().add(freed@.to_multiset()) == old(
                    self,
                ).blocks@.to_multiset(),
                self.entries@ == old(self).entries@.remove(i as int),
                self.size == old(self).size,
                self.nlinks == old(self).nlinks,
                self.type_ == old(self).type_,
                self.data@ == old(self).data@,
            decreases self.blocks@.len(),
        {
            let ghost before = self.blocks@;
            let b = self.blocks.pop().unwrap();
            proof {
                assert(before =~= self.blocks@.push(b));
            }
            freed.push(b);
        }
        self.size = new_size;
        freed
    }
}

} // verus!
