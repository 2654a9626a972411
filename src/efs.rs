//! The file system object: the table of inode records and the pool of free
//! data blocks.
use vstd::prelude::*;
use vstd::multiset::Multiset;
use crate::layout::{DiskInode, DiskInodeType, DISK_INODE_SZ, INODES_PER_BLOCK};

verus! {

broadcast use vstd::seq_lib::group_to_multiset_ensures, vstd::multiset::group_multiset_axioms;

/// Inode records by id, where they live on the device, and the free data
/// blocks.
pub struct EasyFileSystem {
    pub inode_area_start_block: u32,
    pub inode_capacity: u32,
    pub inodes: Vec<DiskInode>,
    pub free_blocks: Vec<u32>,
}

/// Block ids that the records of `inodes` own, together.
pub open spec fn owned_blocks(inodes: Seq<DiskInode>) -> Multiset<u32>
    decreases inodes.len(),
{
    if inodes.len() == 0 {
        Multiset::empty()
    } else {
        owned_blocks(inodes.drop_last()).add(inodes.last().blocks@.to_multiset())
    }
}

/// Replacing the record at `i` swaps its blocks in the owned total.
pub proof fn lemma_owned_update(s: Seq<DiskInode>, i: int, d: DiskInode)
    requires
        0 <= i < s.len(),
    ensures
        owned_blocks(s.update(i, d)).add(s[i].blocks@.to_multiset()) == owned_blocks(s).add(
            d.blocks@.to_multiset(),
        ),
    decreases s.len(),
{
    let t = s.update(i, d);
    assert(owned_blocks(t) == owned_blocks(t.drop_last()).add(t.last().blocks@.to_multiset()));
    assert(owned_blocks(s) == owned_blocks(s.drop_last()).add(s.last().blocks@.to_multiset()));
    if i == s.len() - 1 {
        assert(t.drop_last() =~= s.drop_last());
        assert(t.last() == d);
    } else {
        assert(t.drop_last() =~= s.drop_last().update(i, d));
        assert(t.last() == s.last());
        lemma_owned_update(s.drop_last(), i, d);
        assert(s.drop_last()[i] == s[i]);
        assert forall|v: u32|
            owned_blocks(t.drop_last()).count(v) + s[i].blocks@.to_multiset().count(v)
                == owned_blocks(s.drop_last()).count(v) + d.blocks@.to_multiset().count(v) by {
            assert(owned_blocks(t.drop_last()).add(s[i].blocks@.to_multiset()).count(v)
                == owned_blocks(s.drop_last()).add(d.blocks@.to_multiset()).count(v));
        }
    }
    assert forall|v: u32|
        owned_blocks(t).add(s[i].blocks@.to_multiset()).count(v) == owned_blocks(s).add(
            d.blocks@.to_multiset(),
        ).count(v) by {}
    assert(owned_blocks(t).add(s[i].blocks@.to_multiset()) =~= owned_blocks(s).add(
        d.blocks@.to_multiset(),
    ));
}

/// Block that holds the record of inode `id`.
pub open spec fn inode_block_spec(start: u32, id: int) -> int {
    start + id / 4
}

/// Byte offset of the record of inode `id` within its block.
pub open spec fn inode_offset_spec(id: int) -> int {
    (id % 4) * 128
}

impl EasyFileSystem {
    /// Inode `id` exists and is a file.
    pub open spec fn links_to_file(&self, id: u32) -> bool {
        &&& id < self.inodes@.len()
        &&& self.inodes@[id as int].type_ == DiskInodeType::File
    }

    /// Every block id the file system tracks, free or owned by a record.
    pub open spec fn block_pool(&self) -> Multiset<u32> {
        self.free_blocks@.to_multiset().add(owned_blocks(self.inodes@))
    }

    /// Inode 0 is a directory, every record is consistent, ids stay within
    /// the inode area, every directory record points at an existing file,
    /// and no block is both free and owned, or owned twice.
    pub open spec fn wf(&self) -> bool {
        &&& forall|b: u32| self.block_pool().count(b) <= 1
        &&& 1 <= self.inodes@.len()
        &&& self.inodes@[0].type_ == DiskInodeType::Directory
        &&& self.inodes@.len() <= self.inode_capacity
        &&& self.inode_area_start_block + self.inode_capacity <= u32::MAX
        &&& forall|i: int| 0 <= i < self.inodes@.len() ==> #[trigger] self.inodes@[i].wf()
        &&& forall|i: int, k: int|
            0 <= i < self.inodes@.len() && 0 <= k < self.inodes@[i].entries@.len()
                ==> self.links_to_file(#[trigger] self.inodes@[i].entries@[k].inode_id)
    }

    /// `other` differs from this file system at most in the record of inode
    /// `id` and in the free pool.
    pub open spec fn same_except(&self, other: &EasyFileSystem, id: int) -> bool {
        &&& other.inode_area_start_block == self.inode_area_start_block
        &&& other.inode_capacity == self.inode_capacity
        &&& other.inodes@.len() == self.inodes@.len()
        &&& forall|j: int|
            0 <= j < self.inodes@.len() && j != id ==> other.inodes@[j] == self.inodes@[j]
    }

    /// `other` has every inode of this file system, each of the same kind, at
    /// the same place.
    pub open spec fn kinds_kept(&self, other: &EasyFileSystem) -> bool {
        &&& other.inode_area_start_block == self.inode_area_start_block
        &&& self.inodes@.len() <= other.inodes@.len()
        &&& forall|j: int|
            0 <= j < self.inodes@.len() ==> (#[trigger] other.inodes@[j]).type_
                == self.inodes@[j].type_
    }

    /// A file system whose inode area starts at `inode_area_start_block`,
    /// with room for `inode_capacity` inodes and the data blocks
    /// `free_blocks`; inode 0 is an empty root directory.
    pub fn create(inode_area_start_block: u32, inode_capacity: u32, free_blocks: Vec<u32>) -> (r:
        EasyFileSystem)
        requires
            inode_capacity >= 1,
            inode_area_start_block + inode_capacity <= u32::MAX,
            forall|b: u32| free_blocks@.to_multiset().count(b) <= 1,
        ensures
            r.wf(),
            r.inode_area_start_block == inode_area_start_block,
            r.inode_capacity == inode_capacity,
            r.free_blocks@ == free_blocks@,
            r.inodes@.len() == 1,
            r.inodes@[0].type_ == DiskInodeType::Directory,
            r.inodes@[0].nlinks == 1,
            r.inodes@[0].size == 0,
    {
        let mut root = DiskInode::empty(DiskInodeType::Directory);
        root.initialize(DiskInodeType::Directory);
        let mut inodes = Vec::new();
        inodes.push(root);
        let r = EasyFileSystem { inode_area_start_block, inode_capacity, inodes, free_blocks };
        proof {
            assert(r.inodes@.drop_last() =~= Seq::<DiskInode>::empty());
            assert(owned_blocks(r.inodes@) == owned_blocks(r.inodes@.drop_last()).add(
                r.inodes@.last().blocks@.to_multiset(),
            ));
            assert forall|b: u32| r.block_pool().count(b) <= 1 by {
                assert(!r.inodes@.last().blocks@.contains(b));
                assert(r.block_pool().count(b) == free_blocks@.to_multiset().count(b));
            }
        }
        r
    }

    /// Takes a fresh inode id; its record is an empty file with no links.
    pub fn alloc_inode(&mut self) -> (r: u32)
        requires
            old(self).wf(),
            old(self).inodes@.len() < old(self).inode_capacity,
        ensures
            final(self).wf(),
            old(self).kinds_kept(final(self)),
            r == old(self).inodes@.len(),
            final(self).inodes@.len() == old(self).inodes@.len() + 1,
            forall|j: int|
                0 <= j < old(self).inodes@.len() ==> final(self).inodes@[j] == old(self).inodes@[j],
            final(self).inodes@[r as int].type_ == DiskInodeType::File,
            final(self).inodes@[r as int].size == 0,
            final(self).inodes@[r as int].nlinks == 0,
            final(self).free_blocks@ == old(self).free_blocks@,
            final(self).inode_area_start_block == old(self).inode_area_start_block,
            final(self).inode_capacity == old(self).inode_capacity,
    {
        let id = self.inodes.len() as u32;
        self.inodes.push(DiskInode::empty(DiskInodeType::File));
        proof {
            assert(self.inodes@.drop_last() =~= old(self).inodes@);
            assert(self.block_pool() =~= old(self).block_pool());
            assert(self.inodes@[0] == old(self).inodes@[0]);
            assert forall|j: int| 0 <= j < old(self).inodes@.len() implies (#[trigger] self.inodes@[j]).type_
                == old(self).inodes@[j].type_ by {
                assert(self.inodes@[j] == old(self).inodes@[j]);
            }
            assert forall|i: int, k: int|
                0 <= i < self.inodes@.len() && 0 <= k < self.inodes@[i].entries@.len()
                    implies self.links_to_file(#[trigger] self.inodes@[i].entries@[k].inode_id) by {
                assert(i < old(self).inodes@.len());
                assert(old(self).links_to_file(old(self).inodes@[i].entries@[k].inode_id));
            }
        }
        id
    }

    /// Takes the last free data block.
    pub fn alloc_data(&mut self) -> (r: u32)
        requires
            old(self).free_blocks@.len() > 0,
        ensures
            r == old(self).free_blocks@.last(),
            final(self).free_blocks@ == old(self).free_blocks@.drop_last(),
            final(self).inodes@ == old(self).inodes@,
            final(self).inode_area_start_block == old(self).inode_area_start_block,
            final(self).inode_capacity == old(self).inode_capacity,
    {
        self.free_blocks.pop().unwrap()
    }

    /// Returns a data block to the free pool.
    pub fn dealloc_data(&mut self, block_id: u32)
        ensures
            final(self).free_blocks@ == old(self).free_blocks@.push(block_id),
            final(self).inodes@ == old(self).inodes@,
            final(self).inode_area_start_block == old(self).inode_area_start_block,
            final(self).inode_capacity == old(self).inode_capacity,
    {
        self.free_blocks.push(block_id);
    }

    /// Block and byte offset of the record of inode `inode_id`.
    pub fn get_disk_inode_pos(&self, inode_id: u32) -> (r: (u32, usize))
        requires
            self.wf(),
            inode_id < self.inode_capacity,
        ensures
            r.0 == inode_block_spec(self.inode_area_start_block, inode_id as int),
            r.1 == inode_offset_spec(inode_id as int),
    {
        let per = INODES_PER_BLOCK as u32;
        (
            self.inode_area_start_block + inode_id / per,
            (inode_id % per) as usize * DISK_INODE_SZ,
        )
    }
}

/// A file system in which at most inode `id` changed, keeping its kind, and
/// inodes may have been added, keeps every kind.
pub proof fn lemma_kinds_kept(a: &EasyFileSystem, b: &EasyFileSystem, id: int)
    requires
        b.inode_area_start_block == a.inode_area_start_block,
        a.inodes@.len() <= b.inodes@.len(),
        forall|j: int| 0 <= j < a.inodes@.len() && j != id ==> b.inodes@[j] == a.inodes@[j],
        0 <= id < a.inodes@.len() ==> b.inodes@[id].type_ == a.inodes@[id].type_,
    ensures
        a.kinds_kept(b),
{
    assert forall|j: int| 0 <= j < a.inodes@.len() implies (#[trigger] b.inodes@[j]).type_
        == a.inodes@[j].type_ by {
        if j != id {
            assert(b.inodes@[j] == a.inodes@[j]);
        }
    }
}

/// A file system in which at most inodes `i` and `j` changed, each keeping
/// its kind, keeps every kind.
pub proof fn lemma_kinds_kept_two(a: &EasyFileSystem, b: &EasyFileSystem, i: int, j: int)
    requires
        b.inode_area_start_block == a.inode_area_start_block,
        a.inodes@.len() <= b.inodes@.len(),
        forall|k: int| 0 <= k < a.inodes@.len() && k != i && k != j ==> b.inodes@[k] == a.inodes@[k],
        0 <= i < a.inodes@.len() ==> b.inodes@[i].type_ == a.inodes@[i].type_,
        0 <= j < a.inodes@.len() ==> b.inodes@[j].type_ == a.inodes@[j].type_,
    ensures
        a.kinds_kept(b),
{
    assert forall|k: int| 0 <= k < a.inodes@.len() implies (#[trigger] b.inodes@[k]).type_
        == a.inodes@[k].type_ by {
        if k != i && k != j {
            assert(b.inodes@[k] == a.inodes@[k]);
        }
    }
}

/// Replacing one record by a consistent record of the same kind, whose
/// directory records all point at files, keeps the file system consistent.
pub proof fn lemma_replace_keeps_wf(a: &EasyFileSystem, b: &EasyFileSystem, id: int)
    requires
        a.wf(),
        0 <= id < a.inodes@.len(),
        a.same_except(b, id),
        b.inodes@[id].wf(),
        b.inodes@[id].type_ == a.inodes@[id].type_,
        b.free_blocks@.to_multiset().add(b.inodes@[id].blocks@.to_multiset()).subset_of(
            a.free_blocks@.to_multiset().add(a.inodes@[id].blocks@.to_multiset()),
        ),
        forall|k: int|
            0 <= k < b.inodes@[id].entries@.len() ==> a.links_to_file(
                #[trigger] b.inodes@[id].entries@[k].inode_id,
            ),
    ensures
        b.wf(),
        a.kinds_kept(b),
        b.block_pool().subset_of(a.block_pool()),
{
    assert(b.inodes@ =~= a.inodes@.update(id, b.inodes@[id]));
    lemma_owned_update(a.inodes@, id, b.inodes@[id]);
    assert forall|x: u32| b.block_pool().count(x) <= a.block_pool().count(x) by {
        assert(owned_blocks(b.inodes@).add(a.inodes@[id].blocks@.to_multiset()).count(x)
            == owned_blocks(a.inodes@).add(b.inodes@[id].blocks@.to_multiset()).count(x));
        assert(b.free_blocks@.to_multiset().add(b.inodes@[id].blocks@.to_multiset()).count(x)
            <= a.free_blocks@.to_multiset().add(a.inodes@[id].blocks@.to_multiset()).count(x));
        assert(b.free_blocks@.to_multiset().count(x) + b.inodes@[id].blocks@.to_multiset().count(x)
            <= a.free_blocks@.to_multiset().count(x) + a.inodes@[id].blocks@.to_multiset().count(x));
    }
    assert forall|x: u32| b.block_pool().count(x) <= 1 by {
        assert(b.block_pool().count(x) <= a.block_pool().count(x));
    }
    if id == 0 {
        assert(b.inodes@[0].type_ == a.inodes@[0].type_);
    } else {
        assert(b.inodes@[0] == a.inodes@[0]);
    }
    assert forall|j: int| 0 <= j < a.inodes@.len() implies (#[trigger] b.inodes@[j]).type_
        == a.inodes@[j].type_ by {
        if j != id {
            assert(b.inodes@[j] == a.inodes@[j]);
        }
    }
    assert forall|i: int| 0 <= i < b.inodes@.len() implies #[trigger] b.inodes@[i].wf() by {
        if i != id {
            assert(b.inodes@[i] == a.inodes@[i]);
        }
    }
    assert forall|i: int, k: int|
        0 <= i < b.inodes@.len() && 0 <= k < b.inodes@[i].entries@.len()
            implies b.links_to_file(#[trigger] b.inodes@[i].entries@[k].inode_id) by {
        let t = b.inodes@[i].entries@[k].inode_id;
        if i != id {
            assert(b.inodes@[i] == a.inodes@[i]);
        }
        assert(a.links_to_file(t));
        if t as int != id {
            assert(b.inodes@[t as int] == a.inodes@[t as int]);
        }
    }
}

} // verus!
