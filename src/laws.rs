//! Properties that hold across the operations of the inode layer.
use vstd::prelude::*;
use crate::efs::{owned_blocks, EasyFileSystem};
use crate::layout::{read_range, written, DiskInode, DiskInodeType, DIRENT_SZ};

verus! {

broadcast use vstd::seq_lib::group_to_multiset_ensures, vstd::multiset::group_multiset_axioms;

/// A block in the free pool of a consistent file system belongs to no
/// record, so handing it out never gives one block to two owners.
pub proof fn lemma_free_block_unowned(fs: &EasyFileSystem, b: u32)
    requires
        fs.wf(),
        fs.free_blocks@.contains(b),
    ensures
        owned_blocks(fs.inodes@).count(b) == 0,
{
    assert(fs.block_pool().count(b) <= 1);
    assert(fs.free_blocks@.to_multiset().count(b) > 0);
}

/// Every directory of a consistent file system is a whole number of
/// records; every operation of the inode layer keeps the file system
/// consistent.
pub proof fn lemma_directory_packed(fs: &EasyFileSystem, id: int)
    requires
        fs.wf(),
        0 <= id < fs.inodes@.len(),
        fs.inodes@[id].type_ == DiskInodeType::Directory,
    ensures
        fs.inodes@[id].size % (DIRENT_SZ as u32) == 0,
{
    let d = fs.inodes@[id];
    assert(d.wf());
    assert((d.entries@.len() * 32) % 32 == 0) by (nonlinear_arith);
}

/// Once a creation has appended `name` to a directory, the directory holds
/// that name, so creating it a second time is rejected and changes nothing.
pub proof fn lemma_create_twice_rejected(before: DiskInode, after: DiskInode, name: Seq<char>)
    requires
        after.names() == before.names().push(name),
    ensures
        after.names().contains(name),
{
    assert(after.names()[before.names().len() as int] == name);
}

/// Reading at `offset` as many bytes as were just written there gives back
/// the bytes written.
pub proof fn lemma_read_after_write(data: Seq<u8>, offset: nat, buf: Seq<u8>)
    ensures
        read_range(written(data, offset, buf), offset, buf.len()) == buf,
{
    assert(read_range(written(data, offset, buf), offset, buf.len()) =~= buf);
}

} // verus!
