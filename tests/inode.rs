use easy_fs::efs::EasyFileSystem;
use easy_fs::layout::{DiskInode, DiskInodeType, DIRENT_SZ};
use easy_fs::vfs::Inode;

fn new_fs() -> EasyFileSystem {
    EasyFileSystem::create(1, 64, (100u32..20000).collect())
}

fn dir_size(fs: &EasyFileSystem, dir: &Inode) -> u32 {
    dir.read_disk_inode(fs).size
}

#[test]
fn create_twice_is_rejected() {
    let mut fs = new_fs();
    let root = fs.root_inode();
    assert!(root.create(&mut fs, "a").is_some());
    let inodes = fs.inodes.len();
    let free = fs.free_blocks.len();
    assert!(root.create(&mut fs, "a").is_none());
    assert_eq!(root.ls(&fs), vec!["a".to_string()]);
    assert_eq!(dir_size(&fs, &root), DIRENT_SZ as u32);
    assert_eq!(fs.inodes.len(), inodes);
    assert_eq!(fs.free_blocks.len(), free);
}

#[test]
fn link_count_follows_links_and_unlinks() {
    let mut fs = new_fs();
    let root = fs.root_inode();
    let a = root.create(&mut fs, "a").unwrap();
    assert_eq!(a.write_at(&mut fs, 0, b"hello world"), 11);
    let id = root.get_inode_id_from_name(&fs, "a");
    assert_eq!(root.state(&fs, id as u64), (1, true));
    assert_eq!(root.linkat(&mut fs, "a", "b"), 0);
    assert_eq!(root.state(&fs, id as u64), (2, true));
    assert_eq!(root.get_inode_id_from_name(&fs, "b"), id);
    assert_eq!(root.unlinkat(&mut fs, "a"), 0);
    assert_eq!(root.state(&fs, id as u64), (1, true));
    let mut buf = vec![0u8; 11];
    assert_eq!(a.read_at(&fs, 0, &mut buf), 11);
    assert_eq!(&buf, b"hello world");
    assert_eq!(root.unlinkat(&mut fs, "b"), 0);
    assert_eq!(root.state(&fs, id as u64), (0, true));
    let mut buf = vec![7u8; 11];
    assert_eq!(a.read_at(&fs, 0, &mut buf), 0);
    assert_eq!(buf, vec![7u8; 11]);
    assert_eq!(a.read_disk_inode(&fs).size, 0);
    assert!(root.ls(&fs).is_empty());
}

#[test]
fn reclaimed_blocks_return_to_pool() {
    let mut fs = new_fs();
    let root = fs.root_inode();
    let a = root.create(&mut fs, "a").unwrap();
    let before = fs.free_blocks.len();
    a.write_at(&mut fs, 0, &vec![1u8; 5000]);
    assert_eq!(fs.free_blocks.len(), before - 10);
    assert_eq!(root.unlinkat(&mut fs, "a"), 0);
    // the file's ten blocks and the directory's one block come back
    assert_eq!(fs.free_blocks.len(), before + 1);
}

fn round_trip(len: usize) {
    let mut fs = new_fs();
    let root = fs.root_inode();
    let f = root.create(&mut fs, "data").unwrap();
    let bytes: Vec<u8> = (0..len).map(|i| (i * 7 % 251) as u8).collect();
    assert_eq!(f.write_at(&mut fs, 0, &bytes), len);
    let mut buf = vec![0u8; len];
    assert_eq!(f.read_at(&fs, 0, &mut buf), len);
    assert_eq!(buf, bytes);
    assert_eq!(
        f.read_disk_inode(&fs).blocks.len() as u32,
        DiskInode::total_blocks(len as u32)
    );
}

#[test]
fn round_trip_within_one_block() {
    round_trip(300);
}

#[test]
fn round_trip_past_direct_blocks() {
    round_trip(28 * 512 + 900);
}

#[test]
fn round_trip_past_first_indirect_block() {
    round_trip(156 * 512 + 3000);
}

#[test]
fn write_at_offset_reads_back() {
    let mut fs = new_fs();
    let root = fs.root_inode();
    let f = root.create(&mut fs, "f").unwrap();
    assert_eq!(f.write_at(&mut fs, 10, b"xyz"), 3);
    let mut buf = vec![9u8; 20];
    assert_eq!(f.read_at(&fs, 0, &mut buf), 13);
    assert_eq!(&buf[..13], &[0, 0, 0, 0, 0, 0, 0, 0, 0, 0, b'x', b'y', b'z']);
    assert_eq!(&buf[13..], &[9u8; 7]);
    let mut buf = vec![0u8; 2];
    assert_eq!(f.read_at(&fs, 11, &mut buf), 2);
    assert_eq!(&buf, b"yz");
    assert_eq!(f.read_at(&fs, 13, &mut buf), 0);
    assert_eq!(f.read_at(&fs, 100, &mut buf), 0);
}

#[test]
fn overwrite_keeps_size() {
    let mut fs = new_fs();
    let root = fs.root_inode();
    let f = root.create(&mut fs, "f").unwrap();
    f.write_at(&mut fs, 0, b"abcdef");
    f.write_at(&mut fs, 2, b"ZZ");
    let mut buf = vec![0u8; 6];
    assert_eq!(f.read_at(&fs, 0, &mut buf), 6);
    assert_eq!(&buf, b"abZZef");
    assert_eq!(f.read_disk_inode(&fs).size, 6);
}

#[test]
fn ls_keeps_insertion_order() {
    let mut fs = new_fs();
    let root = fs.root_inode();
    root.create(&mut fs, "x").unwrap();
    root.create(&mut fs, "y").unwrap();
    assert_eq!(root.ls(&fs), vec!["x".to_string(), "y".to_string()]);
}

#[test]
fn unlink_compacts_directory() {
    let mut fs = new_fs();
    let root = fs.root_inode();
    for n in ["a", "b", "c"] {
        root.create(&mut fs, n).unwrap();
    }
    assert_eq!(dir_size(&fs, &root), 3 * DIRENT_SZ as u32);
    assert_eq!(root.unlinkat(&mut fs, "b"), 0);
    assert_eq!(root.ls(&fs), vec!["a".to_string(), "c".to_string()]);
    assert_eq!(dir_size(&fs, &root), 2 * DIRENT_SZ as u32);
    assert!(root.find(&fs, "b").is_none());
    assert!(root.find(&fs, "c").is_some());
}

#[test]
fn self_link_is_rejected() {
    let mut fs = new_fs();
    let root = fs.root_inode();
    root.create(&mut fs, "a").unwrap();
    let id = root.get_inode_id_from_name(&fs, "a");
    assert_eq!(root.linkat(&mut fs, "a", "a"), -1);
    assert_eq!(root.ls(&fs), vec!["a".to_string()]);
    assert_eq!(dir_size(&fs, &root), DIRENT_SZ as u32);
    assert_eq!(root.state(&fs, id as u64), (1, true));
}

#[test]
fn linkat_allows_a_duplicate_name() {
    let mut fs = new_fs();
    let root = fs.root_inode();
    root.create(&mut fs, "a").unwrap();
    root.create(&mut fs, "b").unwrap();
    let id_b = root.get_inode_id_from_name(&fs, "b");
    assert_eq!(root.linkat(&mut fs, "a", "b"), 0);
    assert_eq!(root.ls(&fs), vec!["a".to_string(), "b".to_string(), "b".to_string()]);
    // the first record named "b" is the one that is found and removed
    assert_eq!(root.get_inode_id_from_name(&fs, "b"), id_b);
    assert_eq!(root.unlinkat(&mut fs, "b"), 0);
    assert_eq!(root.state(&fs, id_b as u64), (0, true));
    let id_a = root.get_inode_id_from_name(&fs, "a");
    assert_eq!(root.get_inode_id_from_name(&fs, "b"), id_a);
    assert_eq!(root.state(&fs, id_a as u64), (2, true));
}

#[test]
fn unlink_of_missing_name_changes_nothing() {
    let mut fs = new_fs();
    let root = fs.root_inode();
    root.create(&mut fs, "a").unwrap();
    assert_eq!(root.unlinkat(&mut fs, "zz"), -1);
    assert_eq!(root.ls(&fs), vec!["a".to_string()]);
}

#[test]
fn directory_stays_packed() {
    let mut fs = new_fs();
    let root = fs.root_inode();
    for i in 0..20 {
        root.create(&mut fs, &format!("file{}", i)).unwrap();
        assert_eq!(dir_size(&fs, &root) % DIRENT_SZ as u32, 0);
    }
    root.linkat(&mut fs, "file3", "again");
    assert_eq!(dir_size(&fs, &root) % DIRENT_SZ as u32, 0);
    for i in (0..20).step_by(3) {
        root.unlinkat(&mut fs, &format!("file{}", i));
        assert_eq!(dir_size(&fs, &root) % DIRENT_SZ as u32, 0);
    }
    assert_eq!(dir_size(&fs, &root) as usize, root.ls(&fs).len() * DIRENT_SZ);
    let disk = root.read_disk_inode(&fs);
    assert_eq!(disk.blocks.len() as u32, DiskInode::total_blocks(disk.size));
}

#[test]
fn find_gives_handle_on_created_inode() {
    let mut fs = new_fs();
    let root = fs.root_inode();
    let a = root.create(&mut fs, "a").unwrap();
    let found = root.find(&fs, "a").unwrap();
    assert_eq!(found.block_id, a.block_id);
    assert_eq!(found.block_offset, a.block_offset);
    assert_eq!(found.inode_id(&fs), 1);
    assert!(root.find(&fs, "missing").is_none());
    assert_eq!(root.find_inode_id("a", root.read_disk_inode(&fs)), Some(1));
    assert_eq!(root.find_inode_id("b", root.read_disk_inode(&fs)), None);
}

#[test]
fn inode_locations() {
    let fs = new_fs();
    assert_eq!(fs.get_disk_inode_pos(0), (1, 0));
    assert_eq!(fs.get_disk_inode_pos(5), (2, 128));
    assert_eq!(fs.get_disk_inode_pos(11), (3, 384));
    let h = Inode::of_id(&fs, 0);
    assert_eq!((h.block_id, h.block_offset), (1, 0));
    assert!(fs.root_inode().read_disk_inode(&fs).is_dir());
}

#[test]
fn clear_empties_file_and_frees_blocks() {
    let mut fs = new_fs();
    let root = fs.root_inode();
    let f = root.create(&mut fs, "f").unwrap();
    let before = fs.free_blocks.len();
    f.write_at(&mut fs, 0, &vec![3u8; 2000]);
    assert_eq!(fs.free_blocks.len(), before - 4);
    f.clear(&mut fs);
    assert_eq!(fs.free_blocks.len(), before);
    assert_eq!(f.read_disk_inode(&fs).size, 0);
    let mut buf = vec![0u8; 4];
    assert_eq!(f.read_at(&fs, 0, &mut buf), 0);
}

#[test]
fn total_blocks_counts_index_blocks() {
    assert_eq!(DiskInode::total_blocks(0), 0);
    assert_eq!(DiskInode::total_blocks(1), 1);
    assert_eq!(DiskInode::total_blocks(512), 1);
    assert_eq!(DiskInode::total_blocks(513), 2);
    assert_eq!(DiskInode::total_blocks(28 * 512), 28);
    assert_eq!(DiskInode::total_blocks(28 * 512 + 1), 30);
    assert_eq!(DiskInode::total_blocks(156 * 512), 157);
    assert_eq!(DiskInode::total_blocks(156 * 512 + 1), 160);
    assert_eq!(DiskInode::total_blocks(284 * 512), 287);
    assert_eq!(DiskInode::total_blocks(284 * 512 + 1), 289);
    assert_eq!(DiskInode::data_blocks(1025), 3);
}

#[test]
fn blocks_needed_only_for_growth() {
    let mut d = DiskInode::empty(DiskInodeType::File);
    assert_eq!(d.blocks_num_needed(0), 0);
    assert_eq!(d.blocks_num_needed(600), 2);
    d.increase_size(600, vec![1, 2]);
    assert_eq!(d.size, 600);
    assert_eq!(d.blocks_num_needed(100), 0);
    assert_eq!(d.blocks_num_needed(1024), 0);
    assert_eq!(d.blocks_num_needed(1025), 1);
    assert_eq!(d.clear_size(), vec![1, 2]);
}

#[test]
fn modify_entry_removes_first_match() {
    let fs = new_fs();
    let root = fs.root_inode();
    let mut empty = DiskInode::empty(DiskInodeType::Directory);
    empty.initialize(DiskInodeType::Directory);
    assert_eq!(empty.nlinks, 1);
    let freed = root.modify_entry("nothing", &mut empty);
    assert!(freed.is_empty());
    assert_eq!(empty.size, 0);
    let mut dir = DiskInode::empty(DiskInodeType::Directory);
    dir.append_entry(easy_fs::layout::DirEntry::new("p", 1), vec![42]);
    dir.append_entry(easy_fs::layout::DirEntry::new("q", 2), vec![]);
    assert!(root.modify_entry("r", &mut dir).is_empty());
    assert_eq!(dir.size, 2 * DIRENT_SZ as u32);
    let freed = root.modify_entry("p", &mut dir);
    assert!(freed.is_empty());
    assert_eq!(dir.size, DIRENT_SZ as u32);
    assert_eq!(dir.entries[0].name(), "q");
    assert_eq!(dir.entries[0].inode_id(), 2);
    let freed = root.modify_entry("q", &mut dir);
    assert_eq!(freed, vec![42]);
    assert_eq!(dir.size, 0);
}

#[test]
fn modify_disk_inode_reaches_the_record() {
    let mut fs = new_fs();
    let root = fs.root_inode();
    let a = root.create(&mut fs, "a").unwrap();
    a.modify_disk_inode(&mut fs).nlinks = 5;
    assert_eq!(root.state(&fs, 1), (5, true));
    assert_eq!(root.modify_disk_inode(&mut fs).size, DIRENT_SZ as u32);
}

#[test]
fn no_block_is_held_twice() {
    let mut fs = new_fs();
    let root = fs.root_inode();
    let total = fs.free_blocks.len();
    let a = root.create(&mut fs, "a").unwrap();
    let b = root.create(&mut fs, "b").unwrap();
    a.write_at(&mut fs, 0, &vec![1u8; 20000]);
    b.write_at(&mut fs, 0, &vec![2u8; 3000]);
    root.linkat(&mut fs, "b", "c");
    root.unlinkat(&mut fs, "a");
    b.clear(&mut fs);
    b.write_at(&mut fs, 100, &vec![3u8; 700]);
    let mut all: Vec<u32> = fs.free_blocks.clone();
    for inode in fs.inodes.iter() {
        all.extend(inode.blocks.iter().copied());
    }
    assert_eq!(all.len(), total);
    all.sort();
    all.dedup();
    assert_eq!(all.len(), total);
}
