use easy_fs::efs::EasyFileSystem;
use easy_fs::process::{
    sys_get_time, sys_mmap, sys_munmap, sys_sbrk, sys_task_info, MemorySet, ProgramBreak, TaskInfo,
    TaskStatus, TimeVal,
    MAX_SYSCALL_NUM, PERM_R, PERM_U, PERM_W, PERM_X,
};
use easy_fs::syscall::{
    open_file, sys_close, sys_fstat, sys_linkat, sys_open, sys_read, sys_unlinkat, sys_write,
    OpenFlags, Stat, StatMode, TaskFiles, CREATE, RDONLY, RDWR, TRUNC, WRONLY,
};

fn new_fs() -> EasyFileSystem {
    EasyFileSystem::create(2, 32, (200u32..5000).collect())
}

#[test]
fn open_write_close_reopen_read() {
    let mut fs = new_fs();
    let mut task = TaskFiles::new();
    let fd = sys_open(&mut fs, &mut task, "notes", CREATE | WRONLY);
    assert_eq!(fd, 0);
    assert_eq!(sys_write(&mut fs, &mut task, 0, b"abc"), 3);
    assert_eq!(sys_write(&mut fs, &mut task, 0, b"def"), 3);
    assert_eq!(sys_close(&mut task, 0), 0);
    assert_eq!(sys_close(&mut task, 0), -1);
    let fd = sys_open(&mut fs, &mut task, "notes", RDONLY);
    assert_eq!(fd, 0);
    let mut buf = vec![0u8; 4];
    assert_eq!(sys_read(&fs, &mut task, 0, &mut buf), 4);
    assert_eq!(&buf, b"abcd");
    assert_eq!(sys_read(&fs, &mut task, 0, &mut buf), 2);
    assert_eq!(&buf[..2], b"ef");
    assert_eq!(sys_read(&fs, &mut task, 0, &mut buf), 0);
}

#[test]
fn access_rights_are_checked() {
    let mut fs = new_fs();
    let mut task = TaskFiles::new();
    assert_eq!(sys_open(&mut fs, &mut task, "f", CREATE | WRONLY), 0);
    assert_eq!(sys_open(&mut fs, &mut task, "f", RDONLY), 1);
    assert_eq!(sys_open(&mut fs, &mut task, "f", RDWR), 2);
    let mut buf = vec![0u8; 2];
    assert_eq!(sys_read(&fs, &mut task, 0, &mut buf), -1);
    assert_eq!(sys_write(&mut fs, &mut task, 1, b"x"), -1);
    assert_eq!(sys_write(&mut fs, &mut task, 2, b"xy"), 2);
    assert_eq!(sys_read(&fs, &mut task, 1, &mut buf), 2);
    assert_eq!(&buf, b"xy");
    assert_eq!(sys_write(&mut fs, &mut task, 7, b"x"), -1);
    assert_eq!(sys_read(&fs, &mut task, 7, &mut buf), -1);
    assert_eq!(sys_close(&mut task, 7), -1);
}

#[test]
fn open_missing_without_create_fails() {
    let mut fs = new_fs();
    let mut task = TaskFiles::new();
    assert_eq!(sys_open(&mut fs, &mut task, "nope", RDONLY), -1);
    assert_eq!(sys_open(&mut fs, &mut task, "nope", TRUNC | RDWR), -1);
    assert!(task.fd_table.is_empty());
    assert_eq!(fs.inodes.len(), 1);
}

#[test]
fn closed_descriptor_is_reused() {
    let mut fs = new_fs();
    let mut task = TaskFiles::new();
    for name in ["a", "b", "c"] {
        sys_open(&mut fs, &mut task, name, CREATE | RDWR);
    }
    assert_eq!(sys_close(&mut task, 1), 0);
    assert_eq!(sys_open(&mut fs, &mut task, "d", CREATE | RDWR), 1);
    assert_eq!(sys_open(&mut fs, &mut task, "e", CREATE | RDWR), 3);
}

#[test]
fn create_and_trunc_empty_existing_file() {
    let mut fs = new_fs();
    let mut task = TaskFiles::new();
    sys_open(&mut fs, &mut task, "f", CREATE | WRONLY);
    sys_write(&mut fs, &mut task, 0, b"hello");
    assert_eq!(sys_open(&mut fs, &mut task, "f", RDONLY), 1);
    let mut buf = vec![0u8; 8];
    assert_eq!(sys_read(&fs, &mut task, 1, &mut buf), 5);
    assert_eq!(sys_open(&mut fs, &mut task, "f", TRUNC | RDONLY), 2);
    assert_eq!(sys_read(&fs, &mut task, 2, &mut buf), 0);
    sys_write(&mut fs, &mut task, 0, b"more");
    assert_eq!(sys_open(&mut fs, &mut task, "f", CREATE | RDONLY), 3);
    assert_eq!(sys_read(&fs, &mut task, 3, &mut buf), 0);
    assert_eq!(fs.inodes.len(), 2);
}

#[test]
fn link_unlink_and_fstat() {
    let mut fs = new_fs();
    let mut task = TaskFiles::new();
    let fd = sys_open(&mut fs, &mut task, "a", CREATE | RDWR) as usize;
    let mut st = Stat { dev: 9, ino: 9, mode: StatMode::Null, nlink: 9 };
    assert_eq!(sys_fstat(&fs, &task, fd, &mut st), 0);
    assert_eq!((st.dev, st.ino, st.mode, st.nlink), (0, 1, StatMode::File, 1));
    assert_eq!(sys_linkat(&mut fs, "a", "a"), -1);
    assert_eq!(sys_linkat(&mut fs, "a", "b"), 0);
    sys_fstat(&fs, &task, fd, &mut st);
    assert_eq!(st.nlink, 2);
    assert_eq!(sys_unlinkat(&mut fs, "a"), 0);
    assert_eq!(sys_unlinkat(&mut fs, "a"), -1);
    sys_fstat(&fs, &task, fd, &mut st);
    assert_eq!(st.nlink, 1);
    assert_eq!(fs.root_inode().ls(&fs), vec!["b".to_string()]);
}

#[test]
fn open_flags_decode() {
    assert!(OpenFlags::from_bits(4).is_none());
    assert!(OpenFlags::from_bits(CREATE | TRUNC | RDWR | WRONLY).is_some());
    assert_eq!(OpenFlags::from_bits(RDONLY).unwrap().read_write(), (true, false));
    assert_eq!(OpenFlags::from_bits(WRONLY).unwrap().read_write(), (false, true));
    assert_eq!(OpenFlags::from_bits(RDWR).unwrap().read_write(), (true, true));
    let f = OpenFlags::from_bits(CREATE | RDWR).unwrap();
    assert!(f.creates() && !f.truncates());
    let mut fs = new_fs();
    let g = open_file(&mut fs, "x", f).unwrap();
    assert_eq!((g.readable, g.writable, g.offset), (true, true, 0));
    assert!(open_file(&mut fs, "y", OpenFlags::from_bits(RDONLY).unwrap()).is_none());
}

#[test]
fn get_time_splits_microseconds() {
    let mut ts = TimeVal { sec: 0, usec: 0 };
    assert_eq!(sys_get_time(3_250_000, &mut ts), 0);
    assert_eq!((ts.sec, ts.usec), (3, 250_000));
    sys_get_time(999_999, &mut ts);
    assert_eq!((ts.sec, ts.usec), (0, 999_999));
}

#[test]
fn task_info_reports_counts_and_time() {
    let mut times = [0u32; MAX_SYSCALL_NUM];
    times[64] = 3;
    times[169] = 1;
    let mut ti = TaskInfo { status: TaskStatus::UnInit, syscall_times: [0; MAX_SYSCALL_NUM], time: 0 };
    assert_eq!(sys_task_info(1500, 1000, &times, &mut ti), 0);
    assert_eq!(ti.status, TaskStatus::Running);
    assert_eq!(ti.time, 500);
    assert_eq!(ti.syscall_times[64], 3);
    assert_eq!(ti.syscall_times[169], 1);
    assert_eq!(ti.syscall_times[0], 0);
}

#[test]
fn mmap_checks_port_alignment_and_overlap() {
    let mut ms = MemorySet::new();
    assert_eq!(sys_mmap(&mut ms, 0x10000, 4096, 0), -1);
    assert_eq!(sys_mmap(&mut ms, 0x10000, 4096, 8), -1);
    assert_eq!(sys_mmap(&mut ms, 0x10001, 4096, 1), -1);
    assert!(ms.areas.is_empty());
    assert_eq!(sys_mmap(&mut ms, 0x10000, 5000, 3), 0);
    assert_eq!(ms.areas[0].start_vpn, 0x10);
    assert_eq!(ms.areas[0].end_vpn, 0x12);
    assert_eq!(ms.areas[0].perm, PERM_U | PERM_R | PERM_W);
    assert_eq!(sys_mmap(&mut ms, 0x11000, 4096, 4), -1);
    assert_eq!(sys_mmap(&mut ms, 0x12000, 4096, 4), 0);
    assert_eq!(ms.areas[1].perm, PERM_U | PERM_X);
    assert_eq!(sys_munmap(&mut ms, 0x10000, 4096), -1);
    assert_eq!(sys_munmap(&mut ms, 0x10000, 8192), 0);
    assert_eq!(ms.areas.len(), 1);
    assert_eq!(sys_munmap(&mut ms, 0x10000, 8192), -1);
    assert_eq!(sys_munmap(&mut ms, 0x12001, 4095), -1);
}

#[test]
fn sbrk_moves_break_above_bottom() {
    let mut heap = ProgramBreak { heap_bottom: 0x8000, program_brk: 0x8000 };
    assert_eq!(sys_sbrk(&mut heap, 4096), 0x8000);
    assert_eq!(heap.program_brk, 0x9000);
    assert_eq!(sys_sbrk(&mut heap, -4097), -1);
    assert_eq!(heap.program_brk, 0x9000);
    assert_eq!(sys_sbrk(&mut heap, -4096), 0x9000);
    assert_eq!(heap.program_brk, 0x8000);
    assert_eq!(heap.change_program_brk(0), Some(0x8000));
}
