//! Process calls: time, task statistics and anonymous mappings.
use vstd::prelude::*;

verus! {

/// Number of distinct system calls that a task counts.
pub const MAX_SYSCALL_NUM: usize = 500;
/// Size in bytes of one page.
pub const PAGE_SIZE: usize = 4096;

/// A point in time as seconds and microseconds.
#[derive(Clone, Copy, Debug)]
pub struct TimeVal {
    pub sec: usize,
    pub usec: usize,
}

/// Life-cycle state of a task.
#[derive(PartialEq, Eq, Structural, Clone, Copy, Debug)]
pub enum TaskStatus {
    UnInit,
    Ready,
    Running,
    Exited,
}

/// Task information
pub struct TaskInfo {
    /// Task status in its life cycle
    pub status: TaskStatus,
    /// How many times the task made each system call
    pub syscall_times: [u32; MAX_SYSCALL_NUM],
    /// Milliseconds since the task first ran
    pub time: usize,
}

/// Fills `ts` with the time `us`, given in microseconds; returns 0.
pub fn sys_get_time(us: usize, ts: &mut TimeVal) -> (r: isize)
    ensures
        r == 0,
        final(ts).sec == us / 1_000_000,
        final(ts).usec == us % 1_000_000,
        final(ts).sec * 1_000_000 + final(ts).usec == us,
{
    *ts = TimeVal { sec: us / 1_000_000, usec: us % 1_000_000 };
    0
}

/// Fills `ti` for the running task that first ran at `start_ms`, at the time
/// `now_ms`, with its call counts `syscall_times`; returns 0.
pub fn sys_task_info(
    now_ms: usize,
    start_ms: usize,
    syscall_times: &[u32; MAX_SYSCALL_NUM],
    ti: &mut TaskInfo,
) -> (r: isize)
    requires
        start_ms <= now_ms,
    ensures
        r == 0,
        final(ti).status == TaskStatus::Running,
        final(ti).syscall_times@ == syscall_times@,
        final(ti).time == now_ms - start_ms,
{
    *ti = TaskInfo {
        status: TaskStatus::Running,
        syscall_times: *syscall_times,
        time: now_ms - start_ms,
    };
    0
}

/// Readable page.
pub const PERM_R: u8 = 2;
/// Writable page.
pub const PERM_W: u8 = 4;
/// Executable page.
pub const PERM_X: u8 = 8;
/// Page reachable from user mode.
pub const PERM_U: u8 = 16;

/// A run of mapped virtual pages `[start_vpn, end_vpn)` with one set of
/// permission bits.
#[derive(Clone, Copy)]
pub struct MapArea {
    pub start_vpn: usize,
    pub end_vpn: usize,
    pub perm: u8,
}

/// The page runs a task has mapped on demand.
pub struct MemorySet {
    pub areas: Vec<MapArea>,
}

/// Area `a` shares a page with `[s, e)`.
pub open spec fn overlaps(a: MapArea, s: int, e: int) -> bool {
    a.start_vpn < e && s < a.end_vpn
}

/// First page of the address `va`.
pub open spec fn floor_vpn(va: int) -> int {
    va / PAGE_SIZE as int
}

/// Page just past the address range ending at `va`.
pub open spec fn ceil_vpn(va: int) -> int {
    (va + PAGE_SIZE - 1) / PAGE_SIZE as int
}

/// Permission bits that `port` asks for: bit 0 read, bit 1 write, bit 2
/// execute; user access is always added.
pub open spec fn perm_of(port: usize) -> u8 {
    (PERM_U + (if port & 1 != 0 { PERM_R } else { 0 }) + (if port & 2 != 0 { PERM_W } else { 0 })
        + (if port & 4 != 0 { PERM_X } else { 0 })) as u8
}

impl MemorySet {
    /// A memory set with no mapped area.
    pub fn new() -> (r: MemorySet)
        ensures
            r.areas@.len() == 0,
    {
        MemorySet { areas: Vec::new() }
    }

    /// Maps the pages of `[start, end)` with `perm`; returns 0, or -1 when
    /// `start` is not page aligned or a page of the range is mapped already.
    pub fn mmp(&mut self, start: usize, end: usize, perm: u8) -> (r: isize)
        requires
            start <= end <= usize::MAX - PAGE_SIZE,
        ensures
            ({
                let s = floor_vpn(start as int);
                let e = ceil_vpn(end as int);
                let ok = start % PAGE_SIZE == 0 && forall|i: int|
                    0 <= i < old(self).areas@.len() ==> !overlaps(
                        #[trigger] old(self).areas@[i],
                        s,
                        e,
                    );
                &&& ok ==> r == 0 && final(self).areas@ == old(self).areas@.push(
                    MapArea { start_vpn: s as usize, end_vpn: e as usize, perm },
                )
                &&& !ok ==> r == -1 && final(self).areas@ == old(self).areas@
            }),
    {
        if start % PAGE_SIZE != 0 {
            return -1;
        }
        let s = start / PAGE_SIZE;
        let e = (end + PAGE_SIZE - 1) / PAGE_SIZE;
        let mut i: usize = 0;
        while i < self.areas.len()
            invariant
                i <= self.areas@.len(),
                self.areas@ == old(self).areas@,
                start % PAGE_SIZE == 0,
                s == floor_vpn(start as int),
                e == ceil_vpn(end as int),
                forall|j: int| 0 <= j < i ==> !overlaps(#[trigger] self.areas@[j], s as int, e as int),
            decreases self.areas@.len() - i,
        {
            let a = self.areas[i];
            if a.start_vpn < e && s < a.end_vpn {
                assert(overlaps(old(self).areas@[i as int], s as int, e as int));
                return -1;
            }
            i = i + 1;
        }
        self.areas.push(MapArea { start_vpn: s, end_vpn: e, perm });
        0
    }

    /// Unmaps the area that covers exactly the pages of `[start, end)`;
    /// returns 0, or -1 when `start` is not page aligned or no area matches.
    pub fn unmap(&mut self, start: usize, end: usize) -> (r: isize)
        requires
            start <= end <= usize::MAX - PAGE_SIZE,
        ensures
            ({
                let s = floor_vpn(start as int);
                let e = ceil_vpn(end as int);
                let found = exists|i: int|
                    0 <= i < old(self).areas@.len() && (#[trigger] old(self).areas@[i]).start_vpn
                        == s && old(self).areas@[i].end_vpn == e;
                &&& (start % PAGE_SIZE == 0 && found) ==> r == 0 && exists|i: int|
                    0 <= i < old(self).areas@.len() && old(self).areas@[i].start_vpn == s
                        && old(self).areas@[i].end_vpn == e && final(self).areas@ == old(
                        self).areas@.remove(i)
                &&& !(start % PAGE_SIZE == 0 && found) ==> r == -1 && final(self).areas@ == old(
                    self).areas@
            }),
    {
        if start % PAGE_SIZE != 0 {
            return -1;
        }
        let s = start / PAGE_SIZE;
        let e = (end + PAGE_SIZE - 1) / PAGE_SIZE;
        let mut i: usize = 0;
        while i < self.areas.len()
            invariant
                i <= self.areas@.len(),
                self.areas@ == old(self).areas@,
                start % PAGE_SIZE == 0,
                s == floor_vpn(start as int),
                e == ceil_vpn(end as int),
                forall|j: int|
                    0 <= j < i ==> !((#[trigger] self.areas@[j]).start_vpn == s
                        && self.areas@[j].end_vpn == e),
            decreases self.areas@.len() - i,
        {
            if self.areas[i].start_vpn == s && self.areas[i].end_vpn == e {
                let ghost k = i as int;
                self.areas.remove(i);
                assert(old(self).areas@[k].start_vpn == s && old(self).areas@[k].end_vpn == e);
                return 0;
            }
            i = i + 1;
        }
        -1
    }
}

/// Maps `len` bytes from `start` with the access that `port` gives; returns
/// 0, or -1 when `port` holds an unknown bit or no access bit, or when the
/// mapping is refused.
pub fn sys_mmap(ms: &mut MemorySet, start: usize, len: usize, port: usize) -> (r: isize)
    requires
        start + len <= usize::MAX - PAGE_SIZE,
    ensures
        (port & !7usize != 0 || port & 7 == 0) ==> r == -1 && final(ms).areas@ == old(ms).areas@,
        !(port & !7usize != 0 || port & 7 == 0) ==> {
            let s = floor_vpn(start as int);
            let e = ceil_vpn(start + len);
            let ok = start % PAGE_SIZE == 0 && forall|i: int|
                0 <= i < old(ms).areas@.len() ==> !overlaps(#[trigger] old(ms).areas@[i], s, e);
            &&& ok ==> r == 0 && final(ms).areas@ == old(ms).areas@.push(
                MapArea { start_vpn: s as usize, end_vpn: e as usize, perm: perm_of(port) },
            )
            &&& !ok ==> r == -1 && final(ms).areas@ == old(ms).areas@
        },
{
    if (port & !7usize != 0) || (port & 7 == 0) {
        return -1;
    }
    let mut permissions: u8 = PERM_U;
    if port & 1 != 0 {
        permissions = permissions + PERM_R;
    }
    if port & 2 != 0 {
        permissions = permissions + PERM_W;
    }
    if port & 4 != 0 {
        permissions = permissions + PERM_X;
    }
    ms.mmp(start, start + len, permissions)
}

/// Unmaps the `len` bytes mapped from `start`; returns 0, or -1 when they
/// are not one mapped area.
pub fn sys_munmap(ms: &mut MemorySet, start: usize, len: usize) -> (r: isize)
    requires
        start + len <= usize::MAX - PAGE_SIZE,
    ensures
        ({
            let s = floor_vpn(start as int);
            let e = ceil_vpn(start + len);
            let found = exists|i: int|
                0 <= i < old(ms).areas@.len() && (#[trigger] old(ms).areas@[i]).start_vpn == s
                    && old(ms).areas@[i].end_vpn == e;
            &&& (start % PAGE_SIZE == 0 && found) ==> r == 0 && exists|i: int|
                0 <= i < old(ms).areas@.len() && old(ms).areas@[i].start_vpn == s
                    && old(ms).areas@[i].end_vpn == e && final(ms).areas@ == old(ms).areas@.remove(i)
            &&& !(start % PAGE_SIZE == 0 && found) ==> r == -1 && final(ms).areas@ == old(
                ms).areas@
        }),
{
    ms.unmap(start, start + len)
}

/// The heap of a task: its fixed bottom and its current break.
pub struct ProgramBreak {
    pub heap_bottom: usize,
    pub program_brk: usize,
}

impl ProgramBreak {
    /// Moves the break by `size` bytes and returns the old break, or `None`
    /// without any change when the break would fall below the heap bottom.
    pub fn change_program_brk(&mut self, size: i32) -> (r: Option<usize>)
        requires
            old(self).heap_bottom <= isize::MAX,
            old(self).program_brk + size <= isize::MAX,
            old(self).program_brk <= isize::MAX,
        ensures
            old(self).program_brk + size < old(self).heap_bottom ==> r is None && *final(self)
                == *old(self),
            old(self).program_brk + size >= old(self).heap_bottom ==> r == Some(
                old(self).program_brk,
            ) && final(self).program_brk == old(self).program_brk + size && final(self).heap_bottom
                == old(self).heap_bottom,
    {
        let old_break = self.program_brk;
        let new_brk = self.program_brk as isize + size as isize;
        if new_brk < self.heap_bottom as isize {
            return None;
        }
        self.program_brk = new_brk as usize;
        Some(old_break)
    }
}

/// Moves the heap break of a task by `size` bytes; returns the old break, or
/// -1 when the break would fall below the heap bottom.
pub fn sys_sbrk(heap: &mut ProgramBreak, size: i32) -> (r: isize)
    requires
        old(heap).heap_bottom <= isize::MAX,
        old(heap).program_brk + size <= isize::MAX,
        old(heap).program_brk <= isize::MAX,
    ensures
        old(heap).program_brk + size < old(heap).heap_bottom ==> r == -1 && *final(heap) == *old(
        heap),
        old(heap).program_brk + size >= old(heap).heap_bottom ==> r == old(heap).program_brk
            && final(heap).program_brk == old(heap).program_brk + size,
{
    if let Some(old_brk) = heap.change_program_brk(size) {
        old_brk as isize
    } else {
        -1
    }
}

} // verus!
