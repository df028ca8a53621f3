//! POSIX-style syscall stubs over an in-memory file store.

use vstd::prelude::*;
use crate::core_types::LuCastraError;
use crate::strutil::{str_eq, u64_to_dec, spec_dec_digits};

verus! {

/// One open descriptor: the path it names, its open flags, and the file
/// offset.
pub struct FileDescriptor {
    pub path: String,
    pub flags: i32,
    pub offset: u64,
}

/// A descriptor entry by number, as a spec value.
pub type FdEntry = (i32, FileDescriptor);

pub open spec fn spec_contains_fd(s: Seq<FdEntry>, fd: i32) -> bool {
    exists|i: int| 0 <= i < s.len() && (#[trigger] s[i]).0 == fd
}

pub open spec fn spec_fd_index(s: Seq<FdEntry>, fd: i32) -> int {
    choose|i: int| 0 <= i < s.len() && (#[trigger] s[i]).0 == fd
}

pub open spec fn spec_unique_fds(s: Seq<FdEntry>) -> bool {
    forall|i: int, j: int| 0 <= i < j < s.len() ==> (#[trigger] s[i]).0 != (#[trigger] s[j]).0
}

/// Insert or replace the descriptor numbered `fd`.
pub open spec fn spec_fd_upsert(s: Seq<FdEntry>, fd: i32, d: FileDescriptor) -> Seq<FdEntry> {
    if spec_contains_fd(s, fd) {
        s.update(spec_fd_index(s, fd), (fd, d))
    } else {
        s.push((fd, d))
    }
}

/// The descriptor numbered `fd`, if open.
pub open spec fn spec_fd_lookup(s: Seq<FdEntry>, fd: i32) -> Option<FileDescriptor> {
    if spec_contains_fd(s, fd) {
        Some(s[spec_fd_index(s, fd)].1)
    } else {
        None
    }
}

/// The table after closing `fd`.
pub open spec fn spec_fd_remove(s: Seq<FdEntry>, fd: i32) -> Seq<FdEntry> {
    if spec_contains_fd(s, fd) {
        s.remove(spec_fd_index(s, fd))
    } else {
        s
    }
}

/// Per-process descriptor table, with 0, 1 and 2 preopened.
pub struct FileDescriptorTable {
    fds: Vec<(i32, FileDescriptor)>,
    next_fd: i32,
}

impl FileDescriptorTable {
    pub closed spec fn spec_fds(&self) -> Seq<FdEntry> {
        self.fds@
    }

    pub closed spec fn spec_next_fd(&self) -> i32 {
        self.next_fd
    }

    pub open spec fn wf(&self) -> bool {
        spec_unique_fds(self.spec_fds())
    }

    pub fn new() -> (r: FileDescriptorTable)
        ensures
            r.wf(),
            r.spec_fds().len() == 3,
            r.spec_next_fd() == 3,
            r.spec_fds()[0].0 == 0 && r.spec_fds()[0].1.path@ == "stdin"@
                && r.spec_fds()[0].1.flags == 0 && r.spec_fds()[0].1.offset == 0,
            r.spec_fds()[1].0 == 1 && r.spec_fds()[1].1.path@ == "stdout"@
                && r.spec_fds()[1].1.flags == 1 && r.spec_fds()[1].1.offset == 0,
            r.spec_fds()[2].0 == 2 && r.spec_fds()[2].1.path@ == "stderr"@
                && r.spec_fds()[2].1.flags == 1 && r.spec_fds()[2].1.offset == 0,
    {
        let mut fds: Vec<(i32, FileDescriptor)> = Vec::new();
        fds.push((0, FileDescriptor { path: "stdin".to_owned(), flags: 0, offset: 0 }));
        fds.push((1, FileDescriptor { path: "stdout".to_owned(), flags: 1, offset: 0 }));
        fds.push((2, FileDescriptor { path: "stderr".to_owned(), flags: 1, offset: 0 }));
        FileDescriptorTable { fds, next_fd: 3 }
    }

    /// The position of descriptor `fd`, if open.
    fn position_of(&self, fd: i32) -> (r: Option<usize>)
        ensures
            (match r {
                Some(i) => i < self.spec_fds().len() && self.spec_fds()[i as int].0 == fd,
                None => !spec_contains_fd(self.spec_fds(), fd),
            }),
    {
        let mut i: usize = 0;
        while i < self.fds.len()
            invariant
                i <= self.fds@.len(),
                forall|j: int| 0 <= j < i ==> (#[trigger] self.fds@[j]).0 != fd,
            decreases self.fds@.len() - i,
        {
            if self.fds[i].0 == fd {
                return Some(i);
            }
            i += 1;
        }
        None
    }

    /// Opens `path`, assigning the next descriptor number; the number
    /// counter wraps at its maximum, replacing any still-open descriptor
    /// with the reused number.
    pub fn open(&mut self, path: &str, flags: i32) -> (r: i32)
        requires
            old(self).wf(),
        ensures
            final(self).wf(),
            r == old(self).spec_next_fd(),
            exists|d: FileDescriptor|
                d.path@ == path@ && d.flags == flags && d.offset == 0 && final(self).spec_fds()
                    == spec_fd_upsert(old(self).spec_fds(), old(self).spec_next_fd(), d),
            final(self).spec_next_fd() == vstd::wrapping::i32_specs::wrapping_add(
                old(self).spec_next_fd(),
                1,
            ),
    {
        let fd = self.next_fd;
        let desc = FileDescriptor { path: path.to_owned(), flags, offset: 0 };
        let ghost gd = desc;
        self.upsert(fd, desc);
        self.next_fd = self.next_fd.wrapping_add(1);
        proof {
            assert(gd.path@ == path@ && gd.flags == flags && gd.offset == 0);
        }
        fd
    }

    /// Inserts or replaces the entry for `fd`.
    fn upsert(&mut self, fd: i32, desc: FileDescriptor)
        requires
            old(self).wf(),
        ensures
            final(self).wf(),
            final(self).spec_fds() == spec_fd_upsert(old(self).spec_fds(), fd, desc),
            final(self).spec_next_fd() == old(self).spec_next_fd(),
    {
        let ghost s = self.spec_fds();
        match self.position_of(fd) {
            Some(i) => {
                proof {
                    assert(s[i as int].0 == fd);
                    assert(spec_contains_fd(s, fd));
                    let w = spec_fd_index(s, fd);
                    assert(0 <= w < s.len() && s[w].0 == fd);
                    if w < i as int {
                        assert(s[w].0 != s[i as int].0);
                    }
                    if (i as int) < w {
                        assert(s[i as int].0 != s[w].0);
                    }
                    assert(w == i as int);
                }
                self.fds[i] = (fd, desc);
                proof {
                    assert(self.spec_fds() =~= s.update(i as int, (fd, desc)));
                    let s2 = self.spec_fds();
                    assert(forall|x: int| 0 <= x < s2.len() ==> (#[trigger] s2[x]).0 == s[x].0);
                    assert(spec_unique_fds(s2));
                }
            },
            None => {
                self.fds.push((fd, desc));
                proof {
                    assert(self.spec_fds() =~= s.push((fd, desc)));
                    let s2 = self.spec_fds();
                    assert forall|a: int, b: int| 0 <= a < b < s2.len() implies (
                    #[trigger] s2[a]).0 != (#[trigger] s2[b]).0 by {
                        if b < s.len() {
                            assert(s[a].0 != s[b].0);
                        } else {
                            if s[a].0 == fd {
                                assert(spec_contains_fd(s, fd));
                            }
                        }
                    }
                }
            },
        }
    }

    /// Closes `fd`; true iff it was open.
    pub fn close(&mut self, fd: i32) -> (r: bool)
        requires
            old(self).wf(),
        ensures
            final(self).wf(),
            r == spec_contains_fd(old(self).spec_fds(), fd),
            final(self).spec_fds() == spec_fd_remove(old(self).spec_fds(), fd),
            final(self).spec_next_fd() == old(self).spec_next_fd(),
    {
        let ghost s = self.spec_fds();
        match self.position_of(fd) {
            Some(i) => {
                proof {
                    assert(s[i as int].0 == fd);
                    assert(spec_contains_fd(s, fd));
                    let w = spec_fd_index(s, fd);
                    assert(0 <= w < s.len() && s[w].0 == fd);
                    if w < i as int {
                        assert(s[w].0 != s[i as int].0);
                    }
                    if (i as int) < w {
                        assert(s[i as int].0 != s[w].0);
                    }
                    assert(w == i as int);
                }
                self.fds.remove(i);
                proof {
                    let s2 = self.spec_fds();
                    assert(s2 == s.remove(i as int));
                    assert forall|a: int, b: int| 0 <= a < b < s2.len() implies (
                    #[trigger] s2[a]).0 != (#[trigger] s2[b]).0 by {
                        let a0: int = if a < i as int {
                            a
                        } else {
                            a + 1
                        };
                        let b0: int = if b < i as int {
                            b
                        } else {
                            b + 1
                        };
                        assert(s2[a] == s[a0] && s2[b] == s[b0]);
                        assert(s[a0].0 != s[b0].0);
                    }
                }
                true
            },
            None => {
                false
            },
        }
    }

    /// The descriptor numbered `fd`, if open.
    pub fn get(&self, fd: i32) -> (r: Option<&FileDescriptor>)
        requires
            self.wf(),
        ensures
            (match r {
                Some(d) => spec_fd_lookup(self.spec_fds(), fd) == Some(*d),
                None => spec_fd_lookup(self.spec_fds(), fd) is None,
            }),
    {
        let ghost s = self.spec_fds();
        match self.position_of(fd) {
            Some(i) => {
                proof {
                    assert(s[i as int].0 == fd);
                    assert(spec_contains_fd(s, fd));
                    let w = spec_fd_index(s, fd);
                    assert(0 <= w < s.len() && s[w].0 == fd);
                    if w < i as int {
                        assert(s[w].0 != s[i as int].0);
                    }
                    if (i as int) < w {
                        assert(s[i as int].0 != s[w].0);
                    }
                    assert(w == i as int);
                }
                Some(&self.fds[i].1)
            },
            None => None,
        }
    }

    /// Reopens the descriptor under a fresh number; `None` if `fd` is not
    /// open.
    pub fn dup(&mut self, fd: i32) -> (r: Option<i32>)
        requires
            old(self).wf(),
        ensures
            final(self).wf(),
            (match spec_fd_lookup(old(self).spec_fds(), fd) {
                Some(d0) => r == Some(old(self).spec_next_fd()) && final(self).spec_next_fd()
                    == vstd::wrapping::i32_specs::wrapping_add(old(self).spec_next_fd(), 1)
                    && exists|d: FileDescriptor|
                    d.path@ == d0.path@ && d.flags == d0.flags && d.offset == d0.offset
                        && final(self).spec_fds() == spec_fd_upsert(
                        old(self).spec_fds(),
                        old(self).spec_next_fd(),
                        d,
                    ),
                None => r is None && *final(self) == *old(self),
            }),
    {
        let ghost s = self.spec_fds();
        match self.position_of(fd) {
            Some(i) => {
                proof {
                    assert(s[i as int].0 == fd);
                    assert(spec_contains_fd(s, fd));
                    let w = spec_fd_index(s, fd);
                    assert(0 <= w < s.len() && s[w].0 == fd);
                    if w < i as int {
                        assert(s[w].0 != s[i as int].0);
                    }
                    if (i as int) < w {
                        assert(s[i as int].0 != s[w].0);
                    }
                    assert(w == i as int);
                }
                let new_fd = self.next_fd;
                let p = self.fds[i].1.path.clone();
                let desc = FileDescriptor {
                    path: p,
                    flags: self.fds[i].1.flags,
                    offset: self.fds[i].1.offset,
                };
                proof {
                    assert(desc.path@ == s[i as int].1.path@);
                }
                self.upsert(new_fd, desc);
                self.next_fd = self.next_fd.wrapping_add(1);
                proof {
                    let d0 = spec_fd_lookup(s, fd)->0;
                    assert(desc.path@ == d0.path@ && desc.flags == d0.flags && desc.offset
                        == d0.offset);
                }
                Some(new_fd)
            },
            None => None,
        }
    }
}

/// The argument at position `i`, or zero as the stubs default missing
/// arguments.
pub open spec fn spec_arg(args: Seq<u64>, i: int) -> u64 {
    if 0 <= i < args.len() {
        args[i]
    } else {
        0
    }
}

/// The low 32 bits of `x`, reinterpreted as a signed descriptor number.
pub open spec fn spec_u64_i32(x: u64) -> i32 {
    let low = x & 0xffff_ffff;
    if low >= 0x8000_0000 {
        (low - 0x1_0000_0000) as i32
    } else {
        low as i32
    }
}

/// The bits of `x` as a signed 64-bit result.
pub open spec fn spec_u64_i64(x: u64) -> i64 {
    if x > 0x7fff_ffff_ffff_ffff {
        (x - 0x1_0000_0000_0000_0000) as i64
    } else {
        x as i64
    }
}

fn u64_to_i32(x: u64) -> (r: i32)
    ensures
        r == spec_u64_i32(x),
{
    let low: u64 = x & 0xffff_ffff;
    assert(low <= 0xffff_ffff) by (bit_vector)
        requires
            low == x & 0xffff_ffff,
    ;
    if low >= 0x8000_0000 {
        ((low as i64) - 0x1_0000_0000i64) as i32
    } else {
        low as i32
    }
}

fn u64_to_i64(x: u64) -> (r: i64)
    ensures
        r == spec_u64_i64(x),
{
    if x > 0x7fff_ffff_ffff_ffff {
        ((x as i128) - 0x1_0000_0000_0000_0000i128) as i64
    } else {
        x as i64
    }
}

/// A stored file by path, as a spec value.
pub type FileEntryData = (Seq<char>, Seq<u8>);

pub open spec fn spec_contains_file(s: Seq<FileEntryData>, p: Seq<char>) -> bool {
    exists|i: int| 0 <= i < s.len() && (#[trigger] s[i]).0 == p
}

pub open spec fn spec_file_index(s: Seq<FileEntryData>, p: Seq<char>) -> int {
    choose|i: int| 0 <= i < s.len() && (#[trigger] s[i]).0 == p
}

pub open spec fn spec_unique_files(s: Seq<FileEntryData>) -> bool {
    forall|i: int, j: int| 0 <= i < j < s.len() ==> (#[trigger] s[i]).0 != (#[trigger] s[j]).0
}

/// Store or replace the data held for a path.
pub open spec fn spec_file_upsert(s: Seq<FileEntryData>, p: Seq<char>, d: Seq<u8>) -> Seq<
    FileEntryData,
> {
    if spec_contains_file(s, p) {
        s.update(spec_file_index(s, p), (p, d))
    } else {
        s.push((p, d))
    }
}

/// Syscall dispatcher over the descriptor table and an in-memory file
/// store.
pub struct SyscallHandler {
    fd_table: FileDescriptorTable,
    file_data: Vec<(String, Vec<u8>)>,
}

impl SyscallHandler {
    pub closed spec fn spec_table(&self) -> Seq<FdEntry> {
        self.fd_table.spec_fds()
    }

    pub closed spec fn spec_next_fd(&self) -> i32 {
        self.fd_table.spec_next_fd()
    }

    pub closed spec fn spec_files(&self) -> Seq<FileEntryData> {
        self.file_data@.map_values(|p: (String, Vec<u8>)| (p.0@, p.1@))
    }

    pub open spec fn wf(&self) -> bool {
        &&& spec_unique_fds(self.spec_table())
        &&& spec_unique_files(self.spec_files())
    }

    pub fn new() -> (r: SyscallHandler)
        ensures
            r.wf(),
            r.spec_table().len() == 3,
            r.spec_next_fd() == 3,
            r.spec_files().len() == 0,
    {
        let r = SyscallHandler { fd_table: FileDescriptorTable::new(), file_data: Vec::new() };
        proof {
            assert(r.spec_files() =~= Seq::<FileEntryData>::empty());
        }
        r
    }

    /// Stores file data for the read stubs, replacing any data held for
    /// the path.
    pub fn write_file(&mut self, path: &str, data: Vec<u8>)
        requires
            old(self).wf(),
        ensures
            final(self).wf(),
            final(self).spec_files() == spec_file_upsert(old(self).spec_files(), path@, data@),
            final(self).spec_table() == old(self).spec_table(),
            final(self).spec_next_fd() == old(self).spec_next_fd(),
    {
        let ghost s = self.spec_files();
        let pos = self.file_index_of(path);
        match pos {
            Some(i2) => {
                proof {
                    assert(spec_contains_file(s, path@));
                    let w = spec_file_index(s, path@);
                    assert(0 <= w < s.len() && s[w].0 == path@);
                    if w < i2 as int {
                        assert(s[w].0 != s[i2 as int].0);
                    }
                    if (i2 as int) < w {
                        assert(s[i2 as int].0 != s[w].0);
                    }
                    assert(w == i2 as int);
                }
                let p = path.to_owned();
                self.file_data[i2] = (p, data);
                proof {
                    assert(self.spec_files() =~= s.update(i2 as int, (path@, data@)));
                    let s2 = self.spec_files();
                    assert(forall|x: int| 0 <= x < s2.len() ==> (#[trigger] s2[x]).0 == s[x].0);
                    assert(spec_unique_files(s2));
                }
            },
            None => {
                let p = path.to_owned();
                self.file_data.push((p, data));
                proof {
                    assert(self.spec_files() =~= s.push((path@, data@)));
                    let s2 = self.spec_files();
                    assert forall|a: int, b: int| 0 <= a < b < s2.len() implies (
                    #[trigger] s2[a]).0 != (#[trigger] s2[b]).0 by {
                        if b < s.len() {
                            assert(s[a].0 != s[b].0);
                        } else {
                            if s[a].0 == path@ {
                                assert(spec_contains_file(s, path@));
                            }
                        }
                    }
                }
            },
        }
    }

    /// The position in the file store of `path`, if stored.
    fn file_index_of(&self, path: &str) -> (r: Option<usize>)
        ensures
            (match r {
                Some(i) => i < self.file_data@.len() && self.spec_files()[i as int].0 == path@,
                None => !spec_contains_file(self.spec_files(), path@),
            }),
    {
        let ghost s = self.spec_files();
        let mut i: usize = 0;
        while i < self.file_data.len()
            invariant
                i <= self.file_data@.len(),
                s == self.spec_files(),
                forall|j: int| 0 <= j < i ==> (#[trigger] s[j]).0 != path@,
            decreases self.file_data@.len() - i,
        {
            if str_eq(self.file_data[i].0.as_str(), path) {
                proof {
                    assert(s[i as int].0 == path@);
                }
                return Some(i);
            }
            i += 1;
        }
        None
    }

    /// Opens a file under a registered path directly.
    pub fn open_file(&mut self, path: &str, flags: i32) -> (r: i32)
        requires
            old(self).wf(),
        ensures
            final(self).wf(),
            r == old(self).spec_next_fd(),
            exists|d: FileDescriptor|
                d.path@ == path@ && d.flags == flags && d.offset == 0 && final(self).spec_table()
                    == spec_fd_upsert(old(self).spec_table(), old(self).spec_next_fd(), d),
            final(self).spec_next_fd() == vstd::wrapping::i32_specs::wrapping_add(
                old(self).spec_next_fd(),
                1,
            ),
            final(self).spec_files() == old(self).spec_files(),
    {
        let ghost t0 = self.fd_table.spec_fds();
        let ghost f0 = self.fd_table.spec_next_fd();
        let r = self.fd_table.open(path, flags);
        proof {
            let d = choose|d: FileDescriptor|
                d.path@ == path@ && d.flags == flags && d.offset == 0
                    && self.fd_table.spec_fds() == spec_fd_upsert(t0, f0, d);
            assert(d.path@ == path@ && d.flags == flags && d.offset == 0 && self.spec_table()
                == spec_fd_upsert(t0, f0, d));
        }
        r
    }

    /// Dispatches one syscall by number.  The stubs never fail: every
    /// branch reports its result in the `Ok` value, with POSIX-style
    /// negative codes for bad descriptors (-9) and unknown numbers (-38).
    /// The open stub names its file after the raw pointer argument; read
    /// and lseek move the descriptor offset; write, ioctl, exit, mmap and
    /// brk touch nothing.
    pub fn handle_syscall(&mut self, syscall_num: u64, args: &[u64]) -> (r: Result<
        i64,
        LuCastraError,
    >)
        requires
            old(self).wf(),
        ensures
            final(self).wf(),
            r.is_ok(),
            final(self).spec_files() == old(self).spec_files(),
            (match syscall_num {
                2u64 => {
                    &&& r == Ok::<i64, LuCastraError>(old(self).spec_next_fd() as i64)
                    &&& exists|d: FileDescriptor|
                        d.path@ == "/path/"@ + spec_dec_digits(spec_arg(args@, 0) as int)
                            && d.flags == spec_u64_i32(spec_arg(args@, 1)) && d.offset == 0
                            && final(self).spec_table() == spec_fd_upsert(
                            old(self).spec_table(),
                            old(self).spec_next_fd(),
                            d,
                        )
                    &&& final(self).spec_next_fd() == vstd::wrapping::i32_specs::wrapping_add(
                        old(self).spec_next_fd(),
                        1,
                    )
                },
                3u64 => {
                    let fd = spec_u64_i32(spec_arg(args@, 0));
                    &&& r == Ok::<i64, LuCastraError>(
                        if spec_contains_fd(old(self).spec_table(), fd) {
                            0i64
                        } else {
                            -9i64
                        },
                    )
                    &&& final(self).spec_table() == spec_fd_remove(old(self).spec_table(), fd)
                    &&& final(self).spec_next_fd() == old(self).spec_next_fd()
                },
                1u64 => {
                    let fd = spec_u64_i32(spec_arg(args@, 0));
                    &&& r == Ok::<i64, LuCastraError>(
                        if spec_contains_fd(old(self).spec_table(), fd) {
                            spec_u64_i64(spec_arg(args@, 2))
                        } else {
                            -9i64
                        },
                    )
                    &&& *final(self) == *old(self)
                },
                32u64 => {
                    let fd = spec_u64_i32(spec_arg(args@, 0));
                    (match spec_fd_lookup(old(self).spec_table(), fd) {
                        Some(d0) => r == Ok::<i64, LuCastraError>(
                            old(self).spec_next_fd() as i64,
                        ) && final(self).spec_next_fd()
                            == vstd::wrapping::i32_specs::wrapping_add(
                            old(self).spec_next_fd(),
                            1,
                        ) && exists|d: FileDescriptor|
                            d.path@ == d0.path@ && d.flags == d0.flags && d.offset == d0.offset
                                && final(self).spec_table() == spec_fd_upsert(
                                old(self).spec_table(),
                                old(self).spec_next_fd(),
                                d,
                            ),
                        None => r == Ok::<i64, LuCastraError>(-9i64) && *final(self) == *old(self),
                    })
                },
                16u64 => r == Ok::<i64, LuCastraError>(0) && *final(self) == *old(self),
                60u64 => r == Ok::<i64, LuCastraError>(0) && *final(self) == *old(self),
                9u64 => r == Ok::<i64, LuCastraError>(0x1000) && *final(self) == *old(self),
                12u64 => r == Ok::<i64, LuCastraError>(spec_u64_i64(spec_arg(args@, 0)))
                    && *final(self) == *old(self),
                0u64 => final(self).spec_next_fd() == old(self).spec_next_fd(),
                8u64 => final(self).spec_next_fd() == old(self).spec_next_fd(),
                _ => r == Ok::<i64, LuCastraError>(-38i64) && *final(self) == *old(self),
            }),
    {
        let a0 = self.arg(args, 0);
        if syscall_num == 2 {
            let flags = u64_to_i32(self.arg(args, 1));
            let mut path = "/path/".to_owned();
            path.append(u64_to_dec(a0).as_str());
            assert(path@ == "/path/"@ + spec_dec_digits(spec_arg(args@, 0) as int));
            let ghost t0 = self.fd_table.spec_fds();
            let ghost f0 = self.fd_table.spec_next_fd();
            let ghost p0 = path@;
            let fd = self.fd_table.open(path.as_str(), flags);
            proof {
                let d = choose|d: FileDescriptor|
                    d.path@ == p0 && d.flags == flags && d.offset == 0
                        && self.fd_table.spec_fds() == spec_fd_upsert(t0, f0, d);
                assert(d.path@ == "/path/"@ + spec_dec_digits(spec_arg(args@, 0) as int)
                    && d.flags == spec_u64_i32(spec_arg(args@, 1)) && d.offset == 0
                    && self.spec_table() == spec_fd_upsert(t0, f0, d));
            }
            Ok(fd as i64)
        } else if syscall_num == 0 {
            let fd = u64_to_i32(a0);
            let count = self.arg(args, 2);
            self.read_stub(fd, count)
        } else if syscall_num == 1 {
            let fd = u64_to_i32(a0);
            let count = self.arg(args, 2);
            match self.fd_table.get(fd) {
                Some(_) => Ok(u64_to_i64(count)),
                None => Ok(-9),
            }
        } else if syscall_num == 3 {
            let fd = u64_to_i32(a0);
            let closed = self.fd_table.close(fd);
            if closed {
                Ok(0)
            } else {
                Ok(-9)
            }
        } else if syscall_num == 8 {
            let fd = u64_to_i32(a0);
            let offset = u64_to_i64(self.arg(args, 1));
            let whence = u64_to_i32(self.arg(args, 2));
            self.lseek_stub(fd, offset, whence)
        } else if syscall_num == 32 {
            let fd = u64_to_i32(a0);
            let ghost t0 = self.fd_table.spec_fds();
            let ghost f0 = self.fd_table.spec_next_fd();
            let dup_r = self.fd_table.dup(fd);
            match dup_r {
                Some(new_fd) => {
                    proof {
                        let d0 = spec_fd_lookup(t0, fd)->0;
                        let d = choose|d: FileDescriptor|
                            d.path@ == d0.path@ && d.flags == d0.flags && d.offset == d0.offset
                                && self.fd_table.spec_fds() == spec_fd_upsert(t0, f0, d);
                        assert(d.path@ == d0.path@ && d.flags == d0.flags && d.offset
                            == d0.offset && self.spec_table() == spec_fd_upsert(t0, f0, d));
                    }
                    Ok(new_fd as i64)
                },
                None => Ok(-9),
            }
        } else if syscall_num == 16 {
            Ok(0)
        } else if syscall_num == 60 {
            Ok(0)
        } else if syscall_num == 9 {
            Ok(0x1000)
        } else if syscall_num == 12 {
            Ok(u64_to_i64(a0))
        } else {
            Ok(-38)
        }
    }

    /// The argument at `i`, defaulting to zero.
    fn arg(&self, args: &[u64], i: usize) -> (r: u64)
        ensures
            r == spec_arg(args@, i as int),
    {
        if i < args.len() {
            args[i]
        } else {
            0
        }
    }

    /// The read stub: advances the offset by the number of bytes served
    /// from the in-memory store, reporting that count.
    fn read_stub(&mut self, fd: i32, count: u64) -> (r: Result<i64, LuCastraError>)
        requires
            old(self).wf(),
        ensures
            final(self).wf(),
            r.is_ok(),
            final(self).spec_files() == old(self).spec_files(),
            final(self).spec_next_fd() == old(self).spec_next_fd(),
    {
        let pos = self.fd_table.position_of(fd);
        match pos {
            Some(i) => {
                let fpos = self.file_position(i);
                match fpos {
                    Some(fi) => {
                        let data_len = self.file_data[fi].1.len();
                        let start = self.fd_table.fds[i].1.offset;
                        let bytes_read: u64 = if start >= data_len as u64 {
                            0
                        } else {
                            let avail = data_len as u64 - start;
                            if count < avail {
                                count
                            } else {
                                avail
                            }
                        };
                        let ghost t0 = self.fd_table.spec_fds();
                        let path2 = self.fd_table.fds[i].1.path.clone();
                        let flags2 = self.fd_table.fds[i].1.flags;
                        let new_off = start.wrapping_add(bytes_read);
                        self.fd_table.fds[i] = (
                            fd,
                            FileDescriptor { path: path2, flags: flags2, offset: new_off },
                        );
                        proof {
                            let t2 = self.fd_table.spec_fds();
                            assert(forall|x: int|
                                0 <= x < t2.len() ==> (#[trigger] t2[x]).0 == t0[x].0);
                            assert(spec_unique_fds(t2));
                        }
                        Ok(u64_to_i64(bytes_read))
                    },
                    None => Ok(0),
                }
            },
            None => Ok(0),
        }
    }

    /// The position in the file store of the path that descriptor slot `i`
    /// names.
    fn file_position(&self, i: usize) -> (r: Option<usize>)
        requires
            i < self.fd_table.spec_fds().len(),
        ensures
            (match r {
                Some(fi) => fi < self.file_data@.len(),
                None => true,
            }),
    {
        let mut j: usize = 0;
        let n = self.file_data.len();
        while j < n
            invariant
                j <= n,
                n == self.file_data@.len(),
                i < self.fd_table.spec_fds().len(),
            decreases n - j,
        {
            if str_eq(self.file_data[j].0.as_str(), self.fd_table.fds[i].1.path.as_str()) {
                return Some(j);
            }
            j += 1;
        }
        None
    }

    /// The lseek stub: moves the offset for SEEK_SET, SEEK_CUR and
    /// SEEK_END (against the in-memory store), reporting the new offset.
    fn lseek_stub(&mut self, fd: i32, offset: i64, whence: i32) -> (r: Result<
        i64,
        LuCastraError,
    >)
        requires
            old(self).wf(),
        ensures
            final(self).wf(),
            r.is_ok(),
            final(self).spec_files() == old(self).spec_files(),
            final(self).spec_next_fd() == old(self).spec_next_fd(),
    {
        let pos = self.fd_table.position_of(fd);
        match pos {
            Some(i) => {
                let cur = self.fd_table.fds[i].1.offset;
                let new_off: u64 = if whence == 0 {
                    if offset >= 0 {
                        offset as u64
                    } else {
                        ((offset as i128) + 0x1_0000_0000_0000_0000i128) as u64
                    }
                } else if whence == 1 {
                    let v: i128 = (cur as i128) + (offset as i128);
                    if v < 0 {
                        (v + 0x1_0000_0000_0000_0000i128) as u64
                    } else if v >= 0x1_0000_0000_0000_0000i128 {
                        (v - 0x1_0000_0000_0000_0000i128) as u64
                    } else {
                        v as u64
                    }
                } else if whence == 2 {
                    let fpos = self.file_position(i);
                    match fpos {
                        Some(fi) => {
                            let v: i128 = (self.file_data[fi].1.len() as i128) + (
                            offset as i128);
                            if v < 0 {
                                (v + 0x1_0000_0000_0000_0000i128) as u64
                            } else if v >= 0x1_0000_0000_0000_0000i128 {
                                (v - 0x1_0000_0000_0000_0000i128) as u64
                            } else {
                                v as u64
                            }
                        },
                        None => cur,
                    }
                } else {
                    cur
                };
                let ghost t0 = self.fd_table.spec_fds();
                let path2 = self.fd_table.fds[i].1.path.clone();
                let flags2 = self.fd_table.fds[i].1.flags;
                self.fd_table.fds[i] = (
                    fd,
                    FileDescriptor { path: path2, flags: flags2, offset: new_off },
                );
                proof {
                    let t2 = self.fd_table.spec_fds();
                    assert(forall|x: int| 0 <= x < t2.len() ==> (#[trigger] t2[x]).0 == t0[x].0);
                    assert(spec_unique_fds(t2));
                }
                Ok(u64_to_i64(new_off))
            },
            None => Ok(-9),
        }
    }
}

} // verus!
