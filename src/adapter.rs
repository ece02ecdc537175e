//! The operation adapter: what each filesystem entry point asks of the peer,
//! and how the peer's reply becomes the entry point's result.
use vstd::prelude::*;
use vstd::slice::slice_to_vec;
use vstd::string::StringExecFns;
use crate::message::{Call, CallError, Operation, Response, Stat};

verus! {

/// Inode number of the mount's root directory.
pub const ROOT_INO: u64 = 1;

/// Inode number given to every entry that a stat reply describes.
pub const STAT_INO: u64 = 1;

/// Inode number given to a freshly created file.
pub const CREATED_INO: u64 = 2;

/// Block size used to count the blocks of an entry.
pub const BLOCK_SIZE: u64 = 512;

/// Preferred I/O size reported for every entry.
pub const IO_BLOCK_SIZE: u32 = 4096;

pub const FILE_PERM: u16 = 0o644;

pub const DIR_PERM: u16 = 0o755;

/// The kind of a filesystem entry.
#[derive(Clone, Copy, Debug, PartialEq, Eq, Structural)]
pub enum FileKind {
    RegularFile,
    Directory,
}

/// Attributes of an entry, as handed to the kernel bridge. All four
/// timestamps of the entry are `time_ms`, in milliseconds since the epoch.
#[derive(Clone, Copy, Debug, PartialEq, Eq, Structural)]
pub struct Attr {
    pub ino: u64,
    pub size: u64,
    pub blocks: u64,
    pub time_ms: u64,
    pub kind: FileKind,
    pub perm: u16,
    pub nlink: u32,
    pub uid: u32,
    pub gid: u32,
    pub rdev: u32,
    pub flags: u32,
    pub blksize: u32,
}

/// How a filesystem call fails at the kernel bridge.
#[derive(Clone, Copy, Debug, PartialEq, Eq, Structural)]
pub enum FsError {
    /// The entry does not exist.
    NotFound,
    /// Any failure of the link, of the wait, or of the peer.
    Io,
}

/// One entry of a directory listing.
#[derive(Debug)]
pub struct DirEntry {
    pub ino: u64,
    /// The listing offset at which the next read continues.
    pub offset: i64,
    pub kind: FileKind,
    pub name: String,
}

/// Number of whole or partial blocks that `size` bytes take.
pub open spec fn blocks_of(size: u64) -> nat {
    ((size + 511) / 512) as nat
}

/// The attributes of an entry that a stat reply describes.
pub open spec fn attr_spec(st: Stat, uid: u32, gid: u32) -> Attr {
    Attr {
        ino: STAT_INO,
        size: st.size,
        blocks: blocks_of(st.size) as u64,
        time_ms: st.mtime,
        kind: if st.is_file {
            FileKind::RegularFile
        } else {
            FileKind::Directory
        },
        perm: if st.is_file {
            FILE_PERM
        } else {
            DIR_PERM
        },
        nlink: 1,
        uid,
        gid,
        rdev: 0,
        flags: 0,
        blksize: IO_BLOCK_SIZE,
    }
}

/// The attributes of a file just created, at time `now_ms`.
pub open spec fn created_attr_spec(now_ms: u64, uid: u32, gid: u32) -> Attr {
    Attr {
        ino: CREATED_INO,
        size: 0,
        blocks: 0,
        time_ms: now_ms,
        kind: FileKind::RegularFile,
        perm: FILE_PERM,
        nlink: 1,
        uid,
        gid,
        rdev: 0,
        flags: 0,
        blksize: IO_BLOCK_SIZE,
    }
}

/// The remote path of an entry named `name` under the root.
pub open spec fn child_path(name: Seq<char>) -> Seq<char> {
    "/"@ + name
}

/// The remote path that stands for an inode: the root, or a placeholder for
/// every other inode, whose path is not tracked.
pub open spec fn inode_path(ino: u64) -> Seq<char> {
    if ino == ROOT_INO {
        "/"@
    } else {
        "/unknown"@
    }
}

/// Converts a stat reply into attributes.
pub fn attr_of(st: &Stat, uid: u32, gid: u32) -> (r: Attr)
    ensures
        r == attr_spec(*st, uid, gid),
{
    let blocks: u64 = st.size / BLOCK_SIZE + if st.size % BLOCK_SIZE != 0 {
        1u64
    } else {
        0u64
    };
    assert(blocks as nat == blocks_of(st.size));
    Attr {
        ino: STAT_INO,
        size: st.size,
        blocks,
        time_ms: st.mtime,
        kind: if st.is_file {
            FileKind::RegularFile
        } else {
            FileKind::Directory
        },
        perm: if st.is_file {
            FILE_PERM
        } else {
            DIR_PERM
        },
        nlink: 1,
        uid,
        gid,
        rdev: 0,
        flags: 0,
        blksize: IO_BLOCK_SIZE,
    }
}

fn child_path_of(name: &str) -> (r: String)
    ensures
        r@ == child_path(name@),
{
    let mut p = "/".to_owned();
    p.append(name);
    p
}

fn inode_path_of(ino: u64) -> (r: String)
    ensures
        r@ == inode_path(ino),
{
    if ino == ROOT_INO {
        "/".to_owned()
    } else {
        "/unknown".to_owned()
    }
}

/// The request behind `lookup`: a stat of the child's path.
pub fn lookup_call(name: &str) -> (c: Call)
    ensures
        c.operation == Operation::Stat,
        c.path@ == child_path(name@),
        c.data is None,
        c.offset is None,
        c.size is None,
{
    Call { operation: Operation::Stat, path: child_path_of(name), data: None, offset: None, size: None }
}

/// The request behind `getattr`: a stat of the inode's path.
pub fn getattr_call(ino: u64) -> (c: Call)
    ensures
        c.operation == Operation::Stat,
        c.path@ == inode_path(ino),
        c.data is None,
        c.offset is None,
        c.size is None,
{
    Call { operation: Operation::Stat, path: inode_path_of(ino), data: None, offset: None, size: None }
}

/// The request behind `read`: `size` bytes at `offset` of the root path.
pub fn read_call(offset: i64, size: u32) -> (c: Call)
    ensures
        c.operation == Operation::Read,
        c.path@ == "/"@,
        c.data is None,
        c.offset == Some(offset as u64),
        c.size == Some(size as u64),
{
    Call {
        operation: Operation::Read,
        path: "/".to_owned(),
        data: None,
        offset: Some(offset as u64),
        size: Some(size as u64),
    }
}

/// The request behind `write`: `data` at `offset` of the root path.
pub fn write_call(offset: i64, data: &[u8]) -> (c: Call)
    ensures
        c.operation == Operation::Write,
        c.path@ == "/"@,
        c.data matches Some(d) && d@ == data@,
        c.offset == Some(offset as u64),
        c.size is None,
{
    Call {
        operation: Operation::Write,
        path: "/".to_owned(),
        data: Some(slice_to_vec(data)),
        offset: Some(offset as u64),
        size: None,
    }
}

/// The request behind `readdir`: a listing of the root path, whatever the
/// inode.
pub fn readdir_call() -> (c: Call)
    ensures
        c.operation == Operation::Readdir,
        c.path@ == "/"@,
        c.data is None,
        c.offset is None,
        c.size is None,
{
    Call {
        operation: Operation::Readdir,
        path: "/".to_owned(),
        data: None,
        offset: None,
        size: None,
    }
}

/// The request behind `create`: an empty write to the child's path.
pub fn create_call(name: &str) -> (c: Call)
    ensures
        c.operation == Operation::Write,
        c.path@ == child_path(name@),
        c.data matches Some(d) && d@.len() == 0,
        c.offset is None,
        c.size is None,
{
    Call {
        operation: Operation::Write,
        path: child_path_of(name),
        data: Some(Vec::new()),
        offset: None,
        size: None,
    }
}

/// The result of `lookup` and `getattr` for the outcome of their stat call:
/// a stat that names a file or a directory gives attributes; no stat, or one
/// that names neither, means the entry does not exist; a failed call is an
/// I/O failure.
pub fn stat_reply(result: Result<Response, CallError>, uid: u32, gid: u32) -> (r: Result<
    Attr,
    FsError,
>)
    ensures
        match result {
            Err(_) => r == Err::<Attr, FsError>(FsError::Io),
            Ok(resp) => match resp.stat {
                Some(st) => if st.is_file || st.is_dir {
                    r == Ok::<Attr, FsError>(attr_spec(st, uid, gid))
                } else {
                    r == Err::<Attr, FsError>(FsError::NotFound)
                },
                None => r == Err::<Attr, FsError>(FsError::NotFound),
            },
        },
{
    match result {
        Err(_) => Err(FsError::Io),
        Ok(resp) => match resp.stat {
            Some(st) => {
                if st.is_file || st.is_dir {
                    Ok(attr_of(&st, uid, gid))
                } else {
                    Err(FsError::NotFound)
                }
            },
            None => Err(FsError::NotFound),
        },
    }
}

/// The result of `read`: the bytes that the peer sent, which may be fewer
/// than asked for at the end of the data.
pub fn read_reply(result: Result<Response, CallError>) -> (r: Result<Vec<u8>, FsError>)
    ensures
        match result {
            Ok(resp) => r matches Ok(d) && d@ == resp.data@,
            Err(_) => r == Err::<Vec<u8>, FsError>(FsError::Io),
        },
{
    match result {
        Ok(resp) => Ok(resp.data),
        Err(_) => Err(FsError::Io),
    }
}

/// The result of `write`: the number of bytes that the peer took, which may
/// be fewer than were sent. A count beyond what the kernel bridge can carry
/// is an I/O failure.
pub fn write_reply(result: Result<Response, CallError>) -> (r: Result<u32, FsError>)
    ensures
        match result {
            Ok(resp) => if resp.bytes_written <= u32::MAX {
                r == Ok::<u32, FsError>(resp.bytes_written as u32)
            } else {
                r == Err::<u32, FsError>(FsError::Io)
            },
            Err(_) => r == Err::<u32, FsError>(FsError::Io),
        },
{
    match result {
        Ok(resp) => {
            if resp.bytes_written <= u32::MAX as u64 {
                Ok(resp.bytes_written as u32)
            } else {
                Err(FsError::Io)
            }
        },
        Err(_) => Err(FsError::Io),
    }
}

/// Position of the first listing entry that a read from `offset` returns.
pub open spec fn listing_start(len: nat, offset: i64) -> nat {
    if offset <= 0 {
        0
    } else if offset as nat >= len {
        len
    } else {
        offset as nat
    }
}

/// The entries of a listing from position `offset` on. The entry at
/// position `i` has inode number `i + 2` and continues at offset `i + 1`;
/// every entry is reported as a regular file.
pub fn dir_entries(files: &Vec<String>, offset: i64) -> (r: Vec<DirEntry>)
    requires
        files@.len() < i64::MAX,
    ensures
        r@.len() == files@.len() - listing_start(files@.len(), offset),
        forall|j: int|
            0 <= j < r@.len() ==> {
                let i = listing_start(files@.len(), offset) + j;
                &&& (#[trigger] r@[j]).ino == i + 2
                &&& r@[j].offset == i + 1
                &&& r@[j].kind == FileKind::RegularFile
                &&& r@[j].name == files@[i]
            },
{
    let len: usize = files.len();
    let mut i: usize = if offset <= 0 {
        0
    } else if offset as u64 >= len as u64 {
        len
    } else {
        offset as usize
    };
    let ghost start = i as int;
    assert(start == listing_start(files@.len(), offset));
    let mut out: Vec<DirEntry> = Vec::new();
    while i < len
        invariant
            len == files@.len(),
            len < i64::MAX,
            start <= i <= len,
            out@.len() == i - start,
            forall|j: int|
                0 <= j < out@.len() ==> {
                    let k = start + j;
                    &&& (#[trigger] out@[j]).ino == k + 2
                    &&& out@[j].offset == k + 1
                    &&& out@[j].kind == FileKind::RegularFile
                    &&& out@[j].name == files@[k]
                },
        decreases len - i,
    {
        out.push(
            DirEntry {
                ino: i as u64 + 2,
                offset: (i + 1) as i64,
                kind: FileKind::RegularFile,
                name: files[i].clone(),
            },
        );
        i = i + 1;
    }
    out
}

/// The result of `readdir` from `offset` for the outcome of its listing
/// call.
pub fn readdir_reply(result: Result<Response, CallError>, offset: i64) -> (r: Result<
    Vec<DirEntry>,
    FsError,
>)
    ensures
        match result {
            Ok(resp) => if resp.files@.len() < i64::MAX {
                r matches Ok(es) && {
                    let start = listing_start(resp.files@.len(), offset);
                    &&& es@.len() == resp.files@.len() - start
                    &&& forall|j: int|
                        0 <= j < es@.len() ==> {
                            &&& (#[trigger] es@[j]).ino == start + j + 2
                            &&& es@[j].offset == start + j + 1
                            &&& es@[j].kind == FileKind::RegularFile
                            &&& es@[j].name == resp.files@[start + j]
                        }
                }
            } else {
                r is Err && r->Err_0 == FsError::Io
            },
            Err(_) => r is Err && r->Err_0 == FsError::Io,
        },
{
    match result {
        Ok(resp) => {
            if resp.files.len() as u64 >= i64::MAX as u64 {
                return Err(FsError::Io);
            }
            Ok(dir_entries(&resp.files, offset))
        },
        Err(_) => Err(FsError::Io),
    }
}

/// Hands out file handles: local numbers that increase with every open.
pub struct HandleCounter {
    last: u64,
}

impl HandleCounter {
    /// The last handle handed out.
    pub closed spec fn last(&self) -> u64 {
        self.last
    }

    /// A counter whose first handle is 2.
    pub fn new() -> (r: HandleCounter)
        ensures
            r.last() == 1,
    {
        HandleCounter { last: 1 }
    }

    /// The next handle, one above the last; `None` once they are used up.
    pub fn open(&mut self) -> (r: Option<u64>)
        ensures
            old(self).last() < u64::MAX ==> r == Some((old(self).last() + 1) as u64)
                && final(self).last() == old(self).last() + 1,
            old(self).last() == u64::MAX ==> r is None && final(self).last() == old(self).last(),
    {
        if self.last == u64::MAX {
            return None;
        }
        self.last = self.last + 1;
        Some(self.last)
    }
}

/// The result of `create` for the outcome of its write call, at time
/// `now_ms`: fresh attributes of an empty regular file and a new handle.
pub fn create_reply(
    result: Result<Response, CallError>,
    now_ms: u64,
    uid: u32,
    gid: u32,
    handles: &mut HandleCounter,
) -> (r: Result<(Attr, u64), FsError>)
    ensures
        match result {
            Ok(_) => if old(handles).last() < u64::MAX {
                &&& r == Ok::<(Attr, u64), FsError>(
                    (created_attr_spec(now_ms, uid, gid), (old(handles).last() + 1) as u64),
                )
                &&& final(handles).last() == old(handles).last() + 1
            } else {
                r == Err::<(Attr, u64), FsError>(FsError::Io) && final(handles).last() == old(
                    handles,
                ).last()
            },
            Err(_) => r == Err::<(Attr, u64), FsError>(FsError::Io) && final(handles).last()
                == old(handles).last(),
        },
{
    match result {
        Ok(_) => {
            let attr = Attr {
                ino: CREATED_INO,
                size: 0,
                blocks: 0,
                time_ms: now_ms,
                kind: FileKind::RegularFile,
                perm: FILE_PERM,
                nlink: 1,
                uid,
                gid,
                rdev: 0,
                flags: 0,
                blksize: IO_BLOCK_SIZE,
            };
            match handles.open() {
                Some(fh) => Ok((attr, fh)),
                None => Err(FsError::Io),
            }
        },
        Err(_) => Err(FsError::Io),
    }
}

/// A read from any offset `k` in `[0, M]` of an `M`-entry listing starts at
/// position `k`, so it returns exactly the entries at positions `k` and on,
/// and none at `k == M`.
pub proof fn lemma_listing_from(len: nat, k: i64)
    requires
        0 <= k <= len,
    ensures
        listing_start(len, k) == k,
{
}

/// A peer that keeps one byte store: what it holds after it carries out a
/// write call. The written bytes replace those at the offset, and the store
/// grows with zeros where the write reaches past its end.
pub open spec fn echo_write(store: Seq<u8>, c: Call) -> Seq<u8> {
    let off = match c.offset {
        Some(o) => o as int,
        None => 0,
    };
    let data = match c.data {
        Some(d) => d@,
        None => Seq::<u8>::empty(),
    };
    let end = off + data.len();
    let len = if store.len() > end {
        store.len() as int
    } else {
        end
    };
    Seq::new(
        len as nat,
        |i: int|
            if off <= i < end {
                data[i - off]
            } else if i < store.len() {
                store[i]
            } else {
                0u8
            },
    )
}

/// The bytes that such a peer returns for a read call: those of the store
/// from the offset, as many as asked for and as there are.
pub open spec fn echo_read(store: Seq<u8>, c: Call) -> Seq<u8> {
    let off = match c.offset {
        Some(o) => o as int,
        None => 0,
    };
    let size = match c.size {
        Some(n) => n as int,
        None => 0,
    };
    if off >= store.len() {
        Seq::<u8>::empty()
    } else if off + size >= store.len() {
        store.subrange(off, store.len() as int)
    } else {
        store.subrange(off, off + size)
    }
}

/// Against such a peer, a write of `b` at offset 0, as `write_call` builds
/// it, followed by a read of `b.len()` bytes at offset 0, as `read_call`
/// builds it, reads back `b`; and writing `b` there a second time leaves
/// the store as the first write left it.
pub proof fn lemma_write_then_read(store: Seq<u8>, w: Call, r: Call, b: Seq<u8>)
    requires
        w.operation == Operation::Write,
        w.data matches Some(d) && d@ == b,
        w.offset == Some(0u64),
        r.operation == Operation::Read,
        r.offset == Some(0u64),
        r.size == Some(b.len() as u64),
        b.len() <= u32::MAX,
    ensures
        echo_read(echo_write(store, w), r) == b,
        echo_write(echo_write(store, w), w) == echo_write(store, w),
{
    let s1 = echo_write(store, w);
    assert(echo_read(s1, r) =~= b);
    assert(echo_write(s1, w) =~= s1);
}

} // verus!
