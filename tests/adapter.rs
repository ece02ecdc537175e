use remote_fs::adapter::{
    attr_of, create_call, create_reply, dir_entries, getattr_call, lookup_call, read_call,
    read_reply, readdir_call, readdir_reply, stat_reply, write_call, write_reply, Attr, FileKind,
    FsError, HandleCounter,
};
use remote_fs::message::{CallError, Operation, Response, Stat};

fn response(id: u64) -> Response {
    Response {
        id,
        data: vec![],
        bytes_written: 0,
        files: vec![],
        stat: None,
        success: true,
        error: String::new(),
    }
}

fn names(n: usize) -> Vec<String> {
    (0..n).map(|i| format!("f{}", i)).collect()
}

#[test]
fn stat_reply_for_a_regular_file() {
    let mut r = response(7);
    r.stat = Some(Stat { size: 42, is_file: true, is_dir: false, mtime: 1700000000000 });
    let a = stat_reply(Ok(r), 1000, 100).unwrap();
    assert_eq!(a.size, 42);
    assert_eq!(a.kind, FileKind::RegularFile);
    assert_eq!(a.time_ms, 1700000000000);
    assert_eq!(a.blocks, 1);
    assert_eq!(a.perm, 0o644);
    assert_eq!(a.ino, 1);
    assert_eq!((a.uid, a.gid), (1000, 100));
    assert_eq!(a.blksize, 4096);
    assert_eq!(a.nlink, 1);
}

#[test]
fn stat_reply_for_a_directory() {
    let mut r = response(1);
    r.stat = Some(Stat { size: 4096, is_file: false, is_dir: true, mtime: 5 });
    let a = stat_reply(Ok(r), 0, 0).unwrap();
    assert_eq!(a.kind, FileKind::Directory);
    assert_eq!(a.perm, 0o755);
    assert_eq!(a.blocks, 8);
}

#[test]
fn stat_reply_missing_entry() {
    assert_eq!(stat_reply(Ok(response(1)), 0, 0), Err(FsError::NotFound));
    let mut r = response(1);
    r.stat = Some(Stat { size: 0, is_file: false, is_dir: false, mtime: 0 });
    assert_eq!(stat_reply(Ok(r), 0, 0), Err(FsError::NotFound));
}

#[test]
fn failed_calls_are_io_errors() {
    assert_eq!(stat_reply(Err(CallError::Timeout), 0, 0), Err(FsError::Io));
    assert_eq!(read_reply(Err(CallError::Connection)), Err(FsError::Io));
    assert_eq!(write_reply(Err(CallError::Application("denied".to_string()))), Err(FsError::Io));
    assert!(matches!(readdir_reply(Err(CallError::Timeout), 0), Err(FsError::Io)));
    let mut h = HandleCounter::new();
    assert_eq!(create_reply(Err(CallError::Timeout), 1, 0, 0, &mut h), Err(FsError::Io));
    assert_eq!(h.open(), Some(2));
}

#[test]
fn block_count_rounds_up() {
    let st = |size| Stat { size, is_file: true, is_dir: false, mtime: 0 };
    assert_eq!(attr_of(&st(0), 0, 0).blocks, 0);
    assert_eq!(attr_of(&st(512), 0, 0).blocks, 1);
    assert_eq!(attr_of(&st(513), 0, 0).blocks, 2);
    assert_eq!(attr_of(&st(u64::MAX), 0, 0).blocks, u64::MAX / 512 + 1);
}

#[test]
fn read_reply_hands_back_the_data() {
    let mut r = response(3);
    r.data = vec![1, 2, 3];
    assert_eq!(read_reply(Ok(r)).unwrap(), vec![1u8, 2, 3]);
}

#[test]
fn write_reply_counts() {
    let mut r = response(3);
    r.bytes_written = 2;
    assert_eq!(write_reply(Ok(r)), Ok(2));
    let mut big = response(4);
    big.bytes_written = u32::MAX as u64 + 1;
    assert_eq!(write_reply(Ok(big)), Err(FsError::Io));
}

#[test]
fn listing_from_each_offset() {
    let files = names(4);
    for k in 0..=4i64 {
        let es = dir_entries(&files, k);
        assert_eq!(es.len(), 4 - k as usize);
        for (j, e) in es.iter().enumerate() {
            let i = k as usize + j;
            assert_eq!(e.name, files[i]);
            assert_eq!(e.ino, i as u64 + 2);
            assert_eq!(e.offset, i as i64 + 1);
            assert_eq!(e.kind, FileKind::RegularFile);
        }
    }
}

#[test]
fn listing_beyond_the_end_or_before_the_start() {
    let files = names(3);
    assert!(dir_entries(&files, 3).is_empty());
    assert!(dir_entries(&files, 10).is_empty());
    assert_eq!(dir_entries(&files, -5).len(), 3);
    assert!(dir_entries(&Vec::new(), 0).is_empty());
}

#[test]
fn readdir_reply_skips_entries_before_offset() {
    let mut r = response(2);
    r.files = vec!["a".to_string(), "b".to_string(), "c".to_string()];
    let es = readdir_reply(Ok(r), 1).unwrap();
    let got: Vec<&str> = es.iter().map(|e| e.name.as_str()).collect();
    assert_eq!(got, vec!["b", "c"]);
    assert_eq!(es[0].ino, 3);
    assert_eq!(es[0].offset, 2);
}

#[test]
fn handles_increase_from_two() {
    let mut h = HandleCounter::new();
    assert_eq!(h.open(), Some(2));
    assert_eq!(h.open(), Some(3));
    assert_eq!(h.open(), Some(4));
}

#[test]
fn create_reply_gives_fresh_attributes_and_handle() {
    let mut h = HandleCounter::new();
    h.open();
    let (a, fh) = create_reply(Ok(response(9)), 1234, 7, 8, &mut h).unwrap();
    assert_eq!(fh, 3);
    assert_eq!(
        a,
        Attr {
            ino: 2,
            size: 0,
            blocks: 0,
            time_ms: 1234,
            kind: FileKind::RegularFile,
            perm: 0o644,
            nlink: 1,
            uid: 7,
            gid: 8,
            rdev: 0,
            flags: 0,
            blksize: 4096,
        }
    );
}

#[test]
fn calls_name_the_right_paths() {
    let c = lookup_call("notes.txt");
    assert_eq!(c.operation, Operation::Stat);
    assert_eq!(c.path, "/notes.txt");
    assert!(c.data.is_none() && c.offset.is_none() && c.size.is_none());
    assert_eq!(getattr_call(1).path, "/");
    assert_eq!(getattr_call(5).path, "/unknown");
    let c = readdir_call();
    assert_eq!(c.path, "/");
    assert_eq!(c.operation, Operation::Readdir);
    assert!(c.data.is_none() && c.offset.is_none() && c.size.is_none());
    let c = create_call("new");
    assert_eq!(c.operation, Operation::Write);
    assert_eq!(c.path, "/new");
    assert_eq!(c.data, Some(vec![]));
    assert!(c.offset.is_none());
}

#[test]
fn read_and_write_calls_carry_offset_and_bytes() {
    let w = write_call(0, b"abc");
    assert_eq!(w.operation, Operation::Write);
    assert_eq!(w.path, "/");
    assert_eq!(w.data, Some(b"abc".to_vec()));
    assert_eq!(w.offset, Some(0));
    assert!(w.size.is_none());
    let r = read_call(4096, 3);
    assert_eq!(r.operation, Operation::Read);
    assert_eq!(r.offset, Some(4096));
    assert_eq!(r.size, Some(3));
    assert!(r.data.is_none());
}

#[test]
fn operation_names() {
    assert_eq!(Operation::Stat.name(), "stat");
    assert_eq!(Operation::Read.name(), "read");
    assert_eq!(Operation::Write.name(), "write");
    assert_eq!(Operation::Readdir.name(), "readdir");
}

#[test]
fn write_then_read_against_an_echo_store() {
    let b = b"hello world".to_vec();
    let mut store: Vec<u8> = Vec::new();
    for _ in 0..2 {
        let w = write_call(0, &b);
        let off = w.offset.unwrap() as usize;
        let data = w.data.unwrap();
        if store.len() < off + data.len() {
            store.resize(off + data.len(), 0);
        }
        store[off..off + data.len()].copy_from_slice(&data);
    }
    let r = read_call(0, b.len() as u32);
    let off = r.offset.unwrap() as usize;
    let end = (off + r.size.unwrap() as usize).min(store.len());
    let mut resp = response(1);
    resp.data = store[off..end].to_vec();
    assert_eq!(read_reply(Ok(resp)).unwrap(), b);
    assert_eq!(store, b);
}
