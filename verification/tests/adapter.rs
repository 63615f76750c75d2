use sync_file::{
    fill_buffer_error, invalid_seek, unsupported, Adapter, Error, ErrorKind, ReadAt, SeekFrom,
    WriteAt,
};

const NOTICE: &[u8] = b"Copyright 2024 the authors of this file";

#[test]
fn new_adapter_starts_at_zero() {
    let a = Adapter::new(NOTICE.to_vec());
    assert_eq!(a.offset(), 0);
    assert_eq!(a.get_ref().as_slice(), NOTICE);
    assert_eq!(a.into_inner(), NOTICE.to_vec());
}

#[test]
fn get_mut_changes_inner_and_keeps_offset() {
    let mut a = Adapter::new(b"abc".to_vec());
    assert_eq!(a.seek(SeekFrom::Start(2)), Ok(2));
    a.get_mut().push(b'd');
    assert_eq!(a.offset(), 2);
    let mut buf = [0u8; 4];
    assert_eq!(a.read(&mut buf), Ok(2));
    assert_eq!(&buf[..2], b"cd");
}

#[test]
fn read_moves_offset_by_what_arrived() {
    let mut a = Adapter::new(NOTICE);
    let mut buf = [0u8; 30];
    assert_eq!(a.read(&mut buf), Ok(30));
    assert_eq!(a.offset(), 30);
    assert_eq!(a.read(&mut buf), Ok(9));
    assert_eq!(&buf[..9], b"this file");
    assert_eq!(a.offset(), 39);
    assert_eq!(a.read(&mut buf), Ok(0));
    assert_eq!(a.offset(), 39);
}

#[test]
fn seek_back_and_refused_seek() {
    let mut a = Adapter::new(NOTICE);
    let mut buf = [0u8; 9];
    assert_eq!(a.read_exact(&mut buf), Ok(()));
    assert_eq!(&buf, b"Copyright");
    assert_eq!(a.stream_position(), Ok(9));
    assert_eq!(a.seek(SeekFrom::Current(-2)), Ok(7));
    assert_eq!(a.read_exact(&mut buf[..2]), Ok(()));
    assert_eq!(&buf[..2], b"ht");
    assert_eq!(a.offset(), 9);
    assert_eq!(a.seek(SeekFrom::Current(-2)), Ok(7));
    let err = a.seek(SeekFrom::Current(-10)).unwrap_err();
    assert_eq!(err, invalid_seek());
    assert_eq!(err.kind(), ErrorKind::InvalidInput);
    assert_eq!(a.offset(), 7);
    assert_eq!(a.stream_position(), Ok(7));
}

#[test]
fn seek_current_bounds() {
    let mut a = Adapter::new(NOTICE);
    assert_eq!(a.seek(SeekFrom::Current(0)), Ok(0));
    assert_eq!(a.seek(SeekFrom::Current(-1)), Err(invalid_seek()));
    assert_eq!(a.seek(SeekFrom::Current(i64::MIN)), Err(invalid_seek()));
    assert_eq!(a.seek(SeekFrom::Current(i64::MAX)), Ok(i64::MAX as u64));
    assert_eq!(a.seek(SeekFrom::Current(i64::MAX)), Ok(u64::MAX - 1));
    assert_eq!(a.seek(SeekFrom::Current(1)), Ok(u64::MAX));
    assert_eq!(a.seek(SeekFrom::Current(1)), Err(invalid_seek()));
    assert_eq!(a.offset(), u64::MAX);
    assert_eq!(a.seek(SeekFrom::Current(i64::MIN)), Ok(u64::MAX - (1u64 << 63)));
}

#[test]
fn seek_start_goes_anywhere() {
    let mut a = Adapter::new(NOTICE);
    assert_eq!(a.seek(SeekFrom::Start(1000)), Ok(1000));
    assert_eq!(a.stream_position(), Ok(1000));
    assert_eq!(a.seek(SeekFrom::Start(u64::MAX)), Ok(u64::MAX));
    assert_eq!(a.offset(), u64::MAX);
    assert_eq!(a.seek(SeekFrom::Start(0)), Ok(0));
    assert_eq!(a.offset(), 0);
}

#[test]
fn seek_from_end_is_unsupported() {
    let mut a = Adapter::new(NOTICE);
    assert_eq!(a.seek(SeekFrom::Start(5)), Ok(5));
    let err = a.seek(SeekFrom::End(-54)).unwrap_err();
    assert_eq!(err, unsupported());
    assert_eq!(err.kind(), ErrorKind::Unsupported);
    assert_eq!(a.seek(SeekFrom::End(0)), Err(unsupported()));
    assert_eq!(a.offset(), 5);
}

#[test]
fn rewind_always_leads_to_zero() {
    let mut a = Adapter::new(NOTICE);
    assert_eq!(a.rewind(), Ok(()));
    assert_eq!(a.offset(), 0);
    assert_eq!(a.seek(SeekFrom::Start(33)), Ok(33));
    assert_eq!(a.rewind(), Ok(()));
    assert_eq!(a.offset(), 0);
    assert_eq!(a.rewind(), Ok(()));
    assert_eq!(a.rewind(), Ok(()));
    assert_eq!(a.stream_position(), Ok(0));
}

#[test]
fn stream_position_reports_what_seek_returned() {
    let mut a = Adapter::new(NOTICE);
    for pos in [
        SeekFrom::Start(12),
        SeekFrom::Current(5),
        SeekFrom::Current(-17),
        SeekFrom::Start(u64::MAX),
        SeekFrom::Current(-1),
    ] {
        let reached = a.seek(pos).unwrap();
        assert_eq!(a.stream_position(), Ok(reached));
        assert_eq!(a.offset(), reached);
    }
}

#[test]
fn read_exact_moves_only_on_success() {
    let mut a = Adapter::new(NOTICE);
    assert_eq!(a.seek(SeekFrom::Start(35)), Ok(35));
    let mut buf = [0u8; 5];
    assert_eq!(a.read_exact(&mut buf), Err(fill_buffer_error()));
    assert_eq!(a.offset(), 35);
    assert_eq!(a.read_exact(&mut buf[..4]), Ok(()));
    assert_eq!(&buf[..4], b"file");
    assert_eq!(a.offset(), 39);
}

#[test]
fn read_vectored_moves_offset() {
    let mut a = Adapter::new(NOTICE);
    let mut x = [0u8; 4];
    let mut y = [0u8; 4];
    {
        let mut bufs: [&mut [u8]; 2] = [&mut x, &mut y];
        assert_eq!(a.read_vectored(&mut bufs), Ok(4));
    }
    assert_eq!(&x, b"Copy");
    assert_eq!(a.offset(), 4);
    {
        let mut bufs: [&mut [u8]; 2] = [&mut x[..0], &mut y];
        assert_eq!(a.read_vectored(&mut bufs), Ok(4));
    }
    assert_eq!(&y, b"righ");
    assert_eq!(a.offset(), 8);
}

#[test]
fn adapter_reads_at_any_offset_without_moving() {
    let a = Adapter::new(NOTICE);
    let mut buf = [0u8; 4];
    assert_eq!(a.read_at(&mut buf, 35), Ok(4));
    assert_eq!(&buf, b"file");
    assert_eq!(a.read_exact_at(&mut buf, 0), Ok(()));
    assert_eq!(&buf, b"Copy");
    assert_eq!(a.read_exact_at(&mut buf, 36), Err(fill_buffer_error()));
    {
        let mut bufs: [&mut [u8]; 1] = [&mut buf];
        assert_eq!(a.read_vectored_at(&mut bufs, 10), Ok(4));
    }
    assert_eq!(&buf, b"2024");
    assert_eq!(a.offset(), 0);
}

#[test]
fn clones_keep_offsets_of_their_own() {
    let mut a = Adapter::new(&b"Hello World!\n"[..]);
    let mut one = [0u8; 1];
    assert_eq!(a.read(&mut one), Ok(1));
    let mut b = a;
    let mut from_a = vec![b'H'];
    let mut from_b = vec![b'H'];
    loop {
        let got_a = a.read(&mut one).unwrap();
        if got_a == 1 {
            from_a.push(one[0]);
        }
        let got_b = b.read(&mut one).unwrap();
        if got_b == 1 {
            from_b.push(one[0]);
        }
        if got_a == 0 && got_b == 0 {
            break;
        }
    }
    assert_eq!(from_a, b"Hello World!\n");
    assert_eq!(from_b, b"Hello World!\n");
    assert_eq!(a.offset(), 13);
    assert_eq!(b.offset(), 13);
    assert_eq!(b.rewind(), Ok(()));
    assert_eq!(a.offset(), 13);
}

#[test]
fn write_moves_offset_by_what_was_taken() {
    let mut a = Adapter::new(std::io::sink());
    assert_eq!(a.write(b"hello"), Ok(5));
    assert_eq!(a.offset(), 5);
    assert_eq!(a.write_all(b" world"), Ok(()));
    assert_eq!(a.offset(), 11);
    assert_eq!(a.write_vectored(&[b"ab", b"", b"cde"]), Ok(5));
    assert_eq!(a.offset(), 16);
    assert_eq!(a.flush(), Ok(()));
    assert_eq!(a.offset(), 16);
    assert_eq!(a.write(b""), Ok(0));
    assert_eq!(a.offset(), 16);
}

#[test]
fn adapter_writes_at_any_offset_without_moving() {
    let a = Adapter::new(std::io::sink());
    assert_eq!(a.write_at(b"abc", 9), Ok(3));
    assert_eq!(a.write_all_at(b"abc", 9), Ok(()));
    assert_eq!(a.write_vectored_at(&[b"abc", b"d"], 9), Ok(4));
    assert_eq!(WriteAt::flush(&a), Ok(()));
    assert_eq!(a.offset(), 0);
}

/// A sink that takes at most two bytes at a time and nothing at or behind
/// its limit.
struct Narrow {
    limit: u64,
}

impl WriteAt for Narrow {
    fn write_at(&self, buf: &[u8], offset: u64) -> Result<usize, Error> {
        if offset >= self.limit {
            Ok(0)
        } else {
            Ok(buf.len().min(2).min((self.limit - offset) as usize))
        }
    }

    fn flush(&self) -> Result<(), Error> {
        Err(Error::from_raw_os_error(ErrorKind::Other, 5))
    }
}

#[test]
fn failed_write_all_leaves_offset() {
    let mut a = Adapter::new(Narrow { limit: 7 });
    assert_eq!(a.write(b"abcdef"), Ok(2));
    assert_eq!(a.offset(), 2);
    assert_eq!(a.write_all(b"abcde"), Ok(()));
    assert_eq!(a.offset(), 7);
    assert_eq!(a.seek(SeekFrom::Start(3)), Ok(3));
    let err = a.write_all(b"abcde").unwrap_err();
    assert_eq!(err.kind(), ErrorKind::WriteZero);
    assert_eq!(a.offset(), 3);
    assert_eq!(a.flush(), Err(Error::from_raw_os_error(ErrorKind::Other, 5)));
    assert_eq!(a.offset(), 3);
}

/// A source that fails every read.
struct Broken;

impl ReadAt for Broken {
    fn read_at(&self, _buf: &mut [u8], _offset: u64) -> Result<usize, Error> {
        Err(Error::from_raw_os_error(ErrorKind::Other, 9))
    }
}

#[test]
fn failed_read_leaves_offset() {
    let mut a = Adapter::new(Broken);
    assert_eq!(a.seek(SeekFrom::Start(4)), Ok(4));
    let mut buf = [0u8; 3];
    assert!(a.read(&mut buf).is_err());
    assert_eq!(a.offset(), 4);
    assert!(a.read_exact(&mut buf).is_err());
    assert_eq!(a.offset(), 4);
    let mut bufs: [&mut [u8]; 1] = [&mut buf];
    assert!(a.read_vectored(&mut bufs).is_err());
    assert_eq!(a.offset(), 4);
}

#[test]
fn adapter_forwards_failed_writes_and_flushes() {
    let a = Adapter::new(Narrow { limit: 4 });
    let err = a.write_all_at(b"abcdef", 0).unwrap_err();
    assert_eq!(err.kind(), ErrorKind::WriteZero);
    assert_eq!(a.write_all_at(b"abcd", 0), Ok(()));
    assert_eq!(a.write_all_at(b"", 9), Ok(()));
    assert_eq!(WriteAt::flush(&a), Err(Error::from_raw_os_error(ErrorKind::Other, 5)));
    assert_eq!(a.offset(), 0);
}

#[test]
fn read_at_the_last_offset_brings_nothing() {
    let mut a = Adapter::new([1u8, 2, 3]);
    assert_eq!(a.seek(SeekFrom::Start(u64::MAX)), Ok(u64::MAX));
    let mut buf = [9u8; 4];
    assert_eq!(a.read(&mut buf), Ok(0));
    assert_eq!(a.offset(), u64::MAX);
    assert_eq!(a.read_exact(&mut buf), Err(fill_buffer_error()));
    assert_eq!(a.offset(), u64::MAX);
    {
        let mut bufs: [&mut [u8]; 1] = [&mut buf];
        assert_eq!(a.read_vectored(&mut bufs), Ok(0));
    }
    assert_eq!(buf, [9u8; 4]);
    assert_eq!(a.offset(), u64::MAX);
}

#[test]
fn write_at_the_last_offset_to_a_full_sink() {
    let mut a = Adapter::new(Narrow { limit: 7 });
    assert_eq!(a.seek(SeekFrom::Start(u64::MAX)), Ok(u64::MAX));
    assert_eq!(a.write(b"abc"), Ok(0));
    assert_eq!(a.offset(), u64::MAX);
    assert_eq!(a.write_vectored(&[b"", b"abc"]), Ok(0));
    assert_eq!(a.offset(), u64::MAX);
    assert_eq!(a.write_all(b"abc").unwrap_err().kind(), ErrorKind::WriteZero);
    assert_eq!(a.offset(), u64::MAX);
}

#[test]
fn clone_stands_where_the_cursor_stood() {
    let mut a = Adapter::new(b"Hello World!\n".to_vec());
    assert_eq!(a.seek(SeekFrom::Start(6)), Ok(6));
    let mut b = a.clone();
    assert_eq!(b.offset(), 6);
    let mut buf = [0u8; 5];
    assert_eq!(b.read_exact(&mut buf), Ok(()));
    assert_eq!(&buf, b"World");
    assert_eq!(b.offset(), 11);
    assert_eq!(a.offset(), 6);
    assert_eq!(a.rewind(), Ok(()));
    assert_eq!(b.offset(), 11);
    assert_eq!(a.read_exact(&mut buf), Ok(()));
    assert_eq!(&buf, b"Hello");
}
