use std::io::Cursor;

use sync_file::{fill_buffer_error, Adapter, ReadAt, SeekFrom, Size};

#[test]
fn vec_cursor_reads_at_offsets() {
    let mut cursor = Cursor::new(b"Hello World!\n".to_vec());
    cursor.set_position(5);
    let mut buf = [0u8; 5];
    assert_eq!(cursor.read_at(&mut buf, 6), Ok(5));
    assert_eq!(&buf, b"World");
    assert_eq!(cursor.read_at(&mut buf, 11), Ok(2));
    assert_eq!(&buf[..2], b"!\n");
    assert_eq!(cursor.read_at(&mut buf, 40), Ok(0));
    assert_eq!(cursor.read_exact_at(&mut buf, 0), Ok(()));
    assert_eq!(&buf, b"Hello");
    assert_eq!(cursor.read_exact_at(&mut buf, 9), Err(fill_buffer_error()));
    assert_eq!(&buf, b"Hello");
    {
        let mut bufs: [&mut [u8]; 1] = [&mut buf];
        assert_eq!(cursor.read_vectored_at(&mut bufs, 1), Ok(5));
    }
    assert_eq!(&buf, b"ello ");
    assert_eq!(cursor.position(), 5);
    assert_eq!(cursor.size(), Ok(13));
}

#[test]
fn slice_cursor_reads_at_offsets() {
    let cursor = Cursor::new(&b"abcdefgh"[..]);
    let mut buf = [0u8; 3];
    assert_eq!(cursor.read_at(&mut buf, 6), Ok(2));
    assert_eq!(&buf[..2], b"gh");
    assert_eq!(cursor.read_exact_at(&mut buf, 5), Ok(()));
    assert_eq!(&buf, b"fgh");
    assert_eq!(cursor.read_exact_at(&mut buf, 6), Err(fill_buffer_error()));
    {
        let mut bufs: [&mut [u8]; 2] = [&mut [], &mut buf];
        assert_eq!(cursor.read_vectored_at(&mut bufs, 0), Ok(3));
    }
    assert_eq!(&buf, b"abc");
    assert_eq!(cursor.size(), Ok(8));
}

#[test]
fn adapter_over_cursor() {
    let mut a = Adapter::new(Cursor::new(b"0123456789".to_vec()));
    assert_eq!(a.seek(SeekFrom::Start(8)), Ok(8));
    let mut buf = [0u8; 4];
    assert_eq!(a.read(&mut buf), Ok(2));
    assert_eq!(&buf[..2], b"89");
    assert_eq!(a.offset(), 10);
    assert_eq!(a.get_ref().position(), 0);
}
