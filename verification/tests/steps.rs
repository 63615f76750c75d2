use sync_file::exact::{read_exact_step, write_all_step, Step};
use sync_file::vectored::{first_to_fill, first_to_send};
use sync_file::{
    fill_buffer_error, invalid_seek, unsupported, write_buffer_error, Error, ErrorKind,
};

#[test]
fn read_step_on_each_outcome() {
    let interrupted = Error::new(ErrorKind::Interrupted, "again");
    let other = Error::from_raw_os_error(ErrorKind::Other, 13);
    assert_eq!(read_exact_step(Ok(3)), Step::Advance(3));
    assert_eq!(read_exact_step(Ok(0)), Step::Stop(fill_buffer_error()));
    assert_eq!(read_exact_step(Err(interrupted)), Step::Retry(interrupted));
    assert_eq!(read_exact_step(Err(other)), Step::Stop(other));
    assert_eq!(read_exact_step(Err(fill_buffer_error())), Step::Stop(fill_buffer_error()));
}

#[test]
fn write_step_on_each_outcome() {
    let interrupted = Error::new(ErrorKind::Interrupted, "again");
    let other = Error::from_raw_os_error(ErrorKind::Other, 28);
    assert_eq!(write_all_step(Ok(1)), Step::Advance(1));
    assert_eq!(write_all_step(Ok(0)), Step::Stop(write_buffer_error()));
    assert_eq!(write_all_step(Err(interrupted)), Step::Retry(interrupted));
    assert_eq!(write_all_step(Err(other)), Step::Stop(other));
}

#[test]
fn the_four_failures() {
    let eof = fill_buffer_error();
    assert_eq!(eof.kind(), ErrorKind::UnexpectedEof);
    assert_eq!(eof.message(), "failed to fill whole buffer");
    assert_eq!(eof.raw_os_error(), None);
    assert!(!eof.is_interrupted());

    let zero = write_buffer_error();
    assert_eq!(zero.kind(), ErrorKind::WriteZero);
    assert_eq!(zero.message(), "failed to write whole buffer");

    let seek = invalid_seek();
    assert_eq!(seek.kind(), ErrorKind::InvalidInput);
    assert_eq!(seek.message(), "invalid seek to a negative or overflowing position");

    let end = unsupported();
    assert_eq!(end.kind(), ErrorKind::Unsupported);
    assert_eq!(end.message(), "unsupported seek to end of stream");
}

#[test]
fn error_constructors() {
    let e = Error::new(ErrorKind::Interrupted, "try again");
    assert_eq!(e.kind(), ErrorKind::Interrupted);
    assert_eq!(e.message(), "try again");
    assert_eq!(e.raw_os_error(), None);
    assert!(e.is_interrupted());

    let os = Error::from_raw_os_error(ErrorKind::Other, 2);
    assert_eq!(os.kind(), ErrorKind::Other);
    assert_eq!(os.raw_os_error(), Some(2));
    assert_eq!(os.message(), "");
    assert!(!os.is_interrupted());
}

#[test]
fn first_buffer_to_fill() {
    let mut a = [0u8; 0];
    let mut b = [0u8; 0];
    let mut c = [0u8; 2];
    let mut d = [0u8; 1];
    let bufs: [&mut [u8]; 4] = [&mut a, &mut b, &mut c, &mut d];
    assert_eq!(first_to_fill(&bufs), Some(2));
    assert_eq!(first_to_fill(&bufs[..2]), None);
    assert_eq!(first_to_fill(&bufs[..0]), None);
    assert_eq!(first_to_fill(&bufs[3..]), Some(0));
}

#[test]
fn first_buffer_to_send() {
    let bufs: [&[u8]; 3] = [b"", b"xy", b"z"];
    assert_eq!(first_to_send(&bufs), Some(1));
    assert_eq!(first_to_send(&bufs[..1]), None);
    assert_eq!(first_to_send(&[]), None);
    assert_eq!(first_to_send(&bufs[2..]), Some(0));
}
