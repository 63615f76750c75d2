//! Positional reads from the buffer inside a `std::io::Cursor`.

use vstd::prelude::*;
use std::io::Cursor;
use crate::error::{fill_buffer_error, Error};
use crate::read::ReadAt;
use crate::size::Size;

verus! {

/// `std::io::Cursor`, a buffer with a position. The declaration lets the
/// type stand in this library's signatures; it claims nothing of it.
#[verifier::external_type_specification]
#[verifier::external_body]
#[verifier::reject_recursive_types(T)]
pub struct ExCursor<T>(Cursor<T>);

/// The bytes of the vector that a cursor wraps.
pub uninterp spec fn vec_cursor_bytes(cursor: Cursor<Vec<u8>>) -> Seq<u8>;

/// The bytes of the slice that a cursor wraps.
pub uninterp spec fn slice_cursor_bytes(cursor: Cursor<&[u8]>) -> Seq<u8>;

/// `Cursor::get_ref` on a cursor over a vector: a reference to the vector
/// inside, whatever the cursor's position. The bytes handed out are taken to
/// be those that `vec_cursor_bytes` names.
#[verifier::external_body]
fn vec_cursor_get_ref(cursor: &Cursor<Vec<u8>>) -> (bytes: &[u8])
    ensures
        bytes@ == vec_cursor_bytes(*cursor),
{
    cursor.get_ref()
}

/// `Cursor::get_ref` on a cursor over a slice: the slice inside, whatever
/// the cursor's position. The bytes handed out are taken to be those that
/// `slice_cursor_bytes` names.
#[verifier::external_body]
fn slice_cursor_get_ref<'a>(cursor: &Cursor<&'a [u8]>) -> (bytes: &'a [u8])
    ensures
        bytes@ == slice_cursor_bytes(*cursor),
{
    cursor.get_ref()
}

impl ReadAt for Cursor<Vec<u8>> {
    open spec fn content(&self) -> Option<Seq<u8>> {
        Some(vec_cursor_bytes(*self))
    }

    fn read_at(&self, buf: &mut [u8], offset: u64) -> (res: Result<usize, Error>) {
        vec_cursor_get_ref(self).read_at(buf, offset)
    }

    fn read_exact_at(&self, buf: &mut [u8], offset: u64) -> (res: Result<(), Error>)
        ensures
            res is Ok <==> offset as nat <= vec_cursor_bytes(*self).len() && old(buf)@.len()
                <= vec_cursor_bytes(*self).len() - offset as nat,
            res is Err ==> res == Err::<(), Error>(fill_buffer_error()) && final(buf)@ == old(buf)@,
    {
        vec_cursor_get_ref(self).read_exact_at(buf, offset)
    }

    fn read_vectored_at(&self, bufs: &mut [&mut [u8]], offset: u64) -> (res: Result<usize, Error>) {
        vec_cursor_get_ref(self).read_vectored_at(bufs, offset)
    }
}

impl ReadAt for Cursor<&[u8]> {
    open spec fn content(&self) -> Option<Seq<u8>> {
        Some(slice_cursor_bytes(*self))
    }

    fn read_at(&self, buf: &mut [u8], offset: u64) -> (res: Result<usize, Error>) {
        slice_cursor_get_ref(self).read_at(buf, offset)
    }

    fn read_exact_at(&self, buf: &mut [u8], offset: u64) -> (res: Result<(), Error>)
        ensures
            res is Ok <==> offset as nat <= slice_cursor_bytes(*self).len() && old(buf)@.len()
                <= slice_cursor_bytes(*self).len() - offset as nat,
            res is Err ==> res == Err::<(), Error>(fill_buffer_error()) && final(buf)@ == old(buf)@,
    {
        slice_cursor_get_ref(self).read_exact_at(buf, offset)
    }

    fn read_vectored_at(&self, bufs: &mut [&mut [u8]], offset: u64) -> (res: Result<usize, Error>) {
        slice_cursor_get_ref(self).read_vectored_at(bufs, offset)
    }
}

impl Size for Cursor<Vec<u8>> {
    open spec fn fixed_size(&self) -> Option<nat> {
        Some(vec_cursor_bytes(*self).len())
    }

    fn size(&self) -> (res: Result<u64, Error>) {
        Ok(vec_cursor_get_ref(self).len() as u64)
    }
}

impl Size for Cursor<&[u8]> {
    open spec fn fixed_size(&self) -> Option<nat> {
        Some(slice_cursor_bytes(*self).len())
    }

    fn size(&self) -> (res: Result<u64, Error>) {
        Ok(slice_cursor_get_ref(self).len() as u64)
    }
}

} // verus!
