//! A cursor over a positional source or sink.

use vstd::prelude::*;
use crate::error::{invalid_seek, unsupported, Error};
use crate::read::{
    exact_read_post,
    first_buffer_read_post,
    holds_range,
    piece_read_post,
    read_exact_result,
    read_into,
    read_len,
    ReadAt,
};
use crate::vectored::{contents, contents_of, first_non_empty};
use crate::write::{write_all_result, WriteAt};

verus! {

/// Where a seek is to go: to an offset counted from the start, or by a
/// signed distance from the end or from the current offset.
#[derive(Clone, Copy, Debug, PartialEq, Eq)]
pub enum SeekFrom {
    /// The offset itself.
    Start(u64),
    /// The end of the stream plus this distance.
    End(i64),
    /// The current offset plus this distance.
    Current(i64),
}

/// The result of a seek to `pos` from the offset `offset` by a cursor that
/// does not know where its stream ends: the new offset, or, where the seek
/// is refused, the failure.
pub open spec fn seek_target(offset: u64, pos: SeekFrom) -> Result<u64, Error> {
    match pos {
        SeekFrom::Start(n) => Ok(n),
        SeekFrom::Current(delta) => if 0 <= offset + delta <= u64::MAX {
            Ok((offset + delta) as u64)
        } else {
            Err(invalid_seek())
        },
        SeekFrom::End(_) => Err(unsupported()),
    }
}

/// The offset of a cursor that stood at `offset` after a seek to `pos`: the
/// target where the seek went through, and `offset` where it was refused.
pub open spec fn offset_after_seek(offset: u64, pos: SeekFrom) -> u64 {
    match seek_target(offset, pos) {
        Ok(n) => n,
        Err(_) => offset,
    }
}

/// After a seek that went through, the offset is the one that the seek
/// returned; after a refused seek, it is the one from before.
pub proof fn lemma_offset_follows_seek(offset: u64, pos: SeekFrom)
    ensures
        seek_target(offset, pos) matches Ok(n) ==> offset_after_seek(offset, pos) == n,
        seek_target(offset, pos) is Err ==> offset_after_seek(offset, pos) == offset,
{
}

/// A seek by a distance from the current offset goes through exactly where
/// the sum is an offset, and then leads to the sum; otherwise it is refused
/// as a seek to a negative or overflowing position.
pub proof fn lemma_relative_seek(offset: u64, delta: i64)
    ensures
        0 <= offset + delta <= u64::MAX ==> seek_target(offset, SeekFrom::Current(delta)) == Ok::<
            u64,
            Error,
        >((offset + delta) as u64),
        !(0 <= offset + delta <= u64::MAX) ==> seek_target(offset, SeekFrom::Current(delta))
            == Err::<u64, Error>(invalid_seek()),
{
}

/// A seek to the start leads to offset 0 from anywhere, so that doing it
/// again changes nothing.
pub proof fn lemma_seek_to_start(offset: u64)
    ensures
        offset_after_seek(offset, SeekFrom::Start(0)) == 0,
        offset_after_seek(offset_after_seek(offset, SeekFrom::Start(0)), SeekFrom::Start(0)) == 0,
{
}

/// A positional value together with an offset of its own, which makes it a
/// sequential stream: each transfer starts at the offset and moves it on by
/// what went through.
#[derive(Debug, Copy)]
pub struct Adapter<T> {
    offset: u64,
    inner: T,
}

impl<T: Clone> Clone for Adapter<T> {
    /// A cursor over a clone of the inner value that stands where this one
    /// stands. From then on each of the two moves by its own transfers and
    /// seeks alone.
    fn clone(&self) -> (copy: Self)
        ensures
            copy.position() == self.position(),
            cloned(self.inner(), copy.inner()),
    {
        Adapter { offset: self.offset, inner: self.inner.clone() }
    }
}

impl<T> Adapter<T> {
    /// The value that the cursor runs over.
    pub closed spec fn inner(&self) -> T {
        self.inner
    }

    /// A cursor over `inner` that stands at offset 0.
    pub fn new(inner: T) -> (adapter: Self)
        ensures
            adapter.position() == 0,
            adapter.inner() == inner,
    {
        Self { offset: 0, inner }
    }

    /// Gives back the value that the cursor ran over.
    pub fn into_inner(self) -> (inner: T)
        ensures
            inner == self.inner(),
    {
        self.inner
    }

    /// The offset at which the next transfer starts.
    pub closed spec fn position(&self) -> u64 {
        self.offset
    }

    /// The offset at which the next transfer starts.
    #[verifier::when_used_as_spec(position)]
    pub fn offset(&self) -> (offset: u64)
        ensures
            offset == self.position(),
    {
        self.offset
    }

    /// The value that the cursor runs over.
    pub fn get_ref(&self) -> (inner: &T)
        ensures
            *inner == self.inner(),
    {
        &self.inner
    }

    /// The value that the cursor runs over, to be changed in place. The
    /// offset stays where it is.
    pub fn get_mut(&mut self) -> (inner: &mut T)
        ensures
            *inner == old(self).inner(),
            final(self).inner() == *final(inner),
            final(self).position() == old(self).position(),
    {
        &mut self.inner
    }

    /// Moves the offset to `pos`. A move by a distance from the current
    /// offset is refused where it would end before the start or behind the
    /// last offset that a `u64` can name, and a move by a distance from the
    /// end is refused always, since the cursor does not know where its
    /// stream ends. A refused move leaves the offset where it was.
    pub fn seek(&mut self, pos: SeekFrom) -> (res: Result<u64, Error>)
        ensures
            res == seek_target(old(self).position(), pos),
            final(self).position() == offset_after_seek(old(self).position(), pos),
            final(self).inner() == old(self).inner(),
    {
        match pos {
            SeekFrom::Start(n) => {
                self.offset = n;
                Ok(n)
            },
            SeekFrom::Current(delta) => {
                match self.offset.checked_add_signed(delta) {
                    Some(n) => {
                        self.offset = n;
                        Ok(n)
                    },
                    None => Err(invalid_seek()),
                }
            },
            SeekFrom::End(_) => Err(unsupported()),
        }
    }

    /// Moves the offset back to the start.
    pub fn rewind(&mut self) -> (res: Result<(), Error>)
        ensures
            res is Ok,
            final(self).position() == 0,
            final(self).inner() == old(self).inner(),
    {
        self.offset = 0;
        Ok(())
    }

    /// The offset at which the next transfer starts.
    pub fn stream_position(&mut self) -> (res: Result<u64, Error>)
        ensures
            res == Ok::<u64, Error>(old(self).position()),
            final(self).position() == old(self).position(),
            final(self).inner() == old(self).inner(),
    {
        Ok(self.offset)
    }
}

impl<T: ReadAt> ReadAt for Adapter<T> {
    open spec fn content(&self) -> Option<Seq<u8>> {
        self.inner().content()
    }

    open spec fn delivers(&self, len: nat, offset: u64) -> Option<Result<Seq<u8>, Error>> {
        self.inner().delivers(len, offset)
    }

    fn read_at(&self, buf: &mut [u8], offset: u64) -> (res: Result<usize, Error>) {
        self.inner.read_at(buf, offset)
    }

    fn read_exact_at(&self, buf: &mut [u8], offset: u64) -> (res: Result<(), Error>) {
        proof {
            assert((|len: nat, at: u64| self.delivers(len, at)) =~= (|len: nat, at: u64|
                self.inner.delivers(len, at)));
        }
        self.inner.read_exact_at(buf, offset)
    }

    fn read_vectored_at(&self, bufs: &mut [&mut [u8]], offset: u64) -> (res: Result<usize, Error>) {
        self.inner.read_vectored_at(bufs, offset)
    }
}

impl<T: WriteAt> WriteAt for Adapter<T> {
    open spec fn discards(&self) -> bool {
        self.inner().discards()
    }

    open spec fn answer(&self, bytes: Seq<u8>, offset: u64) -> Option<Result<usize, Error>> {
        self.inner().answer(bytes, offset)
    }

    fn write_at(&self, buf: &[u8], offset: u64) -> (res: Result<usize, Error>) {
        self.inner.write_at(buf, offset)
    }

    fn write_all_at(&self, buf: &[u8], offset: u64) -> (res: Result<(), Error>) {
        proof {
            assert((|bytes: Seq<u8>, at: u64| self.answer(bytes, at)) =~= (|
                bytes: Seq<u8>,
                at: u64,
            | self.inner.answer(bytes, at)));
        }
        self.inner.write_all_at(buf, offset)
    }

    fn write_vectored_at(&self, bufs: &[&[u8]], offset: u64) -> (res: Result<usize, Error>) {
        self.inner.write_vectored_at(bufs, offset)
    }

    fn flush(&self) -> (res: Result<(), Error>) {
        self.inner.flush()
    }
}

/// The offset of a cursor that stood at `offset` after a transfer with the
/// result `res`: moved on by what went through, and unmoved by a failure.
pub open spec fn offset_after(offset: u64, res: Result<usize, Error>) -> int {
    match res {
        Ok(n) => offset + n,
        Err(_) => offset as int,
    }
}

/// The offset of a cursor that stood at `offset` after an exact transfer of
/// `len` bytes with the result `res`: moved on by `len` where all of it went
/// through, and unmoved by a failure.
pub open spec fn offset_after_exact(offset: u64, len: nat, res: Result<(), Error>) -> int {
    match res {
        Ok(_) => offset + len,
        Err(_) => offset as int,
    }
}

/// The length of the first buffer that holds something, or 0.
pub open spec fn first_len(bufs: Seq<Seq<u8>>) -> nat {
    match first_non_empty(bufs) {
        Some(i) => bufs[i].len(),
        None => 0,
    }
}

/// The most bytes that one read into a buffer of `len` bytes at `offset` can
/// bring, as far as `source` says beforehand: what it has left or delivers
/// where that is fixed, and `len` where it is not.
pub open spec fn most_read<T: ReadAt>(source: T, len: nat, offset: u64) -> nat {
    match source.content() {
        Some(src) => read_len(src, len, offset),
        None => match source.delivers(len, offset) {
            Some(Ok(bytes)) => bytes.len(),
            Some(Err(_)) => 0,
            None => len,
        },
    }
}

/// The bytes by which an exact read of `len` bytes at `offset` can move a
/// cursor on, as far as `source` says beforehand: none where its content is
/// fixed and does not hold the range, else `len`.
pub open spec fn most_read_exact<T: ReadAt>(source: T, len: nat, offset: u64) -> nat {
    match source.content() {
        Some(src) => if holds_range(src, len, offset) {
            len
        } else {
            0
        },
        None => len,
    }
}

/// The most bytes that one read into the buffers `bufs` at `offset` can
/// bring, as far as `source` says beforehand: what goes into the first
/// buffer with room where that is fixed, and what all buffers hold where it
/// is not.
pub open spec fn most_read_vectored<T: ReadAt>(
    source: T,
    bufs: Seq<Seq<u8>>,
    offset: u64,
) -> nat {
    match source.content() {
        Some(src) => read_len(src, first_len(bufs), offset),
        None => match source.delivers(first_len(bufs), offset) {
            Some(Ok(bytes)) => bytes.len(),
            Some(Err(_)) => 0,
            None => bufs.flatten().len(),
        },
    }
}

/// The most bytes that one write of `bytes` at `offset` can place, as far as
/// `sink` says beforehand: what it answers where that is fixed, and all of
/// them where it is not.
pub open spec fn most_written<T: WriteAt>(sink: T, bytes: Seq<u8>, offset: u64) -> nat {
    match sink.answer(bytes, offset) {
        Some(Ok(n)) => n as nat,
        Some(Err(_)) => 0,
        None => bytes.len(),
    }
}

/// The bytes by which an exact write of `bytes` at `offset` can move a
/// cursor on, as far as `sink` says beforehand: none where its answers are
/// fixed and end in a failure, else all of them.
pub open spec fn most_written_all<T: WriteAt>(sink: T, bytes: Seq<u8>, offset: u64) -> nat {
    match write_all_result(|b: Seq<u8>, at: u64| sink.answer(b, at), bytes, offset, 0) {
        Some(Err(_)) => 0,
        _ => bytes.len(),
    }
}

/// The most bytes that one write from the buffers `bufs` at `offset` can
/// place, as far as `sink` says beforehand: what it answers for the first
/// buffer that holds bytes where that is fixed, and what all buffers hold
/// where it is not.
pub open spec fn most_written_vectored<T: WriteAt>(
    sink: T,
    bufs: Seq<Seq<u8>>,
    offset: u64,
) -> nat {
    let first = match first_non_empty(bufs) {
        Some(i) => bufs[i],
        None => Seq::empty(),
    };
    match sink.answer(first, offset) {
        Some(Ok(n)) => n as nat,
        Some(Err(_)) => 0,
        None => bufs.flatten().len(),
    }
}

impl<T: ReadAt> Adapter<T> {
    /// Reads into `buf` at the offset and moves the offset on by the bytes
    /// that arrived. A failed read leaves the offset where it was. The
    /// offset must have room for the most that the read can bring.
    pub fn read(&mut self, buf: &mut [u8]) -> (res: Result<usize, Error>)
        requires
            old(self).position() + most_read(
                old(self).inner(),
                old(buf)@.len(),
                old(self).position(),
            ) <= u64::MAX,
        ensures
            final(self).inner() == old(self).inner(),
            final(self).position() == offset_after(old(self).position(), res),
            final(buf)@.len() == old(buf)@.len(),
            res matches Ok(n) ==> n <= old(buf)@.len(),
            old(self).inner().content() matches Some(src) ==> {
                &&& res matches Ok(n) && n == read_len(src, old(buf)@.len(), old(self).position())
                &&& final(buf)@ == read_into(src, old(buf)@, old(self).position())
            },
            old(self).inner().delivers(old(buf)@.len(), old(self).position()) matches Some(
                fixed,
            ) ==> piece_read_post(fixed, old(buf)@, final(buf)@, res),
    {
        let res = self.inner.read_at(buf, self.offset);
        if let Ok(n) = res {
            self.offset = self.offset + n as u64;
        }
        res
    }

    /// Fills `buf` from the offset on and moves the offset behind the bytes
    /// read, if and only if all of them arrived. The offset must have room
    /// for them, unless the source is known not to hold them.
    pub fn read_exact(&mut self, buf: &mut [u8]) -> (res: Result<(), Error>)
        requires
            old(self).position() + most_read_exact(
                old(self).inner(),
                old(buf)@.len(),
                old(self).position(),
            ) <= u64::MAX,
        ensures
            final(self).inner() == old(self).inner(),
            final(self).position() == offset_after_exact(
                old(self).position(),
                old(buf)@.len(),
                res,
            ),
            final(buf)@.len() == old(buf)@.len(),
            old(self).inner().content() matches Some(src) ==> exact_read_post(
                src,
                old(buf)@.len(),
                old(self).position(),
                final(buf)@,
                res,
            ),
            old(self).inner().content() is None ==> (read_exact_result(
                |len: nat, at: u64| old(self).inner().delivers(len, at),
                old(buf)@,
                old(self).position(),
                0,
            ) matches Some(fixed) ==> res == fixed.0 && final(buf)@ == fixed.1),
    {
        proof {
            assert((|len: nat, at: u64| old(self).inner().delivers(len, at)) =~= (|
                len: nat,
                at: u64,
            | self.inner.delivers(len, at)));
        }
        let res = self.inner.read_exact_at(buf, self.offset);
        if res.is_ok() {
            self.offset = self.offset + buf.len() as u64;
        }
        res
    }

    /// Reads into the buffers of `bufs` at the offset and moves the offset
    /// on by the bytes that arrived. A failed read leaves the offset where
    /// it was. The offset must have room for the most that the read can
    /// bring.
    pub fn read_vectored(&mut self, bufs: &mut [&mut [u8]]) -> (res: Result<usize, Error>)
        requires
            old(self).position() + most_read_vectored(
                old(self).inner(),
                contents(old(bufs)@),
                old(self).position(),
            ) <= u64::MAX,
        ensures
            final(self).inner() == old(self).inner(),
            final(self).position() == offset_after(old(self).position(), res),
            final(bufs)@.len() == old(bufs)@.len(),
            forall|i: int|
                0 <= i < old(bufs)@.len() ==> final(#[trigger] final(bufs)@[i])@
                    == final(old(bufs)@[i])@,
            forall|i: int|
                0 <= i < old(bufs)@.len() ==> (#[trigger] contents(final(bufs)@)[i]).len()
                    == contents(old(bufs)@)[i].len(),
            res matches Ok(n) ==> n <= contents(old(bufs)@).flatten().len(),
            old(self).inner().content() matches Some(src) ==> first_buffer_read_post(
                src,
                contents(old(bufs)@),
                old(self).position(),
                contents(final(bufs)@),
                res,
            ),
            match first_non_empty(contents(old(bufs)@)) {
                Some(i) => old(self).inner().delivers(
                    contents(old(bufs)@)[i].len(),
                    old(self).position(),
                ) matches Some(fixed) ==> {
                    &&& piece_read_post(
                        fixed,
                        contents(old(bufs)@)[i],
                        contents(final(bufs)@)[i],
                        res,
                    )
                    &&& contents(final(bufs)@) == contents(old(bufs)@).update(
                        i,
                        contents(final(bufs)@)[i],
                    )
                },
                None => old(self).inner().delivers(0, old(self).position()) matches Some(
                    fixed,
                ) ==> {
                    &&& piece_read_post(fixed, Seq::empty(), Seq::empty(), res)
                    &&& contents(final(bufs)@) == contents(old(bufs)@)
                },
            },
    {
        let res = self.inner.read_vectored_at(bufs, self.offset);
        if let Ok(n) = res {
            self.offset = self.offset + n as u64;
        }
        res
    }
}

impl<T: WriteAt> Adapter<T> {
    /// Writes from `buf` at the offset and moves the offset on by the bytes
    /// that were taken. A failed write leaves the offset where it was. The
    /// offset must have room for the most that the write can place.
    pub fn write(&mut self, buf: &[u8]) -> (res: Result<usize, Error>)
        requires
            old(self).position() + most_written(old(self).inner(), buf@, old(self).position())
                <= u64::MAX,
        ensures
            final(self).inner() == old(self).inner(),
            final(self).position() == offset_after(old(self).position(), res),
            res matches Ok(n) ==> n <= buf@.len(),
            old(self).inner().discards() ==> (res matches Ok(n) && n == buf@.len()),
            old(self).inner().answer(buf@, old(self).position()) matches Some(fixed) ==> res
                == fixed,
    {
        let res = self.inner.write_at(buf, self.offset);
        if let Ok(n) = res {
            self.offset = self.offset + n as u64;
        }
        res
    }

    /// Writes all of `buf` from the offset on and moves the offset behind
    /// the bytes written, if and only if all of them were taken. The offset
    /// must have room for them, unless the sink is known to fail.
    pub fn write_all(&mut self, buf: &[u8]) -> (res: Result<(), Error>)
        requires
            old(self).position() + most_written_all(old(self).inner(), buf@, old(self).position())
                <= u64::MAX,
        ensures
            final(self).inner() == old(self).inner(),
            final(self).position() == offset_after_exact(old(self).position(), buf@.len(), res),
            buf@.len() == 0 ==> res is Ok,
            old(self).inner().discards() ==> res is Ok,
            write_all_result(
                |bytes: Seq<u8>, at: u64| old(self).inner().answer(bytes, at),
                buf@,
                old(self).position(),
                0,
            ) matches Some(fixed) ==> res == fixed,
    {
        proof {
            assert((|bytes: Seq<u8>, at: u64| old(self).inner().answer(bytes, at)) =~= (|
                bytes: Seq<u8>,
                at: u64,
            | self.inner.answer(bytes, at)));
        }
        let res = self.inner.write_all_at(buf, self.offset);
        if res.is_ok() {
            self.offset = self.offset + buf.len() as u64;
        }
        res
    }

    /// Writes from the buffers of `bufs` at the offset and moves the offset
    /// on by the bytes that were taken. A failed write leaves the offset
    /// where it was. The offset must have room for the most that the write
    /// can place.
    pub fn write_vectored(&mut self, bufs: &[&[u8]]) -> (res: Result<usize, Error>)
        requires
            old(self).position() + most_written_vectored(
                old(self).inner(),
                contents_of(bufs@),
                old(self).position(),
            ) <= u64::MAX,
        ensures
            final(self).inner() == old(self).inner(),
            final(self).position() == offset_after(old(self).position(), res),
            res matches Ok(n) ==> n <= contents_of(bufs@).flatten().len(),
            old(self).inner().discards() ==> res is Ok && (contents_of(bufs@).flatten().len() > 0
                ==> res->Ok_0 > 0),
            match first_non_empty(contents_of(bufs@)) {
                Some(i) => old(self).inner().answer(contents_of(bufs@)[i], old(self).position())
                    matches Some(fixed) ==> res == fixed,
                None => old(self).inner().answer(Seq::empty(), old(self).position()) matches Some(
                    fixed,
                ) ==> res == fixed,
            },
    {
        let res = self.inner.write_vectored_at(bufs, self.offset);
        if let Ok(n) = res {
            self.offset = self.offset + n as u64;
        }
        res
    }

    /// Has the sink underneath hand on what it may be holding back. The
    /// offset stays where it is.
    pub fn flush(&mut self) -> (res: Result<(), Error>)
        ensures
            final(self).inner() == old(self).inner(),
            final(self).position() == old(self).position(),
            old(self).inner().discards() ==> res is Ok,
    {
        self.inner.flush()
    }
}

} // verus!
