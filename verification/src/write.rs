//! Writing at an offset through a shared reference.

use vstd::prelude::*;
use crate::error::{write_buffer_error, Error};
use crate::exact::{spec_write_all_step, write_all_step, Step};
use crate::vectored::{
    contents_of,
    first_non_empty,
    first_to_send,
    lemma_first_non_empty,
    lemma_flatten_all_empty,
    lemma_flatten_from_first,
};

verus! {

/// The length of `total` bytes as far as a `usize` can say it.
pub open spec fn capped(total: nat) -> usize {
    if total <= usize::MAX as nat {
        total as usize
    } else {
        usize::MAX
    }
}

/// What writing the bytes `buf` at `offset` piece by piece comes to, `done`
/// of them being through, on a sink that answers a write of the bytes `b`
/// at `o` with `answer(b, o)`: the bytes that are left are offered at
/// `offset + done`, each byte thus at `offset` plus its place in `buf`, and
/// what the sink answers decides as `write_all_step` says. A sink that takes
/// some of them is offered the rest; one that takes none, or would have to
/// take them behind the last offset that a `u64` can name, ends the writing
/// with the failure of `write_buffer_error`; one that fails ends it with its
/// failure, an interruption too, since a sink that answers with one always
/// does. `None` where an answer that is needed is not fixed.
pub open spec fn write_all_result(
    answer: spec_fn(Seq<u8>, u64) -> Option<Result<usize, Error>>,
    buf: Seq<u8>,
    offset: u64,
    done: nat,
) -> Option<Result<(), Error>>
    decreases buf.len() - done,
{
    if done >= buf.len() {
        Some(Ok(()))
    } else if offset + done > u64::MAX {
        Some(Err(write_buffer_error()))
    } else {
        match answer(buf.subrange(done as int, buf.len() as int), (offset + done) as u64) {
            None => None,
            Some(res) => match spec_write_all_step(res) {
                Step::Advance(n) => if n <= buf.len() - done {
                    write_all_result(answer, buf, offset, done + n as nat)
                } else {
                    None
                },
                Step::Retry(e) => Some(Err(e)),
                Step::Stop(e) => Some(Err(e)),
            },
        }
    }
}

/// A sink of bytes that can be written at any offset through a shared
/// reference, so that writers do not disturb one another's position.
pub trait WriteAt {
    /// Whether the sink takes every byte that it is offered, whole and
    /// without fail, as a sink that throws its input away does; `false` for
    /// a sink such as a file, whose answer to a write is decided outside.
    open spec fn discards(&self) -> bool {
        false
    }

    /// What `write_at` returns for the bytes `bytes` at `offset`, where the
    /// sink alone fixes that; `None` where it is decided outside, as for a
    /// file. A sink that says so has `write_all_at` and `write_vectored_at`
    /// do what they do here.
    open spec fn answer(&self, bytes: Seq<u8>, offset: u64) -> Option<Result<usize, Error>> {
        None
    }

    /// Writes from `buf` at `offset` and returns how many bytes were taken.
    /// Fewer than `buf` holds is no failure.
    fn write_at(&self, buf: &[u8], offset: u64) -> (res: Result<usize, Error>)
        ensures
            res matches Ok(n) ==> n <= buf@.len(),
            self.discards() ==> (res matches Ok(n) && n == buf@.len()),
            self.answer(buf@, offset) matches Some(fixed) ==> res == fixed,
    ;

    /// Writes all of `buf` at `offset`, writing again behind what was taken
    /// until nothing is left. An interrupted write is made again; after
    /// `u64::MAX` interruptions in a row the last of them is returned. A
    /// write that takes nothing, or that would have to go on behind the last
    /// offset that a `u64` can name, gives the failure of
    /// `write_buffer_error`; any other failure is returned as it came. On a
    /// sink whose answers are fixed the result is the one that
    /// `write_all_result` gives.
    fn write_all_at(&self, buf: &[u8], offset: u64) -> (res: Result<(), Error>)
        ensures
            buf@.len() == 0 ==> res is Ok,
            self.discards() ==> res is Ok,
            write_all_result(|bytes: Seq<u8>, at: u64| self.answer(bytes, at), buf@, offset, 0)
                matches Some(fixed) ==> res == fixed,
    {
        let len = buf.len();
        let ghost answer = |bytes: Seq<u8>, at: u64| self.answer(bytes, at);
        let mut done: usize = 0;
        let mut retries: u64 = u64::MAX;
        while done < len
            invariant
                done <= len,
                len == buf@.len(),
                self.discards() ==> done == 0 || done == len,
                answer == |bytes: Seq<u8>, at: u64| self.answer(bytes, at),
                write_all_result(answer, buf@, offset, 0) is Some ==> write_all_result(
                    answer,
                    buf@,
                    offset,
                    done as nat,
                ) == write_all_result(answer, buf@, offset, 0),
            decreases len - done, retries,
        {
            let at = match offset.checked_add(done as u64) {
                Some(at) => at,
                None => {
                    return Err(write_buffer_error());
                },
            };
            let (_, rest) = buf.split_at(done);
            match write_all_step(self.write_at(rest, at)) {
                Step::Advance(n) => {
                    done = done + n;
                    retries = u64::MAX;
                },
                Step::Retry(e) => {
                    if retries == 0 {
                        return Err(e);
                    }
                    retries = retries - 1;
                },
                Step::Stop(e) => {
                    return Err(e);
                },
            }
        }
        Ok(())
    }

    /// Writes from the buffers of `bufs` in their order, as one write from
    /// all of them taken as one would, and returns how many bytes were
    /// taken. As it stands here it makes one write from the first buffer
    /// that holds bytes, or from an empty buffer where none does; the
    /// allowance for short writes covers that.
    fn write_vectored_at(&self, bufs: &[&[u8]], offset: u64) -> (res: Result<usize, Error>)
        ensures
            res matches Ok(n) ==> n <= contents_of(bufs@).flatten().len(),
            self.discards() ==> res is Ok && (contents_of(bufs@).flatten().len() > 0
                ==> res->Ok_0 > 0),
            match first_non_empty(contents_of(bufs@)) {
                Some(i) => self.answer(contents_of(bufs@)[i], offset) matches Some(fixed) ==> res
                    == fixed,
                None => self.answer(Seq::empty(), offset) matches Some(fixed) ==> res == fixed,
            },
    {
        match first_to_send(bufs) {
            Some(i) => {
                proof {
                    let all = contents_of(bufs@);
                    lemma_first_non_empty(all);
                    lemma_flatten_from_first(all, i as int, all[i as int]);
                    assert(all[i as int] == bufs@[i as int]@);
                }
                self.write_at(bufs[i], offset)
            },
            None => {
                proof {
                    lemma_first_non_empty(contents_of(bufs@));
                    lemma_flatten_all_empty(contents_of(bufs@));
                }
                let nothing: [u8; 0] = [];
                proof {
                    assert(nothing@ =~= Seq::<u8>::empty());
                }
                self.write_at(&nothing, offset)
            },
        }
    }

    /// Hands on to their destination what bytes the sink may be holding
    /// back. A sink that holds nothing back has nothing to do.
    fn flush(&self) -> (res: Result<(), Error>)
        ensures
            self.discards() ==> res is Ok,
    {
        Ok(())
    }
}

impl<W: WriteAt + ?Sized> WriteAt for &W {
    open spec fn discards(&self) -> bool {
        (**self).discards()
    }

    open spec fn answer(&self, bytes: Seq<u8>, offset: u64) -> Option<Result<usize, Error>> {
        (**self).answer(bytes, offset)
    }

    fn write_at(&self, buf: &[u8], offset: u64) -> (res: Result<usize, Error>) {
        (**self).write_at(buf, offset)
    }

    fn write_all_at(&self, buf: &[u8], offset: u64) -> (res: Result<(), Error>) {
        proof {
            assert((|bytes: Seq<u8>, at: u64| self.answer(bytes, at)) =~= (|
                bytes: Seq<u8>,
                at: u64,
            | (**self).answer(bytes, at)));
        }
        (**self).write_all_at(buf, offset)
    }

    fn write_vectored_at(&self, bufs: &[&[u8]], offset: u64) -> (res: Result<usize, Error>) {
        (**self).write_vectored_at(bufs, offset)
    }

    fn flush(&self) -> (res: Result<(), Error>) {
        (**self).flush()
    }
}

impl<W: WriteAt + ?Sized> WriteAt for Box<W> {
    open spec fn discards(&self) -> bool {
        (**self).discards()
    }

    open spec fn answer(&self, bytes: Seq<u8>, offset: u64) -> Option<Result<usize, Error>> {
        (**self).answer(bytes, offset)
    }

    fn write_at(&self, buf: &[u8], offset: u64) -> (res: Result<usize, Error>) {
        (**self).write_at(buf, offset)
    }

    fn write_all_at(&self, buf: &[u8], offset: u64) -> (res: Result<(), Error>) {
        proof {
            assert((|bytes: Seq<u8>, at: u64| self.answer(bytes, at)) =~= (|
                bytes: Seq<u8>,
                at: u64,
            | (**self).answer(bytes, at)));
        }
        (**self).write_all_at(buf, offset)
    }

    fn write_vectored_at(&self, bufs: &[&[u8]], offset: u64) -> (res: Result<usize, Error>) {
        (**self).write_vectored_at(bufs, offset)
    }

    fn flush(&self) -> (res: Result<(), Error>) {
        (**self).flush()
    }
}

impl<W: WriteAt + ?Sized> WriteAt for std::sync::Arc<W> {
    open spec fn discards(&self) -> bool {
        (**self).discards()
    }

    open spec fn answer(&self, bytes: Seq<u8>, offset: u64) -> Option<Result<usize, Error>> {
        (**self).answer(bytes, offset)
    }

    fn write_at(&self, buf: &[u8], offset: u64) -> (res: Result<usize, Error>) {
        (**self).write_at(buf, offset)
    }

    fn write_all_at(&self, buf: &[u8], offset: u64) -> (res: Result<(), Error>) {
        proof {
            assert((|bytes: Seq<u8>, at: u64| self.answer(bytes, at)) =~= (|
                bytes: Seq<u8>,
                at: u64,
            | (**self).answer(bytes, at)));
        }
        (**self).write_all_at(buf, offset)
    }

    fn write_vectored_at(&self, bufs: &[&[u8]], offset: u64) -> (res: Result<usize, Error>) {
        (**self).write_vectored_at(bufs, offset)
    }

    fn flush(&self) -> (res: Result<(), Error>) {
        (**self).flush()
    }
}

impl<W: WriteAt + ?Sized> WriteAt for std::rc::Rc<W> {
    open spec fn discards(&self) -> bool {
        (**self).discards()
    }

    open spec fn answer(&self, bytes: Seq<u8>, offset: u64) -> Option<Result<usize, Error>> {
        (**self).answer(bytes, offset)
    }

    fn write_at(&self, buf: &[u8], offset: u64) -> (res: Result<usize, Error>) {
        (**self).write_at(buf, offset)
    }

    fn write_all_at(&self, buf: &[u8], offset: u64) -> (res: Result<(), Error>) {
        proof {
            assert((|bytes: Seq<u8>, at: u64| self.answer(bytes, at)) =~= (|
                bytes: Seq<u8>,
                at: u64,
            | (**self).answer(bytes, at)));
        }
        (**self).write_all_at(buf, offset)
    }

    fn write_vectored_at(&self, bufs: &[&[u8]], offset: u64) -> (res: Result<usize, Error>) {
        (**self).write_vectored_at(bufs, offset)
    }

    fn flush(&self) -> (res: Result<(), Error>) {
        (**self).flush()
    }
}

/// `std::io::Sink`, the sink that throws its input away. The declaration
/// lets the type stand in this library's signatures; it claims nothing of
/// it.
#[verifier::external_type_specification]
#[verifier::external_body]
pub struct ExSink(std::io::Sink);

impl WriteAt for std::io::Sink {
    open spec fn discards(&self) -> bool {
        true
    }

    fn write_at(&self, buf: &[u8], offset: u64) -> (res: Result<usize, Error>) {
        Ok(buf.len())
    }

    fn write_all_at(&self, buf: &[u8], offset: u64) -> (res: Result<(), Error>) {
        Ok(())
    }

    /// Takes all buffers whole and returns how many bytes they hold
    /// together, or `usize::MAX` where that is more than a `usize` can say.
    fn write_vectored_at(&self, bufs: &[&[u8]], offset: u64) -> (res: Result<usize, Error>)
        ensures
            res == Ok::<usize, Error>(capped(contents_of(bufs@).flatten().len())),
    {
        let ghost all = contents_of(bufs@);
        let mut sum: usize = 0;
        let mut i: usize = 0;
        while i < bufs.len()
            invariant
                i <= bufs@.len(),
                all == contents_of(bufs@),
                sum == capped(all.subrange(0, i as int).flatten().len()),
            decreases bufs@.len() - i,
        {
            proof {
                let upto = all.subrange(0, i as int);
                assert(all.subrange(0, i as int + 1) =~= upto.push(all[i as int]));
                upto.lemma_flatten_push(all[i as int]);
            }
            sum = sum.saturating_add(bufs[i].len());
            i = i + 1;
        }
        proof {
            assert(all.subrange(0, i as int) =~= all);
        }
        Ok(sum)
    }
}

} // verus!
