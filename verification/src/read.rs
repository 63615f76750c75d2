//! Reading at an offset through a shared reference.

use vstd::prelude::*;
use std::borrow::Cow;
use crate::error::{fill_buffer_error, Error};
use crate::exact::{read_exact_step, Step};
use crate::vectored::{
    contents,
    first_non_empty,
    first_to_fill,
    lemma_first_non_empty,
    lemma_flatten_all_empty,
    lemma_flatten_from_first,
};

verus! {

/// How many bytes a read into a buffer of `len` bytes takes from `src` at
/// `offset`: all that the buffer holds or all that is left, whichever is
/// less, and nothing from an offset past the end.
pub open spec fn read_len(src: Seq<u8>, len: nat, offset: u64) -> nat {
    if offset as nat >= src.len() {
        0
    } else if len <= src.len() - offset as nat {
        len
    } else {
        (src.len() - offset as nat) as nat
    }
}

/// The buffer after such a read: its first `read_len` bytes are those of
/// `src` from `offset` on, the rest is as it was.
pub open spec fn read_into(src: Seq<u8>, buf: Seq<u8>, offset: u64) -> Seq<u8> {
    let n = read_len(src, buf.len(), offset);
    if n == 0 {
        buf
    } else {
        src.subrange(offset as int, offset as int + n as int) + buf.subrange(n as int, buf.len() as int)
    }
}

/// Whether `src` holds `len` bytes from `offset` on.
pub open spec fn holds_range(src: Seq<u8>, len: nat, offset: u64) -> bool {
    offset as nat + len <= src.len()
}

/// What an exact read of `len` bytes at `offset` owes on a source whose
/// content is fixed at `src`, given the buffer `after` and the result: where
/// the source holds the range, the buffer gets exactly that range; where it
/// does not and bytes were asked for, the read fails on the end of the
/// source.
pub open spec fn exact_read_post(
    src: Seq<u8>,
    len: nat,
    offset: u64,
    after: Seq<u8>,
    res: Result<(), Error>,
) -> bool {
    if holds_range(src, len, offset) {
        res is Ok && after == src.subrange(offset as int, offset as int + len as int)
    } else if len > 0 {
        res == Err::<(), Error>(fill_buffer_error())
    } else {
        res is Ok || res == Err::<(), Error>(fill_buffer_error())
    }
}

/// A read at an offset within `src` takes as many bytes as the buffer holds
/// or as `src` has left, whichever is less, and puts the bytes of `src` from
/// the offset on at the front of the buffer; a read at an offset behind the
/// end takes nothing. The buffer keeps its length, and what lies behind the
/// bytes read stays as it was.
pub proof fn lemma_read_takes_what_is_there(src: Seq<u8>, buf: Seq<u8>, offset: u64)
    ensures
        offset as nat <= src.len() ==> read_len(src, buf.len(), offset) == vstd::math::min(
            buf.len() as int,
            src.len() - offset as int,
        ),
        offset as nat > src.len() ==> read_len(src, buf.len(), offset) == 0,
        offset as nat > src.len() ==> read_into(src, buf, offset) == buf,
        read_into(src, buf, offset).len() == buf.len(),
        offset as nat <= src.len() ==> read_into(src, buf, offset).subrange(
            0,
            read_len(src, buf.len(), offset) as int,
        ) == src.subrange(offset as int, offset as int + read_len(src, buf.len(), offset) as int),
        read_into(src, buf, offset).subrange(
            read_len(src, buf.len(), offset) as int,
            buf.len() as int,
        ) == buf.subrange(read_len(src, buf.len(), offset) as int, buf.len() as int),
{
    let n = read_len(src, buf.len(), offset) as int;
    let after = read_into(src, buf, offset);
    if n == 0 {
        if offset as nat <= src.len() {
            assert(after.subrange(0, 0) =~= src.subrange(offset as int, offset as int));
        }
    } else {
        assert(after.subrange(0, n) =~= src.subrange(offset as int, offset as int + n));
        assert(after.subrange(n, buf.len() as int) =~= buf.subrange(n, buf.len() as int));
    }
}

/// Where `src` holds the range that an exact read asks for, a single read
/// fills the buffer with that range, so that both leave the same bytes; and
/// where it does not, a single read leaves a buffer that is not empty short.
pub proof fn lemma_exact_read_is_full_read(src: Seq<u8>, buf: Seq<u8>, offset: u64)
    ensures
        holds_range(src, buf.len(), offset) ==> read_len(src, buf.len(), offset) == buf.len()
            && read_into(src, buf, offset) == src.subrange(
            offset as int,
            offset as int + buf.len() as int,
        ),
        !holds_range(src, buf.len(), offset) && buf.len() > 0 ==> read_len(src, buf.len(), offset)
            < buf.len(),
{
    if holds_range(src, buf.len(), offset) {
        if buf.len() == 0 {
            assert(buf =~= src.subrange(offset as int, offset as int));
        } else {
            assert(read_into(src, buf, offset) =~= src.subrange(
                offset as int,
                offset as int + buf.len() as int,
            ));
        }
    }
}

/// What a read into several buffers owes on a source whose content is fixed
/// at `src`: it is one read into the buffers taken as one, which may stop
/// short, but not at nothing while the source has bytes and the buffers have
/// room.
pub open spec fn vectored_read_post(
    src: Seq<u8>,
    before: Seq<Seq<u8>>,
    offset: u64,
    after: Seq<Seq<u8>>,
    res: Result<usize, Error>,
) -> bool {
    let all = before.flatten();
    let most = read_len(src, all.len(), offset);
    res matches Ok(n) && {
        &&& n <= most
        &&& most > 0 ==> n > 0
        &&& after.flatten() == if n == 0 {
            all
        } else {
            src.subrange(offset as int, offset as int + n as int) + all.subrange(
                n as int,
                all.len() as int,
            )
        }
    }
}

/// What a read into several buffers owes on a source whose content is fixed
/// at `src` when it is done as one read into the first buffer that has room:
/// that buffer is read into as by `read_at`, and no other changes.
pub open spec fn first_buffer_read_post(
    src: Seq<u8>,
    before: Seq<Seq<u8>>,
    offset: u64,
    after: Seq<Seq<u8>>,
    res: Result<usize, Error>,
) -> bool {
    match first_non_empty(before) {
        Some(i) => {
            &&& res matches Ok(n) && n == read_len(src, before[i].len(), offset)
            &&& after == before.update(i, read_into(src, before[i], offset))
        },
        None => res == Ok::<usize, Error>(0usize) && after == before,
    }
}

/// One read into the first buffer that has room is a read into the buffers
/// taken as one.
pub proof fn lemma_first_buffer_read_is_vectored(
    src: Seq<u8>,
    before: Seq<Seq<u8>>,
    offset: u64,
    after: Seq<Seq<u8>>,
    res: Result<usize, Error>,
)
    requires
        first_buffer_read_post(src, before, offset, after, res),
    ensures
        vectored_read_post(src, before, offset, after, res),
{
    lemma_first_non_empty(before);
    match first_non_empty(before) {
        Some(i) => {
            let with = read_into(src, before[i], offset);
            let n = read_len(src, before[i].len(), offset);
            let tail = before.subrange(i + 1, before.len() as int).flatten();
            lemma_flatten_from_first(before, i, with);
            let all = before.flatten();
            assert(all == before[i] + tail);
            assert(after.flatten() == with + tail);
            if n > 0 {
                assert(with + tail =~= src.subrange(offset as int, offset as int + n as int)
                    + all.subrange(n as int, all.len() as int));
            }
        },
        None => {
            lemma_flatten_all_empty(before);
        },
    }
}

/// What one read owes on a source that fixes what it delivers, given the
/// buffer before and after: the bytes delivered stand at the front of the
/// buffer and are counted, and what lies behind them stays as it was; a
/// failure is returned as it is and leaves the buffer as it was.
pub open spec fn piece_read_post(
    fixed: Result<Seq<u8>, Error>,
    before: Seq<u8>,
    after: Seq<u8>,
    res: Result<usize, Error>,
) -> bool {
    match fixed {
        Ok(bytes) => {
            &&& res matches Ok(n) && n == bytes.len()
            &&& after == bytes + before.subrange(bytes.len() as int, before.len() as int)
        },
        Err(e) => res == Err::<usize, Error>(e) && after == before,
    }
}

/// What filling the buffer `buf` from `offset` on piece by piece comes to,
/// `done` bytes of it being filled, on a source that delivers
/// `delivers(l, o)` into a buffer of `l` bytes at `o`: the result and the
/// buffer afterwards. The part that is still empty is read into at
/// `offset + done`, so that the byte at a place of `buf` is the one that the
/// source holds at `offset` plus that place. A source that delivers some
/// bytes is asked for the rest; one that delivers none, or would have to go
/// on behind the last offset that a `u64` can name, ends the reading with
/// the failure of `fill_buffer_error`; one that fails ends it with its
/// failure, an interruption too, since a source that answers with one always
/// does. `None` where what is delivered is not fixed for a read that is
/// needed.
pub open spec fn read_exact_result(
    delivers: spec_fn(nat, u64) -> Option<Result<Seq<u8>, Error>>,
    buf: Seq<u8>,
    offset: u64,
    done: nat,
) -> Option<(Result<(), Error>, Seq<u8>)>
    decreases buf.len() - done,
{
    if done >= buf.len() {
        Some((Ok(()), buf))
    } else if offset + done > u64::MAX {
        Some((Err(fill_buffer_error()), buf))
    } else {
        match delivers((buf.len() - done) as nat, (offset + done) as u64) {
            None => None,
            Some(Err(e)) => Some((Err(e), buf)),
            Some(Ok(bytes)) => if bytes.len() == 0 {
                Some((Err(fill_buffer_error()), buf))
            } else if bytes.len() <= buf.len() - done {
                read_exact_result(
                    delivers,
                    buf.subrange(0, done as int) + bytes + buf.subrange(
                        done as int + bytes.len() as int,
                        buf.len() as int,
                    ),
                    offset,
                    done + bytes.len(),
                )
            } else {
                None
            },
        }
    }
}

/// A source of bytes that can be read at any offset through a shared
/// reference, so that readers do not disturb one another.
pub trait ReadAt {
    /// The bytes of the source, where they are fixed for as long as the
    /// source is borrowed and every read takes all it can get in one piece;
    /// `None` for a source such as a file, whose answer to a read is decided
    /// outside.
    open spec fn content(&self) -> Option<Seq<u8>> {
        None
    }

    /// What `read_at` delivers into a buffer of `len` bytes at `offset`,
    /// where the source alone fixes that and may deliver less than it has:
    /// the bytes that it puts at the front of the buffer, or its failure;
    /// `None` where it is decided outside, as for a file. A source that
    /// says so and gives no `content` has `read_exact_at` and
    /// `read_vectored_at` do what they do here.
    open spec fn delivers(&self, len: nat, offset: u64) -> Option<Result<Seq<u8>, Error>> {
        None
    }

    /// Reads into `buf` from `offset` on and returns how many bytes arrived.
    /// Fewer than `buf` holds is no failure; none at all, into a buffer that
    /// is not empty, means that the source has ended.
    fn read_at(&self, buf: &mut [u8], offset: u64) -> (res: Result<usize, Error>)
        ensures
            final(buf)@.len() == old(buf)@.len(),
            res matches Ok(n) ==> n <= old(buf)@.len(),
            self.content() matches Some(src) ==> {
                &&& res matches Ok(n) && n == read_len(src, old(buf)@.len(), offset)
                &&& final(buf)@ == read_into(src, old(buf)@, offset)
            },
            self.delivers(old(buf)@.len(), offset) matches Some(fixed) ==> piece_read_post(
                fixed,
                old(buf)@,
                final(buf)@,
                res,
            ),
    ;

    /// Fills `buf` from `offset` on, reading again behind what has arrived
    /// until nothing is missing. An interrupted read is made again; after
    /// `u64::MAX` interruptions in a row the last of them is returned. A
    /// source that ends too early, or that would have to go on behind the
    /// last offset that a `u64` can name, gives the failure of
    /// `fill_buffer_error`; any other failure is returned as it came. After
    /// a failure `buf` holds what had arrived until then. On a source that
    /// fixes what it delivers, the result and the buffer are those that
    /// `read_exact_result` gives; an empty buffer is filled without a read.
    fn read_exact_at(&self, buf: &mut [u8], offset: u64) -> (res: Result<(), Error>)
        ensures
            final(buf)@.len() == old(buf)@.len(),
            self.content() matches Some(src) ==> exact_read_post(
                src,
                old(buf)@.len(),
                offset,
                final(buf)@,
                res,
            ),
            self.content() is None ==> (read_exact_result(
                |len: nat, at: u64| self.delivers(len, at),
                old(buf)@,
                offset,
                0,
            ) matches Some(fixed) ==> res == fixed.0 && final(buf)@ == fixed.1),
    {
        let len = buf.len();
        let ghost before = buf@;
        let ghost delivers = |len: nat, at: u64| self.delivers(len, at);
        let mut done: usize = 0;
        let mut retries: u64 = u64::MAX;
        while done < len
            invariant
                done <= len,
                before == old(buf)@,
                len == before.len(),
                buf@.len() == len,
                delivers == |len: nat, at: u64| self.delivers(len, at),
                read_exact_result(delivers, before, offset, 0) is Some ==> read_exact_result(
                    delivers,
                    buf@,
                    offset,
                    done as nat,
                ) == read_exact_result(delivers, before, offset, 0),
                self.content() matches Some(src) ==> done > 0 ==> {
                    &&& offset as nat + done as nat <= src.len()
                    &&& buf@.subrange(0, done as int) == src.subrange(
                        offset as int,
                        offset as int + done as int,
                    )
                    &&& done < len ==> offset as nat + done as nat == src.len()
                },
            decreases len - done, retries,
        {
            let at = match offset.checked_add(done as u64) {
                Some(at) => at,
                None => {
                    return Err(fill_buffer_error());
                },
            };
            let ghost whole = buf@;
            let (head, rest) = buf.split_at_mut(done);
            let ghost room = rest@;
            let outcome = self.read_at(rest, at);
            proof {
                assert(buf@ == head@ + rest@);
                assert(head@ == whole.subrange(0, done as int));
                assert(buf@.subrange(0, done as int) == whole.subrange(0, done as int));
                assert(room == whole.subrange(done as int, len as int));
                if read_exact_result(delivers, before, offset, 0) is Some {
                    match delivers((len - done) as nat, at) {
                        Some(Ok(bytes)) => {
                            assert(buf@ =~= whole.subrange(0, done as int) + bytes
                                + whole.subrange(done as int + bytes.len() as int, len as int));
                        },
                        Some(Err(_)) => {
                            assert(buf@ =~= whole);
                        },
                        None => {},
                    }
                }
            }
            match read_exact_step(outcome) {
                Step::Advance(n) => {
                    proof {
                        if let Some(src) = self.content() {
                            let k = read_len(src, room.len(), at);
                            assert(n as nat == k);
                            assert(rest@ == read_into(src, room, at));
                            assert(rest@.subrange(0, n as int) == src.subrange(
                                at as int,
                                at as int + n as int,
                            ));
                            assert(buf@.subrange(0, done as int + n as int) == buf@.subrange(
                                0,
                                done as int,
                            ) + rest@.subrange(0, n as int));
                            assert(src.subrange(offset as int, offset as int + done as int)
                                + src.subrange(at as int, at as int + n as int) == src.subrange(
                                offset as int,
                                offset as int + done as int + n as int,
                            ));
                        }
                    }
                    done = done + n;
                    retries = u64::MAX;
                },
                Step::Retry(e) => {
                    if retries == 0 {
                        return Err(e);
                    }
                    retries = retries - 1;
                },
                Step::Stop(e) => {
                    return Err(e);
                },
            }
        }
        proof {
            assert(buf@.subrange(0, len as int) == buf@);
            if let Some(src) = self.content() {
                if len == 0 && holds_range(src, 0, offset) {
                    assert(buf@ =~= src.subrange(offset as int, offset as int));
                }
            }
        }
        Ok(())
    }

    /// Reads into the buffers of `bufs` in their order, as one read into
    /// all of them taken as one would, and returns how many bytes arrived.
    /// As it stands here it makes one read into the first buffer that has
    /// room, or into an empty buffer where none has; the allowance for
    /// short reads covers that.
    fn read_vectored_at(&self, bufs: &mut [&mut [u8]], offset: u64) -> (res: Result<usize, Error>)
        ensures
            final(bufs)@.len() == old(bufs)@.len(),
            forall|i: int|
                0 <= i < old(bufs)@.len() ==> final(#[trigger] final(bufs)@[i])@
                    == final(old(bufs)@[i])@,
            forall|i: int|
                0 <= i < old(bufs)@.len() ==> (#[trigger] contents(final(bufs)@)[i]).len()
                    == contents(old(bufs)@)[i].len(),
            res matches Ok(n) ==> n <= contents(old(bufs)@).flatten().len(),
            self.content() matches Some(src) ==> first_buffer_read_post(
                src,
                contents(old(bufs)@),
                offset,
                contents(final(bufs)@),
                res,
            ),
            match first_non_empty(contents(old(bufs)@)) {
                Some(i) => self.delivers(contents(old(bufs)@)[i].len(), offset) matches Some(
                    fixed,
                ) ==> {
                    &&& piece_read_post(
                        fixed,
                        contents(old(bufs)@)[i],
                        contents(final(bufs)@)[i],
                        res,
                    )
                    &&& contents(final(bufs)@) == contents(old(bufs)@).update(
                        i,
                        contents(final(bufs)@)[i],
                    )
                },
                None => self.delivers(0, offset) matches Some(fixed) ==> {
                    &&& piece_read_post(fixed, Seq::empty(), Seq::empty(), res)
                    &&& contents(final(bufs)@) == contents(old(bufs)@)
                },
            },
    {
        match first_to_fill(bufs) {
            Some(i) => {
                proof {
                    let before = contents(bufs@);
                    lemma_first_non_empty(before);
                    lemma_flatten_from_first(before, i as int, before[i as int]);
                }
                let buf = &mut bufs[i];
                let res = self.read_at(*buf, offset);
                proof {
                    assert(contents(bufs@) =~= contents(old(bufs)@).update(
                        i as int,
                        contents(bufs@)[i as int],
                    ));
                }
                res
            },
            None => {
                let mut nothing: [u8; 0] = [];
                proof {
                    assert(nothing@ =~= Seq::<u8>::empty());
                }
                let res = self.read_at(&mut nothing, offset);
                proof {
                    assert(nothing@ =~= Seq::<u8>::empty());
                    assert(contents(bufs@) =~= contents(old(bufs)@));
                }
                res
            },
        }
    }
}

/// Copies `src[start..start + n]` over the first `n` bytes of `dst`.
fn copy_from(dst: &mut [u8], src: &[u8], start: usize, n: usize)
    requires
        start + n <= src@.len(),
        n <= old(dst)@.len(),
    ensures
        final(dst)@ == src@.subrange(start as int, start as int + n as int) + old(dst)@.subrange(
            n as int,
            old(dst)@.len() as int,
        ),
{
    let total = src.len();
    let mut i: usize = 0;
    while i < n
        invariant
            i <= n,
            total == src@.len(),
            start + n <= total,
            n <= dst@.len(),
            dst@.len() == old(dst)@.len(),
            forall|j: int| 0 <= j < i ==> dst@[j] == src@[start as int + j],
            forall|j: int| i <= j < dst@.len() ==> dst@[j] == old(dst)@[j],
        decreases n - i,
    {
        dst[i] = src[start + i];
        i = i + 1;
    }
    proof {
        assert(dst@ =~= src@.subrange(start as int, start as int + n as int) + old(dst)@.subrange(
            n as int,
            old(dst)@.len() as int,
        ));
    }
}

impl ReadAt for [u8] {
    open spec fn content(&self) -> Option<Seq<u8>> {
        Some(self@)
    }

    fn read_at(&self, buf: &mut [u8], offset: u64) -> (res: Result<usize, Error>)
        ensures
            res matches Ok(n) && n == read_len(self@, old(buf)@.len(), offset),
            final(buf)@ == read_into(self@, old(buf)@, offset),
    {
        if offset >= self.len() as u64 {
            return Ok(0);
        }
        let start = offset as usize;
        let left = self.len() - start;
        let n = if buf.len() <= left {
            buf.len()
        } else {
            left
        };
        copy_from(buf, self, start, n);
        proof {
            if n == 0 {
                assert(buf@ =~= old(buf)@);
            }
        }
        Ok(n)
    }

    /// Fills `buf` with the bytes from `offset` on where there are enough of
    /// them, and otherwise fails and leaves `buf` as it was.
    fn read_exact_at(&self, buf: &mut [u8], offset: u64) -> (res: Result<(), Error>)
        ensures
            res is Ok <==> offset as nat <= self@.len() && old(buf)@.len() <= self@.len()
                - offset as nat,
            res is Ok ==> final(buf)@ == self@.subrange(
                offset as int,
                offset as int + old(buf)@.len() as int,
            ),
            res is Err ==> res == Err::<(), Error>(fill_buffer_error()) && final(buf)@ == old(buf)@,
    {
        if offset > self.len() as u64 {
            return Err(fill_buffer_error());
        }
        let start = offset as usize;
        let n = buf.len();
        if self.len() - start < n {
            return Err(fill_buffer_error());
        }
        copy_from(buf, self, start, n);
        proof {
            assert(buf@ =~= self@.subrange(start as int, start as int + n as int));
        }
        Ok(())
    }
}

impl<const N: usize> ReadAt for [u8; N] {
    open spec fn content(&self) -> Option<Seq<u8>> {
        Some(self@)
    }

    fn read_at(&self, buf: &mut [u8], offset: u64) -> (res: Result<usize, Error>) {
        self.as_slice().read_at(buf, offset)
    }

    fn read_exact_at(&self, buf: &mut [u8], offset: u64) -> (res: Result<(), Error>)
        ensures
            res is Ok <==> offset as nat <= self@.len() && old(buf)@.len() <= self@.len()
                - offset as nat,
            res is Err ==> res == Err::<(), Error>(fill_buffer_error()) && final(buf)@ == old(buf)@,
    {
        self.as_slice().read_exact_at(buf, offset)
    }

    fn read_vectored_at(&self, bufs: &mut [&mut [u8]], offset: u64) -> (res: Result<usize, Error>) {
        self.as_slice().read_vectored_at(bufs, offset)
    }
}

impl ReadAt for Vec<u8> {
    open spec fn content(&self) -> Option<Seq<u8>> {
        Some(self@)
    }

    fn read_at(&self, buf: &mut [u8], offset: u64) -> (res: Result<usize, Error>) {
        self.as_slice().read_at(buf, offset)
    }

    fn read_exact_at(&self, buf: &mut [u8], offset: u64) -> (res: Result<(), Error>)
        ensures
            res is Ok <==> offset as nat <= self@.len() && old(buf)@.len() <= self@.len()
                - offset as nat,
            res is Err ==> res == Err::<(), Error>(fill_buffer_error()) && final(buf)@ == old(buf)@,
    {
        self.as_slice().read_exact_at(buf, offset)
    }

    fn read_vectored_at(&self, bufs: &mut [&mut [u8]], offset: u64) -> (res: Result<usize, Error>) {
        self.as_slice().read_vectored_at(bufs, offset)
    }
}

impl ReadAt for Cow<'_, [u8]> {
    open spec fn content(&self) -> Option<Seq<u8>> {
        Some(self@)
    }

    fn read_at(&self, buf: &mut [u8], offset: u64) -> (res: Result<usize, Error>) {
        match self {
            Cow::Borrowed(bytes) => (*bytes).read_at(buf, offset),
            Cow::Owned(bytes) => bytes.as_slice().read_at(buf, offset),
        }
    }

    fn read_exact_at(&self, buf: &mut [u8], offset: u64) -> (res: Result<(), Error>)
        ensures
            res is Ok <==> offset as nat <= self@.len() && old(buf)@.len() <= self@.len()
                - offset as nat,
            res is Err ==> res == Err::<(), Error>(fill_buffer_error()) && final(buf)@ == old(buf)@,
    {
        match self {
            Cow::Borrowed(bytes) => (*bytes).read_exact_at(buf, offset),
            Cow::Owned(bytes) => bytes.as_slice().read_exact_at(buf, offset),
        }
    }

    fn read_vectored_at(&self, bufs: &mut [&mut [u8]], offset: u64) -> (res: Result<usize, Error>) {
        match self {
            Cow::Borrowed(bytes) => (*bytes).read_vectored_at(bufs, offset),
            Cow::Owned(bytes) => bytes.as_slice().read_vectored_at(bufs, offset),
        }
    }
}

impl<R: ReadAt + ?Sized> ReadAt for &R {
    open spec fn content(&self) -> Option<Seq<u8>> {
        (**self).content()
    }

    open spec fn delivers(&self, len: nat, offset: u64) -> Option<Result<Seq<u8>, Error>> {
        (**self).delivers(len, offset)
    }

    fn read_at(&self, buf: &mut [u8], offset: u64) -> (res: Result<usize, Error>) {
        (**self).read_at(buf, offset)
    }

    fn read_exact_at(&self, buf: &mut [u8], offset: u64) -> (res: Result<(), Error>) {
        proof {
            assert((|len: nat, at: u64| self.delivers(len, at)) =~= (|len: nat, at: u64|
                (**self).delivers(len, at)));
        }
        (**self).read_exact_at(buf, offset)
    }

    fn read_vectored_at(&self, bufs: &mut [&mut [u8]], offset: u64) -> (res: Result<usize, Error>) {
        (**self).read_vectored_at(bufs, offset)
    }
}

impl<R: ReadAt + ?Sized> ReadAt for Box<R> {
    open spec fn content(&self) -> Option<Seq<u8>> {
        (**self).content()
    }

    open spec fn delivers(&self, len: nat, offset: u64) -> Option<Result<Seq<u8>, Error>> {
        (**self).delivers(len, offset)
    }

    fn read_at(&self, buf: &mut [u8], offset: u64) -> (res: Result<usize, Error>) {
        (**self).read_at(buf, offset)
    }

    fn read_exact_at(&self, buf: &mut [u8], offset: u64) -> (res: Result<(), Error>) {
        proof {
            assert((|len: nat, at: u64| self.delivers(len, at)) =~= (|len: nat, at: u64|
                (**self).delivers(len, at)));
        }
        (**self).read_exact_at(buf, offset)
    }

    fn read_vectored_at(&self, bufs: &mut [&mut [u8]], offset: u64) -> (res: Result<usize, Error>) {
        (**self).read_vectored_at(bufs, offset)
    }
}

impl<R: ReadAt + ?Sized> ReadAt for std::sync::Arc<R> {
    open spec fn content(&self) -> Option<Seq<u8>> {
        (**self).content()
    }

    open spec fn delivers(&self, len: nat, offset: u64) -> Option<Result<Seq<u8>, Error>> {
        (**self).delivers(len, offset)
    }

    fn read_at(&self, buf: &mut [u8], offset: u64) -> (res: Result<usize, Error>) {
        (**self).read_at(buf, offset)
    }

    fn read_exact_at(&self, buf: &mut [u8], offset: u64) -> (res: Result<(), Error>) {
        proof {
            assert((|len: nat, at: u64| self.delivers(len, at)) =~= (|len: nat, at: u64|
                (**self).delivers(len, at)));
        }
        (**self).read_exact_at(buf, offset)
    }

    fn read_vectored_at(&self, bufs: &mut [&mut [u8]], offset: u64) -> (res: Result<usize, Error>) {
        (**self).read_vectored_at(bufs, offset)
    }
}

impl<R: ReadAt + ?Sized> ReadAt for std::rc::Rc<R> {
    open spec fn content(&self) -> Option<Seq<u8>> {
        (**self).content()
    }

    open spec fn delivers(&self, len: nat, offset: u64) -> Option<Result<Seq<u8>, Error>> {
        (**self).delivers(len, offset)
    }

    fn read_at(&self, buf: &mut [u8], offset: u64) -> (res: Result<usize, Error>) {
        (**self).read_at(buf, offset)
    }

    fn read_exact_at(&self, buf: &mut [u8], offset: u64) -> (res: Result<(), Error>) {
        proof {
            assert((|len: nat, at: u64| self.delivers(len, at)) =~= (|len: nat, at: u64|
                (**self).delivers(len, at)));
        }
        (**self).read_exact_at(buf, offset)
    }

    fn read_vectored_at(&self, bufs: &mut [&mut [u8]], offset: u64) -> (res: Result<usize, Error>) {
        (**self).read_vectored_at(bufs, offset)
    }
}

/// `std::io::Empty`, the source that holds nothing. The declaration lets the
/// type stand in this library's signatures; it claims nothing of it.
#[verifier::external_type_specification]
#[verifier::external_body]
pub struct ExEmpty(std::io::Empty);

impl ReadAt for std::io::Empty {
    open spec fn content(&self) -> Option<Seq<u8>> {
        Some(Seq::empty())
    }

    fn read_at(&self, buf: &mut [u8], offset: u64) -> (res: Result<usize, Error>)
        ensures
            res == Ok::<usize, Error>(0usize),
            final(buf)@ == old(buf)@,
    {
        Ok(0)
    }

    /// Succeeds on an empty buffer, at any offset, and on no other.
    fn read_exact_at(&self, buf: &mut [u8], offset: u64) -> (res: Result<(), Error>)
        ensures
            res is Ok <==> old(buf)@.len() == 0,
            res is Err ==> res == Err::<(), Error>(fill_buffer_error()),
            final(buf)@ == old(buf)@,
    {
        if buf.len() == 0 {
            proof {
                if offset == 0 {
                    assert(buf@ =~= Seq::<u8>::empty().subrange(0, 0));
                }
            }
            Ok(())
        } else {
            Err(fill_buffer_error())
        }
    }

    fn read_vectored_at(&self, bufs: &mut [&mut [u8]], offset: u64) -> (res: Result<usize, Error>)
        ensures
            res == Ok::<usize, Error>(0usize),
            contents(final(bufs)@) == contents(old(bufs)@),
    {
        proof {
            let before = contents(bufs@);
            lemma_first_non_empty(before);
            if let Some(i) = first_non_empty(before) {
                assert(before.update(i, before[i]) =~= before);
            }
        }
        Ok(0)
    }
}

} // verus!
