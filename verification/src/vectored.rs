//! Buffers in a row, read into or written from as if they were one.

use vstd::prelude::*;

verus! {

/// What the buffers of a vectored read hold, buffer by buffer.
pub open spec fn contents(bufs: Seq<&mut [u8]>) -> Seq<Seq<u8>> {
    Seq::new(bufs.len(), |i: int| bufs[i]@)
}

/// What the buffers of a vectored write hold, buffer by buffer.
pub open spec fn contents_of(bufs: Seq<&[u8]>) -> Seq<Seq<u8>> {
    Seq::new(bufs.len(), |i: int| bufs[i]@)
}

/// Whether buffer `i` holds something and none before it does.
pub open spec fn is_first_non_empty(bufs: Seq<Seq<u8>>, i: int) -> bool {
    &&& 0 <= i < bufs.len()
    &&& bufs[i].len() > 0
    &&& forall|j: int| 0 <= j < i ==> (#[trigger] bufs[j]).len() == 0
}

/// Whether no buffer holds anything.
pub open spec fn all_empty(bufs: Seq<Seq<u8>>) -> bool {
    forall|j: int| 0 <= j < bufs.len() ==> (#[trigger] bufs[j]).len() == 0
}

/// The place of the first buffer that holds something, if one does.
pub open spec fn first_non_empty(bufs: Seq<Seq<u8>>) -> Option<int> {
    if exists|i: int| is_first_non_empty(bufs, i) {
        Some(choose|i: int| is_first_non_empty(bufs, i))
    } else {
        None
    }
}

/// There is at most one first buffer that holds something.
pub proof fn lemma_first_non_empty_unique(bufs: Seq<Seq<u8>>, i: int, j: int)
    requires
        is_first_non_empty(bufs, i),
        is_first_non_empty(bufs, j),
    ensures
        i == j,
{
    if i < j {
        assert(bufs[i].len() == 0);
    } else if j < i {
        assert(bufs[j].len() == 0);
    }
}

/// `first_non_empty` is `Some(i)` exactly for the first buffer that holds
/// something, and `None` exactly where all are empty.
pub proof fn lemma_first_non_empty(bufs: Seq<Seq<u8>>)
    ensures
        forall|i: int| is_first_non_empty(bufs, i) ==> first_non_empty(bufs) == Some(i),
        first_non_empty(bufs) matches Some(i) ==> is_first_non_empty(bufs, i),
        first_non_empty(bufs) is None <==> all_empty(bufs),
{
    assert forall|i: int| is_first_non_empty(bufs, i) implies first_non_empty(bufs) == Some(i) by {
        let c = choose|c: int| is_first_non_empty(bufs, c);
        lemma_first_non_empty_unique(bufs, i, c);
    }
    if !all_empty(bufs) {
        lemma_some_first(bufs, bufs.len() as int);
    }
    if all_empty(bufs) {
        if let Some(i) = first_non_empty(bufs) {
            assert(bufs[i].len() == 0);
        }
    }
}

/// Where a buffer before `end` holds something, one of them is the first to
/// do so.
proof fn lemma_some_first(bufs: Seq<Seq<u8>>, end: int)
    requires
        0 <= end <= bufs.len(),
        exists|j: int| 0 <= j < end && (#[trigger] bufs[j]).len() > 0,
    ensures
        exists|i: int| is_first_non_empty(bufs, i),
    decreases end,
{
    let j = choose|j: int| 0 <= j < end && (#[trigger] bufs[j]).len() > 0;
    if exists|k: int| 0 <= k < j && (#[trigger] bufs[k]).len() > 0 {
        lemma_some_first(bufs, j);
    } else {
        assert(is_first_non_empty(bufs, j));
    }
}

/// Buffers that are all empty hold nothing when taken as one.
pub proof fn lemma_flatten_all_empty(bufs: Seq<Seq<u8>>)
    requires
        all_empty(bufs),
    ensures
        bufs.flatten() == Seq::<u8>::empty(),
    decreases bufs.len(),
{
    if bufs.len() > 0 {
        let rest = bufs.drop_first();
        assert forall|j: int| 0 <= j < rest.len() implies (#[trigger] rest[j]).len() == 0 by {
            assert(rest[j] == bufs[j + 1]);
        }
        lemma_flatten_all_empty(rest);
        assert(bufs[0].len() == 0);
        assert(bufs.flatten() =~= Seq::<u8>::empty());
    }
}

/// Taken as one, the buffers are those before buffer `i`, then buffer `i`,
/// then those behind it.
pub proof fn lemma_flatten_around(bufs: Seq<Seq<u8>>, i: int)
    requires
        0 <= i < bufs.len(),
    ensures
        bufs.flatten() == bufs.subrange(0, i).flatten() + bufs[i] + bufs.subrange(
            i + 1,
            bufs.len() as int,
        ).flatten(),
{
    let head = bufs.subrange(0, i);
    let mid = seq![bufs[i]];
    let tail = bufs.subrange(i + 1, bufs.len() as int);
    assert(bufs =~= head + (mid + tail));
    vstd::seq_lib::lemma_flatten_concat(head, mid + tail);
    vstd::seq_lib::lemma_flatten_concat(mid, tail);
    mid.lemma_flatten_one_element();
    assert(bufs.flatten() =~= head.flatten() + bufs[i] + tail.flatten());
}

/// Where buffer `i` is the first that holds something, the buffers taken as
/// one are buffer `i` and then those behind it, also after buffer `i` has
/// been given other content.
pub proof fn lemma_flatten_from_first(bufs: Seq<Seq<u8>>, i: int, with: Seq<u8>)
    requires
        is_first_non_empty(bufs, i),
    ensures
        bufs.flatten() == bufs[i] + bufs.subrange(i + 1, bufs.len() as int).flatten(),
        bufs.update(i, with).flatten() == with + bufs.subrange(
            i + 1,
            bufs.len() as int,
        ).flatten(),
{
    let head = bufs.subrange(0, i);
    let tail = bufs.subrange(i + 1, bufs.len() as int);
    let changed = bufs.update(i, with);
    assert forall|j: int| 0 <= j < head.len() implies (#[trigger] head[j]).len() == 0 by {
        assert(head[j] == bufs[j]);
    }
    lemma_flatten_all_empty(head);
    lemma_flatten_around(bufs, i);
    lemma_flatten_around(changed, i);
    assert(changed.subrange(0, i) =~= head);
    assert(changed.subrange(i + 1, changed.len() as int) =~= tail);
    assert(bufs.flatten() =~= bufs[i] + tail.flatten());
    assert(changed.flatten() =~= with + tail.flatten());
}

/// The place of the first buffer to read into: the first that has room.
pub fn first_to_fill(bufs: &[&mut [u8]]) -> (at: Option<usize>)
    ensures
        at matches Some(i) ==> first_non_empty(contents(bufs@)) == Some(i as int),
        at is None ==> first_non_empty(contents(bufs@)) is None,
{
    let mut i: usize = 0;
    while i < bufs.len()
        invariant
            i <= bufs@.len(),
            forall|j: int| 0 <= j < i ==> (#[trigger] contents(bufs@)[j]).len() == 0,
        decreases bufs@.len() - i,
    {
        if bufs[i].len() > 0 {
            proof {
                assert(is_first_non_empty(contents(bufs@), i as int));
                lemma_first_non_empty(contents(bufs@));
            }
            return Some(i);
        }
        i = i + 1;
    }
    proof {
        assert(all_empty(contents(bufs@)));
        lemma_first_non_empty(contents(bufs@));
    }
    None
}

/// The place of the first buffer to write from: the first that holds bytes.
pub fn first_to_send(bufs: &[&[u8]]) -> (at: Option<usize>)
    ensures
        at matches Some(i) ==> first_non_empty(contents_of(bufs@)) == Some(i as int),
        at is None ==> first_non_empty(contents_of(bufs@)) is None,
{
    let mut i: usize = 0;
    while i < bufs.len()
        invariant
            i <= bufs@.len(),
            forall|j: int| 0 <= j < i ==> (#[trigger] contents_of(bufs@)[j]).len() == 0,
        decreases bufs@.len() - i,
    {
        if bufs[i].len() > 0 {
            proof {
                assert(is_first_non_empty(contents_of(bufs@), i as int));
                lemma_first_non_empty(contents_of(bufs@));
            }
            return Some(i);
        }
        i = i + 1;
    }
    proof {
        assert(all_empty(contents_of(bufs@)));
        lemma_first_non_empty(contents_of(bufs@));
    }
    None
}

} // verus!
