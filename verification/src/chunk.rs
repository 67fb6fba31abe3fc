//! Fixed-size chunking of file content.
//!
//! The transport has no streaming primitive, so file bytes cross the
//! request/response boundary in chunks of at most 4096 bytes, read and
//! written sequentially.  The chunk size is fixed for both directions:
//! not negotiated, not adaptive.

use vstd::prelude::*;

verus! {

/// Bytes moved per read or write call.
pub const CHUNK_SIZE: usize = 4096;

/// How a byte sequence is cut for transfer: full 4096-byte chunks, then
/// whatever is left; nothing at all for an empty sequence.
pub open spec fn spec_chunks(data: Seq<u8>) -> Seq<Seq<u8>>
    decreases data.len(),
{
    if data.len() == 0 {
        Seq::empty()
    } else if data.len() <= 4096 {
        seq![data]
    } else {
        seq![data.subrange(0, 4096)] + spec_chunks(data.subrange(4096, data.len() as int))
    }
}

/// The bytes a chunk sequence carries, in order.
pub open spec fn spec_concat_chunks(chunks: Seq<Seq<u8>>) -> Seq<u8>
    decreases chunks.len(),
{
    if chunks.len() == 0 {
        Seq::empty()
    } else {
        chunks[0] + spec_concat_chunks(chunks.drop_first())
    }
}

/// Concatenating the chunks of a byte sequence restores it exactly;
/// every chunk but the last is exactly 4096 bytes — chunk boundaries
/// fall on multiples of 4096 — and no chunk is empty or larger.
pub proof fn lemma_chunks_round_trip(data: Seq<u8>)
    ensures
        spec_concat_chunks(spec_chunks(data)) == data,
        forall|i: int| 0 <= i < spec_chunks(data).len() - 1 ==> spec_chunks(data)[i].len() == 4096,
        forall|i: int|
            0 <= i < spec_chunks(data).len() ==> 0 < #[trigger] spec_chunks(data)[i].len()
                <= 4096,
        data.len() == 0 <==> spec_chunks(data).len() == 0,
    decreases data.len(),
{
    if data.len() == 0 {
        assert(spec_concat_chunks(spec_chunks(data)) =~= data);
    } else if data.len() <= 4096 {
        reveal_with_fuel(spec_concat_chunks, 2);
        assert(seq![data].drop_first() =~= Seq::<Seq<u8>>::empty());
        assert(data + Seq::<u8>::empty() =~= data);
        assert(spec_concat_chunks(spec_chunks(data)) =~= data);
    } else {
        let head = data.subrange(0, 4096);
        let tail = data.subrange(4096, data.len() as int);
        lemma_chunks_round_trip(tail);
        let chunks = spec_chunks(data);
        assert(chunks.drop_first() =~= spec_chunks(tail));
        assert(chunks[0] == head);
        assert(spec_concat_chunks(chunks) == head + spec_concat_chunks(spec_chunks(tail)));
        assert(head + tail =~= data);
        assert(spec_concat_chunks(chunks) =~= data);
        assert forall|i: int| 0 <= i < chunks.len() - 1 implies chunks[i].len() == 4096 by {
            if i > 0 {
                assert(chunks[i] == spec_chunks(tail)[i - 1]);
            }
        }
        assert forall|i: int| 0 <= i < chunks.len() implies 0 < #[trigger] chunks[i].len()
            <= 4096 by {
            if i > 0 {
                assert(chunks[i] == spec_chunks(tail)[i - 1]);
            }
        }
    }
}

/// Cut a byte vector into transfer chunks.
pub fn split_into_chunks(data: &Vec<u8>) -> (r: Vec<Vec<u8>>)
    ensures
        r@.map_values(|c: Vec<u8>| c@) == spec_chunks(data@),
{
    let n = data.len();
    let mut r: Vec<Vec<u8>> = Vec::new();
    let mut off: usize = 0;
    proof {
        assert(r@.map_values(|c: Vec<u8>| c@) =~= Seq::<Seq<u8>>::empty());
        assert(data@.subrange(0, n as int) =~= data@);
    }
    while off < n
        invariant
            off <= n,
            n == data@.len(),
            spec_chunks(data@) == r@.map_values(|c: Vec<u8>| c@) + spec_chunks(
                data@.subrange(off as int, n as int),
            ),
        decreases n - off,
    {
        let end = if n - off > CHUNK_SIZE {
            off + CHUNK_SIZE
        } else {
            n
        };
        let mut chunk: Vec<u8> = Vec::new();
        let mut j = off;
        while j < end
            invariant
                off <= j <= end <= n,
                n == data@.len(),
                chunk@ == data@.subrange(off as int, j as int),
            decreases end - j,
        {
            chunk.push(data[j]);
            proof {
                assert(chunk@ =~= data@.subrange(off as int, j + 1));
            }
            j = j + 1;
        }
        proof {
            let suffix = data@.subrange(off as int, n as int);
            if n - off > 4096 {
                assert(suffix.subrange(0, 4096) =~= data@.subrange(off as int, off + 4096));
                assert(suffix.subrange(4096, suffix.len() as int) =~= data@.subrange(
                    off + 4096,
                    n as int,
                ));
            }
        }
        r.push(chunk);
        proof {
            assert(r@.map_values(|c: Vec<u8>| c@) =~= r@.drop_last().map_values(|c: Vec<u8>| c@)
                + seq![data@.subrange(off as int, end as int)]);
            assert(spec_chunks(data@) =~= r@.map_values(|c: Vec<u8>| c@) + spec_chunks(
                data@.subrange(end as int, n as int),
            ));
        }
        off = end;
    }
    proof {
        assert(data@.subrange(n as int, n as int) =~= Seq::<u8>::empty());
        assert(spec_chunks(data@) =~= r@.map_values(|c: Vec<u8>| c@));
    }
    r
}

/// The bytes assembled from successive read replies, starting at reply
/// `i`: chunks concatenate in order up to and including the first reply
/// that raises the end-of-file flag; its bytes still count, and nothing
/// after it is read.
pub open spec fn spec_assemble_from(replies: Seq<(Vec<u8>, bool)>, i: int) -> Seq<u8>
    decreases replies.len() - i,
{
    if i < 0 || i >= replies.len() {
        Seq::empty()
    } else if replies[i].1 {
        replies[i].0@
    } else {
        replies[i].0@ + spec_assemble_from(replies, i + 1)
    }
}

/// Assemble the replies of a chunked read, stopping at the first reply
/// flagged end-of-file even when it still carries bytes.  The second
/// result reports whether the end was reached within the replies.
pub fn assemble_read_replies(replies: &Vec<(Vec<u8>, bool)>) -> (r: (Vec<u8>, bool))
    ensures
        r.0@ == spec_assemble_from(replies@, 0),
        r.1 == exists|i: int|
            0 <= i < replies@.len() && replies@[i].1 && (forall|j: int|
                0 <= j < i ==> !replies@[j].1),
{
    let n = replies.len();
    let mut buf: Vec<u8> = Vec::new();
    let mut i: usize = 0;
    while i < n
        invariant
            i <= n,
            n == replies@.len(),
            spec_assemble_from(replies@, 0) == buf@ + spec_assemble_from(replies@, i as int),
            forall|j: int| 0 <= j < i ==> !replies@[j].1,
        decreases n - i,
    {
        let chunk = &replies[i].0;
        let eof = replies[i].1;
        let mut k: usize = 0;
        let m = chunk.len();
        let ghost prev = buf@;
        while k < m
            invariant
                k <= m,
                m == chunk@.len(),
                buf@ == prev + chunk@.subrange(0, k as int),
            decreases m - k,
        {
            buf.push(chunk[k]);
            proof {
                assert(buf@ =~= prev + chunk@.subrange(0, k + 1));
            }
            k = k + 1;
        }
        proof {
            assert(chunk@.subrange(0, m as int) =~= chunk@);
        }
        if eof {
            proof {
                assert(spec_assemble_from(replies@, i as int) == replies@[i as int].0@);
                assert(spec_assemble_from(replies@, 0) =~= buf@);
            }
            return (buf, true);
        }
        i = i + 1;
    }
    proof {
        assert(spec_assemble_from(replies@, n as int) =~= Seq::<u8>::empty());
        assert(spec_assemble_from(replies@, 0) =~= buf@);
    }
    (buf, false)
}

proof fn lemma_concat_chunks_snoc(chunks: Seq<Seq<u8>>, last: Seq<u8>)
    ensures
        spec_concat_chunks(chunks + seq![last]) == spec_concat_chunks(chunks) + last,
    decreases chunks.len(),
{
    if chunks.len() == 0 {
        reveal_with_fuel(spec_concat_chunks, 2);
        assert((chunks + seq![last]).drop_first() =~= Seq::<Seq<u8>>::empty());
        assert((chunks + seq![last])[0] == last);
        assert(last + Seq::<u8>::empty() =~= last);
        assert(spec_concat_chunks(chunks + seq![last]) =~= last);
        assert(spec_concat_chunks(chunks) + last =~= last);
    } else {
        assert((chunks + seq![last]).drop_first() =~= chunks.drop_first() + seq![last]);
        lemma_concat_chunks_snoc(chunks.drop_first(), last);
        assert(spec_concat_chunks(chunks + seq![last]) =~= spec_concat_chunks(chunks) + last);
    }
}

proof fn lemma_assemble_is_concat(replies: Seq<(Vec<u8>, bool)>, i: int)
    requires
        0 <= i <= replies.len(),
        forall|j: int| 0 <= j < replies.len() ==> replies[j].1 == (j == replies.len() - 1),
    ensures
        spec_assemble_from(replies, i) == spec_concat_chunks(
            replies.map_values(|p: (Vec<u8>, bool)| p.0@).subrange(i, replies.len() as int),
        ),
    decreases replies.len() - i,
{
    let views = replies.map_values(|p: (Vec<u8>, bool)| p.0@);
    if i == replies.len() {
        assert(views.subrange(i, replies.len() as int) =~= Seq::<Seq<u8>>::empty());
    } else if i == replies.len() - 1 {
        assert(replies[i].1);
        reveal_with_fuel(spec_concat_chunks, 2);
        assert(views.subrange(i, replies.len() as int) =~= seq![replies[i].0@]);
        assert(seq![replies[i].0@].drop_first() =~= Seq::<Seq<u8>>::empty());
        assert(replies[i].0@ + Seq::<u8>::empty() =~= replies[i].0@);
        assert(spec_concat_chunks(views.subrange(i, replies.len() as int)) =~= replies[i].0@);
    } else {
        assert(!replies[i].1);
        lemma_assemble_is_concat(replies, i + 1);
        let sub = views.subrange(i, replies.len() as int);
        assert(sub.drop_first() =~= views.subrange(i + 1, replies.len() as int));
        assert(sub[0] == replies[i].0@);
        assert(spec_assemble_from(replies, i) =~= spec_concat_chunks(sub));
    }
}

/// Uploading then downloading restores the bytes exactly.  If the read
/// replies deliver, in order, exactly the chunks that the upload wrote
/// — with one final empty reply raising the end-of-file flag, as a
/// guest does on the read past the last chunk — then the assembled
/// download is exactly the uploaded byte sequence.
pub proof fn lemma_upload_download_round_trip(data: Seq<u8>, replies: Seq<(Vec<u8>, bool)>)
    requires
        replies.map_values(|p: (Vec<u8>, bool)| p.0@) == spec_chunks(data) + seq![
            Seq::<u8>::empty(),
        ],
        forall|j: int| 0 <= j < replies.len() ==> replies[j].1 == (j == replies.len() - 1),
    ensures
        spec_assemble_from(replies, 0) == data,
{
    let views = replies.map_values(|p: (Vec<u8>, bool)| p.0@);
    assert(views.len() == replies.len());
    assert(views.len() == spec_chunks(data).len() + 1);
    lemma_assemble_is_concat(replies, 0);
    assert(views.subrange(0, replies.len() as int) =~= views);
    lemma_concat_chunks_snoc(spec_chunks(data), Seq::<u8>::empty());
    lemma_chunks_round_trip(data);
    assert(spec_concat_chunks(views) =~= data);
}

} // verus!
