//! The request body stream: a single-owner, consumable tagged union.
//!
//! `take` moves the stream out and leaves `Empty` behind, so a second take
//! yields an empty stream rather than an error. A buffered payload carries
//! its chunks together with a read cursor; a streaming payload stands for an
//! asynchronous transport source that only the surrounding runtime can pull,
//! identified here by an opaque token.

use vstd::prelude::*;

verus! {

pub enum Payload {
    /// No body, or a body already consumed.
    Empty,
    /// Chunks already in memory, read from `cursor` on.
    Buffered { chunks: Vec<Vec<u8>>, cursor: usize },
    /// A transport-driven source; its bytes are not represented here.
    Streaming { token: u64 },
}

/// Concatenation of all chunks.
pub open spec fn concat_all(chunks: Seq<Seq<u8>>) -> Seq<u8>
    decreases chunks.len(),
{
    if chunks.len() == 0 {
        Seq::<u8>::empty()
    } else {
        chunks[0] + concat_all(chunks.drop_first())
    }
}

impl Payload {
    /// The chunks still to be read. For a streaming payload the chunks live
    /// outside this model and the sequence is counted empty.
    pub open spec fn chunk_seq(&self) -> Seq<Seq<u8>> {
        match self {
            Payload::Buffered { chunks, cursor } => if *cursor <= chunks.len() {
                chunks.deep_view().skip(*cursor as int)
            } else {
                Seq::<Seq<u8>>::empty()
            },
            _ => Seq::<Seq<u8>>::empty(),
        }
    }

    /// The bytes still to be read.
    pub open spec fn remaining(&self) -> Seq<u8> {
        concat_all(self.chunk_seq())
    }

    pub open spec fn is_streaming(&self) -> bool {
        self matches Payload::Streaming { .. }
    }

    /// A buffered payload holding `data` as its single chunk.
    pub fn from_bytes(data: Vec<u8>) -> (r: Self)
        ensures
            r.chunk_seq() =~= seq![data@],
            !r.is_streaming(),
            r matches Payload::Buffered { .. },
    {
        let ghost gdata = data@;
        let chunks = vec![data];
        let r = Payload::Buffered { chunks, cursor: 0 };
        proof {
            assert(chunks.deep_view().len() == 1);
            assert(chunks.deep_view()[0] =~= gdata);
            assert(r.chunk_seq() =~= chunks.deep_view());
        }
        r
    }

    /// Move the stream out, leaving an empty one behind; taking twice
    /// therefore yields an empty stream the second time, by design.
    pub fn take(&mut self) -> (r: Payload)
        ensures
            r == *old(self),
            *final(self) is Empty,
    {
        let mut out = Payload::Empty;
        core::mem::swap(self, &mut out);
        out
    }

    /// Pull the next chunk of a buffered payload. `None` on an empty or
    /// exhausted payload. Must not be called on a streaming payload, whose
    /// chunks only the transport can deliver.
    pub fn next_chunk(&mut self) -> (r: Option<Vec<u8>>)
        requires
            !old(self).is_streaming(),
        ensures
            match r {
                Some(c) => old(self).chunk_seq().len() > 0 && c@ == old(self).chunk_seq()[0]
                    && final(self).chunk_seq() =~= old(self).chunk_seq().drop_first()
                    && !final(self).is_streaming(),
                None => *final(self) == *old(self) && old(self).chunk_seq().len() == 0,
            },
    {
        let taken = self.take();
        match taken {
            Payload::Buffered { chunks, cursor } => {
                if cursor < chunks.len() {
                    let c = chunks[cursor].clone();
                    proof {
                        assert(c@ =~= chunks@[cursor as int]@);
                        assert(chunks.deep_view()[cursor as int] =~= chunks@[cursor as int]@);
                        assert(old(self).chunk_seq()[0] =~= chunks.deep_view()[cursor as int]);
                    }
                    let next = cursor + 1;
                    *self = Payload::Buffered { chunks, cursor: next };
                    proof {
                        assert(self.chunk_seq() =~= old(self).chunk_seq().drop_first());
                    }
                    Some(c)
                } else {
                    *self = Payload::Buffered { chunks, cursor };
                    proof {
                        assert(*self == *old(self));
                    }
                    None
                }
            },
            Payload::Empty => None,
            Payload::Streaming { token } => {
                *self = Payload::Streaming { token };
                None
            },
        }
    }
}

} // verus!
