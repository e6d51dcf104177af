use vstd::prelude::*;

verus! {

/// Accumulates the chunks of an inbound request body, which arrive over
/// time and carry no declared total length, into one contiguous buffer.
/// The transport layer feeds each chunk in as it arrives and takes the
/// finished buffer once the stream signals end-of-input; if the stream
/// fails instead, it drops the aggregator and no partial buffer is
/// persisted anywhere.
pub struct BodyAggregator {
    buf: Vec<u8>,
}

impl View for BodyAggregator {
    type V = Seq<u8>;

    closed spec fn view(&self) -> Seq<u8> {
        self.buf@
    }
}

impl BodyAggregator {
    /// An aggregator holding nothing yet.
    pub fn new() -> (r: BodyAggregator)
        ensures
            r@ == Seq::<u8>::empty(),
    {
        BodyAggregator { buf: Vec::new() }
    }

    /// Append one arrived chunk to the buffer, in order, losing nothing.
    pub fn push_chunk(&mut self, chunk: &[u8])
        ensures
            final(self)@ == old(self)@ + chunk@,
    {
        self.buf.extend_from_slice(chunk);
        proof {
            assert forall|i: int|
                0 <= i < self.buf@.len() implies self.buf@[i] == (old(self)@ + chunk@)[i] by {
                if i >= old(self)@.len() {
                    assert(cloned::<u8>(chunk@[i - old(self)@.len()], self.buf@[i]));
                }
            }
            assert(self.buf@ =~= old(self)@ + chunk@);
        }
    }

    /// The fully aggregated body.
    pub fn into_contents(self) -> (r: Vec<u8>)
        ensures
            r@ == self@,
    {
        self.buf
    }
}

} // verus!
