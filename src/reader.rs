//! When to stop reading a connection: the request is taken to be complete
//! once a read comes back empty (the peer closed) or short of a full chunk.
use vstd::prelude::*;

verus! {

/// The size of each read from a connection.
pub const CHUNK_SIZE: usize = 1024;

/// Adds what one read returned to the request buffer and says whether to
/// read again: only after a full chunk.
pub fn take_chunk(buffer: &mut Vec<u8>, chunk: &[u8]) -> (more: bool)
    ensures
        final(buffer)@ == old(buffer)@ + chunk@,
        more == (chunk@.len() >= CHUNK_SIZE),
{
    let mut i: usize = 0;
    while i < chunk.len()
        invariant
            0 <= i <= chunk@.len(),
            buffer@ == old(buffer)@ + chunk@.take(i as int),
        decreases chunk@.len() - i,
    {
        buffer.push(chunk[i]);
        assert(chunk@.take(i + 1) =~= chunk@.take(i as int).push(chunk@[i as int]));
        i = i + 1;
    }
    assert(chunk@.take(chunk@.len() as int) =~= chunk@);
    chunk.len() >= CHUNK_SIZE
}

} // verus!
