//! The input stream of a zkVM program as the host fills it: a list of byte
//! frames that the program reads back in order, and the proofs that are
//! handed to it for verification.

use vstd::prelude::*;
use vstd::slice::slice_to_vec;

use crate::encoding::{encode_digest, encode_frame_list, encode_frames, encode_words};

verus! {

/// A program's input stream: `buffer` holds the frames in the order in which
/// they were written, `proofs` the proofs handed over for verification.
pub struct ProgramStdin<P> {
    pub buffer: Vec<Vec<u8>>,
    pub proofs: Vec<P>,
}

/// A byte vector's deep view is its plain view.
pub(crate) proof fn lemma_bytes_deep_view(b: Vec<u8>)
    ensures
        b.deep_view() == b@,
{
    assert(b.deep_view() =~= b@);
}

impl<P> ProgramStdin<P> {
    /// The frames as byte sequences.
    pub open spec fn frames(&self) -> Seq<Seq<u8>> {
        self.buffer.deep_view()
    }

    /// An empty input stream.
    pub fn new() -> (s: Self)
        ensures
            s.frames() == Seq::<Seq<u8>>::empty(),
            s.proofs@ == Seq::<P>::empty(),
    {
        let s = ProgramStdin { buffer: Vec::new(), proofs: Vec::new() };
        assert(s.frames() =~= Seq::<Seq<u8>>::empty());
        s
    }

    /// Appends `bytes` as one frame, unchanged.
    pub fn write_vec(&mut self, bytes: Vec<u8>)
        ensures
            final(self).frames() == old(self).frames().push(bytes@),
            final(self).proofs@ == old(self).proofs@,
    {
        self.buffer.push(bytes);
        proof {
            lemma_bytes_deep_view(bytes);
        }
        assert(self.frames() =~= old(self).frames().push(bytes@));
    }

    /// Appends a copy of `bytes` as one frame.
    pub fn write_slice(&mut self, bytes: &[u8])
        ensures
            final(self).frames() == old(self).frames().push(bytes@),
            final(self).proofs@ == old(self).proofs@,
    {
        self.write_vec(slice_to_vec(bytes));
    }

    /// Appends one frame holding the encoding of a list of byte vectors.
    pub fn write_frame_list(&mut self, frames: &Vec<Vec<u8>>)
        ensures
            final(self).frames() == old(self).frames().push(
                encode_frame_list(frames.deep_view()),
            ),
            final(self).proofs@ == old(self).proofs@,
    {
        let bytes = encode_frames(frames);
        self.write_vec(bytes);
    }

    /// Appends one frame holding the encoding of eight words.
    pub fn write_digest(&mut self, words: &[u32; 8])
        ensures
            final(self).frames() == old(self).frames().push(encode_words(words@)),
            final(self).proofs@ == old(self).proofs@,
    {
        let bytes = encode_digest(words);
        self.write_vec(bytes);
    }

    /// Hands the given proofs to the program, in their order.
    pub fn write_proofs(&mut self, proofs: Vec<P>)
        ensures
            final(self).frames() == old(self).frames(),
            final(self).proofs@ == old(self).proofs@ + proofs@,
    {
        let mut proofs = proofs;
        self.proofs.append(&mut proofs);
    }

    /// Hands one more proof to the program.
    pub fn write_proof(&mut self, proof: P)
        ensures
            final(self).frames() == old(self).frames(),
            final(self).proofs@ == old(self).proofs@.push(proof),
    {
        self.proofs.push(proof);
    }
}

} // verus!
