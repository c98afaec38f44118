use vstd::prelude::*;

verus! {

/// Target size of every full frame a broadcaster's chunk stream emits: 32 KiB,
/// large enough for about 10 ms of buffering at typical broadcast bit rates.
pub const CHUNK_SIZE: usize = 32768;

/// Re-chunks an incrementally supplied byte stream into frames of a fixed
/// target size. Full frames are emitted as soon as they are complete; a short
/// frame is emitted only at end of stream, and only when it is non-empty.
pub struct ChunkStream {
    /// Target frame size; every emitted frame but the last has exactly this length.
    pub chunk_size: usize,
    /// Bytes of the frame in progress; always shorter than `chunk_size`.
    pub buf: Vec<u8>,
    /// All bytes fed so far.
    pub fed: Ghost<Seq<u8>>,
    /// All frames emitted so far.
    pub frames: Ghost<Seq<Seq<u8>>>,
}

impl ChunkStream {
    /// Structural invariant: no byte is lost or invented — the frames emitted
    /// so far followed by the frame in progress are exactly the bytes fed.
    pub open spec fn wf(self) -> bool {
        &&& 0 < self.chunk_size
        &&& self.buf@.len() < self.chunk_size
        &&& self.frames@.flatten() + self.buf@ == self.fed@
    }

    /// Every frame emitted so far is a full frame of `chunk_size` bytes.
    /// Holds until `finish` emits the one short frame of the stream.
    pub open spec fn all_full(self) -> bool {
        forall|i: int| 0 <= i < self.frames@.len() ==> (#[trigger] self.frames@[i]).len() == self.chunk_size
    }

    pub fn new(chunk_size: usize) -> (r: Self)
        requires
            0 < chunk_size,
        ensures
            r.wf(),
            r.all_full(),
            r.chunk_size == chunk_size,
            r.fed@ == Seq::<u8>::empty(),
            r.frames@ == Seq::<Seq<u8>>::empty(),
            r.buf@ == Seq::<u8>::empty(),
    {
        let r = ChunkStream {
            chunk_size,
            buf: Vec::new(),
            fed: Ghost(Seq::empty()),
            frames: Ghost(Seq::empty()),
        };
        proof {
            assert(r.frames@.flatten() + r.buf@ =~= r.fed@);
        }
        r
    }

    /// Feed the next run of bytes from the source; returns the full frames
    /// completed by this run, in order.
    pub fn feed(&mut self, input: &[u8]) -> (out: Vec<Vec<u8>>)
        requires
            old(self).wf(),
            old(self).all_full(),
        ensures
            final(self).wf(),
            final(self).all_full(),
            final(self).chunk_size == old(self).chunk_size,
            final(self).fed@ == old(self).fed@ + input@,
            final(self).frames@ == old(self).frames@ + out.deep_view(),
            forall|i: int| 0 <= i < out.len() ==> (#[trigger] out.deep_view()[i]).len() == old(self).chunk_size,
    {
        let mut out: Vec<Vec<u8>> = Vec::new();
        let mut i: usize = 0;
        while i < input.len()
            invariant
                i <= input.len(),
                self.wf(),
                self.all_full(),
                self.chunk_size == old(self).chunk_size,
                self.fed@ == old(self).fed@ + input@.take(i as int),
                self.frames@ == old(self).frames@ + out.deep_view(),
                forall|j: int| 0 <= j < out.len() ==> (#[trigger] out.deep_view()[j]).len() == old(self).chunk_size,
            decreases input.len() - i,
        {
            let ghost prev_fed = self.fed@;
            let b = input[i];
            self.buf.push(b);
            proof {
                self.fed@ = prev_fed.push(b);
                assert(self.frames@.flatten() + self.buf@ =~= self.fed@);
                assert(self.fed@ =~= old(self).fed@ + input@.take(i + 1));
            }
            i += 1;
            if self.buf.len() == self.chunk_size {
                let mut full: Vec<u8> = Vec::new();
                core::mem::swap(&mut full, &mut self.buf);
                let ghost frame: Seq<u8> = full@;
                let ghost prev_frames = self.frames@;
                let ghost prev_dv = out.deep_view();
                out.push(full);
                proof {
                    self.frames@ = prev_frames.push(frame);
                    prev_frames.lemma_flatten_push(frame);
                    assert(self.frames@.flatten() + self.buf@ =~= self.fed@);
                    assert forall|j: int| 0 <= j < out.deep_view().len() implies
                        out.deep_view()[j] == prev_dv.push(frame)[j] by {
                        assert(out@[j].deep_view() == out.deep_view()[j]);
                    }
                    assert(out.deep_view() =~= prev_dv.push(frame));
                    assert(self.frames@ =~= old(self).frames@ + out.deep_view());
                }
            }
        }
        proof {
            assert(input@.take(input@.len() as int) =~= input@);
        }
        out
    }

    /// End of stream: emit the frame in progress iff it is non-empty. The
    /// emitted frame is shorter than `chunk_size` by the invariant, and never
    /// empty.
    pub fn finish(&mut self) -> (out: Option<Vec<u8>>)
        requires
            old(self).wf(),
        ensures
            final(self).wf(),
            final(self).chunk_size == old(self).chunk_size,
            final(self).fed@ == old(self).fed@,
            final(self).buf@.len() == 0,
            old(self).buf@.len() == 0 ==> out is None && final(self).frames@ == old(self).frames@,
            old(self).buf@.len() > 0 ==> match out {
                Some(last) => {
                    &&& last@ == old(self).buf@
                    &&& 0 < last@.len() < old(self).chunk_size
                    &&& final(self).frames@ == old(self).frames@.push(last@)
                },
                None => false,
            },
    {
        if self.buf.len() == 0 {
            None
        } else {
            let mut last: Vec<u8> = Vec::new();
            core::mem::swap(&mut last, &mut self.buf);
            let ghost frame: Seq<u8> = last@;
            let ghost prev_frames = self.frames@;
            proof {
                self.frames@ = prev_frames.push(frame);
                prev_frames.lemma_flatten_push(frame);
                assert(self.frames@.flatten() + self.buf@ =~= self.fed@);
            }
            Some(last)
        }
    }
}

/// Law: once a stream is finished (nothing is left in progress), the
/// concatenation of all emitted frames is exactly the concatenation of all
/// bytes the source produced.
pub proof fn lemma_chunk_round_trip(cs: ChunkStream)
    requires
        cs.wf(),
        cs.buf@.len() == 0,
    ensures
        cs.frames@.flatten() == cs.fed@,
{
    assert(cs.frames@.flatten() + cs.buf@ =~= cs.frames@.flatten());
}

/// Chunk a whole in-memory byte string in one go: every frame but the last has
/// length exactly `chunk_size`, the last is non-empty and at most `chunk_size`
/// long, and concatenating the frames gives back the input.
pub fn chunk_all(input: &Vec<u8>, chunk_size: usize) -> (frames: Vec<Vec<u8>>)
    requires
        0 < chunk_size,
    ensures
        frames.deep_view().flatten() == input@,
        forall|i: int| 0 <= i < frames.len() - 1 ==> (#[trigger] frames.deep_view()[i]).len() == chunk_size,
        frames.len() > 0 ==> 0 < frames.deep_view().last().len() <= chunk_size,
        input@.len() == 0 ==> frames.len() == 0,
{
    let mut cs = ChunkStream::new(chunk_size);
    let mut frames = cs.feed(input.as_slice());
    proof {
        assert(Seq::<Seq<u8>>::empty() + frames.deep_view() =~= frames.deep_view());
        assert(Seq::<u8>::empty() + input@ =~= input@);
    }
    let tail = cs.finish();
    match tail {
        Some(last) => {
            let ghost prev_dv = frames.deep_view();
            let ghost frame: Seq<u8> = last@;
            frames.push(last);
            proof {
                assert forall|j: int| 0 <= j < frames.deep_view().len() implies
                    frames.deep_view()[j] == prev_dv.push(frame)[j] by {
                    assert(frames@[j].deep_view() == frames.deep_view()[j]);
                }
                assert(frames.deep_view() =~= prev_dv.push(frame));
            }
        },
        None => {
        },
    }
    proof {
        assert(cs.frames@ =~= frames.deep_view());
        lemma_chunk_round_trip(cs);
        if input@.len() == 0 && frames.deep_view().len() > 0 {
            cs.frames@.lemma_flatten_length_ge_single_element_length(0);
        }
    }
    frames
}

} // verus!
