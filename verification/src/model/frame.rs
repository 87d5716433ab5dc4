//! Frames are the leaf of the model: a sized, timestamped payload within a group.
//!
//! A group is a single ordered stream, so at most one frame is ever in flight.
//! Completed frames are plain data ([`Frame`]); the in-flight frame is written
//! through [`Producer`], which holds its [`FrameBuf`] until it commits to the group.
//! A [`Consumer`] reads one frame: a completed one from its own copy, the one in
//! flight from the buffer that the producer fills.

use vstd::prelude::*;

use crate::bytes::{copy_of, copy_range};
use crate::error::Error;
use crate::model::group;
use crate::model::time::Timestamp;
use crate::poll::Poll;

verus! {

/// A chunk of data with an upfront size and a presentation timestamp.
///
/// This is just the header; the payload is carried separately (as a completed
/// [`Frame`] or streamed via [`Producer`] / [`Consumer`]).
#[derive(Clone, Copy, Debug, PartialEq, Eq, Structural)]
pub struct Info {
    /// Total payload size in bytes. Declared up front so consumers can preallocate.
    pub size: u64,
    /// Presentation timestamp.
    ///
    /// [`group::Producer::create_frame`] converts it into the parent track's
    /// timescale, so the scale you build it with doesn't have to match the track.
    pub timestamp: Timestamp,
}

/// A completed frame: a timestamp and its full, contiguous payload.
///
/// This is the stored form of every finished frame in a group.
#[derive(Debug)]
pub struct Frame {
    /// Presentation timestamp, at the parent track's timescale.
    pub timestamp: Timestamp,
    /// The full frame payload.
    pub payload: Vec<u8>,
}

/// What a [`Frame`] stands for.
pub struct FrameModel {
    pub timestamp: Timestamp,
    pub payload: Seq<u8>,
}

impl View for Frame {
    type V = FrameModel;

    open spec fn view(&self) -> FrameModel {
        FrameModel { timestamp: self.timestamp, payload: self.payload@ }
    }
}

/// What a run of frames stands for.
pub open spec fn frame_models(frames: Seq<Frame>) -> Seq<FrameModel> {
    frames.map_values(|frame: Frame| frame@)
}

/// The bytes that a run of frames takes up.
pub open spec fn total_size(frames: Seq<FrameModel>) -> nat
    decreases frames.len(),
{
    if frames.len() == 0 {
        0
    } else {
        frames[0].payload.len() + total_size(frames.skip(1))
    }
}

/// No frames take up nothing, and one more frame takes up its own size.
pub proof fn total_size_push(frames: Seq<FrameModel>, frame: FrameModel)
    ensures
        total_size(Seq::<FrameModel>::empty()) == 0,
        total_size(frames.push(frame)) == total_size(frames) + frame.payload.len(),
    decreases frames.len(),
{
    if frames.len() == 0 {
        assert(frames.push(frame).skip(1) =~= seq![]);
        assert(total_size(seq![]) == 0);
    } else {
        assert(frames.push(frame).skip(1) =~= frames.skip(1).push(frame));
        total_size_push(frames.skip(1), frame);
    }
}

impl Clone for Frame {
    fn clone(&self) -> (r: Frame)
        ensures
            r@ == self@,
    {
        Frame { timestamp: self.timestamp, payload: copy_of(self.payload.as_slice()) }
    }
}

/// Payload storage for the single in-flight frame: the bytes written so far, and how
/// many there will be.
pub struct FrameBuf {
    capacity: usize,
    data: Vec<u8>,
}

impl FrameBuf {
    #[verifier::type_invariant]
    closed spec fn within_capacity(self) -> bool {
        self.data@.len() <= self.capacity
    }

    /// The declared size.
    pub closed spec fn spec_capacity(&self) -> usize {
        self.capacity
    }

    /// The bytes written so far.
    pub closed spec fn data(&self) -> Seq<u8> {
        self.data@
    }

    /// Storage for a frame of `size` bytes.
    ///
    /// The oversized-frame guard lives in [`group::Producer`], which rejects a declared
    /// size larger than the group's byte budget before calling this.
    pub fn new(size: usize) -> (r: FrameBuf)
        ensures
            r.capacity() == size,
            r.data() == Seq::<u8>::empty(),
    {
        FrameBuf { capacity: size, data: Vec::new() }
    }

    /// The declared size.
    #[verifier::when_used_as_spec(spec_capacity)]
    pub fn capacity(&self) -> (r: usize)
        ensures
            r == self.capacity(),
    {
        self.capacity
    }

    /// The number of bytes written so far, never more than the declared size.
    pub fn written(&self) -> (r: usize)
        ensures
            r == self.data().len(),
            r <= self.capacity(),
    {
        proof {
            use_type_invariant(self);
        }
        self.data.len()
    }

    /// Take a whole-frame write without copying it: the bytes come back when they are not
    /// the whole frame or something was written already.
    pub fn try_set_bytes(&mut self, bytes: Vec<u8>) -> (r: Result<(), Vec<u8>>)
        ensures
            r is Ok <==> bytes@.len() == old(self).capacity() && old(self).data().len() == 0,
            r is Ok ==> final(self).data() == bytes@,
            r matches Err(back) ==> back == bytes && final(self).data() == old(self).data(),
            final(self).capacity() == old(self).capacity(),
    {
        if bytes.len() != self.capacity || self.data.len() != 0 {
            return Err(bytes);
        }
        self.data = bytes;
        Ok(())
    }

    /// Append `src` behind what was written already.
    pub fn append(&mut self, src: &[u8])
        requires
            old(self).data().len() + src@.len() <= old(self).capacity(),
        ensures
            final(self).data() == old(self).data() + src@,
            final(self).capacity() == old(self).capacity(),
    {
        let mut data: Vec<u8> = Vec::new();
        std::mem::swap(&mut data, &mut self.data);
        data.extend_from_slice(src);
        assert(data@ =~= old(self).data@ + src@);
        self.data = data;
    }

    /// The completed payload.
    pub fn freeze(&self) -> (r: Vec<u8>)
        ensures
            r@ == self.data(),
    {
        copy_of(self.data.as_slice())
    }

    /// The bytes from `start` up to but not including `end`.
    pub fn slice(&self, start: usize, end: usize) -> (r: Vec<u8>)
        requires
            start <= end <= self.data().len(),
        ensures
            r@ == self.data().subrange(start as int, end as int),
    {
        copy_range(&self.data, start, end)
    }
}

/// Writes the payload of the single in-flight frame in one or more chunks.
///
/// The total bytes written must exactly match [`Info::size`]; call [`Self::finish`] to
/// commit the frame to its group (or [`Self::abort`] to fail it). Leaving it with neither
/// ([`Self::abandon`]) aborts the group, since an unfinished frame leaves the group's
/// stream broken.
pub struct Producer {
    /// The frame's header, at the track's timescale.
    pub info: Info,
    /// The parent group.
    pub parent: group::Info,
    /// The bytes written so far.
    pub buf: FrameBuf,
    /// Set once the frame is committed (finished) or aborted.
    pub done: bool,
}

impl Producer {
    /// Whether this is the producer of the frame that `group` has in flight.
    pub open spec fn writes_to(&self, group: &group::Producer) -> bool {
        &&& !self.done
        &&& self.buf.capacity() == self.info.size
        &&& group@.closed || group@.partial == Some(self.info)
    }

    /// The parent group this frame belongs to.
    pub fn group(&self) -> (r: group::Info)
        ensures
            r == self.parent,
    {
        self.parent
    }

    /// Bytes still needed to complete the frame.
    pub fn remaining(&self) -> (r: usize)
        ensures
            r == self.buf.capacity() - self.buf.data().len(),
    {
        let written: usize = self.buf.written();
        self.buf.capacity() - written
    }

    /// Write a chunk of data to the frame.
    ///
    /// Returns [`Error::WrongSize`] if the chunk would exceed the remaining bytes.
    pub fn write(&mut self, chunk: &[u8]) -> (r: Result<(), Error>)
        ensures
            r is Ok <==> old(self).buf.data().len() + chunk@.len() <= old(self).buf.capacity(),
            r matches Err(e) ==> e == Error::WrongSize && *final(self) == *old(self),
            r is Ok ==> final(self).buf.data() == old(self).buf.data() + chunk@,
            final(self).buf.capacity() == old(self).buf.capacity(),
            final(self).info == old(self).info,
            final(self).parent == old(self).parent,
            final(self).done == old(self).done,
    {
        if chunk.len() > self.remaining() {
            return Err(Error::WrongSize);
        }
        self.buf.append(chunk);
        Ok(())
    }

    /// Commit the frame, verifying that all bytes were written.
    ///
    /// Returns [`Error::WrongSize`] if the bytes written don't match [`Info::size`], in
    /// which case the group is aborted: its stream is broken.
    pub fn finish(&mut self, group: &mut group::Producer) -> (r: Result<(), Error>)
        requires
            old(self).writes_to(&*old(group)),
            old(group).well_formed(),
        ensures
            final(group).well_formed(),
            final(group).info == old(group).info,
            final(group).track == old(group).track,
            *final(self) == (Producer { done: true, ..*old(self) }),
            final(group)@ == if old(group)@.closed {
                old(group)@
            } else if old(self).buf.data().len() < old(self).buf.capacity() {
                old(group)@.aborted(Error::Dropped)
            } else {
                old(group)@.committed(
                    (FrameModel {
                        timestamp: old(self).info.timestamp,
                        payload: old(self).buf.data(),
                    }),
                )
            },
            r == if old(self).buf.data().len() < old(self).buf.capacity() {
                Err::<(), Error>(Error::WrongSize)
            } else if old(group)@.closed {
                Err(old(group)@.close_error())
            } else {
                Ok(())
            },
    {
        self.done = true;
        let written: usize = self.buf.written();
        if written != self.buf.capacity() {
            let _ = group.abort(Error::Dropped);
            return Err(Error::WrongSize);
        }
        let payload: Vec<u8> = self.buf.freeze();
        group.frame_commit(Frame { timestamp: self.info.timestamp, payload })
    }

    /// Abort the frame (and its group) with the given error.
    pub fn abort(&mut self, group: &mut group::Producer, err: Error)
        requires
            old(group).well_formed(),
        ensures
            final(group).well_formed(),
            final(group).info == old(group).info,
            final(group).track == old(group).track,
            *final(self) == (Producer { done: true, ..*old(self) }),
            final(group)@ == if old(group)@.closed {
                old(group)@
            } else {
                old(group)@.aborted(err)
            },
    {
        let _ = group.abort(err);
        self.done = true;
    }

    /// Give the frame up: unless it was finished or aborted, the group fails, so that
    /// consumers surface an error instead of hanging on the partial forever.
    pub fn abandon(self, group: &mut group::Producer)
        requires
            old(group).well_formed(),
        ensures
            final(group).well_formed(),
            final(group).info == old(group).info,
            final(group).track == old(group).track,
            final(group)@ == if self.done || old(group)@.closed {
                old(group)@
            } else {
                old(group)@.aborted(Error::Dropped)
            },
    {
        if !self.done {
            let _ = group.abort(Error::Dropped);
        }
    }
}

/// The source of a [`Consumer`]'s payload: a finished frame (whole) or the in-flight
/// tail (streamed).
#[derive(Debug)]
pub enum Source {
    Complete(Vec<u8>),
    Partial,
}

/// Reads one frame's payload, streaming as bytes arrive for the in-flight tail.
#[derive(Debug)]
pub struct Consumer {
    pub info: Info,
    pub source: Source,
    /// Byte offset consumed so far.
    pub read_idx: usize,
}

impl Consumer {
    /// A consumer at the start of a frame.
    pub fn new(info: Info, source: Source) -> (r: Consumer)
        ensures
            r.info == info,
            r.source == source,
            r.read_idx == 0,
    {
        Consumer { info, source, read_idx: 0 }
    }

    /// Whether `buf` is the storage that this consumer streams from; a consumer of a
    /// completed frame needs none.
    pub open spec fn streams(&self, buf: &FrameBuf) -> bool {
        match self.source {
            Source::Complete(payload) => self.read_idx <= payload@.len(),
            Source::Partial => buf.capacity() == self.info.size && self.read_idx
                <= buf.data().len() <= buf.capacity(),
        }
    }

    /// What is readable now: the completed payload, or what was written so far.
    pub open spec fn readable(&self, buf: &FrameBuf) -> Seq<u8> {
        match self.source {
            Source::Complete(payload) => payload@,
            Source::Partial => buf.data(),
        }
    }

    /// Poll for the next chunk of bytes since the last read.
    ///
    /// Returns `None` once the frame is finished and all bytes have been consumed. Bytes
    /// that were written are handed out even if the group has failed since.
    pub fn poll_read_chunk(&mut self, group: &group::GroupState, buf: &FrameBuf) -> (r: Poll<
        Result<Option<Vec<u8>>, Error>,
    >)
        requires
            old(self).streams(buf),
        ensures
            final(self).streams(buf),
            final(self).info == old(self).info,
            final(self).source == old(self).source,
            ({
                let readable = old(self).readable(buf);
                if old(self).read_idx < readable.len() {
                    &&& r matches Poll::Ready(Ok(Some(chunk))) && chunk@ == readable.skip(
                        old(self).read_idx as int,
                    )
                    &&& final(self).read_idx == readable.len()
                } else {
                    &&& final(self).read_idx == old(self).read_idx
                    &&& r == if old(self).source is Complete || readable.len()
                        >= old(self).info.size {
                        Poll::Ready(Ok::<Option<Vec<u8>>, Error>(None))
                    } else {
                        match group@.failure() {
                            Some(err) => Poll::Ready(Err(err)),
                            None => Poll::Pending,
                        }
                    }
                }
            }),
    {
        match &self.source {
            Source::Complete(bytes) => {
                if self.read_idx >= bytes.len() {
                    return Poll::Ready(Ok(None));
                }
                let out: Vec<u8> = copy_range(bytes, self.read_idx, bytes.len());
                assert(out@ =~= bytes@.skip(self.read_idx as int));
                self.read_idx = bytes.len();
                Poll::Ready(Ok(Some(out)))
            },
            Source::Partial => {
                let written: usize = buf.written();
                if written > self.read_idx {
                    let out: Vec<u8> = buf.slice(self.read_idx, written);
                    assert(out@ =~= buf.data().skip(self.read_idx as int));
                    self.read_idx = written;
                    return Poll::Ready(Ok(Some(out)));
                }
                if written as u64 >= self.info.size {
                    return Poll::Ready(Ok(None));
                }
                match group.failure() {
                    Some(err) => Poll::Ready(Err(err)),
                    None => Poll::Pending,
                }
            },
        }
    }

    /// Poll for all remaining bytes, resolving once the frame is finished. A frame in
    /// flight is lost with its group, even if all of it was written.
    pub fn poll_read_all(&mut self, group: &group::GroupState, buf: &FrameBuf) -> (r: Poll<
        Result<Vec<u8>, Error>,
    >)
        requires
            old(self).streams(buf),
        ensures
            final(self).streams(buf),
            final(self).info == old(self).info,
            final(self).source == old(self).source,
            ({
                let readable = old(self).readable(buf);
                let lost = old(self).source is Partial && group@.abort is Some;
                let whole = old(self).source is Complete || readable.len() >= old(self).info.size;
                if whole && !lost {
                    &&& r matches Poll::Ready(Ok(all)) && all@ == readable.skip(
                        old(self).read_idx as int,
                    )
                    &&& final(self).read_idx == readable.len()
                } else {
                    &&& final(self).read_idx == old(self).read_idx
                    &&& r == match group@.failure() {
                        Some(err) => Poll::Ready(Err::<Vec<u8>, Error>(err)),
                        None => Poll::Pending,
                    }
                }
            }),
    {
        match &self.source {
            Source::Complete(bytes) => {
                let out: Vec<u8> = copy_range(bytes, self.read_idx, bytes.len());
                assert(out@ =~= bytes@.skip(self.read_idx as int));
                self.read_idx = bytes.len();
                Poll::Ready(Ok(out))
            },
            Source::Partial => {
                match &group.abort {
                    Some(err) => {
                        return Poll::Ready(Err(err.clone()));
                    },
                    None => {},
                }
                let written: usize = buf.written();
                if written as u64 >= self.info.size {
                    let out: Vec<u8> = buf.slice(self.read_idx, written);
                    assert(out@ =~= buf.data().skip(self.read_idx as int));
                    self.read_idx = written;
                    return Poll::Ready(Ok(out));
                }
                match group.failure() {
                    Some(err) => Poll::Ready(Err(err)),
                    None => Poll::Pending,
                }
            },
        }
    }
}

} // verus!
