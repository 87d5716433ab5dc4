//! A group is a stream of frames, split into a [`Producer`] and a [`Consumer`].
//!
//! A [`Producer`] holds an ordered stream of frames. Frames can be written all at once
//! ([`Producer::write_frame`]), or in chunks ([`Producer::create_frame`]).
//!
//! A [`Consumer`] is a cursor into the stream. It can be cloned, in which case each
//! reader receives a copy of each frame. (fanout)

use std::collections::VecDeque;

use vstd::prelude::*;

use crate::bytes::copy_of;
use crate::error::Error;
use crate::model::frame;
use crate::model::frame::{frame_models, total_size, total_size_push, Frame, FrameBuf, FrameModel};
use crate::model::time::{Clock, Instant, TimeOverflow, Timescale, Timestamp};
use crate::model::track;
use crate::poll::Poll;

verus! {

/// Maximum total size of frames cached in a group before old frames are evicted, 32 MiB.
///
/// Doubles as the per-frame size cap: a single frame can be at most this large (a
/// larger declared size is refused before allocating), so one maximum-size frame can
/// fill a group's cache.
pub const MAX_GROUP_CACHE: u64 = 33_554_432;

/// A group contains a sequence number because they can arrive out of order.
///
/// You can use [`track::Producer::append_group`] if you just want to +1 the sequence number.
#[derive(Clone, Copy, Debug, Hash, PartialEq, Eq, Structural)]
pub struct Info {
    /// Per-track sequence number used to detect ordering and gaps. Higher numbers
    /// supersede lower ones; consumers may skip late arrivals.
    pub sequence: u64,
}

impl Info {
    /// An empty group with this header, on a track with default properties.
    pub fn produce(self) -> (r: Producer)
        ensures
            r.well_formed(),
            r.info == self,
            r.track == track::Info::spec_default(),
            r@ == empty_group(),
    {
        Producer::new(self, track::Info::default())
    }
}

/// The in-flight (tail) frame being written. At most one exists at a time, since a
/// group is a single ordered stream.
pub struct Partial {
    pub timestamp: Timestamp,
    pub size: u64,
}

/// The state of a group.
pub struct GroupState {
    /// Completed frames. Evicted frames are popped from the front; `offset` tracks how
    /// many.
    pub frames: VecDeque<Frame>,
    /// The single in-flight frame, if one is open.
    pub partial: Option<Partial>,
    /// The number of frames evicted from the front of the group.
    pub offset: usize,
    /// The total size (in bytes) of all cached frames plus any in-flight frame.
    pub cache: u64,
    /// Whether the group has been finalized (no more frames).
    pub fin: bool,
    /// The error that caused the group to be aborted, if any.
    pub abort: Option<Error>,
    /// Whether every writer is gone.
    pub closed: bool,
}

/// What a [`GroupState`] stands for.
pub struct GroupModel {
    pub frames: Seq<FrameModel>,
    pub partial: Option<frame::Info>,
    pub offset: nat,
    pub fin: bool,
    pub abort: Option<Error>,
    pub closed: bool,
}

/// What evicting from the front of `frames` leaves: as few are dropped as will bring the
/// group within its budget, where `in_flight` bytes are taken up by the tail.
pub open spec fn within_budget(frames: Seq<FrameModel>, in_flight: nat) -> Seq<FrameModel>
    decreases frames.len(),
{
    if frames.len() == 0 || total_size(frames) + in_flight <= MAX_GROUP_CACHE {
        frames
    } else {
        within_budget(frames.skip(1), in_flight)
    }
}

impl GroupModel {
    /// The bytes taken up by the in-flight frame.
    pub open spec fn in_flight(self) -> nat {
        match self.partial {
            Some(info) => info.size as nat,
            None => 0,
        }
    }

    /// Why the group is closed.
    pub open spec fn close_error(self) -> Error {
        match self.abort {
            Some(err) => err,
            None => Error::Dropped,
        }
    }

    /// Why nothing more will come, if so.
    pub open spec fn failure(self) -> Option<Error> {
        match self.abort {
            Some(err) => Some(err),
            None => if self.closed {
                Some(Error::Dropped)
            } else {
                None
            },
        }
    }

    /// Whether a frame of `size` bytes at `timestamp` can be written, and if not, why.
    pub open spec fn admits(self, timescale: Timescale, timestamp: Timestamp, size: nat) -> Result<
        Timestamp,
        Error,
    > {
        match timestamp.spec_convert(timescale) {
            Err(_) => Err(Error::TimestampMismatch),
            Ok(timestamp) => if size > MAX_GROUP_CACHE {
                Err(Error::FrameTooLarge)
            } else if self.closed {
                Err(self.close_error())
            } else if self.fin {
                Err(Error::Closed)
            } else {
                Ok(timestamp)
            },
        }
    }

    /// The group with `frames` cached, as many as fit its budget.
    pub open spec fn holding(self, frames: Seq<FrameModel>, partial: Option<frame::Info>) -> Self {
        let in_flight: nat = match partial {
            Some(info) => info.size as nat,
            None => 0,
        };
        let kept = within_budget(frames, in_flight);
        GroupModel {
            frames: kept,
            partial,
            offset: (self.offset + frames.len() - kept.len()) as nat,
            ..self
        }
    }

    /// The group with one more completed frame.
    pub open spec fn written(self, frame: FrameModel) -> Self {
        self.holding(self.frames.push(frame), None)
    }

    /// The group with a frame opened.
    pub open spec fn opened(self, info: frame::Info) -> Self {
        self.holding(self.frames, Some(info))
    }

    /// The group with its in-flight frame completed. Its bytes were counted when it was
    /// opened.
    pub open spec fn committed(self, frame: FrameModel) -> Self {
        GroupModel { frames: self.frames.push(frame), partial: None, ..self }
    }

    /// The group without its cached frames and any in-flight tail.
    pub open spec fn released(self) -> Self {
        GroupModel { frames: seq![], partial: None, ..self }
    }

    /// The group, aborted.
    pub open spec fn aborted(self, err: Error) -> Self {
        GroupModel { abort: Some(err), closed: true, ..self.released() }
    }

    /// The number of frames written so far (completed plus any in-flight).
    pub open spec fn frame_count(self) -> nat {
        self.offset + self.frames.len() + if self.partial is Some {
            1nat
        } else {
            0
        }
    }
}

/// What dropping from the front leaves is a suffix, and within budget unless the tail
/// alone exceeds it.
pub proof fn within_budget_facts(frames: Seq<FrameModel>, in_flight: nat)
    ensures
        within_budget(frames, in_flight).len() <= frames.len(),
        within_budget(frames, in_flight) == frames.skip(
            frames.len() - within_budget(frames, in_flight).len(),
        ),
        in_flight <= MAX_GROUP_CACHE ==> total_size(within_budget(frames, in_flight)) + in_flight
            <= MAX_GROUP_CACHE,
    decreases frames.len(),
{
    if frames.len() == 0 || total_size(frames) + in_flight <= MAX_GROUP_CACHE {
        assert(frames.skip(0) =~= frames);
    } else {
        within_budget_facts(frames.skip(1), in_flight);
        let kept = within_budget(frames.skip(1), in_flight);
        assert(frames.skip(1).skip(frames.len() - 1 - kept.len()) =~= frames.skip(
            frames.len() - kept.len(),
        ));
    }
}

impl View for GroupState {
    type V = GroupModel;

    open spec fn view(&self) -> GroupModel {
        GroupModel {
            frames: frame_models(self.frames@),
            partial: match self.partial {
                Some(partial) => Some(
                    (frame::Info { size: partial.size, timestamp: partial.timestamp }),
                ),
                None => None,
            },
            offset: self.offset as nat,
            fin: self.fin,
            abort: self.abort,
            closed: self.closed,
        }
    }
}

impl GroupState {
    /// The accounting is right, the group is within its budget, and every frame has a
    /// number.
    pub open spec fn well_formed(&self) -> bool {
        &&& self.cache == total_size(self@.frames) + self@.in_flight()
        &&& self.cache <= MAX_GROUP_CACHE
        &&& self@.frame_count() <= usize::MAX
    }

    /// Why nothing more will come, if so.
    pub fn failure(&self) -> (r: Option<Error>)
        ensures
            r == self@.failure(),
    {
        match &self.abort {
            Some(err) => Some(err.clone()),
            None => if self.closed {
                Some(Error::Dropped)
            } else {
                None
            },
        }
    }

    /// What [`Self::poll_frame_source`] gives: the header of the frame at `index`, with
    /// its payload if it is complete.
    pub open spec fn frame_source(group: GroupModel, index: nat) -> Poll<
        Result<Option<(frame::Info, Option<Seq<u8>>)>, Error>,
    > {
        if index < group.offset {
            Poll::Ready(Err(Error::Lagged))
        } else if index - group.offset < group.frames.len() {
            let frame = group.frames[index - group.offset];
            Poll::Ready(
                Ok(
                    Some(
                        (
                            (frame::Info {
                                size: frame.payload.len() as u64,
                                timestamp: frame.timestamp,
                            }),
                            Some(frame.payload),
                        ),
                    ),
                ),
            )
        } else if index - group.offset == group.frames.len() && group.partial is Some {
            Poll::Ready(Ok(Some((group.partial->Some_0, None))))
        } else if group.abort is Some {
            Poll::Ready(Err(group.abort->Some_0))
        } else if group.fin {
            Poll::Ready(Ok(None))
        } else {
            Poll::Pending
        }
    }

    /// Resolve the source for the frame at `index`: a completed frame (whole) or the
    /// in-flight tail (streamed). Used by [`Consumer::poll_next_frame`].
    ///
    /// `abort` is checked before `fin`: an evicted group is both finished and
    /// aborted with its frames cleared, and the reader must see the abort rather
    /// than a clean end-of-group at the wrong index.
    pub fn poll_frame_source(&self, index: usize) -> (r: Poll<
        Result<Option<(frame::Info, frame::Source)>, Error>,
    >)
        requires
            self.well_formed(),
        ensures
            source_model(r) == GroupState::frame_source(self@, index as nat),
    {
        if index < self.offset {
            return Poll::Ready(Err(Error::Lagged));
        }
        let local: usize = index - self.offset;
        if local < self.frames.len() {
            let frame: &Frame = &self.frames[local];
            assert(self@.frames[local as int] == self.frames@[local as int]@);
            let info: frame::Info = frame::Info {
                size: frame.payload.len() as u64,
                timestamp: frame.timestamp,
            };
            let payload: Vec<u8> = copy_of(frame.payload.as_slice());
            return Poll::Ready(Ok(Some((info, frame::Source::Complete(payload)))));
        }
        if local == self.frames.len() {
            match &self.partial {
                Some(partial) => {
                    let info: frame::Info = frame::Info {
                        size: partial.size,
                        timestamp: partial.timestamp,
                    };
                    return Poll::Ready(Ok(Some((info, frame::Source::Partial))));
                },
                None => {},
            }
        }
        match &self.abort {
            Some(err) => {
                return Poll::Ready(Err(err.clone()));
            },
            None => {},
        }
        if self.fin {
            return Poll::Ready(Ok(None));
        }
        Poll::Pending
    }

    /// The final number of frames: `abort` is checked before `fin`, since an evicted
    /// group's cleared frames would report a bogus count.
    pub fn poll_finished(&self) -> (r: Poll<Result<u64, Error>>)
        requires
            self.well_formed(),
        ensures
            r == match self@.abort {
                Some(err) => Poll::Ready(Err(err)),
                None => if self@.fin {
                    Poll::Ready(Ok((self@.offset + self@.frames.len()) as u64))
                } else {
                    Poll::Pending
                },
            },
    {
        match &self.abort {
            Some(err) => Poll::Ready(Err(err.clone())),
            None => if self.fin {
                Poll::Ready(Ok((self.offset + self.frames.len()) as u64))
            } else {
                Poll::Pending
            },
        }
    }

    /// Evict completed frames from the front until within the byte budget.
    pub fn evict(&mut self)
        requires
            old(self).cache == total_size(old(self)@.frames) + old(self)@.in_flight(),
            old(self)@.in_flight() <= MAX_GROUP_CACHE,
            old(self)@.frame_count() <= usize::MAX,
        ensures
            final(self).well_formed(),
            final(self)@ == old(self)@.holding(old(self)@.frames, old(self)@.partial),
    {
        let ghost all = self@.frames;
        let ghost in_flight = self@.in_flight();
        while self.cache > MAX_GROUP_CACHE
            invariant
                self.cache == total_size(self@.frames) + in_flight,
                in_flight == self@.in_flight(),
                in_flight <= MAX_GROUP_CACHE,
                within_budget(all, in_flight) == within_budget(self@.frames, in_flight),
                self@.offset + self@.frames.len() == old(self)@.offset + all.len(),
                self@.partial == old(self)@.partial,
                self@.fin == old(self)@.fin,
                self@.abort == old(self)@.abort,
                self@.closed == old(self)@.closed,
                self@.frame_count() <= usize::MAX,
            decreases self.frames.len(),
        {
            let ghost before = self@.frames;
            let ghost raw = self.frames@;
            assert(before.len() == 0 ==> total_size(before) == 0);
            match self.frames.pop_front() {
                None => {},
                Some(frame) => {
                    assert(before[0] == frame@);
                    assert(self@.frames =~= before.skip(1));
                    self.cache = self.cache - frame.payload.len() as u64;
                    self.offset = self.offset + 1;
                },
            }
        }
        proof {
            within_budget_facts(all, in_flight);
        }
    }

    /// Drop the cached frames (and any in-flight tail).
    pub fn release(&mut self)
        requires
            old(self)@.frame_count() <= usize::MAX,
        ensures
            final(self).well_formed(),
            final(self)@ == old(self)@.released(),
    {
        self.frames = VecDeque::new();
        self.partial = None;
        self.cache = 0;
        assert(self@.frames =~= seq![]);
    }
}

/// A source with its payload replaced by what it stands for.
pub open spec fn source_model(
    r: Poll<Result<Option<(frame::Info, frame::Source)>, Error>>,
) -> Poll<Result<Option<(frame::Info, Option<Seq<u8>>)>, Error>> {
    match r {
        Poll::Ready(Ok(Some((info, frame::Source::Complete(payload))))) => Poll::Ready(
            Ok(Some((info, Some(payload@)))),
        ),
        Poll::Ready(Ok(Some((info, frame::Source::Partial)))) => Poll::Ready(Ok(Some((info, None)))),
        Poll::Ready(Ok(None)) => Poll::Ready(Ok(None)),
        Poll::Ready(Err(err)) => Poll::Ready(Err(err)),
        Poll::Pending => Poll::Pending,
    }
}

/// Writes frames to a group in order.
///
/// Each group is delivered independently over a QUIC stream.
/// Use [`Self::write_frame`] for simple single-buffer frames,
/// or [`Self::create_frame`] for multi-chunk streaming writes.
pub struct Producer {
    /// The group header containing the sequence number.
    pub info: Info,
    /// The parent track's info. Its timescale normalizes every frame's timestamp.
    pub track: track::Info,
    /// The frames.
    pub state: GroupState,
}

impl View for Producer {
    type V = GroupModel;

    open spec fn view(&self) -> GroupModel {
        self.state@
    }
}

impl Producer {
    /// What every group satisfies.
    pub open spec fn well_formed(&self) -> bool {
        self.state.well_formed()
    }

    /// Create an empty group bound to its parent track's properties.
    pub fn new(info: Info, track: track::Info) -> (r: Producer)
        ensures
            r.well_formed(),
            r.info == info,
            r.track == track,
            r@ == empty_group(),
    {
        let r: Producer = Producer {
            info,
            track,
            state: GroupState {
                frames: VecDeque::new(),
                partial: None,
                offset: 0,
                cache: 0,
                fin: false,
                abort: None,
                closed: false,
            },
        };
        assert(r@.frames =~= seq![]);
        r
    }

    /// The parent track's timescale.
    pub fn timescale(&self) -> (r: Timescale)
        ensures
            r == self.track.timescale,
    {
        self.track.timescale
    }

    /// Why the group is closed.
    fn close_error(&self) -> (r: Error)
        ensures
            r == self@.close_error(),
    {
        match &self.state.abort {
            Some(err) => err.clone(),
            None => Error::Dropped,
        }
    }

    /// Whether a frame of `size` bytes at `timestamp` can be written, and if not, why.
    pub open spec fn admits(&self, timestamp: Timestamp, size: nat) -> Result<Timestamp, Error> {
        self@.admits(self.track.timescale, timestamp, size)
    }

    /// Like [`Self::admits`], for a frame stamped when `clock` reads `at`.
    pub open spec fn stamped(&self, clock: &Clock, at: Instant, size: nat) -> Result<
        Timestamp,
        Error,
    > {
        match clock.stamped(at) {
            Err(_) => Err(Error::TimestampMismatch),
            Ok(timestamp) => self.admits(timestamp, size),
        }
    }

    fn check_frame(&self, timestamp: Timestamp, size: u64) -> (r: Result<Timestamp, Error>)
        ensures
            r == self.admits(timestamp, size as nat),
    {
        match timestamp.convert(self.track.timescale) {
            Err(_) => Err(Error::TimestampMismatch),
            Ok(timestamp) => {
                if size > MAX_GROUP_CACHE {
                    return Err(Error::FrameTooLarge);
                }
                if self.state.closed {
                    return Err(self.close_error());
                }
                if self.state.fin {
                    return Err(Error::Closed);
                }
                Ok(timestamp)
            },
        }
    }

    /// Write a frame from a single byte buffer.
    ///
    /// If you want to write multiple chunks, use [`Self::create_frame`], with an upfront
    /// size. `timestamp` is converted into the parent track's timescale.
    pub fn write_frame(&mut self, timestamp: Timestamp, payload: Vec<u8>) -> (r: Result<(), Error>)
        requires
            old(self).well_formed(),
            old(self)@.partial is None,
            old(self)@.frame_count() < usize::MAX,
        ensures
            final(self).well_formed(),
            final(self).info == old(self).info,
            final(self).track == old(self).track,
            match old(self).admits(timestamp, payload@.len()) {
                Err(e) => r == Err::<(), Error>(e) && final(self)@ == old(self)@,
                Ok(timestamp) => r is Ok && final(self)@ == old(self)@.written(
                    (FrameModel { timestamp, payload: payload@ }),
                ),
            },
    {
        let timestamp: Timestamp = self.check_frame(timestamp, payload.len() as u64)?;
        let ghost before = self@;
        let ghost frame = FrameModel { timestamp, payload: payload@ };
        self.state.cache = self.state.cache + payload.len() as u64;
        self.state.frames.push_back(Frame { timestamp, payload });
        proof {
            assert(self@.frames =~= before.frames.push(frame));
            total_size_push(before.frames, frame);
        }
        self.state.evict();
        Ok(())
    }

    /// Like [`Self::write_frame`] but stamps the frame with the clock's time. For data
    /// with no real presentation time of its own (catalogs, JSON state) or sources whose
    /// protocol can't carry one.
    pub fn write_frame_now(&mut self, clock: &Clock, payload: Vec<u8>) -> (r: Result<(), Error>)
        requires
            old(self).well_formed(),
            old(self)@.partial is None,
            old(self)@.frame_count() < usize::MAX,
        ensures
            final(self).well_formed(),
            final(self).info == old(self).info,
            final(self).track == old(self).track,
            exists|at: Instant|
                at.nanos >= clock.anchor.nanos && match #[trigger] old(self).stamped(
                    clock,
                    at,
                    payload@.len(),
                ) {
                    Err(e) => r == Err::<(), Error>(e) && final(self)@ == old(self)@,
                    Ok(timestamp) => r is Ok && final(self)@ == old(self)@.written(
                        (FrameModel { timestamp, payload: payload@ }),
                    ),
                },
    {
        let now: Result<Timestamp, TimeOverflow> = Timestamp::now(clock);
        proof {
            let at = choose|at: Instant|
                at.nanos >= clock.anchor.nanos && now == #[trigger] clock.stamped(at);
            let _ = self.stamped(clock, at, payload@.len());
        }
        match now {
            Ok(timestamp) => self.write_frame(timestamp, payload),
            Err(_) => Err(Error::TimestampMismatch),
        }
    }

    /// Create a frame with an upfront size and presentation timestamp, streamed in
    /// chunks. Only one frame is open at a time.
    ///
    /// The `timestamp` is converted into the parent track's timescale, so the scale you
    /// build it with doesn't have to match the track. Returns [`Error::FrameTooLarge`]
    /// if the declared size exceeds the group's byte budget (refused before allocating)
    /// or [`Error::TimestampMismatch`] if the timestamp can't be converted (overflow).
    pub fn create_frame(&mut self, frame: frame::Info) -> (r: Result<frame::Producer, Error>)
        requires
            old(self).well_formed(),
            old(self)@.partial is None,
            old(self)@.frame_count() < usize::MAX,
        ensures
            final(self).well_formed(),
            final(self).info == old(self).info,
            final(self).track == old(self).track,
            match old(self).admits(frame.timestamp, frame.size as nat) {
                Err(e) => r == Err::<frame::Producer, Error>(e) && final(self)@ == old(self)@,
                Ok(timestamp) => {
                    let info = frame::Info { size: frame.size, timestamp };
                    &&& r matches Ok(producer) && producer.info == info && producer.parent == old(
                        self,
                    ).info && producer.buf.data() == Seq::<u8>::empty() && producer.writes_to(
                        &*final(self),
                    )
                    &&& final(self)@ == old(self)@.opened(info)
                },
            },
    {
        let timestamp: Timestamp = self.check_frame(frame.timestamp, frame.size)?;
        let info: frame::Info = frame::Info { size: frame.size, timestamp };
        self.state.cache = self.state.cache + frame.size;
        self.state.partial = Some(Partial { timestamp, size: frame.size });
        self.state.evict();
        Ok(
            frame::Producer {
                info,
                parent: self.info,
                buf: FrameBuf::new(frame.size as usize),
                done: false,
            },
        )
    }

    /// Like [`Self::create_frame`] but stamps the frame with the clock's time.
    pub fn create_frame_now(&mut self, clock: &Clock, size: u64) -> (r: Result<
        frame::Producer,
        Error,
    >)
        requires
            old(self).well_formed(),
            old(self)@.partial is None,
            old(self)@.frame_count() < usize::MAX,
        ensures
            final(self).well_formed(),
            final(self).info == old(self).info,
            final(self).track == old(self).track,
            exists|at: Instant|
                at.nanos >= clock.anchor.nanos && match #[trigger] old(self).stamped(
                    clock,
                    at,
                    size as nat,
                ) {
                    Err(e) => r == Err::<frame::Producer, Error>(e) && final(self)@ == old(self)@,
                    Ok(timestamp) => {
                        let info = frame::Info { size, timestamp };
                        &&& r matches Ok(producer) && producer.info == info && producer.parent
                            == old(self).info && producer.buf.data() == Seq::<u8>::empty()
                            && producer.writes_to(&*final(self))
                        &&& final(self)@ == old(self)@.opened(info)
                    },
                },
    {
        let now: Result<Timestamp, TimeOverflow> = Timestamp::now(clock);
        proof {
            let at = choose|at: Instant|
                at.nanos >= clock.anchor.nanos && now == #[trigger] clock.stamped(at);
            let _ = self.stamped(clock, at, size as nat);
        }
        match now {
            Ok(timestamp) => self.create_frame(frame::Info { size, timestamp }),
            Err(_) => Err(Error::TimestampMismatch),
        }
    }

    /// Commit the in-flight frame as a completed frame (called by
    /// [`frame::Producer::finish`]).
    ///
    /// Bytes were already counted against the cache when the frame was created;
    /// committing just moves the tail into the completed set.
    pub fn frame_commit(&mut self, frame: Frame) -> (r: Result<(), Error>)
        requires
            old(self).well_formed(),
            !old(self)@.closed ==> old(self)@.partial is Some && old(self)@.in_flight()
                == frame.payload@.len(),
        ensures
            final(self).well_formed(),
            final(self).info == old(self).info,
            final(self).track == old(self).track,
            r == if old(self)@.closed {
                Err::<(), Error>(old(self)@.close_error())
            } else {
                Ok(())
            },
            final(self)@ == if old(self)@.closed {
                old(self)@
            } else {
                old(self)@.committed(frame@)
            },
    {
        if self.state.closed {
            return Err(self.close_error());
        }
        let ghost before = self@.frames;
        let ghost model = frame@;
        self.state.partial = None;
        self.state.frames.push_back(frame);
        proof {
            assert(self@.frames =~= before.push(model));
            total_size_push(before, model);
        }
        Ok(())
    }

    /// Return the number of frames written so far (completed plus any in-flight).
    pub fn frame_count(&self) -> (r: usize)
        requires
            self.well_formed(),
        ensures
            r == self@.frame_count(),
    {
        let open: usize = if self.state.partial.is_some() {
            1
        } else {
            0
        };
        self.state.offset + self.state.frames.len() + open
    }

    /// Mark the group as complete; no more frames will be written.
    pub fn finish(&mut self) -> (r: Result<(), Error>)
        requires
            old(self).well_formed(),
        ensures
            final(self).well_formed(),
            final(self).info == old(self).info,
            final(self).track == old(self).track,
            r == if old(self)@.closed {
                Err::<(), Error>(old(self)@.close_error())
            } else {
                Ok(())
            },
            final(self)@ == if old(self)@.closed {
                old(self)@
            } else {
                (GroupModel { fin: true, ..old(self)@ })
            },
    {
        if self.state.closed {
            return Err(self.close_error());
        }
        self.state.fin = true;
        Ok(())
    }

    /// Abort the group with the given error.
    ///
    /// No updates can be made after this point. Drops the cached frames so a stale
    /// [`Consumer`] can't pin their buffers in memory forever; consumers that haven't
    /// drained yet surface the abort error instead of the leftover cache.
    pub fn abort(&mut self, err: Error) -> (r: Result<(), Error>)
        requires
            old(self).well_formed(),
        ensures
            final(self).well_formed(),
            final(self).info == old(self).info,
            final(self).track == old(self).track,
            r == if old(self)@.closed {
                Err::<(), Error>(old(self)@.close_error())
            } else {
                Ok(())
            },
            final(self)@ == if old(self)@.closed {
                old(self)@
            } else {
                old(self)@.aborted(err)
            },
    {
        if self.state.closed {
            return Err(self.close_error());
        }
        self.state.abort = Some(err);
        self.state.release();
        self.state.closed = true;
        Ok(())
    }

    /// Give the group up under memory pressure: abort it with [`Error::Evicted`], freeing
    /// its frames immediately. A no-op once the group is closed or already aborted.
    pub fn evict(&mut self)
        requires
            old(self).well_formed(),
        ensures
            final(self).well_formed(),
            final(self).info == old(self).info,
            final(self).track == old(self).track,
            final(self)@ == if old(self)@.closed || old(self)@.abort is Some {
                old(self)@
            } else {
                old(self)@.aborted(Error::Evicted)
            },
    {
        if self.state.closed || self.state.abort.is_some() {
            return;
        }
        self.state.abort = Some(Error::Evicted);
        self.state.release();
        self.state.closed = true;
    }

    /// The last writer went away: without a clean finish the cached frames are released,
    /// so a stale consumer can't pin their buffers forever, and consumers see
    /// [`Error::Dropped`]. A finished group keeps its cache so consumers can drain.
    pub fn close(&mut self)
        requires
            old(self).well_formed(),
        ensures
            final(self).well_formed(),
            final(self).info == old(self).info,
            final(self).track == old(self).track,
            final(self)@ == if old(self)@.closed {
                old(self)@
            } else if old(self)@.fin {
                (GroupModel { closed: true, ..old(self)@ })
            } else {
                (GroupModel { closed: true, ..old(self)@.released() })
            },
    {
        if self.state.closed {
            return;
        }
        if !self.state.fin {
            self.state.release();
        }
        self.state.closed = true;
    }

    /// Whether the group is closed or aborted, and the cause.
    pub fn poll_closed(&self) -> (r: Poll<Error>)
        ensures
            r == if self@.closed {
                Poll::Ready(self@.close_error())
            } else {
                Poll::Pending
            },
    {
        if !self.state.closed {
            return Poll::Pending;
        }
        match &self.state.abort {
            Some(err) => Poll::Ready(err.clone()),
            None => Poll::Ready(Error::Dropped),
        }
    }

    /// Whether the group has been aborted (including eviction).
    pub fn is_aborted(&self) -> (r: bool)
        ensures
            r == (self@.abort is Some),
    {
        self.state.abort.is_some()
    }

    /// Create a new consumer for the group, at its first frame.
    pub fn consume(&self) -> (r: Consumer)
        ensures
            r.info == self.info,
            r.track == self.track,
            r.index == 0,
            r.prefetched() == Seq::<FrameModel>::empty(),
    {
        Consumer::new(self.info, self.track, 0)
    }
}

/// A group to which nothing was written yet.
pub open spec fn empty_group() -> GroupModel {
    GroupModel {
        frames: seq![],
        partial: None,
        offset: 0,
        fin: false,
        abort: None,
        closed: false,
    }
}

/// The most frames that a consumer drains ahead.
pub const PREFETCH_CAP: usize = 8;

/// A small batch of completed frames, drained from the group at once and then handed out
/// one by one.
pub struct Prefetch {
    pub frames: VecDeque<Frame>,
}

impl Prefetch {
    /// Take the next buffered frame, or `None` if the batch is drained.
    pub fn pop(&mut self) -> (r: Option<Frame>)
        ensures
            match r {
                Some(frame) => old(self).frames@.len() > 0 && frame@ == frame_models(
                    old(self).frames@,
                )[0] && frame_models(final(self).frames@) == frame_models(
                    old(self).frames@,
                ).skip(1),
                None => old(self).frames@.len() == 0 && final(self).frames@ == old(self).frames@,
            },
    {
        let ghost before = self.frames@;
        let r: Option<Frame> = self.frames.pop_front();
        proof {
            if before.len() > 0 {
                assert(frame_models(before)[0] == before[0]@);
                assert(frame_models(self.frames@) =~= frame_models(before).skip(1));
            }
        }
        r
    }

    /// Refill a drained batch with up to [`PREFETCH_CAP`] frames from `start` on.
    pub fn fill(&mut self, frames: &VecDeque<Frame>, start: usize)
        requires
            start <= frames@.len(),
        ensures
            frame_models(final(self).frames@) == batch(frame_models(frames@), start as int),
    {
        self.frames = VecDeque::new();
        let mut i: usize = start;
        assert(frame_models(self.frames@) =~= seq![]);
        while i < frames.len() && i - start < PREFETCH_CAP
            invariant
                start <= i <= frames@.len(),
                i - start <= PREFETCH_CAP,
                frame_models(self.frames@) == frame_models(frames@).subrange(
                    start as int,
                    i as int,
                ),
            decreases frames@.len() - i,
        {
            let ghost before = frame_models(self.frames@);
            let frame: Frame = frames[i].clone();
            let ghost model = frame@;
            assert(frame_models(frames@)[i as int] == model);
            self.frames.push_back(frame);
            i += 1;
            assert(frame_models(self.frames@) =~= before.push(model));
            assert(frame_models(self.frames@) =~= frame_models(frames@).subrange(
                start as int,
                i as int,
            ));
        }
        assert(frame_models(self.frames@) =~= batch(frame_models(frames@), start as int));
    }
}

/// Up to [`PREFETCH_CAP`] frames from `start` on.
pub open spec fn batch(frames: Seq<FrameModel>, start: int) -> Seq<FrameModel> {
    let end = if frames.len() - start < PREFETCH_CAP {
        frames.len() as int
    } else {
        start + PREFETCH_CAP
    };
    frames.subrange(start, end)
}

/// Consume a group, frame-by-frame.
pub struct Consumer {
    /// The group header.
    pub info: Info,
    /// The parent track's info, inherited from the producer.
    pub track: track::Info,
    /// The number of frames we've read.
    pub index: usize,
    /// A batch of completed frames drained ahead (whole-frame reads only).
    pub prefetch: Prefetch,
}

/// What a whole-frame read finds: what it returns, and the frames left in the batch.
pub open spec fn read_frame(group: GroupModel, index: nat, prefetched: Seq<FrameModel>) -> (
    Poll<Result<Option<Seq<u8>>, Error>>,
    Seq<FrameModel>,
) {
    if prefetched.len() > 0 {
        (Poll::Ready(Ok(Some(prefetched[0].payload))), prefetched.skip(1))
    } else if index < group.offset {
        (Poll::Ready(Err(Error::Lagged)), prefetched)
    } else {
        let local = if index - group.offset < group.frames.len() {
            index - group.offset
        } else {
            group.frames.len() as int
        };
        let found = batch(group.frames, local);
        if found.len() > 0 {
            (Poll::Ready(Ok(Some(found[0].payload))), found.skip(1))
        } else if group.abort is Some {
            (Poll::Ready(Err(group.abort->Some_0)), found)
        } else if group.fin {
            (Poll::Ready(Ok(None)), found)
        } else if group.closed {
            (Poll::Ready(Err(Error::Dropped)), found)
        } else {
            (Poll::Pending, found)
        }
    }
}

/// What asking for the next frame finds: its header and, if it is complete, its payload.
pub open spec fn next_frame(group: GroupModel, index: nat, prefetched: Seq<FrameModel>) -> Poll<
    Result<Option<(frame::Info, Option<Seq<u8>>)>, Error>,
> {
    if prefetched.len() > 0 {
        Poll::Ready(
            Ok(
                Some(
                    (
                        (frame::Info {
                            size: prefetched[0].payload.len() as u64,
                            timestamp: prefetched[0].timestamp,
                        }),
                        Some(prefetched[0].payload),
                    ),
                ),
            ),
        )
    } else {
        match GroupState::frame_source(group, index) {
            Poll::Pending => if group.closed {
                Poll::Ready(Err(Error::Dropped))
            } else {
                Poll::Pending
            },
            found => found,
        }
    }
}

/// A frame handed to a reader, as the header and payload that it stands for.
pub open spec fn consumer_model(r: Poll<Result<Option<frame::Consumer>, Error>>) -> Poll<
    Result<Option<(frame::Info, Option<Seq<u8>>)>, Error>,
> {
    match r {
        Poll::Ready(Ok(Some(consumer))) => Poll::Ready(
            Ok(
                Some(
                    (
                        consumer.info,
                        match consumer.source {
                            frame::Source::Complete(payload) => Some(payload@),
                            frame::Source::Partial => None,
                        },
                    ),
                ),
            ),
        ),
        Poll::Ready(Ok(None)) => Poll::Ready(Ok(None)),
        Poll::Ready(Err(err)) => Poll::Ready(Err(err)),
        Poll::Pending => Poll::Pending,
    }
}

/// Payload bytes handed to a reader, as what they stand for.
pub open spec fn payload_model(r: Poll<Result<Option<Vec<u8>>, Error>>) -> Poll<
    Result<Option<Seq<u8>>, Error>,
> {
    match r {
        Poll::Ready(Ok(Some(payload))) => Poll::Ready(Ok(Some(payload@))),
        Poll::Ready(Ok(None)) => Poll::Ready(Ok(None)),
        Poll::Ready(Err(err)) => Poll::Ready(Err(err)),
        Poll::Pending => Poll::Pending,
    }
}

impl Clone for Consumer {
    /// A clone inherits the cursor, but starts with an empty prefetch: it re-reads its
    /// batch from the group, in parallel.
    fn clone(&self) -> (r: Consumer)
        ensures
            r.info == self.info,
            r.track == self.track,
            r.index == self.index,
            r.prefetched() == Seq::<FrameModel>::empty(),
    {
        Consumer::new(self.info, self.track, self.index)
    }
}

impl Consumer {
    /// The frames drained ahead.
    pub open spec fn prefetched(&self) -> Seq<FrameModel> {
        frame_models(self.prefetch.frames@)
    }

    fn new(info: Info, track: track::Info, index: usize) -> (r: Consumer)
        ensures
            r.info == info,
            r.track == track,
            r.index == index,
            r.prefetched() == Seq::<FrameModel>::empty(),
    {
        let r: Consumer = Consumer {
            info,
            track,
            index,
            prefetch: Prefetch { frames: VecDeque::new() },
        };
        assert(r.prefetched() =~= seq![]);
        r
    }

    /// The parent track's timescale.
    pub fn timescale(&self) -> (r: Timescale)
        ensures
            r == self.track.timescale,
    {
        self.track.timescale
    }

    /// Poll for the next frame, for chunked reading.
    ///
    /// Returns None if the group is finished and the index is out of range.
    pub fn poll_next_frame(&mut self, group: &GroupState) -> (r: Poll<
        Result<Option<frame::Consumer>, Error>,
    >)
        requires
            group.well_formed(),
            old(self).index < usize::MAX,
        ensures
            consumer_model(r) == next_frame(group@, old(self).index as nat, old(self).prefetched()),
            r matches Poll::Ready(Ok(Some(consumer))) ==> consumer.read_idx == 0,
            final(self).index == if r matches Poll::Ready(Ok(Some(_))) {
                old(self).index + 1
            } else {
                old(self).index as int
            },
            final(self).prefetched() == if old(self).prefetched().len() > 0 {
                old(self).prefetched().skip(1)
            } else {
                old(self).prefetched()
            },
            final(self).info == old(self).info,
            final(self).track == old(self).track,
    {
        // Hand out any frames a prior whole-frame read prefetched before touching the tail.
        match self.prefetch.pop() {
            Some(frame) => {
                self.index += 1;
                let info: frame::Info = frame::Info {
                    size: frame.payload.len() as u64,
                    timestamp: frame.timestamp,
                };
                return Poll::Ready(
                    Ok(
                        Some(
                            frame::Consumer::new(info, frame::Source::Complete(frame.payload)),
                        ),
                    ),
                );
            },
            None => {},
        }
        match group.poll_frame_source(self.index) {
            Poll::Ready(Ok(Some((info, source)))) => {
                self.index += 1;
                Poll::Ready(Ok(Some(frame::Consumer::new(info, source))))
            },
            Poll::Ready(Ok(None)) => Poll::Ready(Ok(None)),
            Poll::Ready(Err(err)) => Poll::Ready(Err(err)),
            Poll::Pending => if group.closed {
                Poll::Ready(Err(Error::Dropped))
            } else {
                Poll::Pending
            },
        }
    }

    /// Read the next frame's data all at once.
    pub fn poll_read_frame(&mut self, group: &GroupState) -> (r: Poll<
        Result<Option<Vec<u8>>, Error>,
    >)
        requires
            group.well_formed(),
            old(self).index < usize::MAX,
        ensures
            payload_model(r) == read_frame(
                group@,
                old(self).index as nat,
                old(self).prefetched(),
            ).0,
            final(self).prefetched() == read_frame(
                group@,
                old(self).index as nat,
                old(self).prefetched(),
            ).1,
            final(self).index == if r matches Poll::Ready(Ok(Some(_))) {
                old(self).index + 1
            } else {
                old(self).index as int
            },
            final(self).info == old(self).info,
            final(self).track == old(self).track,
    {
        match self.prefetch.pop() {
            Some(frame) => {
                self.index += 1;
                return Poll::Ready(Ok(Some(frame.payload)));
            },
            None => {},
        }
        if self.index < group.offset {
            return Poll::Ready(Err(Error::Lagged));
        }
        // The index can run past the buffered count when frames were cleared or evicted out
        // from under us (abort, unfinished drop, an eviction gap).
        let local: usize = if self.index - group.offset < group.frames.len() {
            self.index - group.offset
        } else {
            group.frames.len()
        };
        self.prefetch.fill(&group.frames, local);
        match self.prefetch.pop() {
            Some(frame) => {
                self.index += 1;
                return Poll::Ready(Ok(Some(frame.payload)));
            },
            None => {},
        }
        match &group.abort {
            Some(err) => {
                return Poll::Ready(Err(err.clone()));
            },
            None => {},
        }
        if group.fin {
            return Poll::Ready(Ok(None));
        }
        if group.closed {
            return Poll::Ready(Err(Error::Dropped));
        }
        Poll::Pending
    }

    /// Poll for the final number of frames in the group.
    pub fn poll_finished(&self, group: &GroupState) -> (r: Poll<Result<u64, Error>>)
        requires
            group.well_formed(),
        ensures
            r == match group@.abort {
                Some(err) => Poll::Ready(Err(err)),
                None => if group@.fin {
                    Poll::Ready(Ok((group@.offset + group@.frames.len()) as u64))
                } else if group@.closed {
                    Poll::Ready(Err(Error::Dropped))
                } else {
                    Poll::Pending
                },
            },
    {
        match group.poll_finished() {
            Poll::Pending => if group.closed {
                Poll::Ready(Err(Error::Dropped))
            } else {
                Poll::Pending
            },
            found => found,
        }
    }
}

/// Whether `group` caches the tail of `history`, all frames ever written to it.
pub open spec fn caches_tail(group: GroupModel, history: Seq<FrameModel>) -> bool {
    &&& group.offset <= history.len()
    &&& group.frames == history.skip(group.offset as int)
}

/// Whether a reader at `index` has the frames that follow it in `history` drained ahead.
pub open spec fn drained_ahead(
    history: Seq<FrameModel>,
    index: nat,
    prefetched: Seq<FrameModel>,
) -> bool {
    &&& index + prefetched.len() <= history.len()
    &&& prefetched == history.subrange(index as int, (index + prefetched.len()) as int)
}

/// However frames are evicted, a group caches the tail of what was written to it: an
/// empty group caches all of nothing, and writing, opening and committing keep it so.
pub proof fn group_caches_tail(group: GroupModel, history: Seq<FrameModel>, frame: FrameModel)
    requires
        caches_tail(group, history),
    ensures
        caches_tail(empty_group(), seq![]),
        caches_tail(group.written(frame), history.push(frame)),
        caches_tail(group.committed(frame), history.push(frame)),
        forall|info: frame::Info| caches_tail(#[trigger] group.opened(info), history),
{
    assert(Seq::<FrameModel>::empty().skip(0) =~= seq![]);
    let pushed = group.frames.push(frame);
    within_budget_facts(pushed, 0);
    let kept = within_budget(pushed, 0);
    let next = group.written(frame);
    assert(next.frames == pushed.skip(pushed.len() - kept.len()));
    assert(next.frames =~= history.push(frame).skip(next.offset as int));
    assert(group.committed(frame).frames =~= history.push(frame).skip(group.offset as int));
    assert forall|info: frame::Info| caches_tail(#[trigger] group.opened(info), history) by {
        within_budget_facts(group.frames, info.size as nat);
        let opened = group.opened(info);
        assert(opened.frames =~= history.skip(opened.offset as int));
    }
}

/// Every frame is read once and in order: a whole-frame read that gives a payload gives
/// that of the next frame written, and what it drains ahead are the frames after it.
pub proof fn group_read_in_order(
    group: GroupModel,
    history: Seq<FrameModel>,
    index: nat,
    prefetched: Seq<FrameModel>,
)
    requires
        caches_tail(group, history),
        drained_ahead(history, index, prefetched),
    ensures
        read_frame(group, index, prefetched).0 matches Poll::Ready(Ok(Some(payload))) ==> {
            &&& index < history.len()
            &&& payload == history[index as int].payload
            &&& drained_ahead(history, index + 1, read_frame(group, index, prefetched).1)
        },
        next_frame(group, index, prefetched) matches Poll::Ready(Ok(Some((info, Some(payload)))))
            ==> {
            &&& index < history.len()
            &&& payload == history[index as int].payload
            &&& info.timestamp == history[index as int].timestamp
            &&& info.size == history[index as int].payload.len() as u64
        },
{
    let (found, rest) = read_frame(group, index, prefetched);
    if prefetched.len() > 0 {
        assert(rest =~= history.subrange(index as int + 1, index as int + 1 + rest.len()));
    } else if index >= group.offset && index < history.len() {
        assert(group.frames[index - group.offset] == history[index as int]);
        assert(rest =~= history.subrange(index as int + 1, index as int + 1 + rest.len()));
    }
}

/// Nothing that is cached is kept from a reader: a frame that was written and not evicted is
/// given out whole, with its own header, whatever became of the group. One that was evicted is
/// reported as missed.
pub proof fn cached_frame_is_readable(
    group: GroupModel,
    history: Seq<FrameModel>,
    index: nat,
    prefetched: Seq<FrameModel>,
)
    requires
        caches_tail(group, history),
        drained_ahead(history, index, prefetched),
        index < history.len(),
    ensures
        prefetched.len() > 0 || group.offset <= index ==> {
            let frame = history[index as int];
            let info = frame::Info {
                size: frame.payload.len() as u64,
                timestamp: frame.timestamp,
            };
            &&& read_frame(group, index, prefetched).0 == Poll::Ready(
                Ok::<Option<Seq<u8>>, Error>(Some(frame.payload)),
            )
            &&& next_frame(group, index, prefetched) == Poll::Ready(
                Ok::<Option<(frame::Info, Option<Seq<u8>>)>, Error>(
                    Some((info, Some(frame.payload))),
                ),
            )
        },
        prefetched.len() == 0 && index < group.offset ==> {
            &&& read_frame(group, index, prefetched).0 == Poll::Ready(
                Err::<Option<Seq<u8>>, Error>(Error::Lagged),
            )
            &&& next_frame(group, index, prefetched) == Poll::Ready(
                Err::<Option<(frame::Info, Option<Seq<u8>>)>, Error>(Error::Lagged),
            )
        },
{
    if prefetched.len() > 0 {
        assert(prefetched[0] == history[index as int]);
    } else if group.offset <= index {
        assert(group.frames[index - group.offset] == history[index as int]);
    }
}

/// A reader that has read everything waits for as long as more can come, is handed the frame
/// in flight by its header, is told of a clean end only if there is one, and otherwise of what
/// went wrong.
pub proof fn drained_group_tells_its_end(group: GroupModel, history: Seq<FrameModel>, index: nat)
    requires
        caches_tail(group, history),
        index >= history.len(),
    ensures
        ({
            let whole = read_frame(group, index, seq![]).0;
            let next = next_frame(group, index, seq![]);
            let streamed = index == history.len() && group.partial is Some;
            &&& !(whole matches Poll::Ready(Ok(Some(_))))
            &&& whole is Pending <==> !group.fin && group.abort is None && !group.closed
            &&& whole == Poll::Ready(Ok::<Option<Seq<u8>>, Error>(None)) <==> group.fin
                && group.abort is None
            &&& whole matches Poll::Ready(Err(e)) ==> e == match group.abort {
                Some(err) => err,
                None => Error::Dropped,
            }
            &&& streamed ==> next == Poll::Ready(
                Ok::<Option<(frame::Info, Option<Seq<u8>>)>, Error>(
                    Some((group.partial->Some_0, None)),
                ),
            )
            &&& !streamed ==> {
                &&& !(next matches Poll::Ready(Ok(Some(_))))
                &&& next is Pending <==> whole is Pending
                &&& (next matches Poll::Ready(Ok(_))) == (whole matches Poll::Ready(Ok(_)))
                &&& next matches Poll::Ready(Err(e)) ==> whole == Poll::Ready(
                    Err::<Option<Seq<u8>>, Error>(e),
                )
            }
        }),
{
    let past = history.skip(group.offset as int);
    assert(past.len() == history.len() - group.offset);
    assert(batch(group.frames, group.frames.len() as int) =~= seq![]);
}

proof fn within_budget_is_minimal(frames: Seq<FrameModel>, in_flight: nat, k: int)
    requires
        0 <= k < frames.len() - within_budget(frames, in_flight).len(),
    ensures
        total_size(frames.skip(k)) + in_flight > MAX_GROUP_CACHE,
    decreases frames.len(),
{
    if k == 0 {
        assert(frames.skip(0) =~= frames);
    } else {
        within_budget_is_minimal(frames.skip(1), in_flight, k - 1);
        assert(frames.skip(1).skip(k - 1) =~= frames.skip(k));
    }
}

/// A write adds the frame at the end and evicts as little as it can: the frame itself always
/// stays, the group is within its budget, and what was evicted would not have fit. Nothing
/// else changes.
pub proof fn writing_evicts_the_least(group: GroupModel, frame: FrameModel)
    requires
        group.partial is None,
        frame.payload.len() <= MAX_GROUP_CACHE,
    ensures
        ({
            let next = group.written(frame);
            let all = group.frames.push(frame);
            let dropped = next.offset - group.offset;
            &&& 0 <= dropped < all.len()
            &&& next.frames == all.skip(dropped)
            &&& next.frames.last() == frame
            &&& total_size(next.frames) <= MAX_GROUP_CACHE
            &&& forall|k: int|
                0 <= k < dropped ==> total_size(#[trigger] all.skip(k)) > MAX_GROUP_CACHE
            &&& next.frame_count() == group.frame_count() + 1
            &&& next.partial is None
            &&& next.fin == group.fin && next.abort == group.abort && next.closed == group.closed
        }),
{
    let all = group.frames.push(frame);
    let kept = within_budget(all, 0);
    within_budget_facts(all, 0);
    let dropped = all.len() - kept.len();
    assert forall|k: int| 0 <= k < dropped implies total_size(#[trigger] all.skip(k))
        > MAX_GROUP_CACHE by {
        within_budget_is_minimal(all, 0, k);
    }
    if dropped == all.len() {
        let k = all.len() - 1;
        within_budget_is_minimal(all, 0, k);
        assert(all.skip(k) =~= seq![frame]);
        assert(all.skip(k).skip(1) =~= seq![]);
        assert(total_size(Seq::<FrameModel>::empty()) == 0);
    }
    assert(kept.last() == all.last());
}

/// Opening a frame reserves its bytes: frames are evicted until the rest fits beside it, as few
/// as will do. Completing it then evicts nothing and leaves it as the last frame.
pub proof fn opening_reserves_the_bytes(group: GroupModel, info: frame::Info, frame: FrameModel)
    requires
        group.partial is None,
        info.size <= MAX_GROUP_CACHE,
        frame.payload.len() == info.size,
    ensures
        ({
            let open = group.opened(info);
            let done = open.committed(frame);
            let dropped = open.offset - group.offset;
            &&& 0 <= dropped <= group.frames.len()
            &&& open.frames == group.frames.skip(dropped)
            &&& open.partial == Some(info)
            &&& total_size(open.frames) + info.size <= MAX_GROUP_CACHE
            &&& forall|k: int|
                0 <= k < dropped ==> total_size(#[trigger] group.frames.skip(k)) + info.size
                    > MAX_GROUP_CACHE
            &&& open.frame_count() == group.frame_count() + 1
            &&& done.frames == open.frames.push(frame)
            &&& done.offset == open.offset
            &&& done.partial is None
            &&& total_size(done.frames) <= MAX_GROUP_CACHE
            &&& done.frame_count() == open.frame_count()
        }),
{
    let all = group.frames;
    let in_flight = info.size as nat;
    within_budget_facts(all, in_flight);
    let dropped = all.len() - within_budget(all, in_flight).len();
    assert forall|k: int| 0 <= k < dropped implies total_size(#[trigger] all.skip(k)) + info.size
        > MAX_GROUP_CACHE by {
        within_budget_is_minimal(all, in_flight, k);
    }
    total_size_push(group.opened(info).frames, frame);
}

/// A frame is taken exactly if its timestamp fits the track's scale, it is no larger than the
/// budget, and the group is still open; it then keeps its timestamp, at that scale.
pub proof fn open_group_takes_frames(
    group: GroupModel,
    timescale: Timescale,
    timestamp: Timestamp,
    size: nat,
)
    ensures
        ({
            let r = group.admits(timescale, timestamp, size);
            let scaled = timestamp.spec_convert(timescale);
            &&& r is Ok <==> scaled is Ok && size <= MAX_GROUP_CACHE && !group.closed && !group.fin
            &&& r matches Ok(at) ==> scaled == Ok::<Timestamp, TimeOverflow>(at)
            &&& scaled is Err ==> r == Err::<Timestamp, Error>(Error::TimestampMismatch)
            &&& scaled is Ok && size > MAX_GROUP_CACHE ==> r == Err::<Timestamp, Error>(
                Error::FrameTooLarge,
            )
            &&& scaled is Ok && size <= MAX_GROUP_CACHE && group.closed ==> r == Err::<
                Timestamp,
                Error,
            >(
                match group.abort {
                    Some(err) => err,
                    None => Error::Dropped,
                },
            )
            &&& scaled is Ok && size <= MAX_GROUP_CACHE && !group.closed && group.fin ==> r
                == Err::<Timestamp, Error>(Error::Closed)
        }),
{
}

/// Aborting a group frees its frames and keeps the count of those evicted before.
pub proof fn abort_frees_the_group(group: GroupModel, err: Error)
    ensures
        ({
            let gone = group.aborted(err);
            &&& gone.frames == Seq::<FrameModel>::empty()
            &&& gone.partial is None
            &&& gone.offset == group.offset
            &&& gone.abort == Some(err)
            &&& gone.closed
            &&& gone.fin == group.fin
        }),
{
}

/// A reader is never told that a failed group ended: after an abort, a read finds the
/// abort's error, or that it fell behind.
pub proof fn aborted_group_never_ends(group: GroupModel, err: Error, index: nat)
    ensures
        read_frame(group.aborted(err), index, seq![]).0 == Poll::Ready(
            Err::<Option<Seq<u8>>, Error>(
                if index < group.offset {
                    Error::Lagged
                } else {
                    err
                },
            ),
        ),
        next_frame(group.aborted(err), index, seq![]) == Poll::Ready(
            Err::<Option<(frame::Info, Option<Seq<u8>>)>, Error>(
                if index < group.offset {
                    Error::Lagged
                } else {
                    err
                },
            ),
        ),
{
}

/// A finished group drains the same after its writer is gone.
pub proof fn finished_group_drains(group: GroupModel, index: nat, prefetched: Seq<FrameModel>)
    requires
        group.fin,
    ensures
        read_frame(GroupModel { closed: true, ..group }, index, prefetched) == read_frame(
            group,
            index,
            prefetched,
        ),
        next_frame(GroupModel { closed: true, ..group }, index, prefetched) == next_frame(
            group,
            index,
            prefetched,
        ),
{
}

/// Options for a one-shot fetch of a past group.
#[derive(Clone, Copy, Debug, PartialEq, Eq, Structural)]
pub struct Fetch {
    /// Delivery priority for the fetched group's stream. Defaults to 0.
    pub priority: u8,
}

impl Default for Fetch {
    fn default() -> (r: Fetch)
        ensures
            r.priority == 0,
    {
        Fetch { priority: 0 }
    }
}

impl Fetch {
    /// Set the delivery priority, returning `self` for chaining.
    pub fn with_priority(self, priority: u8) -> (r: Fetch)
        ensures
            r.priority == priority,
    {
        Fetch { priority }
    }
}

} // verus!
