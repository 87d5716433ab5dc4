//! The frames of a group on the wire.
//!
//! Each frame is its size and its payload. From lite-05 on, a timestamp precedes the size:
//! the zigzag-coded difference to the timestamp before it, starting from zero.

use vstd::prelude::*;

use crate::coding::decode::{advance, tail_of, tail_of_self, tail_of_tail, Decode};
use crate::coding::encode::{print_varint, Encode, EncodeError};
use crate::coding::varint::{
    decode_varint, encode_varint, parse_varint, unzigzag, varint_bytes, varint_round_trip,
    varint_value_in_range, zigzag, zigzag_keeps_small_steps_small, zigzag_round_trip,
    BoundsExceeded, VarInt, VARINT_MAX,
};
use crate::error::Error;
use crate::model::frame;
use crate::model::frame::{total_size, total_size_push, FrameModel};
use crate::model::group;
use crate::model::group::{GroupModel, MAX_GROUP_CACHE};
use crate::model::time::{TimeOverflow, Timescale, Timestamp};

verus! {

broadcast use {tail_of_self, tail_of_tail};

/// The code of the step from timestamp `prev` to `curr`, or why there is none.
pub open spec fn delta_code(curr: u64, prev: u64) -> Result<u64, Error> {
    let delta = curr - prev;
    if delta < i64::MIN || delta > i64::MAX {
        Err(Error::BoundsExceeded(BoundsExceeded))
    } else if zigzag(delta) > VARINT_MAX {
        Err(Error::Encode(EncodeError::BoundsExceeded))
    } else {
        Ok(zigzag(delta) as u64)
    }
}

/// The timestamp that follows `prev`, or an error if it does not fit.
pub open spec fn apply_delta(prev: u64, code: u64) -> Result<u64, Error> {
    let next = prev + unzigzag(code as int);
    if 0 <= next <= u64::MAX {
        Ok(next as u64)
    } else {
        Err(Error::BoundsExceeded(BoundsExceeded))
    }
}

/// Encode `curr` as a zigzag-mapped varint delta against `*prev`, and advance `*prev` to
/// `curr`.
pub fn encode_zigzag_delta(curr: u64, prev: &mut u64, buf: &mut Vec<u8>) -> (r: Result<(), Error>)
    ensures
        match delta_code(curr, *old(prev)) {
            Ok(code) => {
                &&& r is Ok
                &&& *final(prev) == curr
                &&& final(buf)@ == old(buf)@ + varint_bytes(code)
            },
            Err(err) => {
                &&& r == Err::<(), Error>(err)
                &&& *final(prev) == *old(prev)
                &&& final(buf)@ == old(buf)@
            },
        },
{
    let delta: i128 = curr as i128 - *prev as i128;
    if delta < i64::MIN as i128 || delta > i64::MAX as i128 {
        return Err(Error::BoundsExceeded(BoundsExceeded));
    }
    match VarInt::from_zigzag(delta as i64) {
        Err(_) => {
            return Err(Error::Encode(EncodeError::BoundsExceeded));
        },
        Ok(code) => {
            let _ = encode_varint(code.into_inner(), buf);
        },
    }
    *prev = curr;
    Ok(())
}

/// The timestamp that a delta leads to from `prev`.
pub fn decode_zigzag_delta(code: u64, prev: u64) -> (r: Result<u64, Error>)
    requires
        code <= VARINT_MAX,
    ensures
        r == apply_delta(prev, code),
{
    let delta: i64 = if code % 2 == 0 {
        (code / 2) as i64
    } else {
        -(((code + 1) / 2) as i64)
    };
    let next: i128 = prev as i128 + delta as i128;
    if next < 0 || next > u64::MAX as i128 {
        return Err(Error::BoundsExceeded(BoundsExceeded));
    }
    Ok(next as u64)
}

/// A timestamp that was sent as a delta comes back as it was.
pub proof fn delta_round_trip(curr: u64, prev: u64)
    requires
        delta_code(curr, prev) is Ok,
    ensures
        delta_code(curr, prev)->Ok_0 <= VARINT_MAX,
        apply_delta(prev, delta_code(curr, prev)->Ok_0) == Ok::<u64, Error>(curr),
{
    zigzag_round_trip(curr - prev, 0);
}

/// What precedes a frame's payload on the wire.
pub open spec fn print_header(prev: u64, timestamp: u64, size: u64, timed: bool) -> Result<
    Seq<u8>,
    Error,
> {
    let size = match print_varint(size as int) {
        Ok(bytes) => Ok(bytes),
        Err(err) => Err(Error::Encode(err)),
    };
    if !timed {
        size
    } else {
        match delta_code(timestamp, prev) {
            Err(err) => Err(err),
            Ok(code) => match size {
                Err(err) => Err(err),
                Ok(bytes) => Ok(varint_bytes(code) + bytes),
            },
        }
    }
}

/// Append what precedes a frame's payload: the timing prefix where the version has one, and
/// the size. Nothing changes on an error.
pub fn encode_header(
    frame: &frame::Info,
    timescale: Option<Timescale>,
    prev: &mut u64,
    buf: &mut Vec<u8>,
) -> (r: Result<(), Error>)
    ensures
        match print_header(
            *old(prev),
            frame.timestamp.value(),
            frame.size,
            timescale is Some,
        ) {
            Ok(bytes) => {
                &&& r is Ok
                &&& final(buf)@ == old(buf)@ + bytes
                &&& *final(prev) == if timescale is Some {
                    frame.timestamp.value()
                } else {
                    *old(prev)
                }
            },
            Err(err) => {
                &&& r == Err::<(), Error>(err)
                &&& final(buf)@ == old(buf)@
                &&& *final(prev) == *old(prev)
            },
        },
{
    let mut header: Vec<u8> = Vec::new();
    let mut next: u64 = *prev;
    if timescale.is_some() {
        encode_zigzag_delta(frame.timestamp.value(), &mut next, &mut header)?;
    }
    match encode_varint(frame.size, &mut header) {
        Ok(()) => {},
        Err(_) => {
            return Err(Error::Encode(EncodeError::BoundsExceeded));
        },
    }
    assert(header@ =~= print_header(
        *old(prev),
        frame.timestamp.value(),
        frame.size,
        timescale is Some,
    )->Ok_0);
    buf.append(&mut header);
    *prev = next;
    Ok(())
}

/// What precedes a frame's payload.
pub struct Header {
    /// The presentation timestamp, where the version carries one.
    pub timestamp: Option<Timestamp>,
    /// The size of the payload.
    pub size: u64,
}

/// What reading a frame's header off `bytes` gives: the header, the next baseline and the
/// bytes that follow, or that there are no more frames. `fin` tells whether nothing follows
/// `bytes`; otherwise a header that is not complete yet is too short.
pub open spec fn parse_header(
    prev: u64,
    timescale: Option<Timescale>,
    bytes: Seq<u8>,
    fin: bool,
) -> Result<Option<(Header, u64, Seq<u8>)>, Error> {
    if bytes.len() == 0 && fin {
        Ok(None)
    } else {
        match timescale {
            None => parse_size(None, prev, bytes),
            Some(scale) => match parse_varint(bytes) {
                (Err(err), _) => Err(Error::Decode(err)),
                (Ok(code), rest) => match apply_delta(prev, code) {
                    Err(err) => Err(err),
                    Ok(next) => if next > VARINT_MAX {
                        Err(Error::BoundsExceeded(BoundsExceeded))
                    } else if rest.len() == 0 && fin {
                        Ok(None)
                    } else {
                        parse_size(Some(Timestamp::of(next, scale)), next, rest)
                    },
                },
            },
        }
    }
}

/// What reading a frame's size gives.
pub open spec fn parse_size(timestamp: Option<Timestamp>, prev: u64, bytes: Seq<u8>) -> Result<
    Option<(Header, u64, Seq<u8>)>,
    Error,
> {
    match parse_varint(bytes) {
        (Err(err), _) => Err(Error::Decode(err)),
        (Ok(size), rest) => Ok(Some(((Header { timestamp, size }), prev, rest))),
    }
}

/// Read a frame's header off `buf`. Nothing changes unless there is one.
pub fn decode_header(
    prev: &mut u64,
    timescale: Option<Timescale>,
    buf: &mut &[u8],
    fin: bool,
) -> (r: Result<Option<Header>, Error>)
    ensures
        match parse_header(*old(prev), timescale, old(buf)@, fin) {
            Ok(Some((header, next, rest))) => {
                &&& r == Ok::<Option<Header>, Error>(Some(header))
                &&& *final(prev) == next
                &&& final(buf)@ == rest
                &&& tail_of(rest, old(buf)@)
                &&& rest.len() < old(buf)@.len()
            },
            Ok(None) => {
                &&& r == Ok::<Option<Header>, Error>(None)
                &&& *final(prev) == *old(prev)
                &&& final(buf)@ == old(buf)@
            },
            Err(err) => {
                &&& r == Err::<Option<Header>, Error>(err)
                &&& *final(prev) == *old(prev)
                &&& final(buf)@ == old(buf)@
            },
        },
{
    if buf.len() == 0 && fin {
        return Ok(None);
    }
    let mut rest: &[u8] = *buf;
    let mut next: u64 = *prev;
    let timestamp: Option<Timestamp> = match timescale {
        None => None,
        Some(scale) => {
            let code: u64 = match decode_varint(&mut rest) {
                Ok(code) => code,
                Err(err) => {
                    return Err(Error::Decode(err));
                },
            };
            proof {
                varint_value_in_range(old(buf)@);
            }
            next = decode_zigzag_delta(code, next)?;
            let timestamp: Timestamp = match Timestamp::new(next, scale) {
                Ok(timestamp) => timestamp,
                Err(_) => {
                    return Err(Error::BoundsExceeded(BoundsExceeded));
                },
            };
            if rest.len() == 0 && fin {
                return Ok(None);
            }
            Some(timestamp)
        },
    };
    let size: u64 = match decode_varint(&mut rest) {
        Ok(size) => size,
        Err(err) => {
            return Err(Error::Decode(err));
        },
    };
    *buf = rest;
    *prev = next;
    Ok(Some(Header { timestamp, size }))
}

/// What a group holds once the frames in `bytes` were added to it, and how that ended. A
/// frame without a timestamp of its own gets `now`.
pub open spec fn filled(
    timescale: Timescale,
    group: GroupModel,
    prev: u64,
    wire: Option<Timescale>,
    now: Timestamp,
    bytes: Seq<u8>,
) -> (GroupModel, Result<(), Error>)
    decreases bytes.len(),
{
    match parse_header(prev, wire, bytes, true) {
        Err(err) => (group, Err(err)),
        Ok(None) => (group, Ok(())),
        Ok(Some((header, next, rest))) => {
            let stamp = match header.timestamp {
                Some(timestamp) => timestamp,
                None => now,
            };
            match group.admits(timescale, stamp, header.size as nat) {
                Err(err) => (group, Err(err)),
                Ok(timestamp) => {
                    let info = frame::Info { size: header.size, timestamp };
                    let opened = group.opened(info);
                    if rest.len() < header.size {
                        (opened.aborted(Error::WrongSize), Err(Error::WrongSize))
                    } else if rest.len() - header.size >= bytes.len() {
                        (group, Ok(()))
                    } else {
                        filled(
                            timescale,
                            opened.committed(
                                (FrameModel { timestamp, payload: rest.take(header.size as int) }),
                            ),
                            next,
                            wire,
                            now,
                            rest.skip(header.size as int),
                        )
                    }
                },
            }
        },
    }
}

/// Add the frames of a whole group stream to a group.
///
/// An oversized frame is rejected before its payload is looked at. A payload that ends early
/// fails the group.
pub fn fill_group(
    group: &mut group::Producer,
    wire: Option<Timescale>,
    now: Timestamp,
    bytes: &[u8],
) -> (r: Result<(), Error>)
    requires
        old(group).well_formed(),
        old(group)@.partial is None,
        old(group)@.frame_count() + bytes@.len() < usize::MAX,
    ensures
        final(group).well_formed(),
        final(group).info == old(group).info,
        final(group).track == old(group).track,
        (final(group)@, r) == filled(
            old(group).track.timescale,
            old(group)@,
            0,
            wire,
            now,
            bytes@,
        ),
{
    let mut prev: u64 = 0;
    let mut rest: &[u8] = bytes;
    loop
        invariant
            group.well_formed(),
            group@.partial is None,
            group@.frame_count() + rest@.len() < usize::MAX,
            group.info == old(group).info,
            group.track == old(group).track,
            filled(old(group).track.timescale, old(group)@, 0, wire, now, bytes@) == filled(
                group.track.timescale,
                group@,
                prev,
                wire,
                now,
                rest@,
            ),
        decreases rest@.len(),
    {
        let ghost before = rest@;
        let ghost start = group@;
        let header: Header = match decode_header(&mut prev, wire, &mut rest, true)? {
            None => {
                return Ok(());
            },
            Some(header) => header,
        };
        let stamp: Timestamp = match header.timestamp {
            Some(timestamp) => timestamp,
            None => now,
        };
        let mut frame: frame::Producer = group.create_frame(
            frame::Info { size: header.size, timestamp: stamp },
        )?;
        let ghost opened = group@;
        proof {
            opened_count(start, frame.info);
        }
        if (rest.len() as u64) < header.size {
            let _ = frame.write(rest);
            frame.abort(group, Error::WrongSize);
            return Err(Error::WrongSize);
        }
        let size: usize = header.size as usize;
        let chunk: &[u8] = &rest[0..size];
        assert(chunk@ =~= rest@.take(size as int));
        let _ = frame.write(chunk);
        assert(frame.buf.data() =~= rest@.take(size as int));
        let _ = frame.finish(group);
        advance(&mut rest, size);
    }
}

/// Opening a frame counts one more.
proof fn opened_count(group: GroupModel, info: frame::Info)
    requires
        group.partial is None,
    ensures
        group.opened(info).frame_count() == group.frame_count() + 1,
        group.opened(info).offset + group.opened(info).frames.len() == group.offset
            + group.frames.len(),
{
    crate::model::group::within_budget_facts(group.frames, info.size as nat);
}

/// How a group that was received ends: cleanly, or with the error that cut it short.
pub open spec fn ended(group: GroupModel, outcome: Result<(), Error>) -> GroupModel {
    if group.closed {
        group
    } else {
        match outcome {
            Ok(()) => GroupModel { fin: true, ..group },
            Err(err) => group.aborted(err),
        }
    }
}

/// End a group that was received.
pub fn end_group(group: &mut group::Producer, outcome: Result<(), Error>)
    requires
        old(group).well_formed(),
    ensures
        final(group).well_formed(),
        final(group).info == old(group).info,
        final(group).track == old(group).track,
        final(group)@ == ended(old(group)@, outcome),
{
    match outcome {
        Ok(()) => {
            let _ = group.finish();
        },
        Err(err) => {
            let _ = group.abort(err);
        },
    }
}

/// The bytes of frames, each stamped against the one before it.
pub open spec fn print_frames(prev: u64, frames: Seq<FrameModel>, timed: bool) -> Result<
    Seq<u8>,
    Error,
>
    decreases frames.len(),
{
    if frames.len() == 0 {
        Ok(seq![])
    } else {
        let frame = frames[0];
        match print_header(prev, frame.timestamp.value(), frame.payload.len() as u64, timed) {
            Err(err) => Err(err),
            Ok(header) => match print_frames(frame.timestamp.value(), frames.skip(1), timed) {
                Err(err) => Err(err),
                Ok(rest) => Ok(header + frame.payload + rest),
            },
        }
    }
}

/// A group that is open, has nothing in flight, and has room for `more` bytes.
pub open spec fn takes(group: GroupModel, more: nat) -> bool {
    &&& group.partial is None
    &&& !group.closed
    &&& !group.fin
    &&& total_size(group.frames) + more <= MAX_GROUP_CACHE
}

/// What one endpoint writes of a group, the other reads: the frames come back in order, with
/// their timestamps and payloads.
pub proof fn frames_round_trip(
    timescale: Timescale,
    group: GroupModel,
    prev: u64,
    now: Timestamp,
    frames: Seq<FrameModel>,
)
    requires
        print_frames(prev, frames, true) is Ok,
        takes(group, total_size(frames)),
        forall|i: int|
            0 <= i < frames.len() ==> (#[trigger] frames[i]).timestamp.scale() == timescale
                && frames[i].timestamp.value() <= VARINT_MAX,
    ensures
        filled(
            timescale,
            group,
            prev,
            Some(timescale),
            now,
            print_frames(prev, frames, true)->Ok_0,
        ) == ((GroupModel { frames: group.frames + frames, ..group }), Ok::<(), Error>(())),
    decreases frames.len(),
{
    if frames.len() == 0 {
        assert(group.frames + frames =~= group.frames);
    } else {
        let frame = frames[0];
        let rest_frames = frames.skip(1);
        let value = frame.timestamp.value();
        let size = frame.payload.len() as u64;
        let tail = print_frames(value, rest_frames, true)->Ok_0;
        let header = print_header(prev, value, size, true)->Ok_0;
        let bytes = print_frames(prev, frames, true)->Ok_0;
        let code = delta_code(value, prev)->Ok_0;
        let after_header = frame.payload + tail;
        assert(total_size(frames) == frame.payload.len() + total_size(rest_frames));
        assert(frame.payload.len() <= MAX_GROUP_CACHE);
        assert(bytes =~= varint_bytes(code) + (varint_bytes(size) + after_header));
        delta_round_trip(value, prev);
        varint_round_trip(code, varint_bytes(size) + after_header);
        varint_round_trip(size, after_header);
        frame.timestamp.parts(value, timescale);
        assert(Timestamp::of(value, timescale) == frame.timestamp);
        let info = frame::Info { size, timestamp: frame.timestamp };
        let opened = group.opened(info);
        assert(opened.frames == group.frames);
        let next = opened.committed(frame);
        assert(after_header.take(size as int) =~= frame.payload);
        assert(after_header.skip(size as int) =~= tail);
        assert(next == (GroupModel { frames: group.frames.push(frame), ..group }));
        total_size_push(group.frames, frame);
        assert forall|i: int| 0 <= i < rest_frames.len() implies (
        #[trigger] rest_frames[i]).timestamp.scale() == timescale
            && rest_frames[i].timestamp.value() <= VARINT_MAX by {
            assert(rest_frames[i] == frames[i + 1]);
        }
        frames_round_trip(timescale, next, value, now, rest_frames);
        assert(group.frames.push(frame) + rest_frames =~= group.frames + frames);
    }
}

/// Append one whole frame to a stream: the header, and the payload.
pub fn encode_frame(
    frame: &frame::Frame,
    timescale: Option<Timescale>,
    prev: &mut u64,
    buf: &mut Vec<u8>,
) -> (r: Result<(), Error>)
    ensures
        match print_header(
            *old(prev),
            frame.timestamp.value(),
            frame.payload@.len() as u64,
            timescale is Some,
        ) {
            Ok(header) => {
                &&& r is Ok
                &&& final(buf)@ == old(buf)@ + header + frame.payload@
                &&& *final(prev) == if timescale is Some {
                    frame.timestamp.value()
                } else {
                    *old(prev)
                }
            },
            Err(err) => {
                &&& r == Err::<(), Error>(err)
                &&& final(buf)@ == old(buf)@
                &&& *final(prev) == *old(prev)
            },
        },
{
    let info: frame::Info = frame::Info {
        size: frame.payload.len() as u64,
        timestamp: frame.timestamp,
    };
    encode_header(&info, timescale, prev, buf)?;
    let ghost before = buf@;
    buf.extend_from_slice(frame.payload.as_slice());
    assert(buf@ =~= before + frame.payload@);
    Ok(())
}

/// A step between two timestamps can be sent exactly if its zigzag code is a varint: steps of less
/// than 2^61 in either direction. What a receiver makes of a code is the step, added to the
/// timestamp before, unless that leaves the range.
pub proof fn steps_are_bounded(curr: u64, prev: u64, step: int)
    ensures
        delta_code(curr, prev) is Ok <==> -0x2000_0000_0000_0000 <= curr - prev
            < 0x2000_0000_0000_0000,
        -0x2000_0000_0000_0000 <= step < 0x2000_0000_0000_0000 ==> ({
            let next = apply_delta(prev, zigzag(step) as u64);
            &&& next is Ok <==> 0 <= prev + step <= u64::MAX
            &&& next matches Ok(at) ==> at == prev + step
            &&& next is Err ==> next == Err::<u64, Error>(Error::BoundsExceeded(BoundsExceeded))
        }),
{
    zigzag_keeps_small_steps_small(curr - prev);
    zigzag_keeps_small_steps_small(step);
    zigzag_round_trip(step, 0);
}

/// Frames that are sent without timestamps come back in order with their payloads, each stamped
/// with the time of receipt.
pub proof fn untimed_frames_are_stamped_on_receipt(
    timescale: Timescale,
    group: GroupModel,
    prev: u64,
    now: Timestamp,
    stamp: Timestamp,
    frames: Seq<FrameModel>,
)
    requires
        print_frames(prev, frames, false) is Ok,
        takes(group, total_size(frames)),
        now.spec_convert(timescale) == Ok::<Timestamp, TimeOverflow>(stamp),
    ensures
        filled(timescale, group, prev, None, now, print_frames(prev, frames, false)->Ok_0) == (
            (GroupModel {
                frames: group.frames + frames.map_values(
                    |frame: FrameModel| FrameModel { timestamp: stamp, payload: frame.payload },
                ),
                ..group
            }),
            Ok::<(), Error>(()),
        ),
    decreases frames.len(),
{
    let stamped = |frame: FrameModel| FrameModel { timestamp: stamp, payload: frame.payload };
    if frames.len() == 0 {
        assert(group.frames + frames.map_values(stamped) =~= group.frames);
    } else {
        let frame = frames[0];
        let got = FrameModel { timestamp: stamp, payload: frame.payload };
        let rest_frames = frames.skip(1);
        let value = frame.timestamp.value();
        let size = frame.payload.len() as u64;
        let tail = print_frames(value, rest_frames, false)->Ok_0;
        let bytes = print_frames(prev, frames, false)->Ok_0;
        let after_header = frame.payload + tail;
        assert(total_size(frames) == frame.payload.len() + total_size(rest_frames));
        assert(frame.payload.len() <= MAX_GROUP_CACHE);
        assert(bytes =~= varint_bytes(size) + after_header);
        varint_round_trip(size, after_header);
        let info = frame::Info { size, timestamp: stamp };
        let opened = group.opened(info);
        assert(opened.frames == group.frames);
        let next = opened.committed(got);
        assert(after_header.take(size as int) =~= frame.payload);
        assert(after_header.skip(size as int) =~= tail);
        assert(next == (GroupModel { frames: group.frames.push(got), ..group }));
        total_size_push(group.frames, got);
        print_frames_ignores_time(prev, value, rest_frames);
        untimed_frames_are_stamped_on_receipt(timescale, next, prev, now, stamp, rest_frames);
        assert(group.frames.push(got) + rest_frames.map_values(stamped) =~= group.frames
            + frames.map_values(stamped));
    }
}

proof fn print_frames_ignores_time(a: u64, b: u64, frames: Seq<FrameModel>)
    ensures
        print_frames(a, frames, false) == print_frames(b, frames, false),
{
}

/// A payload that ends early fails the group as of the wrong size, whatever came before it, and
/// one that is larger than a group may be is refused before it is looked at.
pub proof fn bad_payload_is_refused(
    timescale: Timescale,
    group: GroupModel,
    prev: u64,
    now: Timestamp,
    stamp: Timestamp,
    size: u64,
    payload: Seq<u8>,
)
    requires
        size <= VARINT_MAX,
        group.partial is None,
        now.spec_convert(timescale) == Ok::<Timestamp, TimeOverflow>(stamp),
    ensures
        ({
            let (after, r) = filled(
                timescale,
                group,
                prev,
                None,
                now,
                varint_bytes(size) + payload,
            );
            &&& size > MAX_GROUP_CACHE ==> r == Err::<(), Error>(Error::FrameTooLarge) && after
                == group
            &&& size <= MAX_GROUP_CACHE && !group.closed && !group.fin && payload.len() < size
                ==> {
                &&& r == Err::<(), Error>(Error::WrongSize)
                &&& after.abort == Some(Error::WrongSize)
                &&& after.closed
                &&& after.frames.len() == 0
            }
        }),
{
    varint_round_trip(size, payload);
    assert(varint_bytes(size).len() > 0) by {
        if varint_bytes(size).len() == 0 {
            assert(varint_bytes(size) + Seq::<u8>::empty() =~= Seq::<u8>::empty());
            varint_round_trip(size, Seq::<u8>::empty());
        }
    }
}

/// How a group ends: cleanly after its last frame, and with the error otherwise. One that is
/// closed by then stays as it is.
pub proof fn group_ends_as_its_stream_did(group: GroupModel, err: Error)
    ensures
        group.closed ==> ended(group, Ok(())) == group && ended(group, Err(err)) == group,
        !group.closed ==> ({
            let done = ended(group, Ok(()));
            let failed = ended(group, Err(err));
            &&& done.fin
            &&& done.frames == group.frames
            &&& done.abort == group.abort
            &&& !done.closed
            &&& failed.abort == Some(err)
            &&& failed.closed
            &&& failed.frames.len() == 0
        }),
{
}

} // verus!
