//! Serving one subscription: the publisher's side of a Subscribe Stream.

use vstd::prelude::*;

use crate::coding::decode::Wire;
use crate::coding::encode::Encode;
use crate::error::Error;
use crate::lite;
use crate::lite::datagram::DatagramModel as WireDatagramModel;
use crate::lite::{
    Subscribe, SubscribeEnd, SubscribeOk, SubscribeResponse, SubscribeStart, SubscribeUpdate,
    TrackInfo, Version,
};
use crate::model::datagram::Datagram;
use crate::model::group;
use crate::model::subscription::{aggregate_covers_all, Subscription};
use crate::model::time::{Duration, Timescale};
use crate::model::track;
use crate::model::track::laws::next_group_skips_nothing;
use crate::model::track::model::TrackModel;
use crate::model::track::state::{reads, TrackState};
use crate::model::track::subscriber::{after, highest, Subscriber};
use crate::poll::Poll;

verus! {

/// What [`poll_recv_next`] pulled from the one subscriber: the next group to serve, the next
/// best-effort datagram to forward, the track declaring its exclusive final sequence, or the
/// track finishing (the live edge having reached that boundary).
pub enum Recv {
    Group(group::Consumer),
    Datagram(Datagram),
    Boundary(u64),
    Finished,
}

/// What comes next, with groups and datagrams given by their places.
pub enum Next {
    Group(int),
    Datagram(int),
    Boundary(u64),
    Finished,
}

/// The next group, as far as the subscriber's range goes.
pub open spec fn next_group(track: TrackModel, subscriber: Subscriber) -> Poll<
    Result<Option<int>, Error>,
> {
    track.or_closed(
        track.next_in_range(
            highest(subscriber.next_sequence, subscriber.min_sequence),
            subscriber.end_sequence,
        ),
    )
}

/// What comes after the groups that are ready: datagrams, the boundary, the end.
pub open spec fn after_groups(
    track: TrackModel,
    subscriber: Subscriber,
    datagrams: bool,
    emit_boundary: bool,
    finished: bool,
) -> Poll<Result<Next, Error>> {
    let datagram = track.or_closed(track.recv_datagram(subscriber.datagram_index as nat));
    let boundary = track.or_closed(track.finished());
    if datagrams && (datagram matches Poll::Ready(Ok(Some(_)))) {
        Poll::Ready(Ok(Next::Datagram(datagram->Ready_0->Ok_0->Some_0)))
    } else if datagrams && (datagram matches Poll::Ready(Err(_))) {
        Poll::Ready(Err(datagram->Ready_0->Err_0))
    } else if emit_boundary && boundary is Ready {
        match boundary->Ready_0 {
            Ok(group) => Poll::Ready(Ok(Next::Boundary(group))),
            Err(err) => Poll::Ready(Err(err)),
        }
    } else if finished {
        Poll::Ready(Ok(Next::Finished))
    } else {
        Poll::Pending
    }
}

/// What comes next. Groups are first so a datagram burst can't starve them; the boundary is
/// reported in an idle moment, before the end, so that a future boundary reaches the
/// subscriber while the trailing groups are still in flight.
pub open spec fn next_of(
    track: TrackModel,
    subscriber: Subscriber,
    datagrams: bool,
    emit_boundary: bool,
) -> Poll<Result<Next, Error>> {
    match next_group(track, subscriber) {
        Poll::Ready(Ok(Some(i))) => Poll::Ready(Ok(Next::Group(i))),
        Poll::Ready(Err(err)) => Poll::Ready(Err(err)),
        Poll::Ready(Ok(None)) => after_groups(track, subscriber, datagrams, emit_boundary, true),
        Poll::Pending => after_groups(track, subscriber, datagrams, emit_boundary, false),
    }
}

/// Whether the subscriber moved past what came next, and past nothing else.
pub open spec fn moved(
    track: TrackModel,
    before: Subscriber,
    next: Poll<Result<Next, Error>>,
    subscriber: Subscriber,
) -> bool {
    subscriber == match next {
        Poll::Ready(Ok(Next::Group(i))) => Subscriber {
            next_sequence: after(track.groups[i]->Some_0.0.info.sequence),
            ..before
        },
        Poll::Ready(Ok(Next::Datagram(i))) => Subscriber {
            datagram_index: (track.datagram_offset + i + 1) as usize,
            next_sequence: highest(before.next_sequence, after(track.datagrams[i].0.sequence)),
            ..before
        },
        _ => before,
    }
}

/// Whether a result is what came next.
pub open spec fn received(
    track: TrackModel,
    next: Poll<Result<Next, Error>>,
    r: Poll<Result<Recv, Error>>,
) -> bool {
    match next {
        Poll::Ready(Ok(Next::Group(i))) => r matches Poll::Ready(Ok(Recv::Group(reader))) && reads(
            reader,
            track.groups[i]->Some_0.0,
        ),
        Poll::Ready(Ok(Next::Datagram(i))) => r matches Poll::Ready(Ok(Recv::Datagram(datagram)))
            && datagram@ == track.datagrams[i].0,
        Poll::Ready(Ok(Next::Boundary(group))) => r matches Poll::Ready(Ok(Recv::Boundary(at)))
            && at == group,
        Poll::Ready(Ok(Next::Finished)) => r matches Poll::Ready(Ok(Recv::Finished)),
        Poll::Ready(Err(err)) => r matches Poll::Ready(Err(e)) && e == err,
        Poll::Pending => r is Pending,
    }
}

/// Poll a single subscriber for the next group (cap-aware) or datagram, so groups and
/// datagrams share the same subscription. Datagrams are polled only when the transport
/// carries them. With `emit_boundary`, a declared final sequence surfaces as
/// [`Recv::Boundary`]; the caller clears it after the first so it fires once.
pub fn poll_recv_next(
    subscriber: &mut Subscriber,
    track: &TrackState,
    datagrams: bool,
    emit_boundary: bool,
) -> (r: Poll<Result<Recv, Error>>)
    requires
        track.well_formed(),
    ensures
        ({
            let next = next_of(track@, *old(subscriber), datagrams, emit_boundary);
            &&& received(track@, next, r)
            &&& moved(track@, *old(subscriber), next, *final(subscriber))
        }),
{
    let mut groups_finished: bool = false;
    match subscriber.poll_next_group(track) {
        Poll::Ready(Ok(Some(group))) => {
            return Poll::Ready(Ok(Recv::Group(group)));
        },
        Poll::Ready(Ok(None)) => {
            groups_finished = true;
        },
        Poll::Ready(Err(err)) => {
            return Poll::Ready(Err(err));
        },
        Poll::Pending => {},
    }
    if datagrams {
        match subscriber.poll_recv_datagram(track) {
            Poll::Ready(Ok(Some(datagram))) => {
                return Poll::Ready(Ok(Recv::Datagram(datagram)));
            },
            // Datagram side finished but groups are still paused/pending: keep waiting on groups.
            Poll::Ready(Ok(None)) => {},
            Poll::Ready(Err(err)) => {
                return Poll::Ready(Err(err));
            },
            Poll::Pending => {},
        }
    }
    if emit_boundary {
        match subscriber.poll_finished(track) {
            Poll::Ready(Ok(group)) => {
                return Poll::Ready(Ok(Recv::Boundary(group)));
            },
            Poll::Ready(Err(err)) => {
                return Poll::Ready(Err(err));
            },
            Poll::Pending => {},
        }
    }
    if groups_finished {
        return Poll::Ready(Ok(Recv::Finished));
    }
    Poll::Pending
}

/// The preferences that a SUBSCRIBE asks for.
pub fn subscription_of(subscribe: &Subscribe) -> (r: Subscription)
    ensures
        r == (Subscription {
            priority: subscribe.priority,
            ordered: subscribe.ordered,
            stale: subscribe.max_latency,
            group_start: subscribe.start_group,
            group_end: subscribe.end_group,
        }),
{
    Subscription {
        priority: subscribe.priority,
        ordered: subscribe.ordered,
        stale: subscribe.max_latency,
        group_start: subscribe.start_group,
        group_end: subscribe.end_group,
    }
}

/// The answer to a SUBSCRIBE. From lite-05 on it is accepted implicitly: the immutable
/// properties live in TRACK_INFO, and the resolved range arrives as SUBSCRIBE_START/END.
pub fn subscribe_reply(subscribe: &Subscribe, version: Version) -> (r: Option<SubscribeResponse>)
    ensures
        r == if version.rank() >= 5 {
            None
        } else {
            Some(
                SubscribeResponse::Accepted(
                    SubscribeOk {
                        priority: subscribe.priority,
                        ordered: false,
                        max_latency: Duration { nanos: 0 },
                        start_group: None,
                        end_group: None,
                    },
                ),
            )
        },
{
    if version.has_track_stream() {
        None
    } else {
        Some(
            SubscribeResponse::Accepted(
                SubscribeOk {
                    priority: subscribe.priority,
                    ordered: false,
                    max_latency: Duration::zero(),
                    start_group: None,
                    end_group: None,
                },
            ),
        )
    }
}

/// The scale of the timestamps on the wire, where frames carry them: from lite-05 on.
pub fn wire_timescale(version: Version, info: &track::Info) -> (r: Option<Timescale>)
    ensures
        r == if version.rank() >= 5 {
            Some(info.timescale)
        } else {
            None
        },
{
    if version.has_track_stream() {
        Some(info.timescale)
    } else {
        None
    }
}

/// The TRACK_INFO of a track.
pub fn track_info(info: &track::Info) -> (r: TrackInfo)
    ensures
        r == (TrackInfo {
            priority: info.priority,
            ordered: info.ordered,
            cache: info.cache,
            timescale: info.timescale,
        }),
{
    TrackInfo {
        priority: info.priority,
        ordered: info.ordered,
        cache: info.cache,
        timescale: info.timescale,
    }
}

/// The properties of a track, out of its TRACK_INFO.
pub fn track_from_info(info: &TrackInfo) -> (r: track::Info)
    ensures
        r == (track::Info {
            priority: info.priority,
            ordered: info.ordered,
            cache: info.cache,
            timescale: info.timescale,
        }),
{
    track::Info::default().with_timescale(info.timescale).with_cache(info.cache).with_priority(
        info.priority,
    ).with_ordered(info.ordered)
}

/// One subscription that is being served.
pub struct Serving {
    /// The id that the peer gave the subscription.
    pub id: u64,
    pub version: Version,
    /// The track priority that new groups get.
    pub priority: u8,
    /// Whether SUBSCRIBE_START was sent.
    pub start_sent: bool,
    /// Whether SUBSCRIBE_END was sent.
    pub end_sent: bool,
    /// Whether datagrams are served: on lite-05+ over a datagram-capable transport.
    pub datagrams: bool,
    /// One cursor for groups and datagrams.
    pub subscriber: Subscriber,
}

/// What to do next for a subscription.
pub enum Step {
    /// Serve a group with this track priority, after sending SUBSCRIBE_START if there is one.
    Serve { start: Option<SubscribeStart>, group: group::Consumer, priority: u8 },
    /// Forward a datagram.
    Datagram(Datagram),
    /// Send SUBSCRIBE_END, and keep serving what is below it.
    End(SubscribeEnd),
    /// Drain the groups in flight and finish the stream.
    Finish,
}

/// Whether a subscription did what came next.
pub open spec fn step_done(
    before: Serving,
    track: TrackModel,
    after: Serving,
    r: Poll<Result<Step, Error>>,
) -> bool {
    let next = before.next(track);
    let emit = before.version.rank() >= 5;
    &&& moved(track, before.subscriber, next, after.subscriber)
    &&& match next {
        Poll::Ready(Ok(Next::Group(i))) => {
            let held = track.groups[i]->Some_0.0;
            &&& r matches Poll::Ready(Ok(Step::Serve { start, group, priority })) && reads(
                group,
                held,
            ) && priority == before.priority && start == if emit && !before.start_sent {
                Some(SubscribeStart { group: held.info.sequence })
            } else {
                None
            }
            &&& after == (Serving {
                start_sent: before.start_sent || emit,
                subscriber: after.subscriber,
                ..before
            })
        },
        Poll::Ready(Ok(Next::Datagram(i))) => {
            &&& r matches Poll::Ready(Ok(Step::Datagram(datagram))) && datagram@
                == track.datagrams[i].0
            &&& after == (Serving { subscriber: after.subscriber, ..before })
        },
        Poll::Ready(Ok(Next::Boundary(group))) => {
            &&& r matches Poll::Ready(Ok(Step::End(end))) && end.group == group
            &&& after == (Serving { end_sent: true, ..before })
        },
        Poll::Ready(Ok(Next::Finished)) => {
            &&& r matches Poll::Ready(Ok(Step::Finish))
            &&& after == before
        },
        Poll::Ready(Err(err)) => {
            &&& r matches Poll::Ready(Err(e)) && e == err
            &&& after == before
        },
        Poll::Pending => {
            &&& r is Pending
            &&& after == before
        },
    }
}

/// The step that a turn is, if it is one.
pub open spec fn as_step(r: Poll<Result<Option<Turn>, Error>>) -> Poll<Result<Step, Error>> {
    match r {
        Poll::Ready(Ok(Some(Turn::Step(step)))) => Poll::Ready(Ok(step)),
        Poll::Ready(Err(err)) => Poll::Ready(Err(err)),
        _ => Poll::Pending,
    }
}

/// The preferences that a SUBSCRIBE_UPDATE asks for.
pub open spec fn preferences(update: SubscribeUpdate) -> Subscription {
    Subscription {
        priority: update.priority,
        ordered: update.ordered,
        stale: update.max_latency,
        group_start: update.start_group,
        group_end: update.end_group,
    }
}

/// What one turn of the subscription loop did.
pub enum Turn {
    /// The peer's preferences were taken over.
    Updated,
    /// This is to be done.
    Step(Step),
}

impl Serving {
    /// Start serving. Groups are delivered from the requested start on, otherwise from the
    /// latest group, up to the requested end.
    pub fn new(
        subscribe: &Subscribe,
        subscriber: Subscriber,
        track: &TrackState,
        version: Version,
        max_datagram_size: usize,
    ) -> (r: Serving)
        ensures
            r.id == subscribe.id,
            r.version == version,
            r.priority == subscribe.priority,
            !r.start_sent,
            !r.end_sent,
            r.datagrams == (version.rank() >= 5 && max_datagram_size > 0),
            r.subscriber == (Subscriber {
                min_sequence: match (subscribe.start_group, track@.max_sequence) {
                    (Some(start), _) => start,
                    (None, Some(latest)) => latest,
                    (None, None) => subscriber.min_sequence,
                },
                end_sequence: subscribe.end_group,
                ..subscriber
            }),
    {
        let mut subscriber: Subscriber = subscriber;
        let start: Option<u64> = match subscribe.start_group {
            Some(start) => Some(start),
            None => subscriber.latest(track),
        };
        match start {
            Some(start) => subscriber.start_at(start),
            None => {},
        }
        subscriber.end_at(subscribe.end_group);
        Serving {
            id: subscribe.id,
            version,
            priority: subscribe.priority,
            start_sent: false,
            end_sent: false,
            datagrams: version.has_datagrams() && max_datagram_size > 0,
            subscriber,
        }
    }

    /// The subscription after a SUBSCRIBE_UPDATE.
    pub open spec fn updated(self, update: SubscribeUpdate) -> Serving {
        Serving {
            priority: update.priority,
            subscriber: Subscriber {
                subscription: preferences(update),
                min_sequence: match update.start_group {
                    Some(start) => start,
                    None => self.subscriber.min_sequence,
                },
                end_sequence: update.end_group,
                ..self.subscriber
            },
            ..self
        }
    }

    /// The track after a SUBSCRIBE_UPDATE.
    pub open spec fn updated_track(self, track: TrackModel, update: SubscribeUpdate) -> TrackModel {
        match self.subscriber.id {
            Some(id) => track.resubscribed(id, preferences(update)),
            None => track,
        }
    }

    /// What comes next for this subscription.
    pub open spec fn next(self, track: TrackModel) -> Poll<Result<Next, Error>> {
        next_of(
            track,
            self.subscriber,
            self.datagrams,
            self.version.rank() >= 5 && !self.end_sent,
        )
    }

    /// Poll for what to do next. SUBSCRIBE_START goes out once the first group is known,
    /// SUBSCRIBE_END as soon as the track declares its final sequence, each once and only from
    /// lite-05 on.
    pub fn poll(&mut self, track: &TrackState) -> (r: Poll<Result<Step, Error>>)
        requires
            track.well_formed(),
        ensures
            step_done(*old(self), track@, *final(self), r),
    {
        let emit_range: bool = self.version.has_track_stream();
        let emit_boundary: bool = emit_range && !self.end_sent;
        match poll_recv_next(&mut self.subscriber, track, self.datagrams, emit_boundary) {
            Poll::Pending => Poll::Pending,
            Poll::Ready(Err(err)) => Poll::Ready(Err(err)),
            Poll::Ready(Ok(Recv::Group(group))) => {
                let start: Option<SubscribeStart> = if emit_range && !self.start_sent {
                    Some(SubscribeStart { group: group.info.sequence })
                } else {
                    None
                };
                if emit_range {
                    self.start_sent = true;
                }
                Poll::Ready(Ok(Step::Serve { start, group, priority: self.priority }))
            },
            Poll::Ready(Ok(Recv::Datagram(datagram))) => Poll::Ready(Ok(Step::Datagram(datagram))),
            Poll::Ready(Ok(Recv::Boundary(group))) => {
                self.end_sent = true;
                Poll::Ready(Ok(Step::End(SubscribeEnd { group })))
            },
            Poll::Ready(Ok(Recv::Finished)) => Poll::Ready(Ok(Step::Finish)),
        }
    }

    /// The peer sent a SUBSCRIBE_UPDATE, or finished its side (`None`), which ends the
    /// subscription: groups in flight are cancelled. Returns whether it goes on.
    ///
    /// The full update feeds the model subscriber so the producer's aggregate reflects it.
    /// The end is a serving cap, not a terminator: raising it releases what was held back.
    pub fn on_update(&mut self, track: &mut TrackState, update: Option<SubscribeUpdate>) -> (r: bool)
        requires
            old(track).well_formed(),
        ensures
            final(track).well_formed(),
            match update {
                None => {
                    &&& !r
                    &&& *final(self) == *old(self)
                    &&& final(track)@ == old(track)@
                },
                Some(update) => {
                    &&& r
                    &&& *final(self) == old(self).updated(update)
                    &&& final(track)@ == old(self).updated_track(old(track)@, update)
                },
            },
    {
        match update {
            None => false,
            Some(update) => {
                self.priority = update.priority;
                let subscription: Subscription = Subscription {
                    priority: update.priority,
                    ordered: update.ordered,
                    stale: update.max_latency,
                    group_start: update.start_group,
                    group_end: update.end_group,
                };
                self.subscriber.update(track, subscription);
                match update.start_group {
                    Some(start) => self.subscriber.start_at(start),
                    None => {},
                }
                self.subscriber.end_at(update.end_group);
                true
            },
        }
    }

    /// What to do next: control goes first. SUBSCRIBE_UPDATE and FIN are rare, so they can't
    /// starve the data path, while a deep group backlog polled first could defer an
    /// unsubscribe or priority change indefinitely. `Ready(Ok(None))` ends the subscription.
    pub fn turn(
        &mut self,
        track: &mut TrackState,
        update: Poll<Result<Option<SubscribeUpdate>, Error>>,
    ) -> (r: Poll<Result<Option<Turn>, Error>>)
        requires
            old(track).well_formed(),
        ensures
            final(track).well_formed(),
            match update {
                Poll::Ready(Err(err)) => {
                    &&& r matches Poll::Ready(Err(e)) && e == err
                    &&& *final(self) == *old(self)
                    &&& final(track)@ == old(track)@
                },
                Poll::Ready(Ok(None)) => {
                    &&& r matches Poll::Ready(Ok(None))
                    &&& *final(self) == *old(self)
                    &&& final(track)@ == old(track)@
                },
                Poll::Ready(Ok(Some(update))) => {
                    &&& r matches Poll::Ready(Ok(Some(Turn::Updated)))
                    &&& *final(self) == old(self).updated(update)
                    &&& final(track)@ == old(self).updated_track(old(track)@, update)
                },
                Poll::Pending => {
                    &&& final(track)@ == old(track)@
                    &&& step_done(*old(self), old(track)@, *final(self), as_step(r))
                    &&& !(r matches Poll::Ready(Ok(None)))
                    &&& !(r matches Poll::Ready(Ok(Some(Turn::Updated))))
                },
            },
    {
        match update {
            Poll::Ready(Err(err)) => Poll::Ready(Err(err)),
            Poll::Ready(Ok(update)) => {
                if self.on_update(track, update) {
                    Poll::Ready(Ok(Some(Turn::Updated)))
                } else {
                    Poll::Ready(Ok(None))
                }
            },
            Poll::Pending => match self.poll(track) {
                Poll::Ready(Ok(step)) => Poll::Ready(Ok(Some(Turn::Step(step)))),
                Poll::Ready(Err(err)) => Poll::Ready(Err(err)),
                Poll::Pending => Poll::Pending,
            },
        }
    }

    /// The body of a datagram to send, or `None` if it is dropped: it doesn't fit the
    /// transport's limit, or cannot be encoded. There is no group fallback.
    pub fn datagram_body(&self, datagram: Datagram, max: usize) -> (r: Option<Vec<u8>>)
        ensures
            match lite::Datagram::print(
                (WireDatagramModel {
                    subscribe: self.id,
                    sequence: datagram.sequence,
                    timestamp: datagram.timestamp.value(),
                    payload: datagram.payload@,
                }),
                self.version,
            ) {
                Ok(body) => if body.len() > max {
                    r is None
                } else {
                    r matches Some(bytes) && bytes@ == body
                },
                Err(_) => r is None,
            },
    {
        let body: lite::Datagram = lite::Datagram {
            subscribe: self.id,
            sequence: datagram.sequence,
            // Already at the track timescale (normalized by the model producer).
            timestamp: datagram.timestamp.value(),
            payload: datagram.payload,
        };
        match body.encode_bytes(self.version) {
            Ok(bytes) => if bytes.len() > max {
                None
            } else {
                Some(bytes)
            },
            Err(_) => None,
        }
    }
}

/// What happened while a group was being written.
pub enum Served<T> {
    /// The work is done.
    Done(Result<T, Error>),
    /// Set the stream's priority.
    Priority(u8),
    /// Tell the queue of a new track priority.
    TrackPriority(u8),
}

/// What to do while work on a stream is under way: the peer closing wins, over the work
/// itself, over a change of the stream's place in the queue, over a new track priority. The
/// track priority that was seen last is remembered, so a change only fires once.
pub fn serve_step<T>(
    closed: bool,
    work: Poll<Result<T, Error>>,
    queue: Poll<u8>,
    track_priority: u8,
    seen: &mut u8,
) -> (r: Poll<Served<T>>)
    ensures
        r == if closed {
            Poll::Ready(Served::Done(Err::<T, Error>(Error::Cancel)))
        } else if work is Ready {
            Poll::Ready(Served::Done(work->Ready_0))
        } else if queue is Ready {
            Poll::Ready(Served::Priority(queue->Ready_0))
        } else if track_priority != *old(seen) {
            Poll::Ready(Served::TrackPriority(track_priority))
        } else {
            Poll::Pending
        },
        *final(seen) == if !closed && work is Pending && queue is Pending {
            track_priority
        } else {
            *old(seen)
        },
{
    if closed {
        return Poll::Ready(Served::Done(Err(Error::Cancel)));
    }
    match work {
        Poll::Ready(result) => {
            return Poll::Ready(Served::Done(result));
        },
        Poll::Pending => {},
    }
    match queue {
        Poll::Ready(priority) => {
            return Poll::Ready(Served::Priority(priority));
        },
        Poll::Pending => {},
    }
    if track_priority != *seen {
        *seen = track_priority;
        return Poll::Ready(Served::TrackPriority(track_priority));
    }
    Poll::Pending
}

/// Nothing is called finished before what is buffered was handed out: a finished track still
/// gives every group in range first, and every datagram and its boundary, where they are
/// asked for.
pub proof fn finish_comes_last(
    track: TrackModel,
    subscriber: Subscriber,
    datagrams: bool,
    emit_boundary: bool,
)
    requires
        next_of(track, subscriber, datagrams, emit_boundary) == Poll::Ready(
            Ok::<Next, Error>(Next::Finished),
        ),
    ensures
        next_group(track, subscriber) == Poll::Ready(Ok::<Option<int>, Error>(None)),
        track.past_final(highest(subscriber.next_sequence, subscriber.min_sequence)),
        datagrams ==> !(track.recv_datagram(subscriber.datagram_index as nat) matches Poll::Ready(
            Ok(Some(_)),
        )),
        !emit_boundary,
{
}

/// A SUBSCRIBE_UPDATE bounds what is served until the next one: no group below its start or past
/// its end is given out, whatever the track holds by then, and none that was passed before.
/// Within these bounds nothing is held back: the lowest cached group is given out next.
pub proof fn update_bounds_what_is_served(
    serving: Serving,
    update: SubscribeUpdate,
    track: TrackModel,
)
    ensures
        ({
            let next = serving.updated(update).next(track);
            let wanted = |j: int|
                {
                    let sequence = track.groups[j]->Some_0.0.info.sequence;
                    &&& 0 <= j < track.groups.len()
                    &&& track.groups[j] is Some
                    &&& sequence >= serving.subscriber.next_sequence
                    &&& update.start_group matches Some(start) ==> sequence >= start
                    &&& update.start_group is None ==> sequence >= serving.subscriber.min_sequence
                    &&& update.end_group matches Some(end) ==> sequence <= end
                };
            &&& next matches Poll::Ready(Ok(Next::Group(i))) ==> {
                &&& wanted(i)
                &&& forall|j: int| #[trigger]
                    wanted(j) ==> track.groups[i]->Some_0.0.info.sequence
                        <= track.groups[j]->Some_0.0.info.sequence
            }
            &&& (exists|j: int| #[trigger] wanted(j)) ==> (next matches Poll::Ready(
                Ok(Next::Group(_)),
            ))
        }),
{
    let serving_on = serving.updated(update);
    let floor = highest(serving_on.subscriber.next_sequence, serving_on.subscriber.min_sequence);
    let end = serving_on.subscriber.end_sequence;
    next_group_skips_nothing(track, floor, end);
    let in_reach = |j: int|
        0 <= j < track.groups.len() && track.groups[j] is Some && floor
            <= track.groups[j]->Some_0.0.info.sequence && (end matches Some(end)
            ==> track.groups[j]->Some_0.0.info.sequence <= end);
    let wanted = |j: int|
        {
            let sequence = track.groups[j]->Some_0.0.info.sequence;
            &&& 0 <= j < track.groups.len()
            &&& track.groups[j] is Some
            &&& sequence >= serving.subscriber.next_sequence
            &&& update.start_group matches Some(start) ==> sequence >= start
            &&& update.start_group is None ==> sequence >= serving.subscriber.min_sequence
            &&& update.end_group matches Some(end) ==> sequence <= end
        };
    assert forall|j: int| #[trigger] wanted(j) implies in_reach(j) by {}
    assert forall|j: int| #[trigger] in_reach(j) implies wanted(j) by {}
}

/// Until the next update the bounds stay as they are, and groups are given out in increasing
/// order: a step moves past the group it serves, and changes nothing else of the range, the
/// priority or the preferences.
pub proof fn steps_keep_the_range(
    before: Serving,
    track: TrackModel,
    after: Serving,
    r: Poll<Result<Step, Error>>,
)
    requires
        step_done(before, track, after, r),
    ensures
        after.subscriber.min_sequence == before.subscriber.min_sequence,
        after.subscriber.end_sequence == before.subscriber.end_sequence,
        after.subscriber.subscription == before.subscriber.subscription,
        after.subscriber.id == before.subscriber.id,
        after.subscriber.next_sequence >= before.subscriber.next_sequence || (r matches Poll::Ready(
            Ok(Step::Serve { .. }),
        )),
        after.priority == before.priority,
        after.id == before.id,
        after.version == before.version,
        after.datagrams == before.datagrams,
        r matches Poll::Ready(Ok(Step::Serve { start, group, priority })) ==> {
            &&& priority == before.priority
            &&& group.info.sequence >= before.subscriber.next_sequence
            &&& group.info.sequence >= before.subscriber.min_sequence
            &&& before.subscriber.end_sequence matches Some(end) ==> group.info.sequence <= end
            &&& group.info.sequence < u64::MAX ==> after.subscriber.next_sequence
                == group.info.sequence + 1
            &&& start is Some <==> before.version.rank() >= 5 && !before.start_sent
            &&& start matches Some(first) ==> first.group == group.info.sequence
            &&& before.version.rank() >= 5 ==> after.start_sent
        },
        r matches Poll::Ready(Ok(Step::Datagram(datagram))) ==> {
            &&& before.datagrams
            &&& datagram.sequence < u64::MAX ==> after.subscriber.next_sequence
                > datagram.sequence
        },
        r matches Poll::Ready(Ok(Step::End(end))) ==> {
            &&& before.version.rank() >= 5
            &&& !before.end_sent
            &&& after.end_sent
            &&& track.final_sequence == Some(end.group)
        },
        r matches Poll::Ready(Ok(Step::Finish)) ==> track.final_sequence is Some,
        before.start_sent ==> after.start_sent,
        before.end_sent ==> after.end_sent,
{
    let floor = highest(before.subscriber.next_sequence, before.subscriber.min_sequence);
    next_group_skips_nothing(track, floor, before.subscriber.end_sequence);
}

/// A SUBSCRIBE_UPDATE takes effect at once: the priority of groups to come is the one it asks
/// for, the range and the preferences are its own, and nothing else of the subscription
/// changes.
pub proof fn update_takes_effect(serving: Serving, update: SubscribeUpdate)
    ensures
        ({
            let updated = serving.updated(update);
            &&& updated.priority == update.priority
            &&& updated.subscriber.end_sequence == update.end_group
            &&& updated.subscriber.min_sequence == match update.start_group {
                Some(start) => start,
                None => serving.subscriber.min_sequence,
            }
            &&& updated.subscriber.subscription.priority == update.priority
            &&& updated.subscriber.subscription.ordered == update.ordered
            &&& updated.subscriber.subscription.stale == update.max_latency
            &&& updated.subscriber.subscription.group_start == update.start_group
            &&& updated.subscriber.subscription.group_end == update.end_group
            &&& updated.subscriber.next_sequence == serving.subscriber.next_sequence
            &&& updated.subscriber.datagram_index == serving.subscriber.datagram_index
            &&& updated.subscriber.id == serving.subscriber.id
            &&& updated.id == serving.id
            &&& updated.version == serving.version
            &&& updated.start_sent == serving.start_sent
            &&& updated.end_sent == serving.end_sent
            &&& updated.datagrams == serving.datagrams
        }),
{
}

/// The track learns what the subscriber now asks for: the aggregate that its producer sees
/// covers the update, field by field.
pub proof fn update_reaches_the_producer(
    serving: Serving,
    update: SubscribeUpdate,
    track: TrackModel,
    id: u64,
)
    requires
        serving.subscriber.id == Some(id),
        track.subscription_ids.contains(id),
        track.subscription_ids.len() == track.subscriptions.len(),
    ensures
        ({
            let after = serving.updated_track(track, update);
            let place = track.subscription_ids.index_of(id);
            &&& after.subscription_ids == track.subscription_ids
            &&& after.subscriptions[place].priority == update.priority
            &&& after.subscriptions[place].ordered == update.ordered
            &&& after.subscriptions[place].stale == update.max_latency
            &&& after.subscriptions[place].group_start == update.start_group
            &&& after.subscriptions[place].group_end == update.end_group
            &&& forall|i: int|
                0 <= i < track.subscriptions.len() && i != place
                    ==> #[trigger] after.subscriptions[i] == track.subscriptions[i]
            &&& after.demand() matches Some(all) && {
                &&& all.priority >= update.priority
                &&& all.ordered ==> update.ordered
                &&& all.stale.nanos >= update.max_latency.nanos
                &&& update.start_group matches Some(start) ==> (all.group_start matches Some(first)
                    && first <= start)
                &&& all.group_end matches Some(last) ==> (update.end_group matches Some(end)
                    && end <= last)
            }
        }),
{
    let after = serving.updated_track(track, update);
    aggregate_covers_all(after.subscriptions);
    let place = track.subscription_ids.index_of(id);
    assert(track.subscription_ids[place] == id);
    assert(after.subscriptions[place] == preferences(update));
}

/// Groups go ahead of everything else, datagrams ahead of the boundary, and the boundary ahead
/// of the end; an error ends the subscription once no group is ready.
pub proof fn groups_go_first(
    track: TrackModel,
    subscriber: Subscriber,
    datagrams: bool,
    emit_boundary: bool,
)
    requires
        !track.closed,
        track.abort is None,
    ensures
        ({
            let next = next_of(track, subscriber, datagrams, emit_boundary);
            let ready = |j: int|
                {
                    let sequence = track.groups[j]->Some_0.0.info.sequence;
                    &&& 0 <= j < track.groups.len()
                    &&& track.groups[j] is Some
                    &&& sequence >= subscriber.next_sequence
                    &&& sequence >= subscriber.min_sequence
                    &&& subscriber.end_sequence matches Some(end) ==> sequence <= end
                };
            let any = exists|j: int| #[trigger] ready(j);
            let unread = datagrams && track.datagrams.len() > 0 && subscriber.datagram_index
                < track.datagram_offset + track.datagrams.len();
            let boundary = emit_boundary && track.final_sequence is Some;
            &&& any == (next matches Poll::Ready(Ok(Next::Group(_))))
            &&& !any && unread ==> (next matches Poll::Ready(Ok(Next::Datagram(i)))
                && track.datagram_offset + i == if subscriber.datagram_index
                <= track.datagram_offset {
                track.datagram_offset as int
            } else {
                subscriber.datagram_index as int
            })
            &&& !any && !unread && boundary ==> next == Poll::Ready(
                Ok::<Next, Error>(Next::Boundary(track.final_sequence->Some_0)),
            )
            &&& !any && !unread && !boundary ==> {
                let past = track.final_sequence matches Some(fin) && (fin
                    <= subscriber.next_sequence || fin <= subscriber.min_sequence);
                let held_back = subscriber.end_sequence matches Some(end) && (end
                    < subscriber.next_sequence || end < subscriber.min_sequence);
                next == if past && !held_back {
                    Poll::Ready(Ok::<Next, Error>(Next::Finished))
                } else {
                    Poll::Pending
                }
            }
        }),
{
    let floor = highest(subscriber.next_sequence, subscriber.min_sequence);
    let end = subscriber.end_sequence;
    next_group_skips_nothing(track, floor, end);
    let in_reach = |j: int|
        0 <= j < track.groups.len() && track.groups[j] is Some && floor
            <= track.groups[j]->Some_0.0.info.sequence && (end matches Some(end)
            ==> track.groups[j]->Some_0.0.info.sequence <= end);
    let ready = |j: int|
        {
            let sequence = track.groups[j]->Some_0.0.info.sequence;
            &&& 0 <= j < track.groups.len()
            &&& track.groups[j] is Some
            &&& sequence >= subscriber.next_sequence
            &&& sequence >= subscriber.min_sequence
            &&& subscriber.end_sequence matches Some(end) ==> sequence <= end
        };
    assert forall|j: int| #[trigger] ready(j) implies in_reach(j) by {}
    assert forall|j: int| #[trigger] in_reach(j) implies ready(j) by {}
}

/// A subscription to an aborted track fails with the track's error as soon as no group is ready.
pub proof fn aborted_track_ends_the_subscription(
    track: TrackModel,
    subscriber: Subscriber,
    datagrams: bool,
    emit_boundary: bool,
    err: Error,
)
    ensures
        next_of(track.aborted(err), subscriber, datagrams, emit_boundary) == Poll::Ready(
            Err::<Next, Error>(err),
        ),
{
    let floor = highest(subscriber.next_sequence, subscriber.min_sequence);
    next_group_skips_nothing(track.aborted(err), floor, subscriber.end_sequence);
}

/// What is handed out is what came next: the group in its slot, the datagram in its place, the
/// boundary, the end or the error. A datagram moves the cursor past itself, and past the groups
/// before it.
pub proof fn what_comes_next_is_handed_out(
    track: TrackModel,
    before: Subscriber,
    next: Poll<Result<Next, Error>>,
    now: Subscriber,
    r: Poll<Result<Recv, Error>>,
)
    requires
        received(track, next, r),
        moved(track, before, next, now),
    ensures
        next matches Poll::Ready(Ok(Next::Group(i))) ==> (r matches Poll::Ready(
            Ok(Recv::Group(reader)),
        ) && {
            &&& reader.info == track.groups[i]->Some_0.0.info
            &&& reader.index == 0
            &&& reader.info.sequence < u64::MAX ==> now.next_sequence == reader.info.sequence + 1
            &&& now.datagram_index == before.datagram_index
        }),
        next matches Poll::Ready(Ok(Next::Datagram(i))) ==> (r matches Poll::Ready(
            Ok(Recv::Datagram(datagram)),
        ) && {
            &&& datagram@ == track.datagrams[i].0
            &&& 0 <= track.datagram_offset + i < usize::MAX ==> now.datagram_index
                == track.datagram_offset + i + 1
            &&& now.next_sequence >= before.next_sequence
            &&& datagram.sequence < u64::MAX ==> now.next_sequence > datagram.sequence
            &&& now.next_sequence == before.next_sequence || datagram.sequence < u64::MAX
                && now.next_sequence == datagram.sequence + 1 || datagram.sequence == u64::MAX
        }),
        next matches Poll::Ready(Ok(Next::Boundary(group))) ==> r == Poll::Ready(
            Ok::<Recv, Error>(Recv::Boundary(group)),
        ) && now == before,
        next matches Poll::Ready(Ok(Next::Finished)) ==> r == Poll::Ready(
            Ok::<Recv, Error>(Recv::Finished),
        ) && now == before,
        next matches Poll::Ready(Err(err)) ==> r == Poll::Ready(Err::<Recv, Error>(err)) && now
            == before,
        next is Pending ==> r is Pending && now == before,
        now.min_sequence == before.min_sequence,
        now.end_sequence == before.end_sequence,
        now.index == before.index,
        now.id == before.id,
{
}

} // verus!
