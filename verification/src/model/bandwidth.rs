//! Bandwidth estimation, split into a [`Producer`] and a [`Consumer`].
//!
//! A [`Producer`] holds the current estimated bitrate. A [`Consumer`] remembers the
//! estimate it saw last, and tells whether it has changed since.

use vstd::prelude::*;

use crate::error::Error;
use crate::poll::Poll;

verus! {

/// Produces bandwidth estimates.
pub struct Producer {
    /// The current estimate, in bits per second.
    pub bitrate: Option<u64>,
    /// Why the producer was closed, if it was aborted.
    pub abort: Option<Error>,
    /// Whether no further estimate can come.
    pub closed: bool,
    /// The number of live consumers.
    pub consumers: u64,
}

impl Producer {
    /// Create a fresh producer with no current estimate.
    pub fn new() -> (r: Producer)
        ensures
            r.bitrate is None,
            r.abort is None,
            !r.closed,
            r.consumers == 0,
    {
        Producer { bitrate: None, abort: None, closed: false, consumers: 0 }
    }

    /// Why the producer is closed.
    pub open spec fn spec_close_error(&self) -> Error {
        match self.abort {
            Some(err) => err,
            None => Error::Dropped,
        }
    }

    /// Why the producer is closed.
    pub fn close_error(&self) -> (r: Error)
        ensures
            r == self.spec_close_error(),
    {
        match &self.abort {
            Some(err) => err.clone(),
            None => Error::Dropped,
        }
    }

    /// Set the current bandwidth estimate in bits per second.
    pub fn set(&mut self, bitrate: Option<u64>) -> (r: Result<(), Error>)
        ensures
            r is Ok <==> !old(self).closed,
            r matches Err(e) ==> e == old(self).spec_close_error() && *final(self) == *old(self),
            r is Ok ==> *final(self) == (Producer { bitrate, ..*old(self) }),
    {
        if self.closed {
            return Err(self.close_error());
        }
        self.bitrate = bitrate;
        Ok(())
    }

    /// Create a new consumer for the bandwidth estimate.
    pub fn consume(&mut self) -> (r: Consumer)
        requires
            old(self).consumers < u64::MAX,
        ensures
            r.last is None,
            *final(self) == (Producer {
                consumers: (old(self).consumers + 1) as u64,
                ..*old(self)
            }),
    {
        self.consumers += 1;
        Consumer { last: None }
    }

    /// Forget a consumer that went away.
    pub fn release(&mut self, consumer: Consumer)
        requires
            old(self).consumers > 0,
        ensures
            *final(self) == (Producer {
                consumers: (old(self).consumers - 1) as u64,
                ..*old(self)
            }),
    {
        self.consumers -= 1;
    }

    /// Close the producer with an error.
    pub fn abort(&mut self, err: Error) -> (r: Result<(), Error>)
        ensures
            r is Ok <==> !old(self).closed,
            r matches Err(e) ==> e == old(self).spec_close_error() && *final(self) == *old(self),
            r is Ok ==> *final(self) == (Producer { abort: Some(err), closed: true, ..*old(self) }),
    {
        if self.closed {
            return Err(self.close_error());
        }
        self.abort = Some(err);
        self.closed = true;
        Ok(())
    }

    /// Close the producer because its last handle went away.
    pub fn close(&mut self)
        ensures
            *final(self) == (Producer { closed: true, ..*old(self) }),
    {
        self.closed = true;
    }

    /// Ready once the producer is closed.
    pub fn poll_closed(&self) -> (r: Poll<()>)
        ensures
            r == if self.closed {
                Poll::Ready(())
            } else {
                Poll::Pending
            },
    {
        if self.closed {
            Poll::Ready(())
        } else {
            Poll::Pending
        }
    }

    /// Ready once there are no active consumers. Errors if the producer closes first.
    pub fn poll_unused(&self) -> (r: Poll<Result<(), Error>>)
        ensures
            r == poll_demand(self, false),
    {
        if self.closed {
            return Poll::Ready(Err(self.close_error()));
        }
        if self.consumers == 0 {
            Poll::Ready(Ok(()))
        } else {
            Poll::Pending
        }
    }

    /// Ready once at least one active consumer exists. Errors if the producer closes first.
    pub fn poll_used(&self) -> (r: Poll<Result<(), Error>>)
        ensures
            r == poll_demand(self, true),
    {
        if self.closed {
            return Poll::Ready(Err(self.close_error()));
        }
        if self.consumers > 0 {
            Poll::Ready(Ok(()))
        } else {
            Poll::Pending
        }
    }
}

/// Whether the producer is used as wanted, or closed.
pub open spec fn poll_demand(producer: &Producer, used: bool) -> Poll<Result<(), Error>> {
    if producer.closed {
        Poll::Ready(Err(producer.spec_close_error()))
    } else if (producer.consumers > 0) == used {
        Poll::Ready(Ok(()))
    } else {
        Poll::Pending
    }
}

/// Consumes bandwidth estimates.
pub struct Consumer {
    /// The estimate seen last.
    pub last: Option<u64>,
}

impl Consumer {
    /// Get the current bandwidth estimate.
    pub fn peek(&self, producer: &Producer) -> (r: Option<u64>)
        ensures
            r == producer.bitrate,
    {
        producer.bitrate
    }

    /// Poll for a bandwidth change.
    ///
    /// `Ok(None)` means the estimate is unavailable *for now*: the backend
    /// stopped reporting one, or the handle spans reconnects and is between
    /// sessions. `Err` means the producer is gone and no further change will ever
    /// arrive. They're distinct because a caller holds its current rate for the
    /// first and stops watching for the second.
    pub fn poll_changed(&mut self, producer: &Producer) -> (r: Poll<Result<Option<u64>, Error>>)
        ensures
            r == if producer.bitrate != old(self).last {
                Poll::Ready(Ok(producer.bitrate))
            } else if producer.closed {
                Poll::Ready(Err(producer.spec_close_error()))
            } else {
                Poll::Pending
            },
            final(self).last == producer.bitrate,
    {
        let changed: bool = match (producer.bitrate, self.last) {
            (Some(a), Some(b)) => a != b,
            (None, None) => false,
            _ => true,
        };
        if changed {
            self.last = producer.bitrate;
            return Poll::Ready(Ok(producer.bitrate));
        }
        if producer.closed {
            return Poll::Ready(Err(producer.close_error()));
        }
        Poll::Pending
    }
}

/// Waiting for interest, or for its end, is over exactly when it is there, or the estimate is
/// closed.
pub proof fn interest_is_counted(producer: Producer)
    ensures
        producer.closed ==> ({
            let why = match producer.abort {
                Some(err) => err,
                None => Error::Dropped,
            };
            &&& poll_demand(&producer, true) == Poll::Ready(Err::<(), Error>(why))
            &&& poll_demand(&producer, false) == Poll::Ready(Err::<(), Error>(why))
        }),
        !producer.closed ==> ({
            let used = poll_demand(&producer, true);
            let unused = poll_demand(&producer, false);
            &&& used == Poll::Ready(Ok::<(), Error>(())) <==> producer.consumers > 0
            &&& unused == Poll::Ready(Ok::<(), Error>(())) <==> producer.consumers == 0
            &&& used is Pending <==> unused is Ready
        }),
{
}

} // verus!
