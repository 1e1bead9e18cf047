use vstd::prelude::*;

use crate::record::LogRecord;

verus! {

/// A first-in first-out queue that refuses records once `capacity` are
/// waiting: under backpressure records are dropped, never waited for.
#[derive(Debug)]
pub struct BoundedQueue {
    pub capacity: usize,
    pub items: Vec<LogRecord>,
}

impl BoundedQueue {
    pub fn new(capacity: usize) -> (r: BoundedQueue)
        ensures
            r.capacity == capacity,
            r.items@.len() == 0,
    {
        BoundedQueue { capacity, items: Vec::new() }
    }

    pub fn len(&self) -> (r: usize)
        ensures
            r == self.items@.len(),
    {
        self.items.len()
    }

    /// Enqueues `record` when there is room; returns whether it was kept.
    pub fn try_push(&mut self, record: LogRecord) -> (r: bool)
        ensures
            final(self).capacity == old(self).capacity,
            r == (old(self).items@.len() < old(self).capacity),
            r ==> final(self).items@ == old(self).items@.push(record),
            !r ==> final(self).items@ == old(self).items@,
    {
        if self.items.len() < self.capacity {
            self.items.push(record);
            true
        } else {
            false
        }
    }

    /// Takes the oldest waiting record.
    pub fn pop(&mut self) -> (r: Option<LogRecord>)
        ensures
            final(self).capacity == old(self).capacity,
            old(self).items@.len() == 0 ==> r is None && final(self).items@ == old(self).items@,
            old(self).items@.len() > 0 ==> r == Some(old(self).items@[0]) && final(self).items@
                == old(self).items@.drop_first(),
    {
        if self.items.len() == 0 {
            None
        } else {
            let r = self.items.remove(0);
            assert(self.items@ =~= old(self).items@.drop_first());
            Some(r)
        }
    }
}

/// A batched handler's settings that cannot work.
#[derive(Debug, Clone, Copy, PartialEq, Eq, Structural)]
pub enum BatchConfigError {
    /// The queue must hold at least one record.
    ZeroCapacity,
    /// A batch must hold at least one record.
    ZeroBatchSize,
}

/// Checks a batched handler's queue capacity and batch size.
pub fn validate_batching(capacity: usize, batch_size: usize) -> (r: Result<(), BatchConfigError>)
    ensures
        capacity == 0 ==> r == Err::<(), BatchConfigError>(BatchConfigError::ZeroCapacity),
        capacity > 0 && batch_size == 0 ==> r == Err::<(), BatchConfigError>(
            BatchConfigError::ZeroBatchSize,
        ),
        capacity > 0 && batch_size > 0 ==> r is Ok,
{
    if capacity == 0 {
        Err(BatchConfigError::ZeroCapacity)
    } else if batch_size == 0 {
        Err(BatchConfigError::ZeroBatchSize)
    } else {
        Ok(())
    }
}

/// What the sending loop of a batched handler learns at each turn.
#[derive(Debug)]
pub enum WorkerEvent {
    /// A record came off the queue.
    Received(LogRecord),
    /// No record came within the wait.
    TimedOut,
    /// Every sender is gone.
    Disconnected,
}

/// What the sending loop is to do next.
#[derive(Debug)]
pub enum WorkerAction {
    /// Keep waiting.
    Wait,
    /// Send this batch, then keep waiting.
    Send(Vec<LogRecord>),
    /// Send this batch, then stop.
    SendAndExit(Vec<LogRecord>),
    /// Stop.
    Exit,
}

/// Batching state of the sending loop.
#[derive(Debug)]
pub struct BatchWorker {
    pub buffer: Vec<LogRecord>,
    pub batch_size: usize,
    pub flush_interval_ms: u64,
    /// Time of the last send, in milliseconds on the loop's clock.
    pub last_send_ms: u64,
    pub shutdown: bool,
}

/// Whether the flush interval has passed since the last send.
pub open spec fn interval_passed(w: BatchWorker, now: u64) -> bool {
    now >= w.last_send_ms && now - w.last_send_ms >= w.flush_interval_ms
}

impl BatchWorker {
    pub fn new(batch_size: usize, flush_interval_ms: u64, now_ms: u64) -> (r: BatchWorker)
        ensures
            r.buffer@.len() == 0,
            r.batch_size == batch_size,
            r.flush_interval_ms == flush_interval_ms,
            r.last_send_ms == now_ms,
            !r.shutdown,
    {
        BatchWorker { buffer: Vec::new(), batch_size, flush_interval_ms, last_send_ms: now_ms, shutdown: false }
    }

    /// Asks the loop to drain what it holds and stop.
    pub fn request_shutdown(&mut self)
        ensures
            final(self).shutdown,
            final(self).buffer == old(self).buffer,
            final(self).batch_size == old(self).batch_size,
            final(self).flush_interval_ms == old(self).flush_interval_ms,
            final(self).last_send_ms == old(self).last_send_ms,
    {
        self.shutdown = true;
    }

    /// Whether the loop should stop before waiting again: shutdown was asked
    /// for and nothing is left to send.
    pub fn should_exit(&self) -> (r: bool)
        ensures
            r == (self.shutdown && self.buffer@.len() == 0),
    {
        self.shutdown && self.buffer.len() == 0
    }

    fn take_buffer(&mut self) -> (r: Vec<LogRecord>)
        ensures
            r@ == old(self).buffer@,
            final(self).buffer@.len() == 0,
            final(self).batch_size == old(self).batch_size,
            final(self).flush_interval_ms == old(self).flush_interval_ms,
            final(self).last_send_ms == old(self).last_send_ms,
            final(self).shutdown == old(self).shutdown,
    {
        let mut out: Vec<LogRecord> = Vec::new();
        core::mem::swap(&mut out, &mut self.buffer);
        out
    }

    /// One turn of the loop. A received record joins the batch, which goes
    /// out once it reaches `batch_size` or a flush was asked for. On a quiet
    /// wait a non-empty batch goes out when the interval has passed, a
    /// flush was asked for, or shutdown is under way. When the senders are
    /// gone what is left goes out and the loop stops.
    pub fn step(&mut self, event: WorkerEvent, flush_requested: bool, now_ms: u64) -> (r: WorkerAction)
        ensures
            final(self).batch_size == old(self).batch_size,
            final(self).flush_interval_ms == old(self).flush_interval_ms,
            final(self).shutdown == old(self).shutdown,
            match event {
                WorkerEvent::Received(rec) => {
                    let b = old(self).buffer@.push(rec);
                    if b.len() >= old(self).batch_size || flush_requested {
                        r matches WorkerAction::Send(v) && v@ == b && final(self).buffer@.len() == 0
                            && final(self).last_send_ms == now_ms
                    } else {
                        r is Wait && final(self).buffer@ == b && final(self).last_send_ms
                            == old(self).last_send_ms
                    }
                },
                WorkerEvent::TimedOut => {
                    if old(self).buffer@.len() > 0 && (interval_passed(*old(self), now_ms)
                        || flush_requested || old(self).shutdown) {
                        r matches WorkerAction::Send(v) && v@ == old(self).buffer@
                            && final(self).buffer@.len() == 0 && final(self).last_send_ms == now_ms
                    } else {
                        r is Wait && final(self).buffer@ == old(self).buffer@
                            && final(self).last_send_ms == old(self).last_send_ms
                    }
                },
                WorkerEvent::Disconnected => {
                    &&& final(self).buffer@.len() == 0
                    &&& final(self).last_send_ms == old(self).last_send_ms
                    &&& old(self).buffer@.len() > 0 ==> (r matches WorkerAction::SendAndExit(v) && v@
                        == old(self).buffer@)
                    &&& old(self).buffer@.len() == 0 ==> r is Exit
                },
            },
    {
        match event {
            WorkerEvent::Received(rec) => {
                self.buffer.push(rec);
                if self.buffer.len() >= self.batch_size || flush_requested {
                    let batch = self.take_buffer();
                    self.last_send_ms = now_ms;
                    WorkerAction::Send(batch)
                } else {
                    WorkerAction::Wait
                }
            },
            WorkerEvent::TimedOut => {
                let due = now_ms >= self.last_send_ms && now_ms - self.last_send_ms
                    >= self.flush_interval_ms;
                if self.buffer.len() > 0 && (due || flush_requested || self.shutdown) {
                    let batch = self.take_buffer();
                    self.last_send_ms = now_ms;
                    WorkerAction::Send(batch)
                } else {
                    WorkerAction::Wait
                }
            },
            WorkerEvent::Disconnected => {
                if self.buffer.len() > 0 {
                    WorkerAction::SendAndExit(self.take_buffer())
                } else {
                    WorkerAction::Exit
                }
            },
        }
    }
}

} // verus!
