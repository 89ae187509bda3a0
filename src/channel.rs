//! The control channel: a non-blocking queue from a control thread into the
//! signal path, whose receiving end keeps the latest value it has seen.
use vstd::prelude::*;

verus! {

#[verifier::external_type_specification]
#[verifier::external_body]
#[verifier::reject_recursive_types(T)]
pub struct ExSender<T>(crossbeam_channel::Sender<T>);

#[verifier::external_type_specification]
#[verifier::external_body]
#[verifier::reject_recursive_types(T)]
pub struct ExReceiver<T>(crossbeam_channel::Receiver<T>);

#[verifier::external_type_specification]
#[verifier::external_body]
pub struct ExTryRecvError(crossbeam_channel::TryRecvError);

/// Relies on `crossbeam_channel::unbounded`: a fresh sender and receiver of
/// one queue.
#[verifier::external_body]
fn open_queue<T>() -> (crossbeam_channel::Sender<T>, crossbeam_channel::Receiver<T>) {
    crossbeam_channel::unbounded()
}

/// Relies on `crossbeam_channel::Sender::try_send`, which never blocks:
/// true when the message was queued, false when the queue was full or
/// disconnected. Which of the two happens depends on the other threads.
#[verifier::external_body]
fn try_push<T>(tx: &crossbeam_channel::Sender<T>, value: T) -> bool {
    tx.try_send(value).is_ok()
}

/// Relies on `crossbeam_channel::Receiver::try_recv`, which never blocks:
/// the oldest queued message, or nothing when the queue is empty or
/// disconnected. What is queued depends on the other threads.
#[verifier::external_body]
fn try_pull<T>(rx: &crossbeam_channel::Receiver<T>) -> Option<T> {
    rx.try_recv().ok()
}

/// Relies on `crossbeam_channel::Receiver::len`: the number of messages
/// queued at the moment of the call.
#[verifier::external_body]
fn queued<T>(rx: &crossbeam_channel::Receiver<T>) -> usize {
    rx.len()
}

/// Failure of a channel operation.
#[derive(Debug)]
pub enum ChannelError {
    /// The queue did not take the message.
    SendError,
    /// The queue had nothing to hand out.
    ReceiveError(crossbeam_channel::TryRecvError),
}

/// The result of a send, given whether the queue took the message.
pub fn send_outcome(accepted: bool) -> (r: Result<(), ChannelError>)
    ensures
        accepted ==> r == Ok::<(), ChannelError>(()),
        !accepted ==> r == Err::<(), ChannelError>(ChannelError::SendError),
{
    if accepted {
        Ok(())
    } else {
        Err(ChannelError::SendError)
    }
}

/// Records a message that may have arrived and outputs the latest value:
/// the new message if there is one, else the one held before.
pub fn latest<T: Copy>(last: &mut T, received: Option<T>) -> (out: T)
    ensures
        *final(last) == (match received {
            Some(v) => v,
            None => *old(last),
        }),
        out == *final(last),
{
    if let Some(v) = received {
        *last = v;
    }
    *last
}

/// Sends `input` into the queue without blocking; a queue that does not take
/// it gives `SendError`.
pub fn tx<T>(sender: &crossbeam_channel::Sender<T>, input: T) -> (r: Result<(), ChannelError>)
    ensures
        r == Ok::<(), ChannelError>(()) || r == Err::<(), ChannelError>(ChannelError::SendError),
{
    let accepted = try_push(sender, input);
    send_outcome(accepted)
}

/// Appends a message that may have arrived to `values` and makes it the
/// latest value; nothing changes when no message arrived. Returns whether a
/// message arrived.
pub fn absorb<T: Copy>(values: &mut Vec<T>, last: &mut T, received: Option<T>) -> (taken: bool)
    ensures
        taken == received is Some,
        received matches Some(v) ==> final(values)@ == old(values)@.push(v) && *final(last) == v,
        received is None ==> final(values)@ == old(values)@ && *final(last) == *old(last),
{
    match received {
        Some(v) => {
            values.push(v);
            *last = v;
            true
        },
        None => false,
    }
}

/// Drains the messages queued when it starts, without blocking, and outputs
/// the latest value seen: the newest message taken, or `last` when nothing
/// arrived.
pub fn rx<T: Copy>(receiver: &crossbeam_channel::Receiver<T>, last: &mut T) -> (out: T)
    ensures
        out == *final(last),
{
    let n = queued(receiver);
    let mut i: usize = 0;
    while i < n
        invariant
            i <= n,
        decreases n - i,
    {
        let received = try_pull(receiver);
        if received.is_none() {
            break;
        }
        latest(last, received);
        i = i + 1;
    }
    *last
}

/// The sending end of a control channel.
#[verifier::reject_recursive_types(T)]
pub struct Tx<T> {
    tx: crossbeam_channel::Sender<T>,
}

/// The receiving end of a control channel, with the latest value seen.
#[verifier::reject_recursive_types(T)]
pub struct Rx<T> {
    rx: crossbeam_channel::Receiver<T>,
    last: T,
}

/// A connected sender and receiver; the receiver outputs `init` until a
/// message arrives.
pub fn channel<T: Copy>(init: T) -> (r: (Tx<T>, Rx<T>))
    ensures
        r.1.last_value() == init,
{
    let (tx, rx) = open_queue();
    (Tx { tx }, Rx { rx, last: init })
}

impl<T> Tx<T> {
    /// Sends `value` without blocking; a queue that does not take it gives
    /// `SendError`.
    pub fn send(&self, value: T) -> (r: Result<(), ChannelError>)
        ensures
            r == Ok::<(), ChannelError>(()) || r == Err::<(), ChannelError>(
                ChannelError::SendError,
            ),
    {
        tx(&self.tx, value)
    }
}

impl<T: Copy> Rx<T> {
    /// The latest value seen.
    pub closed spec fn last_value(&self) -> T {
        self.last
    }

    /// Drains the messages queued when it starts, without blocking, and
    /// returns the latest value seen.
    pub fn recv(&mut self) -> (out: T)
        ensures
            out == final(self).last_value(),
    {
        rx(&self.rx, &mut self.last)
    }

    /// The latest value held before the call, followed by the messages taken
    /// from the queue, oldest first; the last of them becomes the latest
    /// value. It takes no more messages than were queued when it started, so
    /// a producer that keeps sending cannot hold it up.
    pub fn recv_all(&mut self) -> (values: Vec<T>)
        ensures
            values@.len() >= 1,
            values@[0] == old(self).last_value(),
            final(self).last_value() == values@.last(),
    {
        let mut values: Vec<T> = Vec::new();
        values.push(self.last);
        let n = queued(&self.rx);
        let mut i: usize = 0;
        while i < n
            invariant
                i <= n,
                values@.len() >= 1,
                values@[0] == old(self).last,
                self.last == values@.last(),
            decreases n - i,
        {
            let received = try_pull(&self.rx);
            if !absorb(&mut values, &mut self.last, received) {
                break;
            }
            i = i + 1;
        }
        values
    }
}

} // verus!
