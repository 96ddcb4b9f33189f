//! Bodies of responses that a stream did not take at once.
use std::collections::HashMap;
use vstd::prelude::*;
use vstd::slice::slice_subrange;

verus! {

broadcast use vstd::std_specs::hash::group_hash_axioms;

/// What is to be done with a stream.
#[derive(Debug)]
pub enum StreamStep {
    /// Send these bytes, and report how many were taken.
    Send(Vec<u8>),
    /// Close the sending side.
    Close,
    Nothing,
}

/// What is still to be sent, for each stream.
#[derive(Debug)]
pub struct ResponseQueue {
    pending: HashMap<u64, Vec<u8>>,
}

impl View for ResponseQueue {
    type V = Map<u64, Seq<u8>>;

    closed spec fn view(&self) -> Map<u64, Seq<u8>> {
        self.pending@.map_values(|data: Vec<u8>| data@)
    }
}

/// What is still to be sent after a stream took `sent` of `data`; all of it where the stream
/// took nothing because it failed.
pub open spec fn left_over(data: Seq<u8>, sent: usize) -> Seq<u8> {
    data.skip(sent as int)
}

impl ResponseQueue {
    pub fn new() -> (queue: Self)
        ensures
            queue@ == Map::<u64, Seq<u8>>::empty(),
    {
        let queue = ResponseQueue { pending: HashMap::new() };
        assert(queue@ =~= Map::<u64, Seq<u8>>::empty());
        queue
    }

    /// What to do with a body that is to be sent on a stream: an empty one only closes it.
    pub fn new_response(data: Vec<u8>) -> (step: StreamStep)
        ensures
            data@.len() == 0 ==> step is Close,
            data@.len() > 0 ==> (step matches StreamStep::Send(d) && d@ == data@),
    {
        if data.len() == 0 {
            StreamStep::Close
        } else {
            StreamStep::Send(data)
        }
    }

    /// Takes in how many bytes of a new body the stream took, or that it failed. What is left
    /// waits until the stream can be written to.
    pub fn response_sent(&mut self, stream: u64, data: Vec<u8>, sent: Option<usize>) -> (step:
        StreamStep)
        requires
            sent matches Some(n) ==> n <= data@.len(),
        ensures
            match sent {
                None => step is Nothing && final(self)@ == old(self)@,
                Some(n) => if n < data@.len() {
                    step is Nothing && final(self)@ == old(self)@.insert(
                        stream,
                        left_over(data@, n),
                    )
                } else {
                    step is Close && final(self)@ == old(self)@
                },
            },
    {
        match sent {
            None => StreamStep::Nothing,
            Some(n) => {
                if n < data.len() {
                    let rest = crate::bytes::copy(
                        slice_subrange(data.as_slice(), n, data.len()),
                    );
                    assert(rest@ =~= left_over(data@, n));
                    self.pending.insert(stream, rest);
                    assert(self@ =~= old(self)@.insert(stream, left_over(data@, n)));
                    StreamStep::Nothing
                } else {
                    StreamStep::Close
                }
            },
        }
    }

    /// What to send on a stream that can be written to.
    pub fn stream_writable(&self, stream: u64) -> (step: StreamStep)
        ensures
            if self@.contains_key(stream) {
                step matches StreamStep::Send(d) && d@ == self@[stream]
            } else {
                step is Nothing
            },
    {
        match self.pending.get(&stream) {
            Some(data) => StreamStep::Send(crate::bytes::copy(data.as_slice())),
            None => StreamStep::Nothing,
        }
    }

    /// Takes in how many of the waiting bytes the stream took, or that it failed.
    pub fn writable_sent(&mut self, stream: u64, sent: Option<usize>) -> (step: StreamStep)
        requires
            old(self)@.contains_key(stream),
            sent matches Some(n) ==> n <= old(self)@[stream].len(),
        ensures
            match sent {
                None => step is Nothing && final(self)@ == old(self)@,
                Some(n) => if n < old(self)@[stream].len() {
                    step is Nothing && final(self)@ == old(self)@.insert(
                        stream,
                        left_over(old(self)@[stream], n),
                    )
                } else {
                    step is Close && final(self)@ == old(self)@.remove(stream)
                },
            },
    {
        match sent {
            None => StreamStep::Nothing,
            Some(n) => match self.pending.remove(&stream) {
                Some(data) => {
                    if n < data.len() {
                        let rest = crate::bytes::copy(
                            slice_subrange(data.as_slice(), n, data.len()),
                        );
                        assert(rest@ =~= left_over(old(self)@[stream], n));
                        self.pending.insert(stream, rest);
                        assert(self@ =~= old(self)@.insert(
                            stream,
                            left_over(old(self)@[stream], n),
                        ));
                        StreamStep::Nothing
                    } else {
                        assert(self@ =~= old(self)@.remove(stream));
                        StreamStep::Close
                    }
                },
                None => StreamStep::Nothing,
            },
        }
    }
}

/// Nothing of a body is lost or sent twice: what the stream took and what is left are the body.
pub proof fn law_no_loss(data: Seq<u8>, sent: usize)
    requires
        sent <= data.len(),
    ensures
        data.take(sent as int) + left_over(data, sent) == data,
        left_over(data, sent).len() == data.len() - sent,
{
    assert(data.take(sent as int) + left_over(data, sent) =~= data);
}

/// A body goes out in pieces: what the stream took of it and what waits make it up, the stream is
/// closed once nothing waits, and other streams are not touched. A stream that failed is left
/// alone.
pub proof fn law_response_calls(
    data: Vec<u8>,
    first: StreamStep,
    queue: &mut ResponseQueue,
    stream: u64,
    sent: Option<usize>,
    step: StreamStep,
    other: u64,
    fresh: ResponseQueue,
)
    requires
        call_ensures(ResponseQueue::new, (), fresh),
        call_ensures(ResponseQueue::new_response, (data,), first),
        sent matches Some(n) ==> n <= data@.len(),
        call_ensures(ResponseQueue::response_sent, (queue, stream, data, sent), step),
        other != stream,
    ensures
        fresh@.dom() == Set::<u64>::empty(),
        first is Close <==> data@.len() == 0,
        first matches StreamStep::Send(d) ==> d@ == data@,
        first !is Nothing,
        step !is Send,
        step is Close <==> sent == Some(data@.len() as usize) && data@.len() == sent->0,
        sent matches Some(n) ==> n < data@.len() ==> final(queue)@.contains_key(stream)
            && data@.take(n as int) + final(queue)@[stream] == data@,
        sent is None || step is Close ==> final(queue)@ == old(queue)@,
        final(queue)@.contains_key(other) <==> old(queue)@.contains_key(other),
        old(queue)@.contains_key(other) ==> final(queue)@[other] == old(queue)@[other],
{
    if let Some(n) = sent {
        law_no_loss(data@, n);
    }
}

/// A stream that can be written to gets what waits for it, and goes on waiting with what it did
/// not take; once it took all, it is closed and nothing waits for it.
pub proof fn law_waiting_calls(
    queue: &mut ResponseQueue,
    stream: u64,
    sent: Option<usize>,
    step: StreamStep,
    asked: ResponseQueue,
    writable: u64,
    next: StreamStep,
    other: u64,
)
    requires
        call_ensures(ResponseQueue::stream_writable, (&asked, writable), next),
        old(queue)@.contains_key(stream),
        sent matches Some(n) ==> n <= old(queue)@[stream].len(),
        call_ensures(ResponseQueue::writable_sent, (queue, stream, sent), step),
        other != stream,
    ensures
        next is Send <==> asked@.contains_key(writable),
        next matches StreamStep::Send(d) ==> d@ == asked@[writable],
        next !is Close,
        step !is Send,
        step is Close <==> (sent matches Some(n) && n == old(queue)@[stream].len()),
        step is Close <==> !final(queue)@.contains_key(stream),
        sent is None ==> final(queue)@ == old(queue)@,
        sent matches Some(n) ==> n < old(queue)@[stream].len() ==> old(queue)@[stream].take(
            n as int,
        ) + final(queue)@[stream] == old(queue)@[stream],
        final(queue)@.contains_key(other) <==> old(queue)@.contains_key(other),
        old(queue)@.contains_key(other) ==> final(queue)@[other] == old(queue)@[other],
{
    if let Some(n) = sent {
        law_no_loss(old(queue)@[stream], n);
    }
}

}
