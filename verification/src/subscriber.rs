//! The subscriber loop's core: turning each raw broker message into a typed
//! envelope, in receipt order, without ever letting one bad message stop
//! the handling of the rest.
//!
//! The loop itself — awaiting messages and calling the handler — is plain
//! asynchronous plumbing around `decode_stream_message`: for each delivered
//! message, in order, decode it and hand the result to the handler; a
//! decode failure or a handler failure is reported and the loop goes on.

use crate::envelope::{decode_event, spec_decode_event, Event};
use crate::errors::InternalError;
use crate::settings::NatsClientSettings;
use vstd::prelude::*;

verus! {

/// Configuration of one subscription: where to connect and the single
/// subject subscribed to.
pub struct NatsSubscriberConfig {
    pub client_settings: NatsClientSettings,
    pub subject: String,
    pub mailbox_size: usize,
}

/// One raw message as delivered by the broker.
pub struct RawMessage {
    pub subject: String,
    pub data: Vec<u8>,
}

/// What the subscriber hands to the caller's handler.
pub struct NatsStreamMessage {
    pub msg: RawMessage,
}

/// One step of the subscriber loop: decode a delivered message into an
/// envelope, replacing a null or empty trace id with `fresh`.  Succeeds
/// exactly on a whole canonical envelope; every other message yields a
/// `SerdeError` — an error, never a panic, so the loop always survives it.
pub fn decode_stream_message(msg: &NatsStreamMessage, fresh: String) -> (r: Result<
    Event,
    InternalError,
>)
    ensures
        match r {
            Ok(e) => spec_decode_event(msg.msg.data@, fresh@) == Some(e@),
            Err(err) => spec_decode_event(msg.msg.data@, fresh@) is None && err is SerdeError,
        },
{
    decode_event(&msg.msg.data, fresh)
}

/// What decoding yields for every message of a batch, in receipt order.
pub open spec fn spec_process(msgs: Seq<Seq<u8>>, fresh: Seq<char>) -> Seq<
    Option<crate::envelope::EventV>,
> {
    msgs.map_values(|m: Seq<u8>| spec_decode_event(m, fresh))
}

/// Decode failures are isolated: what one message decodes to depends on
/// that message alone, so replacing any other message of the batch — for
/// instance by a malformed one — never changes it.  A malformed message
/// therefore never stops the delivery of the well-formed ones around it.
pub proof fn lemma_decode_isolation(
    msgs1: Seq<Seq<u8>>,
    msgs2: Seq<Seq<u8>>,
    fresh: Seq<char>,
    j: int,
)
    requires
        msgs1.len() == msgs2.len(),
        0 <= j < msgs1.len(),
        msgs1[j] == msgs2[j],
    ensures
        spec_process(msgs1, fresh)[j] == spec_process(msgs2, fresh)[j],
{
}

/// Decodes a whole batch of delivered messages, one result per message in
/// receipt order, each message decoded with its own fresh trace id.
pub fn process_messages(msgs: &Vec<NatsStreamMessage>, fresh_ids: &Vec<String>) -> (r: Vec<
    Result<Event, InternalError>,
>)
    requires
        fresh_ids@.len() == msgs@.len(),
    ensures
        r@.len() == msgs@.len(),
        forall|i: int|
            0 <= i < msgs@.len() ==> (match #[trigger] r@[i] {
                Ok(e) => spec_decode_event(msgs@[i].msg.data@, fresh_ids@[i]@) == Some(e@),
                Err(err) => spec_decode_event(msgs@[i].msg.data@, fresh_ids@[i]@) is None
                    && err is SerdeError,
            }),
{
    let mut out: Vec<Result<Event, InternalError>> = Vec::new();
    let mut k: usize = 0;
    while k < msgs.len()
        invariant
            0 <= k <= msgs@.len(),
            fresh_ids@.len() == msgs@.len(),
            out@.len() == k,
            forall|i: int|
                0 <= i < k ==> (match #[trigger] out@[i] {
                    Ok(e) => spec_decode_event(msgs@[i].msg.data@, fresh_ids@[i]@) == Some(e@),
                    Err(err) => spec_decode_event(msgs@[i].msg.data@, fresh_ids@[i]@) is None
                        && err is SerdeError,
                }),
        decreases msgs@.len() - k,
    {
        let fresh = fresh_ids[k].clone();
        let r = decode_stream_message(&msgs[k], fresh);
        out.push(r);
        k += 1;
    }
    out
}

} // verus!
