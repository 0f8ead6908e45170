use vstd::prelude::*;
use vstd::utf8::{decode_utf8, valid_utf8};

use crate::error::{error_code, status_code, to_status, Error};
use crate::object::{Kv, Value};

verus! {

/// What a topic subscription delivers: a structured map or raw bytes. Both
/// borrow from the payload that the channel handed to the callback.
#[derive(Debug, Clone, Copy)]
pub enum SubscribeToTopicPayload<'a> {
    Json(&'a [Kv]),
    Binary(&'a [u8]),
}

/// An error that the remote side of a call reported.
#[derive(Debug, Clone)]
pub struct IpcError {
    pub error_code: String,
    pub message: String,
}

/// Relies on std::str::from_utf8: it accepts exactly the well-formed UTF-8
/// byte strings, and the text it returns holds the characters they encode.
#[verifier::external_body]
fn utf8_text<'a>(b: &'a [u8]) -> (r: Option<&'a str>)
    ensures
        r is Some <==> valid_utf8(b@),
        r matches Some(s) ==> s@ == decode_utf8(b@),
{
    std::str::from_utf8(b).ok()
}

/// Reads bytes that are meant to be text. Bytes that are not well-formed
/// UTF-8 give `Utf8`. The text borrows the bytes.
pub fn decode_text<'a>(bytes: &'a [u8]) -> (r: Result<&'a str, Error>)
    ensures
        r is Ok <==> valid_utf8(bytes@),
        r matches Ok(s) ==> s@ == decode_utf8(bytes@),
        r is Err ==> r == Err::<&'a str, Error>(Error::Utf8),
{
    match utf8_text(bytes) {
        Some(s) => Ok(s),
        None => Err(Error::Utf8),
    }
}

/// `p` is what the payload `v` is, by kind: the entries of a map, or the
/// bytes of a buffer.
pub open spec fn sorted_as(v: Value, p: SubscribeToTopicPayload) -> bool {
    match v {
        Value::KvMap(pairs) => p matches SubscribeToTopicPayload::Json(q) && q@ == pairs@,
        Value::Buf(b) => p matches SubscribeToTopicPayload::Binary(q) && q@ == b@,
        _ => false,
    }
}

/// Sorts a topic payload by kind: a map is structured data, a byte buffer
/// raw data, and any other kind is no payload at all.
pub fn decode_topic_payload<'a>(payload: &'a Value) -> (r: Option<SubscribeToTopicPayload<'a>>)
    ensures
        r is Some <==> (payload is KvMap || payload is Buf),
        r matches Some(p) ==> sorted_as(*payload, p),
{
    match payload {
        Value::KvMap(pairs) => Some(SubscribeToTopicPayload::Json(pairs.as_slice())),
        Value::Buf(b) => Some(SubscribeToTopicPayload::Binary(b.as_slice())),
        _ => None,
    }
}

/// An event of a topic subscription as the callback receives it: the topic
/// as text and the payload by kind. An event whose topic is not UTF-8, or
/// whose payload is neither a map nor bytes, is skipped.
pub fn topic_event<'a>(topic: &[u8], payload: &'a Value) -> (r: Option<
    (String, SubscribeToTopicPayload<'a>),
>)
    ensures
        r is Some <==> valid_utf8(topic@) && (payload is KvMap || payload is Buf),
        r matches Some((t, p)) ==> t@ == decode_utf8(topic@) && sorted_as(*payload, p),
{
    let kind = decode_topic_payload(payload);
    match kind {
        Some(p) => match utf8_text(topic) {
            Some(t) => Some((t.to_owned(), p)),
            None => None,
        },
        None => None,
    }
}

/// Every segment of a key path is a byte buffer holding UTF-8 text.
pub open spec fn is_text_path(items: Seq<Value>) -> bool {
    forall|i: int|
        0 <= i < items.len() ==> (#[trigger] items[i]) is Buf && valid_utf8(items[i]->Buf_0@)
}

/// Reads the segments of a key path as text: `Invalid` where a segment is not
/// a byte buffer, `Utf8` where one is not UTF-8.
pub fn decode_key_path(items: &[Value]) -> (r: Result<Vec<String>, Error>)
    ensures
        r is Ok <==> is_text_path(items@),
        r matches Ok(p) ==> p@.len() == items@.len() && forall|i: int|
            0 <= i < items@.len() ==> (#[trigger] p@[i])@ == decode_utf8(items@[i]->Buf_0@),
{
    let mut out: Vec<String> = Vec::with_capacity(items.len());
    let mut i: usize = 0;
    while i < items.len()
        invariant
            i <= items@.len(),
            out@.len() == i,
            is_text_path(items@.subrange(0, i as int)),
            forall|j: int| 0 <= j < i ==> (#[trigger] out@[j])@ == decode_utf8(items@[j]->Buf_0@),
        decreases items@.len() - i,
    {
        proof {
            assert(items@.subrange(0, i as int + 1)[i as int] == items@[i as int]);
        }
        match &items[i] {
            Value::Buf(b) => match utf8_text(b.as_slice()) {
                Some(t) => out.push(t.to_owned()),
                None => {
                    proof {
                        assert(!is_text_path(items@) && items@[i as int] is Buf);
                    }
                    return Err(Error::Utf8);
                },
            },
            _ => {
                proof {
                    assert(!(items@[i as int] is Buf));
                }
                return Err(Error::Invalid);
            },
        }
        i = i + 1;
        proof {
            assert forall|j: int| 0 <= j < i implies (#[trigger] items@.subrange(0, i as int)[j]) is Buf
                && valid_utf8(items@.subrange(0, i as int)[j]->Buf_0@) by {
                if j < i - 1 {
                    assert(items@.subrange(0, i as int)[j] == items@.subrange(0, i - 1)[j]);
                }
            }
        }
    }
    proof {
        assert(items@.subrange(0, i as int) =~= items@);
    }
    Ok(out)
}

/// An event of a configuration subscription as the callback receives it: the
/// component's name and the segments of the key path that changed, as text.
/// An event that does not read as text is skipped.
pub fn config_update_event(component: &[u8], key_path: &[Value]) -> (r: Option<(String, Vec<String>)>)
    ensures
        r is Some <==> valid_utf8(component@) && is_text_path(key_path@),
        r matches Some((c, p)) ==> {
            &&& c@ == decode_utf8(component@)
            &&& p@.len() == key_path@.len()
            &&& forall|i: int|
                0 <= i < key_path@.len() ==> (#[trigger] p@[i])@ == decode_utf8(key_path@[i]->Buf_0@)
        },
{
    match utf8_text(component) {
        Some(c) => match decode_key_path(key_path) {
            Ok(p) => Some((c.to_owned(), p)),
            Err(_) => None,
        },
        None => None,
    }
}

/// An event of a broker subscription as the callback receives it: the topic
/// as text and the payload's bytes. An event whose topic is not UTF-8 is
/// skipped.
pub fn iot_core_event<'a>(topic: &[u8], payload: &'a [u8]) -> (r: Option<(String, &'a [u8])>)
    ensures
        r is Some <==> valid_utf8(topic@),
        r matches Some((t, p)) ==> t@ == decode_utf8(topic@) && p@ == payload@,
{
    match utf8_text(topic) {
        Some(t) => Some((t.to_owned(), payload)),
        None => None,
    }
}

/// The error of a call as its callback receives it. An error report whose
/// code or message is not UTF-8 is skipped.
pub fn call_error(error_code: &[u8], message: &[u8]) -> (r: Option<IpcError>)
    ensures
        r is Some <==> valid_utf8(error_code@) && valid_utf8(message@),
        r matches Some(e) ==> e.error_code@ == decode_utf8(error_code@) && e.message@ == decode_utf8(
            message@,
        ),
{
    match utf8_text(error_code) {
        Some(c) => match utf8_text(message) {
            Some(m) => Some(IpcError { error_code: c.to_owned(), message: m.to_owned() }),
            None => None,
        },
        None => None,
    }
}

/// A follow-up event of a generic subscription as its callback receives it:
/// the schema tag as text and the event's map. An event whose tag is not
/// UTF-8 is skipped.
pub fn stream_event<'a>(service_model_type: &[u8], data: &'a [Kv]) -> (r: Option<(String, &'a [Kv])>)
    ensures
        r is Some <==> valid_utf8(service_model_type@),
        r matches Some((t, d)) ==> t@ == decode_utf8(service_model_type@) && d@ == data@,
{
    match utf8_text(service_model_type) {
        Some(t) => Some((t.to_owned(), data)),
        None => None,
    }
}

/// The first reply to a one-shot call, as the channel hands it over: a
/// result map, or an error code and message as bytes.
#[derive(Debug, Clone, Copy)]
pub enum CallReply<'a> {
    Result(&'a [Kv]),
    Error { error_code: &'a [u8], message: &'a [u8] },
}

/// The reply reads as an argument for the callback: it is a result map, or
/// an error whose code and message are UTF-8.
pub open spec fn reply_reads(reply: CallReply) -> bool {
    match reply {
        CallReply::Result(_) => true,
        CallReply::Error { error_code, message } => valid_utf8(error_code@) && valid_utf8(message@),
    }
}

/// `arg` is what the callback receives for `reply`: the same result map, or
/// the error's code and message as text.
pub open spec fn reply_as(reply: CallReply, arg: Result<&[Kv], IpcError>) -> bool {
    match reply {
        CallReply::Result(m) => arg matches Ok(q) && q@ == m@,
        CallReply::Error { error_code, message } => arg matches Err(e) && e.error_code@
            == decode_utf8(error_code@) && e.message@ == decode_utf8(message@),
    }
}

/// The argument a call's callback receives for a reply: the result map as it
/// is, or the error read as text. An error whose text is not UTF-8 gives
/// `None`: the reply is reported back as a `Utf8` failure instead.
pub fn call_reply<'a>(reply: CallReply<'a>) -> (r: Option<Result<&'a [Kv], IpcError>>)
    ensures
        r is Some <==> reply_reads(reply),
        r matches Some(arg) ==> reply_as(reply, arg),
{
    match reply {
        CallReply::Result(m) => Some(Ok(m)),
        CallReply::Error { error_code, message } => match call_error(error_code, message) {
            Some(e) => Some(Err(e)),
            None => None,
        },
    }
}

/// Holds the callback of a one-shot call until its single reply. It hands
/// the callback out once; later replies find the slot empty.
pub struct OneShot<F> {
    slot: Option<F>,
}

impl<F> View for OneShot<F> {
    type V = Option<F>;

    closed spec fn view(&self) -> Option<F> {
        self.slot
    }
}

impl<F> OneShot<F> {
    /// A slot that holds `callback`.
    pub fn new(callback: F) -> (r: OneShot<F>)
        ensures
            r@ == Some(callback),
    {
        OneShot { slot: Some(callback) }
    }

    /// The callback has not been handed out yet.
    pub fn is_pending(&self) -> (r: bool)
        ensures
            r == self@ is Some,
    {
        self.slot.is_some()
    }

    /// Hands the callback out, the first time only.
    pub fn take(&mut self) -> (r: Option<F>)
        ensures
            r == old(self)@,
            final(self)@ is None,
    {
        let mut out: Option<F> = None;
        std::mem::swap(&mut out, &mut self.slot);
        out
    }
}

/// Hands a reply to the callback of a one-shot call and gives the status to
/// report back to the channel: the callback's own outcome; a `Utf8` failure
/// where the reply does not read as text (the callback is kept); a `Failure`
/// where the callback was already handed a reply.
pub fn deliver_reply<'a, F>(slot: &mut OneShot<F>, reply: CallReply<'a>) -> (code: u32) where
    F: FnOnce(Result<&'a [Kv], IpcError>) -> Result<(), Error>,

    requires
        old(slot)@ matches Some(f) ==> forall|arg: Result<&'a [Kv], IpcError>| call_requires(
            f,
            (arg,),
        ),
    ensures
        !reply_reads(reply) ==> code == error_code(Error::Utf8) && final(slot)@ == old(slot)@,
        reply_reads(reply) ==> final(slot)@ is None,
        reply_reads(reply) && old(slot)@ is None ==> code == error_code(Error::Failure),
        reply_reads(reply) && old(slot)@ is Some ==> exists|
            arg: Result<&'a [Kv], IpcError>,
            out: Result<(), Error>,
        | reply_as(reply, arg) && call_ensures(old(slot)@->0, (arg,), out) && code == status_code(out),
{
    match call_reply(reply) {
        Some(arg) => match slot.take() {
            Some(callback) => {
                let out = callback(arg);
                to_status(&out)
            },
            None => to_status(&Err(Error::Failure)),
        },
        None => to_status(&Err(Error::Utf8)),
    }
}

} // verus!
