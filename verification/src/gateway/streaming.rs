//! Observes, but never buffers or rewrites, the stream of a response. Framing
//! and UTF-8 belong to the codec, not to a parser that splits lines.
use crate::json::{document, get, is_null, member, parse, Json};
use crate::gateway::usage::{usage_in, CompletionUsage};
use crate::text::{bytes_of, same, trim, trimmed};
use vstd::prelude::*;

verus! {

pub const MAX_EVENT_BYTES: usize = 65_536;

/// The decoder of server-sent events.
#[verifier::external_type_specification]
#[verifier::external_body]
pub struct ExSseDecoder(sse_core::SseDecoder);

/// What the decoder delivers.
pub enum Frame {
    Message(String),
    Retry,
}

/// What the decoder delivers: the data of a message, a notice on reconnecting,
/// or the refusal of an event that is too large.
pub ghost enum Delivery {
    Message(Seq<char>),
    Retry,
    Refused,
}

impl View for Frame {
    type V = Delivery;

    open spec fn view(&self) -> Delivery {
        match self {
            Frame::Message(data) => Delivery::Message(data@),
            Frame::Retry => Delivery::Retry,
        }
    }
}

/// The bytes that a decoder has taken in since it was fresh.
pub uninterp spec fn fed(decoder: sse_core::SseDecoder) -> Seq<u8>;

/// The most bytes that a decoder accepts of one event.
pub uninterp spec fn payload_limit(decoder: sse_core::SseDecoder) -> nat;

/// What a decoder with a limit delivers of some bytes, up to the first refusal.
pub uninterp spec fn deliveries(bytes: Seq<u8>, limit: nat) -> Seq<Delivery>;

pub open spec fn delivered(decoder: sse_core::SseDecoder) -> Seq<Delivery> {
    deliveries(fed(decoder), payload_limit(decoder))
}

pub open spec fn refused(frames: Seq<Delivery>) -> bool {
    frames.len() > 0 && frames.last() is Refused
}

/// `sse_core::SseDecoder::with_limit`: a fresh decoder.
#[verifier::external_body]
fn decoder_with_limit(limit: usize) -> (r: sse_core::SseDecoder)
    requires
        limit > 0,
    ensures
        fed(r).len() == 0,
        payload_limit(r) == limit,
        deliveries(fed(r), payload_limit(r)).len() == 0,
{
    sse_core::SseDecoder::with_limit(std::num::NonZeroUsize::new(limit).unwrap())
}

/// `sse_core::SseDecoder::clear`: the decoder is as fresh as at first.
#[verifier::external_body]
fn clear(decoder: &mut sse_core::SseDecoder)
    ensures
        fed(*final(decoder)).len() == 0,
        payload_limit(*final(decoder)) == payload_limit(*old(decoder)),
        delivered(*final(decoder)).len() == 0,
{
    decoder.clear();
}

/// `sse_core::SseDecoder::next`: takes bytes off the front of the buffer until
/// one more frame is complete, or all of them where none is. How the bytes were
/// split over several buffers makes no difference to the frames, and later
/// bytes take none of them back. A refusal says that some value of the event
/// exceeds the limit within the bytes that were offered; after it nothing is
/// claimed until the decoder is cleared.
#[verifier::external_body]
fn next(decoder: &mut sse_core::SseDecoder, buffer: &mut &[u8]) -> (r: Option<Result<Frame, String>>)
    ensures
        payload_limit(*final(decoder)) == payload_limit(*old(decoder)),
        r matches Some(Ok(_)) ==> final(buffer)@.len() < old(buffer)@.len(),
        !refused(delivered(*old(decoder))) ==> match r {
            None => {
                &&& final(buffer)@.len() == 0
                &&& fed(*final(decoder)) == fed(*old(decoder)) + old(buffer)@
                &&& delivered(*final(decoder)) == delivered(*old(decoder))
            },
            Some(Ok(frame)) => {
                &&& fed(*final(decoder)) + final(buffer)@ == fed(*old(decoder)) + old(buffer)@
                &&& delivered(*final(decoder)) == delivered(*old(decoder)).push(frame@)
            },
            Some(Err(text)) => {
                &&& text@ == "payload exceeded the allotted buffer size limit"@
                &&& fed(*final(decoder)) == fed(*old(decoder)) + old(buffer)@
                &&& delivered(*final(decoder)) == delivered(*old(decoder)).push(Delivery::Refused)
            },
        },
        !refused(delivered(*old(decoder))) ==> forall|more: Seq<u8>|
            delivered(*final(decoder)).is_prefix_of(
                #[trigger] deliveries(
                    fed(*final(decoder)) + more,
                    payload_limit(*final(decoder)),
                ),
            ),
{
    decoder.next(buffer).map(
        |frame|
            match frame {
                Ok(sse_core::SseEvent::Message(event)) => Ok(Frame::Message(event.data)),
                Ok(sse_core::SseEvent::Retry(_)) => Ok(Frame::Retry),
                Err(error) => Err(error.to_string()),
            },
    )
}

/// What is known of a stream after some frames.
pub ghost struct Reading {
    pub usage: Option<CompletionUsage>,
    pub done: bool,
    pub fault: Option<Seq<char>>,
}

/// A member that is there and not null.
pub open spec fn present(json: Json, name: Seq<char>) -> Option<Json> {
    match member(json, name) {
        Some(Json::Null) => None,
        other => other,
    }
}

pub open spec fn faulty(before: Reading, message: Seq<char>) -> Reading {
    Reading { fault: Some(message), ..before }
}

/// What the data of one more message adds.
pub open spec fn after_message(before: Reading, data: Seq<char>) -> Reading {
    if before.done {
        faulty(before, "SSE event received after [DONE]"@)
    } else if trimmed(data) == "[DONE]"@ {
        Reading { done: true, ..before }
    } else {
        match document(bytes_of(data)) {
            None => faulty(before, "invalid JSON in provider SSE event"@),
            Some(json) => if present(json, "error"@) is Some {
                faulty(before, "provider returned an SSE error event"@)
            } else {
                match present(json, "usage"@) {
                    None => before,
                    Some(value) => match usage_in(value) {
                        None => faulty(before, "invalid usage in provider SSE event"@),
                        Some(usage) => if before.usage is Some && before.usage != Some(usage) {
                            faulty(before, "conflicting final usage in provider SSE stream"@)
                        } else {
                            Reading { usage: Some(usage), ..before }
                        },
                    },
                }
            },
        }
    }
}

/// What one more frame adds. A fault ends the reading.
pub open spec fn after_frame(before: Reading, frame: Delivery) -> Reading {
    if before.fault is Some {
        before
    } else {
        match frame {
            Delivery::Retry => before,
            Delivery::Refused => faulty(
                before,
                "payload exceeded the allotted buffer size limit"@,
            ),
            Delivery::Message(data) => after_message(before, data),
        }
    }
}

pub open spec fn reading(frames: Seq<Delivery>) -> Reading
    decreases frames.len(),
{
    if frames.len() == 0 {
        Reading { usage: None, done: false, fault: None }
    } else {
        after_frame(reading(frames.drop_last()), frames.last())
    }
}

/// What bytes from the start of a stream read.
pub open spec fn stream_reading(bytes: Seq<u8>) -> Reading {
    reading(deliveries(bytes, MAX_EVENT_BYTES as nat))
}

/// Frames that follow a fault add nothing.
proof fn lemma_fault_ends(frames: Seq<Delivery>, more: Seq<Delivery>)
    requires
        frames.is_prefix_of(more),
        reading(frames).fault is Some,
    ensures
        reading(more) == reading(frames),
    decreases more.len(),
{
    if more.len() == frames.len() {
        assert(more =~= frames);
    } else {
        assert(frames.is_prefix_of(more.drop_last()));
        lemma_fault_ends(frames, more.drop_last());
    }
}

pub struct StreamMeter {
    pub decoder: sse_core::SseDecoder,
    pub usage: Option<CompletionUsage>,
    pub done: bool,
    pub invalid: bool,
}

impl Default for StreamMeter {
    fn default() -> (r: Self)
        ensures
            r.wf(),
            r.seen().len() == 0,
            r.usage is None,
            !r.done,
            !r.invalid,
    {
        StreamMeter {
            decoder: decoder_with_limit(MAX_EVENT_BYTES),
            usage: None,
            done: false,
            invalid: false,
        }
    }
}

impl StreamMeter {
    /// The bytes that were observed; none after a failure.
    pub open spec fn seen(self) -> Seq<u8> {
        fed(self.decoder)
    }

    /// The meter says what the bytes that it has seen read.
    pub open spec fn wf(self) -> bool {
        &&& payload_limit(self.decoder) == MAX_EVENT_BYTES
        &&& self.invalid ==> self.usage is None
        &&& !self.invalid ==> stream_reading(fed(self.decoder)) == (Reading {
            usage: self.usage,
            done: self.done,
            fault: None,
        })
    }

    /// Observes more of the stream. Once the stream is faulty it stays so, and
    /// its usage is not known.
    pub fn observe(&mut self, bytes: &[u8]) -> (r: Result<(), String>)
        ensures
            old(self).wf() ==> observed(*old(self), bytes@, *final(self), r),
    {
        if self.invalid {
            return Err("stream metering already failed".to_owned());
        }
        let result = self.decode(bytes);
        if result.is_err() {
            self.invalid = true;
            self.usage = None;
            clear(&mut self.decoder);
        }
        result
    }

    fn decode(&mut self, bytes: &[u8]) -> (r: Result<(), String>)
        ensures
            final(self).invalid == old(self).invalid,
            old(self).wf() && !old(self).invalid ==> {
                let after = stream_reading(old(self).seen() + bytes@);
                &&& payload_limit(final(self).decoder) == MAX_EVENT_BYTES
                &&& final(self).done == after.done
                &&& forall|more: Seq<u8>|
                    after.fault is Some ==> #[trigger] stream_reading(
                        old(self).seen() + bytes@ + more,
                    ) == after
                &&& match r {
                    Ok(()) => {
                        &&& after.fault is None
                        &&& final(self).usage == after.usage
                        &&& final(self).seen() == old(self).seen() + bytes@
                    },
                    Err(text) => after.fault == Some(text@),
                }
            },
    {
        let ghost start = fed(self.decoder);
        let ghost total = start + bytes@;
        let ghost sound = self.wf() && !self.invalid;
        let mut buffer = bytes;
        loop
            invariant
                self.invalid == old(self).invalid,
                total == start + bytes@,
                start == fed(old(self).decoder),
                sound == (old(self).wf() && !old(self).invalid),
                sound ==> {
                    &&& fed(self.decoder) + buffer@ == total
                    &&& payload_limit(self.decoder) == MAX_EVENT_BYTES
                    &&& reading(delivered(self.decoder)) == (Reading {
                        usage: self.usage,
                        done: self.done,
                        fault: None,
                    })
                },
            decreases buffer@.len(),
        {
            let ghost before = delivered(self.decoder);
            let frame = next(&mut self.decoder, &mut buffer);
            proof {
                if sound {
                    assert(!refused(before));
                    assert(delivered(self.decoder).drop_last() =~= before || frame is None);
                    assert(fed(self.decoder) + Seq::<u8>::empty() =~= fed(self.decoder));
                }
            }
            let data = match frame {
                None => {
                    proof {
                        if sound {
                            assert(fed(self.decoder) =~= total);
                        }
                    }
                    return Ok(());
                },
                Some(Err(text)) => {
                    proof {
                        if sound {
                            assert(fed(self.decoder) =~= total);
                            self.lemma_ended(total);
                        }
                    }
                    return Err(text);
                },
                Some(Ok(Frame::Retry)) => continue ,
                Some(Ok(Frame::Message(data))) => data,
            };
            if self.done {
                proof {
                    if sound {
                        self.lemma_ended(total);
                    }
                }
                return Err("SSE event received after [DONE]".to_owned());
            }
            if same(trim(data.as_str()), "[DONE]") {
                self.done = true;
                continue ;
            }
            let value = match parse(data.as_str().as_bytes()) {
                Some(value) => value,
                None => {
                    proof {
                        if sound {
                            self.lemma_ended(total);
                        }
                    }
                    return Err("invalid JSON in provider SSE event".to_owned());
                },
            };
            if let Some(error) = get(&value, "error") {
                if !is_null(error) {
                    proof {
                        if sound {
                            self.lemma_ended(total);
                        }
                    }
                    return Err("provider returned an SSE error event".to_owned());
                }
            }
            if let Some(stated) = get(&value, "usage") {
                if !is_null(stated) {
                    match CompletionUsage::from_json(stated) {
                        None => {
                            proof {
                                if sound {
                                    self.lemma_ended(total);
                                }
                            }
                            return Err("invalid usage in provider SSE event".to_owned());
                        },
                        Some(usage) => {
                            if let Some(previous) = self.usage {
                                if previous != usage {
                                    proof {
                                        if sound {
                                            self.lemma_ended(total);
                                        }
                                    }
                                    return Err(
                                        "conflicting final usage in provider SSE stream".to_owned(),
                                    );
                                }
                            }
                            self.usage = Some(usage);
                        },
                    }
                }
            }
        }
    }

    /// A fault in what was delivered so far is a fault of the whole.
    proof fn lemma_ended(self, total: Seq<u8>)
        requires
            payload_limit(self.decoder) == MAX_EVENT_BYTES,
            reading(delivered(self.decoder)).fault is Some,
            exists|rest: Seq<u8>| fed(self.decoder) + rest == total,
            forall|more: Seq<u8>|
                delivered(self.decoder).is_prefix_of(
                    #[trigger] deliveries(fed(self.decoder) + more, MAX_EVENT_BYTES as nat),
                ),
        ensures
            stream_reading(total) == reading(delivered(self.decoder)),
            forall|more: Seq<u8>|
                #[trigger] stream_reading(total + more) == reading(delivered(self.decoder)),
    {
        let rest = choose|rest: Seq<u8>| fed(self.decoder) + rest == total;
        lemma_fault_ends(delivered(self.decoder), deliveries(total, MAX_EVENT_BYTES as nat));
        assert forall|more: Seq<u8>| #[trigger] stream_reading(total + more) == reading(
            delivered(self.decoder),
        ) by {
            assert(total + more =~= fed(self.decoder) + (rest + more));
            lemma_fault_ends(
                delivered(self.decoder),
                deliveries(total + more, MAX_EVENT_BYTES as nat),
            );
        }
    }
}

/// What observing some bytes does to a meter, and what it answers.
pub open spec fn observed(
    before: StreamMeter,
    bytes: Seq<u8>,
    after: StreamMeter,
    r: Result<(), String>,
) -> bool {
    if before.invalid {
        &&& after == before
        &&& r matches Err(text) && text@ == "stream metering already failed"@
    } else {
        let reading = stream_reading(before.seen() + bytes);
        &&& after.wf()
        &&& after.done == reading.done
        &&& match reading.fault {
            None => {
                &&& r is Ok
                &&& !after.invalid
                &&& after.usage == reading.usage
                &&& after.seen() == before.seen() + bytes
            },
            Some(text) => {
                &&& r is Err
                &&& r->Err_0@ == text
                &&& after.invalid
                &&& after.usage is None
                &&& forall|more: Seq<u8>|
                    #[trigger] stream_reading(before.seen() + bytes + more) == reading
            },
        }
    }
}

/// How a stream is split makes no difference to what the meter says in the end.
pub proof fn law_splits_do_not_matter(
    start: StreamMeter,
    first: Seq<u8>,
    second: Seq<u8>,
    middle: StreamMeter,
    r1: Result<(), String>,
    end: StreamMeter,
    r2: Result<(), String>,
    whole: StreamMeter,
    r: Result<(), String>,
)
    requires
        start.wf(),
        observed(start, first, middle, r1),
        observed(middle, second, end, r2),
        observed(start, first + second, whole, r),
    ensures
        end.usage == whole.usage,
        end.done == whole.done,
        end.invalid == whole.invalid,
{
    assert(start.seen() + (first + second) =~= start.seen() + first + second);
}

/// Nothing but the marker ends a stream, nothing is taken after it, and an error of the
/// provider, a document that cannot be read or usage that contradicts what was said before is a
/// fault.
pub proof fn law_stream_messages_are_read_strictly(before: Reading, data: Seq<char>)
    requires
        before.fault is None,
    ensures
        ({
            let after = after_frame(before, Delivery::Message(data));
            &&& before.done ==> after.fault is Some
            &&& after.done <==> before.done || trimmed(data) == "[DONE]"@
            &&& !before.done && trimmed(data) == "[DONE]"@ ==> after.fault is None && after.usage
                == before.usage
            &&& !before.done && trimmed(data) != "[DONE]"@ && document(bytes_of(data)) is None
                ==> after.fault is Some
            &&& after.fault is None && before.usage is Some ==> after.usage == before.usage
            &&& after.fault is None && after.usage != before.usage ==> before.usage is None
                && document(bytes_of(data)) is Some && present(
                document(bytes_of(data))->0,
                "usage"@,
            ) is Some && usage_in(present(document(bytes_of(data))->0, "usage"@)->0) == after.usage
        }),
{
}

/// A fault is final: whatever comes after it changes nothing.
pub proof fn law_stream_faults_are_final(frames: Seq<Delivery>, more: Seq<Delivery>)
    requires
        reading(frames).fault is Some,
    ensures
        reading(frames + more) == reading(frames),
    decreases more.len(),
{
    if more.len() == 0 {
        assert(frames + more =~= frames);
    } else {
        assert((frames + more).drop_last() =~= frames + more.drop_last());
        law_stream_faults_are_final(frames, more.drop_last());
    }
}

/// What a stream said of its usage stays said: without a fault, more frames take nothing back.
pub proof fn law_stated_usage_stays_stated(frames: Seq<Delivery>, more: Seq<Delivery>)
    requires
        reading(frames + more).fault is None,
    ensures
        reading(frames).fault is None,
        reading(frames).usage is Some ==> reading(frames + more).usage == reading(frames).usage,
        reading(frames).done ==> reading(frames + more).done,
    decreases more.len(),
{
    if reading(frames).fault is Some {
        law_stream_faults_are_final(frames, more);
    }
    if more.len() == 0 {
        assert(frames + more =~= frames);
    } else {
        assert((frames + more).drop_last() =~= frames + more.drop_last());
        if reading(frames + more.drop_last()).fault is None {
            law_stated_usage_stays_stated(frames, more.drop_last());
        }
    }
}

} // verus!
