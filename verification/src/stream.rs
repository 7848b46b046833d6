//! Collection of the responses of a server or bidirectional streaming call:
//! what each event of the response stream does to the collected result, and
//! what is pushed to the host as it happens.
use vstd::prelude::*;

use crate::call::{jn, js};
use crate::json::{array, member, num, object, pairs_model, text, values_model, Json, JsonValue};
use crate::text::concat3;
use crate::types::{GrpcStreamMessage, GrpcStreamingResult, GrpcTimingInfo};

verus! {

/// What the response stream did next.
pub enum StreamEvent {
    /// A response, already in JSON form, with its encoded size and the
    /// milliseconds elapsed since the call (bidirectional) or the collection
    /// (server streaming) started.
    Message { data: JsonValue, size_bytes: usize, elapsed_ms: u64 },
    /// A response that could not be turned into JSON.
    Undecodable(String),
    /// The stream failed with a status.
    Failed { message: String, code: String },
    /// The stream ended.
    End,
    /// The call was cancelled by the user.
    Cancelled,
    /// The collection window elapsed.
    TimedOut,
}

/// What the driver does after an event.
pub enum StreamStep {
    /// Push this notification to the host and wait for the next event.
    Emit(JsonValue),
    /// Collection is over; the collected responses are the result.
    Finished,
    /// The call fails with `error`, after pushing `emit` when there is one.
    Failed { error: String, emit: Option<JsonValue> },
}

pub open spec fn message_json(m: GrpcStreamMessage) -> Json {
    Json::Object(
        seq![
            ("index"@, jn(m.index as u64)),
            ("data"@, m.data.model()),
            ("received_at_ms"@, jn(m.received_at_ms)),
            ("size_bytes"@, jn(m.size_bytes as u64)),
        ],
    )
}

/// Notification of a received response.
pub open spec fn message_notice(call_id: Seq<char>, data: Json) -> Json {
    Json::Object(seq![("call_id"@, js(call_id)), ("kind"@, js("message"@)), ("data"@, data)])
}

/// Notification of a failed stream.
pub open spec fn error_notice(call_id: Seq<char>, message: Seq<char>, code: Seq<char>) -> Json {
    Json::Object(
        seq![
            ("call_id"@, js(call_id)),
            ("kind"@, js("error"@)),
            ("data"@, Json::Object(seq![("message"@, js(message)), ("code"@, js(code))])),
        ],
    )
}

/// Error of a failed stream.
pub open spec fn stream_error_text(bidi: bool, message: Seq<char>, code: Seq<char>) -> Seq<char> {
    (if bidi { "bidi streaming response error: "@ } else { "streaming response error: "@ }) + message + " ("@
        + code + ")"@
}

/// The responses collected so far.
pub struct StreamCollector {
    call_id: String,
    bidi: bool,
    messages: Vec<GrpcStreamMessage>,
    first_response_ms: Option<u64>,
    cancelled: bool,
}

impl StreamCollector {
    pub closed spec fn call_id(&self) -> Seq<char> {
        self.call_id@
    }

    pub closed spec fn is_bidi(&self) -> bool {
        self.bidi
    }

    /// The collected responses, in arrival order.
    pub closed spec fn messages(&self) -> Seq<GrpcStreamMessage> {
        self.messages@
    }

    pub closed spec fn first_response_ms(&self) -> Option<u64> {
        self.first_response_ms
    }

    pub closed spec fn was_cancelled(&self) -> bool {
        self.cancelled
    }

    /// Responses are numbered from 1 in arrival order, and the time of the first
    /// response is that of the first collected message.
    pub closed spec fn wf(&self) -> bool {
        &&& forall|k: int| 0 <= k < self.messages@.len() ==> (#[trigger] self.messages@[k]).index == k + 1
        &&& if self.messages@.len() == 0 {
            self.first_response_ms is None
        } else {
            self.first_response_ms == Some(self.messages@[0].received_at_ms)
        }
    }

    /// Collected responses are numbered from 1 in arrival order, and the time of
    /// the first response is the arrival time of the first collected message.
    pub proof fn law_stream_numbering(&self, k: int)
        requires
            self.wf(),
            0 <= k < self.messages().len(),
        ensures
            self.messages()[k].index == k + 1,
            self.first_response_ms() == Some(self.messages()[0].received_at_ms),
    {
    }

    /// A collector for the call `call_id`.
    pub fn new(call_id: &str, bidi: bool) -> (r: Self)
        ensures
            r.wf(),
            r.call_id() == call_id@,
            r.is_bidi() == bidi,
            r.messages().len() == 0,
            r.first_response_ms() is None,
            !r.was_cancelled(),
    {
        StreamCollector {
            call_id: crate::text::owned(call_id),
            bidi,
            messages: Vec::new(),
            first_response_ms: None,
            cancelled: false,
        }
    }

    /// Number of responses collected.
    pub fn received_count(&self) -> (r: usize)
        ensures
            r == self.messages().len(),
    {
        self.messages.len()
    }

    /// Applies one event of the response stream.
    pub fn step(&mut self, event: StreamEvent) -> (r: StreamStep)
        requires
            old(self).wf(),
            old(self).messages().len() < usize::MAX,
        ensures
            final(self).wf(),
            final(self).call_id() == old(self).call_id(),
            final(self).is_bidi() == old(self).is_bidi(),
            match event {
                StreamEvent::Message { data, size_bytes, elapsed_ms } => {
                    &&& final(self).messages() == old(self).messages().push(
                        GrpcStreamMessage { index: (old(self).messages().len() + 1) as usize, data, received_at_ms: elapsed_ms, size_bytes },
                    )
                    &&& !final(self).was_cancelled()
                    &&& r matches StreamStep::Emit(n) && n.model() == message_notice(old(self).call_id(), data.model())
                },
                StreamEvent::Undecodable(e) => {
                    &&& final(self).messages() == old(self).messages()
                    &&& r matches StreamStep::Failed { error, emit } && error == e && emit is None
                },
                StreamEvent::Failed { message, code } => {
                    &&& final(self).messages() == old(self).messages()
                    &&& r matches StreamStep::Failed { error, emit } && error@ == stream_error_text(
                        old(self).is_bidi(),
                        message@,
                        code@,
                    ) && (emit matches Some(n) && n.model() == error_notice(old(self).call_id(), message@, code@))
                },
                StreamEvent::End => final(self).messages() == old(self).messages() && r is Finished
                    && final(self).was_cancelled() == old(self).was_cancelled(),
                StreamEvent::Cancelled => final(self).messages() == old(self).messages() && r is Finished
                    && final(self).was_cancelled(),
                StreamEvent::TimedOut => final(self).messages() == old(self).messages() && r is Finished
                    && final(self).was_cancelled() == old(self).was_cancelled(),
            },
            old(self).messages().len() > 0 ==> final(self).first_response_ms() == old(self).first_response_ms(),
    {
        match event {
            StreamEvent::Message { data, size_bytes, elapsed_ms } => {
                let index = self.messages.len() + 1;
                if self.messages.len() == 0 {
                    self.first_response_ms = Some(elapsed_ms);
                }
                let mut p: Vec<(String, JsonValue)> = Vec::new();
                member(&mut p, "call_id", text(self.call_id.as_str()));
                member(&mut p, "kind", text("message"));
                let ghost d = data;
                member(&mut p, "data", copy_json(&data));
                proof {
                    assert(pairs_model(p@) =~= seq![("call_id"@, js(self.call_id@)), ("kind"@, js("message"@)), ("data"@, d.model())]);
                }
                let ghost before = self.messages@;
                self.messages.push(GrpcStreamMessage { index, data, received_at_ms: elapsed_ms, size_bytes });
                proof {
                    assert forall|k: int| 0 <= k < self.messages@.len() implies (#[trigger] self.messages@[k]).index == k + 1 by {
                        if k < before.len() {
                            assert(self.messages@[k] == before[k]);
                        }
                    }
                }
                self.cancelled = false;
                StreamStep::Emit(object(p))
            },
            StreamEvent::Undecodable(e) => StreamStep::Failed { error: e, emit: None },
            StreamEvent::Failed { message, code } => {
                let mut inner: Vec<(String, JsonValue)> = Vec::new();
                member(&mut inner, "message", text(message.as_str()));
                member(&mut inner, "code", text(code.as_str()));
                proof {
                    assert(pairs_model(inner@) =~= seq![("message"@, js(message@)), ("code"@, js(code@))]);
                }
                let mut p: Vec<(String, JsonValue)> = Vec::new();
                member(&mut p, "call_id", text(self.call_id.as_str()));
                member(&mut p, "kind", text("error"));
                member(&mut p, "data", object(inner));
                proof {
                    assert(pairs_model(p@) =~= seq![
                        ("call_id"@, js(self.call_id@)),
                        ("kind"@, js("error"@)),
                        ("data"@, Json::Object(seq![("message"@, js(message@)), ("code"@, js(code@))])),
                    ]);
                }
                let head = if self.bidi {
                    "bidi streaming response error: "
                } else {
                    "streaming response error: "
                };
                let mut error = concat3(head, message.as_str(), " (");
                error.append(code.as_str());
                error.append(")");
                StreamStep::Failed { error, emit: Some(object(p)) }
            },
            StreamEvent::End => StreamStep::Finished,
            StreamEvent::Cancelled => {
                self.cancelled = true;
                StreamStep::Finished
            },
            StreamEvent::TimedOut => StreamStep::Finished,
        }
    }

    /// The collected responses as JSON records `{index, data, received_at_ms, size_bytes}`.
    pub fn responses(&self) -> (r: Vec<JsonValue>)
        ensures
            values_model(r@) == self.messages().map_values(|m: GrpcStreamMessage| message_json(m)),
    {
        let mut r: Vec<JsonValue> = Vec::new();
        let mut i: usize = 0;
        while i < self.messages.len()
            invariant
                i <= self.messages@.len(),
                values_model(r@) == self.messages@.take(i as int).map_values(|m: GrpcStreamMessage| message_json(m)),
            decreases self.messages.len() - i,
        {
            let m = &self.messages[i];
            let mut p: Vec<(String, JsonValue)> = Vec::new();
            member(&mut p, "index", num(m.index as u64));
            member(&mut p, "data", copy_json(&m.data));
            member(&mut p, "received_at_ms", num(m.received_at_ms));
            member(&mut p, "size_bytes", num(m.size_bytes as u64));
            proof {
                assert(pairs_model(p@) =~= seq![
                    ("index"@, jn(m.index as u64)),
                    ("data"@, m.data.model()),
                    ("received_at_ms"@, jn(m.received_at_ms)),
                    ("size_bytes"@, jn(m.size_bytes as u64)),
                ]);
            }
            let ghost before = r@;
            let o = object(p);
            r.push(o);
            proof {
                assert(values_model(r@) =~= values_model(before).push(o.model()));
                assert(self.messages@.take(i + 1) =~= self.messages@.take(i as int).push(self.messages@[i as int]));
            }
            i = i + 1;
        }
        proof {
            assert(self.messages@.take(self.messages@.len() as int) =~= self.messages@);
        }
        r
    }

    /// The result of a bidirectional call.
    pub fn bidi_result(&self, sent_count: usize, total_ms: u64, response_metadata: Vec<(String, String)>) -> (r: GrpcStreamingResult)
        requires
            self.wf(),
        ensures
            r.status == 0,
            values_model(r.responses@) == self.messages().map_values(|m: GrpcStreamMessage| message_json(m)),
            r.sent_count == sent_count,
            r.received_count == self.messages().len(),
            r.trailers@.len() == 0,
            r.response_metadata == response_metadata,
            r.timing == (GrpcTimingInfo { total_ms, first_response_ms: self.first_response_ms() }),
            r.cancelled == self.was_cancelled(),
            self.messages().len() > 0 ==> r.timing.first_response_ms == Some(self.messages()[0].received_at_ms),
            self.messages().len() == 0 ==> r.timing.first_response_ms is None,
    {
        GrpcStreamingResult {
            status: 0,
            responses: self.responses(),
            sent_count,
            received_count: self.messages.len(),
            trailers: Vec::new(),
            response_metadata,
            timing: GrpcTimingInfo { total_ms, first_response_ms: self.first_response_ms },
            cancelled: self.cancelled,
        }
    }
}

/// A copy of a JSON document.
pub fn copy_json(v: &JsonValue) -> (r: JsonValue)
    ensures
        r.model() == v.model(),
    decreases v,
{
    match v {
        JsonValue::Null => JsonValue::Null,
        JsonValue::Bool(b) => JsonValue::Bool(*b),
        JsonValue::Number(n) => JsonValue::Number(
            match n {
                crate::json::JsonNumber::PosInt(u) => crate::json::JsonNumber::PosInt(*u),
                crate::json::JsonNumber::NegInt(i) => crate::json::JsonNumber::NegInt(*i),
                crate::json::JsonNumber::Float(s) => crate::json::JsonNumber::Float(s.clone()),
            },
        ),
        JsonValue::Str(s) => JsonValue::Str(s.clone()),
        JsonValue::Array(items) => {
            let mut out: Vec<JsonValue> = Vec::new();
            let mut i: usize = 0;
            while i < items.len()
                invariant
                    i <= items@.len(),
                    *v == JsonValue::Array(*items),
                    out@.len() == i,
                    forall|k: int| 0 <= k < i ==> (#[trigger] out@[k]).model() == items@[k].model(),
                decreases items.len() - i,
            {
                proof {
                    assert(*v == JsonValue::Array(*items));
                    assert(decreases_to!(*v => v->Array_0));
                    assert(decreases_to!(*items => items@[i as int]));
                }
                out.push(copy_json(&items[i]));
                i = i + 1;
            }
            proof {
                crate::json::lemma_array_model(*items);
                assert(values_model(out@) =~= values_model(items@));
            }
            array(out)
        },
        JsonValue::Object(pairs) => {
            let mut out: Vec<(String, JsonValue)> = Vec::new();
            let mut i: usize = 0;
            while i < pairs.len()
                invariant
                    i <= pairs@.len(),
                    *v == JsonValue::Object(*pairs),
                    out@.len() == i,
                    forall|k: int| 0 <= k < i ==> (#[trigger] out@[k]).0@ == pairs@[k].0@ && out@[k].1.model() == pairs@[k].1.model(),
                decreases pairs.len() - i,
            {
                proof {
                    assert(*v == JsonValue::Object(*pairs));
                    assert(decreases_to!(*v => v->Object_0));
                    assert(decreases_to!(*pairs => pairs@[i as int]));
                    assert(decreases_to!(pairs@[i as int] => pairs@[i as int].1));
                }
                let val = copy_json(&pairs[i].1);
                out.push((pairs[i].0.clone(), val));
                i = i + 1;
            }
            proof {
                crate::json::lemma_object_model(*pairs);
                assert(pairs_model(out@) =~= pairs_model(pairs@));
            }
            object(out)
        },
    }
}

} // verus!
