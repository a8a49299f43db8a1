//! Protocol events, with their recognized fields already extracted into
//! plain values, and the trusted parse of a reassembled event text.

use vstd::prelude::*;

verus! {

/// One inbound supervisor event. `raw` carries the event's JSON rendering
/// for the fallback log line on unrecognized names.
#[derive(Clone)]
pub struct ProtoEvent {
    pub name: Option<String>,
    pub run_id: Option<String>,
    pub job_id: Option<String>,
    pub task_id: Option<String>,
    pub status: Option<String>,
    pub message: Option<String>,
    pub queue_depth: Option<u64>,
    pub chunk_id: Option<String>,
    pub chunk_index: Option<u64>,
    pub chunk_count: Option<u64>,
    pub chunk: Option<String>,
    pub raw: String,
}

/// Ghost image of an event.
#[verifier::ext_equal]
pub ghost struct EventView {
    pub name: Option<Seq<char>>,
    pub run_id: Option<Seq<char>>,
    pub job_id: Option<Seq<char>>,
    pub task_id: Option<Seq<char>>,
    pub status: Option<Seq<char>>,
    pub message: Option<Seq<char>>,
    pub queue_depth: Option<u64>,
    pub chunk_id: Option<Seq<char>>,
    pub chunk_index: Option<u64>,
    pub chunk_count: Option<u64>,
    pub chunk: Option<Seq<char>>,
    pub raw: Seq<char>,
}

impl DeepView for ProtoEvent {
    type V = EventView;

    open spec fn deep_view(&self) -> EventView {
        EventView {
            name: self.name.deep_view(),
            run_id: self.run_id.deep_view(),
            job_id: self.job_id.deep_view(),
            task_id: self.task_id.deep_view(),
            status: self.status.deep_view(),
            message: self.message.deep_view(),
            queue_depth: self.queue_depth,
            chunk_id: self.chunk_id.deep_view(),
            chunk_index: self.chunk_index,
            chunk_count: self.chunk_count,
            chunk: self.chunk.deep_view(),
            raw: self.raw@,
        }
    }
}

/// What parsing an event text yields: `None` for text that is not a JSON
/// document, otherwise the recognized fields. A pure function of the
/// characters alone.
pub uninterp spec fn parsed_event_of(s: Seq<char>) -> Option<EventView>;

/// Relies on serde_json::from_str and the serde_json::Value readers
/// (get, as_str, as_u64, to_string via Display): whether a text parses,
/// and every field read out of the parsed document, depend on the
/// characters of the text alone.
#[verifier::external_body]
pub fn parse_event_text(s: &str) -> (r: Option<ProtoEvent>)
    ensures
        r is Some <==> parsed_event_of(s@) is Some,
        (r matches Some(ev) ==> Some(ev.deep_view()) == parsed_event_of(s@)),
{
    let v: serde_json::Value = serde_json::from_str(s).ok()?;
    let f = |k: &str| v.get(k).and_then(|x| x.as_str()).map(str::to_owned);
    let u = |k: &str| v.get(k).and_then(|x| x.as_u64());
    let depth = v.get("flow").and_then(|x| x.get("queueDepth")).and_then(|x| x.as_u64());
    Some(ProtoEvent {
        name: f("event"), run_id: f("runId"), job_id: f("jobId"), task_id: f("taskId"),
        status: f("status"), message: f("message"), queue_depth: depth, chunk_id: f("chunkId"),
        chunk_index: u("chunkIndex"), chunk_count: u("chunkCount"), chunk: f("chunk"),
        raw: v.to_string(),
    })
}

} // verus!
