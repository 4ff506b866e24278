//! The request body of one delivery, in the structured (JSON-shaped) encoding:
//! `{ streams: [ { stream: {label: value, ...}, values: [[ts, line, metadata]] } ] }`.
use vstd::prelude::*;
use crate::decimal::{all_digits, decimal, decimal_value, lemma_decimal_round_trip, parse_decimal, to_decimal};
use crate::labels::{LabelSet, PairView, insert_sorted, lookup, lemma_lookup_insert, lemma_insert_sorted_keeps_order};
use crate::level::{Level, level_name, lemma_level_name_injective};
use crate::log_event::LokiLogEvent;

verus! {

/// The key of the severity label.
pub open spec fn level_key() -> Seq<char> {
    seq!['l', 'e', 'v', 'e', 'l']
}

/// One entry of a stream: the timestamp in decimal nanoseconds, the rendered
/// message and the entry's structured metadata.
pub struct LokiValue {
    pub timestamp: String,
    pub line: String,
    pub structured_metadata: LabelSet,
}

/// A set of entries that share one label set.
pub struct LokiStream {
    pub stream: LabelSet,
    pub values: Vec<LokiValue>,
}

/// The body of one push to the endpoint.
pub struct LokiRequest {
    pub streams: Vec<LokiStream>,
}

/// An entry as timestamp text, line and metadata.
pub type ValueView = (Seq<char>, Seq<char>, Seq<PairView>);

/// A stream as its labels and entries.
pub type StreamView = (Seq<PairView>, Seq<ValueView>);

impl View for LokiValue {
    type V = ValueView;

    open spec fn view(&self) -> ValueView {
        (self.timestamp@, self.line@, self.structured_metadata@)
    }
}

impl View for LokiStream {
    type V = StreamView;

    open spec fn view(&self) -> StreamView {
        (self.stream@, self.values@.map_values(|v: LokiValue| v@))
    }
}

impl View for LokiRequest {
    type V = Seq<StreamView>;

    open spec fn view(&self) -> Seq<StreamView> {
        self.streams@.map_values(|s: LokiStream| s@)
    }
}

/// The labels of the stream that carries an event of severity `l`: the
/// static labels with `level` set to the severity's name.
pub open spec fn stream_labels(labels: Seq<PairView>, l: Level) -> Seq<PairView> {
    insert_sorted(labels, level_key(), level_name(l))
}

/// The entry made from an event.
pub open spec fn value_of(e: LokiLogEvent) -> ValueView {
    (decimal(e.timestamp as nat), e.content@, e.structured_metadata@)
}

/// The request made from one event and the static labels: one stream holding
/// one entry.
pub open spec fn request_of(e: LokiLogEvent, labels: Seq<PairView>) -> Seq<StreamView> {
    seq![(stream_labels(labels, e.level), seq![value_of(e)])]
}

/// The severity whose name is `s`.
pub open spec fn level_named(s: Seq<char>) -> Option<Level> {
    if s == level_name(Level::Error) {
        Some(Level::Error)
    } else if s == level_name(Level::Warn) {
        Some(Level::Warn)
    } else if s == level_name(Level::Info) {
        Some(Level::Info)
    } else if s == level_name(Level::Debug) {
        Some(Level::Debug)
    } else if s == level_name(Level::Trace) {
        Some(Level::Trace)
    } else {
        None
    }
}

/// What an event read back from a request holds: severity, timestamp,
/// message and metadata.
pub type EventView = (Level, nat, Seq<char>, Seq<PairView>);

pub open spec fn event_view(e: LokiLogEvent) -> EventView {
    (e.level, e.timestamp as nat, e.content@, e.structured_metadata@)
}

/// Reads the event of the first entry of the first stream: the severity from
/// the `level` label, the timestamp from its decimal text.
pub open spec fn decoded(r: Seq<StreamView>) -> Option<EventView> {
    if r.len() == 0 || r[0].1.len() == 0 {
        None
    } else {
        let labels = r[0].0;
        let v = r[0].1[0];
        match lookup(labels, level_key()) {
            None => None,
            Some(name) => match level_named(name) {
                None => None,
                Some(l) => if v.0.len() > 0 && all_digits(v.0) && decimal_value(v.0) <= u64::MAX {
                    Some((l, decimal_value(v.0), v.1, v.2))
                } else {
                    None
                },
            },
        }
    }
}

fn str_eq(a: &str, b: &str) -> (r: bool)
    ensures
        r == (a@ == b@),
{
    a.to_owned() == b.to_owned()
}

impl Level {
    /// The severity with the given lowercase name.
    pub fn from_name(s: &str) -> (r: Option<Level>)
        ensures
            r == level_named(s@),
    {
        let all = [Level::Error, Level::Warn, Level::Info, Level::Debug, Level::Trace];
        let mut i: usize = 0;
        while i < 5
            invariant
                all@ == Level::all(),
                i <= 5,
                forall|j: int| 0 <= j < i ==> s@ != level_name(#[trigger] all@[j]),
            decreases 5 - i,
        {
            if str_eq(s, all[i].as_str()) {
                return Some(all[i]);
            }
            i = i + 1;
        }
        assert(s@ != level_name(all@[0]));
        assert(s@ != level_name(all@[1]));
        assert(s@ != level_name(all@[2]));
        assert(s@ != level_name(all@[3]));
        assert(s@ != level_name(all@[4]));
        None
    }
}

/// The entry of an event: `[timestamp, line]` with the event's metadata.
pub fn entry_of(event: LokiLogEvent) -> (r: LokiValue)
    ensures
        r@ == value_of(event),
{
    LokiValue {
        timestamp: to_decimal(event.timestamp),
        line: event.content,
        structured_metadata: event.structured_metadata,
    }
}

impl LokiRequest {
    /// The request that delivers one event: one stream whose labels are the
    /// static labels with `level` set to the event's own severity, holding
    /// the event as its one entry.
    pub fn new(event: LokiLogEvent, labels: &LabelSet) -> (r: LokiRequest)
        requires
            labels.wf(),
        ensures
            r@ == request_of(event, labels@),
            r.streams@.len() == 1,
            r.streams@[0].stream.wf(),
    {
        let mut stream = labels.duplicate();
        proof {
            reveal_strlit("level");
            assert("level"@ =~= level_key());
            lemma_insert_sorted_keeps_order(labels@, level_key(), level_name(event.level));
        }
        stream.insert("level".to_owned(), event.level.as_str().to_owned());
        let mut values: Vec<LokiValue> = Vec::new();
        values.push(entry_of(event));
        let s = LokiStream { stream, values };
        let mut streams: Vec<LokiStream> = Vec::new();
        streams.push(s);
        let r = LokiRequest { streams };
        assert(r.streams@[0]@.1 =~= seq![value_of(event)]);
        assert(r.streams@[0]@.0 == stream_labels(labels@, event.level));
        assert(r@[0] == (stream_labels(labels@, event.level), seq![value_of(event)]));
        assert(r@ =~= request_of(event, labels@));
        r
    }

    /// Reads back the event of the first entry of the first stream.
    pub fn decode(&self) -> (r: Option<LokiLogEvent>)
        ensures
            match r {
                Some(e) => decoded(self@) == Some(event_view(e)),
                None => decoded(self@) is None,
            },
    {
        if self.streams.len() == 0 || self.streams[0].values.len() == 0 {
            return None;
        }
        let s = &self.streams[0];
        let v = &s.values[0];
        proof {
            reveal_strlit("level");
            assert("level"@ =~= level_key());
            assert(self@[0] == s@);
            assert(s@.1[0] == v@);
        }
        let name = match s.stream.get("level") {
            None => return None,
            Some(n) => n,
        };
        let level = match Level::from_name(name.as_str()) {
            None => return None,
            Some(l) => l,
        };
        let timestamp = match parse_decimal(v.timestamp.as_str()) {
            None => return None,
            Some(t) => t,
        };
        Some(LokiLogEvent {
            level,
            timestamp,
            structured_metadata: v.structured_metadata.duplicate(),
            content: v.line.clone(),
        })
    }
}

/// The `level` label of a delivered request is the event's own severity,
/// whatever `level` the static labels held.
pub proof fn lemma_level_label_is_event_severity(e: LokiLogEvent, labels: Seq<PairView>)
    ensures
        lookup(request_of(e, labels)[0].0, level_key()) == Some(level_name(e.level)),
{
    lemma_lookup_insert(labels, level_key(), level_name(e.level), level_key());
}

/// Reading back the request made from an event gives the event's severity,
/// timestamp, message and metadata.
pub proof fn lemma_request_round_trip(e: LokiLogEvent, labels: Seq<PairView>)
    ensures
        decoded(request_of(e, labels)) == Some(event_view(e)),
{
    lemma_level_label_is_event_severity(e, labels);
    lemma_decimal_round_trip(e.timestamp as nat);
    let l = e.level;
    lemma_level_name_injective(l, Level::Error);
    lemma_level_name_injective(l, Level::Warn);
    lemma_level_name_injective(l, Level::Info);
    lemma_level_name_injective(l, Level::Debug);
    lemma_level_name_injective(l, Level::Trace);
    assert(level_named(level_name(l)) == Some(l));
}

} // verus!
