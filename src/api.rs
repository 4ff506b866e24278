//! The request body in the compact binary encoding's logical shape: streams
//! identified by a rendered label string, each holding entries with a
//! timestamp, a line and structured metadata pairs.
use vstd::prelude::*;
use crate::labels::{LabelSet, PairView, build_labels, render_labels, lemma_insert_sorted_keeps_order};
use crate::level::{Level, level_name};
use crate::log_event::LokiLogEvent;
use crate::request::{level_key, stream_labels};

verus! {

/// A point in time as whole seconds and nanoseconds since the Unix epoch.
#[derive(Clone, Copy, Debug, PartialEq, Eq, Structural)]
pub struct Timestamp {
    pub seconds: i64,
    pub nanos: i32,
}

impl Timestamp {
    /// Splits nanoseconds since the epoch into seconds and the remainder.
    pub fn from_unix_nanos(ns: u64) -> (r: Timestamp)
        ensures
            r.seconds as int == ns as int / 1_000_000_000,
            r.nanos as int == ns as int % 1_000_000_000,
            r.seconds as int * 1_000_000_000 + r.nanos as int == ns as int,
    {
        let s: u64 = ns / 1_000_000_000;
        let n: u64 = ns % 1_000_000_000;
        assert(s <= 18_446_744_074);
        Timestamp { seconds: s as i64, nanos: n as i32 }
    }
}

#[derive(Clone, Copy, Debug, PartialEq, Eq, Structural)]
pub struct PushResponse {}

/// One structured metadata pair of an entry.
pub struct LabelPairAdapter {
    pub name: String,
    pub value: String,
}

/// One log line of a stream.
pub struct EntryAdapter {
    pub timestamp: Option<Timestamp>,
    pub line: String,
    pub structured_metadata: Vec<LabelPairAdapter>,
}

/// A set of entries sharing one rendered label string.
pub struct StreamAdapter {
    pub labels: String,
    pub entries: Vec<EntryAdapter>,
    /// The hash of the stream as the endpoint computed it; zero when unknown.
    pub hash: u64,
}

/// The body of one push in the binary encoding.
pub struct PushRequest {
    pub streams: Vec<StreamAdapter>,
}

pub open spec fn pairs_view(v: Seq<LabelPairAdapter>) -> Seq<PairView> {
    v.map_values(|p: LabelPairAdapter| (p.name@, p.value@))
}

/// The label string of each severity, rendered once from the static labels.
pub struct LevelLabels {
    error: String,
    warn: String,
    info: String,
    debug: String,
    trace: String,
}

impl LevelLabels {
    pub closed spec fn spec_get(&self, l: Level) -> Seq<char> {
        match l {
            Level::Error => self.error@,
            Level::Warn => self.warn@,
            Level::Info => self.info@,
            Level::Debug => self.debug@,
            Level::Trace => self.trace@,
        }
    }

    /// The label string of severity `l`.
    pub fn get(&self, l: Level) -> (r: &String)
        ensures
            r@ == self.spec_get(l),
    {
        match l {
            Level::Error => &self.error,
            Level::Warn => &self.warn,
            Level::Info => &self.info,
            Level::Debug => &self.debug,
            Level::Trace => &self.trace,
        }
    }
}

/// The label string of the stream of severity `l`.
fn level_label_string(labels: &LabelSet, l: Level) -> (r: String)
    requires
        labels.wf(),
    ensures
        r@ == render_labels(stream_labels(labels@, l)),
{
    let mut with_level = labels.duplicate();
    proof {
        reveal_strlit("level");
        assert("level"@ =~= level_key());
        lemma_insert_sorted_keeps_order(labels@, level_key(), level_name(l));
    }
    with_level.insert("level".to_owned(), l.as_str().to_owned());
    build_labels(&with_level)
}

/// Renders, for each severity, the static labels with `level` set to the
/// severity's name.
pub fn init_labels(labels: &LabelSet) -> (r: LevelLabels)
    requires
        labels.wf(),
    ensures
        forall|l: Level| #[trigger] r.spec_get(l) == render_labels(stream_labels(labels@, l)),
{
    LevelLabels {
        error: level_label_string(labels, Level::Error),
        warn: level_label_string(labels, Level::Warn),
        info: level_label_string(labels, Level::Info),
        debug: level_label_string(labels, Level::Debug),
        trace: level_label_string(labels, Level::Trace),
    }
}

/// The metadata pairs of a label set, in key order.
pub fn label_pairs(set: &LabelSet) -> (r: Vec<LabelPairAdapter>)
    ensures
        pairs_view(r@) == set@,
{
    let mut r: Vec<LabelPairAdapter> = Vec::new();
    let mut i: usize = 0;
    while i < set.len()
        invariant
            i <= set@.len(),
            pairs_view(r@) =~= set@.take(i as int),
        decreases set@.len() - i,
    {
        let (k, v) = set.pair(i);
        r.push(LabelPairAdapter { name: k.clone(), value: v.clone() });
        assert(set@.take(i + 1) =~= set@.take(i as int).push(set@[i as int]));
        i = i + 1;
    }
    assert(set@.take(i as int) =~= set@);
    r
}

impl PushRequest {
    /// The push that delivers one event: one stream whose label string is the
    /// one of the event's severity, holding the event as its one entry.
    pub fn from_event(event: LokiLogEvent, level_labels: &LevelLabels) -> (r: PushRequest)
        ensures
            r.streams@.len() == 1,
            r.streams@[0].labels@ == level_labels.spec_get(event.level),
            r.streams@[0].hash == 0,
            r.streams@[0].entries@.len() == 1,
            r.streams@[0].entries@[0].timestamp == Some(Timestamp {
                seconds: (event.timestamp / 1_000_000_000) as i64,
                nanos: (event.timestamp % 1_000_000_000) as i32,
            }),
            r.streams@[0].entries@[0].line@ == event.content@,
            pairs_view(r.streams@[0].entries@[0].structured_metadata@) == event.structured_metadata@,
    {
        let entry = EntryAdapter {
            timestamp: Some(Timestamp::from_unix_nanos(event.timestamp)),
            line: event.content,
            structured_metadata: label_pairs(&event.structured_metadata),
        };
        let mut entries: Vec<EntryAdapter> = Vec::new();
        entries.push(entry);
        let stream = StreamAdapter { labels: level_labels.get(event.level).clone(), entries, hash: 0 };
        let mut streams: Vec<StreamAdapter> = Vec::new();
        streams.push(stream);
        PushRequest { streams }
    }
}

} // verus!
