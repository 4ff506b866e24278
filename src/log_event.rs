//! The event model: one log occurrence and its structured metadata.
use vstd::prelude::*;
use crate::labels::{LabelSet, PairView, insert_sorted};
use crate::level::Level;

verus! {

/// One log occurrence. The timestamp is in nanoseconds since the Unix epoch,
/// taken once when the event is made.
pub struct LokiLogEvent {
    pub level: Level,
    pub timestamp: u64,
    pub structured_metadata: LabelSet,
    pub content: String,
}

impl LokiLogEvent {
    /// The metadata keys are unique and sorted.
    pub open spec fn wf(&self) -> bool {
        self.structured_metadata.wf()
    }

    pub fn new(level: Level, timestamp: u64, structured_metadata: LabelSet, content: String) -> (r: LokiLogEvent)
        requires
            structured_metadata.wf(),
        ensures
            r.level == level,
            r.timestamp == timestamp,
            r.structured_metadata@ == structured_metadata@,
            r.content@ == content@,
            r.wf(),
    {
        LokiLogEvent { level, timestamp, structured_metadata, content }
    }
}

/// The map made by setting the pairs one after another: a later value for a
/// repeated key overwrites an earlier one.
pub open spec fn collected(pairs: Seq<PairView>) -> Seq<PairView>
    decreases pairs.len(),
{
    if pairs.len() == 0 {
        Seq::empty()
    } else {
        let p = pairs.last();
        insert_sorted(collected(pairs.drop_last()), p.0, p.1)
    }
}

/// Gathers the key/value pairs of one event.
pub struct KvCollector(pub LabelSet);

impl KvCollector {
    /// An empty collector with room for `count` pairs.
    pub fn with_capacity(count: usize) -> (r: KvCollector)
        ensures
            r.0@ == Seq::<PairView>::empty(),
            r.0.wf(),
    {
        KvCollector(LabelSet::with_capacity(count))
    }

    /// Records one pair; a later value for the same key wins.
    pub fn visit_pair(&mut self, key: String, value: String)
        requires
            old(self).0.wf(),
        ensures
            final(self).0@ == insert_sorted(old(self).0@, key@, value@),
            final(self).0.wf(),
    {
        self.0.insert(key, value);
    }
}

/// The metadata map of a list of pairs, in the order the event gave them.
pub fn collect(pairs: &Vec<(String, String)>) -> (r: LabelSet)
    ensures
        r@ == collected(pairs@.map_values(|p: (String, String)| (p.0@, p.1@))),
        r.wf(),
{
    let ghost pv = pairs@.map_values(|p: (String, String)| (p.0@, p.1@));
    let mut c = KvCollector::with_capacity(pairs.len());
    let mut i: usize = 0;
    assert(pv.take(0) =~= Seq::<PairView>::empty());
    while i < pairs.len()
        invariant
            i <= pairs.len(),
            pv == pairs@.map_values(|p: (String, String)| (p.0@, p.1@)),
            c.0@ == collected(pv.take(i as int)),
            c.0.wf(),
        decreases pairs.len() - i,
    {
        let k = pairs[i].0.clone();
        let v = pairs[i].1.clone();
        proof {
            assert((k@, v@) == pv[i as int]);
            assert(pv.take(i + 1).drop_last() =~= pv.take(i as int));
            assert(pv.take(i + 1).last() == pv[i as int]);
        }
        c.visit_pair(k, v);
        i = i + 1;
    }
    assert(pv.take(i as int) =~= pv);
    c.0
}

} // verus!
