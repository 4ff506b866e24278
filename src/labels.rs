//! Label sets: string maps kept sorted by key, and their rendering.
use vstd::prelude::*;
use crate::text::{seq_less, str_less, lemma_seq_less_trichotomy, lemma_seq_less_transitive};

verus! {

/// A key/value pair, seen as two character sequences.
pub type PairView = (Seq<char>, Seq<char>);

/// Keys strictly increase along the sequence (so they are unique).
pub open spec fn sorted_keys(s: Seq<PairView>) -> bool {
    forall|i: int, j: int| 0 <= i < j < s.len() ==> seq_less(#[trigger] s[i].0, #[trigger] s[j].0)
}

/// The sequence after setting `k` to `v`: an existing key is overwritten in
/// place, a new one goes where the order puts it.
pub open spec fn insert_sorted(s: Seq<PairView>, k: Seq<char>, v: Seq<char>) -> Seq<PairView>
    decreases s.len(),
{
    if s.len() == 0 {
        seq![(k, v)]
    } else if s[0].0 == k {
        seq![(k, v)] + s.drop_first()
    } else if seq_less(k, s[0].0) {
        seq![(k, v)] + s
    } else {
        seq![s[0]] + insert_sorted(s.drop_first(), k, v)
    }
}

/// The value of the first pair with key `k`.
pub open spec fn lookup(s: Seq<PairView>, k: Seq<char>) -> Option<Seq<char>>
    decreases s.len(),
{
    if s.len() == 0 {
        None
    } else if s[0].0 == k {
        Some(s[0].1)
    } else {
        lookup(s.drop_first(), k)
    }
}

/// `name="value"`
pub open spec fn pair_text(p: PairView) -> Seq<char> {
    p.0 + seq!['=', '"'] + p.1 + seq!['"']
}

/// The pairs' texts joined by commas.
pub open spec fn render_body(s: Seq<PairView>) -> Seq<char>
    decreases s.len(),
{
    if s.len() == 0 {
        Seq::empty()
    } else if s.len() == 1 {
        pair_text(s[0])
    } else {
        render_body(s.drop_last()) + seq![','] + pair_text(s.last())
    }
}

/// `{a="1",b="2"}`: the label string of a stream.
pub open spec fn render_labels(s: Seq<PairView>) -> Seq<char> {
    seq!['{'] + render_body(s) + seq!['}']
}

/// After setting `k`, looking it up gives `v`; other keys are unchanged.
pub proof fn lemma_lookup_insert(s: Seq<PairView>, k: Seq<char>, v: Seq<char>, q: Seq<char>)
    ensures
        lookup(insert_sorted(s, k, v), q) == (if q == k { Some(v) } else { lookup(s, q) }),
    decreases s.len(),
{
    let r = insert_sorted(s, k, v);
    if s.len() == 0 {
    } else if s[0].0 == k {
        assert(r.drop_first() =~= s.drop_first());
    } else if seq_less(k, s[0].0) {
        assert(r.drop_first() =~= s);
    } else {
        assert(r.drop_first() =~= insert_sorted(s.drop_first(), k, v));
        lemma_lookup_insert(s.drop_first(), k, v, q);
    }
}

/// A key below `k` and below every key of `s` is below every key after the
/// insertion.
proof fn lemma_insert_lower_bound(s: Seq<PairView>, k: Seq<char>, v: Seq<char>, x: Seq<char>)
    requires
        seq_less(x, k),
        forall|j: int| 0 <= j < s.len() ==> seq_less(x, #[trigger] s[j].0),
    ensures
        forall|i: int| 0 <= i < insert_sorted(s, k, v).len() ==> seq_less(x, #[trigger] insert_sorted(s, k, v)[i].0),
    decreases s.len(),
{
    let r = insert_sorted(s, k, v);
    if s.len() == 0 {
    } else if s[0].0 == k {
        assert forall|i: int| 0 <= i < r.len() implies seq_less(x, #[trigger] r[i].0) by {
            if i > 0 {
                assert(r[i] == s[i]);
            }
        }
    } else if seq_less(k, s[0].0) {
        assert forall|i: int| 0 <= i < r.len() implies seq_less(x, #[trigger] r[i].0) by {
            if i > 0 {
                assert(r[i] == s[i - 1]);
            }
        }
    } else {
        let t = s.drop_first();
        assert forall|j: int| 0 <= j < t.len() implies seq_less(x, #[trigger] t[j].0) by {
            assert(t[j] == s[j + 1]);
        }
        lemma_insert_lower_bound(t, k, v, x);
        assert forall|i: int| 0 <= i < r.len() implies seq_less(x, #[trigger] r[i].0) by {
            if i > 0 {
                assert(r[i] == insert_sorted(t, k, v)[i - 1]);
            }
        }
    }
}

/// Setting a key keeps the keys sorted.
pub proof fn lemma_insert_sorted_keeps_order(s: Seq<PairView>, k: Seq<char>, v: Seq<char>)
    requires
        sorted_keys(s),
    ensures
        sorted_keys(insert_sorted(s, k, v)),
    decreases s.len(),
{
    let r = insert_sorted(s, k, v);
    if s.len() == 0 {
    } else if s[0].0 == k {
        assert forall|i: int, j: int| 0 <= i < j < r.len() implies seq_less(#[trigger] r[i].0, #[trigger] r[j].0) by {
            assert(r[j] == s[j]);
            if i > 0 {
                assert(r[i] == s[i]);
            }
        }
    } else if seq_less(k, s[0].0) {
        assert forall|i: int, j: int| 0 <= i < j < r.len() implies seq_less(#[trigger] r[i].0, #[trigger] r[j].0) by {
            assert(r[j] == s[j - 1]);
            if i > 0 {
                assert(r[i] == s[i - 1]);
            } else if j > 1 {
                lemma_seq_less_transitive(k, s[0].0, s[j - 1].0);
            }
        }
    } else {
        let t = s.drop_first();
        lemma_seq_less_trichotomy(k, s[0].0);
        assert(sorted_keys(t)) by {
            assert forall|i: int, j: int| 0 <= i < j < t.len() implies seq_less(#[trigger] t[i].0, #[trigger] t[j].0) by {
                assert(t[i] == s[i + 1]);
                assert(t[j] == s[j + 1]);
            }
        }
        lemma_insert_sorted_keeps_order(t, k, v);
        assert forall|j: int| 0 <= j < t.len() implies seq_less(s[0].0, #[trigger] t[j].0) by {
            assert(t[j] == s[j + 1]);
        }
        lemma_insert_lower_bound(t, k, v, s[0].0);
        let rt = insert_sorted(t, k, v);
        assert forall|i: int, j: int| 0 <= i < j < r.len() implies seq_less(#[trigger] r[i].0, #[trigger] r[j].0) by {
            assert(r[j] == rt[j - 1]);
            if i > 0 {
                assert(r[i] == rt[i - 1]);
            }
        }
    }
}

} // verus!

verus! {

/// A string map whose pairs are kept sorted by key; a later value for a key
/// overwrites the earlier one.
pub struct LabelSet {
    pairs: Vec<(String, String)>,
}

impl View for LabelSet {
    type V = Seq<PairView>;

    closed spec fn view(&self) -> Seq<PairView> {
        self.pairs@.map_values(|p: (String, String)| (p.0@, p.1@))
    }
}

impl LabelSet {
    /// The keys are unique and in increasing order.
    pub open spec fn wf(&self) -> bool {
        sorted_keys(self@)
    }

    /// The empty set.
    pub fn new() -> (r: LabelSet)
        ensures
            r@ == Seq::<PairView>::empty(),
            r.wf(),
    {
        let r = LabelSet { pairs: Vec::new() };
        assert(r@ =~= Seq::<PairView>::empty());
        r
    }

    /// The empty set, with room for `count` pairs.
    pub fn with_capacity(count: usize) -> (r: LabelSet)
        ensures
            r@ == Seq::<PairView>::empty(),
            r.wf(),
    {
        let r = LabelSet { pairs: Vec::with_capacity(count) };
        assert(r@ =~= Seq::<PairView>::empty());
        r
    }

    /// Number of pairs.
    pub fn len(&self) -> (r: usize)
        ensures
            r == self@.len(),
    {
        self.pairs.len()
    }

    /// The pair at position `i`, in key order.
    pub fn pair(&self, i: usize) -> (r: (&String, &String))
        requires
            i < self@.len(),
        ensures
            (r.0@, r.1@) == self@[i as int],
    {
        let p = &self.pairs[i];
        (&p.0, &p.1)
    }

    /// A copy with the same pairs.
    pub fn duplicate(&self) -> (r: LabelSet)
        ensures
            r@ == self@,
    {
        let mut pairs: Vec<(String, String)> = Vec::new();
        let mut i: usize = 0;
        while i < self.pairs.len()
            invariant
                i <= self.pairs.len(),
                pairs@.map_values(|p: (String, String)| (p.0@, p.1@)) =~= self@.take(i as int),
            decreases self.pairs.len() - i,
        {
            let p = &self.pairs[i];
            pairs.push((p.0.clone(), p.1.clone()));
            proof {
                assert(self@[i as int] == (p.0@, p.1@));
                assert(self@.take(i + 1) =~= self@.take(i as int).push(self@[i as int]));
            }
            i = i + 1;
        }
        assert(self@.take(i as int) =~= self@);
        LabelSet { pairs }
    }

    /// The value stored under `key`, if any.
    pub fn get(&self, key: &str) -> (r: Option<&String>)
        ensures
            match r {
                Some(v) => lookup(self@, key@) == Some(v@),
                None => lookup(self@, key@) is None,
            },
    {
        let wanted = key.to_owned();
        let mut i: usize = 0;
        assert(self@.skip(0) =~= self@);
        while i < self.pairs.len()
            invariant
                i <= self.pairs.len(),
                wanted@ == key@,
                lookup(self@, key@) == lookup(self@.skip(i as int), key@),
            decreases self.pairs.len() - i,
        {
            assert(self@.skip(i as int).drop_first() =~= self@.skip(i + 1));
            assert(self@.skip(i as int)[0] == (self.pairs@[i as int].0@, self.pairs@[i as int].1@));
            if self.pairs[i].0 == wanted {
                return Some(&self.pairs[i].1);
            }
            i = i + 1;
        }
        None
    }

    /// Sets `key` to `value`, overwriting an earlier value of the key.
    pub fn insert(&mut self, key: String, value: String)
        requires
            old(self).wf(),
        ensures
            final(self)@ == insert_sorted(old(self)@, key@, value@),
            final(self).wf(),
    {
        let ghost s = self@;
        let mut i: usize = 0;
        assert(s.skip(0) =~= s);
        while i < self.pairs.len() && !(self.pairs[i].0 == key) && !str_less(key.as_str(), self.pairs[i].0.as_str())
            invariant
                i <= self.pairs.len(),
                self@ == s,
                insert_sorted(s, key@, value@) == s.take(i as int) + insert_sorted(s.skip(i as int), key@, value@),
            decreases self.pairs.len() - i,
        {
            proof {
                let t = s.skip(i as int);
                assert(t.drop_first() =~= s.skip(i + 1));
                assert(s.take(i + 1) =~= s.take(i as int) + seq![t[0]]);
            }
            i = i + 1;
        }
        proof {
            lemma_insert_sorted_keeps_order(s, key@, value@);
        }
        if i < self.pairs.len() && self.pairs[i].0 == key {
            self.pairs.set(i, (key, value));
            proof {
                let t = s.skip(i as int);
                assert(self@ =~= s.take(i as int) + (seq![(t[0].0, value@)] + t.drop_first()));
            }
        } else {
            self.pairs.insert(i, (key, value));
            proof {
                let t = s.skip(i as int);
                assert(self@ =~= s.take(i as int) + insert_sorted(t, key@, value@));
            }
        }
    }
}

/// Renders a label set as `{name="value",...}` in key order.
pub fn build_labels(labels: &LabelSet) -> (r: String)
    ensures
        r@ == render_labels(labels@),
{
    let mut s = String::new();
    proof {
        reveal_strlit("{");
        reveal_strlit("=\"");
        reveal_strlit("\"");
        reveal_strlit(",");
        reveal_strlit("}");
    }
    s.append("{");
    let mut i: usize = 0;
    let n = labels.len();
    while i < n
        invariant
            n == labels@.len(),
            i <= n,
            s@ == seq!['{'] + render_body(labels@.take(i as int)),
        decreases n - i,
    {
        let (k, v) = labels.pair(i);
        let ghost before = s@;
        proof {
            reveal_strlit("=\"");
            reveal_strlit("\"");
            reveal_strlit(",");
        }
        if i > 0 {
            s.append(",");
        }
        s.append(k.as_str());
        s.append("=\"");
        s.append(v.as_str());
        s.append("\"");
        proof {
            let t = labels@.take(i + 1);
            assert(t.drop_last() =~= labels@.take(i as int));
            assert(t.last() == labels@[i as int]);
            assert(pair_text(t.last()) =~= k@ + seq!['=', '"'] + v@ + seq!['"']);
            if i == 0 {
                assert(labels@.take(0) =~= Seq::<PairView>::empty());
                assert(before =~= seq!['{']);
                assert(render_body(t) == pair_text(t[0]));
                assert(s@ =~= before + pair_text(t.last()));
            } else {
                assert(render_body(t) == render_body(t.drop_last()) + seq![','] + pair_text(t.last()));
                assert(s@ =~= before + seq![','] + pair_text(t.last()));
            }
            assert(s@ =~= seq!['{'] + render_body(t));
        }
        i = i + 1;
    }
    s.append("}");
    assert(labels@.take(n as int) =~= labels@);
    s
}

} // verus!
