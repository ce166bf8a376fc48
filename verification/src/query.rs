//! Query parameters: a finite mapping from keys to values that is always
//! held, and rendered, in ascending key order.

use vstd::prelude::*;
use vstd::string::*;
use crate::text::{
    lemma_text_precedes_irreflexive, lemma_text_precedes_total, lemma_text_precedes_transitive,
    str_equal, str_precedes, text_precedes,
};

verus! {

/// A key with its value, as characters.
pub type Pair = (Seq<char>, Seq<char>);

/// The pairs of a vector of owned strings, as characters.
pub open spec fn pair_views(v: Seq<(String, String)>) -> Seq<Pair> {
    Seq::new(v.len(), |i: int| (v[i].0@, v[i].1@))
}

/// Every key sorts strictly before all keys behind it.
pub open spec fn keys_ascending(s: Seq<Pair>) -> bool {
    forall|i: int, j: int| 0 <= i < j < s.len() ==> text_precedes(#[trigger] s[i].0, #[trigger] s[j].0)
}

/// Some pair of `s` has the key `k`.
pub open spec fn has_key(s: Seq<Pair>, k: Seq<char>) -> bool {
    exists|i: int| 0 <= i < s.len() && #[trigger] s[i].0 == k
}

/// The index of a pair of `s` with the key `k`.
pub open spec fn key_index(s: Seq<Pair>, k: Seq<char>) -> int {
    choose|i: int| 0 <= i < s.len() && #[trigger] s[i].0 == k
}

/// The mapping that a sequence of pairs stands for.
pub open spec fn pairs_to_map(s: Seq<Pair>) -> Map<Seq<char>, Seq<char>> {
    Map::new(|k: Seq<char>| has_key(s, k), |k: Seq<char>| s[key_index(s, k)].1)
}

/// The pairs of a mapping in ascending key order.
pub open spec fn sorted_pairs(m: Map<Seq<char>, Seq<char>>) -> Seq<Pair> {
    choose|s: Seq<Pair>| keys_ascending(s) && pairs_to_map(s) == m
}

/// `key=value`.
pub open spec fn render_pair(p: Pair) -> Seq<char> {
    p.0 + seq!['='] + p.1
}

/// The pairs as `key=value`, joined by `&`, in the order given.
pub open spec fn render_pairs(s: Seq<Pair>) -> Seq<char>
    decreases s.len(),
{
    if s.len() == 0 {
        Seq::empty()
    } else if s.len() == 1 {
        render_pair(s[0])
    } else {
        render_pairs(s.drop_last()) + seq!['&'] + render_pair(s.last())
    }
}

/// The mapping with `key` set to `value`, where there is a value.
pub open spec fn with_param(
    m: Map<Seq<char>, Seq<char>>,
    key: Seq<char>,
    value: Option<String>,
) -> Map<Seq<char>, Seq<char>> {
    match value {
        Some(v) => m.insert(key, v@),
        None => m,
    }
}

/// The canonical query string of a mapping: its pairs by ascending key.
pub open spec fn canonical_query(m: Map<Seq<char>, Seq<char>>) -> Seq<char> {
    render_pairs(sorted_pairs(m))
}

/// In an ascending sequence a key stands at one index only.
pub proof fn lemma_ascending_index(s: Seq<Pair>, i: int)
    requires
        keys_ascending(s),
        0 <= i < s.len(),
    ensures
        has_key(s, s[i].0),
        key_index(s, s[i].0) == i,
        pairs_to_map(s).dom().contains(s[i].0),
        pairs_to_map(s)[s[i].0] == s[i].1,
{
    let j = key_index(s, s[i].0);
    assert(s[i].0 == s[i].0);
    if j < i {
        lemma_text_precedes_irreflexive(s[j].0);
    } else if i < j {
        lemma_text_precedes_irreflexive(s[i].0);
    }
}

/// Dropping the first pair of an ascending sequence removes its key from the mapping.
proof fn lemma_drop_first_map(s: Seq<Pair>)
    requires
        keys_ascending(s),
        s.len() > 0,
    ensures
        keys_ascending(s.drop_first()),
        pairs_to_map(s.drop_first()) == pairs_to_map(s).remove(s[0].0),
{
    let t = s.drop_first();
    assert forall|i: int, j: int| 0 <= i < j < t.len() implies text_precedes(
        #[trigger] t[i].0,
        #[trigger] t[j].0,
    ) by {
        assert(t[i] == s[i + 1] && t[j] == s[j + 1]);
    }
    let left = pairs_to_map(t);
    let right = pairs_to_map(s).remove(s[0].0);
    assert forall|k: Seq<char>| #[trigger] left.dom().contains(k) == right.dom().contains(k) by {
        if has_key(t, k) {
            let i = key_index(t, k);
            assert(t[i] == s[i + 1]);
            assert(has_key(s, k));
            lemma_text_precedes_irreflexive(s[0].0);
        }
        if has_key(s, k) && k != s[0].0 {
            let i = key_index(s, k);
            assert(t[i - 1] == s[i]);
            assert(has_key(t, k));
        }
    }
    assert forall|k: Seq<char>| #[trigger] left.dom().contains(k) implies left[k] == right[k] by {
        let i = key_index(t, k);
        assert(t[i] == s[i + 1]);
        lemma_ascending_index(t, i);
        lemma_ascending_index(s, i + 1);
    }
    assert(left =~= right);
}

/// A mapping has one sequence of pairs in ascending key order.
pub proof fn lemma_ascending_unique(a: Seq<Pair>, b: Seq<Pair>)
    requires
        keys_ascending(a),
        keys_ascending(b),
        pairs_to_map(a) == pairs_to_map(b),
    ensures
        a == b,
    decreases a.len(),
{
    if a.len() == 0 {
        if b.len() > 0 {
            lemma_ascending_index(b, 0);
            assert(has_key(a, b[0].0));
        }
        assert(a =~= b);
    } else if b.len() == 0 {
        lemma_ascending_index(a, 0);
        assert(has_key(b, a[0].0));
    } else {
        lemma_ascending_index(a, 0);
        lemma_ascending_index(b, 0);
        let j = key_index(b, a[0].0);
        let i = key_index(a, b[0].0);
        assert(has_key(b, a[0].0));
        assert(has_key(a, b[0].0));
        if j > 0 {
            if i > 0 {
                lemma_text_precedes_transitive(b[0].0, b[j].0, a[i].0);
            }
            lemma_text_precedes_irreflexive(b[0].0);
        }
        lemma_ascending_index(b, j);
        assert(a[0] == b[0]);
        lemma_drop_first_map(a);
        lemma_drop_first_map(b);
        lemma_ascending_unique(a.drop_first(), b.drop_first());
        assert(a =~= seq![a[0]] + a.drop_first());
        assert(b =~= seq![b[0]] + b.drop_first());
    }
}

/// An ascending sequence is the sorted pairs of the mapping it stands for.
pub proof fn lemma_ascending_is_sorted(s: Seq<Pair>)
    requires
        keys_ascending(s),
    ensures
        sorted_pairs(pairs_to_map(s)) == s,
{
    let t = sorted_pairs(pairs_to_map(s));
    lemma_ascending_unique(t, s);
}

/// The mapping of an ascending sequence has as many keys as the sequence has pairs.
pub proof fn lemma_ascending_len(s: Seq<Pair>)
    requires
        keys_ascending(s),
    ensures
        pairs_to_map(s).dom().finite(),
        pairs_to_map(s).dom().len() == s.len(),
    decreases s.len(),
{
    let dom = pairs_to_map(s).dom();
    if s.len() == 0 {
        assert(dom =~= Set::empty());
    } else {
        lemma_drop_first_map(s);
        lemma_ascending_len(s.drop_first());
        lemma_ascending_index(s, 0);
        let rest = pairs_to_map(s.drop_first()).dom();
        assert(rest == dom.remove(s[0].0));
        assert(dom =~= rest.insert(s[0].0));
    }
}

/// Putting a new key at its place in an ascending sequence inserts it into the mapping.
proof fn lemma_insert_at(s: Seq<Pair>, p: int, k: Seq<char>, v: Seq<char>)
    requires
        keys_ascending(s),
        0 <= p <= s.len(),
        forall|i: int| 0 <= i < p ==> text_precedes(#[trigger] s[i].0, k),
        forall|i: int| p <= i < s.len() ==> text_precedes(k, #[trigger] s[i].0),
    ensures
        keys_ascending(s.insert(p, (k, v))),
        pairs_to_map(s.insert(p, (k, v))) == pairs_to_map(s).insert(k, v),
{
    let t = s.insert(p, (k, v));
    assert forall|i: int, j: int| 0 <= i < j < t.len() implies text_precedes(
        #[trigger] t[i].0,
        #[trigger] t[j].0,
    ) by {
        if j < p {
            assert(t[i] == s[i] && t[j] == s[j]);
        } else if j == p {
            assert(t[i] == s[i]);
        } else if i < p {
            assert(t[i] == s[i] && t[j] == s[j - 1]);
        } else if i == p {
            assert(t[j] == s[j - 1]);
        } else {
            assert(t[i] == s[i - 1] && t[j] == s[j - 1]);
        }
    }
    let left = pairs_to_map(t);
    let right = pairs_to_map(s).insert(k, v);
    assert(t[p] == (k, v));
    lemma_ascending_index(t, p);
    assert forall|x: Seq<char>| #[trigger] left.dom().contains(x) == right.dom().contains(x) by {
        if has_key(t, x) && x != k {
            let i = key_index(t, x);
            if i < p {
                assert(t[i] == s[i]);
            } else {
                assert(t[i] == s[i - 1]);
            }
            assert(has_key(s, x));
        }
        if has_key(s, x) {
            let i = key_index(s, x);
            if i < p {
                assert(t[i] == s[i]);
            } else {
                assert(t[i + 1] == s[i]);
            }
            assert(has_key(t, x));
        }
    }
    assert forall|x: Seq<char>| #[trigger] left.dom().contains(x) implies left[x] == right[x] by {
        let i = key_index(t, x);
        lemma_ascending_index(t, i);
        if i < p {
            assert(t[i] == s[i]);
            lemma_ascending_index(s, i);
            lemma_text_precedes_irreflexive(k);
        } else if i > p {
            assert(t[i] == s[i - 1]);
            lemma_ascending_index(s, i - 1);
            lemma_text_precedes_irreflexive(k);
        }
    }
    assert(left =~= right);
}

/// Giving a key of an ascending sequence a new value updates the mapping.
proof fn lemma_replace_at(s: Seq<Pair>, p: int, v: Seq<char>)
    requires
        keys_ascending(s),
        0 <= p < s.len(),
    ensures
        keys_ascending(s.update(p, (s[p].0, v))),
        pairs_to_map(s.update(p, (s[p].0, v))) == pairs_to_map(s).insert(s[p].0, v),
{
    let k = s[p].0;
    let t = s.update(p, (k, v));
    assert forall|i: int, j: int| 0 <= i < j < t.len() implies text_precedes(
        #[trigger] t[i].0,
        #[trigger] t[j].0,
    ) by {
        assert(t[i].0 == s[i].0 && t[j].0 == s[j].0);
    }
    let left = pairs_to_map(t);
    let right = pairs_to_map(s).insert(k, v);
    assert forall|x: Seq<char>| #[trigger] left.dom().contains(x) == right.dom().contains(x) by {
        if has_key(t, x) {
            let i = key_index(t, x);
            assert(s[i].0 == x);
            assert(has_key(s, x));
        }
        if has_key(s, x) {
            let i = key_index(s, x);
            assert(t[i].0 == x);
            assert(has_key(t, x));
        }
        assert(t[p].0 == k);
    }
    assert forall|x: Seq<char>| #[trigger] left.dom().contains(x) implies left[x] == right[x] by {
        let i = key_index(t, x);
        lemma_ascending_index(t, i);
        if i != p {
            assert(t[i] == s[i]);
            lemma_ascending_index(s, i);
            lemma_ascending_index(s, p);
        }
    }
    assert(left =~= right);
}

/// The place of `k` among ascending keys: every key before `p` sorts before `k`, no key from `p` on does.
spec fn splits_at(s: Seq<Pair>, k: Seq<char>, p: int) -> bool {
    &&& 0 <= p <= s.len()
    &&& forall|i: int| 0 <= i < p ==> text_precedes(#[trigger] s[i].0, k)
    &&& forall|i: int| p <= i < s.len() ==> !text_precedes(#[trigger] s[i].0, k)
}

/// Among ascending keys every key has its place.
proof fn lemma_place_exists(s: Seq<Pair>, k: Seq<char>) -> (p: int)
    requires
        keys_ascending(s),
    ensures
        splits_at(s, k, p),
    decreases s.len(),
{
    if s.len() == 0 {
        0
    } else {
        let t = s.drop_last();
        assert forall|i: int, j: int| 0 <= i < j < t.len() implies text_precedes(
            #[trigger] t[i].0,
            #[trigger] t[j].0,
        ) by {
            assert(t[i] == s[i] && t[j] == s[j]);
        }
        let q = lemma_place_exists(t, k);
        assert forall|i: int| 0 <= i < q implies text_precedes(#[trigger] s[i].0, k) by {
            assert(t[i] == s[i]);
        }
        if q < t.len() {
            assert(t[q] == s[q]);
            if text_precedes(s.last().0, k) {
                lemma_text_precedes_transitive(s[q].0, s.last().0, k);
            }
            assert forall|i: int| q <= i < s.len() implies !text_precedes(#[trigger] s[i].0, k) by {
                if i < t.len() {
                    assert(t[i] == s[i]);
                }
            }
            q
        } else if text_precedes(s.last().0, k) {
            s.len() as int
        } else {
            q
        }
    }
}

/// Every finite mapping has its pairs in ascending key order: the sorted
/// pairs are ascending and stand for the mapping.
pub proof fn lemma_sorted_pairs(m: Map<Seq<char>, Seq<char>>)
    requires
        m.dom().finite(),
    ensures
        keys_ascending(sorted_pairs(m)),
        pairs_to_map(sorted_pairs(m)) == m,
    decreases m.dom().len(),
{
    if m.dom().len() == 0 {
        let none = Seq::<Pair>::empty();
        assert(m.dom() =~= Set::empty());
        assert(pairs_to_map(none) =~= m);
        assert(keys_ascending(none));
    } else {
        let k = m.dom().choose();
        let rest = m.remove(k);
        lemma_sorted_pairs(rest);
        let s = sorted_pairs(rest);
        let p = lemma_place_exists(s, k);
        assert forall|i: int| p <= i < s.len() implies text_precedes(k, #[trigger] s[i].0) by {
            lemma_ascending_index(s, i);
            lemma_text_precedes_total(s[i].0, k);
        }
        lemma_insert_at(s, p, k, m[k]);
        assert(rest.insert(k, m[k]) =~= m);
        assert(keys_ascending(s.insert(p, (k, m[k]))) && pairs_to_map(s.insert(p, (k, m[k]))) == m);
    }
}

/// Query parameters of one request: each key once, kept in ascending key order.
#[derive(Debug)]
pub struct QueryParams {
    entries: Vec<(String, String)>,
}

impl View for QueryParams {
    type V = Map<Seq<char>, Seq<char>>;

    closed spec fn view(&self) -> Map<Seq<char>, Seq<char>> {
        pairs_to_map(self.pairs())
    }
}

impl QueryParams {
    /// The pairs as they are held, first to last.
    pub closed spec fn pairs(&self) -> Seq<Pair> {
        pair_views(self.entries@)
    }

    /// The pairs are held in ascending key order, so no key occurs twice.
    pub closed spec fn wf(&self) -> bool {
        keys_ascending(self.pairs())
    }

    /// What is held is the sorted pairs of the mapping, one pair for each key.
    pub proof fn lemma_pairs_sorted(&self)
        requires
            self.wf(),
        ensures
            self.pairs() == sorted_pairs(self@),
            self@.dom().finite(),
            self@.dom().len() == self.pairs().len(),
    {
        lemma_ascending_is_sorted(self.pairs());
        lemma_ascending_len(self.pairs());
    }

    /// The empty mapping.
    pub fn new() -> (q: Self)
        ensures
            q.wf(),
            q@ == Map::<Seq<char>, Seq<char>>::empty(),
    {
        let q = QueryParams { entries: Vec::new() };
        assert(q@ =~= Map::<Seq<char>, Seq<char>>::empty());
        q
    }

    /// The number of keys.
    pub fn len(&self) -> (n: usize)
        requires
            self.wf(),
        ensures
            n == self@.dom().len(),
    {
        proof {
            self.lemma_pairs_sorted();
        }
        self.entries.len()
    }

    /// Whether the mapping has no key.
    pub fn is_empty(&self) -> (b: bool)
        requires
            self.wf(),
        ensures
            b == (self@ == Map::<Seq<char>, Seq<char>>::empty()),
    {
        proof {
            if self.entries@.len() == 0 {
                assert(self@ =~= Map::<Seq<char>, Seq<char>>::empty());
            } else {
                lemma_ascending_index(self.pairs(), 0);
            }
        }
        self.entries.len() == 0
    }

    /// Index of the first pair whose key does not sort before `key`.
    fn lower_bound(&self, key: &str) -> (p: usize)
        requires
            self.wf(),
        ensures
            p <= self.pairs().len(),
            forall|i: int| 0 <= i < p ==> text_precedes(#[trigger] self.pairs()[i].0, key@),
            p < self.pairs().len() ==> !text_precedes(self.pairs()[p as int].0, key@),
    {
        let mut p: usize = 0;
        while p < self.entries.len() && str_precedes(self.entries[p].0.as_str(), key)
            invariant
                p <= self.entries@.len(),
                forall|i: int| 0 <= i < p ==> text_precedes(#[trigger] self.pairs()[i].0, key@),
            decreases self.entries@.len() - p,
        {
            p += 1;
        }
        p
    }

    /// Sets `key` to `value`, replacing the value that the key had.
    pub fn insert(&mut self, key: String, value: String)
        requires
            old(self).wf(),
        ensures
            final(self).wf(),
            final(self)@ == old(self)@.insert(key@, value@),
    {
        let p = self.lower_bound(key.as_str());
        let ghost before = self.pairs();
        if p < self.entries.len() && str_equal(self.entries[p].0.as_str(), key.as_str()) {
            proof {
                lemma_replace_at(before, p as int, value@);
            }
            self.entries.set(p, (key, value));
            assert(self.pairs() =~= before.update(p as int, (key@, value@)));
        } else {
            proof {
                assert forall|i: int| p <= i < before.len() implies text_precedes(
                    key@,
                    #[trigger] before[i].0,
                ) by {
                    lemma_text_precedes_total(before[p as int].0, key@);
                    if i > p {
                        lemma_text_precedes_transitive(key@, before[p as int].0, before[i].0);
                    }
                }
                lemma_insert_at(before, p as int, key@, value@);
            }
            self.entries.insert(p, (key, value));
            assert(self.pairs() =~= before.insert(p as int, (key@, value@)));
        }
    }

    /// Sets `key` to `value` where there is a value, and changes nothing where there is none.
    pub fn insert_opt(&mut self, key: &str, value: &Option<String>)
        requires
            old(self).wf(),
        ensures
            final(self).wf(),
            final(self)@ == with_param(old(self)@, key@, *value),
    {
        if let Some(v) = value {
            self.insert(key.to_owned(), v.clone());
        }
    }

    /// The value that `key` has, if it has one.
    pub fn get(&self, key: &str) -> (r: Option<&String>)
        requires
            self.wf(),
        ensures
            match r {
                Some(v) => self@.contains_key(key@) && v@ == self@[key@],
                None => !self@.contains_key(key@),
            },
    {
        let p = self.lower_bound(key);
        if p < self.entries.len() && str_equal(self.entries[p].0.as_str(), key) {
            proof {
                lemma_ascending_index(self.pairs(), p as int);
            }
            Some(&self.entries[p].1)
        } else {
            proof {
                if has_key(self.pairs(), key@) {
                    let i = key_index(self.pairs(), key@);
                    if i < p {
                        lemma_text_precedes_irreflexive(key@);
                    } else {
                        lemma_text_precedes_total(self.pairs()[p as int].0, key@);
                        if i > p {
                            lemma_text_precedes_transitive(
                                key@,
                                self.pairs()[p as int].0,
                                self.pairs()[i].0,
                            );
                        }
                        lemma_text_precedes_irreflexive(key@);
                    }
                }
            }
            None
        }
    }

    /// The pairs as owned strings, by ascending key.
    pub fn to_pairs(&self) -> (out: Vec<(String, String)>)
        requires
            self.wf(),
        ensures
            pair_views(out@) == sorted_pairs(self@),
    {
        let mut out: Vec<(String, String)> = Vec::new();
        let mut i: usize = 0;
        while i < self.entries.len()
            invariant
                i <= self.entries@.len(),
                out@.len() == i,
                pair_views(out@) == self.pairs().take(i as int),
            decreases self.entries@.len() - i,
        {
            let ghost before = out@;
            let key = self.entries[i].0.clone();
            let value = self.entries[i].1.clone();
            out.push((key, value));
            proof {
                assert forall|j: int| 0 <= j < i implies pair_views(out@)[j] == self.pairs()[j] by {
                    assert(out@[j] == before[j]);
                    assert(pair_views(before)[j] == self.pairs().take(i as int)[j]);
                }
                assert(pair_views(out@) =~= self.pairs().take(i + 1));
            }
            i += 1;
        }
        proof {
            self.lemma_pairs_sorted();
            assert(self.pairs().take(i as int) =~= self.pairs());
        }
        out
    }

    /// The pairs as `key=value` joined by `&`, by ascending key.
    pub fn to_query_string(&self) -> (text: String)
        requires
            self.wf(),
        ensures
            text@ == canonical_query(self@),
    {
        let mut text = String::new();
        let mut i: usize = 0;
        proof {
            reveal_strlit("&");
            reveal_strlit("=");
            assert(self.pairs().take(0) =~= Seq::<Pair>::empty());
        }
        while i < self.entries.len()
            invariant
                i <= self.entries@.len(),
                "&"@ == seq!['&'],
                "="@ == seq!['='],
                text@ == render_pairs(self.pairs().take(i as int)),
            decreases self.entries@.len() - i,
        {
            let ghost done = self.pairs().take(i as int);
            let ghost next = self.pairs().take(i + 1);
            if i > 0 {
                text.append("&");
            }
            text.append(self.entries[i].0.as_str());
            text.append("=");
            text.append(self.entries[i].1.as_str());
            proof {
                assert(next.drop_last() =~= done);
                assert(next.last() == self.pairs()[i as int]);
                assert(text@ =~= render_pairs(next));
            }
            i += 1;
        }
        proof {
            self.lemma_pairs_sorted();
            assert(self.pairs().take(i as int) =~= self.pairs());
        }
        text
    }

    /// Whether `key` has a value.
    pub fn contains_key(&self, key: &str) -> (b: bool)
        requires
            self.wf(),
        ensures
            b == self@.contains_key(key@),
    {
        self.get(key).is_some()
    }
}

} // verus!
