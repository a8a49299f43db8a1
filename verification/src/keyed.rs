//! Bounded key/value store that remembers first-seen key order. Updating an
//! existing key rewrites its value in place; inserting a fresh key appends
//! it, evicting the oldest key (order entry and record together) when the
//! limit would be exceeded.

use crate::ring::ring_tail;
use crate::textutil::{lemma_lex_total, str_le, text_le};
use vstd::prelude::*;

verus! {

/// No key occurs twice.
pub open spec fn distinct_keys(s: Seq<(Seq<char>, Seq<char>)>) -> bool {
    forall|i: int, j: int| 0 <= i < j < s.len() ==> s[i].0 != s[j].0
}

pub open spec fn has_key(s: Seq<(Seq<char>, Seq<char>)>, k: Seq<char>) -> bool {
    exists|i: int| 0 <= i < s.len() && (#[trigger] s[i]).0 == k
}

/// Position of `k` in `s`; meaningful only under `distinct_keys` and
/// `has_key`.
pub open spec fn key_at(s: Seq<(Seq<char>, Seq<char>)>, k: Seq<char>) -> int {
    choose|i: int| 0 <= i < s.len() && (#[trigger] s[i]).0 == k
}

pub open spec fn value_of(s: Seq<(Seq<char>, Seq<char>)>, k: Seq<char>) -> Seq<char> {
    s[key_at(s, k)].1
}

/// The keys of `s`, in stored (first-seen) order.
pub open spec fn keys_of(s: Seq<(Seq<char>, Seq<char>)>) -> Seq<Seq<char>> {
    s.map_values(|e: (Seq<char>, Seq<char>)| e.0)
}

/// One insert-or-update step on the visible entries.
pub open spec fn keyed_upsert(
    s: Seq<(Seq<char>, Seq<char>)>,
    k: Seq<char>,
    v: Seq<char>,
    limit: nat,
) -> Seq<(Seq<char>, Seq<char>)> {
    if has_key(s, k) {
        s.update(key_at(s, k), (k, v))
    } else if s.len() < limit {
        s.push((k, v))
    } else {
        s.push((k, v)).drop_first()
    }
}

/// Key order over entries.
pub open spec fn entries_sorted(s: Seq<(Seq<char>, Seq<char>)>) -> bool {
    forall|i: int, j: int| 0 <= i < j < s.len() ==> text_le(#[trigger] s[i].0, #[trigger] s[j].0)
}

/// One entry placed into an already sorted run, before the first entry
/// it sorts at or before.
pub open spec fn insert_sorted(
    s: Seq<(Seq<char>, Seq<char>)>,
    e: (Seq<char>, Seq<char>),
) -> Seq<(Seq<char>, Seq<char>)>
    decreases s.len(),
{
    if s.len() == 0 {
        seq![e]
    } else if text_le(e.0, s.first().0) {
        seq![e] + s
    } else {
        seq![s.first()] + insert_sorted(s.drop_first(), e)
    }
}

/// The entries rearranged into key order.
pub open spec fn sort_entries(s: Seq<(Seq<char>, Seq<char>)>) -> Seq<(Seq<char>, Seq<char>)>
    decreases s.len(),
{
    if s.len() == 0 {
        s
    } else {
        insert_sorted(sort_entries(s.drop_last()), s.last())
    }
}

/// Where scanning a sorted run for the first entry that `e` sorts at or
/// before lands, that is where `insert_sorted` puts it.
proof fn lemma_insert_sorted_at(s: Seq<(Seq<char>, Seq<char>)>, e: (Seq<char>, Seq<char>), j: int)
    requires
        0 <= j <= s.len(),
        forall|t: int| 0 <= t < j ==> !text_le(e.0, (#[trigger] s[t]).0),
        j < s.len() ==> text_le(e.0, s[j].0),
    ensures
        insert_sorted(s, e) == s.subrange(0, j) + seq![e] + s.subrange(j, s.len() as int),
    decreases s.len(),
{
    if s.len() == 0 {
        assert(insert_sorted(s, e) =~= s.subrange(0, j) + seq![e] + s.subrange(
            j,
            s.len() as int,
        ));
    } else if j == 0 {
        assert(text_le(e.0, s.first().0));
        assert(insert_sorted(s, e) =~= s.subrange(0, 0) + seq![e] + s.subrange(
            0,
            s.len() as int,
        ));
    } else {
        assert(!text_le(e.0, s[0].0));
        let rest = s.drop_first();
        assert(forall|t: int| 0 <= t < j - 1 ==> !text_le(e.0, (#[trigger] rest[t]).0));
        lemma_insert_sorted_at(rest, e, j - 1);
        assert(insert_sorted(s, e) =~= s.subrange(0, j) + seq![e] + s.subrange(
            j,
            s.len() as int,
        ));
    }
}

/// The order is transitive.
proof fn lemma_lex_trans(a: Seq<u8>, b: Seq<u8>, c: Seq<u8>)
    requires
        crate::textutil::lex_le_bytes(a, b),
        crate::textutil::lex_le_bytes(b, c),
    ensures
        crate::textutil::lex_le_bytes(a, c),
    decreases a.len() + b.len() + c.len(),
{
    if a.len() != 0 && b.len() != 0 && c.len() != 0 {
        if a.first() == b.first() && b.first() == c.first() {
            lemma_lex_trans(a.drop_first(), b.drop_first(), c.drop_first());
        }
    }
}

proof fn lemma_lex_trans_entries(a: Seq<char>, b: Seq<char>, c: Seq<char>)
    requires
        text_le(a, b),
        text_le(b, c),
    ensures
        text_le(a, c),
{
    lemma_lex_trans(
        vstd::utf8::encode_utf8(a),
        vstd::utf8::encode_utf8(b),
        vstd::utf8::encode_utf8(c),
    );
}

/// Inserting into a sorted run keeps it sorted.
proof fn lemma_insert_sorted_stays_sorted(
    s: Seq<(Seq<char>, Seq<char>)>,
    e: (Seq<char>, Seq<char>),
    j: int,
)
    requires
        entries_sorted(s),
        0 <= j <= s.len(),
        forall|t: int| 0 <= t < j ==> !text_le(e.0, (#[trigger] s[t]).0),
        j < s.len() ==> text_le(e.0, s[j].0),
    ensures
        entries_sorted(s.subrange(0, j) + seq![e] + s.subrange(j, s.len() as int)),
{
    let r = s.subrange(0, j) + seq![e] + s.subrange(j, s.len() as int);
    assert forall|a: int, b: int| 0 <= a < b < r.len() implies text_le(
        (#[trigger] r[a]).0,
        (#[trigger] r[b]).0,
    ) by {
        if a < j {
            assert(r[a] == s[a]);
        } else if a > j {
            assert(r[a] == s[a - 1]);
        }
        if b < j {
            assert(r[b] == s[b]);
        } else if b > j {
            assert(r[b] == s[b - 1]);
        }
        if a == j {
            if b > j && j < s.len() {
                assert(text_le(e.0, s[j].0));
                if b - 1 > j {
                    assert(text_le(s[j].0, s[b - 1].0));
                    lemma_lex_trans_entries(e.0, s[j].0, s[b - 1].0);
                }
            }
        }
        if b == j && a < j {
            assert(!text_le(e.0, s[a].0));
            lemma_lex_total(
                vstd::utf8::encode_utf8(e.0),
                vstd::utf8::encode_utf8(s[a].0),
            );
        }
    }
}

/// Bounded insertion-ordered key/value entries. The ghost `key_history`
/// records every key at its first insertion; the invariant ties the stored
/// key order to the newest `limit` keys of that history.
pub struct KeyedRing {
    entries: Vec<(String, String)>,
    limit: usize,
    key_history: Ghost<Seq<Seq<char>>>,
}

impl View for KeyedRing {
    type V = Seq<(Seq<char>, Seq<char>)>;

    closed spec fn view(&self) -> Seq<(Seq<char>, Seq<char>)> {
        self.entries@.map_values(|e: (String, String)| (e.0@, e.1@))
    }
}

impl KeyedRing {
    pub closed spec fn limit(&self) -> nat {
        self.limit as nat
    }

    /// Every key ever first-inserted, oldest first.
    pub closed spec fn key_history(&self) -> Seq<Seq<char>> {
        self.key_history@
    }

    pub closed spec fn wf(&self) -> bool {
        &&& self.limit >= 1
        &&& self.entries@.len() <= self.limit
        &&& distinct_keys(self@)
        &&& keys_of(self@) == ring_tail(self.key_history@, self.limit as nat)
    }

    pub fn new(limit: usize) -> (r: KeyedRing)
        requires
            limit >= 1,
        ensures
            r.wf(),
            r.limit() == limit,
            r@ == Seq::<(Seq<char>, Seq<char>)>::empty(),
            r.key_history() == Seq::<Seq<char>>::empty(),
    {
        let r = KeyedRing { entries: Vec::new(), limit, key_history: Ghost(Seq::empty()) };
        proof {
            assert(r@ =~= Seq::<(Seq<char>, Seq<char>)>::empty());
            assert(keys_of(r@) =~= ring_tail(r.key_history@, r.limit as nat));
        }
        r
    }

    pub fn len(&self) -> (n: usize)
        ensures
            n == self@.len(),
    {
        self.entries.len()
    }

    /// Index of `key` among the entries, if present.
    fn find(&self, key: &String) -> (r: Option<usize>)
        requires
            self.wf(),
        ensures
            match r {
                Some(i) => i < self@.len() && self@[i as int].0 == key@ && has_key(self@, key@)
                    && key_at(self@, key@) == i,
                None => !has_key(self@, key@),
            },
    {
        let n = self.entries.len();
        let mut i: usize = 0;
        while i < n
            invariant
                self.wf(),
                i <= n,
                n == self@.len(),
                forall|j: int| 0 <= j < i ==> (#[trigger] self@[j]).0 != key@,
            decreases n - i,
        {
            if self.entries[i].0 == *key {
                proof {
                    assert(self@[i as int].0 == key@);
                    let w = key_at(self@, key@);
                    assert(self@[w].0 == key@);
                    if w != i {
                        assert(self@[w].0 != self@[i as int].0);  // distinct keys
                    }
                }
                return Some(i);
            }
            i += 1;
        }
        None
    }

    /// Whether `key` is currently stored.
    pub fn contains_key(&self, key: &String) -> (r: bool)
        requires
            self.wf(),
        ensures
            r == has_key(self@, key@),
    {
        self.find(key).is_some()
    }

    /// Current value under `key`, if any.
    pub fn get(&self, key: &String) -> (r: Option<&String>)
        requires
            self.wf(),
        ensures
            match r {
                Some(v) => has_key(self@, key@) && v@ == value_of(self@, key@),
                None => !has_key(self@, key@),
            },
    {
        match self.find(key) {
            Some(i) => Some(&self.entries[i].1),
            None => None,
        }
    }

    /// Insert or update `key`, evicting the oldest entry when a fresh key
    /// would exceed the limit.
    pub fn upsert(&mut self, key: String, value: String)
        requires
            old(self).wf(),
        ensures
            final(self).wf(),
            final(self).limit() == old(self).limit(),
            final(self)@ == keyed_upsert(old(self)@, key@, value@, old(self).limit()),
            final(self).key_history() == if has_key(old(self)@, key@) {
                old(self).key_history()
            } else {
                old(self).key_history().push(key@)
            },
    {
        let ghost pre = self@;
        match self.find(&key) {
            Some(i) => {
                self.entries[i] = (key, value);
                proof {
                    assert(keys_of(self@) =~= keys_of(pre));
                    assert(self@ =~= keyed_upsert(pre, key@, value@, self.limit as nat));
                }
            },
            None => {
                self.entries.push((key, value));
                proof {
                    self.key_history@ = self.key_history@.push(self@[self@.len() - 1].0);
                }
                if self.entries.len() > self.limit {
                    self.entries.remove(0);
                    proof {
                        assert(self@ =~= pre.push((key@, value@)).drop_first());
                        assert(keys_of(self@) =~= keys_of(pre.push(
                            (key@, value@),
                        )).drop_first());
                    }
                } else {
                    proof {
                        assert(self@ =~= pre.push((key@, value@)));
                        assert(keys_of(self@) =~= keys_of(pre).push(key@));
                    }
                }
                proof {
                    crate::ring::lemma_ring_tail_push(
                        old(self).key_history@,
                        key@,
                        self.limit as nat,
                    );
                    assert(keys_of(pre) == ring_tail(old(self).key_history@, self.limit as nat));
                    if pre.len() < self.limit as nat {
                        assert(keys_of(self@) =~= crate::ring::ring_push(
                            keys_of(pre),
                            key@,
                            self.limit as nat,
                        ));
                    } else {
                        assert(keys_of(pre).len() == pre.len());
                        assert(keys_of(self@) =~= crate::ring::ring_push(
                            keys_of(pre),
                            key@,
                            self.limit as nat,
                        ));
                    }
                    assert(keys_of(self@) =~= ring_tail(self.key_history@, self.limit as nat));
                    assert forall|a: int, b: int|
                        0 <= a < b < self@.len() implies (#[trigger] self@[a]).0 != (
                    #[trigger] self@[b]).0 by {
                        if pre.len() < self.limit as nat {
                            if b < self@.len() - 1 {
                                assert(self@[a] == pre[a] && self@[b] == pre[b]);
                            } else {
                                assert(self@[b].0 == key@);
                                assert(self@[a] == pre[a]);
                                assert(!has_key(pre, key@));
                            }
                        } else {
                            if b < self@.len() - 1 {
                                assert(self@[a] == pre[a + 1] && self@[b] == pre[b + 1]);
                            } else {
                                assert(self@[b].0 == key@);
                                assert(self@[a] == pre[a + 1]);
                                assert(!has_key(pre, key@));
                            }
                        }
                    }
                    assert(self@ =~= keyed_upsert(pre, key@, value@, self.limit as nat));
                }
            },
        }
    }

    /// The entries rearranged into key order, as the panes display them.
    pub fn sorted_entries(&self) -> (r: Vec<(String, String)>)
        requires
            self.wf(),
        ensures
            r@.map_values(|e: (String, String)| (e.0@, e.1@)) == sort_entries(self@),
    {
        let n = self.entries.len();
        let mut out: Vec<(String, String)> = Vec::new();
        let mut i: usize = 0;
        proof {
            assert(self@.subrange(0, 0) =~= Seq::<(Seq<char>, Seq<char>)>::empty());
            assert(out@.map_values(|e: (String, String)| (e.0@, e.1@)) =~= sort_entries(
                self@.subrange(0, 0),
            ));
        }
        while i < n
            invariant
                i <= n,
                n == self@.len(),
                self.wf(),
                out@.map_values(|e: (String, String)| (e.0@, e.1@)) == sort_entries(
                    self@.subrange(0, i as int),
                ),
                entries_sorted(out@.map_values(|e: (String, String)| (e.0@, e.1@))),
            decreases n - i,
        {
            let ghost outv = out@.map_values(|e: (String, String)| (e.0@, e.1@));
            let key = self.entries[i].0.clone();
            let value = self.entries[i].1.clone();
            let m = out.len();
            let mut pos: usize = m;
            let mut j: usize = 0;
            while j < m
                invariant
                    j <= m,
                    pos <= m,
                    m == outv.len(),
                    outv == out@.map_values(|e: (String, String)| (e.0@, e.1@)),
                    key@ == self@[i as int].0,
                    pos == m ==> forall|t: int| 0 <= t < j ==> !text_le(
                        key@,
                        (#[trigger] outv[t]).0,
                    ),
                    pos < m ==> pos < j && text_le(key@, outv[pos as int].0) && forall|t: int|
                        0 <= t < pos ==> !text_le(key@, (#[trigger] outv[t]).0),
                decreases m - j,
            {
                if pos == m && str_le(key.as_str(), out[j].0.as_str()) {
                    pos = j;
                }
                j += 1;
            }
            out.insert(pos, (key, value));
            proof {
                let e = (self@[i as int].0, self@[i as int].1);
                lemma_insert_sorted_at(outv, e, pos as int);
                lemma_insert_sorted_stays_sorted(outv, e, pos as int);
                assert(out@.map_values(|x: (String, String)| (x.0@, x.1@)) =~= outv.subrange(
                    0,
                    pos as int,
                ) + seq![e] + outv.subrange(pos as int, outv.len() as int));
                assert(self@.subrange(0, i + 1).drop_last() =~= self@.subrange(0, i as int));
                assert(self@.subrange(0, i + 1).last() == e);
                assert(out@.map_values(|x: (String, String)| (x.0@, x.1@)) =~= sort_entries(
                    self@.subrange(0, i + 1),
                ));
            }
            i += 1;
        }
        proof {
            assert(self@.subrange(0, n as int) =~= self@);
        }
        out
    }

    /// Entry at position `i`, in first-seen order.
    pub fn entry_at(&self, i: usize) -> (r: (&String, &String))
        requires
            i < self@.len(),
        ensures
            r.0@ == self@[i as int].0,
            r.1@ == self@[i as int].1,
    {
        (&self.entries[i].0, &self.entries[i].1)
    }
}

} // verus!
