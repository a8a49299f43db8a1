//! Reassembly of oversized protocol events that arrive split across
//! several chunk frames. Each pending assembly is keyed by its chunk id
//! and holds one optional slot per part; a part may arrive in any order
//! and a duplicate delivery of a filled slot changes nothing. The byte
//! budget over all pending assemblies is hard-capped: exceeding it clears
//! every assembly.

use crate::textutil::str_eq;
use vstd::prelude::*;
use vstd::string::StringExecFns;
use vstd::utf8::encode_utf8;

verus! {

/// Largest admissible part count of one chunked event.
pub const CHUNK_COUNT_LIMIT: u64 = 4096;

/// Cap on accumulated part bytes over all pending assemblies.
pub const CHUNK_ASSEMBLY_LIMIT_BYTES: usize = 2 * 1024 * 1024;

/// UTF-8 length of a text, as `str::len` reports it.
pub open spec fn byte_len(s: Seq<char>) -> nat {
    (encode_utf8(s).len() as usize) as nat
}

/// Saturating usize sum.
pub open spec fn sat_add(a: nat, b: nat) -> nat {
    if a + b > usize::MAX {
        usize::MAX as nat
    } else {
        a + b
    }
}

/// Saturating difference.
pub open spec fn sat_sub(a: nat, b: nat) -> nat {
    if a >= b {
        (a - b) as nat
    } else {
        0
    }
}

/// One pending assembly: the declared part count, one slot per part, and
/// the bytes accumulated so far.
pub struct Assembly {
    count: usize,
    parts: Vec<Option<String>>,
    bytes: usize,
}

/// Ghost image of one assembly.
#[verifier::ext_equal]
pub ghost struct AsmView {
    pub count: nat,
    pub parts: Seq<Option<Seq<char>>>,
    pub bytes: nat,
}

impl View for Assembly {
    type V = AsmView;

    closed spec fn view(&self) -> AsmView {
        AsmView {
            count: self.count as nat,
            parts: self.parts@.map_values(
                |p: Option<String>|
                    match p {
                        Some(s) => Some(s@),
                        None => None,
                    },
            ),
            bytes: self.bytes as nat,
        }
    }
}

/// All slots are filled.
pub open spec fn all_filled(ps: Seq<Option<Seq<char>>>) -> bool {
    forall|i: int| 0 <= i < ps.len() ==> (#[trigger] ps[i]) is Some
}

/// The parts in index order, concatenated; an unfilled slot contributes
/// nothing.
pub open spec fn concat_parts(ps: Seq<Option<Seq<char>>>) -> Seq<char>
    decreases ps.len(),
{
    if ps.len() == 0 {
        Seq::empty()
    } else {
        concat_parts(ps.drop_last()) + match ps.last() {
            Some(s) => s,
            None => Seq::empty(),
        }
    }
}

/// A well-formed pending assembly: consistent slot count, an admissible
/// declared count, and at least one unfilled slot (a complete assembly is
/// removed at once).
pub open spec fn asm_wf(a: AsmView) -> bool {
    &&& a.parts.len() == a.count
    &&& 1 <= a.count <= CHUNK_COUNT_LIMIT
    &&& !all_filled(a.parts)
}

pub open spec fn tbl_distinct(t: Seq<(Seq<char>, AsmView)>) -> bool {
    forall|i: int, j: int| 0 <= i < j < t.len() ==> t[i].0 != t[j].0
}

pub open spec fn tbl_has(t: Seq<(Seq<char>, AsmView)>, id: Seq<char>) -> bool {
    exists|i: int| 0 <= i < t.len() && (#[trigger] t[i]).0 == id
}

pub open spec fn tbl_at(t: Seq<(Seq<char>, AsmView)>, id: Seq<char>) -> int {
    choose|i: int| 0 <= i < t.len() && (#[trigger] t[i]).0 == id
}

pub open spec fn tbl_asm(t: Seq<(Seq<char>, AsmView)>, id: Seq<char>) -> AsmView {
    t[tbl_at(t, id)].1
}

/// Validation policy on the frame fields alone.
pub open spec fn frame_valid(idx: u64, cnt: u64) -> bool {
    cnt != 0 && cnt <= CHUNK_COUNT_LIMIT && idx < cnt
}

/// An assembly as it first appears for a fresh id: empty slots, no bytes.
pub open spec fn fresh_asm(cnt: u64) -> AsmView {
    AsmView { count: cnt as nat, parts: Seq::new(cnt as nat, |i: int| None), bytes: 0 }
}

/// The assembly for `id` once the arriving part is written: a fresh slot
/// takes the part and its bytes; a filled slot changes nothing.
pub open spec fn written_asm(
    t: Seq<(Seq<char>, AsmView)>,
    id: Seq<char>,
    idx: u64,
    cnt: u64,
    chunkv: Seq<char>,
) -> AsmView {
    let base = if tbl_has(t, id) {
        tbl_asm(t, id)
    } else {
        fresh_asm(cnt)
    };
    if base.parts[idx as int] is Some {
        base
    } else {
        AsmView {
            count: base.count,
            parts: base.parts.update(idx as int, Some(chunkv)),
            bytes: sat_add(base.bytes, byte_len(chunkv)),
        }
    }
}

/// The bytes the arriving part adds to the global counter: zero when its
/// slot is already filled.
pub open spec fn added_bytes(
    t: Seq<(Seq<char>, AsmView)>,
    id: Seq<char>,
    idx: u64,
    chunkv: Seq<char>,
) -> nat {
    if tbl_has(t, id) && tbl_asm(t, id).parts[idx as int] is Some {
        0
    } else {
        byte_len(chunkv)
    }
}

/// How one frame is classified.
pub ghost enum FeedStep {
    /// The frame fields are rejected outright.
    Invalid,
    /// A pending assembly for the same id declares another part count.
    Mismatch,
    /// Writing the part pushed the global byte budget over its cap.
    Overflow,
    /// The part is stored; the assembly stays pending.
    Stored,
    /// The part filled the last slot; the assembly is done.
    Complete,
}

pub open spec fn feed_outcome(
    t: Seq<(Seq<char>, AsmView)>,
    total: nat,
    id: Seq<char>,
    idx: u64,
    cnt: u64,
    chunkv: Seq<char>,
) -> FeedStep {
    if !frame_valid(idx, cnt) {
        FeedStep::Invalid
    } else if tbl_has(t, id) && tbl_asm(t, id).count != cnt as nat {
        FeedStep::Mismatch
    } else if sat_add(total, added_bytes(t, id, idx, chunkv)) > CHUNK_ASSEMBLY_LIMIT_BYTES as nat {
        FeedStep::Overflow
    } else if all_filled(written_asm(t, id, idx, cnt, chunkv).parts) {
        FeedStep::Complete
    } else {
        FeedStep::Stored
    }
}

/// The pending table after one frame.
pub open spec fn feed_table(
    t: Seq<(Seq<char>, AsmView)>,
    total: nat,
    id: Seq<char>,
    idx: u64,
    cnt: u64,
    chunkv: Seq<char>,
) -> Seq<(Seq<char>, AsmView)> {
    match feed_outcome(t, total, id, idx, cnt, chunkv) {
        FeedStep::Invalid => t,
        FeedStep::Mismatch => t.remove(tbl_at(t, id)),
        FeedStep::Overflow => Seq::empty(),
        FeedStep::Complete => if tbl_has(t, id) {
            t.remove(tbl_at(t, id))
        } else {
            t
        },
        FeedStep::Stored => if tbl_has(t, id) {
            t.update(tbl_at(t, id), (id, written_asm(t, id, idx, cnt, chunkv)))
        } else {
            t.push((id, written_asm(t, id, idx, cnt, chunkv)))
        },
    }
}

/// The global byte counter after one frame. A discarded mismatching
/// assembly does not give its bytes back; only the global clear resets
/// the counter.
pub open spec fn feed_total(
    t: Seq<(Seq<char>, AsmView)>,
    total: nat,
    id: Seq<char>,
    idx: u64,
    cnt: u64,
    chunkv: Seq<char>,
) -> nat {
    match feed_outcome(t, total, id, idx, cnt, chunkv) {
        FeedStep::Invalid => total,
        FeedStep::Mismatch => total,
        FeedStep::Overflow => 0,
        FeedStep::Complete => sat_sub(
            sat_add(total, added_bytes(t, id, idx, chunkv)),
            written_asm(t, id, idx, cnt, chunkv).bytes,
        ),
        FeedStep::Stored => sat_add(total, added_bytes(t, id, idx, chunkv)),
    }
}

/// The text a completed assembly rebuilds.
pub open spec fn feed_rebuilt(
    t: Seq<(Seq<char>, AsmView)>,
    id: Seq<char>,
    idx: u64,
    cnt: u64,
    chunkv: Seq<char>,
) -> Seq<char> {
    concat_parts(written_asm(t, id, idx, cnt, chunkv).parts)
}

/// What one frame produced.
pub enum FeedResult {
    /// Rejected by the validation policy; nothing changed.
    Invalid,
    /// Discarded a pending assembly whose declared count differed.
    Mismatch,
    /// The byte cap was exceeded; all pending assemblies were cleared.
    Overflow,
    /// Stored (or ignored as a duplicate); the assembly stays pending.
    Stored,
    /// All parts present: the rebuilt text, in part-index order.
    Complete(String),
}

/// The pending assemblies, keyed by chunk id, and the global byte
/// counter.
pub struct Reassembler {
    table: Vec<(String, Assembly)>,
    total_bytes: usize,
}

impl Reassembler {
    pub closed spec fn table_v(&self) -> Seq<(Seq<char>, AsmView)> {
        self.table@.map_values(|e: (String, Assembly)| (e.0@, e.1@))
    }

    pub closed spec fn total_v(&self) -> nat {
        self.total_bytes as nat
    }

    pub closed spec fn wf(&self) -> bool {
        &&& tbl_distinct(self.table_v())
        &&& forall|i: int|
            0 <= i < self.table_v().len() ==> asm_wf((#[trigger] self.table_v()[i]).1)
        &&& self.total_bytes <= CHUNK_ASSEMBLY_LIMIT_BYTES
    }

    pub fn new() -> (r: Reassembler)
        ensures
            r.wf(),
            r.table_v() == Seq::<(Seq<char>, AsmView)>::empty(),
            r.total_v() == 0,
    {
        let r = Reassembler { table: Vec::new(), total_bytes: 0 };
        proof {
            assert(r.table_v() =~= Seq::<(Seq<char>, AsmView)>::empty());
        }
        r
    }

    /// How many assemblies are pending.
    pub fn pending(&self) -> (n: usize)
        ensures
            n == self.table_v().len(),
    {
        self.table.len()
    }

    /// Accumulated bytes over all pending assemblies.
    pub fn total_bytes(&self) -> (n: usize)
        ensures
            n == self.total_v(),
    {
        self.total_bytes
    }

    fn find(&self, id: &str) -> (r: Option<usize>)
        requires
            self.wf(),
        ensures
            match r {
                Some(i) => i < self.table_v().len() && self.table_v()[i as int].0 == id@
                    && tbl_has(self.table_v(), id@) && tbl_at(self.table_v(), id@) == i,
                None => !tbl_has(self.table_v(), id@),
            },
    {
        let n = self.table.len();
        let mut i: usize = 0;
        while i < n
            invariant
                self.wf(),
                i <= n,
                n == self.table_v().len(),
                forall|j: int| 0 <= j < i ==> (#[trigger] self.table_v()[j]).0 != id@,
            decreases n - i,
        {
            if str_eq(self.table[i].0.as_str(), id) {
                proof {
                    assert(self.table_v()[i as int].0 == id@);
                    assert(tbl_has(self.table_v(), id@));
                    let w = tbl_at(self.table_v(), id@);
                    assert(self.table_v()[w].0 == id@);
                    if w != i {
                        assert(self.table_v()[w].0 != self.table_v()[i as int].0);
                    }
                }
                return Some(i);
            }
            i += 1;
        }
        None
    }

    /// Feed one chunk frame.
    pub fn feed(&mut self, id: &str, idx: u64, cnt: u64, chunk: &str) -> (r: FeedResult)
        requires
            old(self).wf(),
        ensures
            final(self).wf(),
            final(self).table_v() == feed_table(
                old(self).table_v(),
                old(self).total_v(),
                id@,
                idx,
                cnt,
                chunk@,
            ),
            final(self).total_v() == feed_total(
                old(self).table_v(),
                old(self).total_v(),
                id@,
                idx,
                cnt,
                chunk@,
            ),
            match r {
                FeedResult::Invalid => feed_outcome(
                    old(self).table_v(),
                    old(self).total_v(),
                    id@,
                    idx,
                    cnt,
                    chunk@,
                ) is Invalid,
                FeedResult::Mismatch => feed_outcome(
                    old(self).table_v(),
                    old(self).total_v(),
                    id@,
                    idx,
                    cnt,
                    chunk@,
                ) is Mismatch,
                FeedResult::Overflow => feed_outcome(
                    old(self).table_v(),
                    old(self).total_v(),
                    id@,
                    idx,
                    cnt,
                    chunk@,
                ) is Overflow,
                FeedResult::Stored => feed_outcome(
                    old(self).table_v(),
                    old(self).total_v(),
                    id@,
                    idx,
                    cnt,
                    chunk@,
                ) is Stored,
                FeedResult::Complete(s) => feed_outcome(
                    old(self).table_v(),
                    old(self).total_v(),
                    id@,
                    idx,
                    cnt,
                    chunk@,
                ) is Complete && s@ == feed_rebuilt(old(self).table_v(), id@, idx, cnt, chunk@),
            },
    {
        let ghost t0 = self.table_v();
        let ghost total0 = self.total_v();
        if cnt == 0 || cnt > CHUNK_COUNT_LIMIT || idx >= cnt {
            return FeedResult::Invalid;
        }
        let chunk_bytes = chunk.len();
        let slot = idx as usize;
        let pos: usize;
        match self.find(id) {
            Some(i) => {
                if self.table[i].1.count != cnt as usize {
                    self.table.remove(i);
                    proof {
                        assert(self.table_v() =~= t0.remove(i as int));
                        assert(feed_outcome(t0, total0, id@, idx, cnt, chunk@) is Mismatch);
                        assert forall|a: int, b: int|
                            0 <= a < b < self.table_v().len() implies (
                        #[trigger] self.table_v()[a]).0 != (#[trigger] self.table_v()[b]).0 by {
                            if b < i {
                                assert(self.table_v()[a] == t0[a] && self.table_v()[b] == t0[b]);
                            } else if a < i {
                                assert(self.table_v()[a] == t0[a] && self.table_v()[b] == t0[b
                                    + 1]);
                            } else {
                                assert(self.table_v()[a] == t0[a + 1] && self.table_v()[b] == t0[b
                                    + 1]);
                            }
                        }
                        assert forall|j: int|
                            0 <= j < self.table_v().len() implies asm_wf(
                            (#[trigger] self.table_v()[j]).1,
                        ) by {
                            if j < i {
                                assert(self.table_v()[j] == t0[j]);
                            } else {
                                assert(self.table_v()[j] == t0[j + 1]);
                            }
                        }
                    }
                    return FeedResult::Mismatch;
                }
                if self.table[i].1.parts[slot].is_some() {
                    proof {
                        assert(t0[i as int].1.parts[idx as int] is Some);
                        assert(written_asm(t0, id@, idx, cnt, chunk@) == tbl_asm(t0, id@));
                        assert(added_bytes(t0, id@, idx, chunk@) == 0);
                        assert(sat_add(total0, 0) == total0);
                        assert(!all_filled(tbl_asm(t0, id@).parts));
                        assert(feed_outcome(t0, total0, id@, idx, cnt, chunk@) is Stored);
                        assert(self.table_v() =~= t0.update(i as int, (id@, tbl_asm(t0, id@))));
                    }
                    return FeedResult::Stored;
                }
                proof {
                    assert(t0[i as int].1.parts[idx as int] is None);
                }
                let part = chunk.to_owned();
                self.table[i].1.parts[slot] = Some(part);
                let b = self.table[i].1.bytes;
                self.table[i].1.bytes = if chunk_bytes > usize::MAX - b {
                    usize::MAX
                } else {
                    b + chunk_bytes
                };
                pos = i;
                proof {
                    let written = written_asm(t0, id@, idx, cnt, chunk@);
                    assert(self.table@[i as int].1@.parts =~= t0[i as int].1.parts.update(
                        idx as int,
                        Some(chunk@),
                    ));
                    assert(self.table@[i as int].1@ =~= written);
                    assert(self.table_v() =~~= t0.update(i as int, (id@, written)));
                }
            },
            None => {
                let mut parts: Vec<Option<String>> = Vec::new();
                let mut k: usize = 0;
                let cnt_us = cnt as usize;
                while k < cnt_us
                    invariant
                        k <= cnt_us,
                        parts@.len() == k,
                        forall|j: int| 0 <= j < k ==> (#[trigger] parts@[j]) is None,
                    decreases cnt_us - k,
                {
                    parts.push(None);
                    k += 1;
                }
                let part = chunk.to_owned();
                parts[slot] = Some(part);
                let entry = Assembly { count: cnt_us, parts, bytes: chunk_bytes };
                self.table.push((id.to_owned(), entry));
                pos = self.table.len() - 1;
                proof {
                    let fresh = fresh_asm(cnt);
                    let written = written_asm(t0, id@, idx, cnt, chunk@);
                    assert(fresh.parts.len() == cnt as nat);
                    assert(fresh.parts[idx as int] is None);
                    assert(self.table@[pos as int].1@.parts =~= fresh.parts.update(
                        idx as int,
                        Some(chunk@),
                    ));
                    assert(sat_add(0, byte_len(chunk@)) == self.table@[pos as int].1@.bytes);
                    assert(self.table@[pos as int].1@ =~= written);
                    assert(self.table_v() =~~= t0.push((id@, written)));
                }
            },
        }
        let added = chunk_bytes;
        proof {
            assert(added_bytes(t0, id@, idx, chunk@) == byte_len(chunk@));
        }
        self.total_bytes = if added > usize::MAX - self.total_bytes {
            usize::MAX
        } else {
            self.total_bytes + added
        };
        proof {
            assert(self.total_bytes as nat == sat_add(total0, added_bytes(t0, id@, idx, chunk@)));
        }
        if self.total_bytes > CHUNK_ASSEMBLY_LIMIT_BYTES {
            self.table.clear();
            self.total_bytes = 0;
            proof {
                assert(feed_outcome(t0, total0, id@, idx, cnt, chunk@) is Overflow);
                assert(self.table_v() =~= Seq::<(Seq<char>, AsmView)>::empty());
            }
            return FeedResult::Overflow;
        }
        let ghost written = written_asm(t0, id@, idx, cnt, chunk@);
        proof {
            assert(self.table_v()[pos as int].1 == written);
        }
        let complete = {
            let entry = &self.table[pos].1;
            let mut k: usize = 0;
            let n = entry.parts.len();
            let mut filled = true;
            while k < n
                invariant
                    k <= n,
                    n == entry@.parts.len(),
                    filled ==> forall|j: int| 0 <= j < k ==> (#[trigger] entry@.parts[j]) is Some,
                    !filled ==> !all_filled(entry@.parts),
                decreases n - k,
            {
                if entry.parts[k].is_none() {
                    proof {
                        assert(entry@.parts[k as int] is None);
                        assert(!all_filled(entry@.parts));
                    }
                    filled = false;
                }
                k += 1;
            }
            proof {
                if filled {
                    assert(all_filled(entry@.parts));
                }
            }
            filled
        };
        proof {
            assert(complete == all_filled(written.parts));
        }
        if complete {
            let (_, entry) = self.table.remove(pos);
            proof {
                assert(entry@ == written);
            }
            self.total_bytes = if entry.bytes > self.total_bytes {
                0
            } else {
                self.total_bytes - entry.bytes
            };
            let mut rebuilt = String::new();
            let n = entry.parts.len();
            let mut k: usize = 0;
            proof {
                assert(rebuilt@ =~= concat_parts(entry@.parts.subrange(0, 0)));
            }
            while k < n
                invariant
                    k <= n,
                    n == entry@.parts.len(),
                    all_filled(entry@.parts),
                    rebuilt@ == concat_parts(entry@.parts.subrange(0, k as int)),
                decreases n - k,
            {
                match &entry.parts[k] {
                    Some(p) => {
                        rebuilt.append(p.as_str());
                    },
                    None => {
                        proof {
                            assert(entry@.parts[k as int] is Some);
                        }
                    },
                }
                k += 1;
                proof {
                    assert(entry@.parts.subrange(0, k as int).drop_last() =~= entry@.parts.subrange(
                        0,
                        k - 1,
                    ));
                    assert(rebuilt@ =~= concat_parts(entry@.parts.subrange(0, k as int)));
                }
            }
            proof {
                assert(entry@.parts.subrange(0, n as int) =~= entry@.parts);
                assert(feed_outcome(t0, total0, id@, idx, cnt, chunk@) is Complete);
                let tpos = tbl_at(t0, id@);
                if tbl_has(t0, id@) {
                    assert(self.table_v() =~= t0.remove(tpos));
                    assert forall|a: int, b: int|
                        0 <= a < b < self.table_v().len() implies (
                    #[trigger] self.table_v()[a]).0 != (#[trigger] self.table_v()[b]).0 by {
                        if b < tpos {
                            assert(self.table_v()[a] == t0[a] && self.table_v()[b] == t0[b]);
                        } else if a < tpos {
                            assert(self.table_v()[a] == t0[a] && self.table_v()[b] == t0[b + 1]);
                        } else {
                            assert(self.table_v()[a] == t0[a + 1] && self.table_v()[b] == t0[b
                                + 1]);
                        }
                    }
                    assert forall|j: int|
                        0 <= j < self.table_v().len() implies asm_wf(
                        (#[trigger] self.table_v()[j]).1,
                    ) by {
                        if j < tpos {
                            assert(self.table_v()[j] == t0[j]);
                        } else {
                            assert(self.table_v()[j] == t0[j + 1]);
                        }
                    }
                } else {
                    assert(self.table_v() =~= t0);
                }
            }
            return FeedResult::Complete(rebuilt);
        }
        proof {
            assert(feed_outcome(t0, total0, id@, idx, cnt, chunk@) is Stored);
            if tbl_has(t0, id@) {
                assert(self.table_v() =~~= t0.update(tbl_at(t0, id@), (id@, written)));
                assert forall|j: int|
                    0 <= j < self.table_v().len() implies (#[trigger] self.table_v()[j]).0
                    == t0[j].0 by {}
            } else {
                assert(self.table_v() =~= t0.push((id@, written)));
                assert forall|a: int, b: int|
                    0 <= a < b < self.table_v().len() implies (#[trigger] self.table_v()[a]).0
                    != (#[trigger] self.table_v()[b]).0 by {
                    if b == self.table_v().len() - 1 {
                        assert(!tbl_has(t0, id@));
                        assert(self.table_v()[a] == t0[a]);
                    } else {
                        assert(self.table_v()[a] == t0[a] && self.table_v()[b] == t0[b]);
                    }
                }
            }
        }
        FeedResult::Stored
    }

    /// Drop every pending assembly and reset the byte counter.
    pub fn clear(&mut self)
        ensures
            final(self).wf(),
            final(self).table_v() == Seq::<(Seq<char>, AsmView)>::empty(),
            final(self).total_v() == 0,
    {
        self.table.clear();
        self.total_bytes = 0;
        proof {
            assert(self.table_v() =~= Seq::<(Seq<char>, AsmView)>::empty());
        }
    }
}

/// Law: a duplicate delivery is a no-op. A valid frame whose slot is
/// already filled leaves the table and the byte counter exactly as they
/// were.
pub proof fn lemma_duplicate_feed(
    t: Seq<(Seq<char>, AsmView)>,
    total: nat,
    id: Seq<char>,
    idx: u64,
    cnt: u64,
    chunkv: Seq<char>,
)
    requires
        tbl_distinct(t),
        forall|i: int| 0 <= i < t.len() ==> asm_wf((#[trigger] t[i]).1),
        total <= CHUNK_ASSEMBLY_LIMIT_BYTES,
        frame_valid(idx, cnt),
        tbl_has(t, id),
        tbl_asm(t, id).count == cnt as nat,
        tbl_asm(t, id).parts[idx as int] is Some,
    ensures
        feed_outcome(t, total, id, idx, cnt, chunkv) is Stored,
        feed_table(t, total, id, idx, cnt, chunkv) == t,
        feed_total(t, total, id, idx, cnt, chunkv) == total,
{
    let i = tbl_at(t, id);
    assert(asm_wf(t[i].1));
    assert(written_asm(t, id, idx, cnt, chunkv) == tbl_asm(t, id));
    assert(sat_add(total, added_bytes(t, id, idx, chunkv)) == total);
    assert(!all_filled(tbl_asm(t, id).parts));
    assert(feed_table(t, total, id, idx, cnt, chunkv) =~= t);
}

/// Law: two stored parts of one assembly commute. When two valid frames
/// fill two different empty slots of the same pending assembly and
/// neither completes it nor busts the byte budget, feeding them in
/// either order leaves the same table and the same byte counter. With
/// [`lemma_part_writes_commute`] and the completion contract (the
/// rebuilt text is the concatenation of the final parts in index
/// order), feeding all parts of a chunked event in any permutation
/// rebuilds the same event text.
pub proof fn lemma_feed_stored_commutes(
    t: Seq<(Seq<char>, AsmView)>,
    total: nat,
    id: Seq<char>,
    i1: u64,
    c1: Seq<char>,
    i2: u64,
    c2: Seq<char>,
    cnt: u64,
)
    requires
        tbl_distinct(t),
        forall|i: int| 0 <= i < t.len() ==> asm_wf((#[trigger] t[i]).1),
        frame_valid(i1, cnt),
        frame_valid(i2, cnt),
        i1 != i2,
        tbl_has(t, id),
        tbl_asm(t, id).count == cnt as nat,
        tbl_asm(t, id).parts[i1 as int] is None,
        tbl_asm(t, id).parts[i2 as int] is None,
        total + byte_len(c1) + byte_len(c2) <= CHUNK_ASSEMBLY_LIMIT_BYTES,
        !all_filled(
            tbl_asm(t, id).parts.update(i1 as int, Some(c1)).update(i2 as int, Some(c2)),
        ),
    ensures
        feed_outcome(t, total, id, i1, cnt, c1) is Stored,
        feed_outcome(t, total, id, i2, cnt, c2) is Stored,
        feed_table(
            feed_table(t, total, id, i1, cnt, c1),
            feed_total(t, total, id, i1, cnt, c1),
            id,
            i2,
            cnt,
            c2,
        ) == feed_table(
            feed_table(t, total, id, i2, cnt, c2),
            feed_total(t, total, id, i2, cnt, c2),
            id,
            i1,
            cnt,
            c1,
        ),
        feed_total(
            feed_table(t, total, id, i1, cnt, c1),
            feed_total(t, total, id, i1, cnt, c1),
            id,
            i2,
            cnt,
            c2,
        ) == feed_total(
            feed_table(t, total, id, i2, cnt, c2),
            feed_total(t, total, id, i2, cnt, c2),
            id,
            i1,
            cnt,
            c1,
        ),
{
    let p = tbl_at(t, id);
    let base = tbl_asm(t, id);
    lemma_part_writes_commute(base.parts, i1 as int, c1, i2 as int, c2);
    assert(base.parts.update(i1 as int, Some(c1))[i2 as int] is None);
    assert(base.parts.update(i2 as int, Some(c2))[i1 as int] is None);
    assert(!all_filled(base.parts.update(i1 as int, Some(c1))));
    assert(!all_filled(base.parts.update(i2 as int, Some(c2))));
    lemma_one_stored_step(t, total, id, i1, c1, cnt);
    lemma_one_stored_step(t, total, id, i2, c2, cnt);
    let t1 = feed_table(t, total, id, i1, cnt, c1);
    let t2 = feed_table(t, total, id, i2, cnt, c2);
    let w1 = written_asm(t, id, i1, cnt, c1);
    let w2 = written_asm(t, id, i2, cnt, c2);
    assert(t1 == t.update(p, (id, w1)));
    assert(t2 == t.update(p, (id, w2)));
    lemma_key_at_update(t, p, id, w1);
    lemma_key_at_update(t, p, id, w2);
    assert(!all_filled(tbl_asm(t1, id).parts.update(i2 as int, Some(c2))));
    assert(tbl_asm(t2, id).parts.update(i1 as int, Some(c1)) == base.parts.update(
        i2 as int,
        Some(c2),
    ).update(i1 as int, Some(c1)));
    assert(!all_filled(tbl_asm(t2, id).parts.update(i1 as int, Some(c1))));
    lemma_one_stored_step(t1, total + byte_len(c1), id, i2, c2, cnt);
    lemma_one_stored_step(t2, total + byte_len(c2), id, i1, c1, cnt);
    let w12 = written_asm(t1, id, i2, cnt, c2);
    let w21 = written_asm(t2, id, i1, cnt, c1);
    assert(w12.parts =~= w21.parts);
    assert(w12 =~= w21);
    assert(feed_table(t1, total + byte_len(c1), id, i2, cnt, c2) =~= feed_table(
        t2,
        total + byte_len(c2),
        id,
        i1,
        cnt,
        c1,
    ));
}

/// One valid frame for an empty slot of a matching pending assembly,
/// with room left in the budget and a slot still empty afterwards, is
/// stored.
proof fn lemma_one_stored_step(
    t: Seq<(Seq<char>, AsmView)>,
    total: nat,
    id: Seq<char>,
    idx: u64,
    chunk: Seq<char>,
    cnt: u64,
)
    requires
        tbl_distinct(t),
        frame_valid(idx, cnt),
        tbl_has(t, id),
        tbl_asm(t, id).count == cnt as nat,
        tbl_asm(t, id).parts.len() == cnt as nat,
        tbl_asm(t, id).parts[idx as int] is None,
        !all_filled(tbl_asm(t, id).parts.update(idx as int, Some(chunk))),
        total + byte_len(chunk) <= CHUNK_ASSEMBLY_LIMIT_BYTES,
    ensures
        feed_outcome(t, total, id, idx, cnt, chunk) is Stored,
        feed_table(t, total, id, idx, cnt, chunk) == t.update(
            tbl_at(t, id),
            (id, written_asm(t, id, idx, cnt, chunk)),
        ),
        feed_total(t, total, id, idx, cnt, chunk) == total + byte_len(chunk),
        written_asm(t, id, idx, cnt, chunk).parts == tbl_asm(t, id).parts.update(
            idx as int,
            Some(chunk),
        ),
{
    let w = written_asm(t, id, idx, cnt, chunk);
    assert(w.parts == tbl_asm(t, id).parts.update(idx as int, Some(chunk)));
    assert(!all_filled(w.parts));
    assert(added_bytes(t, id, idx, chunk) == byte_len(chunk));
    assert(sat_add(total, byte_len(chunk)) == total + byte_len(chunk));
}

/// After rewriting the entry at the position of `id` with the same key,
/// `id` is still found at that position.
proof fn lemma_key_at_update(t: Seq<(Seq<char>, AsmView)>, p: int, id: Seq<char>, w: AsmView)
    requires
        tbl_distinct(t),
        tbl_has(t, id),
        tbl_at(t, id) == p,
        t[p].0 == id,
    ensures
        tbl_has(t.update(p, (id, w)), id),
        tbl_at(t.update(p, (id, w)), id) == p,
        tbl_distinct(t.update(p, (id, w))),
        tbl_asm(t.update(p, (id, w)), id) == w,
{
    let u = t.update(p, (id, w));
    assert(u[p].0 == id);
    assert(tbl_has(u, id));
    assert forall|a: int, b: int| 0 <= a < b < u.len() implies (#[trigger] u[a]).0 != (
    #[trigger] u[b]).0 by {
        if a != p && b != p {
            assert(u[a] == t[a] && u[b] == t[b]);
        } else if a == p {
            assert(u[b] == t[b] && t[p].0 == id);
        } else {
            assert(u[a] == t[a] && t[p].0 == id);
        }
    }
    let q = tbl_at(u, id);
    assert(u[q].0 == id);
    if q != p {
        assert(u[q].0 != u[p].0);
    }
}

/// Law: parts commute. Writing two different slots of the same assembly
/// gives the same parts in either order, so feeding all parts of a
/// chunked event in any permutation rebuilds the same text.
pub proof fn lemma_part_writes_commute(
    ps: Seq<Option<Seq<char>>>,
    i: int,
    a: Seq<char>,
    j: int,
    b: Seq<char>,
)
    requires
        0 <= i < ps.len(),
        0 <= j < ps.len(),
        i != j,
    ensures
        ps.update(i, Some(a)).update(j, Some(b)) == ps.update(j, Some(b)).update(i, Some(a)),
{
    assert(ps.update(i, Some(a)).update(j, Some(b)) =~= ps.update(j, Some(b)).update(
        i,
        Some(a),
    ));
}

} // verus!
