//! The counter entity, the ordered collection (`Store`), and the versioned
//! envelope that the collection is persisted as.
//!
//! The collection keeps insertion order and never holds two counters with the
//! same id. `upsert` replaces in place or appends, `remove` drops by id (a
//! no-op on an absent id), and `adjust_score` adds a delta to one score.

use vstd::prelude::*;

verus! {

/// The fixed key the envelope is persisted under, distinct across format
/// generations.
pub const STORAGE_KEY: &'static str = "scorecounter:v1";

/// The version that newly written envelopes carry.
pub const SCHEMA_VERSION: u32 = 1;

/// A named, colored tally row with a signed score.
#[derive(Debug, PartialEq, Eq)]
pub struct Counter {
    pub id: String,
    pub name: String,
    pub score: i32,
    pub color: String,
}

impl Clone for Counter {
    fn clone(&self) -> (res: Self)
        ensures
            res == *self,
    {
        Counter {
            id: self.id.clone(),
            name: self.name.clone(),
            score: self.score,
            color: self.color.clone(),
        }
    }
}

/// The persisted form: a schema version and the counter list it was written
/// with.
#[derive(Debug, PartialEq, Eq)]
pub struct StoredData {
    pub schema_version: u32,
    pub counters: Vec<Counter>,
}

/// The ordered collection of counters.
#[derive(Debug, PartialEq, Eq)]
pub struct Store {
    pub counters: Vec<Counter>,
}

/// No two counters in the sequence share an id.
pub open spec fn unique_ids(s: Seq<Counter>) -> bool {
    forall|i: int, j: int| 0 <= i < j < s.len() ==> s[i].id@ != s[j].id@
}

/// Some counter in the sequence has the given id.
pub open spec fn has_id(s: Seq<Counter>, id: Seq<char>) -> bool {
    exists|i: int| 0 <= i < s.len() && s[i].id@ == id
}

/// The first counter in the sequence with the given id, if any.
pub open spec fn spec_find(s: Seq<Counter>, id: Seq<char>) -> Option<Counter>
    decreases s.len(),
{
    if s.len() == 0 {
        None
    } else if s[0].id@ == id {
        Some(s[0])
    } else {
        spec_find(s.skip(1), id)
    }
}

/// The sequence after an upsert: the first counter whose id matches `c`'s is
/// replaced by `c` in place; if none matches, `c` is appended.
pub open spec fn upserted(s: Seq<Counter>, c: Counter) -> Seq<Counter>
    decreases s.len(),
{
    if s.len() == 0 {
        seq![c]
    } else if s[0].id@ == c.id@ {
        seq![c] + s.skip(1)
    } else {
        seq![s[0]] + upserted(s.skip(1), c)
    }
}

/// The sequence after a removal: every counter with the given id is dropped,
/// the rest keep their relative order.
pub open spec fn removed(s: Seq<Counter>, id: Seq<char>) -> Seq<Counter>
    decreases s.len(),
{
    if s.len() == 0 {
        s
    } else if s[0].id@ == id {
        removed(s.skip(1), id)
    } else {
        seq![s[0]] + removed(s.skip(1), id)
    }
}

/// The sequence with all but the first counter of each id dropped: what a
/// collection read from tampered storage is reduced to so that the
/// no-duplicate-ids invariant holds.
pub open spec fn deduped(s: Seq<Counter>) -> Seq<Counter>
    decreases s.len(),
{
    if s.len() == 0 {
        s
    } else if has_id(s.drop_last(), s.last().id@) {
        deduped(s.drop_last())
    } else {
        deduped(s.drop_last()).push(s.last())
    }
}

/// The given counter with `delta` added to its score.
pub open spec fn bumped(c: Counter, delta: int) -> Counter {
    Counter { score: (c.score + delta) as i32, ..c }
}

/// The sequence after an adjustment: the first counter with the given id has
/// `delta` added to its score; everything else is untouched.
pub open spec fn adjusted(s: Seq<Counter>, id: Seq<char>, delta: int) -> Seq<Counter>
    decreases s.len(),
{
    if s.len() == 0 {
        s
    } else if s[0].id@ == id {
        seq![bumped(s[0], delta)] + s.skip(1)
    } else {
        seq![s[0]] + adjusted(s.skip(1), id, delta)
    }
}

/// The adjusted score fits in the score field's machine range.
pub open spec fn adjust_fits(s: Seq<Counter>, id: Seq<char>, delta: int) -> bool {
    spec_find(s, id) matches Some(c) ==> i32::MIN <= c.score + delta <= i32::MAX
}

impl Default for Store {
    /// The initial state: an empty collection.
    fn default() -> (res: Self)
        ensures
            res.counters@ =~= Seq::<Counter>::empty(),
    {
        Store { counters: Vec::new() }
    }
}

impl Store {
    /// Hydrates a collection from a read envelope. The counter list is taken
    /// as-is whatever version the envelope carries: the lenient passthrough
    /// policy for version mismatches.
    pub fn from_storage(data: StoredData) -> (res: Self)
        ensures
            res.counters@ == data.counters@,
    {
        Store { counters: data.counters }
    }

    /// Builds the envelope to persist: the current schema version and a copy
    /// of the counter list.
    pub fn to_storage(&self) -> (res: StoredData)
        ensures
            res.schema_version == SCHEMA_VERSION,
            res.counters@ =~= self.counters@,
    {
        let n = self.counters.len();
        let mut copied: Vec<Counter> = Vec::new();
        for i in 0..n
            invariant
                n == self.counters.len(),
                copied@ =~= self.counters@.take(i as int),
        {
            copied.push(self.counters[i].clone());
            proof {
                assert(copied@ =~= self.counters@.take(i + 1));
            }
        }
        proof {
            assert(self.counters@.take(n as int) =~= self.counters@);
        }
        StoredData { schema_version: SCHEMA_VERSION, counters: copied }
    }

    /// Replaces the counter with `counter`'s id in place, keeping its
    /// position; appends if no counter has that id.
    #[verifier::loop_isolation(false)]
    pub fn upsert(&mut self, counter: Counter)
        ensures
            final(self).counters@ == upserted(old(self).counters@, counter),
            unique_ids(old(self).counters@) ==> unique_ids(final(self).counters@),
    {
        let ghost orig = self.counters@;
        let ghost gc = counter;
        let n = self.counters.len();
        let mut i: usize = 0;
        while i < n
            invariant
                self.counters@ == orig,
                i <= n,
                forall|j: int| 0 <= j < i ==> orig[j].id@ != gc.id@,
            decreases n - i,
        {
            if crate::text::str_eq(self.counters[i].id.as_str(), counter.id.as_str()) {
                self.counters[i] = counter;
                proof {
                    assert(self.counters@ == orig.update(i as int, gc));
                    lemma_upserted_found(orig, gc, i as int);
                    if unique_ids(orig) {
                        lemma_upserted_unique(orig, gc);
                    }
                }
                return;
            }
            i = i + 1;
        }
        self.counters.push(counter);
        proof {
            lemma_upserted_absent(orig, gc);
            if unique_ids(orig) {
                lemma_upserted_unique(orig, gc);
            }
        }
    }

    /// Drops every counter with the given id; an absent id is a no-op.
    pub fn remove(&mut self, id: &str)
        ensures
            final(self).counters@ == removed(old(self).counters@, id@),
            unique_ids(old(self).counters@) ==> unique_ids(final(self).counters@),
    {
        let ghost orig = self.counters@;
        let n = self.counters.len();
        let mut kept: Vec<Counter> = Vec::new();
        for i in 0..n
            invariant
                n == self.counters.len(),
                self.counters@ == orig,
                kept@ == removed(orig.take(i as int), id@),
        {
            proof {
                lemma_removed_snoc(orig.take(i + 1), id@);
                assert(orig.take(i + 1).drop_last() =~= orig.take(i as int));
                assert(orig.take(i + 1).last() == orig[i as int]);
            }
            if !crate::text::str_eq(self.counters[i].id.as_str(), id) {
                kept.push(self.counters[i].clone());
            }
            proof {
                if orig[i as int].id@ == id@ {
                    assert(kept@ =~= removed(orig.take(i + 1), id@));
                } else {
                    assert(kept@ =~= removed(orig.take(i as int), id@) + seq![orig[i as int]]);
                }
            }
        }
        proof {
            assert(orig.take(n as int) =~= orig);
            if unique_ids(orig) {
                lemma_removed_unique(orig, id@);
            }
        }
        self.counters = kept;
    }

    /// The counter with the given id, if any.
    #[verifier::loop_isolation(false)]
    pub fn find(&self, id: &str) -> (r: Option<&Counter>)
        ensures
            spec_find(self.counters@, id@) is Some ==> r is Some && *r.unwrap() == spec_find(
                self.counters@,
                id@,
            ).unwrap(),
            spec_find(self.counters@, id@) is None ==> r is None,
    {
        let n = self.counters.len();
        let mut i: usize = 0;
        while i < n
            invariant
                i <= n,
                forall|j: int| 0 <= j < i ==> self.counters@[j].id@ != id@,
            decreases n - i,
        {
            if crate::text::str_eq(self.counters[i].id.as_str(), id) {
                proof {
                    lemma_find_at(self.counters@, id@, i as int);
                }
                return Some(&self.counters[i]);
            }
            i = i + 1;
        }
        proof {
            lemma_find_absent(self.counters@, id@);
        }
        None
    }

    /// Adds `delta` to the score of the counter with the given id and returns
    /// the new score; returns `None`, changing nothing, if no counter has
    /// that id.
    #[verifier::loop_isolation(false)]
    pub fn adjust_score(&mut self, id: &str, delta: i32) -> (res: Option<i32>)
        requires
            adjust_fits(old(self).counters@, id@, delta as int),
        ensures
            final(self).counters@ == adjusted(old(self).counters@, id@, delta as int),
            match spec_find(old(self).counters@, id@) {
                Some(c) => res == Some((c.score + delta) as i32),
                None => res == None::<i32> && final(self).counters@ == old(self).counters@,
            },
            unique_ids(old(self).counters@) ==> unique_ids(final(self).counters@),
    {
        let ghost orig = self.counters@;
        let n = self.counters.len();
        let mut i: usize = 0;
        while i < n
            invariant
                n == self.counters.len(),
                self.counters@ == orig,
                i <= n,
                adjust_fits(orig, id@, delta as int),
                forall|j: int| 0 <= j < i ==> orig[j].id@ != id@,
            decreases n - i,
        {
            if crate::text::str_eq(self.counters[i].id.as_str(), id) {
                proof {
                    lemma_find_at(orig, id@, i as int);
                }
                let new_score = self.counters[i].score + delta;
                let updated = Counter {
                    id: self.counters[i].id.clone(),
                    name: self.counters[i].name.clone(),
                    score: new_score,
                    color: self.counters[i].color.clone(),
                };
                proof {
                    assert(updated == bumped(orig[i as int], delta as int));
                }
                self.counters[i] = updated;
                proof {
                    lemma_adjusted_found(orig, id@, delta as int, i as int);
                    if unique_ids(orig) {
                        assert forall|p: int, q: int| 0 <= p < q < self.counters@.len()
                            implies self.counters@[p].id@ != self.counters@[q].id@ by {
                            assert(self.counters@[p].id@ == orig[p].id@);
                            assert(self.counters@[q].id@ == orig[q].id@);
                        }
                    }
                }
                return Some(new_score);
            }
            i = i + 1;
        }
        proof {
            lemma_find_absent(orig, id@);
            lemma_adjusted_absent(orig, id@, delta as int);
        }
        None
    }
}

/// Whether some counter in the vector has the given id.
#[verifier::loop_isolation(false)]
fn contains_id(counters: &Vec<Counter>, id: &str) -> (r: bool)
    ensures
        r == has_id(counters@, id@),
{
    let n = counters.len();
    let mut i: usize = 0;
    while i < n
        invariant
            i <= n,
            forall|j: int| 0 <= j < i ==> counters@[j].id@ != id@,
        decreases n - i,
    {
        if crate::text::str_eq(counters[i].id.as_str(), id) {
            return true;
        }
        i = i + 1;
    }
    false
}

/// Keeps the first counter of each id and drops the rest, yielding a
/// collection that meets the no-duplicate-ids invariant.
#[verifier::loop_isolation(false)]
pub fn dedup_by_id(counters: Vec<Counter>) -> (r: Vec<Counter>)
    ensures
        r@ == deduped(counters@),
        unique_ids(r@),
{
    let ghost orig = counters@;
    let n = counters.len();
    let mut kept: Vec<Counter> = Vec::new();
    let mut i: usize = 0;
    while i < n
        invariant
            i <= n,
            counters@ == orig,
            kept@ == deduped(orig.take(i as int)),
        decreases n - i,
    {
        proof {
            assert(orig.take(i + 1).drop_last() =~= orig.take(i as int));
            assert(orig.take(i + 1).last() == orig[i as int]);
            lemma_deduped_has_id(orig.take(i as int), orig[i as int].id@);
        }
        if !contains_id(&kept, counters[i].id.as_str()) {
            kept.push(counters[i].clone());
        }
        i = i + 1;
    }
    proof {
        assert(orig.take(n as int) =~= orig);
        lemma_deduped_unique(orig);
    }
    kept
}

/// A sequence and its deduplication hold the same ids.
proof fn lemma_deduped_has_id(s: Seq<Counter>, id: Seq<char>)
    ensures
        has_id(deduped(s), id) == has_id(s, id),
    decreases s.len(),
{
    if s.len() > 0 {
        let dl = s.drop_last();
        lemma_deduped_has_id(dl, id);
        assert(s =~= dl.push(s.last()));
        assert(has_id(s, id) == (has_id(dl, id) || s.last().id@ == id)) by {
            if has_id(s, id) {
                let w = choose|w: int| 0 <= w < s.len() && s[w].id@ == id;
                if w < s.len() - 1 {
                    assert(dl[w].id@ == id);
                }
            }
            if has_id(dl, id) {
                let w = choose|w: int| 0 <= w < dl.len() && dl[w].id@ == id;
                assert(s[w].id@ == id);
            }
            if s.last().id@ == id {
                assert(s[s.len() - 1].id@ == id);
            }
        }
        if has_id(dl, s.last().id@) {
            if s.last().id@ == id {
                assert(has_id(deduped(s), id) == has_id(dl, id));
            }
        } else {
            let d = deduped(dl);
            assert(has_id(d.push(s.last()), id) == (has_id(d, id) || s.last().id@ == id)) by {
                if has_id(d.push(s.last()), id) {
                    let w = choose|w: int|
                        0 <= w < d.push(s.last()).len() && d.push(s.last())[w].id@ == id;
                    if w < d.len() {
                        assert(d[w].id@ == id);
                    }
                }
                if has_id(d, id) {
                    let w = choose|w: int| 0 <= w < d.len() && d[w].id@ == id;
                    assert(d.push(s.last())[w].id@ == id);
                }
                if s.last().id@ == id {
                    assert(d.push(s.last())[d.len() as int].id@ == id);
                }
            }
        }
    }
}

/// A deduplication never holds two counters with the same id.
proof fn lemma_deduped_unique(s: Seq<Counter>)
    ensures
        unique_ids(deduped(s)),
    decreases s.len(),
{
    if s.len() > 0 {
        let dl = s.drop_last();
        lemma_deduped_unique(dl);
        if !has_id(dl, s.last().id@) {
            lemma_deduped_has_id(dl, s.last().id@);
            let d = deduped(dl);
            let r = d.push(s.last());
            assert forall|p: int, q: int| 0 <= p < q < r.len() implies r[p].id@ != r[q].id@ by {
                if q == d.len() {
                    assert(!has_id(d, s.last().id@));
                    assert(r[p] == d[p]);
                    if r[p].id@ == s.last().id@ {
                        assert(has_id(d, s.last().id@));
                    }
                } else {
                    assert(r[p] == d[p] && r[q] == d[q]);
                }
            }
        }
    }
}

/// If the first match for `c`'s id is at index `i`, the upsert replaces
/// exactly that position.
proof fn lemma_upserted_found(s: Seq<Counter>, c: Counter, i: int)
    requires
        0 <= i < s.len(),
        s[i].id@ == c.id@,
        forall|j: int| 0 <= j < i ==> s[j].id@ != c.id@,
    ensures
        upserted(s, c) =~= s.update(i, c),
    decreases s.len(),
{
    if i == 0 {
        assert(upserted(s, c) =~= s.update(0, c));
    } else {
        assert(s.skip(1)[i - 1] == s[i]);
        assert(forall|j: int| 0 <= j < i - 1 ==> s.skip(1)[j] == s[j + 1]);
        lemma_upserted_found(s.skip(1), c, i - 1);
        assert(upserted(s, c) =~= s.update(i, c));
    }
}

/// If no counter has `c`'s id, the upsert appends `c`.
proof fn lemma_upserted_absent(s: Seq<Counter>, c: Counter)
    requires
        forall|j: int| 0 <= j < s.len() ==> s[j].id@ != c.id@,
    ensures
        upserted(s, c) =~= s.push(c),
    decreases s.len(),
{
    if s.len() != 0 {
        assert(forall|j: int| 0 <= j < s.skip(1).len() ==> s.skip(1)[j] == s[j + 1]);
        lemma_upserted_absent(s.skip(1), c);
        assert(upserted(s, c) =~= s.push(c));
    }
}

/// An upsert never introduces a duplicate id.
proof fn lemma_upserted_unique(s: Seq<Counter>, c: Counter)
    requires
        unique_ids(s),
    ensures
        unique_ids(upserted(s, c)),
    decreases s.len(),
{
    if s.len() == 0 {
    } else if s[0].id@ == c.id@ {
        let r = seq![c] + s.skip(1);
        assert(forall|j: int| 1 <= j < r.len() ==> r[j] == s[j]);
        assert forall|i: int, j: int| 0 <= i < j < r.len() implies r[i].id@ != r[j].id@ by {
            if i == 0 {
                assert(s[0].id@ != s[j].id@);
            }
        }
    } else {
        assert(forall|i: int, j: int|
            0 <= i < j < s.skip(1).len() ==> s.skip(1)[i].id@ != s.skip(1)[j].id@);
        lemma_upserted_unique(s.skip(1), c);
        let r = seq![s[0]] + upserted(s.skip(1), c);
        lemma_upserted_ids(s.skip(1), c);
        assert forall|i: int, j: int| 0 <= i < j < r.len() implies r[i].id@ != r[j].id@ by {
            if i == 0 {
                assert(r[j] == upserted(s.skip(1), c)[j - 1]);
            }
        }
    }
}

/// Every id in an upserted sequence was already there or is `c`'s.
proof fn lemma_upserted_ids(s: Seq<Counter>, c: Counter)
    ensures
        forall|k: int| 0 <= k < upserted(s, c).len()
            ==> upserted(s, c)[k].id@ == c.id@ || has_id(s, upserted(s, c)[k].id@),
    decreases s.len(),
{
    if s.len() == 0 {
    } else if s[0].id@ == c.id@ {
        assert forall|k: int| 0 <= k < upserted(s, c).len()
            implies upserted(s, c)[k].id@ == c.id@ || has_id(s, upserted(s, c)[k].id@) by {
            if k > 0 {
                assert(upserted(s, c)[k] == s[k]);
            }
        }
    } else {
        lemma_upserted_ids(s.skip(1), c);
        assert forall|k: int| 0 <= k < upserted(s, c).len()
            implies upserted(s, c)[k].id@ == c.id@ || has_id(s, upserted(s, c)[k].id@) by {
            if k > 0 {
                let r = upserted(s.skip(1), c)[k - 1];
                assert(upserted(s, c)[k] == r);
                if r.id@ != c.id@ {
                    let w = choose|w: int| 0 <= w < s.skip(1).len() && s.skip(1)[w].id@ == r.id@;
                    assert(s[w + 1].id@ == r.id@);
                }
            }
        }
    }
}

/// Peeling one element off the end of the sequence peels it off the removal
/// result too.
proof fn lemma_removed_snoc(s: Seq<Counter>, id: Seq<char>)
    requires
        s.len() > 0,
    ensures
        removed(s, id) =~= if s.last().id@ == id {
            removed(s.drop_last(), id)
        } else {
            removed(s.drop_last(), id).push(s.last())
        },
    decreases s.len(),
{
    if s.len() == 1 {
        assert(s.skip(1) =~= Seq::<Counter>::empty());
        assert(s.drop_last() =~= Seq::<Counter>::empty());
        assert(removed(Seq::<Counter>::empty(), id) =~= Seq::<Counter>::empty());
        if s[0].id@ == id {
            assert(removed(s, id) =~= Seq::<Counter>::empty());
        } else {
            assert(removed(s, id) =~= seq![s[0]]);
            assert(removed(s.drop_last(), id).push(s.last()) =~= seq![s[0]]);
        }
    } else {
        lemma_removed_snoc(s.skip(1), id);
        assert(s.skip(1).drop_last() =~= s.drop_last().skip(1));
        assert(s.skip(1).last() == s.last());
        assert(s.drop_last()[0] == s[0]);
        if s[0].id@ == id {
            assert(removed(s, id) == removed(s.skip(1), id));
            assert(s.drop_last().len() > 0);
            assert(removed(s.drop_last(), id) == removed(s.drop_last().skip(1), id));
            assert(s.skip(1).drop_last() == s.drop_last().skip(1));
            if s.last().id@ == id {
                assert(removed(s, id) =~= removed(s.drop_last(), id));
            } else {
                assert(removed(s, id) =~= removed(s.drop_last(), id).push(s.last()));
            }
        } else {
            let tail = removed(s.drop_last().skip(1), id);
            if s.last().id@ == id {
                assert(removed(s, id) =~= seq![s[0]] + tail);
                assert(removed(s.drop_last(), id) =~= seq![s[0]] + tail);
            } else {
                assert(removed(s.skip(1), id) =~= tail.push(s.last()));
                assert(removed(s, id) =~= seq![s[0]] + tail.push(s.last()));
                assert(seq![s[0]] + tail.push(s.last()) =~= (seq![s[0]] + tail).push(s.last()));
                assert(removed(s.drop_last(), id) =~= seq![s[0]] + tail);
            }
        }
    }
}

/// A removal never introduces a duplicate id, and never the removed one.
proof fn lemma_removed_unique(s: Seq<Counter>, id: Seq<char>)
    requires
        unique_ids(s),
    ensures
        unique_ids(removed(s, id)),
        forall|k: int| 0 <= k < removed(s, id).len() ==> has_id(s, removed(s, id)[k].id@),
    decreases s.len(),
{
    if s.len() == 0 {
    } else {
        assert(forall|i: int, j: int|
            0 <= i < j < s.skip(1).len() ==> s.skip(1)[i].id@ != s.skip(1)[j].id@);
        lemma_removed_unique(s.skip(1), id);
        let tail = removed(s.skip(1), id);
        assert forall|k: int| 0 <= k < tail.len() implies has_id(s, tail[k].id@) by {
            let w = choose|w: int| 0 <= w < s.skip(1).len() && s.skip(1)[w].id@ == tail[k].id@;
            assert(s[w + 1].id@ == tail[k].id@);
        }
        if s[0].id@ == id {
        } else {
            let r = seq![s[0]] + tail;
            assert forall|i: int, j: int| 0 <= i < j < r.len() implies r[i].id@ != r[j].id@ by {
                if i == 0 {
                    let w = choose|w: int| 0 <= w < s.skip(1).len() && s.skip(1)[w].id@ == tail[j - 1].id@;
                    assert(s[0].id@ != s[w + 1].id@);
                }
            }
        }
    }
}

/// If the first match for `id` is at index `i`, `spec_find` returns that
/// counter and the adjustment updates exactly that position.
proof fn lemma_find_at(s: Seq<Counter>, id: Seq<char>, i: int)
    requires
        0 <= i < s.len(),
        s[i].id@ == id,
        forall|j: int| 0 <= j < i ==> s[j].id@ != id,
    ensures
        spec_find(s, id) == Some(s[i]),
    decreases i,
{
    if i > 0 {
        assert(forall|j: int| 0 <= j < i - 1 ==> s.skip(1)[j] == s[j + 1]);
        assert(s.skip(1)[i - 1] == s[i]);
        lemma_find_at(s.skip(1), id, i - 1);
    }
}

/// If no counter has the id, `spec_find` returns `None`.
proof fn lemma_find_absent(s: Seq<Counter>, id: Seq<char>)
    requires
        forall|j: int| 0 <= j < s.len() ==> s[j].id@ != id,
    ensures
        spec_find(s, id) == None::<Counter>,
    decreases s.len(),
{
    if s.len() != 0 {
        assert(forall|j: int| 0 <= j < s.skip(1).len() ==> s.skip(1)[j] == s[j + 1]);
        lemma_find_absent(s.skip(1), id);
    }
}

/// If the first match for `id` is at index `i`, the adjustment replaces
/// exactly that position with the bumped counter.
proof fn lemma_adjusted_found(s: Seq<Counter>, id: Seq<char>, delta: int, i: int)
    requires
        0 <= i < s.len(),
        s[i].id@ == id,
        forall|j: int| 0 <= j < i ==> s[j].id@ != id,
    ensures
        adjusted(s, id, delta) =~= s.update(i, bumped(s[i], delta)),
    decreases s.len(),
{
    if i == 0 {
        assert(adjusted(s, id, delta) =~= s.update(0, bumped(s[0], delta)));
    } else {
        assert(forall|j: int| 0 <= j < i - 1 ==> s.skip(1)[j] == s[j + 1]);
        assert(s.skip(1)[i - 1] == s[i]);
        lemma_adjusted_found(s.skip(1), id, delta, i - 1);
        assert(adjusted(s, id, delta) =~= s.update(i, bumped(s[i], delta)));
    }
}

/// If no counter has the id, the adjustment changes nothing.
proof fn lemma_adjusted_absent(s: Seq<Counter>, id: Seq<char>, delta: int)
    requires
        forall|j: int| 0 <= j < s.len() ==> s[j].id@ != id,
    ensures
        adjusted(s, id, delta) =~= s,
    decreases s.len(),
{
    if s.len() != 0 {
        assert(forall|j: int| 0 <= j < s.skip(1).len() ==> s.skip(1)[j] == s[j + 1]);
        lemma_adjusted_absent(s.skip(1), id, delta);
        assert(adjusted(s, id, delta) =~= s);
    }
}

/// A sequence of upserts never yields two counters with the same id, and an
/// upsert of an existing id replaces it in place, leaving every other entry
/// at its position.
pub proof fn lemma_upsert_keeps_unique_ids(s: Seq<Counter>, c: Counter)
    requires
        unique_ids(s),
    ensures
        unique_ids(upserted(s, c)),
        has_id(s, c.id@) ==> {
            let i = choose|i: int| 0 <= i < s.len() && s[i].id@ == c.id@;
            upserted(s, c) =~= s.update(i, c)
        },
        !has_id(s, c.id@) ==> upserted(s, c) =~= s.push(c),
{
    lemma_upserted_unique(s, c);
    if has_id(s, c.id@) {
        let i = choose|i: int| 0 <= i < s.len() && s[i].id@ == c.id@;
        assert forall|j: int| 0 <= j < i implies s[j].id@ != c.id@ by {
            assert(s[j].id@ != s[i].id@);
        }
        lemma_upserted_found(s, c, i);
    } else {
        assert(forall|j: int| 0 <= j < s.len() ==> s[j].id@ != c.id@);
        lemma_upserted_absent(s, c);
    }
}

/// Removing an absent id leaves the collection unchanged: same length, same
/// contents, same order.
pub proof fn lemma_remove_absent_id(s: Seq<Counter>, id: Seq<char>)
    requires
        !has_id(s, id),
    ensures
        removed(s, id) =~= s,
    decreases s.len(),
{
    if s.len() != 0 {
        assert(s[0].id@ != id);
        assert forall|j: int| 0 <= j < s.skip(1).len() implies s.skip(1)[j].id@ != id by {
            assert(s.skip(1)[j] == s[j + 1]);
        }
        assert(!has_id(s.skip(1), id));
        lemma_remove_absent_id(s.skip(1), id);
        assert(removed(s, id) =~= s);
    }
}

/// Adjusting by `d` and then by `-d` restores the collection exactly:
/// integer arithmetic, no drift.
pub proof fn lemma_adjust_round_trip(s: Seq<Counter>, id: Seq<char>, d: int)
    requires
        adjust_fits(s, id, d),
    ensures
        adjusted(adjusted(s, id, d), id, -d) =~= s,
    decreases s.len(),
{
    if s.len() == 0 {
    } else if s[0].id@ == id {
        let b = bumped(s[0], d);
        assert(b.score == s[0].score + d);
        assert(bumped(b, -d) == s[0]);
        assert(adjusted(s, id, d)[0] == b);
        assert(adjusted(s, id, d).skip(1) =~= s.skip(1));
        assert(adjusted(adjusted(s, id, d), id, -d) =~= seq![bumped(b, -d)] + s.skip(1));
        assert(adjusted(adjusted(s, id, d), id, -d) =~= s);
    } else {
        assert(forall|j: int| 0 <= j < s.skip(1).len() ==> s.skip(1)[j] == s[j + 1]);
        assert(spec_find(s, id) == spec_find(s.skip(1), id));
        lemma_adjust_round_trip(s.skip(1), id, d);
        assert(adjusted(s, id, d)[0] == s[0]);
        assert(adjusted(s, id, d).skip(1) =~= adjusted(s.skip(1), id, d));
        assert(adjusted(adjusted(s, id, d), id, -d)
            =~= seq![s[0]] + adjusted(adjusted(s.skip(1), id, d), id, -d));
        assert(adjusted(adjusted(s, id, d), id, -d) =~= s);
    }
}

/// Writing a collection to the envelope and hydrating the envelope back
/// yields the identical ordered collection. The two premises are exactly
/// what `to_storage` and `from_storage` ensure.
pub proof fn lemma_storage_round_trip(s: Store, d: StoredData, r: Store)
    requires
        d.schema_version == SCHEMA_VERSION,
        d.counters@ == s.counters@,
        r.counters@ == d.counters@,
    ensures
        r.counters@ == s.counters@,
{
}

} // verus!
