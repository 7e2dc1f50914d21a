//! Keyed tables as mathematical sequences: what it means to upsert a row,
//! and why replaying the same batch of rows changes nothing.

use vstd::prelude::*;

verus! {

/// A row value with a unique key and a rule for overwriting an older row.
pub trait Keyed: Sized {
    /// The row's unique key.
    spec fn key(self) -> Seq<char>;

    /// The row that stands in the table once `self` is written over `old`.
    spec fn absorb(self, old: Self) -> Self;

    /// Overwriting never changes the key.
    proof fn absorb_keeps_key(self, old: Self)
        ensures
            self.absorb(old).key() == self.key(),
    ;

    /// Only the newest write and the oldest row matter.
    proof fn absorb_forgets(self, mid: Self, old: Self)
        ensures
            self.absorb(mid.absorb(old)) == self.absorb(old),
    ;

    /// Writing a row over itself changes nothing.
    proof fn absorb_self(self)
        ensures
            self.absorb(self) == self,
    ;
}

/// Some row of `rows` has key `k`.
pub open spec fn has_key<R: Keyed>(rows: Seq<R>, k: Seq<char>) -> bool {
    exists|i: int| 0 <= i < rows.len() && #[trigger] rows[i].key() == k
}

/// No two rows share a key.
pub open spec fn unique_keys<R: Keyed>(rows: Seq<R>) -> bool {
    forall|i: int, j: int|
        0 <= i < j < rows.len() ==> #[trigger] rows[i].key() != #[trigger] rows[j].key()
}

/// The position of a row with key `k`, where there is one.
pub open spec fn index_of<R: Keyed>(rows: Seq<R>, k: Seq<char>) -> int {
    choose|i: int| 0 <= i < rows.len() && #[trigger] rows[i].key() == k
}

/// Insert `r` if its key is absent, else overwrite the row that has it.
pub open spec fn upsert<R: Keyed>(rows: Seq<R>, r: R) -> Seq<R> {
    if has_key(rows, r.key()) {
        let i = index_of(rows, r.key());
        rows.update(i, r.absorb(rows[i]))
    } else {
        rows.push(r)
    }
}

/// Upsert every row of `recs`, first to last.
pub open spec fn upsert_all<R: Keyed>(rows: Seq<R>, recs: Seq<R>) -> Seq<R>
    decreases recs.len(),
{
    if recs.len() == 0 {
        rows
    } else {
        upsert(upsert_all(rows, recs.drop_last()), recs.last())
    }
}

/// Row `x` after every row of `recs` with its key was written over it.
pub open spec fn replay<R: Keyed>(x: R, recs: Seq<R>) -> R
    decreases recs.len(),
{
    if recs.len() == 0 {
        x
    } else {
        let y = replay(x, recs.drop_last());
        if recs.last().key() == x.key() {
            recs.last().absorb(y)
        } else {
            y
        }
    }
}

/// Every key of `recs` is a key of `rows`.
pub open spec fn covers<R: Keyed>(rows: Seq<R>, recs: Seq<R>) -> bool {
    forall|j: int| 0 <= j < recs.len() ==> has_key(rows, #[trigger] recs[j].key())
}

/// With unique keys, a key's position is the only position that holds it.
pub proof fn lemma_index_of<R: Keyed>(rows: Seq<R>, i: int)
    requires
        unique_keys(rows),
        0 <= i < rows.len(),
    ensures
        has_key(rows, rows[i].key()),
        index_of(rows, rows[i].key()) == i,
{
    let k = rows[i].key();
    assert(has_key(rows, k));
    let c = index_of(rows, k);
    assert(0 <= c < rows.len() && rows[c].key() == k);
    if c < i {
        assert(rows[c].key() != rows[i].key());
    } else if i < c {
        assert(rows[i].key() != rows[c].key());
    }
}

/// One upsert keeps keys unique, keeps every old row's place and key, and
/// leaves the new key in the table.
pub proof fn lemma_upsert<R: Keyed>(rows: Seq<R>, r: R)
    requires
        unique_keys(rows),
    ensures
        unique_keys(upsert(rows, r)),
        has_key(upsert(rows, r), r.key()),
        rows.len() <= upsert(rows, r).len() <= rows.len() + 1,
        forall|i: int|
            0 <= i < rows.len() ==> (#[trigger] upsert(rows, r)[i]).key() == rows[i].key(),
        forall|i: int|
            0 <= i < rows.len() && rows[i].key() != r.key() ==> #[trigger] upsert(rows, r)[i]
                == rows[i],
        forall|i: int|
            rows.len() <= i < upsert(rows, r).len() ==> #[trigger] upsert(rows, r)[i] == r,
        forall|i: int|
            0 <= i < rows.len() && rows[i].key() == r.key() ==> #[trigger] upsert(rows, r)[i]
                == r.absorb(rows[i]),
        forall|k: Seq<char>| has_key(rows, k) ==> has_key(upsert(rows, r), k),
        forall|k: Seq<char>| has_key(upsert(rows, r), k) ==> has_key(rows, k) || k == r.key(),
{
    let t = upsert(rows, r);
    if has_key(rows, r.key()) {
        let p = index_of(rows, r.key());
        r.absorb_keeps_key(rows[p]);
        assert(t.len() == rows.len());
        assert forall|i: int| 0 <= i < rows.len() implies (#[trigger] t[i]).key()
            == rows[i].key() by {}
        assert forall|i: int| 0 <= i < rows.len() && rows[i].key() == r.key() implies #[trigger] t[i]
            == r.absorb(rows[i]) by {
            lemma_index_of(rows, i);
        }
        assert forall|i: int, j: int| 0 <= i < j < t.len() implies #[trigger] t[i].key()
            != #[trigger] t[j].key() by {
            assert(rows[i].key() != rows[j].key());
        }
        assert(t[p].key() == r.key());
        assert forall|k: Seq<char>| has_key(rows, k) implies has_key(t, k) by {
            let i = index_of(rows, k);
            assert(t[i].key() == k);
        }
        assert forall|k: Seq<char>| has_key(t, k) implies has_key(rows, k) || k == r.key() by {
            let i = index_of(t, k);
            assert(rows[i].key() == k);
        }
    } else {
        assert(t.len() == rows.len() + 1);
        assert forall|i: int, j: int| 0 <= i < j < t.len() implies #[trigger] t[i].key()
            != #[trigger] t[j].key() by {
            if j < rows.len() {
                assert(rows[i].key() != rows[j].key());
            } else {
                assert(t[i] == rows[i]);
                assert(rows[i].key() != r.key());
            }
        }
        assert(t[rows.len() as int].key() == r.key());
        assert forall|k: Seq<char>| has_key(rows, k) implies has_key(t, k) by {
            let i = index_of(rows, k);
            assert(t[i].key() == k);
        }
        assert forall|k: Seq<char>| has_key(t, k) implies has_key(rows, k) || k == r.key() by {
            let i = index_of(t, k);
            if i < rows.len() {
                assert(rows[i].key() == k);
            }
        }
    }
}

/// Upserting a batch one row longer is upserting the batch, then the row.
pub proof fn lemma_upsert_all_step<R: Keyed>(rows: Seq<R>, recs: Seq<R>, n: int)
    requires
        0 <= n < recs.len(),
    ensures
        upsert_all(rows, recs.take(n + 1)) == upsert(upsert_all(rows, recs.take(n)), recs[n]),
{
    assert(recs.take(n + 1).drop_last() =~= recs.take(n));
    assert(recs.take(n + 1).last() == recs[n]);
}

/// A batch of upserts keeps keys unique, keeps every old row's place and
/// key, and leaves every key of the batch in the table.
pub proof fn lemma_upsert_all<R: Keyed>(rows: Seq<R>, recs: Seq<R>)
    requires
        unique_keys(rows),
    ensures
        unique_keys(upsert_all(rows, recs)),
        rows.len() <= upsert_all(rows, recs).len(),
        forall|i: int|
            0 <= i < rows.len() ==> (#[trigger] upsert_all(rows, recs)[i]).key() == rows[i].key(),
        covers(upsert_all(rows, recs), recs),
        forall|k: Seq<char>| has_key(rows, k) ==> has_key(upsert_all(rows, recs), k),
        forall|k: Seq<char>|
            has_key(upsert_all(rows, recs), k) ==> has_key(rows, k) || exists|j: int|
                0 <= j < recs.len() && #[trigger] recs[j].key() == k,
    decreases recs.len(),
{
    if recs.len() > 0 {
        let before = recs.drop_last();
        let mid = upsert_all(rows, before);
        let t = upsert_all(rows, recs);
        lemma_upsert_all(rows, before);
        lemma_upsert(mid, recs.last());
        assert forall|j: int| 0 <= j < recs.len() implies has_key(t, #[trigger] recs[j].key()) by {
            if j < before.len() {
                assert(before[j] == recs[j]);
                assert(has_key(mid, before[j].key()));
            }
        }
        assert forall|k: Seq<char>| has_key(t, k) implies has_key(rows, k) || exists|j: int|
            0 <= j < recs.len() && #[trigger] recs[j].key() == k by {
            if k == recs.last().key() {
                assert(recs[recs.len() - 1].key() == k);
            } else if !has_key(rows, k) {
                assert(has_key(mid, k));
                let j = choose|j: int| 0 <= j < before.len() && #[trigger] before[j].key() == k;
                assert(recs[j].key() == k);
            }
        }
    }
}

/// A write over a replayed row is the same write over the row itself.
pub proof fn lemma_absorb_replay<R: Keyed>(a: R, x: R, recs: Seq<R>)
    ensures
        a.absorb(replay(x, recs)) == a.absorb(x),
    decreases recs.len(),
{
    if recs.len() > 0 {
        let y = replay(x, recs.drop_last());
        lemma_absorb_replay(a, x, recs.drop_last());
        if recs.last().key() == x.key() {
            a.absorb_forgets(recs.last(), y);
        }
    }
}

/// Where the table already holds every key of the batch, the batch only
/// rewrites rows in place.
pub proof fn lemma_upsert_all_in_place<R: Keyed>(rows: Seq<R>, recs: Seq<R>)
    requires
        unique_keys(rows),
        covers(rows, recs),
    ensures
        upsert_all(rows, recs).len() == rows.len(),
        forall|i: int|
            0 <= i < rows.len() ==> #[trigger] upsert_all(rows, recs)[i] == replay(rows[i], recs),
    decreases recs.len(),
{
    if recs.len() > 0 {
        let before = recs.drop_last();
        let last = recs.last();
        assert forall|j: int| 0 <= j < before.len() implies has_key(
            rows,
            #[trigger] before[j].key(),
        ) by {
            assert(before[j] == recs[j]);
        }
        lemma_upsert_all_in_place(rows, before);
        lemma_upsert_all(rows, before);
        let mid = upsert_all(rows, before);
        let t = upsert_all(rows, recs);
        assert(last == recs[recs.len() - 1]);
        assert(has_key(rows, last.key()));
        assert(has_key(mid, last.key()));
        lemma_upsert(mid, last);
        assert forall|i: int| 0 <= i < rows.len() implies #[trigger] t[i] == replay(
            rows[i],
            recs,
        ) by {
            assert(mid[i].key() == rows[i].key());
            assert(mid[i] == replay(rows[i], before));
        }
    }
}

/// After a batch of upserts, replaying the batch over any row of the table
/// gives that row back.
pub proof fn lemma_upsert_all_settled<R: Keyed>(rows: Seq<R>, recs: Seq<R>)
    requires
        unique_keys(rows),
    ensures
        forall|i: int|
            0 <= i < upsert_all(rows, recs).len() ==> replay(
                #[trigger] upsert_all(rows, recs)[i],
                recs,
            ) == upsert_all(rows, recs)[i],
    decreases recs.len(),
{
    if recs.len() > 0 {
        let before = recs.drop_last();
        let last = recs.last();
        let mid = upsert_all(rows, before);
        let t = upsert_all(rows, recs);
        lemma_upsert_all_settled(rows, before);
        lemma_upsert_all(rows, before);
        lemma_upsert(mid, last);
        assert forall|i: int| 0 <= i < t.len() implies replay(#[trigger] t[i], recs) == t[i] by {
            if i < mid.len() {
                assert(t[i].key() == mid[i].key());
                if mid[i].key() == last.key() {
                    assert(t[i] == last.absorb(mid[i]));
                    lemma_absorb_replay(last, t[i], before);
                    last.absorb_forgets(last, mid[i]);
                } else {
                    assert(t[i] == mid[i]);
                    assert(replay(mid[i], before) == mid[i]);
                }
            } else {
                assert(t[i] == last);
                lemma_absorb_replay(last, last, before);
                last.absorb_self();
            }
        }
    }
}

/// Upserting the same batch a second time leaves the table as the first
/// time left it.
pub proof fn lemma_upsert_all_idempotent<R: Keyed>(rows: Seq<R>, recs: Seq<R>)
    requires
        unique_keys(rows),
    ensures
        upsert_all(upsert_all(rows, recs), recs) == upsert_all(rows, recs),
{
    let t = upsert_all(rows, recs);
    lemma_upsert_all(rows, recs);
    lemma_upsert_all_settled(rows, recs);
    lemma_upsert_all_in_place(t, recs);
    assert(upsert_all(t, recs) =~= t);
}

/// After a batch of upserts, the row under a key carries what the last row
/// of the batch with that key wrote.
pub proof fn lemma_last_write_wins<R: Keyed>(rows: Seq<R>, recs: Seq<R>, j: int)
    requires
        unique_keys(rows),
        0 <= j < recs.len(),
        forall|l: int| j < l < recs.len() ==> #[trigger] recs[l].key() != recs[j].key(),
    ensures
        has_key(upsert_all(rows, recs), recs[j].key()),
        exists|old: R|
            upsert_all(rows, recs)[index_of(upsert_all(rows, recs), recs[j].key())]
                == #[trigger] recs[j].absorb(old),
    decreases recs.len(),
{
    let before = recs.drop_last();
    let last = recs.last();
    let mid = upsert_all(rows, before);
    let t = upsert_all(rows, recs);
    let k = recs[j].key();
    lemma_upsert_all(rows, before);
    lemma_upsert_all(rows, recs);
    lemma_upsert(mid, last);
    assert(has_key(t, k));
    let p = index_of(t, k);
    if j == recs.len() - 1 {
        if p < mid.len() {
            assert(t[p] == last.absorb(mid[p]));
        } else {
            last.absorb_self();
            assert(t[p] == last.absorb(last));
        }
    } else {
        assert(before[j] == recs[j]);
        assert forall|l: int| j < l < before.len() implies #[trigger] before[l].key()
            != before[j].key() by {
            assert(before[l] == recs[l]);
        }
        lemma_last_write_wins(rows, before, j);
        let q = index_of(mid, k);
        let old = choose|old: R| mid[q] == #[trigger] recs[j].absorb(old);
        assert(recs[recs.len() - 1].key() != k);
        assert(t[q].key() == mid[q].key());
        lemma_index_of(t, q);
        assert(t[p] == recs[j].absorb(old));
    }
}

/// The first row that `wanted` accepts, where there is one.
pub open spec fn first_match<R>(rows: Seq<R>, wanted: spec_fn(R) -> bool) -> Option<R>
    decreases rows.len(),
{
    if rows.len() == 0 {
        None
    } else if wanted(rows[0]) {
        Some(rows[0])
    } else {
        first_match(rows.drop_first(), wanted)
    }
}

/// Where `wanted` turns away the first `n` rows, the first match is that of
/// the rows after them.
pub proof fn lemma_first_match_skip<R>(rows: Seq<R>, wanted: spec_fn(R) -> bool, n: int)
    requires
        0 <= n <= rows.len(),
        forall|j: int| 0 <= j < n ==> !wanted(#[trigger] rows[j]),
    ensures
        first_match(rows, wanted) == first_match(rows.skip(n), wanted),
    decreases n,
{
    if n == 0 {
        assert(rows.skip(0) =~= rows);
    } else {
        let rest = rows.drop_first();
        assert forall|j: int| 0 <= j < n - 1 implies !wanted(#[trigger] rest[j]) by {
            assert(rest[j] == rows[j + 1]);
        }
        lemma_first_match_skip(rest, wanted, n - 1);
        assert(rest.skip(n - 1) =~= rows.skip(n));
        assert(!wanted(rows[0]));
    }
}

/// The rows that `keep` accepts, in order, each seen through `shape`.
pub open spec fn collect<R, T>(
    rows: Seq<R>,
    keep: spec_fn(R) -> bool,
    shape: spec_fn(R) -> T,
) -> Seq<T>
    decreases rows.len(),
{
    if rows.len() == 0 {
        Seq::empty()
    } else {
        let before = collect(rows.drop_last(), keep, shape);
        if keep(rows.last()) {
            before.push(shape(rows.last()))
        } else {
            before
        }
    }
}

/// Collecting from one row more adds that row's shape, or nothing.
pub proof fn lemma_collect_step<R, T>(
    rows: Seq<R>,
    keep: spec_fn(R) -> bool,
    shape: spec_fn(R) -> T,
    n: int,
)
    requires
        0 <= n < rows.len(),
    ensures
        collect(rows.take(n + 1), keep, shape) == if keep(rows[n]) {
            collect(rows.take(n), keep, shape).push(shape(rows[n]))
        } else {
            collect(rows.take(n), keep, shape)
        },
{
    assert(rows.take(n + 1).drop_last() =~= rows.take(n));
    assert(rows.take(n + 1).last() == rows[n]);
}

/// Two tables with the same keys, place for place, hold the same keys and
/// are unique together.
pub proof fn lemma_same_keys<R: Keyed>(a: Seq<R>, b: Seq<R>)
    requires
        a.len() == b.len(),
        forall|i: int| 0 <= i < a.len() ==> (#[trigger] a[i]).key() == b[i].key(),
    ensures
        unique_keys(a) ==> unique_keys(b),
        forall|k: Seq<char>| has_key(a, k) ==> has_key(b, k),
{
    if unique_keys(a) {
        assert forall|i: int, j: int| 0 <= i < j < b.len() implies #[trigger] b[i].key()
            != #[trigger] b[j].key() by {
            assert(a[i].key() != a[j].key());
        }
    }
    assert forall|k: Seq<char>| has_key(a, k) implies has_key(b, k) by {
        let i = index_of(a, k);
        assert(a[i].key() == k);
        assert(b[i].key() == k);
    }
}

/// Exactly one row of `rows` has key `k`.
pub open spec fn exactly_once<R: Keyed>(rows: Seq<R>, k: Seq<char>) -> bool {
    exists|i: int|
        0 <= i < rows.len() && (#[trigger] rows[i]).key() == k && forall|j: int|
            0 <= j < rows.len() && (#[trigger] rows[j]).key() == k ==> j == i
}

/// In a table with unique keys, a key that occurs occurs exactly once.
pub proof fn lemma_exactly_once<R: Keyed>(rows: Seq<R>, k: Seq<char>)
    requires
        unique_keys(rows),
        has_key(rows, k),
    ensures
        exactly_once(rows, k),
{
    let i = index_of(rows, k);
    assert(rows[i].key() == k);
    assert forall|j: int| 0 <= j < rows.len() && (#[trigger] rows[j]).key() == k implies j
        == i by {
        lemma_index_of(rows, j);
    }
}

/// Where the first row that `wanted` accepts stands; the length of `rows`
/// where it accepts none.
pub open spec fn first_position<R>(rows: Seq<R>, wanted: spec_fn(R) -> bool) -> int
    decreases rows.len(),
{
    if rows.len() == 0 {
        0
    } else if wanted(rows[0]) {
        0
    } else {
        1 + first_position(rows.drop_first(), wanted)
    }
}

/// The first match is the row at the first position, and no row before it
/// is accepted.
pub proof fn lemma_first_position<R>(rows: Seq<R>, wanted: spec_fn(R) -> bool)
    ensures
        0 <= first_position(rows, wanted) <= rows.len(),
        forall|j: int| 0 <= j < first_position(rows, wanted) ==> !wanted(#[trigger] rows[j]),
        first_position(rows, wanted) < rows.len() ==> wanted(rows[first_position(rows, wanted)])
            && first_match(rows, wanted) == Some(rows[first_position(rows, wanted)]),
        first_position(rows, wanted) == rows.len() ==> first_match(rows, wanted) is None,
    decreases rows.len(),
{
    if rows.len() > 0 && !wanted(rows[0]) {
        let rest = rows.drop_first();
        lemma_first_position(rest, wanted);
        let p = first_position(rest, wanted);
        assert forall|j: int| 0 <= j < p + 1 implies !wanted(#[trigger] rows[j]) by {
            if j > 0 {
                assert(rest[j - 1] == rows[j]);
            }
        }
        if p < rest.len() {
            assert(rest[p] == rows[p + 1]);
        }
    }
}

/// Two tables whose rows are accepted alike, place for place, have their
/// first match at the same place.
pub proof fn lemma_first_position_alike<R>(a: Seq<R>, b: Seq<R>, wanted: spec_fn(R) -> bool)
    requires
        a.len() == b.len(),
        forall|i: int| 0 <= i < a.len() ==> wanted(#[trigger] a[i]) == wanted(b[i]),
    ensures
        first_position(a, wanted) == first_position(b, wanted),
    decreases a.len(),
{
    if a.len() > 0 {
        assert(wanted(a[0]) == wanted(b[0]));
        if !wanted(a[0]) {
            let ra = a.drop_first();
            let rb = b.drop_first();
            assert forall|i: int| 0 <= i < ra.len() implies wanted(#[trigger] ra[i]) == wanted(
                rb[i],
            ) by {
                assert(ra[i] == a[i + 1]);
                assert(rb[i] == b[i + 1]);
                assert(wanted(a[i + 1]) == wanted(b[i + 1]));
            }
            lemma_first_position_alike(ra, rb, wanted);
        }
    }
}

} // verus!
