//! Keyed tables as vectors of rows: finding, copying and upserting, once for
//! every table.

use crate::records::same_text;
use crate::table::{
    has_key, lemma_index_of, lemma_upsert, lemma_upsert_all_step, unique_keys, upsert, upsert_all,
    Keyed,
};
use vstd::prelude::*;

verus! {

/// A row as a table holds it.
pub trait Row: Sized {
    /// What the row is, as contracts see it.
    type Model: Keyed;

    /// What a collection lists to have such a row written.
    type Listing;

    /// The row's value.
    spec fn model(&self) -> Self::Model;

    /// The value of the row that a listing asks for.
    spec fn listed(listing: &Self::Listing) -> Self::Model;

    /// The text of the row's key.
    fn key_text(&self) -> (k: &String)
        ensures
            k@ == self.model().key(),
    ;

    /// A copy of the row.
    fn copy(&self) -> (r: Self)
        ensures
            r.model() == self.model(),
    ;

    /// The row that a listing asks for.
    fn enrol(listing: &Self::Listing) -> (r: Self)
        ensures
            r.model() == Self::listed(listing),
    ;

    /// The row that stands once `self` is written over `old`.
    fn written_over(self, old: &Self) -> (r: Self)
        ensures
            r.model() == self.model().absorb(old.model()),
    ;
}

/// The values of a table's rows.
pub open spec fn models<T: Row>(rows: Seq<T>) -> Seq<T::Model> {
    Seq::new(rows.len(), |i: int| rows[i].model())
}

/// The values of the rows that a batch of listings asks for.
pub open spec fn listings<T: Row>(batch: Seq<T::Listing>) -> Seq<T::Model> {
    Seq::new(batch.len(), |i: int| T::listed(&batch[i]))
}

/// Where the first row with key `code` stands, if there is one.
pub fn find_row<T: Row>(rows: &Vec<T>, code: &String) -> (r: Option<usize>)
    ensures
        match r {
            Some(i) => {
                &&& i < rows.len()
                &&& models(rows@)[i as int].key() == code@
                &&& forall|j: int| 0 <= j < i ==> (#[trigger] models(rows@)[j]).key() != code@
            },
            None => !has_key(models(rows@), code@),
        },
{
    let mut i: usize = 0;
    while i < rows.len()
        invariant
            i <= rows.len(),
            forall|j: int| 0 <= j < i ==> (#[trigger] models(rows@)[j]).key() != code@,
        decreases rows.len() - i,
    {
        if same_text(rows[i].key_text(), code) {
            return Some(i);
        }
        i += 1;
    }
    None
}

/// A copy of the table.
pub fn copy_rows<T: Row>(rows: &Vec<T>) -> (out: Vec<T>)
    ensures
        models(out@) == models(rows@),
{
    let mut out: Vec<T> = Vec::new();
    let mut i: usize = 0;
    while i < rows.len()
        invariant
            i <= rows.len(),
            out.len() == i,
            forall|j: int| 0 <= j < i ==> (#[trigger] out[j]).model() == rows[j].model(),
        decreases rows.len() - i,
    {
        out.push(rows[i].copy());
        i += 1;
    }
    assert(models(out@) =~= models(rows@));
    out
}

/// Inserts the row, or writes it over the row that has its key.
pub fn upsert_row<T: Row>(rows: &mut Vec<T>, row: T)
    requires
        unique_keys(models(old(rows)@)),
    ensures
        models(final(rows)@) == upsert(models(old(rows)@), row.model()),
        unique_keys(models(final(rows)@)),
{
    let ghost before = models(rows@);
    let found = find_row(rows, row.key_text());
    proof {
        lemma_upsert(before, row.model());
    }
    match found {
        Some(i) => {
            proof {
                lemma_index_of(before, i as int);
            }
            let merged = row.written_over(&rows[i]);
            rows.set(i, merged);
        },
        None => {
            rows.push(row);
        },
    }
    assert(models(rows@) =~= upsert(before, row.model()));
}

/// Upserts the row that each listing of the batch asks for, first to last.
pub fn upsert_rows<T: Row>(rows: &mut Vec<T>, batch: &Vec<T::Listing>)
    requires
        unique_keys(models(old(rows)@)),
    ensures
        models(final(rows)@) == upsert_all(models(old(rows)@), listings::<T>(batch@)),
        unique_keys(models(final(rows)@)),
{
    let ghost before = models(rows@);
    let ghost asked = listings::<T>(batch@);
    let mut i: usize = 0;
    while i < batch.len()
        invariant
            i <= batch.len(),
            asked == listings::<T>(batch@),
            unique_keys(models(rows@)),
            models(rows@) == upsert_all(before, asked.take(i as int)),
        decreases batch.len() - i,
    {
        proof {
            lemma_upsert_all_step(before, asked, i as int);
        }
        upsert_row(rows, T::enrol(&batch[i]));
        i += 1;
    }
    assert(asked.take(batch.len() as int) =~= asked);
}

} // verus!
