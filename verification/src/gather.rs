//! `gather`
//!
//! Turns a wide frame into a long one. Each row names some of its fields
//! and their values; for every such field the result holds one row, made
//! from a duplicate of the wide row by clearing the gathered fields and
//! writing the field's name and value into a key and a value column.

use vstd::prelude::*;
use crate::dataframe::DataFrame;
use crate::traits::{Record, ThreadSafe};

verus! {

/// The number of fields in all of `fields` together.
pub open spec fn total_len<V>(fields: Seq<Seq<V>>) -> nat
    decreases fields.len(),
{
    if fields.len() == 0 {
        0
    } else {
        total_len(fields.drop_last()) + fields.last().len()
    }
}

/// The rows that a gather has to write: each row of `rows` once for each of
/// its fields, with that field, in the order of the rows and within a row in
/// the order of its fields.
pub open spec fn jobs<R, V>(rows: Seq<R>, fields: Seq<Seq<V>>) -> Seq<(R, V)>
    recommends
        fields.len() == rows.len(),
    decreases rows.len(),
{
    if rows.len() == 0 {
        Seq::empty()
    } else {
        jobs(rows.drop_last(), fields.drop_last()) + row_jobs(rows.last(), fields.last())
    }
}

/// The row `r` once for each of its fields, with that field.
pub open spec fn row_jobs<R, V>(r: R, fields: Seq<V>) -> Seq<(R, V)> {
    Seq::new(fields.len(), |k: int| (r, fields[k]))
}

/// `fields` is what `collect` may name on a duplicate of `r`.
pub open spec fn row_collected<R: Record, V, Collect: Fn(R) -> Vec<(&'static str, V)>>(
    collect: Collect,
    r: R,
    fields: Seq<(&'static str, V)>,
) -> bool {
    exists|c: R, named: Vec<(&'static str, V)>|
        cloned(r, c) && #[trigger] call_ensures(collect, (c,), named) && named@ == fields
}

/// `fields` holds, row by row, what `collect` may name on that row.
pub open spec fn collected<R: Record, V, Collect: Fn(R) -> Vec<(&'static str, V)>>(
    collect: Collect,
    rows: Seq<R>,
    fields: Seq<Seq<(&'static str, V)>>,
) -> bool {
    &&& fields.len() == rows.len()
    &&& forall|i: int| 0 <= i < rows.len() ==> row_collected(collect, rows[i], #[trigger] fields[i])
}

/// `x` is an exclusive borrow of a duplicate of `r`, as a call of `update`
/// with the name and the value of `field` may have taken it. What the call
/// left behind is the borrow's final value.
pub open spec fn field_written<R: Record, V, Update: Fn(&mut R, String, V)>(
    update: Update,
    r: R,
    field: (&'static str, V),
    x: &mut R,
) -> bool {
    &&& cloned(r, *x)
    &&& exists|key: String| key@ == field.0@ && #[trigger] call_ensures(update, (x, key, field.1), ())
}

/// `edits` holds, job by job, a borrow as `update` may have taken it for
/// that job.
pub open spec fn written<R: Record, V, Update: Fn(&mut R, String, V)>(
    update: Update,
    work: Seq<(R, (&'static str, V))>,
    edits: Seq<&mut R>,
) -> bool {
    &&& edits.len() == work.len()
    &&& forall|k: int|
        0 <= k < work.len() ==> field_written(update, work[k].0, work[k].1, #[trigger] edits[k])
}

/// The two functions accept what a gather of `rows` hands them: `collect`
/// every duplicate of a row, `update` a borrow of any duplicate of a row
/// with any name and value.
pub open spec fn gather_accepts<
    R: Record,
    V,
    Collect: Fn(R) -> Vec<(&'static str, V)>,
    Update: Fn(&mut R, String, V),
>(collect: Collect, update: Update, rows: Seq<R>) -> bool {
    &&& forall|i: int, c: R|
        0 <= i < rows.len() && #[trigger] cloned(rows[i], c) ==> call_requires(collect, (c,))
    &&& forall|i: int, x: &mut R, key: String, value: V|
        #![trigger cloned(rows[i], *x), call_requires(update, (x, key, value))]
        0 <= i < rows.len() && cloned(rows[i], *x) ==> call_requires(update, (x, key, value))
}

/// The jobs of some rows have as many entries as the rows have fields.
pub proof fn lemma_jobs_len<R, V>(rows: Seq<R>, fields: Seq<Seq<V>>)
    requires
        fields.len() == rows.len(),
    ensures
        jobs(rows, fields).len() == total_len(fields),
    decreases rows.len(),
{
    if rows.len() > 0 {
        lemma_jobs_len(rows.drop_last(), fields.drop_last());
    }
}

/// One more row adds its own jobs after those of the rows before it.
proof fn lemma_jobs_push<R, V>(rows: Seq<R>, fields: Seq<Seq<V>>, r: R, named: Seq<V>)
    ensures
        jobs(rows.push(r), fields.push(named)) == jobs(rows, fields) + row_jobs(r, named),
{
    assert(rows.push(r).drop_last() == rows);
    assert(fields.push(named).drop_last() == fields);
}

/// `len` is a number of rows that a gather of `rows` may return: the
/// number of fields that `collect` may name on all the rows together.
pub open spec fn gather_len<R: Record, V, Collect: Fn(R) -> Vec<(&'static str, V)>>(
    collect: Collect,
    rows: Seq<R>,
    len: nat,
) -> bool {
    exists|fields: Seq<Seq<(&'static str, V)>>| #[trigger]
        collected(collect, rows, fields) && len == total_len(fields)
}

/// On every duplicate of a row of `rows`, `collect` names the fields that
/// `fields_of` gives for the row.
pub open spec fn names<R: Record, V, Collect: Fn(R) -> Vec<(&'static str, V)>>(
    collect: Collect,
    fields_of: spec_fn(R) -> Seq<(&'static str, V)>,
    rows: Seq<R>,
) -> bool {
    forall|i: int, c: R, named: Vec<(&'static str, V)>|
        0 <= i < rows.len() && cloned(rows[i], c) && #[trigger] call_ensures(collect, (c,), named)
            ==> named@ == fields_of(#[trigger] rows[i])
}

/// A gather returns as many rows as its input rows have fields to gather,
/// all rows taken together: the sum over the rows of the number of fields
/// collected from each.
pub proof fn lemma_gather_len<R: Record, V, Collect: Fn(R) -> Vec<(&'static str, V)>>(
    collect: Collect,
    fields_of: spec_fn(R) -> Seq<(&'static str, V)>,
    rows: Seq<R>,
    len: nat,
)
    requires
        gather_len(collect, rows, len),
        names(collect, fields_of, rows),
    ensures
        len == total_len(rows.map_values(fields_of)),
{
    let fields = choose|fields: Seq<Seq<(&'static str, V)>>| #[trigger]
        collected(collect, rows, fields) && len == total_len(fields);
    assert forall|i: int| 0 <= i < rows.len() implies fields[i] == fields_of(rows[i]) by {
        assert(row_collected(collect, rows[i], fields[i]));
    }
    assert(fields =~= rows.map_values(fields_of));
}

/// Duplicate `record` and let `update` write one field into the duplicate.
fn write_field<R, V, Update>(update: &Update, record: &R, name: &'static str, value: V) -> (n: R) where
    R: Record,
    Update: Fn(&mut R, String, V),

    requires
        forall|x: &mut R, key: String|
            #![trigger call_requires(*update, (x, key, value))]
            cloned(*record, *x) ==> call_requires(*update, (x, key, value)),
    ensures
        exists|x: &mut R, key: String|
            #![trigger call_ensures(*update, (x, key, value), ())]
            {
                &&& cloned(*record, *x)
                &&& key@ == name@
                &&& call_ensures(*update, (x, key, value), ())
                &&& *final(x) == n
            },
{
    broadcast use vstd::string::to_string_from_display_ensures_for_str;

    let mut new_record = record.clone();
    let key = name.to_string();
    update(&mut new_record, key, value);
    new_record
}

impl<R: Record> DataFrame<R> {
    /// Collect many columns into a key and a value column, repeating the
    /// other values as necessary.
    ///
    /// `item.0` names the fields of a row that are to be gathered, with
    /// their values, which are all of one type. `item.1` is handed a
    /// duplicate of the row, a field's name and its value; it is expected to
    /// clear the gathered fields and to store the name and the value. The
    /// result holds one row for each field of each row, in the order of the
    /// rows and, for one row, in the order in which `item.0` named its
    /// fields. A row without fields leaves nothing behind.
    pub fn gather<Value, Collect, Update>(&self, item: (Collect, Update)) -> (out: DataFrame<R>) where
        Collect: ThreadSafe + Fn(R) -> Vec<(&'static str, Value)>,
        Update: ThreadSafe + Fn(&mut R, String, Value),

        requires
            gather_accepts(item.0, item.1, self@),
        ensures
            gather_len(item.0, self@, out@.len() as nat),
            exists|fields: Seq<Seq<(&'static str, Value)>>, edits: Seq<&mut R>|
                {
                    &&& #[trigger] collected(item.0, self@, fields)
                    &&& #[trigger] written(item.1, jobs(self@, fields), edits)
                    &&& out@.len() == total_len(fields)
                    &&& out@.len() == edits.len()
                    &&& forall|k: int|
                        0 <= k < edits.len() ==> out@[k] == *final(#[trigger] edits[k])
                },
    {
        // Names the fields of a row.
        let collect = item.0;
        // Writes one field into a duplicate of the row.
        let update = item.1;
        let mut new_records: Vec<R> = Vec::new();
        let ghost mut fields: Seq<Seq<(&'static str, Value)>> = Seq::empty();
        let n = self.len();
        let mut i: usize = 0;
        assert(written(update, jobs(self@.take(0), fields), Seq::<&mut R>::empty()));
        while i < n
            invariant
                n == self@.len(),
                i <= n,
                gather_accepts(collect, update, self@),
                collected(collect, self@.take(i as int), fields),
                exists|edits: Seq<&mut R>|
                    {
                        &&& #[trigger] written(update, jobs(self@.take(i as int), fields), edits)
                        &&& new_records@.len() == edits.len()
                        &&& forall|k: int|
                            0 <= k < edits.len() ==> new_records@[k] == *final(#[trigger] edits[k])
                    },
            decreases n - i,
        {
            let record = &self.rows()[i];
            let duplicate = record.clone();
            assert(cloned(self@[i as int], duplicate));
            let named = collect(duplicate);
            let ghost row_fields = named@;
            let ghost done = jobs(self@.take(i as int), fields);
            assert(row_collected(collect, *record, row_fields));
            assert(done + row_jobs(*record, row_fields.take(0)) =~= done);
            for field in it: named
                invariant
                    gather_accepts(collect, update, self@),
                    i < n,
                    n == self@.len(),
                    *record == self@[i as int],
                    it.seq() == row_fields,
                    exists|edits: Seq<&mut R>|
                        {
                            &&& #[trigger] written(
                                update,
                                done + row_jobs(*record, row_fields.take(it.index() as int)),
                                edits,
                            )
                            &&& new_records@.len() == edits.len()
                            &&& forall|k: int|
                                0 <= k < edits.len() ==> new_records@[k] == *final(#[trigger] edits[k])
                        },
            {
                let ghost before = done + row_jobs(*record, row_fields.take(it.index() as int));
                let ghost after = done + row_jobs(
                    *record,
                    row_fields.take(it.index() as int + 1),
                );
                let ghost old_records = new_records@;
                let new_record = write_field(&update, record, field.0, field.1);
                new_records.push(new_record);
                proof {
                    let edits = choose|edits: Seq<&mut R>|
                        {
                            &&& #[trigger] written(update, before, edits)
                            &&& old_records.len() == edits.len()
                            &&& forall|k: int|
                                0 <= k < edits.len() ==> old_records[k] == *final(#[trigger] edits[k])
                        };
                    let (x, key) = choose|x: &mut R, key: String|
                        #![trigger call_ensures(update, (x, key, field.1), ())]
                        {
                            &&& cloned(*record, *x)
                            &&& key@ == field.0@
                            &&& call_ensures(update, (x, key, field.1), ())
                            &&& *final(x) == new_record
                        };
                    assert(field_written(update, *record, field, x));
                    let more = edits.push(x);
                    assert(after =~= before.push((*record, field)));
                    assert forall|k: int| 0 <= k < after.len() implies field_written(
                        update,
                        after[k].0,
                        after[k].1,
                        #[trigger] more[k],
                    ) by {
                        if k < before.len() {
                            assert(after[k] == before[k]);
                            assert(more[k] == edits[k]);
                        }
                    }
                    assert(written(update, after, more));
                    assert forall|k: int| 0 <= k < more.len() implies new_records@[k] == *final(#[trigger] more[k]) by {
                        if k < edits.len() {
                            assert(more[k] == edits[k]);
                        }
                    }
                }
            }
            proof {
                let ghost seen = self@.take(i as int);
                assert(row_fields.take(row_fields.len() as int) =~= row_fields);
                lemma_jobs_push(seen, fields, *record, row_fields);
                assert(self@.take(i as int + 1) =~= seen.push(*record));
                let more = fields.push(row_fields);
                assert forall|j: int| 0 <= j < i + 1 implies row_collected(
                    collect,
                    self@.take(i as int + 1)[j],
                    #[trigger] more[j],
                ) by {
                    if j < i {
                        assert(row_collected(collect, seen[j], fields[j]));
                    }
                }
                fields = more;
            }
            i += 1;
        }
        proof {
            assert(self@.take(n as int) =~= self@);
            lemma_jobs_len(self@, fields);
        }
        DataFrame::from_rows(new_records)
    }
}

} // verus!
