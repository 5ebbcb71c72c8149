//! A frame whose columns are typed at run time.
//!
//! Where [`crate::DataFrame`] holds rows of a record type that is known when
//! the program is compiled, the frame of this module holds named columns,
//! each of one of four types. Frames are put side by side (`cbind`), on top
//! of one another (`rbind`) and narrowed (`select`). Each of these checks
//! both of its inputs in full before it copies anything, and says in its
//! error which column stood in the way.

pub mod column;
pub mod df_token;
pub mod df_token_copy;
pub mod error_string;
pub mod table;

use vstd::prelude::*;
use crate::dynamic::column::{Cells, Column};
use crate::dynamic::df_token::df;
use crate::dynamic::error_string::ErrorString;
use crate::dynamic::table::{
    distinct, extra_message, lemma_above_wf, lemma_beside_wf, lemma_distinct,
    lemma_drop_column_wf, lemma_index_of, lemma_known, lemma_not_refused, lemma_same_width,
    slices, Table,
};

verus! {

/// Why an operation on a frame was refused.
#[derive(Debug)]
pub enum Error {
    /// A fixed message.
    General(&'static str),
    /// A message built at run time.
    GeneralBuf(String),
}

impl Error {
    /// The text of the message.
    pub open spec fn message(self) -> Seq<char> {
        match self {
            Error::General(s) => s@,
            Error::GeneralBuf(s) => s@,
        }
    }

    /// Wrap `self` in a `Result::Err`.
    pub fn err<T>(self) -> (r: Result<T, Error>)
        ensures
            r == Err::<T, Error>(self),
    {
        Err(self)
    }
}

/// The names of some columns.
spec fn names_of(columns: Seq<(String, Column)>) -> Seq<Seq<char>> {
    columns.map_values(|c: (String, Column)| c.0@)
}

/// The cells of some columns.
spec fn cells_of(columns: Seq<(String, Column)>) -> Seq<Cells> {
    columns.map_values(|c: (String, Column)| c.1@)
}

/// The table that some columns make up, with `nrow` rows.
spec fn table_of(columns: Seq<(String, Column)>, nrow: nat) -> Table {
    Table { names: names_of(columns), cells: cells_of(columns), nrow }
}

/// The place of the column called `key` among `columns`, if there is one.
fn position(columns: &Vec<(String, Column)>, key: &String) -> (at: Option<usize>)
    ensures
        match at {
            Some(i) => i < columns@.len() && names_of(columns@)[i as int] == key@ && forall|j: int|
                0 <= j < i ==> names_of(columns@)[j] != key@,
            None => !names_of(columns@).contains(key@),
        },
{
    let mut i: usize = 0;
    while i < columns.len()
        invariant
            i <= columns@.len(),
            forall|j: int| 0 <= j < i ==> names_of(columns@)[j] != key@,
        decreases columns@.len() - i,
    {
        if columns[i].0 == *key {
            return Some(i);
        }
        i += 1;
    }
    None
}

/// Append duplicates of the columns of `from` to `into`.
fn push_copies(into: &mut Vec<(String, Column)>, from: &Vec<(String, Column)>)
    ensures
        names_of(final(into)@) == names_of(old(into)@) + names_of(from@),
        cells_of(final(into)@) == cells_of(old(into)@) + cells_of(from@),
{
    let mut i: usize = 0;
    while i < from.len()
        invariant
            i <= from@.len(),
            names_of(into@) == names_of(old(into)@) + names_of(from@).take(i as int),
            cells_of(into@) == cells_of(old(into)@) + cells_of(from@).take(i as int),
        decreases from@.len() - i,
    {
        let ghost before = into@;
        let name = from[i].0.clone();
        let cells = from[i].1.clone();
        into.push((name, cells));
        proof {
            assert(names_of(into@) =~= names_of(before).push(names_of(from@)[i as int]));
            assert(cells_of(into@) =~= cells_of(before).push(cells_of(from@)[i as int]));
        }
        i += 1;
    }
}

/// A frame of named columns.
pub struct DataFrame {
    columns: Vec<(String, Column)>,
    nrow: usize,
}

impl View for DataFrame {
    type V = Table;

    closed spec fn view(&self) -> Table {
        table_of(self.columns@, self.nrow as nat)
    }
}

impl DataFrame {
    #[verifier::type_invariant]
    spec fn well_formed(self) -> bool {
        table_of(self.columns@, self.nrow as nat).wf()
    }

    /// Create a new DataFrame, without columns or rows.
    pub fn new() -> (out: Self)
        ensures
            out@ == (Table { names: Seq::empty(), cells: Seq::empty(), nrow: 0 }),
    {
        let out = DataFrame { columns: Vec::new(), nrow: 0 };
        assert(out@.names =~= Seq::<Seq<char>>::empty() && out@.cells =~= Seq::<Cells>::empty());
        out
    }

    /// The number of rows. Every column of a frame has that many cells.
    pub fn nrow(&self) -> (n: usize)
        ensures
            n == self@.nrow,
            self@.wf(),
    {
        proof {
            use_type_invariant(self);
        }
        self.nrow
    }

    /// The number of columns. No two of them have the same name.
    pub fn ncol(&self) -> (n: usize)
        ensures
            n == self@.names.len(),
            self@.wf(),
    {
        proof {
            use_type_invariant(self);
        }
        self.columns.len()
    }

    /// The column called `name`, if there is one.
    pub fn column(&self, name: &str) -> (found: Option<&Column>)
        ensures
            match found {
                Some(c) => self@.has(name@) && c@ == self@.column(name@),
                None => !self@.has(name@),
            },
    {
        proof {
            use_type_invariant(self);
        }
        let key = name.to_owned();
        match position(&self.columns, &key) {
            Some(i) => {
                proof {
                    lemma_index_of(self@.names, i as int);
                }
                Some(&self.columns[i].1)
            },
            None => None,
        }
    }

    /// A frame of one column, called `name`, with as many rows as the
    /// column has cells.
    pub fn from_column(name: &str, column: Column) -> (out: Self)
        ensures
            out@ == (Table { names: seq![name@], cells: seq![column@], nrow: column@.len() }),
    {
        let nrow = column.len();
        let mut columns: Vec<(String, Column)> = Vec::new();
        columns.push((name.to_owned(), column));
        proof {
            assert(names_of(columns@) =~= seq![name@]);
            assert(cells_of(columns@) =~= seq![column@]);
        }
        DataFrame { columns, nrow }
    }

    /// Checks that this dataframe and `other` are compatible for `cbind`.
    fn cbind_ck(&self, other: &DataFrame) -> (r: Result<(), Error>)
        ensures
            match r {
                Ok(_) => self@.cbind_refusal(other@) is None,
                Err(e) => e is General && self@.cbind_refusal(other@) == Some(e.message()),
            },
    {
        if self.nrow != other.nrow {
            return Error::General("Cannot cbind dataframes with differing number of rows.").err();
        }
        let mut j: usize = 0;
        while j < other.columns.len()
            invariant
                j <= other.columns@.len(),
                self@.nrow == other@.nrow,
                forall|k: int| 0 <= k < j ==> !self@.has(#[trigger] other@.names[k]),
            decreases other.columns@.len() - j,
        {
            if position(&self.columns, &other.columns[j].0).is_some() {
                assert(self@.has(other@.names[j as int]));
                return Error::General(
                    "Cannot cbind dataframes with conflicting column names.",
                ).err();
            }
            j += 1;
        }
        Ok(())
    }

    /// Concatenate columns of two dataframes: a new frame with the columns
    /// of `self` followed by those of `other`.
    ///
    /// Refused, before anything is copied, where the two differ in their
    /// number of rows or share the name of a column.
    pub fn cbind(&self, other: &DataFrame) -> (r: Result<DataFrame, Error>)
        ensures
            match r {
                Ok(out) => self@.cbind_refusal(other@) is None && out@ == self@.beside(other@),
                Err(e) => e is General && self@.cbind_refusal(other@) == Some(e.message()),
            },
    {
        match self.cbind_ck(other) {
            Err(e) => {
                return Err(e);
            },
            Ok(_) => {},
        }
        let mut columns: Vec<(String, Column)> = Vec::new();
        push_copies(&mut columns, &self.columns);
        push_copies(&mut columns, &other.columns);
        proof {
            use_type_invariant(self);
            use_type_invariant(other);
            lemma_beside_wf(self@, other@);
        }
        Ok(DataFrame { columns, nrow: self.nrow })
    }

    /// Concatenate other dataframe onto `self`: the columns of `other` are
    /// added after those of `self`.
    ///
    /// Refused as `cbind` is, and then `self` is left as it was.
    pub fn cbind_mut(&mut self, other: &DataFrame) -> (r: Result<&mut Self, Error>)
        ensures
            match r {
                Ok(out) => {
                    &&& old(self)@.cbind_refusal(other@) is None
                    &&& out@ == old(self)@.beside(other@)
                    &&& *final(out) == *final(self)
                },
                Err(e) => {
                    &&& e is General
                    &&& old(self)@.cbind_refusal(other@) == Some(e.message())
                    &&& *final(self) == *old(self)
                },
            },
    {
        match self.cbind_ck(other) {
            Err(e) => {
                return Err(e);
            },
            Ok(_) => {},
        }
        proof {
            use_type_invariant(&*self);
            use_type_invariant(other);
            lemma_beside_wf(self@, other@);
        }
        let mut columns: Vec<(String, Column)> = Vec::new();
        std::mem::swap(&mut columns, &mut self.columns);
        push_copies(&mut columns, &other.columns);
        self.columns = columns;
        Ok(self)
    }

    /// Checks that each column of `a` has a column of its name and type in
    /// `b`; says which is the first that has not.
    fn rbind_ck_base(a: &DataFrame, b: &DataFrame) -> (r: Result<(), Error>)
        ensures
            match r {
                Ok(_) => a@.one_sided_refusal(b@, 0) is None,
                Err(e) => e is GeneralBuf && a@.one_sided_refusal(b@, 0) == Some(e.message()),
            },
    {
        proof {
            use_type_invariant(a);
            use_type_invariant(b);
        }
        let mut i: usize = 0;
        while i < a.columns.len()
            invariant
                i <= a.columns@.len(),
                a@.wf(),
                b@.wf(),
                a@.one_sided_refusal(b@, 0) == a@.one_sided_refusal(b@, i as int),
            decreases a.columns@.len() - i,
        {
            let key = &a.columns[i].0;
            match position(&b.columns, key) {
                None => {
                    return ErrorString::from("Column `").p(key.as_str()).p(
                        "` is present in self but not in other",
                    ).err();
                },
                Some(at) => {
                    proof {
                        lemma_index_of(b@.names, at as int);
                    }
                    if !a.columns[i].1.same_kind(&b.columns[at].1) {
                        let mine = a.columns[i].1.variant_str();
                        let theirs = b.columns[at].1.variant_str();
                        return ErrorString::new().p("Column `").p(key.as_str()).p("` is a `").p(
                            mine,
                        ).p("` in self, but a `").p(theirs).p("` in other.").err();
                    }
                },
            }
            i += 1;
        }
        Ok(())
    }

    /// Checks that `self` has every column of `other`; says which is the
    /// first that it lacks.
    fn rbind_ck_extra(&self, other: &DataFrame) -> (r: Result<(), Error>)
        ensures
            match r {
                Ok(_) => other@.first_absent(self@, 0) is None,
                Err(e) => {
                    &&& e is GeneralBuf
                    &&& other@.first_absent(self@, 0) matches Some(name)
                    &&& e.message() == extra_message(name)
                },
            },
    {
        let mut j: usize = 0;
        while j < other.columns.len()
            invariant
                j <= other.columns@.len(),
                other@.first_absent(self@, 0) == other@.first_absent(self@, j as int),
            decreases other.columns@.len() - j,
        {
            let key = &other.columns[j].0;
            if position(&self.columns, key).is_none() {
                return ErrorString::from("Column `").p(key.as_str()).p(
                    "` is present in other but not in self",
                ).err();
            }
            j += 1;
        }
        Ok(())
    }

    /// Checks that this dataframe and `other` are compatible for `rbind`:
    /// that they have the same columns, by name and type.
    fn rbind_ck(&self, other: &DataFrame) -> (r: Result<(), Error>)
        ensures
            match r {
                Ok(_) => {
                    &&& self@.rbind_refusal(other@) is None
                    &&& self@.names.len() == other@.names.len()
                },
                Err(e) => e is GeneralBuf && self@.rbind_refusal(other@) == Some(e.message()),
            },
    {
        match DataFrame::rbind_ck_base(self, other) {
            Err(e) => {
                return Err(e);
            },
            Ok(_) => {},
        }
        match self.rbind_ck_extra(other) {
            Err(e) => {
                return Err(e);
            },
            Ok(_) => {},
        }
        proof {
            use_type_invariant(self);
            use_type_invariant(other);
            lemma_same_width(self@, other@);
        }
        Ok(())
    }

    /// Concatenate rows of two dataframes: a new frame with the columns of
    /// `self`, each followed by the cells of the column of `other` that has
    /// its name.
    ///
    /// Refused, before anything is copied, where the two do not have the
    /// same columns by name and type. The error names the first column of
    /// `self` that `other` lacks or has with another type, else the first
    /// column of `other` that `self` lacks, and says on which side it is.
    pub fn rbind(&self, other: &DataFrame) -> (r: Result<DataFrame, Error>)
        requires
            self@.names.len() == 0 ==> self@.nrow + other@.nrow <= usize::MAX,
        ensures
            match r {
                Ok(out) => self@.rbind_refusal(other@) is None && out@ == self@.above(other@),
                Err(e) => e is GeneralBuf && self@.rbind_refusal(other@) == Some(e.message()),
            },
    {
        match self.rbind_ck(other) {
            Err(e) => {
                return Err(e);
            },
            Ok(_) => {},
        }
        proof {
            use_type_invariant(self);
            use_type_invariant(other);
            lemma_above_wf(self@, other@);
        }
        let ghost target = self@.above(other@);
        let mut columns: Vec<(String, Column)> = Vec::new();
        let mut i: usize = 0;
        while i < self.columns.len()
            invariant
                i <= self.columns@.len(),
                self@.wf(),
                other@.wf(),
                self@.rbind_refusal(other@) is None,
                target == self@.above(other@),
                target.wf(),
                names_of(columns@) == target.names.take(i as int),
                cells_of(columns@) == target.cells.take(i as int),
            decreases self.columns@.len() - i,
        {
            let key = &self.columns[i].0;
            proof {
                lemma_not_refused(self@, other@, 0, i as int);
            }
            let found = position(&other.columns, key);
            let at = found.unwrap();
            proof {
                lemma_index_of(other@.names, at as int);
            }
            let stacked = self.columns[i].1.stacked(&other.columns[at].1);
            let ghost before = columns@;
            columns.push((key.clone(), stacked));
            proof {
                assert(names_of(columns@) =~= names_of(before).push(key@));
            }
            i += 1;
        }
        proof {
            assert(target.names.take(target.names.len() as int) =~= target.names);
            assert(target.cells.take(target.cells.len() as int) =~= target.cells);
            if columns@.len() > 0 {
                assert(cells_of(columns@)[0] == columns@[0].1@);
            }
        }
        // Any stacked column counts the rows; without one the counts are added.
        let nrow = if columns.len() > 0 {
            columns[0].1.len()
        } else {
            self.nrow + other.nrow
        };
        Ok(DataFrame { columns, nrow })
    }

    /// Concatenate rows of other onto self: each column of `self` gets the
    /// cells of the column of `other` that has its name.
    ///
    /// Refused as `rbind` is, and then `self` is left as it was.
    pub fn rbind_mut(&mut self, other: &DataFrame) -> (r: Result<&mut Self, Error>)
        requires
            old(self)@.names.len() == 0 ==> old(self)@.nrow + other@.nrow <= usize::MAX,
        ensures
            match r {
                Ok(out) => {
                    &&& old(self)@.rbind_refusal(other@) is None
                    &&& out@ == old(self)@.above(other@)
                    &&& *final(out) == *final(self)
                },
                Err(e) => {
                    &&& e is GeneralBuf
                    &&& old(self)@.rbind_refusal(other@) == Some(e.message())
                    &&& *final(self) == *old(self)
                },
            },
    {
        match self.rbind(other) {
            Err(e) => Err(e),
            Ok(stacked) => {
                *self = stacked;
                Ok(self)
            },
        }
    }

    /// Checks that every name in `columns` is that of a column; says which
    /// is the first that is not.
    fn select_ck(&self, columns: &[&str]) -> (r: Result<(), Error>)
        ensures
            match r {
                Ok(_) => self@.select_refusal(slices(columns@), 0) is None,
                Err(e) => {
                    &&& e is GeneralBuf
                    &&& self@.select_refusal(slices(columns@), 0) == Some(e.message())
                },
            },
    {
        let ghost wanted = slices(columns@);
        let mut i: usize = 0;
        while i < columns.len()
            invariant
                i <= columns@.len(),
                wanted == slices(columns@),
                self@.select_refusal(wanted, 0) == self@.select_refusal(wanted, i as int),
            decreases columns@.len() - i,
        {
            let col = columns[i];
            let key = col.to_owned();
            if position(&self.columns, &key).is_none() {
                return ErrorString::from("Column `").p(col).p(
                    "` is not present in dataframe.",
                ).err();
            }
            i += 1;
        }
        Ok(())
    }

    /// Return a new dataframe with a subset of the columns in `self`: the
    /// columns called `columns`, in that order. A name that is given more
    /// than once counts once.
    ///
    /// Refused, before anything is copied, where a name is not that of a
    /// column; the error names it.
    pub fn select(&self, columns: &[&str]) -> (r: Result<DataFrame, Error>)
        ensures
            match r {
                Ok(out) => {
                    &&& self@.select_refusal(slices(columns@), 0) is None
                    &&& out@ == self@.only(slices(columns@))
                },
                Err(e) => {
                    &&& e is GeneralBuf
                    &&& self@.select_refusal(slices(columns@), 0) == Some(e.message())
                },
            },
    {
        match self.select_ck(columns) {
            Err(e) => {
                return Err(e);
            },
            Ok(_) => {},
        }
        proof {
            use_type_invariant(self);
        }
        let ghost wanted = slices(columns@);
        let mut chosen: Vec<(String, Column)> = Vec::new();
        let mut i: usize = 0;
        while i < columns.len()
            invariant
                i <= columns@.len(),
                wanted == slices(columns@),
                self@.wf(),
                self@.select_refusal(wanted, 0) is None,
                names_of(chosen@) == distinct(wanted.take(i as int)),
                forall|j: int|
                    0 <= j < chosen@.len() ==> (#[trigger] cells_of(chosen@)[j]) == self@.column(
                        names_of(chosen@)[j],
                    ),
            decreases columns@.len() - i,
        {
            let col = columns[i];
            let key = col.to_owned();
            proof {
                assert(wanted.take(i as int + 1).drop_last() =~= wanted.take(i as int));
                lemma_known(self@, wanted, 0, i as int);
            }
            if position(&chosen, &key).is_none() {
                let found = position(&self.columns, &key);
                let at = found.unwrap();
                proof {
                    lemma_index_of(self@.names, at as int);
                }
                let ghost before = chosen@;
                let cells = self.columns[at].1.clone();
                chosen.push((key, cells));
                proof {
                    assert(cells_of(chosen@) =~= cells_of(before).push(cells@));
                }
            }
            i += 1;
        }
        proof {
            assert(wanted.take(wanted.len() as int) =~= wanted);
            lemma_distinct(wanted);
            let target = self@.only(wanted);
            assert(cells_of(chosen@) =~= target.cells);
            assert forall|j: int| 0 <= j < target.cells.len() implies (#[trigger] target.cells[j]).len()
                == target.nrow by {
                let name = target.names[j];
                assert(wanted.contains(name));
                let k = wanted.index_of(name);
                lemma_known(self@, wanted, 0, k);
                let at = self@.names.index_of(name);
            }
        }
        Ok(DataFrame { columns: chosen, nrow: self.nrow })
    }

    /// Remove from `self` the columns called `columns`.
    ///
    /// Refused where a name is not that of a column; the error names it,
    /// and `self` is left as it was.
    pub fn select_mut(&mut self, columns: &[&str]) -> (r: Result<&mut Self, Error>)
        ensures
            match r {
                Ok(out) => {
                    &&& old(self)@.select_refusal(slices(columns@), 0) is None
                    &&& out@ == old(self)@.without(slices(columns@))
                    &&& *final(out) == *final(self)
                },
                Err(e) => {
                    &&& e is GeneralBuf
                    &&& old(self)@.select_refusal(slices(columns@), 0) == Some(e.message())
                    &&& *final(self) == *old(self)
                },
            },
    {
        match self.select_ck(columns) {
            Err(e) => {
                return Err(e);
            },
            Ok(_) => {},
        }
        proof {
            use_type_invariant(&*self);
        }
        let ghost wanted = slices(columns@);
        let ghost start = self@;
        let nrow = self.nrow;
        let mut kept: Vec<(String, Column)> = Vec::new();
        std::mem::swap(&mut kept, &mut self.columns);
        let mut i: usize = 0;
        while i < columns.len()
            invariant
                i <= columns@.len(),
                wanted == slices(columns@),
                start.wf(),
                table_of(kept@, nrow as nat) == start.without(wanted.take(i as int)),
                table_of(kept@, nrow as nat).wf(),
            decreases columns@.len() - i,
        {
            let key = columns[i].to_owned();
            let ghost before = table_of(kept@, nrow as nat);
            proof {
                assert(wanted.take(i as int + 1).drop_last() =~= wanted.take(i as int));
                lemma_drop_column_wf(before, key@);
            }
            match position(&kept, &key) {
                Some(at) => {
                    proof {
                        lemma_index_of(before.names, at as int);
                    }
                    let ghost old_kept = kept@;
                    let _ = kept.remove(at);
                    proof {
                        assert(names_of(kept@) =~= names_of(old_kept).remove(at as int));
                        assert(cells_of(kept@) =~= cells_of(old_kept).remove(at as int));
                    }
                },
                None => {},
            }
            i += 1;
        }
        proof {
            assert(wanted.take(wanted.len() as int) =~= wanted);
        }
        self.columns = kept;
        Ok(self)
    }
}

impl DataFrame {
    /// Create a new dataframe with the rows which satisfy the predicate
    /// that `p` writes on the pad it is handed.
    ///
    /// No predicate can be evaluated yet: every call is refused, and `p` is
    /// not called.
    pub fn filter<F: FnOnce(df) -> bool>(&self, p: F) -> (r: Result<DataFrame, Error>)
        ensures
            r matches Err(e) && e is GeneralBuf && e.message() == "unimplemented"@,
    {
        ErrorString::from("unimplemented").err()
    }
}

impl Clone for DataFrame {
    /// A frame with the same columns and rows.
    fn clone(&self) -> (out: Self)
        ensures
            out@ == self@,
    {
        proof {
            use_type_invariant(self);
        }
        let mut columns: Vec<(String, Column)> = Vec::new();
        push_copies(&mut columns, &self.columns);
        DataFrame { columns, nrow: self.nrow }
    }
}

impl Default for DataFrame {
    /// A frame without columns or rows.
    fn default() -> (out: Self)
        ensures
            out@ == (Table { names: Seq::empty(), cells: Seq::empty(), nrow: 0 }),
    {
        DataFrame::new()
    }
}

} // verus!
