//! What a frame of run-time typed columns holds, as a mathematical value,
//! and what the operations on frames make of it.

use vstd::prelude::*;
use crate::dynamic::column::{Cells, Kind};

verus! {

/// What a frame holds: its columns in the order in which they were added,
/// each with its name, and the number of rows.
pub struct Table {
    pub names: Seq<Seq<char>>,
    pub cells: Seq<Cells>,
    pub nrow: nat,
}

impl Table {
    /// Every column has a name of its own and `nrow` cells.
    pub open spec fn wf(self) -> bool {
        &&& self.names.len() == self.cells.len()
        &&& self.names.no_duplicates()
        &&& forall|i: int| 0 <= i < self.cells.len() ==> (#[trigger] self.cells[i]).len() == self.nrow
    }

    /// There is a column called `name`.
    pub open spec fn has(self, name: Seq<char>) -> bool {
        self.names.contains(name)
    }

    /// The cells of the column called `name`.
    pub open spec fn column(self, name: Seq<char>) -> Cells
        recommends
            self.has(name),
    {
        self.cells[self.names.index_of(name)]
    }

    /// The columns of `self` followed by those of `right`.
    pub open spec fn beside(self, right: Table) -> Table {
        Table { names: self.names + right.names, cells: self.cells + right.cells, nrow: self.nrow }
    }

    /// Why `right` cannot be put beside `self`, if it cannot: the two
    /// differ in their number of rows, or share the name of a column.
    pub open spec fn cbind_refusal(self, right: Table) -> Option<Seq<char>> {
        if self.nrow != right.nrow {
            Some("Cannot cbind dataframes with differing number of rows."@)
        } else if exists|j: int| 0 <= j < right.names.len() && self.has(#[trigger] right.names[j]) {
            Some("Cannot cbind dataframes with conflicting column names."@)
        } else {
            None
        }
    }

    /// Why the column at `i` cannot get the rows of `below`, if it cannot:
    /// `below` has no column of that name, or one of another type.
    pub open spec fn column_refusal(self, below: Table, i: int) -> Option<Seq<char>> {
        let name = self.names[i];
        if !below.has(name) {
            Some(absent_message(name))
        } else if self.cells[i].kind() != below.column(name).kind() {
            Some(kind_message(name, self.cells[i].kind(), below.column(name).kind()))
        } else {
            None
        }
    }

    /// The refusal of the first column from `from` on that has one.
    pub open spec fn one_sided_refusal(self, below: Table, from: int) -> Option<Seq<char>>
        decreases self.names.len() - from,
    {
        if from < 0 || from >= self.names.len() {
            None
        } else {
            match self.column_refusal(below, from) {
                Some(message) => Some(message),
                None => self.one_sided_refusal(below, from + 1),
            }
        }
    }

    /// The name of the first column of `self`, from `from` on, that `other`
    /// does not have.
    pub open spec fn first_absent(self, other: Table, from: int) -> Option<Seq<char>>
        decreases self.names.len() - from,
    {
        if from < 0 || from >= self.names.len() {
            None
        } else if !other.has(self.names[from]) {
            Some(self.names[from])
        } else {
            self.first_absent(other, from + 1)
        }
    }

    /// Why `below` cannot be put under `self`, if it cannot: the first
    /// column of `self` that `below` lacks or has with another type, else
    /// the first column of `below` that `self` lacks. Either way the message
    /// speaks from the side of `self`.
    pub open spec fn rbind_refusal(self, below: Table) -> Option<Seq<char>> {
        match self.one_sided_refusal(below, 0) {
            Some(message) => Some(message),
            None => match below.first_absent(self, 0) {
                Some(name) => Some(extra_message(name)),
                None => None,
            },
        }
    }

    /// The columns of `self`, each followed by the cells of the column of
    /// `below` that has its name.
    pub open spec fn above(self, below: Table) -> Table {
        Table {
            names: self.names,
            cells: Seq::new(
                self.cells.len(),
                |i: int| self.cells[i].stack(below.column(self.names[i])),
            ),
            nrow: self.nrow + below.nrow,
        }
    }

    /// Why the columns `wanted` cannot be selected, if they cannot: the
    /// first of them, from `from` on, that `self` does not have.
    pub open spec fn select_refusal(self, wanted: Seq<Seq<char>>, from: int) -> Option<Seq<char>>
        decreases wanted.len() - from,
    {
        if from < 0 || from >= wanted.len() {
            None
        } else if !self.has(wanted[from]) {
            Some(unknown_message(wanted[from]))
        } else {
            self.select_refusal(wanted, from + 1)
        }
    }

    /// The columns called `wanted`, in that order.
    pub open spec fn only(self, wanted: Seq<Seq<char>>) -> Table {
        let names = distinct(wanted);
        Table {
            names,
            cells: Seq::new(names.len(), |i: int| self.column(names[i])),
            nrow: self.nrow,
        }
    }

    /// `self` without the column called `name`, if it has one.
    pub open spec fn drop_column(self, name: Seq<char>) -> Table {
        if self.has(name) {
            let at = self.names.index_of(name);
            Table { names: self.names.remove(at), cells: self.cells.remove(at), nrow: self.nrow }
        } else {
            self
        }
    }

    /// `self` without the columns called `unwanted`.
    pub open spec fn without(self, unwanted: Seq<Seq<char>>) -> Table
        decreases unwanted.len(),
    {
        if unwanted.len() == 0 {
            self
        } else {
            self.without(unwanted.drop_last()).drop_column(unwanted.last())
        }
    }
}

/// The message for a column that this frame has and the other lacks.
pub open spec fn absent_message(name: Seq<char>) -> Seq<char> {
    "Column `"@ + name + "` is present in self but not in other"@
}

/// The message for a column that the other frame has and this one lacks.
pub open spec fn extra_message(name: Seq<char>) -> Seq<char> {
    "Column `"@ + name + "` is present in other but not in self"@
}

/// The message for a column that has one type in one frame and another
/// type in the other.
pub open spec fn kind_message(name: Seq<char>, mine: Kind, theirs: Kind) -> Seq<char> {
    "Column `"@ + name + "` is a `"@ + mine.name() + "` in self, but a `"@ + theirs.name()
        + "` in other."@
}

/// The message for a column that was asked for and is not there.
pub open spec fn unknown_message(name: Seq<char>) -> Seq<char> {
    "Column `"@ + name + "` is not present in dataframe."@
}

/// `names` without the repetitions: each name once, where it first occurs.
pub open spec fn distinct(names: Seq<Seq<char>>) -> Seq<Seq<char>>
    decreases names.len(),
{
    if names.len() == 0 {
        Seq::empty()
    } else {
        let front = distinct(names.drop_last());
        if front.contains(names.last()) {
            front
        } else {
            front.push(names.last())
        }
    }
}

/// The texts of some string slices.
pub open spec fn slices(columns: Seq<&str>) -> Seq<Seq<char>> {
    columns.map_values(|s: &str| s@)
}

/// Two tables that can be put side by side make a well-formed table.
pub proof fn lemma_beside_wf(a: Table, b: Table)
    requires
        a.wf(),
        b.wf(),
        a.cbind_refusal(b) is None,
    ensures
        a.beside(b).wf(),
{
    let both = a.beside(b);
    assert forall|i: int, j: int| 0 <= i < j < both.names.len() implies both.names[i]
        != both.names[j] by {
        if i < a.names.len() <= j {
            assert(!a.has(b.names[j - a.names.len()]));
        }
    }
    assert forall|i: int| 0 <= i < both.cells.len() implies (#[trigger] both.cells[i]).len()
        == both.nrow by {
        if i >= a.cells.len() {
            assert(both.cells[i] == b.cells[i - a.cells.len()]);
        }
    }
}

/// In a sequence without repetitions, an item is found where it stands.
pub proof fn lemma_index_of(names: Seq<Seq<char>>, at: int)
    requires
        names.no_duplicates(),
        0 <= at < names.len(),
    ensures
        names.contains(names[at]),
        names.index_of(names[at]) == at,
{
    assert(names[names.index_of(names[at])] == names[at]);
}

/// Where no column from `from` on is refused, the column at `i` is not.
pub proof fn lemma_not_refused(a: Table, b: Table, from: int, i: int)
    requires
        0 <= from <= i < a.names.len(),
        a.one_sided_refusal(b, from) is None,
    ensures
        a.column_refusal(b, i) is None,
    decreases i - from,
{
    if from < i {
        lemma_not_refused(a, b, from + 1, i);
    }
}

/// Where `b` has every column of `a` from `from` on, it has the one at `i`.
pub proof fn lemma_none_absent(a: Table, b: Table, from: int, i: int)
    requires
        0 <= from <= i < a.names.len(),
        a.first_absent(b, from) is None,
    ensures
        b.has(a.names[i]),
    decreases i - from,
{
    if from < i {
        lemma_none_absent(a, b, from + 1, i);
    }
}

/// Two frames that can be stacked have the same number of columns.
pub proof fn lemma_same_width(a: Table, b: Table)
    requires
        a.wf(),
        b.wf(),
        a.rbind_refusal(b) is None,
    ensures
        a.names.len() == b.names.len(),
{
    a.names.unique_seq_to_set();
    b.names.unique_seq_to_set();
    assert forall|name: Seq<char>| a.names.to_set().contains(name) <==> b.names.to_set().contains(
        name,
    ) by {
        if a.names.contains(name) {
            let i = a.names.index_of(name);
            lemma_not_refused(a, b, 0, i);
        }
        if b.names.contains(name) {
            let i = b.names.index_of(name);
            lemma_none_absent(b, a, 0, i);
        }
    }
    assert(a.names.to_set() =~= b.names.to_set());
}

/// Two tables that can be stacked make a well-formed table.
pub proof fn lemma_above_wf(a: Table, b: Table)
    requires
        a.wf(),
        b.wf(),
        a.rbind_refusal(b) is None,
    ensures
        a.above(b).wf(),
{
    let both = a.above(b);
    assert forall|i: int| 0 <= i < both.cells.len() implies (#[trigger] both.cells[i]).len()
        == both.nrow by {
        lemma_not_refused(a, b, 0, i);
        let at = b.names.index_of(a.names[i]);
        assert(b.cells[at].len() == b.nrow);
    }
}

/// The names without repetitions hold no repetition, and exactly the names.
pub proof fn lemma_distinct(names: Seq<Seq<char>>)
    ensures
        distinct(names).no_duplicates(),
        forall|name: Seq<char>| distinct(names).contains(name) <==> names.contains(name),
    decreases names.len(),
{
    if names.len() > 0 {
        let front = names.drop_last();
        let last = names.last();
        let short = distinct(front);
        let out = distinct(names);
        lemma_distinct(front);
        assert forall|name: Seq<char>| names.contains(name) implies out.contains(name) by {
            let i = names.index_of(name);
            if i < front.len() {
                assert(front[i] == name);
                assert(front.contains(name));
            }
            if short.contains(name) {
                let k = short.index_of(name);
                assert(out[k] == name);
            } else {
                assert(out[out.len() - 1] == name);
            }
        }
        assert forall|name: Seq<char>| out.contains(name) implies names.contains(name) by {
            if out.index_of(name) < short.len() {
                assert(front.contains(name));
                assert(names[front.index_of(name)] == name);
            } else {
                assert(names.last() == name);
            }
        }
    }
}

/// Where no wanted column from `from` on is unknown, the one at `i` is known.
pub proof fn lemma_known(t: Table, wanted: Seq<Seq<char>>, from: int, i: int)
    requires
        0 <= from <= i < wanted.len(),
        t.select_refusal(wanted, from) is None,
    ensures
        t.has(wanted[i]),
    decreases i - from,
{
    if from < i {
        lemma_known(t, wanted, from + 1, i);
    }
}

/// Dropping a column leaves a well-formed table.
pub proof fn lemma_drop_column_wf(t: Table, name: Seq<char>)
    requires
        t.wf(),
    ensures
        t.drop_column(name).wf(),
{
    if t.has(name) {
        let at = t.names.index_of(name);
        let out = t.drop_column(name);
        t.names.remove_ensures(at);
        t.cells.remove_ensures(at);
        assert forall|i: int, j: int| 0 <= i < j < out.names.len() implies out.names[i]
            != out.names[j] by {
            let from_i = if i < at { i } else { i + 1 };
            let from_j = if j < at { j } else { j + 1 };
            assert(out.names[i] == t.names[from_i] && out.names[j] == t.names[from_j]);
        }
        assert forall|i: int| 0 <= i < out.cells.len() implies (#[trigger] out.cells[i]).len()
            == out.nrow by {
            let from_i = if i < at { i } else { i + 1 };
            assert(out.cells[i] == t.cells[from_i]);
        }
    }
}

} // verus!
