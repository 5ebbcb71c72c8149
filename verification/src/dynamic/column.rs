//! Columns of a run-time typed frame.

use vstd::prelude::*;

verus! {

/// The four types that a column can have.
pub enum Kind {
    Float,
    Double,
    Factor,
    Bool,
}

impl Kind {
    /// The name under which a kind appears in messages.
    pub open spec fn name(self) -> Seq<char> {
        match self {
            Kind::Float => "Float"@,
            Kind::Double => "Double"@,
            Kind::Factor => "Factor"@,
            Kind::Bool => "Boolean"@,
        }
    }
}

/// What a column holds, as mathematical sequences.
pub enum Cells {
    Float(Seq<u32>),
    Double(Seq<u64>),
    Factor(Seq<Seq<char>>),
    Bool(Seq<bool>),
}

impl Cells {
    /// The number of cells.
    pub open spec fn len(self) -> nat {
        match self {
            Cells::Float(v) => v.len(),
            Cells::Double(v) => v.len(),
            Cells::Factor(v) => v.len(),
            Cells::Bool(v) => v.len(),
        }
    }

    /// The type of the cells.
    pub open spec fn kind(self) -> Kind {
        match self {
            Cells::Float(_) => Kind::Float,
            Cells::Double(_) => Kind::Double,
            Cells::Factor(_) => Kind::Factor,
            Cells::Bool(_) => Kind::Bool,
        }
    }

    /// The cells of `self` followed by those of `below`, which are of the
    /// same kind.
    pub open spec fn stack(self, below: Cells) -> Cells
        recommends
            self.kind() == below.kind(),
    {
        match (self, below) {
            (Cells::Float(v), Cells::Float(o)) => Cells::Float(v + o),
            (Cells::Double(v), Cells::Double(o)) => Cells::Double(v + o),
            (Cells::Factor(v), Cells::Factor(o)) => Cells::Factor(v + o),
            (Cells::Bool(v), Cells::Bool(o)) => Cells::Bool(v + o),
            _ => self,
        }
    }
}

/// The texts of some strings.
pub open spec fn texts(v: Seq<String>) -> Seq<Seq<char>> {
    v.map_values(|s: String| s@)
}

/// A column of a frame: a vector of values of one of four types.
///
/// Numbers are held as their IEEE 754 bit patterns, single precision in
/// `Float` and double precision in `Double`; a column is only ever stored,
/// duplicated and concatenated, never computed on.
#[derive(Debug)]
pub enum Column {
    Float(Vec<u32>),
    Double(Vec<u64>),
    Factor(Vec<String>),
    Bool(Vec<bool>),
}

impl View for Column {
    type V = Cells;

    open spec fn view(&self) -> Cells {
        match self {
            Column::Float(v) => Cells::Float(v@),
            Column::Double(v) => Cells::Double(v@),
            Column::Factor(v) => Cells::Factor(texts(v@)),
            Column::Bool(v) => Cells::Bool(v@),
        }
    }
}

impl Clone for Column {
    /// A column with the same cells.
    fn clone(&self) -> (out: Self)
        ensures
            out@ == self@,
    {
        match self {
            Column::Float(v) => Column::Float(v.clone()),
            Column::Double(v) => Column::Double(v.clone()),
            Column::Factor(v) => Column::Factor(v.clone()),
            Column::Bool(v) => Column::Bool(v.clone()),
        }
    }
}

impl Column {
    /// Return the number of elements in the column.
    pub fn len(&self) -> (n: usize)
        ensures
            n == self@.len(),
    {
        match self {
            Column::Float(v) => v.len(),
            Column::Double(v) => v.len(),
            Column::Factor(v) => v.len(),
            Column::Bool(v) => v.len(),
        }
    }

    /// Return the type of this column, as a str.
    pub fn variant_str(&self) -> (name: &'static str)
        ensures
            name@ == self@.kind().name(),
    {
        match self {
            Column::Float(_) => "Float",
            Column::Double(_) => "Double",
            Column::Factor(_) => "Factor",
            Column::Bool(_) => "Boolean",
        }
    }

    /// Whether `self` and `other` hold values of the same type.
    pub fn same_kind(&self, other: &Column) -> (same: bool)
        ensures
            same == (self@.kind() == other@.kind()),
    {
        match (self, other) {
            (Column::Float(_), Column::Float(_)) => true,
            (Column::Double(_), Column::Double(_)) => true,
            (Column::Factor(_), Column::Factor(_)) => true,
            (Column::Bool(_), Column::Bool(_)) => true,
            _ => false,
        }
    }

    /// The cells of `self` followed by duplicates of the cells of `below`.
    /// A column of another kind adds nothing.
    pub fn stacked(&self, below: &Column) -> (out: Column)
        ensures
            out@ == self@.stack(below@),
    {
        match (self, below) {
            (Column::Float(v), Column::Float(o)) => {
                let mut c = v.clone();
                c.extend_from_slice(o.as_slice());
                assert(c@ =~= v@ + o@);
                Column::Float(c)
            },
            (Column::Double(v), Column::Double(o)) => {
                let mut c = v.clone();
                c.extend_from_slice(o.as_slice());
                assert(c@ =~= v@ + o@);
                Column::Double(c)
            },
            (Column::Factor(v), Column::Factor(o)) => {
                let mut c = v.clone();
                c.extend_from_slice(o.as_slice());
                assert(texts(c@) =~= texts(v@) + texts(o@));
                Column::Factor(c)
            },
            (Column::Bool(v), Column::Bool(o)) => {
                let mut c = v.clone();
                c.extend_from_slice(o.as_slice());
                assert(c@ =~= v@ + o@);
                Column::Bool(c)
            },
            _ => self.clone(),
        }
    }
}

} // verus!
