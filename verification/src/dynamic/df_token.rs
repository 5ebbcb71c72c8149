//! A notepad for expressions over the columns of a frame.
//!
//! A verb such as `filter` hands its caller a [`df`] and is told, through
//! it, what to compute: naming a column writes the name down, adding two
//! columns writes a plus sign. The notes are in reverse Polish notation, so
//! that the verb can check them before it evaluates anything.

use vstd::prelude::*;

verus! {

/// One note, as a mathematical value.
pub enum Token {
    Add,
    OwnColumn(Seq<char>),
}

/// One note on the pad.
#[derive(Debug)]
pub enum Item {
    /// Add the two values before this note.
    Add,
    /// The column of the frame with this name.
    OwnColumn(String),
}

impl View for Item {
    type V = Token;

    open spec fn view(&self) -> Token {
        match self {
            Item::Add => Token::Add,
            Item::OwnColumn(name) => Token::OwnColumn(name@),
        }
    }
}

impl Clone for Item {
    /// The same note.
    fn clone(&self) -> (out: Self)
        ensures
            out@ == self@,
    {
        match self {
            Item::Add => Item::Add,
            Item::OwnColumn(name) => Item::OwnColumn(name.clone()),
        }
    }
}

/// The notes that some items stand for.
pub open spec fn tokens(items: Seq<Item>) -> Seq<Token> {
    items.map_values(|item: Item| item@)
}

/// The pad. Its view is the notes written so far, oldest first.
#[allow(non_camel_case_types)]
#[derive(Debug)]
pub struct df {
    items: Vec<Item>,
}

impl View for df {
    type V = Seq<Token>;

    closed spec fn view(&self) -> Seq<Token> {
        tokens(self.items@)
    }
}

impl Clone for df {
    /// A pad with the same notes.
    fn clone(&self) -> (out: Self)
        ensures
            out@ == self@,
    {
        let mut items: Vec<Item> = Vec::new();
        let mut i: usize = 0;
        while i < self.items.len()
            invariant
                i <= self.items@.len(),
                tokens(items@) == tokens(self.items@).take(i as int),
            decreases self.items@.len() - i,
        {
            let ghost before = items@;
            let item = self.items[i].clone();
            items.push(item);
            proof {
                assert(tokens(items@) =~= tokens(before).push(item@));
            }
            i += 1;
        }
        df { items }
    }
}

impl df {
    /// An empty pad.
    pub fn new() -> (out: Self)
        ensures
            out@ == Seq::<Token>::empty(),
    {
        df { items: Vec::new() }
    }

    /// Name a column: its name is written down after the notes so far.
    pub fn index(&mut self, index: &str)
        ensures
            final(self)@ == old(self)@.push(Token::OwnColumn(index@)),
    {
        self.items.push(Item::OwnColumn(index.to_owned()));
    }

    /// Add the two values noted last: a new pad with the notes of `self`
    /// and a plus sign after them. `rhs` is taken to be the same pad.
    pub fn add(&self, rhs: &df) -> (out: df)
        ensures
            out@ == self@.push(Token::Add),
    {
        let mut new = self.clone();
        new.items.push(Item::Add);
        new
    }
}

} // verus!
