//! A notepad for expressions over the columns of a frame, with a staging
//! area.
//!
//! Like [`crate::dynamic::df_token`], but a column that is named is staged
//! first, and only an operator moves its operands from the stage to the
//! stack. A column that was named and never used leaves no trace: the
//! operator clears the stage.

use vstd::prelude::*;

verus! {

/// One note on the pad.
#[derive(Debug, Clone, Copy)]
pub enum Item {
    /// Add the two values before this note.
    Add,
    /// The column of the frame with this name.
    OwnColumn(&'static str),
}

/// One note, as a mathematical value.
pub enum Token {
    Add,
    OwnColumn(Seq<char>),
}

impl View for Item {
    type V = Token;

    open spec fn view(&self) -> Token {
        match self {
            Item::Add => Token::Add,
            Item::OwnColumn(name) => Token::OwnColumn(name@),
        }
    }
}

/// The notes that some items stand for.
pub open spec fn tokens(items: Seq<Item>) -> Seq<Token> {
    items.map_values(|item: Item| item@)
}

/// The pad: the notes that are settled, and the columns named since the
/// last operator.
#[allow(non_camel_case_types)]
#[derive(Debug)]
pub struct df {
    stack: Vec<Item>,
    stage: Vec<Item>,
}

impl df {
    /// The settled notes, oldest first.
    pub closed spec fn stack(&self) -> Seq<Token> {
        tokens(self.stack@)
    }

    /// The staged notes, oldest first.
    pub closed spec fn stage(&self) -> Seq<Token> {
        tokens(self.stage@)
    }

    /// An empty pad.
    pub fn new() -> (out: Self)
        ensures
            out.stack() == Seq::<Token>::empty(),
            out.stage() == Seq::<Token>::empty(),
    {
        df { stack: Vec::new(), stage: Vec::new() }
    }

    /// Name a column: its name is staged.
    pub fn index(&mut self, index: &'static str)
        ensures
            final(self).stack() == old(self).stack(),
            final(self).stage() == old(self).stage().push(Token::OwnColumn(index@)),
    {
        self.stage.push(Item::OwnColumn(index));
    }

    /// The number of staged notes.
    pub fn staged(&self) -> (n: usize)
        ensures
            n == self.stage().len(),
    {
        self.stage.len()
    }

    /// Add the two values staged last: a new pad whose stack holds the
    /// settled notes of `self`, then the note staged last, the one staged
    /// before it, and a plus sign; its stage is empty. `rhs` is taken to be
    /// the same pad.
    ///
    /// At least two notes must be staged.
    pub fn add(&self, rhs: &df) -> (out: df)
        requires
            self.stage().len() >= 2,
        ensures
            out.stack() == self.stack().push(self.stage().last()).push(
                self.stage()[self.stage().len() - 2],
            ).push(Token::Add),
            out.stage() == Seq::<Token>::empty(),
    {
        let mut new = self.clone();
        let last = new.stage.pop().unwrap();
        let before_last = new.stage.pop().unwrap();
        new.stack.push(last);
        new.stack.push(before_last);
        new.stack.push(Item::Add);
        new.stage.clear();
        new
    }
}

impl Clone for df {
    /// A pad with the same notes.
    fn clone(&self) -> (out: Self)
        ensures
            out.stack() == self.stack(),
            out.stage() == self.stage(),
    {
        let stack = self.stack.clone();
        let stage = self.stage.clone();
        df { stack, stage }
    }
}

} // verus!
