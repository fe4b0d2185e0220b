//! The entities of the tracker and the closed enums for tables, colors and
//! errors.

use vstd::prelude::*;

verus! {

/// A named grouping container for tasks.
#[derive(Debug)]
pub struct Board {
    pub id: u16,
    pub title: String,
}

/// A unit of work: it belongs to a board, starts pending (`done == false`),
/// records its creation time, and carries a reminder string where the empty
/// string means "no reminder".
#[derive(Debug)]
pub struct Task {
    pub id: u16,
    pub title: String,
    pub done: bool,
    pub board_id: u16,
    pub created_at: String,
    pub reminder: String,
}

/// An immutable, append-only note attached to a task.
#[derive(Debug)]
pub struct Comment {
    pub id: u16,
    pub title: String,
    pub created_at: String,
}

/// The single-column row that a count query returns.
#[derive(Debug)]
pub struct Record {
    pub qtd: u16,
}

impl Clone for Board {
    fn clone(&self) -> (r: Self)
        ensures
            r == *self,
    {
        Board { id: self.id, title: self.title.clone() }
    }
}

impl Clone for Task {
    fn clone(&self) -> (r: Self)
        ensures
            r == *self,
    {
        Task {
            id: self.id,
            title: self.title.clone(),
            done: self.done,
            board_id: self.board_id,
            created_at: self.created_at.clone(),
            reminder: self.reminder.clone(),
        }
    }
}

impl Clone for Comment {
    fn clone(&self) -> (r: Self)
        ensures
            r == *self,
    {
        Comment { id: self.id, title: self.title.clone(), created_at: self.created_at.clone() }
    }
}

/// The three tables of the store, as a closed enum so that no table name is
/// ever taken from user input.
#[derive(Clone, Copy, Debug, PartialEq, Eq, Structural)]
pub enum TableKind {
    Boards,
    Tasks,
    Comments,
}

/// A console color tag for user-visible notifications.
#[derive(Clone, Copy, Debug, PartialEq, Eq, Structural)]
pub enum Color {
    Red,
    Green,
    Yellow,
    Blue,
    Magenta,
    Cyan,
    White,
}

impl Color {
    /// The lowercase console name of the color.
    pub open spec fn name_spec(self) -> Seq<char> {
        match self {
            Color::Red => "red"@,
            Color::Green => "green"@,
            Color::Yellow => "yellow"@,
            Color::Blue => "blue"@,
            Color::Magenta => "magenta"@,
            Color::Cyan => "cyan"@,
            Color::White => "white"@,
        }
    }

    pub fn name(self) -> (r: &'static str)
        ensures
            r@ == self.name_spec(),
    {
        match self {
            Color::Red => "red",
            Color::Green => "green",
            Color::Yellow => "yellow",
            Color::Blue => "blue",
            Color::Magenta => "magenta",
            Color::Cyan => "cyan",
            Color::White => "white",
        }
    }
}

/// A failure of the store: the database could not be reached or prepared at
/// all, or a single query failed at runtime.
#[derive(Clone, Copy, Debug, PartialEq, Eq, Structural)]
pub enum StoreError {
    StorageUnavailable,
    QueryFailure,
}

/// Why a candidate reminder was rejected: it did not parse, or it was
/// required to lie in the future and did not.
#[derive(Clone, Copy, Debug, PartialEq, Eq, Structural)]
pub enum InvalidReminder {
    Unparseable,
    NotInFuture,
}

} // verus!
