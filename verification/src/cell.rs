//! The access token and the cell that it guards.
//!
//! A [`Token`] is the permission to change nodes for the duration of one
//! traversal. It cannot be copied, and this crate creates one only inside
//! [`transform`](crate::traverse::transform), so at most one writer exists for
//! an arena at any point of a program.

use vstd::prelude::*;

verus! {

/// The capability to reach into [`GCell`]s. It holds no data.
pub struct Token {
    sealed: (),
}

impl Token {
    /// Creates a token.
    ///
    /// Code that works on one arena must never hold two tokens, so this stays
    /// private to the crate: the transform driver is its only caller.
    pub(crate) fn new_unchecked() -> Token {
        Token { sealed: () }
    }
}

/// A value that can be read or changed only by presenting a [`Token`]: the
/// traversable view of what it holds.
///
/// Outside a traversal there is no token. The owner of a cell then reaches
/// the value with [`get_mut`](GCell::get_mut) or takes it back with
/// [`into_inner`](GCell::into_inner).
pub struct GCell<T> {
    value: T,
}

impl<T> View for GCell<T> {
    type V = T;

    closed spec fn view(&self) -> T {
        self.value
    }
}

impl<T> GCell<T> {
    /// The cell that holds `value`.
    pub closed spec fn of(value: T) -> Self {
        GCell { value }
    }

    /// Moves a value into a cell. Nothing is copied.
    pub fn new(value: T) -> (cell: Self)
        ensures
            cell == Self::of(value),
            cell@ == value,
    {
        GCell { value }
    }

    /// Gives the value back.
    pub fn into_inner(self) -> (value: T)
        ensures
            value == self@,
    {
        self.value
    }

    /// Reads the value. Any number of readers may share one token.
    pub fn borrow<'a>(&'a self, tk: &'a Token) -> (value: &'a T)
        ensures
            *value == self@,
    {
        &self.value
    }

    /// Borrows the value for changing it. The borrow lasts no longer than
    /// that of the token, so there is one writer at most.
    pub fn borrow_mut<'a>(&'a mut self, tk: &'a mut Token) -> (value: &'a mut T)
        ensures
            *value == old(self)@,
            final(self)@ == *final(value),
    {
        &mut self.value
    }

    /// Access for an owner of the cell, who needs no token.
    pub fn get_mut(&mut self) -> (value: &mut T)
        ensures
            *value == old(self)@,
            final(self)@ == *final(value),
    {
        &mut self.value
    }

    /// Puts `value` in the cell and returns what it held.
    pub fn replace(&mut self, value: T, tk: &mut Token) -> (previous: T)
        ensures
            previous == old(self)@,
            final(self)@ == value,
    {
        let mut previous = value;
        std::mem::swap(&mut self.value, &mut previous);
        previous
    }

    /// Takes the value out and leaves the default in its place.
    pub fn take(&mut self, tk: &mut Token) -> (previous: T) where T: Default
        ensures
            previous == old(self)@,
            call_ensures(T::default, (), final(self)@),
    {
        let mut previous = T::default();
        std::mem::swap(&mut self.value, &mut previous);
        previous
    }

    /// Converting to the traversable view and back changes nothing, and every
    /// cell is the traversable view of exactly one value.
    pub proof fn lemma_round_trip(value: T, cell: Self)
        ensures
            Self::of(value)@ == value,
            Self::of(cell@) == cell,
    {
    }
}

impl<T: Default> Default for GCell<T> {
    /// A cell that holds the default of what it wraps.
    fn default() -> (cell: Self)
        ensures
            call_ensures(T::default, (), cell@),
    {
        GCell { value: T::default() }
    }
}

impl<T> AsMut<T> for GCell<T> {
    /// Access for an owner of the cell, as [`get_mut`](GCell::get_mut).
    fn as_mut(&mut self) -> (value: &mut T)
        ensures
            *value == old(self)@,
            final(self)@ == *final(value),
    {
        &mut self.value
    }
}

impl<T> From<T> for GCell<T> {
    /// The cell that holds `value`.
    fn from(value: T) -> (cell: Self) {
        GCell { value }
    }
}

impl<T> vstd::std_specs::convert::FromSpecImpl<T> for GCell<T> {
    open spec fn obeys_from_spec() -> bool {
        true
    }

    open spec fn from_spec(value: T) -> Self {
        Self::of(value)
    }
}

} // verus!
