//! The counter record itself: one byte of persisted state, mutated only
//! through checked, non-wrapping arithmetic.

use vstd::prelude::*;

verus! {

/// Why an operation on a counter record was rejected.
///
/// `AlreadyExists` and `InsufficientFunds` reject a creation; `NotFound`
/// rejects any operation aimed at an address that holds no record; `Overflow`
/// and `Underflow` abort an increment at 255 or a decrement at 0, so that the
/// count never wraps.
#[derive(Clone, Copy, Debug, PartialEq, Eq, Structural)]
pub enum AuthlinkError {
    AlreadyExists,
    InsufficientFunds,
    NotFound,
    Overflow,
    Underflow,
}

/// A counter record: the only persisted field is its `count`.
#[derive(Clone, Copy, Debug, PartialEq, Eq, Structural)]
pub struct Authlink {
    count: u8,
}

impl Authlink {
    /// The record whose count is `count`, for use in contracts.
    pub closed spec fn spec_with(count: u8) -> Authlink {
        Authlink { count }
    }

    pub closed spec fn spec_count(&self) -> u8 {
        self.count
    }

    /// The count is the whole of a record's state: records with equal counts
    /// are equal.
    pub proof fn lemma_count_determines_record(a: Authlink)
        ensures
            a == Authlink::spec_with(a.spec_count()),
    {
    }

    /// The record built from a count holds exactly that count.
    pub broadcast proof fn lemma_spec_with_count(count: u8)
        ensures
            #[trigger] Authlink::spec_with(count).spec_count() == count,
    {
    }

    /// A fresh record starts at zero.
    pub fn new() -> (r: Authlink)
        ensures
            r == Authlink::spec_with(0),
    {
        Authlink { count: 0 }
    }

    /// The current count.
    pub fn count(&self) -> (r: u8)
        ensures
            r == self.spec_count(),
    {
        self.count
    }

    /// Adds one to the count. At 255 it fails with `Overflow` and writes
    /// nothing: the count never silently wraps around.
    pub fn increment(&mut self) -> (r: Result<(), AuthlinkError>)
        ensures
            old(self).spec_count() < 255 ==> r is Ok && *final(self)
                == Authlink::spec_with((old(self).spec_count() + 1) as u8),
            old(self).spec_count() == 255 ==> r == Err::<(), AuthlinkError>(
                AuthlinkError::Overflow,
            ) && *final(self) == *old(self),
    {
        if self.count == 255 {
            Err(AuthlinkError::Overflow)
        } else {
            self.count = self.count + 1;
            Ok(())
        }
    }

    /// Takes one from the count. At 0 it fails with `Underflow` and writes
    /// nothing.
    pub fn decrement(&mut self) -> (r: Result<(), AuthlinkError>)
        ensures
            old(self).spec_count() > 0 ==> r is Ok && *final(self)
                == Authlink::spec_with((old(self).spec_count() - 1) as u8),
            old(self).spec_count() == 0 ==> r == Err::<(), AuthlinkError>(
                AuthlinkError::Underflow,
            ) && *final(self) == *old(self),
    {
        if self.count == 0 {
            Err(AuthlinkError::Underflow)
        } else {
            self.count = self.count - 1;
            Ok(())
        }
    }

    /// Overwrites the count with `value`, whatever it held before. Every
    /// value of a byte is accepted; no other validation applies.
    pub fn set(&mut self, value: u8)
        ensures
            *final(self) == Authlink::spec_with(value),
    {
        self.count = value;
    }
}

/// Incrementing a record that has room and then decrementing it restores the
/// record exactly.
pub proof fn lemma_increment_then_decrement_record(a: Authlink)
    requires
        a.spec_count() < 255,
    ensures
        Authlink::spec_with(
            ((Authlink::spec_with((a.spec_count() + 1) as u8).spec_count() - 1) as u8),
        ) == a,
{
    Authlink::lemma_count_determines_record(a);
}

} // verus!
