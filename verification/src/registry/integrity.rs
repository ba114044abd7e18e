//! Data that may be valid, corrupted or missing.
use vstd::prelude::*;

verus! {

/// Data for a record. `Valid` data is written as it is, `Corrupted` stands for a record
/// with data in it that cannot be read, and `Missing` for no record.
#[derive(Clone, Copy, Debug, PartialEq, Eq)]
pub enum Integrity<T> {
    Valid(T),
    Corrupted,
    Missing,
}

impl<T> Integrity<T> {
    /// Applies a function to valid data; corrupted data stays corrupted, and missing
    /// data missing.
    pub fn map<U, F: FnOnce(T) -> U>(self, f: F) -> (r: Integrity<U>)
        requires
            self matches Integrity::Valid(value) ==> call_requires(f, (value,)),
        ensures
            match self {
                Integrity::Valid(value) => r matches Integrity::Valid(mapped) && call_ensures(
                    f,
                    (value,),
                    mapped,
                ),
                Integrity::Corrupted => r == Integrity::<U>::Corrupted,
                Integrity::Missing => r == Integrity::<U>::Missing,
            },
    {
        match self {
            Integrity::Valid(value) => Integrity::Valid(f(value)),
            Integrity::Corrupted => Integrity::Corrupted,
            Integrity::Missing => Integrity::Missing,
        }
    }

    /// The same, with a reference to the data.
    pub fn as_ref<'a>(&'a self) -> (r: Integrity<&'a T>)
        ensures
            match *self {
                Integrity::Valid(value) => r matches Integrity::Valid(held) && *held == value,
                Integrity::Corrupted => r == Integrity::<&'a T>::Corrupted,
                Integrity::Missing => r == Integrity::<&'a T>::Missing,
            },
    {
        match self {
            Integrity::Valid(value) => Integrity::Valid(value),
            Integrity::Corrupted => Integrity::Corrupted,
            Integrity::Missing => Integrity::Missing,
        }
    }
}

} // verus!
