//! The main error type.

use vstd::prelude::*;
use vstd::std_specs::cmp::PartialEqSpec;
use vstd::string::*;

use crate::flash_layout::StorageVersion;
use crate::text;
use crate::versioning::VersionMismatchKind;

verus! {

/// The main error type.
///
/// `S` is the error of the flash, `V` the error with which a key or a value refuses to be
/// serialized.
#[non_exhaustive]
#[derive(Debug)]
pub enum Error<S, V = ()> {
    /// An error in the storage (flash)
    Storage {
        /// The error value
        value: S,
    },
    /// The item cannot be stored anymore because the storage is full.
    FullStorage,
    /// It's been detected that the memory is likely corrupted.
    /// You may want to erase the memory to recover.
    Corrupted,
    /// There's a bug in the logic of the crate. Please report!
    /// This would otherwise have been a panic
    LogicBug,
    /// The storage version information in flash does not match the expected values.
    VersionMismatch {
        /// The expected storage version
        expected: StorageVersion,
        /// The actual storage version read from flash
        actual: StorageVersion,
    },
    /// The storage version information in flash does not match the expected values, told apart by
    /// whose version differs.
    VersionMismatchOf(VersionMismatchKind),
    /// A provided buffer was to big to be used
    BufferTooBig,
    /// A provided buffer was to small to be used (usize is size needed)
    BufferTooSmall(usize),
    /// A serialization error (from the key or value)
    SerializationError(V),
    /// The item does not fit in flash, ever.
    /// This is different from [`Error::FullStorage`] because this item is too big to fit even in empty flash.
    ItemTooBig,
}

impl<S, V> Error<S, V> {
    /// Which kind of error this is, whatever it carries.
    pub open spec fn kind(&self) -> int {
        match self {
            Error::Storage { .. } => 0,
            Error::FullStorage => 1,
            Error::Corrupted => 2,
            Error::LogicBug => 3,
            Error::VersionMismatch { .. } => 4,
            Error::BufferTooBig => 5,
            Error::BufferTooSmall(_) => 6,
            Error::SerializationError(_) => 7,
            Error::ItemTooBig => 8,
            Error::VersionMismatchOf(_) => 9,
        }
    }

    /// The error in words, where `value` is how the flash's error or the serialization error that
    /// it carries is displayed.
    pub open spec fn words(&self, value: Seq<char>) -> Seq<char> {
        match self {
            Error::Storage { .. } => "Storage error: "@ + value,
            Error::FullStorage => "Storage is full"@,
            Error::Corrupted => "Storage is corrupted"@,
            Error::LogicBug => "Logic bug"@,
            Error::VersionMismatch { expected, actual } => "Storage version mismatch. Expected "@
                + expected.words() + ", found "@ + actual.words(),
            Error::VersionMismatchOf(kind) => "Storage version mismatch. Expected "@ + kind.words(),
            Error::BufferTooBig => "A provided buffer was to big to be used"@,
            Error::BufferTooSmall(needed) =>
                "A provided buffer was to small to be used. Needed was "@ + text::decimal(
                *needed as nat,
            ),
            Error::SerializationError(_) => "Map value error: "@ + value,
            Error::ItemTooBig => "The item is too big to fit in the flash"@,
        }
    }

    /// The error in words. `value` is how the flash's error or the serialization error that it
    /// carries is displayed; the other errors do without.
    pub fn message(&self, value: &str) -> (message: String)
        ensures
            message@ == self.words(value@),
    {
        match self {
            Error::Storage { .. } => String::from_str("Storage error: ").concat(value),
            Error::FullStorage => String::from_str("Storage is full"),
            Error::Corrupted => String::from_str("Storage is corrupted"),
            Error::LogicBug => String::from_str("Logic bug"),
            Error::VersionMismatch { expected, actual } => {
                let mut message = String::from_str("Storage version mismatch. Expected ");
                message.append(expected.message().as_str());
                message.append(", found ");
                message.append(actual.message().as_str());
                message
            },
            Error::VersionMismatchOf(kind) => String::from_str(
                "Storage version mismatch. Expected ",
            ).concat(kind.message().as_str()),
            Error::BufferTooBig => String::from_str("A provided buffer was to big to be used"),
            Error::BufferTooSmall(needed) => {
                let mut message = String::from_str(
                    "A provided buffer was to small to be used. Needed was ",
                );
                text::append_decimal(&mut message, *needed as u64);
                message
            },
            Error::SerializationError(_) => String::from_str("Map value error: ").concat(value),
            Error::ItemTooBig => String::from_str("The item is too big to fit in the flash"),
        }
    }
}

impl<S, V> From<V> for Error<S, V> {
    fn from(v: V) -> (error: Self) {
        Self::SerializationError(v)
    }
}

impl<S, V> vstd::std_specs::convert::FromSpecImpl<V> for Error<S, V> {
    open spec fn obeys_from_spec() -> bool {
        true
    }

    open spec fn from_spec(v: V) -> Self {
        Self::SerializationError(v)
    }
}

/// Flash errors are compared by value and so are needed sizes; of all other errors only the kind
/// is compared.
impl<S: PartialEq, V> PartialEq for Error<S, V> {
    fn eq(&self, other: &Self) -> (equal: bool) {
        match (self, other) {
            (Error::Storage { value: l_value }, Error::Storage { value: r_value }) => l_value
                == r_value,
            (Error::BufferTooSmall(l0), Error::BufferTooSmall(r0)) => *l0 == *r0,
            (Error::FullStorage, Error::FullStorage) => true,
            (Error::Corrupted, Error::Corrupted) => true,
            (Error::LogicBug, Error::LogicBug) => true,
            (Error::VersionMismatch { .. }, Error::VersionMismatch { .. }) => true,
            (Error::VersionMismatchOf(_), Error::VersionMismatchOf(_)) => true,
            (Error::BufferTooBig, Error::BufferTooBig) => true,
            (Error::SerializationError(_), Error::SerializationError(_)) => true,
            (Error::ItemTooBig, Error::ItemTooBig) => true,
            _ => false,
        }
    }
}

impl<S: PartialEq, V> vstd::std_specs::cmp::PartialEqSpecImpl for Error<S, V> {
    open spec fn obeys_eq_spec() -> bool {
        S::obeys_eq_spec()
    }

    open spec fn eq_spec(&self, other: &Self) -> bool {
        match (self, other) {
            (Error::Storage { value: l_value }, Error::Storage { value: r_value }) => l_value.eq_spec(
                r_value,
            ),
            (Error::BufferTooSmall(l0), Error::BufferTooSmall(r0)) => l0 == r0,
            _ => self.kind() == other.kind(),
        }
    }
}

/// Errors of the same kind are equal unless they carry a flash error or a needed size, whatever
/// else they carry; errors of different kinds never are.
pub proof fn law_errors_are_compared_by_kind<S: PartialEq, V>(left: Error<S, V>, right: Error<S, V>)
    ensures
        left.eq_spec(&right) ==> left.kind() == right.kind(),
        left.kind() == right.kind() && !(left is Storage) && !(left is BufferTooSmall)
            ==> left.eq_spec(&right),
        left is BufferTooSmall && right is BufferTooSmall ==> left.eq_spec(&right) == (
        left->BufferTooSmall_0 == right->BufferTooSmall_0),
        left is Storage && right is Storage ==> left.eq_spec(&right)
            == left->value.eq_spec(&right->value),
{
}

/// Equality of errors is reflexive and symmetric if equality of the flash's errors is.
pub proof fn law_error_equality<S: PartialEq, V>(left: Error<S, V>, right: Error<S, V>)
    requires
        forall|x: S| #[trigger] x.eq_spec(&x),
        forall|x: S, y: S| #[trigger] x.eq_spec(&y) == y.eq_spec(&x),
    ensures
        left.eq_spec(&left),
        left.eq_spec(&right) == right.eq_spec(&left),
{
}

/// Two errors are equal exactly if they are flash errors with equal values, needed sizes that are
/// the same, or both of one of the other variants.
pub proof fn law_equal_errors<S: PartialEq, V>(left: Error<S, V>, right: Error<S, V>)
    ensures
        left.eq_spec(&right) <==> {
            ||| left is Storage && right is Storage && left->value.eq_spec(&right->value)
            ||| left is BufferTooSmall && right is BufferTooSmall && left->BufferTooSmall_0
                == right->BufferTooSmall_0
            ||| left is FullStorage && right is FullStorage
            ||| left is Corrupted && right is Corrupted
            ||| left is LogicBug && right is LogicBug
            ||| left is VersionMismatch && right is VersionMismatch
            ||| left is VersionMismatchOf && right is VersionMismatchOf
            ||| left is BufferTooBig && right is BufferTooBig
            ||| left is SerializationError && right is SerializationError
            ||| left is ItemTooBig && right is ItemTooBig
        },
{
}

/// A serialization error becomes an error that carries it.
pub proof fn law_from_serialization_error<S, V>(v: V)
    ensures
        <Error<S, V> as vstd::std_specs::convert::FromSpec<V>>::from_spec(v) == Error::<
            S,
            V,
        >::SerializationError(v),
{
}

/// What an error says: of a version mismatch the expected version before the one that was found, of
/// a buffer that is too small the size that is needed, and of an error that it carries how that is
/// displayed.
pub proof fn law_error_in_words<S, V>(error: Error<S, V>, value: Seq<char>)
    ensures
        match error {
            Error::Storage { .. } => error.words(value) == "Storage error: "@ + value,
            Error::FullStorage => error.words(value) == "Storage is full"@,
            Error::Corrupted => error.words(value) == "Storage is corrupted"@,
            Error::LogicBug => error.words(value) == "Logic bug"@,
            Error::VersionMismatch { expected, actual } => error.words(value)
                == "Storage version mismatch. Expected "@ + (
            "StorageVersion { internal: "@ + text::decimal(expected.internal as nat) + ", user: "@
                + text::decimal(expected.user as nat) + " }"@) + ", found "@ + (
            "StorageVersion { internal: "@ + text::decimal(actual.internal as nat) + ", user: "@
                + text::decimal(actual.user as nat) + " }"@),
            Error::VersionMismatchOf(kind) => error.words(value)
                == "Storage version mismatch. Expected "@ + kind.words(),
            Error::BufferTooBig => error.words(value)
                == "A provided buffer was to big to be used"@,
            Error::BufferTooSmall(needed) => error.words(value)
                == "A provided buffer was to small to be used. Needed was "@ + text::decimal(
                needed as nat,
            ),
            Error::SerializationError(_) => error.words(value) == "Map value error: "@ + value,
            Error::ItemTooBig => error.words(value) == "The item is too big to fit in the flash"@,
        },
{
}

} // verus!
