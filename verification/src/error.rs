//! Error type shared by every backend and by the engine factory.

use vstd::prelude::*;

verus! {

/// What the message of an unknown-engine error reads, for the given name.
pub open spec fn unknown_engine_message(name: Seq<char>) -> Seq<char> {
    "Unknown engine type: "@ + name + ". Available engines: memory, rwlock, sled"@
}

/// Failures that storage operations or engine construction can signal.
#[derive(Debug)]
pub enum StorageError {
    /// The string-based factory was given a name that matches no backend.
    UnknownEngine { name: String },
    /// A bounded cache was configured with a capacity of zero.
    CacheCapacity,
    /// The durable store reported a fault; the text is its own description.
    Backend { message: String },
    /// A numeric read-modify-write operation left the signed 64-bit range.
    NumericOverflow,
}

impl StorageError {
    /// Human-readable description of the error.
    pub fn message(&self) -> (r: String)
        ensures
            self matches StorageError::UnknownEngine { name } ==> r@ == unknown_engine_message(
                name@,
            ),
            self is CacheCapacity ==> r@ == "Cache size must be greater than 0"@,
            self matches StorageError::Backend { message } ==> r@ == message@,
            self is NumericOverflow ==> r@
                == "numeric value out of range for a signed 64-bit integer"@,
    {
        match self {
            StorageError::UnknownEngine { name } => {
                let head = String::from_str("Unknown engine type: ");
                let head = head.concat(name.as_str());
                head.concat(". Available engines: memory, rwlock, sled")
            },
            StorageError::CacheCapacity => String::from_str("Cache size must be greater than 0"),
            StorageError::Backend { message } => message.clone(),
            StorageError::NumericOverflow => String::from_str(
                "numeric value out of range for a signed 64-bit integer",
            ),
        }
    }
}

} // verus!
