//! Checks, made when the program is compiled, that a type can cross
//! threads.

use vstd::prelude::*;

verus! {

/// Compiles only where `T` is `Send`. Does nothing when called.
pub fn assert_send<T: Send>() {
}

/// Compiles only where `T` is `Sync`. Does nothing when called.
pub fn assert_sync<T: Sync>() {
}

} // verus!
