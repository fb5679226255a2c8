//! Sharing of reference-counted data.

use std::sync::Arc;
use vstd::prelude::*;

verus! {

/// Makes another handle to the data behind `handle`.
///
/// Calls `Arc::clone`, which is not verified here. The contract claims what
/// its documentation says: the new handle points to the same allocation, so
/// it holds the same value.
#[verifier::external_body]
pub(crate) fn share<T>(handle: &Arc<T>) -> (shared: Arc<T>)
    ensures
        shared == *handle,
{
    Arc::clone(handle)
}

/// Takes the data out of `handle` where no other handle shares it.
///
/// Calls `Arc::try_unwrap`, which is not verified here. The contract claims
/// what its documentation says: on success the inner value is returned, and
/// otherwise the same handle is given back.
#[verifier::external_body]
pub(crate) fn take<T>(handle: Arc<T>) -> (taken: Result<T, Arc<T>>)
    ensures
        match taken {
            Ok(value) => value == *handle,
            Err(same) => same == handle,
        },
{
    Arc::try_unwrap(handle)
}

} // verus!
