//! The state that the request handlers share: the index in use, which a
//! refresh replaces as a whole while readers go on with the one they hold.

use crate::fn_cache::FnCache;
use parking_lot::{RawRwLock, RwLock};
use std::sync::Arc;
use vstd::prelude::*;

verus! {

/// The reader-writer lock of `lock_api`, which `parking_lot::RwLock` is.
#[verifier::external_type_specification]
#[verifier::external_body]
#[verifier::reject_recursive_types(R)]
#[verifier::reject_recursive_types(T)]
pub struct ExRwLock<R, T: ?Sized>(parking_lot::lock_api::RwLock<R, T>);

/// The lock state of `parking_lot`.
#[verifier::external_type_specification]
#[verifier::external_body]
pub struct ExRawRwLock<const RECURSIVE: bool>(RawRwLock<RECURSIVE>);

/// `Arc::clone`: another pointer to the same value.
#[verifier::external_body]
pub(crate) fn share(index: &Arc<FnCache>) -> (same: Arc<FnCache>)
    ensures
        same == *index,
{
    Arc::clone(index)
}

/// `RwLock::new`: a lock around `index`. Nothing is claimed of it: what a lock
/// holds is what was written to it last, by whichever thread.
#[verifier::external_body]
fn lock_new(index: Arc<FnCache>) -> RwLock<Arc<FnCache>> {
    RwLock::new(index)
}

/// `RwLock::read`, held for as long as it takes to copy the pointer. Which
/// index comes back depends on the other threads.
#[verifier::external_body]
fn lock_read(lock: &RwLock<Arc<FnCache>>) -> Arc<FnCache> {
    lock.read().clone()
}

/// `RwLock::write`, held for as long as it takes to put `index` in the place
/// of the one that was there.
#[verifier::external_body]
fn lock_write(lock: &RwLock<Arc<FnCache>>, index: Arc<FnCache>) {
    *lock.write() = index;
}

/// The index in use, behind a reader-writer lock.
pub struct AppState {
    cache: RwLock<Arc<FnCache>>,
}

impl AppState {
    /// A state whose index in use is `cache`.
    pub fn new(cache: Arc<FnCache>) -> Self {
        AppState { cache: lock_new(cache) }
    }

    /// The index in use at the moment of the call. It stays as it is for as
    /// long as the caller holds it, whatever is put in its place meanwhile.
    pub fn get_fn_cache(&self) -> Arc<FnCache> {
        lock_read(&self.cache)
    }

    /// Puts `c` in the place of the index in use. Of two calls the later wins.
    pub fn update_fn_cache(&self, c: FnCache) {
        lock_write(&self.cache, Arc::new(c));
    }
}

} // verus!
