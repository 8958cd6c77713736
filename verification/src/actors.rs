//! A broker that owns the index in use and answers one request at a time.

use crate::app_state::share;
use crate::fn_cache::{index_of, signatures_of, FnCache};
use crate::models::Function;
use std::sync::Arc;
use vstd::prelude::*;

verus! {

/// What can be asked of the broker.
pub enum Request {
    /// Replace the index by the index of these functions.
    UpdateCache(Vec<Function>),
    /// Hand out the index in use.
    GetCache,
}

/// What the broker answers.
pub enum Response {
    /// The index was replaced.
    Updated,
    /// The index in use.
    Cache(Arc<FnCache>),
}

/// The owner of the index in use.
pub struct FnCacheBroker {
    cache: Arc<FnCache>,
}

impl View for FnCacheBroker {
    type V = Map<Seq<char>, Seq<i64>>;

    /// The index in use.
    closed spec fn view(&self) -> Map<Seq<char>, Seq<i64>> {
        self.cache@
    }
}

impl FnCacheBroker {
    /// The index in use, as a value.
    pub closed spec fn current(&self) -> FnCache {
        *self.cache
    }

    /// A broker whose index is that of `fns`.
    pub fn new(fns: Vec<Function>) -> (broker: Self)
        ensures
            broker@ == index_of(signatures_of(fns@)),
    {
        FnCacheBroker { cache: Arc::new(FnCache::from_functions(&fns)) }
    }

    /// Answers one request. A request for the index hands out the one in use
    /// and leaves it in use. An update puts the index of the given functions
    /// in its place; an index handed out before is not touched by that.
    pub fn handle(&mut self, req: Request) -> (resp: Response)
        ensures
            match req {
                Request::GetCache => resp matches Response::Cache(snapshot) && *snapshot == old(
                    self,
                ).current() && final(self).current() == old(self).current(),
                Request::UpdateCache(fns) => resp is Updated && final(self)@ == index_of(
                    signatures_of(fns@),
                ),
            },
    {
        match req {
            Request::GetCache => Response::Cache(share(&self.cache)),
            Request::UpdateCache(fns) => {
                self.cache = Arc::new(FnCache::from_functions(&fns));
                Response::Updated
            },
        }
    }
}

} // verus!
