//! The cache as the decode workers share it: behind one lock.

use vstd::prelude::*;
use std::sync::Arc;
use crate::cache::{cached, holds, well_formed, CacheModel, ImageCache, CACHE_SIZE};
use crate::thumbnail::Thumbnail;

verus! {

/// `lock_api::Mutex`, which `parking_lot::Mutex` is an alias of: opaque.
#[verifier::external_type_specification]
#[verifier::external_body]
#[verifier::reject_recursive_types(R)]
#[verifier::reject_recursive_types(T)]
pub struct ExMutex<R, T: ?Sized>(parking_lot::lock_api::Mutex<R, T>);

/// `parking_lot::RawMutex`, the lock inside a `parking_lot::Mutex`: opaque.
#[verifier::external_type_specification]
#[verifier::external_body]
pub struct ExRawMutex(parking_lot::RawMutex);

/// The cache while its lock is held: a `parking_lot::MutexGuard`, of
/// which nothing is known but what `lock_mutex` and `guarded` say. The lock
/// is released when the guard goes out of scope.
#[verifier::external_body]
struct CacheGuard<'a> {
    guard: parking_lot::MutexGuard<'a, ImageCache>,
}

/// `parking_lot::Mutex::new` wraps the cache in an unlocked mutex.
#[verifier::external_body]
fn new_mutex(cache: ImageCache) -> (mutex: parking_lot::Mutex<ImageCache>) {
    parking_lot::Mutex::new(cache)
}

/// `parking_lot::Mutex::lock` waits until the lock is free and takes it.
/// What the cache holds by then depends on the other threads.
#[verifier::external_body]
fn lock_mutex<'a>(mutex: &'a parking_lot::Mutex<ImageCache>) -> (guard: CacheGuard<'a>) {
    CacheGuard { guard: mutex.lock() }
}

/// `DerefMut::deref_mut` of `parking_lot::MutexGuard` gives the cache that
/// the held lock protects.
#[verifier::external_body]
fn guarded<'a, 'b>(guard: &'a mut CacheGuard<'b>) -> (cache: &'a mut ImageCache) {
    &mut *guard.guard
}

/// One cache for all loads and all workers. Copies share it.
pub struct SharedCache {
    inner: Arc<parking_lot::Mutex<ImageCache>>,
}

impl SharedCache {
    /// A new, empty cache.
    pub fn new() -> (shared: Self) {
        SharedCache { inner: Arc::new(new_mutex(ImageCache::new())) }
    }

    /// The number of cached thumbnails at the moment of the call.
    pub fn len(&self) -> (n: usize)
        ensures
            n <= CACHE_SIZE,
    {
        let mut guard = lock_mutex(&self.inner);
        let cache = guarded(&mut guard);
        cache.len()
    }

    /// Whether a thumbnail is cached for `path` at the moment of the call.
    pub fn contains(&self, path: &str) -> (found: bool) {
        let mut guard = lock_mutex(&self.inner);
        let cache = guarded(&mut guard);
        cache.contains(path)
    }

    /// The cache-aside lookup under the lock, which is held while `decode`
    /// runs: `decode` must not turn to this cache itself, or it waits for
    /// ever. Nothing comes back only if `decode` was asked and failed.
    pub fn get_or_insert<D: FnOnce(&str, i32) -> Option<Thumbnail>>(
        &self,
        path: &str,
        max_size: i32,
        decode: D,
    ) -> (found: Option<Thumbnail>)
        requires
            call_requires(decode, (path, max_size)),
        ensures
            found is None ==> call_ensures(decode, (path, max_size), None::<Thumbnail>),
            exists|held: CacheModel|
                well_formed(held, CACHE_SIZE as nat) && #[trigger] lookup_gives(
                    held,
                    path,
                    max_size,
                    decode,
                    found,
                ),
    {
        let mut guard = lock_mutex(&self.inner);
        let cache = guarded(&mut guard);
        let ghost held = cache@;
        let found = cache.get_or_insert(path, max_size, decode);
        proof {
            if !holds(held, path@) {
                let decoded = choose|decoded: Option<Thumbnail>|
                    call_ensures(decode, (path, max_size), decoded)
                        && #[trigger] crate::cache::decode_settles(
                        held,
                        path@,
                        decoded,
                        cache@,
                        found,
                    );
                assert(answers(decoded, found));
            }
            assert(lookup_gives(held, path, max_size, decode, found));
        }
        found
    }
}

/// `found` is what a decoder's answer `decoded` to a miss becomes: a copy
/// of the thumbnail, or nothing after a failure.
pub open spec fn answers(decoded: Option<Thumbnail>, found: Option<Thumbnail>) -> bool {
    match decoded {
        Some(thumbnail) => found matches Some(copy) && copy@ == thumbnail@,
        None => found is None,
    }
}

/// `found` is what the cache-aside lookup of `path` gives when the cache
/// holds `held` at the moment the lock is taken: the cached thumbnail on a
/// hit, and on a miss what `decode` answers.
pub open spec fn lookup_gives<D: FnOnce(&str, i32) -> Option<Thumbnail>>(
    held: CacheModel,
    path: &str,
    max_size: i32,
    decode: D,
    found: Option<Thumbnail>,
) -> bool {
    if holds(held, path@) {
        found matches Some(thumbnail) && cached(held, path@) == Some(thumbnail@)
    } else {
        exists|decoded: Option<Thumbnail>|
            call_ensures(decode, (path, max_size), decoded) && #[trigger] answers(decoded, found)
    }
}

impl Clone for SharedCache {
    /// Another handle to the same cache.
    fn clone(&self) -> (shared: Self)
        ensures
            shared == *self,
    {
        SharedCache { inner: self.inner.clone() }
    }
}

} // verus!
