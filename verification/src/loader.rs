//! The loader: which folder is shown, which paths are waiting, and how one
//! folder load supersedes the one before it.

use vstd::prelude::*;
use vstd::seq_lib::{to_multiset_contains, to_multiset_len};
use crossbeam_channel::Sender;
use rand::seq::SliceRandom;
use crate::scanner::{eligible_paths, scan_folder, sorted, texts, DirEntry};
use crate::shared::SharedCache;
use crate::sink::UiSink;
use crate::thumbnail::PendingResult;
use crate::token::CancellationToken;

verus! {

/// The images that a listing yields: those of `scan_folder`, or none where
/// the directory could not be read.
pub open spec fn listed(listing: Option<&Vec<DirEntry>>) -> Seq<Seq<char>> {
    match listing {
        Some(entries) => eligible_paths(entries@),
        None => Seq::empty(),
    }
}

/// `paths` holds the images of `listing`, each as often as the listing
/// does, in lexicographic order.
pub open spec fn is_scan_of(paths: Seq<Seq<char>>, listing: Option<&Vec<DirEntry>>) -> bool {
    sorted(paths) && paths.to_multiset() == listed(listing).to_multiset()
}

/// The current folder after a scan of `folder` was tried: the folder that
/// was scanned, where its directory could be read, and else the one that
/// was current before.
pub open spec fn after_scan(
    current: Option<Seq<char>>,
    folder: Seq<char>,
    listing: Option<&Vec<DirEntry>>,
) -> Option<Seq<char>> {
    if listing is Some {
        Some(folder)
    } else {
        current
    }
}

/// What the loader remembers between folder loads.
pub struct ImageLoader {
    queue: Vec<String>,
    current_folder: Option<String>,
    cache: SharedCache,
    cancel_flag: Option<CancellationToken>,
}

/// One folder load, ready to run: the paths to decode, the two ends of the
/// channel, the load's cancellation flag, and the cache.
pub struct Generation {
    /// The paths to decode, in lexicographic order.
    pub batch: Vec<String>,
    /// The workers' end of the channel.
    pub sender: Sender<PendingResult>,
    /// The drawing loop's end of the channel.
    pub sink: UiSink,
    /// The flag of this load.
    pub token: CancellationToken,
    /// The cache, shared with every other load.
    pub cache: SharedCache,
}

/// `SliceRandom::choose` on the thread's generator `rand::thread_rng()`:
/// nothing for an empty list, else one of the list's elements, whichever
/// chance picks.
#[verifier::external_body]
fn choose_path(paths: &Vec<String>) -> (picked: Option<&String>)
    ensures
        paths@.len() == 0 <==> picked is None,
        picked matches Some(path) ==> exists|i: int| 0 <= i < paths@.len() && paths@[i] == *path,
{
    paths.choose(&mut rand::thread_rng())
}

/// What a listing yields, in order.
fn scan_listing(listing: Option<&Vec<DirEntry>>) -> (paths: Vec<String>)
    ensures
        is_scan_of(texts(paths@), listing),
{
    match listing {
        Some(entries) => scan_folder(entries),
        None => {
            let paths: Vec<String> = Vec::new();
            assert(texts(paths@) =~= Seq::empty());
            paths
        },
    }
}

impl ImageLoader {
    /// The paths that wait to be decoded.
    pub closed spec fn queue(&self) -> Seq<Seq<char>> {
        texts(self.queue@)
    }

    /// The folder that was scanned last with success.
    pub closed spec fn folder(&self) -> Option<Seq<char>> {
        match self.current_folder {
            Some(folder) => Some(folder@),
            None => None,
        }
    }

    /// The flag of the load that was started last, if one was.
    pub closed spec fn flag(&self) -> Option<CancellationToken> {
        self.cancel_flag
    }

    /// The cache that every load of this loader uses.
    pub closed spec fn shared_cache(&self) -> SharedCache {
        self.cache
    }

    /// A loader that has shown no folder yet, with an empty cache.
    pub fn new() -> (loader: Self)
        ensures
            loader.queue() == Seq::<Seq<char>>::empty(),
            loader.folder() is None,
            loader.flag() is None,
    {
        let loader = ImageLoader {
            queue: Vec::new(),
            current_folder: None,
            cache: SharedCache::new(),
            cancel_flag: None,
        };
        assert(loader.queue() =~= Seq::<Seq<char>>::empty());
        loader
    }

    /// The folder that was scanned last with success, if any.
    pub fn current_folder(&self) -> (folder: Option<String>)
        ensures
            match folder {
                Some(f) => self.folder() == Some(f@),
                None => self.folder() is None,
            },
    {
        match &self.current_folder {
            Some(f) => Some(f.clone()),
            None => None,
        }
    }

    /// The number of paths that wait.
    pub fn queue_len(&self) -> (n: usize)
        ensures
            n == self.queue().len(),
    {
        self.queue.len()
    }

    /// The cache that all loads share.
    pub fn cache(&self) -> (cache: SharedCache)
        ensures
            cache == self.shared_cache(),
    {
        self.cache.clone()
    }

    /// Turns to `folder`: the flag of the load before is raised, the queue
    /// is emptied and then filled with the images of `listing`, in
    /// lexicographic order. A directory that could not be read (`None`)
    /// yields an empty queue and no error, and the current folder stays the
    /// one that was scanned last with success.
    pub fn load_folder(&mut self, folder: &str, listing: Option<&Vec<DirEntry>>)
        ensures
            final(self).folder() == after_scan(old(self).folder(), folder@, listing),
            is_scan_of(final(self).queue(), listing),
            final(self).flag() == old(self).flag(),
            final(self).shared_cache() == old(self).shared_cache(),
    {
        match &self.cancel_flag {
            Some(flag) => {
                flag.cancel();
            },
            None => {},
        }
        if listing.is_some() {
            self.current_folder = Some(folder.to_owned());
        }
        self.queue = scan_listing(listing);
    }

    /// Starts the load of `folder`. The flag of the load before is raised,
    /// so that its workers stop and its drawing loop renders nothing more;
    /// the folder is scanned; the queue is handed over as the batch of a new
    /// generation with a new flag and a new channel. The caller clears the
    /// grid before it renders anything of the new generation.
    pub fn load_images(&mut self, folder: &str, listing: Option<&Vec<DirEntry>>) -> (generation:
        Generation)
        ensures
            final(self).folder() == after_scan(old(self).folder(), folder@, listing),
            final(self).queue() == Seq::<Seq<char>>::empty(),
            is_scan_of(texts(generation.batch@), listing),
            final(self).flag() == Some(generation.token),
            generation.sink.token() == generation.token,
            generation.cache == old(self).shared_cache(),
            final(self).shared_cache() == old(self).shared_cache(),
    {
        self.load_folder(folder, listing);
        let mut batch: Vec<String> = Vec::new();
        core::mem::swap(&mut self.queue, &mut batch);
        assert(self.queue() =~= Seq::<Seq<char>>::empty());
        let (sender, receiver) = crossbeam_channel::unbounded::<PendingResult>();
        let token = CancellationToken::new();
        let sink = UiSink::new(receiver, token.clone());
        self.cancel_flag = Some(token.clone());
        Generation { batch, sender, sink, token, cache: self.cache.clone() }
    }

    /// Loads the current folder again, from a fresh listing of it. Without
    /// a current folder nothing happens.
    pub fn refresh_images(&mut self, listing: Option<&Vec<DirEntry>>) -> (generation: Option<
        Generation,
    >)
        ensures
            generation is Some <==> old(self).folder() is Some,
            final(self).folder() == old(self).folder(),
            final(self).shared_cache() == old(self).shared_cache(),
            match generation {
                Some(g) => {
                    &&& is_scan_of(texts(g.batch@), listing)
                    &&& final(self).queue() == Seq::<Seq<char>>::empty()
                    &&& final(self).flag() == Some(g.token)
                    &&& g.sink.token() == g.token
                    &&& g.cache == old(self).shared_cache()
                },
                None => final(self).queue() == old(self).queue() && final(self).flag() == old(
                    self,
                ).flag(),
            },
    {
        match self.current_folder() {
            Some(folder) => Some(self.load_images(folder.as_str(), listing)),
            None => None,
        }
    }

    /// One image of the current folder, picked by chance from a fresh
    /// listing of it. There is none without a current folder, where the
    /// folder could not be read, and where it holds no image.
    pub fn random_wallpaper(&self, listing: Option<&Vec<DirEntry>>) -> (picked: Option<String>)
        ensures
            picked is Some <==> self.folder() is Some && listed(listing).len() > 0,
            picked matches Some(path) ==> listed(listing).contains(path@),
    {
        if self.current_folder.is_none() {
            return None;
        }
        let images = scan_listing(listing);
        proof {
            to_multiset_len(texts(images@));
            to_multiset_len(listed(listing));
        }
        match choose_path(&images) {
            Some(path) => {
                proof {
                    let i = choose|i: int| 0 <= i < images@.len() && images@[i] == *path;
                    assert(texts(images@)[i] == path@);
                    to_multiset_contains(texts(images@), path@);
                    to_multiset_contains(listed(listing), path@);
                }
                Some(path.clone())
            },
            None => None,
        }
    }
}

} // verus!
