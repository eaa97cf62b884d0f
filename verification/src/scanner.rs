//! The folder scan: which entries of a directory listing are images to show,
//! and in what order.
//!
//! Extensions are compared as written: `d.JPEG` is not taken for an image.

use vstd::prelude::*;
use vstd::seq_lib::to_multiset_insert;
use crate::text::{
    chars_of, in_order, lemma_order_total, lemma_precedes_in_order, precedes, precedes_text,
};

verus! {

/// One entry of a directory listing, as the caller read it.
#[derive(Debug, PartialEq, Eq)]
pub struct DirEntry {
    /// The entry's path.
    pub path: String,
    /// Whether the entry is a regular file.
    pub is_file: bool,
}

impl Clone for DirEntry {
    fn clone(&self) -> (copy: Self)
        ensures
            copy == *self,
    {
        DirEntry { path: self.path.clone(), is_file: self.is_file }
    }
}

/// `path` ends in a dot and `ext`, and the dot does not open the file name:
/// at least one character of the last path component stands before it.
pub open spec fn has_extension(path: Seq<char>, ext: Seq<char>) -> bool {
    &&& path.len() >= ext.len() + 2
    &&& path.skip(path.len() - ext.len()) == ext
    &&& path[path.len() - ext.len() - 1] == '.'
    &&& path[path.len() - ext.len() - 2] != '/'
}

/// The path carries one of the extensions `png`, `jpg`, `jpeg`.
pub open spec fn is_image_path(path: Seq<char>) -> bool {
    ||| has_extension(path, seq!['p', 'n', 'g'])
    ||| has_extension(path, seq!['j', 'p', 'g'])
    ||| has_extension(path, seq!['j', 'p', 'e', 'g'])
}

/// A regular file with an image extension.
pub open spec fn eligible(entry: DirEntry) -> bool {
    entry.is_file && is_image_path(entry.path@)
}

/// The paths of the eligible entries, in the order of the listing.
pub open spec fn eligible_paths(entries: Seq<DirEntry>) -> Seq<Seq<char>> {
    entries.filter(|e: DirEntry| eligible(e)).map_values(|e: DirEntry| e.path@)
}

/// The texts of a list of strings.
pub open spec fn texts(paths: Seq<String>) -> Seq<Seq<char>> {
    paths.map_values(|p: String| p@)
}

/// Each text stands before those that follow it, or equals them.
pub open spec fn sorted(paths: Seq<Seq<char>>) -> bool {
    forall|i: int, j: int| 0 <= i < j < paths.len() ==> in_order(#[trigger] paths[i], #[trigger] paths[j])
}

fn ends_with_extension(chars: &Vec<char>, ext: &Vec<char>) -> (yes: bool)
    requires
        ext@.len() <= 4,
    ensures
        yes == has_extension(chars@, ext@),
{
    let n = chars.len();
    let k = ext.len();
    if n < k + 2 {
        return false;
    }
    if chars[n - k - 1] != '.' || chars[n - k - 2] == '/' {
        return false;
    }
    let mut i: usize = 0;
    while i < k
        invariant
            k == ext@.len(),
            n == chars@.len(),
            n >= k + 2,
            i <= k,
            forall|j: int| 0 <= j < i ==> chars@[n - k + j] == ext@[j],
        decreases k - i,
    {
        if chars[n - k + i] != ext[i] {
            assert(chars@.skip(n - k)[i as int] != ext@[i as int]);
            return false;
        }
        i += 1;
    }
    assert(chars@.skip(n - k) =~= ext@);
    true
}

/// Whether `path` names an image by its extension: `png`, `jpg` or `jpeg`,
/// in lower case.
pub fn has_image_extension(path: &str) -> (yes: bool)
    ensures
        yes == is_image_path(path@),
{
    let chars = chars_of(path);
    let mut png: Vec<char> = Vec::new();
    png.push('p');
    png.push('n');
    png.push('g');
    let mut jpg: Vec<char> = Vec::new();
    jpg.push('j');
    jpg.push('p');
    jpg.push('g');
    let mut jpeg: Vec<char> = Vec::new();
    jpeg.push('j');
    jpeg.push('p');
    jpeg.push('e');
    jpeg.push('g');
    assert(png@ =~= seq!['p', 'n', 'g']);
    assert(jpg@ =~= seq!['j', 'p', 'g']);
    assert(jpeg@ =~= seq!['j', 'p', 'e', 'g']);
    ends_with_extension(&chars, &png) || ends_with_extension(&chars, &jpg) || ends_with_extension(
        &chars,
        &jpeg,
    )
}

/// Where `path` belongs in the sorted list: behind every text that does not
/// follow it, before every text that does.
fn insertion_point(paths: &Vec<String>, path: &str) -> (at: usize)
    requires
        sorted(texts(paths@)),
    ensures
        at <= paths@.len(),
        forall|k: int| 0 <= k < at ==> in_order(#[trigger] texts(paths@)[k], path@),
        forall|k: int| at <= k < paths@.len() ==> precedes(path@, #[trigger] texts(paths@)[k]),
{
    let mut low: usize = 0;
    let mut high: usize = paths.len();
    while low < high
        invariant
            low <= high <= paths@.len(),
            sorted(texts(paths@)),
            forall|k: int| 0 <= k < low ==> in_order(#[trigger] texts(paths@)[k], path@),
            forall|k: int|
                high <= k < paths@.len() ==> precedes(path@, #[trigger] texts(paths@)[k]),
        decreases high - low,
    {
        let mid = low + (high - low) / 2;
        let ghost all = texts(paths@);
        if precedes_text(path, paths[mid].as_str()) {
            proof {
                assert forall|k: int| mid <= k < paths@.len() implies precedes(
                    path@,
                    #[trigger] all[k],
                ) by {
                    if k > mid {
                        assert(in_order(all[mid as int], all[k]));
                    }
                    lemma_precedes_in_order(path@, all[mid as int], all[k]);
                }
            }
            high = mid;
        } else {
            proof {
                assert forall|k: int| 0 <= k <= mid implies in_order(#[trigger] all[k], path@) by {
                    lemma_order_total(path@, all[k]);
                    if precedes(path@, all[k]) {
                        if k < mid {
                            assert(in_order(all[k], all[mid as int]));
                        }
                        lemma_precedes_in_order(path@, all[k], all[mid as int]);
                    }
                }
            }
            low = mid + 1;
        }
    }
    low
}

/// Puts `path` into the sorted list where it belongs.
fn insert_sorted(paths: &mut Vec<String>, path: String)
    requires
        sorted(texts(old(paths)@)),
    ensures
        sorted(texts(final(paths)@)),
        texts(final(paths)@).to_multiset() == texts(old(paths)@).to_multiset().insert(path@),
{
    let at = insertion_point(paths, path.as_str());
    proof {
        let before = texts(paths@);
        let after = before.insert(at as int, path@);
        assert(texts(paths@.insert(at as int, path)) =~= after);
        to_multiset_insert(before, at as int, path@);
        assert forall|i: int, j: int| 0 <= i < j < after.len() implies in_order(
            #[trigger] after[i],
            #[trigger] after[j],
        ) by {
            if j < at {
                assert(after[i] == before[i] && after[j] == before[j]);
            } else if j == at {
                assert(after[i] == before[i]);
            } else if i == at {
                assert(after[j] == before[j - 1]);
            } else if i < at {
                assert(after[i] == before[i] && after[j] == before[j - 1]);
            } else {
                assert(after[i] == before[i - 1] && after[j] == before[j - 1]);
            }
        }
    }
    paths.insert(at, path);
}

/// The images of a directory listing: the paths of the regular files with
/// an image extension, each as often as the listing holds it, in
/// lexicographic order. An empty listing gives an empty result.
pub fn scan_folder(entries: &Vec<DirEntry>) -> (paths: Vec<String>)
    ensures
        sorted(texts(paths@)),
        texts(paths@).to_multiset() == eligible_paths(entries@).to_multiset(),
{
    let mut paths: Vec<String> = Vec::new();
    let mut i: usize = 0;
    assert(entries@.take(0) =~= Seq::<DirEntry>::empty());
    assert(texts(paths@) =~= eligible_paths(entries@.take(0)));
    while i < entries.len()
        invariant
            i <= entries@.len(),
            sorted(texts(paths@)),
            texts(paths@).to_multiset() == eligible_paths(entries@.take(i as int)).to_multiset(),
        decreases entries@.len() - i,
    {
        let entry = &entries[i];
        proof {
            let seen = entries@.take(i as int);
            let pred = |e: DirEntry| eligible(e);
            assert(entries@.take(i + 1) =~= seen.push(*entry));
            seen.lemma_filter_push(*entry, pred);
            if eligible(*entry) {
                assert(eligible_paths(seen.push(*entry)) =~= eligible_paths(seen).push(
                    entry.path@,
                ));
                vstd::seq_lib::to_multiset_build(eligible_paths(seen), entry.path@);
            }
        }
        if entry.is_file && has_image_extension(entry.path.as_str()) {
            insert_sorted(&mut paths, entry.path.clone());
        }
        i += 1;
    }
    assert(entries@.take(i as int) =~= entries@);
    paths
}

} // verus!
