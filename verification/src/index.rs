//! The index of the tiles that a local volume held when the service
//! started.
//!
//! The index is a Bloom filter over file paths. It never answers "absent"
//! for a path that was entered, and may answer "present" for one that was
//! not; what it holds is therefore described as the set of paths that it
//! answers "present" for.

use crate::text::chars_of;
use bloomfilter::Bloom;
use std::path::PathBuf;
use vstd::prelude::*;

verus! {

/// The Bloom filter of the `bloomfilter` crate.
#[verifier::external_type_specification]
#[verifier::external_body]
#[verifier::reject_recursive_types(T)]
pub struct ExBloom<T: ?Sized>(bloomfilter::Bloom<T>);

/// The owned file path of the standard library, the item that the filter
/// hashes.
#[verifier::external_type_specification]
#[verifier::external_body]
pub struct ExPathBuf(std::path::PathBuf);

/// The paths, as text, that `filter` answers "present" for.
pub uninterp spec fn bloom_items(filter: Bloom<PathBuf>) -> Set<Seq<char>>;

/// How many bits the bitmap of `filter` has.
pub uninterp spec fn bloom_bits(filter: Bloom<PathBuf>) -> nat;

/// The greatest bitmap, in bytes, that a filter is made with: eight times
/// as many bits must fit in 64 bits, and the bitmap with its header must
/// be a size that can be allocated.
pub open spec fn max_bitmap_size() -> int {
    if isize::MAX - 45 < 0x1fff_ffff_ffff_ffff {
        isize::MAX - 45
    } else {
        0x1fff_ffff_ffff_ffff
    }
}

/// `Bloom::new`: a filter with a bitmap of `bitmap_size` bytes, laid out
/// for `items_count` items, with hash functions seeded at random. Believed
/// of it: a filter that comes back has eight bits for each byte asked for,
/// all of them clear, so that it answers "present" for nothing. The call
/// panics where either number is zero or the bitmap is too large, so such
/// numbers are not admitted. It fails where no random seed can be had.
#[verifier::external_body]
fn bloom_new(bitmap_size: usize, items_count: usize) -> (r: Result<Bloom<PathBuf>, &'static str>)
    requires
        0 < bitmap_size <= max_bitmap_size(),
        0 < items_count,
    ensures
        r matches Ok(filter) ==> bloom_items(filter) == Set::<Seq<char>>::empty() && bloom_bits(
            filter,
        ) == 8 * bitmap_size,
{
    Bloom::new(bitmap_size, items_count)
}

/// `Bloom::set` on the path that `path` writes. Believed of it: the
/// bitmap keeps its size, bits are set and none is cleared, so the filter
/// answers "present" for `path` and for all that it answered "present" for
/// before, and possibly for more. The call divides by the number of bits,
/// so a filter without bits is not admitted.
#[verifier::external_body]
fn bloom_set(filter: &mut Bloom<PathBuf>, path: &str)
    requires
        bloom_bits(*old(filter)) > 0,
    ensures
        bloom_bits(*final(filter)) == bloom_bits(*old(filter)),
        bloom_items(*old(filter)).insert(path@).subset_of(bloom_items(*final(filter))),
{
    filter.set(&PathBuf::from(path))
}

/// `Bloom::check` on the path that `path` writes: whether the filter
/// answers "present" for it. The call divides by the number of bits, so a
/// filter without bits is not admitted.
#[verifier::external_body]
fn bloom_check(filter: &Bloom<PathBuf>, path: &str) -> (present: bool)
    requires
        bloom_bits(*filter) > 0,
    ensures
        present == bloom_items(*filter).contains(path@),
{
    filter.check(&PathBuf::from(path))
}

/// Whether `path` names a file with the extension `png`, in lower case:
/// it ends in `.png`, and the file's name does not begin there.
pub open spec fn has_png_extension(path: Seq<char>) -> bool {
    let n = path.len() as int;
    &&& n >= 5
    &&& path[n - 5] != '/'
    &&& path[n - 4] == '.'
    &&& path[n - 3] == 'p'
    &&& path[n - 2] == 'n'
    &&& path[n - 1] == 'g'
}

/// Whether `path` names a file with the extension `png`.
pub fn is_png_path(path: &str) -> (r: bool)
    ensures
        r == has_png_extension(path@),
{
    let v = chars_of(path);
    let n = v.len();
    n >= 5 && v[n - 5] != '/' && v[n - 4] == '.' && v[n - 3] == 'p' && v[n - 2] == 'n' && v[n - 1]
        == 'g'
}

/// The tiles that the volume held when the index was built.
pub struct ExistenceIndex {
    filter: Bloom<PathBuf>,
}

impl View for ExistenceIndex {
    type V = Set<Seq<char>>;

    /// The paths that the index answers "present" for.
    closed spec fn view(&self) -> Set<Seq<char>> {
        bloom_items(self.filter)
    }
}

impl ExistenceIndex {
    /// How many bits the bitmap of the index has.
    pub closed spec fn bits(&self) -> nat {
        bloom_bits(self.filter)
    }

    /// Whether the index has a bitmap to look into. Every index that this
    /// module hands out has.
    pub open spec fn wf(&self) -> bool {
        self.bits() > 0
    }

    /// The index over a filter that was asked for: none where the filter
    /// could not be made.
    fn from_outcome(outcome: Result<Bloom<PathBuf>, &'static str>) -> (r: Option<ExistenceIndex>)
        requires
            outcome matches Ok(filter) ==> bloom_bits(filter) > 0,
        ensures
            r is Some <==> outcome is Ok,
            r matches Some(index) ==> (outcome matches Ok(filter) && index@ == bloom_items(filter)
                && index.bits() == bloom_bits(filter)),
    {
        match outcome {
            Ok(filter) => Some(ExistenceIndex { filter }),
            Err(_) => None,
        }
    }

    /// An empty index with a bitmap of `bitmap_size` bytes, laid out for
    /// about `expected_items` paths. There is none where either number is
    /// zero, where the bitmap is too large to be made, or where the
    /// machine gives no random seed for the hash functions.
    pub fn new(bitmap_size: usize, expected_items: usize) -> (r: Option<ExistenceIndex>)
        ensures
            r matches Some(index) ==> index.bits() == 8 * bitmap_size && index@ == Set::<
                Seq<char>,
            >::empty(),
            bitmap_size == 0 || expected_items == 0 || bitmap_size > max_bitmap_size() ==> r
                is None,
    {
        if bitmap_size == 0 || expected_items == 0 || bitmap_size > isize::MAX as usize - 45
            || bitmap_size as u64 > 0x1fff_ffff_ffff_ffff {
            return None;
        }
        ExistenceIndex::from_outcome(bloom_new(bitmap_size, expected_items))
    }

    /// Enters `path`. From now on the index answers "present" for it, as
    /// it does for every path that it answered "present" for before.
    pub fn insert(&mut self, path: &str)
        requires
            old(self).wf(),
        ensures
            final(self).bits() == old(self).bits(),
            old(self)@.insert(path@).subset_of(final(self)@),
    {
        bloom_set(&mut self.filter, path);
    }

    /// Takes note of a file found under the volume: `path` is entered if
    /// it has the extension `png`, and passed over if not.
    pub fn record_file(&mut self, path: &str) -> (entered: bool)
        requires
            old(self).wf(),
        ensures
            final(self).bits() == old(self).bits(),
            entered == has_png_extension(path@),
            old(self)@.subset_of(final(self)@),
            entered ==> final(self)@.contains(path@),
            !entered ==> final(self)@ == old(self)@,
    {
        if is_png_path(path) {
            let ghost before = self@;
            self.insert(path);
            assert(before.insert(path@).contains(path@));
            assert forall|other: Seq<char>| before.contains(other) implies self@.contains(
                other,
            ) by {
                assert(before.insert(path@).contains(other));
            }
            true
        } else {
            false
        }
    }

    /// Whether the index answers "present" for `path`. It does for every
    /// path that was entered; it may for a path that was not.
    pub fn contains(&self, path: &str) -> (present: bool)
        requires
            self.wf(),
        ensures
            present == self@.contains(path@),
    {
        bloom_check(&self.filter, path)
    }

    /// The index of the files found under a volume: of `paths`, those
    /// with the extension `png` are entered, the others are passed over.
    /// There is no index where [`ExistenceIndex::new`] gives none.
    pub fn build(bitmap_size: usize, expected_items: usize, paths: &Vec<String>) -> (r: Option<
        ExistenceIndex,
    >)
        ensures
            r matches Some(index) ==> {
                &&& index.bits() == 8 * bitmap_size
                &&& forall|i: int|
                    0 <= i < paths.len() && has_png_extension(#[trigger] paths[i]@)
                        ==> index@.contains(paths[i]@)
                &&& (forall|i: int| 0 <= i < paths.len() ==> !has_png_extension(#[trigger] paths[i]@))
                    ==> index@ == Set::<Seq<char>>::empty()
            },
            bitmap_size == 0 || expected_items == 0 || bitmap_size > max_bitmap_size() ==> r
                is None,
    {
        match ExistenceIndex::new(bitmap_size, expected_items) {
            None => None,
            Some(mut index) => {
                index.record_files(paths);
                Some(index)
            },
        }
    }

    /// Takes note of the files found under the volume, one after the
    /// other: every path of `paths` with the extension `png` is entered,
    /// and the others are passed over, so that a list without such a path
    /// leaves the index as it was.
    pub fn record_files(&mut self, paths: &Vec<String>)
        requires
            old(self).wf(),
        ensures
            final(self).bits() == old(self).bits(),
            old(self)@.subset_of(final(self)@),
            forall|i: int|
                0 <= i < paths.len() && has_png_extension(#[trigger] paths[i]@)
                    ==> final(self)@.contains(paths[i]@),
            (forall|i: int| 0 <= i < paths.len() ==> !has_png_extension(#[trigger] paths[i]@))
                ==> final(self)@ == old(self)@,
    {
        let mut k: usize = 0;
        while k < paths.len()
            invariant
                k <= paths.len(),
                self.bits() == old(self).bits(),
                old(self).wf(),
                old(self)@.subset_of(self@),
                forall|i: int|
                    0 <= i < k && has_png_extension(#[trigger] paths[i]@) ==> self@.contains(
                        paths[i]@,
                    ),
                (forall|i: int| 0 <= i < k ==> !has_png_extension(#[trigger] paths[i]@)) ==> self@
                    == old(self)@,
            decreases paths.len() - k,
        {
            let ghost before = self@;
            self.record_file(paths[k].as_str());
            assert forall|i: int|
                0 <= i < k && has_png_extension(#[trigger] paths[i]@) implies self@.contains(
                paths[i]@,
            ) by {
                assert(before.contains(paths[i]@));
            }
            assert forall|other: Seq<char>| old(self)@.contains(other) implies self@.contains(
                other,
            ) by {
                assert(before.contains(other));
            }
            k += 1;
        }
    }
}

} // verus!
