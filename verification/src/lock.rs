//! Locks: recovering a poisoned one, and one per weights file.

use std::sync::PoisonError;
use vstd::prelude::*;

verus! {

/// `std::sync::PoisonError`, carried through as it came.
#[verifier::external_type_specification]
#[verifier::external_body]
#[verifier::reject_recursive_types(G)]
pub struct ExPoisonError<G>(PoisonError<G>);

/// `std::sync::PoisonError::into_inner` hands back the guard of a poisoned
/// lock. Which guard that is depends on the lock, so nothing is claimed of it.
pub assume_specification<G>[ PoisonError::<G>::into_inner ](error: PoisonError<G>) -> (r: G);

/// Takes the guard that locking gave, whether or not a thread panicked while
/// it held the lock before.
pub fn lock<G>(attempt: Result<G, PoisonError<G>>) -> (r: G)
    ensures
        match attempt {
            Ok(guard) => r == guard,
            Err(poisoned) => call_ensures(PoisonError::<G>::into_inner, (poisoned,), r),
        },
{
    match attempt {
        Ok(guard) => guard,
        Err(poisoned) => poisoned.into_inner(),
    }
}

/// Numbers the weights files that have been downloaded, so that each has a
/// lock of its own.
#[derive(Debug)]
pub struct DownloadLocks {
    filenames: Vec<String>,
}

impl View for DownloadLocks {
    type V = Seq<Seq<char>>;

    /// The file names in the order of their numbers.
    closed spec fn view(&self) -> Seq<Seq<char>> {
        Seq::new(self.filenames@.len(), |i: int| self.filenames@[i]@)
    }
}

impl DownloadLocks {
    /// No file has two numbers.
    pub open spec fn valid(self) -> bool {
        self@.no_duplicates()
    }

    /// No file is numbered yet.
    pub fn new() -> (r: DownloadLocks)
        ensures
            r.valid(),
            r@ == Seq::<Seq<char>>::empty(),
    {
        let r = DownloadLocks { filenames: Vec::new() };
        assert(r@ =~= Seq::<Seq<char>>::empty());
        r
    }
}

/// The numbered files once `filename` has a number.
pub open spec fn with_file(files: Seq<Seq<char>>, filename: Seq<char>) -> Seq<Seq<char>> {
    if files.contains(filename) {
        files
    } else {
        files.push(filename)
    }
}

/// The numbered files once each of `filenames` has a number.
pub open spec fn with_files(files: Seq<Seq<char>>, filenames: Seq<Seq<char>>) -> Seq<Seq<char>>
    decreases filenames.len(),
{
    if filenames.len() == 0 {
        files
    } else {
        with_file(with_files(files, filenames.drop_last()), filenames.last())
    }
}

/// The number of the lock for a weights file; a file that has none gets the
/// next. The fine-tuned stem selections share a file, so this goes by file
/// name rather than by model.
pub fn download_lock(locks: &mut DownloadLocks, filename: &str) -> (r: usize)
    requires
        old(locks).valid(),
    ensures
        final(locks).valid(),
        r < final(locks)@.len(),
        final(locks)@[r as int] == filename@,
        final(locks)@ == with_file(old(locks)@, filename@),
{
    let wanted = filename.to_owned();
    let known: usize = locks.filenames.len();
    for i in 0..known
        invariant
            known == locks.filenames@.len(),
            wanted@ == filename@,
            *locks == *old(locks),
            old(locks).valid(),
            forall|j: int| 0 <= j < i ==> #[trigger] locks@[j] != filename@,
    {
        if locks.filenames[i] == wanted {
            assert(locks@[i as int] == filename@);
            return i;
        }
    }
    locks.filenames.push(wanted);
    assert(locks@ =~= old(locks)@.push(filename@));
    known
}

/// Two downloads have the same lock exactly if they are of the same file.
pub proof fn one_lock_per_file(locks: DownloadLocks, a: int, b: int)
    requires
        locks.valid(),
        0 <= a < locks@.len(),
        0 <= b < locks@.len(),
    ensures
        a == b <==> locks@[a] == locks@[b],
{
}

/// A file keeps its lock for good, whatever other files are downloaded, and
/// no file ever gets a second one.
pub proof fn locks_stay(files: Seq<Seq<char>>, filenames: Seq<Seq<char>>)
    requires
        files.no_duplicates(),
    ensures
        files.is_prefix_of(with_files(files, filenames)),
        with_files(files, filenames).no_duplicates(),
    decreases filenames.len(),
{
    if filenames.len() > 0 {
        locks_stay(files, filenames.drop_last());
    }
}

/// Any two fine-tuned stem selections are downloaded under the same lock.
pub proof fn fine_tuned_selections_share_a_lock(
    locks: DownloadLocks,
    a: Seq<crate::stem::FfiStemKind>,
    b: Seq<crate::stem::FfiStemKind>,
    catalog: crate::catalog::ModelCatalog,
    lock_a: int,
    lock_b: int,
)
    requires
        locks.valid(),
        0 <= lock_a < locks@.len(),
        0 <= lock_b < locks@.len(),
        locks@[lock_a] == (crate::model::ModelView::FineTuned { stems: a }).info(catalog).filename@,
        locks@[lock_b] == (crate::model::ModelView::FineTuned { stems: b }).info(catalog).filename@,
    ensures
        lock_a == lock_b,
{
}

/// Numbering a file leaves the numbered files as they are if it is among
/// them, and puts it after all of them if it is not.
pub proof fn numbering_adds_only_the_file(files: Seq<Seq<char>>, filename: Seq<char>)
    ensures
        with_file(files, filename).contains(filename),
        files.is_prefix_of(with_file(files, filename)),
        files.contains(filename) ==> with_file(files, filename).len() == files.len(),
        !files.contains(filename) ==> with_file(files, filename).len() == files.len() + 1,
{
    if !files.contains(filename) {
        assert(files.push(filename)[files.len() as int] == filename);
    }
}

/// Any list of numbered files without repeats is valid.
pub proof fn distinct_files_are_valid(locks: DownloadLocks)
    ensures
        locks.valid() <==> forall|i: int, j: int|
            0 <= i < locks@.len() && 0 <= j < locks@.len() && i != j ==> #[trigger] locks@[i]
                != #[trigger] locks@[j],
{
}

/// A lock that was not poisoned gives the very guard that locking gave.
pub proof fn sound_locks_give_their_guard<G>(guard: G, r: G)
    requires
        call_ensures(lock::<G>, (Ok::<G, PoisonError<G>>(guard),), r),
    ensures
        r == guard,
{
}

} // verus!
