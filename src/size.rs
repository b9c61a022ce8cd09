//! The size of a path from what a scan of it found.
use vstd::prelude::*;
use crate::error::LibraryError;

verus! {

/// What a path names on disk.
#[derive(Debug, Clone, Copy, PartialEq, Eq, Structural)]
pub enum PathKind {
    Missing,
    File,
    Directory,
    Other,
}

/// The sum of the lengths.
pub open spec fn total(lengths: Seq<u64>) -> int
    decreases lengths.len(),
{
    if lengths.len() == 0 {
        0
    } else {
        total(lengths.drop_last()) + lengths.last()
    }
}

/// The size of a path, from its kind and the lengths of the regular files found there
/// (the file itself, or every file of the tree, links followed): `PathNotFound` where it is
/// missing, `UnsupportedPathType` where it is neither file nor directory, else the sum,
/// held at `u64::MAX` where it would not fit.
pub fn size_from_scan(kind: PathKind, lengths: &Vec<u64>) -> (r: Result<u64, LibraryError>)
    ensures
        kind == PathKind::Missing ==> r == Err::<u64, LibraryError>(LibraryError::PathNotFound),
        kind == PathKind::Other ==> r == Err::<u64, LibraryError>(LibraryError::UnsupportedPathType),
        (kind == PathKind::File || kind == PathKind::Directory) ==> r == Ok::<u64, LibraryError>(
            if total(lengths@) <= u64::MAX { total(lengths@) as u64 } else { u64::MAX },
        ),
{
    match kind {
        PathKind::Missing => Err(LibraryError::PathNotFound),
        PathKind::Other => Err(LibraryError::UnsupportedPathType),
        _ => {
            let mut sum: u64 = 0;
            let mut i: usize = 0;
            while i < lengths.len()
                invariant
                    i <= lengths@.len(),
                    sum == (if total(lengths@.subrange(0, i as int)) <= u64::MAX {
                        total(lengths@.subrange(0, i as int))
                    } else {
                        u64::MAX as int
                    }),
                decreases lengths@.len() - i,
            {
                proof {
                    let next = lengths@.subrange(0, i + 1);
                    assert(next.drop_last() == lengths@.subrange(0, i as int));
                    lemma_total_nonneg(lengths@.subrange(0, i as int));
                }
                sum = if lengths[i] <= u64::MAX - sum { sum + lengths[i] } else { u64::MAX };
                i = i + 1;
            }
            assert(lengths@.subrange(0, lengths@.len() as int) == lengths@);
            Ok(sum)
        },
    }
}

proof fn lemma_total_nonneg(lengths: Seq<u64>)
    ensures
        total(lengths) >= 0,
    decreases lengths.len(),
{
    if lengths.len() > 0 {
        lemma_total_nonneg(lengths.drop_last());
    }
}

} // verus!
