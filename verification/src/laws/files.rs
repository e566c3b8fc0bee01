//! Laws of the cache directory as the file system shows it: which files are counted, what they add up
//! to, and in what order a sweep goes through them, each in terms of names and metadata.

use crate::eviction::{goes_no_later, oldest_first, sweep_target, EvictionState};
use crate::laws::sweeps::{
    law_all_files_are_due_oldest_first, law_listed_files_are_distinct,
    law_staged_files_are_left_alone, lemma_slots_increase,
};
use crate::listing::{
    counts, dir_entries, entry_at, is_staging_name, lemma_total_len_concat, total_len, CacheEntry,
    CacheListing, DirEntry, Kind,
};
use vstd::prelude::*;

verus! {

/// A file is taken to be still staged exactly if the last four characters of its name are `.tmp`.
pub proof fn law_staging_names_end_in_tmp(name: Seq<char>)
    ensures
        is_staging_name(name) <==> {
            let n = name.len() as int;
            &&& n >= 4
            &&& name[n - 4] == '.' && name[n - 3] == 't' && name[n - 2] == 'm' && name[n - 1] == 'p'
        },
{
    let n = name.len() as int;
    let tmp = seq!['.', 't', 'm', 'p'];
    if n >= 4 {
        let tail = name.subrange(n - 4, n);
        if name[n - 4] == '.' && name[n - 3] == 't' && name[n - 2] == 'm' && name[n - 1] == 'p' {
            assert(tmp =~= tail);
        }
        if is_staging_name(name) {
            assert(tmp == tail);
            assert(tail[0] == name[n - 4] && tail[1] == name[n - 3] && tail[2] == name[n - 2]
                && tail[3] == name[n - 1]);
        }
    }
}

/// A file is listed as cached exactly if its directory has an entry in that place that is a file with
/// readable metadata and not one still being staged. Its age and its length are those of the metadata,
/// and a file without a modification time is as old as the epoch. This holds of both directories alike
/// and of however many files.
pub proof fn law_listed_files_are_those_on_disk(listing: CacheListing, e: CacheEntry)
    ensures
        listing.entries().contains(e) <==> {
            let dir = match e.kind {
                Kind::Block => listing.blocks@,
                Kind::Manifest => listing.manifests@,
            };
            let name = dir[e.slot as int].name@;
            let n = name.len() as int;
            &&& e.slot < dir.len()
            &&& !(n >= 4 && name[n - 4] == '.' && name[n - 3] == 't' && name[n - 2] == 'm'
                && name[n - 1] == 'p')
            &&& dir[e.slot as int].metadata matches Some(m)
            &&& m.is_file
            &&& e.len == m.len
            &&& match m.modified {
                Some(t) => e.modified == t,
                None => e.modified == 0,
            }
        },
        listing.entries().no_duplicates(),
{
    assert(listing.blocks@.len() == listing.blocks.len());
    assert(listing.manifests@.len() == listing.manifests.len());
    let a = dir_entries(Kind::Block, listing.blocks@);
    let b = dir_entries(Kind::Manifest, listing.manifests@);
    let all = listing.entries();
    law_listed_files_are_distinct(listing);
    law_staged_files_are_left_alone(Kind::Block, listing.blocks@, e);
    law_staged_files_are_left_alone(Kind::Manifest, listing.manifests@, e);
    lemma_slots_increase(Kind::Block, listing.blocks@);
    lemma_slots_increase(Kind::Manifest, listing.manifests@);
    let dir = match e.kind {
        Kind::Block => listing.blocks@,
        Kind::Manifest => listing.manifests@,
    };
    law_staging_names_end_in_tmp(dir[e.slot as int].name@);
    if a.contains(e) {
        let i = choose|i: int| 0 <= i < a.len() && a[i] == e;
        assert(all[i] == e);
    }
    if b.contains(e) {
        let i = choose|i: int| 0 <= i < b.len() && b[i] == e;
        assert(all[a.len() + i] == e);
    }
    if all.contains(e) {
        let i = choose|i: int| 0 <= i < all.len() && all[i] == e;
        if i < a.len() {
            assert(a[i] == e);
        } else {
            assert(b[i - a.len()] == e);
        }
    }
}

/// Blocks are listed before manifests, and the files of a directory in its own order.
pub proof fn law_files_are_listed_in_directory_order(listing: CacheListing, i: int, j: int)
    requires
        0 <= i < j < listing.entries().len(),
    ensures
        ({
            let one = listing.entries()[i];
            let other = listing.entries()[j];
            ||| one.kind is Block && other.kind is Manifest
            ||| one.kind == other.kind && one.slot < other.slot
        }),
{
    assert(listing.blocks@.len() == listing.blocks.len());
    assert(listing.manifests@.len() == listing.manifests.len());
    let a = dir_entries(Kind::Block, listing.blocks@);
    let b = dir_entries(Kind::Manifest, listing.manifests@);
    lemma_slots_increase(Kind::Block, listing.blocks@);
    lemma_slots_increase(Kind::Manifest, listing.manifests@);
    let all = listing.entries();
    assert(all[i] == if i < a.len() {
        a[i]
    } else {
        b[i - a.len()]
    });
    assert(all[j] == if j < a.len() {
        a[j]
    } else {
        b[j - a.len()]
    });
}

/// The size of the cache is the sum of the lengths in the metadata of all entries of both directories
/// that are files and not still being staged.
pub proof fn law_size_is_the_sum_of_all_files(listing: CacheListing)
    ensures
        ({
            let add_file = |sum: int, e: DirEntry|
                {
                    let n = e.name@.len() as int;
                    let staged = n >= 4 && e.name@[n - 4] == '.' && e.name@[n - 3] == 't' && e.name@[n
                        - 2] == 'm' && e.name@[n - 1] == 'p';
                    if !staged && e.metadata is Some && e.metadata->0.is_file {
                        sum + e.metadata->0.len
                    } else {
                        sum
                    }
                };
            listing.bytes() == listing.blocks@.fold_left(0int, add_file)
                + listing.manifests@.fold_left(0int, add_file)
        }),
{
    let add_file = |sum: int, e: DirEntry|
        {
            let n = e.name@.len() as int;
            let staged = n >= 4 && e.name@[n - 4] == '.' && e.name@[n - 3] == 't' && e.name@[n - 2]
                == 'm' && e.name@[n - 1] == 'p';
            if !staged && e.metadata is Some && e.metadata->0.is_file {
                sum + e.metadata->0.len
            } else {
                sum
            }
        };
    assert forall|sum: int, e: DirEntry| #[trigger]
        add_file(sum, e) == sum + (if counts(e) {
            e.metadata->0.len as int
        } else {
            0
        }) by {
        law_staging_names_end_in_tmp(e.name@);
    }
    lemma_dir_sum(Kind::Block, listing.blocks@, add_file);
    lemma_dir_sum(Kind::Manifest, listing.manifests@, add_file);
    lemma_total_len_concat(
        dir_entries(Kind::Block, listing.blocks@),
        dir_entries(Kind::Manifest, listing.manifests@),
    );
}

proof fn lemma_dir_sum(kind: Kind, dir: Seq<DirEntry>, add_file: spec_fn(int, DirEntry) -> int)
    requires
        forall|sum: int, e: DirEntry| #[trigger]
            add_file(sum, e) == sum + (if counts(e) {
                e.metadata->0.len as int
            } else {
                0
            }),
    ensures
        total_len(dir_entries(kind, dir)) == dir.fold_left(0int, add_file),
    decreases dir.len(),
{
    if dir.len() > 0 {
        let rest = dir.drop_last();
        lemma_dir_sum(kind, rest, add_file);
        if counts(dir.last()) {
            let last = entry_at(kind, dir, dir.len() - 1);
            assert(dir_entries(kind, dir).drop_last() == dir_entries(kind, rest));
            assert(dir_entries(kind, dir).last() == last);
        }
    }
}

/// The files of a collection add up to the sum of their lengths, however many there are.
pub proof fn law_files_add_up(entries: Seq<CacheEntry>)
    ensures
        total_len(entries) == entries.fold_left(0int, |sum: int, e: CacheEntry| sum + e.len),
    decreases entries.len(),
{
    if entries.len() > 0 {
        law_files_add_up(entries.drop_last());
    }
}

/// One more file makes the cache larger by its length, in whichever directory it appears, unless it is
/// still being staged; a directory or an entry without metadata makes no difference.
pub proof fn law_one_more_file_adds_its_length(
    before: CacheListing,
    after: CacheListing,
    e: DirEntry,
)
    requires
        ({
            ||| after.blocks@ == before.blocks@.push(e) && after.manifests@ == before.manifests@
            ||| after.manifests@ == before.manifests@.push(e) && after.blocks@ == before.blocks@
        }),
    ensures
        ({
            let n = e.name@.len() as int;
            let staged = n >= 4 && e.name@[n - 4] == '.' && e.name@[n - 3] == 't' && e.name@[n - 2]
                == 'm' && e.name@[n - 1] == 'p';
            after.bytes() == before.bytes() + (if !staged && e.metadata is Some
                && e.metadata->0.is_file {
                e.metadata->0.len as int
            } else {
                0
            })
        }),
{
    law_staging_names_end_in_tmp(e.name@);
    lemma_total_len_concat(
        dir_entries(Kind::Block, before.blocks@),
        dir_entries(Kind::Manifest, before.manifests@),
    );
    lemma_total_len_concat(
        dir_entries(Kind::Block, after.blocks@),
        dir_entries(Kind::Manifest, after.manifests@),
    );
    lemma_dir_push(Kind::Block, before.blocks@, e);
    lemma_dir_push(Kind::Manifest, before.manifests@, e);
}

proof fn lemma_dir_push(kind: Kind, dir: Seq<DirEntry>, e: DirEntry)
    ensures
        total_len(dir_entries(kind, dir.push(e))) == total_len(dir_entries(kind, dir)) + (if counts(
            e,
        ) {
            e.metadata->0.len as int
        } else {
            0
        }),
{
    let more = dir.push(e);
    assert(more.drop_last() == dir);
    if counts(e) {
        assert(dir_entries(kind, more).drop_last() == dir_entries(kind, dir));
    }
}

/// Files go in the order of their age, whatever files they are: of two neighbours in the order or
/// further apart, the earlier one is the older, and of two equally old ones it is listed first. No
/// file is lost and none is made up.
pub proof fn law_age_decides_the_order(entries: Seq<CacheEntry>, i: int, j: int)
    requires
        0 <= i < j < entries.len(),
    ensures
        oldest_first(entries).to_multiset() == entries.to_multiset(),
        ({
            let one = oldest_first(entries)[i];
            let other = oldest_first(entries)[j];
            ||| one.modified < other.modified
            ||| one.modified == other.modified && one.kind is Block && other.kind is Manifest
            ||| one.modified == other.modified && one.kind == other.kind && one.slot <= other.slot
        }),
{
    law_all_files_are_due_oldest_first(entries);
    assert(goes_no_later(oldest_first(entries)[i], oldest_first(entries)[j]));
}

/// A sweep goes through the files by the modification times that the file system has of them: of two
/// counted files in either directory, the one modified earlier is tried before the other, and of two
/// modified at the same time the one that is listed first.
pub proof fn law_sweeps_follow_modification_times(
    listing: CacheListing,
    max_bytes: u64,
    older: CacheEntry,
    newer: CacheEntry,
)
    requires
        listing.bytes() > max_bytes,
        listing.entries().contains(older),
        listing.entries().contains(newer),
        ({
            let dir_of = |e: CacheEntry|
                match e.kind {
                    Kind::Block => listing.blocks@,
                    Kind::Manifest => listing.manifests@,
                };
            let one = dir_of(older)[older.slot as int].metadata->0.modified;
            let other = dir_of(newer)[newer.slot as int].metadata->0.modified;
            let age = match one {
                Some(t) => t,
                None => 0,
            };
            let than = match other {
                Some(t) => t,
                None => 0,
            };
            ||| age < than
            ||| age == than && older.kind is Block && newer.kind is Manifest
            ||| age == than && older.kind == newer.kind && older.slot < newer.slot
        }),
    ensures
        exists|i: int, j: int|
            0 <= i < j < EvictionState::start(listing.entries(), max_bytes).order.len() && (
            #[trigger] EvictionState::start(listing.entries(), max_bytes).order[i]) == older && (
            #[trigger] EvictionState::start(listing.entries(), max_bytes).order[j]) == newer,
{
    let entries = listing.entries();
    let order = EvictionState::start(entries, max_bytes).order;
    law_listed_files_are_those_on_disk(listing, older);
    law_listed_files_are_those_on_disk(listing, newer);
    law_all_files_are_due_oldest_first(entries);
    assert(order.contains(older) && order.contains(newer));
    let i = choose|i: int| 0 <= i < order.len() && order[i] == older;
    let j = choose|j: int| 0 <= j < order.len() && order[j] == newer;
    if j < i {
        assert(goes_no_later(order[j], order[i]));
    }
    assert(i < j);
    assert(order[i] == older && order[j] == newer);
}

/// A sweep starts with the size of the cache, with every cached file due exactly once if that is over
/// the ceiling and none if it is not, and aims for the ceiling less a tenth of it.
pub proof fn law_sweeps_start_from_what_is_there(listing: CacheListing, max_bytes: u64)
    requires
        listing.bytes() <= u64::MAX,
    ensures
        ({
            let start = EvictionState::start(listing.entries(), max_bytes);
            &&& start.tried == 0
            &&& start.total == listing.bytes()
            &&& start.target == max_bytes - max_bytes / 10
            &&& listing.bytes() <= max_bytes ==> start.order.len() == 0 && start.victim() is None
            &&& listing.bytes() > max_bytes ==> {
                &&& start.order.to_multiset() == listing.entries().to_multiset()
                &&& start.order.len() == listing.entries().len()
                &&& start.order.no_duplicates()
                &&& start.order.len() > 0 && start.victim() == Some(start.order[0])
            }
        }),
        sweep_target(max_bytes) == max_bytes - max_bytes / 10,
{
    let entries = listing.entries();
    law_all_files_are_due_oldest_first(entries);
    law_listed_files_are_distinct(listing);
    entries.lemma_multiset_has_no_duplicates();
    oldest_first(entries).lemma_multiset_has_no_duplicates_conv();
}

/// A sweep names the files one after the other while it is over its target, counts a file off only if
/// it is gone, and once it is over stays over.
pub proof fn law_sweeps_go_file_by_file(sweep: EvictionState, gone: bool)
    ensures
        sweep.victim() == (if sweep.total > sweep.target && sweep.tried < sweep.order.len() {
            Some(sweep.order[sweep.tried as int])
        } else {
            None
        }),
        sweep.victim() is None ==> sweep.attempted(gone) == sweep,
        sweep.victim() matches Some(file) ==> {
            let next = sweep.attempted(gone);
            &&& next.order == sweep.order && next.target == sweep.target
            &&& next.tried == sweep.tried + 1
            &&& !gone ==> next.total == sweep.total
            &&& gone && sweep.total >= file.len ==> next.total + file.len == sweep.total
            &&& gone && sweep.total < file.len ==> next.total == 0
        },
{
}

} // verus!
