//! What the cache directory holds, as read from disk, and which of it counts.

use vstd::prelude::*;

verus! {

/// The two kinds of blob, each in a directory of its own.
#[derive(Clone, Copy, Debug, PartialEq, Eq, Structural)]
pub enum Kind {
    Block,
    Manifest,
}

/// What the file system says of a directory entry.
#[derive(Clone, Copy, Debug)]
pub struct Metadata {
    pub is_file: bool,
    pub len: u64,
    /// Last modification, in nanoseconds since the Unix epoch; `None` where the platform has none.
    pub modified: Option<i128>,
}

/// One directory entry, in the order in which the directory lists it.
#[derive(Debug)]
pub struct DirEntry {
    pub name: String,
    /// `None` where the metadata could not be read.
    pub metadata: Option<Metadata>,
}

/// Both directories of the cache. One that cannot be read is empty.
#[derive(Debug)]
pub struct CacheListing {
    pub blocks: Vec<DirEntry>,
    pub manifests: Vec<DirEntry>,
}

/// A cached file: entry number `slot` of the directory for `kind`.
#[derive(Clone, Copy, Debug, PartialEq, Eq, Structural)]
pub struct CacheEntry {
    pub kind: Kind,
    pub slot: usize,
    /// Last modification, in nanoseconds since the Unix epoch.
    pub modified: i128,
    pub len: u64,
}

/// The name of a file that a writer is still staging ends in `.tmp`.
pub open spec fn is_staging_name(name: Seq<char>) -> bool {
    seq!['.', 't', 'm', 'p'].is_suffix_of(name)
}

/// A directory entry counts as cached if it is a file, its metadata could be read, and no writer is
/// still staging it.
pub open spec fn counts(e: DirEntry) -> bool {
    !is_staging_name(e.name@) && e.metadata is Some && e.metadata->0.is_file
}

/// A file without a modification time counts as modified at the epoch.
pub open spec fn modified_or_epoch(m: Metadata) -> i128 {
    match m.modified {
        Some(t) => t,
        None => 0,
    }
}

/// The cached file that entry `slot` of a directory stands for.
pub open spec fn entry_at(kind: Kind, dir: Seq<DirEntry>, slot: int) -> CacheEntry {
    CacheEntry {
        kind,
        slot: slot as usize,
        modified: modified_or_epoch(dir[slot].metadata->0),
        len: dir[slot].metadata->0.len,
    }
}

/// The cached files of one directory, in listing order.
pub open spec fn dir_entries(kind: Kind, dir: Seq<DirEntry>) -> Seq<CacheEntry>
    decreases dir.len(),
{
    if dir.len() == 0 {
        Seq::empty()
    } else {
        let rest = dir_entries(kind, dir.drop_last());
        if counts(dir.last()) {
            rest.push(entry_at(kind, dir, dir.len() - 1))
        } else {
            rest
        }
    }
}

/// How many bytes the given files hold together.
pub open spec fn total_len(entries: Seq<CacheEntry>) -> nat
    decreases entries.len(),
{
    if entries.len() == 0 {
        0
    } else {
        total_len(entries.drop_last()) + entries.last().len as nat
    }
}

impl CacheListing {
    /// The cached files of both directories, blocks first.
    pub open spec fn entries(self) -> Seq<CacheEntry> {
        dir_entries(Kind::Block, self.blocks@) + dir_entries(Kind::Manifest, self.manifests@)
    }

    /// The size of the cache.
    pub open spec fn bytes(self) -> nat {
        total_len(self.entries())
    }
}

/// Sizes add up over concatenation.
pub proof fn lemma_total_len_concat(a: Seq<CacheEntry>, b: Seq<CacheEntry>)
    ensures
        total_len(a + b) == total_len(a) + total_len(b),
    decreases b.len(),
{
    if b.len() == 0 {
        assert(a + b == a);
    } else {
        lemma_total_len_concat(a, b.drop_last());
        assert((a + b).drop_last() == a + b.drop_last());
    }
}

/// Whether a file name is that of a file still being staged.
pub fn is_staging(name: &str) -> (r: bool)
    ensures
        r == is_staging_name(name@),
{
    let n: usize = name.unicode_len();
    if n < 4 {
        return false;
    }
    let r = name.get_char(n - 4) == '.' && name.get_char(n - 3) == 't' && name.get_char(n - 2)
        == 'm' && name.get_char(n - 1) == 'p';
    proof {
        let tail = name@.subrange(n - 4, n as int);
        assert(tail.len() == 4);
        assert(tail[0] == name@[n - 4] && tail[1] == name@[n - 3] && tail[2] == name@[n - 2]
            && tail[3] == name@[n - 1]);
        if r {
            assert(seq!['.', 't', 'm', 'p'] =~= tail);
        }
    }
    r
}

/// Appends the cached files of one directory to `out`.
fn push_entries(out: &mut Vec<CacheEntry>, kind: Kind, dir: &Vec<DirEntry>)
    ensures
        final(out)@ == old(out)@ + dir_entries(kind, dir@),
{
    let ghost before = out@;
    assert(dir@.take(0) == Seq::<DirEntry>::empty());
    assert(out@ == before + dir_entries(kind, dir@.take(0)));
    let mut slot: usize = 0;
    while slot < dir.len()
        invariant
            slot <= dir.len(),
            out@ == before + dir_entries(kind, dir@.take(slot as int)),
        decreases dir.len() - slot,
    {
        let ghost upto = dir@.take(slot + 1);
        assert(upto.drop_last() == dir@.take(slot as int));
        assert(upto.last() == dir@[slot as int]);
        if !is_staging(dir[slot].name.as_str()) {
            if let Some(m) = dir[slot].metadata {
                if m.is_file {
                    let modified: i128 = match m.modified {
                        Some(t) => t,
                        None => 0,
                    };
                    out.push(CacheEntry { kind, slot, modified, len: m.len });
                }
            }
        }
        assert(out@ =~= before + dir_entries(kind, upto));
        slot = slot + 1;
    }
    assert(dir@.take(dir.len() as int) == dir@);
}

/// The cached files of both directories, in listing order, blocks first.
pub fn cached_entries(listing: &CacheListing) -> (r: Vec<CacheEntry>)
    ensures
        r@ == listing.entries(),
{
    let mut r: Vec<CacheEntry> = Vec::new();
    push_entries(&mut r, Kind::Block, &listing.blocks);
    push_entries(&mut r, Kind::Manifest, &listing.manifests);
    assert(r@ =~= listing.entries());
    r
}

/// The size of the given files together, or `None` if it does not fit in 64 bits.
pub fn checked_total(entries: &Vec<CacheEntry>) -> (r: Option<u64>)
    ensures
        r == (if total_len(entries@) <= u64::MAX {
            Some(total_len(entries@) as u64)
        } else {
            None
        }),
{
    let mut total: u64 = 0;
    let mut i: usize = 0;
    assert(entries@.take(0) == Seq::<CacheEntry>::empty());
    while i < entries.len()
        invariant
            i <= entries.len(),
            total == total_len(entries@.take(i as int)),
        decreases entries.len() - i,
    {
        proof {
            let upto = entries@.take(i + 1);
            assert(upto.drop_last() == entries@.take(i as int));
            assert(upto + entries@.skip(i + 1) == entries@);
            lemma_total_len_concat(upto, entries@.skip(i + 1));
        }
        match total.checked_add(entries[i].len) {
            Some(t) => {
                total = t;
            },
            None => {
                return None;
            },
        }
        i = i + 1;
    }
    assert(entries@.take(entries.len() as int) == entries@);
    Some(total)
}

/// The size of the cache, both directories together and without files still being staged.
pub fn cache_size(listing: &CacheListing) -> (r: u64)
    requires
        listing.bytes() <= u64::MAX,
    ensures
        r == listing.bytes(),
{
    match checked_total(&cached_entries(listing)) {
        Some(total) => total,
        None => 0,
    }
}

} // verus!
