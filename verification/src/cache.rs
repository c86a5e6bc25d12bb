//! What is remembered between runs: the wallpaper that was set last, and the
//! frames that were extracted from packages. Both are plain values here; where
//! they are kept between runs is the caller's business.

use vstd::prelude::*;

verus! {

/// The path of the package that was set last, if any.
#[derive(Clone, Debug, PartialEq, Eq)]
pub struct LastWallpaper {
    pub path: Option<String>,
}

impl LastWallpaper {
    /// The pointer after `path` was saved: whatever it held before is gone.
    pub open spec fn saved(self, path: String) -> LastWallpaper {
        LastWallpaper { path: Some(path) }
    }

    /// The pointer after a clear.
    pub open spec fn cleared(self) -> LastWallpaper {
        LastWallpaper { path: None }
    }

    /// What a reader gets: the saved path, as long as it still `resolves` to a
    /// readable package.
    pub open spec fn lookup(self, resolves: bool) -> Option<String> {
        if resolves {
            self.path
        } else {
            None
        }
    }

    /// A pointer that holds nothing.
    pub fn new() -> (r: LastWallpaper)
        ensures
            r.path.is_none(),
    {
        LastWallpaper { path: None }
    }

    /// Remembers `path`, in place of whatever was remembered.
    pub fn save(&mut self, path: String)
        ensures
            *final(self) == old(self).saved(path),
    {
        self.path = Some(path);
    }

    /// The remembered path. Nothing comes back where nothing was saved, nor
    /// where the caller found that the path no longer `resolves` to a readable
    /// package: that is an absence, not an error.
    pub fn get(&self, resolves: bool) -> (r: Option<String>)
        ensures
            r == self.lookup(resolves),
    {
        if !resolves {
            return None;
        }
        match &self.path {
            Some(path) => Some(path.clone()),
            None => None,
        }
    }

    /// Forgets the remembered path; nothing happens where there is none.
    pub fn clear(&mut self)
        ensures
            *final(self) == old(self).cleared(),
    {
        self.path = None;
    }
}

/// A saved path is what every later read returns, as long as the path still
/// resolves and until the next save or clear.
pub proof fn lemma_save_then_get(pointer: LastWallpaper, path: String)
    ensures
        pointer.saved(path).lookup(true) == Some(path),
        pointer.saved(path).cleared().lookup(true).is_none(),
        pointer.cleared().cleared() == pointer.cleared(),
{
}

/// The frames that were extracted from one package.
#[derive(Clone, Debug, PartialEq, Eq)]
pub struct CacheEntry {
    /// The identity of the package: the path it was loaded from.
    pub package: String,
    /// The files that hold its extracted frames.
    pub frames: Vec<String>,
}

/// The extraction cache: one entry for each package whose frames are
/// extracted, in the order in which they were recorded.
#[derive(Clone, Debug, PartialEq, Eq)]
pub struct ExtractionCache {
    pub entries: Vec<CacheEntry>,
}

/// Some entry belongs to `package`.
pub open spec fn holds(entries: Seq<CacheEntry>, package: Seq<char>) -> bool {
    exists|i: int| 0 <= i < entries.len() && (#[trigger] entries[i]).package@ == package
}

/// No package has two entries.
pub open spec fn distinct_packages(entries: Seq<CacheEntry>) -> bool {
    forall|i: int, j: int|
        0 <= i < j < entries.len() ==> (#[trigger] entries[i]).package@ != (
        #[trigger] entries[j]).package@
}

/// The test that an entry passes when it belongs to the package to keep.
pub open spec fn is_kept(keep: Option<Seq<char>>) -> spec_fn(CacheEntry) -> bool {
    |entry: CacheEntry| keep == Some(entry.package@)
}

/// The test that an entry passes when it does not belong to the package to
/// keep.
pub open spec fn is_evicted(keep: Option<Seq<char>>) -> spec_fn(CacheEntry) -> bool {
    |entry: CacheEntry| keep != Some(entry.package@)
}

/// The entries that a clear leaves: those of the package to keep.
pub open spec fn survivors(entries: Seq<CacheEntry>, keep: Option<Seq<char>>) -> Seq<CacheEntry> {
    entries.filter(is_kept(keep))
}

/// The entries that a clear removes: all others, in their order.
pub open spec fn evictions(entries: Seq<CacheEntry>, keep: Option<Seq<char>>) -> Seq<CacheEntry> {
    entries.filter(is_evicted(keep))
}

/// The package to keep, as the spec functions take it.
pub open spec fn kept_package(keep: Option<&String>) -> Option<Seq<char>> {
    match keep {
        Some(package) => Some(package@),
        None => None,
    }
}

/// A filter reads one entry more.
proof fn lemma_filter_step(entries: Seq<CacheEntry>, test: spec_fn(CacheEntry) -> bool, i: int)
    requires
        0 <= i < entries.len(),
    ensures
        entries.take(i + 1).filter(test) == if test(entries[i]) {
            entries.take(i).filter(test).push(entries[i])
        } else {
            entries.take(i).filter(test)
        },
{
    reveal(Seq::filter);
    assert(entries.take(i + 1).drop_last() =~= entries.take(i));
    assert(entries.take(i + 1).last() == entries[i]);
}

/// What a filter lets through is an entry that passes the test.
proof fn lemma_filter_sound(entries: Seq<CacheEntry>, test: spec_fn(CacheEntry) -> bool)
    ensures
        forall|k: int|
            0 <= k < entries.filter(test).len() ==> test(#[trigger] entries.filter(test)[k])
                && entries.contains(entries.filter(test)[k]),
        entries.filter(test).len() <= entries.len(),
    decreases entries.len(),
{
    reveal(Seq::filter);
    if entries.len() > 0 {
        let head = entries.drop_last();
        lemma_filter_sound(head, test);
        assert forall|k: int| 0 <= k < entries.filter(test).len() implies test(
            #[trigger] entries.filter(test)[k],
        ) && entries.contains(entries.filter(test)[k]) by {
            if k < head.filter(test).len() {
                let entry = head.filter(test)[k];
                assert(head.contains(entry));
                let at = choose|at: int| 0 <= at < head.len() && head[at] == entry;
                assert(entries[at] == entry);
            } else {
                assert(entries[entries.len() - 1] == entries.last());
            }
        }
    }
}

/// Where no package has two entries, none has two after a filter.
proof fn lemma_filter_distinct(entries: Seq<CacheEntry>, test: spec_fn(CacheEntry) -> bool)
    requires
        distinct_packages(entries),
    ensures
        distinct_packages(entries.filter(test)),
    decreases entries.len(),
{
    reveal(Seq::filter);
    if entries.len() > 0 {
        let head = entries.drop_last();
        let last = entries.last();
        assert(distinct_packages(head)) by {
            assert forall|i: int, j: int| 0 <= i < j < head.len() implies (
            #[trigger] head[i]).package@ != (#[trigger] head[j]).package@ by {
                assert(entries[i].package@ != entries[j].package@);
            }
        }
        lemma_filter_distinct(head, test);
        lemma_filter_sound(head, test);
        let passed = head.filter(test);
        let all = entries.filter(test);
        assert forall|i: int, j: int| 0 <= i < j < all.len() implies (#[trigger] all[i]).package@
            != (#[trigger] all[j]).package@ by {
            if j < passed.len() {
                assert(passed[i].package@ != passed[j].package@);
            } else {
                assert(head.contains(passed[i]));
                let at = choose|at: int| 0 <= at < head.len() && head[at] == passed[i];
                assert(entries[at].package@ != entries[entries.len() - 1].package@);
            }
        }
    }
}

/// The two parts of a clear hold every entry between them.
proof fn lemma_parts_cover(entries: Seq<CacheEntry>, keep: Option<Seq<char>>)
    ensures
        survivors(entries, keep).len() + evictions(entries, keep).len() == entries.len(),
    decreases entries.len(),
{
    reveal(Seq::filter);
    if entries.len() > 0 {
        lemma_parts_cover(entries.drop_last(), keep);
    }
}

/// A clear with a package to keep leaves the entry of that package, where
/// there was one, and no other; a clear without one leaves nothing. What it
/// removes are the entries of all other packages.
pub proof fn lemma_clear_leaves_only_kept(entries: Seq<CacheEntry>, keep: Option<Seq<char>>)
    requires
        distinct_packages(entries),
    ensures
        keep.is_some() && holds(entries, keep.unwrap()) ==> survivors(entries, keep).len() == 1
            && survivors(entries, keep)[0].package@ == keep.unwrap() && entries.contains(
            survivors(entries, keep)[0],
        ),
        keep.is_none() || !holds(entries, keep.unwrap()) ==> survivors(entries, keep).len() == 0,
        forall|i: int|
            0 <= i < evictions(entries, keep).len() ==> Some(
                (#[trigger] evictions(entries, keep)[i]).package@,
            ) != keep && entries.contains(evictions(entries, keep)[i]),
        survivors(entries, keep).len() + evictions(entries, keep).len() == entries.len(),
{
    let kept = survivors(entries, keep);
    lemma_filter_sound(entries, is_kept(keep));
    lemma_filter_sound(entries, is_evicted(keep));
    lemma_filter_distinct(entries, is_kept(keep));
    lemma_parts_cover(entries, keep);
    if kept.len() > 1 {
        assert(is_kept(keep)(kept[0]));
        assert(is_kept(keep)(kept[1]));
        assert(kept[0].package@ != kept[1].package@);
    }
    if kept.len() > 0 {
        assert(is_kept(keep)(kept[0]));
        assert(entries.contains(kept[0]));
        let at = choose|at: int| 0 <= at < entries.len() && entries[at] == kept[0];
        assert(entries[at].package@ == keep.unwrap());
    }
    if keep.is_some() && holds(entries, keep.unwrap()) && kept.len() == 0 {
        let i = choose|i: int|
            0 <= i < entries.len() && (#[trigger] entries[i]).package@ == keep.unwrap();
        lemma_filter_complete(entries, is_kept(keep), i);
    }
    assert forall|i: int| 0 <= i < evictions(entries, keep).len() implies Some(
        (#[trigger] evictions(entries, keep)[i]).package@,
    ) != keep && entries.contains(evictions(entries, keep)[i]) by {
        assert(is_evicted(keep)(evictions(entries, keep)[i]));
    }
}

/// An entry that passes the test is let through.
proof fn lemma_filter_complete(
    entries: Seq<CacheEntry>,
    test: spec_fn(CacheEntry) -> bool,
    i: int,
)
    requires
        0 <= i < entries.len(),
        test(entries[i]),
    ensures
        entries.filter(test).len() > 0,
    decreases entries.len(),
{
    reveal(Seq::filter);
    if i < entries.len() - 1 {
        lemma_filter_complete(entries.drop_last(), test, i);
    }
}

/// Parts `entries` into those of the package to keep and the others, each
/// part in the order of `entries`.
fn part(entries: Vec<CacheEntry>, keep: Option<&String>) -> (r: (Vec<CacheEntry>, Vec<CacheEntry>))
    ensures
        r.0@ == survivors(entries@, kept_package(keep)),
        r.1@ == evictions(entries@, kept_package(keep)),
{
    let ghost all = entries@;
    let ghost package = kept_package(keep);
    let mut rest: Vec<CacheEntry> = entries;
    let mut kept: Vec<CacheEntry> = Vec::new();
    let mut gone: Vec<CacheEntry> = Vec::new();
    let ghost mut i: int = 0;
    proof {
        reveal(Seq::filter);
        assert(all.take(0).filter(is_kept(package)) =~= Seq::<CacheEntry>::empty());
        assert(all.take(0).filter(is_evicted(package)) =~= Seq::<CacheEntry>::empty());
    }
    while rest.len() > 0
        invariant
            package == kept_package(keep),
            0 <= i <= all.len(),
            rest@ == all.skip(i),
            kept@ == all.take(i).filter(is_kept(package)),
            gone@ == all.take(i).filter(is_evicted(package)),
        decreases rest@.len(),
    {
        let entry: CacheEntry = rest.remove(0);
        let stays: bool = match keep {
            Some(name) => entry.package == *name,
            None => false,
        };
        proof {
            assert(entry == all[i]);
            assert(rest@ =~= all.skip(i + 1));
            lemma_filter_step(all, is_kept(package), i);
            lemma_filter_step(all, is_evicted(package), i);
            assert(stays == is_kept(package)(entry));
            assert(!stays == is_evicted(package)(entry));
            i = i + 1;
        }
        if stays {
            kept.push(entry);
        } else {
            gone.push(entry);
        }
    }
    proof {
        assert(all.take(i) =~= all);
    }
    (kept, gone)
}

impl ExtractionCache {
    /// A cache is well formed when no package has two entries.
    pub open spec fn wf(self) -> bool {
        distinct_packages(self.entries@)
    }

    /// A cache without entries.
    pub fn new() -> (r: ExtractionCache)
        ensures
            r.entries@.len() == 0,
            r.wf(),
    {
        ExtractionCache { entries: Vec::new() }
    }

    /// Is there an entry for `package`?
    pub fn contains(&self, package: &String) -> (r: bool)
        ensures
            r == holds(self.entries@, package@),
    {
        let mut i: usize = 0;
        while i < self.entries.len()
            invariant
                i <= self.entries@.len(),
                forall|j: int| 0 <= j < i ==> (#[trigger] self.entries@[j]).package@ != package@,
            decreases self.entries@.len() - i,
        {
            if self.entries[i].package == *package {
                return true;
            }
            i += 1;
        }
        false
    }

    /// Records the frames extracted from `package`, in place of an earlier
    /// entry for it. The other entries stay, in their order; the new one comes
    /// last.
    pub fn record(&mut self, package: String, frames: Vec<String>)
        ensures
            final(self).entries@ == evictions(old(self).entries@, Some(package@)).push(
                (CacheEntry { package, frames }),
            ),
            old(self).wf() ==> final(self).wf(),
            holds(final(self).entries@, package@),
    {
        let ghost before = self.entries@;
        let mut entries: Vec<CacheEntry> = Vec::new();
        std::mem::swap(&mut self.entries, &mut entries);
        let (_, mut others) = part(entries, Some(&package));
        proof {
            lemma_filter_sound(before, is_evicted(Some(package@)));
            if distinct_packages(before) {
                lemma_filter_distinct(before, is_evicted(Some(package@)));
            }
        }
        let ghost rest = others@;
        others.push(CacheEntry { package, frames });
        proof {
            assert(others@[rest.len() as int].package@ == package@);
            assert forall|i: int| 0 <= i < rest.len() implies others@[i].package@ != package@ by {
                assert(others@[i] == rest[i]);
                assert(is_evicted(Some(package@))(rest[i]));
            }
        }
        self.entries = others;
    }

    /// Removes every entry but that of the package to `keep`, where one is
    /// given and has an entry. Returns what was removed, so that the caller
    /// can delete the files.
    pub fn clear(&mut self, keep: Option<&String>) -> (evicted: Vec<CacheEntry>)
        ensures
            final(self).entries@ == survivors(old(self).entries@, kept_package(keep)),
            evicted@ == evictions(old(self).entries@, kept_package(keep)),
            old(self).wf() ==> final(self).wf(),
    {
        proof {
            if distinct_packages(self.entries@) {
                lemma_filter_distinct(self.entries@, is_kept(kept_package(keep)));
            }
        }
        let mut entries: Vec<CacheEntry> = Vec::new();
        std::mem::swap(&mut self.entries, &mut entries);
        let (kept, gone) = part(entries, keep);
        self.entries = kept;
        gone
    }

    /// Removes every entry. Returns what was removed.
    pub fn clear_all(&mut self) -> (evicted: Vec<CacheEntry>)
        ensures
            final(self).entries@.len() == 0,
            evicted@ == old(self).entries@,
    {
        let mut entries: Vec<CacheEntry> = Vec::new();
        std::mem::swap(&mut self.entries, &mut entries);
        entries
    }
}

} // verus!
