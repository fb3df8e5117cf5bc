//! The detection cache: what a cached detection is keyed by and when a cached
//! detection may be used.
use vstd::prelude::*;
use crate::detect::BiomeSetup;
use crate::paths::{join, join_path};

verus! {

/// Bumped on any change to the shape of a cached detection (the start directory
/// left the key in version 2).
pub const SCHEMA_VERSION: u32 = 2;

/// Modification time and size of a file; an edit changes one of them.
#[derive(Clone, Copy, Debug, PartialEq, Eq, Structural)]
pub struct FileStamp {
    pub mtime_unix_nanos: i128,
    pub size: u64,
}

/// What a cached detection was computed from: the Biome config and the lockfile, each
/// with its stamp. Where the walk started is not part of it, since the detection does
/// not depend on it.
pub struct CacheKey {
    pub biome_config_path: String,
    pub biome_config_stamp: FileStamp,
    pub lockfile_path: Option<String>,
    pub lockfile_stamp: Option<FileStamp>,
}

pub struct CachedDetection {
    pub schema_version: u32,
    pub key: CacheKey,
    pub biome: BiomeSetup,
}

/// The key for a detection from the config at `config_path` and, if there is one, the
/// lockfile, each with the stamp it had.
pub fn cache_key(config_path: String, config_stamp: FileStamp, lockfile: Option<(String, FileStamp)>) -> (k: CacheKey)
    ensures
        k.biome_config_path == config_path,
        k.biome_config_stamp == config_stamp,
        k.lockfile_path == (match lockfile {
            Some((p, _)) => Some(p),
            None => None::<String>,
        }),
        k.lockfile_stamp == (match lockfile {
            Some((_, s)) => Some(s),
            None => None::<FileStamp>,
        }),
{
    let (lockfile_path, lockfile_stamp) = match lockfile {
        Some((p, s)) => (Some(p), Some(s)),
        None => (None, None),
    };
    CacheKey { biome_config_path: config_path, biome_config_stamp: config_stamp, lockfile_path, lockfile_stamp }
}

/// Two keys are equal: the same paths (as text) with the same stamps.
pub open spec fn key_eq(a: CacheKey, b: CacheKey) -> bool {
    &&& a.biome_config_path@ == b.biome_config_path@
    &&& a.biome_config_stamp == b.biome_config_stamp
    &&& opt_text(a.lockfile_path) == opt_text(b.lockfile_path)
    &&& a.lockfile_stamp == b.lockfile_stamp
}

pub open spec fn opt_text(o: Option<String>) -> Option<Seq<char>> {
    match o {
        Some(s) => Some(s@),
        None => None,
    }
}

fn same_opt_text(a: &Option<String>, b: &Option<String>) -> (r: bool)
    ensures
        r == (opt_text(*a) == opt_text(*b)),
{
    match (a, b) {
        (Some(x), Some(y)) => *x == *y,
        (None, None) => true,
        _ => false,
    }
}

fn same_opt_stamp(a: &Option<FileStamp>, b: &Option<FileStamp>) -> (r: bool)
    ensures
        r == (*a == *b),
{
    match (a, b) {
        (Some(x), Some(y)) => *x == *y,
        (None, None) => true,
        _ => false,
    }
}

/// Whether two keys are equal.
pub fn same_key(a: &CacheKey, b: &CacheKey) -> (r: bool)
    ensures
        r == key_eq(*a, *b),
{
    a.biome_config_path == b.biome_config_path && a.biome_config_stamp == b.biome_config_stamp
        && same_opt_text(&a.lockfile_path, &b.lockfile_path) && same_opt_stamp(
        &a.lockfile_stamp,
        &b.lockfile_stamp,
    )
}

fn copy_opt_text(o: &Option<String>) -> (r: Option<String>)
    ensures
        r == *o,
{
    match o {
        Some(s) => Some(s.clone()),
        None => None,
    }
}

/// A copy of a key.
pub fn copy_key(k: &CacheKey) -> (r: CacheKey)
    ensures
        r == *k,
{
    CacheKey {
        biome_config_path: k.biome_config_path.clone(),
        biome_config_stamp: k.biome_config_stamp,
        lockfile_path: copy_opt_text(&k.lockfile_path),
        lockfile_stamp: k.lockfile_stamp,
    }
}

/// A copy of a Biome setup.
pub fn copy_setup(b: &BiomeSetup) -> (r: BiomeSetup)
    ensures
        r == *b,
{
    BiomeSetup { config_path: b.config_path.clone(), binary_path: b.binary_path.clone(), version: b.version.clone() }
}

/// A copy of a cached detection.
pub fn copy_detection(d: &CachedDetection) -> (r: CachedDetection)
    ensures
        r == *d,
{
    CachedDetection { schema_version: d.schema_version, key: copy_key(&d.key), biome: copy_setup(&d.biome) }
}

/// The index of the entry kept for the config at `path` (the last one, if several),
/// or -1 when there is none. One entry is kept per config path.
pub open spec fn entry_index(s: Seq<CachedDetection>, path: Seq<char>) -> int
    decreases s.len(),
{
    if s.len() == 0 {
        -1
    } else if s.last().key.biome_config_path@ == path {
        s.len() - 1
    } else {
        entry_index(s.drop_last(), path)
    }
}

/// What a lookup of `key` finds: the entry kept for its config, when that entry has
/// the current schema and exactly this key; a miss otherwise.
pub open spec fn spec_lookup(s: Seq<CachedDetection>, key: CacheKey) -> Option<CachedDetection> {
    let i = entry_index(s, key.biome_config_path@);
    if i >= 0 && s[i].schema_version == SCHEMA_VERSION && key_eq(s[i].key, key) {
        Some(s[i])
    } else {
        None
    }
}

/// Storing replaces the entry kept for the same config, or adds one.
pub open spec fn spec_store(s: Seq<CachedDetection>, e: CachedDetection) -> Seq<CachedDetection> {
    let i = entry_index(s, e.key.biome_config_path@);
    if i >= 0 {
        s.update(i, e)
    } else {
        s.push(e)
    }
}

pub proof fn lemma_entry_index_bounds(s: Seq<CachedDetection>, path: Seq<char>)
    ensures
        -1 <= entry_index(s, path) < s.len(),
        entry_index(s, path) >= 0 ==> s[entry_index(s, path)].key.biome_config_path@ == path,
        forall|j: int| entry_index(s, path) < j < s.len() ==> s[j].key.biome_config_path@ != path,
    decreases s.len(),
{
    if s.len() > 0 && s.last().key.biome_config_path@ != path {
        lemma_entry_index_bounds(s.drop_last(), path);
        assert forall|j: int| entry_index(s, path) < j < s.len() implies s[j].key.biome_config_path@ != path by {
            if j < s.len() - 1 {
                assert(s[j] == s.drop_last()[j]);
            }
        }
    }
}

/// Replacing the entry at the index of `path` by one for the same path keeps that index.
pub proof fn lemma_entry_index_update(s: Seq<CachedDetection>, i: int, e: CachedDetection)
    requires
        i == entry_index(s, e.key.biome_config_path@),
        i >= 0,
    ensures
        entry_index(s.update(i, e), e.key.biome_config_path@) == i,
    decreases s.len(),
{
    let p = e.key.biome_config_path@;
    lemma_entry_index_bounds(s, p);
    let t = s.update(i, e);
    if i < s.len() - 1 {
        assert(t.last() == s.last());
        assert(t.drop_last() =~= s.drop_last().update(i, e));
        lemma_entry_index_update(s.drop_last(), i, e);
    }
}

/// The cache: one stored detection per Biome config, rooted at its directory.
pub struct Cache {
    dir: String,
    entries: Vec<CachedDetection>,
}

impl View for Cache {
    type V = Seq<CachedDetection>;

    /// The stored detections.
    closed spec fn view(&self) -> Seq<CachedDetection> {
        self.entries@
    }
}

impl Cache {
    pub closed spec fn dir_path(&self) -> Seq<char> {
        self.dir@
    }

    /// An empty cache rooted at `dir`.
    pub fn open_at(dir: String) -> (c: Cache)
        ensures
            c.dir_path() == dir@,
            c@ == Seq::<CachedDetection>::empty(),
    {
        Cache { dir, entries: Vec::new() }
    }

    /// The empty cache under the user's cache directory: `<cache_home>/cc-essentials/detect`.
    pub fn open(cache_home: &str) -> (c: Cache)
        ensures
            c.dir_path() == join(cache_home@, "cc-essentials/detect"@),
            c@ == Seq::<CachedDetection>::empty(),
    {
        Cache { dir: join_path(cache_home, "cc-essentials/detect"), entries: Vec::new() }
    }

    /// The cache rooted at `dir` holding `entries` (as read back from disk).
    pub fn with_entries(dir: String, entries: Vec<CachedDetection>) -> (c: Cache)
        ensures
            c.dir_path() == dir@,
            c@ == entries@,
    {
        Cache { dir, entries }
    }

    /// The stored detections, to be written back to disk.
    pub fn entries(&self) -> (r: &Vec<CachedDetection>)
        ensures
            r@ == self@,
    {
        &self.entries
    }

    pub fn dir(&self) -> (r: &str)
        ensures
            r@ == self.dir_path(),
    {
        self.dir.as_str()
    }

    /// The stored detection for `key`: found only when the entry kept for its config
    /// has the current schema and exactly this key.
    pub fn lookup(&self, key: &CacheKey) -> (r: Result<Option<CachedDetection>, String>)
        ensures
            r == Ok::<Option<CachedDetection>, String>(spec_lookup(self@, *key)),
    {
        let n = self.entries.len();
        let mut k: usize = n;
        while k > 0
            invariant
                k <= n,
                n == self.entries@.len(),
                forall|j: int| k <= j < n ==> self.entries@[j].key.biome_config_path@ != key.biome_config_path@,
            decreases k,
        {
            let e = &self.entries[k - 1];
            if e.key.biome_config_path == key.biome_config_path {
                proof {
                    lemma_entry_index_bounds(self.entries@, key.biome_config_path@);
                    lemma_entry_at(self.entries@, key.biome_config_path@, k - 1);
                }
                if e.schema_version == SCHEMA_VERSION && same_key(&e.key, key) {
                    return Ok(Some(copy_detection(e)));
                }
                return Ok(None);
            }
            k = k - 1;
        }
        proof {
            lemma_entry_index_bounds(self.entries@, key.biome_config_path@);
        }
        Ok(None)
    }

    /// Stores `entry`, replacing the detection kept for the same config. Storing never
    /// fails.
    pub fn store(&mut self, entry: &CachedDetection) -> (r: Result<(), String>)
        ensures
            r is Ok,
            final(self)@ == spec_store(old(self)@, *entry),
            final(self).dir_path() == old(self).dir_path(),
    {
        let n = self.entries.len();
        let mut k: usize = n;
        while k > 0
            invariant
                k <= n,
                n == self.entries@.len(),
                self.entries@ == old(self).entries@,
                self.dir == old(self).dir,
                forall|j: int| k <= j < n ==> self.entries@[j].key.biome_config_path@ != entry.key.biome_config_path@,
            decreases k,
        {
            if self.entries[k - 1].key.biome_config_path == entry.key.biome_config_path {
                proof {
                    lemma_entry_index_bounds(self.entries@, entry.key.biome_config_path@);
                    lemma_entry_at(self.entries@, entry.key.biome_config_path@, k - 1);
                }
                self.entries.set(k - 1, copy_detection(entry));
                return Ok(());
            }
            k = k - 1;
        }
        proof {
            lemma_entry_index_bounds(self.entries@, entry.key.biome_config_path@);
        }
        self.entries.push(copy_detection(entry));
        Ok(())
    }
}

/// When the entry at `i` has `path` and none after it does, `i` is the index of `path`.
pub proof fn lemma_entry_at(s: Seq<CachedDetection>, path: Seq<char>, i: int)
    requires
        0 <= i < s.len(),
        s[i].key.biome_config_path@ == path,
        forall|j: int| i < j < s.len() ==> s[j].key.biome_config_path@ != path,
    ensures
        entry_index(s, path) == i,
    decreases s.len(),
{
    if i < s.len() - 1 {
        assert(s.last() == s[s.len() - 1]);
        assert forall|j: int| i < j < s.drop_last().len() implies s.drop_last()[j].key.biome_config_path@ != path by {
            assert(s.drop_last()[j] == s[j]);
        }
        lemma_entry_at(s.drop_last(), path, i);
    }
}

/// A cached detection may stand in for a fresh one when it has the current schema
/// and the binary and config it names still exist.
pub open spec fn spec_accept_cached(hit: CachedDetection, binary_exists: bool, config_exists: bool) -> bool {
    hit.schema_version == SCHEMA_VERSION && binary_exists && config_exists
}

pub fn accept_cached(hit: &CachedDetection, binary_exists: bool, config_exists: bool) -> (r: bool)
    ensures
        r == spec_accept_cached(*hit, binary_exists, config_exists),
{
    hit.schema_version == SCHEMA_VERSION && binary_exists && config_exists
}

/// The entry to store for a fresh detection.
pub fn cached_detection(key: CacheKey, biome: BiomeSetup) -> (r: CachedDetection)
    ensures
        r.schema_version == SCHEMA_VERSION,
        r.key == key,
        r.biome == biome,
{
    CachedDetection { schema_version: SCHEMA_VERSION, key, biome }
}

} // verus!
