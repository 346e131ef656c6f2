//! Memory of what scans have found, so that a signature is searched for
//! once per module.
//!
//! An entry, once made, stays: a later scan for the same key gets the same
//! offset back whatever has happened to the image since.

use vstd::prelude::*;

verus! {

/// What a scan is remembered under: its kind, the signature's text and,
/// for an anchored scan, the anchor as an offset into the image.
#[derive(Debug)]
pub enum CacheKey {
    Regular(String),
    RelativeCallsite(String),
    AfterPtr(String, usize),
}

/// A key as a plain value. Two keys are the same key when their kind and
/// text agree and, for anchored scans, their anchors do.
pub enum KeyView {
    Regular(Seq<char>),
    RelativeCallsite(Seq<char>),
    AfterPtr(Seq<char>, usize),
}

impl View for CacheKey {
    type V = KeyView;

    open spec fn view(&self) -> KeyView {
        match self {
            CacheKey::Regular(text) => KeyView::Regular(text@),
            CacheKey::RelativeCallsite(text) => KeyView::RelativeCallsite(text@),
            CacheKey::AfterPtr(text, anchor) => KeyView::AfterPtr(text@, *anchor),
        }
    }
}

impl CacheKey {
    /// Whether two keys are the same key.
    pub fn same(&self, other: &CacheKey) -> (yes: bool)
        ensures
            yes == (self@ == other@),
    {
        match (self, other) {
            (CacheKey::Regular(a), CacheKey::Regular(b)) => *a == *b,
            (CacheKey::RelativeCallsite(a), CacheKey::RelativeCallsite(b)) => *a == *b,
            (CacheKey::AfterPtr(a, x), CacheKey::AfterPtr(b, y)) => *x == *y && *a == *b,
            _ => false,
        }
    }
}

/// One remembered scan.
#[derive(Debug)]
pub struct CacheEntry {
    pub key: CacheKey,
    pub offset: usize,
}

/// The scans remembered for one module: a map from keys to offsets into
/// the module's image.
#[derive(Debug)]
pub struct ScanCache {
    entries: Vec<CacheEntry>,
}

/// The map that a list of entries stands for, a later entry for a key
/// taking the place of an earlier one.
pub open spec fn map_of(entries: Seq<CacheEntry>) -> Map<KeyView, usize>
    decreases entries.len(),
{
    if entries.len() == 0 {
        Map::empty()
    } else {
        map_of(entries.drop_last()).insert(entries.last().key@, entries.last().offset)
    }
}

/// What a map holds for a key.
pub open spec fn lookup(map: Map<KeyView, usize>, key: KeyView) -> Option<usize> {
    if map.contains_key(key) {
        Some(map[key])
    } else {
        None
    }
}

/// A map with an entry added, unless its key is taken: an entry that
/// exists is never replaced.
pub open spec fn remembered(map: Map<KeyView, usize>, key: KeyView, offset: usize) -> Map<
    KeyView,
    usize,
> {
    if map.contains_key(key) {
        map
    } else {
        map.insert(key, offset)
    }
}

impl View for ScanCache {
    type V = Map<KeyView, usize>;

    closed spec fn view(&self) -> Map<KeyView, usize> {
        map_of(self.entries@)
    }
}

impl ScanCache {
    /// A cache that remembers nothing.
    pub fn new() -> (cache: ScanCache)
        ensures
            cache@ == Map::<KeyView, usize>::empty(),
    {
        ScanCache { entries: Vec::new() }
    }

    /// The offset remembered for `key`, if there is one.
    pub fn get(&self, key: &CacheKey) -> (offset: Option<usize>)
        ensures
            offset == lookup(self@, key@),
    {
        let mut found: Option<usize> = None;
        let mut i: usize = 0;
        assert(self.entries@.take(0) =~= Seq::<CacheEntry>::empty());
        while i < self.entries.len()
            invariant
                i <= self.entries.len(),
                found == lookup(map_of(self.entries@.take(i as int)), key@),
            decreases self.entries.len() - i,
        {
            assert(self.entries@.take(i + 1).drop_last() =~= self.entries@.take(i as int));
            if self.entries[i].key.same(key) {
                found = Some(self.entries[i].offset);
            }
            i = i + 1;
        }
        assert(self.entries@.take(i as int) =~= self.entries@);
        found
    }

    /// Remembers `offset` for `key`, unless something is remembered for it
    /// already. Returns whether the entry was made.
    pub fn remember(&mut self, key: CacheKey, offset: usize) -> (added: bool)
        ensures
            final(self)@ == remembered(old(self)@, key@, offset),
            added == !old(self)@.contains_key(key@),
    {
        if self.get(&key).is_some() {
            return false;
        }
        let ghost before = self.entries@;
        self.entries.push(CacheEntry { key, offset });
        assert(self.entries@.drop_last() =~= before);
        true
    }
}

} // verus!
