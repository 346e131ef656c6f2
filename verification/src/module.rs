//! A module loaded into the process: where its image lies, how offsets
//! into it turn into addresses, and the scans made over it.
//!
//! The module does not read memory. Whoever calls it passes the image's
//! bytes as they stand in memory, `live`. Once a backup has been taken the
//! backup is scanned and `live` is not looked at, so that patches written
//! into the image do not hide the code that signatures were made for.

use vstd::prelude::*;
use vstd::slice::slice_to_vec;
use vstd::string::StringSliceAdditionalSpecFns;

use crate::cache::{lookup, remembered, CacheKey, KeyView, ScanCache};
use crate::scanner::{
    locate, locate_after, locate_callsite, spec_locate, spec_locate_after, spec_locate_callsite,
    ScanError,
};

verus! {

/// A loaded module.
#[derive(Debug)]
pub struct Module {
    handle: usize,
    path: Option<String>,
    base: usize,
    entry_point: usize,
    image_size: u32,
    image_backup: Option<Vec<u8>>,
    cache: ScanCache,
    scans: u64,
}

/// The address that lies `offset` bytes behind `base`.
pub open spec fn rel_to_abs(base: usize, offset: int) -> int {
    base + offset
}

/// How many bytes behind `base` the address `p` lies; negative where it
/// lies before it.
pub open spec fn abs_to_rel(base: usize, p: int) -> int {
    p - base
}

/// A count one higher, unless it is at its limit.
pub open spec fn bumped(count: u64) -> u64 {
    if count < u64::MAX {
        (count + 1) as u64
    } else {
        count
    }
}

/// Whether a search of the image stands behind a scan's answer: not where
/// the pattern or the anchor was refused before a byte was read.
pub open spec fn searched(fresh: Result<usize, ScanError>) -> bool {
    match fresh {
        Ok(_) => true,
        Err(e) => e != ScanError::InvalidPattern && e != ScanError::PatternTooLong && e
            != ScanError::AnchorOutOfBounds,
    }
}

/// The answer to a scan under `key`, where a search of the image would
/// give `fresh`: the remembered offset if there is one, else the fresh one,
/// as an address.
pub open spec fn answer(
    base: usize,
    cache: Map<KeyView, usize>,
    key: KeyView,
    fresh: Result<usize, ScanError>,
) -> Result<usize, ScanError> {
    match lookup(cache, key) {
        Some(offset) => Ok((base + offset) as usize),
        None => match fresh {
            Ok(offset) => Ok((base + offset) as usize),
            Err(e) => Err(e),
        },
    }
}

/// What is remembered after a scan under `key`: a fresh offset is added,
/// unless the key held one already.
pub open spec fn cache_after(cache: Map<KeyView, usize>, key: KeyView, fresh: Result<usize, ScanError>) -> Map<
    KeyView,
    usize,
> {
    match fresh {
        Ok(offset) => remembered(cache, key, offset),
        Err(_) => cache,
    }
}

/// How many searches have been made after a scan under `key`: one more
/// where nothing was remembered and the image was searched.
pub open spec fn scans_after(
    cache: Map<KeyView, usize>,
    scans: u64,
    key: KeyView,
    fresh: Result<usize, ScanError>,
) -> u64 {
    if !cache.contains_key(key) && searched(fresh) {
        bumped(scans)
    } else {
        scans
    }
}

/// One scan as a module sees it: the key it is remembered under and what
/// a search of the image would give for it.
pub struct ScanRequest {
    pub key: KeyView,
    pub fresh: Result<usize, ScanError>,
}

/// What a module remembers once the first `n` of a run of scans have been
/// made, one after the other.
pub open spec fn cache_through(requests: Seq<ScanRequest>, n: int, cache: Map<KeyView, usize>) -> Map<
    KeyView,
    usize,
>
    decreases n,
{
    if n <= 0 {
        cache
    } else {
        cache_after(cache_through(requests, n - 1, cache), requests[n - 1].key, requests[n - 1].fresh)
    }
}

/// How many searches a module has made once the first `n` of a run of
/// scans have been made.
pub open spec fn scans_through(
    requests: Seq<ScanRequest>,
    n: int,
    cache: Map<KeyView, usize>,
    scans: u64,
) -> u64
    decreases n,
{
    if n <= 0 {
        scans
    } else {
        scans_after(
            cache_through(requests, n - 1, cache),
            scans_through(requests, n - 1, cache, scans),
            requests[n - 1].key,
            requests[n - 1].fresh,
        )
    }
}

/// The answer to scan `i` of a run of scans.
pub open spec fn address_of(
    requests: Seq<ScanRequest>,
    i: int,
    base: usize,
    cache: Map<KeyView, usize>,
) -> Result<usize, ScanError> {
    answer(base, cache_through(requests, i, cache), requests[i].key, requests[i].fresh)
}

impl Module {
    /// The operating system's handle of the module.
    pub closed spec fn spec_handle(&self) -> usize {
        self.handle
    }

    /// The file the module was loaded from, where known.
    pub closed spec fn spec_path(&self) -> Option<Seq<char>> {
        match self.path {
            Some(p) => Some(p@),
            None => None,
        }
    }

    /// The address the image is mapped at.
    pub closed spec fn spec_base(&self) -> usize {
        self.base
    }

    /// The address of the module's entry point.
    pub closed spec fn spec_entry_point(&self) -> usize {
        self.entry_point
    }

    /// The length of the image in bytes.
    pub closed spec fn spec_image_size(&self) -> u32 {
        self.image_size
    }

    /// The backup of the image, once one has been taken.
    pub closed spec fn backup(&self) -> Option<Seq<u8>> {
        match self.image_backup {
            Some(b) => Some(b@),
            None => None,
        }
    }

    /// The scans remembered: from key to offset into the image.
    pub closed spec fn cache(&self) -> Map<KeyView, usize> {
        self.cache@
    }

    /// How many times the image's bytes have been searched.
    pub closed spec fn scans(&self) -> u64 {
        self.scans
    }

    /// The image lies inside the address space, a backup has the image's
    /// length, and every remembered offset lies inside the image.
    pub open spec fn wf(&self) -> bool {
        &&& self.spec_base() + self.spec_image_size() <= usize::MAX
        &&& self.backup() matches Some(b) ==> b.len() == self.spec_image_size()
        &&& forall|k: KeyView|
            (#[trigger] self.cache().contains_key(k)) ==> self.cache()[k] < self.spec_image_size()
    }

    /// The bytes that scans read: the backup where there is one, else the
    /// image as it stands in memory.
    pub open spec fn image(&self, live: Seq<u8>) -> Seq<u8> {
        match self.backup() {
            Some(b) => b,
            None => live,
        }
    }

    /// Whether two modules are the same but for what they remember.
    pub open spec fn same_image(&self, other: &Module) -> bool {
        &&& self.spec_handle() == other.spec_handle()
        &&& self.spec_path() == other.spec_path()
        &&& self.spec_base() == other.spec_base()
        &&& self.spec_entry_point() == other.spec_entry_point()
        &&& self.spec_image_size() == other.spec_image_size()
        &&& self.backup() == other.backup()
    }

    /// The offset of an address into the image, for an anchor that lies in
    /// it or at its end.
    pub open spec fn anchor_offset(&self, anchor: usize) -> Option<usize> {
        let from = abs_to_rel(self.spec_base(), anchor as int);
        if 0 <= from <= self.spec_image_size() {
            Some(from as usize)
        } else {
            None
        }
    }

    /// Describes a module that the operating system reported with these
    /// values. Nothing is remembered and no backup is held.
    pub fn from_handle(
        handle: usize,
        path: Option<String>,
        base: usize,
        entry_point: usize,
        image_size: u32,
    ) -> (module: Module)
        requires
            base + image_size <= usize::MAX,
        ensures
            module.wf(),
            module.spec_handle() == handle,
            module.spec_path() == match path {
                Some(p) => Some(p@),
                None => None,
            },
            module.spec_base() == base,
            module.spec_entry_point() == entry_point,
            module.spec_image_size() == image_size,
            module.backup() is None,
            module.cache() == Map::<KeyView, usize>::empty(),
            module.scans() == 0,
    {
        Module {
            handle,
            path,
            base,
            entry_point,
            image_size,
            image_backup: None,
            cache: ScanCache::new(),
            scans: 0,
        }
    }

    /// The operating system's handle of the module.
    pub fn handle(&self) -> (handle: usize)
        ensures
            handle == self.spec_handle(),
    {
        self.handle
    }

    /// The file the module was loaded from, where known.
    pub fn path(&self) -> (path: Option<&String>)
        ensures
            match path {
                Some(p) => self.spec_path() == Some(p@),
                None => self.spec_path() is None,
            },
    {
        self.path.as_ref()
    }

    /// The address the image is mapped at.
    pub fn base(&self) -> (base: usize)
        ensures
            base == self.spec_base(),
    {
        self.base
    }

    /// The address of the module's entry point.
    pub fn entry_point(&self) -> (entry: usize)
        ensures
            entry == self.spec_entry_point(),
    {
        self.entry_point
    }

    /// The length of the image in bytes.
    pub fn image_size(&self) -> (size: u32)
        ensures
            size == self.spec_image_size(),
    {
        self.image_size
    }

    /// Whether a backup of the image is held.
    pub fn has_backup(&self) -> (held: bool)
        ensures
            held == self.backup() is Some,
    {
        self.image_backup.is_some()
    }

    /// How many times the image's bytes have been searched.
    pub fn scan_count(&self) -> (count: u64)
        ensures
            count == self.scans(),
    {
        self.scans
    }

    /// Takes a backup of the image as it stands in memory. A backup that
    /// is held is kept: the first one taken serves every later scan.
    pub fn backup_image(&mut self, live: &[u8])
        requires
            old(self).wf(),
            live@.len() == old(self).spec_image_size(),
        ensures
            final(self).wf(),
            final(self).backup() == Some(old(self).image(live@)),
            final(self).spec_handle() == old(self).spec_handle(),
            final(self).spec_path() == old(self).spec_path(),
            final(self).spec_base() == old(self).spec_base(),
            final(self).spec_entry_point() == old(self).spec_entry_point(),
            final(self).spec_image_size() == old(self).spec_image_size(),
            final(self).cache() == old(self).cache(),
            final(self).scans() == old(self).scans(),
    {
        if self.image_backup.is_none() {
            self.image_backup = Some(slice_to_vec(live));
        }
        assert(self.cache() == old(self).cache());
    }

    /// The bytes that scans read: the backup where there is one, else
    /// `live`.
    pub fn as_bytes<'a>(&'a self, live: &'a [u8]) -> (bytes: &'a [u8])
        ensures
            bytes@ == self.image(live@),
    {
        match &self.image_backup {
            Some(backup) => backup.as_slice(),
            None => live,
        }
    }

    /// The offset of the address `p` from the image's base; negative for
    /// an address before it.
    pub fn abs_to_rel_addr(&self, p: usize) -> (offset: isize)
        requires
            isize::MIN <= abs_to_rel(self.spec_base(), p as int) <= isize::MAX,
        ensures
            offset == abs_to_rel(self.spec_base(), p as int),
    {
        if p >= self.base {
            (p - self.base) as isize
        } else {
            let below: usize = self.base - p;
            if below - 1 <= isize::MAX as usize {
                -1 - ((below - 1) as isize)
            } else {
                assert(false);
                0
            }
        }
    }

    /// The address `offset` bytes behind the image's base.
    pub fn rel_to_abs_addr(&self, offset: usize) -> (p: usize)
        requires
            rel_to_abs(self.spec_base(), offset as int) <= usize::MAX,
        ensures
            p == rel_to_abs(self.spec_base(), offset as int),
    {
        self.base + offset
    }

    /// The address `offset` bytes behind the image's base, or before it
    /// for a negative offset.
    pub fn rel_to_abs_addr_isize(&self, offset: isize) -> (p: usize)
        requires
            0 <= rel_to_abs(self.spec_base(), offset as int) <= usize::MAX,
        ensures
            p == rel_to_abs(self.spec_base(), offset as int),
    {
        if offset >= 0 {
            self.base + offset as usize
        } else {
            let back: usize = (-1 - offset) as usize;
            self.base - back - 1
        }
    }

    /// The address at which `pattern` first matches in the image.
    ///
    /// A scan that was made before gives the address it gave then, without
    /// reading a byte. Otherwise the pattern is checked, the image is
    /// searched, and an address found is remembered.
    pub fn scan(&mut self, live: &[u8], pattern: &str) -> (address: Result<usize, ScanError>)
        requires
            old(self).wf(),
            live@.len() == old(self).spec_image_size(),
        ensures
            final(self).wf(),
            final(self).same_image(old(self)),
            ({
                let key = KeyView::Regular(pattern@);
                let fresh = spec_locate(old(self).image(live@), pattern.spec_bytes());
                &&& address == answer(old(self).spec_base(), old(self).cache(), key, fresh)
                &&& final(self).cache() == cache_after(old(self).cache(), key, fresh)
                &&& final(self).scans() == scans_after(old(self).cache(), old(self).scans(), key, fresh)
            }),
    {
        let key = CacheKey::Regular(pattern.to_owned());
        if let Some(offset) = self.cache.get(&key) {
            return Ok(self.base + offset);
        }
        let found = locate(self.as_bytes(live), pattern);
        self.settle(key, found)
    }

    /// The address that the call behind the first match of `pattern`
    /// leads to.
    ///
    /// The five bytes that follow the match are taken for a near call or
    /// jump; its target is the address of the match plus five plus the
    /// displacement. A target outside the image is an error. Remembered
    /// like `scan`, under a key of its own.
    pub fn scan_for_relative_callsite(&mut self, live: &[u8], pattern: &str) -> (address: Result<
        usize,
        ScanError,
    >)
        requires
            old(self).wf(),
            live@.len() == old(self).spec_image_size(),
        ensures
            final(self).wf(),
            final(self).same_image(old(self)),
            ({
                let key = KeyView::RelativeCallsite(pattern@);
                let fresh = spec_locate_callsite(old(self).image(live@), pattern.spec_bytes());
                &&& address == answer(old(self).spec_base(), old(self).cache(), key, fresh)
                &&& final(self).cache() == cache_after(old(self).cache(), key, fresh)
                &&& final(self).scans() == scans_after(old(self).cache(), old(self).scans(), key, fresh)
            }),
    {
        let key = CacheKey::RelativeCallsite(pattern.to_owned());
        if let Some(offset) = self.cache.get(&key) {
            return Ok(self.base + offset);
        }
        let found = locate_callsite(self.as_bytes(live), pattern);
        self.settle(key, found)
    }

    /// The address at which `pattern` first matches at or behind the
    /// address `anchor`.
    ///
    /// An anchor before the image or behind its end is an error, and
    /// nothing is looked up or searched for it. Matches that start before
    /// the anchor do not count. Remembered like `scan`, under a key that
    /// holds the anchor as an offset.
    pub fn scan_after_ptr(&mut self, live: &[u8], anchor: usize, pattern: &str) -> (address: Result<
        usize,
        ScanError,
    >)
        requires
            old(self).wf(),
            live@.len() == old(self).spec_image_size(),
        ensures
            final(self).wf(),
            final(self).same_image(old(self)),
            match old(self).anchor_offset(anchor) {
                None => {
                    &&& address == Err::<usize, ScanError>(ScanError::AnchorOutOfBounds)
                    &&& final(self).cache() == old(self).cache()
                    &&& final(self).scans() == old(self).scans()
                },
                Some(from) => {
                    let key = KeyView::AfterPtr(pattern@, from);
                    let fresh = spec_locate_after(
                        old(self).image(live@),
                        from as int,
                        pattern.spec_bytes(),
                    );
                    &&& address == answer(old(self).spec_base(), old(self).cache(), key, fresh)
                    &&& final(self).cache() == cache_after(old(self).cache(), key, fresh)
                    &&& final(self).scans() == scans_after(old(self).cache(), old(self).scans(), key, fresh)
                },
            },
    {
        if anchor < self.base || anchor - self.base > self.image_size as usize {
            return Err(ScanError::AnchorOutOfBounds);
        }
        let from: usize = anchor - self.base;
        let key = CacheKey::AfterPtr(pattern.to_owned(), from);
        if let Some(offset) = self.cache.get(&key) {
            return Ok(self.base + offset);
        }
        let found = locate_after(self.as_bytes(live), from, pattern);
        self.settle(key, found)
    }

    /// Books what a search of the image gave: counts it, remembers an
    /// offset found, and turns it into an address.
    fn settle(&mut self, key: CacheKey, fresh: Result<usize, ScanError>) -> (address: Result<
        usize,
        ScanError,
    >)
        requires
            old(self).wf(),
            !old(self).cache().contains_key(key@),
            fresh matches Ok(offset) ==> offset < old(self).spec_image_size(),
        ensures
            final(self).wf(),
            final(self).same_image(old(self)),
            address == answer(old(self).spec_base(), old(self).cache(), key@, fresh),
            final(self).cache() == cache_after(old(self).cache(), key@, fresh),
            final(self).scans() == scans_after(old(self).cache(), old(self).scans(), key@, fresh),
    {
        let counted: bool = match fresh {
            Err(ScanError::InvalidPattern) => false,
            Err(ScanError::PatternTooLong) => false,
            Err(ScanError::AnchorOutOfBounds) => false,
            _ => true,
        };
        if counted && self.scans < u64::MAX {
            self.scans = self.scans + 1;
        }
        match fresh {
            Ok(offset) => {
                self.cache.remember(key, offset);
                Ok(self.base + offset)
            },
            Err(e) => Err(e),
        }
    }
}

/// Turning an offset into an address and back gives the offset again, for
/// every offset inside the image.
pub proof fn lemma_address_round_trip(module: &Module, offset: usize)
    requires
        module.wf(),
        offset < module.spec_image_size(),
    ensures
        0 <= rel_to_abs(module.spec_base(), offset as int) <= usize::MAX,
        abs_to_rel(module.spec_base(), rel_to_abs(module.spec_base(), offset as int)) == offset,
{
}

/// Turning an address inside the image into an offset and back gives the
/// address again.
pub proof fn lemma_offset_round_trip(module: &Module, p: usize)
    requires
        module.wf(),
        module.spec_base() <= p < module.spec_base() + module.spec_image_size(),
    ensures
        0 <= abs_to_rel(module.spec_base(), p as int) < module.spec_image_size(),
        rel_to_abs(module.spec_base(), abs_to_rel(module.spec_base(), p as int)) == p,
{
}

/// A scan that gave an address is answered from memory from then on: the
/// next scan under the same key gives the same address, searches nothing
/// and remembers nothing new, whatever a search would find by then.
pub proof fn lemma_scan_is_remembered(
    base: usize,
    cache: Map<KeyView, usize>,
    scans: u64,
    key: KeyView,
    fresh: Result<usize, ScanError>,
    later: Result<usize, ScanError>,
)
    requires
        answer(base, cache, key, fresh) is Ok,
    ensures
        ({
            let kept = cache_after(cache, key, fresh);
            &&& answer(base, kept, key, later) == answer(base, cache, key, fresh)
            &&& cache_after(kept, key, later) == kept
            &&& scans_after(kept, scans, key, later) == scans
        }),
{
}

/// What is remembered is never replaced: after a scan, every key that was
/// remembered before still has its offset.
pub proof fn lemma_memory_is_kept(
    cache: Map<KeyView, usize>,
    key: KeyView,
    fresh: Result<usize, ScanError>,
    other: KeyView,
)
    requires
        cache.contains_key(other),
    ensures
        cache_after(cache, key, fresh).contains_key(other),
        cache_after(cache, key, fresh)[other] == cache[other],
{
}

} // verus!
