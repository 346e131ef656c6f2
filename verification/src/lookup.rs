//! An address that a hook needs but does not intercept: a structure of the
//! host, found by a signature and kept for later.

use vstd::prelude::*;
use vstd::string::StringSliceAdditionalSpecFns;
use vstd::utf8::encode_utf8;

use crate::binder::{Failure, HookError};
use crate::cache::KeyView;
use crate::module::{answer, cache_after, scans_after, Module, ScanRequest};
use crate::pattern::{compile, parse, MAX_TOKENS};
use crate::scanner::{spec_locate, spec_locate_callsite, ScanError};

verus! {

/// How the address is found from the signature.
#[derive(Clone, Copy, Debug, PartialEq, Eq, Structural)]
pub enum LookupMode {
    /// The address is where the signature matches.
    Direct,
    /// The address is the target of the call behind the match.
    RelativeCallsite,
}

/// A named address to be found in a module.
#[derive(Debug)]
pub struct AddressLookup {
    name: String,
    pattern: String,
    mode: LookupMode,
    address: Option<usize>,
}

impl AddressLookup {
    /// The name the address goes by.
    pub closed spec fn spec_name(&self) -> Seq<char> {
        self.name@
    }

    /// The signature, as written.
    pub closed spec fn spec_pattern(&self) -> Seq<char> {
        self.pattern@
    }

    /// How the address is found from the signature.
    pub closed spec fn spec_mode(&self) -> LookupMode {
        self.mode
    }

    /// The address, once found.
    pub closed spec fn spec_address(&self) -> Option<usize> {
        self.address
    }

    /// The signature's text as bytes.
    pub open spec fn text(&self) -> Seq<u8> {
        encode_utf8(self.spec_pattern())
    }

    /// The text is a signature that can be scanned for.
    pub open spec fn wf(&self) -> bool {
        parse(self.text()) matches Some(tokens) && tokens.len() <= MAX_TOKENS
    }

    /// Whether two lookups were registered with the same values.
    pub open spec fn same_registration(&self, other: &AddressLookup) -> bool {
        &&& self.spec_name() == other.spec_name()
        &&& self.spec_pattern() == other.spec_pattern()
        &&& self.spec_mode() == other.spec_mode()
    }

    /// The scan that resolving the lookup makes in an image that reads
    /// `image`.
    pub open spec fn request(&self, image: Seq<u8>) -> ScanRequest {
        match self.spec_mode() {
            LookupMode::Direct => ScanRequest {
                key: KeyView::Regular(self.spec_pattern()),
                fresh: spec_locate(image, self.text()),
            },
            LookupMode::RelativeCallsite => ScanRequest {
                key: KeyView::RelativeCallsite(self.spec_pattern()),
                fresh: spec_locate_callsite(image, self.text()),
            },
        }
    }

    /// Registers a lookup. Text that is no signature, or one too long to
    /// be scanned for, is refused here, before any scan.
    pub fn new(name: &str, pattern: &str, mode: LookupMode) -> (lookup: Result<AddressLookup, HookError>)
        ensures
            match parse(pattern.spec_bytes()) {
                None => lookup matches Err(e) && e.hook@ == name@ && e.cause == Failure::Scan(
                    ScanError::InvalidPattern,
                ),
                Some(tokens) => if tokens.len() > MAX_TOKENS {
                    lookup matches Err(e) && e.hook@ == name@ && e.cause == Failure::Scan(
                        ScanError::PatternTooLong,
                    )
                } else {
                    &&& lookup matches Ok(l)
                    &&& l.wf()
                    &&& l.spec_name() == name@
                    &&& l.spec_pattern() == pattern@
                    &&& l.spec_mode() == mode
                    &&& l.spec_address() is None
                },
            },
    {
        match compile(pattern) {
            None => Err(
                HookError { hook: name.to_owned(), cause: Failure::Scan(ScanError::InvalidPattern) },
            ),
            Some(tokens) => if tokens.len() > MAX_TOKENS {
                Err(
                    HookError {
                        hook: name.to_owned(),
                        cause: Failure::Scan(ScanError::PatternTooLong),
                    },
                )
            } else {
                Ok(
                    AddressLookup {
                        name: name.to_owned(),
                        pattern: pattern.to_owned(),
                        mode,
                        address: None,
                    },
                )
            },
        }
    }

    /// The name the address goes by.
    pub fn name(&self) -> (name: &String)
        ensures
            name@ == self.spec_name(),
    {
        &self.name
    }

    /// The signature, as written.
    pub fn pattern(&self) -> (pattern: &String)
        ensures
            pattern@ == self.spec_pattern(),
    {
        &self.pattern
    }

    /// How the address is found from the signature.
    pub fn mode(&self) -> (mode: LookupMode)
        ensures
            mode == self.spec_mode(),
    {
        self.mode
    }

    /// The address, once found.
    pub fn address(&self) -> (address: Option<usize>)
        ensures
            address == self.spec_address(),
    {
        self.address
    }

    /// Finds the address in `module` and keeps it.
    ///
    /// The scan goes through the module's memory of scans. An error names
    /// the lookup and leaves what was kept before.
    pub fn resolve(&mut self, module: &mut Module, live: &[u8]) -> (address: Result<usize, HookError>)
        requires
            old(self).wf(),
            old(module).wf(),
            live@.len() == old(module).spec_image_size(),
        ensures
            final(self).wf(),
            final(self).same_registration(old(self)),
            final(module).wf(),
            final(module).same_image(old(module)),
            ({
                let scan = old(self).request(old(module).image(live@));
                &&& final(module).cache() == cache_after(old(module).cache(), scan.key, scan.fresh)
                &&& final(module).scans() == scans_after(
                    old(module).cache(),
                    old(module).scans(),
                    scan.key,
                    scan.fresh,
                )
                &&& match answer(old(module).spec_base(), old(module).cache(), scan.key, scan.fresh) {
                    Ok(a) => {
                        &&& address == Ok::<usize, HookError>(a)
                        &&& final(self).spec_address() == Some(a)
                    },
                    Err(e) => {
                        &&& address matches Err(err) && err.hook@ == old(self).spec_name()
                            && err.cause == Failure::Scan(e)
                        &&& final(self).spec_address() == old(self).spec_address()
                    },
                }
            }),
    {
        let found = match self.mode {
            LookupMode::Direct => module.scan(live, self.pattern.as_str()),
            LookupMode::RelativeCallsite => module.scan_for_relative_callsite(
                live,
                self.pattern.as_str(),
            ),
        };
        match found {
            Ok(address) => {
                self.address = Some(address);
                Ok(address)
            },
            Err(e) => Err(HookError { hook: self.name.clone(), cause: Failure::Scan(e) }),
        }
    }
}

} // verus!
