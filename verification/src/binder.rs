//! A detour together with the name it goes by and the signature that
//! finds the function it is to intercept.

use vstd::prelude::*;
use vstd::string::{StringExecFns, StringSliceAdditionalSpecFns};
use vstd::utf8::encode_utf8;

use crate::cache::KeyView;
use crate::detour::{after_disable, after_enable, Detour, DetourError, DetourState, Patch};
use crate::module::{answer, cache_after, scans_after, Module, ScanRequest};
use crate::pattern::{compile, parse, MAX_TOKENS};
use crate::scanner::{spec_locate, ScanError};

verus! {

/// What went wrong with a hook.
#[derive(Clone, Copy, Debug, PartialEq, Eq, Structural)]
pub enum Failure {
    /// The hook's function was not found.
    Scan(ScanError),
    /// The hook's detour refused the step.
    Detour(DetourError),
}

/// A failure with the name of the hook it befell.
#[derive(Debug, PartialEq, Eq)]
pub struct HookError {
    pub hook: String,
    pub cause: Failure,
}

/// How the message of a failure begins; the hook's name follows.
pub open spec fn failure_prefix(cause: Failure) -> Seq<char> {
    match cause {
        Failure::Scan(ScanError::InvalidPattern) => "invalid pattern for "@,
        Failure::Scan(ScanError::PatternTooLong) => "pattern too long for "@,
        Failure::Scan(ScanError::NotFound) => "failed to find "@,
        Failure::Scan(ScanError::TruncatedCall) => "call cut short behind "@,
        Failure::Scan(ScanError::TargetOutOfBounds) => "call leaves the image behind "@,
        Failure::Scan(ScanError::AnchorOutOfBounds) => "anchor outside the image for "@,
        Failure::Detour(DetourError::NotInitialized) => "detour not initialized for "@,
        Failure::Detour(DetourError::AlreadyInitialized) => "detour already initialized for "@,
    }
}

impl HookError {
    /// The failure in words, with the hook's name in it: `failed to find`
    /// and the name for a signature that matched nowhere.
    pub fn message(&self) -> (text: String)
        ensures
            text@ == failure_prefix(self.cause) + self.hook@,
    {
        let prefix: &str = match self.cause {
            Failure::Scan(ScanError::InvalidPattern) => "invalid pattern for ",
            Failure::Scan(ScanError::PatternTooLong) => "pattern too long for ",
            Failure::Scan(ScanError::NotFound) => "failed to find ",
            Failure::Scan(ScanError::TruncatedCall) => "call cut short behind ",
            Failure::Scan(ScanError::TargetOutOfBounds) => "call leaves the image behind ",
            Failure::Scan(ScanError::AnchorOutOfBounds) => "anchor outside the image for ",
            Failure::Detour(DetourError::NotInitialized) => "detour not initialized for ",
            Failure::Detour(DetourError::AlreadyInitialized) => "detour already initialized for ",
        };
        let mut text = prefix.to_owned();
        text.append(self.hook.as_str());
        text
    }
}

/// A named hook: a signature, the function that is to take the calls, and
/// the detour that keeps the books.
#[derive(Debug)]
pub struct DetourBinder {
    name: String,
    pattern: String,
    replacement: usize,
    detour: Detour,
}

impl DetourBinder {
    /// The name the hook goes by.
    pub closed spec fn spec_name(&self) -> Seq<char> {
        self.name@
    }

    /// The signature of the function to intercept, as written.
    pub closed spec fn spec_pattern(&self) -> Seq<char> {
        self.pattern@
    }

    /// The address of the function that is to take the calls.
    pub closed spec fn spec_replacement(&self) -> usize {
        self.replacement
    }

    /// The hook's detour.
    pub closed spec fn spec_detour(&self) -> Detour {
        self.detour
    }

    /// The signature's text as bytes.
    pub open spec fn text(&self) -> Seq<u8> {
        encode_utf8(self.spec_pattern())
    }

    /// The key under which the module remembers the hook's scan.
    pub open spec fn key(&self) -> KeyView {
        KeyView::Regular(self.spec_pattern())
    }

    /// The hook's text is a signature that can be scanned for.
    pub open spec fn wf(&self) -> bool {
        parse(self.text()) matches Some(tokens) && tokens.len() <= MAX_TOKENS
    }

    /// Whether two binders were registered with the same values.
    pub open spec fn same_registration(&self, other: &DetourBinder) -> bool {
        &&& self.spec_name() == other.spec_name()
        &&& self.spec_pattern() == other.spec_pattern()
        &&& self.spec_replacement() == other.spec_replacement()
    }

    /// The scan that binding the hook makes in an image that reads
    /// `image`.
    pub open spec fn request(&self, image: Seq<u8>) -> ScanRequest {
        ScanRequest { key: self.key(), fresh: spec_locate(image, self.text()) }
    }

    /// Why binding to `address` fails, if it does: the scan's error, or a
    /// detour that has its addresses already.
    pub open spec fn bind_failure(&self, address: Result<usize, ScanError>) -> Option<Failure> {
        match address {
            Err(e) => Some(Failure::Scan(e)),
            Ok(_) => if self.spec_detour().spec_state() == DetourState::Uninitialized {
                None
            } else {
                Some(Failure::Detour(DetourError::AlreadyInitialized))
            },
        }
    }

    /// Registers a hook. Text that is no signature, or one too long to be
    /// scanned for, is refused here, before any scan.
    pub fn new(name: &str, pattern: &str, replacement: usize) -> (binder: Result<
        DetourBinder,
        HookError,
    >)
        ensures
            match parse(pattern.spec_bytes()) {
                None => binder matches Err(e) && e.hook@ == name@ && e.cause == Failure::Scan(
                    ScanError::InvalidPattern,
                ),
                Some(tokens) => if tokens.len() > MAX_TOKENS {
                    binder matches Err(e) && e.hook@ == name@ && e.cause == Failure::Scan(
                        ScanError::PatternTooLong,
                    )
                } else {
                    &&& binder matches Ok(b)
                    &&& b.wf()
                    &&& b.spec_name() == name@
                    &&& b.spec_pattern() == pattern@
                    &&& b.spec_replacement() == replacement
                    &&& b.spec_detour().spec_state() == DetourState::Uninitialized
                },
            },
    {
        match compile(pattern) {
            None => Err(
                HookError { hook: name.to_owned(), cause: Failure::Scan(ScanError::InvalidPattern) },
            ),
            Some(tokens) => if tokens.len() > MAX_TOKENS {
                Err(
                    HookError {
                        hook: name.to_owned(),
                        cause: Failure::Scan(ScanError::PatternTooLong),
                    },
                )
            } else {
                Ok(
                    DetourBinder {
                        name: name.to_owned(),
                        pattern: pattern.to_owned(),
                        replacement,
                        detour: Detour::new(),
                    },
                )
            },
        }
    }

    /// The name the hook goes by.
    pub fn name(&self) -> (name: &String)
        ensures
            name@ == self.spec_name(),
    {
        &self.name
    }

    /// The signature of the function to intercept, as written.
    pub fn pattern(&self) -> (pattern: &String)
        ensures
            pattern@ == self.spec_pattern(),
    {
        &self.pattern
    }

    /// The hook's detour.
    pub fn detour(&self) -> (detour: Detour)
        ensures
            detour == self.spec_detour(),
    {
        self.detour
    }

    /// Finds the hook's function in `module` and gives the detour its
    /// addresses.
    ///
    /// The scan goes through the module's memory of scans. An error names
    /// the hook. A hook that is bound already is not bound anew.
    pub fn bind(&mut self, module: &mut Module, live: &[u8]) -> (bound: Result<(), HookError>)
        requires
            old(self).wf(),
            old(module).wf(),
            live@.len() == old(module).spec_image_size(),
        ensures
            final(self).wf(),
            final(self).same_registration(old(self)),
            final(module).wf(),
            final(module).same_image(old(module)),
            ({
                let scan = old(self).request(old(module).image(live@));
                let address = answer(
                    old(module).spec_base(),
                    old(module).cache(),
                    scan.key,
                    scan.fresh,
                );
                &&& final(module).cache() == cache_after(old(module).cache(), scan.key, scan.fresh)
                &&& final(module).scans() == scans_after(
                    old(module).cache(),
                    old(module).scans(),
                    scan.key,
                    scan.fresh,
                )
                &&& match old(self).bind_failure(address) {
                    Some(cause) => {
                        &&& bound matches Err(e) && e.hook@ == old(self).spec_name() && e.cause
                            == cause
                        &&& final(self).spec_detour() == old(self).spec_detour()
                    },
                    None => {
                        &&& bound is Ok
                        &&& final(self).spec_detour().spec_state() == DetourState::Initialized
                        &&& Ok::<usize, ScanError>(final(self).spec_detour().spec_target())
                            == address
                        &&& final(self).spec_detour().spec_replacement() == old(
                            self,
                        ).spec_replacement()
                    },
                }
            }),
    {
        let address = match module.scan(live, self.pattern.as_str()) {
            Ok(address) => address,
            Err(e) => {
                return Err(HookError { hook: self.name.clone(), cause: Failure::Scan(e) });
            },
        };
        match self.detour.initialize(address, self.replacement) {
            Ok(()) => Ok(()),
            Err(e) => Err(HookError { hook: self.name.clone(), cause: Failure::Detour(e) }),
        }
    }

    /// Binds the hook and puts its redirect in place: `bind`, then
    /// `enable`. Gives the patch to write.
    pub fn hook(&mut self, module: &mut Module, live: &[u8]) -> (patch: Result<Patch, HookError>)
        requires
            old(self).wf(),
            old(module).wf(),
            live@.len() == old(module).spec_image_size(),
        ensures
            final(self).wf(),
            final(self).same_registration(old(self)),
            final(module).wf(),
            final(module).same_image(old(module)),
            ({
                let scan = old(self).request(old(module).image(live@));
                let address = answer(
                    old(module).spec_base(),
                    old(module).cache(),
                    scan.key,
                    scan.fresh,
                );
                &&& final(module).cache() == cache_after(old(module).cache(), scan.key, scan.fresh)
                &&& final(module).scans() == scans_after(
                    old(module).cache(),
                    old(module).scans(),
                    scan.key,
                    scan.fresh,
                )
                &&& match old(self).bind_failure(address) {
                    Some(cause) => {
                        &&& patch matches Err(e) && e.hook@ == old(self).spec_name() && e.cause
                            == cause
                        &&& final(self).spec_detour() == old(self).spec_detour()
                    },
                    None => {
                        &&& final(self).spec_detour().spec_state() == DetourState::Enabled
                        &&& Ok::<usize, ScanError>(final(self).spec_detour().spec_target())
                            == address
                        &&& final(self).spec_detour().spec_replacement() == old(
                            self,
                        ).spec_replacement()
                        &&& patch == Ok::<Patch, HookError>(
                            Patch::Install {
                                target: final(self).spec_detour().spec_target(),
                                replacement: final(self).spec_detour().spec_replacement(),
                            },
                        )
                    },
                }
            }),
    {
        if let Err(e) = self.bind(module, live) {
            return Err(e);
        }
        match self.detour.enable() {
            Ok(Some(patch)) => Ok(patch),
            Ok(None) => {
                assert(false);
                Err(HookError { hook: self.name.clone(), cause: Failure::Detour(DetourError::NotInitialized) })
            },
            Err(e) => {
                assert(false);
                Err(HookError { hook: self.name.clone(), cause: Failure::Detour(e) })
            },
        }
    }

    /// Puts the hook's redirect in place; see [`Detour::enable`].
    pub fn enable(&mut self) -> (patch: Result<Option<Patch>, HookError>)
        ensures
            final(self).same_registration(old(self)),
            final(self).spec_detour().spec_state() == after_enable(
                old(self).spec_detour().spec_state(),
            ),
            final(self).spec_detour().same_addresses(&old(self).spec_detour()),
            match old(self).spec_detour().enable_patch() {
                Ok(p) => patch == Ok::<Option<Patch>, HookError>(p),
                Err(e) => patch matches Err(err) && err.hook@ == old(self).spec_name() && err.cause
                    == Failure::Detour(e),
            },
    {
        match self.detour.enable() {
            Ok(patch) => Ok(patch),
            Err(e) => Err(HookError { hook: self.name.clone(), cause: Failure::Detour(e) }),
        }
    }

    /// Takes the hook's redirect out; see [`Detour::disable`].
    pub fn disable(&mut self) -> (patch: Result<Option<Patch>, HookError>)
        ensures
            final(self).same_registration(old(self)),
            final(self).spec_detour().spec_state() == after_disable(
                old(self).spec_detour().spec_state(),
            ),
            final(self).spec_detour().same_addresses(&old(self).spec_detour()),
            match old(self).spec_detour().disable_patch() {
                Ok(p) => patch == Ok::<Option<Patch>, HookError>(p),
                Err(e) => patch matches Err(err) && err.hook@ == old(self).spec_name() && err.cause
                    == Failure::Detour(e),
            },
    {
        match self.detour.disable() {
            Ok(patch) => Ok(patch),
            Err(e) => Err(HookError { hook: self.name.clone(), cause: Failure::Detour(e) }),
        }
    }

    /// Takes back the step that asked for `patch`; see [`Detour::revert`].
    pub fn revert(&mut self, patch: Patch)
        ensures
            final(self).same_registration(old(self)),
            final(self).spec_detour().same_addresses(&old(self).spec_detour()),
            old(self).spec_detour().reverted(patch) == final(self).spec_detour().spec_state(),
    {
        self.detour.revert(patch);
    }
}

} // verus!
