//! Hooks that are switched on and off together.
//!
//! A library holds the addresses its hooks need to know and the detours
//! they install. It is enabled as a whole or not at all: the addresses are
//! looked up first, then each detour is bound and enabled; where one of
//! these steps fails, the detours enabled before it are disabled again,
//! what comes behind it is left untouched, and no patch is asked for.

use vstd::prelude::*;

use crate::binder::{DetourBinder, Failure, HookError};
use crate::cache::KeyView;
use crate::detour::{after_disable, reverted_between, DetourState, Patch};
use crate::lookup::AddressLookup;
use crate::module::{address_of, cache_through, scans_through, Module, ScanRequest};
use crate::scanner::ScanError;

verus! {

/// A named group of hooks.
#[derive(Debug)]
pub struct HookLibrary {
    name: String,
    lookups: Vec<AddressLookup>,
    binders: Vec<DetourBinder>,
}

/// The scans that enabling a library makes, in their order: one for each
/// lookup, then one for each detour.
pub open spec fn requests(lookups: Seq<AddressLookup>, binders: Seq<DetourBinder>, image: Seq<u8>) -> Seq<
    ScanRequest,
> {
    Seq::new(
        lookups.len() + binders.len(),
        |i: int|
            if i < lookups.len() {
                lookups[i].request(image)
            } else {
                binders[i - lookups.len()].request(image)
            },
    )
}

/// The name of step `i` of enabling a library: a lookup's or a detour's.
pub open spec fn name_at(lookups: Seq<AddressLookup>, binders: Seq<DetourBinder>, i: int) -> Seq<char> {
    if i < lookups.len() {
        lookups[i].spec_name()
    } else {
        binders[i - lookups.len()].spec_name()
    }
}

/// Why step `i` of enabling a library fails, if it does: a lookup whose
/// scan fails, or a detour that cannot be bound.
pub open spec fn failure_at(
    lookups: Seq<AddressLookup>,
    binders: Seq<DetourBinder>,
    i: int,
    base: usize,
    cache: Map<KeyView, usize>,
    image: Seq<u8>,
) -> Option<Failure> {
    let address = address_of(requests(lookups, binders, image), i, base, cache);
    if i < lookups.len() {
        match address {
            Ok(_) => None,
            Err(e) => Some(Failure::Scan(e)),
        }
    } else {
        binders[i - lookups.len()].bind_failure(address)
    }
}

/// The first among the first `n` steps of enabling a library that fails.
pub open spec fn first_failure(
    lookups: Seq<AddressLookup>,
    binders: Seq<DetourBinder>,
    n: int,
    base: usize,
    cache: Map<KeyView, usize>,
    image: Seq<u8>,
) -> Option<int>
    decreases n,
{
    if n <= 0 {
        None
    } else {
        match first_failure(lookups, binders, n - 1, base, cache, image) {
            Some(k) => Some(k),
            None => if failure_at(lookups, binders, n - 1, base, cache, image) is Some {
                Some(n - 1)
            } else {
                None
            },
        }
    }
}

/// Whether the address kept is the one that a scan answered with.
pub open spec fn keeps(kept: Option<usize>, answered: Result<usize, ScanError>) -> bool {
    match kept {
        Some(a) => answered == Ok::<usize, ScanError>(a),
        None => false,
    }
}

/// The states of the detours of a library, in the detours' order.
pub open spec fn states_of(binders: Seq<DetourBinder>) -> Seq<DetourState> {
    Seq::new(binders.len(), |i: int| binders[i].spec_detour().spec_state())
}

/// The addresses that the detours of a library intercept, in the detours'
/// order.
pub open spec fn targets_of(binders: Seq<DetourBinder>) -> Seq<usize> {
    Seq::new(binders.len(), |i: int| binders[i].spec_detour().spec_target())
}

/// The patches that take out the redirects of the first `n` detours: one
/// for each that is enabled, in the detours' order.
pub open spec fn removals(states: Seq<DetourState>, targets: Seq<usize>, n: int) -> Seq<Patch>
    decreases n,
{
    if n <= 0 {
        Seq::empty()
    } else if states[n - 1] == DetourState::Enabled {
        removals(states, targets, n - 1).push(Patch::Remove { target: targets[n - 1] })
    } else {
        removals(states, targets, n - 1)
    }
}

/// Once a step has failed, it stays the first failure however many more
/// steps are counted.
pub proof fn lemma_first_failure_stays(
    lookups: Seq<AddressLookup>,
    binders: Seq<DetourBinder>,
    k: int,
    n: int,
    m: int,
    base: usize,
    cache: Map<KeyView, usize>,
    image: Seq<u8>,
)
    requires
        n <= m,
        first_failure(lookups, binders, n, base, cache, image) == Some(k),
    ensures
        first_failure(lookups, binders, m, base, cache, image) == Some(k),
    decreases m - n,
{
    if n < m {
        lemma_first_failure_stays(lookups, binders, k, n, m - 1, base, cache, image);
    }
}

/// The first failure is a failure, lies among the steps counted, and no
/// step before it fails.
pub proof fn lemma_first_failure_is_first(
    lookups: Seq<AddressLookup>,
    binders: Seq<DetourBinder>,
    n: int,
    base: usize,
    cache: Map<KeyView, usize>,
    image: Seq<u8>,
)
    ensures
        match first_failure(lookups, binders, n, base, cache, image) {
            Some(k) => {
                &&& 0 <= k < n
                &&& failure_at(lookups, binders, k, base, cache, image) is Some
                &&& forall|i: int|
                    0 <= i < k ==> failure_at(lookups, binders, i, base, cache, image) is None
            },
            None => forall|i: int|
                0 <= i < n ==> failure_at(lookups, binders, i, base, cache, image) is None,
        },
    decreases n,
{
    if n > 0 {
        lemma_first_failure_is_first(lookups, binders, n - 1, base, cache, image);
    }
}

impl HookLibrary {
    /// The library's name.
    pub closed spec fn spec_name(&self) -> Seq<char> {
        self.name@
    }

    /// The addresses the library looks up, in the order in which it does.
    pub closed spec fn lookups(&self) -> Seq<AddressLookup> {
        self.lookups@
    }

    /// The library's detours, in the order in which they are enabled.
    pub closed spec fn binders(&self) -> Seq<DetourBinder> {
        self.binders@
    }

    /// Every lookup and every detour of the library is well formed.
    pub open spec fn wf(&self) -> bool {
        &&& forall|i: int| 0 <= i < self.lookups().len() ==> (#[trigger] self.lookups()[i]).wf()
        &&& forall|i: int| 0 <= i < self.binders().len() ==> (#[trigger] self.binders()[i]).wf()
    }

    /// Whether two libraries have the same name, lookups and detours, as
    /// they were registered.
    pub open spec fn same_registration(&self, other: &HookLibrary) -> bool {
        &&& self.spec_name() == other.spec_name()
        &&& self.lookups().len() == other.lookups().len()
        &&& forall|i: int|
            0 <= i < self.lookups().len() ==> (#[trigger] self.lookups()[i]).same_registration(
                &other.lookups()[i],
            )
        &&& self.binders().len() == other.binders().len()
        &&& forall|i: int|
            0 <= i < self.binders().len() ==> (#[trigger] self.binders()[i]).same_registration(
                &other.binders()[i],
            )
    }

    /// Whether two libraries have the same lookups, with what they found.
    pub open spec fn same_lookups(&self, other: &HookLibrary) -> bool {
        self.lookups() == other.lookups()
    }

    /// A library without hooks.
    pub fn new(name: &str) -> (library: HookLibrary)
        ensures
            library.wf(),
            library.spec_name() == name@,
            library.lookups().len() == 0,
            library.binders().len() == 0,
    {
        HookLibrary { name: name.to_owned(), lookups: Vec::new(), binders: Vec::new() }
    }

    /// The library with one more address to look up, behind those it has.
    pub fn on_init(self, lookup: AddressLookup) -> (library: HookLibrary)
        requires
            self.wf(),
            lookup.wf(),
        ensures
            library.wf(),
            library.spec_name() == self.spec_name(),
            library.lookups() == self.lookups().push(lookup),
            library.binders() == self.binders(),
    {
        let mut library = self;
        library.lookups.push(lookup);
        assert forall|i: int| 0 <= i < library.lookups().len() implies (#[trigger] library.lookups()[i]).wf() by {
            if i < self.lookups().len() {
                assert(self.lookups()[i].wf());
            }
        }
        assert forall|i: int| 0 <= i < library.binders().len() implies (#[trigger] library.binders()[i]).wf() by {
            assert(self.binders()[i].wf());
        }
        library
    }

    /// The library with one more hook, behind those it has.
    pub fn with_detour(self, binder: DetourBinder) -> (library: HookLibrary)
        requires
            self.wf(),
            binder.wf(),
        ensures
            library.wf(),
            library.spec_name() == self.spec_name(),
            library.lookups() == self.lookups(),
            library.binders() == self.binders().push(binder),
    {
        let mut library = self;
        library.binders.push(binder);
        assert forall|i: int| 0 <= i < library.binders().len() implies (#[trigger] library.binders()[i]).wf() by {
            if i < self.binders().len() {
                assert(self.binders()[i].wf());
            }
        }
        assert forall|i: int| 0 <= i < library.lookups().len() implies (#[trigger] library.lookups()[i]).wf() by {
            assert(self.lookups()[i].wf());
        }
        library
    }

    /// The library's name.
    pub fn name(&self) -> (name: &String)
        ensures
            name@ == self.spec_name(),
    {
        &self.name
    }

    /// How many detours the library has.
    pub fn len(&self) -> (n: usize)
        ensures
            n == self.binders().len(),
    {
        self.binders.len()
    }

    /// Lookup `i`, if there is one.
    pub fn lookup(&self, i: usize) -> (lookup: Option<&AddressLookup>)
        ensures
            match lookup {
                Some(l) => i < self.lookups().len() && *l == self.lookups()[i as int],
                None => i >= self.lookups().len(),
            },
    {
        if i < self.lookups.len() {
            Some(&self.lookups[i])
        } else {
            None
        }
    }

    /// Hook `i`, if there is one.
    pub fn binder(&self, i: usize) -> (binder: Option<&DetourBinder>)
        ensures
            match binder {
                Some(b) => i < self.binders().len() && *b == self.binders()[i as int],
                None => i >= self.binders().len(),
            },
    {
        if i < self.binders.len() {
            Some(&self.binders[i])
        } else {
            None
        }
    }

    /// The index of the first lookup that goes by `name`, if there is one.
    pub fn lookup_named(&self, name: &str) -> (found: Option<usize>)
        ensures
            match found {
                Some(i) => {
                    &&& i < self.lookups().len()
                    &&& self.lookups()[i as int].spec_name() == name@
                    &&& forall|k: int| 0 <= k < i ==> self.lookups()[k].spec_name() != name@
                },
                None => forall|k: int|
                    0 <= k < self.lookups().len() ==> self.lookups()[k].spec_name() != name@,
            },
    {
        let wanted = name.to_owned();
        let mut i: usize = 0;
        while i < self.lookups.len()
            invariant
                i <= self.lookups@.len(),
                wanted@ == name@,
                forall|k: int| 0 <= k < i ==> self.lookups@[k].spec_name() != name@,
            decreases self.lookups@.len() - i,
        {
            if *self.lookups[i].name() == wanted {
                return Some(i);
            }
            i = i + 1;
        }
        None
    }

    /// The index of the first detour that goes by `name`, if there is one.
    pub fn binder_named(&self, name: &str) -> (found: Option<usize>)
        ensures
            match found {
                Some(i) => {
                    &&& i < self.binders().len()
                    &&& self.binders()[i as int].spec_name() == name@
                    &&& forall|k: int| 0 <= k < i ==> self.binders()[k].spec_name() != name@
                },
                None => forall|k: int|
                    0 <= k < self.binders().len() ==> self.binders()[k].spec_name() != name@,
            },
    {
        let wanted = name.to_owned();
        let mut i: usize = 0;
        while i < self.binders.len()
            invariant
                i <= self.binders@.len(),
                wanted@ == name@,
                forall|k: int| 0 <= k < i ==> self.binders@[k].spec_name() != name@,
            decreases self.binders@.len() - i,
        {
            if *self.binders[i].name() == wanted {
                return Some(i);
            }
            i = i + 1;
        }
        None
    }

    /// Looks up every address, then binds and enables every detour, in
    /// order, and gives the patches to write, one for each detour.
    ///
    /// Stops at the first step that fails and reports it by name. The
    /// detours enabled a moment ago are disabled again; what comes behind
    /// the failed step is not touched; no patch is asked for.
    pub fn enable(&mut self, module: &mut Module, live: &[u8]) -> (plan: Result<Vec<Patch>, HookError>)
        requires
            old(self).wf(),
            old(module).wf(),
            live@.len() == old(module).spec_image_size(),
        ensures
            final(self).wf(),
            final(self).same_registration(old(self)),
            final(module).wf(),
            final(module).same_image(old(module)),
            ({
                let found = old(self).lookups();
                let hooks = old(self).binders();
                let first = found.len() as int;
                let steps = (found.len() + hooks.len()) as int;
                let base = old(module).spec_base();
                let cache = old(module).cache();
                let image = old(module).image(live@);
                let scans = requests(found, hooks, image);
                let failure = first_failure(found, hooks, steps, base, cache, image);
                let done = match failure {
                    Some(k) => k,
                    None => steps,
                };
                // The first step that fails decides: without one, a patch
                // for each detour; with one, its name and its cause.
                &&& match failure {
                    None => plan matches Ok(patches) && patches@.len() == hooks.len() && forall|
                        i: int,
                    |
                        0 <= i < hooks.len() ==> (#[trigger] patches@[i]) == Patch::Install {
                            target: final(self).binders()[i].spec_detour().spec_target(),
                            replacement: hooks[i].spec_replacement(),
                        },
                    Some(k) => plan matches Err(e) && e.hook@ == name_at(found, hooks, k) && Some(
                        e.cause,
                    ) == failure_at(found, hooks, k, base, cache, image),
                }
                // Every lookup before the failed step holds its address;
                // the others hold what they held.
                &&& forall|i: int|
                    0 <= i < found.len() ==> {
                        let now = (#[trigger] final(self).lookups()[i]).spec_address();
                        if i < done {
                            keeps(now, address_of(scans, i, base, cache))
                        } else {
                            now == found[i].spec_address()
                        }
                    }
                // Every detour before the failed step is bound to its
                // address, and enabled if no step failed, disabled again if
                // one did; the others are as they were.
                &&& forall|i: int|
                    0 <= i < hooks.len() ==> {
                        let now = (#[trigger] final(self).binders()[i]).spec_detour();
                        if first + i < done {
                            &&& now.spec_state() == if failure is None {
                                DetourState::Enabled
                            } else {
                                DetourState::Disabled
                            }
                            &&& Ok::<usize, ScanError>(now.spec_target()) == address_of(
                                scans,
                                first + i,
                                base,
                                cache,
                            )
                            &&& now.spec_replacement() == hooks[i].spec_replacement()
                        } else {
                            now == hooks[i].spec_detour()
                        }
                    }
                // The module has made the scans up to the failed step, that
                // step's scan included.
                &&& final(module).cache() == cache_through(
                    scans,
                    if failure is None {
                        steps
                    } else {
                        done + 1
                    },
                    cache,
                )
                &&& final(module).scans() == scans_through(
                    scans,
                    if failure is None {
                        steps
                    } else {
                        done + 1
                    },
                    cache,
                    old(module).scans(),
                )
            }),
    {
        let ghost found = self.lookups@;
        let ghost hooks = self.binders@;
        let ghost base = module.spec_base();
        let ghost cache = module.cache();
        let ghost counted = module.scans();
        let ghost image = module.image(live@);
        let ghost scans = requests(found, hooks, image);
        let first: usize = self.lookups.len();
        let n: usize = self.binders.len();
        let mut i: usize = 0;
        while i < first
            invariant
                0 <= i <= first,
                first == found.len(),
                n == hooks.len(),
                self.lookups@.len() == first,
                self.binders@ == hooks,
                self.name == old(self).name,
                found == old(self).lookups(),
                hooks == old(self).binders(),
                scans == requests(found, hooks, image),
                module.wf(),
                module.same_image(old(module)),
                base == old(module).spec_base(),
                cache == old(module).cache(),
                counted == old(module).scans(),
                image == old(module).image(live@),
                image == module.image(live@),
                live@.len() == module.spec_image_size(),
                module.cache() == cache_through(scans, i as int, cache),
                module.scans() == scans_through(scans, i as int, cache, counted),
                first_failure(found, hooks, i as int, base, cache, image) is None,
                forall|j: int| 0 <= j < n ==> (#[trigger] hooks[j]).wf(),
                forall|j: int|
                    0 <= j < first ==> (#[trigger] self.lookups@[j]).wf() && self.lookups@[j].same_registration(
                        &found[j],
                    ),
                forall|j: int|
                    0 <= j < i ==> keeps(
                        (#[trigger] self.lookups@[j]).spec_address(),
                        address_of(scans, j, base, cache),
                    ),
                forall|j: int| i <= j < first ==> (#[trigger] self.lookups@[j]) == found[j],
            decreases first - i,
        {
            assert(scans[i as int] == found[i as int].request(image));
            if let Err(e) = self.lookups[i].resolve(module, live) {
                proof {
                    lemma_first_failure_stays(found, hooks, i as int, i + 1, first + n, base, cache, image);
                }
                return Err(e);
            }
            i = i + 1;
        }
        let mut patches: Vec<Patch> = Vec::new();
        let mut i: usize = 0;
        while i < n
            invariant
                0 <= i <= n,
                first == found.len(),
                n == hooks.len(),
                self.lookups@.len() == first,
                self.binders@.len() == n,
                self.name == old(self).name,
                found == old(self).lookups(),
                hooks == old(self).binders(),
                scans == requests(found, hooks, image),
                module.wf(),
                module.same_image(old(module)),
                base == old(module).spec_base(),
                cache == old(module).cache(),
                counted == old(module).scans(),
                image == old(module).image(live@),
                image == module.image(live@),
                live@.len() == module.spec_image_size(),
                module.cache() == cache_through(scans, first + i, cache),
                module.scans() == scans_through(scans, first + i, cache, counted),
                first_failure(found, hooks, first + i, base, cache, image) is None,
                patches@.len() == i,
                forall|j: int|
                    0 <= j < first ==> (#[trigger] self.lookups@[j]).wf() && self.lookups@[j].same_registration(
                        &found[j],
                    ),
                forall|j: int|
                    0 <= j < first ==> keeps(
                        (#[trigger] self.lookups@[j]).spec_address(),
                        address_of(scans, j, base, cache),
                    ),
                forall|j: int|
                    0 <= j < n ==> (#[trigger] self.binders@[j]).wf() && self.binders@[j].same_registration(
                        &hooks[j],
                    ),
                forall|j: int|
                    0 <= j < i ==> {
                        let now = (#[trigger] self.binders@[j]).spec_detour();
                        &&& now.spec_state() == DetourState::Enabled
                        &&& Ok::<usize, ScanError>(now.spec_target()) == address_of(
                            scans,
                            first + j,
                            base,
                            cache,
                        )
                        &&& now.spec_replacement() == hooks[j].spec_replacement()
                        &&& patches@[j] == Patch::Install {
                            target: now.spec_target(),
                            replacement: now.spec_replacement(),
                        }
                    },
                forall|j: int| i <= j < n ==> (#[trigger] self.binders@[j]) == hooks[j],
            decreases n - i,
        {
            assert(scans[first + i] == hooks[i as int].request(image));
            match self.binders[i].hook(module, live) {
                Ok(patch) => {
                    patches.push(patch);
                },
                Err(e) => {
                    proof {
                        lemma_first_failure_stays(
                            found,
                            hooks,
                            first + i,
                            first + i + 1,
                            first + n,
                            base,
                            cache,
                            image,
                        );
                    }
                    let ghost failed = self.binders@;
                    self.roll_back(i);
                    proof {
                        assert forall|j: int| 0 <= j < n implies (#[trigger] self.binders@[j]).wf()
                            && self.binders@[j].same_registration(&hooks[j]) by {
                            assert(failed[j].wf() && failed[j].same_registration(&hooks[j]));
                        }
                        assert forall|j: int| 0 <= j < n implies {
                            let now = (#[trigger] self.binders@[j]).spec_detour();
                            if j < i {
                                &&& now.spec_state() == DetourState::Disabled
                                &&& Ok::<usize, ScanError>(now.spec_target()) == address_of(
                                    scans,
                                    first + j,
                                    base,
                                    cache,
                                )
                                &&& now.spec_replacement() == hooks[j].spec_replacement()
                            } else {
                                now == hooks[j].spec_detour()
                            }
                        } by {
                            if j < i {
                                assert(failed[j].spec_detour().spec_state() == DetourState::Enabled);
                            } else {
                                assert(failed[j].spec_detour() == hooks[j].spec_detour());
                            }
                        }
                    }
                    return Err(e);
                },
            }
            i = i + 1;
        }
        Ok(patches)
    }

    /// Disables the first `upto` hooks, which are enabled.
    fn roll_back(&mut self, upto: usize)
        requires
            upto <= old(self).binders().len(),
            forall|j: int|
                0 <= j < upto ==> (#[trigger] old(self).binders()[j]).spec_detour().spec_state()
                    == DetourState::Enabled,
        ensures
            final(self).spec_name() == old(self).spec_name(),
            final(self).lookups() == old(self).lookups(),
            final(self).binders().len() == old(self).binders().len(),
            forall|j: int|
                0 <= j < final(self).binders().len() ==> {
                    let now = #[trigger] final(self).binders()[j];
                    let was = old(self).binders()[j];
                    &&& now.same_registration(&was)
                    &&& now.wf() == was.wf()
                    &&& now.spec_detour().same_addresses(&was.spec_detour())
                    &&& now.spec_detour().spec_state() == if j < upto {
                        DetourState::Disabled
                    } else {
                        was.spec_detour().spec_state()
                    }
                    &&& j >= upto ==> now == was
                },
    {
        let mut j: usize = 0;
        while j < upto
            invariant
                0 <= j <= upto <= old(self).binders().len(),
                self.name == old(self).name,
                self.lookups == old(self).lookups,
                self.binders@.len() == old(self).binders().len(),
                forall|k: int|
                    0 <= k < self.binders@.len() ==> {
                        let now = #[trigger] self.binders@[k];
                        let was = old(self).binders()[k];
                        &&& now.same_registration(&was)
                        &&& now.wf() == was.wf()
                        &&& now.spec_detour().same_addresses(&was.spec_detour())
                        &&& now.spec_detour().spec_state() == if k < j {
                            DetourState::Disabled
                        } else {
                            was.spec_detour().spec_state()
                        }
                        &&& k >= j ==> now == was
                    },
                forall|k: int|
                    0 <= k < upto ==> (#[trigger] old(self).binders()[k]).spec_detour().spec_state()
                        == DetourState::Enabled,
            decreases upto - j,
        {
            let _ = self.binders[j].disable();
            j = j + 1;
        }
    }

    /// Disables every hook that is enabled and gives the patches to write,
    /// in the hooks' order. Hooks that are not enabled are passed over, so
    /// that a library that was never enabled, or failed to be, asks for
    /// nothing.
    pub fn disable(&mut self) -> (plan: Vec<Patch>)
        ensures
            final(self).same_registration(old(self)),
            final(self).same_lookups(old(self)),
            old(self).wf() ==> final(self).wf(),
            plan@ == removals(
                states_of(old(self).binders()),
                targets_of(old(self).binders()),
                old(self).binders().len() as int,
            ),
            forall|i: int|
                0 <= i < old(self).binders().len() ==> {
                    let now = (#[trigger] final(self).binders()[i]).spec_detour();
                    let was = old(self).binders()[i].spec_detour();
                    &&& now.spec_state() == after_disable(was.spec_state())
                    &&& now.same_addresses(&was)
                },
    {
        let n: usize = self.binders.len();
        let mut plan: Vec<Patch> = Vec::new();
        let mut i: usize = 0;
        while i < n
            invariant
                0 <= i <= n,
                n == old(self).binders().len(),
                self.binders@.len() == n,
                self.name == old(self).name,
                self.lookups == old(self).lookups,
                plan@ == removals(
                    states_of(old(self).binders()),
                    targets_of(old(self).binders()),
                    i as int,
                ),
                forall|j: int|
                    0 <= j < n ==> {
                        let now = #[trigger] self.binders@[j];
                        let was = old(self).binders()[j];
                        &&& now.same_registration(&was)
                        &&& now.wf() == was.wf()
                        &&& now.spec_detour().same_addresses(&was.spec_detour())
                        &&& now.spec_detour().spec_state() == if j < i {
                            after_disable(was.spec_detour().spec_state())
                        } else {
                            was.spec_detour().spec_state()
                        }
                    },
            decreases n - i,
        {
            if let Ok(Some(patch)) = self.binders[i].disable() {
                plan.push(patch);
            }
            i = i + 1;
        }
        plan
    }

    /// Gives up a plan of which only the first `written` patches could be
    /// written: takes back the steps that asked for the rest, disables
    /// every detour that is still enabled, and gives the patches that take
    /// out what was written.
    pub fn abandon(&mut self, plan: &[Patch], written: usize) -> (undo: Vec<Patch>)
        ensures
            final(self).same_registration(old(self)),
            final(self).same_lookups(old(self)),
            old(self).wf() ==> final(self).wf(),
            ({
                let hooks = old(self).binders();
                let from = if written <= plan@.len() {
                    written as int
                } else {
                    plan@.len() as int
                };
                let left = Seq::new(
                    hooks.len(),
                    |i: int|
                        reverted_between(
                            hooks[i].spec_detour().spec_state(),
                            hooks[i].spec_detour().spec_target(),
                            plan@,
                            from,
                            plan@.len() as int,
                        ),
                );
                &&& undo@ == removals(left, targets_of(hooks), hooks.len() as int)
                &&& forall|i: int|
                    0 <= i < hooks.len() ==> {
                        let now = (#[trigger] final(self).binders()[i]).spec_detour();
                        &&& now.spec_state() == after_disable(left[i])
                        &&& now.same_addresses(&hooks[i].spec_detour())
                    }
            }),
    {
        let ghost hooks = self.binders@;
        let from: usize = if written <= plan.len() {
            written
        } else {
            plan.len()
        };
        let mut at: usize = from;
        while at < plan.len()
            invariant
                from <= at <= plan@.len(),
                hooks == old(self).binders(),
                self.binders@.len() == hooks.len(),
                self.same_registration(old(self)),
                self.same_lookups(old(self)),
                old(self).wf() ==> self.wf(),
                forall|i: int|
                    0 <= i < hooks.len() ==> {
                        let now = (#[trigger] self.binders@[i]).spec_detour();
                        &&& now.spec_state() == reverted_between(
                            hooks[i].spec_detour().spec_state(),
                            hooks[i].spec_detour().spec_target(),
                            plan@,
                            from as int,
                            at as int,
                        )
                        &&& now.same_addresses(&hooks[i].spec_detour())
                    },
            decreases plan@.len() - at,
        {
            let ghost before = self.binders@;
            self.revert(plan[at]);
            proof {
                assert forall|i: int| 0 <= i < hooks.len() implies {
                    let now = (#[trigger] self.binders@[i]).spec_detour();
                    &&& now.spec_state() == reverted_between(
                        hooks[i].spec_detour().spec_state(),
                        hooks[i].spec_detour().spec_target(),
                        plan@,
                        from as int,
                        at + 1,
                    )
                    &&& now.same_addresses(&hooks[i].spec_detour())
                } by {
                    assert(before[i].spec_detour().same_addresses(&hooks[i].spec_detour()));
                }
            }
            at = at + 1;
        }
        let ghost left = self.binders@;
        let undo = self.disable();
        proof {
            let states = Seq::new(
                hooks.len(),
                |i: int|
                    reverted_between(
                        hooks[i].spec_detour().spec_state(),
                        hooks[i].spec_detour().spec_target(),
                        plan@,
                        from as int,
                        plan@.len() as int,
                    ),
            );
            assert(states_of(left) =~= states);
            assert(targets_of(left) =~= targets_of(hooks));
            assert forall|i: int| 0 <= i < hooks.len() implies {
                let now = (#[trigger] self.binders@[i]).spec_detour();
                &&& now.spec_state() == after_disable(states[i])
                &&& now.same_addresses(&hooks[i].spec_detour())
            } by {
                assert(left[i].spec_detour().same_addresses(&hooks[i].spec_detour()));
            }
        }
        undo
    }

    /// Takes back, in every hook, the step that asked for `patch`, for a
    /// patch that could not be written; see [`crate::detour::Detour::revert`].
    pub fn revert(&mut self, patch: Patch)
        ensures
            final(self).same_registration(old(self)),
            final(self).same_lookups(old(self)),
            old(self).wf() ==> final(self).wf(),
            forall|i: int|
                0 <= i < old(self).binders().len() ==> {
                    let now = (#[trigger] final(self).binders()[i]).spec_detour();
                    let was = old(self).binders()[i].spec_detour();
                    &&& now.spec_state() == was.reverted(patch)
                    &&& now.same_addresses(&was)
                },
    {
        let n: usize = self.binders.len();
        let mut i: usize = 0;
        while i < n
            invariant
                0 <= i <= n,
                n == old(self).binders().len(),
                self.binders@.len() == n,
                self.name == old(self).name,
                self.lookups == old(self).lookups,
                forall|j: int|
                    0 <= j < n ==> {
                        let now = #[trigger] self.binders@[j];
                        let was = old(self).binders()[j];
                        &&& now.same_registration(&was)
                        &&& now.wf() == was.wf()
                        &&& now.spec_detour().same_addresses(&was.spec_detour())
                        &&& now.spec_detour().spec_state() == if j < i {
                            was.spec_detour().reverted(patch)
                        } else {
                            was.spec_detour().spec_state()
                        }
                    },
            decreases n - i,
        {
            self.binders[i].revert(patch);
            i = i + 1;
        }
    }
}

} // verus!
