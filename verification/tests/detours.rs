use hm3_sandbox::binder::{DetourBinder, Failure, HookError};
use hm3_sandbox::detour::{Detour, DetourError, DetourState, Patch};
use hm3_sandbox::hook_library::HookLibrary;
use hm3_sandbox::module::Module;
use hm3_sandbox::scanner::ScanError;

const BASE: usize = 0x7FF6_0000_0000;
const HOOK: usize = 0x7FFA_1234_0000;

fn image_with(at: usize, bytes: &[u8], len: usize) -> Vec<u8> {
    let mut image = vec![0u8; len];
    image[at..at + bytes.len()].copy_from_slice(bytes);
    image
}

fn module(len: usize) -> Module {
    Module::from_handle(1, None, BASE, BASE, len as u32)
}

#[test]
fn a_detour_walks_through_its_states() {
    let mut d = Detour::new();
    assert_eq!(d.state(), DetourState::Uninitialized);
    assert_eq!(d.initialize(0x1000, 0x2000), Ok(()));
    assert_eq!(d.state(), DetourState::Initialized);
    assert_eq!(d.enable(), Ok(Some(Patch::Install { target: 0x1000, replacement: 0x2000 })));
    assert_eq!(d.state(), DetourState::Enabled);
    assert!(d.is_enabled());
    assert_eq!(d.disable(), Ok(Some(Patch::Remove { target: 0x1000 })));
    assert_eq!(d.state(), DetourState::Disabled);
    assert!(!d.is_enabled());
    assert_eq!(d.enable(), Ok(Some(Patch::Install { target: 0x1000, replacement: 0x2000 })));
    assert_eq!(d.state(), DetourState::Enabled);
}

#[test]
fn an_uninitialized_detour_refuses_everything_but_initialize() {
    let mut d = Detour::new();
    assert_eq!(d.enable(), Err(DetourError::NotInitialized));
    assert_eq!(d.disable(), Err(DetourError::NotInitialized));
    assert_eq!(d.call(), Err(DetourError::NotInitialized));
    assert_eq!(d.replacement(), Err(DetourError::NotInitialized));
    assert_eq!(d.state(), DetourState::Uninitialized);
}

#[test]
fn a_detour_is_initialized_once() {
    let mut d = Detour::new();
    assert_eq!(d.initialize(0x1000, 0x2000), Ok(()));
    assert_eq!(d.initialize(0x3000, 0x4000), Err(DetourError::AlreadyInitialized));
    assert_eq!(d.call(), Ok(0x1000));
    assert_eq!(d.replacement(), Ok(0x2000));
    assert_eq!(d.state(), DetourState::Initialized);
    d.enable().unwrap();
    assert_eq!(d.initialize(0x3000, 0x4000), Err(DetourError::AlreadyInitialized));
    assert_eq!(d.state(), DetourState::Enabled);
}

#[test]
fn enabling_twice_patches_once() {
    let mut d = Detour::new();
    d.initialize(0x1000, 0x2000).unwrap();
    let mut installs = 0;
    for _ in 0..2 {
        if let Some(Patch::Install { .. }) = d.enable().unwrap() {
            installs += 1;
        }
    }
    assert_eq!(installs, 1);
    assert_eq!(d.state(), DetourState::Enabled);
    assert_eq!(d.enable(), Ok(None));
}

#[test]
fn disabling_what_was_never_enabled_does_nothing() {
    let mut d = Detour::new();
    d.initialize(0x1000, 0x2000).unwrap();
    assert_eq!(d.disable(), Ok(None));
    assert_eq!(d.state(), DetourState::Initialized);
    d.enable().unwrap();
    d.disable().unwrap();
    assert_eq!(d.disable(), Ok(None));
    assert_eq!(d.state(), DetourState::Disabled);
}

#[test]
fn call_reaches_the_original_in_every_initialized_state() {
    let mut d = Detour::new();
    d.initialize(0x1000, 0x2000).unwrap();
    assert_eq!(d.call(), Ok(0x1000));
    d.enable().unwrap();
    assert_eq!(d.call(), Ok(0x1000));
    d.disable().unwrap();
    assert_eq!(d.call(), Ok(0x1000));
}

#[test]
fn a_patch_that_was_not_written_is_taken_back() {
    let mut d = Detour::new();
    d.initialize(0x1000, 0x2000).unwrap();
    let install = d.enable().unwrap().unwrap();
    d.revert(Patch::Install { target: 0x9999, replacement: 0x2000 });
    assert_eq!(d.state(), DetourState::Enabled);
    d.revert(Patch::Remove { target: 0x1000 });
    assert_eq!(d.state(), DetourState::Enabled);
    d.revert(install);
    assert_eq!(d.state(), DetourState::Disabled);
    d.revert(install);
    assert_eq!(d.state(), DetourState::Disabled);
    d.enable().unwrap();
    let remove = d.disable().unwrap().unwrap();
    d.revert(remove);
    assert_eq!(d.state(), DetourState::Enabled);
    let mut fresh = Detour::new();
    fresh.revert(install);
    assert_eq!(fresh.state(), DetourState::Uninitialized);
}

#[test]
fn binders_check_their_pattern_when_registered() {
    assert!(DetourBinder::new("ok", "DE ? BE EF", HOOK).is_ok());
    assert_eq!(
        DetourBinder::new("WndProc", "DE ?? BE", HOOK).unwrap_err(),
        HookError { hook: String::from("WndProc"), cause: Failure::Scan(ScanError::InvalidPattern) }
    );
    assert_eq!(
        DetourBinder::new("empty", "", HOOK).unwrap_err().cause,
        Failure::Scan(ScanError::InvalidPattern)
    );
    let mut long = String::from("?");
    for _ in 0..1024 {
        long.push_str(" ?");
    }
    assert_eq!(
        DetourBinder::new("long", &long, HOOK).unwrap_err().cause,
        Failure::Scan(ScanError::PatternTooLong)
    );
}

#[test]
fn bind_finds_the_function_and_initializes_the_detour() {
    let image = image_with(42, &[0x48, 0x89, 0x5C, 0x24], 256);
    let mut m = module(256);
    let mut b = DetourBinder::new("ZApplicationEngineWin32::WndProc", "48 89 5C 24", HOOK).unwrap();
    assert_eq!(b.name().as_str(), "ZApplicationEngineWin32::WndProc");
    assert_eq!(b.pattern().as_str(), "48 89 5C 24");
    assert_eq!(b.detour().state(), DetourState::Uninitialized);
    assert_eq!(b.bind(&mut m, &image), Ok(()));
    assert_eq!(b.detour().state(), DetourState::Initialized);
    assert_eq!(b.detour().call(), Ok(BASE + 42));
    assert_eq!(b.detour().replacement(), Ok(HOOK));
    assert_eq!(b.enable(), Ok(Some(Patch::Install { target: BASE + 42, replacement: HOOK })));
    assert_eq!(b.enable(), Ok(None));
    assert_eq!(b.disable(), Ok(Some(Patch::Remove { target: BASE + 42 })));
    assert_eq!(b.disable(), Ok(None));
}

#[test]
fn bind_names_the_hook_it_could_not_find() {
    let image = vec![0u8; 256];
    let mut m = module(256);
    let mut b = DetourBinder::new("ZRenderManager", "48 8D 0D", HOOK).unwrap();
    let e = b.bind(&mut m, &image).unwrap_err();
    assert_eq!(e.cause, Failure::Scan(ScanError::NotFound));
    assert_eq!(e.hook, "ZRenderManager");
    assert_eq!(e.message(), "failed to find ZRenderManager");
    assert_eq!(b.detour().state(), DetourState::Uninitialized);
    let e = b.enable().unwrap_err();
    assert_eq!(e.cause, Failure::Detour(DetourError::NotInitialized));
    assert_eq!(e.message(), "detour not initialized for ZRenderManager");
    assert_eq!(b.disable().unwrap_err().cause, Failure::Detour(DetourError::NotInitialized));
}

#[test]
fn a_bound_hook_is_not_bound_anew() {
    let image = image_with(8, &[0xAA, 0xBB], 64);
    let mut m = module(64);
    let mut b = DetourBinder::new("twice", "AA BB", HOOK).unwrap();
    b.bind(&mut m, &image).unwrap();
    let e = b.bind(&mut m, &image).unwrap_err();
    assert_eq!(e.cause, Failure::Detour(DetourError::AlreadyInitialized));
    assert_eq!(e.message(), "detour already initialized for twice");
    assert_eq!(b.detour().call(), Ok(BASE + 8));
}

#[test]
fn every_failure_has_its_message() {
    let text = |cause| HookError { hook: String::from("h"), cause }.message();
    assert_eq!(text(Failure::Scan(ScanError::InvalidPattern)), "invalid pattern for h");
    assert_eq!(text(Failure::Scan(ScanError::PatternTooLong)), "pattern too long for h");
    assert_eq!(text(Failure::Scan(ScanError::NotFound)), "failed to find h");
    assert_eq!(text(Failure::Scan(ScanError::TruncatedCall)), "call cut short behind h");
    assert_eq!(text(Failure::Scan(ScanError::TargetOutOfBounds)), "call leaves the image behind h");
    assert_eq!(text(Failure::Scan(ScanError::AnchorOutOfBounds)), "anchor outside the image for h");
    assert_eq!(text(Failure::Detour(DetourError::NotInitialized)), "detour not initialized for h");
    assert_eq!(text(Failure::Detour(DetourError::AlreadyInitialized)), "detour already initialized for h");
}

#[test]
fn hook_binds_and_enables_in_one_step() {
    let image = image_with(3, &[0xAA, 0xBB], 64);
    let mut m = module(64);
    let mut b = DetourBinder::new("one", "AA BB", HOOK).unwrap();
    assert_eq!(b.hook(&mut m, &image), Ok(Patch::Install { target: BASE + 3, replacement: HOOK }));
    assert_eq!(b.detour().state(), DetourState::Enabled);
    let mut missing = DetourBinder::new("none", "CC", HOOK).unwrap();
    assert_eq!(missing.hook(&mut m, &image).unwrap_err().message(), "failed to find none");
    assert_eq!(missing.detour().state(), DetourState::Uninitialized);
}

#[test]
fn end_to_end_enable_and_disable() {
    let image = image_with(42, &[0xDE, 0xAD, 0xBE, 0xEF], 4096);
    let mut m = module(4096);
    m.backup_image(&image);
    let mut library = HookLibrary::new("rendering")
        .with_detour(DetourBinder::new("present", "DE AD ? EF", HOOK).unwrap());
    assert_eq!(library.name().as_str(), "rendering");
    assert_eq!(library.len(), 1);

    let plan = library.enable(&mut m, &image).unwrap();
    assert_eq!(plan, vec![Patch::Install { target: BASE + 42, replacement: HOOK }]);
    let detour = library.binder(0).unwrap().detour();
    assert_eq!(detour.state(), DetourState::Enabled);
    assert_eq!(detour.call(), Ok(BASE + 42));

    let undo = library.disable();
    assert_eq!(undo, vec![Patch::Remove { target: BASE + 42 }]);
    let detour = library.binder(0).unwrap().detour();
    assert_eq!(detour.state(), DetourState::Disabled);
    assert!(!detour.is_enabled());
    assert_eq!(detour.call(), Ok(BASE + 42));
    assert_eq!(library.disable(), vec![]);
    assert!(library.binder(1).is_none());
}

#[test]
fn a_library_that_fails_partway_is_rolled_back() {
    let mut image = vec![0u8; 512];
    image[10..12].copy_from_slice(&[0xA1, 0xA2]);
    image[30..32].copy_from_slice(&[0xC1, 0xC2]);
    let mut m = module(512);
    let mut library = HookLibrary::new("game")
        .with_detour(DetourBinder::new("first", "A1 A2", HOOK).unwrap())
        .with_detour(DetourBinder::new("second", "B1 B2", HOOK + 0x10).unwrap())
        .with_detour(DetourBinder::new("third", "C1 C2", HOOK + 0x20).unwrap());

    let e = library.enable(&mut m, &image).unwrap_err();
    assert_eq!(e, HookError { hook: String::from("second"), cause: Failure::Scan(ScanError::NotFound) });
    assert_eq!(e.message(), "failed to find second");

    let first = library.binder(0).unwrap().detour();
    assert_eq!(first.state(), DetourState::Disabled);
    assert_eq!(first.call(), Ok(BASE + 10));
    assert_eq!(library.binder(1).unwrap().detour().state(), DetourState::Uninitialized);
    assert_eq!(library.binder(2).unwrap().detour().state(), DetourState::Uninitialized);
    assert_eq!(m.scan_count(), 2);
    assert_eq!(library.disable(), vec![]);
}

#[test]
fn a_library_enables_its_hooks_in_order() {
    let mut image = vec![0u8; 512];
    image[10..12].copy_from_slice(&[0xA1, 0xA2]);
    image[30..32].copy_from_slice(&[0xC1, 0xC2]);
    image[300..302].copy_from_slice(&[0xB1, 0xB2]);
    let mut m = module(512);
    let mut library = HookLibrary::new("game")
        .with_detour(DetourBinder::new("first", "A1 A2", HOOK).unwrap())
        .with_detour(DetourBinder::new("second", "B1 B2", HOOK + 0x10).unwrap())
        .with_detour(DetourBinder::new("third", "C1 C2", HOOK + 0x20).unwrap());
    assert_eq!(
        library.enable(&mut m, &image),
        Ok(vec![
            Patch::Install { target: BASE + 10, replacement: HOOK },
            Patch::Install { target: BASE + 300, replacement: HOOK + 0x10 },
            Patch::Install { target: BASE + 30, replacement: HOOK + 0x20 },
        ])
    );
    for i in 0..3 {
        assert_eq!(library.binder(i).unwrap().detour().state(), DetourState::Enabled);
    }
    assert_eq!(
        library.disable(),
        vec![
            Patch::Remove { target: BASE + 10 },
            Patch::Remove { target: BASE + 300 },
            Patch::Remove { target: BASE + 30 },
        ]
    );
}

#[test]
fn a_library_is_enabled_once() {
    let image = image_with(10, &[0xA1, 0xA2], 64);
    let mut m = module(64);
    let mut library =
        HookLibrary::new("once").with_detour(DetourBinder::new("first", "A1 A2", HOOK).unwrap());
    library.enable(&mut m, &image).unwrap();
    let e = library.enable(&mut m, &image).unwrap_err();
    assert_eq!(e.cause, Failure::Detour(DetourError::AlreadyInitialized));
    assert_eq!(e.hook, "first");
    assert_eq!(library.binder(0).unwrap().detour().state(), DetourState::Enabled);
}

#[test]
fn an_empty_library_has_nothing_to_do() {
    let mut m = module(16);
    let mut library = HookLibrary::new("empty");
    assert_eq!(library.enable(&mut m, &[0u8; 16]), Ok(vec![]));
    assert_eq!(library.disable(), vec![]);
}

#[test]
fn unwritten_patches_are_taken_back_in_the_library() {
    let mut image = vec![0u8; 512];
    image[10..12].copy_from_slice(&[0xA1, 0xA2]);
    image[30..32].copy_from_slice(&[0xC1, 0xC2]);
    let mut m = module(512);
    let mut library = HookLibrary::new("game")
        .with_detour(DetourBinder::new("first", "A1 A2", HOOK).unwrap())
        .with_detour(DetourBinder::new("third", "C1 C2", HOOK + 0x20).unwrap());
    let plan = library.enable(&mut m, &image).unwrap();
    library.revert(plan[1]);
    assert_eq!(library.binder(0).unwrap().detour().state(), DetourState::Enabled);
    assert_eq!(library.binder(1).unwrap().detour().state(), DetourState::Disabled);
    assert_eq!(library.disable(), vec![Patch::Remove { target: BASE + 10 }]);
}

#[test]
fn a_plan_that_could_not_be_written_is_given_up() {
    let mut image = vec![0u8; 512];
    image[10..12].copy_from_slice(&[0xA1, 0xA2]);
    image[30..32].copy_from_slice(&[0xC1, 0xC2]);
    image[300..302].copy_from_slice(&[0xB1, 0xB2]);
    for written in 0..=4usize {
        let mut m = module(512);
        let mut library = HookLibrary::new("game")
            .with_detour(DetourBinder::new("first", "A1 A2", HOOK).unwrap())
            .with_detour(DetourBinder::new("second", "B1 B2", HOOK + 0x10).unwrap())
            .with_detour(DetourBinder::new("third", "C1 C2", HOOK + 0x20).unwrap());
        let plan = library.enable(&mut m, &image).unwrap();
        let undo = library.abandon(&plan, written);
        let expected: Vec<Patch> = [BASE + 10, BASE + 300, BASE + 30]
            .iter()
            .take(written)
            .map(|&target| Patch::Remove { target })
            .collect();
        assert_eq!(undo, expected, "written {written}");
        for i in 0..3 {
            assert_eq!(library.binder(i).unwrap().detour().state(), DetourState::Disabled);
        }
        assert_eq!(library.disable(), vec![]);
    }
}

#[test]
fn giving_up_a_removal_leaves_the_redirect_to_be_removed() {
    let image = image_with(10, &[0xA1, 0xA2], 64);
    let mut m = module(64);
    let mut library =
        HookLibrary::new("game").with_detour(DetourBinder::new("first", "A1 A2", HOOK).unwrap());
    library.enable(&mut m, &image).unwrap();
    let removal = library.disable();
    assert_eq!(removal, vec![Patch::Remove { target: BASE + 10 }]);
    assert_eq!(library.abandon(&removal, 0), vec![Patch::Remove { target: BASE + 10 }]);
    assert_eq!(library.binder(0).unwrap().detour().state(), DetourState::Disabled);
    assert_eq!(library.abandon(&[], 3), vec![]);
}

#[test]
fn hooks_are_found_by_name() {
    let library = HookLibrary::new("game")
        .with_detour(DetourBinder::new("first", "A1 A2", HOOK).unwrap())
        .with_detour(DetourBinder::new("second", "B1 B2", HOOK).unwrap())
        .with_detour(DetourBinder::new("first", "C1 C2", HOOK).unwrap());
    assert_eq!(library.binder_named("first"), Some(0));
    assert_eq!(library.binder_named("second"), Some(1));
    assert_eq!(library.binder_named("third"), None);
    assert_eq!(library.binder_named("FIRST"), None);
    assert_eq!(library.lookup_named("first"), None);
}
