use hm3_sandbox::binder::{DetourBinder, Failure};
use hm3_sandbox::detour::{DetourState, Patch};
use hm3_sandbox::discovery::{contains_name, find_module, DiscoveryError};
use hm3_sandbox::hook_library::HookLibrary;
use hm3_sandbox::lookup::{AddressLookup, LookupMode};
use hm3_sandbox::module::Module;
use hm3_sandbox::scanner::ScanError;

const BASE: usize = 0x1_4000_0000;

fn named(path: Option<&str>) -> Module {
    Module::from_handle(0, path.map(String::from), BASE, BASE, 0)
}

#[test]
fn the_file_name_is_what_follows_the_last_separator() {
    assert_eq!(named(Some("C:\\Games\\Retail\\HITMAN3.exe")).filename().as_deref(), Some("HITMAN3.exe"));
    assert_eq!(named(Some("C:/Games/Retail/hitman3.exe")).filename().as_deref(), Some("hitman3.exe"));
    assert_eq!(named(Some("C:\\Games/mixed\\d3d12.dll")).filename().as_deref(), Some("d3d12.dll"));
    assert_eq!(named(Some("ntdll.dll")).filename().as_deref(), Some("ntdll.dll"));
    assert_eq!(named(Some("C:\\Games\\")).filename(), None);
    assert_eq!(named(Some("")).filename(), None);
    assert_eq!(named(None).filename(), None);
    assert_eq!(named(Some("C:\\Jeux\\été\\jeu.exe")).filename().as_deref(), Some("jeu.exe"));
}

#[test]
fn the_directory_is_what_precedes_the_last_separator() {
    assert_eq!(named(Some("C:\\Games\\Retail\\HITMAN3.exe")).directory().as_deref(), Some("C:\\Games\\Retail"));
    assert_eq!(named(Some("C:/Games/a.dll")).directory().as_deref(), Some("C:/Games"));
    assert_eq!(named(Some("\\a.dll")).directory().as_deref(), Some(""));
    assert_eq!(named(Some("C:\\Games\\")).directory().as_deref(), Some("C:\\Games"));
    assert_eq!(named(Some("ntdll.dll")).directory(), None);
    assert_eq!(named(None).directory(), None);
}

#[test]
fn names_are_compared_without_regard_to_case() {
    assert!(contains_name("hitman3.exe", "HITMAN3.EXE"));
    assert!(contains_name("HITMAN3.exe", "hitman3"));
    assert!(contains_name("xHitMan3.exe.bak", "HITMAN3.EXE"));
    assert!(contains_name("anything", ""));
    assert!(contains_name("", ""));
    assert!(!contains_name("", "a"));
    assert!(!contains_name("hitman2.exe", "HITMAN3.EXE"));
    assert!(!contains_name("hitman3.ex", "HITMAN3.EXE"));
    assert!(!contains_name("h\u{131}tman3.exe", "HITMAN3.EXE"));
    assert!(contains_name("[a]`{z}", "[A]`{Z}"));
    assert!(!contains_name("@", "`"));
    assert!(contains_name("été.exe", "É.EXE") == false);
    assert!(contains_name("été.exe", "é.EXE"));
}

#[test]
fn a_module_is_named_by_its_file_not_its_directory() {
    assert!(named(Some("C:\\Games\\Retail\\HITMAN3.exe")).is_named("HITMAN3.EXE"));
    assert!(named(Some("C:\\Games\\Retail\\hitman3.exe")).is_named("HITMAN3.EXE"));
    assert!(!named(Some("C:\\HITMAN3.EXE\\launcher.exe")).is_named("HITMAN3.EXE"));
    assert!(!named(None).is_named("HITMAN3.EXE"));
    assert!(named(None).is_named(""));
}

#[test]
fn the_first_module_with_the_name_is_found() {
    let modules = vec![
        named(Some("C:\\Windows\\System32\\ntdll.dll")),
        named(None),
        named(Some("C:\\Games\\Retail\\hitman3.exe")),
        named(Some("D:\\Copy\\HITMAN3.EXE")),
    ];
    assert_eq!(find_module(&modules, "HITMAN3.EXE"), Ok(2));
    assert_eq!(find_module(&modules, "ntdll"), Ok(0));
    assert_eq!(find_module(&modules, "d3d12.dll"), Err(DiscoveryError::ModuleNotFound));
    assert_eq!(find_module(&[], "HITMAN3.EXE"), Err(DiscoveryError::ModuleNotFound));
}

fn host_image() -> Vec<u8> {
    let mut image = vec![0x90u8; 2048];
    image[100..103].copy_from_slice(&[0x48, 0x8D, 0x0D]);
    image[103..108].copy_from_slice(&[0xE8, 0x00, 0x01, 0x00, 0x00]);
    image[700..704].copy_from_slice(&[0x48, 0x89, 0x5C, 0x24]);
    image
}

#[test]
fn a_lookup_keeps_the_address_it_found() {
    let image = host_image();
    let mut m = Module::from_handle(0, None, BASE, BASE, 2048);
    let mut direct = AddressLookup::new("lea", "48 8D 0D", LookupMode::Direct).unwrap();
    let mut call = AddressLookup::new("ZRenderManager", "48 8D 0D", LookupMode::RelativeCallsite).unwrap();
    assert_eq!(direct.name().as_str(), "lea");
    assert_eq!(call.pattern().as_str(), "48 8D 0D");
    assert_eq!(call.mode(), LookupMode::RelativeCallsite);
    assert_eq!(direct.address(), None);
    assert_eq!(direct.resolve(&mut m, &image), Ok(BASE + 100));
    assert_eq!(direct.address(), Some(BASE + 100));
    assert_eq!(call.resolve(&mut m, &image), Ok(BASE + 100 + 5 + 256));
    assert_eq!(call.address(), Some(BASE + 361));
    let wiped = vec![0u8; 2048];
    assert_eq!(call.resolve(&mut m, &wiped), Ok(BASE + 361));
    assert_eq!(m.scan_count(), 2);
}

#[test]
fn a_lookup_that_fails_names_itself_and_keeps_what_it_had() {
    let image = host_image();
    let mut m = Module::from_handle(0, None, BASE, BASE, 2048);
    let mut missing = AddressLookup::new("ZRenderManager", "48 8D 0E", LookupMode::RelativeCallsite).unwrap();
    let e = missing.resolve(&mut m, &image).unwrap_err();
    assert_eq!(e.cause, Failure::Scan(ScanError::NotFound));
    assert_eq!(e.message(), "failed to find ZRenderManager");
    assert_eq!(missing.address(), None);
    let mut far = AddressLookup::new("far", "48 89 5C 24", LookupMode::RelativeCallsite).unwrap();
    assert_eq!(far.resolve(&mut m, &image).unwrap_err().cause, Failure::Scan(ScanError::TargetOutOfBounds));
    assert_eq!(
        AddressLookup::new("bad", "48 8", LookupMode::Direct).unwrap_err().cause,
        Failure::Scan(ScanError::InvalidPattern)
    );
}

#[test]
fn a_library_looks_up_its_addresses_before_it_enables_its_detours() {
    let image = host_image();
    let mut m = Module::from_handle(0, None, BASE, BASE, 2048);
    let mut library = HookLibrary::new("zrender")
        .on_init(AddressLookup::new("ZRenderManager", "48 8D 0D", LookupMode::RelativeCallsite).unwrap())
        .with_detour(DetourBinder::new("WndProc", "48 89 5C 24", 0x5000).unwrap());
    assert_eq!(library.lookup(0).unwrap().address(), None);
    assert!(library.lookup(1).is_none());
    assert_eq!(
        library.enable(&mut m, &image),
        Ok(vec![Patch::Install { target: BASE + 700, replacement: 0x5000 }])
    );
    assert_eq!(library.lookup(0).unwrap().address(), Some(BASE + 361));
    assert_eq!(library.disable(), vec![Patch::Remove { target: BASE + 700 }]);
    assert_eq!(library.lookup(0).unwrap().address(), Some(BASE + 361));
}

#[test]
fn a_failed_lookup_leaves_the_detours_untouched() {
    let image = host_image();
    let mut m = Module::from_handle(0, None, BASE, BASE, 2048);
    let mut library = HookLibrary::new("zrender")
        .on_init(AddressLookup::new("found", "48 8D 0D", LookupMode::Direct).unwrap())
        .on_init(AddressLookup::new("lost", "AA BB", LookupMode::Direct).unwrap())
        .on_init(AddressLookup::new("later", "48 89", LookupMode::Direct).unwrap())
        .with_detour(DetourBinder::new("WndProc", "48 89 5C 24", 0x5000).unwrap());
    let e = library.enable(&mut m, &image).unwrap_err();
    assert_eq!(e.hook, "lost");
    assert_eq!(e.cause, Failure::Scan(ScanError::NotFound));
    assert_eq!(library.lookup(0).unwrap().address(), Some(BASE + 100));
    assert_eq!(library.lookup(1).unwrap().address(), None);
    assert_eq!(library.lookup(2).unwrap().address(), None);
    assert_eq!(library.binder(0).unwrap().detour().state(), DetourState::Uninitialized);
    assert_eq!(m.scan_count(), 2);
}

#[test]
fn a_failed_detour_leaves_the_lookups_resolved() {
    let image = host_image();
    let mut m = Module::from_handle(0, None, BASE, BASE, 2048);
    let mut library = HookLibrary::new("zrender")
        .on_init(AddressLookup::new("found", "48 8D 0D", LookupMode::Direct).unwrap())
        .with_detour(DetourBinder::new("WndProc", "48 89 5C 24", 0x5000).unwrap())
        .with_detour(DetourBinder::new("Present", "AA BB", 0x6000).unwrap());
    let e = library.enable(&mut m, &image).unwrap_err();
    assert_eq!(e.message(), "failed to find Present");
    assert_eq!(library.lookup(0).unwrap().address(), Some(BASE + 100));
    assert_eq!(library.binder(0).unwrap().detour().state(), DetourState::Disabled);
    assert_eq!(library.binder(1).unwrap().detour().state(), DetourState::Uninitialized);
}

#[test]
fn lookups_are_found_by_name() {
    let library = HookLibrary::new("zrender")
        .on_init(AddressLookup::new("a", "48", LookupMode::Direct).unwrap())
        .on_init(AddressLookup::new("b", "48", LookupMode::RelativeCallsite).unwrap())
        .on_init(AddressLookup::new("b", "49", LookupMode::Direct).unwrap());
    assert_eq!(library.lookup_named("a"), Some(0));
    assert_eq!(library.lookup_named("b"), Some(1));
    assert_eq!(library.lookup_named(""), None);
    assert_eq!(library.binder_named("a"), None);
    assert_eq!(library.lookup(1).unwrap().mode(), LookupMode::RelativeCallsite);
}
