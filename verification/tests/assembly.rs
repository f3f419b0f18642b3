use std::collections::{BTreeMap, BTreeSet};

use uniffi_swift_helper::apple_platform::ApplePlatform;
use uniffi_swift_helper::assembly::{Assembly, Event, Step};
use uniffi_swift_helper::cargo_build::CargoProfile;
use uniffi_swift_helper::error::PackagingError;
use uniffi_swift_helper::utils::FileEntry;
use uniffi_swift_helper::xcframework::{
    LibraryGroup, LibraryGroupId, ResolvedTarget, XCFramework,
};

/// What the steps of an assembly find on disk.
struct Disk {
    listings: BTreeMap<String, Vec<(String, bool)>>,
    missing: BTreeSet<String>,
    failing_tool: Option<String>,
    failing_copy: Option<String>,
    failing_rename: Option<String>,
}

impl Disk {
    fn new() -> Disk {
        Disk {
            listings: BTreeMap::new(),
            missing: BTreeSet::new(),
            failing_tool: None,
            failing_copy: None,
            failing_rename: None,
        }
    }

    fn with(mut self, directory: &str, files: &[&str], directories: &[&str]) -> Disk {
        let mut entries = Vec::new();
        for f in files {
            entries.push((f.to_string(), true));
        }
        for d in directories {
            entries.push((d.to_string(), false));
        }
        self.listings.insert(directory.to_string(), entries);
        self
    }

    fn failing_copy_to(mut self, path: &str) -> Disk {
        self.failing_copy = Some(path.to_string());
        self
    }

    fn failing_rename_to(mut self, path: &str) -> Disk {
        self.failing_rename = Some(path.to_string());
        self
    }

    fn failing(mut self, tool: &str) -> Disk {
        self.failing_tool = Some(tool.to_string());
        self
    }

    fn without(mut self, path: &str) -> Disk {
        self.missing.insert(path.to_string());
        self
    }

    fn list(&self, directory: &str) -> Vec<FileEntry> {
        self.listings
            .get(directory)
            .map(|entries| {
                entries
                    .iter()
                    .map(|(name, is_file)| FileEntry {
                        name: name.clone(),
                        is_file: *is_file,
                        is_dir: !*is_file,
                    })
                    .collect()
            })
            .unwrap_or_default()
    }
}

fn shown(step: &Step) -> String {
    match step {
        Step::List { directory } => format!("list {}", directory),
        Step::Require { path, .. } => format!("require {}", path),
        Step::Recreate { directory } => format!("recreate {}", directory),
        Step::Remove { directory } => format!("remove {}", directory),
        Step::Copy { from, to } => format!("copy {} {}", from, to),
        Step::Rename { from, to } => format!("rename {} {}", from, to),
        Step::Run { command } => format!("run {}", command.join(" ")),
        Step::Finished => "finished".to_string(),
        Step::Failed(_) => "failed".to_string(),
    }
}

/// Takes the steps of an assembly against a disk, and gives the steps
/// taken and how the run ended.
fn run(mut assembly: Assembly, disk: &Disk) -> (Vec<String>, Result<(), PackagingError>) {
    let mut log = Vec::new();
    let mut event = Event::Done;
    for _ in 0..1000 {
        let (next, step) = assembly.next(event);
        assembly = next;
        log.push(shown(&step));
        event = match step {
            Step::List { directory } => Event::Listing(disk.list(&directory)),
            Step::Require { path, .. } => Event::Exists(!disk.missing.contains(&path)),
            Step::Run { command } if Some(&command[0]) == disk.failing_tool.as_ref() => {
                Event::Failed(PackagingError::CommandFailed {
                    command: command.join(" "),
                    status: "exit status: 70".to_string(),
                    stdout: Vec::new(),
                    stderr: b"duplicate platform".to_vec(),
                })
            }
            Step::Copy { to, .. } if Some(&to) == disk.failing_copy.as_ref() => {
                Event::Failed(PackagingError::Io { message: "disk full".to_string() })
            }
            Step::Rename { to, .. } if Some(&to) == disk.failing_rename.as_ref() => {
                Event::Failed(PackagingError::Io { message: "cross-device link".to_string() })
            }
            Step::Finished => return (log, Ok(())),
            Step::Failed(e) => return (log, Err(e)),
            _ => Event::Done,
        };
    }
    panic!("the assembly does not end");
}

fn target(name: &str, os: ApplePlatform, is_sim: bool) -> ResolvedTarget {
    ResolvedTarget { target: name.to_string(), id: LibraryGroupId { os, is_sim } }
}

fn assembly_of(targets: Vec<ResolvedTarget>) -> Assembly {
    Assembly::new(
        XCFramework::group(&targets, CargoProfile::Release),
        "/t",
        "libwp",
        "/t/tmp/x",
        "/t/libwp/libwp.xcframework",
        "/t/libwp/swift-wrapper",
    )
}

fn two_mac_triples() -> Vec<ResolvedTarget> {
    vec![
        target("a1-apple-macos", ApplePlatform::MacOS, false),
        target("a2-apple-macos", ApplePlatform::MacOS, false),
    ]
}

fn mac_disk() -> Disk {
    Disk::new()
        .with("/t/a1-apple-macos/release", &["libwp_api.a", "libwp_api.d"], &["swift-bindings"])
        .with("/t/a2-apple-macos/release", &["libwp_api.a"], &["swift-bindings"])
        .with("/t/tmp/x/libwp.xcframework", &["Info.plist"], &["macos-arm64_x86_64"])
        .with(
            "/t/tmp/x/libwp.xcframework/macos-arm64_x86_64/Headers",
            &["libwp.a", "wp_api.h", "module.modulemap"],
            &[],
        )
        .with(
            "/t/a1-apple-macos/release/swift-bindings",
            &["wp_api.swift", "wp_api.h"],
            &["headers"],
        )
}

#[test]
fn run_for_two_triples_of_one_platform() {
    let (log, result) = run(assembly_of(two_mac_triples()), &mac_disk());
    assert!(result.is_ok(), "{:?}", result);
    assert_eq!(
        log,
        vec![
            "recreate /t/tmp/x",
            "remove /t/tmp/x/libwp.xcframework",
            "list /t/a1-apple-macos/release",
            "require /t/a1-apple-macos/release/libwp_api.a",
            "recreate /t/tmp/x/a1-apple-macos",
            "copy /t/a1-apple-macos/release/libwp_api.a /t/tmp/x/a1-apple-macos/libwp.a",
            "list /t/a2-apple-macos/release",
            "require /t/a2-apple-macos/release/libwp_api.a",
            "recreate /t/tmp/x/a2-apple-macos",
            "copy /t/a2-apple-macos/release/libwp_api.a /t/tmp/x/a2-apple-macos/libwp.a",
            "recreate /t/tmp/x/macos",
            "run xcrun lipo -create /t/tmp/x/a1-apple-macos/libwp.a /t/tmp/x/a2-apple-macos/libwp.a -output /t/tmp/x/macos/libwp.a",
            "require /t/a1-apple-macos/release/swift-bindings",
            "require /t/a1-apple-macos/release/swift-bindings/headers",
            "run xcodebuild -create-xcframework -library /t/tmp/x/macos/libwp.a -headers /t/a1-apple-macos/release/swift-bindings/headers -output /t/tmp/x/libwp.xcframework",
            "list /t/tmp/x/libwp.xcframework",
            "list /t/tmp/x/libwp.xcframework/macos-arm64_x86_64/Headers",
            "recreate /t/tmp/x/libwp.xcframework/macos-arm64_x86_64/Headers/libwp",
            "rename /t/tmp/x/libwp.xcframework/macos-arm64_x86_64/Headers/wp_api.h /t/tmp/x/libwp.xcframework/macos-arm64_x86_64/Headers/libwp/wp_api.h",
            "rename /t/tmp/x/libwp.xcframework/macos-arm64_x86_64/Headers/module.modulemap /t/tmp/x/libwp.xcframework/macos-arm64_x86_64/Headers/libwp/module.modulemap",
            "require /t/a1-apple-macos/release/swift-bindings",
            "list /t/a1-apple-macos/release/swift-bindings",
            "recreate /t/libwp/swift-wrapper",
            "copy /t/a1-apple-macos/release/swift-bindings/wp_api.swift /t/libwp/swift-wrapper/wp_api.swift",
            "recreate /t/libwp/libwp.xcframework",
            "rename /t/tmp/x/libwp.xcframework /t/libwp/libwp.xcframework",
            "remove /t/tmp/x",
            "finished",
        ]
    );
}

#[test]
fn bundler_runs_once_with_one_pair_for_each_platform() {
    let targets = vec![
        target("aarch64-apple-ios", ApplePlatform::IOS, false),
        target("x86_64-apple-ios", ApplePlatform::IOS, true),
        target("aarch64-apple-ios-sim", ApplePlatform::IOS, true),
    ];
    let disk = Disk::new()
        .with("/t/aarch64-apple-ios/release", &["libwp_api.a"], &[])
        .with("/t/x86_64-apple-ios/release", &["libwp_api.a"], &[])
        .with("/t/aarch64-apple-ios-sim/release", &["libwp_api.a"], &[])
        .with("/t/tmp/x/libwp.xcframework", &[], &["ios-arm64", "ios-arm64_x86_64-simulator"])
        .with("/t/aarch64-apple-ios/release/swift-bindings", &["wp_api.swift"], &[]);
    let (log, result) = run(assembly_of(targets), &disk);
    assert!(result.is_ok(), "{:?}", result);
    let bundler: Vec<&String> = log.iter().filter(|s| s.starts_with("run xcodebuild")).collect();
    assert_eq!(bundler.len(), 1);
    assert_eq!(bundler[0].matches("-library").count(), 2);
    assert_eq!(bundler[0].matches("-headers").count(), 2);
    let merges: Vec<&String> = log.iter().filter(|s| s.starts_with("run xcrun lipo")).collect();
    assert_eq!(
        merges,
        vec![
            "run xcrun lipo -create /t/tmp/x/aarch64-apple-ios/libwp.a -output /t/tmp/x/ios/libwp.a",
            "run xcrun lipo -create /t/tmp/x/x86_64-apple-ios/libwp.a /t/tmp/x/aarch64-apple-ios-sim/libwp.a -output /t/tmp/x/ios-sim/libwp.a",
        ]
    );
    let bundled = log.iter().position(|s| s.starts_with("run xcodebuild")).unwrap();
    assert!(log.iter().rposition(|s| s.starts_with("run xcrun lipo")).unwrap() < bundled);
    let patched: Vec<&String> = log.iter().filter(|s| s.ends_with("/Headers/libwp")).collect();
    assert_eq!(
        patched,
        vec![
            "recreate /t/tmp/x/libwp.xcframework/ios-arm64/Headers/libwp",
            "recreate /t/tmp/x/libwp.xcframework/ios-arm64_x86_64-simulator/Headers/libwp",
        ]
    );
}

#[test]
fn destination_is_emptied_right_before_the_bundle_moves_in() {
    let (log, result) = run(assembly_of(two_mac_triples()), &mac_disk());
    assert!(result.is_ok());
    let touching: Vec<usize> = log
        .iter()
        .enumerate()
        .filter(|(_, s)| s.ends_with(" /t/libwp/libwp.xcframework"))
        .map(|(i, _)| i)
        .collect();
    assert_eq!(touching.len(), 2);
    assert_eq!(log[touching[0]], "recreate /t/libwp/libwp.xcframework");
    assert_eq!(touching[1], touching[0] + 1);
    assert_eq!(log[touching[1]], "rename /t/tmp/x/libwp.xcframework /t/libwp/libwp.xcframework");
    let bundled = log.iter().position(|s| s.starts_with("run xcodebuild")).unwrap();
    let last_patch = log.iter().rposition(|s| s.contains("/Headers/libwp/")).unwrap();
    let last_copy = log.iter().rposition(|s| s.starts_with("copy ")).unwrap();
    assert!(bundled < touching[0]);
    assert!(last_patch < touching[0]);
    assert!(last_copy < touching[0]);
    assert_eq!(&log[touching[1] + 1..], ["remove /t/tmp/x", "finished"]);
}

#[test]
fn failed_copy_of_binding_sources_leaves_no_bundle() {
    let disk = mac_disk().failing_copy_to("/t/libwp/swift-wrapper/wp_api.swift");
    let (log, result) = run(assembly_of(two_mac_triples()), &disk);
    match result {
        Err(PackagingError::Io { message }) => assert_eq!(message, "disk full"),
        other => panic!("unexpected: {:?}", other),
    }
    assert!(log.iter().all(|s| !s.ends_with(" /t/libwp/libwp.xcframework")));
    assert_eq!(log[log.len() - 2], "remove /t/tmp/x");
    assert_eq!(log.last().unwrap(), "failed");
}

#[test]
fn failed_move_of_the_bundle_removes_the_destination() {
    let disk = mac_disk().failing_rename_to("/t/libwp/libwp.xcframework");
    let (log, result) = run(assembly_of(two_mac_triples()), &disk);
    assert!(matches!(result, Err(PackagingError::Io { .. })));
    assert_eq!(
        &log[log.len() - 5..],
        [
            "recreate /t/libwp/libwp.xcframework",
            "rename /t/tmp/x/libwp.xcframework /t/libwp/libwp.xcframework",
            "remove /t/libwp/libwp.xcframework",
            "remove /t/tmp/x",
            "failed"
        ]
    );
}

#[test]
fn patched_bundle_fails_the_run() {
    let disk = mac_disk().with(
        "/t/tmp/x/libwp.xcframework/macos-arm64_x86_64/Headers",
        &["libwp.a"],
        &["libwp"],
    );
    let (log, result) = run(assembly_of(two_mac_triples()), &disk);
    match result {
        Err(PackagingError::AlreadyPatched { directory }) => {
            assert_eq!(directory, "/t/tmp/x/libwp.xcframework/macos-arm64_x86_64/Headers/libwp")
        }
        other => panic!("unexpected: {:?}", other),
    }
    assert!(log.iter().all(|s| !s.starts_with("rename")));
    assert!(log.iter().all(|s| !s.contains("/t/libwp/")));
    assert!(log.iter().all(|s| !s.starts_with("recreate /t/tmp/x/libwp.xcframework")));
    assert_eq!(log[log.len() - 2], "remove /t/tmp/x");
}

#[test]
fn failed_run_leaves_the_destination_alone() {
    let disk = mac_disk().with("/t/a2-apple-macos/release", &["liba.a", "libb.a"], &[]);
    let (log, result) = run(assembly_of(two_mac_triples()), &disk);
    match result {
        Err(PackagingError::AmbiguousArtifact { directory, candidates }) => {
            assert_eq!(directory, "/t/a2-apple-macos/release");
            assert_eq!(
                candidates,
                vec!["/t/a2-apple-macos/release/liba.a", "/t/a2-apple-macos/release/libb.a"]
            );
        }
        other => panic!("unexpected: {:?}", other),
    }
    assert!(log.iter().all(|s| !s.contains("/t/libwp/")));
    assert!(log.iter().all(|s| !s.starts_with("run")));
    assert_eq!(log[log.len() - 2], "remove /t/tmp/x");
    assert_eq!(log.last().unwrap(), "failed");
}

#[test]
fn failed_bundler_leaves_the_destination_alone() {
    let disk = mac_disk().failing("xcodebuild");
    let (log, result) = run(assembly_of(two_mac_triples()), &disk);
    match result {
        Err(PackagingError::CommandFailed { command, stderr, .. }) => {
            assert!(command.starts_with("xcodebuild -create-xcframework"));
            assert_eq!(stderr, b"duplicate platform");
        }
        other => panic!("unexpected: {:?}", other),
    }
    assert!(log.iter().all(|s| !s.contains("/t/libwp/")));
    assert_eq!(log.iter().filter(|s| s.starts_with("run xcodebuild")).count(), 1);
    assert_eq!(log[log.len() - 3], log.iter().find(|s| s.starts_with("run xcodebuild")).unwrap().as_str());
    assert_eq!(log[log.len() - 2], "remove /t/tmp/x");
    assert_eq!(log.last().unwrap(), "failed");
}

#[test]
fn failed_merge_ends_the_run() {
    let disk = mac_disk().failing("xcrun");
    let (log, result) = run(assembly_of(two_mac_triples()), &disk);
    assert!(matches!(result, Err(PackagingError::CommandFailed { .. })));
    assert!(log.iter().all(|s| !s.starts_with("run xcodebuild")));
    assert_eq!(log[log.len() - 2], "remove /t/tmp/x");
}

#[test]
fn slice_without_library_fails_the_run() {
    let disk = mac_disk().with("/t/a1-apple-macos/release", &["libwp_api.d"], &[]);
    let (log, result) = run(assembly_of(two_mac_triples()), &disk);
    assert!(matches!(result, Err(PackagingError::AmbiguousArtifact { .. })));
    assert_eq!(
        log,
        vec![
            "recreate /t/tmp/x",
            "remove /t/tmp/x/libwp.xcframework",
            "list /t/a1-apple-macos/release",
            "remove /t/tmp/x",
            "failed"
        ]
    );
}

#[test]
fn vanished_library_fails_the_run() {
    let disk = mac_disk().without("/t/a1-apple-macos/release/libwp_api.a");
    let (log, result) = run(assembly_of(two_mac_triples()), &disk);
    match result {
        Err(PackagingError::LibraryNotFound { path }) => {
            assert_eq!(path, "/t/a1-apple-macos/release/libwp_api.a")
        }
        other => panic!("unexpected: {:?}", other),
    }
    assert_eq!(log.len(), 6);
    assert_eq!(log[4], "remove /t/tmp/x");
}

#[test]
fn missing_headers_fail_the_run() {
    let disk = mac_disk().without("/t/a1-apple-macos/release/swift-bindings/headers");
    let (log, result) = run(assembly_of(two_mac_triples()), &disk);
    match result {
        Err(PackagingError::HeadersNotFound { path }) => {
            assert_eq!(path, "/t/a1-apple-macos/release/swift-bindings/headers")
        }
        other => panic!("unexpected: {:?}", other),
    }
    assert!(log.iter().all(|s| !s.starts_with("run xcodebuild")));
    let disk = mac_disk().without("/t/a1-apple-macos/release/swift-bindings");
    let (_, result) = run(assembly_of(two_mac_triples()), &disk);
    match result {
        Err(PackagingError::HeadersNotFound { path }) => {
            assert_eq!(path, "/t/a1-apple-macos/release/swift-bindings")
        }
        other => panic!("unexpected: {:?}", other),
    }
}

#[test]
fn group_without_slices_fails_before_any_merge() {
    let framework = XCFramework {
        libraries: vec![LibraryGroup {
            id: LibraryGroupId { os: ApplePlatform::IOS, is_sim: false },
            slices: vec![],
        }],
    };
    let assembly = Assembly::new(framework, "/t", "libwp", "/t/tmp/x", "/d", "/s");
    let (log, result) = run(assembly, &Disk::new());
    assert!(matches!(result, Err(PackagingError::NoSlices)));
    assert_eq!(
        log,
        vec![
            "recreate /t/tmp/x",
            "remove /t/tmp/x/libwp.xcframework",
            "remove /t/tmp/x",
            "failed"
        ]
    );
}

#[test]
fn no_groups_are_nothing_to_bundle() {
    let assembly = assembly_of(vec![]);
    let (log, result) = run(assembly, &Disk::new());
    assert!(matches!(result, Err(PackagingError::NoSlices)));
    assert_eq!(
        log,
        vec!["recreate /t/tmp/x", "remove /t/tmp/x/libwp.xcframework", "remove /t/tmp/x", "failed"]
    );
}

#[test]
fn answer_that_does_not_fit_fails_the_run() {
    let assembly = assembly_of(two_mac_triples());
    let (assembly, step) = assembly.next(Event::Exists(true));
    assert_eq!(shown(&step), "remove /t/tmp/x");
    let (assembly, step) = assembly.next(Event::Listing(vec![]));
    assert!(matches!(step, Step::Failed(PackagingError::UnexpectedAnswer)));
    let (_, step) = assembly.next(Event::Done);
    assert!(matches!(step, Step::Failed(PackagingError::UnexpectedAnswer)));

    let assembly = assembly_of(two_mac_triples());
    let (assembly, _) = assembly.next(Event::Done);
    let (assembly, _) = assembly.next(Event::Done);
    let (assembly, step) = assembly.next(Event::Done);
    assert!(matches!(step, Step::List { .. }));
    let (assembly, step) = assembly.next(Event::Done);
    assert_eq!(shown(&step), "remove /t/tmp/x");
    let (_, step) = assembly.next(Event::Done);
    assert!(matches!(step, Step::Failed(PackagingError::UnexpectedAnswer)));
}

#[test]
fn step_that_cannot_be_taken_fails_the_run() {
    let assembly = assembly_of(two_mac_triples());
    let (assembly, _) = assembly.next(Event::Done);
    let (assembly, step) = assembly.next(Event::Failed(PackagingError::Io {
        message: "permission denied".to_string(),
    }));
    assert_eq!(shown(&step), "remove /t/tmp/x");
    let (_, step) = assembly.next(Event::Done);
    match step {
        Step::Failed(PackagingError::Io { message }) => assert_eq!(message, "permission denied"),
        other => panic!("unexpected: {:?}", other),
    }
}

#[test]
fn finished_run_takes_no_more_answers() {
    let mut assembly = assembly_of(two_mac_triples());
    let disk = mac_disk();
    let mut event = Event::Done;
    loop {
        let (next, step) = assembly.next(event);
        assembly = next;
        event = match step {
            Step::List { directory } => Event::Listing(disk.list(&directory)),
            Step::Require { .. } => Event::Exists(true),
            Step::Finished => break,
            Step::Failed(e) => panic!("unexpected: {:?}", e),
            _ => Event::Done,
        };
    }
    let (_, step) = assembly.next(Event::Done);
    assert!(matches!(step, Step::Failed(PackagingError::UnexpectedAnswer)));
}
