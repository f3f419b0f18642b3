use uniffi_swift_helper::apple_platform::ApplePlatform;
use uniffi_swift_helper::cargo_build::CargoProfile;
use uniffi_swift_helper::error::PackagingError;
use uniffi_swift_helper::utils::{files_with_extension, FileEntry};
use uniffi_swift_helper::xcframework::{
    create_xcframework, present, LibraryGroup, LibraryGroupId, Missing, ResolvedTarget, Slice,
    TargetSpec, XCFramework,
};

fn resolved(target: &str, os: ApplePlatform, is_sim: bool) -> ResolvedTarget {
    ResolvedTarget { target: target.to_string(), id: LibraryGroupId { os, is_sim } }
}

fn spec(target: &str, llvm_target: &str) -> TargetSpec {
    TargetSpec {
        target: target.to_string(),
        spec_json: format!(r#"{{"llvm-target": "{}"}}"#, llvm_target).into_bytes(),
    }
}

fn file(name: &str) -> FileEntry {
    FileEntry { name: name.to_string(), is_file: true, is_dir: false }
}

fn directory(name: &str) -> FileEntry {
    FileEntry { name: name.to_string(), is_file: false, is_dir: true }
}

fn targets_of(group: &LibraryGroup) -> Vec<String> {
    group.slices.iter().map(|s| s.target.clone()).collect()
}

#[test]
fn same_identity_gives_one_group_with_two_slices() {
    let framework = XCFramework::group(
        &vec![
            resolved("a1-apple-macos", ApplePlatform::MacOS, false),
            resolved("a2-apple-macos", ApplePlatform::MacOS, false),
        ],
        CargoProfile::Release,
    );
    assert_eq!(framework.libraries.len(), 1);
    assert_eq!(framework.libraries[0].id, LibraryGroupId { os: ApplePlatform::MacOS, is_sim: false });
    assert_eq!(targets_of(&framework.libraries[0]), vec!["a1-apple-macos", "a2-apple-macos"]);

    let merge = framework.libraries[0].create("libwp", "/t/tmp").unwrap();
    assert_eq!(
        merge.command,
        vec![
            "xcrun",
            "lipo",
            "-create",
            "/t/tmp/a1-apple-macos/libwp.a",
            "/t/tmp/a2-apple-macos/libwp.a",
            "-output",
            "/t/tmp/macos/libwp.a"
        ]
    );
    assert_eq!(merge.directory, "/t/tmp/macos");
    assert_eq!(merge.destination, "/t/tmp/macos/libwp.a");

    let bundling = framework.create_xcframework("/t", "libwp", "/t/tmp").unwrap();
    assert_eq!(
        bundling.command,
        vec![
            "xcodebuild",
            "-create-xcframework",
            "-library",
            "/t/tmp/macos/libwp.a",
            "-headers",
            "/t/a1-apple-macos/release/swift-bindings/headers",
            "-output",
            "/t/tmp/libwp.xcframework"
        ]
    );
    assert_eq!(bundling.command.iter().filter(|a| *a == "-library").count(), 1);
    assert_eq!(bundling.command.iter().filter(|a| *a == "-headers").count(), 1);
    assert_eq!(bundling.destination, "/t/tmp/libwp.xcframework");
}

#[test]
fn two_identities_give_exactly_two_pairs() {
    let framework = XCFramework::group(
        &vec![
            resolved("aarch64-apple-ios", ApplePlatform::IOS, false),
            resolved("x86_64-apple-ios", ApplePlatform::IOS, true),
            resolved("aarch64-apple-ios-sim", ApplePlatform::IOS, true),
        ],
        CargoProfile::Dev,
    );
    assert_eq!(framework.libraries.len(), 2);
    let bundling = framework.create_xcframework("/t", "libwp", "/t/tmp").unwrap();
    assert_eq!(bundling.command.iter().filter(|a| *a == "-library").count(), 2);
    assert_eq!(bundling.command.iter().filter(|a| *a == "-headers").count(), 2);
    assert_eq!(
        bundling.command,
        vec![
            "xcodebuild",
            "-create-xcframework",
            "-library",
            "/t/tmp/ios/libwp.a",
            "-headers",
            "/t/aarch64-apple-ios/debug/swift-bindings/headers",
            "-library",
            "/t/tmp/ios-sim/libwp.a",
            "-headers",
            "/t/x86_64-apple-ios/debug/swift-bindings/headers",
            "-output",
            "/t/tmp/libwp.xcframework"
        ]
    );
}

#[test]
fn grouping_is_a_partition_by_identity() {
    let input = vec![
        resolved("t0", ApplePlatform::IOS, true),
        resolved("t1", ApplePlatform::MacOS, false),
        resolved("t2", ApplePlatform::IOS, false),
        resolved("t3", ApplePlatform::IOS, true),
        resolved("t4", ApplePlatform::MacOS, false),
        resolved("t5", ApplePlatform::TvOS, true),
        resolved("t6", ApplePlatform::IOS, true),
    ];
    let framework = XCFramework::group(&input, CargoProfile::Release);
    let ids: Vec<LibraryGroupId> = framework.libraries.iter().map(|g| g.id).collect();
    assert_eq!(
        ids,
        vec![
            LibraryGroupId { os: ApplePlatform::IOS, is_sim: true },
            LibraryGroupId { os: ApplePlatform::MacOS, is_sim: false },
            LibraryGroupId { os: ApplePlatform::IOS, is_sim: false },
            LibraryGroupId { os: ApplePlatform::TvOS, is_sim: true },
        ]
    );
    assert_eq!(targets_of(&framework.libraries[0]), vec!["t0", "t3", "t6"]);
    assert_eq!(targets_of(&framework.libraries[1]), vec!["t1", "t4"]);
    assert_eq!(targets_of(&framework.libraries[2]), vec!["t2"]);
    assert_eq!(targets_of(&framework.libraries[3]), vec!["t5"]);
    for a in &input {
        for b in &input {
            let group_of = |t: &ResolvedTarget| {
                framework
                    .libraries
                    .iter()
                    .position(|g| g.slices.iter().any(|s| s.target == t.target))
                    .unwrap()
            };
            assert_eq!(a.id == b.id, group_of(a) == group_of(b));
        }
    }
    let total: usize = framework.libraries.iter().map(|g| g.slices.len()).sum();
    assert_eq!(total, input.len());
    for group in &framework.libraries {
        for slice in &group.slices {
            assert_eq!(slice.profile, CargoProfile::Release);
        }
    }
}

#[test]
fn no_triples_give_no_groups() {
    let framework = XCFramework::group(&vec![], CargoProfile::Dev);
    assert!(framework.libraries.is_empty());
    assert!(matches!(
        framework.create_xcframework("/t", "libwp", "/t/tmp"),
        Err(PackagingError::NoSlices)
    ));
    assert!(matches!(
        framework.binding_sources_dir("/t"),
        Err(PackagingError::NoSlices)
    ));
}

#[test]
fn same_triple_twice_is_kept_twice() {
    let framework = XCFramework::group(
        &vec![
            resolved("aarch64-apple-ios", ApplePlatform::IOS, false),
            resolved("aarch64-apple-ios", ApplePlatform::IOS, false),
        ],
        CargoProfile::Dev,
    );
    assert_eq!(framework.libraries.len(), 1);
    assert_eq!(framework.libraries[0].slices.len(), 2);
}

#[test]
fn framework_from_target_specifications() {
    let framework = XCFramework::new(
        &vec![
            spec("aarch64-apple-ios", "arm64-apple-ios13.0.0"),
            spec("x86_64-apple-ios", "x86_64-apple-ios13.0.0-simulator"),
            spec("aarch64-apple-ios-sim", "arm64-apple-ios13.0.0-simulator"),
            spec("aarch64-apple-darwin", "arm64-apple-macosx11.0.0"),
        ],
        CargoProfile::Release,
    )
    .unwrap();
    assert_eq!(framework.libraries.len(), 3);
    assert_eq!(framework.libraries[0].id, LibraryGroupId { os: ApplePlatform::IOS, is_sim: false });
    assert_eq!(framework.libraries[1].id, LibraryGroupId { os: ApplePlatform::IOS, is_sim: true });
    assert_eq!(framework.libraries[2].id, LibraryGroupId { os: ApplePlatform::MacOS, is_sim: false });
    assert_eq!(
        targets_of(&framework.libraries[1]),
        vec!["x86_64-apple-ios", "aarch64-apple-ios-sim"]
    );
}

#[test]
fn first_unresolved_triple_fails_the_framework() {
    let result = XCFramework::new(
        &vec![
            spec("aarch64-apple-ios", "arm64-apple-ios13.0.0"),
            spec("aarch64-apple-visionos", "arm64-apple-xros"),
            spec("x86_64-unknown-linux-gnu", "x86_64-unknown-linux-gnu"),
        ],
        CargoProfile::Release,
    );
    match result {
        Err(PackagingError::UnknownPlatform { os }) => assert_eq!(os, "visionos"),
        other => panic!("unexpected: {:?}", other),
    }
    let result = XCFramework::new(
        &vec![TargetSpec { target: "aarch64-apple-ios".to_string(), spec_json: b"{".to_vec() }],
        CargoProfile::Release,
    );
    assert!(matches!(result, Err(PackagingError::InvalidTargetSpec)));
}

#[test]
fn assembly_has_a_scratch_directory() {
    let assembly = create_xcframework(
        "/t",
        &vec![spec("aarch64-apple-ios", "arm64-apple-ios13.0.0")],
        CargoProfile::Dev,
        "libwp",
        "/t/libwp/libwp.xcframework",
        "/t/libwp/swift-wrapper",
    )
    .unwrap();
    assert_eq!(assembly.temp_dir, "/t/tmp/wp-rs-xcframework");
    assert_eq!(assembly.dest, "/t/libwp/libwp.xcframework");
    assert_eq!(assembly.swift_wrapper_dir, "/t/libwp/swift-wrapper");
    assert_eq!(assembly.library_file_name, "libwp");
    assert_eq!(assembly.cargo_target_dir, "/t");
    assert_eq!(assembly.framework.libraries.len(), 1);
    assert!(matches!(
        create_xcframework("/t", &vec![spec("a-b-c", "x")], CargoProfile::Dev, "n", "/x", "/s"),
        Err(PackagingError::NotApplePlatform { .. })
    ));
}

#[test]
fn built_product_directory_of_a_slice() {
    let slice = Slice { target: "aarch64-apple-ios".to_string(), profile: CargoProfile::Release };
    assert_eq!(slice.built_product_dir("/t"), "/t/aarch64-apple-ios/release");
    let slice = Slice { target: "aarch64-apple-ios".to_string(), profile: CargoProfile::Dev };
    assert_eq!(slice.built_product_dir("target"), "target/aarch64-apple-ios/debug");
}

#[test]
fn built_libraries_are_the_static_libraries() {
    let slice = Slice { target: "aarch64-apple-ios".to_string(), profile: CargoProfile::Release };
    let entries = vec![
        file("libwp.a"),
        file("libwp.d"),
        directory("deps.a"),
        file("libother.a"),
        directory("swift-bindings"),
    ];
    assert_eq!(
        slice.built_libraries("/t", &entries),
        vec!["/t/aarch64-apple-ios/release/libwp.a", "/t/aarch64-apple-ios/release/libother.a"]
    );
    assert_eq!(
        files_with_extension("/d", &entries, "d"),
        vec!["/d/libwp.d"]
    );
    assert!(files_with_extension("/d", &entries, "swift").is_empty());
}

#[test]
fn slice_with_one_library_is_copied() {
    let slice = Slice { target: "aarch64-apple-ios".to_string(), profile: CargoProfile::Release };
    let entries = vec![file("libwp.a"), file("libwp.d"), directory("build")];
    let copy = slice.create("/t", "libwp_api", "/t/tmp", &entries).unwrap();
    assert_eq!(copy.source, "/t/aarch64-apple-ios/release/libwp.a");
    assert_eq!(copy.directory, "/t/tmp/aarch64-apple-ios");
    assert_eq!(copy.destination, "/t/tmp/aarch64-apple-ios/libwp_api.a");
}

#[test]
fn slice_without_library_is_ambiguous() {
    let slice = Slice { target: "aarch64-apple-ios".to_string(), profile: CargoProfile::Release };
    match slice.create("/t", "libwp", "/t/tmp", &vec![file("libwp.d")]) {
        Err(PackagingError::AmbiguousArtifact { directory, candidates }) => {
            assert_eq!(directory, "/t/aarch64-apple-ios/release");
            assert!(candidates.is_empty());
        }
        other => panic!("unexpected: {:?}", other),
    }
}

#[test]
fn slice_with_two_libraries_is_ambiguous() {
    let slice = Slice { target: "aarch64-apple-ios".to_string(), profile: CargoProfile::Release };
    match slice.create("/t", "libwp", "/t/tmp", &vec![file("liba.a"), file("libb.a")]) {
        Err(PackagingError::AmbiguousArtifact { directory, candidates }) => {
            assert_eq!(directory, "/t/aarch64-apple-ios/release");
            assert_eq!(
                candidates,
                vec!["/t/aarch64-apple-ios/release/liba.a", "/t/aarch64-apple-ios/release/libb.a"]
            );
        }
        other => panic!("unexpected: {:?}", other),
    }
}

#[test]
fn headers_come_from_the_first_slice() {
    let group = LibraryGroup {
        id: LibraryGroupId { os: ApplePlatform::IOS, is_sim: true },
        slices: vec![
            Slice { target: "x86_64-apple-ios".to_string(), profile: CargoProfile::Release },
            Slice { target: "aarch64-apple-ios-sim".to_string(), profile: CargoProfile::Release },
        ],
    };
    assert_eq!(
        group.bindings_location("/t").unwrap(),
        "/t/x86_64-apple-ios/release/swift-bindings"
    );
    assert_eq!(
        group.swift_bindings_dir("/t", true).unwrap(),
        "/t/x86_64-apple-ios/release/swift-bindings"
    );
    assert_eq!(
        group.headers_dir("/t", true, true).unwrap(),
        "/t/x86_64-apple-ios/release/swift-bindings/headers"
    );
    assert_eq!(
        group
            .swift_binding_files(
                "/t",
                true,
                &vec![file("wp_api.swift"), file("wp_api.h"), directory("headers")]
            )
            .unwrap(),
        vec!["/t/x86_64-apple-ios/release/swift-bindings/wp_api.swift"]
    );
}

#[test]
fn absent_bindings_and_headers_are_failures() {
    let group = LibraryGroup {
        id: LibraryGroupId { os: ApplePlatform::IOS, is_sim: true },
        slices: vec![Slice {
            target: "x86_64-apple-ios".to_string(),
            profile: CargoProfile::Release,
        }],
    };
    match group.swift_bindings_dir("/t", false) {
        Err(PackagingError::HeadersNotFound { path }) => {
            assert_eq!(path, "/t/x86_64-apple-ios/release/swift-bindings")
        }
        other => panic!("unexpected: {:?}", other),
    }
    match group.headers_dir("/t", true, false) {
        Err(PackagingError::HeadersNotFound { path }) => {
            assert_eq!(path, "/t/x86_64-apple-ios/release/swift-bindings/headers")
        }
        other => panic!("unexpected: {:?}", other),
    }
    match group.headers_dir("/t", false, true) {
        Err(PackagingError::HeadersNotFound { path }) => {
            assert_eq!(path, "/t/x86_64-apple-ios/release/swift-bindings")
        }
        other => panic!("unexpected: {:?}", other),
    }
    assert!(matches!(
        group.swift_binding_files("/t", false, &vec![file("wp_api.swift")]),
        Err(PackagingError::HeadersNotFound { .. })
    ));
}

#[test]
fn found_path_is_kept_and_absent_path_is_told() {
    assert_eq!(present("/a/libwp.a".to_string(), true, Missing::Library).unwrap(), "/a/libwp.a");
    match present("/a/libwp.a".to_string(), false, Missing::Library) {
        Err(PackagingError::LibraryNotFound { path }) => assert_eq!(path, "/a/libwp.a"),
        other => panic!("unexpected: {:?}", other),
    }
    match present("/a/headers".to_string(), false, Missing::Headers) {
        Err(PackagingError::HeadersNotFound { path }) => assert_eq!(path, "/a/headers"),
        other => panic!("unexpected: {:?}", other),
    }
}

#[test]
fn group_without_slices_has_no_headers() {
    let group = LibraryGroup {
        id: LibraryGroupId { os: ApplePlatform::IOS, is_sim: true },
        slices: vec![],
    };
    assert!(matches!(group.bindings_location("/t"), Err(PackagingError::NoSlices)));
    assert!(matches!(group.swift_bindings_dir("/t", true), Err(PackagingError::NoSlices)));
    assert!(matches!(group.headers_dir("/t", true, true), Err(PackagingError::NoSlices)));
    assert!(matches!(
        group.swift_binding_files("/t", true, &vec![]),
        Err(PackagingError::NoSlices)
    ));
    let framework = XCFramework { libraries: vec![group] };
    assert!(matches!(
        framework.create_xcframework("/t", "libwp", "/t/tmp"),
        Err(PackagingError::NoSlices)
    ));
    assert!(matches!(
        framework.libraries[0].create("libwp", "/t/tmp"),
        Err(PackagingError::NoSlices)
    ));
}

#[test]
fn patch_moves_headers_and_leaves_the_library() {
    let entries = vec![
        "libwp.a".to_string(),
        "wp_api.h".to_string(),
        "module.modulemap".to_string(),
        "extra".to_string(),
    ];
    let patch =
        XCFramework::patch_xcframework("/t/tmp/libwp.xcframework", "ios-arm64", "libwp", &entries)
            .unwrap();
    assert_eq!(patch.directory, "/t/tmp/libwp.xcframework/ios-arm64/Headers/libwp");
    let moves: Vec<(String, String)> =
        patch.moves.iter().map(|m| (m.from.clone(), m.to.clone())).collect();
    assert_eq!(
        moves,
        vec![
            (
                "/t/tmp/libwp.xcframework/ios-arm64/Headers/wp_api.h".to_string(),
                "/t/tmp/libwp.xcframework/ios-arm64/Headers/libwp/wp_api.h".to_string()
            ),
            (
                "/t/tmp/libwp.xcframework/ios-arm64/Headers/module.modulemap".to_string(),
                "/t/tmp/libwp.xcframework/ios-arm64/Headers/libwp/module.modulemap".to_string()
            ),
            (
                "/t/tmp/libwp.xcframework/ios-arm64/Headers/extra".to_string(),
                "/t/tmp/libwp.xcframework/ios-arm64/Headers/libwp/extra".to_string()
            ),
        ]
    );
    assert!(patch.moves.iter().all(|m| !m.from.ends_with(".a")));
}

#[test]
fn patch_of_an_empty_headers_directory_moves_nothing() {
    let patch = XCFramework::patch_xcframework("/b", "macos-arm64_x86_64", "m", &vec![]).unwrap();
    assert_eq!(patch.directory, "/b/macos-arm64_x86_64/Headers/m");
    assert!(patch.moves.is_empty());
}

#[test]
fn patched_headers_are_not_patched_again() {
    let entries = vec!["libwp.a".to_string(), "libwp".to_string()];
    match XCFramework::patch_xcframework("/b", "ios-arm64", "libwp", &entries) {
        Err(PackagingError::AlreadyPatched { directory }) => {
            assert_eq!(directory, "/b/ios-arm64/Headers/libwp")
        }
        other => panic!("unexpected: {:?}", other),
    }
    let first = vec!["wp_api.h".to_string(), "module.modulemap".to_string()];
    let patch = XCFramework::patch_xcframework("/b", "ios-arm64", "libwp", &first).unwrap();
    assert_eq!(patch.moves.len(), 2);
    let second = vec!["libwp".to_string()];
    assert!(matches!(
        XCFramework::patch_xcframework("/b", "ios-arm64", "libwp", &second),
        Err(PackagingError::AlreadyPatched { .. })
    ));
    assert!(XCFramework::patch_xcframework("/b", "ios-arm64", "other", &second).is_ok());
}

#[test]
fn platform_directories_are_the_directories() {
    let entries = vec![file("Info.plist"), directory("ios-arm64"), directory("macos-arm64_x86_64")];
    assert_eq!(
        XCFramework::platform_directories(&entries),
        vec!["ios-arm64", "macos-arm64_x86_64"]
    );
}

#[test]
fn binding_sources_come_from_the_first_group() {
    let framework = XCFramework::group(
        &vec![
            resolved("aarch64-apple-ios", ApplePlatform::IOS, false),
            resolved("aarch64-apple-darwin", ApplePlatform::MacOS, false),
        ],
        CargoProfile::Release,
    );
    assert_eq!(
        framework.binding_sources_dir("/t").unwrap(),
        "/t/aarch64-apple-ios/release/swift-bindings"
    );
    let entries = vec![file("wp_api.swift"), file("wp_api.h"), directory("x.swift"), file("wp_mobile.swift")];
    let copies = framework.extract_binding_sources("/t", "/t/wp/swift-wrapper", &entries).unwrap();
    let copies: Vec<(String, String)> = copies.iter().map(|m| (m.from.clone(), m.to.clone())).collect();
    assert_eq!(
        copies,
        vec![
            (
                "/t/aarch64-apple-ios/release/swift-bindings/wp_api.swift".to_string(),
                "/t/wp/swift-wrapper/wp_api.swift".to_string()
            ),
            (
                "/t/aarch64-apple-ios/release/swift-bindings/wp_mobile.swift".to_string(),
                "/t/wp/swift-wrapper/wp_mobile.swift".to_string()
            ),
        ]
    );
}

#[test]
fn slices_of_a_group_have_to_agree_on_their_headers() {
    let group = LibraryGroup {
        id: LibraryGroupId { os: ApplePlatform::IOS, is_sim: true },
        slices: vec![
            Slice { target: "x86_64-apple-ios".to_string(), profile: CargoProfile::Release },
            Slice { target: "aarch64-apple-ios-sim".to_string(), profile: CargoProfile::Release },
            Slice { target: "third".to_string(), profile: CargoProfile::Release },
        ],
    };
    assert!(group
        .check_headers_agree(&vec![b"a".to_vec(), b"a".to_vec(), b"a".to_vec()])
        .is_ok());
    assert!(group.check_headers_agree(&vec![]).is_ok());
    assert!(group.check_headers_agree(&vec![b"a".to_vec()]).is_ok());
    match group.check_headers_agree(&vec![b"a".to_vec(), b"a".to_vec(), b"b".to_vec()]) {
        Err(PackagingError::HeadersDiffer { target }) => assert_eq!(target, "third"),
        other => panic!("unexpected: {:?}", other),
    }
    match group.check_headers_agree(&vec![b"a".to_vec(), b"ab".to_vec(), b"b".to_vec()]) {
        Err(PackagingError::HeadersDiffer { target }) => assert_eq!(target, "aarch64-apple-ios-sim"),
        other => panic!("unexpected: {:?}", other),
    }
}

#[test]
fn two_resolved_triples_of_the_desktop_system_form_one_group() {
    let framework = XCFramework::new(
        &vec![
            spec("a1-apple-macos", "arm64-apple-macosx11.0.0"),
            spec("a2-apple-macos", "arm64-apple-macosx11.0.0"),
        ],
        CargoProfile::Release,
    )
    .unwrap();
    assert_eq!(framework.libraries.len(), 1);
    assert_eq!(
        framework.libraries[0].id,
        LibraryGroupId { os: ApplePlatform::MacOS, is_sim: false }
    );
    assert_eq!(targets_of(&framework.libraries[0]), vec!["a1-apple-macos", "a2-apple-macos"]);
    let merge = framework.libraries[0].create("libwp", "/t/tmp").unwrap();
    assert_eq!(
        merge.command,
        vec![
            "xcrun",
            "lipo",
            "-create",
            "/t/tmp/a1-apple-macos/libwp.a",
            "/t/tmp/a2-apple-macos/libwp.a",
            "-output",
            "/t/tmp/macos/libwp.a"
        ]
    );
    let bundling = framework.create_xcframework("/t", "libwp", "/t/tmp").unwrap();
    assert_eq!(bundling.command.iter().filter(|a| *a == "-library").count(), 1);
}
