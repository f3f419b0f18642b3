use uniffi_swift_helper::error::PackagingError;
use uniffi_swift_helper::config::{lookup_swift_setting, read_swift_setting, ConfigFault};
use uniffi_swift_helper::package_graph::{
    discover, find, find_unsupported, is_depended_upon, top_level_packages, CargoDependency,
    CargoPackage, DependencyKind,
};
use uniffi_swift_helper::project::{Project, UniffiPackage};

fn dependency(name: &str) -> CargoDependency {
    CargoDependency { name: name.to_string(), optional: false, kind: DependencyKind::Normal }
}

fn package(name: &str, dependencies: &[&str]) -> CargoPackage {
    let mut all = vec![dependency("uniffi")];
    for d in dependencies {
        all.push(dependency(d));
    }
    CargoPackage {
        name: name.to_string(),
        id: format!("path+file:///work/{}#0.1.0", name),
        manifest_path: format!("/work/{}/Cargo.toml", name),
        dependencies: all,
        has_uniffi_toml: true,
        uniffi_toml: Some(
            format!(
                "[bindings.swift]\nffi_module_name = \"libwp\"\nwp_spm_public_module_name = \"{}Kit\"\n",
                name
            )
            .into_bytes(),
        ),
    }
}

fn plain_package(name: &str, dependencies: &[&str]) -> CargoPackage {
    CargoPackage {
        name: name.to_string(),
        id: format!("registry+https://github.com/rust-lang/crates.io-index#{}@1.0.0", name),
        manifest_path: format!("/registry/{}/Cargo.toml", name),
        dependencies: dependencies.iter().map(|d| dependency(d)).collect(),
        has_uniffi_toml: false,
        uniffi_toml: None,
    }
}

fn names(packages: &[&UniffiPackage]) -> Vec<String> {
    packages.iter().map(|p| p.name.clone()).collect()
}

#[test]
fn root_is_the_package_nothing_depends_on() {
    let packages = vec![package("A", &["B"]), package("B", &[])];
    let root = Project::uniffi_package(&packages).unwrap();
    assert_eq!(root.name, "A");
    assert_eq!(root.manifest_path, "/work/A/Cargo.toml");
    assert_eq!(root.dependencies.len(), 1);
    assert_eq!(root.dependencies[0].name, "B");
    assert!(root.dependencies[0].dependencies.is_empty());
    let packages = vec![package("B", &[]), package("A", &["B"])];
    assert_eq!(Project::uniffi_package(&packages).unwrap().name, "A");
}

#[test]
fn two_unconnected_packages_are_ambiguous() {
    let packages = vec![package("A", &[]), package("B", &[])];
    match Project::uniffi_package(&packages) {
        Err(PackagingError::AmbiguousRoot { candidates }) => assert_eq!(candidates, vec!["A", "B"]),
        other => panic!("unexpected: {:?}", other),
    }
}

#[test]
fn mutual_dependency_has_no_root() {
    let packages = vec![package("A", &["B"]), package("B", &["A"])];
    match Project::uniffi_package(&packages) {
        Err(PackagingError::AmbiguousRoot { candidates }) => assert!(candidates.is_empty()),
        other => panic!("unexpected: {:?}", other),
    }
}

#[test]
fn no_package_with_bindings_is_ambiguous() {
    match Project::uniffi_package(&vec![]) {
        Err(PackagingError::AmbiguousRoot { candidates }) => assert!(candidates.is_empty()),
        other => panic!("unexpected: {:?}", other),
    }
    match Project::uniffi_package(&vec![plain_package("serde", &[])]) {
        Err(PackagingError::AmbiguousRoot { candidates }) => assert!(candidates.is_empty()),
        other => panic!("unexpected: {:?}", other),
    }
}

#[test]
fn package_that_depends_on_itself_has_no_root() {
    let packages = vec![package("A", &["A"])];
    assert!(matches!(
        Project::uniffi_package(&packages),
        Err(PackagingError::AmbiguousRoot { .. })
    ));
}

#[test]
fn circle_below_the_root_is_reported() {
    let packages = vec![package("A", &["B"]), package("B", &["C"]), package("C", &["B"])];
    match Project::uniffi_package(&packages) {
        Err(PackagingError::CyclicDependency { package }) => assert_eq!(package, "A"),
        other => panic!("unexpected: {:?}", other),
    }
    assert!(UniffiPackage::new(0, &packages).is_none());
    assert!(UniffiPackage::new(1, &packages).is_none());
}

#[test]
fn tree_of_a_place_outside_the_list_is_none() {
    let packages = vec![package("A", &[])];
    assert!(UniffiPackage::new(1, &packages).is_none());
    assert_eq!(UniffiPackage::new(0, &packages).unwrap().name, "A");
}

#[test]
fn registry_package_with_bindings_is_rejected() {
    let mut b = package("B", &[]);
    b.id = "registry+https://github.com/rust-lang/crates.io-index#B@1.0.0".to_string();
    let mut c = package("C", &[]);
    c.id = "sparse+https://example.org#C@1.0.0".to_string();
    let packages = vec![package("A", &["B"]), b, c];
    match Project::uniffi_package(&packages) {
        Err(PackagingError::UnsupportedSourcing { id }) => {
            assert_eq!(id, "registry+https://github.com/rust-lang/crates.io-index#B@1.0.0")
        }
        other => panic!("unexpected: {:?}", other),
    }
    assert_eq!(find_unsupported(&packages), Some(1));
}

#[test]
fn git_and_path_packages_are_accepted() {
    let mut b = package("B", &[]);
    b.id = "git+https://github.com/example/b?rev=abc#0.1.0".to_string();
    let packages = vec![package("A", &["B"]), b, plain_package("serde", &[])];
    assert_eq!(find_unsupported(&packages), None);
    assert_eq!(Project::uniffi_package(&packages).unwrap().name, "A");
}

#[test]
fn packages_without_bindings_are_no_nodes() {
    let mut no_config = package("NoConfig", &[]);
    no_config.has_uniffi_toml = false;
    let mut optional = package("Optional", &[]);
    optional.dependencies[0].optional = true;
    let mut dev_only = package("DevOnly", &[]);
    dev_only.dependencies[0].kind = DependencyKind::Development;
    let packages = vec![
        plain_package("serde", &["A"]),
        package("A", &["serde", "B", "NoConfig", "Optional", "DevOnly"]),
        no_config,
        package("B", &["serde"]),
        optional,
        dev_only,
    ];
    assert!(!packages[0].is_uniffi_package());
    assert!(packages[1].is_uniffi_package());
    assert!(!packages[2].is_uniffi_package());
    assert!(!packages[4].is_uniffi_package());
    assert!(!packages[5].is_uniffi_package());
    assert_eq!(top_level_packages(&packages), vec![1]);
    let root = Project::uniffi_package(&packages).unwrap();
    assert_eq!(root.name, "A");
    assert_eq!(names(&root.iter()), vec!["A", "B"]);
}

#[test]
fn lookup_takes_the_first_package_with_bindings() {
    let packages = vec![plain_package("A", &[]), package("B", &[]), package("A", &[]), package("A", &["B"])];
    assert_eq!(find(&packages, "A"), Some(2));
    assert_eq!(find(&packages, "B"), Some(1));
    assert_eq!(find(&packages, "C"), None);
    assert!(is_depended_upon(&packages, 1));
    assert!(!is_depended_upon(&packages, 2));
    assert!(packages[3].declares_dependency("B"));
    assert!(!packages[3].declares_dependency("A"));
}

#[test]
fn chain_is_walked_from_the_root() {
    let packages = vec![package("A", &["B"]), package("B", &["C"]), package("C", &[])];
    let root = Project::uniffi_package(&packages).unwrap();
    assert_eq!(names(&root.iter()), vec!["A", "B", "C"]);
    assert_eq!(names(&root.iter()), names(&root.iter()));
    assert_eq!(names(&root.iter()), vec!["A", "B", "C"]);
}

#[test]
fn siblings_are_walked_last_declared_first() {
    let packages = vec![
        package("A", &["B", "C", "D"]),
        package("B", &["E"]),
        package("C", &[]),
        package("D", &["F"]),
        package("E", &[]),
        package("F", &[]),
    ];
    let root = Project::uniffi_package(&packages).unwrap();
    let deps: Vec<String> = root.dependencies.iter().map(|d| d.name.clone()).collect();
    assert_eq!(deps, vec!["B", "C", "D"]);
    assert_eq!(names(&root.iter()), vec!["A", "D", "F", "C", "B", "E"]);
}

#[test]
fn diamond_is_walked_once_for_each_path() {
    let packages = vec![
        package("A", &["B", "C"]),
        package("B", &["D"]),
        package("C", &["D"]),
        package("D", &[]),
    ];
    let root = Project::uniffi_package(&packages).unwrap();
    assert_eq!(names(&root.iter()), vec!["A", "C", "D", "B", "D"]);
}

#[test]
fn single_package_walk() {
    let root = Project::uniffi_package(&vec![package("A", &[])]).unwrap();
    assert_eq!(names(&root.iter()), vec!["A"]);
}

#[test]
fn direct_dependencies() {
    let packages = vec![package("A", &["B"]), package("B", &["C"]), package("C", &[])];
    let root = Project::uniffi_package(&packages).unwrap();
    assert!(root.depends_on("B"));
    assert!(!root.depends_on("C"));
    assert!(!root.depends_on("A"));
    assert!(root.dependencies[0].depends_on("C"));
}

#[test]
fn project_needs_the_workspace_root() {
    let packages = vec![package("A", &["B"]), package("B", &[])];
    assert!(matches!(
        Project::new(&packages, "/work", "/work/target", false),
        Err(PackagingError::NotWorkspaceRoot)
    ));
    let project = Project::new(&packages, "/work", "/work/target", true).unwrap();
    assert_eq!(project.package.name, "A");
    assert_eq!(project.workspace_root, "/work");
    assert_eq!(project.target_directory, "/work/target");
    assert!(matches!(
        Project::new(&vec![], "/work", "/work/target", true),
        Err(PackagingError::AmbiguousRoot { .. })
    ));
}

#[test]
fn project_finds_packages_by_name() {
    let packages = vec![package("A", &["B", "C"]), package("B", &["C"]), package("C", &[])];
    let project = Project::new(&packages, "/work", "/work/target", true).unwrap();
    assert_eq!(names(&project.packages_iter()), vec!["A", "C", "B", "C"]);
    assert_eq!(project.package("C").unwrap().name, "C");
    assert_eq!(project.package("A").unwrap().name, "A");
    assert!(project.package("D").is_none());
}

#[test]
fn project_paths() {
    let packages = vec![package("A", &["B"]), package("B", &[])];
    let project = Project::new(&packages, "/work", "/work/target", true).unwrap();
    assert_eq!(project.ffi_module_name().unwrap(), "libwp");
    assert_eq!(project.linux_library_path().unwrap(), "/work/target/libwp/linux");
    assert_eq!(project.xcframework_path().unwrap(), "/work/target/libwp/libwp.xcframework");
    assert_eq!(project.swift_wrapper_dir().unwrap(), "/work/target/libwp/swift-wrapper");
    let files = project.swift_wrapper_files_iter().unwrap();
    let files: Vec<(String, String)> = files.iter().map(|(p, pkg)| (p.clone(), pkg.name.clone())).collect();
    assert_eq!(
        files,
        vec![
            ("/work/target/libwp/swift-wrapper/A.swift".to_string(), "A".to_string()),
            ("/work/target/libwp/swift-wrapper/B.swift".to_string(), "B".to_string()),
        ]
    );
}

#[test]
fn project_paths_need_the_module_name() {
    let mut a = package("A", &[]);
    a.uniffi_toml = Some(b"[bindings.swift]\n".to_vec());
    let project = Project::new(&vec![a], "/work", "/work/target", true).unwrap();
    assert!(matches!(project.linux_library_path(), Err(PackagingError::SettingMissing { .. })));
    assert!(matches!(project.xcframework_path(), Err(PackagingError::SettingMissing { .. })));
    assert!(matches!(project.swift_wrapper_dir(), Err(PackagingError::SettingMissing { .. })));
    assert!(matches!(
        project.swift_wrapper_files_iter(),
        Err(PackagingError::SettingMissing { .. })
    ));
}

#[test]
fn module_names_come_from_the_configuration() {
    let root = Project::uniffi_package(&vec![package("wp_api", &[])]).unwrap();
    assert_eq!(root.ffi_module_name().unwrap(), "libwp");
    assert_eq!(root.public_module_name().unwrap(), "wp_apiKit");
    assert_eq!(root.internal_module_name().unwrap(), "wp_apiKitInternal");
    assert_eq!(root.swift_wrapper_file_name(), "wp_api.swift");
    assert_eq!(
        root.uniffi_toml_swift_configuration("wp_spm_public_module_name").unwrap(),
        "wp_apiKit"
    );
}

#[test]
fn missing_setting_is_reported_with_key_and_package() {
    let root = Project::uniffi_package(&vec![package("A", &[])]).unwrap();
    match root.uniffi_toml_swift_configuration("module_name") {
        Err(PackagingError::SettingMissing { key, package }) => {
            assert_eq!(key, "module_name");
            assert_eq!(package, "A");
        }
        other => panic!("unexpected: {:?}", other),
    }
    let mut a = package("A", &[]);
    a.uniffi_toml = Some(b"[bindings.swift]\nffi_module_name = 3\n".to_vec());
    let root = Project::uniffi_package(&vec![a]).unwrap();
    assert!(matches!(root.ffi_module_name(), Err(PackagingError::SettingMissing { .. })));
    let mut a = package("A", &[]);
    a.uniffi_toml = Some(b"[bindings]\nswift = \"x\"\n".to_vec());
    let root = Project::uniffi_package(&vec![a]).unwrap();
    assert!(matches!(root.ffi_module_name(), Err(PackagingError::SettingMissing { .. })));
    let mut a = package("A", &[]);
    a.uniffi_toml = Some(b"".to_vec());
    let root = Project::uniffi_package(&vec![a]).unwrap();
    assert!(matches!(root.internal_module_name(), Err(PackagingError::SettingMissing { .. })));
}

#[test]
fn broken_configuration_is_reported() {
    let mut a = package("A", &[]);
    a.uniffi_toml = Some(b"[bindings".to_vec());
    let root = Project::uniffi_package(&vec![a]).unwrap();
    match root.ffi_module_name() {
        Err(PackagingError::ConfigInvalid { package }) => assert_eq!(package, "A"),
        other => panic!("unexpected: {:?}", other),
    }
    let mut a = package("A", &[]);
    a.uniffi_toml = Some(vec![0xff, 0xfe, 0x00]);
    let root = Project::uniffi_package(&vec![a]).unwrap();
    match root.ffi_module_name() {
        Err(PackagingError::ConfigNotUtf8 { package }) => assert_eq!(package, "A"),
        other => panic!("unexpected: {:?}", other),
    }
    let mut a = package("A", &[]);
    a.uniffi_toml = None;
    let root = Project::uniffi_package(&vec![a]).unwrap();
    match root.ffi_module_name() {
        Err(PackagingError::ConfigUnreadable { package }) => assert_eq!(package, "A"),
        other => panic!("unexpected: {:?}", other),
    }
}

#[test]
fn configuration_keeps_non_ascii_text() {
    let mut a = package("A", &[]);
    a.uniffi_toml = Some("[bindings.swift]\nffi_module_name = \"libé\"\n".as_bytes().to_vec());
    let root = Project::uniffi_package(&vec![a]).unwrap();
    assert_eq!(root.ffi_module_name().unwrap(), "libé");
}

#[test]
fn configuration_stands_beside_the_manifest() {
    assert_eq!(UniffiPackage::uniffi_toml_path("/work/A/Cargo.toml"), "/work/A/uniffi.toml");
}

#[test]
fn discovery_gives_the_packages_with_bindings() {
    let packages = vec![
        plain_package("serde", &[]),
        package("A", &["B"]),
        plain_package("uniffi", &[]),
        package("B", &[]),
    ];
    assert_eq!(discover(&packages).unwrap(), vec![1, 3]);
    assert!(discover(&vec![]).unwrap().is_empty());
    let mut b = package("B", &[]);
    b.id = "registry+https://example.org#B@1.0.0".to_string();
    match discover(&vec![package("A", &[]), b]) {
        Err(PackagingError::UnsupportedSourcing { id }) => {
            assert_eq!(id, "registry+https://example.org#B@1.0.0")
        }
        other => panic!("unexpected: {:?}", other),
    }
}

#[test]
fn setting_is_looked_up_in_a_table() {
    let table: toml::Table =
        "[bindings.swift]\nffi_module_name = \"libwp\"\n[bindings.kotlin]\nx = \"y\"\n"
            .parse()
            .unwrap();
    assert_eq!(lookup_swift_setting(&table, "ffi_module_name"), Some("libwp"));
    assert_eq!(lookup_swift_setting(&table, "x"), None);
    let table: toml::Table = "ffi_module_name = \"libwp\"\n".parse().unwrap();
    assert_eq!(lookup_swift_setting(&table, "ffi_module_name"), None);
}

#[test]
fn setting_is_read_from_the_content_of_a_file() {
    assert_eq!(
        read_swift_setting(b"[bindings.swift]\nffi_module_name = \"libwp\"\n", "ffi_module_name")
            .unwrap(),
        "libwp"
    );
    assert_eq!(
        read_swift_setting(b"[bindings.swift]\n", "ffi_module_name"),
        Err(ConfigFault::KeyMissing)
    );
    assert_eq!(read_swift_setting(b"[bindings", "ffi_module_name"), Err(ConfigFault::Invalid));
    assert_eq!(read_swift_setting(&[0xc3, 0x28], "ffi_module_name"), Err(ConfigFault::NotUtf8));
}
