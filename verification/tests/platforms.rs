use uniffi_swift_helper::apple_platform::ApplePlatform;
use uniffi_swift_helper::cargo_build::CargoProfile;
use uniffi_swift_helper::error::PackagingError;
use uniffi_swift_helper::spm::DeploymentTargets;

#[test]
fn all_platforms_in_order() {
    assert_eq!(
        ApplePlatform::all(),
        vec![
            ApplePlatform::MacOS,
            ApplePlatform::IOS,
            ApplePlatform::TvOS,
            ApplePlatform::WatchOS
        ]
    );
}

#[test]
fn triples_of_each_platform() {
    assert_eq!(
        ApplePlatform::IOS.target_triples(),
        vec!["aarch64-apple-ios", "x86_64-apple-ios", "aarch64-apple-ios-sim"]
    );
    assert_eq!(
        ApplePlatform::MacOS.target_triples(),
        vec!["x86_64-apple-darwin", "aarch64-apple-darwin"]
    );
    assert_eq!(
        ApplePlatform::WatchOS.target_triples(),
        vec![
            "arm64_32-apple-watchos",
            "x86_64-apple-watchos-sim",
            "aarch64-apple-watchos-sim"
        ]
    );
    assert_eq!(
        ApplePlatform::TvOS.target_triples(),
        vec!["aarch64-apple-tvos", "aarch64-apple-tvos-sim"]
    );
}

#[test]
fn nightly_only_for_tv_and_watch() {
    assert!(!ApplePlatform::MacOS.requires_nightly_toolchain());
    assert!(!ApplePlatform::IOS.requires_nightly_toolchain());
    assert!(ApplePlatform::TvOS.requires_nightly_toolchain());
    assert!(ApplePlatform::WatchOS.requires_nightly_toolchain());
}

#[test]
fn deployment_target_environment() {
    assert_eq!(
        ApplePlatform::IOS.deployment_targets_env(),
        ("IOS_DEPLOYMENT_TARGET", "13.0")
    );
    assert_eq!(
        ApplePlatform::MacOS.deployment_targets_env(),
        ("MACOSX_DEPLOYMENT_TARGET", "11.0")
    );
    assert_eq!(
        ApplePlatform::TvOS.deployment_targets_env(),
        ("TVOS_DEPLOYMENT_TARGET", "13.0")
    );
    assert_eq!(
        ApplePlatform::WatchOS.deployment_targets_env(),
        ("WATCHOS_DEPLOYMENT_TARGET", "8.0")
    );
}

#[test]
fn deployment_target_versions() {
    assert_eq!(DeploymentTargets::ios(), "13.0");
    assert_eq!(DeploymentTargets::macos(), "11.0");
    assert_eq!(DeploymentTargets::tvos(), "13.0");
    assert_eq!(DeploymentTargets::watchos(), "8.0");
}

#[test]
fn platform_from_os_segment() {
    assert_eq!(ApplePlatform::try_from("darwin").unwrap(), ApplePlatform::MacOS);
    assert_eq!(ApplePlatform::try_from("macos").unwrap(), ApplePlatform::MacOS);
    assert_eq!(ApplePlatform::try_from("ios").unwrap(), ApplePlatform::IOS);
    assert_eq!(ApplePlatform::try_from("tvos").unwrap(), ApplePlatform::TvOS);
    assert_eq!(ApplePlatform::try_from("watchos").unwrap(), ApplePlatform::WatchOS);
}

#[test]
fn unknown_os_segment_is_rejected() {
    match ApplePlatform::try_from("macosx") {
        Err(PackagingError::UnknownPlatform { os }) => assert_eq!(os, "macosx"),
        other => panic!("unexpected: {:?}", other),
    }
    assert!(matches!(
        ApplePlatform::try_from("MacOS"),
        Err(PackagingError::UnknownPlatform { .. })
    ));
    assert!(matches!(
        ApplePlatform::try_from(""),
        Err(PackagingError::UnknownPlatform { .. })
    ));
    assert!(matches!(
        ApplePlatform::try_from("linux"),
        Err(PackagingError::UnknownPlatform { .. })
    ));
}

#[test]
fn platform_names() {
    assert_eq!(ApplePlatform::MacOS.to_string(), "macos");
    assert_eq!(ApplePlatform::IOS.to_string(), "ios");
    assert_eq!(ApplePlatform::TvOS.to_string(), "tvos");
    assert_eq!(ApplePlatform::WatchOS.to_string(), "watchos");
}

#[test]
fn profile_names_and_directories() {
    assert_eq!(CargoProfile::Dev.as_str(), "dev");
    assert_eq!(CargoProfile::Release.as_str(), "release");
    assert_eq!(CargoProfile::Dev.dir_name(), "debug");
    assert_eq!(CargoProfile::Release.dir_name(), "release");
}

#[test]
fn profile_from_name() {
    assert_eq!(CargoProfile::try_from("dev").unwrap(), CargoProfile::Dev);
    assert_eq!(CargoProfile::try_from("release").unwrap(), CargoProfile::Release);
    match CargoProfile::try_from("debug") {
        Err(PackagingError::InvalidProfile { profile }) => assert_eq!(profile, "debug"),
        other => panic!("unexpected: {:?}", other),
    }
}
