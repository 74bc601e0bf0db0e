use cargo_gc::args::Args;
use cargo_gc::config::{
    CompileKind, CompileMode, ForceAllTargets, HasDevUnits, StaticScanConfig,
};

#[derive(Debug)]
struct TestCase {
    name: &'static str,
    profile: &'static str,
    cargo_args: Vec<&'static str>,
    expected_profile: &'static str,
    expected_mode: CompileMode,
    expected_has_dev_units: HasDevUnits,
    expected_all_features: bool,
    expected_uses_default_features: bool,
}

#[test]
fn test_static_scan_config_from_args() {
    let test_cases = vec![
        TestCase {
            name: "debug profile with no args",
            profile: "debug",
            cargo_args: vec![],
            expected_profile: "debug",
            expected_mode: CompileMode::Build,
            expected_has_dev_units: HasDevUnits::No,
            expected_all_features: false,
            expected_uses_default_features: true,
        },
        TestCase {
            name: "test profile",
            profile: "test",
            cargo_args: vec![],
            expected_profile: "test",
            expected_mode: CompileMode::Test,
            expected_has_dev_units: HasDevUnits::Yes,
            expected_all_features: false,
            expected_uses_default_features: true,
        },
        TestCase {
            name: "release profile",
            profile: "release",
            cargo_args: vec!["--verbose"],
            expected_profile: "release",
            expected_mode: CompileMode::Build,
            expected_has_dev_units: HasDevUnits::No,
            expected_all_features: false,
            expected_uses_default_features: true,
        },
        TestCase {
            name: "profile override with --profile flag",
            profile: "debug",
            cargo_args: vec!["--profile", "release"],
            expected_profile: "release",
            expected_mode: CompileMode::Build,
            expected_has_dev_units: HasDevUnits::No,
            expected_all_features: false,
            expected_uses_default_features: true,
        },
        TestCase {
            name: "profile override with --profile=value syntax",
            profile: "debug",
            cargo_args: vec!["--profile=custom"],
            expected_profile: "custom",
            expected_mode: CompileMode::Build,
            expected_has_dev_units: HasDevUnits::No,
            expected_all_features: false,
            expected_uses_default_features: true,
        },
        TestCase {
            name: "features with --features flag",
            profile: "debug",
            cargo_args: vec!["--features", "feature1,feature2"],
            expected_profile: "debug",
            expected_mode: CompileMode::Build,
            expected_has_dev_units: HasDevUnits::No,
            expected_all_features: false,
            expected_uses_default_features: true,
        },
        TestCase {
            name: "all features enabled",
            profile: "debug",
            cargo_args: vec!["--all-features"],
            expected_profile: "debug",
            expected_mode: CompileMode::Build,
            expected_has_dev_units: HasDevUnits::No,
            expected_all_features: true,
            expected_uses_default_features: true,
        },
        TestCase {
            name: "no default features",
            profile: "debug",
            cargo_args: vec!["--no-default-features"],
            expected_profile: "debug",
            expected_mode: CompileMode::Build,
            expected_has_dev_units: HasDevUnits::No,
            expected_all_features: false,
            expected_uses_default_features: false,
        },
        TestCase {
            name: "bench profile",
            profile: "bench",
            cargo_args: vec![],
            expected_profile: "bench",
            expected_mode: CompileMode::Test,
            expected_has_dev_units: HasDevUnits::Yes,
            expected_all_features: false,
            expected_uses_default_features: true,
        },
        TestCase {
            name: "with target specification",
            profile: "debug",
            cargo_args: vec!["--target", "x86_64-unknown-linux-gnu"],
            expected_profile: "debug",
            expected_mode: CompileMode::Build,
            expected_has_dev_units: HasDevUnits::No,
            expected_all_features: false,
            expected_uses_default_features: true,
        },
    ];

    for test_case in test_cases {
        let args = Args {
            profile: test_case.profile.to_string(),
            verbose: false,
            dry_run: false,
            cargo_args: test_case.cargo_args.iter().map(|s| s.to_string()).collect(),
        };

        let config = StaticScanConfig::from_args(&args, ".".to_string());

        // Assert all expected values
        assert_eq!(
            config.profile_name, test_case.expected_profile,
            "Test case '{}': profile_name mismatch",
            test_case.name
        );
        assert_eq!(
            config.mode, test_case.expected_mode,
            "Test case '{}': mode mismatch",
            test_case.name
        );
        assert_eq!(
            config.has_dev_units, test_case.expected_has_dev_units,
            "Test case '{}': has_dev_units mismatch",
            test_case.name
        );
        assert_eq!(
            config.features.all_features, test_case.expected_all_features,
            "Test case '{}': all_features mismatch",
            test_case.name
        );
        assert_eq!(
            config.features.uses_default_features, test_case.expected_uses_default_features,
            "Test case '{}': uses_default_features mismatch",
            test_case.name
        );

        // Common assertions that should be true for all test cases
        assert_eq!(
            config.force_all_targets,
            ForceAllTargets::No,
            "Test case '{}': force_all_targets should always be No",
            test_case.name
        );
        assert_eq!(
            config.requested_kinds.len(),
            1,
            "Test case '{}': should have exactly one requested_kind",
            test_case.name
        );
    }
}

fn args(profile: &str, cargo_args: &[&str]) -> Args {
    Args {
        profile: profile.to_string(),
        verbose: false,
        dry_run: false,
        cargo_args: cargo_args.iter().map(|s| s.to_string()).collect(),
    }
}

fn strings(v: &[&str]) -> Vec<String> {
    v.iter().map(|s| s.to_string()).collect()
}

#[test]
fn parse_cargo_args_reads_flags_and_values() {
    let parsed = StaticScanConfig::parse_cargo_args(&strings(&[
        "--features",
        "a,b",
        "--verbose",
        "--features=c",
        "--target",
        "x86_64-unknown-linux-gnu",
        "--target=wasm32-unknown-unknown",
        "--all-features",
        "--no-default-features",
        "--profile",
        "one",
        "--profile=two",
    ]));
    assert_eq!(parsed.features_args, strings(&["a,b", "c"]));
    assert_eq!(
        parsed.target_args,
        strings(&["x86_64-unknown-linux-gnu", "wasm32-unknown-unknown"])
    );
    assert!(parsed.all_features);
    assert!(parsed.no_default_features);
    assert_eq!(parsed.additional_profile, Some("two".to_string()));
}

#[test]
fn parse_cargo_args_of_nothing() {
    let parsed = StaticScanConfig::parse_cargo_args(&vec![]);
    assert!(parsed.features_args.is_empty());
    assert!(parsed.target_args.is_empty());
    assert!(!parsed.all_features);
    assert!(!parsed.no_default_features);
    assert_eq!(parsed.additional_profile, None);
}

#[test]
fn parse_cargo_args_flag_without_value_says_nothing() {
    for flag in ["--features", "--target", "--profile"] {
        let parsed = StaticScanConfig::parse_cargo_args(&strings(&["-v", flag]));
        assert!(parsed.features_args.is_empty());
        assert!(parsed.target_args.is_empty());
        assert_eq!(parsed.additional_profile, None);
    }
}

#[test]
fn parse_cargo_args_value_is_taken_as_it_stands() {
    let parsed =
        StaticScanConfig::parse_cargo_args(&strings(&["--features", "--all-features", "--profile="]));
    assert_eq!(parsed.features_args, strings(&["--all-features"]));
    assert!(!parsed.all_features);
    assert_eq!(parsed.additional_profile, Some(String::new()));

    let parsed = StaticScanConfig::parse_cargo_args(&strings(&["--featuresx", "--features=a=b"]));
    assert_eq!(parsed.features_args, strings(&["a=b"]));
}

#[test]
fn from_args_takes_the_features_that_cargo_splits() {
    let config =
        StaticScanConfig::from_args(&args("dev", &["--features", "b,a c", "--features=a"]), "/w".to_string());
    assert_eq!(config.features.features, strings(&["a", "b", "c"]));
    assert!(!config.features.all_features);
    assert!(config.features.uses_default_features);
    assert_eq!(config.work_dir, "/w");
    assert_eq!(config.profile_name, "dev");
    assert_eq!(config.requested_kinds, vec![CompileKind::Host]);
}

#[test]
fn from_args_falls_back_where_cargo_refuses_the_features() {
    let config = StaticScanConfig::from_args(
        &args("dev", &["--features", "dep:serde", "--no-default-features"]),
        ".".to_string(),
    );
    assert!(config.features.features.is_empty());
    assert!(!config.features.all_features);
    assert!(config.features.uses_default_features);

    let config =
        StaticScanConfig::from_args(&args("dev", &["--features=a/b/c"]), ".".to_string());
    assert!(config.features.features.is_empty());
    assert!(config.features.uses_default_features);
}

#[test]
fn from_args_all_features_outweigh_named_ones() {
    let config = StaticScanConfig::from_args(
        &args("dev", &["--features", "a", "--all-features", "--no-default-features"]),
        ".".to_string(),
    );
    assert!(config.features.features.is_empty());
    assert!(config.features.all_features);
    assert!(config.features.uses_default_features);
}

#[test]
fn from_args_profile_among_the_arguments_counts() {
    let config = StaticScanConfig::from_args(&args("dev", &["--profile", "test"]), ".".to_string());
    assert_eq!(config.profile_name, "test");
    assert_eq!(config.mode, CompileMode::Test);
    assert_eq!(config.has_dev_units, HasDevUnits::Yes);

    let config = StaticScanConfig::from_args(&args("test", &["--profile=dev"]), ".".to_string());
    assert_eq!(config.profile_name, "dev");
    assert_eq!(config.mode, CompileMode::Build);
    assert_eq!(config.has_dev_units, HasDevUnits::No);
}
