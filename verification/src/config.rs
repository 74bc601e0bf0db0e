//! What the freshness scan is told: the profile, the features and the targets
//! that the arguments for `cargo build` select.

use vstd::prelude::*;
use crate::args::Args;
use crate::text::{rest_after, str_eq, strip_prefix};

verus! {

/// What the arguments for `cargo build` say of features, targets and profile.
#[derive(Debug)]
pub struct ParsedCargoArgs {
    pub features_args: Vec<String>,
    pub all_features: bool,
    pub no_default_features: bool,
    pub target_args: Vec<String>,
    pub additional_profile: Option<String>,
}

/// Parsed arguments as plain text.
pub struct ParsedModel {
    pub features_args: Seq<Seq<char>>,
    pub all_features: bool,
    pub no_default_features: bool,
    pub target_args: Seq<Seq<char>>,
    pub additional_profile: Option<Seq<char>>,
}

impl View for ParsedCargoArgs {
    type V = ParsedModel;

    open spec fn view(&self) -> ParsedModel {
        ParsedModel {
            features_args: self.features_args.deep_view(),
            all_features: self.all_features,
            no_default_features: self.no_default_features,
            target_args: self.target_args.deep_view(),
            additional_profile: self.additional_profile.deep_view(),
        }
    }
}

/// Nothing said yet.
pub open spec fn nothing_parsed() -> ParsedModel {
    ParsedModel {
        features_args: Seq::empty(),
        all_features: false,
        no_default_features: false,
        target_args: Seq::empty(),
        additional_profile: None,
    }
}

/// What the arguments from place `i` on add to what was parsed before them.
///
/// `--features`, `--target` and `--profile` take the argument behind them as
/// their value, or have it behind a `=` in the same argument. Such a flag at
/// the very end, without a value, says nothing. Features and targets add up;
/// of several profiles the last one counts. Every other argument is passed
/// over.
pub open spec fn parsed_from(args: Seq<Seq<char>>, i: int, so_far: ParsedModel) -> ParsedModel
    decreases args.len() - i,
{
    if i < 0 || i >= args.len() {
        so_far
    } else {
        let arg = args[i];
        let last = i + 1 >= args.len();
        if arg == "--features"@ {
            if last {
                so_far
            } else {
                parsed_from(
                    args,
                    i + 2,
                    ParsedModel {
                        features_args: so_far.features_args.push(args[i + 1]),
                        ..so_far
                    },
                )
            }
        } else if arg == "--all-features"@ {
            parsed_from(args, i + 1, ParsedModel { all_features: true, ..so_far })
        } else if arg == "--no-default-features"@ {
            parsed_from(args, i + 1, ParsedModel { no_default_features: true, ..so_far })
        } else if arg == "--target"@ {
            if last {
                so_far
            } else {
                parsed_from(
                    args,
                    i + 2,
                    ParsedModel { target_args: so_far.target_args.push(args[i + 1]), ..so_far },
                )
            }
        } else if arg == "--profile"@ {
            if last {
                so_far
            } else {
                parsed_from(
                    args,
                    i + 2,
                    ParsedModel { additional_profile: Some(args[i + 1]), ..so_far },
                )
            }
        } else if rest_after(arg, "--features="@) is Some {
            parsed_from(
                args,
                i + 1,
                ParsedModel {
                    features_args: so_far.features_args.push(rest_after(arg, "--features="@)->0),
                    ..so_far
                },
            )
        } else if rest_after(arg, "--target="@) is Some {
            parsed_from(
                args,
                i + 1,
                ParsedModel {
                    target_args: so_far.target_args.push(rest_after(arg, "--target="@)->0),
                    ..so_far
                },
            )
        } else if rest_after(arg, "--profile="@) is Some {
            parsed_from(
                args,
                i + 1,
                ParsedModel { additional_profile: rest_after(arg, "--profile="@), ..so_far },
            )
        } else {
            parsed_from(args, i + 1, so_far)
        }
    }
}

/// What a list of arguments for `cargo build` says.
pub open spec fn parsed(args: Seq<Seq<char>>) -> ParsedModel {
    parsed_from(args, 0, nothing_parsed())
}

/// What is compiled.
#[derive(Debug, Clone, Copy, PartialEq, Eq, Structural)]
pub enum CompileMode {
    /// Tests and benchmarks.
    Test,
    /// The package itself.
    Build,
}

/// Whether dev-dependencies take part.
#[derive(Debug, Clone, Copy, PartialEq, Eq, Structural)]
pub enum HasDevUnits {
    Yes,
    No,
}

/// Whether the filter by target platform is switched off.
#[derive(Debug, Clone, Copy, PartialEq, Eq, Structural)]
pub enum ForceAllTargets {
    Yes,
    No,
}

/// A platform to compile for.
#[derive(Debug, Clone, Copy, PartialEq, Eq, Structural)]
pub enum CompileKind {
    /// The platform that the build runs on.
    Host,
}

/// The features selected on the command line.
#[derive(Debug, Clone)]
pub struct CliFeatures {
    /// The features named by `--features`, one by one.
    pub features: Vec<String>,
    /// The `--all-features` flag.
    pub all_features: bool,
    /// The inverse of the `--no-default-features` flag.
    pub uses_default_features: bool,
}

/// What the freshness scan is told.
#[derive(Debug, Clone)]
pub struct StaticScanConfig {
    /// Features to enable or disable.
    pub features: CliFeatures,
    /// Platforms to compile for.
    pub requested_kinds: Vec<CompileKind>,
    pub mode: CompileMode,
    pub has_dev_units: HasDevUnits,
    pub force_all_targets: ForceAllTargets,
    pub profile_name: String,
    /// The directory that the run works in.
    pub work_dir: String,
}

/// The error type of cargo's functions.
#[verifier::external_type_specification]
#[verifier::external_body]
pub struct ExAnyhowError(anyhow::Error);

/// The features that a list of `--features` values names, one by one, where
/// cargo accepts the list: what `CliFeatures::from_command_line` of cargo
/// gives for the list, each feature in its written form.
pub uninterp spec fn command_line_features(values: Seq<Seq<char>>) -> Option<Seq<Seq<char>>>;

/// The features that the command line selects.
///
/// Trusted: this is `cargo::core::resolver::CliFeatures::from_command_line`.
/// As its source shows, whether it accepts the values and which features it
/// takes from them depends on the values alone, and it hands the two flags on
/// as they are given. The contract names the features and states the flags.
#[verifier::external_body]
fn features_from_command_line(
    values: &Vec<String>,
    all_features: bool,
    uses_default_features: bool,
) -> (r: Result<CliFeatures, anyhow::Error>)
    ensures
        match r {
            Ok(selected) => {
                &&& command_line_features(values.deep_view()) == Some(
                    selected.features.deep_view(),
                )
                &&& selected.all_features == all_features
                &&& selected.uses_default_features == uses_default_features
            },
            Err(_) => command_line_features(values.deep_view()) is None,
        },
{
    let selected = cargo::core::resolver::CliFeatures::from_command_line(
        values,
        all_features,
        uses_default_features,
    )?;
    Ok(
        CliFeatures {
            features: selected.features.iter().map(|feature| feature.to_string()).collect(),
            all_features: selected.all_features,
            uses_default_features: selected.uses_default_features,
        },
    )
}

/// A selection that names no feature.
///
/// Trusted: this is `cargo::core::resolver::CliFeatures::new_all`. As its
/// source shows, it names no feature, sets the flag for all features as given
/// and keeps the default features.
#[verifier::external_body]
fn features_new_all(all_features: bool) -> (r: CliFeatures)
    ensures
        r.features@.len() == 0,
        r.all_features == all_features,
        r.uses_default_features,
{
    let selected = cargo::core::resolver::CliFeatures::new_all(all_features);
    CliFeatures {
        features: selected.features.iter().map(|feature| feature.to_string()).collect(),
        all_features: selected.all_features,
        uses_default_features: selected.uses_default_features,
    }
}

/// The profile that counts: the one among the arguments for `cargo build`,
/// else the one of the run.
pub open spec fn effective_profile(parsed: ParsedModel, profile: Seq<char>) -> Seq<char> {
    match parsed.additional_profile {
        Some(named) => named,
        None => profile,
    }
}

/// Whether a profile builds tests: `test` and `bench` do.
pub open spec fn builds_tests(profile: Seq<char>) -> bool {
    profile == "test"@ || profile == "bench"@
}

/// The features, as plain text, that the scan is told of: all of them where
/// asked for; else those named, with the default features unless switched
/// off; and where cargo refuses what was named, none but the default ones.
pub open spec fn selected_features(parsed: ParsedModel) -> (Seq<Seq<char>>, bool, bool) {
    if parsed.all_features {
        (Seq::empty(), true, true)
    } else {
        match command_line_features(parsed.features_args) {
            Some(features) => (features, false, !parsed.no_default_features),
            None => (Seq::empty(), false, true),
        }
    }
}

impl StaticScanConfig {
    /// Read features, targets and profile off the arguments for `cargo build`.
    pub fn parse_cargo_args(cargo_args: &Vec<String>) -> (r: ParsedCargoArgs)
        ensures
            r@ == parsed(cargo_args.deep_view()),
    {
        let ghost args = cargo_args.deep_view();
        let mut out = ParsedCargoArgs {
            features_args: Vec::new(),
            all_features: false,
            no_default_features: false,
            target_args: Vec::new(),
            additional_profile: None,
        };
        assert(out@ =~= nothing_parsed()) by {
            assert(out.target_args.deep_view() =~= Seq::<Seq<char>>::empty());
        }
        let n = cargo_args.len();
        let mut i: usize = 0;
        while i < n
            invariant
                i <= n,
                n == cargo_args@.len(),
                args == cargo_args.deep_view(),
                parsed(args) == parsed_from(args, i as int, out@),
            decreases n - i,
        {
            let arg = cargo_args[i].as_str();
            let ghost before = out@;
            let has_next = i + 1 < n;
            if str_eq(arg, "--features") {
                if has_next {
                    out.features_args.push(cargo_args[i + 1].clone());
                    assert(out.features_args.deep_view() =~= before.features_args.push(args[i + 1]));
                    i += 2;
                } else {
                    i += 1;
                }
            } else if str_eq(arg, "--all-features") {
                out.all_features = true;
                i += 1;
            } else if str_eq(arg, "--no-default-features") {
                out.no_default_features = true;
                i += 1;
            } else if str_eq(arg, "--target") {
                if has_next {
                    out.target_args.push(cargo_args[i + 1].clone());
                    assert(out.target_args.deep_view() =~= before.target_args.push(args[i + 1]));
                    i += 2;
                } else {
                    i += 1;
                }
            } else if str_eq(arg, "--profile") {
                if has_next {
                    out.additional_profile = Some(cargo_args[i + 1].clone());
                    i += 2;
                } else {
                    i += 1;
                }
            } else {
                match strip_prefix(arg, "--features=") {
                    Some(list) => {
                        out.features_args.push(list);
                        assert(out.features_args.deep_view() =~= before.features_args.push(
                            rest_after(arg@, "--features="@)->0,
                        ));
                    },
                    None => {
                        match strip_prefix(arg, "--target=") {
                            Some(target) => {
                                out.target_args.push(target);
                                assert(out.target_args.deep_view() =~= before.target_args.push(
                                    rest_after(arg@, "--target="@)->0,
                                ));
                            },
                            None => {
                                match strip_prefix(arg, "--profile=") {
                                    Some(profile) => {
                                        out.additional_profile = Some(profile);
                                    },
                                    None => {},
                                }
                            },
                        }
                    },
                }
                i += 1;
            }
        }
        out
    }

    /// What the scan is told for a run with the given options, working in
    /// the given directory.
    pub fn from_args(args: &Args, work_dir: String) -> (config: Self)
        ensures
            config.profile_name@ == effective_profile(
                parsed(args.cargo_args.deep_view()),
                args.profile@,
            ),
            (config.features.features.deep_view(), config.features.all_features,
                config.features.uses_default_features) == selected_features(
                parsed(args.cargo_args.deep_view()),
            ),
            config.requested_kinds@ == seq![CompileKind::Host],
            config.mode == (if builds_tests(config.profile_name@) {
                CompileMode::Test
            } else {
                CompileMode::Build
            }),
            config.has_dev_units == (if builds_tests(config.profile_name@) {
                HasDevUnits::Yes
            } else {
                HasDevUnits::No
            }),
            config.force_all_targets == ForceAllTargets::No,
            config.work_dir@ == work_dir@,
    {
        let given = Self::parse_cargo_args(&args.cargo_args);
        let effective_profile = match given.additional_profile {
            Some(named) => named,
            None => args.profile.clone(),
        };
        let features = if given.all_features {
            features_new_all(true)
        } else {
            match features_from_command_line(
                &given.features_args,
                false,
                !given.no_default_features,
            ) {
                Ok(selected) => selected,
                Err(_) => features_new_all(false),
            }
        };
        let mut requested_kinds: Vec<CompileKind> = Vec::new();
        requested_kinds.push(CompileKind::Host);
        let tests = str_eq(effective_profile.as_str(), "test") || str_eq(
            effective_profile.as_str(),
            "bench",
        );
        let mode = if tests {
            CompileMode::Test
        } else {
            CompileMode::Build
        };
        let has_dev_units = if tests {
            HasDevUnits::Yes
        } else {
            HasDevUnits::No
        };
        StaticScanConfig {
            features,
            requested_kinds,
            mode,
            has_dev_units,
            force_all_targets: ForceAllTargets::No,
            profile_name: effective_profile,
            work_dir,
        }
    }
}

} // verus!
