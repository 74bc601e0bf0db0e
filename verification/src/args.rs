//! The options of a garbage-collection run, as the command line gives them and
//! as the rest of the crate reads them.

use vstd::prelude::*;
use crate::text::str_eq;

verus! {

/// The parsed command line.
pub struct Cli {
    pub command: Command,
}

/// The subcommands of the tool.
pub enum Command {
    Gc(GcCommand),
}

/// The options of the `gc` subcommand.
pub struct GcCommand {
    /// Display the detailed path of removed files.
    pub verbose: bool,
    /// Perform all checks without making any changes.
    pub dry_run: bool,
    /// Collect artifacts built in the release profile.
    pub release: bool,
    /// Collect artifacts built in the named profile.
    pub profile: Option<String>,
    /// Arguments handed on to `cargo build`.
    pub cargo_args: Vec<String>,
}

/// The options of one run, with the profile settled.
pub struct Args {
    pub profile: String,
    pub verbose: bool,
    pub dry_run: bool,
    pub cargo_args: Vec<String>,
}

impl Cli {
    /// The options of the one subcommand there is.
    pub open spec fn options(self) -> GcCommand {
        match self.command {
            Command::Gc(options) => options,
        }
    }

    /// `--profile` and `--release` exclude each other.
    pub open spec fn conflicting(self) -> bool {
        self.options().profile is Some && self.options().release
    }

    /// Whether `--profile` and `--release` were both given.
    pub fn is_conflicting(&self) -> (r: bool)
        ensures
            r == self.conflicting(),
    {
        match &self.command {
            Command::Gc(options) => options.profile.is_some() && options.release,
        }
    }

    /// The profile that the options select: the named one, else `release` if
    /// asked for, else `dev`.
    pub open spec fn selected_profile(self) -> Seq<char> {
        match self.options().profile {
            Some(profile) => profile@,
            None => if self.options().release {
                "release"@
            } else {
                "dev"@
            },
        }
    }
}

impl Args {
    /// Settle the profile of a run from the command line.
    pub fn from_cli(cli: Cli) -> (args: Self)
        requires
            !cli.conflicting(),
        ensures
            args.profile@ == cli.selected_profile(),
            args.verbose == cli.options().verbose,
            args.dry_run == cli.options().dry_run,
            args.cargo_args == cli.options().cargo_args,
    {
        let Command::Gc(options) = cli.command;
        let profile = match options.profile {
            Some(profile) => profile,
            None => if options.release {
                "release".to_owned()
            } else {
                "dev".to_owned()
            },
        };
        Args {
            profile,
            verbose: options.verbose,
            dry_run: options.dry_run,
            cargo_args: options.cargo_args,
        }
    }

    /// The arguments that make `cargo build` use this run's profile: none for
    /// `debug`, else `--profile` and the profile's name.
    pub open spec fn profile_args(self) -> Seq<Seq<char>> {
        if self.profile@ == "debug"@ {
            seq![]
        } else {
            seq!["--profile"@, self.profile@]
        }
    }

    /// The arguments that make `cargo build` use this run's profile.
    pub fn cargo_profile_args(&self) -> (r: Vec<String>)
        ensures
            r.deep_view() == self.profile_args(),
    {
        let mut out: Vec<String> = Vec::new();
        if !str_eq(self.profile.as_str(), "debug") {
            out.push("--profile".to_owned());
            out.push(self.profile.clone());
        }
        out
    }
}

} // verus!
