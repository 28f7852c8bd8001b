use crate::semantic_version::{
    spec_inc_build, spec_inc_major, spec_inc_minor, spec_inc_patch, spec_remove_flag,
    spec_set_alpha, spec_set_beta, SemanticVersion,
};
use vstd::prelude::*;

verus! {

/// The operation one invocation performs on the stored version.
#[derive(Clone, Copy, Debug, PartialEq, Eq, Structural)]
pub enum Commands {
    /// Increment the major version and reset minor, patch and build.
    Major,
    /// Increment the minor version and reset patch and build.
    Minor,
    /// Increment the patch version and reset build.
    Patch,
    /// Increment the build counter; the alpha/beta tag is kept.
    Build,
    /// Set the alpha tag.
    Alpha,
    /// Set the beta tag.
    Beta,
    /// Remove the alpha/beta tag.
    Release,
    /// Create the default version where none is stored yet; an existing
    /// version is left as it is.
    Init,
    /// Print the stored version without changing it.
    Get,
}

/// One parsed command line: the chosen command and the two global flags.
#[derive(Clone, Copy, Debug)]
pub struct Cli {
    pub command: Commands,
    pub verbose: bool,
    pub coloured: bool,
}

/// The version a command leaves behind when it acts on `v`.
pub open spec fn spec_command_effect(cmd: Commands, v: SemanticVersion) -> SemanticVersion {
    match cmd {
        Commands::Major => spec_inc_major(v),
        Commands::Minor => spec_inc_minor(v),
        Commands::Patch => spec_inc_patch(v),
        Commands::Build => spec_inc_build(v),
        Commands::Alpha => spec_set_alpha(v),
        Commands::Beta => spec_set_beta(v),
        Commands::Release => spec_remove_flag(v),
        Commands::Init => v,
        Commands::Get => v,
    }
}

/// True when the command's increment cannot overflow on `v`.
pub open spec fn spec_command_fits(cmd: Commands, v: SemanticVersion) -> bool {
    match cmd {
        Commands::Major => v.major < u16::MAX,
        Commands::Minor => v.minor < u16::MAX,
        Commands::Patch => v.patch < u16::MAX,
        Commands::Build => v.build_iteration < u16::MAX,
        _ => true,
    }
}

/// True when the store must be rewritten after the command: every command
/// persists its result except `get`, which only reads and prints.
pub open spec fn spec_command_persists(cmd: Commands) -> bool {
    cmd != Commands::Get
}

impl Cli {
    fn run_major(&self, semvar: &mut SemanticVersion)
        requires
            old(semvar).major < u16::MAX,
        ensures
            *final(semvar) == spec_inc_major(*old(semvar)),
    {
        semvar.inc_major();
    }

    fn run_minor(&self, semvar: &mut SemanticVersion)
        requires
            old(semvar).minor < u16::MAX,
        ensures
            *final(semvar) == spec_inc_minor(*old(semvar)),
    {
        semvar.inc_minor()
    }

    fn run_patch(&self, semvar: &mut SemanticVersion)
        requires
            old(semvar).patch < u16::MAX,
        ensures
            *final(semvar) == spec_inc_patch(*old(semvar)),
    {
        semvar.inc_patch()
    }

    fn run_build(&self, semvar: &mut SemanticVersion)
        requires
            old(semvar).build_iteration < u16::MAX,
        ensures
            *final(semvar) == spec_inc_build(*old(semvar)),
    {
        semvar.inc_build()
    }

    fn run_alpha(&self, semvar: &mut SemanticVersion)
        ensures
            *final(semvar) == spec_set_alpha(*old(semvar)),
    {
        semvar.set_alpha()
    }

    fn run_beta(&self, semvar: &mut SemanticVersion)
        ensures
            *final(semvar) == spec_set_beta(*old(semvar)),
    {
        semvar.set_beta()
    }

    fn run_release(&self, semvar: &mut SemanticVersion)
        ensures
            *final(semvar) == spec_remove_flag(*old(semvar)),
    {
        semvar.remove_flag()
    }

    /// Apply this invocation's command to the version it acts on, and say
    /// whether the result must be written back to the store.
    pub fn dispatch(&self, semvar: &mut SemanticVersion) -> (persist: bool)
        requires
            spec_command_fits(self.command, *old(semvar)),
        ensures
            *final(semvar) == spec_command_effect(self.command, *old(semvar)),
            persist == spec_command_persists(self.command),
    {
        match self.command {
            Commands::Major => {
                self.run_major(semvar);
                true
            },
            Commands::Minor => {
                self.run_minor(semvar);
                true
            },
            Commands::Patch => {
                self.run_patch(semvar);
                true
            },
            Commands::Build => {
                self.run_build(semvar);
                true
            },
            Commands::Alpha => {
                self.run_alpha(semvar);
                true
            },
            Commands::Beta => {
                self.run_beta(semvar);
                true
            },
            Commands::Release => {
                self.run_release(semvar);
                true
            },
            Commands::Init => true,
            Commands::Get => false,
        }
    }
}

} // verus!
