use semver_helper::cli::{Cli, Commands};
use semver_helper::semantic_version::{PreReleaseFlag, SemanticVersion};

fn cli_for(command: Commands) -> Cli {
    Cli { command, verbose: false, coloured: false }
}

#[test]
fn dispatch_major_mutates_and_persists() {
    let mut v = SemanticVersion::default();
    let persist = cli_for(Commands::Major).dispatch(&mut v);
    assert!(persist);
    assert_eq!(v.to_string(), "1.0.0");
}

#[test]
fn dispatch_build_keeps_tag_and_persists() {
    let mut v = SemanticVersion::default();
    v.set_alpha();
    let persist = cli_for(Commands::Build).dispatch(&mut v);
    assert!(persist);
    assert_eq!(v.pre_release_flag, Some(PreReleaseFlag::alpha));
    assert_eq!(v.to_string(), "0.1.0-alpha+1");
}

#[test]
fn dispatch_get_reads_only() {
    let mut v = SemanticVersion::default();
    v.set_beta();
    let before = v;
    let persist = cli_for(Commands::Get).dispatch(&mut v);
    assert!(!persist);
    assert_eq!(v, before);
}

#[test]
fn dispatch_init_persists_without_mutation() {
    let mut v = SemanticVersion::default();
    let before = v;
    let persist = cli_for(Commands::Init).dispatch(&mut v);
    assert!(persist);
    assert_eq!(v, before);
}

#[test]
fn dispatch_release_clears_tag() {
    let mut v = SemanticVersion::default();
    v.set_alpha();
    let persist = cli_for(Commands::Release).dispatch(&mut v);
    assert!(persist);
    assert_eq!(v.pre_release_flag, None);
}
