use semver_helper::semantic_version::{PreReleaseFlag, SemanticVersion, SemanticVersionBuilder};

fn assert_semver(semvar: &SemanticVersion, major: u16, minor: u16, patch: u16, build: u16) {
    assert_eq!(semvar.major, major);
    assert_eq!(semvar.minor, minor);
    assert_eq!(semvar.patch, patch);
    assert_eq!(semvar.build_iteration, build);
}

#[test]
fn test_inc_major() {
    let mut initial = SemanticVersionBuilder::default().build().unwrap();

    initial.inc_major();

    assert_semver(&initial, 1, 0, 0, 0)
}

#[test]
fn test_inc_minor() {
    let mut initial = SemanticVersionBuilder::default().build().unwrap();

    initial.inc_minor();

    assert_semver(&initial, 0, 2, 0, 0)
}

#[test]
fn test_inc_patch() {
    let mut initial = SemanticVersionBuilder::default().build().unwrap();

    initial.inc_patch();

    assert_semver(&initial, 0, 1, 1, 0)
}

#[test]
fn test_inc_build() {
    let mut initial = SemanticVersionBuilder::default().build().unwrap();

    initial.inc_build();

    assert_semver(&initial, 0, 1, 0, 1)
}

#[test]
fn test_set_alpha() {
    let mut initial = SemanticVersionBuilder::default().build().unwrap();

    initial.set_alpha();

    assert_semver(&initial, 0, 1, 0, 0);
    assert_eq!(initial.pre_release_flag, Some(PreReleaseFlag::alpha));
}

#[test]
fn test_set_beta() {
    let mut initial = SemanticVersionBuilder::default().build().unwrap();

    initial.set_beta();

    assert_semver(&initial, 0, 1, 0, 0);
    assert_eq!(initial.pre_release_flag, Some(PreReleaseFlag::beta));
}

#[test]
fn test_unset_pre_release_flag() {
    let mut initial = SemanticVersionBuilder::default().build().unwrap();

    initial.remove_flag();

    assert_semver(&initial, 0, 1, 0, 0);
    assert_eq!(initial.pre_release_flag, None);
}

#[test]
fn test_initial() {
    let initial = SemanticVersionBuilder::default().build().unwrap();

    assert_semver(&initial, 0, 1, 0, 0)
}

#[test]
fn test_to_string() {
    let initial = SemanticVersionBuilder::default().build().unwrap();

    assert_eq!(initial.to_string(), "0.1.0")
}

#[test]
fn test_full_to_string() {
    let mut initial = SemanticVersionBuilder::default()
        .patch(24)
        .build_iteration(42)
        .as_alpha()
        .build()
        .unwrap();

    initial.set_beta();

    assert_eq!(initial.to_string(), "0.1.24-beta+42")
}

#[test]
fn test_remove_beta_to_string() {
    let mut initial = SemanticVersionBuilder::default()
        .patch(24)
        .build_iteration(42)
        .as_beta()
        .build()
        .unwrap();

    initial.remove_flag();

    assert_eq!(initial.to_string(), "0.1.24+42")
}

#[test]
fn default_version_renders_0_1_0() {
    let fresh = SemanticVersion::default();

    assert_semver(&fresh, 0, 1, 0, 0);
    assert_eq!(fresh.pre_release_flag, None);
    assert_eq!(fresh.to_string(), "0.1.0");
}

#[test]
fn increments_render_canonically() {
    let mut v = SemanticVersion::default();
    v.inc_major();
    assert_eq!(v.to_string(), "1.0.0");

    let mut v = SemanticVersion::default();
    v.inc_minor();
    assert_eq!(v.to_string(), "0.2.0");

    let mut v = SemanticVersion::default();
    v.inc_patch();
    assert_eq!(v.to_string(), "0.1.1");

    let mut v = SemanticVersion::default();
    v.inc_build();
    assert_eq!(v.to_string(), "0.1.0+1");
}

#[test]
fn alpha_then_beta_then_clear_leaves_numbers_untouched() {
    let mut v = SemanticVersionBuilder::default()
        .major(3)
        .minor(5)
        .patch(7)
        .build_iteration(9)
        .build()
        .unwrap();

    v.set_alpha();
    assert_eq!(v.pre_release_flag, Some(PreReleaseFlag::alpha));
    v.set_beta();
    assert_eq!(v.pre_release_flag, Some(PreReleaseFlag::beta));
    v.remove_flag();

    assert_eq!(v.pre_release_flag, None);
    assert_semver(&v, 3, 5, 7, 9);
}

#[test]
fn inc_build_keeps_active_pre_release_flag() {
    let mut v = SemanticVersionBuilder::default().as_alpha().build().unwrap();

    v.inc_build();

    assert_eq!(v.pre_release_flag, Some(PreReleaseFlag::alpha));
    assert_semver(&v, 0, 1, 0, 1);
}

#[test]
fn major_resets_everything_below_it() {
    let mut v = SemanticVersionBuilder::default()
        .major(1)
        .minor(4)
        .patch(9)
        .build_iteration(16)
        .as_beta()
        .build()
        .unwrap();

    v.inc_major();

    assert_semver(&v, 2, 0, 0, 0);
    assert_eq!(v.pre_release_flag, None);
}
