use semver_helper::semantic_version::{SemanticVersion, SemanticVersionBuilder};

#[test]
fn coloured_output_without_colours_is_the_plain_text() {
    colored::control::set_override(false);
    let v = SemanticVersionBuilder::default()
        .patch(24)
        .build_iteration(42)
        .as_beta()
        .build()
        .unwrap();
    assert_eq!(v.coloured_to_string(), v.to_string());
}

#[test]
fn coloured_output_with_colours_wraps_each_segment() {
    colored::control::set_override(true);
    let v = SemanticVersionBuilder::default()
        .patch(24)
        .build_iteration(42)
        .as_beta()
        .build()
        .unwrap();
    let expected = format!(
        "\u{1b}[35m{}\u{1b}[0m\u{1b}[36m{}\u{1b}[0m\u{1b}[32m{}\u{1b}[0m",
        "0.1.24", "-beta", "+42"
    );
    assert_eq!(v.coloured_to_string(), expected);
    colored::control::unset_override();
}

#[test]
fn coloured_output_of_default_version() {
    colored::control::set_override(true);
    let v = SemanticVersion::default();
    let expected = format!(
        "\u{1b}[35m{}\u{1b}[0m\u{1b}[36m{}\u{1b}[0m\u{1b}[32m{}\u{1b}[0m",
        "0.1.0", "", ""
    );
    assert_eq!(v.coloured_to_string(), expected);
    colored::control::unset_override();
}
