use semver_helper::parser::{parse, ParseError};
use semver_helper::semantic_version::{PreReleaseFlag, SemanticVersion, SemanticVersionBuilder};

fn fields(v: &SemanticVersion) -> (u16, u16, u16, u16, Option<PreReleaseFlag>) {
    (v.major, v.minor, v.patch, v.build_iteration, v.pre_release_flag)
}

#[test]
fn parses_plain_version() {
    let v = parse("1.2.3").unwrap();
    assert_eq!(fields(&v), (1, 2, 3, 0, None));
}

#[test]
fn parses_alpha_with_build() {
    let v = parse("1.2.3-alpha+7").unwrap();
    assert_eq!(fields(&v), (1, 2, 3, 7, Some(PreReleaseFlag::alpha)));
}

#[test]
fn parses_beta_without_build() {
    let v = parse("10.20.30-beta").unwrap();
    assert_eq!(fields(&v), (10, 20, 30, 0, Some(PreReleaseFlag::beta)));
}

#[test]
fn parses_double_dash_build_separator() {
    let v = parse("1.2.3--7").unwrap();
    assert_eq!(fields(&v), (1, 2, 3, 7, None));

    let v = parse("1.2.3-beta--42").unwrap();
    assert_eq!(fields(&v), (1, 2, 3, 42, Some(PreReleaseFlag::beta)));
}

#[test]
fn explicit_zero_build_is_accepted_and_renders_implicitly() {
    let v = parse("1.2.3+0").unwrap();
    assert_eq!(fields(&v), (1, 2, 3, 0, None));
    assert_eq!(v.to_string(), "1.2.3");
}

#[test]
fn unknown_tag_is_rejected_as_unknown() {
    assert_eq!(parse("1.2.3-gamma"), Err(ParseError::UnknownPreReleaseTag));
    assert_eq!(parse("1.2.3-rc1+4"), Err(ParseError::UnknownPreReleaseTag));
}

#[test]
fn malformed_strings_are_rejected() {
    assert_eq!(parse(""), Err(ParseError::MalformedVersionString));
    assert_eq!(parse("1.2"), Err(ParseError::MalformedVersionString));
    assert_eq!(parse("1.2."), Err(ParseError::MalformedVersionString));
    assert_eq!(parse("a.b.c"), Err(ParseError::MalformedVersionString));
    assert_eq!(parse("1.2.3x"), Err(ParseError::MalformedVersionString));
    assert_eq!(parse("1.2.3-"), Err(ParseError::MalformedVersionString));
    assert_eq!(parse("1.2.3--beta"), Err(ParseError::MalformedVersionString));
    assert_eq!(parse("1.2.3+"), Err(ParseError::MalformedVersionString));
    assert_eq!(parse("1.2.3+4x"), Err(ParseError::MalformedVersionString));
    assert_eq!(parse(" 1.2.3"), Err(ParseError::MalformedVersionString));
    assert_eq!(parse("1.2.3 "), Err(ParseError::MalformedVersionString));
}

#[test]
fn out_of_range_components_are_rejected() {
    assert_eq!(parse("99999.0.0"), Err(ParseError::MalformedVersionString));
    assert_eq!(parse("0.0.65536"), Err(ParseError::MalformedVersionString));
    assert_eq!(parse("1.2.3+70000"), Err(ParseError::MalformedVersionString));
    let v = parse("65535.65535.65535+65535").unwrap();
    assert_eq!(fields(&v), (65535, 65535, 65535, 65535, None));
}

#[test]
fn leading_zeros_are_tolerated() {
    let v = parse("01.002.0003").unwrap();
    assert_eq!(fields(&v), (1, 2, 3, 0, None));
}

#[test]
fn round_trip_preserves_every_field() {
    let samples = [
        SemanticVersionBuilder::default().build().unwrap(),
        SemanticVersionBuilder::default()
            .major(1)
            .minor(2)
            .patch(3)
            .build()
            .unwrap(),
        SemanticVersionBuilder::default()
            .patch(24)
            .build_iteration(42)
            .as_alpha()
            .build()
            .unwrap(),
        SemanticVersionBuilder::default()
            .major(65535)
            .build_iteration(1)
            .as_beta()
            .build()
            .unwrap(),
        SemanticVersionBuilder::default().as_beta().build().unwrap(),
    ];
    for v in samples {
        let text = v.to_string();
        let back = parse(&text).unwrap();
        assert_eq!(fields(&back), fields(&v), "round trip through {text}");
    }
}

#[test]
fn full_round_trip_scenario() {
    let mut v = SemanticVersionBuilder::default()
        .major(0)
        .minor(1)
        .patch(24)
        .build_iteration(42)
        .as_alpha()
        .build()
        .unwrap();

    v.set_beta();
    assert_eq!(v.to_string(), "0.1.24-beta+42");
    let reparsed = parse(&v.to_string()).unwrap();
    assert_eq!(fields(&reparsed), fields(&v));

    v.remove_flag();
    assert_eq!(v.to_string(), "0.1.24+42");
    let reparsed = parse(&v.to_string()).unwrap();
    assert_eq!(fields(&reparsed), fields(&v));
}
