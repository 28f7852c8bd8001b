use crate::digits::{
    all_digits, digit_char_val, digits_value, is_digit_char, lemma_digits_value_extend,
    lemma_digits_value_nonneg, lemma_spec_digits_value, lemma_spec_digits_wf, spec_digits,
};
use crate::render::{spec_build_part, spec_pre_release_part, spec_render, spec_version_core};
use crate::semantic_version::{PreReleaseFlag, SemanticVersion};
use vstd::prelude::*;
use vstd::string::StrSliceExecFns;

verus! {

/// Why a version string was rejected: it does not fit the grammar at all, or
/// it names a pre-release tag that is neither "alpha" nor "beta".
#[derive(Clone, Copy, Debug, PartialEq, Eq, Structural)]
pub enum ParseError {
    MalformedVersionString,
    UnknownPreReleaseTag,
}

/// A character a pre-release tag may be written with: an ASCII letter or digit.
pub open spec fn is_tag_char(c: char) -> bool {
    ('a' as int <= c as int && c as int <= 'z' as int) || ('A' as int <= c as int && c as int
        <= 'Z' as int) || is_digit_char(c)
}

/// The characters of the "alpha" tag.
pub open spec fn alpha_tag() -> Seq<char> {
    seq!['a', 'l', 'p', 'h', 'a']
}

/// The characters of the "beta" tag.
pub open spec fn beta_tag() -> Seq<char> {
    seq!['b', 'e', 't', 'a']
}

/// The length of the run of digit characters that starts at `from`.
pub open spec fn digit_run_len(s: Seq<char>, from: int) -> int
    decreases s.len() - from,
{
    if from < 0 || from >= s.len() || !is_digit_char(s[from]) {
        0
    } else {
        1 + digit_run_len(s, from + 1)
    }
}

/// The length of the run of tag characters that starts at `from`.
pub open spec fn tag_run_len(s: Seq<char>, from: int) -> int
    decreases s.len() - from,
{
    if from < 0 || from >= s.len() || !is_tag_char(s[from]) {
        0
    } else {
        1 + tag_run_len(s, from + 1)
    }
}

/// True when digits, and nothing else, fill the string from `b` to its end.
pub open spec fn digit_tail(s: Seq<char>, b: int) -> bool {
    digit_run_len(s, b) > 0 && b + digit_run_len(s, b) == s.len()
}

/// The version with the given five fields.
pub open spec fn spec_version(
    major: u16,
    minor: u16,
    patch: u16,
    build: u16,
    flag: Option<PreReleaseFlag>,
) -> SemanticVersion {
    SemanticVersion {
        major: major,
        minor: minor,
        patch: patch,
        build_iteration: build,
        pre_release_flag: flag,
    }
}

/// The build segment of the grammar: from `b`, digits and nothing else up to
/// the end of the input, their value within range.
pub open spec fn spec_parse_build(
    s: Seq<char>,
    b: int,
    major: u16,
    minor: u16,
    patch: u16,
    flag: Option<PreReleaseFlag>,
) -> Result<SemanticVersion, ParseError> {
    let l = digit_run_len(s, b);
    if l == 0 || b + l != s.len() {
        Err(ParseError::MalformedVersionString)
    } else if digits_value(s.subrange(b, s.len() as int)) > u16::MAX as int {
        Err(ParseError::MalformedVersionString)
    } else {
        Ok(spec_version(major, minor, patch, digits_value(s.subrange(b, s.len() as int)) as u16, flag))
    }
}

/// What may follow a recognised pre-release tag at position `q`: the end of
/// the input, or a build segment introduced by "+" or "--".
pub open spec fn spec_parse_after_tag(
    s: Seq<char>,
    q: int,
    major: u16,
    minor: u16,
    patch: u16,
    flag: Option<PreReleaseFlag>,
) -> Result<SemanticVersion, ParseError> {
    if q == s.len() {
        Ok(spec_version(major, minor, patch, 0, flag))
    } else if s[q] == '+' {
        spec_parse_build(s, q + 1, major, minor, patch, flag)
    } else if q + 1 < s.len() && s[q] == '-' && s[q + 1] == '-' {
        spec_parse_build(s, q + 2, major, minor, patch, flag)
    } else {
        Err(ParseError::MalformedVersionString)
    }
}

/// What may follow the three numeric components at position `p`: the end of
/// the input; a build segment introduced by "+", or by "--" when only digits
/// follow it; or a pre-release tag introduced by "-", itself followed by a
/// build segment or the end. A tag other than "alpha" or "beta" is rejected
/// as unknown; everything else that fails to fit is malformed.
pub open spec fn spec_parse_tail(
    s: Seq<char>,
    p: int,
    major: u16,
    minor: u16,
    patch: u16,
) -> Result<SemanticVersion, ParseError> {
    if p == s.len() {
        Ok(spec_version(major, minor, patch, 0, None))
    } else if s[p] == '+' {
        spec_parse_build(s, p + 1, major, minor, patch, None)
    } else if p + 1 < s.len() && s[p] == '-' && s[p + 1] == '-' && digit_tail(s, p + 2) {
        spec_parse_build(s, p + 2, major, minor, patch, None)
    } else if s[p] == '-' {
        let t = tag_run_len(s, p + 1);
        if t == 0 {
            Err(ParseError::MalformedVersionString)
        } else if s.subrange(p + 1, p + 1 + t) == alpha_tag() {
            spec_parse_after_tag(s, p + 1 + t, major, minor, patch, Some(PreReleaseFlag::alpha))
        } else if s.subrange(p + 1, p + 1 + t) == beta_tag() {
            spec_parse_after_tag(s, p + 1 + t, major, minor, patch, Some(PreReleaseFlag::beta))
        } else {
            Err(ParseError::UnknownPreReleaseTag)
        }
    } else {
        Err(ParseError::MalformedVersionString)
    }
}

/// One numeric component of the grammar at position `from`: its digit run,
/// which must be nonempty and denote a value within range.
pub open spec fn spec_component_ok(s: Seq<char>, from: int) -> bool {
    digit_run_len(s, from) > 0 && digits_value(
        s.subrange(from, from + digit_run_len(s, from)),
    ) <= u16::MAX as int
}

/// The value of the numeric component at position `from`.
pub open spec fn spec_component_val(s: Seq<char>, from: int) -> u16 {
    digits_value(s.subrange(from, from + digit_run_len(s, from))) as u16
}

/// The whole grammar: "major.minor.patch", an optional "-alpha" or "-beta"
/// pre-release tag, an optional "+" or "--" build counter, and nothing else.
/// The result pins down, for every input, either the parsed version or the
/// error it is rejected with.
pub open spec fn spec_parse(s: Seq<char>) -> Result<SemanticVersion, ParseError> {
    let l1 = digit_run_len(s, 0);
    if !spec_component_ok(s, 0) {
        Err(ParseError::MalformedVersionString)
    } else if l1 == s.len() || s[l1] != '.' {
        Err(ParseError::MalformedVersionString)
    } else {
        let p2 = l1 + 1;
        let l2 = digit_run_len(s, p2);
        if !spec_component_ok(s, p2) {
            Err(ParseError::MalformedVersionString)
        } else if p2 + l2 == s.len() || s[p2 + l2] != '.' {
            Err(ParseError::MalformedVersionString)
        } else {
            let p3 = p2 + l2 + 1;
            let l3 = digit_run_len(s, p3);
            if !spec_component_ok(s, p3) {
                Err(ParseError::MalformedVersionString)
            } else {
                spec_parse_tail(
                    s,
                    p3 + l3,
                    spec_component_val(s, 0),
                    spec_component_val(s, p2),
                    spec_component_val(s, p3),
                )
            }
        }
    }
}

/// A digit run's length is exactly the distance to the first non-digit.
pub proof fn lemma_digit_run_exact(s: Seq<char>, from: int, to: int)
    requires
        0 <= from <= to <= s.len(),
        forall|j: int| from <= j < to ==> is_digit_char(s[j]),
        to == s.len() || !is_digit_char(s[to]),
    ensures
        digit_run_len(s, from) == to - from,
    decreases to - from,
{
    if from < to {
        lemma_digit_run_exact(s, from + 1, to);
    }
}

/// A digit run reaches at least past every all-digit prefix.
pub proof fn lemma_digit_run_min(s: Seq<char>, from: int, to: int)
    requires
        0 <= from <= to <= s.len(),
        forall|j: int| from <= j < to ==> is_digit_char(s[j]),
    ensures
        digit_run_len(s, from) >= to - from,
    decreases to - from,
{
    if from < to {
        lemma_digit_run_min(s, from + 1, to);
    } else {
        lemma_digit_run_props(s, from);
    }
}

/// A digit run stays within the string, holds digits only, and stops at a
/// non-digit or the end.
pub proof fn lemma_digit_run_props(s: Seq<char>, from: int)
    requires
        0 <= from <= s.len(),
    ensures
        0 <= digit_run_len(s, from),
        from + digit_run_len(s, from) <= s.len(),
        forall|j: int| from <= j < from + digit_run_len(s, from) ==> is_digit_char(s[j]),
        from + digit_run_len(s, from) == s.len() || !is_digit_char(
            s[from + digit_run_len(s, from)],
        ),
    decreases s.len() - from,
{
    if from < s.len() && is_digit_char(s[from]) {
        lemma_digit_run_props(s, from + 1);
    }
}

/// A tag run's length is exactly the distance to the first non-tag character.
pub proof fn lemma_tag_run_exact(s: Seq<char>, from: int, to: int)
    requires
        0 <= from <= to <= s.len(),
        forall|j: int| from <= j < to ==> is_tag_char(s[j]),
        to == s.len() || !is_tag_char(s[to]),
    ensures
        tag_run_len(s, from) == to - from,
    decreases to - from,
{
    if from < to {
        lemma_tag_run_exact(s, from + 1, to);
    }
}

/// A tag run stays within the string, holds tag characters only, and stops
/// at a non-tag character or the end.
pub proof fn lemma_tag_run_props(s: Seq<char>, from: int)
    requires
        0 <= from <= s.len(),
    ensures
        0 <= tag_run_len(s, from),
        from + tag_run_len(s, from) <= s.len(),
        forall|j: int| from <= j < from + tag_run_len(s, from) ==> is_tag_char(s[j]),
        from + tag_run_len(s, from) == s.len() || !is_tag_char(s[from + tag_run_len(s, from)]),
    decreases s.len() - from,
{
    if from < s.len() && is_tag_char(s[from]) {
        lemma_tag_run_props(s, from + 1);
    }
}

/// True of the ten ASCII digit characters.
fn char_is_digit(c: char) -> (b: bool)
    ensures
        b == is_digit_char(c),
{
    let v = c as u32;
    48 <= v && v <= 57
}

/// True of the characters a pre-release tag may be written with.
fn char_is_tag(c: char) -> (b: bool)
    ensures
        b == is_tag_char(c),
{
    let v = c as u32;
    (97 <= v && v <= 122) || (65 <= v && v <= 90) || (48 <= v && v <= 57)
}

/// Scan the digit run that starts at `from`; yield its value and its end, or
/// nothing when there is no digit or the value does not fit a `u16`.
fn scan_number(input: &str, from: usize) -> (r: Option<(u16, usize)>)
    requires
        from <= input@.len(),
    ensures
        ({
            let l = digit_run_len(input@, from as int);
            match r {
                Some(p) => l > 0 && p.1 as int == from + l && p.1 <= input@.len() && digits_value(
                    input@.subrange(from as int, from + l),
                ) == p.0 as int,
                None => l == 0 || digits_value(input@.subrange(from as int, from + l))
                    > u16::MAX as int,
            }
        }),
{
    let ghost s = input@;
    let n = input.unicode_len();
    let mut i = from;
    let mut val: u32 = 0;
    proof {
        assert(s.subrange(from as int, from as int) =~= Seq::<char>::empty());
        lemma_digit_run_props(s, from as int);
    }
    while i < n && char_is_digit(input.get_char(i))
        invariant
            from <= i <= n,
            n == s.len(),
            s == input@,
            forall|j: int| from <= j < i ==> is_digit_char(s[j]),
            val as int == digits_value(s.subrange(from as int, i as int)),
            val <= 65535,
        decreases n - i,
    {
        let c = input.get_char(i);
        let d: u32 = (c as u32) - 48;
        let next: u32 = val * 10 + d;
        proof {
            assert(s.subrange(from as int, i + 1).drop_last() =~= s.subrange(
                from as int,
                i as int,
            ));
            assert(s.subrange(from as int, i + 1).last() == s[i as int]);
            assert(digit_char_val(s[i as int]) == d as int);
        }
        if next > 65535 {
            proof {
                let l = digit_run_len(s, from as int);
                lemma_digit_run_min(s, from as int, i + 1);
                lemma_digit_run_props(s, from as int);
                let full = s.subrange(from as int, from + l);
                let pre = s.subrange(from as int, i + 1);
                assert(all_digits(full)) by {
                    assert forall|j: int| 0 <= j < full.len() implies is_digit_char(full[j]) by {
                        assert(full[j] == s[from + j]);
                    }
                }
                assert(pre =~= full.subrange(0, pre.len() as int));
                lemma_digits_value_nonneg(pre);
                lemma_digits_value_extend(pre, full);
            }
            return None;
        }
        val = next;
        i = i + 1;
    }
    proof {
        assert(i == n || !is_digit_char(s[i as int]));
        lemma_digit_run_exact(s, from as int, i as int);
    }
    if i == from {
        None
    } else {
        Some((val as u16, i))
    }
}

/// The end of the tag-character run that starts at `from`.
fn scan_tag_end(input: &str, from: usize) -> (end: usize)
    requires
        from <= input@.len(),
    ensures
        end as int == from + tag_run_len(input@, from as int),
        from <= end <= input@.len(),
{
    let ghost s = input@;
    let n = input.unicode_len();
    let mut i = from;
    while i < n && char_is_tag(input.get_char(i))
        invariant
            from <= i <= n,
            n == s.len(),
            s == input@,
            forall|j: int| from <= j < i ==> is_tag_char(s[j]),
        decreases n - i,
    {
        i = i + 1;
    }
    proof {
        lemma_tag_run_exact(s, from as int, i as int);
    }
    i
}

/// True when the characters of `input` from `from` to `to` are exactly the
/// "alpha" tag.
fn range_is_alpha(input: &str, from: usize, to: usize) -> (b: bool)
    requires
        from <= to <= input@.len(),
    ensures
        b == (input@.subrange(from as int, to as int) == alpha_tag()),
{
    let ghost sub = input@.subrange(from as int, to as int);
    if to - from != 5 {
        proof {
            assert(sub.len() != alpha_tag().len());
        }
        return false;
    }
    let b = input.get_char(from) == 'a' && input.get_char(from + 1) == 'l' && input.get_char(
        from + 2,
    ) == 'p' && input.get_char(from + 3) == 'h' && input.get_char(from + 4) == 'a';
    proof {
        if b {
            assert(sub =~= alpha_tag());
        } else {
            assert(sub[0] == input@[from as int]);
            assert(sub[1] == input@[from + 1]);
            assert(sub[2] == input@[from + 2]);
            assert(sub[3] == input@[from + 3]);
            assert(sub[4] == input@[from + 4]);
        }
    }
    b
}

/// True when the characters of `input` from `from` to `to` are exactly the
/// "beta" tag.
fn range_is_beta(input: &str, from: usize, to: usize) -> (b: bool)
    requires
        from <= to <= input@.len(),
    ensures
        b == (input@.subrange(from as int, to as int) == beta_tag()),
{
    let ghost sub = input@.subrange(from as int, to as int);
    if to - from != 4 {
        proof {
            assert(sub.len() != beta_tag().len());
        }
        return false;
    }
    let b = input.get_char(from) == 'b' && input.get_char(from + 1) == 'e' && input.get_char(
        from + 2,
    ) == 't' && input.get_char(from + 3) == 'a';
    proof {
        if b {
            assert(sub =~= beta_tag());
        } else {
            assert(sub[0] == input@[from as int]);
            assert(sub[1] == input@[from + 1]);
            assert(sub[2] == input@[from + 2]);
            assert(sub[3] == input@[from + 3]);
        }
    }
    b
}

/// Parse the build segment that starts at `b`.
fn parse_build(
    input: &str,
    b: usize,
    major: u16,
    minor: u16,
    patch: u16,
    flag: Option<PreReleaseFlag>,
) -> (r: Result<SemanticVersion, ParseError>)
    requires
        b <= input@.len(),
    ensures
        r == spec_parse_build(input@, b as int, major, minor, patch, flag),
{
    let n = input.unicode_len();
    match scan_number(input, b) {
        None => Err(ParseError::MalformedVersionString),
        Some((value, end)) => {
            if end != n {
                Err(ParseError::MalformedVersionString)
            } else {
                Ok(
                    SemanticVersion {
                        major: major,
                        minor: minor,
                        patch: patch,
                        build_iteration: value,
                        pre_release_flag: flag,
                    },
                )
            }
        },
    }
}

/// Parse what may follow a recognised pre-release tag at position `q`.
fn parse_after_tag(
    input: &str,
    q: usize,
    major: u16,
    minor: u16,
    patch: u16,
    flag: Option<PreReleaseFlag>,
) -> (r: Result<SemanticVersion, ParseError>)
    requires
        q <= input@.len(),
    ensures
        r == spec_parse_after_tag(input@, q as int, major, minor, patch, flag),
{
    let n = input.unicode_len();
    if q == n {
        Ok(
            SemanticVersion {
                major: major,
                minor: minor,
                patch: patch,
                build_iteration: 0,
                pre_release_flag: flag,
            },
        )
    } else {
        let c = input.get_char(q);
        if c == '+' {
            parse_build(input, q + 1, major, minor, patch, flag)
        } else if q + 1 < n && c == '-' && input.get_char(q + 1) == '-' {
            parse_build(input, q + 2, major, minor, patch, flag)
        } else {
            Err(ParseError::MalformedVersionString)
        }
    }
}

/// Parse what may follow the three numeric components at position `p`.
fn parse_tail(input: &str, p: usize, major: u16, minor: u16, patch: u16) -> (r: Result<
    SemanticVersion,
    ParseError,
>)
    requires
        p <= input@.len(),
    ensures
        r == spec_parse_tail(input@, p as int, major, minor, patch),
{
    let n = input.unicode_len();
    if p == n {
        return Ok(
            SemanticVersion {
                major: major,
                minor: minor,
                patch: patch,
                build_iteration: 0,
                pre_release_flag: None,
            },
        );
    }
    let c = input.get_char(p);
    if c == '+' {
        return parse_build(input, p + 1, major, minor, patch, None);
    }
    if c != '-' {
        return Err(ParseError::MalformedVersionString);
    }
    if p + 1 < n && input.get_char(p + 1) == '-' {
        let end = scan_digit_run_end(input, p + 2);
        if end > p + 2 && end == n {
            proof {
                assert(digit_tail(input@, p + 2));
            }
            return parse_build(input, p + 2, major, minor, patch, None);
        }
        proof {
            assert(!digit_tail(input@, p + 2));
        }
    }
    let tag_end = scan_tag_end(input, p + 1);
    if tag_end == p + 1 {
        Err(ParseError::MalformedVersionString)
    } else if range_is_alpha(input, p + 1, tag_end) {
        parse_after_tag(input, tag_end, major, minor, patch, Some(PreReleaseFlag::alpha))
    } else if range_is_beta(input, p + 1, tag_end) {
        parse_after_tag(input, tag_end, major, minor, patch, Some(PreReleaseFlag::beta))
    } else {
        Err(ParseError::UnknownPreReleaseTag)
    }
}

/// The end of the digit run that starts at `from`.
fn scan_digit_run_end(input: &str, from: usize) -> (end: usize)
    requires
        from <= input@.len(),
    ensures
        end as int == from + digit_run_len(input@, from as int),
        from <= end <= input@.len(),
{
    let ghost s = input@;
    let n = input.unicode_len();
    let mut i = from;
    while i < n && char_is_digit(input.get_char(i))
        invariant
            from <= i <= n,
            n == s.len(),
            s == input@,
            forall|j: int| from <= j < i ==> is_digit_char(s[j]),
        decreases n - i,
    {
        i = i + 1;
    }
    proof {
        lemma_digit_run_exact(s, from as int, i as int);
    }
    i
}

/// Parse a version string. The whole input must fit the grammar end to end:
/// three dot-separated numeric components, an optional "-alpha" or "-beta"
/// pre-release tag, and an optional build counter introduced by "+" or "--".
/// The result is exactly what the grammar (`spec_parse`) assigns the input:
/// all-or-nothing, with the error naming why the input was rejected.
pub fn parse(input: &str) -> (r: Result<SemanticVersion, ParseError>)
    ensures
        r == spec_parse(input@),
{
    let n = input.unicode_len();
    let first = match scan_number(input, 0) {
        None => {
            return Err(ParseError::MalformedVersionString);
        },
        Some(p) => p,
    };
    let (major, i1) = first;
    if i1 == n || input.get_char(i1) != '.' {
        return Err(ParseError::MalformedVersionString);
    }
    proof {
        lemma_digit_run_props(input@, i1 + 1);
    }
    let second = match scan_number(input, i1 + 1) {
        None => {
            return Err(ParseError::MalformedVersionString);
        },
        Some(p) => p,
    };
    let (minor, i2) = second;
    if i2 == n || input.get_char(i2) != '.' {
        return Err(ParseError::MalformedVersionString);
    }
    proof {
        lemma_digit_run_props(input@, i2 + 1);
    }
    let third = match scan_number(input, i2 + 1) {
        None => {
            return Err(ParseError::MalformedVersionString);
        },
        Some(p) => p,
    };
    let (patch, i3) = third;
    parse_tail(input, i3, major, minor, patch)
}

/// The round-trip law: parsing the canonical text of any version yields
/// exactly that version, whatever its fields, with the build segment and the
/// pre-release segment present or omitted as rendering demands.
#[verifier::rlimit(100)]
#[verifier::spinoff_prover]
pub proof fn lemma_parse_render_round_trip(v: SemanticVersion)
    ensures
        spec_parse(spec_render(v)) == Ok::<SemanticVersion, ParseError>(v),
{
    let s = spec_render(v);
    let d1 = spec_digits(v.major as nat);
    let d2 = spec_digits(v.minor as nat);
    let d3 = spec_digits(v.patch as nat);
    let pre = spec_pre_release_part(v.pre_release_flag);
    let bld = spec_build_part(v.build_iteration);
    let l1 = d1.len() as int;
    let p2 = l1 + 1;
    let l2 = d2.len() as int;
    let p3 = p2 + l2 + 1;
    let l3 = d3.len() as int;
    let p = p3 + l3;
    lemma_spec_digits_wf(v.major as nat);
    lemma_spec_digits_wf(v.minor as nat);
    lemma_spec_digits_wf(v.patch as nat);
    lemma_spec_digits_value(v.major as nat);
    lemma_spec_digits_value(v.minor as nat);
    lemma_spec_digits_value(v.patch as nat);
    assert(s.len() == p + pre.len() + bld.len());
    assert forall|j: int| 0 <= j < l1 implies s[j] == d1[j] by {}
    assert(s[l1] == '.');
    assert forall|j: int| 0 <= j < l2 implies s[p2 + j] == d2[j] by {}
    assert(s[p2 + l2] == '.');
    assert forall|j: int| 0 <= j < l3 implies s[p3 + j] == d3[j] by {}
    assert forall|j: int| 0 <= j < pre.len() implies s[p + j] == pre[j] by {}
    assert forall|j: int| 0 <= j < bld.len() implies s[p + pre.len() + j] == bld[j] by {}
    // The first numeric component.
    assert(!is_digit_char('.'));
    lemma_digit_run_exact(s, 0, l1);
    assert(s.subrange(0, l1) =~= d1);
    assert(spec_component_ok(s, 0));
    assert(spec_component_val(s, 0) == v.major);
    // The second numeric component.
    lemma_digit_run_exact(s, p2, p2 + l2);
    assert(s.subrange(p2, p2 + l2) =~= d2);
    assert(spec_component_ok(s, p2));
    assert(spec_component_val(s, p2) == v.minor);
    // The third numeric component ends at the end of the input, at the
    // pre-release dash, or at the build plus sign: never at a digit.
    assert(!is_digit_char('-'));
    assert(!is_digit_char('+'));
    if pre.len() > 0 {
        assert(s[p] == pre[0]);
        assert(p < s.len() && !is_digit_char(s[p]));
    } else if bld.len() > 0 {
        assert(s[p] == bld[0]);
        assert(bld[0] == '+');
        assert(p < s.len() && !is_digit_char(s[p]));
    } else {
        assert(p == s.len());
    }
    lemma_digit_run_exact(s, p3, p3 + l3);
    assert(s.subrange(p3, p3 + l3) =~= d3);
    assert(spec_component_ok(s, p3));
    assert(spec_component_val(s, p3) == v.patch);
    // The tail: the pre-release segment, then the build segment.
    lemma_round_trip_tail(v, s, p);
}

/// The tail of the round-trip argument: after the three numeric components
/// of a rendered version, the grammar reads back exactly its pre-release tag
/// and its build counter.
proof fn lemma_round_trip_tail(v: SemanticVersion, s: Seq<char>, p: int)
    requires
        s == spec_render(v),
        p == spec_version_core(v).len(),
        forall|j: int|
            0 <= j < spec_pre_release_part(v.pre_release_flag).len() ==> s[p + j]
                == spec_pre_release_part(v.pre_release_flag)[j],
        forall|j: int|
            0 <= j < spec_build_part(v.build_iteration).len() ==> s[p
                + spec_pre_release_part(v.pre_release_flag).len() + j] == spec_build_part(
                v.build_iteration,
            )[j],
    ensures
        spec_parse_tail(s, p, v.major, v.minor, v.patch) == Ok::<SemanticVersion, ParseError>(v),
{
    let pre = spec_pre_release_part(v.pre_release_flag);
    let bld = spec_build_part(v.build_iteration);
    assert(s.len() == p + pre.len() + bld.len());
    match v.pre_release_flag {
        None => {
            assert(pre.len() == 0);
            if v.build_iteration == 0 {
                assert(p == s.len());
                assert(spec_parse_tail(s, p, v.major, v.minor, v.patch) == Ok::<
                    SemanticVersion,
                    ParseError,
                >(v));
            } else {
                assert(s[p] == '+');
                let d = spec_digits(v.build_iteration as nat);
                assert forall|j: int| 0 <= j < d.len() implies s[p + 1 + j] == d[j] by {
                    assert(s[p + pre.len() + (j + 1)] == bld[j + 1]);
                    assert(bld[j + 1] == d[j]);
                }
                lemma_round_trip_build(v, s, p + 1);
            }
        },
        Some(tag) => {
            let q = p + 1 + (pre.len() - 1);
            assert(s[p] == '-');
            assert(pre[1] != '-');
            // The run of tag characters after the dash is exactly the tag.
            assert forall|j: int| p + 1 <= j < q implies is_tag_char(s[j]) by {
                assert(s[j] == pre[j - p]);
            }
            assert(!is_tag_char('+'));
            if bld.len() > 0 {
                assert(s[q] == bld[0]);
                assert(q < s.len() && !is_tag_char(s[q]));
            } else {
                assert(q == s.len());
            }
            lemma_tag_run_exact(s, p + 1, q);
            let t = tag_run_len(s, p + 1);
            assert(t == pre.len() - 1);
            if tag == PreReleaseFlag::alpha {
                assert(s.subrange(p + 1, p + 1 + t) =~= alpha_tag());
                assert(beta_tag().len() != t);
            } else {
                assert(s.subrange(p + 1, p + 1 + t) =~= beta_tag());
                assert(s.subrange(p + 1, p + 1 + t)[0] == 'b');
                assert(alpha_tag()[0] == 'a');
                assert(s.subrange(p + 1, p + 1 + t) != alpha_tag());
            }
            // After the tag: the end of the input or the build segment.
            if v.build_iteration == 0 {
                assert(q == s.len());
                assert(spec_parse_after_tag(s, q, v.major, v.minor, v.patch, Some(tag)) == Ok::<
                    SemanticVersion,
                    ParseError,
                >(v));
            } else {
                assert(s[q] == '+');
                let d = spec_digits(v.build_iteration as nat);
                assert forall|j: int| 0 <= j < d.len() implies s[q + 1 + j] == d[j] by {
                    assert(s[p + pre.len() + (j + 1)] == bld[j + 1]);
                    assert(bld[j + 1] == d[j]);
                }
                lemma_round_trip_build(v, s, q + 1);
            }
        },
    }
}

/// The build segment of the round-trip argument: the rendered digits of a
/// nonzero build counter, standing at the end of the input, read back as
/// exactly that counter.
proof fn lemma_round_trip_build(v: SemanticVersion, s: Seq<char>, b: int)
    requires
        v.build_iteration > 0,
        0 <= b,
        b + spec_digits(v.build_iteration as nat).len() == s.len(),
        forall|j: int|
            0 <= j < spec_digits(v.build_iteration as nat).len() ==> s[b + j] == spec_digits(
                v.build_iteration as nat,
            )[j],
    ensures
        spec_parse_build(s, b, v.major, v.minor, v.patch, v.pre_release_flag) == Ok::<
            SemanticVersion,
            ParseError,
        >(v),
{
    let d = spec_digits(v.build_iteration as nat);
    lemma_spec_digits_wf(v.build_iteration as nat);
    lemma_spec_digits_value(v.build_iteration as nat);
    assert forall|j: int| b <= j < s.len() implies is_digit_char(s[j]) by {
        assert(s[j] == d[j - b]);
    }
    lemma_digit_run_exact(s, b, s.len() as int);
    assert(s.subrange(b, s.len() as int) =~= d);
}

} // verus!
